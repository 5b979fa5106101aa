//! Exact-substring matching: does a fixed needle occur as a contiguous
//! byte run in a buffer, and under which tag.
//!
//! The search runs in time linear in haystack plus needle: it walks the
//! haystack once, falling back through a precomputed failure table of
//! longest borders instead of re-scanning, so no input degenerates into
//! quadratic work.

use vstd::prelude::*;

verus! {

/// The single tag the exact matcher reports.
pub const NEEDLE_TAG: &'static str = "needle";

/// Whether `needle` occurs in `hay` starting at index `i`.
pub open spec fn matches_at(hay: Seq<u8>, needle: Seq<u8>, i: int) -> bool {
    0 <= i && i + needle.len() <= hay.len() && hay.subrange(i, i + needle.len()) == needle
}

/// Whether `needle` occurs anywhere in `hay` as a contiguous run.
pub open spec fn contains_needle(hay: Seq<u8>, needle: Seq<u8>) -> bool {
    exists|i: int| matches_at(hay, needle, i)
}

/// Whether `b` is a border of `p[0..j]`: a proper prefix of it that is
/// also its suffix.
pub open spec fn is_border(p: Seq<u8>, j: int, b: int) -> bool {
    0 <= b < j <= p.len() && p.subrange(0, b) == p.subrange(j - b, j)
}

/// The empty prefix is a border of every nonempty prefix.
proof fn lemma_border_zero(p: Seq<u8>, j: int)
    requires
        1 <= j <= p.len(),
    ensures
        is_border(p, j, 0),
{
    assert(p.subrange(0, 0) =~= p.subrange(j, j));
}

/// A border of a border is a border of the whole prefix.
proof fn lemma_border_compose(p: Seq<u8>, j: int, k: int, b: int)
    requires
        is_border(p, j, k),
        is_border(p, k, b),
    ensures
        is_border(p, j, b),
{
    assert forall|i: int| 0 <= i < b implies p.subrange(0, b)[i] == p.subrange(j - b, j)[i] by {
        assert(p.subrange(0, b)[i] == p.subrange(k - b, k)[i]);
        assert(p.subrange(0, k)[k - b + i] == p.subrange(j - k, j)[k - b + i]);
    }
    assert(p.subrange(0, b) =~= p.subrange(j - b, j));
}

/// Of two borders of the same prefix, the shorter is a border of the
/// longer.
proof fn lemma_border_of_border(p: Seq<u8>, j: int, k: int, b: int)
    requires
        is_border(p, j, k),
        is_border(p, j, b),
        b < k,
    ensures
        is_border(p, k, b),
{
    assert forall|i: int| 0 <= i < b implies p.subrange(0, b)[i] == p.subrange(k - b, k)[i] by {
        assert(p.subrange(0, b)[i] == p.subrange(j - b, j)[i]);
        assert(p.subrange(0, k)[k - b + i] == p.subrange(j - k, j)[k - b + i]);
    }
    assert(p.subrange(0, b) =~= p.subrange(k - b, k));
}

/// A border grows by one when the characters after prefix and suffix
/// agree.
proof fn lemma_border_grow(p: Seq<u8>, j: int, k: int)
    requires
        is_border(p, j, k),
        j + 1 <= p.len(),
        p[j] == p[k],
    ensures
        is_border(p, j + 1, k + 1),
{
    assert forall|i: int| 0 <= i < k + 1 implies #[trigger] p.subrange(0, k + 1)[i] == p.subrange(
        j - k,
        j + 1,
    )[i] by {
        if i < k {
            assert(p.subrange(0, k)[i] == p.subrange(j - k, j)[i]);
        }
    }
    assert(p.subrange(0, k + 1) =~= p.subrange(j - k, j + 1));
}

/// A nonempty border shrinks by one to a border of the prefix one
/// shorter, with agreeing following characters.
proof fn lemma_border_shrink(p: Seq<u8>, j: int, b: int)
    requires
        is_border(p, j + 1, b),
        1 <= b,
    ensures
        is_border(p, j, b - 1),
        p[j] == p[b - 1],
{
    assert forall|i: int| 0 <= i < b - 1 implies #[trigger] p.subrange(0, b - 1)[i] == p.subrange(
        j - (b - 1),
        j,
    )[i] by {
        assert(p.subrange(0, b)[i] == p.subrange(j + 1 - b, j + 1)[i]);
    }
    assert(p.subrange(0, b - 1) =~= p.subrange(j - (b - 1), j));
    assert(p.subrange(0, b)[b - 1] == p.subrange(j + 1 - b, j + 1)[b - 1]);
}

/// The failure table of a pattern: `fail[t]` is the longest border of
/// `p[0..t]`, for `1 <= t <= p.len()`.
fn build_fail(p: &Vec<u8>) -> (fail: Vec<usize>)
    requires
        p@.len() >= 1,
    ensures
        fail@.len() == p@.len() + 1,
        forall|t: int| 1 <= t <= p@.len() ==> is_border(p@, t, #[trigger] fail@[t] as int),
        forall|t: int, b: int|
            1 <= t <= p@.len() && #[trigger] is_border(p@, t, b) ==> b <= fail@[t] as int,
{
    let m = p.len();
    let mut fail: Vec<usize> = Vec::new();
    fail.push(0);
    fail.push(0);
    proof {
        lemma_border_zero(p@, 1);
    }
    let mut k: usize = 0;
    let mut j: usize = 1;
    while j < m
        invariant
            1 <= j <= m,
            m == p@.len(),
            fail@.len() == j + 1,
            (k as int) < j,
            is_border(p@, j as int, k as int) || k == 0,
            forall|b: int| #[trigger] is_border(p@, j as int, b) ==> b <= k as int,
            forall|t: int| 1 <= t <= j ==> is_border(p@, t, #[trigger] fail@[t] as int),
            forall|t: int, b: int|
                1 <= t <= j && #[trigger] is_border(p@, t, b) ==> b <= fail@[t] as int,
        decreases m - j,
    {
        while k > 0 && p[j] != p[k]
            invariant
                1 <= j < m,
                m == p@.len(),
                fail@.len() == j + 1,
                (k as int) < j,
                is_border(p@, j as int, k as int) || k == 0,
                forall|b: int|
                    #[trigger] is_border(p@, j as int, b) && p@[j as int] == p@[b] ==> b
                        <= k as int,
                forall|t: int| 1 <= t <= j ==> is_border(p@, t, #[trigger] fail@[t] as int),
                forall|t: int, b: int|
                    1 <= t <= j && #[trigger] is_border(p@, t, b) ==> b <= fail@[t] as int,
            decreases k,
        {
            let ghost k0 = k as int;
            k = fail[k];
            proof {
                assert(is_border(p@, k0, k as int));
                lemma_border_compose(p@, j as int, k0, k as int);
                assert forall|b: int|
                    #[trigger] is_border(p@, j as int, b) && p@[j as int] == p@[b] implies b
                    <= k as int by {
                    if b == k0 {
                        assert(false);
                    } else if b > k as int {
                        lemma_border_of_border(p@, j as int, k0, b);
                    }
                }
            }
        }
        let ghost jj = j as int;
        if p[j] == p[k] {
            proof {
                if k == 0 {
                    lemma_border_zero(p@, jj);
                }
                lemma_border_grow(p@, jj, k as int);
                assert forall|b: int| #[trigger] is_border(p@, jj + 1, b) implies b <= k as int
                    + 1 by {
                    if b >= 1 {
                        lemma_border_shrink(p@, jj, b);
                    }
                }
            }
            k = k + 1;
        } else {
            proof {
                lemma_border_zero(p@, jj + 1);
                assert forall|b: int| #[trigger] is_border(p@, jj + 1, b) implies b <= 0 by {
                    if b >= 1 {
                        lemma_border_shrink(p@, jj, b);
                        assert(false);
                    }
                }
            }
        }
        fail.push(k);
        j = j + 1;
    }
    fail
}

/// Exact-substring matcher. It owns its needle outright, so one instance
/// can be shared read-only by any number of concurrent scans.
pub struct ExactMatcher {
    pub needle: Vec<u8>,
}

impl ExactMatcher {
    /// Build a matcher owning a copy of the needle bytes.
    pub fn new(needle: Vec<u8>) -> (r: ExactMatcher)
        ensures
            r.needle@ == needle@,
    {
        ExactMatcher { needle }
    }

    /// Position of the first occurrence of the needle in `hay`, if any.
    /// An empty needle occurs at position zero. Runs in time linear in
    /// `hay` plus the needle.
    pub fn find(&self, hay: &[u8]) -> (r: Option<usize>)
        ensures
            match r {
                Some(i) => matches_at(hay@, self.needle@, i as int),
                None => !contains_needle(hay@, self.needle@),
            },
    {
        let n = hay.len();
        let m = self.needle.len();
        if m == 0 {
            proof {
                assert(hay@.subrange(0, 0) =~= self.needle@);
            }
            return Some(0);
        }
        let fail = build_fail(&self.needle);
        let ghost p = self.needle@;
        let mut i: usize = 0;
        let mut j: usize = 0;
        proof {
            assert(p.subrange(0, 0) =~= hay@.subrange(0, 0));
        }
        while i < n
            invariant
                0 <= j <= i <= n,
                (j as int) < m,
                1 <= m,
                n == hay@.len(),
                m == p.len(),
                p == self.needle@,
                fail@.len() == m + 1,
                forall|t: int| 1 <= t <= m ==> is_border(p, t, #[trigger] fail@[t] as int),
                forall|t: int, b: int|
                    1 <= t <= m && #[trigger] is_border(p, t, b) ==> b <= fail@[t] as int,
                p.subrange(0, j as int) == hay@.subrange(i - j, i as int),
                forall|k: int| 0 <= k < i - j ==> !matches_at(hay@, p, k),
            decreases n - i, j,
        {
            if hay[i] == self.needle[j] {
                proof {
                    assert forall|t: int| 0 <= t < j + 1 implies #[trigger] p.subrange(0, j + 1)[t]
                        == hay@.subrange(i - j, i + 1)[t] by {
                        if t < j {
                            assert(p.subrange(0, j as int)[t] == hay@.subrange(i - j, i as int)[t]);
                        }
                    }
                    assert(p.subrange(0, j + 1) =~= hay@.subrange(i - j, i + 1));
                }
                i = i + 1;
                j = j + 1;
                if j == m {
                    proof {
                        assert(p.subrange(0, m as int) =~= p);
                        assert(matches_at(hay@, p, i - m));
                    }
                    return Some(i - m);
                }
            } else {
                if j == 0 {
                    proof {
                        if matches_at(hay@, p, i as int) {
                            assert(hay@.subrange(i as int, i + p.len())[0] == p[0]);
                        }
                        assert(p.subrange(0, 0) =~= hay@.subrange(i + 1, i + 1));
                    }
                    i = i + 1;
                } else {
                    let ghost jj = j as int;
                    let ghost ii = i as int;
                    let newj = fail[j];
                    proof {
                        let f = newj as int;
                        assert(is_border(p, jj, f));
                        assert forall|k: int| 0 <= k < ii - f implies !matches_at(hay@, p, k) by {
                            if k >= ii - jj && matches_at(hay@, p, k) {
                                if k == ii - jj {
                                    assert(hay@.subrange(k, k + p.len())[jj] == p[jj]);
                                    assert(false);
                                } else {
                                    let b = ii - k;
                                    assert forall|t: int| 0 <= t < b implies #[trigger] p.subrange(
                                        0,
                                        b,
                                    )[t] == p.subrange(jj - b, jj)[t] by {
                                        assert(hay@.subrange(k, k + p.len())[t] == p[t]);
                                        assert(p.subrange(0, jj)[jj - b + t] == hay@.subrange(
                                            ii - jj,
                                            ii,
                                        )[jj - b + t]);
                                    }
                                    assert(p.subrange(0, b) =~= p.subrange(jj - b, jj));
                                    assert(is_border(p, jj, b));
                                    assert(false);
                                }
                            }
                        }
                        assert forall|t: int| 0 <= t < f implies #[trigger] p.subrange(0, f)[t]
                            == hay@.subrange(ii - f, ii)[t] by {
                            assert(p.subrange(0, f)[t] == p.subrange(jj - f, jj)[t]);
                            assert(p.subrange(0, jj)[jj - f + t] == hay@.subrange(ii - jj, ii)[jj
                                - f + t]);
                        }
                        assert(p.subrange(0, f) =~= hay@.subrange(ii - f, ii));
                    }
                    j = newj;
                }
            }
        }
        proof {
            assert forall|k: int| !matches_at(hay@, p, k) by {
                if matches_at(hay@, p, k) {
                    assert(k < n - j);
                    assert(false);
                }
            }
        }
        None
    }

    /// Scan a buffer and report the tags under which it matched: exactly
    /// one fixed tag when the needle occurs in the buffer, none when it
    /// does not.
    pub fn matches(&self, hay: &[u8]) -> (tags: Vec<String>)
        ensures
            contains_needle(hay@, self.needle@) ==> tags@.len() == 1 && tags@[0]@ == NEEDLE_TAG@,
            !contains_needle(hay@, self.needle@) ==> tags@.len() == 0,
    {
        let mut tags: Vec<String> = Vec::new();
        if self.find(hay).is_some() {
            tags.push(String::from_str(NEEDLE_TAG));
        }
        tags
    }
}

} // verus!
