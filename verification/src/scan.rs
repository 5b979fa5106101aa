//! Accumulating scan results: which member paths of an archive matched
//! under which tags, and the per-target outcome built from them.
//!
//! The mapping keeps every (path, tag) pair, several tags per path; it is
//! held in an outside multimap whose contents are named by an
//! uninterpreted multiset and whose operations are trusted wrappers.

use vstd::prelude::*;
use vstd::multiset::Multiset;
use crate::archive::{EntryKind, NarEntry, NarEntryView};
use crate::matcher::{contains_needle, ExactMatcher, NEEDLE_TAG};

verus! {

#[verifier::external_type_specification]
#[verifier::external_body]
#[verifier::reject_recursive_types(K)]
#[verifier::reject_recursive_types(V)]
#[verifier::reject_recursive_types(S)]
pub struct ExMultiMap<K, V, S>(multimap::MultiMap<K, V, S>);

/// The (key, value) pairs a multimap holds, with multiplicity and
/// without order.
pub uninterp spec fn mm_pairs(m: multimap::MultiMap<String, String>) -> Multiset<
    (Seq<char>, Seq<char>),
>;

/// Whether no key of the multimap holds an empty value vector. Fresh
/// maps are tidy, insertion keeps them tidy, and on tidy maps emptiness
/// agrees with the pair multiset.
pub uninterp spec fn mm_tidy(m: multimap::MultiMap<String, String>) -> bool;

/// Relies on multimap::MultiMap::new: an empty map with no keys.
#[verifier::external_body]
fn mm_new() -> (m: multimap::MultiMap<String, String>)
    ensures
        mm_pairs(m) == Multiset::<(Seq<char>, Seq<char>)>::empty(),
        mm_tidy(m),
{
    multimap::MultiMap::new()
}

/// Relies on multimap::MultiMap::insert: pushes the value onto the
/// key's vector, creating it when absent; nothing else changes.
#[verifier::external_body]
fn mm_insert(m: &mut multimap::MultiMap<String, String>, k: String, v: String)
    ensures
        mm_pairs(*final(m)) == mm_pairs(*old(m)).insert((k@, v@)),
        mm_tidy(*old(m)) ==> mm_tidy(*final(m)),
{
    m.insert(k, v)
}

/// Relies on multimap::MultiMap::is_empty: true exactly when the map has
/// no keys; on a tidy map, exactly when it holds no pairs.
#[verifier::external_body]
fn mm_is_empty(m: &multimap::MultiMap<String, String>) -> (r: bool)
    ensures
        mm_tidy(*m) ==> r == (mm_pairs(*m) == Multiset::<(Seq<char>, Seq<char>)>::empty()),
{
    m.is_empty()
}

/// Relies on multimap::MultiMap::flat_iter: yields every (key, value)
/// pair exactly once, in an unspecified order.
#[verifier::external_body]
fn mm_pair_vec(m: &multimap::MultiMap<String, String>) -> (r: Vec<(String, String)>)
    ensures
        r@.map_values(|p: (String, String)| (p.0@, p.1@)).to_multiset() == mm_pairs(*m),
{
    m.flat_iter().map(|(k, v)| (k.clone(), v.clone())).collect()
}

/// The outcome of scanning one archive: member path to matched tag,
/// one pair per match, several tags per path allowed.
pub struct MatchResult {
    files: multimap::MultiMap<String, String>,
}

/// The pairs contributed by one member whose scan returned `tags`.
pub open spec fn pairs_of(path: Seq<char>, tags: Seq<String>) -> Multiset<(Seq<char>, Seq<char>)>
    decreases tags.len(),
{
    if tags.len() == 0 {
        Multiset::empty()
    } else {
        pairs_of(path, tags.drop_last()).insert((path, tags.last()@))
    }
}

impl MatchResult {
    /// The (path, tag) pairs recorded so far.
    pub closed spec fn pairs(&self) -> Multiset<(Seq<char>, Seq<char>)> {
        mm_pairs(self.files)
    }

    /// Internal well-formedness of the backing map.
    pub closed spec fn wf(&self) -> bool {
        mm_tidy(self.files)
    }

    /// An outcome with no matches.
    pub fn new() -> (r: MatchResult)
        ensures
            r.wf(),
            r.pairs() == Multiset::<(Seq<char>, Seq<char>)>::empty(),
    {
        MatchResult { files: mm_new() }
    }

    /// Record every tag a member's scan returned, keyed by its path.
    pub fn add_tags(&mut self, path: &String, tags: &Vec<String>)
        requires
            old(self).wf(),
        ensures
            final(self).wf(),
            final(self).pairs() == old(self).pairs().add(pairs_of(path@, tags@)),
    {
        let mut i: usize = 0;
        proof {
            assert(tags@.take(0) =~= Seq::<String>::empty());
            assert(self.pairs().add(pairs_of(path@, tags@.take(0))) =~= self.pairs());
        }
        while i < tags.len()
            invariant
                0 <= i <= tags@.len(),
                self.wf(),
                self.pairs() == old(self).pairs().add(pairs_of(path@, tags@.take(i as int))),
            decreases tags@.len() - i,
        {
            mm_insert(&mut self.files, path.clone(), tags[i].clone());
            proof {
                assert(tags@.take(i + 1).drop_last() =~= tags@.take(i as int));
                assert(tags@.take(i + 1).last() == tags@[i as int]);
                assert(old(self).pairs().add(pairs_of(path@, tags@.take(i + 1))) =~= old(
                    self,
                ).pairs().add(pairs_of(path@, tags@.take(i as int))).insert(
                    (path@, tags@[i as int]@),
                ));
            }
            i = i + 1;
        }
        proof {
            assert(tags@.take(tags@.len() as int) =~= tags@);
        }
    }

    /// Whether no member matched at all. An empty outcome is not an
    /// error; it simply reports nothing.
    pub fn is_empty(&self) -> (r: bool)
        requires
            self.wf(),
        ensures
            r == (self.pairs() == Multiset::<(Seq<char>, Seq<char>)>::empty()),
    {
        mm_is_empty(&self.files)
    }

    /// The recorded pairs, in an unspecified order.
    pub fn to_pairs(&self) -> (r: Vec<(String, String)>)
        ensures
            r@.map_values(|p: (String, String)| (p.0@, p.1@)).to_multiset() == self.pairs(),
    {
        mm_pair_vec(&self.files)
    }
}

/// The pairs an archive's entries contribute when matched against a
/// needle: one `(path, tag)` pair for each file entry containing it.
pub open spec fn spec_scan_pairs(entries: Seq<NarEntryView>, needle: Seq<u8>) -> Multiset<
    (Seq<char>, Seq<char>),
>
    decreases entries.len(),
{
    if entries.len() == 0 {
        Multiset::empty()
    } else {
        let rest = spec_scan_pairs(entries.drop_last(), needle);
        let e = entries.last();
        if e.kind is File && contains_needle(e.data, needle) {
            rest.insert((e.path, NEEDLE_TAG@))
        } else {
            rest
        }
    }
}

/// The pairs an archive's entries contribute when each entry's scan
/// already returned its tags: entry `t`'s tags keyed by its path, file
/// entries only.
pub open spec fn spec_collect_pairs(entries: Seq<NarEntryView>, tags: Seq<Seq<String>>) -> Multiset<
    (Seq<char>, Seq<char>),
>
    decreases entries.len(),
{
    if entries.len() == 0 {
        Multiset::empty()
    } else {
        let rest = spec_collect_pairs(entries.drop_last(), tags.drop_last());
        let e = entries.last();
        if e.kind is File {
            rest.add(pairs_of(e.path, tags.last()))
        } else {
            rest
        }
    }
}

/// Accumulate per-entry scan results into an outcome: `tags[t]` are the
/// tags the scan of entry `t` returned. Only file entries contribute;
/// each contributes every one of its tags, keyed by its member path.
/// This is the accumulation step of the per-target pipeline, shared by
/// every matcher variant.
pub fn collect_entry_tags(entries: &Vec<NarEntry>, tags: &Vec<Vec<String>>) -> (r: MatchResult)
    requires
        tags@.len() == entries@.len(),
    ensures
        r.wf(),
        r.pairs() == spec_collect_pairs(
            entries@.map_values(|e: NarEntry| e@),
            tags@.map_values(|t: Vec<String>| t@),
        ),
{
    let mut result = MatchResult::new();
    let ghost views = entries@.map_values(|e: NarEntry| e@);
    let ghost tviews = tags@.map_values(|t: Vec<String>| t@);
    let mut i: usize = 0;
    proof {
        assert(views.take(0) =~= Seq::<NarEntryView>::empty());
        assert(tviews.take(0) =~= Seq::<Seq<String>>::empty());
    }
    while i < entries.len()
        invariant
            0 <= i <= entries@.len(),
            tags@.len() == entries@.len(),
            views == entries@.map_values(|e: NarEntry| e@),
            tviews == tags@.map_values(|t: Vec<String>| t@),
            result.wf(),
            result.pairs() == spec_collect_pairs(views.take(i as int), tviews.take(i as int)),
        decreases entries@.len() - i,
    {
        let entry = &entries[i];
        proof {
            assert(views.take(i + 1).drop_last() =~= views.take(i as int));
            assert(views.take(i + 1).last() == views[i as int]);
            assert(tviews.take(i + 1).drop_last() =~= tviews.take(i as int));
            assert(tviews.take(i + 1).last() == tviews[i as int]);
        }
        if matches!(entry.kind, EntryKind::File) {
            result.add_tags(&entry.path, &tags[i]);
        }
        proof {
            assert(result.pairs() == spec_collect_pairs(views.take(i + 1), tviews.take(i + 1)));
        }
        i = i + 1;
    }
    proof {
        assert(views.take(entries@.len() as int) =~= views);
        assert(tviews.take(entries@.len() as int) =~= tviews);
    }
    result
}

/// Scan every file entry of a decoded archive against the matcher and
/// accumulate the matches, keyed by member path.
pub fn scan_entries(matcher: &ExactMatcher, entries: &Vec<NarEntry>) -> (r: MatchResult)
    ensures
        r.wf(),
        r.pairs() == spec_scan_pairs(entries@.map_values(|e: NarEntry| e@), matcher.needle@),
{
    let mut result = MatchResult::new();
    let ghost views = entries@.map_values(|e: NarEntry| e@);
    let mut i: usize = 0;
    proof {
        assert(views.take(0) =~= Seq::<NarEntryView>::empty());
    }
    while i < entries.len()
        invariant
            0 <= i <= entries@.len(),
            views == entries@.map_values(|e: NarEntry| e@),
            result.wf(),
            result.pairs() == spec_scan_pairs(views.take(i as int), matcher.needle@),
        decreases entries@.len() - i,
    {
        let entry = &entries[i];
        proof {
            assert(views.take(i + 1).drop_last() =~= views.take(i as int));
            assert(views.take(i + 1).last() == views[i as int]);
        }
        if matches!(entry.kind, EntryKind::File) {
            let tags = matcher.matches(entry.data.as_slice());
            result.add_tags(&entry.path, &tags);
            proof {
                if contains_needle(entry@.data, matcher.needle@) {
                    let ghost no_tags = Seq::<String>::empty();
                    assert(tags@.drop_last() =~= no_tags);
                    assert(pairs_of(entry@.path, no_tags) == Multiset::<(Seq<char>, Seq<char>)>::empty());
                    assert(tags@.last() == tags@[0]);
                    assert(pairs_of(entry@.path, tags@) =~= Multiset::<(Seq<char>, Seq<char>)>::empty().insert(
                        (entry@.path, tags@[0]@),
                    ));
                    assert(result.pairs() =~= spec_scan_pairs(views.take(i + 1), matcher.needle@));
                } else {
                    assert(pairs_of(entry@.path, tags@) =~= Multiset::<(Seq<char>, Seq<char>)>::empty());
                    assert(result.pairs() =~= spec_scan_pairs(views.take(i + 1), matcher.needle@));
                }
            }
        } else {
            proof {
                assert(result.pairs() == spec_scan_pairs(views.take(i + 1), matcher.needle@));
            }
        }
        i = i + 1;
    }
    proof {
        assert(views.take(entries@.len() as int) =~= views);
    }
    result
}

} // verus!
