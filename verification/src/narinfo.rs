//! The archive descriptor and its line-oriented `Key: value` text format.
//!
//! A descriptor names where the packed archive lives, how it is
//! compressed, and its expected uncompressed size. All three fields are
//! required; unknown keys are ignored; on repeated keys the last line
//! wins.

use vstd::prelude::*;
use crate::errors::ScanError;
use crate::text::{first_index_of, has_prefix, find_char_from, is_prefix_of};

verus! {

/// Key introducing the archive location.
pub const KEY_URL: &'static str = "URL: ";

/// Key introducing the compression algorithm name.
pub const KEY_COMPRESSION: &'static str = "Compression: ";

/// Key introducing the expected uncompressed size.
pub const KEY_NAR_SIZE: &'static str = "NarSize: ";

/// Metadata for one archive: where it lives, how it is compressed, and
/// its expected uncompressed size (a capacity hint).
#[derive(Debug, Clone)]
pub struct NarInfo {
    pub url: String,
    pub compression: String,
    pub size: usize,
}

/// Mathematical image of a descriptor.
#[verifier::ext_equal]
pub struct NarInfoView {
    pub url: Seq<char>,
    pub compression: Seq<char>,
    pub size: nat,
}

impl View for NarInfo {
    type V = NarInfoView;

    open spec fn view(&self) -> NarInfoView {
        NarInfoView { url: self.url@, compression: self.compression@, size: self.size as nat }
    }
}

/// The fields gathered so far while scanning descriptor lines.
#[verifier::ext_equal]
pub struct FieldState {
    pub url: Option<Seq<char>>,
    pub compression: Option<Seq<char>>,
    pub size: Option<nat>,
}

/// The state before any line is read.
pub open spec fn init_state() -> FieldState {
    FieldState { url: None, compression: None, size: None }
}

/// Whether `c` is a decimal digit.
pub open spec fn is_digit(c: char) -> bool {
    48 <= c as u32 <= 57
}

/// Numeric value of a digit; zero off the digit range.
pub open spec fn digit_val(c: char) -> nat {
    if is_digit(c) {
        (c as u32 - 48) as nat
    } else {
        0
    }
}

/// Whether every character of `s` is a decimal digit.
pub open spec fn all_digits(s: Seq<char>) -> bool {
    forall|i: int| 0 <= i < s.len() ==> is_digit(s[i])
}

/// Value of a digit string read in base ten.
pub open spec fn digits_val(s: Seq<char>) -> nat
    decreases s.len(),
{
    if s.len() == 0 {
        0
    } else {
        digits_val(s.drop_last()) * 10 + digit_val(s.last())
    }
}

/// Whether `s` is an acceptable size value: nonempty, digits only, and
/// in range of the machine's size type.
pub open spec fn is_size_value(s: Seq<char>) -> bool {
    s.len() > 0 && all_digits(s) && digits_val(s) <= usize::MAX as nat
}

/// A line terminated by a newline loses one carriage return directly
/// before it.
pub open spec fn chomp(line: Seq<char>) -> Seq<char> {
    if line.len() > 0 && line.last() == '\r' {
        line.drop_last()
    } else {
        line
    }
}

/// Effect of one descriptor line on the gathered fields; `None` when the
/// line carries an unacceptable size value.
pub open spec fn apply_line(line: Seq<char>, st: FieldState) -> Option<FieldState> {
    if is_prefix_of(KEY_URL@, line) {
        Some(FieldState { url: Some(line.skip(KEY_URL@.len() as int)), ..st })
    } else if is_prefix_of(KEY_COMPRESSION@, line) {
        Some(FieldState { compression: Some(line.skip(KEY_COMPRESSION@.len() as int)), ..st })
    } else if is_prefix_of(KEY_NAR_SIZE@, line) {
        let d = line.skip(KEY_NAR_SIZE@.len() as int);
        if is_size_value(d) {
            Some(FieldState { size: Some(digits_val(d)), ..st })
        } else {
            None
        }
    } else {
        Some(st)
    }
}

/// Scan the descriptor text line by line, threading the gathered fields.
/// Lines are split at newlines; the final line needs no terminator.
pub open spec fn scan_fields(s: Seq<char>, st: FieldState) -> Option<FieldState>
    decreases s.len(),
{
    if s.len() == 0 {
        Some(st)
    } else {
        let i = first_index_of(s, '\n');
        if 0 <= i < s.len() {
            match apply_line(chomp(s.take(i)), st) {
                Some(st2) => scan_fields(s.skip(i + 1), st2),
                None => None,
            }
        } else {
            apply_line(s, st)
        }
    }
}

/// What parsing descriptor text yields: the three required fields, or the
/// first error the scan runs into.
pub open spec fn spec_parse_narinfo(s: Seq<char>) -> Result<NarInfoView, ScanError> {
    match scan_fields(s, init_state()) {
        None => Err(ScanError::MetadataInvalidSize),
        Some(st) => {
            if st.url is None {
                Err(ScanError::MetadataMissingUrl)
            } else if st.compression is None {
                Err(ScanError::MetadataMissingCompression)
            } else if st.size is None {
                Err(ScanError::MetadataMissingSize)
            } else {
                Ok(
                    NarInfoView {
                        url: st.url->Some_0,
                        compression: st.compression->Some_0,
                        size: st.size->Some_0,
                    },
                )
            }
        },
    }
}

/// The value of a digit string never falls when the string grows.
proof fn lemma_digits_val_prefix(s: Seq<char>, k: int)
    requires
        0 <= k <= s.len(),
    ensures
        digits_val(s.take(k)) <= digits_val(s),
    decreases s.len(),
{
    if k == s.len() {
        assert(s.take(k) =~= s);
    } else {
        let t = s.drop_last();
        assert(s.take(k) =~= t.take(k));
        lemma_digits_val_prefix(t, k);
    }
}

/// Parse a size value: nonempty decimal digits, in range.
pub fn parse_size(d: &str) -> (r: Option<usize>)
    ensures
        match r {
            Some(v) => is_size_value(d@) && v as nat == digits_val(d@),
            None => !is_size_value(d@),
        },
{
    let n = d.unicode_len();
    if n == 0 {
        return None;
    }
    let mut acc: usize = 0;
    let mut i: usize = 0;
    while i < n
        invariant
            0 <= i <= n,
            n == d@.len(),
            all_digits(d@.take(i as int)),
            acc as nat == digits_val(d@.take(i as int)),
        decreases n - i,
    {
        let c = d.get_char(i);
        let cv = c as u32;
        if cv < 48 || cv > 57 {
            assert(!is_digit(d@[i as int]));
            return None;
        }
        let digit = (cv - 48) as usize;
        proof {
            assert(d@.take(i + 1).drop_last() =~= d@.take(i as int));
            assert(d@.take(i + 1).last() == d@[i as int]);
        }
        if acc > (usize::MAX - digit) / 10 {
            proof {
                assert(acc * 10 + digit > usize::MAX) by (nonlinear_arith)
                    requires
                        acc > (usize::MAX - digit) / 10,
                        0 <= digit <= 9,
                ;
                assert(digits_val(d@.take(i + 1)) > usize::MAX as nat);
                lemma_digits_val_prefix(d@, i + 1);
            }
            return None;
        }
        proof {
            assert(acc * 10 + digit <= usize::MAX) by (nonlinear_arith)
                requires
                    acc <= (usize::MAX - digit) / 10,
                    0 <= digit <= 9,
            ;
        }
        acc = acc * 10 + digit;
        i = i + 1;
    }
    proof {
        assert(d@.take(n as int) =~= d@);
    }
    Some(acc)
}

/// View of the gathered exec fields.
pub open spec fn exec_state(
    url: Option<String>,
    compression: Option<String>,
    size: Option<usize>,
) -> FieldState {
    FieldState {
        url: match url {
            Some(u) => Some(u@),
            None => None,
        },
        compression: match compression {
            Some(c) => Some(c@),
            None => None,
        },
        size: match size {
            Some(v) => Some(v as nat),
            None => None,
        },
    }
}

/// Parse descriptor text into its three required fields.
///
/// Recognized keys are `URL`, `Compression` and `NarSize`; unknown keys
/// are ignored; a later line overrides an earlier one. Fails on an
/// unacceptable `NarSize` value or on any missing required key, naming
/// the first omission, `URL` before `Compression` before `NarSize`.
pub fn parse_narinfo(text: &str) -> (r: Result<NarInfo, ScanError>)
    ensures
        match r {
            Ok(info) => spec_parse_narinfo(text@) == Ok::<NarInfoView, ScanError>(info@),
            Err(e) => spec_parse_narinfo(text@) == Err::<NarInfoView, ScanError>(e),
        },
{
    let n = text.unicode_len();
    let mut url: Option<String> = None;
    let mut compression: Option<String> = None;
    let mut size: Option<usize> = None;
    let mut i: usize = 0;
    proof {
        assert(text@.skip(0) =~= text@);
    }
    while i < n
        invariant
            0 <= i <= n,
            n == text@.len(),
            scan_fields(text@, init_state()) == scan_fields(
                text@.skip(i as int),
                exec_state(url, compression, size),
            ),
        decreases n - i,
    {
        let ghost s = text@.skip(i as int);
        let ghost st = exec_state(url, compression, size);
        let j = find_char_from(text, n, i, '\n');
        proof {
            assert(s.len() == n - i);
            assert(first_index_of(s, '\n') == j - i);
        }
        let mut line_end = j;
        if j < n && j > i && text.get_char(j - 1) == '\r' {
            line_end = j - 1;
        }
        let line = text.substring_char(i, line_end);
        let ghost raw = if j < n {
            s.take(j - i)
        } else {
            s
        };
        proof {
            assert(raw =~= text@.subrange(i as int, j as int));
            if j < n {
                if j > i && text@[j - 1] == '\r' {
                    assert(raw.len() > 0 && raw.last() == '\r');
                    assert(chomp(raw) =~= text@.subrange(i as int, j - 1));
                } else {
                    assert(raw.len() > 0 ==> raw.last() == text@[j - 1]);
                    assert(chomp(raw) =~= raw);
                }
                assert(line@ =~= chomp(raw));
            } else {
                assert(line@ =~= raw);
            }
        }
        let line_len = line.unicode_len();
        if has_prefix(line, KEY_URL) {
            let klen = KEY_URL.unicode_len();
            url = Some(line.substring_char(klen, line_len).to_owned());
            proof {
                assert(url->Some_0@ =~= line@.skip(KEY_URL@.len() as int));
            }
        } else if has_prefix(line, KEY_COMPRESSION) {
            let klen = KEY_COMPRESSION.unicode_len();
            compression = Some(line.substring_char(klen, line_len).to_owned());
            proof {
                assert(compression->Some_0@ =~= line@.skip(KEY_COMPRESSION@.len() as int));
            }
        } else if has_prefix(line, KEY_NAR_SIZE) {
            let klen = KEY_NAR_SIZE.unicode_len();
            let value = line.substring_char(klen, line_len);
            proof {
                assert(value@ =~= line@.skip(KEY_NAR_SIZE@.len() as int));
            }
            match parse_size(value) {
                Some(v) => {
                    size = Some(v);
                },
                None => {
                    proof {
                        assert(apply_line(line@, st) is None);
                        assert(scan_fields(s, st) is None);
                    }
                    return Err(ScanError::MetadataInvalidSize);
                },
            }
        }
        proof {
            let st2 = exec_state(url, compression, size);
            assert(apply_line(line@, st) == Some(st2));
            if j < n {
                assert(s.skip(j - i + 1) =~= text@.skip(j + 1));
                assert(scan_fields(s, st) == scan_fields(text@.skip(j + 1), st2));
            } else {
                assert(scan_fields(s, st) == Some(st2));
                assert(text@.skip(n as int) =~= Seq::<char>::empty());
                assert(scan_fields(text@.skip(n as int), st2) == Some(st2));
            }
        }
        if j == n {
            i = n;
        } else {
            i = j + 1;
        }
    }
    proof {
        assert(text@.skip(n as int) =~= Seq::<char>::empty());
        assert(scan_fields(text@, init_state()) == Some(exec_state(url, compression, size)));
    }
    let u = match url {
        Some(u) => u,
        None => {
            return Err(ScanError::MetadataMissingUrl);
        },
    };
    let c = match compression {
        Some(c) => c,
        None => {
            return Err(ScanError::MetadataMissingCompression);
        },
    };
    let z = match size {
        Some(z) => z,
        None => {
            return Err(ScanError::MetadataMissingSize);
        },
    };
    Ok(NarInfo { url: u, compression: c, size: z })
}

} // verus!
