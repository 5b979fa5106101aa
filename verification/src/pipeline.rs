//! Per-target composition: derive the metadata key from the target path,
//! interpret the metadata response, and assemble the target's outcome
//! from a decoded archive. The transport that actually moves bytes sits
//! outside; these functions take its status codes and bodies as values.

use vstd::prelude::*;
use vstd::multiset::Multiset;
use vstd::utf8::{decode_utf8, valid_utf8};
use crate::errors::ScanError;
use crate::matcher::ExactMatcher;
use crate::narinfo::{parse_narinfo, spec_parse_narinfo, NarInfo, NarInfoView};
use crate::paths::{hash_from_path, spec_hash_from_path};
use crate::scan::{scan_entries, spec_scan_pairs, MatchResult};
use crate::archive::NarEntry;

verus! {

/// Suffix of the metadata resource key derived from a content hash.
pub const METADATA_SUFFIX: &'static str = ".narinfo";

/// The status code that means "no archive for this hash" rather than an
/// error.
pub const NOT_FOUND_STATUS: u16 = 403;

/// Whether a transport status code counts as success.
pub open spec fn is_success(status: u16) -> bool {
    200 <= status < 300
}

/// The result of processing one target: its path together with every
/// match found in its archive. Produced exactly once per target.
pub struct TargetOutcome {
    pub path: String,
    pub files_matched: MatchResult,
}

/// The key of the metadata resource for a target: its content hash
/// followed by the metadata suffix. Fails exactly when no hash can be
/// derived from the path.
pub fn metadata_request(target: &str) -> (r: Result<String, ScanError>)
    ensures
        match r {
            Ok(key) => spec_hash_from_path(target@) is Some && key@ == spec_hash_from_path(
                target@,
            )->Some_0 + METADATA_SUFFIX@,
            Err(e) => spec_hash_from_path(target@) is None && e is PathParse,
        },
{
    let hash = hash_from_path(target)?;
    Ok(hash.concat(METADATA_SUFFIX))
}

/// Relies on std::str::from_utf8: accepts exactly valid UTF-8, decoding
/// it to its characters.
#[verifier::external_body]
fn bytes_to_text(body: &Vec<u8>) -> (r: Option<String>)
    ensures
        match r {
            Some(s) => valid_utf8(body@) && s@ == decode_utf8(body@),
            None => !valid_utf8(body@),
        },
{
    match std::str::from_utf8(body.as_slice()) {
        Ok(s) => Some(s.to_owned()),
        Err(_) => None,
    }
}

/// Interpret the response to a metadata fetch.
///
/// The not-found status yields no descriptor and no error; any other
/// non-success status is an error carrying the code; a success body must
/// be UTF-8 text that parses as a descriptor.
pub fn metadata_from_response(status: u16, body: &Vec<u8>) -> (r: Result<
    Option<NarInfo>,
    ScanError,
>)
    ensures
        match r {
            Ok(None) => status == NOT_FOUND_STATUS,
            Ok(Some(info)) => is_success(status) && valid_utf8(body@) && spec_parse_narinfo(
                decode_utf8(body@),
            ) == Ok::<NarInfoView, ScanError>(info@),
            Err(e) => status != NOT_FOUND_STATUS && match e {
                ScanError::MetadataStatus(s) => s == status && !is_success(status),
                ScanError::MetadataNotText => is_success(status) && !valid_utf8(body@),
                _ => is_success(status) && valid_utf8(body@) && spec_parse_narinfo(
                    decode_utf8(body@),
                ) == Err::<NarInfoView, ScanError>(e),
            },
        },
{
    if status == NOT_FOUND_STATUS {
        return Ok(None);
    }
    if status < 200 || status >= 300 {
        return Err(ScanError::MetadataStatus(status));
    }
    let text = match bytes_to_text(body) {
        Some(t) => t,
        None => {
            return Err(ScanError::MetadataNotText);
        },
    };
    match parse_narinfo(text.as_str()) {
        Ok(info) => Ok(Some(info)),
        Err(e) => Err(e),
    }
}

/// The outcome of a target whose metadata does not exist: no matches,
/// no error.
pub fn empty_outcome(target: &String) -> (r: TargetOutcome)
    ensures
        r.path@ == target@,
        r.files_matched.wf(),
        r.files_matched.pairs() == Multiset::<(Seq<char>, Seq<char>)>::empty(),
{
    TargetOutcome { path: target.clone(), files_matched: MatchResult::new() }
}

/// The outcome of a target whose archive was decoded: every file entry
/// scanned against the matcher, matches keyed by member path.
pub fn archive_outcome(target: &String, matcher: &ExactMatcher, entries: &Vec<NarEntry>) -> (r:
    TargetOutcome)
    ensures
        r.path@ == target@,
        r.files_matched.wf(),
        r.files_matched.pairs() == spec_scan_pairs(
            entries@.map_values(|e: NarEntry| e@),
            matcher.needle@,
        ),
{
    TargetOutcome { path: target.clone(), files_matched: scan_entries(matcher, entries) }
}

} // verus!
