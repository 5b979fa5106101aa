//! Deriving the content hash from a store path: the part of
//! `<root>/<hash>-<name>` between the recognized root prefix and the first
//! hyphen.

use vstd::prelude::*;
use crate::errors::ScanError;
use crate::text::{first_index_of, has_prefix, find_char_from, is_prefix_of, lemma_first_index_of_is};

verus! {

/// The root every scannable target path must start with.
pub const STORE_ROOT: &'static str = "/nix/store/";

/// What hash a target path yields: `None` when the path lacks the root
/// prefix or has no hyphen after it, else the characters between the two.
pub open spec fn spec_hash_from_path(p: Seq<char>) -> Option<Seq<char>> {
    let root = STORE_ROOT@;
    if !is_prefix_of(root, p) {
        None
    } else {
        let base = p.skip(root.len() as int);
        let i = first_index_of(base, '-');
        if i == base.len() {
            None
        } else {
            Some(base.take(i))
        }
    }
}

/// Derive the content hash from a target path.
///
/// Fails exactly when the path does not start with the store root or has
/// no hyphen after it.
pub fn hash_from_path(path: &str) -> (r: Result<String, ScanError>)
    ensures
        match r {
            Ok(h) => spec_hash_from_path(path@) == Some(h@),
            Err(e) => spec_hash_from_path(path@) is None && e is PathParse,
        },
{
    proof {
        reveal_strlit("/nix/store/");
    }
    if !has_prefix(path, STORE_ROOT) {
        return Err(ScanError::PathParse);
    }
    let n = path.unicode_len();
    let root_len = STORE_ROOT.unicode_len();
    let dash = find_char_from(path, n, root_len, '-');
    proof {
        let base = path@.skip(root_len as int);
        assert forall|k: int| 0 <= k < dash - root_len implies base[k] != '-' by {
            assert(base[k] == path@[k + root_len]);
        }
        if dash < n {
            assert(base[dash - root_len] == path@[dash as int]);
        }
        lemma_first_index_of_is(base, '-', dash - root_len);
    }
    if dash == n {
        return Err(ScanError::PathParse);
    }
    let hash = path.substring_char(root_len, dash);
    proof {
        let base = path@.skip(root_len as int);
        assert(base.take(dash - root_len) =~= path@.subrange(root_len as int, dash as int));
    }
    Ok(hash.to_owned())
}

} // verus!
