//! Backend selection policy: a one-shot decision made before the batch
//! starts, guarding against accidentally expensive retrievals.

use vstd::prelude::*;

verus! {

/// Batches below this size always use the CDN, which is cheap from anywhere.
pub const CDN_BATCH_LIMIT: usize = 50;

/// The storage region the object store is co-located with.
pub const EXPECTED_REGION: &'static str = "us-east-1";

/// The terminal states of the cost guard.
#[derive(Debug, Clone, Copy, PartialEq, Eq, Structural)]
pub enum BackendChoice {
    /// Fetch over the public CDN endpoint.
    Cdn,
    /// Fetch from the paid, requester-pays object store.
    ObjectStore,
    /// Refuse to run: a large batch from a non-co-located caller.
    Aborted,
}

/// What `select_backend` must decide, stated over the batch size, the
/// override flag and the (optionally detected) region.
pub open spec fn spec_select_backend(
    batch_size: nat,
    allow_expensive: bool,
    region: Option<Seq<char>>,
) -> BackendChoice {
    if batch_size < CDN_BATCH_LIMIT as nat {
        BackendChoice::Cdn
    } else if allow_expensive || region == Some(EXPECTED_REGION@) {
        BackendChoice::ObjectStore
    } else {
        BackendChoice::Aborted
    }
}

/// Choose the retrieval backend for a whole run.
///
/// Small batches use the CDN unconditionally. Larger batches use the
/// object store only when the caller overrides the guard or is detected
/// to run co-located with the store; otherwise the run is aborted.
/// `region` is the best-effort detected region, `None` when detection
/// failed.
pub fn select_backend(
    batch_size: usize,
    allow_expensive: bool,
    region: &Option<String>,
) -> (choice: BackendChoice)
    ensures
        choice == spec_select_backend(
            batch_size as nat,
            allow_expensive,
            match *region {
                Some(r) => Some(r@),
                None => None,
            },
        ),
{
    if batch_size < CDN_BATCH_LIMIT {
        BackendChoice::Cdn
    } else if allow_expensive {
        BackendChoice::ObjectStore
    } else {
        match region {
            Some(r) => {
                let expected = String::from_str(EXPECTED_REGION);
                if r.eq(&expected) {
                    BackendChoice::ObjectStore
                } else {
                    BackendChoice::Aborted
                }
            },
            None => BackendChoice::Aborted,
        }
    }
}

} // verus!
