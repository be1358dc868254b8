//! Batch identifiers.

use vstd::prelude::*;

verus! {

/// Calls `uuid::Uuid::new_v4` and renders the result with `to_string`.
/// Nothing is claimed of the text: it is random. `uuid` panics where the
/// system gives it no random bytes.
#[verifier::external_body]
pub(crate) fn random_uuid_text() -> (id: String) {
    uuid::Uuid::new_v4().to_string()
}

} // verus!
