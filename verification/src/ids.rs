//! Identifier generation for events.

use vstd::prelude::*;

verus! {

/// Relies on `uuid::Uuid::new_v4` and `Uuid::as_u128`: draws a fresh
/// random version-4 UUID and carries it as its 128-bit value. The result
/// is random; nothing can be promised of it.
#[verifier::external_body]
pub(crate) fn fresh_id() -> u128 {
    uuid::Uuid::new_v4().as_u128()
}

} // verus!
