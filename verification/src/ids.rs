//! Generated identifiers.

use vstd::prelude::*;

verus! {

/// Relies on uuid's `Uuid::new_v4` and its hyphenated rendering: a fresh
/// random identifier; nothing can be promised of its value beyond the
/// 36-character hyphenated shape.
#[verifier::external_body]
pub(crate) fn uuid_v4_string() -> (r: String)
    ensures
        r@.len() == 36,
{
    uuid::Uuid::new_v4().to_string()
}

} // verus!
