//! Identifiers of conversations and messages.
//!
//! Both are `uuid::Uuid` values. The verifier sees a `Uuid` as an opaque
//! value: it can be stored, copied and compared, nothing else.

use uuid::Uuid;
use vstd::prelude::*;

verus! {

/// Makes `uuid::Uuid` known to the verifier, without its contents.
#[verifier::external_type_specification]
#[verifier::external_body]
pub struct ExUuid(Uuid);

/// Calls `<Uuid as PartialEq>::eq`.
///
/// Trusted, not proved: the result is `true` exactly when both values are the
/// same identifier. `Uuid` is a wrapper around sixteen bytes whose `PartialEq`
/// is derived, so `==` compares those bytes and nothing else. This is the one
/// thing that the crate assumes about a `Uuid`.
#[verifier::external_body]
pub(crate) fn same_id(a: &Uuid, b: &Uuid) -> (same: bool)
    ensures
        same == (*a == *b),
{
    a == b
}

} // verus!
