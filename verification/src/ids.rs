//! Identifiers of habits, todos, periods and events: the 128-bit value of a
//! UUID (big-endian, as `uuid::Uuid::as_u128` gives it).
use vstd::prelude::*;

verus! {

/// A UUID held as its 128-bit value.
pub type Id = u128;

/// `uuid::Uuid::new_v4`. Trusted: returns a fresh random UUID as its 128-bit
/// value; which value comes out is left open (it rests on chance).
#[verifier::external_body]
pub(crate) fn new_v4_id() -> (r: Id) {
    uuid::Uuid::new_v4().as_u128()
}

/// The nil UUID (`uuid::Uuid::nil()`): all 128 bits zero, so its value is 0.
pub(crate) fn nil_id() -> (r: Id)
    ensures
        r == 0,
{
    0
}

} // verus!
