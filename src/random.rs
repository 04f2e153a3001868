//! The calls into outside crates whose results depend on chance.

use rand::Rng;

use vstd::prelude::*;

verus! {

#[verifier::external_type_specification]
#[verifier::external_body]
pub struct ExUuid(uuid::Uuid);

/// Relies on uuid::Uuid::new_v4: a fresh random identifier, of which nothing
/// can be promised.
pub assume_specification[ uuid::Uuid::new_v4 ]() -> (r: uuid::Uuid);

/// Relies on rand::Rng::gen_range over the thread-local generator: a value of
/// the half-open range `0..len`, which must not be empty.
#[verifier::external_body]
pub(crate) fn random_index(len: usize) -> (r: usize)
    requires
        len > 0,
    ensures
        r < len,
{
    rand::thread_rng().gen_range(0..len)
}

/// Relies on rand::Rng::gen_ratio over the thread-local generator: true with a
/// chance of one in `luck`, and always true when `luck` is one; it panics on a
/// zero denominator.
#[verifier::external_body]
pub(crate) fn is_lucky(luck: u32) -> (r: bool)
    requires
        luck > 0,
    ensures
        luck == 1 ==> r,
{
    rand::thread_rng().gen_ratio(1, luck)
}

} // verus!
