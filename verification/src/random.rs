//! Bytes from the operating system's random source.

use vstd::prelude::*;

verus! {

#[verifier::external_type_specification]
#[verifier::external_body]
pub struct ExRandomError(getrandom::Error);

/// `getrandom::fill` fills the bytes from the operating system's random source,
/// or reports why it cannot. Nothing is claimed of the bytes.
#[verifier::external_body]
fn random_bytes<const N: usize>() -> (r: Result<[u8; N], getrandom::Error>)
{
    let mut bytes = [0_u8; N];
    getrandom::fill(&mut bytes)?;
    Ok(bytes)
}

/// Whether the random source gave this answer.
pub closed spec fn drawn<const N: usize>(answer: Result<[u8; N], getrandom::Error>) -> bool {
    call_ensures(random_bytes::<N>, (), answer)
}

/// Ask the random source for bytes.
pub fn draw<const N: usize>() -> (r: Result<[u8; N], getrandom::Error>)
    ensures
        drawn(r),
{
    random_bytes::<N>()
}

} // verus!
