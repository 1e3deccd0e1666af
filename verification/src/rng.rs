//! The one place the library draws randomness.

use vstd::prelude::*;

verus! {

/// Relies on rand::Rng::gen_range over the half-open integer range `lo..hi`
/// (it returns a value of the range and panics only when the range is empty),
/// with rand::thread_rng supplying the generator. Nothing beyond membership
/// in the range is assumed of the draw.
#[verifier::external_body]
pub(crate) fn random_u64_in(lo: u64, hi: u64) -> (r: u64)
    requires
        lo < hi,
    ensures
        lo <= r < hi,
{
    rand::Rng::gen_range(&mut rand::thread_rng(), lo..hi)
}

} // verus!
