use vstd::prelude::*;

verus! {

/// Smallest code the generator can produce: six decimal digits.
pub const OTP_MIN: i32 = 100000;

/// Largest code the generator can produce: eight decimal digits.
pub const OTP_MAX: i32 = 99999999;

/// A code is well formed exactly when it lies in the generation range.
pub open spec fn spec_is_well_formed(code: i32) -> bool {
    OTP_MIN <= code <= OTP_MAX
}

/// Range check applied to user-supplied codes before any store lookup, so
/// that malformed input is rejected without a round-trip.
pub fn is_well_formed(code: i32) -> (r: bool)
    ensures
        r == spec_is_well_formed(code),
{
    OTP_MIN <= code && code <= OTP_MAX
}

/// Draws a fresh one-time passcode.
///
/// Relies on rand's `thread_rng` and `Rng::gen_range`: a value sampled from a
/// non-empty inclusive range lies within that range, and the call returns
/// normally on a non-empty range. The draw is otherwise unpredictable, so
/// callers may assume nothing beyond the bounds.
#[verifier::external_body]
pub(crate) fn generate() -> (code: i32)
    ensures
        spec_is_well_formed(code),
{
    rand::Rng::gen_range(&mut rand::thread_rng(), OTP_MIN..=OTP_MAX)
}

} // verus!
