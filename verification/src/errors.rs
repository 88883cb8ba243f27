use vstd::prelude::*;

verus! {

/// Failures of record-store operations: legitimate per-row conditions,
/// distinct from any backend fault. Updates addressed to an absent row match
/// nothing and succeed, so absence surfaces as a lookup result, not an error.
#[derive(Clone, Copy, Debug, PartialEq, Eq, Structural)]
pub enum Error {
    /// A row with the same key already exists.
    Conflict,
}

} // verus!
