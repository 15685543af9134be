//! The one kind of failure: a call whose arguments are malformed.

use vstd::prelude::*;

verus! {

/// A structural fault in the arguments of a call. Data-dependent
/// degeneracies (missing samples, empty input) are never errors.
#[derive(Clone, Copy, Debug, PartialEq, Eq, Structural)]
pub enum InvalidArgument {
    /// A window or period of zero.
    ZeroPeriod,
    /// Series that should be aligned have different lengths.
    LengthMismatch,
    /// Stops priced from the average true range, without that series.
    MissingAtr,
}

} // verus!
