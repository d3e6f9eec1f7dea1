use vstd::prelude::*;

verus! {

/// The failure taxonomy shared by every engine.  A failure is always returned
/// synchronously to the caller and never applied partially: the caller decides
/// whether to abort its enclosing operation.
#[derive(Clone, Copy, Debug, PartialEq, Eq, Structural)]
pub enum AMMError {
    /// A computed amount fell short of a caller-required minimum.
    MinAmount,
    /// A deposit would change the pool's asset ratio.
    NotValidAsset,
    /// A required input quantity or a divisor is zero.
    AmountZero,
    /// An arithmetic intermediate exceeds the representable range.
    Overflow,
    /// A swap's computed output is below the caller's guaranteed minimum.
    SlippageLimitExceeded,
}

} // verus!
