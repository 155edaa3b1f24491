use vstd::prelude::*;

verus! {

/// Why a computation stopped without a result.
#[derive(Clone, Copy, Debug, PartialEq, Eq, Structural)]
pub enum AmortiseError {
    /// A decimal result did not fit, or a division had a zero divisor.
    Overflow,
    /// A date left the calendar's range.
    DateOutOfRange,
    /// The balance-weighted day count of a schedule was zero, so no APR exists.
    ZeroBalanceCurve,
}

} // verus!
