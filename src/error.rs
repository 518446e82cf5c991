use vstd::prelude::*;

verus! {

/// Why a token of a caller-supplied pattern was refused.
#[derive(Clone, Copy, Debug, PartialEq, Eq, Structural)]
pub enum TokenFault {
    /// The token is not an unsigned integer.
    NotAnInteger,
    /// The token is an integer outside the column range 2..=12.
    OutOfRange,
}

/// Errors reported to the caller of the simulation.
#[derive(Clone, Debug, PartialEq, Eq)]
pub enum SimError {
    /// A run of zero trials was requested.
    InvalidTrialCount,
    /// A pattern token could not be used; `token` is the offending text.
    InvalidPatternToken { token: String, fault: TokenFault },
    /// No advance was ever seen on `column`, so the expected number of turns
    /// to reach its top is unbounded.
    DivisionByZeroInExpectation { column: u32 },
}

} // verus!
