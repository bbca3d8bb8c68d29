use vstd::prelude::*;

verus! {

/// Errors that overflow-safe math operations can return.
#[derive(Copy, Clone, Debug, PartialEq, Eq, PartialOrd, Ord, Structural)]
pub enum MathError {
    /// Arithmetic result exceeds the type's maximum.
    Overflow,
    /// Arithmetic result is below the type's minimum.
    Underflow,
    /// Divisor is zero.
    DivisionByZero,
    /// Argument to a square root is negative.
    NegativeSqrt,
    /// Exponent too large; an intermediate power would overflow.
    ExponentTooLarge,
}

} // verus!
