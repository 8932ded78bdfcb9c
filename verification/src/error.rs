use vstd::prelude::*;

verus! {

/// Failure of a single computation.
///
/// A failed computation never poisons another one: every input is handled
/// independently, and a batch driver may skip a failed input and go on.
#[derive(Clone, Copy, Debug, PartialEq, Eq, Structural)]
pub enum Error {
    /// The input is rejected before any numeric work: `n` is zero, or the
    /// derived matrix dimension is too large for an `m * m` buffer.
    InvalidInput,
    /// The external linear-algebra step reported a singular matrix or a
    /// failure to converge.
    Inversion,
    /// The number-theory oracle produced values on which the coefficient
    /// formula does not divide exactly or does not fit a signed 64-bit
    /// integer. The formula divides exactly for correct totient and Moebius
    /// values, so this signals a defect in the oracle rather than truncating
    /// silently.
    Arithmetic,
}

impl Error {
    /// A short description, for callers that print the failure.
    pub fn describe(&self) -> (r: &'static str)
        ensures
            *self == Error::InvalidInput ==> r@ == "invalid input"@,
            *self == Error::Inversion ==> r@ == "matrix inversion failed"@,
            *self == Error::Arithmetic ==> r@ == "coefficient arithmetic failed"@,
    {
        match self {
            Error::InvalidInput => "invalid input",
            Error::Inversion => "matrix inversion failed",
            Error::Arithmetic => "coefficient arithmetic failed",
        }
    }
}

} // verus!
