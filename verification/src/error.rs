//! The one error type of the library.

use ndarray_linalg::error::LinalgError;
use vstd::prelude::*;
use vstd::std_specs::convert::FromSpecImpl;

verus! {

/// `ndarray_linalg::error::LinalgError`, the error of the determinant routine.
/// Nothing is claimed of what such an error holds: it is only ever mapped to
/// [`DMIError::LinalgError`].
#[verifier::external_type_specification]
#[verifier::external_body]
pub struct ExLinalgError(LinalgError);

/// Why a computation stopped. Every failure ends the whole computation: no
/// partial result comes with an error.
#[derive(Debug, Clone, Copy, PartialEq, Eq, Structural)]
pub enum DMIError {
    /// `(agent_n - 1) * (choice_n!)^2` does not fit in `usize`. It is also the
    /// error of a ratio whose denominator is zero, which no denominator is.
    Arithmetic,
    /// An answer is not a category, that is not in `[0, choice_n)`.
    AnswerValsOutOfScope,
    /// A factorial of the ratio does not fit in `usize`.
    FactorialCalc,
    /// The denominator `m! * (n - m)!` of the ratio does not fit in `usize`.
    /// It fits wherever `n!` does, so no operation returns this.
    FactorialMulCalc,
    /// The square of `choice_n!` does not fit in `usize`.
    Exponentiate,
    /// The determinant routine failed.
    LinalgError,
    /// The ratio was asked for `m > n`.
    NLessThanM,
    /// A half of the tasks has fewer tasks than there are categories. No
    /// operation returns this: the payment stage hands `NLessThanM` on as it is.
    PaymentNLessThanM,
    /// One agent or none was given.
    TooFewAgents,
    /// There are fewer tasks than twice the number of categories.
    TooFewTasks,
    /// No agent was given when the normalization factor was computed.
    TooFewAgentsForPaymentCalc,
    /// `choice_n!` does not fit in `usize`.
    PaymentFactorialCalc,
}

impl From<LinalgError> for DMIError {
    fn from(_e: LinalgError) -> (r: DMIError) {
        DMIError::LinalgError
    }
}

impl FromSpecImpl<LinalgError> for DMIError {
    open spec fn obeys_from_spec() -> bool {
        true
    }

    open spec fn from_spec(_e: LinalgError) -> DMIError {
        DMIError::LinalgError
    }
}

} // verus!
