//! What the inner solvers decide without touching a number: how a run of the minimizer
//! is judged by the way it ended, and the sizes the least-squares problem is set up with.
use vstd::prelude::*;

verus! {

/// The history length of the quasi-Newton minimizer when the caller names none.
pub const DEFAULT_MEMORY: usize = 10;

/// The number of evaluations after which the quasi-Newton minimizer is stopped.
pub const MAX_EVALUATIONS: u32 = 15000;

/// How a run of the minimizer ended, as the optimizer reports it.
#[derive(Clone, Copy, Debug, PartialEq, Eq, Structural)]
pub enum Termination {
    Success,
    StopValueReached,
    FunctionToleranceReached,
    ParameterToleranceReached,
    MaxEvaluationsReached,
    MaxTimeReached,
    Failure,
    InvalidArguments,
    OutOfMemory,
    RoundoffLimited,
    ForcedStop,
}

/// What a run of the minimizer is worth.
#[derive(Clone, Copy, Debug, PartialEq, Eq, Structural)]
pub enum Outcome {
    /// The minimizer stopped of its own accord.
    Converged,
    /// Rounding errors kept the minimizer from going on.
    RoundoffLimited,
    /// The minimizer gave up without saying why.
    Failure,
    /// The run cannot be used.
    Fatal,
}

impl Termination {
    /// Whether the minimizer reports the run as a success.
    pub open spec fn is_success(self) -> bool {
        self is Success || self is StopValueReached || self is FunctionToleranceReached
            || self is ParameterToleranceReached || self is MaxEvaluationsReached
            || self is MaxTimeReached
    }

    /// What the run is worth.
    pub open spec fn spec_outcome(self) -> Outcome {
        if self.is_success() {
            Outcome::Converged
        } else if self is RoundoffLimited {
            Outcome::RoundoffLimited
        } else if self is Failure {
            Outcome::Failure
        } else {
            Outcome::Fatal
        }
    }

    /// What the run is worth: every way of ending that the minimizer counts as a success
    /// is a convergence, a roundoff limit and an unexplained failure are told apart, and
    /// everything else is fatal.
    pub fn outcome(self) -> (out: Outcome)
        ensures
            out == self.spec_outcome(),
    {
        match self {
            Termination::Success => Outcome::Converged,
            Termination::StopValueReached => Outcome::Converged,
            Termination::FunctionToleranceReached => Outcome::Converged,
            Termination::ParameterToleranceReached => Outcome::Converged,
            Termination::MaxEvaluationsReached => Outcome::Converged,
            Termination::MaxTimeReached => Outcome::Converged,
            Termination::RoundoffLimited => Outcome::RoundoffLimited,
            Termination::Failure => Outcome::Failure,
            Termination::InvalidArguments => Outcome::Fatal,
            Termination::OutOfMemory => Outcome::Fatal,
            Termination::ForcedStop => Outcome::Fatal,
        }
    }

    /// Whether the parameters that the minimizer saw last are returned: they are unless
    /// the run is fatal.
    pub fn keeps_result(self) -> (out: bool)
        ensures
            out == !(self.spec_outcome() is Fatal),
    {
        match self.outcome() {
            Outcome::Fatal => false,
            _ => true,
        }
    }
}

/// The history length of the quasi-Newton minimizer: what the caller asks for, or else
/// the default.
pub fn memory_size(requested: Option<usize>) -> (out: usize)
    ensures
        out == match requested {
            Some(size) => size,
            None => DEFAULT_MEMORY,
        },
{
    match requested {
        Some(size) => size,
        None => DEFAULT_MEMORY,
    }
}

/// The number of residuals of the least-squares problem for a target of `size` rows: the
/// real and the imaginary part of every entry. `None` if the number cannot be held.
pub fn residual_count(size: usize) -> (out: Option<usize>)
    ensures
        out matches Some(n) ==> n == 2 * (size * size),
        out is None ==> 2 * (size * size) > usize::MAX,
{
    match size.checked_mul(size) {
        Some(entries) => entries.checked_mul(2),
        None => {
            assert(2 * (size * size) > usize::MAX) by (nonlinear_arith)
                requires
                    size * size > usize::MAX,
            ;
            None
        },
    }
}

/// The number of iterations after which the least-squares solver is stopped: a hundred
/// for every parameter. `None` if the number cannot be held.
pub fn iteration_cap(parameters: usize) -> (out: Option<usize>)
    ensures
        out matches Some(n) ==> n == 100 * parameters,
        out is None ==> 100 * parameters > usize::MAX,
{
    parameters.checked_mul(100)
}

} // verus!
