use qsrs::solvers::{
    iteration_cap, memory_size, residual_count, Termination, Outcome, DEFAULT_MEMORY,
    MAX_EVALUATIONS,
};

#[test]
fn every_success_of_the_minimizer_is_a_convergence() {
    for ended in [
        Termination::Success,
        Termination::StopValueReached,
        Termination::FunctionToleranceReached,
        Termination::ParameterToleranceReached,
        Termination::MaxEvaluationsReached,
        Termination::MaxTimeReached,
    ] {
        assert_eq!(ended.outcome(), Outcome::Converged);
        assert!(ended.keeps_result());
    }
}

#[test]
fn roundoff_and_plain_failure_keep_the_result() {
    assert_eq!(Termination::RoundoffLimited.outcome(), Outcome::RoundoffLimited);
    assert!(Termination::RoundoffLimited.keeps_result());
    assert_eq!(Termination::Failure.outcome(), Outcome::Failure);
    assert!(Termination::Failure.keeps_result());
}

#[test]
fn every_other_way_of_ending_is_fatal() {
    for ended in
        [Termination::InvalidArguments, Termination::OutOfMemory, Termination::ForcedStop]
    {
        assert_eq!(ended.outcome(), Outcome::Fatal);
        assert!(!ended.keeps_result());
    }
}

#[test]
fn the_history_length_defaults_to_ten() {
    assert_eq!(DEFAULT_MEMORY, 10);
    assert_eq!(memory_size(None), 10);
    assert_eq!(memory_size(Some(3)), 3);
    assert_eq!(memory_size(Some(0)), 0);
}

#[test]
fn the_minimizer_is_stopped_after_fifteen_thousand_evaluations() {
    assert_eq!(MAX_EVALUATIONS, 15000);
}

#[test]
fn there_are_two_residuals_for_every_entry_of_the_target() {
    assert_eq!(residual_count(0), Some(0));
    assert_eq!(residual_count(2), Some(8));
    assert_eq!(residual_count(4), Some(32));
    assert_eq!(residual_count(8), Some(128));
    assert_eq!(residual_count(usize::MAX), None);
    assert_eq!(residual_count(1usize << (usize::BITS / 2)), None);
}

#[test]
fn the_least_squares_solver_gets_a_hundred_iterations_for_every_parameter() {
    assert_eq!(iteration_cap(0), Some(0));
    assert_eq!(iteration_cap(6), Some(600));
    assert_eq!(iteration_cap(usize::MAX / 100), Some(usize::MAX / 100 * 100));
    assert_eq!(iteration_cap(usize::MAX / 100 + 1), None);
}
