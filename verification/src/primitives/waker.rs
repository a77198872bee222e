use vstd::prelude::*;

verus! {

/// What an idle worker does before it looks for work again.
#[derive(Debug, Clone, Copy, PartialEq, Eq, Structural)]
pub enum BackoffStep {
    /// Let other threads run.
    Yield,
    /// Park for the given number of microseconds.
    Park(u64),
}

/// Adaptive backoff.
///
/// - iteration 0: yield
/// - iteration 1..=10: park 100us * iteration
/// - iteration 11+: park 5ms (cap)
///
/// Returns the step to take and the next iteration value.
pub fn backoff(iteration: u32) -> (step: (BackoffStep, u32))
    ensures
        step.0 == (if iteration == 0 {
            BackoffStep::Yield
        } else if iteration <= 10 {
            BackoffStep::Park((100 * iteration) as u64)
        } else {
            BackoffStep::Park(5000)
        }),
        step.1 == (if iteration < u32::MAX {
            iteration + 1
        } else {
            u32::MAX as int
        }),
        step.0 matches BackoffStep::Park(micros) ==> iteration > 0 && 100 <= micros <= 5_000,
        0 < iteration <= 10 ==> step.0 == BackoffStep::Park((iteration * 1_000 / 10) as u64),
        iteration > 10 ==> step.0 == BackoffStep::Park(5_000),
{
    let step = if iteration == 0 {
        BackoffStep::Yield
    } else if iteration <= 10 {
        BackoffStep::Park(100 * (iteration as u64))
    } else {
        BackoffStep::Park(5000)
    };
    (step, iteration.saturating_add(1))
}

} // verus!
