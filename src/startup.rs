use vstd::prelude::*;

verus! {

/// How many times the device is checked, with a pause between, before the
/// last check decides.
pub const AVAILABILITY_RETRIES: u32 = 10;

/// Milliseconds between availability checks.
pub const AVAILABILITY_WAIT_MS: u64 = 200;

/// What to do after an availability check.
#[derive(Clone, Copy, Debug, PartialEq, Eq, Structural)]
pub enum WaitStep {
    /// The device is available: go on.
    Ready,
    /// Not yet: wait `AVAILABILITY_WAIT_MS` and check again.
    Retry,
    /// Still not available after every retry: fatal for the whole pipeline.
    GiveUp,
}

/// Decides after check number `attempt` (counting from zero) whether the
/// device is ready, worth another check, or given up on.
pub fn availability_step(attempt: u32, available: bool) -> (r: WaitStep)
    ensures
        available ==> r == WaitStep::Ready,
        !available && attempt < AVAILABILITY_RETRIES ==> r == WaitStep::Retry,
        !available && attempt >= AVAILABILITY_RETRIES ==> r == WaitStep::GiveUp,
{
    if available {
        WaitStep::Ready
    } else if attempt < AVAILABILITY_RETRIES {
        WaitStep::Retry
    } else {
        WaitStep::GiveUp
    }
}

} // verus!
