//! What the capture loop does after each frame: decided here, carried out by the host.
use vstd::prelude::*;
use crate::stitcher::StitchResult;

verus! {

/// Consecutive failures after which the user is asked to scroll slower.
pub const WARN_AFTER_FAILURES: u32 = 15;

/// Width of the live preview, in pixels.
pub const THUMBNAIL_WIDTH: u32 = 500;

/// What the capture loop does next.
#[derive(Debug, Clone, Copy, PartialEq, Eq, Structural)]
pub enum WorkerAction {
    /// Show the grown image (its height and a thumbnail).
    ShowProgress,
    /// Ask the user to scroll slower.
    Warn,
    /// Capture the next frame.
    Continue,
}

/// The failure count after a result: a failure adds one, anything else starts over.
pub open spec fn failures_after(failures: u32, result: StitchResult) -> u32 {
    match result {
        StitchResult::Failure => if failures < u32::MAX { (failures + 1) as u32 } else { failures },
        _ => 0,
    }
}

/// Given the count of consecutive failures so far and the result of the
/// latest frame: the new count and the action to take. The warning comes once,
/// when the count reaches `WARN_AFTER_FAILURES`.
pub fn next_step(failures: u32, result: StitchResult) -> (r: (u32, WorkerAction))
    ensures
        r.0 == failures_after(failures, result),
        r.1 == match result {
            StitchResult::Success => WorkerAction::ShowProgress,
            StitchResult::Stationary => WorkerAction::Continue,
            StitchResult::Failure => if r.0 == WARN_AFTER_FAILURES && failures != r.0 {
                WorkerAction::Warn
            } else {
                WorkerAction::Continue
            },
        },
{
    match result {
        StitchResult::Success => (0, WorkerAction::ShowProgress),
        StitchResult::Stationary => (0, WorkerAction::Continue),
        StitchResult::Failure => {
            let n = failures.saturating_add(1);
            if n == WARN_AFTER_FAILURES && n != failures {
                (n, WorkerAction::Warn)
            } else {
                (n, WorkerAction::Continue)
            }
        },
    }
}

} // verus!
