//! The local-phase record of a sealed score: which of the untimed correctness gate and the
//! checked timing ran, and how each ended.

use vstd::prelude::*;

verus! {

/// Outcome of a local phase; a later failure does not erase an earlier result.
#[derive(Debug, Clone, Copy, PartialEq, Eq, Structural)]
pub enum PhaseStatus {
    NotRun,
    Passed,
    Failed,
}

impl Default for PhaseStatus {
    /// A phase that has not run.
    fn default() -> (r: Self)
        ensures
            r == PhaseStatus::NotRun,
    {
        PhaseStatus::NotRun
    }
}

/// Local diagnostics that keep the untimed correctness gate apart from checked timing. They
/// never take part in scoring.
#[derive(Debug, Clone, Copy, PartialEq, Eq, Structural)]
pub struct LocalPhases {
    pub correctness: PhaseStatus,
    /// Steps the correctness gate checked; `None` when it gave no count.
    pub correctness_checked_steps: Option<i64>,
    /// `Passed` only after both timed phases complete; `NotRun` means the first timing gate
    /// was never cleared; `Failed` includes an interrupted or partial measurement.
    pub timing: PhaseStatus,
}

impl Default for LocalPhases {
    /// Nothing has run yet: both phases `NotRun`, zero checked steps.
    fn default() -> (r: Self)
        ensures
            r == (LocalPhases {
                correctness: PhaseStatus::NotRun,
                correctness_checked_steps: Some(0),
                timing: PhaseStatus::NotRun,
            }),
    {
        LocalPhases {
            correctness: PhaseStatus::NotRun,
            correctness_checked_steps: Some(0),
            timing: PhaseStatus::NotRun,
        }
    }
}

} // verus!
