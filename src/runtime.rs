//! The decisions of the batch loop: where a run starts, and after each batch
//! whether the checkpoint advances and whether the loop goes on.

use vstd::prelude::*;
use crate::config::{RunPath, RunPlan};

verus! {

/// Where the loop stands.
#[derive(Clone, Copy, Debug, PartialEq, Eq, Structural)]
pub struct RuntimeState {
    /// The first version of the next batch to request.
    pub next_version: u64,
    /// The last version to process, for bounded runs.
    pub ending_version: Option<u64>,
    /// Whether successful batches move the stored checkpoint.
    pub tracks_checkpoint: bool,
}

/// What happened to the last request.
#[derive(Clone, Copy, Debug, PartialEq, Eq, Structural)]
pub enum RuntimeEvent {
    /// The batch `start_version..=end_version` was processed and written.
    BatchProcessed { start_version: u64, end_version: u64 },
    /// Processing or writing the batch failed.
    BatchFailed,
    /// The stream has no more transactions.
    StreamEnded,
}

/// What the loop does next.
#[derive(Clone, Copy, Debug, PartialEq, Eq, Structural)]
pub enum RuntimeAction {
    /// Store `checkpoint` (when given) and request from `next_version`.
    Continue { checkpoint: Option<u64>, next_version: u64 },
    /// Store `checkpoint` (when given) and exit normally.
    Stop { checkpoint: Option<u64> },
    /// Exit with the batch's error.
    Abort,
}

/// The state a run starts in: a live run resumes after its stored
/// checkpoint, else from its bootstrap version, else from genesis; a backfill
/// starts at its initial version and a test at its override version.
pub fn initial_state(plan: &RunPlan, stored_checkpoint: Option<u64>) -> (r: RuntimeState)
    ensures
        match plan.path {
            RunPath::Default { initial_starting_version } => {
                &&& r.next_version == match stored_checkpoint {
                    Some(c) => if c < u64::MAX { (c + 1) as u64 } else { c },
                    None => match initial_starting_version {
                        Some(v) => v,
                        None => 0,
                    },
                }
                &&& r.ending_version.is_none()
                &&& r.tracks_checkpoint
            },
            RunPath::Backfill { initial_starting_version, ending_version, overwrite_checkpoint, .. } => {
                &&& r.next_version == initial_starting_version
                &&& r.ending_version == Some(ending_version)
                &&& r.tracks_checkpoint == !overwrite_checkpoint
            },
            RunPath::Testing { override_starting_version, ending_version } => {
                &&& r.next_version == override_starting_version
                &&& r.ending_version == Some(ending_version)
                &&& !r.tracks_checkpoint
            },
        },
{
    match &plan.path {
        RunPath::Default { initial_starting_version } => {
            let next_version = match stored_checkpoint {
                Some(c) => if c < u64::MAX {
                    c + 1
                } else {
                    c
                },
                None => match initial_starting_version {
                    Some(v) => *v,
                    None => 0,
                },
            };
            RuntimeState { next_version, ending_version: None, tracks_checkpoint: true }
        },
        RunPath::Backfill { initial_starting_version, ending_version, overwrite_checkpoint, .. } => RuntimeState {
            next_version: *initial_starting_version,
            ending_version: Some(*ending_version),
            tracks_checkpoint: !*overwrite_checkpoint,
        },
        RunPath::Testing { override_starting_version, ending_version } => RuntimeState {
            next_version: *override_starting_version,
            ending_version: Some(*ending_version),
            tracks_checkpoint: false,
        },
    }
}

/// The run is over once `end_version` reaches its ending version, or the
/// version space.
pub open spec fn run_done(s: RuntimeState, end_version: u64) -> bool {
    end_version == u64::MAX || match s.ending_version {
        Some(e) => end_version >= e,
        None => false,
    }
}

/// The decision after one request.
pub fn runtime_step(state: RuntimeState, event: RuntimeEvent) -> (r: (RuntimeState, RuntimeAction))
    ensures
        match event {
            RuntimeEvent::BatchFailed => r.1 == RuntimeAction::Abort && r.0 == state,
            RuntimeEvent::StreamEnded => r.1 == (RuntimeAction::Stop { checkpoint: None }) && r.0 == state,
            RuntimeEvent::BatchProcessed { start_version, end_version } => {
                let checkpoint = if state.tracks_checkpoint {
                    Some(end_version)
                } else {
                    None
                };
                if run_done(state, end_version) {
                    r.1 == (RuntimeAction::Stop { checkpoint }) && r.0 == state
                } else {
                    &&& r.0 == (RuntimeState { next_version: (end_version + 1) as u64, ..state })
                    &&& r.1 == (RuntimeAction::Continue { checkpoint, next_version: (end_version + 1) as u64 })
                }
            },
        },
{
    match event {
        RuntimeEvent::BatchFailed => (state, RuntimeAction::Abort),
        RuntimeEvent::StreamEnded => (state, RuntimeAction::Stop { checkpoint: None }),
        RuntimeEvent::BatchProcessed { start_version, end_version } => {
            let checkpoint = if state.tracks_checkpoint {
                Some(end_version)
            } else {
                None
            };
            let done = end_version == u64::MAX || match state.ending_version {
                Some(e) => end_version >= e,
                None => false,
            };
            if done {
                (state, RuntimeAction::Stop { checkpoint })
            } else {
                let next_version = end_version + 1;
                (
                    RuntimeState { next_version, ..state },
                    RuntimeAction::Continue { checkpoint, next_version },
                )
            }
        },
    }
}

} // verus!
