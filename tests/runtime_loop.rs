use stake_indexer::config::{RunPath, RunPlan};
use stake_indexer::runtime::{initial_state, runtime_step, RuntimeAction, RuntimeEvent, RuntimeState};

fn plan(path: RunPath) -> RunPlan {
    RunPlan { processor_name: "stake_processor", path }
}

#[test]
fn live_run_resumes_after_checkpoint() {
    let p = plan(RunPath::Default { initial_starting_version: Some(40) });
    assert_eq!(initial_state(&p, Some(99)).next_version, 100);
    assert_eq!(initial_state(&p, None).next_version, 40);
    let genesis_plan = plan(RunPath::Default { initial_starting_version: None });
    let s = initial_state(&genesis_plan, None);
    assert_eq!(s, RuntimeState { next_version: 0, ending_version: None, tracks_checkpoint: true });
}

#[test]
fn backfill_and_testing_start_where_configured() {
    let b = plan(RunPath::Backfill {
        backfill_id: "b".to_string(),
        initial_starting_version: 5,
        ending_version: 9,
        overwrite_checkpoint: true,
    });
    assert_eq!(
        initial_state(&b, Some(1000)),
        RuntimeState { next_version: 5, ending_version: Some(9), tracks_checkpoint: false }
    );
    let t = plan(RunPath::Testing { override_starting_version: 3, ending_version: 4 });
    assert_eq!(
        initial_state(&t, Some(1000)),
        RuntimeState { next_version: 3, ending_version: Some(4), tracks_checkpoint: false }
    );
}

#[test]
fn step_continues_then_stops_at_ending_version() {
    let s = RuntimeState { next_version: 0, ending_version: Some(20), tracks_checkpoint: true };
    let (s1, a1) = runtime_step(s, RuntimeEvent::BatchProcessed { start_version: 0, end_version: 9 });
    assert_eq!(a1, RuntimeAction::Continue { checkpoint: Some(9), next_version: 10 });
    assert_eq!(s1.next_version, 10);
    let (_, a2) = runtime_step(s1, RuntimeEvent::BatchProcessed { start_version: 10, end_version: 20 });
    assert_eq!(a2, RuntimeAction::Stop { checkpoint: Some(20) });
}

#[test]
fn step_aborts_on_failure_and_stops_on_stream_end() {
    let s = RuntimeState { next_version: 7, ending_version: None, tracks_checkpoint: false };
    assert_eq!(runtime_step(s, RuntimeEvent::BatchFailed), (s, RuntimeAction::Abort));
    assert_eq!(runtime_step(s, RuntimeEvent::StreamEnded), (s, RuntimeAction::Stop { checkpoint: None }));
    let (_, a) = runtime_step(s, RuntimeEvent::BatchProcessed { start_version: 7, end_version: 8 });
    assert_eq!(a, RuntimeAction::Continue { checkpoint: None, next_version: 9 });
}
