use js2wasm::pipeline::{
    child_step, observe_marker, parent_plan, process_exit_code, BuildError, ChildStage, Mode,
    ParentAction, StageEvent,
};

#[test]
fn marker_one_means_child_and_is_cleared() {
    let (mode, left) = observe_marker(Some(b"1".to_vec()));
    assert_eq!(mode, Mode::Child);
    assert_eq!(left, None);
}

#[test]
fn no_marker_means_parent() {
    let (mode, left) = observe_marker(None);
    assert_eq!(mode, Mode::Parent);
    assert_eq!(left, None);
}

#[test]
fn other_marker_values_mean_parent_and_are_kept() {
    let (mode, left) = observe_marker(Some(b"0".to_vec()));
    assert_eq!(mode, Mode::Parent);
    assert_eq!(left, Some(b"0".to_vec()));
    let (mode, left) = observe_marker(Some(b"11".to_vec()));
    assert_eq!(mode, Mode::Parent);
    assert_eq!(left, Some(b"11".to_vec()));
}

#[test]
fn readable_input_spawns_a_marked_child() {
    match parent_plan(true) {
        ParentAction::Spawn { marker } => assert_eq!(marker, b"1".to_vec()),
        ParentAction::RejectInput => panic!("expected a spawn"),
    }
}

#[test]
fn unreadable_input_is_rejected_without_a_spawn() {
    match parent_plan(false) {
        ParentAction::RejectInput => {},
        ParentAction::Spawn { .. } => panic!("expected a rejection"),
    }
}

#[test]
fn snapshot_alone_is_the_output_when_optimize_is_off() {
    let state = ChildStage::AwaitingSnapshot { optimize: false };
    let bytes = vec![0, 97, 115, 109];
    let next = child_step(state, StageEvent::Snapshot { result: Some(bytes.clone()) });
    match next {
        ChildStage::ReadyToWrite { module } => assert_eq!(module, bytes),
        _ => panic!("expected a finished module"),
    }
}

#[test]
fn snapshot_waits_for_the_optimizer_when_optimize_is_on() {
    let state = ChildStage::AwaitingSnapshot { optimize: true };
    let snapshot = vec![1, 2, 3];
    let mid = child_step(state, StageEvent::Snapshot { result: Some(snapshot.clone()) });
    match &mid {
        ChildStage::AwaitingOptimize { snapshot: kept } => assert_eq!(*kept, snapshot),
        _ => panic!("expected to await the optimizer"),
    }
    let optimized = vec![9, 9];
    let done = child_step(mid, StageEvent::Optimize { result: Some(optimized.clone()) });
    match done {
        ChildStage::ReadyToWrite { module } => assert_eq!(module, optimized),
        _ => panic!("expected a finished module"),
    }
}

#[test]
fn snapshot_failure_fails_the_build() {
    let state = ChildStage::AwaitingSnapshot { optimize: true };
    match child_step(state, StageEvent::Snapshot { result: None }) {
        ChildStage::Failed { error } => assert_eq!(error, BuildError::SnapshotFailed),
        _ => panic!("expected a failure"),
    }
}

#[test]
fn optimizer_failure_fails_the_build() {
    let state = ChildStage::AwaitingOptimize { snapshot: vec![1] };
    match child_step(state, StageEvent::Optimize { result: None }) {
        ChildStage::Failed { error } => assert_eq!(error, BuildError::OptimizeRejected),
        _ => panic!("expected a failure"),
    }
}

#[test]
fn optimizing_raw_input_is_refused() {
    let state = ChildStage::AwaitingSnapshot { optimize: true };
    match child_step(state, StageEvent::Optimize { result: Some(vec![1]) }) {
        ChildStage::Failed { error } => assert_eq!(error, BuildError::StageOutOfOrder),
        _ => panic!("expected a failure"),
    }
}

#[test]
fn a_failed_build_stays_failed() {
    let state = ChildStage::Failed { error: BuildError::SnapshotFailed };
    match child_step(state, StageEvent::Optimize { result: Some(vec![1]) }) {
        ChildStage::Failed { error } => assert_eq!(error, BuildError::SnapshotFailed),
        _ => panic!("expected the failure to stay"),
    }
}

#[test]
fn exit_code_ignores_the_update_check() {
    assert_eq!(process_exit_code(true, true), 0);
    assert_eq!(process_exit_code(true, false), 0);
    assert_eq!(process_exit_code(false, true), 1);
    assert_eq!(process_exit_code(false, false), 1);
}
