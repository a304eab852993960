//! The build orchestration: the re-exec protocol that separates the parent
//! process from the child that does the heavy conversion work, and the
//! snapshot-then-optimize staging sequence the child runs.
//!
//! The outside work — spawning, piping the script, running the snapshotter
//! and the optimizer — happens elsewhere; this module holds the verified
//! decision logic: which mode an invocation is in, what the parent does,
//! how the child's stages may follow each other, and the process exit code.
use vstd::prelude::*;

verus! {

/// Which role the current invocation plays.
#[derive(Clone, Copy, PartialEq, Eq, Structural, Debug)]
pub enum Mode {
    Parent,
    Child,
}

/// A fatal error of the child's build pipeline.
#[derive(Clone, Copy, PartialEq, Eq, Structural, Debug)]
pub enum BuildError {
    /// The snapshotting collaborator could not produce a module.
    SnapshotFailed,
    /// The optimizer could not read or transform the snapshotted module.
    OptimizeRejected,
    /// A stage was driven out of order; optimization never runs on raw
    /// input.
    StageOutOfOrder,
}

/// The marker value as an abstract byte sequence, if the environment
/// carries one.
pub open spec fn opt_bytes(m: &Option<Vec<u8>>) -> Option<Seq<u8>> {
    match m {
        Some(v) => Some(v@),
        None => None,
    }
}

/// Whether an environment marker denotes child mode: exactly the value `1`.
pub open spec fn is_child_marker(m: Option<Seq<u8>>) -> bool {
    m == Some(seq![49u8])
}

/// The mode an invocation observes from the marker.
pub open spec fn observed_mode(m: Option<Seq<u8>>) -> Mode {
    if is_child_marker(m) {
        Mode::Child
    } else {
        Mode::Parent
    }
}

/// The marker left behind by the observation: a child clears it at once,
/// anything else is kept as it was.
pub open spec fn marker_after_observe(m: Option<Seq<u8>>) -> Option<Seq<u8>> {
    if is_child_marker(m) {
        None
    } else {
        m
    }
}

/// Reads the re-exec marker: yields the mode of this invocation and the
/// marker value the environment must be left with. Child mode clears the
/// marker immediately upon observation.
pub fn observe_marker(marker: Option<Vec<u8>>) -> (r: (Mode, Option<Vec<u8>>))
    ensures
        r.0 == observed_mode(opt_bytes(&marker)),
        opt_bytes(&r.1) == marker_after_observe(opt_bytes(&marker)),
{
    match marker {
        Some(v) => {
            if v.len() == 1 && *v.get(0).unwrap() == 49 {
                proof {
                    assert(v@ =~= seq![49u8]);
                }
                (Mode::Child, None)
            } else {
                (Mode::Parent, Some(v))
            }
        },
        None => (Mode::Parent, None),
    }
}

/// The child-mode marker is observed and honoured exactly once per build:
/// an environment carrying the marker reads as child mode, and the cleared
/// environment the child leaves behind reads as parent mode, so re-invoking
/// the tool from inside the child cannot enter child mode again.
pub proof fn lemma_child_mode_once(env: Option<Seq<u8>>)
    requires
        is_child_marker(env),
    ensures
        observed_mode(env) is Child,
        observed_mode(marker_after_observe(env)) is Parent,
{
}

/// What the parent does after probing the input script.
pub enum ParentAction {
    /// Re-invoke the tool with the child-mode marker set and the script
    /// piped into it.
    Spawn { marker: Vec<u8> },
    /// Report that the input cannot be opened, without spawning anything.
    RejectInput,
}

/// Decides the parent's action: an unreadable input is rejected before any
/// subprocess exists, a readable one is handed to a re-invocation marked as
/// the child.
pub fn parent_plan(input_readable: bool) -> (r: ParentAction)
    ensures
        input_readable ==> (r matches ParentAction::Spawn { marker } && is_child_marker(
            Some(marker@),
        )),
        !input_readable ==> r is RejectInput,
{
    if input_readable {
        let mut marker: Vec<u8> = Vec::new();
        marker.push(49);
        proof {
            assert(marker@ =~= seq![49u8]);
        }
        ParentAction::Spawn { marker }
    } else {
        ParentAction::RejectInput
    }
}

/// The child pipeline's state between stages.
pub enum ChildStage {
    /// Nothing has run yet; `optimize` says whether the platform runs the
    /// optimizer after the snapshot.
    AwaitingSnapshot { optimize: bool },
    /// The snapshot succeeded and the optimizer is still owed.
    AwaitingOptimize { snapshot: Vec<u8> },
    /// A finished module, ready to be written to the output path.
    ReadyToWrite { module: Vec<u8> },
    /// The build failed; nothing may be written.
    Failed { error: BuildError },
}

/// The outcome of one outside stage handed back to the pipeline.
pub enum StageEvent {
    /// The snapshotting collaborator returned a module, or failed.
    Snapshot { result: Option<Vec<u8>> },
    /// The optimizer returned a transformed module, or failed.
    Optimize { result: Option<Vec<u8>> },
}

/// The abstract pipeline state, over byte sequences.
pub enum StageModel {
    AwaitSnapshot { optimize: bool },
    AwaitOptimize { snapshot: Seq<u8> },
    Ready { module: Seq<u8> },
    Failure { error: BuildError },
}

/// The abstract stage outcome.
pub enum EventModel {
    Snapshot { result: Option<Seq<u8>> },
    Optimize { result: Option<Seq<u8>> },
}

/// The abstraction of an exec pipeline state.
pub open spec fn stage_view(s: &ChildStage) -> StageModel {
    match s {
        ChildStage::AwaitingSnapshot { optimize } => StageModel::AwaitSnapshot {
            optimize: *optimize,
        },
        ChildStage::AwaitingOptimize { snapshot } => StageModel::AwaitOptimize {
            snapshot: snapshot@,
        },
        ChildStage::ReadyToWrite { module } => StageModel::Ready { module: module@ },
        ChildStage::Failed { error } => StageModel::Failure { error: *error },
    }
}

/// The abstraction of an exec stage outcome.
pub open spec fn event_view(e: &StageEvent) -> EventModel {
    match e {
        StageEvent::Snapshot { result: Some(b) } => EventModel::Snapshot { result: Some(b@) },
        StageEvent::Snapshot { result: None } => EventModel::Snapshot { result: None },
        StageEvent::Optimize { result: Some(b) } => EventModel::Optimize { result: Some(b@) },
        StageEvent::Optimize { result: None } => EventModel::Optimize { result: None },
    }
}

/// The staging transition relation. A successful snapshot becomes the
/// output when the optimizer is off, else it waits for the optimizer; a
/// failed stage fails the build; an event out of order fails it too, so
/// optimization can never be applied to raw input; finished and failed
/// states absorb every further event.
pub open spec fn stage_next(s: StageModel, e: EventModel) -> StageModel {
    match s {
        StageModel::AwaitSnapshot { optimize } => match e {
            EventModel::Snapshot { result: Some(b) } => if optimize {
                StageModel::AwaitOptimize { snapshot: b }
            } else {
                StageModel::Ready { module: b }
            },
            EventModel::Snapshot { result: None } => StageModel::Failure {
                error: BuildError::SnapshotFailed,
            },
            EventModel::Optimize { .. } => StageModel::Failure {
                error: BuildError::StageOutOfOrder,
            },
        },
        StageModel::AwaitOptimize { .. } => match e {
            EventModel::Optimize { result: Some(b) } => StageModel::Ready { module: b },
            EventModel::Optimize { result: None } => StageModel::Failure {
                error: BuildError::OptimizeRejected,
            },
            EventModel::Snapshot { .. } => StageModel::Failure {
                error: BuildError::StageOutOfOrder,
            },
        },
        StageModel::Ready { module } => StageModel::Ready { module },
        StageModel::Failure { error } => StageModel::Failure { error },
    }
}

/// Drives one stage outcome through the pipeline.
pub fn child_step(state: ChildStage, event: StageEvent) -> (r: ChildStage)
    ensures
        stage_view(&r) == stage_next(stage_view(&state), event_view(&event)),
{
    match state {
        ChildStage::AwaitingSnapshot { optimize } => match event {
            StageEvent::Snapshot { result: Some(b) } => if optimize {
                ChildStage::AwaitingOptimize { snapshot: b }
            } else {
                ChildStage::ReadyToWrite { module: b }
            },
            StageEvent::Snapshot { result: None } => ChildStage::Failed {
                error: BuildError::SnapshotFailed,
            },
            StageEvent::Optimize { .. } => ChildStage::Failed {
                error: BuildError::StageOutOfOrder,
            },
        },
        ChildStage::AwaitingOptimize { .. } => match event {
            StageEvent::Optimize { result: Some(b) } => ChildStage::ReadyToWrite { module: b },
            StageEvent::Optimize { result: None } => ChildStage::Failed {
                error: BuildError::OptimizeRejected,
            },
            StageEvent::Snapshot { .. } => ChildStage::Failed {
                error: BuildError::StageOutOfOrder,
            },
        },
        ChildStage::ReadyToWrite { module } => ChildStage::ReadyToWrite { module },
        ChildStage::Failed { error } => ChildStage::Failed { error },
    }
}

/// The pipeline state after a sequence of stage outcomes.
pub open spec fn stage_run(init: StageModel, events: Seq<EventModel>) -> StageModel
    decreases events.len(),
{
    if events.len() == 0 {
        init
    } else {
        stage_run(stage_next(init, events[0]), events.drop_first())
    }
}

/// A finished pipeline stays finished, whatever else is handed to it.
pub proof fn lemma_ready_absorbs(module: Seq<u8>, events: Seq<EventModel>)
    ensures
        stage_run(StageModel::Ready { module }, events) == (StageModel::Ready { module }),
    decreases events.len(),
{
    if events.len() > 0 {
        lemma_ready_absorbs(module, events.drop_first());
    }
}

/// A failed pipeline stays failed, whatever else is handed to it.
pub proof fn lemma_failure_absorbs(error: BuildError, events: Seq<EventModel>)
    ensures
        stage_run(StageModel::Failure { error }, events) == (StageModel::Failure { error }),
    decreases events.len(),
{
    if events.len() > 0 {
        lemma_failure_absorbs(error, events.drop_first());
    }
}

/// An output module exists only after the snapshot stage has succeeded: any
/// run of the pipeline that ends ready to write began with a successful
/// snapshot. With the optimizer off, the output is exactly the snapshot's
/// bytes; with it on, the output is what the optimizer returned for a
/// module snapshotted first.
pub proof fn lemma_ready_needs_snapshot(optimize: bool, events: Seq<EventModel>, m: Seq<u8>)
    requires
        stage_run(StageModel::AwaitSnapshot { optimize }, events) == (StageModel::Ready {
            module: m,
        }),
    ensures
        events.len() > 0,
        exists|b: Seq<u8>| events[0] == (EventModel::Snapshot { result: Some(b) }),
        !optimize ==> events[0] == (EventModel::Snapshot { result: Some(m) }),
        optimize ==> exists|b: Seq<u8>|
            events[0] == (EventModel::Snapshot { result: Some(b) }) && events.len() > 1
                && events[1] == (EventModel::Optimize { result: Some(m) }),
{
    let e0 = events[0];
    let rest = events.drop_first();
    match e0 {
        EventModel::Snapshot { result } => match result {
            Some(b) => {
                assert(events[0] == (EventModel::Snapshot { result: Some(b) }));
                if optimize {
                    let rest0 = rest[0];
                    if rest.len() == 0 {
                        assert(false);
                    } else {
                        match rest0 {
                            EventModel::Optimize { result } => match result {
                                Some(b2) => {
                                    lemma_ready_absorbs(b2, rest.drop_first());
                                    assert(b2 == m);
                                    assert(events[1] == (EventModel::Optimize {
                                        result: Some(m),
                                    }));
                                },
                                None => {
                                    lemma_failure_absorbs(
                                        BuildError::OptimizeRejected,
                                        rest.drop_first(),
                                    );
                                    assert(false);
                                },
                            },
                            EventModel::Snapshot { .. } => {
                                lemma_failure_absorbs(
                                    BuildError::StageOutOfOrder,
                                    rest.drop_first(),
                                );
                                assert(false);
                            },
                        }
                    }
                } else {
                    lemma_ready_absorbs(b, rest);
                }
            },
            None => {
                lemma_failure_absorbs(BuildError::SnapshotFailed, rest);
                assert(false);
            },
        },
        EventModel::Optimize { .. } => {
            lemma_failure_absorbs(BuildError::StageOutOfOrder, rest);
            assert(false);
        },
    }
}

/// The exit code owed for a build outcome: zero on success, one on failure.
pub open spec fn exit_code_for(build_ok: bool) -> i32 {
    if build_ok {
        0
    } else {
        1
    }
}

/// The overall process exit code. It is a function of the build outcome
/// alone: success or failure of the best-effort update check never changes
/// it.
pub fn process_exit_code(build_ok: bool, _update_check_ok: bool) -> (r: i32)
    ensures
        r == exit_code_for(build_ok),
{
    if build_ok {
        0
    } else {
        1
    }
}

} // verus!
