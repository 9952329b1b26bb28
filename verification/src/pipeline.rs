//! Pipeline orchestrator: a small state machine that decides, for each host
//! event and each intermediate result of one run, what the host-side shell
//! must do next.  The shell performs the commands (list tracks, create the
//! scoped artifact, run the converter, write, install) and feeds the results
//! back; every decision in between is made here.

use vstd::prelude::*;
use crate::classify::{classify, classify_spec, CanonicalVideoRef, DecisionView, PipelineDecision};
use crate::reconcile::{removal_id_spec, stale_track_removal_id, SubtitleTrack};
use crate::convert::{classify_conversion, conversion_result_spec, converter_invocation, ConverterOutcome};
use crate::artifact::{artifact_file_name, artifact_name_spec};

verus! {

/// An event delivered by the host's event loop.
pub enum HostEvent {
    FileLoaded,
    Shutdown,
    Other,
}

/// The top-level loop: waiting for events, or terminated by shutdown.
#[derive(Clone, Copy, Debug, PartialEq, Eq, Structural)]
pub enum LoopState {
    Idle,
    Terminated,
}

/// What the shell does with the event just read.
#[derive(Clone, Copy, Debug, PartialEq, Eq, Structural)]
pub enum LoopDirective {
    StartRun,
    Quit,
    Ignore,
}

/// How one run ended.
#[derive(Clone, Copy, Debug, PartialEq, Eq, Structural)]
pub enum RunOutcome {
    Skipped,
    Installed,
    Aborted,
}

/// Where one run stands between two shell actions.
pub enum RunPhase {
    Reconciling { target: CanonicalVideoRef },
    AwaitingArtifact { target: CanonicalVideoRef },
    AwaitingConversion { target: CanonicalVideoRef, artifact_path: String },
    AwaitingWrite { artifact_path: String },
    AwaitingInstall { artifact_path: String },
    Done { outcome: RunOutcome },
}

/// The next action the shell must perform.  `Finish` closes the run: the
/// shell releases the scoped artifact (whether the run succeeded or not) and
/// goes back to waiting for events.
pub enum RunCommand {
    ListTracks,
    CreateArtifact { file_name: String, remove_first: Option<u64> },
    RunConverter { program: String, args: Vec<String> },
    WriteArtifact { path: String, bytes: Vec<u8> },
    InstallSubtitle { path: String, sub_auto: String, title: String, lang: String },
    Finish { outcome: RunOutcome },
}

/// The run has ended with outcome `oc`, and the shell is told to close it.
pub open spec fn done_with(r: (RunPhase, RunCommand), oc: RunOutcome) -> bool {
    &&& match r.0 {
        RunPhase::Done { outcome } => outcome == oc,
        _ => false,
    }
    &&& match r.1 {
        RunCommand::Finish { outcome } => outcome == oc,
        _ => false,
    }
}

/// One run is handled to completion per media-loaded event; shutdown ends
/// the loop from any state.
pub fn on_host_event(state: LoopState, ev: HostEvent) -> (r: (LoopState, LoopDirective))
    ensures
        state == LoopState::Terminated ==> r == (LoopState::Terminated, LoopDirective::Quit),
        state == LoopState::Idle ==> match ev {
            HostEvent::FileLoaded => r == (LoopState::Idle, LoopDirective::StartRun),
            HostEvent::Shutdown => r == (LoopState::Terminated, LoopDirective::Quit),
            HostEvent::Other => r == (LoopState::Idle, LoopDirective::Ignore),
        },
{
    match state {
        LoopState::Terminated => (LoopState::Terminated, LoopDirective::Quit),
        LoopState::Idle => match ev {
            HostEvent::FileLoaded => (LoopState::Idle, LoopDirective::StartRun),
            HostEvent::Shutdown => (LoopState::Terminated, LoopDirective::Quit),
            HostEvent::Other => (LoopState::Idle, LoopDirective::Ignore),
        },
    }
}

/// Starts one run on the media path: classifies it, and either finishes at
/// once (skip, or a codec domain error that aborts the run) or proceeds to
/// the reconcile step.
pub fn run_start(path: &str) -> (r: (RunPhase, RunCommand))
    ensures
        match classify_spec(path@) {
            Err(_) => done_with(r, RunOutcome::Aborted),
            Ok(DecisionView::Skip) => done_with(r, RunOutcome::Skipped),
            Ok(DecisionView::Resolve(rv)) => (match r.0 {
                RunPhase::Reconciling { target } => target@ == rv,
                _ => false,
            }) && (r.1 matches RunCommand::ListTracks),
        },
{
    match classify(path) {
        Err(_) => (
            RunPhase::Done { outcome: RunOutcome::Aborted },
            RunCommand::Finish { outcome: RunOutcome::Aborted },
        ),
        Ok(PipelineDecision::Skip) => (
            RunPhase::Done { outcome: RunOutcome::Skipped },
            RunCommand::Finish { outcome: RunOutcome::Skipped },
        ),
        Ok(PipelineDecision::Resolve(target)) => (
            RunPhase::Reconciling { target },
            RunCommand::ListTracks,
        ),
    }
}

/// Consumes the track-list snapshot: decides the best-effort removal of the
/// stale track and asks for the scoped artifact, named after the identifier
/// token.
pub fn run_step_tracks(phase: RunPhase, tracks: &Vec<SubtitleTrack>) -> (r: (RunPhase, RunCommand))
    ensures
        match phase {
            RunPhase::Reconciling { target } => (match r.0 {
                RunPhase::AwaitingArtifact { target: t } => t == target,
                _ => false,
            }) && (match r.1 {
                RunCommand::CreateArtifact { file_name, remove_first } => file_name@
                    == artifact_name_spec(target.token@) && remove_first == removal_id_spec(
                    tracks@,
                ),
                _ => false,
            }),
            _ => done_with(r, RunOutcome::Aborted),
        },
{
    match phase {
        RunPhase::Reconciling { target } => {
            let remove_first = stale_track_removal_id(tracks);
            let file_name = artifact_file_name(target.token.as_str());
            (
                RunPhase::AwaitingArtifact { target },
                RunCommand::CreateArtifact { file_name, remove_first },
            )
        },
        _ => (
            RunPhase::Done { outcome: RunOutcome::Aborted },
            RunCommand::Finish { outcome: RunOutcome::Aborted },
        ),
    }
}

/// Consumes the artifact-creation result: aborts the run on an I/O failure,
/// else asks for the converter run on the resolved URL.
pub fn run_step_artifact(phase: RunPhase, created: Option<String>) -> (r: (RunPhase, RunCommand))
    ensures
        match phase {
            RunPhase::AwaitingArtifact { target } => match created {
                None => done_with(r, RunOutcome::Aborted),
                Some(path) => (match r.0 {
                    RunPhase::AwaitingConversion { target: t, artifact_path } => t == target
                        && artifact_path == path,
                    _ => false,
                }) && (match r.1 {
                    RunCommand::RunConverter { program, args } => program@ == "danmu2ass"@
                        && args@.len() == 4 && args@[0]@ == "--no-web"@ && args@[1]@ == "-o"@
                        && args@[2]@ == "-"@ && args@[3]@ == target.source_url@,
                    _ => false,
                }),
            },
            _ => done_with(r, RunOutcome::Aborted),
        },
{
    match phase {
        RunPhase::AwaitingArtifact { target } => match created {
            None => (
                RunPhase::Done { outcome: RunOutcome::Aborted },
                RunCommand::Finish { outcome: RunOutcome::Aborted },
            ),
            Some(path) => {
                let (program, args) = converter_invocation(target.source_url.as_str());
                (
                    RunPhase::AwaitingConversion { target, artifact_path: path },
                    RunCommand::RunConverter { program, args },
                )
            },
        },
        _ => (
            RunPhase::Done { outcome: RunOutcome::Aborted },
            RunCommand::Finish { outcome: RunOutcome::Aborted },
        ),
    }
}

/// Consumes the converter outcome: a spawn failure or failing exit status
/// aborts the run; on success the verbatim output bytes are written to the
/// artifact file.
pub fn run_step_conversion(phase: RunPhase, outcome: ConverterOutcome) -> (r: (
    RunPhase,
    RunCommand,
))
    ensures
        match phase {
            RunPhase::AwaitingConversion { target, artifact_path } => match
                conversion_result_spec(outcome) {
                Ok(bytes) => (match r.0 {
                    RunPhase::AwaitingWrite { artifact_path: p } => p == artifact_path,
                    _ => false,
                }) && (match r.1 {
                    RunCommand::WriteArtifact { path, bytes: b } => path == artifact_path && b
                        == bytes,
                    _ => false,
                }),
                Err(_) => done_with(r, RunOutcome::Aborted),
            },
            _ => done_with(r, RunOutcome::Aborted),
        },
{
    match phase {
        RunPhase::AwaitingConversion { target: _, artifact_path } => match classify_conversion(
            outcome,
        ) {
            Ok(bytes) => {
                let path = artifact_path.clone();
                (
                    RunPhase::AwaitingWrite { artifact_path },
                    RunCommand::WriteArtifact { path, bytes },
                )
            },
            Err(_) => (
                RunPhase::Done { outcome: RunOutcome::Aborted },
                RunCommand::Finish { outcome: RunOutcome::Aborted },
            ),
        },
        _ => (
            RunPhase::Done { outcome: RunOutcome::Aborted },
            RunCommand::Finish { outcome: RunOutcome::Aborted },
        ),
    }
}

/// Consumes the write result: aborts the run on an I/O failure, else asks
/// for the subtitle to be installed with the fixed tags under the exact-match
/// auto-selection policy.
pub fn run_step_write(phase: RunPhase, ok: bool) -> (r: (RunPhase, RunCommand))
    ensures
        match phase {
            RunPhase::AwaitingWrite { artifact_path } => if ok {
                (match r.0 {
                    RunPhase::AwaitingInstall { artifact_path: p } => p == artifact_path,
                    _ => false,
                }) && (match r.1 {
                    RunCommand::InstallSubtitle { path, sub_auto, title, lang } => path
                        == artifact_path && sub_auto@ == "exact"@ && title@ == "danmaku"@ && lang@
                        == "chs"@,
                    _ => false,
                })
            } else {
                done_with(r, RunOutcome::Aborted)
            },
            _ => done_with(r, RunOutcome::Aborted),
        },
{
    match phase {
        RunPhase::AwaitingWrite { artifact_path } => if ok {
            let path = artifact_path.clone();
            (
                RunPhase::AwaitingInstall { artifact_path },
                RunCommand::InstallSubtitle {
                    path,
                    sub_auto: String::from_str("exact"),
                    title: String::from_str("danmaku"),
                    lang: String::from_str("chs"),
                },
            )
        } else {
            (
                RunPhase::Done { outcome: RunOutcome::Aborted },
                RunCommand::Finish { outcome: RunOutcome::Aborted },
            )
        },
        _ => (
            RunPhase::Done { outcome: RunOutcome::Aborted },
            RunCommand::Finish { outcome: RunOutcome::Aborted },
        ),
    }
}

/// Consumes the install result and finishes the run.  A failed install is a
/// fatal run error; either way the shell releases the artifact scope.
pub fn run_step_install(phase: RunPhase, ok: bool) -> (r: (RunPhase, RunCommand))
    ensures
        match phase {
            RunPhase::AwaitingInstall { .. } => if ok {
                done_with(r, RunOutcome::Installed)
            } else {
                done_with(r, RunOutcome::Aborted)
            },
            _ => done_with(r, RunOutcome::Aborted),
        },
{
    match phase {
        RunPhase::AwaitingInstall { artifact_path: _ } => if ok {
            (
                RunPhase::Done { outcome: RunOutcome::Installed },
                RunCommand::Finish { outcome: RunOutcome::Installed },
            )
        } else {
            (
                RunPhase::Done { outcome: RunOutcome::Aborted },
                RunCommand::Finish { outcome: RunOutcome::Aborted },
            )
        },
        _ => (
            RunPhase::Done { outcome: RunOutcome::Aborted },
            RunCommand::Finish { outcome: RunOutcome::Aborted },
        ),
    }
}

} // verus!
