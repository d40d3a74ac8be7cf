//! Job orchestrator: the state machine that takes one job from the start
//! request through fetching to assembly, or to cancellation or failure.
//!
//! The orchestrator spawns nothing and touches no file. Its caller resolves
//! the page, runs the workers and the assembly backend, and hands in what
//! happened; the orchestrator keeps the state of the job, its progress
//! counter, its cancellation token and its status line, and says what to do
//! next.

use crate::cancel::CancellationToken;
use crate::job::{Job, JobView};
use crate::layout::{job_dir, job_dir_spec, manifest_path, manifest_path_spec};
use crate::manifest::{
    assembly_error_message,
    assembly_result,
    assembly_result_spec,
    backend_for,
    select_backend,
    Backend,
};
use crate::partition::{chained, is_partition, lemma_plan_spec, plan_intervals, plan_spec, within};
use crate::progress::{log_message, reset_counter, Progress, ProgressCounter, StatusLog};
use vstd::prelude::*;
use vstd::string::StringExecFns;

verus! {

/// Milliseconds that are left to writes under way, after the workers of a
/// cancelled job have been told to stop and before their files are removed.
pub const CANCEL_GRACE_MILLIS: u64 = 1000;

/// The states of a job.
#[derive(Clone, Copy, Debug, PartialEq, Eq, Structural)]
pub enum JobState {
    /// No job is under way.
    Idle,
    /// A job is under way.
    Running,
    /// The job has ended with its video in place.
    Completed,
    /// The job was cancelled by the user.
    Cancelled,
    /// The job has ended without its video.
    Failed,
}

/// The states of a job, with the stages that a running job goes through.
#[derive(Clone, Copy, Debug, PartialEq, Eq, Structural)]
pub enum Phase {
    /// No job is under way.
    Idle,
    /// Running: the page is being resolved to a stream.
    Resolving,
    /// Running: the workers are fetching frames.
    Fetching,
    /// Running: the backend is assembling the video.
    Assembling { backend: Backend },
    /// The job has ended with its video in place.
    Completed,
    /// The job was cancelled by the user.
    Cancelled,
    /// The job has ended without its video.
    Failed,
}

/// The state that a phase belongs to.
pub open spec fn state_of(phase: Phase) -> JobState {
    match phase {
        Phase::Idle => JobState::Idle,
        Phase::Resolving => JobState::Running,
        Phase::Fetching => JobState::Running,
        Phase::Assembling { .. } => JobState::Running,
        Phase::Completed => JobState::Completed,
        Phase::Cancelled => JobState::Cancelled,
        Phase::Failed => JobState::Failed,
    }
}

/// A job is under way.
pub open spec fn is_running(phase: Phase) -> bool {
    state_of(phase) == JobState::Running
}

/// The job has ended and has not been cleared away yet.
pub open spec fn is_ended(phase: Phase) -> bool {
    phase is Completed || phase is Cancelled || phase is Failed
}

/// The frames of the job are being fetched or have been: the job is known.
pub open spec fn has_job(phase: Phase) -> bool {
    phase is Fetching || phase is Assembling
}

/// What the orchestrator is told.
#[derive(Debug, PartialEq, Eq)]
pub enum JobEvent {
    /// The user asks for a job to be started.
    StartRequested,
    /// The page has been resolved: this is the job, and the number of workers
    /// that can run at once.
    Resolved { job: Job, parallelism: usize },
    /// The page could not be resolved, for this reason.
    ResolutionFailed { reason: String },
    /// A worker has written a frame.
    FrameWritten,
    /// A worker has given up a frame, which stays a gap: this is its message.
    GapReported { message: String },
    /// All workers have ended. `output_exists` says whether the finished
    /// video is in place already; `tool_available` says whether the external
    /// tool was found, and is looked at only where the video is not in place.
    WorkersJoined { output_exists: bool, tool_available: bool },
    /// A worker has ended with an error that is none of a single frame, for
    /// this reason.
    WorkerFailed { reason: String },
    /// The user asks for the job to be cancelled.
    CancelRequested,
    /// The backend has ended, with this exit code if it gave one.
    AssemblyEnded { exit_code: Option<i32> },
    /// The end of the job has been taken note of.
    Reset,
    /// There is something to tell the user that is none of the job's own
    /// messages.
    Notice { message: String },
}

/// What the orchestrator is told, as plain values.
pub enum JobEventView {
    StartRequested,
    Resolved { job: JobView, parallelism: int },
    ResolutionFailed { reason: Seq<char> },
    FrameWritten,
    GapReported { message: Seq<char> },
    WorkersJoined { output_exists: bool, tool_available: bool },
    WorkerFailed { reason: Seq<char> },
    CancelRequested,
    AssemblyEnded { exit_code: Option<i32> },
    Reset,
    Notice { message: Seq<char> },
}

impl View for JobEvent {
    type V = JobEventView;

    open spec fn view(&self) -> JobEventView {
        match self {
            JobEvent::StartRequested => JobEventView::StartRequested,
            JobEvent::Resolved { job, parallelism } => JobEventView::Resolved {
                job: job@,
                parallelism: *parallelism as int,
            },
            JobEvent::ResolutionFailed { reason } => JobEventView::ResolutionFailed {
                reason: reason@,
            },
            JobEvent::FrameWritten => JobEventView::FrameWritten,
            JobEvent::GapReported { message } => JobEventView::GapReported { message: message@ },
            JobEvent::WorkersJoined { output_exists, tool_available } => {
                JobEventView::WorkersJoined {
                    output_exists: *output_exists,
                    tool_available: *tool_available,
                }
            },
            JobEvent::WorkerFailed { reason } => JobEventView::WorkerFailed { reason: reason@ },
            JobEvent::CancelRequested => JobEventView::CancelRequested,
            JobEvent::AssemblyEnded { exit_code } => JobEventView::AssemblyEnded {
                exit_code: *exit_code,
            },
            JobEvent::Reset => JobEventView::Reset,
            JobEvent::Notice { message } => JobEventView::Notice { message: message@ },
        }
    }
}

impl JobEventView {
    /// A job is resolved for at least one worker, and the job is well formed.
    pub open spec fn wf(self) -> bool {
        self matches JobEventView::Resolved { job, parallelism } ==> parallelism >= 1 && job.wf()
    }
}

/// What the orchestrator asks for.
#[derive(Debug, PartialEq, Eq)]
pub enum JobAction {
    /// Resolve the page to a stream.
    Resolve,
    /// Create the directory `job_dir` and run one worker on each interval.
    SpawnWorkers { job_dir: String, intervals: Vec<(i32, i32)> },
    /// Show the progress.
    PublishProgress { progress: Progress },
    /// Build the manifest at `manifest_path` and have `backend` assemble the
    /// video at `output_path` from it.
    Assemble { backend: Backend, manifest_path: String, output_path: String },
    /// The video is in place: remove the frames under `job_dir`.
    RemoveFrames { job_dir: String },
    /// The video was in place already: there is nothing left to do.
    ReportSuccess,
    /// Stop the workers, by force where they do not stop by themselves, wait
    /// for `grace_millis` milliseconds, then remove every job directory under
    /// the storage root.
    AbortAndCleanUp { grace_millis: u64 },
    /// The job has failed: whatever was fetched stays where it is.
    ReportFailure,
    /// The request to start a job is turned down: one is under way, or the
    /// end of the last one has not been taken note of.
    Reject,
    /// The event has been taken note of and needs nothing done.
    Nothing,
    /// The event does not fit the state: it is passed over and nothing
    /// changes.
    Ignore,
}

/// What the orchestrator asks for, as plain values.
pub enum JobActionView {
    Resolve,
    SpawnWorkers { job_dir: Seq<char>, intervals: Seq<(i32, i32)> },
    PublishProgress { progress: Progress },
    Assemble { backend: Backend, manifest_path: Seq<char>, output_path: Seq<char> },
    RemoveFrames { job_dir: Seq<char> },
    ReportSuccess,
    AbortAndCleanUp { grace_millis: u64 },
    ReportFailure,
    Reject,
    Nothing,
    Ignore,
}

impl View for JobAction {
    type V = JobActionView;

    open spec fn view(&self) -> JobActionView {
        match self {
            JobAction::Resolve => JobActionView::Resolve,
            JobAction::SpawnWorkers { job_dir, intervals } => JobActionView::SpawnWorkers {
                job_dir: job_dir@,
                intervals: intervals@,
            },
            JobAction::PublishProgress { progress } => JobActionView::PublishProgress {
                progress: *progress,
            },
            JobAction::Assemble { backend, manifest_path, output_path } => JobActionView::Assemble {
                backend: *backend,
                manifest_path: manifest_path@,
                output_path: output_path@,
            },
            JobAction::RemoveFrames { job_dir } => JobActionView::RemoveFrames {
                job_dir: job_dir@,
            },
            JobAction::ReportSuccess => JobActionView::ReportSuccess,
            JobAction::AbortAndCleanUp { grace_millis } => JobActionView::AbortAndCleanUp {
                grace_millis: *grace_millis,
            },
            JobAction::ReportFailure => JobActionView::ReportFailure,
            JobAction::Reject => JobActionView::Reject,
            JobAction::Nothing => JobActionView::Nothing,
            JobAction::Ignore => JobActionView::Ignore,
        }
    }
}

/// The orchestrator as plain values.
pub struct OrchestratorView {
    /// Where the job stands.
    pub phase: Phase,
    /// The progress counter: frames written so far.
    pub written: int,
    /// The progress counter: frames of the job.
    pub total: int,
    /// The cancellation token: whether it is set.
    pub cancelled: bool,
    /// The status line: the latest message.
    pub status: Option<Seq<char>>,
    /// The job, from the time it is known until it ends.
    pub job: Option<JobView>,
}

impl OrchestratorView {
    /// What holds of the orchestrator at all times: the counter stays within
    /// the frames of the job and is at zero unless frames are being fetched
    /// or assembled; the job is known exactly while they are; and the token
    /// is not set while a job runs and is set once it has been cancelled.
    pub open spec fn wf(self) -> bool {
        &&& 0 <= self.written <= self.total <= i32::MAX
        &&& !has_job(self.phase) ==> self.written == 0
        &&& has_job(self.phase) <==> self.job is Some
        &&& self.job matches Some(job) ==> job.wf() && job.total_frames == self.total
        &&& is_running(self.phase) ==> !self.cancelled
        &&& self.phase is Cancelled ==> self.cancelled
    }
}

/// Status message of a job that has been asked for.
pub open spec fn starting_message() -> Seq<char> {
    "Fetching Information..."@
}

/// Status message of a job whose workers have been started.
pub open spec fn fetching_message() -> Seq<char> {
    "Download Started...Please wait"@
}

/// Status message of a job whose video is being assembled.
pub open spec fn assembling_message(backend: Backend) -> Seq<char> {
    match backend {
        Backend::Native => "Video processing started...Please wait"@,
        Backend::ExternalTool => "FFMPEG Detected.\nVideo processing started...Please wait"@,
    }
}

/// Status message of a job whose video is in place under `root`.
pub open spec fn success_message(root: Seq<char>) -> Seq<char> {
    "SUCCESS!!! Output Saved to : "@ + root
}

/// Status message of a job that was cancelled.
pub open spec fn cancelled_message() -> Seq<char> {
    "Download cancelled"@
}

/// Status message of a job that has lost a worker.
pub open spec fn worker_failure_message(reason: Seq<char>) -> Seq<char> {
    "Thread failed: "@ + reason
}

/// The orchestrator after a job has ended in `phase` with `status` as its
/// last message: the counter is back at zero and the job is let go.
pub open spec fn ended(
    orchestrator: OrchestratorView,
    phase: Phase,
    status: Seq<char>,
) -> OrchestratorView {
    OrchestratorView { phase, written: 0, status: Some(status), job: None, ..orchestrator }
}

/// The orchestrator's rule: its state after `event`, and what it asks for.
///
/// A start request is taken only while no job is under way: the counter is
/// set to zero, a fresh token is made, and the page is to be resolved. The
/// resolved job is split over the workers, which are to be spawned. While
/// frames are fetched each written frame is counted and its progress
/// published, and each gap is shown in the status line. When the workers
/// have ended, a video that is in place ends the job as completed at once;
/// else the backend is chosen and the video is to be assembled. A backend
/// that succeeds completes the job, and the frames are to be removed; one
/// that fails fails the job, and the frames stay. A worker that is lost, or
/// a page that cannot be resolved, fails the job. Cancelling a running job
/// sets the token and asks for the workers to be stopped and the job
/// directories to be removed. However a job ends, its counter is back at
/// zero. An event that does not fit the state changes nothing.
pub open spec fn orchestrator_step(orchestrator: OrchestratorView, event: JobEventView) -> (
    OrchestratorView,
    JobActionView,
) {
    match event {
        JobEventView::StartRequested => if orchestrator.phase is Idle {
            (
                OrchestratorView {
                    phase: Phase::Resolving,
                    written: 0,
                    cancelled: false,
                    status: Some(starting_message()),
                    job: None,
                    ..orchestrator
                },
                JobActionView::Resolve,
            )
        } else {
            (orchestrator, JobActionView::Reject)
        },
        JobEventView::Resolved { job, parallelism } => if orchestrator.phase is Resolving {
            (
                OrchestratorView {
                    phase: Phase::Fetching,
                    written: 0,
                    total: job.total_frames,
                    status: Some(fetching_message()),
                    job: Some(job),
                    ..orchestrator
                },
                JobActionView::SpawnWorkers {
                    job_dir: job_dir_spec(job.root, job.movie_name),
                    intervals: plan_spec(job.total_frames, parallelism),
                },
            )
        } else {
            (orchestrator, JobActionView::Ignore)
        },
        JobEventView::ResolutionFailed { reason } => if orchestrator.phase is Resolving {
            (ended(orchestrator, Phase::Failed, reason), JobActionView::ReportFailure)
        } else {
            (orchestrator, JobActionView::Ignore)
        },
        JobEventView::FrameWritten => if orchestrator.phase is Fetching && orchestrator.written
            < orchestrator.total {
            (
                OrchestratorView { written: orchestrator.written + 1, ..orchestrator },
                JobActionView::PublishProgress {
                    progress: Progress {
                        completed: (orchestrator.written + 1) as i32,
                        total: orchestrator.total as i32,
                    },
                },
            )
        } else {
            (orchestrator, JobActionView::Ignore)
        },
        JobEventView::GapReported { message } => if orchestrator.phase is Fetching {
            (OrchestratorView { status: Some(message), ..orchestrator }, JobActionView::Nothing)
        } else {
            (orchestrator, JobActionView::Ignore)
        },
        JobEventView::WorkersJoined { output_exists, tool_available } => match (
            orchestrator.phase,
            orchestrator.job,
        ) {
            (Phase::Fetching, Some(job)) => if output_exists {
                (
                    ended(orchestrator, Phase::Completed, success_message(job.root)),
                    JobActionView::ReportSuccess,
                )
            } else {
                (
                    OrchestratorView {
                        phase: Phase::Assembling { backend: backend_for(tool_available) },
                        status: Some(assembling_message(backend_for(tool_available))),
                        ..orchestrator
                    },
                    JobActionView::Assemble {
                        backend: backend_for(tool_available),
                        manifest_path: manifest_path_spec(job.root, job.movie_name),
                        output_path: job.output_path,
                    },
                )
            },
            _ => (orchestrator, JobActionView::Ignore),
        },
        JobEventView::WorkerFailed { reason } => if orchestrator.phase is Fetching {
            (
                ended(orchestrator, Phase::Failed, worker_failure_message(reason)),
                JobActionView::ReportFailure,
            )
        } else {
            (orchestrator, JobActionView::Ignore)
        },
        JobEventView::CancelRequested => if is_running(orchestrator.phase) {
            (
                OrchestratorView {
                    cancelled: true,
                    ..ended(orchestrator, Phase::Cancelled, cancelled_message())
                },
                JobActionView::AbortAndCleanUp { grace_millis: CANCEL_GRACE_MILLIS },
            )
        } else {
            (orchestrator, JobActionView::Ignore)
        },
        JobEventView::AssemblyEnded { exit_code } => match (orchestrator.phase, orchestrator.job) {
            (Phase::Assembling { backend }, Some(job)) => match assembly_result_spec(
                backend,
                exit_code,
            ) {
                Ok(_) => (
                    ended(orchestrator, Phase::Completed, success_message(job.root)),
                    JobActionView::RemoveFrames {
                        job_dir: job_dir_spec(job.root, job.movie_name),
                    },
                ),
                Err(error) => (
                    ended(
                        orchestrator,
                        Phase::Failed,
                        assembly_error_message(error, job.movie_name),
                    ),
                    JobActionView::ReportFailure,
                ),
            },
            _ => (orchestrator, JobActionView::Ignore),
        },
        JobEventView::Reset => if is_ended(orchestrator.phase) {
            (
                OrchestratorView { phase: Phase::Idle, written: 0, ..orchestrator },
                JobActionView::Nothing,
            )
        } else {
            (orchestrator, JobActionView::Ignore)
        },
        JobEventView::Notice { message } => (
            OrchestratorView { status: Some(message), ..orchestrator },
            JobActionView::Nothing,
        ),
    }
}

/// The orchestrator of jobs: one job at a time.
pub struct Orchestrator {
    phase: Phase,
    counter: ProgressCounter,
    token: CancellationToken,
    log: StatusLog,
    job: Option<Job>,
}

impl View for Orchestrator {
    type V = OrchestratorView;

    closed spec fn view(&self) -> OrchestratorView {
        OrchestratorView {
            phase: self.phase,
            written: self.counter.written(),
            total: self.counter.total(),
            cancelled: self.token.is_set(),
            status: self.log@,
            job: match self.job {
                Some(job) => Some(job@),
                None => None,
            },
        }
    }
}

impl Orchestrator {
    #[verifier::type_invariant]
    spec fn well_formed(self) -> bool {
        self@.wf()
    }

    /// An orchestrator with no job under way, the counter at zero, the token
    /// not set and no status message.
    pub fn new() -> (orchestrator: Orchestrator)
        ensures
            orchestrator@ == (OrchestratorView {
                phase: Phase::Idle,
                written: 0,
                total: 0,
                cancelled: false,
                status: None,
                job: None,
            }),
            orchestrator@.wf(),
    {
        Orchestrator {
            phase: Phase::Idle,
            counter: ProgressCounter::new(0),
            token: CancellationToken::new(),
            log: StatusLog::new(),
            job: None,
        }
    }

    /// Where the job stands, stage by stage.
    pub fn phase(&self) -> (phase: Phase)
        ensures
            phase == self@.phase,
            self@.wf(),
    {
        proof {
            use_type_invariant(self);
        }
        self.phase
    }

    /// The state of the job.
    pub fn state(&self) -> (state: JobState)
        ensures
            state == state_of(self@.phase),
    {
        match self.phase {
            Phase::Idle => JobState::Idle,
            Phase::Resolving => JobState::Running,
            Phase::Fetching => JobState::Running,
            Phase::Assembling { .. } => JobState::Running,
            Phase::Completed => JobState::Completed,
            Phase::Cancelled => JobState::Cancelled,
            Phase::Failed => JobState::Failed,
        }
    }

    /// Tells whether the cancellation token is set. Workers look at this
    /// before each frame.
    pub fn is_cancelled(&self) -> (cancelled: bool)
        ensures
            cancelled == self@.cancelled,
    {
        self.token.is_set()
    }

    /// Where the progress counter stands.
    pub fn progress(&self) -> (progress: Progress)
        ensures
            progress.completed == self@.written,
            progress.total == self@.total,
            0 <= progress.completed <= progress.total,
    {
        self.counter.progress()
    }

    /// The latest status message, if there has been one.
    pub fn status(&self) -> (message: Option<&String>)
        ensures
            match message {
                Some(text) => self@.status == Some(text@),
                None => self@.status is None,
            },
    {
        self.log.latest()
    }

    /// The job, from the time it is known until it ends.
    pub fn job(&self) -> (job: Option<&Job>)
        ensures
            match job {
                Some(job) => self@.job == Some(job@),
                None => self@.job is None,
            },
    {
        self.job.as_ref()
    }

    /// Takes in what happened and says what to do next. A resolved job is
    /// handed in with the number of workers that can run at once, which is at
    /// least one.
    pub fn step(&mut self, event: JobEvent) -> (action: JobAction)
        requires
            event matches JobEvent::Resolved { parallelism, .. } ==> parallelism >= 1,
        ensures
            (final(self)@, action@) == orchestrator_step(old(self)@, event@),
            final(self)@.wf(),
    {
        let mut current = Orchestrator::new();
        core::mem::swap(self, &mut current);
        let (next, action) = advance(current, event);
        *self = next;
        proof {
            use_type_invariant(&*self);
        }
        action
    }
}

fn ended_with(
    phase: Phase,
    counter: ProgressCounter,
    token: CancellationToken,
    log: StatusLog,
    status: String,
) -> (next: Orchestrator)
    requires
        !has_job(phase),
        is_running(phase) ==> !token.is_set(),
        phase is Cancelled ==> token.is_set(),
    ensures
        next@ == (OrchestratorView {
            phase,
            written: 0,
            total: counter.total(),
            cancelled: token.is_set(),
            status: Some(status@),
            job: None,
        }),
{
    let mut counter = counter;
    let mut log = log;
    reset_counter(&mut counter);
    log_message(&mut log, status);
    let _ = counter.progress();
    Orchestrator { phase, counter, token, log, job: None }
}

fn success_text(root: &str) -> (text: String)
    ensures
        text@ == success_message(root@),
{
    let mut text = String::from_str("SUCCESS!!! Output Saved to : ");
    text.append(root);
    text
}

fn advance(current: Orchestrator, event: JobEvent) -> (result: (Orchestrator, JobAction))
    requires
        event matches JobEvent::Resolved { parallelism, .. } ==> parallelism >= 1,
    ensures
        (result.0@, result.1@) == orchestrator_step(current@, event@),
{
    proof {
        use_type_invariant(&current);
    }
    let Orchestrator { phase, counter, token, log, job } = current;
    let mut counter = counter;
    let mut log = log;
    match event {
        JobEvent::StartRequested => match phase {
            Phase::Idle => {
                reset_counter(&mut counter);
                log_message(&mut log, String::from_str("Fetching Information..."));
                let _ = counter.progress();
                (
                    Orchestrator {
                        phase: Phase::Resolving,
                        counter,
                        token: CancellationToken::new(),
                        log,
                        job: None,
                    },
                    JobAction::Resolve,
                )
            },
            _ => (Orchestrator { phase, counter, token, log, job }, JobAction::Reject),
        },
        JobEvent::Resolved { job: resolved, parallelism } => match phase {
            Phase::Resolving => {
                let total = resolved.total_frames();
                let intervals = plan_intervals(total, parallelism);
                let dir = job_dir(resolved.root(), resolved.movie_name());
                log_message(&mut log, String::from_str("Download Started...Please wait"));
                (
                    Orchestrator {
                        phase: Phase::Fetching,
                        counter: ProgressCounter::new(total),
                        token,
                        log,
                        job: Some(resolved),
                    },
                    JobAction::SpawnWorkers { job_dir: dir, intervals },
                )
            },
            _ => (Orchestrator { phase, counter, token, log, job }, JobAction::Ignore),
        },
        JobEvent::ResolutionFailed { reason } => match phase {
            Phase::Resolving => (
                ended_with(Phase::Failed, counter, token, log, reason),
                JobAction::ReportFailure,
            ),
            _ => (Orchestrator { phase, counter, token, log, job }, JobAction::Ignore),
        },
        JobEvent::FrameWritten => match phase {
            Phase::Fetching => {
                if counter.has_outstanding() {
                    let progress = counter.record_frame();
                    (
                        Orchestrator { phase, counter, token, log, job },
                        JobAction::PublishProgress { progress },
                    )
                } else {
                    (Orchestrator { phase, counter, token, log, job }, JobAction::Ignore)
                }
            },
            _ => (Orchestrator { phase, counter, token, log, job }, JobAction::Ignore),
        },
        JobEvent::GapReported { message } => match phase {
            Phase::Fetching => {
                log_message(&mut log, message);
                (Orchestrator { phase, counter, token, log, job }, JobAction::Nothing)
            },
            _ => (Orchestrator { phase, counter, token, log, job }, JobAction::Ignore),
        },
        JobEvent::WorkersJoined { output_exists, tool_available } => match (phase, job) {
            (Phase::Fetching, Some(running)) => {
                if output_exists {
                    let status = success_text(running.root());
                    (
                        ended_with(Phase::Completed, counter, token, log, status),
                        JobAction::ReportSuccess,
                    )
                } else {
                    let backend = select_backend(tool_available);
                    let status = match backend {
                        Backend::Native => String::from_str(
                            "Video processing started...Please wait",
                        ),
                        Backend::ExternalTool => String::from_str(
                            "FFMPEG Detected.\nVideo processing started...Please wait",
                        ),
                    };
                    log_message(&mut log, status);
                    let manifest = manifest_path(running.root(), running.movie_name());
                    let output = String::from_str(running.output_path());
                    (
                        Orchestrator {
                            phase: Phase::Assembling { backend },
                            counter,
                            token,
                            log,
                            job: Some(running),
                        },
                        JobAction::Assemble {
                            backend,
                            manifest_path: manifest,
                            output_path: output,
                        },
                    )
                }
            },
            (phase, job) => (Orchestrator { phase, counter, token, log, job }, JobAction::Ignore),
        },
        JobEvent::WorkerFailed { reason } => match phase {
            Phase::Fetching => {
                let mut status = String::from_str("Thread failed: ");
                status.append(reason.as_str());
                (ended_with(Phase::Failed, counter, token, log, status), JobAction::ReportFailure)
            },
            _ => (Orchestrator { phase, counter, token, log, job }, JobAction::Ignore),
        },
        JobEvent::CancelRequested => match phase {
            Phase::Resolving | Phase::Fetching | Phase::Assembling { .. } => {
                let mut token = token;
                let _ = token.cancel();
                (
                    ended_with(
                        Phase::Cancelled,
                        counter,
                        token,
                        log,
                        String::from_str("Download cancelled"),
                    ),
                    JobAction::AbortAndCleanUp { grace_millis: CANCEL_GRACE_MILLIS },
                )
            },
            _ => (Orchestrator { phase, counter, token, log, job }, JobAction::Ignore),
        },
        JobEvent::AssemblyEnded { exit_code } => match (phase, job) {
            (Phase::Assembling { backend }, Some(running)) => {
                match assembly_result(backend, exit_code) {
                    Ok(_) => {
                        let status = success_text(running.root());
                        let dir = job_dir(running.root(), running.movie_name());
                        (
                            ended_with(Phase::Completed, counter, token, log, status),
                            JobAction::RemoveFrames { job_dir: dir },
                        )
                    },
                    Err(error) => {
                        let status = error.message(running.movie_name());
                        (
                            ended_with(Phase::Failed, counter, token, log, status),
                            JobAction::ReportFailure,
                        )
                    },
                }
            },
            (phase, job) => (Orchestrator { phase, counter, token, log, job }, JobAction::Ignore),
        },
        JobEvent::Reset => match phase {
            Phase::Completed | Phase::Cancelled | Phase::Failed => {
                reset_counter(&mut counter);
                let _ = counter.progress();
                (Orchestrator { phase: Phase::Idle, counter, token, log, job }, JobAction::Nothing)
            },
            _ => (Orchestrator { phase, counter, token, log, job }, JobAction::Ignore),
        },
        JobEvent::Notice { message } => {
            log_message(&mut log, message);
            (Orchestrator { phase, counter, token, log, job }, JobAction::Nothing)
        },
    }
}

/// The orchestrator's rule, applied to a run of events one after the other:
/// the state at the end, and what was asked for after each event.
pub open spec fn orchestrator_run(orchestrator: OrchestratorView, events: Seq<JobEventView>) -> (
    OrchestratorView,
    Seq<JobActionView>,
)
    decreases events.len(),
{
    if events.len() == 0 {
        (orchestrator, Seq::empty())
    } else {
        let before = orchestrator_run(orchestrator, events.drop_last());
        let last = orchestrator_step(before.0, events.last());
        (last.0, before.1.push(last.1))
    }
}

/// Whatever the orchestrator is told, what holds of it at all times goes on
/// holding.
pub proof fn lemma_step_keeps_wf(orchestrator: OrchestratorView, event: JobEventView)
    requires
        orchestrator.wf(),
        event.wf(),
    ensures
        orchestrator_step(orchestrator, event).0.wf(),
{
}

/// The intervals that workers are spawned on split the frames of the job:
/// every frame of the job falls to exactly one worker, no interval has
/// negative length, and there are no more workers than could run at once.
pub proof fn lemma_spawned_intervals_split_the_job(
    orchestrator: OrchestratorView,
    job: JobView,
    parallelism: int,
)
    requires
        orchestrator.phase is Resolving,
        job.wf(),
        parallelism >= 1,
    ensures
        ({
            let spawned = orchestrator_step(
                orchestrator,
                JobEventView::Resolved { job, parallelism },
            );
            &&& spawned.1 is SpawnWorkers
            &&& spawned.0.phase is Fetching
            &&& spawned.0.written == 0
            &&& spawned.0.total == job.total_frames
            &&& 1 <= spawned.1->SpawnWorkers_intervals.len() <= parallelism
            &&& chained(spawned.1->SpawnWorkers_intervals)
            &&& within(spawned.1->SpawnWorkers_intervals, job.total_frames)
            &&& is_partition(spawned.1->SpawnWorkers_intervals, job.total_frames)
        }),
{
    lemma_plan_spec(job.total_frames, parallelism);
}

/// While a job runs its progress counter never goes down.
pub proof fn lemma_counter_never_decreases(orchestrator: OrchestratorView, event: JobEventView)
    requires
        orchestrator.wf(),
        is_running(orchestrator.phase),
        is_running(orchestrator_step(orchestrator, event).0.phase),
    ensures
        orchestrator_step(orchestrator, event).0.written >= orchestrator.written,
{
}

/// While frames are fetched, each frame that is reported as written counts
/// once: after as many reports as the job has frames still outstanding, the
/// counter stands at the number of frames of the job.
pub proof fn lemma_written_frames_are_counted(
    orchestrator: OrchestratorView,
    events: Seq<JobEventView>,
)
    requires
        orchestrator.wf(),
        orchestrator.phase is Fetching,
        forall|k: int| 0 <= k < events.len() ==> #[trigger] events[k] is FrameWritten,
        orchestrator.written + events.len() <= orchestrator.total,
    ensures
        orchestrator_run(orchestrator, events).0 == (OrchestratorView {
            written: orchestrator.written + events.len(),
            ..orchestrator
        }),
    decreases events.len(),
{
    if events.len() > 0 {
        lemma_written_frames_are_counted(orchestrator, events.drop_last());
        assert(events.last() is FrameWritten);
    }
}

/// When a job ends, however it ends, its progress counter is back at zero
/// and the job is let go.
pub proof fn lemma_counter_reset_at_end(orchestrator: OrchestratorView, event: JobEventView)
    requires
        is_running(orchestrator.phase),
        !is_running(orchestrator_step(orchestrator, event).0.phase),
    ensures
        is_ended(orchestrator_step(orchestrator, event).0.phase),
        orchestrator_step(orchestrator, event).0.written == 0,
        orchestrator_step(orchestrator, event).0.job is None,
{
}

/// While no job runs the progress counter stays at zero: a frame that is
/// reported late, after the job has ended, is not counted.
pub proof fn lemma_counter_zero_at_rest(orchestrator: OrchestratorView, event: JobEventView)
    requires
        orchestrator.wf(),
        event.wf(),
        !is_running(orchestrator_step(orchestrator, event).0.phase),
    ensures
        orchestrator_step(orchestrator, event).0.written == 0,
{
}

/// Joining the workers of a job whose video is in place already ends the job
/// as completed at once: no assembly is asked for and nothing is removed.
pub proof fn lemma_existing_output_skips_assembly(
    orchestrator: OrchestratorView,
    tool_available: bool,
)
    requires
        orchestrator.wf(),
        orchestrator.phase is Fetching,
    ensures
        ({
            let joined = orchestrator_step(
                orchestrator,
                JobEventView::WorkersJoined { output_exists: true, tool_available },
            );
            &&& joined.1 == JobActionView::ReportSuccess
            &&& joined.0.phase == Phase::Completed
            &&& joined.0.written == 0
        }),
{
}

/// Assembly is asked for only when the workers of a running job have all
/// ended, the job was not cancelled, and the video is not in place yet; the
/// external tool is used where it is available, the native backend where it
/// is not.
pub proof fn lemma_assembly_only_after_join(orchestrator: OrchestratorView, event: JobEventView)
    requires
        orchestrator.wf(),
        orchestrator_step(orchestrator, event).1 is Assemble,
    ensures
        orchestrator.phase is Fetching,
        !orchestrator.cancelled,
        event matches JobEventView::WorkersJoined { output_exists, tool_available }
            && !output_exists && orchestrator_step(orchestrator, event).1->Assemble_backend
            == backend_for(tool_available),
{
}

/// Cancelling a running job sets the token, ends the job as cancelled with
/// the counter at zero, and asks for the workers to be stopped and the job
/// directories to be removed.
pub proof fn lemma_cancellation(orchestrator: OrchestratorView)
    requires
        is_running(orchestrator.phase),
    ensures
        ({
            let cancelled = orchestrator_step(orchestrator, JobEventView::CancelRequested);
            &&& cancelled.0.phase == Phase::Cancelled
            &&& cancelled.0.cancelled
            &&& cancelled.0.written == 0
            &&& cancelled.1 == JobActionView::AbortAndCleanUp {
                grace_millis: CANCEL_GRACE_MILLIS,
            }
        }),
{
}

/// The token is one-shot: once set it stays set, until the next job starts
/// with a fresh one.
pub proof fn lemma_token_stays_set(orchestrator: OrchestratorView, event: JobEventView)
    requires
        orchestrator.cancelled,
        !(event is StartRequested && orchestrator.phase is Idle),
    ensures
        orchestrator_step(orchestrator, event).0.cancelled,
{
}

/// A cancelled job stays cancelled, with its counter at zero and without
/// assembly, whatever is reported of it afterwards, until its end is taken
/// note of: at most the status line changes.
pub proof fn lemma_cancelled_job_stays_cancelled(
    orchestrator: OrchestratorView,
    events: Seq<JobEventView>,
)
    requires
        orchestrator.wf(),
        orchestrator.phase is Cancelled,
        forall|k: int| 0 <= k < events.len() ==> !(#[trigger] events[k] is Reset),
    ensures
        orchestrator_run(orchestrator, events).0 == (OrchestratorView {
            status: orchestrator_run(orchestrator, events).0.status,
            ..orchestrator
        }),
        orchestrator_run(orchestrator, events).1.len() == events.len(),
        forall|k: int|
            0 <= k < events.len() ==> {
                let action = #[trigger] orchestrator_run(orchestrator, events).1[k];
                action is Ignore || action is Reject || action is Nothing
            },
    decreases events.len(),
{
    if events.len() > 0 {
        lemma_cancelled_job_stays_cancelled(orchestrator, events.drop_last());
        assert(!(events.last() is Reset));
    }
}

/// A start request is taken up only while no job is under way and the end
/// of the last one has been taken note of; elsewhere it is turned down and
/// changes nothing.
pub proof fn lemma_admission(orchestrator: OrchestratorView)
    ensures
        ({
            let asked = orchestrator_step(orchestrator, JobEventView::StartRequested);
            if orchestrator.phase is Idle {
                &&& asked.1 == JobActionView::Resolve
                &&& asked.0.phase == Phase::Resolving
                &&& asked.0.written == 0
                &&& !asked.0.cancelled
            } else {
                &&& asked.1 == JobActionView::Reject
                &&& asked.0 == orchestrator
            }
        }),
{
}

} // verus!
