//! Frame worker: the rule by which one worker goes through its interval,
//! frame by frame, in increasing order.
//!
//! The worker neither fetches nor writes. Its caller looks at the
//! cancellation token, fetches and writes, and hands in what came of it; the
//! worker says what to do next.

use crate::job::{Job, JobView};
use crate::layout::{
    frame_path,
    frame_path_spec,
    frame_url,
    frame_url_spec,
    lemma_frame_paths_differ,
};
use crate::partition::{chained, frames_in, interval_len};
use vstd::prelude::*;
use vstd::string::StringExecFns;

verus! {

/// Where a worker stands.
#[derive(Clone, Copy, Debug, PartialEq, Eq, Structural)]
pub enum WorkerPhase {
    /// Between two frames: the token is looked at next.
    Ready,
    /// The fetch of the current frame is under way.
    Fetching,
    /// The bytes of the current frame are being written.
    Persisting,
    /// The worker has seen the token set and has stopped.
    Stopped,
    /// The worker has gone through its whole interval.
    Finished,
}

/// A worker as plain values.
pub struct WorkerView {
    /// First frame of the interval.
    pub start: int,
    /// End of the interval: the first frame past it.
    pub end: int,
    /// The frame that is attempted next, or is being attempted.
    pub next: int,
    /// Frames of the interval that have been written.
    pub written: int,
    /// Frames of the interval that were given up: gaps.
    pub gaps: int,
    /// Where the worker stands.
    pub phase: WorkerPhase,
}

impl WorkerView {
    /// Every frame before `next` is either written or a gap, and the worker
    /// has not gone past the end of its interval.
    pub open spec fn wf(self) -> bool {
        &&& 0 <= self.start <= self.next <= self.end <= i32::MAX
        &&& 0 <= self.written
        &&& 0 <= self.gaps
        &&& self.written + self.gaps == self.next - self.start
        &&& (self.phase == WorkerPhase::Fetching || self.phase == WorkerPhase::Persisting)
            ==> self.next < self.end
        &&& self.phase == WorkerPhase::Finished ==> self.next == self.end
    }
}

/// What a worker is told.
#[derive(Debug, PartialEq, Eq)]
pub enum WorkerEvent {
    /// The token was looked at: this is whether it was set.
    TokenPolled { cancelled: bool },
    /// The fetch of the current frame has ended, with the frame's bytes or,
    /// after all attempts have failed, with nothing.
    FetchEnded { body: Option<Vec<u8>> },
    /// Writing the current frame has ended: this is whether the file was
    /// written.
    PersistEnded { written: bool },
}

/// What a worker is told, with bytes as a sequence.
pub enum WorkerEventView {
    TokenPolled { cancelled: bool },
    FetchEnded { body: Option<Seq<u8>> },
    PersistEnded { written: bool },
}

impl View for WorkerEvent {
    type V = WorkerEventView;

    open spec fn view(&self) -> WorkerEventView {
        match self {
            WorkerEvent::TokenPolled { cancelled } => WorkerEventView::TokenPolled {
                cancelled: *cancelled,
            },
            WorkerEvent::FetchEnded { body } => WorkerEventView::FetchEnded {
                body: match body {
                    Some(bytes) => Some(bytes@),
                    None => None,
                },
            },
            WorkerEvent::PersistEnded { written } => WorkerEventView::PersistEnded {
                written: *written,
            },
        }
    }
}

/// What a worker asks for.
#[derive(Debug, PartialEq, Eq)]
pub enum WorkerAction {
    /// Fetch frame `index` from `url`.
    Fetch { index: i32, url: String },
    /// Write `bytes` to the file at `path`, which holds frame `index`,
    /// creating the directories above it as needed.
    Persist { index: i32, path: String, bytes: Vec<u8> },
    /// Frame `index` is in local storage: count it and publish the progress.
    RecordFrame { index: i32 },
    /// Frame `index` could not be had and stays a gap: log `message`.
    ReportGap { index: i32, message: String },
    /// The worker has stopped because the job is cancelled.
    Stop,
    /// The worker has gone through its interval.
    Finish,
    /// The event does not fit where the worker stands: nothing is done.
    Ignore,
}

/// What a worker asks for, with strings and bytes as sequences.
pub enum WorkerActionView {
    Fetch { index: int, url: Seq<char> },
    Persist { index: int, path: Seq<char>, bytes: Seq<u8> },
    RecordFrame { index: int },
    ReportGap { index: int, message: Seq<char> },
    Stop,
    Finish,
    Ignore,
}

impl View for WorkerAction {
    type V = WorkerActionView;

    open spec fn view(&self) -> WorkerActionView {
        match self {
            WorkerAction::Fetch { index, url } => WorkerActionView::Fetch {
                index: *index as int,
                url: url@,
            },
            WorkerAction::Persist { index, path, bytes } => WorkerActionView::Persist {
                index: *index as int,
                path: path@,
                bytes: bytes@,
            },
            WorkerAction::RecordFrame { index } => WorkerActionView::RecordFrame {
                index: *index as int,
            },
            WorkerAction::ReportGap { index, message } => WorkerActionView::ReportGap {
                index: *index as int,
                message: message@,
            },
            WorkerAction::Stop => WorkerActionView::Stop,
            WorkerAction::Finish => WorkerActionView::Finish,
            WorkerAction::Ignore => WorkerActionView::Ignore,
        }
    }
}

/// Address that a worker of `job` fetches frame `index` from.
pub open spec fn url_of(job: JobView, index: int) -> Seq<char> {
    frame_url_spec(job.host, job.stream_id, job.resolution_tag, index)
}

/// File that a worker of `job` writes frame `index` to.
pub open spec fn path_of(job: JobView, index: int) -> Seq<char> {
    frame_path_spec(job.root, job.movie_name, index)
}

/// Message for a frame that could not be fetched.
pub open spec fn fetch_gap_message(job: JobView, index: int) -> Seq<char> {
    "Failed to download: "@ + url_of(job, index)
}

/// Message for a frame that could not be written.
pub open spec fn persist_gap_message(job: JobView, index: int) -> Seq<char> {
    "Failed to write file: "@ + path_of(job, index)
}

/// The worker moves on to the frame after the current one, which has been
/// written or has become a gap.
pub open spec fn advanced(worker: WorkerView, was_written: bool) -> WorkerView {
    WorkerView {
        next: worker.next + 1,
        written: if was_written {
            worker.written + 1
        } else {
            worker.written
        },
        gaps: if was_written {
            worker.gaps
        } else {
            worker.gaps + 1
        },
        phase: WorkerPhase::Ready,
        ..worker
    }
}

/// The worker's rule: where it stands after `event`, and what it asks for.
///
/// Between two frames the worker ends when its interval is used up, stops
/// when the token was found set, and else starts the fetch of the next
/// frame. A fetched frame is written; a frame that could not be fetched or
/// written is reported and left as a gap; a written frame is counted. A
/// worker that has stopped or finished stays so.
pub open spec fn worker_step(worker: WorkerView, job: JobView, event: WorkerEventView) -> (
    WorkerView,
    WorkerActionView,
) {
    match worker.phase {
        WorkerPhase::Ready => match event {
            WorkerEventView::TokenPolled { cancelled } => if worker.next >= worker.end {
                (WorkerView { phase: WorkerPhase::Finished, ..worker }, WorkerActionView::Finish)
            } else if cancelled {
                (WorkerView { phase: WorkerPhase::Stopped, ..worker }, WorkerActionView::Stop)
            } else {
                (
                    WorkerView { phase: WorkerPhase::Fetching, ..worker },
                    WorkerActionView::Fetch { index: worker.next, url: url_of(job, worker.next) },
                )
            },
            _ => (worker, WorkerActionView::Ignore),
        },
        WorkerPhase::Fetching => match event {
            WorkerEventView::FetchEnded { body: Some(bytes) } => (
                WorkerView { phase: WorkerPhase::Persisting, ..worker },
                WorkerActionView::Persist {
                    index: worker.next,
                    path: path_of(job, worker.next),
                    bytes,
                },
            ),
            WorkerEventView::FetchEnded { body: None } => (
                advanced(worker, false),
                WorkerActionView::ReportGap {
                    index: worker.next,
                    message: fetch_gap_message(job, worker.next),
                },
            ),
            _ => (worker, WorkerActionView::Ignore),
        },
        WorkerPhase::Persisting => match event {
            WorkerEventView::PersistEnded { written: true } => (
                advanced(worker, true),
                WorkerActionView::RecordFrame { index: worker.next },
            ),
            WorkerEventView::PersistEnded { written: false } => (
                advanced(worker, false),
                WorkerActionView::ReportGap {
                    index: worker.next,
                    message: persist_gap_message(job, worker.next),
                },
            ),
            _ => (worker, WorkerActionView::Ignore),
        },
        WorkerPhase::Stopped => (worker, WorkerActionView::Stop),
        WorkerPhase::Finished => (worker, WorkerActionView::Finish),
    }
}

/// A worker that owns one interval of a job's frames.
#[derive(Debug, PartialEq, Eq)]
pub struct FrameWorker {
    start: i32,
    end: i32,
    next: i32,
    written: i32,
    gaps: i32,
    phase: WorkerPhase,
}

impl View for FrameWorker {
    type V = WorkerView;

    closed spec fn view(&self) -> WorkerView {
        WorkerView {
            start: self.start as int,
            end: self.end as int,
            next: self.next as int,
            written: self.written as int,
            gaps: self.gaps as int,
            phase: self.phase,
        }
    }
}

impl FrameWorker {
    #[verifier::type_invariant]
    spec fn well_formed(self) -> bool {
        self@.wf()
    }

    /// A worker at the start of `interval`, with nothing fetched yet.
    pub fn new(interval: (i32, i32)) -> (worker: FrameWorker)
        requires
            0 <= interval.0 <= interval.1,
        ensures
            worker@ == (WorkerView {
                start: interval.0 as int,
                end: interval.1 as int,
                next: interval.0 as int,
                written: 0,
                gaps: 0,
                phase: WorkerPhase::Ready,
            }),
            worker@.wf(),
    {
        FrameWorker {
            start: interval.0,
            end: interval.1,
            next: interval.0,
            written: 0,
            gaps: 0,
            phase: WorkerPhase::Ready,
        }
    }

    /// Where the worker stands.
    pub fn phase(&self) -> (phase: WorkerPhase)
        ensures
            phase == self@.phase,
            self@.wf(),
    {
        proof {
            use_type_invariant(self);
        }
        self.phase
    }

    /// The interval that the worker owns.
    pub fn interval(&self) -> (interval: (i32, i32))
        ensures
            interval.0 == self@.start,
            interval.1 == self@.end,
    {
        (self.start, self.end)
    }

    /// The frame that is attempted next, or is being attempted.
    pub fn next_index(&self) -> (next: i32)
        ensures
            next == self@.next,
    {
        self.next
    }

    /// Frames of the interval that have been written.
    pub fn frames_written(&self) -> (written: i32)
        ensures
            written == self@.written,
    {
        self.written
    }

    /// Frames of the interval that were given up.
    pub fn frames_missing(&self) -> (gaps: i32)
        ensures
            gaps == self@.gaps,
    {
        self.gaps
    }

    fn advance(&mut self, was_written: bool)
        requires
            old(self)@.next < old(self)@.end,
        ensures
            final(self)@ == advanced(old(self)@, was_written),
    {
        proof {
            use_type_invariant(&*self);
        }
        *self = FrameWorker {
            start: self.start,
            end: self.end,
            next: self.next + 1,
            written: if was_written {
                self.written + 1
            } else {
                self.written
            },
            gaps: if was_written {
                self.gaps
            } else {
                self.gaps + 1
            },
            phase: WorkerPhase::Ready,
        };
    }

    /// Takes in what happened and says what to do next.
    pub fn step(&mut self, job: &Job, event: WorkerEvent) -> (action: WorkerAction)
        ensures
            (final(self)@, action@) == worker_step(old(self)@, job@, event@),
            final(self)@.wf(),
    {
        proof {
            use_type_invariant(&*self);
        }
        match self.phase {
            WorkerPhase::Ready => match event {
                WorkerEvent::TokenPolled { cancelled } => {
                    if self.next >= self.end {
                        self.phase = WorkerPhase::Finished;
                        WorkerAction::Finish
                    } else if cancelled {
                        self.phase = WorkerPhase::Stopped;
                        WorkerAction::Stop
                    } else {
                        self.phase = WorkerPhase::Fetching;
                        let url = frame_url(
                            job.host(),
                            job.stream_id(),
                            job.resolution_tag(),
                            self.next,
                        );
                        WorkerAction::Fetch { index: self.next, url }
                    }
                },
                _ => WorkerAction::Ignore,
            },
            WorkerPhase::Fetching => match event {
                WorkerEvent::FetchEnded { body } => match body {
                    Some(bytes) => {
                        self.phase = WorkerPhase::Persisting;
                        let path = frame_path(job.root(), job.movie_name(), self.next);
                        WorkerAction::Persist { index: self.next, path, bytes }
                    },
                    None => {
                        let index = self.next;
                        let url = frame_url(
                            job.host(),
                            job.stream_id(),
                            job.resolution_tag(),
                            index,
                        );
                        let mut message = String::from_str("Failed to download: ");
                        message.append(url.as_str());
                        self.advance(false);
                        WorkerAction::ReportGap { index, message }
                    },
                },
                _ => WorkerAction::Ignore,
            },
            WorkerPhase::Persisting => match event {
                WorkerEvent::PersistEnded { written } => {
                    let index = self.next;
                    if written {
                        self.advance(true);
                        WorkerAction::RecordFrame { index }
                    } else {
                        let path = frame_path(job.root(), job.movie_name(), index);
                        let mut message = String::from_str("Failed to write file: ");
                        message.append(path.as_str());
                        self.advance(false);
                        WorkerAction::ReportGap { index, message }
                    }
                },
                _ => WorkerAction::Ignore,
            },
            WorkerPhase::Stopped => WorkerAction::Stop,
            WorkerPhase::Finished => WorkerAction::Finish,
        }
    }
}

/// The worker's rule, applied to a run of events one after the other: where
/// the worker stands at the end, and what it asked for after each event.
pub open spec fn worker_run(worker: WorkerView, job: JobView, events: Seq<WorkerEventView>) -> (
    WorkerView,
    Seq<WorkerActionView>,
)
    decreases events.len(),
{
    if events.len() == 0 {
        (worker, Seq::empty())
    } else {
        let before = worker_run(worker, job, events.drop_last());
        let last = worker_step(before.0, job, events.last());
        (last.0, before.1.push(last.1))
    }
}

/// Number of frames that the actions ask to be counted as written.
pub open spec fn recorded(actions: Seq<WorkerActionView>) -> int
    decreases actions.len(),
{
    if actions.len() == 0 {
        0
    } else {
        recorded(actions.drop_last()) + if actions.last() is RecordFrame {
            1int
        } else {
            0int
        }
    }
}

/// Frames written by the first `count` workers.
pub open spec fn written_by(workers: Seq<WorkerView>, count: int) -> int
    decreases count,
{
    if count <= 0 {
        0
    } else {
        written_by(workers, count - 1) + workers[count - 1].written
    }
}

/// Whatever a worker is told, it keeps to its interval and keeps its count of
/// written and missing frames.
pub proof fn lemma_step_keeps_wf(worker: WorkerView, job: JobView, event: WorkerEventView)
    requires
        worker.wf(),
    ensures
        worker_step(worker, job, event).0.wf(),
        worker_step(worker, job, event).0.start == worker.start,
        worker_step(worker, job, event).0.end == worker.end,
        worker_step(worker, job, event).0.next >= worker.next,
        worker_step(worker, job, event).0.written >= worker.written,
{
}

/// A worker asks for a frame to be counted exactly when it has written one:
/// over any run of events, it asks as often as its count of written frames
/// goes up.
pub proof fn lemma_every_written_frame_is_recorded(
    worker: WorkerView,
    job: JobView,
    events: Seq<WorkerEventView>,
)
    ensures
        recorded(worker_run(worker, job, events).1) == worker_run(worker, job, events).0.written
            - worker.written,
    decreases events.len(),
{
    if events.len() > 0 {
        let before = worker_run(worker, job, events.drop_last());
        lemma_every_written_frame_is_recorded(worker, job, events.drop_last());
        assert(worker_run(worker, job, events).1.drop_last() =~= before.1);
    }
}

/// A fetch is started only for the frame that is next in the interval, and
/// only on finding the token not set.
pub proof fn lemma_fetch_only_when_not_cancelled(
    worker: WorkerView,
    job: JobView,
    event: WorkerEventView,
)
    requires
        worker_step(worker, job, event).1 is Fetch,
    ensures
        event == (WorkerEventView::TokenPolled { cancelled: false }),
        worker.phase == WorkerPhase::Ready,
        worker.next < worker.end,
        worker_step(worker, job, event).1 == (WorkerActionView::Fetch {
            index: worker.next,
            url: url_of(job, worker.next),
        }),
{
}

/// Whatever a worker asks for concerns a frame of its own interval: the
/// frame that is next, at the address and in the file that are this frame's.
pub proof fn lemma_actions_concern_own_frames(
    worker: WorkerView,
    job: JobView,
    event: WorkerEventView,
)
    requires
        worker.wf(),
    ensures
        match worker_step(worker, job, event).1 {
            WorkerActionView::Fetch { index, url } => worker.start <= index < worker.end && index
                == worker.next && url == url_of(job, index),
            WorkerActionView::Persist { index, path, .. } => worker.start <= index < worker.end
                && index == worker.next && path == path_of(job, index),
            WorkerActionView::RecordFrame { index } => worker.start <= index < worker.end && index
                == worker.next,
            WorkerActionView::ReportGap { index, .. } => worker.start <= index < worker.end
                && index == worker.next,
            _ => true,
        },
{
}

/// Two workers of a job whose intervals do not overlap never write to the
/// same file.
pub proof fn lemma_workers_write_different_files(
    job: JobView,
    first: WorkerView,
    first_event: WorkerEventView,
    second: WorkerView,
    second_event: WorkerEventView,
)
    requires
        first.wf(),
        second.wf(),
        first.end <= second.start,
        worker_step(first, job, first_event).1 is Persist,
        worker_step(second, job, second_event).1 is Persist,
    ensures
        worker_step(first, job, first_event).1->Persist_path != worker_step(
            second,
            job,
            second_event,
        ).1->Persist_path,
{
    lemma_actions_concern_own_frames(first, job, first_event);
    lemma_actions_concern_own_frames(second, job, second_event);
    lemma_frame_paths_differ(job.root, job.movie_name, first.next, second.next);
}

/// A worker that finds the token set between two frames starts no fetch from
/// then on, whatever it is told afterwards: the rest of its interval is never
/// attempted.
pub proof fn lemma_no_fetch_after_cancellation(
    worker: WorkerView,
    job: JobView,
    events: Seq<WorkerEventView>,
)
    requires
        worker.phase == WorkerPhase::Ready,
    ensures
        ({
            let observed = worker_step(
                worker,
                job,
                WorkerEventView::TokenPolled { cancelled: true },
            ).0;
            let after = worker_run(observed, job, events);
            &&& after.0 == observed
            &&& observed.next == worker.next
            &&& after.1.len() == events.len()
            &&& forall|k: int| 0 <= k < after.1.len() ==> !(#[trigger] after.1[k] is Fetch)
        }),
    decreases events.len(),
{
    if events.len() > 0 {
        lemma_no_fetch_after_cancellation(worker, job, events.drop_last());
    }
}

/// Every look at the token in `events` finds it set.
pub open spec fn token_stays_set(events: Seq<WorkerEventView>) -> bool {
    forall|k: int|
        0 <= k < events.len() ==> ((#[trigger] events[k]) matches WorkerEventView::TokenPolled {
            cancelled,
        } ==> cancelled)
}

/// A frame is under way: its fetch has been started and it is neither
/// written nor given up yet.
pub open spec fn in_flight(phase: WorkerPhase) -> bool {
    phase == WorkerPhase::Fetching || phase == WorkerPhase::Persisting
}

proof fn lemma_run_after_cancellation(
    worker: WorkerView,
    job: JobView,
    events: Seq<WorkerEventView>,
)
    requires
        worker.wf(),
        token_stays_set(events),
    ensures
        worker_run(worker, job, events).1.len() == events.len(),
        forall|k: int|
            0 <= k < events.len() ==> !(#[trigger] worker_run(worker, job, events).1[k] is Fetch),
        ({
            let after = worker_run(worker, job, events).0;
            if after.next == worker.next {
                in_flight(worker.phase) || !in_flight(after.phase)
            } else {
                after.next == worker.next + 1 && in_flight(worker.phase) && !in_flight(after.phase)
            }
        }),
    decreases events.len(),
{
    if events.len() > 0 {
        let earlier = events.drop_last();
        assert forall|k: int| 0 <= k < earlier.len() implies ((#[trigger] earlier[k])
            matches WorkerEventView::TokenPolled { cancelled } ==> cancelled) by {
            assert(earlier[k] == events[k]);
        }
        lemma_run_after_cancellation(worker, job, earlier);
        lemma_run_keeps_wf(worker, job, earlier);
        let last = events.last();
        assert(last == events[events.len() - 1]);
        assert(last matches WorkerEventView::TokenPolled { cancelled } ==> cancelled);
    }
}

/// Once cancellation has been requested a worker starts no fetch any more,
/// and it finishes at most the one frame that was under way: it moves on by
/// one frame at most, and by none where no frame was under way.
pub proof fn lemma_at_most_one_frame_after_cancellation(
    worker: WorkerView,
    job: JobView,
    events: Seq<WorkerEventView>,
)
    requires
        worker.wf(),
        token_stays_set(events),
    ensures
        worker_run(worker, job, events).1.len() == events.len(),
        forall|k: int|
            0 <= k < events.len() ==> !(#[trigger] worker_run(worker, job, events).1[k] is Fetch),
        worker.next <= worker_run(worker, job, events).0.next <= worker.next + 1,
        !in_flight(worker.phase) ==> worker_run(worker, job, events).0.next == worker.next,
{
    lemma_run_after_cancellation(worker, job, events);
}

/// While a frame is under way it is the one at `next`; between frames the
/// ones before `next` are done with.
spec fn past_frame(worker: WorkerView, index: int) -> bool {
    index < worker.next || (index == worker.next && (worker.phase == WorkerPhase::Fetching
        || worker.phase == WorkerPhase::Persisting))
}

proof fn lemma_run_keeps_wf(worker: WorkerView, job: JobView, events: Seq<WorkerEventView>)
    requires
        worker.wf(),
    ensures
        worker_run(worker, job, events).0.wf(),
        worker_run(worker, job, events).0.start == worker.start,
        worker_run(worker, job, events).0.end == worker.end,
        worker_run(worker, job, events).1.len() == events.len(),
        forall|index: int| #[trigger]
            past_frame(worker, index) ==> past_frame(worker_run(worker, job, events).0, index),
        forall|k: int|
            0 <= k < events.len() && (#[trigger] worker_run(worker, job, events).1[k]) is Fetch
                ==> {
                let index = worker_run(worker, job, events).1[k]->Fetch_index;
                &&& past_frame(worker_run(worker, job, events).0, index)
                &&& !past_frame(worker, index)
                &&& worker.start <= index < worker.end
            },
    decreases events.len(),
{
    if events.len() > 0 {
        let before = worker_run(worker, job, events.drop_last());
        lemma_run_keeps_wf(worker, job, events.drop_last());
        lemma_step_keeps_wf(before.0, job, events.last());
        let after = worker_run(worker, job, events);
        assert forall|index: int| #[trigger] past_frame(worker, index) implies past_frame(
            after.0,
            index,
        ) by {
            assert(past_frame(before.0, index));
        }
        assert forall|k: int| 0 <= k < events.len() && (#[trigger] after.1[k]) is Fetch implies {
            let index = after.1[k]->Fetch_index;
            &&& past_frame(after.0, index)
            &&& !past_frame(worker, index)
            &&& worker.start <= index < worker.end
        } by {
            let index = after.1[k]->Fetch_index;
            if k < events.len() - 1 {
                assert(after.1[k] == before.1[k]);
                assert(past_frame(before.0, index));
            } else {
                if past_frame(worker, index) {
                    assert(past_frame(before.0, index));
                }
            }
        }
    }
}

/// Within one worker frames are attempted in strictly increasing order: of
/// two fetches that a worker starts, the later one is for the higher frame,
/// and both are for frames of its interval.
pub proof fn lemma_fetches_increase(
    worker: WorkerView,
    job: JobView,
    events: Seq<WorkerEventView>,
    earlier: int,
    later: int,
)
    requires
        worker.wf(),
        0 <= earlier < later < events.len(),
        worker_run(worker, job, events).1[earlier] is Fetch,
        worker_run(worker, job, events).1[later] is Fetch,
    ensures
        worker.start <= worker_run(worker, job, events).1[earlier]->Fetch_index < worker_run(
            worker,
            job,
            events,
        ).1[later]->Fetch_index < worker.end,
    decreases events.len(),
{
    let all = worker_run(worker, job, events);
    let before = worker_run(worker, job, events.drop_last());
    lemma_run_keeps_wf(worker, job, events.drop_last());
    if later < events.len() - 1 {
        lemma_fetches_increase(worker, job, events.drop_last(), earlier, later);
        assert(all.1[earlier] == before.1[earlier]);
        assert(all.1[later] == before.1[later]);
    } else {
        lemma_fetch_only_when_not_cancelled(before.0, job, events.last());
        assert(all.1[earlier] == before.1[earlier]);
        let first = before.1[earlier]->Fetch_index;
        assert(past_frame(before.0, first));
        assert(!past_frame(worker, first));
    }
}

/// A worker that has gone through its interval without a gap has written
/// every frame of it.
pub proof fn lemma_finished_without_gaps(worker: WorkerView)
    requires
        worker.wf(),
        worker.phase == WorkerPhase::Finished,
        worker.gaps == 0,
    ensures
        worker.written == worker.end - worker.start,
{
}

/// Where the workers of a job own the intervals that split its frames, and
/// each has gone through its interval without a gap, the frames written by
/// all of them are as many as the job has.
pub proof fn lemma_all_frames_written(
    intervals: Seq<(i32, i32)>,
    workers: Seq<WorkerView>,
    total: int,
)
    requires
        chained(intervals),
        intervals.len() >= 1,
        intervals[0].0 == 0,
        intervals[intervals.len() - 1].1 == total,
        workers.len() == intervals.len(),
        forall|i: int|
            0 <= i < workers.len() ==> {
                &&& (#[trigger] workers[i]).wf()
                &&& workers[i].start == intervals[i].0
                &&& workers[i].end == intervals[i].1
                &&& workers[i].phase == WorkerPhase::Finished
                &&& workers[i].gaps == 0
            },
    ensures
        written_by(workers, workers.len() as int) == total,
{
    crate::partition::lemma_chain_frame_count(intervals, intervals.len() as int);
    lemma_written_is_frames(intervals, workers, workers.len() as int);
}

proof fn lemma_written_is_frames(intervals: Seq<(i32, i32)>, workers: Seq<WorkerView>, count: int)
    requires
        0 <= count <= workers.len(),
        workers.len() == intervals.len(),
        forall|i: int|
            0 <= i < workers.len() ==> {
                &&& (#[trigger] workers[i]).wf()
                &&& workers[i].start == intervals[i].0
                &&& workers[i].end == intervals[i].1
                &&& workers[i].phase == WorkerPhase::Finished
                &&& workers[i].gaps == 0
            },
    ensures
        written_by(workers, count) == frames_in(intervals, count),
    decreases count,
{
    if count > 0 {
        lemma_written_is_frames(intervals, workers, count - 1);
        assert(workers[count - 1].wf());
        assert(interval_len(intervals[count - 1]) == workers[count - 1].written);
    }
}

} // verus!
