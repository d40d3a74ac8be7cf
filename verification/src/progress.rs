//! What a job shows of itself while it runs: the count of frames written so
//! far and the latest status message.

use vstd::prelude::*;

verus! {

/// Progress of a job: how many of its frames have been written.
#[derive(Clone, Copy, Debug, PartialEq, Eq, Structural)]
pub struct Progress {
    /// Frames written so far.
    pub completed: i32,
    /// Frames of the job.
    pub total: i32,
}

impl Progress {
    /// All frames of the job have been written.
    pub open spec fn is_complete_spec(self) -> bool {
        self.completed >= self.total
    }

    /// Tells whether the progress stands at its end, that is at 1 when taken
    /// as the fraction `completed / total`.
    #[verifier::when_used_as_spec(is_complete_spec)]
    pub fn is_complete(self) -> (complete: bool)
        ensures
            complete == self.is_complete_spec(),
    {
        self.completed >= self.total
    }
}

/// Counter of the frames that a job has written, out of the frames it has.
/// It never exceeds the number of frames of the job.
#[derive(Debug, PartialEq, Eq)]
pub struct ProgressCounter {
    written: i32,
    total: i32,
}

impl ProgressCounter {
    #[verifier::type_invariant]
    spec fn bounded(self) -> bool {
        0 <= self.written <= self.total
    }

    /// Frames written so far.
    pub closed spec fn written(self) -> int {
        self.written as int
    }

    /// Frames of the job.
    pub closed spec fn total(self) -> int {
        self.total as int
    }

    /// A counter at zero for a job of `total_frames` frames.
    pub fn new(total_frames: i32) -> (counter: ProgressCounter)
        requires
            total_frames >= 0,
        ensures
            counter.written() == 0,
            counter.total() == total_frames,
    {
        ProgressCounter { written: 0, total: total_frames }
    }

    /// Where the counter stands.
    pub fn progress(&self) -> (progress: Progress)
        ensures
            progress.completed == self.written(),
            progress.total == self.total(),
            0 <= progress.completed <= progress.total,
    {
        proof {
            use_type_invariant(self);
        }
        Progress { completed: self.written, total: self.total }
    }

    /// Tells whether a frame is still outstanding, so that one more can be
    /// recorded.
    pub fn has_outstanding(&self) -> (outstanding: bool)
        ensures
            outstanding == (self.written() < self.total()),
    {
        self.written < self.total
    }

    /// Counts one more frame as written and returns the new progress.
    pub fn record_frame(&mut self) -> (progress: Progress)
        requires
            old(self).written() < old(self).total(),
        ensures
            final(self).written() == old(self).written() + 1,
            final(self).total() == old(self).total(),
            progress.completed == final(self).written(),
            progress.total == final(self).total(),
    {
        proof {
            use_type_invariant(&*self);
        }
        self.written = self.written + 1;
        Progress { completed: self.written, total: self.total }
    }
}

/// Sets the counter back to zero, as is done when a job starts and again when
/// it has ended.
pub fn reset_counter(counter: &mut ProgressCounter)
    ensures
        final(counter).written() == 0,
        final(counter).total() == old(counter).total(),
{
    proof {
        use_type_invariant(&*counter);
    }
    counter.written = 0;
}

/// The status line of a job: it holds the latest message and nothing older.
#[derive(Debug, PartialEq, Eq)]
pub struct StatusLog {
    latest: Option<String>,
}

impl View for StatusLog {
    type V = Option<Seq<char>>;

    closed spec fn view(&self) -> Option<Seq<char>> {
        match self.latest {
            Some(message) => Some(message@),
            None => None,
        }
    }
}

impl StatusLog {
    /// A status line without a message.
    pub fn new() -> (log: StatusLog)
        ensures
            log@ is None,
    {
        StatusLog { latest: None }
    }

    /// The latest message, if there has been one.
    pub fn latest(&self) -> (message: Option<&String>)
        ensures
            match message {
                Some(text) => self@ == Some(text@),
                None => self@ is None,
            },
    {
        self.latest.as_ref()
    }
}

/// Makes `message` the latest status message, in place of the one before.
pub fn log_message(log: &mut StatusLog, message: String)
    ensures
        final(log)@ == Some(message@),
{
    log.latest = Some(message);
}

} // verus!
