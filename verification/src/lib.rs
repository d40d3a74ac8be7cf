//! Verified core of a pipeline that fetches the numbered frames of a video
//! stream, keeps them in local storage and has them assembled into one video.
//!
//! The library holds the rules of the pipeline and proves what they promise.
//! It fetches nothing, writes nothing and starts no task: each part takes in
//! what happened and says what is to be done next, and the program around it
//! does the fetching, the writing and the waiting.
//!
//! - [`partition`] splits the frames of a job into one interval per worker.
//! - [`fetch`] is the rule for fetching one frame with a bounded number of
//!   attempts.
//! - [`worker`] takes one worker through its interval, frame by frame.
//! - [`progress`] and [`cancel`] hold the progress counter, the status line
//!   and the cancellation token of a job.
//! - [`orchestrator`] is the state machine of a job, from the start request
//!   to its end.
//! - [`manifest`] builds the manifest of the frames that were fetched and
//!   chooses the backend that assembles them.
//! - [`job`] and [`layout`] describe a job and say where its frames are
//!   fetched from and kept.
//! - [`resolve`] reads the stream, the resolution and the last frame out of
//!   the pages and playlists of a site.
//! - [`decimal`] writes and reads numbers in decimal notation.
//! - [`pipeline`] states what holds of the parts together.

pub mod cancel;
pub mod decimal;
pub mod fetch;
pub mod job;
pub mod layout;
pub mod manifest;
pub mod orchestrator;
pub mod partition;
pub mod pipeline;
pub mod progress;
pub mod resolve;
pub mod worker;
