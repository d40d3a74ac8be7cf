//! The description of one download-and-assemble run.

use crate::layout::{movie_name, output_path, output_path_spec, trailing_segment};
use vstd::prelude::*;
use vstd::string::StringExecFns;

verus! {

/// What a job is made of, as plain values.
pub struct JobView {
    /// Host that serves the frames.
    pub host: Seq<char>,
    /// Directory that all jobs store their files under.
    pub root: Seq<char>,
    /// Name of the movie, which names the job's files.
    pub movie_name: Seq<char>,
    /// Identifier of the stream that the frames belong to.
    pub stream_id: Seq<char>,
    /// Resolution that the frames are fetched in.
    pub resolution_tag: Seq<char>,
    /// Number of frames: the frame indices are `0 .. total_frames`.
    pub total_frames: int,
    /// Place of the finished video.
    pub output_path: Seq<char>,
}

impl JobView {
    /// The frame count is a count, and the video is placed where the storage
    /// layout puts the video of this movie.
    pub open spec fn wf(self) -> bool {
        &&& 0 <= self.total_frames <= i32::MAX
        &&& self.output_path == output_path_spec(self.root, self.movie_name)
    }
}

/// One download-and-assemble run: which frames to fetch, from where, and
/// where to put them.
#[derive(Debug, PartialEq, Eq)]
pub struct Job {
    host: String,
    root: String,
    movie_name: String,
    stream_id: String,
    resolution_tag: String,
    total_frames: i32,
    output_path: String,
}

impl View for Job {
    type V = JobView;

    closed spec fn view(&self) -> JobView {
        JobView {
            host: self.host@,
            root: self.root@,
            movie_name: self.movie_name@,
            stream_id: self.stream_id@,
            resolution_tag: self.resolution_tag@,
            total_frames: self.total_frames as int,
            output_path: self.output_path@,
        }
    }
}

/// The job that resolving `url` to a stream describes: the movie is named by
/// the trailing path segment of `url`, and the frames run up to
/// `last_frame_index`. There is none where `last_frame_index + 1` is no frame
/// count.
pub open spec fn describe_spec(
    host: Seq<char>,
    root: Seq<char>,
    url: Seq<char>,
    stream_id: Seq<char>,
    resolution_tag: Seq<char>,
    last_frame_index: int,
) -> Option<JobView> {
    if -1 <= last_frame_index < i32::MAX {
        Some(
            JobView {
                host,
                root,
                movie_name: trailing_segment(url),
                stream_id,
                resolution_tag,
                total_frames: last_frame_index + 1,
                output_path: output_path_spec(root, trailing_segment(url)),
            },
        )
    } else {
        None
    }
}

impl Job {
    #[verifier::type_invariant]
    spec fn well_formed(self) -> bool {
        self@.wf()
    }

    /// Describes the job for the stream that `url` was resolved to.
    pub fn describe(
        host: &str,
        root: &str,
        url: &str,
        stream_id: &str,
        resolution_tag: &str,
        last_frame_index: i32,
    ) -> (job: Option<Job>)
        ensures
            match job {
                Some(job) => Some(job@),
                None => None,
            } == describe_spec(
                host@,
                root@,
                url@,
                stream_id@,
                resolution_tag@,
                last_frame_index as int,
            ),
            job matches Some(job) ==> job@.wf(),
    {
        if last_frame_index < -1 || last_frame_index == i32::MAX {
            return None;
        }
        let name = movie_name(url);
        let output = output_path(root, name.as_str());
        Some(
            Job {
                host: String::from_str(host),
                root: String::from_str(root),
                movie_name: name,
                stream_id: String::from_str(stream_id),
                resolution_tag: String::from_str(resolution_tag),
                total_frames: last_frame_index + 1,
                output_path: output,
            },
        )
    }

    /// Host that serves the frames.
    pub fn host(&self) -> (host: &str)
        ensures
            host@ == self@.host,
    {
        self.host.as_str()
    }

    /// Directory that all jobs store their files under.
    pub fn root(&self) -> (root: &str)
        ensures
            root@ == self@.root,
    {
        self.root.as_str()
    }

    /// Name of the movie.
    pub fn movie_name(&self) -> (name: &str)
        ensures
            name@ == self@.movie_name,
    {
        self.movie_name.as_str()
    }

    /// Identifier of the stream.
    pub fn stream_id(&self) -> (stream_id: &str)
        ensures
            stream_id@ == self@.stream_id,
    {
        self.stream_id.as_str()
    }

    /// Resolution that the frames are fetched in.
    pub fn resolution_tag(&self) -> (resolution_tag: &str)
        ensures
            resolution_tag@ == self@.resolution_tag,
    {
        self.resolution_tag.as_str()
    }

    /// Number of frames of the job.
    pub fn total_frames(&self) -> (total: i32)
        ensures
            total == self@.total_frames,
            self@.wf(),
    {
        proof {
            use_type_invariant(self);
        }
        self.total_frames
    }

    /// Place of the finished video.
    pub fn output_path(&self) -> (path: &str)
        ensures
            path@ == self@.output_path,
    {
        self.output_path.as_str()
    }
}

impl Clone for Job {
    /// A second description of the same job.
    fn clone(&self) -> (copy: Job)
        ensures
            copy@ == self@,
    {
        proof {
            use_type_invariant(self);
        }
        Job {
            host: self.host.clone(),
            root: self.root.clone(),
            movie_name: self.movie_name.clone(),
            stream_id: self.stream_id.clone(),
            resolution_tag: self.resolution_tag.clone(),
            total_frames: self.total_frames,
            output_path: self.output_path.clone(),
        }
    }
}

} // verus!
