//! Assembly: the manifest of frames that were fetched, the choice between
//! the two backends that turn it into a video, and what their results mean.

use crate::layout::{frame_file_name_spec, frame_path_spec, push_frame_file_name};
use vstd::prelude::*;
use vstd::string::StringExecFns;

verus! {

/// One of the two interchangeable mechanisms that turn a manifest into the
/// finished video.
#[derive(Clone, Copy, Debug, PartialEq, Eq, Structural)]
pub enum Backend {
    /// The concatenation routine that is linked into the program.
    Native,
    /// The external encoding tool, run as a process of its own.
    ExternalTool,
}

/// The external tool is preferred wherever it is available.
pub open spec fn backend_for(tool_available: bool) -> Backend {
    if tool_available {
        Backend::ExternalTool
    } else {
        Backend::Native
    }
}

/// Chooses the backend from the result of probing for the external tool.
pub fn select_backend(tool_available: bool) -> (backend: Backend)
    ensures
        backend == backend_for(tool_available),
{
    if tool_available {
        Backend::ExternalTool
    } else {
        Backend::Native
    }
}

/// `frames` lists, in increasing order, exactly the indices whose flag in
/// `exists` is set.
pub open spec fn lists_present(frames: Seq<i32>, exists: Seq<bool>) -> bool {
    &&& forall|a: int, b: int| 0 <= a < b < frames.len() ==> frames[a] < frames[b]
    &&& forall|index: i32| #[trigger]
        frames.contains(index) <==> 0 <= index < exists.len() && exists[index as int]
}

/// Manifest line that the native backend reads for frame `index`: the place
/// of the frame in local storage.
pub open spec fn native_line(root: Seq<char>, movie_name: Seq<char>, index: int) -> Seq<char> {
    frame_path_spec(root, movie_name, index) + "\n"@
}

/// Manifest line that the external tool reads for frame `index`: a `file`
/// directive with the frame's name relative to the manifest.
pub open spec fn external_line(index: int) -> Seq<char> {
    "file '"@ + frame_file_name_spec(index) + "'\n"@
}

/// Manifest text of the native backend for `frames`, one line per frame.
pub open spec fn native_text_spec(
    root: Seq<char>,
    movie_name: Seq<char>,
    frames: Seq<i32>,
) -> Seq<char>
    decreases frames.len(),
{
    if frames.len() == 0 {
        Seq::empty()
    } else {
        native_text_spec(root, movie_name, frames.drop_last()) + native_line(
            root,
            movie_name,
            frames.last() as int,
        )
    }
}

/// Manifest text of the external tool for `frames`, one line per frame.
pub open spec fn external_text_spec(frames: Seq<i32>) -> Seq<char>
    decreases frames.len(),
{
    if frames.len() == 0 {
        Seq::empty()
    } else {
        external_text_spec(frames.drop_last()) + external_line(frames.last() as int)
    }
}

/// The frames that are handed to an assembly backend: the indices of the
/// frames that exist in local storage, in increasing order.
#[derive(Debug, PartialEq, Eq)]
pub struct AssemblyManifest {
    frames: Vec<i32>,
}

impl View for AssemblyManifest {
    type V = Seq<i32>;

    closed spec fn view(&self) -> Seq<i32> {
        self.frames@
    }
}

impl AssemblyManifest {
    /// Builds the manifest of a job from one flag per frame index that says
    /// whether the frame's file exists. Missing frames are left out.
    pub fn build(exists: &Vec<bool>) -> (manifest: AssemblyManifest)
        requires
            exists@.len() <= i32::MAX,
        ensures
            lists_present(manifest@, exists@),
    {
        let mut frames: Vec<i32> = Vec::new();
        let mut i: usize = 0;
        while i < exists.len()
            invariant
                i <= exists@.len() <= i32::MAX,
                forall|k: int| 0 <= k < frames@.len() ==> 0 <= #[trigger] frames@[k] < i,
                forall|k: int| 0 <= k < frames@.len() ==> exists@[#[trigger] frames@[k] as int],
                forall|a: int, b: int| 0 <= a < b < frames@.len() ==> frames@[a] < frames@[b],
                forall|j: int| 0 <= j < i && exists@[j] ==> #[trigger] frames@.contains(j as i32),
            decreases exists@.len() - i,
        {
            if exists[i] {
                let ghost before = frames@;
                frames.push(i as i32);
                proof {
                    assert(frames@[before.len() as int] == i as i32);
                    assert forall|j: int| 0 <= j < i + 1 && exists@[j] implies #[trigger]
                        frames@.contains(j as i32) by {
                        if j < i {
                            assert(before.contains(j as i32));
                            let k = choose|k: int| 0 <= k < before.len() && before[k] == j as i32;
                            assert(frames@[k] == j as i32);
                        }
                    }
                }
            }
            i = i + 1;
        }
        proof {
            assert forall|index: i32| #[trigger]
                frames@.contains(index) <==> 0 <= index < exists@.len()
                    && exists@[index as int] by {
                if 0 <= index < exists@.len() && exists@[index as int] {
                    assert(frames@.contains((index as int) as i32));
                }
            }
        }
        AssemblyManifest { frames }
    }

    /// The frame indices of the manifest, in order.
    pub fn frames(&self) -> (frames: &Vec<i32>)
        ensures
            frames@ == self@,
    {
        &self.frames
    }

    /// Number of frames in the manifest.
    pub fn len(&self) -> (len: usize)
        ensures
            len == self@.len(),
    {
        self.frames.len()
    }

    /// Manifest text for the native backend: the place of each frame in
    /// local storage, one per line.
    pub fn native_text(&self, root: &str, movie_name: &str) -> (text: String)
        ensures
            text@ == native_text_spec(root@, movie_name@, self@),
    {
        let mut text = String::new();
        let mut k: usize = 0;
        while k < self.frames.len()
            invariant
                k <= self.frames@.len(),
                text@ == native_text_spec(root@, movie_name@, self.frames@.take(k as int)),
            decreases self.frames@.len() - k,
        {
            let ghost before = text@;
            text.append(root);
            text.append("/");
            text.append(movie_name);
            text.append("/");
            push_frame_file_name(&mut text, self.frames[k]);
            text.append("\n");
            proof {
                let next = self.frames@.take(k + 1);
                assert(next.drop_last() =~= self.frames@.take(k as int));
                assert(text@ =~= before + native_line(
                    root@,
                    movie_name@,
                    self.frames@[k as int] as int,
                ));
            }
            k = k + 1;
        }
        assert(self.frames@.take(k as int) =~= self.frames@);
        text
    }

    /// Manifest text for the external tool: one `file` directive per frame.
    pub fn external_text(&self) -> (text: String)
        ensures
            text@ == external_text_spec(self@),
    {
        let mut text = String::new();
        let mut k: usize = 0;
        while k < self.frames.len()
            invariant
                k <= self.frames@.len(),
                text@ == external_text_spec(self.frames@.take(k as int)),
            decreases self.frames@.len() - k,
        {
            text.append("file '");
            push_frame_file_name(&mut text, self.frames[k]);
            text.append("'\n");
            proof {
                let next = self.frames@.take(k + 1);
                assert(next.drop_last() =~= self.frames@.take(k as int));
            }
            k = k + 1;
        }
        assert(self.frames@.take(k as int) =~= self.frames@);
        text
    }
}

/// Arguments that the external tool is run with: read the manifest with the
/// concat demuxer, accept any path in it, copy the streams unchanged, and
/// write the result to `output_path`.
pub open spec fn external_tool_args_spec(manifest_path: Seq<char>, output_path: Seq<char>) -> Seq<
    Seq<char>,
> {
    seq![
        "-f"@,
        "concat"@,
        "-safe"@,
        "0"@,
        "-i"@,
        manifest_path,
        "-c"@,
        "copy"@,
        output_path,
    ]
}

/// Builds the argument list for one run of the external tool.
pub fn external_tool_args(manifest_path: &str, output_path: &str) -> (args: Vec<String>)
    ensures
        args.deep_view() == external_tool_args_spec(manifest_path@, output_path@),
{
    let mut args: Vec<String> = Vec::new();
    args.push(String::from_str("-f"));
    args.push(String::from_str("concat"));
    args.push(String::from_str("-safe"));
    args.push(String::from_str("0"));
    args.push(String::from_str("-i"));
    args.push(String::from_str(manifest_path));
    args.push(String::from_str("-c"));
    args.push(String::from_str("copy"));
    args.push(String::from_str(output_path));
    args
}

/// A backend reported failure. The frames that were fetched stay in local
/// storage.
#[derive(Clone, Copy, Debug, PartialEq, Eq, Structural)]
pub struct AssemblyError {
    /// The backend that failed.
    pub backend: Backend,
}

/// A backend has succeeded when it ended with exit code 0. `None` stands for
/// a run that ended without an exit code.
pub open spec fn assembly_result_spec(backend: Backend, exit_code: Option<i32>) -> Result<
    (),
    AssemblyError,
> {
    if exit_code == Some(0i32) {
        Ok(())
    } else {
        Err(AssemblyError { backend })
    }
}

/// Interprets what a backend returned.
pub fn assembly_result(backend: Backend, exit_code: Option<i32>) -> (result: Result<
    (),
    AssemblyError,
>)
    ensures
        result == assembly_result_spec(backend, exit_code),
{
    match exit_code {
        Some(code) => {
            if code == 0 {
                Ok(())
            } else {
                Err(AssemblyError { backend })
            }
        },
        None => Err(AssemblyError { backend }),
    }
}

/// Status message of a failed assembly of `movie_name`.
pub open spec fn assembly_error_message(error: AssemblyError, movie_name: Seq<char>) -> Seq<char> {
    match error.backend {
        Backend::Native => "video processing failed for movie: "@ + movie_name,
        Backend::ExternalTool => "FFmpeg execution failed for movie: "@ + movie_name,
    }
}

impl AssemblyError {
    /// The text that tells the user which movie could not be assembled.
    pub fn message(&self, movie_name: &str) -> (text: String)
        ensures
            text@ == assembly_error_message(*self, movie_name@),
    {
        let mut text = match self.backend {
            Backend::Native => String::from_str("video processing failed for movie: "),
            Backend::ExternalTool => String::from_str("FFmpeg execution failed for movie: "),
        };
        text.append(movie_name);
        text
    }
}

} // verus!
