//! Frame addresses: the URL a frame is fetched from and the places in local
//! storage where frames, the manifest and the finished video are kept.

use crate::decimal::{decimal, lemma_decimal_injective, push_decimal};
use vstd::prelude::*;
use vstd::string::StrSliceExecFns;
use vstd::string::StringExecFns;

verus! {

/// Name of the file that holds frame `index`.
pub open spec fn frame_file_name_spec(index: int) -> Seq<char> {
    "video"@ + decimal(index) + ".jpeg"@
}

/// Address that frame `index` of a stream is fetched from.
pub open spec fn frame_url_spec(
    host: Seq<char>,
    stream_id: Seq<char>,
    resolution_tag: Seq<char>,
    index: int,
) -> Seq<char> {
    "https://"@ + host + "/"@ + stream_id + "/"@ + resolution_tag + "/"@ + frame_file_name_spec(
        index,
    )
}

/// Directory below `root` that holds the frames of one job.
pub open spec fn job_dir_spec(root: Seq<char>, movie_name: Seq<char>) -> Seq<char> {
    root + "/"@ + movie_name
}

/// Place of frame `index` in local storage.
pub open spec fn frame_path_spec(root: Seq<char>, movie_name: Seq<char>, index: int) -> Seq<
    char,
> {
    job_dir_spec(root, movie_name) + "/"@ + frame_file_name_spec(index)
}

/// Place of the manifest that is handed to the assembly backend.
pub open spec fn manifest_path_spec(root: Seq<char>, movie_name: Seq<char>) -> Seq<char> {
    job_dir_spec(root, movie_name) + "/list.txt"@
}

/// Place of the finished video.
pub open spec fn output_path_spec(root: Seq<char>, movie_name: Seq<char>) -> Seq<char> {
    job_dir_spec(root, movie_name) + ".mp4"@
}

/// The files of two frames have different names.
pub proof fn lemma_frame_file_names_differ(a: int, b: int)
    requires
        a != b,
    ensures
        frame_file_name_spec(a) != frame_file_name_spec(b),
{
    let head = "video"@;
    let tail = ".jpeg"@;
    if frame_file_name_spec(a) == frame_file_name_spec(b) {
        let name = frame_file_name_spec(a);
        assert(name.len() == head.len() + decimal(a).len() + tail.len());
        assert(name.len() == head.len() + decimal(b).len() + tail.len());
        assert forall|i: int| 0 <= i < decimal(a).len() implies decimal(a)[i] == decimal(b)[i] by {
            assert(decimal(a)[i] == frame_file_name_spec(a)[head.len() + i]);
            assert(decimal(b)[i] == frame_file_name_spec(b)[head.len() + i]);
        }
        assert(decimal(a) =~= decimal(b));
        lemma_decimal_injective(a, b);
    }
}

/// Within one job the frames are keyed by their index: two frames are kept
/// in different files.
pub proof fn lemma_frame_paths_differ(root: Seq<char>, movie_name: Seq<char>, a: int, b: int)
    requires
        a != b,
    ensures
        frame_path_spec(root, movie_name, a) != frame_path_spec(root, movie_name, b),
{
    let head = job_dir_spec(root, movie_name) + "/"@;
    if frame_path_spec(root, movie_name, a) == frame_path_spec(root, movie_name, b) {
        let name_a = frame_file_name_spec(a);
        let name_b = frame_file_name_spec(b);
        assert(frame_path_spec(root, movie_name, a).len() == head.len() + name_a.len());
        assert(frame_path_spec(root, movie_name, b).len() == head.len() + name_b.len());
        assert forall|i: int| 0 <= i < name_a.len() implies name_a[i] == name_b[i] by {
            assert(name_a[i] == frame_path_spec(root, movie_name, a)[head.len() + i]);
            assert(name_b[i] == frame_path_spec(root, movie_name, b)[head.len() + i]);
        }
        assert(name_a =~= name_b);
        lemma_frame_file_names_differ(a, b);
    }
}

/// Within one stream and resolution the frames are keyed by their index: two
/// frames are fetched from different addresses.
pub proof fn lemma_frame_urls_differ(
    host: Seq<char>,
    stream_id: Seq<char>,
    resolution_tag: Seq<char>,
    a: int,
    b: int,
)
    requires
        a != b,
    ensures
        frame_url_spec(host, stream_id, resolution_tag, a) != frame_url_spec(
            host,
            stream_id,
            resolution_tag,
            b,
        ),
{
    let head = "https://"@ + host + "/"@ + stream_id + "/"@ + resolution_tag + "/"@;
    let url_a = frame_url_spec(host, stream_id, resolution_tag, a);
    let url_b = frame_url_spec(host, stream_id, resolution_tag, b);
    if url_a == url_b {
        let name_a = frame_file_name_spec(a);
        let name_b = frame_file_name_spec(b);
        assert(url_a.len() == head.len() + name_a.len());
        assert(url_b.len() == head.len() + name_b.len());
        assert forall|i: int| 0 <= i < name_a.len() implies name_a[i] == name_b[i] by {
            assert(name_a[i] == url_a[head.len() + i]);
            assert(name_b[i] == url_b[head.len() + i]);
        }
        assert(name_a =~= name_b);
        lemma_frame_file_names_differ(a, b);
    }
}

/// Appends the name of the file that holds frame `index` to `out`.
pub fn push_frame_file_name(out: &mut String, index: i32)
    ensures
        final(out)@ == old(out)@ + frame_file_name_spec(index as int),
{
    out.append("video");
    push_decimal(out, index);
    out.append(".jpeg");
}

/// Name of the file that holds frame `index`: `video<index>.jpeg`.
pub fn frame_file_name(index: i32) -> (name: String)
    ensures
        name@ == frame_file_name_spec(index as int),
{
    let mut name = String::new();
    push_frame_file_name(&mut name, index);
    name
}

/// Address of frame `index`:
/// `https://<host>/<stream_id>/<resolution_tag>/video<index>.jpeg`.
pub fn frame_url(host: &str, stream_id: &str, resolution_tag: &str, index: i32) -> (url: String)
    ensures
        url@ == frame_url_spec(host@, stream_id@, resolution_tag@, index as int),
{
    let mut url = String::from_str("https://");
    url.append(host);
    url.append("/");
    url.append(stream_id);
    url.append("/");
    url.append(resolution_tag);
    url.append("/");
    push_frame_file_name(&mut url, index);
    url
}

/// Directory of a job's frames: `<root>/<movie_name>`.
pub fn job_dir(root: &str, movie_name: &str) -> (dir: String)
    ensures
        dir@ == job_dir_spec(root@, movie_name@),
{
    let mut dir = String::from_str(root);
    dir.append("/");
    dir.append(movie_name);
    dir
}

/// Place of frame `index`: `<root>/<movie_name>/video<index>.jpeg`.
pub fn frame_path(root: &str, movie_name: &str, index: i32) -> (path: String)
    ensures
        path@ == frame_path_spec(root@, movie_name@, index as int),
{
    let mut path = job_dir(root, movie_name);
    path.append("/");
    push_frame_file_name(&mut path, index);
    path
}

/// Place of the manifest: `<root>/<movie_name>/list.txt`.
pub fn manifest_path(root: &str, movie_name: &str) -> (path: String)
    ensures
        path@ == manifest_path_spec(root@, movie_name@),
{
    let mut path = job_dir(root, movie_name);
    path.append("/list.txt");
    path
}

/// Place of the finished video: `<root>/<movie_name>.mp4`.
pub fn output_path(root: &str, movie_name: &str) -> (path: String)
    ensures
        path@ == output_path_spec(root@, movie_name@),
{
    let mut path = job_dir(root, movie_name);
    path.append(".mp4");
    path
}

/// The trailing path segment of `url`: what follows the last `/`, or all of
/// `url` where it holds none.
pub open spec fn trailing_segment(url: Seq<char>) -> Seq<char>
    decreases url.len(),
{
    if url.len() == 0 || url.last() == '/' {
        Seq::empty()
    } else {
        trailing_segment(url.drop_last()).push(url.last())
    }
}

/// `name` is an end piece of `url` that holds no `/` and that no longer end
/// piece without `/` extends.
pub open spec fn is_trailing_segment(url: Seq<char>, name: Seq<char>) -> bool {
    &&& name.len() <= url.len()
    &&& name == url.subrange(url.len() - name.len(), url.len() as int)
    &&& !name.contains('/')
    &&& name.len() < url.len() ==> url[url.len() - name.len() - 1] == '/'
}

/// Only one end piece of a URL is its trailing path segment.
pub proof fn lemma_trailing_segment_unique(url: Seq<char>, a: Seq<char>, b: Seq<char>)
    requires
        is_trailing_segment(url, a),
        is_trailing_segment(url, b),
    ensures
        a == b,
{
    if a.len() < b.len() {
        let k = b.len() - a.len() - 1;
        assert(b[k] == url[url.len() - a.len() - 1]);
        assert(b.contains(b[k]));
    } else if b.len() < a.len() {
        let k = a.len() - b.len() - 1;
        assert(a[k] == url[url.len() - b.len() - 1]);
        assert(a.contains(a[k]));
    }
}

/// The trailing path segment is the longest end piece without `/`.
pub proof fn lemma_trailing_segment(url: Seq<char>)
    ensures
        is_trailing_segment(url, trailing_segment(url)),
    decreases url.len(),
{
    let name = trailing_segment(url);
    if url.len() == 0 || url.last() == '/' {
        assert(name =~= url.subrange(url.len() - name.len(), url.len() as int));
    } else {
        let shorter = url.drop_last();
        let rest = trailing_segment(shorter);
        lemma_trailing_segment(shorter);
        assert(name =~= url.subrange(url.len() - name.len(), url.len() as int));
        if name.contains('/') {
            let k = choose|k: int| 0 <= k < name.len() && name[k] == '/';
            assert(rest[k] == '/');
            assert(rest.contains('/'));
        }
        if name.len() < url.len() {
            assert(url[url.len() - name.len() - 1] == shorter[shorter.len() - rest.len() - 1]);
        }
    }
}

/// Name of the movie that a URL points at: its trailing path segment.
pub fn movie_name(url: &str) -> (name: String)
    ensures
        name@ == trailing_segment(url@),
        is_trailing_segment(url@, name@),
{
    let len = url.unicode_len();
    let mut start: usize = 0;
    let mut seen: usize = 0;
    for c in it: url.chars()
        invariant
            it.seq() == url@,
            len == url@.len(),
            seen == it.index(),
            start <= seen,
            forall|i: int| start <= i < seen ==> url@[i] != '/',
            start > 0 ==> url@[start - 1] == '/',
    {
        seen = seen + 1;
        if c == '/' {
            start = seen;
        }
    }
    let name = String::from_str(url.substring_char(start, len));
    proof {
        assert(name@ =~= url@.subrange(url@.len() - name@.len(), url@.len() as int));
        if name@.contains('/') {
            let k = choose|k: int| 0 <= k < name@.len() && name@[k] == '/';
            assert(url@[start + k] == '/');
        }
        lemma_trailing_segment(url@);
        lemma_trailing_segment_unique(url@, name@, trailing_segment(url@));
    }
    name
}

} // verus!
