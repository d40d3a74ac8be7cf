//! Page resolution: what is read out of the pages and playlists of a site to
//! find the stream behind a movie, its resolution and its last frame.
//!
//! Nothing is fetched here. The caller fetches each text and hands it in.

use crate::decimal::{parse_i32, parse_i32_spec, to_chars};
use vstd::prelude::*;
use vstd::string::StrSliceExecFns;
use vstd::string::StringExecFns;

verus! {

/// The error of `regex::Regex::new`. It is carried through as it is;
/// nothing is claimed of what it holds.
#[verifier::external_type_specification]
#[verifier::external_body]
pub struct ExRegexError(regex::Error);

/// Whether `regex::Regex::new` accepts `pattern`.
pub uninterp spec fn pattern_compiles(pattern: Seq<char>) -> bool;

/// What capture group `group` holds for the first match that
/// `regex::Regex::captures` finds of `pattern` in `text`: `None` where there
/// is no match, the pattern has no such group, or the group took no part in
/// the match.
pub uninterp spec fn capture_of(pattern: Seq<char>, text: Seq<char>, group: int) -> Option<
    Seq<char>,
>;

/// Calls `regex::Regex::new` on `pattern` and, where that gives a regex,
/// `Regex::captures` on `text`, `Captures::get` for `group` and
/// `Match::as_str`. The contract claims that compiling fails exactly where
/// `pattern_compiles` says so, and else that the text handed back is
/// `capture_of` for these arguments. It says nothing of what a pattern
/// matches.
#[verifier::external_body]
fn regex_capture(pattern: &str, text: &str, group: usize) -> (found: Result<
    Option<String>,
    regex::Error,
>)
    ensures
        (found is Ok) == pattern_compiles(pattern@),
        found matches Ok(capture) ==> capture_of(pattern@, text@, group as int) == (match capture {
            Some(part) => Some(part@),
            None => None,
        }),
{
    match regex::Regex::new(pattern) {
        Ok(regex) => Ok(
            match regex.captures(text) {
                Some(captures) => match captures.get(group) {
                    Some(part) => Some(part.as_str().to_string()),
                    None => None,
                },
                None => None,
            },
        ),
        Err(error) => Err(error),
    }
}

/// Why a page could not be resolved.
#[derive(Clone, Copy, Debug, PartialEq, Eq, Structural)]
pub enum ParseError {
    /// The pattern that was to find the stream is no regular expression.
    Pattern,
    /// The page names no stream.
    StreamId,
    /// The playlist names no resolution.
    Resolution,
    /// The media playlist does not give the last frame.
    FrameCount,
}

/// The text that tells the user why resolving failed.
pub open spec fn parse_error_message(error: ParseError) -> Seq<char> {
    match error {
        ParseError::Pattern => "Failed to read pattern."@,
        ParseError::StreamId => "Failed to match uuid."@,
        ParseError::Resolution => "Failed to extract resolution"@,
        ParseError::FrameCount => "Failed to extract count"@,
    }
}

impl ParseError {
    /// The text that tells the user why resolving failed.
    pub fn message(&self) -> (text: String)
        ensures
            text@ == parse_error_message(*self),
    {
        match self {
            ParseError::Pattern => String::from_str("Failed to read pattern."),
            ParseError::StreamId => String::from_str("Failed to match uuid."),
            ParseError::Resolution => String::from_str("Failed to extract resolution"),
            ParseError::FrameCount => String::from_str("Failed to extract count"),
        }
    }
}

/// Place of the first `c` in `text`, or the length of `text` where it holds
/// none.
pub open spec fn index_of(text: Seq<char>, c: char) -> int
    decreases text.len(),
{
    if text.len() == 0 || text.first() == c {
        0
    } else {
        1 + index_of(text.drop_first(), c)
    }
}

/// The first `c` in `text` is at `k` exactly where `k` is the place of a
/// `c`, or the end, and no `c` comes before it.
pub proof fn lemma_index_of(text: Seq<char>, c: char, k: int)
    requires
        0 <= k <= text.len(),
        forall|i: int| 0 <= i < k ==> text[i] != c,
        k < text.len() ==> text[k] == c,
    ensures
        index_of(text, c) == k,
    decreases text.len(),
{
    if text.len() > 0 && text.first() != c {
        let rest = text.drop_first();
        assert forall|i: int| 0 <= i < k - 1 implies rest[i] != c by {
            assert(rest[i] == text[i + 1]);
        }
        lemma_index_of(rest, c, k - 1);
    }
}

/// What comes before the first `/` of `text`.
pub open spec fn leading_segment(text: Seq<char>) -> Seq<char> {
    text.take(index_of(text, '/'))
}

/// A line without the carriage return that ends it, if one does.
pub open spec fn without_carriage_return(line: Seq<char>) -> Seq<char> {
    if line.len() > 0 && line.last() == '\r' {
        line.drop_last()
    } else {
        line
    }
}

/// The lines of `text`. A line ends at a line feed, or at a carriage return
/// that a line feed follows; neither is part of the line. What follows the
/// last line feed is a line too, unless it is empty.
pub open spec fn lines_spec(text: Seq<char>) -> Seq<Seq<char>>
    decreases text.len(),
{
    let first_end = index_of(text, '\n');
    if text.len() == 0 {
        Seq::empty()
    } else if first_end < 0 || first_end >= text.len() {
        seq![text]
    } else {
        seq![without_carriage_return(text.take(first_end))] + lines_spec(text.skip(first_end + 1))
    }
}

/// The line that stands `back` lines before the last line of `text`, if
/// there are that many.
pub open spec fn line_from_end_spec(text: Seq<char>, back: int) -> Option<Seq<char>> {
    let lines = lines_spec(text);
    if 0 <= back < lines.len() {
        Some(lines[lines.len() - 1 - back])
    } else {
        None
    }
}

spec fn cut(text: Seq<char>, ranges: Seq<(usize, usize)>) -> Seq<Seq<char>> {
    Seq::new(ranges.len(), |i: int| text.subrange(ranges[i].0 as int, ranges[i].1 as int))
}

fn line_ranges(chars: &Vec<char>) -> (ranges: Vec<(usize, usize)>)
    ensures
        forall|i: int|
            0 <= i < ranges@.len() ==> (#[trigger] ranges@[i]).0 <= ranges@[i].1 <= chars@.len(),
        cut(chars@, ranges@) == lines_spec(chars@),
{
    let n = chars.len();
    let mut ranges: Vec<(usize, usize)> = Vec::new();
    let mut pos: usize = 0;
    proof {
        assert(chars@.skip(0) =~= chars@);
        assert(cut(chars@, ranges@) + lines_spec(chars@) =~= lines_spec(chars@));
    }
    while pos < n
        invariant
            pos <= n,
            n == chars@.len(),
            forall|i: int|
                0 <= i < ranges@.len() ==> (#[trigger] ranges@[i]).0 <= ranges@[i].1 <= n,
            lines_spec(chars@) == cut(chars@, ranges@) + lines_spec(chars@.skip(pos as int)),
        decreases n - pos,
    {
        let mut k: usize = pos;
        while k < n && chars[k] != '\n'
            invariant
                pos <= k <= n,
                n == chars@.len(),
                forall|j: int| pos <= j < k ==> chars@[j] != '\n',
            decreases n - k,
        {
            k = k + 1;
        }
        let ghost rest = chars@.skip(pos as int);
        let ghost before = ranges@;
        proof {
            lemma_index_of(rest, '\n', k - pos);
        }
        if k == n {
            ranges.push((pos, n));
            proof {
                assert(rest =~= chars@.subrange(pos as int, n as int));
                assert(lines_spec(chars@.skip(n as int)) =~= Seq::<Seq<char>>::empty());
                assert(cut(chars@, ranges@) =~= cut(chars@, before) + seq![rest]);
                assert(cut(chars@, before) + lines_spec(rest) =~= cut(chars@, ranges@)
                    + lines_spec(chars@.skip(n as int)));
            }
            pos = n;
        } else {
            let end: usize = if k > pos && chars[k - 1] == '\r' {
                k - 1
            } else {
                k
            };
            ranges.push((pos, end));
            proof {
                let line = rest.take(k - pos);
                assert(line =~= chars@.subrange(pos as int, k as int));
                assert(without_carriage_return(line) =~= chars@.subrange(pos as int, end as int));
                assert(rest.skip(k - pos + 1) =~= chars@.skip(k + 1));
                assert(cut(chars@, ranges@) =~= cut(chars@, before) + seq![
                    without_carriage_return(line),
                ]);
                assert(cut(chars@, before) + lines_spec(rest) =~= cut(chars@, ranges@)
                    + lines_spec(chars@.skip(k + 1)));
            }
            pos = k + 1;
        }
    }
    proof {
        assert(lines_spec(chars@.skip(pos as int)) =~= Seq::<Seq<char>>::empty());
        assert(cut(chars@, ranges@) + lines_spec(chars@.skip(pos as int)) =~= cut(
            chars@,
            ranges@,
        ));
    }
    ranges
}

/// Picks a line of `text`, counted from its end: `back` 0 is the last line,
/// 1 the one before it.
pub fn line_from_end(text: &str, back: usize) -> (line: Option<String>)
    ensures
        line_from_end_spec(text@, back as int) == (match line {
            Some(found) => Some(found@),
            None => None,
        }),
{
    let chars = to_chars(text);
    let ranges = line_ranges(&chars);
    if back < ranges.len() {
        let range = ranges[ranges.len() - 1 - back];
        assert(cut(chars@, ranges@)[ranges@.len() - 1 - back] == chars@.subrange(
            range.0 as int,
            range.1 as int,
        ));
        Some(String::from_str(text.substring_char(range.0, range.1)))
    } else {
        None
    }
}

/// The resolution that a playlist entry names: what comes before its first
/// `/`.
pub fn resolution_tag_of(entry: &str) -> (tag: String)
    ensures
        tag@ == leading_segment(entry@),
{
    let chars = to_chars(entry);
    let n = chars.len();
    let mut k: usize = 0;
    while k < n && chars[k] != '/'
        invariant
            k <= n,
            n == chars@.len(),
            forall|j: int| 0 <= j < k ==> chars@[j] != '/',
        decreases n - k,
    {
        k = k + 1;
    }
    proof {
        lemma_index_of(chars@, '/', k as int);
    }
    String::from_str(entry.substring_char(0, k))
}

/// The regular expression for a run of decimal digits.
pub open spec fn digits_pattern() -> Seq<char> {
    "\\d+"@
}

/// The stream that a page names, from what the pattern for streams has
/// captured in it.
pub open spec fn stream_id_from(capture: Option<Seq<char>>) -> Result<Seq<char>, ParseError> {
    match capture {
        Some(stream_id) => Ok(stream_id),
        None => Err(ParseError::StreamId),
    }
}

/// The index of the last frame, from the first run of digits that was found
/// in the line that gives it.
pub open spec fn frame_index_from(capture: Option<Seq<char>>) -> Result<i32, ParseError> {
    match capture {
        Some(digits) => match parse_i32_spec(digits) {
            Some(index) => Ok(index),
            None => Err(ParseError::FrameCount),
        },
        None => Err(ParseError::FrameCount),
    }
}

/// The stream that `page` names: what the first capture group of `pattern`
/// holds in it.
pub open spec fn stream_id_in(pattern: Seq<char>, page: Seq<char>) -> Result<
    Seq<char>,
    ParseError,
> {
    if pattern_compiles(pattern) {
        stream_id_from(capture_of(pattern, page, 1))
    } else {
        Err(ParseError::Pattern)
    }
}

/// The index of the last frame that `line` gives: its first run of digits,
/// read as a number.
pub open spec fn frame_index_in(line: Seq<char>) -> Result<i32, ParseError> {
    if pattern_compiles(digits_pattern()) {
        frame_index_from(capture_of(digits_pattern(), line, 0))
    } else {
        Err(ParseError::Pattern)
    }
}

/// Takes what the pattern for streams has captured in a page as the stream's
/// identifier; a page without a capture names no stream.
pub fn stream_id_of(capture: Option<String>) -> (stream_id: Result<String, ParseError>)
    ensures
        stream_id_from(
            match capture {
                Some(part) => Some(part@),
                None => None,
            },
        ) == (match stream_id {
            Ok(found) => Ok(found@),
            Err(error) => Err(error),
        }),
{
    match capture {
        Some(part) => Ok(part),
        None => Err(ParseError::StreamId),
    }
}

/// Reads the run of digits that was found in a line as the index of the last
/// frame. No run, or one that is no 32-bit number, gives no frame count.
pub fn frame_index_of(capture: Option<String>) -> (index: Result<i32, ParseError>)
    ensures
        index == frame_index_from(
            match capture {
                Some(part) => Some(part@),
                None => None,
            },
        ),
{
    match capture {
        Some(digits) => match parse_i32(digits.as_str()) {
            Some(index) => Ok(index),
            None => Err(ParseError::FrameCount),
        },
        None => Err(ParseError::FrameCount),
    }
}

/// Finds the identifier of the stream in a page: the first capture group of
/// `pattern` where it first matches.
pub fn extract_stream_id(pattern: &str, page: &str) -> (stream_id: Result<String, ParseError>)
    ensures
        stream_id_in(pattern@, page@) == (match stream_id {
            Ok(found) => Ok(found@),
            Err(error) => Err(error),
        }),
{
    match regex_capture(pattern, page, 1) {
        Ok(capture) => stream_id_of(capture),
        Err(_) => Err(ParseError::Pattern),
    }
}

/// Finds the index of the last frame in the line of a media playlist that
/// gives it: the first run of digits in the line.
pub fn extract_last_frame_index(line: &str) -> (index: Result<i32, ParseError>)
    ensures
        index == frame_index_in(line@),
{
    match regex_capture("\\d+", line, 0) {
        Ok(capture) => frame_index_of(capture),
        Err(_) => Err(ParseError::Pattern),
    }
}

/// The entry of a playlist that is resolved: its last line.
pub open spec fn playlist_entry_spec(playlist: Seq<char>) -> Result<Seq<char>, ParseError> {
    match line_from_end_spec(playlist, 0) {
        Some(entry) => Ok(entry),
        None => Err(ParseError::Resolution),
    }
}

/// Picks the entry of a playlist that is resolved: its last line. A playlist
/// without a line names no resolution.
pub fn playlist_entry(playlist: &str) -> (entry: Result<String, ParseError>)
    ensures
        playlist_entry_spec(playlist@) == (match entry {
            Ok(found) => Ok(found@),
            Err(error) => Err(error),
        }),
{
    match line_from_end(playlist, 0) {
        Some(entry) => Ok(entry),
        None => Err(ParseError::Resolution),
    }
}

/// The index of the last frame of a media playlist: the one that its last
/// line but one gives.
pub open spec fn last_frame_index_spec(media_playlist: Seq<char>) -> Result<i32, ParseError> {
    match line_from_end_spec(media_playlist, 1) {
        Some(line) => frame_index_in(line),
        None => Err(ParseError::FrameCount),
    }
}

/// Finds the index of the last frame in a media playlist. A playlist of
/// fewer than two lines gives no frame count.
pub fn last_frame_index(media_playlist: &str) -> (index: Result<i32, ParseError>)
    ensures
        index == last_frame_index_spec(media_playlist@),
{
    match line_from_end(media_playlist, 1) {
        Some(line) => extract_last_frame_index(line.as_str()),
        None => Err(ParseError::FrameCount),
    }
}

/// `needle` stands in `text` at place `at`.
pub open spec fn occurs_at(needle: Seq<char>, text: Seq<char>, at: int) -> bool {
    0 <= at && at + needle.len() <= text.len() && text.subrange(at, at + needle.len()) == needle
}

/// `needle` stands somewhere in `text`.
pub open spec fn occurs_in(needle: Seq<char>, text: Seq<char>) -> bool {
    exists|at: int| #[trigger] occurs_at(needle, text, at)
}

/// The address of the page of a movie: what the user gave, where that is an
/// address already, and else the address of that name on `site`.
pub open spec fn page_url_spec(site: Seq<char>, identifier: Seq<char>) -> Seq<char> {
    if occurs_at("https://"@, identifier, 0) && occurs_in(".com"@, identifier) {
        identifier
    } else {
        site + identifier
    }
}

/// The address of the playlist of a stream.
pub open spec fn playlist_url_spec(base: Seq<char>, stream_id: Seq<char>) -> Seq<char> {
    base + stream_id + "/playlist.m3u8"@
}

/// The address of the media playlist that a playlist entry names.
pub open spec fn media_playlist_url_spec(
    base: Seq<char>,
    stream_id: Seq<char>,
    entry: Seq<char>,
) -> Seq<char> {
    base + stream_id + "/"@ + entry
}

fn stands_at(needle: &Vec<char>, text: &Vec<char>, at: usize) -> (found: bool)
    ensures
        found == occurs_at(needle@, text@, at as int),
{
    if needle.len() > text.len() || at > text.len() - needle.len() {
        return false;
    }
    let mut k: usize = 0;
    while k < needle.len()
        invariant
            k <= needle@.len(),
            at + needle@.len() <= text@.len() <= usize::MAX,
            forall|j: int| 0 <= j < k ==> text@[at + j] == needle@[j],
        decreases needle@.len() - k,
    {
        if text[at + k] != needle[k] {
            assert(text@.subrange(at as int, at + needle@.len())[k as int] != needle@[k as int]);
            return false;
        }
        k = k + 1;
    }
    assert(text@.subrange(at as int, at + needle@.len()) =~= needle@);
    true
}

fn stands_in(needle: &Vec<char>, text: &Vec<char>) -> (found: bool)
    ensures
        found == occurs_in(needle@, text@),
{
    if needle.len() > text.len() {
        assert forall|at: int| !#[trigger] occurs_at(needle@, text@, at) by {}
        return false;
    }
    let last: usize = text.len() - needle.len();
    let mut at: usize = 0;
    while at < last
        invariant
            at <= last,
            last == text@.len() - needle@.len(),
            forall|before: int| 0 <= before < at ==> !#[trigger] occurs_at(needle@, text@, before),
        decreases last - at,
    {
        if stands_at(needle, text, at) {
            return true;
        }
        at = at + 1;
    }
    let found = stands_at(needle, text, last);
    if !found {
        assert forall|at: int| !#[trigger] occurs_at(needle@, text@, at) by {}
    }
    found
}

/// Gives the address of the page of a movie, from what the user gave.
pub fn page_url(site: &str, identifier: &str) -> (url: String)
    ensures
        url@ == page_url_spec(site@, identifier@),
{
    let text = to_chars(identifier);
    let scheme = to_chars("https://");
    let domain = to_chars(".com");
    if stands_at(&scheme, &text, 0) && stands_in(&domain, &text) {
        String::from_str(identifier)
    } else {
        let mut url = String::from_str(site);
        url.append(identifier);
        url
    }
}

/// Gives the address of the playlist of a stream:
/// `<base><stream_id>/playlist.m3u8`.
pub fn playlist_url(base: &str, stream_id: &str) -> (url: String)
    ensures
        url@ == playlist_url_spec(base@, stream_id@),
{
    let mut url = String::from_str(base);
    url.append(stream_id);
    url.append("/playlist.m3u8");
    url
}

/// Gives the address of the media playlist that a playlist entry names:
/// `<base><stream_id>/<entry>`.
pub fn media_playlist_url(base: &str, stream_id: &str, entry: &str) -> (url: String)
    ensures
        url@ == media_playlist_url_spec(base@, stream_id@, entry@),
{
    let mut url = String::from_str(base);
    url.append(stream_id);
    url.append("/");
    url.append(entry);
    url
}

} // verus!
