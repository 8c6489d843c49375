//! Downloading the input: the name of the file, and what is shown meanwhile.

use vstd::prelude::*;

use crate::paths::{a_joined_name_is_kept, is_name, joined, name_of, Style};
use crate::session::is_remote;
use crate::text::{decimal, lower};

verus! {

/// The segments of the path of a URL; nothing, if the text is no URL or the
/// URL has no path of segments. It names what `reqwest::Url` makes of the
/// text.
pub uninterp spec fn url_segments(url: Seq<char>) -> Option<Seq<Seq<char>>>;

/// Whether the text begins with `http`, in capitals or not.
pub open spec fn begins_with_http(url: Seq<char>) -> bool {
    "http"@.is_prefix_of(lower(url))
}

/// Whatever is to be downloaded begins so.
pub proof fn what_is_remote_begins_with_http(input: Seq<char>)
    requires
        is_remote(input),
    ensures
        begins_with_http(input),
{
    reveal_strlit("http");
    assert(forall|k: int| 0 <= k < 4 ==> input[k] == "http"@[k]) by {
        assert(input.subrange(0, 4) == "http"@);
        assert forall|k: int| 0 <= k < 4 implies input[k] == "http"@[k] by {
            assert(input.subrange(0, 4)[k] == input[k]);
        }
    }
    assert("http"@ =~= lower(input).subrange(0, 4));
}

/// Calls `reqwest::Url::parse`, and `path_segments` of what that gives.
///
/// Believed of them: the result depends on the text alone; where there are
/// segments there is at least one; since the path is split at its slashes, no
/// segment has one in it; and, since the parser takes dot segments out of the
/// path, the last one is neither `.` nor `..`, where the text begins with
/// `http`, in capitals or not. Of the last segment of another text that is not
/// said: a `file` URL with a drive letter, a tab and a dot keeps the dot.
#[verifier::external_body]
fn parse_url_segments(url: &str) -> (r: Option<Vec<String>>)
    ensures
        r.deep_view() == url_segments(url@),
        r matches Some(segments) ==> segments@.len() > 0,
        r matches Some(segments) ==> forall|i: int|
            0 <= i < segments@.len() ==> !(#[trigger] segments@[i])@.contains('/'),
        begins_with_http(url@) ==> (r matches Some(segments) ==> is_name(segments@.last()@)),
{
    let parsed = reqwest::Url::parse(url).ok()?;
    let segments = parsed.path_segments()?;
    Some(segments.map(|segment| segment.to_string()).collect())
}

/// The name of the file: the last segment, unless there is none or it is
/// empty.
pub open spec fn name_in(segments: Option<Seq<Seq<char>>>) -> Seq<char> {
    match segments {
        Some(segments) => if segments.len() > 0 && segments.last().len() > 0 {
            segments.last()
        } else {
            "unknown.bin"@
        },
        None => "unknown.bin"@,
    }
}

/// The name of the file, from the segments of its URL's path.
pub fn file_name_in(segments: &Option<Vec<String>>) -> (r: String)
    ensures
        r@ == name_in(segments.deep_view()),
{
    match segments {
        Some(segments) => {
            let n: usize = segments.len();
            if n > 0 && !segments[n - 1].as_str().is_empty() {
                segments[n - 1].clone()
            } else {
                "unknown.bin".to_string()
            }
        },
        None => "unknown.bin".to_string(),
    }
}

/// Whether the text can be the name of a file in a directory: it is not empty,
/// has no separator in it, and leads neither to the directory nor above it.
pub open spec fn is_file_name(name: Seq<char>) -> bool {
    &&& name.len() > 0
    &&& !name.contains('/')
    &&& is_name(name)
}

/// The name under which what the URL leads to is stored. It is not empty and
/// has no separator in it; where the URL begins with `http`, it is the name of
/// a file.
pub fn file_name_of(url: &str) -> (r: String)
    ensures
        r@ == name_in(url_segments(url@)),
        r@.len() > 0,
        !r@.contains('/'),
        begins_with_http(url@) ==> is_file_name(r@),
{
    let segments: Option<Vec<String>> = parse_url_segments(url);
    let r: String = file_name_in(&segments);
    proof {
        reveal_strlit("unknown.bin");
        if let Some(list) = segments {
            assert(segments.deep_view()->0.last() == list@[list@.len() - 1]@);
        }
    }
    r
}

/// Calls `reqwest::StatusCode::from_u16`, and `is_success` of what that gives.
///
/// Believed of them: each number from 200 to 299 is a status code of success,
/// and no other number is one.
#[verifier::external_body]
fn is_success(status: u16) -> (r: bool)
    ensures
        r == (200 <= status < 300),
{
    match reqwest::StatusCode::from_u16(status) {
        Ok(code) => code.is_success(),
        Err(_) => false,
    }
}

/// The status code in words; nothing, if the number is not one of a status
/// code. It names what `reqwest::StatusCode` shows of itself.
pub uninterp spec fn status_words(status: u16) -> Option<Seq<char>>;

/// Calls `reqwest::StatusCode::from_u16`, and `to_string` of what that gives.
///
/// Believed of them: the result depends on the number alone; the status codes
/// are the numbers from 100 to 999; and what is shown begins with the number
/// and a space.
#[verifier::external_body]
fn show_status(status: u16) -> (r: Option<String>)
    ensures
        r.deep_view() == status_words(status),
        r is Some <==> 100 <= status <= 999,
        r matches Some(words) ==> (decimal(status as nat) + seq![' ']).is_prefix_of(words@),
{
    match reqwest::StatusCode::from_u16(status) {
        Ok(code) => Some(code.to_string()),
        Err(_) => None,
    }
}

/// Why a download does not start: the server's status code is not one of
/// success.
#[derive(Clone, Copy, Debug, PartialEq, Eq, Structural)]
pub struct HttpFailure {
    pub status: u16,
}

/// The error in words, from the status code in words.
pub fn http_failure_words(status: &str) -> (r: String)
    ensures
        r@ == "http request failed: "@ + status@,
{
    let mut r: String = "http request failed: ".to_string();
    r.append(status);
    r
}

impl HttpFailure {
    /// The error in words; nothing, if the number is not one of a status code.
    pub fn words(&self) -> (r: Option<String>)
        ensures
            r.deep_view() == match status_words(self.status) {
                Some(words) => Some("http request failed: "@ + words),
                None => None,
            },
            r is Some <==> 100 <= self.status <= 999,
    {
        match show_status(self.status) {
            Some(words) => Some(http_failure_words(words.as_str())),
            None => None,
        }
    }
}

/// A download under way.
pub struct Download {
    file_name: String,
    length: Option<u64>,
    downloaded: usize,
}

/// What is shown when a part has come in.
#[derive(Clone, Copy, Debug, PartialEq, Eq, Structural)]
pub enum Shown {
    /// The bar stands at so many bytes.
    Position(u64),
    /// So many megabytes have come in.
    Megabytes(usize),
    /// Nothing.
    Nothing,
}

/// What is shown after so many bytes: the bar, if the length is known; else a
/// word at most once a second.
pub open spec fn shown(length: Option<u64>, downloaded: nat, seconds: u64) -> Shown {
    if length is Some {
        Shown::Position(downloaded as u64)
    } else if seconds >= 1 {
        Shown::Megabytes((downloaded / 1024 / 1024) as usize)
    } else {
        Shown::Nothing
    }
}

impl Download {
    /// The name of the file.
    pub closed spec fn spec_file_name(self) -> Seq<char> {
        self.file_name@
    }

    /// How long the file is, if the server said so.
    pub closed spec fn spec_length(self) -> Option<u64> {
        self.length
    }

    /// How much has come in.
    pub closed spec fn spec_downloaded(self) -> nat {
        self.downloaded as nat
    }

    /// The name of the file.
    pub fn file_name(&self) -> (r: &str)
        ensures
            r@ == self.spec_file_name(),
    {
        self.file_name.as_str()
    }

    /// How long the file is, if the server said so. Only then there is a bar.
    pub fn length(&self) -> (r: Option<u64>)
        ensures
            r == self.spec_length(),
    {
        self.length
    }

    /// What stands beside the bar.
    pub fn bar_message(&self) -> (r: String)
        ensures
            r@ == "Downloading "@ + self.spec_file_name(),
    {
        let mut r: String = "Downloading ".to_string();
        r.append(self.file_name.as_str());
        r
    }

    /// Takes note of a part of that many bytes; `seconds` have gone by since
    /// the last word, or since the start.
    pub fn receive(&mut self, bytes: usize, seconds: u64) -> (r: Shown)
        requires
            old(self).spec_downloaded() + bytes <= usize::MAX,
        ensures
            final(self).spec_file_name() == old(self).spec_file_name(),
            final(self).spec_length() == old(self).spec_length(),
            final(self).spec_downloaded() == old(self).spec_downloaded() + bytes,
            r == shown(old(self).spec_length(), final(self).spec_downloaded(), seconds),
    {
        self.downloaded = self.downloaded + bytes;
        if self.length.is_some() {
            Shown::Position(self.downloaded as u64)
        } else if seconds >= 1 {
            Shown::Megabytes(self.downloaded / 1024 / 1024)
        } else {
            Shown::Nothing
        }
    }

    /// Ends the download: the name of the file is what is handed on.
    pub fn finish(self) -> (r: String)
        ensures
            r@ == self.spec_file_name(),
    {
        self.file_name
    }
}

/// Starts a download on the server's answer.
pub fn download_with_process(url: &str, status: u16, content_length: Option<u64>) -> (r: Result<
    Download,
    HttpFailure,
>)
    ensures
        200 <= status < 300 ==> (r matches Ok(download) && {
            &&& download.spec_file_name() == name_in(url_segments(url@))
            &&& download.spec_file_name().len() > 0
            &&& !download.spec_file_name().contains('/')
            &&& begins_with_http(url@) ==> is_file_name(download.spec_file_name())
            &&& download.spec_length() == content_length
            &&& download.spec_downloaded() == 0
        }),
        !(200 <= status < 300) ==> r == Err::<Download, HttpFailure>(HttpFailure { status }),
{
    if !is_success(status) {
        return Err(HttpFailure { status });
    }
    Ok(Download { file_name: file_name_of(url), length: content_length, downloaded: 0 })
}

/// How long a download may take, in seconds.
pub const TIMEOUT_SECONDS: u64 = 600;

/// Why there is no file.
#[derive(Debug, PartialEq, Eq)]
pub enum DownloadError<E> {
    /// It took too long.
    Timeout,
    /// It went wrong.
    Failed(E),
}

impl<E> DownloadError<E> {
    /// The error in words; nothing, where what went wrong has words of its own.
    pub fn words(&self) -> (r: Option<&'static str>)
        ensures
            r.deep_view() == match self {
                DownloadError::Timeout => Some("download timeout"@),
                DownloadError::Failed(_) => None,
            },
    {
        match self {
            DownloadError::Timeout => Some("download timeout"),
            DownloadError::Failed(_) => None,
        }
    }
}

/// What a download comes to, where `outcome` is nothing if the time ran out.
pub fn download_file<E>(outcome: Option<Result<String, E>>) -> (r: Result<
    String,
    DownloadError<E>,
>)
    ensures
        r == match outcome {
            Some(Ok(name)) => Ok::<String, DownloadError<E>>(name),
            Some(Err(error)) => Err(DownloadError::Failed(error)),
            None => Err(DownloadError::Timeout),
        },
{
    match outcome {
        Some(Ok(name)) => Ok(name),
        Some(Err(error)) => Err(DownloadError::Failed(error)),
        None => Err(DownloadError::Timeout),
    }
}

/// On POSIX systems what is downloaded is stored in the directory itself: the
/// path leads to a file of that name there.
pub proof fn a_download_is_stored_in_its_directory(directory: Seq<char>, name: Seq<char>)
    requires
        is_file_name(name),
    ensures
        ({
            let path = joined(Style::Posix, directory, name);
            &&& name_of(Style::Posix, path) == Some(name)
            &&& path == directory + name || path == directory + seq!['/'] + name
        }),
{
    a_joined_name_is_kept(directory, name);
    assert(name.contains(name[0]));
}

/// The bytes of all the parts.
pub open spec fn total(parts: Seq<usize>) -> nat
    decreases parts.len(),
{
    if parts.len() == 0 {
        0
    } else {
        total(parts.drop_last()) + parts.last() as nat
    }
}

/// What a series of downloads looks like, each one part further than the one
/// before.
pub open spec fn is_course(course: Seq<Download>, parts: Seq<usize>) -> bool {
    &&& course.len() == parts.len() + 1
    &&& forall|i: int|
        #![trigger parts[i]]
        0 <= i < parts.len() ==> course[i + 1].spec_downloaded() == course[i].spec_downloaded()
            + parts[i]
}

/// What has come in is the sum of the parts.
pub proof fn downloaded_is_the_sum(course: Seq<Download>, parts: Seq<usize>)
    requires
        is_course(course, parts),
        course[0].spec_downloaded() == 0,
    ensures
        course.last().spec_downloaded() == total(parts),
    decreases parts.len(),
{
    if parts.len() > 0 {
        let before = parts.drop_last();
        let n: int = parts.len() - 1;
        assert forall|i: int|
            #![trigger before[i]]
            0 <= i < before.len() implies course.drop_last()[i + 1].spec_downloaded()
            == course.drop_last()[i].spec_downloaded() + before[i] by {
            assert(parts[i] == before[i]);
        }
        downloaded_is_the_sum(course.drop_last(), before);
        assert(course[n + 1].spec_downloaded() == course[n].spec_downloaded() + parts[n]);
    }
}

/// A file is named by the last segment of its URL's path, unless that is
/// empty; whatever stands before it does not matter.
pub proof fn the_last_segment_names_the_file(front: Seq<Seq<char>>, last: Seq<char>)
    ensures
        last.len() > 0 ==> name_in(Some(front.push(last))) == last,
        last.len() == 0 ==> name_in(Some(front.push(last))) == "unknown.bin"@,
        name_in(Some(Seq::empty())) == "unknown.bin"@,
        name_in(None) == "unknown.bin"@,
{
}

/// Where the length is known, the bar stands at just what has come in.
/// Elsewhere, once a second has gone by, the whole megabytes are told, neither
/// too many nor too few; before that nothing is shown.
pub proof fn progress_is_shown_truly(length: Option<u64>, downloaded: nat, seconds: u64)
    requires
        downloaded <= usize::MAX,
    ensures
        length is Some ==> (shown(length, downloaded, seconds) matches Shown::Position(at) && at
            == downloaded),
        length is None && seconds >= 1 ==> (shown(length, downloaded, seconds)
            matches Shown::Megabytes(n) && n * 1_048_576 <= downloaded < (n + 1) * 1_048_576),
        length is None && seconds < 1 ==> shown(length, downloaded, seconds) == Shown::Nothing,
{
    assert(downloaded / 1024 / 1024 == downloaded / 1_048_576);
}

/// A name can be that of a file in a directory just if it is not empty, has no
/// slash in it, and is neither one dot nor two.
pub proof fn a_file_name_stays_in_its_directory(name: Seq<char>)
    requires
        is_file_name(name),
    ensures
        name.len() > 0,
        forall|k: int| 0 <= k < name.len() ==> #[trigger] name[k] != '/',
        name.len() == 1 ==> name[0] != '.',
        name.len() == 2 ==> name[0] != '.' || name[1] != '.',
{
    assert forall|k: int| 0 <= k < name.len() implies #[trigger] name[k] != '/' by {
        if name[k] == '/' {
            assert(name.contains('/'));
        }
    }
    if name.len() == 1 && name[0] == '.' {
        assert(name =~= seq!['.']);
    }
    if name.len() == 2 && name[0] == '.' && name[1] == '.' {
        assert(name =~= seq!['.', '.']);
    }
}

/// A download starts just on a status from 200 to 299, with nothing received
/// and the length that the server gave; on any other the status is the error.
pub proof fn a_download_starts_on_success_alone(
    url: &str,
    status: u16,
    content_length: Option<u64>,
    r: Result<Download, HttpFailure>,
)
    requires
        call_ensures(download_with_process, (url, status, content_length), r),
    ensures
        r is Ok <==> 200 <= status <= 299,
        r matches Ok(download) ==> download.spec_downloaded() == 0 && download.spec_length()
            == content_length && download.spec_file_name() == name_in(url_segments(url@)),
        r matches Err(failure) ==> failure.status == status,
{
}

} // verus!
