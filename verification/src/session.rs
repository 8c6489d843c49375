//! What the user asks for, and what that comes to before any media is read.

use vstd::prelude::*;

use crate::text::begins_with;

verus! {

/// Where the media comes from.
#[derive(Debug, PartialEq, Eq)]
pub enum Source {
    /// A URL to download first.
    Download(String),
    /// A file.
    File(String),
}

/// What comes first, whatever is done with the media.
///
/// The media is fetched and analysed. Where no output is named, that is all.
pub struct Preparation {
    /// Whether the codecs tell everything they do.
    pub trace: bool,
    pub source: Source,
    pub output: Option<String>,
}

/// Whether the input names something to download.
pub open spec fn is_remote(input: Seq<char>) -> bool {
    "http"@.is_prefix_of(input)
}

impl Preparation {
    /// Whether this is what the request comes to.
    pub open spec fn is_for(
        self,
        input: Seq<char>,
        output: Option<Seq<char>>,
        verbose: bool,
    ) -> bool {
        &&& self.trace == verbose
        &&& is_remote(input) ==> (self.source matches Source::Download(url) && url@ == input)
        &&& !is_remote(input) ==> (self.source matches Source::File(path) && path@ == input)
        &&& self.output.deep_view() == output
    }
}

/// What follows on the analysis of the media.
#[derive(Debug, PartialEq, Eq)]
pub enum AfterAnalysis {
    /// Nothing.
    Stop,
    /// The media is worked on.
    Process { input: String, output: String },
}

/// A text of one's own, if there is one.
fn owned(text: Option<&str>) -> (r: Option<String>)
    ensures
        r.deep_view() == text.deep_view(),
{
    match text {
        Some(text) => Some(text.to_string()),
        None => None,
    }
}

/// What the request comes to.
pub fn prepare(input: &str, output: Option<&str>, verbose: bool) -> (r: Preparation)
    ensures
        r.is_for(input@, output.deep_view(), verbose),
{
    let source: Source = if begins_with(input, "http") || begins_with(input, "https") {
        proof {
            reveal_strlit("http");
            reveal_strlit("https");
            if "https"@.is_prefix_of(input@) {
                assert("http"@ =~= "https"@.subrange(0, 4));
                assert("http"@ =~= input@.subrange(0, 4));
            }
        }
        Source::Download(input.to_string())
    } else {
        Source::File(input.to_string())
    };
    Preparation { trace: verbose, source, output: owned(output) }
}

impl Preparation {
    /// What follows on the analysis of the media, which is in that file.
    pub fn after_analysis(self, file: String) -> (r: AfterAnalysis)
        ensures
            r == match self.output {
                Some(output) => AfterAnalysis::Process { input: file, output },
                None => AfterAnalysis::Stop,
            },
    {
        match self.output {
            Some(output) => AfterAnalysis::Process { input: file, output },
            None => AfterAnalysis::Stop,
        }
    }
}

/// The things the tool can be told to do on the command line.
#[derive(Clone, Copy, Debug, PartialEq, Eq, Structural)]
pub enum Method {
    StreamSplit,
}

impl Method {
    /// The words that an error of the method gets in front.
    pub fn failure_words(&self) -> (r: &'static str)
        ensures
            r@ == match self {
                Method::StreamSplit => "stream split failed"@,
            },
    {
        match self {
            Method::StreamSplit => "stream split failed",
        }
    }
}

/// The error in words where there is no method of that name.
pub fn unknown_method_words() -> (r: &'static str)
    ensures
        r@ == "invalid method"@,
{
    "invalid method"
}

/// The method of that name.
pub fn method_named(name: &str) -> (r: Option<Method>)
    ensures
        r == if name@ == "stream_split"@ {
            Some(Method::StreamSplit)
        } else {
            None
        },
{
    if crate::text::same_text(name, "stream_split") {
        Some(Method::StreamSplit)
    } else {
        None
    }
}

/// A transcoding of the audio of a file.
pub struct TranscodePlan {
    pub preparation: Preparation,
    /// Where to start, in seconds.
    pub seek: Option<i64>,
    /// The filter that the audio goes through.
    pub filter: String,
    /// The words that an error gets in front, if any.
    pub failure_words: Option<&'static str>,
}

impl TranscodePlan {
    /// Whether this is what the request comes to. Without a filter the audio
    /// goes through `anull`, which leaves it as it is.
    pub open spec fn is_for(
        self,
        input: Seq<char>,
        output: Option<Seq<char>>,
        verbose: bool,
        seek: Option<i64>,
        filter: Option<Seq<char>>,
        failure_words: Option<Seq<char>>,
    ) -> bool {
        &&& self.preparation.is_for(input, output, verbose)
        &&& self.seek == seek
        &&& self.filter@ == match filter {
            Some(filter) => filter,
            None => "anull"@,
        }
        &&& self.failure_words.deep_view() == failure_words
    }
}

/// Plans a transcoding through a filter.
pub fn transcode_audio(
    input: &str,
    output: Option<&str>,
    verbose: bool,
    seek: Option<i64>,
    filter: Option<&str>,
) -> (r: TranscodePlan)
    ensures
        r.is_for(input@, output.deep_view(), verbose, seek, filter.deep_view(), None),
{
    let filter: String = match filter {
        Some(filter) => filter.to_string(),
        None => "anull".to_string(),
    };
    TranscodePlan {
        preparation: prepare(input, output, verbose),
        seek,
        filter,
        failure_words: None,
    }
}

/// Plans a transcoding in which the sound swings from side to side, once in
/// two seconds and over the full width.
pub fn auto_pan_swirl(
    input: &str,
    output: Option<&str>,
    verbose: bool,
    seek: Option<i64>,
) -> (r: TranscodePlan)
    ensures
        r.is_for(
            input@,
            output.deep_view(),
            verbose,
            seek,
            Some("apulsator=mode=sine:hz=0.5:width=1"@),
            Some("transcode audio failed"@),
        ),
{
    TranscodePlan {
        failure_words: Some("transcode audio failed"),
        ..transcode_audio(input, output, verbose, seek, Some("apulsator=mode=sine:hz=0.5:width=1"))
    }
}

/// Plans a transcoding that plays the first channel on both sides.
pub fn mono_to_stereo(
    input: &str,
    output: Option<&str>,
    verbose: bool,
    seek: Option<i64>,
) -> (r: TranscodePlan)
    ensures
        r.is_for(
            input@,
            output.deep_view(),
            verbose,
            seek,
            Some("pan=stereo|c0=c0|c1=c0"@),
            Some("transcode audio failed"@),
        ),
{
    TranscodePlan {
        failure_words: Some("transcode audio failed"),
        ..transcode_audio(input, output, verbose, seek, Some("pan=stereo|c0=c0|c1=c0"))
    }
}

/// What begins with the four letters is downloaded, from that very text;
/// anything else is a file of that name. Verbosity and the output are taken
/// as they are given.
pub proof fn a_request_is_taken_at_its_word(
    preparation: Preparation,
    input: Seq<char>,
    output: Option<Seq<char>>,
    verbose: bool,
)
    requires
        preparation.is_for(input, output, verbose),
    ensures
        input.len() >= 4 && input[0] == 'h' && input[1] == 't' && input[2] == 't' && input[3] == 'p'
            ==> (preparation.source matches Source::Download(url) && url@ == input),
        !(input.len() >= 4 && input[0] == 'h' && input[1] == 't' && input[2] == 't' && input[3]
            == 'p') ==> (preparation.source matches Source::File(path) && path@ == input),
        preparation.trace == verbose,
        output is None <==> preparation.output is None,
        output matches Some(path) ==> (preparation.output matches Some(o) && o@ == path),
{
    reveal_strlit("http");
    assert("http"@.len() == 4);
    let long = input.len() >= 4 && input[0] == 'h' && input[1] == 't' && input[2] == 't' && input[3]
        == 'p';
    if long {
        assert("http"@ =~= input.subrange(0, 4));
    }
    if is_remote(input) {
        let front = input.subrange(0, 4);
        assert(front == "http"@);
        assert(front[0] == input[0] && front[1] == input[1] && front[2] == input[2] && front[3]
            == input[3]);
    }
    if let Some(o) = preparation.output {
        assert(preparation.output.deep_view() == Some(o@));
    }
}

/// A transcoding starts where it is asked to, runs through the filter that is
/// asked for, or through one that changes nothing, and puts the words in front
/// of an error, if any are given.
pub proof fn a_transcoding_is_planned_as_asked(
    plan: TranscodePlan,
    input: Seq<char>,
    output: Option<Seq<char>>,
    verbose: bool,
    seek: Option<i64>,
    filter: Option<Seq<char>>,
    words: Option<Seq<char>>,
)
    requires
        plan.is_for(input, output, verbose, seek, filter, words),
    ensures
        plan.preparation.is_for(input, output, verbose),
        plan.seek == seek,
        filter matches Some(text) ==> plan.filter@ == text,
        filter is None ==> plan.filter@ == "anull"@,
        words matches Some(text) ==> (plan.failure_words matches Some(w) && w@ == text),
        words is None ==> plan.failure_words is None,
{
    if let Some(w) = plan.failure_words {
        assert(plan.failure_words.deep_view() == Some(w@));
    }
}

/// The two ready-made transcodings differ in their filters alone: one lets the
/// sound swing, the other plays the first channel on both sides; whatever else
/// is asked for is taken over by both.
pub proof fn ready_made_transcodings_differ_in_the_filter(
    input: &str,
    output: Option<&str>,
    verbose: bool,
    seek: Option<i64>,
    swirl: TranscodePlan,
    stereo: TranscodePlan,
)
    requires
        call_ensures(auto_pan_swirl, (input, output, verbose, seek), swirl),
        call_ensures(mono_to_stereo, (input, output, verbose, seek), stereo),
    ensures
        swirl.filter@ == "apulsator=mode=sine:hz=0.5:width=1"@,
        stereo.filter@ == "pan=stereo|c0=c0|c1=c0"@,
        swirl.seek == seek,
        stereo.seek == seek,
        swirl.preparation.is_for(input@, output.deep_view(), verbose),
        stereo.preparation.is_for(input@, output.deep_view(), verbose),
        swirl.failure_words matches Some(w) && w@ == "transcode audio failed"@,
        stereo.failure_words matches Some(w) && w@ == "transcode audio failed"@,
{
    if let Some(w) = swirl.failure_words {
        assert(swirl.failure_words.deep_view() == Some(w@));
    }
    if let Some(w) = stereo.failure_words {
        assert(stereo.failure_words.deep_view() == Some(w@));
    }
}

/// A transcoding without a filter is one through `anull`.
pub proof fn no_filter_is_one_that_changes_nothing(
    input: &str,
    output: Option<&str>,
    verbose: bool,
    seek: Option<i64>,
    filter: Option<&str>,
    plan: TranscodePlan,
)
    requires
        call_ensures(transcode_audio, (input, output, verbose, seek, filter), plan),
    ensures
        filter is None ==> plan.filter@ == "anull"@,
        filter matches Some(text) ==> plan.filter@ == text@,
        plan.seek == seek,
        plan.failure_words is None,
        plan.preparation.is_for(input@, output.deep_view(), verbose),
{
}

/// Only one name is that of a method.
pub proof fn a_method_is_called_by_its_name(name: &str, method: Option<Method>)
    requires
        call_ensures(method_named, (name,), method),
    ensures
        method is Some <==> name@ == "stream_split"@,
        method matches Some(m) ==> m == Method::StreamSplit,
{
}

} // verus!
