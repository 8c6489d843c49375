//! Setting up a transcoding: the stream, the encoder, the filter graph.

use vstd::prelude::*;

use crate::media::{MediaType, Rational};
use crate::text::{
    decimal, decimal_stands_for_the_number, decimal_text, hexadecimal,
    hexadecimal_stands_for_the_number, hexadecimal_text, is_hexadecimal_of, is_numeral_of,
    is_signed_numeral_of, signed_decimal, signed_decimal_stands_for_the_number, signed_decimal_text,
};
use crate::transcoder::Course;

verus! {

/// Why a transcoding cannot be set up.
#[derive(Clone, Copy, Debug, PartialEq, Eq, Structural)]
pub enum SetupError {
    /// The input has no audio.
    NoAudioStream,
    /// There is no encoder for the output.
    NoEncoder,
}

impl SetupError {
    /// The error in words.
    pub open spec fn spec_message(self) -> Seq<char> {
        match self {
            SetupError::NoAudioStream => "could not find best audio stream"@,
            SetupError::NoEncoder => "failed to find encoder"@,
        }
    }

    /// The error in words.
    pub fn message(&self) -> (r: &'static str)
        ensures
            r@ == self.spec_message(),
    {
        match self {
            SetupError::NoAudioStream => "could not find best audio stream",
            SetupError::NoEncoder => "failed to find encoder",
        }
    }
}

/// A stream by its index, and its kind.
#[derive(Clone, Copy, Debug, PartialEq, Eq, Structural)]
pub struct StreamKind {
    pub index: usize,
    pub medium: MediaType,
}

/// The first audio stream.
pub open spec fn first_audio(streams: Seq<StreamKind>) -> Option<usize>
    decreases streams.len(),
{
    if streams.len() == 0 {
        None
    } else if streams[0].medium == MediaType::Audio {
        Some(streams[0].index)
    } else {
        first_audio(streams.drop_first())
    }
}

/// The stream to transcode: the best audio stream, if one is known, else the
/// first.
pub fn select_audio_stream(best: Option<usize>, streams: &Vec<StreamKind>) -> (r: Result<
    usize,
    SetupError,
>)
    ensures
        r == match best {
            Some(index) => Ok(index),
            None => match first_audio(streams@) {
                Some(index) => Ok(index),
                None => Err(SetupError::NoAudioStream),
            },
        },
{
    if let Some(index) = best {
        return Ok(index);
    }
    let mut i: usize = 0;
    assert(streams@.skip(0) =~= streams@);
    while i < streams.len()
        invariant
            i <= streams@.len(),
            best is None,
            first_audio(streams@.skip(i as int)) == first_audio(streams@),
        decreases streams@.len() - i,
    {
        assert(streams@.skip(i as int).drop_first() =~= streams@.skip(i + 1));
        if streams[i].medium == MediaType::Audio {
            return Ok(streams[i].index);
        }
        i += 1;
    }
    Err(SetupError::NoAudioStream)
}

/// What an open decoder says of the times and rates of its audio.
pub struct DecoderInfo {
    pub time_base: Rational,
    pub rate: u32,
    pub bit_rate: usize,
    pub max_bit_rate: usize,
}

/// What an open decoder says of the audio that it gives to the filter graph.
pub struct SourceInfo {
    pub time_base: Rational,
    pub rate: u32,
    pub format_name: String,
    pub channel_layout: u64,
}

/// What an encoder can do: the sample formats it takes, by name, and whether
/// the output wants the codec's header at the front of the file.
pub struct EncoderOffer {
    pub formats: Vec<String>,
    pub global_header: bool,
}

/// How the channels of the output are laid out.
#[derive(Clone, Copy, Debug, PartialEq, Eq, Structural)]
pub enum Layout {
    Stereo,
}

/// How the encoder is set.
#[derive(Debug, PartialEq, Eq)]
pub struct EncoderSettings {
    pub global_header: bool,
    pub rate: i32,
    pub layout: Layout,
    pub format_name: String,
    pub bit_rate: usize,
    pub max_bit_rate: usize,
    pub time_base: Rational,
}

impl EncoderSettings {
    /// Whether the settings are those for the decoder: its rate and bit rates,
    /// a clock that ticks once a sample, stereo, and the first format that the
    /// encoder takes.
    pub open spec fn is_for(self, decoder: DecoderInfo, encoder: EncoderOffer) -> bool {
        &&& self.global_header == encoder.global_header
        &&& self.rate == decoder.rate as i32
        &&& self.layout == Layout::Stereo
        &&& self.format_name@ == encoder.formats@[0]@
        &&& self.bit_rate == decoder.bit_rate
        &&& self.max_bit_rate == decoder.max_bit_rate
        &&& self.time_base == Rational { numerator: 1, denominator: decoder.rate as i32 }
    }
}

/// How the encoder for the output is set, if there is one.
pub fn transcoder(decoder: &DecoderInfo, encoder: Option<&EncoderOffer>) -> (r: Result<
    EncoderSettings,
    SetupError,
>)
    requires
        encoder matches Some(offer) ==> offer.formats@.len() > 0,
    ensures
        match encoder {
            Some(offer) => r matches Ok(settings) && settings.is_for(*decoder, *offer),
            None => r matches Err(error) && error == SetupError::NoEncoder,
        },
{
    match encoder {
        Some(offer) => {
            let rate: i32 =
                #[verifier::truncate]
                (decoder.rate as i32);
            Ok(
                EncoderSettings {
                    global_header: offer.global_header,
                    rate,
                    layout: Layout::Stereo,
                    format_name: offer.formats[0].clone(),
                    bit_rate: decoder.bit_rate,
                    max_bit_rate: decoder.max_bit_rate,
                    time_base: Rational { numerator: 1, denominator: rate },
                },
            )
        },
        None => Err(SetupError::NoEncoder),
    }
}

/// What is fixed for the transcoding: the stream taken, where to start, and
/// that the decoder counts time in its own unit and the output in that of the
/// encoder.
pub fn course(
    stream: usize,
    decoder: &DecoderInfo,
    settings: &EncoderSettings,
    seek: Option<i64>,
) -> (r: Course)
    ensures
        r.stream == stream,
        r.in_time_base == decoder.time_base,
        r.out_time_base == settings.time_base,
        r.seek == seek,
{
    Course { stream, in_time_base: decoder.time_base, out_time_base: settings.time_base, seek }
}

/// The error in words where a transcoding cannot be set up, from its cause.
pub fn setup_failure_words(cause: &str) -> (r: String)
    ensures
        r@ == "failed to create transcoder: "@ + cause@,
{
    let mut r: String = "failed to create transcoder: ".to_string();
    r.append(cause);
    r
}

/// What the source of the filter graph is told of the audio that comes in.
pub open spec fn source_args(decoder: SourceInfo) -> Seq<char> {
    "time_base="@ + signed_decimal(decoder.time_base.numerator as int) + "/"@ + signed_decimal(
        decoder.time_base.denominator as int,
    ) + ":sample_rate="@ + decimal(decoder.rate as nat) + ":sample_fmt="@ + decoder.format_name@
        + ":channel_layout=0x"@ + hexadecimal(decoder.channel_layout as nat)
}

/// Writes down what the source of the filter graph is told.
pub fn source_args_of(decoder: &SourceInfo) -> (r: String)
    ensures
        r@ == source_args(*decoder),
{
    let mut r: String = "time_base=".to_string();
    r.append(signed_decimal_text(decoder.time_base.numerator).as_str());
    r.append("/");
    r.append(signed_decimal_text(decoder.time_base.denominator).as_str());
    r.append(":sample_rate=");
    r.append(decimal_text(decoder.rate as u64).as_str());
    r.append(":sample_fmt=");
    r.append(decoder.format_name.as_str());
    r.append(":channel_layout=0x");
    r.append(hexadecimal_text(decoder.channel_layout).as_str());
    r
}

/// What an open encoder says of itself: the sample format, the channel layout
/// and the rate that it takes, the frame size it asks for, and, if its codec
/// is known, whether that takes frames of any size.
pub struct EncoderInfo {
    pub format_name: String,
    pub channel_layout: u64,
    pub rate: u32,
    pub frame_size: u32,
    pub any_frame_size: Option<bool>,
}

/// A step in building the filter graph.
#[derive(Debug, PartialEq, Eq)]
pub enum GraphStep {
    /// Add the filter under the name, with the arguments.
    Add { filter: &'static str, name: &'static str, args: String },
    /// Let the node give audio in this sample format, channel layout and rate,
    /// which are those of the encoder.
    MatchEncoder { name: &'static str, format_name: String, channel_layout: u64, rate: u32 },
    /// Put what the text describes between the two nodes.
    Parse { from: &'static str, to: &'static str, spec: String },
    /// Check and configure the graph.
    Validate,
    /// Print the graph.
    Dump,
    /// Let the node give frames of that size.
    SetFrameSize { name: &'static str, size: u32 },
}

/// Whether the steps build the filter graph: a source, a sink that suits the
/// encoder, the filter between them; and, for an encoder that takes frames of
/// one size alone, frames of that size.
pub open spec fn builds_graph(
    steps: Seq<GraphStep>,
    spec: Seq<char>,
    decoder: SourceInfo,
    encoder: EncoderInfo,
) -> bool {
    let sized = encoder.any_frame_size == Some(false);
    &&& steps.len() == if sized { 7nat } else { 6nat }
    &&& steps[0] matches GraphStep::Add { filter, name, args } && filter@ == "abuffer"@ && name@
        == "in"@ && args@ == source_args(decoder)
    &&& steps[1] matches GraphStep::Add { filter, name, args } && filter@ == "abuffersink"@ && name@
        == "out"@ && args@ == ""@
    &&& steps[2] matches GraphStep::MatchEncoder { name, format_name, channel_layout, rate } && name@
        == "out"@ && format_name@ == encoder.format_name@ && channel_layout
        == encoder.channel_layout && rate == encoder.rate
    &&& steps[3] matches GraphStep::Parse { from, to, spec: s } && from@ == "in"@ && to@ == "out"@
        && s@ == spec
    &&& steps[4] is Validate
    &&& steps[5] is Dump
    &&& sized ==> (steps[6] matches GraphStep::SetFrameSize { name, size } && name@ == "out"@ && size
        == encoder.frame_size)
}

/// The steps that build the filter graph, in order.
pub fn filter(spec: &str, decoder: &SourceInfo, encoder: &EncoderInfo) -> (r: Vec<GraphStep>)
    ensures
        builds_graph(r@, spec@, *decoder, *encoder),
{
    let mut r: Vec<GraphStep> = Vec::new();
    r.push(GraphStep::Add { filter: "abuffer", name: "in", args: source_args_of(decoder) });
    r.push(GraphStep::Add { filter: "abuffersink", name: "out", args: "".to_string() });
    r.push(
        GraphStep::MatchEncoder {
            name: "out",
            format_name: encoder.format_name.clone(),
            channel_layout: encoder.channel_layout,
            rate: encoder.rate,
        },
    );
    r.push(GraphStep::Parse { from: "in", to: "out", spec: spec.to_string() });
    r.push(GraphStep::Validate);
    r.push(GraphStep::Dump);
    if let Some(any) = encoder.any_frame_size {
        if !any {
            r.push(GraphStep::SetFrameSize { name: "out", size: encoder.frame_size });
        }
    }
    r
}

/// Whether the arguments say these things of the audio: as text, the time base
/// as a fraction, the rate, the format and the channel layout, each behind its
/// key.
pub open spec fn are_arguments(
    args: Seq<char>,
    numerator: Seq<char>,
    denominator: Seq<char>,
    rate: Seq<char>,
    format: Seq<char>,
    layout: Seq<char>,
) -> bool {
    args == "time_base="@ + numerator + "/"@ + denominator + ":sample_rate="@ + rate
        + ":sample_fmt="@ + format + ":channel_layout=0x"@ + layout
}

/// What the source is told are the decoder's own values: behind each key
/// stands a numeral for the decoder's number, and the name of its format.
pub proof fn the_source_is_told_of_the_decoder(decoder: SourceInfo) -> (r: (
    Seq<char>,
    Seq<char>,
    Seq<char>,
    Seq<char>,
))
    ensures
        are_arguments(source_args(decoder), r.0, r.1, r.2, decoder.format_name@, r.3),
        is_signed_numeral_of(r.0, decoder.time_base.numerator as int),
        is_signed_numeral_of(r.1, decoder.time_base.denominator as int),
        is_numeral_of(r.2, decoder.rate as int),
        is_hexadecimal_of(r.3, decoder.channel_layout as int),
{
    let a = signed_decimal(decoder.time_base.numerator as int);
    let b = signed_decimal(decoder.time_base.denominator as int);
    let rate = decimal(decoder.rate as nat);
    let layout = hexadecimal(decoder.channel_layout as nat);
    signed_decimal_stands_for_the_number(decoder.time_base.numerator as int);
    signed_decimal_stands_for_the_number(decoder.time_base.denominator as int);
    decimal_stands_for_the_number(decoder.rate as nat);
    hexadecimal_stands_for_the_number(decoder.channel_layout as nat);
    assert(source_args(decoder) =~= "time_base="@ + a + "/"@ + b + ":sample_rate="@ + rate
        + ":sample_fmt="@ + decoder.format_name@ + ":channel_layout=0x"@ + layout);
    (a, b, rate, layout)
}

/// A text splits in one way at the first occurrence of a character.
proof fn split_at_first(a: Seq<char>, b: Seq<char>, x: Seq<char>, y: Seq<char>, c: char)
    requires
        a + seq![c] + b == x + seq![c] + y,
        !a.contains(c),
        !x.contains(c),
    ensures
        a == x,
        b == y,
{
    let s = a + seq![c] + b;
    let t = x + seq![c] + y;
    assert(s.len() == t.len());
    if a.len() < x.len() {
        assert(t[a.len() as int] == x[a.len() as int]);
        assert(s[a.len() as int] == c);
        assert(x.contains(x[a.len() as int]));
    }
    if x.len() < a.len() {
        assert(s[x.len() as int] == a[x.len() as int]);
        assert(t[x.len() as int] == c);
        assert(a.contains(a[x.len() as int]));
    }
    assert(a =~= s.take(a.len() as int));
    assert(x =~= t.take(x.len() as int));
    assert(b =~= s.skip(a.len() as int + 1));
    assert(y =~= t.skip(x.len() as int + 1));
}

proof fn numerals_have_no_marks(s: Seq<char>, n: int)
    requires
        is_signed_numeral_of(s, n),
    ensures
        !s.contains('/'),
        !s.contains(':'),
{
    assert forall|k: int| 0 <= k < s.len() implies s[k] != '/' && s[k] != ':' by {
        if n < 0 && k > 0 {
            assert(s.skip(1)[k - 1] == s[k]);
        }
    }
}

/// A signed numeral stands for one number.
proof fn a_signed_numeral_is_of_one_number(s: Seq<char>, m: int, n: int)
    requires
        is_signed_numeral_of(s, m),
        is_signed_numeral_of(s, n),
    ensures
        m == n,
{
}

/// What the source is told, taken apart from the front.
spec fn nested(
    keys: (Seq<char>, Seq<char>, Seq<char>, Seq<char>),
    a: Seq<char>,
    b: Seq<char>,
    r: Seq<char>,
    f: Seq<char>,
    l: Seq<char>,
) -> Seq<char> {
    keys.0 + (a + seq!['/'] + (b + seq![':'] + (keys.1 + (r + seq![':'] + (keys.2 + (f + keys.3
        + seq!['x'] + l))))))
}

/// The keys, without the marks that end what stands before them.
spec fn bare_keys() -> (Seq<char>, Seq<char>, Seq<char>, Seq<char>) {
    (
        "time_base="@,
        ":sample_rate="@.skip(1),
        ":sample_fmt="@.skip(1),
        ":channel_layout=0x"@.drop_last(),
    )
}

proof fn arguments_are_nested(
    a: Seq<char>,
    b: Seq<char>,
    r: Seq<char>,
    f: Seq<char>,
    l: Seq<char>,
    args: Seq<char>,
)
    requires
        are_arguments(args, a, b, r, f, l),
    ensures
        args == nested(bare_keys(), a, b, r, f, l),
{
    reveal_strlit("/");
    reveal_strlit(":sample_rate=");
    reveal_strlit(":sample_fmt=");
    reveal_strlit(":channel_layout=0x");
    let keys = bare_keys();
    assert("/"@ =~= seq!['/']);
    assert(":sample_rate="@ =~= seq![':'] + keys.1);
    assert(":sample_fmt="@ =~= seq![':'] + keys.2);
    assert(":channel_layout=0x"@ =~= keys.3 + seq!['x']);
    arrange(keys, a, b, r, f, l);
}

proof fn arrange(
    keys: (Seq<char>, Seq<char>, Seq<char>, Seq<char>),
    a: Seq<char>,
    b: Seq<char>,
    r: Seq<char>,
    f: Seq<char>,
    l: Seq<char>,
)
    ensures
        keys.0 + a + seq!['/'] + b + (seq![':'] + keys.1) + r + (seq![':'] + keys.2) + f + (keys.3
            + seq!['x']) + l == nested(keys, a, b, r, f, l),
{
    let flat = keys.0 + a + seq!['/'] + b + (seq![':'] + keys.1) + r + (seq![':'] + keys.2) + f + (
    keys.3 + seq!['x']) + l;
    let end = f + keys.3 + seq!['x'] + l;
    assert(f + (keys.3 + seq!['x']) + l =~= end);
    let front = keys.0 + a + seq!['/'] + b + (seq![':'] + keys.1) + r;
    assert(flat =~= front + (seq![':'] + keys.2) + end);
    assert(front + (seq![':'] + keys.2) + end =~= front + seq![':'] + (keys.2 + end));
    let tail = r + seq![':'] + (keys.2 + end);
    let start = keys.0 + a + seq!['/'] + b;
    assert(front + seq![':'] + (keys.2 + end) =~= start + (seq![':'] + keys.1) + tail);
    assert(start + (seq![':'] + keys.1) + tail =~= start + seq![':'] + (keys.1 + tail));
    let rest = b + seq![':'] + (keys.1 + tail);
    assert(start + seq![':'] + (keys.1 + tail) =~= keys.0 + a + seq!['/'] + rest);
    assert(keys.0 + a + seq!['/'] + rest =~= keys.0 + (a + seq!['/'] + rest));
}

/// What stands behind the same text is the same, if the whole is.
proof fn behind_the_same(key: Seq<char>, x: Seq<char>, y: Seq<char>)
    requires
        key + x == key + y,
    ensures
        x == y,
{
    assert(x =~= (key + x).skip(key.len() as int));
    assert(y =~= (key + y).skip(key.len() as int));
}

/// What the source is told determines the audio: where it is told the same of
/// two decoders, these have the same time base, rate, format and channel
/// layout.
pub proof fn what_the_source_is_told_determines_the_audio(one: SourceInfo, two: SourceInfo)
    requires
        source_args(one) == source_args(two),
    ensures
        one.time_base == two.time_base,
        one.rate == two.rate,
        one.format_name@ == two.format_name@,
        one.channel_layout == two.channel_layout,
{
    let (a, b, r, l) = the_source_is_told_of_the_decoder(one);
    let (x, y, q, m) = the_source_is_told_of_the_decoder(two);
    let f = one.format_name@;
    let g = two.format_name@;
    let keys = bare_keys();
    arguments_are_nested(a, b, r, f, l, source_args(one));
    arguments_are_nested(x, y, q, g, m, source_args(two));
    numerals_have_no_marks(a, one.time_base.numerator as int);
    numerals_have_no_marks(x, two.time_base.numerator as int);
    numerals_have_no_marks(b, one.time_base.denominator as int);
    numerals_have_no_marks(y, two.time_base.denominator as int);
    numerals_have_no_marks(r, one.rate as int);
    numerals_have_no_marks(q, two.rate as int);
    let end_one = f + keys.3 + seq!['x'] + l;
    let end_two = g + keys.3 + seq!['x'] + m;
    let tail_one = r + seq![':'] + (keys.2 + end_one);
    let tail_two = q + seq![':'] + (keys.2 + end_two);
    let rest_one = b + seq![':'] + (keys.1 + tail_one);
    let rest_two = y + seq![':'] + (keys.1 + tail_two);
    behind_the_same(keys.0, a + seq!['/'] + rest_one, x + seq!['/'] + rest_two);
    split_at_first(a, rest_one, x, rest_two, '/');
    split_at_first(b, keys.1 + tail_one, y, keys.1 + tail_two, ':');
    behind_the_same(keys.1, tail_one, tail_two);
    split_at_first(r, keys.2 + end_one, q, keys.2 + end_two, ':');
    behind_the_same(keys.2, end_one, end_two);
    assert(!l.contains('x'));
    assert(!m.contains('x'));
    crate::stream_split::split_at_last(f + keys.3, l, g + keys.3, m, 'x');
    assert(f =~= (f + keys.3).take((f + keys.3).len() - keys.3.len()));
    assert(g =~= (g + keys.3).take((g + keys.3).len() - keys.3.len()));
    a_signed_numeral_is_of_one_number(
        a,
        one.time_base.numerator as int,
        two.time_base.numerator as int,
    );
    a_signed_numeral_is_of_one_number(
        b,
        one.time_base.denominator as int,
        two.time_base.denominator as int,
    );
}

/// The first audio stream is an audio stream before which there is none; and
/// where there is any, one is found.
pub proof fn the_first_audio_stream_is_taken(streams: Seq<StreamKind>)
    ensures
        first_audio(streams) is None <==> forall|i: int|
            0 <= i < streams.len() ==> (#[trigger] streams[i]).medium != MediaType::Audio,
        first_audio(streams) matches Some(index) ==> exists|at: int|
            0 <= at < streams.len() && (#[trigger] streams[at]).index == index && streams[at].medium
                == MediaType::Audio && forall|i: int|
                0 <= i < at ==> (#[trigger] streams[i]).medium != MediaType::Audio,
    decreases streams.len(),
{
    if streams.len() > 0 {
        let rest = streams.drop_first();
        if streams[0].medium == MediaType::Audio {
            assert(first_audio(streams) == Some(streams[0].index));
        } else {
            the_first_audio_stream_is_taken(rest);
            assert forall|i: int| 1 <= i < streams.len() implies #[trigger] streams[i] == rest[i
                - 1] by {}
            match first_audio(rest) {
                Some(index) => {
                    let at = choose|at: int|
                        0 <= at < rest.len() && (#[trigger] rest[at]).index == index
                            && rest[at].medium == MediaType::Audio && forall|i: int|
                            0 <= i < at ==> (#[trigger] rest[i]).medium != MediaType::Audio;
                    assert(streams[at + 1] == rest[at]);
                },
                None => {
                    assert forall|i: int| 0 <= i < streams.len() implies (
                    #[trigger] streams[i]).medium != MediaType::Audio by {
                        if i > 0 {
                            assert(streams[i] == rest[i - 1]);
                        }
                    }
                },
            }
        }
    }
}

/// The encoder is set to stereo, to the decoder's own rate and bit rates, to a
/// clock that ticks once for each sample, and to the first format that it
/// takes; it puts the header in front just where the output wants that.
pub proof fn the_encoder_follows_the_decoder(
    settings: EncoderSettings,
    decoder: DecoderInfo,
    encoder: EncoderOffer,
)
    requires
        settings.is_for(decoder, encoder),
    ensures
        decoder.rate <= i32::MAX ==> settings.rate == decoder.rate,
        decoder.rate > i32::MAX ==> settings.rate == decoder.rate - 0x1_0000_0000,
        decoder.rate <= i32::MAX ==> settings.time_base.denominator == decoder.rate,
        settings.time_base.numerator == 1,
        settings.time_base.denominator == settings.rate,
        settings.layout == Layout::Stereo,
        settings.bit_rate == decoder.bit_rate,
        settings.max_bit_rate == decoder.max_bit_rate,
        settings.format_name@ == encoder.formats@.first()@,
        settings.global_header == encoder.global_header,
{
    let rate = decoder.rate;
    assert(rate > 0x7fff_ffff ==> (rate as i32) == rate - 0x1_0000_0000) by (bit_vector);
}

/// The graph is a source that is told of the decoder's audio, a sink that
/// gives what the encoder takes, and what the text describes between them; it
/// is validated and shown; and the sink gives frames of the size that the
/// encoder asks for just where its codec is known not to take others.
pub proof fn a_graph_leads_from_decoder_to_encoder(
    steps: Seq<GraphStep>,
    spec: Seq<char>,
    decoder: SourceInfo,
    encoder: EncoderInfo,
)
    requires
        builds_graph(steps, spec, decoder, encoder),
    ensures
        steps.len() >= 6,
        steps[0] matches GraphStep::Add { filter, name, args } && filter@ == "abuffer"@ && name@
            == "in"@ && args@ == source_args(decoder),
        steps[1] matches GraphStep::Add { filter, name, args } && filter@ == "abuffersink"@ && name@
            == "out"@ && args@.len() == 0,
        steps[2] matches GraphStep::MatchEncoder { name, format_name, channel_layout, rate } && name@
            == "out"@ && format_name@ == encoder.format_name@ && channel_layout
            == encoder.channel_layout && rate == encoder.rate,
        steps[3] matches GraphStep::Parse { from, to, spec: text } && from@ == "in"@ && to@
            == "out"@ && text@ == spec,
        steps[4] == GraphStep::Validate,
        steps[5] == GraphStep::Dump,
        encoder.any_frame_size == Some(false) ==> steps.len() == 7 && (steps[6]
            matches GraphStep::SetFrameSize { name, size } && name@ == "out"@ && size
            == encoder.frame_size),
        encoder.any_frame_size is None || encoder.any_frame_size == Some(true) ==> steps.len() == 6,
{
    reveal_strlit("");
}

/// The best audio stream is taken where one is known, whatever the others are.
pub proof fn the_best_stream_goes_first(
    best: Option<usize>,
    streams: &Vec<StreamKind>,
    r: Result<usize, SetupError>,
)
    requires
        call_ensures(select_audio_stream, (best, streams), r),
    ensures
        best matches Some(index) ==> r == Ok::<usize, SetupError>(index),
        best is None && (forall|i: int|
            0 <= i < streams@.len() ==> (#[trigger] streams@[i]).medium != MediaType::Audio)
            <==> r == Err::<usize, SetupError>(SetupError::NoAudioStream),
{
    the_first_audio_stream_is_taken(streams@);
}

/// A course takes the stream that was chosen, from the place asked for, and
/// moves times from the decoder's unit to that of the encoder's clock.
pub proof fn a_course_counts_in_both_units(
    stream: usize,
    decoder: &DecoderInfo,
    settings: &EncoderSettings,
    seek: Option<i64>,
    r: Course,
)
    requires
        call_ensures(course, (stream, decoder, settings, seek), r),
    ensures
        r.stream == stream,
        r.in_time_base.numerator == decoder.time_base.numerator,
        r.in_time_base.denominator == decoder.time_base.denominator,
        r.out_time_base.numerator == settings.time_base.numerator,
        r.out_time_base.denominator == settings.time_base.denominator,
        r.seek == seek,
{
}

} // verus!
