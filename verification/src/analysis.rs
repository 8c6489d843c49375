//! The report on a media file.

use vstd::prelude::*;

use crate::media::{MediaType, Rational, StreamInfo};
use crate::text::{
    decimal, decimal_stands_for_the_number, decimal_text, is_numeral_of, is_signed_numeral_of,
    signed_decimal, signed_decimal_stands_for_the_number, signed_decimal_text,
};

verus! {

/// A line of the report. What is a fraction or a rate per second is given by
/// the numbers that it is computed from.
#[derive(Debug, PartialEq, Eq)]
pub enum ReportLine {
    FileHeader,
    TotalStreams(usize),
    VideoStreams(usize),
    AudioStreams(usize),
    SubtitleStreams(usize),
    StreamHeader(usize),
    Kind(MediaType),
    Codec(String),
    StreamIndex(usize),
    VideoHeader,
    Resolution { width: i32, height: i32 },
    VideoBitRate(i64),
    FrameRate(Rational),
    PixelFormat(i32),
    AudioHeader,
    SampleRate(i32),
    Channels(i32),
    AudioBitRate(i64),
    SampleFormat(i32),
    SubtitleHeader,
    SubtitleCodec(String),
    OtherHeader,
    Duration { ticks: i64, time_base: Rational },
    MetadataHeader(usize),
    Metadata { key: String, value: String },
    Finished,
}

impl ReportLine {
    /// The line in words; nothing for the lines that show a number with
    /// decimals.
    pub open spec fn spec_text(self) -> Option<Seq<char>> {
        match self {
            ReportLine::FileHeader => Some("📁 文件信息:"@),
            ReportLine::TotalStreams(n) => Some("总流数: "@ + decimal(n as nat)),
            ReportLine::VideoStreams(n) => Some("视频流: "@ + decimal(n as nat) + " 个"@),
            ReportLine::AudioStreams(n) => Some("音频流: "@ + decimal(n as nat) + " 个"@),
            ReportLine::SubtitleStreams(n) => Some("字幕流: "@ + decimal(n as nat) + " 个"@),
            ReportLine::StreamHeader(n) => Some("流 #"@ + decimal(n as nat) + " 信息:"@),
            ReportLine::Kind(medium) => Some("类型: "@ + medium.spec_name()),
            ReportLine::Codec(codec) => Some("编码格式: "@ + codec@),
            ReportLine::StreamIndex(n) => Some("Stream 索引: "@ + decimal(n as nat)),
            ReportLine::VideoHeader => Some("📹 视频信息:"@),
            ReportLine::Resolution { width, height } => Some("    分辨率: "@ + signed_decimal(width as int) + "x"@ + signed_decimal(height as int)),
            ReportLine::VideoBitRate(_) => None,
            ReportLine::FrameRate(_) => None,
            ReportLine::PixelFormat(n) => Some("    像素格式: "@ + signed_decimal(n as int)),
            ReportLine::AudioHeader => Some("  🔊 音频信息:"@),
            ReportLine::SampleRate(n) => Some("    采样率: "@ + signed_decimal(n as int) + " Hz"@),
            ReportLine::Channels(n) => Some("    声道数: "@ + signed_decimal(n as int)),
            ReportLine::AudioBitRate(_) => None,
            ReportLine::SampleFormat(n) => Some("    采样格式: "@ + signed_decimal(n as int)),
            ReportLine::SubtitleHeader => Some("  💬 字幕信息:"@),
            ReportLine::SubtitleCodec(codec) => Some("    编码格式: "@ + codec@),
            ReportLine::OtherHeader => Some("  ❓ 其他类型流"@),
            ReportLine::Duration { .. } => None,
            ReportLine::MetadataHeader(n) => Some("  📋 元数据 ("@ + decimal(n as nat) + " 项):"@),
            ReportLine::Metadata { key, value } => Some("    "@ + key@ + ": "@ + value@),
            ReportLine::Finished => Some("分析完成"@),
        }
    }

    /// The line in words; nothing for the lines that show a number with
    /// decimals.
    pub fn text(&self) -> (r: Option<String>)
        ensures
            r.deep_view() == self.spec_text(),
    {
        let mut r: String = String::new();
        match self {
            ReportLine::FileHeader => {
                r.append("📁 文件信息:");
            },
            ReportLine::TotalStreams(n) => {
                r.append("总流数: ");
                r.append(decimal_text(*n as u64).as_str());
            },
            ReportLine::VideoStreams(n) => {
                r.append("视频流: ");
                r.append(decimal_text(*n as u64).as_str());
                r.append(" 个");
            },
            ReportLine::AudioStreams(n) => {
                r.append("音频流: ");
                r.append(decimal_text(*n as u64).as_str());
                r.append(" 个");
            },
            ReportLine::SubtitleStreams(n) => {
                r.append("字幕流: ");
                r.append(decimal_text(*n as u64).as_str());
                r.append(" 个");
            },
            ReportLine::StreamHeader(n) => {
                r.append("流 #");
                r.append(decimal_text(*n as u64).as_str());
                r.append(" 信息:");
            },
            ReportLine::Kind(medium) => {
                r.append("类型: ");
                r.append(medium.name());
            },
            ReportLine::Codec(codec) => {
                r.append("编码格式: ");
                r.append(codec.as_str());
            },
            ReportLine::StreamIndex(n) => {
                r.append("Stream 索引: ");
                r.append(decimal_text(*n as u64).as_str());
            },
            ReportLine::VideoHeader => {
                r.append("📹 视频信息:");
            },
            ReportLine::Resolution { width, height } => {
                r.append("    分辨率: ");
                r.append(signed_decimal_text(*width).as_str());
                r.append("x");
                r.append(signed_decimal_text(*height).as_str());
            },
            ReportLine::VideoBitRate(_) => {
                return None;
            },
            ReportLine::FrameRate(_) => {
                return None;
            },
            ReportLine::PixelFormat(n) => {
                r.append("    像素格式: ");
                r.append(signed_decimal_text(*n).as_str());
            },
            ReportLine::AudioHeader => {
                r.append("  🔊 音频信息:");
            },
            ReportLine::SampleRate(n) => {
                r.append("    采样率: ");
                r.append(signed_decimal_text(*n).as_str());
                r.append(" Hz");
            },
            ReportLine::Channels(n) => {
                r.append("    声道数: ");
                r.append(signed_decimal_text(*n).as_str());
            },
            ReportLine::AudioBitRate(_) => {
                return None;
            },
            ReportLine::SampleFormat(n) => {
                r.append("    采样格式: ");
                r.append(signed_decimal_text(*n).as_str());
            },
            ReportLine::SubtitleHeader => {
                r.append("  💬 字幕信息:");
            },
            ReportLine::SubtitleCodec(codec) => {
                r.append("    编码格式: ");
                r.append(codec.as_str());
            },
            ReportLine::OtherHeader => {
                r.append("  ❓ 其他类型流");
            },
            ReportLine::Duration { .. } => {
                return None;
            },
            ReportLine::MetadataHeader(n) => {
                r.append("  📋 元数据 (");
                r.append(decimal_text(*n as u64).as_str());
                r.append(" 项):");
            },
            ReportLine::Metadata { key, value } => {
                r.append("    ");
                r.append(key.as_str());
                r.append(": ");
                r.append(value.as_str());
            },
            ReportLine::Finished => {
                r.append("分析完成");
            },
        }
        assert(r@ =~= self.spec_text()->0);
        Some(r)
    }
}

/// How many of the streams are of the kind.
pub open spec fn count_of(streams: Seq<StreamInfo>, medium: MediaType) -> nat {
    streams.filter(|stream: StreamInfo| stream.medium == medium).len()
}

/// The lines on the file as a whole.
pub open spec fn summary(streams: Seq<StreamInfo>) -> Seq<ReportLine> {
    seq![
        ReportLine::FileHeader,
        ReportLine::TotalStreams(streams.len() as usize),
        ReportLine::VideoStreams(count_of(streams, MediaType::Video) as usize),
        ReportLine::AudioStreams(count_of(streams, MediaType::Audio) as usize),
        ReportLine::SubtitleStreams(count_of(streams, MediaType::Subtitle) as usize),
    ]
}

/// The line on the frame rate, if there is one.
pub open spec fn frame_rate_lines(stream: StreamInfo) -> Seq<ReportLine> {
    if stream.frame_rate.denominator != 0 {
        seq![ReportLine::FrameRate(stream.frame_rate)]
    } else {
        Seq::empty()
    }
}

/// The lines on what is particular to the kind of the stream.
pub open spec fn kind_lines(stream: StreamInfo) -> Seq<ReportLine> {
    match stream.medium {
        MediaType::Video => seq![
            ReportLine::VideoHeader,
            ReportLine::Resolution { width: stream.width, height: stream.height },
            ReportLine::VideoBitRate(stream.bit_rate),
        ] + frame_rate_lines(stream) + seq![ReportLine::PixelFormat(stream.format)],
        MediaType::Audio => seq![
            ReportLine::AudioHeader,
            ReportLine::SampleRate(stream.sample_rate),
            ReportLine::Channels(stream.channels),
            ReportLine::AudioBitRate(stream.bit_rate),
            ReportLine::SampleFormat(stream.format),
        ],
        MediaType::Subtitle => seq![
            ReportLine::SubtitleHeader,
            ReportLine::SubtitleCodec(stream.codec_id),
        ],
        _ => seq![ReportLine::OtherHeader],
    }
}

/// The line on how long the stream takes, if that is known.
pub open spec fn duration_lines(stream: StreamInfo) -> Seq<ReportLine> {
    if stream.duration > 0 {
        seq![ReportLine::Duration { ticks: stream.duration, time_base: stream.time_base }]
    } else {
        Seq::empty()
    }
}

/// The lines on the metadata, if there is any.
pub open spec fn metadata_lines(stream: StreamInfo) -> Seq<ReportLine> {
    if stream.metadata@.len() > 0 {
        seq![ReportLine::MetadataHeader(stream.metadata@.len() as usize)]
            + stream.metadata@.map_values(
            |entry: (String, String)| ReportLine::Metadata { key: entry.0, value: entry.1 },
        )
    } else {
        Seq::empty()
    }
}

/// The lines on one stream. `number` says how many streams come before it.
pub open spec fn stream_lines(stream: StreamInfo, number: nat) -> Seq<ReportLine> {
    seq![
        ReportLine::StreamHeader(number as usize),
        ReportLine::Kind(stream.medium),
        ReportLine::Codec(stream.codec_id),
        ReportLine::StreamIndex(stream.index),
    ] + kind_lines(stream) + duration_lines(stream) + metadata_lines(stream)
}

/// The lines on each of the streams.
pub open spec fn all_stream_lines(streams: Seq<StreamInfo>) -> Seq<ReportLine>
    decreases streams.len(),
{
    if streams.len() == 0 {
        Seq::empty()
    } else {
        all_stream_lines(streams.drop_last()) + stream_lines(
            streams.last(),
            (streams.len() - 1) as nat,
        )
    }
}

/// The whole report.
pub open spec fn report(streams: Seq<StreamInfo>) -> Seq<ReportLine> {
    summary(streams) + all_stream_lines(streams) + seq![ReportLine::Finished]
}

/// Counts the streams of the kind.
pub fn count_streams(streams: &Vec<StreamInfo>, medium: MediaType) -> (r: usize)
    ensures
        r == count_of(streams@, medium),
{
    let ghost same = |stream: StreamInfo| stream.medium == medium;
    let mut n: usize = 0;
    let mut i: usize = 0;
    reveal(Seq::filter);
    while i < streams.len()
        invariant
            i <= streams@.len(),
            n <= i,
            same == (|stream: StreamInfo| stream.medium == medium),
            n == streams@.take(i as int).filter(same).len(),
        decreases streams@.len() - i,
    {
        reveal(Seq::filter);
        assert(streams@.take(i + 1).drop_last() =~= streams@.take(i as int));
        assert(streams@.take(i + 1).last() == streams@[i as int]);
        if streams[i].medium == medium {
            n += 1;
        }
        i += 1;
    }
    assert(streams@.take(streams@.len() as int) =~= streams@);
    n
}

/// Adds the lines on what is particular to the kind of the stream.
fn add_kind_lines(lines: &mut Vec<ReportLine>, stream: &StreamInfo)
    ensures
        final(lines)@ == old(lines)@ + kind_lines(*stream),
{
    match stream.medium {
        MediaType::Video => {
            lines.push(ReportLine::VideoHeader);
            lines.push(ReportLine::Resolution { width: stream.width, height: stream.height });
            lines.push(ReportLine::VideoBitRate(stream.bit_rate));
            if stream.frame_rate.denominator != 0 {
                lines.push(ReportLine::FrameRate(stream.frame_rate));
            }
            lines.push(ReportLine::PixelFormat(stream.format));
        },
        MediaType::Audio => {
            lines.push(ReportLine::AudioHeader);
            lines.push(ReportLine::SampleRate(stream.sample_rate));
            lines.push(ReportLine::Channels(stream.channels));
            lines.push(ReportLine::AudioBitRate(stream.bit_rate));
            lines.push(ReportLine::SampleFormat(stream.format));
        },
        MediaType::Subtitle => {
            lines.push(ReportLine::SubtitleHeader);
            lines.push(ReportLine::SubtitleCodec(stream.codec_id.clone()));
        },
        _ => {
            lines.push(ReportLine::OtherHeader);
        },
    }
    assert(lines@ =~= old(lines)@ + kind_lines(*stream));
}

/// Adds the lines on the metadata.
fn add_metadata_lines(lines: &mut Vec<ReportLine>, stream: &StreamInfo)
    ensures
        final(lines)@ == old(lines)@ + metadata_lines(*stream),
{
    let ghost line = |entry: (String, String)|
        ReportLine::Metadata { key: entry.0, value: entry.1 };
    let entries: &Vec<(String, String)> = &stream.metadata;
    if entries.len() > 0 {
        lines.push(ReportLine::MetadataHeader(entries.len()));
        let ghost front = lines@;
        let mut i: usize = 0;
        assert(front =~= front + entries@.take(0).map_values(line));
        while i < entries.len()
            invariant
                i <= entries@.len(),
                line == (|entry: (String, String)|
                    ReportLine::Metadata { key: entry.0, value: entry.1 }),
                lines@ == front + entries@.take(i as int).map_values(line),
            decreases entries@.len() - i,
        {
            let entry: &(String, String) = &entries[i];
            lines.push(ReportLine::Metadata { key: entry.0.clone(), value: entry.1.clone() });
            i += 1;
            assert(lines@ =~= front + entries@.take(i as int).map_values(line));
        }
        assert(entries@.take(entries@.len() as int) =~= entries@);
    }
    assert(lines@ =~= old(lines)@ + metadata_lines(*stream));
}

/// Adds the lines on one stream.
fn add_stream_lines(lines: &mut Vec<ReportLine>, stream: &StreamInfo, number: usize)
    ensures
        final(lines)@ == old(lines)@ + stream_lines(*stream, number as nat),
{
    lines.push(ReportLine::StreamHeader(number));
    lines.push(ReportLine::Kind(stream.medium));
    lines.push(ReportLine::Codec(stream.codec_id.clone()));
    lines.push(ReportLine::StreamIndex(stream.index));
    add_kind_lines(lines, stream);
    if stream.duration > 0 {
        lines.push(ReportLine::Duration { ticks: stream.duration, time_base: stream.time_base });
    }
    add_metadata_lines(lines, stream);
    assert(lines@ =~= old(lines)@ + stream_lines(*stream, number as nat));
}

/// Reports on a file with these streams.
pub fn analyze_input(streams: &Vec<StreamInfo>) -> (r: Vec<ReportLine>)
    ensures
        r@ == report(streams@),
{
    let mut lines: Vec<ReportLine> = Vec::new();
    lines.push(ReportLine::FileHeader);
    lines.push(ReportLine::TotalStreams(streams.len()));
    lines.push(ReportLine::VideoStreams(count_streams(streams, MediaType::Video)));
    lines.push(ReportLine::AudioStreams(count_streams(streams, MediaType::Audio)));
    lines.push(ReportLine::SubtitleStreams(count_streams(streams, MediaType::Subtitle)));
    assert(lines@ =~= summary(streams@) + all_stream_lines(streams@.take(0)));
    let mut i: usize = 0;
    while i < streams.len()
        invariant
            i <= streams@.len(),
            lines@ == summary(streams@) + all_stream_lines(streams@.take(i as int)),
        decreases streams@.len() - i,
    {
        add_stream_lines(&mut lines, &streams[i], i);
        assert(streams@.take(i + 1).drop_last() =~= streams@.take(i as int));
        assert(streams@.take(i + 1).last() == streams@[i as int]);
        i += 1;
        assert(lines@ =~= summary(streams@) + all_stream_lines(streams@.take(i as int)));
    }
    assert(streams@.take(streams@.len() as int) =~= streams@);
    lines.push(ReportLine::Finished);
    assert(lines@ =~= report(streams@));
    lines
}

/// The error in words where there is no report, since the file cannot be
/// opened.
pub fn unopened_words(input: &str) -> (r: String)
    ensures
        r@ == "无法打开输入文件: "@ + input@ + " "@,
{
    let mut r: String = "无法打开输入文件: ".to_string();
    r.append(input);
    r.append(" ");
    r
}

/// Every stream is counted, and none twice: the counts of the six kinds add up
/// to all the streams.
pub proof fn counts_add_up(streams: Seq<StreamInfo>)
    ensures
        count_of(streams, MediaType::Video) + count_of(streams, MediaType::Audio) + count_of(
            streams,
            MediaType::Subtitle,
        ) + count_of(streams, MediaType::Attachment) + count_of(streams, MediaType::Data)
            + count_of(streams, MediaType::Unknown) == streams.len(),
    decreases streams.len(),
{
    reveal(Seq::filter);
    if streams.len() > 0 {
        counts_add_up(streams.drop_last());
    }
}

/// How many of the streams are of the kind, one after the other.
pub open spec fn how_many(streams: Seq<StreamInfo>, medium: MediaType) -> nat
    decreases streams.len(),
{
    if streams.len() == 0 {
        0
    } else {
        how_many(streams.drop_last(), medium) + if streams.last().medium == medium {
            1nat
        } else {
            0
        }
    }
}

/// The streams of a kind are counted one by one.
pub proof fn counting_agrees(streams: Seq<StreamInfo>, medium: MediaType)
    ensures
        count_of(streams, medium) == how_many(streams, medium),
        how_many(streams, medium) <= streams.len(),
    decreases streams.len(),
{
    reveal(Seq::filter);
    if streams.len() > 0 {
        counting_agrees(streams.drop_last(), medium);
    }
}

/// Whether the line says, in words, `front`, then the number, then `back`.
pub open spec fn tells_number(line: ReportLine, front: Seq<char>, n: int, back: Seq<char>) -> bool {
    exists|numeral: Seq<char>| #[trigger]
        is_signed_numeral_of(numeral, n) && line.spec_text() == Some(front + numeral + back)
}

proof fn count_is_told(line: ReportLine, front: Seq<char>, n: nat, back: Seq<char>)
    requires
        line.spec_text() == Some(front + decimal(n) + back),
    ensures
        tells_number(line, front, n as int, back),
{
    decimal_stands_for_the_number(n);
    assert(is_signed_numeral_of(decimal(n), n as int));
}

proof fn number_is_told(line: ReportLine, front: Seq<char>, n: int, back: Seq<char>)
    requires
        line.spec_text() == Some(front + signed_decimal(n) + back),
    ensures
        tells_number(line, front, n, back),
{
    signed_decimal_stands_for_the_number(n);
    assert(is_signed_numeral_of(signed_decimal(n), n));
}

/// Whether the line is one of those on a stream, or the last one.
spec fn is_no_count(line: ReportLine) -> bool {
    !(line is TotalStreams) && !(line is VideoStreams) && !(line is AudioStreams) && !(
    line is SubtitleStreams)
}

proof fn streams_have_no_counts(streams: Seq<StreamInfo>, k: int)
    requires
        0 <= k < all_stream_lines(streams).len(),
    ensures
        is_no_count(all_stream_lines(streams)[k]),
    decreases streams.len(),
{
    let before = all_stream_lines(streams.drop_last());
    if k < before.len() {
        streams_have_no_counts(streams.drop_last(), k);
    } else {
        let stream = streams.last();
        let lines = stream_lines(stream, (streams.len() - 1) as nat);
        let m = k - before.len();
        assert(all_stream_lines(streams)[k] == lines[m]);
        let first = 4 + kind_lines(stream).len() + duration_lines(stream).len();
        if m >= first {
            assert(lines[m] == metadata_lines(stream)[m - first]);
        }
    }
}

/// In the words of a report, a line that begins as one on the audio, video or
/// subtitle streams, or on all, carries the number of just these streams; and
/// there is such a line for each.
pub proof fn counts_are_told_in_words(streams: Seq<StreamInfo>)
    requires
        streams.len() <= usize::MAX,
    ensures
        forall|k: int, text: Seq<char>|
            #![trigger report(streams)[k], text.len()]
            0 <= k < report(streams).len() && report(streams)[k].spec_text() == Some(text) ==> {
                &&& "总流数: "@.is_prefix_of(text) ==> tells_number(
                    report(streams)[k],
                    "总流数: "@,
                    streams.len() as int,
                    Seq::empty(),
                )
                &&& "视频流: "@.is_prefix_of(text) ==> tells_number(
                    report(streams)[k],
                    "视频流: "@,
                    how_many(streams, MediaType::Video) as int,
                    " 个"@,
                )
                &&& "音频流: "@.is_prefix_of(text) ==> tells_number(
                    report(streams)[k],
                    "音频流: "@,
                    how_many(streams, MediaType::Audio) as int,
                    " 个"@,
                )
                &&& "字幕流: "@.is_prefix_of(text) ==> tells_number(
                    report(streams)[k],
                    "字幕流: "@,
                    how_many(streams, MediaType::Subtitle) as int,
                    " 个"@,
                )
            },
        report(streams).len() > 5,
        report(streams)[0].spec_text() == Some("📁 文件信息:"@),
        report(streams).last().spec_text() == Some("分析完成"@),
        tells_number(report(streams)[1], "总流数: "@, streams.len() as int, Seq::empty()),
        tells_number(
            report(streams)[2],
            "视频流: "@,
            how_many(streams, MediaType::Video) as int,
            " 个"@,
        ),
        tells_number(
            report(streams)[3],
            "音频流: "@,
            how_many(streams, MediaType::Audio) as int,
            " 个"@,
        ),
        tells_number(
            report(streams)[4],
            "字幕流: "@,
            how_many(streams, MediaType::Subtitle) as int,
            " 个"@,
        ),
{
    let lines = report(streams);
    counting_agrees(streams, MediaType::Video);
    counting_agrees(streams, MediaType::Audio);
    counting_agrees(streams, MediaType::Subtitle);
    let total = "总流数: "@ + decimal(streams.len());
    assert(total =~= total + Seq::empty());
    count_is_told(lines[1], "总流数: "@, streams.len(), Seq::empty());
    count_is_told(lines[2], "视频流: "@, how_many(streams, MediaType::Video), " 个"@);
    count_is_told(lines[3], "音频流: "@, how_many(streams, MediaType::Audio), " 个"@);
    count_is_told(lines[4], "字幕流: "@, how_many(streams, MediaType::Subtitle), " 个"@);
    reveal_strlit("总流数: ");
    reveal_strlit("视频流: ");
    reveal_strlit("音频流: ");
    reveal_strlit("字幕流: ");
    assert forall|k: int, text: Seq<char>|
        #![trigger lines[k], text.len()]
        0 <= k < lines.len() && lines[k].spec_text() == Some(text) implies {
        &&& "总流数: "@.is_prefix_of(text) ==> k == 1
        &&& "视频流: "@.is_prefix_of(text) ==> k == 2
        &&& "音频流: "@.is_prefix_of(text) ==> k == 3
        &&& "字幕流: "@.is_prefix_of(text) ==> k == 4
    } by {
        if 5 <= k < lines.len() - 1 {
            assert(lines[k] == all_stream_lines(streams)[k - 5]);
            streams_have_no_counts(streams, k - 5);
        }
        if "总流数: "@.is_prefix_of(text) {
            assert(text[0] == "总流数: "@[0]);
            begins_otherwise(lines[k], text);
        }
        if "视频流: "@.is_prefix_of(text) {
            assert(text[0] == "视频流: "@[0]);
            begins_otherwise(lines[k], text);
        }
        if "音频流: "@.is_prefix_of(text) {
            assert(text[0] == "音频流: "@[0]);
            begins_otherwise(lines[k], text);
        }
        if "字幕流: "@.is_prefix_of(text) {
            assert(text[0] == "字幕流: "@[0]);
            begins_otherwise(lines[k], text);
        }
    }
}

/// What the words of a line begin with says which of the counts it is, if any.
proof fn begins_otherwise(line: ReportLine, text: Seq<char>)
    requires
        line.spec_text() == Some(text),
    ensures
        text.len() > 0,
        line is TotalStreams ==> text[0] == '总',
        line is VideoStreams ==> text[0] == '视',
        line is AudioStreams ==> text[0] == '音',
        line is SubtitleStreams ==> text[0] == '字',
        is_no_count(line) ==> text[0] != '总' && text[0] != '视' && text[0] != '音' && text[0]
            != '字',
{
    reveal_strlit("📁 文件信息:");
    reveal_strlit("总流数: ");
    reveal_strlit("视频流: ");
    reveal_strlit("音频流: ");
    reveal_strlit("字幕流: ");
    reveal_strlit("流 #");
    reveal_strlit("类型: ");
    reveal_strlit("编码格式: ");
    reveal_strlit("Stream 索引: ");
    reveal_strlit("📹 视频信息:");
    reveal_strlit("    分辨率: ");
    reveal_strlit("    像素格式: ");
    reveal_strlit("  🔊 音频信息:");
    reveal_strlit("    采样率: ");
    reveal_strlit("    声道数: ");
    reveal_strlit("    采样格式: ");
    reveal_strlit("  💬 字幕信息:");
    reveal_strlit("    编码格式: ");
    reveal_strlit("  ❓ 其他类型流");
    reveal_strlit("  📋 元数据 (");
    reveal_strlit("    ");
    reveal_strlit("分析完成");
}

/// How many lines there are on what is particular to the kind of the stream.
pub open spec fn kind_line_count(stream: StreamInfo) -> int {
    match stream.medium {
        MediaType::Video => if stream.frame_rate.denominator != 0 {
            5
        } else {
            4
        },
        MediaType::Audio => 5,
        MediaType::Subtitle => 2,
        _ => 1,
    }
}

/// How many lines there are on the stream.
pub open spec fn line_count(stream: StreamInfo) -> int {
    4 + kind_line_count(stream) + (if stream.duration > 0 {
        1int
    } else {
        0
    }) + (if stream.metadata@.len() > 0 {
        1 + stream.metadata@.len() as int
    } else {
        0
    })
}

/// The first line on a stream, behind the five on the file and those on the
/// streams before.
pub open spec fn first_line(streams: Seq<StreamInfo>, number: int) -> int
    decreases number,
{
    if number <= 0 {
        5
    } else {
        first_line(streams, number - 1) + line_count(streams[number - 1])
    }
}

/// Whether the line says a width and a height.
pub open spec fn tells_size(line: ReportLine, width: int, height: int) -> bool {
    exists|w: Seq<char>, h: Seq<char>|
        #![trigger is_signed_numeral_of(w, width), is_signed_numeral_of(h, height)]
        is_signed_numeral_of(w, width) && is_signed_numeral_of(h, height) && line.spec_text()
            == Some("    分辨率: "@ + w + "x"@ + h)
}

/// Whether the lines from `p` on say, in words, of what kind the stream is,
/// its codec and its index.
pub open spec fn tells_basics(lines: Seq<ReportLine>, p: int, stream: StreamInfo, number: int) -> bool {
    &&& tells_number(lines[p], "流 #"@, number, " 信息:"@)
    &&& lines[p + 1].spec_text() == Some("类型: "@ + stream.medium.spec_name())
    &&& lines[p + 2].spec_text() == Some("编码格式: "@ + stream.codec_id@)
    &&& tells_number(lines[p + 3], "Stream 索引: "@, stream.index as int, Seq::empty())
}

/// Whether the lines from `p` on tell what is particular to the kind of the
/// stream, with the stream's own numbers.
pub open spec fn tells_kind(lines: Seq<ReportLine>, p: int, stream: StreamInfo) -> bool {
    let last = p + kind_line_count(stream) - 1;
    &&& stream.medium == MediaType::Video ==> {
        &&& lines[p].spec_text() == Some("📹 视频信息:"@)
        &&& tells_size(lines[p + 1], stream.width as int, stream.height as int)
        &&& lines[p + 2] == ReportLine::VideoBitRate(stream.bit_rate)
        &&& stream.frame_rate.denominator != 0 ==> lines[p + 3] == ReportLine::FrameRate(
            stream.frame_rate,
        )
        &&& tells_number(lines[last], "    像素格式: "@, stream.format as int, Seq::empty())
    }
    &&& stream.medium == MediaType::Audio ==> {
        &&& lines[p].spec_text() == Some("  🔊 音频信息:"@)
        &&& tells_number(lines[p + 1], "    采样率: "@, stream.sample_rate as int, " Hz"@)
        &&& tells_number(lines[p + 2], "    声道数: "@, stream.channels as int, Seq::empty())
        &&& lines[p + 3] == ReportLine::AudioBitRate(stream.bit_rate)
        &&& tells_number(lines[p + 4], "    采样格式: "@, stream.format as int, Seq::empty())
    }
    &&& stream.medium == MediaType::Subtitle ==> {
        &&& lines[p].spec_text() == Some("  💬 字幕信息:"@)
        &&& lines[p + 1].spec_text() == Some("    编码格式: "@ + stream.codec_id@)
    }
    &&& stream.medium == MediaType::Data || stream.medium == MediaType::Attachment || stream.medium
        == MediaType::Unknown ==> lines[p].spec_text() == Some("  ❓ 其他类型流"@)
}

/// Whether the lines from `p` on tell how long the stream takes, where that is
/// known, and then its metadata, where there is any.
pub open spec fn tells_rest(lines: Seq<ReportLine>, p: int, stream: StreamInfo) -> bool {
    let q = if stream.duration > 0 {
        p + 1
    } else {
        p
    };
    &&& stream.duration > 0 ==> lines[p] == (ReportLine::Duration {
        ticks: stream.duration,
        time_base: stream.time_base,
    })
    &&& stream.metadata@.len() > 0 ==> {
        &&& tells_number(lines[q], "  📋 元数据 ("@, stream.metadata@.len() as int, " 项):"@)
        &&& forall|m: int|
            0 <= m < stream.metadata@.len() ==> (#[trigger] lines[q + 1 + m]).spec_text() == Some(
                "    "@ + stream.metadata@[m].0@ + ": "@ + stream.metadata@[m].1@,
            )
    }
}

proof fn lines_on_streams_are_counted(streams: Seq<StreamInfo>, number: int)
    requires
        0 <= number <= streams.len(),
    ensures
        all_stream_lines(streams.take(number)).len() + 5 == first_line(streams, number),
    decreases number,
{
    if number > 0 {
        lines_on_streams_are_counted(streams, number - 1);
        assert(streams.take(number).drop_last() =~= streams.take(number - 1));
        assert(streams.take(number).last() == streams[number - 1]);
        assert(stream_lines(streams[number - 1], (number - 1) as nat).len() == line_count(
            streams[number - 1],
        ));
    } else {
        assert(streams.take(0) =~= Seq::empty());
    }
}

proof fn lines_on_a_stream_stand_at(streams: Seq<StreamInfo>, number: int, count: int, k: int)
    requires
        0 <= number < count <= streams.len(),
        0 <= k < stream_lines(streams[number], number as nat).len(),
    ensures
        ({
            let at = all_stream_lines(streams.take(number)).len() + k;
            &&& at < all_stream_lines(streams.take(count)).len()
            &&& all_stream_lines(streams.take(count))[at] == stream_lines(
                streams[number],
                number as nat,
            )[k]
        }),
    decreases count,
{
    assert(streams.take(count).drop_last() =~= streams.take(count - 1));
    assert(streams.take(count).last() == streams[count - 1]);
    if number < count - 1 {
        lines_on_a_stream_stand_at(streams, number, count - 1, k);
    }
}

/// A report begins and ends with its own lines, and has on each stream, in the
/// order of the streams, what kind it is of, its codec and its index; what is
/// particular to its kind; how long it takes; and its metadata: each with the
/// stream's own numbers and words.
pub proof fn each_stream_is_told_of(streams: Seq<StreamInfo>, number: int)
    requires
        streams.len() <= usize::MAX,
        0 <= number < streams.len(),
        streams[number].metadata@.len() <= usize::MAX,
    ensures
        ({
            let lines = report(streams);
            let p = first_line(streams, number);
            let stream = streams[number];
            &&& lines.len() == first_line(streams, streams.len() as int) + 1
            &&& lines[0].spec_text() == Some("📁 文件信息:"@)
            &&& lines.last().spec_text() == Some("分析完成"@)
            &&& 5 <= p
            &&& p + line_count(stream) < lines.len()
            &&& tells_basics(lines, p, stream, number)
            &&& tells_kind(lines, p + 4, stream)
            &&& tells_rest(lines, p + 4 + kind_line_count(stream), stream)
        }),
{
    let lines = report(streams);
    let p = first_line(streams, number);
    let stream = streams[number];
    let mine = stream_lines(stream, number as nat);
    let all = streams.len() as int;
    assert(streams.take(all) =~= streams);
    lines_on_streams_are_counted(streams, number);
    lines_on_streams_are_counted(streams, all);
    assert(mine.len() == line_count(stream));
    assert forall|k: int| 0 <= k < mine.len() implies p + k < lines.len() - 1 && #[trigger] lines[p
        + k] == mine[k] by {
        lines_on_a_stream_stand_at(streams, number, all, k);
    }
    assert(lines[p + (mine.len() - 1)] == mine[mine.len() - 1]);
    assert(lines[p + 0] == mine[0] && lines[p + 1] == mine[1] && lines[p + 2] == mine[2] && lines[p
        + 3] == mine[3]);
    count_is_told(lines[p], "流 #"@, number as nat, " 信息:"@);
    let index = "Stream 索引: "@ + decimal(stream.index as nat);
    assert(index =~= index + Seq::empty());
    count_is_told(lines[p + 3], "Stream 索引: "@, stream.index as nat, Seq::empty());
    let kinds = kind_lines(stream);
    assert(kinds.len() == kind_line_count(stream));
    assert forall|k: int| 0 <= k < kinds.len() implies #[trigger] lines[p + 4 + k] == kinds[k] by {
        assert(lines[p + (4 + k)] == mine[4 + k]);
    }
    kinds_are_told(lines, p + 4, stream);
    let rest = p + 4 + kinds.len();
    let extra = duration_lines(stream) + metadata_lines(stream);
    assert forall|k: int| 0 <= k < extra.len() implies #[trigger] lines[rest + k] == extra[k] by {
        assert(lines[p + (4 + kinds.len() + k)] == mine[4 + kinds.len() + k]);
    }
    rest_is_told(lines, rest, stream);
}

proof fn kinds_are_told(lines: Seq<ReportLine>, p: int, stream: StreamInfo)
    requires
        forall|k: int|
            0 <= k < kind_lines(stream).len() ==> #[trigger] lines[p + k] == kind_lines(stream)[k],
    ensures
        tells_kind(lines, p, stream),
{
    let none = Seq::<char>::empty();
    let kinds = kind_lines(stream);
    assert(lines[p + 0] == kinds[0]);
    match stream.medium {
        MediaType::Video => {
            assert(lines[p + 1] == kinds[1] && lines[p + 2] == kinds[2] && lines[p + 3]
                == kinds[3]);
            let last = kinds.len() - 1;
            assert(lines[p + last] == kinds[last]);
            signed_decimal_stands_for_the_number(stream.width as int);
            signed_decimal_stands_for_the_number(stream.height as int);
            let w = signed_decimal(stream.width as int);
            let h = signed_decimal(stream.height as int);
            assert(is_signed_numeral_of(w, stream.width as int) && is_signed_numeral_of(
                h,
                stream.height as int,
            ));
            let text = "    像素格式: "@ + signed_decimal(stream.format as int);
            assert(text =~= text + none);
            number_is_told(lines[p + last], "    像素格式: "@, stream.format as int, none);
        },
        MediaType::Audio => {
            assert(lines[p + 1] == kinds[1] && lines[p + 2] == kinds[2] && lines[p + 3] == kinds[3]
                && lines[p + 4] == kinds[4]);
            number_is_told(lines[p + 1], "    采样率: "@, stream.sample_rate as int, " Hz"@);
            let channels = "    声道数: "@ + signed_decimal(stream.channels as int);
            assert(channels =~= channels + none);
            number_is_told(lines[p + 2], "    声道数: "@, stream.channels as int, none);
            let format = "    采样格式: "@ + signed_decimal(stream.format as int);
            assert(format =~= format + none);
            number_is_told(lines[p + 4], "    采样格式: "@, stream.format as int, none);
        },
        MediaType::Subtitle => {
            assert(lines[p + 1] == kinds[1]);
        },
        _ => {},
    }
}

proof fn rest_is_told(lines: Seq<ReportLine>, p: int, stream: StreamInfo)
    requires
        stream.metadata@.len() <= usize::MAX,
        forall|k: int|
            0 <= k < (duration_lines(stream) + metadata_lines(stream)).len()
                ==> #[trigger] lines[p + k] == (duration_lines(stream) + metadata_lines(
                stream,
            ))[k],
    ensures
        tells_rest(lines, p, stream),
{
    let extra = duration_lines(stream) + metadata_lines(stream);
    let d = duration_lines(stream).len() as int;
    if d > 0 {
        assert(lines[p + 0] == extra[0]);
    }
    if stream.metadata@.len() > 0 {
        assert(lines[p + d] == extra[d]);
        count_is_told(lines[p + d], "  📋 元数据 ("@, stream.metadata@.len(), " 项):"@);
        assert forall|m: int| 0 <= m < stream.metadata@.len() implies (#[trigger] lines[p + d + 1
            + m]).spec_text() == Some(
            "    "@ + stream.metadata@[m].0@ + ": "@ + stream.metadata@[m].1@,
        ) by {
            assert(lines[p + (d + 1 + m)] == extra[d + 1 + m]);
            assert(extra[d + 1 + m] == metadata_lines(stream)[1 + m]);
        }
    }
}

} // verus!
