use media_tool::analysis::{analyze_input, count_streams, unopened_words, ReportLine};
use media_tool::media::{MediaType, Rational, StreamInfo};

fn stream(index: usize, medium: MediaType) -> StreamInfo {
    StreamInfo {
        index,
        medium,
        codec_name: "c".to_string(),
        codec_id: "CODEC".to_string(),
        width: 1920,
        height: 1080,
        bit_rate: 4_000_000,
        frame_rate: Rational { numerator: 30000, denominator: 1001 },
        format: 8,
        sample_rate: 48_000,
        channels: 2,
        duration: 900,
        time_base: Rational { numerator: 1, denominator: 90 },
        metadata: vec![("language".to_string(), "eng".to_string())],
        filename_tags: vec![],
        mimetype_tags: vec![],
    }
}

#[test]
fn a_report_covers_every_stream() {
    let mut bare = stream(1, MediaType::Video);
    bare.frame_rate = Rational { numerator: 0, denominator: 0 };
    bare.duration = 0;
    bare.metadata = vec![];
    let streams = vec![stream(0, MediaType::Audio), bare];
    let codec = || "CODEC".to_string();
    assert_eq!(
        analyze_input(&streams),
        vec![
            ReportLine::FileHeader,
            ReportLine::TotalStreams(2),
            ReportLine::VideoStreams(1),
            ReportLine::AudioStreams(1),
            ReportLine::SubtitleStreams(0),
            ReportLine::StreamHeader(0),
            ReportLine::Kind(MediaType::Audio),
            ReportLine::Codec(codec()),
            ReportLine::StreamIndex(0),
            ReportLine::AudioHeader,
            ReportLine::SampleRate(48_000),
            ReportLine::Channels(2),
            ReportLine::AudioBitRate(4_000_000),
            ReportLine::SampleFormat(8),
            ReportLine::Duration { ticks: 900, time_base: Rational { numerator: 1, denominator: 90 } },
            ReportLine::MetadataHeader(1),
            ReportLine::Metadata { key: "language".to_string(), value: "eng".to_string() },
            ReportLine::StreamHeader(1),
            ReportLine::Kind(MediaType::Video),
            ReportLine::Codec(codec()),
            ReportLine::StreamIndex(1),
            ReportLine::VideoHeader,
            ReportLine::Resolution { width: 1920, height: 1080 },
            ReportLine::VideoBitRate(4_000_000),
            ReportLine::PixelFormat(8),
            ReportLine::Finished,
        ]
    );
}

#[test]
fn a_frame_rate_is_shown_where_there_is_one() {
    let lines = analyze_input(&vec![stream(0, MediaType::Video)]);
    assert!(lines.contains(&ReportLine::FrameRate(Rational { numerator: 30000, denominator: 1001 })));
}

#[test]
fn subtitles_and_other_streams_have_lines_of_their_own() {
    let lines = analyze_input(&vec![stream(0, MediaType::Subtitle), stream(1, MediaType::Data)]);
    assert!(lines.contains(&ReportLine::SubtitleHeader));
    assert!(lines.contains(&ReportLine::SubtitleCodec("CODEC".to_string())));
    assert_eq!(lines.iter().filter(|l| **l == ReportLine::OtherHeader).count(), 1);
}

#[test]
fn an_empty_file_has_a_report_too() {
    assert_eq!(
        analyze_input(&vec![]),
        vec![
            ReportLine::FileHeader,
            ReportLine::TotalStreams(0),
            ReportLine::VideoStreams(0),
            ReportLine::AudioStreams(0),
            ReportLine::SubtitleStreams(0),
            ReportLine::Finished,
        ]
    );
}

#[test]
fn the_counts_add_up() {
    let kinds = [
        MediaType::Video, MediaType::Audio, MediaType::Subtitle, MediaType::Attachment,
        MediaType::Data, MediaType::Unknown,
    ];
    let streams: Vec<StreamInfo> = (0..20).map(|i| stream(i, kinds[i * i % 6])).collect();
    let sum: usize = kinds.iter().map(|k| count_streams(&streams, *k)).sum();
    assert_eq!(sum, 20);
    assert_eq!(count_streams(&streams, MediaType::Video), 4);
}

#[test]
fn lines_are_put_into_words() {
    let s = |t: &str| Some(t.to_string());
    assert_eq!(ReportLine::FileHeader.text(), s("📁 文件信息:"));
    assert_eq!(ReportLine::TotalStreams(12).text(), s("总流数: 12"));
    assert_eq!(ReportLine::VideoStreams(1).text(), s("视频流: 1 个"));
    assert_eq!(ReportLine::StreamHeader(0).text(), s("流 #0 信息:"));
    assert_eq!(ReportLine::Kind(MediaType::Attachment).text(), s("类型: Attachment"));
    assert_eq!(ReportLine::Resolution { width: 640, height: -1 }.text(), s("    分辨率: 640x-1"));
    assert_eq!(ReportLine::SampleRate(44100).text(), s("    采样率: 44100 Hz"));
    assert_eq!(ReportLine::MetadataHeader(3).text(), s("  📋 元数据 (3 项):"));
    let line = ReportLine::Metadata { key: "a".to_string(), value: "b".to_string() };
    assert_eq!(line.text(), s("    a: b"));
    assert_eq!(ReportLine::VideoBitRate(1).text(), None);
    assert_eq!(ReportLine::AudioBitRate(1).text(), None);
    assert_eq!(ReportLine::FrameRate(Rational { numerator: 1, denominator: 1 }).text(), None);
    let tb = Rational { numerator: 1, denominator: 1 };
    assert_eq!(ReportLine::Duration { ticks: 1, time_base: tb }.text(), None);
}

#[test]
fn kinds_are_named_as_they_are_shown() {
    for medium in [
        MediaType::Video, MediaType::Audio, MediaType::Subtitle, MediaType::Attachment,
        MediaType::Data, MediaType::Unknown,
    ] {
        assert_eq!(medium.name(), format!("{:?}", medium));
    }
}

#[test]
fn a_file_that_cannot_be_opened_is_named() {
    assert_eq!(unopened_words("a b.mp4"), "无法打开输入文件: a b.mp4 ");
}
