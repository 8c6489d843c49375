use media_tool::container::{get_best_container_for_codec as suffix_in, suffix_notes, Topic};
use media_tool::paths::Style;
use media_tool::media::{filename_keys, mimetype_keys, MediaType, Rational, StreamInfo};

fn get_best_container_for_codec(stream: &StreamInfo) -> &'static str {
    suffix_in(Style::Posix, stream)
}

fn stream(medium: MediaType, codec: &str) -> StreamInfo {
    StreamInfo {
        index: 0,
        medium,
        codec_name: codec.to_string(),
        codec_id: codec.to_uppercase(),
        width: 0,
        height: 0,
        bit_rate: 0,
        frame_rate: Rational { numerator: 0, denominator: 0 },
        format: 0,
        sample_rate: 0,
        channels: 0,
        duration: 0,
        time_base: Rational { numerator: 1, denominator: 1 },
        metadata: vec![],
        filename_tags: vec![None, None, None, None],
        mimetype_tags: vec![None, None, None],
    }
}

fn attachment(names: [Option<&str>; 4], mimes: [Option<&str>; 3]) -> StreamInfo {
    let mut s = stream(MediaType::Attachment, "none");
    s.filename_tags = names.iter().map(|n| n.map(|t| t.to_string())).collect();
    s.mimetype_tags = mimes.iter().map(|n| n.map(|t| t.to_string())).collect();
    s
}

fn check(medium: MediaType, table: &[(&str, &str)]) {
    for (codec, suffix) in table {
        let s = stream(medium, codec);
        assert_eq!(get_best_container_for_codec(&s), *suffix, "suffix for {}", codec);
    }
}

#[test]
fn video_goes_into_a_container_for_its_codec() {
    check(
        MediaType::Video,
        &[
            ("h264", "mp4"), ("h265", "mp4"), ("hevc", "mp4"), ("mpeg4", "mp4"), ("mjpeg", "mp4"),
            ("vp8", "webm"), ("vp9", "webm"), ("av1", "mkv"), ("theora", "ogv"), ("prores", "mkv"),
            ("", "mkv"), ("H264", "mkv"),
        ],
    );
}

#[test]
fn audio_goes_into_a_container_for_its_codec() {
    check(
        MediaType::Audio,
        &[
            ("aac", "m4a"), ("mp3", "mp3"), ("ac3", "ac3"), ("eac3", "eac3"), ("opus", "opus"),
            ("vorbis", "ogg"), ("flac", "flac"), ("pcm_s16le", "wav"), ("pcm_s24le", "wav"),
            ("pcm_s32le", "wav"), ("dts", "dts"), ("truehd", "thd"), ("alac", "m4a"),
            ("wmav1", "wma"), ("wmav2", "wma"), ("amr_nb", "amr"), ("amr_wb", "amr"),
            ("pcm_u8", "mka"), ("", "mka"),
        ],
    );
}

#[test]
fn subtitles_go_into_a_file_for_their_codec() {
    check(
        MediaType::Subtitle,
        &[
            ("ass", "ass"), ("ssa", "ass"), ("srt", "srt"), ("subrip", "srt"), ("webvtt", "vtt"),
            ("mov_text", "srt"), ("dvd_subtitle", "sub"), ("dvdsub", "sub"),
            ("hdmv_pgs_subtitle", "sup"), ("text", "txt"), ("eia_608", "sub"),
        ],
    );
}

#[test]
fn other_streams_go_into_plain_files() {
    check(MediaType::Data, &[("bin_data", "dat"), ("h264", "dat")]);
    check(MediaType::Unknown, &[("none", "bin"), ("aac", "bin")]);
}

#[test]
fn attachments_are_known_by_their_file_name() {
    let table = [
        ("a.ttf", "ttf"), ("a.otf", "otf"), ("a.woff", "woff"), ("a.woff2", "woff2"), ("a.jpg", "jpg"),
        ("a.jpeg", "jpg"), ("a.png", "png"), ("a.gif", "gif"), ("a.webp", "webp"), ("a.bmp", "bmp"),
        ("a.svg", "svg"), ("a.pdf", "pdf"), ("a.txt", "txt"), ("a.exe", "bin"), ("Arial.TTF", "ttf"),
        ("dir.x/cover.JPEG", "jpg"), ("a.", "bin"),
    ];
    for (name, suffix) in table {
        let s = attachment([Some(name), None, None, None], [Some("image/png"), None, None]);
        assert_eq!(get_best_container_for_codec(&s), suffix, "suffix for {}", name);
    }
}

#[test]
fn a_file_name_without_an_extension_is_passed_over() {
    let s = attachment([Some("font"), None, Some(".ttf"), Some("b.otf")], [None, None, None]);
    assert_eq!(get_best_container_for_codec(&s), "otf");
    let s = attachment([Some("font"), None, None, None], [None, Some("font/woff"), None]);
    assert_eq!(get_best_container_for_codec(&s), "woff");
}

#[test]
fn attachments_are_else_known_by_their_mime_type() {
    let table = [
        ("font/ttf", "ttf"), ("application/x-truetype-font", "ttf"), ("font/otf", "otf"),
        ("application/vnd.ms-opentype", "otf"), ("font/woff", "woff"), ("font/woff2", "woff2"),
        ("image/jpeg", "jpg"), ("image/png", "png"), ("image/gif", "gif"), ("image/webp", "webp"),
        ("image/bmp", "bmp"), ("image/svg+xml", "svg"), ("application/pdf", "pdf"),
        ("text/plain", "txt"), ("video/mp4", "bin"), ("IMAGE/PNG", "bin"),
    ];
    for (mime, suffix) in table {
        let s = attachment([None; 4], [Some(mime), Some("image/png"), None]);
        assert_eq!(get_best_container_for_codec(&s), suffix, "suffix for {}", mime);
    }
    assert_eq!(get_best_container_for_codec(&attachment([None; 4], [None; 3])), "bin");
}

#[test]
fn suffixes_are_plain() {
    for medium in [MediaType::Video, MediaType::Audio, MediaType::Subtitle, MediaType::Data] {
        for codec in ["h264", "vp9", "aac", "flac", "ass", "x/y.z"] {
            let suffix = get_best_container_for_codec(&stream(medium, codec));
            assert!(!suffix.is_empty() && !suffix.contains('.') && !suffix.contains('/'));
        }
    }
}

#[test]
fn metadata_is_looked_up_under_these_keys() {
    assert_eq!(filename_keys(), ["filename", "FILENAME", "file_name", "name"]);
    assert_eq!(mimetype_keys(), ["mimetype", "MIMETYPE", "mime_type"]);
}

#[test]
fn a_backslash_in_a_file_name_separates_on_windows() {
    let s = attachment([Some("a.b\\c"), None, None, None], [Some("image/png"), None, None]);
    assert_eq!(suffix_in(Style::Posix, &s), "bin");
    assert_eq!(suffix_in(Style::Windows, &s), "png");
}

fn said(s: &StreamInfo) -> Vec<(Topic, String)> {
    suffix_notes(Style::Posix, s).into_iter().map(|n| (n.topic, n.text)).collect()
}

fn line(topic: Topic, text: &str) -> (Topic, String) {
    (topic, text.to_string())
}

#[test]
fn it_is_said_where_a_suffix_is_from() {
    assert_eq!(said(&stream(MediaType::Video, "h264")), vec![line(Topic::Suffix, "\"mp4\"")]);
    let s = attachment([Some("font"), None, Some("A.TTF"), Some("b.otf")], [Some("x"), None, None]);
    assert_eq!(
        said(&s),
        vec![
            line(Topic::FileName, "font"),
            line(Topic::FileName, "A.TTF"),
            line(Topic::Extension, "TTF"),
            line(Topic::Suffix, "\"ttf\""),
        ]
    );
    let s = attachment([Some("font"), None, None, None], [None, Some("font/otf"), Some("y")]);
    assert_eq!(
        said(&s),
        vec![
            line(Topic::FileName, "font"),
            line(Topic::MimeType, "font/otf"),
            line(Topic::SuffixOfMimeType, "otf"),
            line(Topic::Suffix, "\"otf\""),
        ]
    );
    let s = attachment([None; 4], [Some("x/y"), None, None]);
    assert_eq!(
        said(&s),
        vec![
            line(Topic::MimeType, "x/y"),
            line(Topic::UnknownMimeType, "x/y"),
            line(Topic::SuffixOfMimeType, "bin"),
            line(Topic::Suffix, "\"bin\""),
        ]
    );
    let s = attachment([None; 4], [None; 3]);
    assert_eq!(said(&s), vec![line(Topic::NoSuffix, ""), line(Topic::Suffix, "\"bin\"")]);
    assert_eq!(Topic::FileName.words(), "  文件名: ");
    assert_eq!(Topic::Extension.words(), "  从文件名提取扩展名: ");
    assert_eq!(Topic::MimeType.words(), "  MIME类型: ");
    assert_eq!(Topic::UnknownMimeType.words(), "  未知的 MIME type: ");
    assert_eq!(Topic::SuffixOfMimeType.words(), "  从 MIME type 推断扩展名: ");
    assert_eq!(Topic::NoSuffix.words(), "  无法确定附件扩展名，使用 .bin");
    assert_eq!(Topic::Suffix.words(), "file_suffix: ");
    assert!(Topic::NoSuffix.is_warning() && Topic::UnknownMimeType.is_warning());
    assert!(!Topic::FileName.is_warning() && !Topic::Suffix.is_warning());
}
