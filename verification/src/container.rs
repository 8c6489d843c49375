//! The file suffix that suits a stream.

use vstd::prelude::*;

use crate::media::{MediaType, StreamInfo};
use crate::paths::{extension, extension_of, Style};
use crate::text::{lower, same_lower, same_text};

verus! {

/// The suffix for a video codec; Matroska takes nearly everything.
pub open spec fn video_suffix(codec: Seq<char>) -> Seq<char> {
    if codec == "h264"@ || codec == "h265"@ || codec == "hevc"@ || codec == "mpeg4"@ || codec
        == "mjpeg"@ {
        "mp4"@
    } else if codec == "vp8"@ || codec == "vp9"@ {
        "webm"@
    } else if codec == "theora"@ {
        "ogv"@
    } else {
        "mkv"@
    }
}

/// The suffix for an audio codec; Matroska takes what has no file of its own.
pub open spec fn audio_suffix(codec: Seq<char>) -> Seq<char> {
    if codec == "aac"@ || codec == "alac"@ {
        "m4a"@
    } else if codec == "mp3"@ || codec == "ac3"@ || codec == "eac3"@ || codec == "opus"@ || codec
        == "flac"@ || codec == "dts"@ {
        codec
    } else if codec == "vorbis"@ {
        "ogg"@
    } else if codec == "pcm_s16le"@ || codec == "pcm_s24le"@ || codec == "pcm_s32le"@ {
        "wav"@
    } else if codec == "truehd"@ {
        "thd"@
    } else if codec == "wmav1"@ || codec == "wmav2"@ {
        "wma"@
    } else if codec == "amr_nb"@ || codec == "amr_wb"@ {
        "amr"@
    } else {
        "mka"@
    }
}

/// The suffix for a subtitle codec.
pub open spec fn subtitle_suffix(codec: Seq<char>) -> Seq<char> {
    if codec == "ass"@ || codec == "ssa"@ {
        "ass"@
    } else if codec == "srt"@ || codec == "subrip"@ || codec == "mov_text"@ {
        "srt"@
    } else if codec == "webvtt"@ {
        "vtt"@
    } else if codec == "hdmv_pgs_subtitle"@ {
        "sup"@
    } else if codec == "text"@ {
        "txt"@
    } else {
        "sub"@
    }
}

/// The suffix for an attachment whose file name has the extension `ext`, in
/// lower case.
pub open spec fn known_extension(ext: Seq<char>) -> Seq<char> {
    if ext == "jpeg"@ {
        "jpg"@
    } else if ext == "jpg"@ || ext == "ttf"@ || ext == "otf"@ || ext == "woff"@ || ext == "woff2"@ || ext
        == "png"@ || ext == "gif"@ || ext == "webp"@ || ext == "bmp"@ || ext == "svg"@ || ext
        == "pdf"@ || ext == "txt"@ {
        ext
    } else {
        "bin"@
    }
}

/// The suffix for an attachment of the MIME type.
pub open spec fn mime_suffix(mime: Seq<char>) -> Seq<char> {
    if mime == "font/ttf"@ || mime == "application/x-truetype-font"@ {
        "ttf"@
    } else if mime == "font/otf"@ || mime == "application/vnd.ms-opentype"@ {
        "otf"@
    } else if mime == "font/woff"@ {
        "woff"@
    } else if mime == "font/woff2"@ {
        "woff2"@
    } else if mime == "image/jpeg"@ {
        "jpg"@
    } else if mime == "image/png"@ {
        "png"@
    } else if mime == "image/gif"@ {
        "gif"@
    } else if mime == "image/webp"@ {
        "webp"@
    } else if mime == "image/bmp"@ {
        "bmp"@
    } else if mime == "image/svg+xml"@ {
        "svg"@
    } else if mime == "application/pdf"@ {
        "pdf"@
    } else if mime == "text/plain"@ {
        "txt"@
    } else {
        "bin"@
    }
}

/// The extension of the first file name that has one.
pub open spec fn first_extension(style: Style, names: Seq<Option<String>>) -> Option<Seq<char>>
    decreases names.len(),
{
    if names.len() == 0 {
        None
    } else {
        match names[0] {
            Some(name) if extension_of(style, name@) is Some => extension_of(style, name@),
            _ => first_extension(style, names.drop_first()),
        }
    }
}

/// The first text that is there.
pub open spec fn first_present(tags: Seq<Option<String>>) -> Option<Seq<char>>
    decreases tags.len(),
{
    if tags.len() == 0 {
        None
    } else {
        match tags[0] {
            Some(tag) => Some(tag@),
            None => first_present(tags.drop_first()),
        }
    }
}

/// The suffix for an attachment: by the extension of its file name, else by
/// its MIME type, else `bin`.
pub open spec fn attachment_suffix(
    style: Style,
    names: Seq<Option<String>>,
    mimes: Seq<Option<String>>,
) -> Seq<char> {
    match first_extension(style, names) {
        Some(ext) => known_extension(lower(ext)),
        None => match first_present(mimes) {
            Some(mime) => mime_suffix(mime),
            None => "bin"@,
        },
    }
}

/// The suffix that suits the stream.
pub open spec fn suffix_for(style: Style, stream: StreamInfo) -> Seq<char> {
    match stream.medium {
        MediaType::Video => video_suffix(stream.codec_name@),
        MediaType::Audio => audio_suffix(stream.codec_name@),
        MediaType::Subtitle => subtitle_suffix(stream.codec_name@),
        MediaType::Attachment => attachment_suffix(
            style,
            stream.filename_tags@,
            stream.mimetype_tags@,
        ),
        MediaType::Unknown => "bin"@,
        MediaType::Data => "dat"@,
    }
}

fn container_for_video(codec: &str) -> (r: &'static str)
    ensures
        r@ == video_suffix(codec@),
{
    if same_text(codec, "h264") || same_text(codec, "h265") || same_text(codec, "hevc")
        || same_text(codec, "mpeg4") || same_text(codec, "mjpeg") {
        "mp4"
    } else if same_text(codec, "vp8") || same_text(codec, "vp9") {
        "webm"
    } else if same_text(codec, "theora") {
        "ogv"
    } else {
        "mkv"
    }
}

fn container_for_audio(codec: &str) -> (r: &'static str)
    ensures
        r@ == audio_suffix(codec@),
{
    if same_text(codec, "aac") || same_text(codec, "alac") {
        "m4a"
    } else if same_text(codec, "mp3") {
        "mp3"
    } else if same_text(codec, "ac3") {
        "ac3"
    } else if same_text(codec, "eac3") {
        "eac3"
    } else if same_text(codec, "opus") {
        "opus"
    } else if same_text(codec, "flac") {
        "flac"
    } else if same_text(codec, "dts") {
        "dts"
    } else if same_text(codec, "vorbis") {
        "ogg"
    } else if same_text(codec, "pcm_s16le") || same_text(codec, "pcm_s24le") || same_text(
        codec,
        "pcm_s32le",
    ) {
        "wav"
    } else if same_text(codec, "truehd") {
        "thd"
    } else if same_text(codec, "wmav1") || same_text(codec, "wmav2") {
        "wma"
    } else if same_text(codec, "amr_nb") || same_text(codec, "amr_wb") {
        "amr"
    } else {
        "mka"
    }
}

fn container_for_subtitle(codec: &str) -> (r: &'static str)
    ensures
        r@ == subtitle_suffix(codec@),
{
    if same_text(codec, "ass") || same_text(codec, "ssa") {
        "ass"
    } else if same_text(codec, "srt") || same_text(codec, "subrip") || same_text(
        codec,
        "mov_text",
    ) {
        "srt"
    } else if same_text(codec, "webvtt") {
        "vtt"
    } else if same_text(codec, "hdmv_pgs_subtitle") {
        "sup"
    } else if same_text(codec, "text") {
        "txt"
    } else {
        "sub"
    }
}

fn container_for_extension(ext: &str) -> (r: &'static str)
    ensures
        r@ == known_extension(lower(ext@)),
{
    if same_lower(ext, "jpeg") || same_lower(ext, "jpg") {
        "jpg"
    } else if same_lower(ext, "ttf") {
        "ttf"
    } else if same_lower(ext, "otf") {
        "otf"
    } else if same_lower(ext, "woff") {
        "woff"
    } else if same_lower(ext, "woff2") {
        "woff2"
    } else if same_lower(ext, "png") {
        "png"
    } else if same_lower(ext, "gif") {
        "gif"
    } else if same_lower(ext, "webp") {
        "webp"
    } else if same_lower(ext, "bmp") {
        "bmp"
    } else if same_lower(ext, "svg") {
        "svg"
    } else if same_lower(ext, "pdf") {
        "pdf"
    } else if same_lower(ext, "txt") {
        "txt"
    } else {
        "bin"
    }
}

fn container_for_mimetype(mime: &str) -> (r: &'static str)
    ensures
        r@ == mime_suffix(mime@),
{
    if same_text(mime, "font/ttf") || same_text(mime, "application/x-truetype-font") {
        "ttf"
    } else if same_text(mime, "font/otf") || same_text(mime, "application/vnd.ms-opentype") {
        "otf"
    } else if same_text(mime, "font/woff") {
        "woff"
    } else if same_text(mime, "font/woff2") {
        "woff2"
    } else if same_text(mime, "image/jpeg") {
        "jpg"
    } else if same_text(mime, "image/png") {
        "png"
    } else if same_text(mime, "image/gif") {
        "gif"
    } else if same_text(mime, "image/webp") {
        "webp"
    } else if same_text(mime, "image/bmp") {
        "bmp"
    } else if same_text(mime, "image/svg+xml") {
        "svg"
    } else if same_text(mime, "application/pdf") {
        "pdf"
    } else if same_text(mime, "text/plain") {
        "txt"
    } else {
        "bin"
    }
}

fn container_for_attachment(
    style: Style,
    names: &Vec<Option<String>>,
    mimes: &Vec<Option<String>>,
) -> (r: &'static str)
    ensures
        r@ == attachment_suffix(style, names@, mimes@),
{
    let mut i: usize = 0;
    assert(names@.skip(0) =~= names@);
    while i < names.len()
        invariant
            i <= names@.len(),
            first_extension(style, names@.skip(i as int)) == first_extension(style, names@),
        decreases names@.len() - i,
    {
        assert(names@.skip(i as int).drop_first() =~= names@.skip(i + 1));
        if let Some(name) = &names[i] {
            if let Some(ext) = extension(style, name.as_str()) {
                return container_for_extension(ext);
            }
        }
        i += 1;
    }
    let mut j: usize = 0;
    assert(mimes@.skip(0) =~= mimes@);
    while j < mimes.len()
        invariant
            j <= mimes@.len(),
            first_extension(style, names@) is None,
            first_present(mimes@.skip(j as int)) == first_present(mimes@),
        decreases mimes@.len() - j,
    {
        assert(mimes@.skip(j as int).drop_first() =~= mimes@.skip(j + 1));
        if let Some(mime) = &mimes[j] {
            return container_for_mimetype(mime.as_str());
        }
        j += 1;
    }
    "bin"
}

/// The suffix of the file that the stream goes into.
pub fn get_best_container_for_codec(style: Style, stream: &StreamInfo) -> (r: &'static str)
    ensures
        r@ == suffix_for(style, *stream),
{
    match stream.medium {
        MediaType::Video => container_for_video(stream.codec_name.as_str()),
        MediaType::Audio => container_for_audio(stream.codec_name.as_str()),
        MediaType::Attachment => container_for_attachment(
            style,
            &stream.filename_tags,
            &stream.mimetype_tags,
        ),
        MediaType::Subtitle => container_for_subtitle(stream.codec_name.as_str()),
        MediaType::Unknown => "bin",
        MediaType::Data => "dat",
    }
}

/// A video goes into `mp4`, `webm` or `ogv` just for the codecs that these
/// are for; every other codec goes into `mkv`.
pub proof fn video_goes_into_what_can_hold_it(style: Style, stream: StreamInfo)
    requires
        stream.medium == MediaType::Video,
    ensures
        ({
            let codec = stream.codec_name@;
            let r = suffix_for(style, stream);
            let mp4 = codec == "h264"@ || codec == "h265"@ || codec == "hevc"@ || codec == "mpeg4"@
                || codec == "mjpeg"@;
            let webm = codec == "vp8"@ || codec == "vp9"@;
            let ogv = codec == "theora"@;
            &&& r == "mp4"@ <==> mp4
            &&& r == "webm"@ <==> webm
            &&& r == "ogv"@ <==> ogv
            &&& r == "mkv"@ <==> !mp4 && !webm && !ogv
        }),
{
    reveal_strlit("h264");
    reveal_strlit("h265");
    reveal_strlit("hevc");
    reveal_strlit("mpeg4");
    reveal_strlit("mjpeg");
    reveal_strlit("vp8");
    reveal_strlit("vp9");
    reveal_strlit("theora");
    assert("h264"@.len() == 4);
    assert("h265"@.len() == 4);
    assert("hevc"@.len() == 4);
    assert("mpeg4"@.len() == 5);
    assert("mjpeg"@.len() == 5);
    assert("vp8"@.len() == 3);
    assert("vp9"@.len() == 3);
    assert("theora"@.len() == 6);
    assert("h264"@[3] != "h265"@[3]);
    assert("h264"@[1] != "hevc"@[1]);
    assert("h265"@[1] != "hevc"@[1]);
    assert("mpeg4"@[1] != "mjpeg"@[1]);
    assert("vp8"@[2] != "vp9"@[2]);
    reveal_strlit("mp4");
    reveal_strlit("webm");
    reveal_strlit("ogv");
    reveal_strlit("mkv");
    assert("mp4"@.len() == 3);
    assert("webm"@.len() == 4);
    assert("ogv"@.len() == 3);
    assert("mkv"@.len() == 3);
    assert("mp4"@[0] != "ogv"@[0]);
    assert("mp4"@[1] != "mkv"@[1]);
    assert("ogv"@[0] != "mkv"@[0]);
}

/// Audio goes into a file of its own codec with six codecs, into one that can
/// hold it with eleven others, and into `mka` with every other codec.
pub proof fn audio_goes_into_what_can_hold_it(style: Style, stream: StreamInfo)
    requires
        stream.medium == MediaType::Audio,
    ensures
        stream.codec_name@ == "mp3"@ ==> suffix_for(style, stream) == "mp3"@,
        stream.codec_name@ == "ac3"@ ==> suffix_for(style, stream) == "ac3"@,
        stream.codec_name@ == "eac3"@ ==> suffix_for(style, stream) == "eac3"@,
        stream.codec_name@ == "opus"@ ==> suffix_for(style, stream) == "opus"@,
        stream.codec_name@ == "flac"@ ==> suffix_for(style, stream) == "flac"@,
        stream.codec_name@ == "dts"@ ==> suffix_for(style, stream) == "dts"@,
        stream.codec_name@ == "aac"@ || stream.codec_name@ == "alac"@ ==> suffix_for(style, stream)
            == "m4a"@,
        stream.codec_name@ == "vorbis"@ ==> suffix_for(style, stream) == "ogg"@,
        stream.codec_name@ == "pcm_s16le"@ || stream.codec_name@ == "pcm_s24le"@
            || stream.codec_name@ == "pcm_s32le"@ ==> suffix_for(style, stream) == "wav"@,
        stream.codec_name@ == "truehd"@ ==> suffix_for(style, stream) == "thd"@,
        stream.codec_name@ == "wmav1"@ || stream.codec_name@ == "wmav2"@ ==> suffix_for(
            style,
            stream,
        ) == "wma"@,
        stream.codec_name@ == "amr_nb"@ || stream.codec_name@ == "amr_wb"@ ==> suffix_for(
            style,
            stream,
        ) == "amr"@,
        stream.codec_name@ != "mp3"@ && stream.codec_name@ != "ac3"@ && stream.codec_name@
            != "eac3"@ && stream.codec_name@ != "opus"@ && stream.codec_name@ != "flac"@
            && stream.codec_name@ != "dts"@ && stream.codec_name@ != "aac"@ && stream.codec_name@
            != "alac"@ && stream.codec_name@ != "vorbis"@ && stream.codec_name@ != "pcm_s16le"@
            && stream.codec_name@ != "pcm_s24le"@ && stream.codec_name@ != "pcm_s32le"@
            && stream.codec_name@ != "truehd"@ && stream.codec_name@ != "wmav1"@
            && stream.codec_name@ != "wmav2"@ && stream.codec_name@ != "amr_nb"@
            && stream.codec_name@ != "amr_wb"@ ==> suffix_for(style, stream) == "mka"@,
{
    reveal_strlit("aac");
    reveal_strlit("alac");
    reveal_strlit("mp3");
    reveal_strlit("ac3");
    reveal_strlit("eac3");
    reveal_strlit("opus");
    reveal_strlit("flac");
    reveal_strlit("dts");
    reveal_strlit("vorbis");
    reveal_strlit("pcm_s16le");
    reveal_strlit("pcm_s24le");
    reveal_strlit("pcm_s32le");
    reveal_strlit("truehd");
    reveal_strlit("wmav1");
    reveal_strlit("wmav2");
    reveal_strlit("amr_nb");
    reveal_strlit("amr_wb");
    assert("aac"@.len() == 3);
    assert("alac"@.len() == 4);
    assert("mp3"@.len() == 3);
    assert("ac3"@.len() == 3);
    assert("eac3"@.len() == 4);
    assert("opus"@.len() == 4);
    assert("flac"@.len() == 4);
    assert("dts"@.len() == 3);
    assert("vorbis"@.len() == 6);
    assert("pcm_s16le"@.len() == 9);
    assert("pcm_s24le"@.len() == 9);
    assert("pcm_s32le"@.len() == 9);
    assert("truehd"@.len() == 6);
    assert("wmav1"@.len() == 5);
    assert("wmav2"@.len() == 5);
    assert("amr_nb"@.len() == 6);
    assert("amr_wb"@.len() == 6);
    assert("aac"@[0] != "mp3"@[0]);
    assert("aac"@[1] != "ac3"@[1]);
    assert("aac"@[0] != "dts"@[0]);
    assert("alac"@[0] != "eac3"@[0]);
    assert("alac"@[0] != "opus"@[0]);
    assert("alac"@[0] != "flac"@[0]);
    assert("mp3"@[0] != "ac3"@[0]);
    assert("mp3"@[0] != "dts"@[0]);
    assert("ac3"@[0] != "dts"@[0]);
    assert("eac3"@[0] != "opus"@[0]);
    assert("eac3"@[0] != "flac"@[0]);
    assert("opus"@[0] != "flac"@[0]);
    assert("vorbis"@[0] != "truehd"@[0]);
    assert("vorbis"@[0] != "amr_nb"@[0]);
    assert("vorbis"@[0] != "amr_wb"@[0]);
    assert("pcm_s16le"@[5] != "pcm_s24le"@[5]);
    assert("pcm_s16le"@[5] != "pcm_s32le"@[5]);
    assert("pcm_s24le"@[5] != "pcm_s32le"@[5]);
    assert("truehd"@[0] != "amr_nb"@[0]);
    assert("truehd"@[0] != "amr_wb"@[0]);
    assert("wmav1"@[4] != "wmav2"@[4]);
    assert("amr_nb"@[4] != "amr_wb"@[4]);
}

/// A subtitle goes into a file for its codec, and into `sub` with every other
/// codec.
pub proof fn a_subtitle_goes_into_a_file_for_it(style: Style, stream: StreamInfo)
    requires
        stream.medium == MediaType::Subtitle,
    ensures
        stream.codec_name@ == "ass"@ || stream.codec_name@ == "ssa"@ ==> suffix_for(style, stream)
            == "ass"@,
        stream.codec_name@ == "srt"@ || stream.codec_name@ == "subrip"@ || stream.codec_name@
            == "mov_text"@ ==> suffix_for(style, stream) == "srt"@,
        stream.codec_name@ == "webvtt"@ ==> suffix_for(style, stream) == "vtt"@,
        stream.codec_name@ == "hdmv_pgs_subtitle"@ ==> suffix_for(style, stream) == "sup"@,
        stream.codec_name@ == "text"@ ==> suffix_for(style, stream) == "txt"@,
        stream.codec_name@ != "ass"@ && stream.codec_name@ != "ssa"@ && stream.codec_name@
            != "srt"@ && stream.codec_name@ != "subrip"@ && stream.codec_name@ != "mov_text"@
            && stream.codec_name@ != "webvtt"@ && stream.codec_name@ != "hdmv_pgs_subtitle"@
            && stream.codec_name@ != "text"@ ==> suffix_for(style, stream) == "sub"@,
{
    reveal_strlit("ass");
    reveal_strlit("ssa");
    reveal_strlit("srt");
    reveal_strlit("subrip");
    reveal_strlit("mov_text");
    reveal_strlit("webvtt");
    reveal_strlit("hdmv_pgs_subtitle");
    reveal_strlit("text");
    assert("ass"@.len() == 3);
    assert("ssa"@.len() == 3);
    assert("srt"@.len() == 3);
    assert("subrip"@.len() == 6);
    assert("mov_text"@.len() == 8);
    assert("webvtt"@.len() == 6);
    assert("hdmv_pgs_subtitle"@.len() == 17);
    assert("text"@.len() == 4);
    assert("ass"@[0] != "ssa"@[0]);
    assert("ass"@[0] != "srt"@[0]);
    assert("ssa"@[1] != "srt"@[1]);
    assert("subrip"@[0] != "webvtt"@[0]);
}

/// A stream of another kind goes into a file that its codec has no part in.
pub proof fn other_streams_go_into_plain_files(style: Style, stream: StreamInfo)
    ensures
        stream.medium == MediaType::Data ==> suffix_for(style, stream) == "dat"@,
        stream.medium == MediaType::Unknown ==> suffix_for(style, stream) == "bin"@,
{
}

/// Whether the text is the word, which is in small letters, but for capitals.
pub open spec fn is_spelled(text: Seq<char>, word: Seq<char>) -> bool {
    &&& text.len() == word.len()
    &&& forall|k: int|
        0 <= k < word.len() ==> (#[trigger] text[k] == word[k] || 65 <= text[k] as int <= 90
            && text[k] as int + 32 == word[k] as int)
}

/// A text is spelled as a word without capitals just if it is the word in
/// lower case.
proof fn spelling_is_lower_case(text: Seq<char>, word: Seq<char>)
    requires
        forall|k: int| 0 <= k < word.len() ==> !(65 <= (#[trigger] word[k]) as int <= 90),
    ensures
        is_spelled(text, word) <==> lower(text) == word,
{
    crate::text::lower_changes_capitals_alone(text);
    if is_spelled(text, word) {
        assert forall|k: int| 0 <= k < word.len() implies lower(text)[k] == word[k] by {
            assert(text[k] == word[k] || 65 <= text[k] as int <= 90);
        }
        assert(lower(text) =~= word);
    }
    if lower(text) == word {
        assert forall|k: int| 0 <= k < word.len() implies (#[trigger] text[k] == word[k] || 65
            <= text[k] as int <= 90 && text[k] as int + 32 == word[k] as int) by {
            assert(lower(text)[k] == word[k]);
        }
    }
}

/// An attachment whose file name at `at` is the first with an extension goes
/// by that, in capitals or not: into a file of the same extension with twelve
/// of them, into `jpg` with `jpeg`, and into `bin` with every other.
pub proof fn an_attachment_goes_by_its_extension(
    style: Style,
    stream: StreamInfo,
    at: int,
    name: Seq<char>,
    ext: Seq<char>,
)
    requires
        stream.medium == MediaType::Attachment,
        0 <= at < stream.filename_tags@.len(),
        stream.filename_tags@[at] matches Some(n) && n@ == name,
        extension_of(style, name) == Some(ext),
        forall|i: int|
            0 <= i < at ==> (#[trigger] stream.filename_tags@[i] matches Some(n) ==> extension_of(
                style,
                n@,
            ) is None),
    ensures
        is_spelled(ext, "jpg"@) || is_spelled(ext, "jpeg"@) ==> suffix_for(style, stream)
            == "jpg"@,
        is_spelled(ext, "ttf"@) ==> suffix_for(style, stream) == "ttf"@,
        is_spelled(ext, "otf"@) ==> suffix_for(style, stream) == "otf"@,
        is_spelled(ext, "woff"@) ==> suffix_for(style, stream) == "woff"@,
        is_spelled(ext, "woff2"@) ==> suffix_for(style, stream) == "woff2"@,
        is_spelled(ext, "png"@) ==> suffix_for(style, stream) == "png"@,
        is_spelled(ext, "gif"@) ==> suffix_for(style, stream) == "gif"@,
        is_spelled(ext, "webp"@) ==> suffix_for(style, stream) == "webp"@,
        is_spelled(ext, "bmp"@) ==> suffix_for(style, stream) == "bmp"@,
        is_spelled(ext, "svg"@) ==> suffix_for(style, stream) == "svg"@,
        is_spelled(ext, "pdf"@) ==> suffix_for(style, stream) == "pdf"@,
        is_spelled(ext, "txt"@) ==> suffix_for(style, stream) == "txt"@,
        !is_spelled(ext, "jpg"@) && !is_spelled(ext, "jpeg"@) && !is_spelled(ext, "ttf"@)
            && !is_spelled(ext, "otf"@) && !is_spelled(ext, "woff"@) && !is_spelled(ext, "woff2"@)
            && !is_spelled(ext, "png"@) && !is_spelled(ext, "gif"@) && !is_spelled(ext, "webp"@)
            && !is_spelled(ext, "bmp"@) && !is_spelled(ext, "svg"@) && !is_spelled(ext, "pdf"@)
            && !is_spelled(ext, "txt"@) ==> suffix_for(style, stream) == "bin"@,
{
    first_extension_is_found(style, stream.filename_tags@, at);
    reveal_strlit("jpg");
    reveal_strlit("jpeg");
    reveal_strlit("ttf");
    reveal_strlit("otf");
    reveal_strlit("woff");
    reveal_strlit("woff2");
    reveal_strlit("png");
    reveal_strlit("gif");
    reveal_strlit("webp");
    reveal_strlit("bmp");
    reveal_strlit("svg");
    reveal_strlit("pdf");
    reveal_strlit("txt");
    assert("jpg"@.len() == 3);
    assert("jpeg"@.len() == 4);
    assert("ttf"@.len() == 3);
    assert("otf"@.len() == 3);
    assert("woff"@.len() == 4);
    assert("woff2"@.len() == 5);
    assert("png"@.len() == 3);
    assert("gif"@.len() == 3);
    assert("webp"@.len() == 4);
    assert("bmp"@.len() == 3);
    assert("svg"@.len() == 3);
    assert("pdf"@.len() == 3);
    assert("txt"@.len() == 3);
    spelling_is_lower_case(ext, "jpg"@);
    spelling_is_lower_case(ext, "jpeg"@);
    spelling_is_lower_case(ext, "ttf"@);
    spelling_is_lower_case(ext, "otf"@);
    spelling_is_lower_case(ext, "woff"@);
    spelling_is_lower_case(ext, "woff2"@);
    spelling_is_lower_case(ext, "png"@);
    spelling_is_lower_case(ext, "gif"@);
    spelling_is_lower_case(ext, "webp"@);
    spelling_is_lower_case(ext, "bmp"@);
    spelling_is_lower_case(ext, "svg"@);
    spelling_is_lower_case(ext, "pdf"@);
    spelling_is_lower_case(ext, "txt"@);
    assert("jpeg"@[0] != "woff"@[0]);
    assert("jpeg"@[0] != "webp"@[0]);
}

proof fn first_extension_is_found(style: Style, names: Seq<Option<String>>, at: int)
    requires
        0 <= at < names.len(),
        names[at] is Some,
        extension_of(style, names[at]->0@) is Some,
        forall|i: int|
            0 <= i < at ==> (#[trigger] names[i] matches Some(n) ==> extension_of(style, n@)
                is None),
    ensures
        first_extension(style, names) == extension_of(style, names[at]->0@),
    decreases at,
{
    if at > 0 {
        let rest = names.drop_first();
        assert(names[0] matches Some(n) ==> extension_of(style, n@) is None);
        assert forall|i: int| 0 <= i < at - 1 implies (#[trigger] rest[i] matches Some(n)
            ==> extension_of(style, n@) is None) by {
            assert(rest[i] == names[i + 1]);
        }
        first_extension_is_found(style, rest, at - 1);
    }
}

proof fn no_extension_is_found(style: Style, names: Seq<Option<String>>)
    requires
        forall|i: int|
            0 <= i < names.len() ==> (#[trigger] names[i] matches Some(n) ==> extension_of(
                style,
                n@,
            ) is None),
    ensures
        first_extension(style, names) is None,
    decreases names.len(),
{
    if names.len() > 0 {
        let rest = names.drop_first();
        assert(names[0] matches Some(n) ==> extension_of(style, n@) is None);
        assert forall|i: int| 0 <= i < rest.len() implies (#[trigger] rest[i] matches Some(n)
            ==> extension_of(style, n@) is None) by {
            assert(rest[i] == names[i + 1]);
        }
        no_extension_is_found(style, rest);
    }
}

proof fn first_present_is_found(tags: Seq<Option<String>>, at: int)
    requires
        0 <= at < tags.len(),
        tags[at] is Some,
        forall|i: int| 0 <= i < at ==> (#[trigger] tags[i]) is None,
    ensures
        first_present(tags) == Some(tags[at]->0@),
    decreases at,
{
    if at > 0 {
        assert(tags[0] is None);
        assert forall|i: int| 0 <= i < at - 1 implies (#[trigger] tags.drop_first()[i]) is None by {
            assert(tags.drop_first()[i] == tags[i + 1]);
        }
        first_present_is_found(tags.drop_first(), at - 1);
    }
}

proof fn none_present(tags: Seq<Option<String>>)
    requires
        forall|i: int| 0 <= i < tags.len() ==> (#[trigger] tags[i]) is None,
    ensures
        first_present(tags) is None,
    decreases tags.len(),
{
    if tags.len() > 0 {
        assert(tags[0] is None);
        assert forall|i: int| 0 <= i < tags.len() - 1 implies (#[trigger] tags.drop_first()[i])
            is None by {
            assert(tags.drop_first()[i] == tags[i + 1]);
        }
        none_present(tags.drop_first());
    }
}

/// An attachment none of whose file names has an extension goes by the first
/// MIME type that is there, at `at`: into a file for that with fourteen of
/// them, and into `bin` with every other.
pub proof fn an_attachment_goes_else_by_its_mime_type(
    style: Style,
    stream: StreamInfo,
    at: int,
    mime: Seq<char>,
)
    requires
        stream.medium == MediaType::Attachment,
        forall|i: int|
            0 <= i < stream.filename_tags@.len() ==> (#[trigger] stream.filename_tags@[i]
                matches Some(n) ==> extension_of(style, n@) is None),
        0 <= at < stream.mimetype_tags@.len(),
        stream.mimetype_tags@[at] matches Some(m) && m@ == mime,
        forall|i: int| 0 <= i < at ==> (#[trigger] stream.mimetype_tags@[i]) is None,
    ensures
        mime == "font/ttf"@ || mime == "application/x-truetype-font"@ ==> suffix_for(style, stream)
            == "ttf"@,
        mime == "font/otf"@ || mime == "application/vnd.ms-opentype"@ ==> suffix_for(style, stream)
            == "otf"@,
        mime == "font/woff"@ ==> suffix_for(style, stream) == "woff"@,
        mime == "font/woff2"@ ==> suffix_for(style, stream) == "woff2"@,
        mime == "image/jpeg"@ ==> suffix_for(style, stream) == "jpg"@,
        mime == "image/png"@ ==> suffix_for(style, stream) == "png"@,
        mime == "image/gif"@ ==> suffix_for(style, stream) == "gif"@,
        mime == "image/webp"@ ==> suffix_for(style, stream) == "webp"@,
        mime == "image/bmp"@ ==> suffix_for(style, stream) == "bmp"@,
        mime == "image/svg+xml"@ ==> suffix_for(style, stream) == "svg"@,
        mime == "application/pdf"@ ==> suffix_for(style, stream) == "pdf"@,
        mime == "text/plain"@ ==> suffix_for(style, stream) == "txt"@,
        mime != "font/ttf"@ && mime != "application/x-truetype-font"@ && mime != "font/otf"@ && mime
            != "application/vnd.ms-opentype"@ && mime != "font/woff"@ && mime != "font/woff2"@
            && mime != "image/jpeg"@ && mime != "image/png"@ && mime != "image/gif"@ && mime
            != "image/webp"@ && mime != "image/bmp"@ && mime != "image/svg+xml"@ && mime
            != "application/pdf"@ && mime != "text/plain"@ ==> suffix_for(style, stream) == "bin"@,
{
    no_extension_is_found(style, stream.filename_tags@);
    first_present_is_found(stream.mimetype_tags@, at);
    reveal_strlit("font/ttf");
    reveal_strlit("application/x-truetype-font");
    reveal_strlit("font/otf");
    reveal_strlit("application/vnd.ms-opentype");
    reveal_strlit("font/woff");
    reveal_strlit("font/woff2");
    reveal_strlit("image/jpeg");
    reveal_strlit("image/png");
    reveal_strlit("image/gif");
    reveal_strlit("image/webp");
    reveal_strlit("image/bmp");
    reveal_strlit("image/svg+xml");
    reveal_strlit("application/pdf");
    reveal_strlit("text/plain");
    assert("font/ttf"@.len() == 8);
    assert("application/x-truetype-font"@.len() == 27);
    assert("font/otf"@.len() == 8);
    assert("application/vnd.ms-opentype"@.len() == 27);
    assert("font/woff"@.len() == 9);
    assert("font/woff2"@.len() == 10);
    assert("image/jpeg"@.len() == 10);
    assert("image/png"@.len() == 9);
    assert("image/gif"@.len() == 9);
    assert("image/webp"@.len() == 10);
    assert("image/bmp"@.len() == 9);
    assert("image/svg+xml"@.len() == 13);
    assert("application/pdf"@.len() == 15);
    assert("text/plain"@.len() == 10);
    assert("font/ttf"@[5] != "font/otf"@[5]);
    assert("application/x-truetype-font"@[12] != "application/vnd.ms-opentype"@[12]);
    assert("font/woff"@[0] != "image/png"@[0]);
    assert("font/woff"@[0] != "image/gif"@[0]);
    assert("font/woff"@[0] != "image/bmp"@[0]);
    assert("font/woff2"@[0] != "image/jpeg"@[0]);
    assert("font/woff2"@[0] != "image/webp"@[0]);
    assert("font/woff2"@[0] != "text/plain"@[0]);
    assert("image/jpeg"@[6] != "image/webp"@[6]);
    assert("image/jpeg"@[0] != "text/plain"@[0]);
    assert("image/png"@[6] != "image/gif"@[6]);
    assert("image/png"@[6] != "image/bmp"@[6]);
    assert("image/gif"@[6] != "image/bmp"@[6]);
    assert("image/webp"@[0] != "text/plain"@[0]);
}

/// An attachment with neither a file name that has an extension nor a MIME
/// type goes into `bin`.
pub proof fn an_attachment_that_says_nothing_is_bin(style: Style, stream: StreamInfo)
    requires
        stream.medium == MediaType::Attachment,
        forall|i: int|
            0 <= i < stream.filename_tags@.len() ==> (#[trigger] stream.filename_tags@[i]
                matches Some(n) ==> extension_of(style, n@) is None),
        forall|i: int|
            0 <= i < stream.mimetype_tags@.len() ==> (#[trigger] stream.mimetype_tags@[i]) is None,
    ensures
        suffix_for(style, stream) == "bin"@,
{
    no_extension_is_found(style, stream.filename_tags@);
    none_present(stream.mimetype_tags@);
}

/// What is said about the suffix of a stream's file.
#[derive(Clone, Copy, Debug, PartialEq, Eq, Structural)]
pub enum Topic {
    /// A file name that the attachment has.
    FileName,
    /// The extension of that, which is shown in lower case.
    Extension,
    /// The MIME type that the attachment has.
    MimeType,
    /// That the MIME type is not a known one.
    UnknownMimeType,
    /// The suffix that the MIME type leads to.
    SuffixOfMimeType,
    /// That nothing leads to a suffix.
    NoSuffix,
    /// The suffix.
    Suffix,
}

impl Topic {
    /// The words in front.
    pub open spec fn spec_words(self) -> Seq<char> {
        match self {
            Topic::FileName => "  文件名: "@,
            Topic::Extension => "  从文件名提取扩展名: "@,
            Topic::MimeType => "  MIME类型: "@,
            Topic::UnknownMimeType => "  未知的 MIME type: "@,
            Topic::SuffixOfMimeType => "  从 MIME type 推断扩展名: "@,
            Topic::NoSuffix => "  无法确定附件扩展名，使用 .bin"@,
            Topic::Suffix => "file_suffix: "@,
        }
    }

    /// The words in front.
    pub fn words(self) -> (r: &'static str)
        ensures
            r@ == self.spec_words(),
    {
        match self {
            Topic::FileName => "  文件名: ",
            Topic::Extension => "  从文件名提取扩展名: ",
            Topic::MimeType => "  MIME类型: ",
            Topic::UnknownMimeType => "  未知的 MIME type: ",
            Topic::SuffixOfMimeType => "  从 MIME type 推断扩展名: ",
            Topic::NoSuffix => "  无法确定附件扩展名，使用 .bin",
            Topic::Suffix => "file_suffix: ",
        }
    }

    /// Whether it is said as a warning.
    pub fn is_warning(self) -> (r: bool)
        ensures
            r == (self == Topic::UnknownMimeType || self == Topic::NoSuffix),
    {
        match self {
            Topic::UnknownMimeType | Topic::NoSuffix => true,
            _ => false,
        }
    }
}

/// One thing that is said: what about, and what stands behind the words.
#[derive(Debug, PartialEq, Eq)]
pub struct Note {
    pub topic: Topic,
    pub text: String,
}

/// What is said of the MIME type of an attachment whose file names have no
/// extension.
pub open spec fn mime_notes(mimes: Seq<Option<String>>) -> Seq<(Topic, Seq<char>)> {
    match first_present(mimes) {
        Some(mime) => seq![(Topic::MimeType, mime)] + (if mime_suffix(mime) == "bin"@ {
            seq![(Topic::UnknownMimeType, mime)]
        } else {
            Seq::empty()
        }) + seq![(Topic::SuffixOfMimeType, mime_suffix(mime))],
        None => seq![(Topic::NoSuffix, ""@)],
    }
}

/// What is said of an attachment: its file names up to the first that has an
/// extension, with that; else its MIME type.
pub open spec fn attachment_notes(
    style: Style,
    names: Seq<Option<String>>,
    mimes: Seq<Option<String>>,
) -> Seq<(Topic, Seq<char>)>
    decreases names.len(),
{
    if names.len() == 0 {
        mime_notes(mimes)
    } else {
        match names[0] {
            Some(name) => seq![(Topic::FileName, name@)] + match extension_of(style, name@) {
                Some(ext) => seq![(Topic::Extension, ext)],
                None => attachment_notes(style, names.drop_first(), mimes),
            },
            None => attachment_notes(style, names.drop_first(), mimes),
        }
    }
}

/// What is said about the suffix of the stream's file, which is given in
/// quotes at the end.
pub open spec fn notes_on(style: Style, stream: StreamInfo) -> Seq<(Topic, Seq<char>)> {
    (if stream.medium == MediaType::Attachment {
        attachment_notes(style, stream.filename_tags@, stream.mimetype_tags@)
    } else {
        Seq::empty()
    }) + seq![(Topic::Suffix, seq!['"'] + suffix_for(style, stream) + seq!['"'])]
}

/// The things said, with the texts as sequences.
pub open spec fn said(notes: Seq<Note>) -> Seq<(Topic, Seq<char>)> {
    notes.map_values(|note: Note| (note.topic, note.text@))
}

/// Adds a thing to those said.
fn say(notes: &mut Vec<Note>, topic: Topic, text: &str)
    ensures
        said(final(notes)@) == said(old(notes)@).push((topic, text@)),
{
    notes.push(Note { topic, text: text.to_string() });
    assert(said(notes@) =~= said(old(notes)@).push((topic, text@)));
}

fn say_of_mimetype(notes: &mut Vec<Note>, mimes: &Vec<Option<String>>)
    ensures
        said(final(notes)@) == said(old(notes)@) + mime_notes(mimes@),
{
    let ghost front = said(notes@);
    let mut j: usize = 0;
    assert(mimes@.skip(0) =~= mimes@);
    while j < mimes.len()
        invariant
            j <= mimes@.len(),
            said(notes@) == front,
            front == said(old(notes)@),
            first_present(mimes@.skip(j as int)) == first_present(mimes@),
        decreases mimes@.len() - j,
    {
        assert(mimes@.skip(j as int).drop_first() =~= mimes@.skip(j + 1));
        if let Some(mime) = &mimes[j] {
            let suffix: &'static str = container_for_mimetype(mime.as_str());
            say(notes, Topic::MimeType, mime.as_str());
            if same_text(suffix, "bin") {
                say(notes, Topic::UnknownMimeType, mime.as_str());
            }
            say(notes, Topic::SuffixOfMimeType, suffix);
            assert(said(notes@) =~= front + mime_notes(mimes@));
            return ;
        }
        j += 1;
    }
    say(notes, Topic::NoSuffix, "");
    assert(said(notes@) =~= front + mime_notes(mimes@));
}

fn say_of_attachment(
    notes: &mut Vec<Note>,
    style: Style,
    names: &Vec<Option<String>>,
    mimes: &Vec<Option<String>>,
)
    ensures
        said(final(notes)@) == said(old(notes)@) + attachment_notes(style, names@, mimes@),
{
    let mut i: usize = 0;
    assert(names@.skip(0) =~= names@);
    while i < names.len()
        invariant
            i <= names@.len(),
            said(notes@) + attachment_notes(style, names@.skip(i as int), mimes@) == said(
                old(notes)@,
            ) + attachment_notes(style, names@, mimes@),
        decreases names@.len() - i,
    {
        let ghost before = said(notes@);
        let ghost rest = attachment_notes(style, names@.skip(i + 1), mimes@);
        assert(names@.skip(i as int).drop_first() =~= names@.skip(i + 1));
        if let Some(name) = &names[i] {
            say(notes, Topic::FileName, name.as_str());
            if let Some(ext) = extension(style, name.as_str()) {
                say(notes, Topic::Extension, ext);
                assert(said(notes@) =~= before + attachment_notes(
                    style,
                    names@.skip(i as int),
                    mimes@,
                ));
                return ;
            }
            assert(said(notes@) + rest =~= before + attachment_notes(
                style,
                names@.skip(i as int),
                mimes@,
            ));
        }
        i += 1;
    }
    assert(names@.skip(i as int) =~= Seq::empty());
    say_of_mimetype(notes, mimes);
}

/// What is said about the suffix of the stream's file.
pub fn suffix_notes(style: Style, stream: &StreamInfo) -> (r: Vec<Note>)
    ensures
        said(r@) == notes_on(style, *stream),
{
    let mut notes: Vec<Note> = Vec::new();
    assert(said(notes@) =~= Seq::empty());
    if stream.medium == MediaType::Attachment {
        say_of_attachment(&mut notes, style, &stream.filename_tags, &stream.mimetype_tags);
    }
    proof {
        reveal_strlit("\"");
        assert("\""@ =~= seq!['"']);
    }
    let mut quoted: String = "\"".to_string();
    quoted.append(get_best_container_for_codec(style, stream));
    quoted.append("\"");
    say(&mut notes, Topic::Suffix, quoted.as_str());
    assert(said(notes@) =~= notes_on(style, *stream));
    notes
}

/// The texts that are there, in order.
pub open spec fn present(tags: Seq<Option<String>>) -> Seq<Seq<char>>
    decreases tags.len(),
{
    if tags.len() == 0 {
        Seq::empty()
    } else {
        (if tags[0] is Some {
            seq![tags[0]->0@]
        } else {
            Seq::empty()
        }) + present(tags.drop_first())
    }
}

/// Saying that these are file names.
pub open spec fn as_file_names(texts: Seq<Seq<char>>) -> Seq<(Topic, Seq<char>)> {
    texts.map_values(|text: Seq<char>| (Topic::FileName, text))
}

proof fn names_are_told(style: Style, names: Seq<Option<String>>, mimes: Seq<Option<String>>)
    requires
        forall|i: int|
            0 <= i < names.len() ==> (#[trigger] names[i] matches Some(n) ==> extension_of(
                style,
                n@,
            ) is None),
    ensures
        attachment_notes(style, names, mimes) == as_file_names(present(names)) + mime_notes(mimes),
    decreases names.len(),
{
    if names.len() == 0 {
        assert(as_file_names(present(names)) + mime_notes(mimes) =~= mime_notes(mimes));
    } else {
        let rest = names.drop_first();
        assert(names[0] matches Some(n) ==> extension_of(style, n@) is None);
        assert forall|i: int| 0 <= i < rest.len() implies (#[trigger] rest[i] matches Some(n)
            ==> extension_of(style, n@) is None) by {
            assert(rest[i] == names[i + 1]);
        }
        names_are_told(style, rest, mimes);
        assert(attachment_notes(style, names, mimes) =~= as_file_names(present(names))
            + mime_notes(mimes));
    }
}

proof fn extension_is_told(
    style: Style,
    names: Seq<Option<String>>,
    mimes: Seq<Option<String>>,
    at: int,
)
    requires
        0 <= at < names.len(),
        names[at] is Some,
        extension_of(style, names[at]->0@) is Some,
        forall|i: int|
            0 <= i < at ==> (#[trigger] names[i] matches Some(n) ==> extension_of(style, n@)
                is None),
    ensures
        attachment_notes(style, names, mimes) == as_file_names(present(names.take(at + 1))).push(
            (Topic::Extension, extension_of(style, names[at]->0@)->0),
        ),
    decreases at,
{
    let told = names.take(at + 1);
    let rest = names.drop_first();
    assert(told.drop_first() =~= rest.take(at));
    if at == 0 {
        assert(rest.take(0) =~= Seq::empty());
        assert(present(told) =~= seq![names[0]->0@]);
    } else {
        assert(names[0] matches Some(n) ==> extension_of(style, n@) is None);
        assert forall|i: int| 0 <= i < at - 1 implies (#[trigger] rest[i] matches Some(n)
            ==> extension_of(style, n@) is None) by {
            assert(rest[i] == names[i + 1]);
        }
        extension_is_told(style, rest, mimes, at - 1);
    }
    assert(attachment_notes(style, names, mimes) =~= as_file_names(present(told)).push(
        (Topic::Extension, extension_of(style, names[at]->0@)->0),
    ));
}

/// Whatever the stream, the last thing said is its suffix in quotes, and for a
/// stream that is no attachment it is the only one.
pub proof fn the_suffix_is_told_last(style: Style, stream: StreamInfo)
    ensures
        notes_on(style, stream).len() > 0,
        notes_on(style, stream).last() == (Topic::Suffix, seq!['"'] + suffix_for(style, stream)
            + seq!['"']),
        stream.medium != MediaType::Attachment ==> notes_on(style, stream).len() == 1,
{
}

/// Of an attachment whose file name at `at` is the first with an extension,
/// the file names up to that are told, then the extension, and no MIME type.
pub proof fn an_extension_is_told(style: Style, stream: StreamInfo, at: int, ext: Seq<char>)
    requires
        stream.medium == MediaType::Attachment,
        0 <= at < stream.filename_tags@.len(),
        stream.filename_tags@[at] matches Some(n) && extension_of(style, n@) == Some(ext),
        forall|i: int|
            0 <= i < at ==> (#[trigger] stream.filename_tags@[i] matches Some(n) ==> extension_of(
                style,
                n@,
            ) is None),
    ensures
        notes_on(style, stream).drop_last() == as_file_names(
            present(stream.filename_tags@.take(at + 1)),
        ).push((Topic::Extension, ext)),
{
    extension_is_told(style, stream.filename_tags@, stream.mimetype_tags@, at);
    assert(notes_on(style, stream).drop_last() =~= attachment_notes(
        style,
        stream.filename_tags@,
        stream.mimetype_tags@,
    ));
}

/// Of an attachment none of whose file names has an extension all these are
/// told, then the first MIME type that is there, with a warning where that
/// leads to `bin`, and what it leads to; or else, that there is nothing.
pub proof fn a_mime_type_is_told(style: Style, stream: StreamInfo)
    requires
        stream.medium == MediaType::Attachment,
        forall|i: int|
            0 <= i < stream.filename_tags@.len() ==> (#[trigger] stream.filename_tags@[i]
                matches Some(n) ==> extension_of(style, n@) is None),
    ensures
        ({
            let mimes = present(stream.mimetype_tags@);
            let told = as_file_names(present(stream.filename_tags@));
            let suffix = suffix_for(style, stream);
            let notes = notes_on(style, stream).drop_last();
            &&& mimes.len() == 0 ==> notes == told.push((Topic::NoSuffix, ""@))
            &&& mimes.len() > 0 && suffix != "bin"@ ==> notes == told.push(
                (Topic::MimeType, mimes[0]),
            ).push((Topic::SuffixOfMimeType, suffix))
            &&& mimes.len() > 0 && suffix == "bin"@ ==> notes == told.push(
                (Topic::MimeType, mimes[0]),
            ).push((Topic::UnknownMimeType, mimes[0])).push((Topic::SuffixOfMimeType, suffix))
        }),
{
    no_extension_is_found(style, stream.filename_tags@);
    names_are_told(style, stream.filename_tags@, stream.mimetype_tags@);
    first_present_is_the_first(stream.mimetype_tags@);
    let mimes = present(stream.mimetype_tags@);
    let told = as_file_names(present(stream.filename_tags@));
    let suffix = suffix_for(style, stream);
    let notes = notes_on(style, stream).drop_last();
    assert(notes =~= told + mime_notes(stream.mimetype_tags@));
    if mimes.len() == 0 {
        assert(notes =~= told.push((Topic::NoSuffix, ""@)));
    } else if suffix != "bin"@ {
        assert(notes =~= told.push((Topic::MimeType, mimes[0])).push(
            (Topic::SuffixOfMimeType, suffix),
        ));
    } else {
        assert(notes =~= told.push((Topic::MimeType, mimes[0])).push(
            (Topic::UnknownMimeType, mimes[0]),
        ).push((Topic::SuffixOfMimeType, suffix)));
    }
}

proof fn first_present_is_the_first(tags: Seq<Option<String>>)
    ensures
        first_present(tags) == if present(tags).len() == 0 {
            None
        } else {
            Some(present(tags)[0])
        },
    decreases tags.len(),
{
    if tags.len() > 0 {
        first_present_is_the_first(tags.drop_first());
        if tags[0] is None {
            assert(present(tags) =~= present(tags.drop_first()));
        }
    }
}

/// Whether the text can stand behind the last dot of a file name: it is not
/// empty and has no dot and no separator in it.
pub open spec fn is_plain_suffix(s: Seq<char>) -> bool {
    s.len() > 0 && !s.contains('.') && !s.contains('/') && !s.contains('\\')
}

/// Whatever the stream, its suffix is a plain one.
pub proof fn suffix_is_plain(style: Style, stream: StreamInfo)
    ensures
        is_plain_suffix(suffix_for(style, stream)),
{
    reveal_strlit("mp4");
    reveal_strlit("webm");
    reveal_strlit("ogv");
    reveal_strlit("mkv");
    reveal_strlit("m4a");
    reveal_strlit("mp3");
    reveal_strlit("ac3");
    reveal_strlit("eac3");
    reveal_strlit("opus");
    reveal_strlit("flac");
    reveal_strlit("dts");
    reveal_strlit("ogg");
    reveal_strlit("wav");
    reveal_strlit("thd");
    reveal_strlit("wma");
    reveal_strlit("amr");
    reveal_strlit("mka");
    reveal_strlit("ass");
    reveal_strlit("srt");
    reveal_strlit("vtt");
    reveal_strlit("sup");
    reveal_strlit("txt");
    reveal_strlit("sub");
    reveal_strlit("jpg");
    reveal_strlit("ttf");
    reveal_strlit("otf");
    reveal_strlit("woff");
    reveal_strlit("woff2");
    reveal_strlit("png");
    reveal_strlit("gif");
    reveal_strlit("webp");
    reveal_strlit("bmp");
    reveal_strlit("svg");
    reveal_strlit("pdf");
    reveal_strlit("bin");
    reveal_strlit("dat");
}

} // verus!
