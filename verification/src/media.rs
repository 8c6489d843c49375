//! What the tool knows of the streams of a media file.

use vstd::prelude::*;

verus! {

/// The kinds of stream.
#[derive(Clone, Copy, Debug, PartialEq, Eq, Structural)]
pub enum MediaType {
    Unknown,
    Video,
    Audio,
    Data,
    Subtitle,
    Attachment,
}

impl MediaType {
    /// The name of the kind.
    pub open spec fn spec_name(self) -> Seq<char> {
        match self {
            MediaType::Unknown => "Unknown"@,
            MediaType::Video => "Video"@,
            MediaType::Audio => "Audio"@,
            MediaType::Data => "Data"@,
            MediaType::Subtitle => "Subtitle"@,
            MediaType::Attachment => "Attachment"@,
        }
    }

    /// The name of the kind.
    pub fn name(self) -> (r: &'static str)
        ensures
            r@ == self.spec_name(),
    {
        match self {
            MediaType::Unknown => "Unknown",
            MediaType::Video => "Video",
            MediaType::Audio => "Audio",
            MediaType::Data => "Data",
            MediaType::Subtitle => "Subtitle",
            MediaType::Attachment => "Attachment",
        }
    }
}

/// A fraction, such as the unit in which a stream counts time.
#[derive(Clone, Copy, Debug, PartialEq, Eq, Structural)]
pub struct Rational {
    pub numerator: i32,
    pub denominator: i32,
}

/// One stream of a media file, as far as the tool looks at it.
///
/// `filename_tags` holds what the metadata has under each of the keys of
/// `filename_keys`, in that order, and `mimetype_tags` what it has under each
/// of those of `mimetype_keys`.
#[derive(Debug)]
pub struct StreamInfo {
    pub index: usize,
    pub medium: MediaType,
    pub codec_name: String,
    pub codec_id: String,
    pub width: i32,
    pub height: i32,
    pub bit_rate: i64,
    pub frame_rate: Rational,
    pub format: i32,
    pub sample_rate: i32,
    pub channels: i32,
    pub duration: i64,
    pub time_base: Rational,
    pub metadata: Vec<(String, String)>,
    pub filename_tags: Vec<Option<String>>,
    pub mimetype_tags: Vec<Option<String>>,
}

/// The metadata keys under which an attachment may have its file name.
pub fn filename_keys() -> (r: [&'static str; 4])
    ensures
        r@ =~= seq!["filename", "FILENAME", "file_name", "name"],
{
    ["filename", "FILENAME", "file_name", "name"]
}

/// The metadata keys under which an attachment may have its MIME type.
pub fn mimetype_keys() -> (r: [&'static str; 3])
    ensures
        r@ =~= seq!["mimetype", "MIMETYPE", "mime_type"],
{
    ["mimetype", "MIMETYPE", "mime_type"]
}

/// Each kind has its own name.
pub proof fn kinds_are_named(one: MediaType, two: MediaType)
    ensures
        MediaType::Unknown.spec_name() == "Unknown"@,
        MediaType::Video.spec_name() == "Video"@,
        MediaType::Audio.spec_name() == "Audio"@,
        MediaType::Data.spec_name() == "Data"@,
        MediaType::Subtitle.spec_name() == "Subtitle"@,
        MediaType::Attachment.spec_name() == "Attachment"@,
        one.spec_name() == two.spec_name() ==> one == two,
{
    reveal_strlit("Unknown");
    reveal_strlit("Video");
    reveal_strlit("Audio");
    reveal_strlit("Data");
    reveal_strlit("Subtitle");
    reveal_strlit("Attachment");
    assert("Unknown"@.len() == 7 && "Video"@.len() == 5 && "Audio"@.len() == 5 && "Data"@.len() == 4
        && "Subtitle"@.len() == 8 && "Attachment"@.len() == 10);
    assert("Video"@[0] != "Audio"@[0]);
}

} // verus!
