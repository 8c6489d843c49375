use media_tool::media::{MediaType, Rational};
use media_tool::session::{
    auto_pan_swirl, method_named, mono_to_stereo, prepare, transcode_audio, unknown_method_words,
    AfterAnalysis, Method, Source,
};
use media_tool::setup::{
    course as course_for, filter, select_audio_stream, setup_failure_words, source_args_of, transcoder,
    DecoderInfo, EncoderInfo, EncoderOffer, GraphStep, Layout, SetupError, SourceInfo, StreamKind,
};
use media_tool::failure::Failure;
use media_tool::transcoder::{Action, Answer, Course, SeekRange, Transcoder};

fn unit(numerator: i32, denominator: i32) -> Rational {
    Rational { numerator, denominator }
}

fn course(seek: Option<i64>) -> Course {
    Course { stream: 1, in_time_base: unit(1, 1000), out_time_base: unit(1, 48000), seek }
}

fn decoder() -> DecoderInfo {
    DecoderInfo {
        time_base: unit(1, 44100),
        rate: 44100,
        bit_rate: 128_000,
        max_bit_rate: 256_000,
    }
}

fn source() -> SourceInfo {
    SourceInfo {
        time_base: unit(1, 44100),
        rate: 44100,
        format_name: "fltp".to_string(),
        channel_layout: 3,
    }
}

fn encoder(any_frame_size: Option<bool>) -> EncoderInfo {
    EncoderInfo {
        format_name: "s16".to_string(),
        channel_layout: 4,
        rate: 48000,
        frame_size: 1024,
        any_frame_size,
    }
}

/// Answers every action from the lists, and gives what was done.
fn drive(
    course: Course,
    packets: &[usize],
    decoded: &mut Vec<usize>,
    filtered: &mut Vec<usize>,
    encoded: &mut Vec<usize>,
) -> Vec<Action> {
    let mut transcoder = Transcoder::new(course);
    let mut done = vec![];
    let mut next_packet = 0;
    let (mut d, mut f, mut e) = (0, 0, 0);
    loop {
        let action = transcoder.action();
        done.push(action);
        let answer = match action {
            Action::Finish => return done,
            Action::ReadPacket => {
                if next_packet < packets.len() {
                    next_packet += 1;
                    Answer::Packet { stream: packets[next_packet - 1], time_base: unit(1, 90000) }
                } else {
                    Answer::Nothing
                }
            }
            Action::SendPacketToDecoder { .. } | Action::SendEofToDecoder => {
                d = decoded.pop().unwrap_or(0);
                Answer::Done
            }
            Action::AddFrameToFilter | Action::FlushFilter => {
                f = filtered.pop().unwrap_or(0);
                Answer::Done
            }
            Action::SendFrameToEncoder | Action::SendEofToEncoder => {
                e = encoded.pop().unwrap_or(0);
                Answer::Done
            }
            Action::ReceiveDecodedFrame => take(&mut d),
            Action::ReceiveFilteredFrame => take(&mut f),
            Action::ReceiveEncodedPacket => take(&mut e),
            _ => Answer::Done,
        };
        transcoder.advance(answer);
    }
}

fn take(left: &mut usize) -> Answer {
    if *left > 0 {
        *left -= 1;
        Answer::Received
    } else {
        Answer::Nothing
    }
}

#[test]
fn an_empty_input_is_still_drained() {
    let done = drive(course(Some(30)), &[], &mut vec![], &mut vec![], &mut vec![]);
    assert_eq!(
        done,
        vec![
            Action::Seek {
                position: 30,
                from: unit(1, 1),
                to: unit(1, 1_000_000),
                range: SeekRange::UpToThePlace,
            },
            Action::CopyMetadata,
            Action::WriteHeader,
            Action::ReadPacket,
            Action::SendEofToDecoder,
            Action::ReceiveDecodedFrame,
            Action::FlushFilter,
            Action::ReceiveFilteredFrame,
            Action::SendEofToEncoder,
            Action::ReceiveEncodedPacket,
            Action::WriteTrailer,
            Action::Finish,
        ]
    );
}

#[test]
fn packets_of_other_streams_are_passed_over() {
    let done = drive(course(None), &[0, 2, 1, 0], &mut vec![0, 1], &mut vec![0, 1], &mut vec![0, 1]);
    let write = Action::WriteEncodedPacket { stream: 0, from: unit(1, 1000), to: unit(1, 48000) };
    assert_eq!(
        done,
        vec![
            Action::CopyMetadata,
            Action::WriteHeader,
            Action::ReadPacket,
            Action::ReadPacket,
            Action::ReadPacket,
            Action::SendPacketToDecoder { from: unit(1, 90000), to: unit(1, 1000) },
            Action::ReceiveDecodedFrame,
            Action::AddFrameToFilter,
            Action::ReceiveFilteredFrame,
            Action::SendFrameToEncoder,
            Action::ReceiveEncodedPacket,
            write,
            Action::ReceiveEncodedPacket,
            Action::ReceiveFilteredFrame,
            Action::ReceiveDecodedFrame,
            Action::ReadPacket,
            Action::ReadPacket,
            Action::SendEofToDecoder,
            Action::ReceiveDecodedFrame,
            Action::FlushFilter,
            Action::ReceiveFilteredFrame,
            Action::SendEofToEncoder,
            Action::ReceiveEncodedPacket,
            Action::WriteTrailer,
            Action::Finish,
        ]
    );
}

#[test]
fn nothing_is_lost_between_the_stages() {
    let packets: Vec<usize> = (0..40).map(|i| i % 3).collect();
    let mut decoded: Vec<usize> = (0..14).map(|i| i * 5 % 4).collect();
    let mut filtered: Vec<usize> = (0..60).map(|i| i * 7 % 3).collect();
    let mut encoded: Vec<usize> = (0..90).map(|i| i * 3 % 4).collect();
    let done = drive(course(None), &packets, &mut decoded, &mut filtered, &mut encoded);
    let count = |f: &dyn Fn(&Action) -> bool| done.iter().filter(|a| f(*a)).count();
    let sent = count(&|a| matches!(a, Action::SendPacketToDecoder { .. }));
    assert_eq!(sent, packets.iter().filter(|p| **p == 1).count());
    for i in 0..done.len() {
        if done[i] == Action::AddFrameToFilter {
            assert_eq!(done[i - 1], Action::ReceiveDecodedFrame);
        }
        if done[i] == Action::SendFrameToEncoder {
            assert_eq!(done[i - 1], Action::ReceiveFilteredFrame);
        }
        if matches!(done[i], Action::WriteEncodedPacket { .. }) {
            assert_eq!(done[i - 1], Action::ReceiveEncodedPacket);
        }
    }
    assert_eq!(count(&|a| *a == Action::WriteTrailer), 1);
    assert_eq!(done[done.len() - 1], Action::Finish);
}

#[test]
fn the_best_audio_stream_is_taken_or_the_first() {
    let streams = vec![
        StreamKind { index: 0, medium: MediaType::Video },
        StreamKind { index: 3, medium: MediaType::Audio },
        StreamKind { index: 4, medium: MediaType::Audio },
    ];
    assert_eq!(select_audio_stream(Some(4), &streams), Ok(4));
    assert_eq!(select_audio_stream(None, &streams), Ok(3));
    assert_eq!(select_audio_stream(None, &vec![]), Err(SetupError::NoAudioStream));
    let video = vec![StreamKind { index: 0, medium: MediaType::Video }];
    assert_eq!(select_audio_stream(None, &video), Err(SetupError::NoAudioStream));
    assert_eq!(SetupError::NoAudioStream.message(), "could not find best audio stream");
}

#[test]
fn the_encoder_is_set_for_the_decoder() {
    let offer = EncoderOffer {
        formats: vec!["s16".to_string(), "fltp".to_string()],
        global_header: true,
    };
    let settings = transcoder(&decoder(), Some(&offer)).unwrap();
    assert!(settings.global_header);
    assert_eq!(settings.rate, 44100);
    assert_eq!(settings.layout, Layout::Stereo);
    assert_eq!(settings.format_name, "s16");
    assert_eq!(settings.bit_rate, 128_000);
    assert_eq!(settings.max_bit_rate, 256_000);
    assert_eq!(settings.time_base, unit(1, 44100));
    assert_eq!(transcoder(&decoder(), None).unwrap_err(), SetupError::NoEncoder);
    assert_eq!(SetupError::NoEncoder.message(), "failed to find encoder");
}

#[test]
fn the_source_is_told_what_comes_in() {
    assert_eq!(
        source_args_of(&source()),
        "time_base=1/44100:sample_rate=44100:sample_fmt=fltp:channel_layout=0x3"
    );
    let mut other = source();
    other.time_base = unit(-1, 0);
    other.channel_layout = 0x60f;
    assert_eq!(
        source_args_of(&other),
        "time_base=-1/0:sample_rate=44100:sample_fmt=fltp:channel_layout=0x60f"
    );
}

#[test]
fn the_filter_stands_between_source_and_sink() {
    let mut steps = vec![
        GraphStep::Add { filter: "abuffer", name: "in", args: source_args_of(&source()) },
        GraphStep::Add { filter: "abuffersink", name: "out", args: "".to_string() },
        GraphStep::MatchEncoder {
            name: "out",
            format_name: "s16".to_string(),
            channel_layout: 4,
            rate: 48000,
        },
        GraphStep::Parse { from: "in", to: "out", spec: "anull".to_string() },
        GraphStep::Validate,
        GraphStep::Dump,
    ];
    for any_frame_size in [None, Some(true)] {
        assert_eq!(filter("anull", &source(), &encoder(any_frame_size)), steps);
    }
    steps.push(GraphStep::SetFrameSize { name: "out", size: 1024 });
    assert_eq!(filter("anull", &source(), &encoder(Some(false))), steps);
}

#[test]
fn what_starts_with_http_is_downloaded() {
    for input in ["http://a/b", "https://a/b", "http", "httpx"] {
        let r = prepare(input, None, true);
        assert_eq!(r.source, Source::Download(input.to_string()));
        assert!(r.trace);
    }
    for input in ["a.mp4", "/http", "htt", "HTTP://a", ""] {
        let r = prepare(input, Some("o"), false);
        assert_eq!(r.source, Source::File(input.to_string()));
        assert!(!r.trace);
        assert_eq!(r.output, Some("o".to_string()));
    }
}

#[test]
fn without_an_output_the_media_is_only_analysed() {
    let r = prepare("a.mp4", None, false);
    assert_eq!(r.after_analysis("a.mp4".to_string()), AfterAnalysis::Stop);
    let r = prepare("http://h/a.mp4", Some("o"), false);
    assert_eq!(
        r.after_analysis("a.mp4".to_string()),
        AfterAnalysis::Process { input: "a.mp4".to_string(), output: "o".to_string() }
    );
}

#[test]
fn effects_are_filters() {
    let r = auto_pan_swirl("a", Some("b"), false, Some(3));
    assert_eq!(r.filter, "apulsator=mode=sine:hz=0.5:width=1");
    assert_eq!(r.seek, Some(3));
    assert_eq!(r.preparation.output, Some("b".to_string()));
    assert_eq!(r.failure_words, Some("transcode audio failed"));
    let r = mono_to_stereo("a", None, true, None);
    assert_eq!(r.filter, "pan=stereo|c0=c0|c1=c0");
    assert_eq!(r.seek, None);
    assert!(r.preparation.trace);
    assert_eq!(r.failure_words, Some("transcode audio failed"));
    assert_eq!(transcode_audio("a", None, false, None, None).failure_words, None);
    assert_eq!(transcode_audio("a", None, false, None, None).filter, "anull");
    assert_eq!(transcode_audio("a", None, false, None, Some("volume=2")).filter, "volume=2");
}

#[test]
fn one_method_can_be_called_by_name() {
    assert_eq!(method_named("stream_split"), Some(Method::StreamSplit));
    assert_eq!(method_named("Stream_Split"), None);
    assert_eq!(method_named(""), None);
    assert_eq!(method_named("mono_to_stereo"), None);
    assert_eq!(Method::StreamSplit.failure_words(), "stream split failed");
    assert_eq!(unknown_method_words(), "invalid method");
}

#[test]
fn a_course_counts_in_the_units_of_decoder_and_encoder() {
    let decoder = DecoderInfo {
        time_base: unit(1, 90000),
        rate: 44100,
        bit_rate: 1,
        max_bit_rate: 2,
    };
    let offer = EncoderOffer { formats: vec!["s16".to_string()], global_header: false };
    let settings = transcoder(&decoder, Some(&offer)).unwrap();
    let course = course_for(3, &decoder, &settings, Some(9));
    assert_eq!(
        course,
        Course { stream: 3, in_time_base: unit(1, 90000), out_time_base: unit(1, 44100), seek: Some(9) }
    );
    assert_eq!(setup_failure_words("x"), "failed to create transcoder: x");
}

#[test]
fn what_cannot_be_done_ends_a_transcoding() {
    let (from, to) = (unit(1, 1), unit(1, 2));
    for action in [
        Action::Seek { position: 1, from, to, range: SeekRange::UpToThePlace },
        Action::WriteHeader,
        Action::SendPacketToDecoder { from, to },
        Action::SendEofToDecoder,
        Action::AddFrameToFilter,
        Action::FlushFilter,
        Action::SendFrameToEncoder,
        Action::SendEofToEncoder,
        Action::WriteEncodedPacket { stream: 0, from, to },
        Action::WriteTrailer,
    ] {
        assert_eq!(action.on_failure(), Failure::Panic, "{:?}", action);
    }
    for action in [
        Action::CopyMetadata,
        Action::ReadPacket,
        Action::ReceiveDecodedFrame,
        Action::ReceiveFilteredFrame,
        Action::ReceiveEncodedPacket,
        Action::Finish,
    ] {
        assert_eq!(action.on_failure(), Failure::PassOver, "{:?}", action);
    }
}
