use media_tool::media::{MediaType, Rational, StreamInfo};
use media_tool::packets::{group_packets, sort_packets, PacketTable, PacketTag, ReadPacket};
use media_tool::failure::Failure;
use media_tool::paths::Style;
use media_tool::splitting::SplitRun;
use media_tool::stream_split::{output_path_of, stream_split as split, SplitAction, SplitFile};

fn stream_split(streams: &Vec<StreamInfo>, packets: &Vec<ReadPacket>, output: &str) -> Vec<SplitFile> {
    split(streams, packets, Style::Posix, output)
}

fn stream(index: usize, medium: MediaType, codec: &str) -> StreamInfo {
    StreamInfo {
        index,
        medium,
        codec_name: codec.to_string(),
        codec_id: codec.to_string(),
        width: 0,
        height: 0,
        bit_rate: 0,
        frame_rate: Rational { numerator: 0, denominator: 0 },
        format: 0,
        sample_rate: 0,
        channels: 0,
        duration: 0,
        time_base: Rational { numerator: 1, denominator: 1 },
        metadata: vec![],
        filename_tags: vec![],
        mimetype_tags: vec![],
    }
}

fn packet(stream: usize, medium: MediaType, dts: Option<i64>) -> ReadPacket {
    ReadPacket { stream, medium, dts }
}

#[test]
fn packets_are_grouped_by_kind_and_stream() {
    let packets = vec![
        packet(0, MediaType::Video, Some(5)),
        packet(1, MediaType::Audio, Some(3)),
        packet(0, MediaType::Video, None),
        packet(0, MediaType::Audio, Some(9)),
    ];
    let table = group_packets(&packets);
    assert_eq!(table.count(), 4);
    assert_eq!(
        table.get(MediaType::Video, 0),
        Some(&vec![PacketTag { dts: 5, position: 0 }, PacketTag { dts: 0, position: 2 }])
    );
    assert_eq!(table.get(MediaType::Audio, 1), Some(&vec![PacketTag { dts: 3, position: 1 }]));
    assert_eq!(table.get(MediaType::Audio, 0), Some(&vec![PacketTag { dts: 9, position: 3 }]));
    assert_eq!(table.get(MediaType::Video, 1), None);
    for medium in [MediaType::Subtitle, MediaType::Attachment, MediaType::Data, MediaType::Unknown] {
        assert_eq!(table.get(medium, 0), None);
        let mut other = PacketTable::new();
        other.push(packet(7, medium, Some(-1)));
        assert_eq!(other.get(medium, 7), Some(&vec![PacketTag { dts: -1, position: 0 }]));
        assert_eq!(other.count(), 1);
    }
}

#[test]
fn sorting_agrees_with_the_stable_sort() {
    let mut seed: u64 = 17;
    for n in [0usize, 1, 2, 3, 7, 50, 1000] {
        let mut tags = Vec::new();
        for position in 0..n {
            seed = seed.wrapping_mul(6364136223846793005).wrapping_add(1442695040888963407);
            tags.push(PacketTag { dts: (seed >> 60) as i64 - 8, position });
        }
        let sorted = sort_packets(&tags);
        let mut expected = tags.clone();
        expected.sort_by_key(|t| t.dts);
        assert_eq!(sorted, expected);
    }
}

#[test]
fn each_stream_gets_its_packets_in_decoding_order() {
    let streams = vec![
        stream(0, MediaType::Video, "h264"),
        stream(1, MediaType::Audio, "aac"),
        stream(2, MediaType::Subtitle, "subrip"),
    ];
    let packets = vec![
        packet(0, MediaType::Video, Some(20)),
        packet(1, MediaType::Audio, Some(1)),
        packet(0, MediaType::Video, Some(10)),
        packet(1, MediaType::Audio, Some(1)),
        packet(0, MediaType::Video, None),
        packet(0, MediaType::Video, Some(-5)),
        packet(0, MediaType::Video, Some(0)),
    ];
    let files = stream_split(&streams, &packets, "out/movie.mp4");
    assert_eq!(files.len(), 3);
    assert_eq!(files[0].order, vec![5, 4, 6, 2, 0]);
    assert_eq!(files[1].order, vec![1, 3]);
    assert_eq!(files[2].order, Vec::<usize>::new());
    assert_eq!(files[0].path, "out/movie/Video/h264_0.mp4");
    assert_eq!(files[1].path, "out/movie/Audio/aac_1.m4a");
    assert_eq!(files[2].path, "out/movie/Subtitle/subrip_2.srt");
    for file in &files {
        assert_eq!(file.directory, "out");
    }
    assert_eq!(files[1].stream, 1);
}

#[test]
fn every_packet_is_in_one_file() {
    let kinds = [MediaType::Video, MediaType::Audio, MediaType::Data];
    let streams: Vec<StreamInfo> = (0..3).map(|i| stream(i, kinds[i], "x")).collect();
    let packets: Vec<ReadPacket> =
        (0..100usize).map(|i| packet(i * 7 % 3, kinds[i * 7 % 3], Some((i as i64 * 31) % 17))).collect();
    let files = stream_split(&streams, &packets, "o");
    let mut all: Vec<usize> = files.iter().flat_map(|f| f.order.clone()).collect();
    all.sort();
    assert_eq!(all, (0..100).collect::<Vec<usize>>());
    for (i, file) in files.iter().enumerate() {
        assert!(file.order.iter().all(|p| packets[*p].stream == i));
    }
}

#[test]
fn paths_follow_the_output_that_is_named() {
    let s = stream(4, MediaType::Audio, "flac");
    let table = [
        ("a.mp4", "a/Audio/flac_3.flac"),
        ("/a.mp4", "/a/Audio/flac_3.flac"),
        ("dir/", "dir/Audio/flac_3.flac"),
        ("x/y/z.tar.gz", "x/y/z.tar/Audio/flac_3.flac"),
        ("/", "./output/Audio/flac_3.flac"),
        ("", "./output/Audio/flac_3.flac"),
        ("..", "output/Audio/flac_3.flac"),
        ("x/..", "x/output/Audio/flac_3.flac"),
        (".", "output/Audio/flac_3.flac"),
        (".hidden", ".hidden/Audio/flac_3.flac"),
    ];
    for (output, path) in table {
        assert_eq!(output_path_of(Style::Posix, output, &s, 3), path, "for {:?}", output);
    }
}

#[test]
fn no_two_streams_share_a_path() {
    let streams: Vec<StreamInfo> = (0..120)
        .map(|i| stream(i, MediaType::Video, if i % 2 == 0 { "h264" } else { "h264_1" }))
        .collect();
    let files = stream_split(&streams, &vec![], "out.mkv");
    for i in 0..files.len() {
        for j in 0..i {
            assert_ne!(files[i].path, files[j].path);
        }
    }
}

#[test]
fn a_stream_with_packets_is_written_from_header_to_trailer() {
    let streams = vec![stream(6, MediaType::Audio, "mp3")];
    let packets = vec![
        packet(6, MediaType::Audio, Some(2)),
        packet(6, MediaType::Audio, Some(1)),
    ];
    let files = stream_split(&streams, &packets, "d/n.x");
    assert_eq!(
        files[0].actions(),
        vec![
            SplitAction::MakeDirectory("d".to_string()),
            SplitAction::OpenOutput("d/n/Audio/mp3_0.mp3".to_string()),
            SplitAction::MakeFileDirectory("d/n/Audio".to_string()),
            SplitAction::AddStream(6),
            SplitAction::WriteHeader,
            SplitAction::WritePacket { position: 1, stream: 0 },
            SplitAction::WritePacket { position: 0, stream: 0 },
            SplitAction::WriteTrailer,
        ]
    );
}

#[test]
fn a_stream_without_packets_is_passed_over() {
    let streams = vec![stream(2, MediaType::Data, "bin_data")];
    let packets = vec![packet(2, MediaType::Audio, Some(2)), packet(1, MediaType::Data, None)];
    let files = stream_split(&streams, &packets, "n");
    assert_eq!(
        files[0].actions(),
        vec![SplitAction::MakeDirectory("".to_string()), SplitAction::ReportNoPackets(2)]
    );
}

#[test]
fn failures_are_taken_as_the_action_says() {
    let s = "x".to_string();
    assert_eq!(SplitAction::MakeDirectory(s.clone()).on_failure(), Failure::PassOver);
    assert_eq!(SplitAction::ReportNoPackets(1).on_failure(), Failure::PassOver);
    assert_eq!(SplitAction::OpenOutput(s.clone()).on_failure(), Failure::Panic);
    assert_eq!(
        SplitAction::MakeFileDirectory(s.clone()).on_failure(),
        Failure::Stop { words: "创建输出目录失败", directory: Some(s) }
    );
    let stop = |words| Failure::Stop { words, directory: None };
    assert_eq!(SplitAction::AddStream(1).on_failure(), stop("添加流失败"));
    assert_eq!(SplitAction::WriteHeader.on_failure(), stop("写入文件头失败"));
    assert_eq!(SplitAction::WritePacket { position: 1, stream: 0 }.on_failure(), stop("写入包失败"));
    assert_eq!(SplitAction::WriteTrailer.on_failure(), stop("写入文件尾失败"));
}

#[test]
fn paths_follow_the_output_on_windows() {
    let s = stream(4, MediaType::Audio, "flac");
    let table = [
        ("out\\movie.mkv", "out\\movie/Audio/flac_3.flac"),
        ("a.mp4", "a/Audio/flac_3.flac"),
        ("C:\\v\\m.mp4", "C:\\v\\m/Audio/flac_3.flac"),
        ("C:m.mp4", "C:m/Audio/flac_3.flac"),
        ("C:\\", ".\\output/Audio/flac_3.flac"),
        ("\\\\?\\C:\\v\\m.mp4", "\\\\?\\C:\\v\\m\\Audio\\flac_3.flac"),
    ];
    for (output, path) in table {
        assert_eq!(output_path_of(Style::Windows, output, &s, 3), path, "for {:?}", output);
    }
    let files = split(&vec![s], &vec![], Style::Windows, "out\\movie.mkv");
    assert_eq!(files[0].directory, "out");
    assert_eq!(files[0].file_directory.as_deref(), Some("out\\movie/Audio"));
}

fn carry_out(files: &Vec<SplitFile>, bad: Option<usize>) -> (Vec<String>, Option<Failure>) {
    let mut run = SplitRun::new(files);
    let mut tried = vec![];
    while let Some(action) = run.action() {
        tried.push(format!("{:?}", action));
        let failure = run.advance(Some(tried.len() - 1) != bad);
        if failure.is_some() {
            assert_eq!(run.action(), None);
            return (tried, failure);
        }
    }
    (tried, None)
}

#[test]
fn a_split_is_done_file_after_file_until_something_fails() {
    let streams = vec![
        stream(0, MediaType::Audio, "mp3"),
        stream(1, MediaType::Data, "d"),
        stream(2, MediaType::Audio, "aac"),
    ];
    let packets = vec![packet(0, MediaType::Audio, Some(1)), packet(2, MediaType::Audio, None)];
    let files = stream_split(&streams, &packets, "o/n.x");
    let all: Vec<SplitAction> = files.iter().flat_map(|f| f.actions()).collect();
    let shown: Vec<String> = all.iter().map(|a| format!("{:?}", a)).collect();
    assert_eq!(shown.len(), 7 + 2 + 7);
    assert_eq!(carry_out(&files, None), (shown.clone(), None));
    for (n, action) in all.iter().enumerate() {
        let failure = action.on_failure();
        if failure == Failure::PassOver {
            assert_eq!(carry_out(&files, Some(n)), (shown.clone(), None));
        } else {
            assert_eq!(carry_out(&files, Some(n)), (shown[..n + 1].to_vec(), Some(failure)));
        }
    }
    assert_eq!(SplitRun::new(&vec![]).action(), None);
}
