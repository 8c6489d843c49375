use media_tool::callbacks::{
    interrupt_callback, read_reply, seek_reply, self_read_packet, self_seek, self_seek_for_output,
    self_write_packet, SeekTarget, AVERROR_EOF, SEEK_CUR, SEEK_END, SEEK_SET,
};
use media_tool::failure::Failure;
use media_tool::format_context::{
    after_input_step, after_output_step, close_steps, first_output_step, input_options, is_done,
    output_options, AVFormatContextWrapper, CloseStep, InputStep, Opened, OutputStep,
    OutputWithCustomIO, Release, ReleaseStep, Verdict, BUFFER_SIZE,
};

fn open_input(bad: Option<InputStep>) -> Result<Vec<InputStep>, Vec<Release>> {
    let mut step = InputStep::AllocContext;
    let mut taken = vec![];
    loop {
        taken.push(step);
        match after_input_step(step, Some(step) != bad) {
            Verdict::Next(next) => step = next,
            Verdict::Ready => return Ok(taken),
            Verdict::GiveUp(list) => return Err(list),
        }
    }
}

fn open_output(bad: Option<OutputStep>) -> Result<Vec<OutputStep>, Vec<Release>> {
    let mut step = first_output_step("a.mp4").unwrap();
    let mut taken = vec![];
    loop {
        taken.push(step);
        match after_output_step(step, Some(step) != bad) {
            Verdict::Next(next) => step = next,
            Verdict::Ready => return Ok(taken),
            Verdict::GiveUp(list) => return Err(list),
        }
    }
}

#[test]
fn an_input_opens_if_all_goes_well() {
    let steps = vec![
        InputStep::AllocContext,
        InputStep::AllocBuffer,
        InputStep::MakeDirectory,
        InputStep::OpenFile,
        InputStep::AllocIo,
        InputStep::OpenInput,
        InputStep::FindStreamInfo,
    ];
    assert_eq!(open_input(None), Ok(steps.clone()));
    assert_eq!(open_input(Some(InputStep::MakeDirectory)), Ok(steps));
}

#[test]
fn an_input_that_does_not_open_is_given_back() {
    let all = vec![Release::Buffer, Release::Context, Release::File];
    assert_eq!(open_input(Some(InputStep::AllocBuffer)), Err(vec![]));
    assert_eq!(open_input(Some(InputStep::OpenFile)), Err(vec![]));
    assert_eq!(open_input(Some(InputStep::AllocIo)), Err(all.clone()));
    assert_eq!(open_input(Some(InputStep::OpenInput)), Err(all.clone()));
    assert_eq!(open_input(Some(InputStep::FindStreamInfo)), Err(all));
}

#[test]
fn an_output_opens_if_all_goes_well() {
    let steps = vec![
        OutputStep::AllocBuffer,
        OutputStep::MakeDirectory,
        OutputStep::CreateFile,
        OutputStep::AllocContext,
        OutputStep::AllocIo,
        OutputStep::SetFlags,
    ];
    assert_eq!(open_output(None), Ok(steps.clone()));
    assert_eq!(open_output(Some(OutputStep::MakeDirectory)), Ok(steps));
    assert_eq!(first_output_step("a\0b"), None);
}

#[test]
fn an_output_that_does_not_open_is_given_back() {
    assert_eq!(open_output(Some(OutputStep::AllocBuffer)), Err(vec![]));
    assert_eq!(
        open_output(Some(OutputStep::AllocContext)),
        Err(vec![Release::Context, Release::File, Release::Buffer])
    );
    assert_eq!(
        open_output(Some(OutputStep::AllocIo)),
        Err(vec![Release::Buffer, Release::Context, Release::File])
    );
}

#[test]
fn a_demuxer_is_set_to_bear_with_a_lot() {
    let options = input_options();
    assert_eq!(options.error_recognition, 0);
    assert_eq!(options.max_analyze_duration, 3_000_000);
    assert_eq!(options.probe_size, 5_000_000);
    assert!(options.generate_pts);
    assert_eq!(BUFFER_SIZE, 4 * 1024);
    assert!(is_done(0) && is_done(5) && !is_done(-1));
}

#[test]
fn what_was_opened_comes_out_again() {
    type Wrapper = AVFormatContextWrapper<u8, &'static str, &'static str>;
    let both = || Wrapper::new(Opened::Ready(1, "r"), Opened::Ready(2, "w")).unwrap();
    assert_eq!(both().into_input(), (1, "r"));
    assert_eq!(both().into_output(), (2, "w"));
    let mut wrapper = both();
    assert_eq!(
        wrapper.drop(),
        (
            Some("r"),
            Some("w"),
            vec![ReleaseStep::DropReader, ReleaseStep::FlushWriter, ReleaseStep::DropWriter]
        )
    );
    assert_eq!(wrapper.avformat_input_wrapper.format_ctx, Some(1));
    assert_eq!(wrapper.avformat_output_wrapper.format_ctx, Some(2));
    assert_eq!(wrapper.drop(), (None, None, vec![]));
    let mut one = Wrapper::new(Opened::Ready(1, "r"), Opened::NotAsked).unwrap();
    assert_eq!(one.drop(), (Some("r"), None, vec![ReleaseStep::DropReader]));
    assert_eq!(ReleaseStep::FlushWriter.on_failure(), Failure::PassOver);
    assert!(Wrapper::new(Opened::Failed, Opened::NotAsked).is_none());
    assert!(Wrapper::new(Opened::Ready(1, "r"), Opened::Failed).is_none());
    assert!(Wrapper::new(Opened::NotAsked, Opened::NotAsked).is_some());
}

#[test]
fn an_output_is_changed_in_place() {
    let mut out = OutputWithCustomIO::new(vec![1], "file");
    out.output_mut().push(2);
    assert_eq!(out.into_parts(), (vec![1, 2], "file"));
}

#[test]
fn an_output_is_closed_from_the_inside_out() {
    assert_eq!(
        close_steps(true),
        vec![
            CloseStep::FlushIo,
            CloseStep::FreeBuffer,
            CloseStep::DetachIo,
            CloseStep::FreeIo,
            CloseStep::DropContext,
            CloseStep::FlushFile,
        ]
    );
    assert_eq!(close_steps(false), vec![CloseStep::DropContext, CloseStep::FlushFile]);
    assert_eq!(CloseStep::FlushFile.on_failure(), Failure::PassOver);
}

#[test]
fn a_read_is_answered_with_what_came() {
    assert_eq!(AVERROR_EOF, -541478725);
    assert_eq!(self_read_packet(Ok(0)), AVERROR_EOF);
    assert_eq!(self_read_packet(Ok(4096)), 4096);
    assert_eq!(self_read_packet(Err(())), -libc::EIO);
    assert_eq!(read_reply(Err(()), 7), -7);
    assert_eq!(read_reply(Ok(0), 7), AVERROR_EOF);
    assert_eq!(read_reply(Ok(1), 7), 1);
}

#[test]
fn a_write_is_answered_with_what_went() {
    assert_eq!(self_write_packet(Ok(0)), 0);
    assert_eq!(self_write_packet(Ok(17)), 17);
    assert_eq!(self_write_packet(Err(())), -1);
}

#[test]
fn a_seek_counts_from_where_it_is_told() {
    for seek in [self_seek, self_seek_for_output] {
        assert_eq!(seek(5, SEEK_SET), Some(SeekTarget::Start(5)));
        assert_eq!(seek(-5, SEEK_CUR), Some(SeekTarget::Current(-5)));
        assert_eq!(seek(-1, SEEK_END), Some(SeekTarget::End(-1)));
        assert_eq!(seek(-1, SEEK_SET), Some(SeekTarget::Start(u64::MAX)));
        assert_eq!(seek(0, 0x10000), None);
    }
    assert_eq!(seek_reply(Some(99)), 99);
    assert_eq!(seek_reply(None), -1);
    assert_eq!((SEEK_SET, SEEK_CUR, SEEK_END), (libc::SEEK_SET, libc::SEEK_CUR, libc::SEEK_END));
}

#[test]
fn an_output_is_left_to_its_owner() {
    let options = output_options();
    assert!(options.custom_io && options.ignore_index && options.interruptible);
    assert!(input_options().interruptible);
    assert_eq!(interrupt_callback(), 0);
}

#[test]
fn a_failed_step_says_what_went_wrong() {
    let input = |step: InputStep| step.failure_words();
    assert_eq!(input(InputStep::AllocContext), None);
    assert_eq!(input(InputStep::AllocBuffer), Some("Failed to allocate buffer"));
    assert_eq!(input(InputStep::MakeDirectory), None);
    assert_eq!(input(InputStep::OpenFile), None);
    assert_eq!(input(InputStep::AllocIo), Some("Failed to allocate buffer"));
    assert_eq!(input(InputStep::OpenInput), Some("Failed to open input"));
    assert_eq!(input(InputStep::FindStreamInfo), Some("Failed to find stream info"));
    let output = |step: OutputStep| step.failure_words();
    assert_eq!(output(OutputStep::AllocBuffer), Some("Failed to allocate buffer"));
    assert_eq!(output(OutputStep::CreateFile), None);
    assert_eq!(output(OutputStep::AllocContext), Some("Failed to open output"));
    assert_eq!(output(OutputStep::AllocIo), Some("Failed to allocate buffer"));
    assert_eq!(output(OutputStep::SetFlags), None);
}

#[test]
fn a_seek_and_the_reads_after_it_deliver_the_rest_of_the_file() {
    let file: Vec<u8> = (0..100u8).collect();
    for (offset, room) in [(0i64, 7usize), (40, 60), (95, 4096), (100, 5), (500, 5)] {
        let mut at = match self_seek(offset, SEEK_SET) {
            Some(SeekTarget::Start(position)) => position as usize,
            other => panic!("{:?}", other),
        };
        assert_eq!(seek_reply(Some(at as u64)), offset);
        let mut got: Vec<u8> = Vec::new();
        loop {
            let bytes = room.min(file.len().saturating_sub(at));
            let answer = self_read_packet(Ok(bytes));
            if answer == AVERROR_EOF {
                break;
            }
            got.extend_from_slice(&file[at..at + answer as usize]);
            at += bytes;
        }
        assert_eq!(got, file[(offset as usize).min(file.len())..]);
        assert_eq!(self_read_packet(Ok(0)), AVERROR_EOF);
    }
}
