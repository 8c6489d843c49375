//! Opening a media file for reading or writing, and closing it.

use vstd::prelude::*;

use crate::failure::Failure;
use crate::text::has_char;

verus! {

/// The size of the buffer between a file and its demuxer or muxer.
pub const BUFFER_SIZE: usize = 4096;

/// How a demuxer is set before it looks at its file.
#[derive(Clone, Copy, Debug, PartialEq, Eq, Structural)]
pub struct InputOptions {
    /// How strict it is: not at all, at zero.
    pub error_recognition: i32,
    /// How much of the file it looks at, in microseconds.
    pub max_analyze_duration: i64,
    /// How much of the file it looks at, in bytes.
    pub probe_size: i64,
    /// Whether it makes up presentation times that are missing.
    pub generate_pts: bool,
    /// Whether it asks `interrupt_callback` if it is to stop.
    pub interruptible: bool,
}

/// How a demuxer is set before it looks at its file.
pub fn input_options() -> (r: InputOptions)
    ensures
        r == (InputOptions {
            error_recognition: 0,
            max_analyze_duration: 3_000_000,
            probe_size: 5_000_000,
            generate_pts: true,
            interruptible: true,
        }),
{
    InputOptions {
        error_recognition: 0,
        max_analyze_duration: 3_000_000,
        probe_size: 5_000_000,
        generate_pts: true,
        interruptible: true,
    }
}

/// How a muxer is set before it writes its file.
#[derive(Clone, Copy, Debug, PartialEq, Eq, Structural)]
pub struct OutputOptions {
    /// Whether it leaves the file to its owner.
    pub custom_io: bool,
    /// Whether it ignores an index.
    pub ignore_index: bool,
    /// Whether it asks `interrupt_callback` if it is to stop.
    pub interruptible: bool,
}

/// How a muxer is set before it writes its file.
pub fn output_options() -> (r: OutputOptions)
    ensures
        r == (OutputOptions { custom_io: true, ignore_index: true, interruptible: true }),
{
    OutputOptions { custom_io: true, ignore_index: true, interruptible: true }
}

/// Something that is given back when a file cannot be opened.
#[derive(Clone, Copy, Debug, PartialEq, Eq, Structural)]
pub enum Release {
    Buffer,
    Context,
    File,
}

/// A step in opening a file for reading.
#[derive(Clone, Copy, Debug, PartialEq, Eq, Structural)]
pub enum InputStep {
    /// Make a context, and set it as `input_options` says.
    AllocContext,
    /// Make a buffer of `BUFFER_SIZE` bytes.
    AllocBuffer,
    /// Make the directory of the file, and those above it.
    MakeDirectory,
    /// Open the file.
    OpenFile,
    /// Put the buffer between the file and the context.
    AllocIo,
    /// Look at the start of the file.
    OpenInput,
    /// Look at its streams.
    FindStreamInfo,
}

/// A step in opening a file for writing.
#[derive(Clone, Copy, Debug, PartialEq, Eq, Structural)]
pub enum OutputStep {
    /// Make a buffer of `BUFFER_SIZE` bytes.
    AllocBuffer,
    /// Make the directory of the file, and those above it.
    MakeDirectory,
    /// Create the file.
    CreateFile,
    /// Make a context for a file of that name.
    AllocContext,
    /// Put the buffer between the context and the file.
    AllocIo,
    /// Set the context as `output_options` says.
    SetFlags,
}

impl InputStep {
    /// What is said where the step does not go well.
    pub open spec fn spec_failure_words(self) -> Option<Seq<char>> {
        match self {
            InputStep::AllocBuffer | InputStep::AllocIo => Some("Failed to allocate buffer"@),
            InputStep::OpenInput => Some("Failed to open input"@),
            InputStep::FindStreamInfo => Some("Failed to find stream info"@),
            _ => None,
        }
    }

    /// What is said where the step does not go well.
    pub fn failure_words(&self) -> (r: Option<&'static str>)
        ensures
            r.deep_view() == self.spec_failure_words(),
    {
        match self {
            InputStep::AllocBuffer | InputStep::AllocIo => Some("Failed to allocate buffer"),
            InputStep::OpenInput => Some("Failed to open input"),
            InputStep::FindStreamInfo => Some("Failed to find stream info"),
            _ => None,
        }
    }
}

impl OutputStep {
    /// What is said where the step does not go well.
    pub open spec fn spec_failure_words(self) -> Option<Seq<char>> {
        match self {
            OutputStep::AllocBuffer | OutputStep::AllocIo => Some("Failed to allocate buffer"@),
            OutputStep::AllocContext => Some("Failed to open output"@),
            _ => None,
        }
    }

    /// What is said where the step does not go well.
    pub fn failure_words(&self) -> (r: Option<&'static str>)
        ensures
            r.deep_view() == self.spec_failure_words(),
    {
        match self {
            OutputStep::AllocBuffer | OutputStep::AllocIo => Some("Failed to allocate buffer"),
            OutputStep::AllocContext => Some("Failed to open output"),
            _ => None,
        }
    }
}

/// What follows on a step.
#[derive(Debug, PartialEq, Eq)]
pub enum Verdict<S> {
    /// The next step.
    Next(S),
    /// The file is open.
    Ready,
    /// The file cannot be opened; these are given back, in this order.
    GiveUp(Vec<Release>),
}

/// Whether what a call gave back says that it was done: it is not negative.
pub fn is_done(code: i32) -> (r: bool)
    ensures
        r == (code >= 0),
{
    code >= 0
}

/// The step after a step that went well; nothing after the last one.
pub open spec fn input_successor(step: InputStep) -> Option<InputStep> {
    match step {
        InputStep::AllocContext => Some(InputStep::AllocBuffer),
        InputStep::AllocBuffer => Some(InputStep::MakeDirectory),
        InputStep::MakeDirectory => Some(InputStep::OpenFile),
        InputStep::OpenFile => Some(InputStep::AllocIo),
        InputStep::AllocIo => Some(InputStep::OpenInput),
        InputStep::OpenInput => Some(InputStep::FindStreamInfo),
        InputStep::FindStreamInfo => None,
    }
}

/// Whether opening goes on after a step that did not go well.
pub open spec fn input_passes_over(step: InputStep) -> bool {
    step == InputStep::AllocContext || step == InputStep::MakeDirectory
}

/// What is given back where the step does not go well.
pub open spec fn input_releases(step: InputStep) -> Seq<Release> {
    match step {
        InputStep::AllocIo | InputStep::OpenInput | InputStep::FindStreamInfo => seq![
            Release::Buffer,
            Release::Context,
            Release::File,
        ],
        _ => Seq::empty(),
    }
}

/// Whether the verdict is the one on the step.
pub open spec fn is_input_verdict(step: InputStep, done: bool, verdict: Verdict<InputStep>) -> bool {
    if done || input_passes_over(step) {
        match input_successor(step) {
            Some(next) => verdict matches Verdict::Next(s) && s == next,
            None => verdict is Ready,
        }
    } else {
        verdict matches Verdict::GiveUp(list) && list@ == input_releases(step)
    }
}

/// What follows on a step in opening a file for reading, which starts with
/// `InputStep::AllocContext`.
pub fn after_input_step(step: InputStep, done: bool) -> (r: Verdict<InputStep>)
    ensures
        is_input_verdict(step, done, r),
{
    match step {
        InputStep::AllocContext => Verdict::Next(InputStep::AllocBuffer),
        InputStep::AllocBuffer => if done {
            Verdict::Next(InputStep::MakeDirectory)
        } else {
            Verdict::GiveUp(Vec::new())
        },
        InputStep::MakeDirectory => Verdict::Next(InputStep::OpenFile),
        InputStep::OpenFile => if done {
            Verdict::Next(InputStep::AllocIo)
        } else {
            Verdict::GiveUp(Vec::new())
        },
        InputStep::AllocIo => if done {
            Verdict::Next(InputStep::OpenInput)
        } else {
            Verdict::GiveUp(vec![Release::Buffer, Release::Context, Release::File])
        },
        InputStep::OpenInput => if done {
            Verdict::Next(InputStep::FindStreamInfo)
        } else {
            Verdict::GiveUp(vec![Release::Buffer, Release::Context, Release::File])
        },
        InputStep::FindStreamInfo => if done {
            Verdict::Ready
        } else {
            Verdict::GiveUp(vec![Release::Buffer, Release::Context, Release::File])
        },
    }
}

/// The first step in opening a file for writing; nothing, if the path cannot
/// be handed to the muxer, which takes a zero for its end.
pub fn first_output_step(path: &str) -> (r: Option<OutputStep>)
    ensures
        r == if path@.contains('\0') {
            None
        } else {
            Some(OutputStep::AllocBuffer)
        },
{
    if has_char(path, '\0') {
        None
    } else {
        Some(OutputStep::AllocBuffer)
    }
}

/// The step after a step that went well; nothing after the last one.
pub open spec fn output_successor(step: OutputStep) -> Option<OutputStep> {
    match step {
        OutputStep::AllocBuffer => Some(OutputStep::MakeDirectory),
        OutputStep::MakeDirectory => Some(OutputStep::CreateFile),
        OutputStep::CreateFile => Some(OutputStep::AllocContext),
        OutputStep::AllocContext => Some(OutputStep::AllocIo),
        OutputStep::AllocIo => Some(OutputStep::SetFlags),
        OutputStep::SetFlags => None,
    }
}

/// Whether opening goes on after a step that did not go well.
pub open spec fn output_passes_over(step: OutputStep) -> bool {
    step == OutputStep::MakeDirectory || step == OutputStep::SetFlags
}

/// What is given back where the step does not go well.
pub open spec fn output_releases(step: OutputStep) -> Seq<Release> {
    match step {
        OutputStep::AllocContext => seq![Release::Context, Release::File, Release::Buffer],
        OutputStep::AllocIo => seq![Release::Buffer, Release::Context, Release::File],
        _ => Seq::empty(),
    }
}

/// Whether the verdict is the one on the step.
pub open spec fn is_output_verdict(
    step: OutputStep,
    done: bool,
    verdict: Verdict<OutputStep>,
) -> bool {
    if done || output_passes_over(step) {
        match output_successor(step) {
            Some(next) => verdict matches Verdict::Next(s) && s == next,
            None => verdict is Ready,
        }
    } else {
        verdict matches Verdict::GiveUp(list) && list@ == output_releases(step)
    }
}

/// What follows on a step in opening a file for writing. A file that cannot be
/// created is for the caller to fail on.
pub fn after_output_step(step: OutputStep, done: bool) -> (r: Verdict<OutputStep>)
    requires
        step == OutputStep::CreateFile ==> done,
    ensures
        is_output_verdict(step, done, r),
{
    match step {
        OutputStep::AllocBuffer => if done {
            Verdict::Next(OutputStep::MakeDirectory)
        } else {
            Verdict::GiveUp(Vec::new())
        },
        OutputStep::MakeDirectory => Verdict::Next(OutputStep::CreateFile),
        OutputStep::CreateFile => Verdict::Next(OutputStep::AllocContext),
        OutputStep::AllocContext => if done {
            Verdict::Next(OutputStep::AllocIo)
        } else {
            Verdict::GiveUp(vec![Release::Context, Release::File, Release::Buffer])
        },
        OutputStep::AllocIo => if done {
            Verdict::Next(OutputStep::SetFlags)
        } else {
            Verdict::GiveUp(vec![Release::Buffer, Release::Context, Release::File])
        },
        OutputStep::SetFlags => Verdict::Ready,
    }
}

/// How opening a file for reading ends, if each step goes as `done` says:
/// with the file open, or with these things given back.
pub open spec fn input_outcome(step: InputStep, done: spec_fn(InputStep) -> bool) -> Result<
    (),
    Seq<Release>,
>
    decreases
            match step {
                InputStep::AllocContext => 6int,
                InputStep::AllocBuffer => 5,
                InputStep::MakeDirectory => 4,
                InputStep::OpenFile => 3,
                InputStep::AllocIo => 2,
                InputStep::OpenInput => 1,
                InputStep::FindStreamInfo => 0,
            },
{
    if done(step) || input_passes_over(step) {
        match input_successor(step) {
            Some(next) => input_outcome(next, done),
            None => Ok(()),
        }
    } else {
        Err(input_releases(step))
    }
}

/// A file is open for reading just if there is a buffer, the file and what
/// goes between them, and the demuxer understands the file and its streams.
/// Whether a directory could be made does not matter.
pub proof fn input_opens_if_all_goes_well(done: spec_fn(InputStep) -> bool)
    ensures
        input_outcome(InputStep::AllocContext, done) is Ok <==> (done(InputStep::AllocBuffer)
            && done(InputStep::OpenFile) && done(InputStep::AllocIo) && done(InputStep::OpenInput)
            && done(InputStep::FindStreamInfo)),
{
    reveal_with_fuel(input_outcome, 8);
}

/// How opening a file for writing ends, if each step goes as `done` says.
pub open spec fn output_outcome(step: OutputStep, done: spec_fn(OutputStep) -> bool) -> Result<
    (),
    Seq<Release>,
>
    decreases
            match step {
                OutputStep::AllocBuffer => 5int,
                OutputStep::MakeDirectory => 4,
                OutputStep::CreateFile => 3,
                OutputStep::AllocContext => 2,
                OutputStep::AllocIo => 1,
                OutputStep::SetFlags => 0,
            },
{
    if done(step) || output_passes_over(step) {
        match output_successor(step) {
            Some(next) => output_outcome(next, done),
            None => Ok(()),
        }
    } else {
        Err(output_releases(step))
    }
}

/// A file that could be created is open for writing just if there is a buffer,
/// a context and what goes between it and the file.
pub proof fn output_opens_if_all_goes_well(done: spec_fn(OutputStep) -> bool)
    requires
        done(OutputStep::CreateFile),
    ensures
        output_outcome(OutputStep::AllocBuffer, done) is Ok <==> (done(OutputStep::AllocBuffer)
            && done(OutputStep::AllocContext) && done(OutputStep::AllocIo)),
{
    reveal_with_fuel(output_outcome, 7);
}

/// Once a file has been opened, giving up gives back the buffer, the context
/// and the file, each once.
pub proof fn giving_up_gives_everything_back(input: InputStep, output: OutputStep)
    requires
        input == InputStep::AllocIo || input == InputStep::OpenInput || input
            == InputStep::FindStreamInfo,
        output == OutputStep::AllocContext || output == OutputStep::AllocIo,
    ensures
        input_releases(input).no_duplicates(),
        output_releases(output).no_duplicates(),
        forall|r: Release| #[trigger] input_releases(input).contains(r),
        forall|r: Release| #[trigger] output_releases(output).contains(r),
{
    let i = input_releases(input);
    let o = output_releases(output);
    assert forall|r: Release| #[trigger] i.contains(r) by {
        assert(i[0] == Release::Buffer && i[1] == Release::Context && i[2] == Release::File);
    }
    assert forall|r: Release| #[trigger] o.contains(r) by {
        if output == OutputStep::AllocIo {
            assert(o[0] == Release::Buffer && o[1] == Release::Context && o[2] == Release::File);
        } else {
            assert(o[0] == Release::Context && o[1] == Release::File && o[2] == Release::Buffer);
        }
    }
}

/// What came of opening a file in one of the two ways.
pub enum Opened<C, F> {
    /// It was not asked for.
    NotAsked,
    /// The context and the file.
    Ready(C, F),
    /// It could not be opened.
    Failed,
}

/// A step in letting go of the files behind a context.
#[derive(Clone, Copy, Debug, PartialEq, Eq, Structural)]
pub enum ReleaseStep {
    /// Drop the reader.
    DropReader,
    /// Hand what the writer still holds to its file.
    FlushWriter,
    /// Drop the writer.
    DropWriter,
}

impl ReleaseStep {
    /// What the step leads to, where it cannot be done: the next one.
    pub fn on_failure(&self) -> (r: Failure)
        ensures
            r == Failure::PassOver,
    {
        Failure::PassOver
    }
}

/// The steps in letting go of a reader and a writer that may be there: a
/// writer is flushed before it goes.
pub open spec fn release_steps(has_reader: bool, has_writer: bool) -> Seq<ReleaseStep> {
    (if has_reader {
        seq![ReleaseStep::DropReader]
    } else {
        Seq::empty()
    }) + (if has_writer {
        seq![ReleaseStep::FlushWriter, ReleaseStep::DropWriter]
    } else {
        Seq::empty()
    })
}

/// An input that may be open: its context and the file behind it.
pub struct AVFormatInputWrapper<C, R> {
    pub format_ctx: Option<C>,
    pub reader: Option<R>,
}

/// An output that may be open: its context and the file behind it.
pub struct AVFormatOutputWrapper<C, W> {
    pub format_ctx: Option<C>,
    pub writer: Option<W>,
}

/// A media file, open for reading, for writing, or both.
pub struct AVFormatContextWrapper<C, R, W> {
    pub avformat_input_wrapper: AVFormatInputWrapper<C, R>,
    pub avformat_output_wrapper: AVFormatOutputWrapper<C, W>,
}

impl<C, R, W> AVFormatContextWrapper<C, R, W> {
    /// Whether there is a context on each side just where there is a file.
    pub open spec fn is_whole(self) -> bool {
        &&& self.avformat_input_wrapper.format_ctx is Some
            <==> self.avformat_input_wrapper.reader is Some
        &&& self.avformat_output_wrapper.format_ctx is Some
            <==> self.avformat_output_wrapper.writer is Some
    }

    /// The input, if it is open.
    pub open spec fn input(self) -> Option<(C, R)> {
        match (self.avformat_input_wrapper.format_ctx, self.avformat_input_wrapper.reader) {
            (Some(context), Some(reader)) => Some((context, reader)),
            _ => None,
        }
    }

    /// The output, if it is open.
    pub open spec fn output(self) -> Option<(C, W)> {
        match (self.avformat_output_wrapper.format_ctx, self.avformat_output_wrapper.writer) {
            (Some(context), Some(writer)) => Some((context, writer)),
            _ => None,
        }
    }

    /// Puts together what was opened; nothing, if a part that was asked for
    /// could not be.
    pub fn new(input: Opened<C, R>, output: Opened<C, W>) -> (r: Option<Self>)
        ensures
            r is None <==> input is Failed || output is Failed,
            r matches Some(wrapper) ==> {
                &&& wrapper.is_whole()
                &&& wrapper.input() == match input {
                    Opened::Ready(context, reader) => Some((context, reader)),
                    _ => None,
                }
                &&& wrapper.output() == match output {
                    Opened::Ready(context, writer) => Some((context, writer)),
                    _ => None,
                }
            },
    {
        let avformat_input_wrapper: AVFormatInputWrapper<C, R> = match input {
            Opened::Ready(context, reader) => AVFormatInputWrapper {
                format_ctx: Some(context),
                reader: Some(reader),
            },
            Opened::NotAsked => AVFormatInputWrapper { format_ctx: None, reader: None },
            Opened::Failed => {
                return None;
            },
        };
        let avformat_output_wrapper: AVFormatOutputWrapper<C, W> = match output {
            Opened::Ready(context, writer) => AVFormatOutputWrapper {
                format_ctx: Some(context),
                writer: Some(writer),
            },
            Opened::NotAsked => AVFormatOutputWrapper { format_ctx: None, writer: None },
            Opened::Failed => {
                return None;
            },
        };
        Some(AVFormatContextWrapper { avformat_input_wrapper, avformat_output_wrapper })
    }

    /// Takes the input out.
    pub fn into_input(self) -> (r: (C, R))
        requires
            self.input() is Some,
        ensures
            Some(r) == self.input(),
    {
        (
            self.avformat_input_wrapper.format_ctx.unwrap(),
            self.avformat_input_wrapper.reader.unwrap(),
        )
    }

    /// Takes the output out.
    pub fn into_output(self) -> (r: (C, W))
        requires
            self.output() is Some,
        ensures
            Some(r) == self.output(),
    {
        (
            self.avformat_output_wrapper.format_ctx.unwrap(),
            self.avformat_output_wrapper.writer.unwrap(),
        )
    }

    /// Lets go of the files: hands out the reader and the writer, and what is
    /// to be done with them, in order. The contexts stay as they are.
    pub fn drop(&mut self) -> (r: (Option<R>, Option<W>, Vec<ReleaseStep>))
        ensures
            r.0 == old(self).avformat_input_wrapper.reader,
            r.1 == old(self).avformat_output_wrapper.writer,
            r.2@ == release_steps(r.0 is Some, r.1 is Some),
            final(self).avformat_input_wrapper.reader is None,
            final(self).avformat_output_wrapper.writer is None,
            final(self).avformat_input_wrapper.format_ctx == old(
                self,
            ).avformat_input_wrapper.format_ctx,
            final(self).avformat_output_wrapper.format_ctx == old(
                self,
            ).avformat_output_wrapper.format_ctx,
    {
        let reader: Option<R> = self.avformat_input_wrapper.reader.take();
        let writer: Option<W> = self.avformat_output_wrapper.writer.take();
        let mut steps: Vec<ReleaseStep> = Vec::new();
        if reader.is_some() {
            steps.push(ReleaseStep::DropReader);
        }
        if writer.is_some() {
            steps.push(ReleaseStep::FlushWriter);
            steps.push(ReleaseStep::DropWriter);
        }
        assert(steps@ =~= release_steps(reader is Some, writer is Some));
        (reader, writer, steps)
    }
}

/// A step in closing an output.
#[derive(Clone, Copy, Debug, PartialEq, Eq, Structural)]
pub enum CloseStep {
    /// Hand what is left in the buffer to the file.
    FlushIo,
    /// Free the buffer.
    FreeBuffer,
    /// Take what stands between context and file out of the context.
    DetachIo,
    /// Free what stood between context and file.
    FreeIo,
    /// Drop the context.
    DropContext,
    /// Flush the file.
    FlushFile,
}

impl CloseStep {
    /// What the step leads to, where it cannot be done: the next one.
    pub fn on_failure(&self) -> (r: Failure)
        ensures
            r == Failure::PassOver,
    {
        Failure::PassOver
    }
}

/// An output together with the file it writes to.
pub struct OutputWithCustomIO<O, W> {
    output: O,
    writer: W,
}

impl<O, W> OutputWithCustomIO<O, W> {
    /// The output.
    pub closed spec fn spec_output(self) -> O {
        self.output
    }

    /// The file.
    pub closed spec fn spec_writer(self) -> W {
        self.writer
    }

    /// Puts an output and its file together.
    pub fn new(output: O, writer: W) -> (r: Self)
        ensures
            r.spec_output() == output,
            r.spec_writer() == writer,
    {
        OutputWithCustomIO { output, writer }
    }

    /// The output, to be changed.
    pub fn output_mut(&mut self) -> (r: &mut O)
        ensures
            *r == old(self).spec_output(),
            final(self).spec_output() == *final(r),
            final(self).spec_writer() == old(self).spec_writer(),
    {
        &mut self.output
    }

    /// Takes the two apart, to be closed as `close_steps` says.
    pub fn into_parts(self) -> (r: (O, W))
        ensures
            r == (self.spec_output(), self.spec_writer()),
    {
        (self.output, self.writer)
    }
}

/// The steps in closing an output, in order: what stands between context and
/// file, if anything does, goes first.
pub fn close_steps(has_io: bool) -> (r: Vec<CloseStep>)
    ensures
        r@ == if has_io {
            seq![
                CloseStep::FlushIo,
                CloseStep::FreeBuffer,
                CloseStep::DetachIo,
                CloseStep::FreeIo,
                CloseStep::DropContext,
                CloseStep::FlushFile,
            ]
        } else {
            seq![CloseStep::DropContext, CloseStep::FlushFile]
        },
{
    let mut r: Vec<CloseStep> = Vec::new();
    if has_io {
        r.push(CloseStep::FlushIo);
        r.push(CloseStep::FreeBuffer);
        r.push(CloseStep::DetachIo);
        r.push(CloseStep::FreeIo);
    }
    r.push(CloseStep::DropContext);
    r.push(CloseStep::FlushFile);
    assert(r@ =~= if has_io {
        seq![
            CloseStep::FlushIo,
            CloseStep::FreeBuffer,
            CloseStep::DetachIo,
            CloseStep::FreeIo,
            CloseStep::DropContext,
            CloseStep::FlushFile,
        ]
    } else {
        seq![CloseStep::DropContext, CloseStep::FlushFile]
    });
    r
}

/// What is let go of is what is there: a reader is dropped, a writer is flushed
/// and, right after that, dropped; each once, and nothing else is done.
pub proof fn a_writer_is_flushed_before_it_goes(has_reader: bool, has_writer: bool)
    ensures
        ({
            let steps = release_steps(has_reader, has_writer);
            &&& steps.contains(ReleaseStep::DropReader) <==> has_reader
            &&& steps.contains(ReleaseStep::FlushWriter) <==> has_writer
            &&& steps.contains(ReleaseStep::DropWriter) <==> has_writer
            &&& steps.no_duplicates()
            &&& forall|k: int|
                0 <= k < steps.len() && #[trigger] steps[k] == ReleaseStep::DropWriter ==> k > 0
                    && steps[k - 1] == ReleaseStep::FlushWriter
        }),
{
    let steps = release_steps(has_reader, has_writer);
    if has_reader {
        assert(steps[0] == ReleaseStep::DropReader);
    }
    if has_writer {
        let n: int = if has_reader {
            1
        } else {
            0
        };
        assert(steps[n] == ReleaseStep::FlushWriter);
        assert(steps[n + 1] == ReleaseStep::DropWriter);
    }
}

} // verus!
