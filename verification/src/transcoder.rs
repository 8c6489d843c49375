//! Decoding, filtering and encoding the audio of a file, step by step.
//!
//! The codecs, the filter and the files are driven from outside: a
//! `Transcoder` says what to do next, and is told what came of it.

use vstd::prelude::*;

use crate::failure::Failure;
use crate::media::Rational;

verus! {

/// Where a seek may end.
#[derive(Clone, Copy, Debug, PartialEq, Eq, Structural)]
pub enum SeekRange {
    /// Anywhere up to the place.
    UpToThePlace,
}

/// What is to be done next.
#[derive(Clone, Copy, Debug, PartialEq, Eq, Structural)]
pub enum Action {
    /// Move the position from one unit to the other, and go to that place in
    /// the input, within the range.
    Seek { position: i64, from: Rational, to: Rational, range: SeekRange },
    /// Copy the metadata of the input to the output.
    CopyMetadata,
    /// Write the header of the output.
    WriteHeader,
    /// Read the next packet of the input.
    ReadPacket,
    /// Move the times of the packet just read from one unit to the other, and
    /// send it to the decoder.
    SendPacketToDecoder { from: Rational, to: Rational },
    /// Tell the decoder that there are no more packets.
    SendEofToDecoder,
    /// Ask the decoder for a frame.
    ReceiveDecodedFrame,
    /// Let the frame be shown at its own timestamp, and add it to the filter.
    AddFrameToFilter,
    /// Tell the filter that there are no more frames.
    FlushFilter,
    /// Ask the filter for a frame.
    ReceiveFilteredFrame,
    /// Send the filtered frame to the encoder.
    SendFrameToEncoder,
    /// Tell the encoder that there are no more frames.
    SendEofToEncoder,
    /// Ask the encoder for a packet.
    ReceiveEncodedPacket,
    /// Put the packet into that stream of the output, move its times from one
    /// unit to the other, and write it.
    WriteEncodedPacket { stream: usize, from: Rational, to: Rational },
    /// Write the trailer of the output.
    WriteTrailer,
    /// Nothing: the output is complete.
    Finish,
}

/// What came of an action.
#[derive(Clone, Copy, Debug, PartialEq, Eq, Structural)]
pub enum Answer {
    /// It was done.
    Done,
    /// A packet of this stream was read, with its times in this unit.
    Packet { stream: usize, time_base: Rational },
    /// There was a frame or a packet.
    Received,
    /// There was none.
    Nothing,
}

/// How far the input has been taken.
#[derive(Clone, Copy, Debug, PartialEq, Eq, Structural)]
pub enum Phase {
    /// Packets are being read.
    Reading,
    /// The decoder gives out what it still has.
    DrainingDecoder,
    /// The filter gives out what it still has.
    DrainingFilter,
    /// The encoder gives out what it still has.
    DrainingEncoder,
}

/// The phase and the next action.
#[derive(Clone, Copy, Debug, PartialEq, Eq, Structural)]
pub struct Place {
    pub phase: Phase,
    pub action: Action,
}

/// What is fixed for one transcoding: the stream that is taken, the units in
/// which decoder and output count time, and where to start.
#[derive(Clone, Copy, Debug, PartialEq, Eq)]
pub struct Course {
    pub stream: usize,
    pub in_time_base: Rational,
    pub out_time_base: Rational,
    pub seek: Option<i64>,
}

/// Whether the action can be answered so.
pub open spec fn answers(action: Action, answer: Answer) -> bool {
    match action {
        Action::ReadPacket => answer is Packet || answer is Nothing,
        Action::ReceiveDecodedFrame => answer is Received || answer is Nothing,
        Action::ReceiveFilteredFrame => answer is Received || answer is Nothing,
        Action::ReceiveEncodedPacket => answer is Received || answer is Nothing,
        Action::Finish => false,
        _ => answer is Done,
    }
}

/// The second, in which the user counts time.
pub open spec fn second() -> Rational {
    Rational { numerator: 1, denominator: 1 }
}

/// The microsecond, in which places in a file are counted.
pub open spec fn microsecond() -> Rational {
    Rational { numerator: 1, denominator: 1_000_000 }
}

impl Action {
    /// What the action leads to, where it cannot be done. To ask for something
    /// and get none is no failure.
    pub open spec fn spec_on_failure(self) -> Failure {
        match self {
            Action::CopyMetadata | Action::ReadPacket | Action::ReceiveDecodedFrame
            | Action::ReceiveFilteredFrame | Action::ReceiveEncodedPacket
            | Action::Finish => Failure::PassOver,
            _ => Failure::Panic,
        }
    }

    /// What the action leads to, where it cannot be done.
    pub fn on_failure(&self) -> (r: Failure)
        ensures
            r == self.spec_on_failure(),
    {
        match self {
            Action::CopyMetadata | Action::ReadPacket | Action::ReceiveDecodedFrame
            | Action::ReceiveFilteredFrame | Action::ReceiveEncodedPacket
            | Action::Finish => Failure::PassOver,
            _ => Failure::Panic,
        }
    }
}

impl Course {
    /// How the place to start at is gone to: it is given in seconds.
    pub open spec fn seeking(self, position: i64) -> Action {
        Action::Seek {
            position,
            from: second(),
            to: microsecond(),
            range: SeekRange::UpToThePlace,
        }
    }

    /// Where the transcoding starts.
    pub open spec fn start(self) -> Place {
        Place {
            phase: Phase::Reading,
            action: match self.seek {
                Some(position) => self.seeking(position),
                None => Action::CopyMetadata,
            },
        }
    }

    /// How an encoded packet is written: to the only stream of the output,
    /// with its times in the unit of the output.
    pub open spec fn writing(self) -> Action {
        Action::WriteEncodedPacket { stream: 0, from: self.in_time_base, to: self.out_time_base }
    }

    /// What is done when the encoder has nothing more to give.
    pub open spec fn encoder_empty(self, phase: Phase) -> Place {
        match phase {
            Phase::DrainingEncoder => Place { phase, action: Action::WriteTrailer },
            _ => Place { phase, action: Action::ReceiveFilteredFrame },
        }
    }

    /// What is done when the filter has nothing more to give.
    pub open spec fn filter_empty(self, phase: Phase) -> Place {
        match phase {
            Phase::DrainingFilter => Place {
                phase: Phase::DrainingEncoder,
                action: Action::SendEofToEncoder,
            },
            _ => Place { phase, action: Action::ReceiveDecodedFrame },
        }
    }

    /// What is done when the decoder has nothing more to give.
    pub open spec fn decoder_empty(self, phase: Phase) -> Place {
        match phase {
            Phase::DrainingDecoder => Place {
                phase: Phase::DrainingFilter,
                action: Action::FlushFilter,
            },
            _ => Place { phase, action: Action::ReadPacket },
        }
    }

    /// What is done after an answer.
    pub open spec fn next(self, place: Place, answer: Answer) -> Place {
        let phase = place.phase;
        match place.action {
            Action::Seek { .. } => Place { phase, action: Action::CopyMetadata },
            Action::CopyMetadata => Place { phase, action: Action::WriteHeader },
            Action::WriteHeader => Place { phase, action: Action::ReadPacket },
            Action::ReadPacket => match answer {
                Answer::Packet { stream, time_base } => if stream == self.stream {
                    Place {
                        phase,
                        action: Action::SendPacketToDecoder {
                            from: time_base,
                            to: self.in_time_base,
                        },
                    }
                } else {
                    place
                },
                _ => Place { phase: Phase::DrainingDecoder, action: Action::SendEofToDecoder },
            },
            Action::SendPacketToDecoder { .. } => Place {
                phase,
                action: Action::ReceiveDecodedFrame,
            },
            Action::SendEofToDecoder => Place { phase, action: Action::ReceiveDecodedFrame },
            Action::ReceiveDecodedFrame => if answer is Received {
                Place { phase, action: Action::AddFrameToFilter }
            } else {
                self.decoder_empty(phase)
            },
            Action::AddFrameToFilter => Place { phase, action: Action::ReceiveFilteredFrame },
            Action::FlushFilter => Place { phase, action: Action::ReceiveFilteredFrame },
            Action::ReceiveFilteredFrame => if answer is Received {
                Place { phase, action: Action::SendFrameToEncoder }
            } else {
                self.filter_empty(phase)
            },
            Action::SendFrameToEncoder => Place { phase, action: Action::ReceiveEncodedPacket },
            Action::SendEofToEncoder => Place { phase, action: Action::ReceiveEncodedPacket },
            Action::ReceiveEncodedPacket => if answer is Received {
                Place { phase, action: self.writing() }
            } else {
                self.encoder_empty(phase)
            },
            Action::WriteEncodedPacket { .. } => Place {
                phase,
                action: Action::ReceiveEncodedPacket,
            },
            Action::WriteTrailer => Place { phase, action: Action::Finish },
            Action::Finish => place,
        }
    }
}

/// A transcoding under way.
pub struct Transcoder {
    course: Course,
    phase: Phase,
    action: Action,
}

impl Transcoder {
    /// What is fixed for the transcoding.
    pub closed spec fn spec_course(self) -> Course {
        self.course
    }

    /// Where the transcoding stands.
    pub closed spec fn place(self) -> Place {
        Place { phase: self.phase, action: self.action }
    }

    /// Starts a transcoding.
    pub fn new(course: Course) -> (r: Transcoder)
        ensures
            r.spec_course() == course,
            r.place() == course.start(),
    {
        let action: Action = match course.seek {
            Some(position) => Action::Seek {
                position,
                from: Rational { numerator: 1, denominator: 1 },
                to: Rational { numerator: 1, denominator: 1_000_000 },
                range: SeekRange::UpToThePlace,
            },
            None => Action::CopyMetadata,
        };
        Transcoder { course, phase: Phase::Reading, action }
    }

    /// What is to be done next.
    pub fn action(&self) -> (r: Action)
        ensures
            r == self.place().action,
    {
        self.action
    }

    /// Takes note of what came of the last action.
    pub fn advance(&mut self, answer: Answer)
        requires
            answers(old(self).place().action, answer),
        ensures
            final(self).spec_course() == old(self).spec_course(),
            final(self).place() == old(self).spec_course().next(old(self).place(), answer),
    {
        match self.action {
            Action::Seek { .. } => self.action = Action::CopyMetadata,
            Action::CopyMetadata => self.action = Action::WriteHeader,
            Action::WriteHeader => self.action = Action::ReadPacket,
            Action::ReadPacket => self.after_reading(answer),
            Action::SendPacketToDecoder { .. } => self.action = Action::ReceiveDecodedFrame,
            Action::SendEofToDecoder => self.action = Action::ReceiveDecodedFrame,
            Action::ReceiveDecodedFrame => self.receive_and_process_decoded_frames(answer),
            Action::AddFrameToFilter => self.action = Action::ReceiveFilteredFrame,
            Action::FlushFilter => self.action = Action::ReceiveFilteredFrame,
            Action::ReceiveFilteredFrame => self.get_and_process_filtered_frames(answer),
            Action::SendFrameToEncoder => self.action = Action::ReceiveEncodedPacket,
            Action::SendEofToEncoder => self.action = Action::ReceiveEncodedPacket,
            Action::ReceiveEncodedPacket => self.receive_and_process_encoded_packets(answer),
            Action::WriteEncodedPacket { .. } => self.action = Action::ReceiveEncodedPacket,
            Action::WriteTrailer => self.action = Action::Finish,
            Action::Finish => {},
        }
    }

    /// A packet of the stream goes to the decoder, another is passed over;
    /// after the last one the decoder is drained.
    fn after_reading(&mut self, answer: Answer)
        requires
            old(self).place().action == Action::ReadPacket,
            answers(Action::ReadPacket, answer),
        ensures
            final(self).spec_course() == old(self).spec_course(),
            final(self).place() == old(self).spec_course().next(old(self).place(), answer),
    {
        match answer {
            Answer::Packet { stream, time_base } => {
                if stream == self.course.stream {
                    self.action =
                    Action::SendPacketToDecoder { from: time_base, to: self.course.in_time_base };
                }
            },
            _ => {
                self.phase = Phase::DrainingDecoder;
                self.action = Action::SendEofToDecoder;
            },
        }
    }

    /// A decoded frame goes to the filter; after the last one comes the next
    /// packet, or the flushing of the filter.
    fn receive_and_process_decoded_frames(&mut self, answer: Answer)
        requires
            old(self).place().action == Action::ReceiveDecodedFrame,
            answers(Action::ReceiveDecodedFrame, answer),
        ensures
            final(self).spec_course() == old(self).spec_course(),
            final(self).place() == old(self).spec_course().next(old(self).place(), answer),
    {
        match answer {
            Answer::Received => self.action = Action::AddFrameToFilter,
            _ => match self.phase {
                Phase::DrainingDecoder => {
                    self.phase = Phase::DrainingFilter;
                    self.action = Action::FlushFilter;
                },
                _ => self.action = Action::ReadPacket,
            },
        }
    }

    /// A filtered frame goes to the encoder; after the last one comes the next
    /// decoded frame, or the draining of the encoder.
    fn get_and_process_filtered_frames(&mut self, answer: Answer)
        requires
            old(self).place().action == Action::ReceiveFilteredFrame,
            answers(Action::ReceiveFilteredFrame, answer),
        ensures
            final(self).spec_course() == old(self).spec_course(),
            final(self).place() == old(self).spec_course().next(old(self).place(), answer),
    {
        match answer {
            Answer::Received => self.action = Action::SendFrameToEncoder,
            _ => match self.phase {
                Phase::DrainingFilter => {
                    self.phase = Phase::DrainingEncoder;
                    self.action = Action::SendEofToEncoder;
                },
                _ => self.action = Action::ReceiveDecodedFrame,
            },
        }
    }

    /// An encoded packet is written; after the last one comes the next
    /// filtered frame, or the trailer.
    fn receive_and_process_encoded_packets(&mut self, answer: Answer)
        requires
            old(self).place().action == Action::ReceiveEncodedPacket,
            answers(Action::ReceiveEncodedPacket, answer),
        ensures
            final(self).spec_course() == old(self).spec_course(),
            final(self).place() == old(self).spec_course().next(old(self).place(), answer),
    {
        match answer {
            Answer::Received => self.action =
            Action::WriteEncodedPacket {
                stream: 0,
                from: self.course.in_time_base,
                to: self.course.out_time_base,
            },
            _ => match self.phase {
                Phase::DrainingEncoder => self.action = Action::WriteTrailer,
                _ => self.action = Action::ReceiveFilteredFrame,
            },
        }
    }
}

/// A failure is passed over just where something is asked for, where nothing
/// can fail, and at the end; anywhere else it is a panic.
pub proof fn what_must_be_done_panics(action: Action)
    ensures
        action == Action::CopyMetadata || action == Action::ReadPacket || action
            == Action::ReceiveDecodedFrame || action == Action::ReceiveFilteredFrame || action
            == Action::ReceiveEncodedPacket || action == Action::Finish
            <==> action.spec_on_failure() == Failure::PassOver,
        action is Seek || action is WriteHeader || action is SendPacketToDecoder || action
            is SendEofToDecoder || action is AddFrameToFilter || action is FlushFilter || action
            is SendFrameToEncoder || action is SendEofToEncoder || action is WriteEncodedPacket
            || action is WriteTrailer <==> action.spec_on_failure() == Failure::Panic,
{
}

} // verus!
