//! Whole transcodings: what is done from the first action to the last.

use vstd::prelude::*;

use crate::media::Rational;
use crate::transcoder::{answers, Action, Answer, Course, Phase, Place, SeekRange};

verus! {

/// An action and what came of it.
pub struct Exchange {
    pub action: Action,
    pub answer: Answer,
}

/// Where a transcoding stands after a history that starts at a place; nothing,
/// if the history has an action that was not the one to be done, or an answer
/// that the action cannot have.
pub open spec fn after(course: Course, place: Place, history: Seq<Exchange>) -> Option<Place>
    decreases history.len(),
{
    if history.len() == 0 {
        Some(place)
    } else {
        match after(course, place, history.drop_last()) {
            Some(last) => if last.action == history.last().action && answers(
                last.action,
                history.last().answer,
            ) {
                Some(course.next(last, history.last().answer))
            } else {
                None
            },
            None => None,
        }
    }
}

/// A packet of the input, and for each frame that the decoder makes of it, for
/// each frame that the filter makes of that, how many packets the encoder
/// makes.
pub struct PacketRun {
    pub stream: usize,
    pub time_base: Rational,
    pub frames: Seq<Seq<nat>>,
}

/// What the codecs and the filter make of an input: of each packet, of what
/// the decoder has left at the end, of what the filter then has left, and of
/// what the encoder has left at last.
pub struct Run {
    pub packets: Seq<PacketRun>,
    pub last_frames: Seq<Seq<nat>>,
    pub flushed: Seq<nat>,
    pub last_packets: nat,
}

/// One exchange.
pub open spec fn one(action: Action, answer: Answer) -> Seq<Exchange> {
    seq![Exchange { action, answer }]
}

/// Taking packets from the encoder until it has none, and writing each.
pub open spec fn encoding(course: Course, packets: nat) -> Seq<Exchange>
    decreases packets,
{
    if packets == 0 {
        one(Action::ReceiveEncodedPacket, Answer::Nothing)
    } else {
        one(Action::ReceiveEncodedPacket, Answer::Received) + one(course.writing(), Answer::Done)
            + encoding(course, (packets - 1) as nat)
    }
}

/// Taking frames from the filter until it has none, and encoding each.
pub open spec fn filtering(course: Course, frames: Seq<nat>) -> Seq<Exchange>
    decreases frames.len(),
{
    if frames.len() == 0 {
        one(Action::ReceiveFilteredFrame, Answer::Nothing)
    } else {
        one(Action::ReceiveFilteredFrame, Answer::Received) + one(
            Action::SendFrameToEncoder,
            Answer::Done,
        ) + encoding(course, frames[0]) + filtering(course, frames.drop_first())
    }
}

/// Taking frames from the decoder until it has none, and filtering each.
pub open spec fn decoding(course: Course, frames: Seq<Seq<nat>>) -> Seq<Exchange>
    decreases frames.len(),
{
    if frames.len() == 0 {
        one(Action::ReceiveDecodedFrame, Answer::Nothing)
    } else {
        one(Action::ReceiveDecodedFrame, Answer::Received) + one(
            Action::AddFrameToFilter,
            Answer::Done,
        ) + filtering(course, frames[0]) + decoding(course, frames.drop_first())
    }
}

/// What is done with one packet of the input: of the chosen stream, it is
/// decoded; of another, nothing.
pub open spec fn taking(course: Course, packet: PacketRun) -> Seq<Exchange> {
    let read = one(
        Action::ReadPacket,
        Answer::Packet { stream: packet.stream, time_base: packet.time_base },
    );
    if packet.stream == course.stream {
        read + one(
            Action::SendPacketToDecoder { from: packet.time_base, to: course.in_time_base },
            Answer::Done,
        ) + decoding(course, packet.frames)
    } else {
        read
    }
}

/// Reading the packets of the input until there are none.
pub open spec fn reading(course: Course, packets: Seq<PacketRun>) -> Seq<Exchange>
    decreases packets.len(),
{
    if packets.len() == 0 {
        one(Action::ReadPacket, Answer::Nothing)
    } else {
        taking(course, packets[0]) + reading(course, packets.drop_first())
    }
}

/// What comes before the first packet.
pub open spec fn opening(course: Course) -> Seq<Exchange> {
    let header = one(Action::CopyMetadata, Answer::Done) + one(Action::WriteHeader, Answer::Done);
    match course.seek {
        Some(position) => one(course.seeking(position), Answer::Done) + header,
        None => header,
    }
}

/// Draining the encoder, and the trailer.
pub open spec fn encoder_ending(course: Course, last_packets: nat) -> Seq<Exchange> {
    one(Action::SendEofToEncoder, Answer::Done) + (encoding(course, last_packets) + one(
        Action::WriteTrailer,
        Answer::Done,
    ))
}

/// Draining the filter, and what follows.
pub open spec fn filter_ending(course: Course, flushed: Seq<nat>, last_packets: nat) -> Seq<
    Exchange,
> {
    one(Action::FlushFilter, Answer::Done) + (filtering(course, flushed) + encoder_ending(
        course,
        last_packets,
    ))
}

/// Draining the decoder, and what follows.
pub open spec fn decoder_ending(course: Course, run: Run) -> Seq<Exchange> {
    one(Action::SendEofToDecoder, Answer::Done) + (decoding(course, run.last_frames)
        + filter_ending(course, run.flushed, run.last_packets))
}

/// The whole transcoding: the opening, the packets, then the decoder, the
/// filter and the encoder drained one after the other, and the trailer.
pub open spec fn whole(course: Course, run: Run) -> Seq<Exchange> {
    opening(course) + (reading(course, run.packets) + decoder_ending(course, run))
}

/// A history in two parts goes on from where its first part leads.
proof fn after_both(course: Course, place: Place, a: Seq<Exchange>, b: Seq<Exchange>)
    ensures
        after(course, place, a + b) == match after(course, place, a) {
            Some(middle) => after(course, middle, b),
            None => None,
        },
    decreases b.len(),
{
    if b.len() == 0 {
        assert(a + b =~= a);
    } else {
        assert((a + b).drop_last() =~= a + b.drop_last());
        after_both(course, place, a, b.drop_last());
    }
}

/// One exchange leads one step on.
proof fn after_one(course: Course, place: Place, answer: Answer)
    requires
        answers(place.action, answer),
    ensures
        after(course, place, one(place.action, answer)) == Some(course.next(place, answer)),
{
    let h = one(place.action, answer);
    assert(h.drop_last() =~= Seq::<Exchange>::empty());
    assert(after(course, place, h.drop_last()) == Some(place));
}

/// A history that starts with an exchange goes on behind it.
proof fn after_first(course: Course, place: Place, answer: Answer, rest: Seq<Exchange>)
    requires
        answers(place.action, answer),
    ensures
        after(course, place, one(place.action, answer) + rest) == after(
            course,
            course.next(place, answer),
            rest,
        ),
{
    after_one(course, place, answer);
    after_both(course, place, one(place.action, answer), rest);
}

proof fn encoding_leads_on(course: Course, phase: Phase, packets: nat)
    ensures
        after(
            course,
            Place { phase, action: Action::ReceiveEncodedPacket },
            encoding(course, packets),
        ) == Some(course.encoder_empty(phase)),
    decreases packets,
{
    let p = Place { phase, action: Action::ReceiveEncodedPacket };
    if packets == 0 {
        after_one(course, p, Answer::Nothing);
    } else {
        let w = Place { phase, action: course.writing() };
        let less = encoding(course, (packets - 1) as nat);
        encoding_leads_on(course, phase, (packets - 1) as nat);
        after_first(course, w, Answer::Done, less);
        after_first(course, p, Answer::Received, one(course.writing(), Answer::Done) + less);
        assert(encoding(course, packets) =~= one(Action::ReceiveEncodedPacket, Answer::Received) + (
        one(course.writing(), Answer::Done) + less));
    }
}

proof fn filtering_leads_on(course: Course, phase: Phase, frames: Seq<nat>)
    requires
        phase != Phase::DrainingEncoder,
    ensures
        after(
            course,
            Place { phase, action: Action::ReceiveFilteredFrame },
            filtering(course, frames),
        ) == Some(course.filter_empty(phase)),
    decreases frames.len(),
{
    let p = Place { phase, action: Action::ReceiveFilteredFrame };
    if frames.len() == 0 {
        after_one(course, p, Answer::Nothing);
    } else {
        let s = Place { phase, action: Action::SendFrameToEncoder };
        let e = Place { phase, action: Action::ReceiveEncodedPacket };
        let less = filtering(course, frames.drop_first());
        let send = one(Action::SendFrameToEncoder, Answer::Done);
        filtering_leads_on(course, phase, frames.drop_first());
        encoding_leads_on(course, phase, frames[0]);
        after_both(course, e, encoding(course, frames[0]), less);
        after_first(course, s, Answer::Done, encoding(course, frames[0]) + less);
        after_first(course, p, Answer::Received, send + (encoding(course, frames[0]) + less));
        assert(filtering(course, frames) =~= one(Action::ReceiveFilteredFrame, Answer::Received) + (
        send + (encoding(course, frames[0]) + less)));
    }
}

proof fn decoding_leads_on(course: Course, phase: Phase, frames: Seq<Seq<nat>>)
    requires
        phase == Phase::Reading || phase == Phase::DrainingDecoder,
    ensures
        after(
            course,
            Place { phase, action: Action::ReceiveDecodedFrame },
            decoding(course, frames),
        ) == Some(course.decoder_empty(phase)),
    decreases frames.len(),
{
    let p = Place { phase, action: Action::ReceiveDecodedFrame };
    if frames.len() == 0 {
        after_one(course, p, Answer::Nothing);
    } else {
        let s = Place { phase, action: Action::AddFrameToFilter };
        let f = Place { phase, action: Action::ReceiveFilteredFrame };
        let less = decoding(course, frames.drop_first());
        let add = one(Action::AddFrameToFilter, Answer::Done);
        decoding_leads_on(course, phase, frames.drop_first());
        filtering_leads_on(course, phase, frames[0]);
        after_both(course, f, filtering(course, frames[0]), less);
        after_first(course, s, Answer::Done, filtering(course, frames[0]) + less);
        after_first(course, p, Answer::Received, add + (filtering(course, frames[0]) + less));
        assert(decoding(course, frames) =~= one(Action::ReceiveDecodedFrame, Answer::Received) + (
        add + (filtering(course, frames[0]) + less)));
    }
}

proof fn taking_leads_on(course: Course, packet: PacketRun)
    ensures
        after(
            course,
            Place { phase: Phase::Reading, action: Action::ReadPacket },
            taking(course, packet),
        ) == Some(Place { phase: Phase::Reading, action: Action::ReadPacket }),
{
    let p = Place { phase: Phase::Reading, action: Action::ReadPacket };
    let answer = Answer::Packet { stream: packet.stream, time_base: packet.time_base };
    if packet.stream == course.stream {
        let to_decoder = Action::SendPacketToDecoder {
            from: packet.time_base,
            to: course.in_time_base,
        };
        let s = Place { phase: Phase::Reading, action: to_decoder };
        let frames = decoding(course, packet.frames);
        decoding_leads_on(course, Phase::Reading, packet.frames);
        after_first(course, s, Answer::Done, frames);
        after_first(course, p, answer, one(to_decoder, Answer::Done) + frames);
        assert(taking(course, packet) =~= one(Action::ReadPacket, answer) + (one(
            to_decoder,
            Answer::Done,
        ) + frames));
    } else {
        after_one(course, p, answer);
    }
}

proof fn reading_leads_on(course: Course, packets: Seq<PacketRun>)
    ensures
        after(
            course,
            Place { phase: Phase::Reading, action: Action::ReadPacket },
            reading(course, packets),
        ) == Some(
            Place { phase: Phase::DrainingDecoder, action: Action::SendEofToDecoder },
        ),
    decreases packets.len(),
{
    let p = Place { phase: Phase::Reading, action: Action::ReadPacket };
    if packets.len() == 0 {
        after_one(course, p, Answer::Nothing);
    } else {
        taking_leads_on(course, packets[0]);
        reading_leads_on(course, packets.drop_first());
        after_both(
            course,
            p,
            taking(course, packets[0]),
            reading(course, packets.drop_first()),
        );
    }
}

proof fn opening_leads_on(course: Course)
    ensures
        after(course, course.start(), opening(course)) == Some(
            Place { phase: Phase::Reading, action: Action::ReadPacket },
        ),
{
    let phase = Phase::Reading;
    let copy = Place { phase, action: Action::CopyMetadata };
    let head = Place { phase, action: Action::WriteHeader };
    let header = one(Action::CopyMetadata, Answer::Done) + one(Action::WriteHeader, Answer::Done);
    after_one(course, head, Answer::Done);
    after_first(course, copy, Answer::Done, one(Action::WriteHeader, Answer::Done));
    if let Some(position) = course.seek {
        after_first(
            course,
            Place { phase, action: course.seeking(position) },
            Answer::Done,
            header,
        );
    }
}

proof fn encoder_ending_leads_on(course: Course, last_packets: nat)
    ensures
        after(
            course,
            Place { phase: Phase::DrainingEncoder, action: Action::SendEofToEncoder },
            encoder_ending(course, last_packets),
        ) == Some(Place { phase: Phase::DrainingEncoder, action: Action::Finish }),
{
    let phase = Phase::DrainingEncoder;
    let trailer = one(Action::WriteTrailer, Answer::Done);
    let received = Place { phase, action: Action::ReceiveEncodedPacket };
    encoding_leads_on(course, phase, last_packets);
    after_one(course, Place { phase, action: Action::WriteTrailer }, Answer::Done);
    after_both(course, received, encoding(course, last_packets), trailer);
    after_first(
        course,
        Place { phase, action: Action::SendEofToEncoder },
        Answer::Done,
        encoding(course, last_packets) + trailer,
    );
}

proof fn filter_ending_leads_on(course: Course, flushed: Seq<nat>, last_packets: nat)
    ensures
        after(
            course,
            Place { phase: Phase::DrainingFilter, action: Action::FlushFilter },
            filter_ending(course, flushed, last_packets),
        ) == Some(Place { phase: Phase::DrainingEncoder, action: Action::Finish }),
{
    let phase = Phase::DrainingFilter;
    let ending = encoder_ending(course, last_packets);
    let received = Place { phase, action: Action::ReceiveFilteredFrame };
    filtering_leads_on(course, phase, flushed);
    encoder_ending_leads_on(course, last_packets);
    after_both(course, received, filtering(course, flushed), ending);
    after_first(
        course,
        Place { phase, action: Action::FlushFilter },
        Answer::Done,
        filtering(course, flushed) + ending,
    );
}

/// Whatever the codecs and the filter make of an input, the transcoding does
/// all of it in order and comes to its end: the packets, then the decoder, the
/// filter and the encoder drained one after the other, then the trailer.
pub proof fn a_run_is_carried_out(course: Course, run: Run)
    ensures
        after(course, course.start(), whole(course, run)) == Some(
            Place { phase: Phase::DrainingEncoder, action: Action::Finish },
        ),
{
    let phase = Phase::DrainingDecoder;
    let ending = filter_ending(course, run.flushed, run.last_packets);
    let received = Place { phase, action: Action::ReceiveDecodedFrame };
    decoding_leads_on(course, phase, run.last_frames);
    filter_ending_leads_on(course, run.flushed, run.last_packets);
    after_both(course, received, decoding(course, run.last_frames), ending);
    after_first(
        course,
        Place { phase, action: Action::SendEofToDecoder },
        Answer::Done,
        decoding(course, run.last_frames) + ending,
    );
    let first = Place { phase: Phase::Reading, action: Action::ReadPacket };
    reading_leads_on(course, run.packets);
    after_both(course, first, reading(course, run.packets), decoder_ending(course, run));
    opening_leads_on(course);
    after_both(
        course,
        course.start(),
        opening(course),
        reading(course, run.packets) + decoder_ending(course, run),
    );
}

/// Whether the history leads from the place to the end.
pub open spec fn finishes(course: Course, place: Place, history: Seq<Exchange>) -> bool {
    after(course, place, history) matches Some(last) && last.action == Action::Finish
}

/// A history that leads to the end starts with the action to be done.
proof fn first_exchange(course: Course, place: Place, history: Seq<Exchange>)
    requires
        finishes(course, place, history),
        place.action != Action::Finish,
    ensures
        history.len() > 0,
        history[0].action == place.action,
        answers(place.action, history[0].answer),
        history == one(place.action, history[0].answer) + history.drop_first(),
        finishes(course, course.next(place, history[0].answer), history.drop_first()),
{
    assert(history.len() > 0);
    let head = history.take(1);
    assert(head =~= one(history[0].action, history[0].answer));
    assert(history =~= head + history.drop_first());
    after_both(course, place, head, history.drop_first());
    assert(head.drop_last() =~= Seq::<Exchange>::empty());
    assert(after(course, place, head.drop_last()) == Some(place));
}

/// Nothing is done after the end.
proof fn nothing_after_the_end(course: Course, place: Place, history: Seq<Exchange>)
    requires
        place.action == Action::Finish,
        after(course, place, history) is Some,
    ensures
        history.len() == 0,
    decreases history.len(),
{
    if history.len() > 0 {
        nothing_after_the_end(course, place, history.drop_last());
        assert(history.drop_last() =~= Seq::<Exchange>::empty());
    }
}

proof fn parse_encoding(course: Course, phase: Phase, history: Seq<Exchange>) -> (r: (
    nat,
    Seq<Exchange>,
))
    requires
        finishes(course, Place { phase, action: Action::ReceiveEncodedPacket }, history),
    ensures
        history == encoding(course, r.0) + r.1,
        r.1.len() < history.len(),
        finishes(course, course.encoder_empty(phase), r.1),
    decreases history.len(),
{
    let p = Place { phase, action: Action::ReceiveEncodedPacket };
    first_exchange(course, p, history);
    let h1 = history.drop_first();
    if history[0].answer == Answer::Nothing {
        (0, h1)
    } else {
        let w = Place { phase, action: course.writing() };
        first_exchange(course, w, h1);
        let h2 = h1.drop_first();
        let (n, rest) = parse_encoding(course, phase, h2);
        assert(encoding(course, n + 1) =~= one(Action::ReceiveEncodedPacket, Answer::Received)
            + one(course.writing(), Answer::Done) + encoding(course, n));
        assert(history =~= encoding(course, n + 1) + rest);
        (n + 1, rest)
    }
}

proof fn parse_filtering(course: Course, phase: Phase, history: Seq<Exchange>) -> (r: (
    Seq<nat>,
    Seq<Exchange>,
))
    requires
        phase != Phase::DrainingEncoder,
        finishes(course, Place { phase, action: Action::ReceiveFilteredFrame }, history),
    ensures
        history == filtering(course, r.0) + r.1,
        r.1.len() < history.len(),
        finishes(course, course.filter_empty(phase), r.1),
    decreases history.len(),
{
    let p = Place { phase, action: Action::ReceiveFilteredFrame };
    first_exchange(course, p, history);
    let h1 = history.drop_first();
    if history[0].answer == Answer::Nothing {
        (Seq::empty(), h1)
    } else {
        let s = Place { phase, action: Action::SendFrameToEncoder };
        first_exchange(course, s, h1);
        let h2 = h1.drop_first();
        let (n, h3) = parse_encoding(course, phase, h2);
        let (more, rest) = parse_filtering(course, phase, h3);
        let frames = seq![n] + more;
        assert(frames.drop_first() =~= more);
        assert(history =~= filtering(course, frames) + rest);
        (frames, rest)
    }
}

proof fn parse_decoding(course: Course, phase: Phase, history: Seq<Exchange>) -> (r: (
    Seq<Seq<nat>>,
    Seq<Exchange>,
))
    requires
        phase == Phase::Reading || phase == Phase::DrainingDecoder,
        finishes(course, Place { phase, action: Action::ReceiveDecodedFrame }, history),
    ensures
        history == decoding(course, r.0) + r.1,
        r.1.len() < history.len(),
        finishes(course, course.decoder_empty(phase), r.1),
    decreases history.len(),
{
    let p = Place { phase, action: Action::ReceiveDecodedFrame };
    first_exchange(course, p, history);
    let h1 = history.drop_first();
    if history[0].answer == Answer::Nothing {
        (Seq::empty(), h1)
    } else {
        let s = Place { phase, action: Action::AddFrameToFilter };
        first_exchange(course, s, h1);
        let h2 = h1.drop_first();
        let (f, h3) = parse_filtering(course, phase, h2);
        let (more, rest) = parse_decoding(course, phase, h3);
        let frames = seq![f] + more;
        assert(frames.drop_first() =~= more);
        assert(history =~= decoding(course, frames) + rest);
        (frames, rest)
    }
}

proof fn parse_reading(course: Course, history: Seq<Exchange>) -> (r: (
    Seq<PacketRun>,
    Seq<Exchange>,
))
    requires
        finishes(course, Place { phase: Phase::Reading, action: Action::ReadPacket }, history),
    ensures
        history == reading(course, r.0) + r.1,
        finishes(
            course,
            Place { phase: Phase::DrainingDecoder, action: Action::SendEofToDecoder },
            r.1,
        ),
    decreases history.len(),
{
    let p = Place { phase: Phase::Reading, action: Action::ReadPacket };
    first_exchange(course, p, history);
    let h1 = history.drop_first();
    match history[0].answer {
        Answer::Packet { stream, time_base } => {
            let (frames, h2) = if stream == course.stream {
                let to_decoder = Action::SendPacketToDecoder {
                    from: time_base,
                    to: course.in_time_base,
                };
                let s = Place { phase: Phase::Reading, action: to_decoder };
                first_exchange(course, s, h1);
                parse_decoding(course, Phase::Reading, h1.drop_first())
            } else {
                (Seq::empty(), h1)
            };
            let packet = PacketRun { stream, time_base, frames };
            assert(history =~= taking(course, packet) + h2);
            let (more, rest) = parse_reading(course, h2);
            let packets = seq![packet] + more;
            assert(packets.drop_first() =~= more);
            assert(history =~= reading(course, packets) + rest);
            (packets, rest)
        },
        _ => (Seq::empty(), h1),
    }
}

proof fn parse_encoder_ending(course: Course, history: Seq<Exchange>) -> (last_packets: nat)
    requires
        finishes(
            course,
            Place { phase: Phase::DrainingEncoder, action: Action::SendEofToEncoder },
            history,
        ),
    ensures
        history == encoder_ending(course, last_packets),
{
    let phase = Phase::DrainingEncoder;
    first_exchange(course, Place { phase, action: Action::SendEofToEncoder }, history);
    let (last_packets, rest) = parse_encoding(course, phase, history.drop_first());
    let trailer = Place { phase, action: Action::WriteTrailer };
    first_exchange(course, trailer, rest);
    nothing_after_the_end(course, course.next(trailer, rest[0].answer), rest.drop_first());
    assert(rest =~= one(Action::WriteTrailer, Answer::Done));
    last_packets
}

/// Every history that leads to the end is a run: nothing else can have been
/// done, and in no other order.
pub proof fn every_finished_history_is_a_run(course: Course, history: Seq<Exchange>) -> (run: Run)
    requires
        finishes(course, course.start(), history),
    ensures
        history == whole(course, run),
{
    let phase = Phase::Reading;
    let h0 = if let Some(position) = course.seek {
        first_exchange(course, Place { phase, action: course.seeking(position) }, history);
        history.drop_first()
    } else {
        history
    };
    first_exchange(course, Place { phase, action: Action::CopyMetadata }, h0);
    let h1 = h0.drop_first();
    first_exchange(course, Place { phase, action: Action::WriteHeader }, h1);
    let h2 = h1.drop_first();
    assert(history =~= opening(course) + h2);
    let (packets, h3) = parse_reading(course, h2);
    first_exchange(
        course,
        Place { phase: Phase::DrainingDecoder, action: Action::SendEofToDecoder },
        h3,
    );
    let (last_frames, h4) = parse_decoding(course, Phase::DrainingDecoder, h3.drop_first());
    first_exchange(
        course,
        Place { phase: Phase::DrainingFilter, action: Action::FlushFilter },
        h4,
    );
    let (flushed, h5) = parse_filtering(course, Phase::DrainingFilter, h4.drop_first());
    let last_packets = parse_encoder_ending(course, h5);
    Run { packets, last_frames, flushed, last_packets }
}

/// How often a history has an exchange of a kind.
pub open spec fn times(history: Seq<Exchange>, kind: spec_fn(Exchange) -> bool) -> nat
    decreases history.len(),
{
    if history.len() == 0 {
        0
    } else {
        times(history.drop_last(), kind) + if kind(history.last()) {
            1nat
        } else {
            0
        }
    }
}

/// The packets read of the chosen stream.
pub open spec fn packets_read(course: Course) -> spec_fn(Exchange) -> bool {
    |e: Exchange|
        e.action == Action::ReadPacket && (e.answer matches Answer::Packet { stream, .. } && stream
            == course.stream)
}

/// The packets sent to the decoder.
pub open spec fn packets_sent() -> spec_fn(Exchange) -> bool {
    |e: Exchange| e.action is SendPacketToDecoder
}

/// The frames that the decoder gave.
pub open spec fn frames_decoded() -> spec_fn(Exchange) -> bool {
    |e: Exchange| e.action == Action::ReceiveDecodedFrame && e.answer == Answer::Received
}

/// The frames added to the filter.
pub open spec fn frames_added() -> spec_fn(Exchange) -> bool {
    |e: Exchange| e.action == Action::AddFrameToFilter
}

/// The frames that the filter gave.
pub open spec fn frames_filtered() -> spec_fn(Exchange) -> bool {
    |e: Exchange| e.action == Action::ReceiveFilteredFrame && e.answer == Answer::Received
}

/// The frames sent to the encoder.
pub open spec fn frames_sent() -> spec_fn(Exchange) -> bool {
    |e: Exchange| e.action == Action::SendFrameToEncoder
}

/// The packets that the encoder gave.
pub open spec fn packets_encoded() -> spec_fn(Exchange) -> bool {
    |e: Exchange| e.action == Action::ReceiveEncodedPacket && e.answer == Answer::Received
}

/// The packets written.
pub open spec fn packets_written() -> spec_fn(Exchange) -> bool {
    |e: Exchange| e.action is WriteEncodedPacket
}

/// One, if it holds.
pub open spec fn tally(holds: bool) -> nat {
    if holds {
        1
    } else {
        0
    }
}

/// At every moment all that was taken from one stage has been passed to the
/// next, save the one thing that is about to be.
pub proof fn nothing_is_lost_under_way(course: Course, history: Seq<Exchange>)
    requires
        after(course, course.start(), history) is Some,
    ensures
        ({
            let next = after(course, course.start(), history)->0.action;
            &&& times(history, packets_read(course)) == times(history, packets_sent()) + tally(
                next is SendPacketToDecoder,
            )
            &&& times(history, frames_decoded()) == times(history, frames_added()) + tally(
                next == Action::AddFrameToFilter,
            )
            &&& times(history, frames_filtered()) == times(history, frames_sent()) + tally(
                next == Action::SendFrameToEncoder,
            )
            &&& times(history, packets_encoded()) == times(history, packets_written()) + tally(
                next is WriteEncodedPacket,
            )
        }),
    decreases history.len(),
{
    if history.len() > 0 {
        nothing_is_lost_under_way(course, history.drop_last());
    }
}

/// When the transcoding is over, every packet of the stream has been decoded,
/// every decoded frame filtered, every filtered frame encoded, and every
/// encoded packet written.
pub proof fn nothing_is_lost(course: Course, history: Seq<Exchange>)
    requires
        finishes(course, course.start(), history),
    ensures
        times(history, packets_read(course)) == times(history, packets_sent()),
        times(history, frames_decoded()) == times(history, frames_added()),
        times(history, frames_filtered()) == times(history, frames_sent()),
        times(history, packets_encoded()) == times(history, packets_written()),
{
    nothing_is_lost_under_way(course, history);
}

/// Every packet is written to the only stream of the output, with its times
/// moved from the unit of the decoder to that of the output.
pub proof fn every_packet_is_written_alike(course: Course, history: Seq<Exchange>, at: int)
    requires
        after(course, course.start(), history) is Some,
        0 <= at < history.len(),
        history[at].action is WriteEncodedPacket,
    ensures
        history[at].action == course.writing(),
    decreases history.len(),
{
    if at < history.len() - 1 {
        every_packet_is_written_alike(course, history.drop_last(), at);
    } else {
        writing_is_set(course, history.drop_last());
    }
}

proof fn writing_is_set(course: Course, history: Seq<Exchange>)
    requires
        after(course, course.start(), history) is Some,
    ensures
        after(course, course.start(), history)->0.action is WriteEncodedPacket ==> after(
            course,
            course.start(),
            history,
        )->0.action == course.writing(),
    decreases history.len(),
{
    if history.len() > 0 {
        writing_is_set(course, history.drop_last());
    }
}

/// Whether the action was done in the history.
pub open spec fn was_done(history: Seq<Exchange>, action: Action) -> bool
    decreases history.len(),
{
    history.len() > 0 && (history.last().action == action || was_done(
        history.drop_last(),
        action,
    ))
}

/// What a history says of the phase, and what the phase says of a history.
proof fn phase_is_known(course: Course, history: Seq<Exchange>)
    requires
        after(course, course.start(), history) is Some,
    ensures
        ({
            let place = after(course, course.start(), history)->0;
            let decoder = was_done(history, Action::SendEofToDecoder);
            let filter = was_done(history, Action::FlushFilter);
            let encoder = was_done(history, Action::SendEofToEncoder);
            let next = place.action;
            &&& next == Action::SendEofToDecoder ==> place.phase == Phase::DrainingDecoder
            &&& next == Action::FlushFilter ==> place.phase == Phase::DrainingFilter
            &&& next == Action::SendEofToEncoder ==> place.phase == Phase::DrainingEncoder
            &&& next == Action::ReadPacket ==> place.phase == Phase::Reading
            &&& next is SendPacketToDecoder ==> place.phase == Phase::Reading
            &&& next is Seek || next == Action::CopyMetadata || next == Action::WriteHeader
                ==> place.phase == Phase::Reading
            &&& next == Action::WriteTrailer || next == Action::Finish ==> place.phase
                == Phase::DrainingEncoder
            &&& next == Action::ReceiveDecodedFrame || next == Action::AddFrameToFilter
                ==> place.phase == Phase::Reading || place.phase == Phase::DrainingDecoder
            &&& next == Action::ReceiveFilteredFrame || next == Action::SendFrameToEncoder
                ==> place.phase != Phase::DrainingEncoder
            &&& decoder <==> place.phase != Phase::Reading && next != Action::SendEofToDecoder
            &&& filter <==> (place.phase == Phase::DrainingFilter || place.phase
                == Phase::DrainingEncoder) && next != Action::FlushFilter
            &&& encoder <==> place.phase == Phase::DrainingEncoder && next
                != Action::SendEofToEncoder
        }),
    decreases history.len(),
{
    if history.len() > 0 {
        phase_is_known(course, history.drop_last());
    }
}

/// A transcoding starts with going to the place asked for, which is given in
/// seconds and is gone to in microseconds, no further than to it; or, where
/// none is asked for, with the metadata.
pub proof fn a_transcoding_starts_where_it_is_asked_to(course: Course, history: Seq<Exchange>)
    requires
        after(course, course.start(), history) is Some,
        history.len() > 0,
    ensures
        match course.seek {
            Some(seconds) => history[0].action matches Action::Seek { position, from, to, range }
                && position == seconds && from.numerator == 1 && from.denominator == 1
                && to.numerator == 1 && to.denominator == 1_000_000 && range
                == SeekRange::UpToThePlace,
            None => history[0].action == Action::CopyMetadata,
        },
    decreases history.len(),
{
    if history.len() > 1 {
        a_transcoding_starts_where_it_is_asked_to(course, history.drop_last());
        assert(history.drop_last()[0] == history[0]);
    } else {
        assert(history.drop_last() =~= Seq::<Exchange>::empty());
        assert(after(course, course.start(), history.drop_last()) == Some(course.start()));
        assert(history[0].action == course.start().action);
    }
}

/// What is done follows from what was done last, from what came of it, and
/// from which stages have been told that nothing more comes:
///
/// - The metadata comes before the header, and that before the first packet.
/// - A packet of the stream goes to the decoder at once, moved from the unit
///   that it was read in to that of the decoder; one of another stream is
///   passed over. After the last packet the decoder is told.
/// - A frame goes from the decoder to the filter, and from the filter to the
///   encoder, at once; a packet from the encoder is written at once, into the
///   first stream, moved from the unit of the decoder to that of the output.
/// - A stage that was given something is asked for what it has until it has
///   nothing more. Then the stage before it is asked again; or, where that has
///   been told that nothing more comes, this one is told.
/// - When the encoder, having been told, has nothing more, the trailer is
///   written, and that is the end.
pub proof fn each_action_follows_from_what_was_done(course: Course, history: Seq<Exchange>)
    requires
        after(course, course.start(), history) is Some,
        history.len() > 0,
    ensures
        ({
            let next = after(course, course.start(), history)->0.action;
            let last = history.last();
            let decoder_told = was_done(history, Action::SendEofToDecoder);
            let filter_told = was_done(history, Action::FlushFilter);
            let encoder_told = was_done(history, Action::SendEofToEncoder);
            match (last.action, last.answer) {
                (Action::Seek { .. }, _) => next == Action::CopyMetadata,
                (Action::CopyMetadata, _) => next == Action::WriteHeader,
                (Action::WriteHeader, _) => next == Action::ReadPacket,
                (Action::ReadPacket, Answer::Packet { stream, time_base }) => if stream
                    == course.stream {
                    next matches Action::SendPacketToDecoder { from, to } && from == time_base && to
                        == course.in_time_base
                } else {
                    next == Action::ReadPacket
                },
                (Action::ReadPacket, _) => last.answer == Answer::Nothing && next
                    == Action::SendEofToDecoder,
                (Action::SendPacketToDecoder { .. }, _) => next == Action::ReceiveDecodedFrame,
                (Action::SendEofToDecoder, _) => next == Action::ReceiveDecodedFrame,
                (Action::ReceiveDecodedFrame, Answer::Received) => next
                    == Action::AddFrameToFilter,
                (Action::ReceiveDecodedFrame, _) => if decoder_told {
                    next == Action::FlushFilter
                } else {
                    next == Action::ReadPacket
                },
                (Action::AddFrameToFilter, _) => next == Action::ReceiveFilteredFrame,
                (Action::FlushFilter, _) => next == Action::ReceiveFilteredFrame,
                (Action::ReceiveFilteredFrame, Answer::Received) => next
                    == Action::SendFrameToEncoder,
                (Action::ReceiveFilteredFrame, _) => if filter_told {
                    next == Action::SendEofToEncoder
                } else {
                    next == Action::ReceiveDecodedFrame
                },
                (Action::SendFrameToEncoder, _) => next == Action::ReceiveEncodedPacket,
                (Action::SendEofToEncoder, _) => next == Action::ReceiveEncodedPacket,
                (Action::ReceiveEncodedPacket, Answer::Received) => {
                    next matches Action::WriteEncodedPacket { stream, from, to } && stream == 0
                        && from == course.in_time_base && to == course.out_time_base
                },
                (Action::ReceiveEncodedPacket, _) => if encoder_told {
                    next == Action::WriteTrailer
                } else {
                    next == Action::ReceiveFilteredFrame
                },
                (Action::WriteEncodedPacket { .. }, _) => next == Action::ReceiveEncodedPacket,
                (Action::WriteTrailer, _) => next == Action::Finish,
                (Action::Finish, _) => false,
            }
        }),
{
    phase_is_known(course, history);
    phase_is_known(course, history.drop_last());
}

/// Every packet that is written goes into the first stream of the output, with
/// its times moved from the unit of the decoder to that of the output, whether
/// a place to start at was asked for or not.
pub proof fn every_packet_goes_into_the_only_stream(
    course: Course,
    history: Seq<Exchange>,
    at: int,
    stream: usize,
    from: Rational,
    to: Rational,
)
    requires
        after(course, course.start(), history) is Some,
        0 <= at < history.len(),
        history[at].action == (Action::WriteEncodedPacket { stream, from, to }),
    ensures
        stream == 0,
        from == course.in_time_base,
        to == course.out_time_base,
{
    every_packet_is_written_alike(course, history, at);
}

/// Every packet that goes to the decoder was read just before, is one of the
/// chosen stream, and has its times moved from the unit that it was read in to
/// that of the decoder.
pub proof fn every_decoded_packet_was_just_read(
    course: Course,
    history: Seq<Exchange>,
    at: int,
    from: Rational,
    to: Rational,
)
    requires
        after(course, course.start(), history) is Some,
        0 <= at < history.len(),
        history[at].action == (Action::SendPacketToDecoder { from, to }),
    ensures
        at > 0,
        history[at - 1].action == Action::ReadPacket,
        history[at - 1].answer == (Answer::Packet { stream: course.stream, time_base: from }),
        to == course.in_time_base,
    decreases history.len(),
{
    let earlier = history.drop_last();
    if at < history.len() - 1 {
        every_decoded_packet_was_just_read(course, earlier, at, from, to);
    } else {
        if earlier.len() > 0 {
            each_action_follows_from_what_was_done(course, earlier);
        }
    }
}

/// When a transcoding is over, the decoder, the filter and the encoder have
/// been told that nothing more comes, and the trailer is the last thing done.
pub proof fn an_end_comes_after_every_stage_was_drained(course: Course, history: Seq<Exchange>)
    requires
        finishes(course, course.start(), history),
    ensures
        was_done(history, Action::SendEofToDecoder),
        was_done(history, Action::FlushFilter),
        was_done(history, Action::SendEofToEncoder),
        history.len() > 0,
        history.last().action == Action::WriteTrailer,
{
    phase_is_known(course, history);
}

} // verus!
