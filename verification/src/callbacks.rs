//! What the demuxer and the muxer are told when they read, write and seek.

use vstd::prelude::*;

verus! {

/// The answer to a read at the end of the file.
pub const AVERROR_EOF: i32 = -0x2046_4F45;

/// Count from the start of the file.
pub const SEEK_SET: i32 = 0;

/// Count from where the file stands.
pub const SEEK_CUR: i32 = 1;

/// Count from the end of the file.
pub const SEEK_END: i32 = 2;

/// Whether the number is that of an input or output error on some platform.
pub open spec fn is_io_error_number(n: int) -> bool {
    n == 5 || n == 28 || n == 29 || n == 1073741829 || n == -2147483647
}

/// Gives `libc::EIO`, the number of an input or output error.
///
/// Believed of it: it is one of the five numbers that the platforms have for
/// it. Which one depends on the platform, and is not said.
#[verifier::external_body]
fn io_error_number() -> (r: i32)
    ensures
        is_io_error_number(r as int),
{
    libc::EIO
}

/// Whether the number is one that `io_error_number` gives.
pub closed spec fn is_given_error_number(n: int) -> bool {
    exists|e: i32| #[trigger] call_ensures(io_error_number, (), e) && n == e
}

/// Whether the demuxer or muxer is to stop in the middle of its work: it never
/// is.
pub fn interrupt_callback() -> (r: i32)
    ensures
        r == 0,
{
    0
}

/// The answer to a read that gave so many bytes.
pub open spec fn answer_to_read(bytes: usize) -> i32 {
    if bytes == 0 {
        AVERROR_EOF
    } else {
        bytes as i32
    }
}

/// The answer to a read that gave so many bytes or failed, where
/// `error_number` is the number of an input or output error.
pub fn read_reply(read: Result<usize, ()>, error_number: i32) -> (r: i32)
    requires
        error_number != i32::MIN,
    ensures
        r == match read {
            Ok(bytes) => answer_to_read(bytes),
            Err(()) => (-error_number) as i32,
        },
        read matches Ok(bytes) ==> (0 < bytes <= i32::MAX ==> r == bytes),
{
    match read {
        Ok(bytes) => if bytes == 0 {
            AVERROR_EOF
        } else {
            #[verifier::truncate]
            (bytes as i32)
        },
        Err(()) => -error_number,
    }
}

/// The answer to a read that gave so many bytes or failed. A failure is
/// answered with the negative of the platform's error number, as
/// `io_error_number` gives it; that is neither a count of bytes nor the answer
/// at the end of the file.
pub fn self_read_packet(read: Result<usize, ()>) -> (r: i32)
    ensures
        read matches Ok(bytes) ==> r == answer_to_read(bytes),
        read matches Ok(bytes) ==> (0 < bytes <= i32::MAX ==> r == bytes),
        read is Err ==> is_given_error_number(-r),
        read is Err ==> is_io_error_number(-r) && r != AVERROR_EOF && r != 0,
{
    read_reply(read, io_error_number())
}

/// The answer to a write that took so many bytes or failed.
pub fn self_write_packet(written: Result<usize, ()>) -> (r: i32)
    ensures
        r == match written {
            Ok(bytes) => bytes as i32 as int,
            Err(()) => -1,
        },
        written matches Ok(bytes) ==> (bytes <= i32::MAX ==> r == bytes),
{
    match written {
        Ok(bytes) => #[verifier::truncate]
        (bytes as i32),
        Err(()) => -1,
    }
}

/// A place in a file.
#[derive(Clone, Copy, Debug, PartialEq, Eq, Structural)]
pub enum SeekTarget {
    Start(u64),
    End(i64),
    Current(i64),
}

/// The place that is meant; nothing, if it is not known what to count from.
pub open spec fn target(offset: i64, whence: i32) -> Option<SeekTarget> {
    if whence == SEEK_CUR {
        Some(SeekTarget::Current(offset))
    } else if whence == SEEK_END {
        Some(SeekTarget::End(offset))
    } else if whence == SEEK_SET {
        Some(SeekTarget::Start(offset as u64))
    } else {
        None
    }
}

/// The place in the input that the demuxer means.
pub fn self_seek(offset: i64, whence: i32) -> (r: Option<SeekTarget>)
    ensures
        r == target(offset, whence),
        whence == SEEK_SET && offset >= 0 ==> (r matches Some(SeekTarget::Start(at)) && at == offset),
{
    if whence == SEEK_CUR {
        Some(SeekTarget::Current(offset))
    } else if whence == SEEK_END {
        Some(SeekTarget::End(offset))
    } else if whence == SEEK_SET {
        Some(
            SeekTarget::Start(
                #[verifier::truncate]
                (offset as u64),
            ),
        )
    } else {
        None
    }
}

/// The place in the output that the muxer means.
pub fn self_seek_for_output(offset: i64, whence: i32) -> (r: Option<SeekTarget>)
    ensures
        r == target(offset, whence),
        whence == SEEK_SET && offset >= 0 ==> (r matches Some(SeekTarget::Start(at)) && at == offset),
{
    self_seek(offset, whence)
}

/// The answer to a seek that left the file at a place, or that failed.
pub open spec fn answer_to_seek(outcome: Option<u64>) -> i64 {
    match outcome {
        Some(position) => position as i64,
        None => -1i64,
    }
}

/// The answer to a seek. `outcome` says where the file stands now; nothing, if
/// no place was meant or it could not be reached.
pub fn seek_reply(outcome: Option<u64>) -> (r: i64)
    ensures
        r == answer_to_seek(outcome),
        outcome matches Some(position) ==> (position <= i64::MAX ==> r == position),
{
    match outcome {
        Some(position) => #[verifier::truncate]
        (position as i64),
        None => -1,
    }
}

/// Where a place is in a file of that length that stands at `at`.
pub open spec fn place_of(target: SeekTarget, at: int, length: int) -> int {
    match target {
        SeekTarget::Start(position) => position as int,
        SeekTarget::End(offset) => length + offset,
        SeekTarget::Current(offset) => at + offset,
    }
}

/// A read that goes well: how many bytes there is room for, and those that
/// come.
pub struct GoodRead {
    pub room: i32,
    pub bytes: Seq<u8>,
}

impl GoodRead {
    /// The answer to the read.
    pub open spec fn answer(self) -> i32 {
        answer_to_read(self.bytes.len() as usize)
    }

    /// The bytes that the demuxer takes: as many as the answer says.
    pub open spec fn taken(self) -> Seq<u8> {
        if self.answer() > 0 {
            self.bytes.take(self.answer() as int)
        } else {
            Seq::empty()
        }
    }

    /// Whether a file that stands at `at` gives these bytes: the next ones,
    /// as many as it likes, but none only where there are none.
    pub open spec fn is_given(self, file: Seq<u8>, at: int) -> bool {
        &&& 0 < self.room
        &&& self.bytes.len() <= self.room
        &&& self.bytes.len() == 0 <==> at >= file.len()
        &&& self.bytes.len() > 0 ==> {
            &&& at + self.bytes.len() <= file.len()
            &&& self.bytes == file.subrange(at, at + self.bytes.len())
        }
    }
}

/// Whether a file that stands at `at` is read so, one read after the other.
pub open spec fn is_reading(file: Seq<u8>, at: int, reads: Seq<GoodRead>) -> bool
    decreases reads.len(),
{
    reads.len() > 0 ==> {
        &&& reads[0].is_given(file, at)
        &&& is_reading(file, at + reads[0].bytes.len(), reads.drop_first())
    }
}

/// The bytes that the demuxer takes, one read after the other.
pub open spec fn delivered(reads: Seq<GoodRead>) -> Seq<u8>
    decreases reads.len(),
{
    if reads.len() == 0 {
        Seq::empty()
    } else {
        reads[0].taken() + delivered(reads.drop_first())
    }
}

/// At the end of the file nothing is delivered, and every read is answered so.
proof fn nothing_comes_at_the_end(file: Seq<u8>, at: int, reads: Seq<GoodRead>)
    requires
        at >= file.len(),
        is_reading(file, at, reads),
    ensures
        delivered(reads) == Seq::<u8>::empty(),
        forall|j: int| 0 <= j < reads.len() ==> (#[trigger] reads[j]).answer() == AVERROR_EOF,
    decreases reads.len(),
{
    if reads.len() > 0 {
        let rest = reads.drop_first();
        nothing_comes_at_the_end(file, at, rest);
        assert forall|j: int| 0 <= j < reads.len() implies (#[trigger] reads[j]).answer()
            == AVERROR_EOF by {
            if j > 0 {
                assert(reads[j] == rest[j - 1]);
            }
        }
    }
}

/// Reading on until the end is answered delivers all that is behind `at`.
proof fn reads_deliver_the_rest(file: Seq<u8>, at: int, reads: Seq<GoodRead>, end: int)
    requires
        0 <= at,
        is_reading(file, at, reads),
        0 <= end < reads.len(),
        reads[end].answer() == AVERROR_EOF,
    ensures
        delivered(reads) == if at < file.len() {
            file.skip(at)
        } else {
            Seq::empty()
        },
        forall|j: int| end <= j < reads.len() ==> (#[trigger] reads[j]).answer() == AVERROR_EOF,
    decreases reads.len(),
{
    if at >= file.len() {
        nothing_comes_at_the_end(file, at, reads);
    } else {
        let first = reads[0];
        let rest = reads.drop_first();
        let n = first.bytes.len();
        assert(first.answer() == n);
        assert(first.taken() =~= first.bytes);
        assert(rest[end - 1] == reads[end]);
        reads_deliver_the_rest(file, at + n, rest, end - 1);
        assert(delivered(reads) =~= file.skip(at));
        assert forall|j: int| end <= j < reads.len() implies (#[trigger] reads[j]).answer()
            == AVERROR_EOF by {
            assert(reads[j] == rest[j - 1]);
        }
    }
}

/// A seek and the reads after it, until one is answered with the end of the
/// file, deliver what the file has from that place on, with nothing skipped
/// and nothing repeated; and from then on every read is answered with the end.
///
/// `offset` counts from the start of the file, which stood at `stood`.
pub proof fn a_seek_and_the_reads_after_it_deliver_the_rest(
    file: Seq<u8>,
    stood: int,
    offset: i64,
    position: u64,
    reads: Seq<GoodRead>,
    end: int,
)
    requires
        0 <= offset,
        target(offset, SEEK_SET) matches Some(place) && position == place_of(
            place,
            stood,
            file.len() as int,
        ),
        is_reading(file, position as int, reads),
        0 <= end < reads.len(),
        reads[end].answer() == AVERROR_EOF,
    ensures
        answer_to_seek(Some(position)) == offset,
        delivered(reads) == file.skip(
            if offset < file.len() {
                offset as int
            } else {
                file.len() as int
            },
        ),
        forall|j: int| end <= j < reads.len() ==> (#[trigger] reads[j]).answer() == AVERROR_EOF,
{
    reads_deliver_the_rest(file, offset as int, reads, end);
    assert(delivered(reads) =~= file.skip(
        if offset < file.len() {
            offset as int
        } else {
            file.len() as int
        },
    ));
}

/// A read that gave bytes is answered with just their number, and one that gave
/// none with the number for the end of a file, which no count is.
pub proof fn a_read_is_answered_with_its_count(bytes: usize)
    requires
        bytes <= i32::MAX,
    ensures
        bytes > 0 ==> answer_to_read(bytes) == bytes,
        bytes == 0 ==> answer_to_read(bytes) == -541478725,
        answer_to_read(bytes) == AVERROR_EOF <==> bytes == 0,
{
}

/// A seek leads where it is meant to: counted from the start for 0, from where
/// the file stands for 1, from its end for 2; and for no other number anywhere.
pub proof fn a_seek_leads_where_it_is_meant_to(offset: i64, whence: i32, at: int, length: int)
    ensures
        whence == 0 && offset >= 0 ==> (target(offset, whence) matches Some(place) && place_of(
            place,
            at,
            length,
        ) == offset),
        whence == 0 && offset < 0 ==> (target(offset, whence) matches Some(place) && place_of(
            place,
            at,
            length,
        ) == offset + 0x1_0000_0000_0000_0000),
        whence == 1 ==> (target(offset, whence) matches Some(place) && place_of(place, at, length)
            == at + offset),
        whence == 2 ==> (target(offset, whence) matches Some(place) && place_of(place, at, length)
            == length + offset),
        whence != 0 && whence != 1 && whence != 2 ==> target(offset, whence) is None,
{
    assert(offset < 0 ==> (offset as u64) == offset + 0x1_0000_0000_0000_0000) by (bit_vector);
}

/// A seek is answered with where the file stands, or with minus one.
pub proof fn a_seek_is_answered_with_the_place(position: u64)
    ensures
        position <= i64::MAX ==> answer_to_seek(Some(position)) == position,
        answer_to_seek(None) == -1,
{
}

} // verus!
