//! The packets of a media file, by stream and in the order of decoding.

use std::collections::HashMap;
use vstd::prelude::*;
use vstd::relations::sorted_by;

use crate::media::MediaType;

verus! {

/// A packet as it is read: the stream it belongs to, the kind of that stream,
/// and when the packet is to be decoded.
#[derive(Clone, Copy, Debug, PartialEq, Eq)]
pub struct ReadPacket {
    pub stream: usize,
    pub medium: MediaType,
    pub dts: Option<i64>,
}

/// A packet kept for writing: when it is to be decoded, and how many packets
/// were read before it.
#[derive(Clone, Copy, Debug, PartialEq, Eq, Structural)]
pub struct PacketTag {
    pub dts: i64,
    pub position: usize,
}

impl ReadPacket {
    /// When the packet is to be decoded; at zero, if it does not say.
    pub open spec fn key(self) -> i64 {
        match self.dts {
            Some(dts) => dts,
            None => 0,
        }
    }
}

/// Whether `a` is written no later than `b`: by decoding time, and among
/// equal times in the order of reading.
pub open spec fn no_later(a: PacketTag, b: PacketTag) -> bool {
    a.dts < b.dts || (a.dts == b.dts && a.position <= b.position)
}

/// `no_later` as a relation.
pub open spec fn writing_order() -> spec_fn(PacketTag, PacketTag) -> bool {
    |a: PacketTag, b: PacketTag| no_later(a, b)
}

/// The packets of one stream of one kind, in the order of reading.
pub open spec fn tags_of(
    packets: Seq<ReadPacket>,
    medium: MediaType,
    stream: usize,
) -> Seq<PacketTag>
    decreases packets.len(),
{
    if packets.len() == 0 {
        Seq::empty()
    } else {
        let before = tags_of(packets.drop_last(), medium, stream);
        let last = packets.last();
        if last.medium == medium && last.stream == stream {
            before.push(
                PacketTag { dts: last.key(), position: (packets.len() - 1) as usize },
            )
        } else {
            before
        }
    }
}

/// Whether `out` holds the same packets as `tags`, in the order of writing.
pub open spec fn is_in_writing_order(out: Seq<PacketTag>, tags: Seq<PacketTag>) -> bool {
    &&& sorted_by(out, writing_order())
    &&& out.to_multiset() == tags.to_multiset()
}

/// Merges two lists in the order of writing into one.
fn merge(a: &Vec<PacketTag>, b: &Vec<PacketTag>) -> (r: Vec<PacketTag>)
    requires
        sorted_by(a@, writing_order()),
        sorted_by(b@, writing_order()),
        a@.len() + b@.len() <= usize::MAX,
    ensures
        is_in_writing_order(r@, a@ + b@),
{
    let mut r: Vec<PacketTag> = Vec::new();
    let mut i: usize = 0;
    let mut j: usize = 0;
    broadcast use vstd::seq_lib::group_to_multiset_ensures;
    assert(a@.take(0) + b@.take(0) =~= r@);
    while i < a.len() || j < b.len()
        invariant
            i <= a@.len(),
            j <= b@.len(),
            sorted_by(a@, writing_order()),
            sorted_by(b@, writing_order()),
            sorted_by(r@, writing_order()),
            r@.to_multiset() == (a@.take(i as int) + b@.take(j as int)).to_multiset(),
            forall|k: int| 0 <= k < r@.len() && i < a@.len() ==> no_later(#[trigger] r@[k], a@[i as int]),
            forall|k: int| 0 <= k < r@.len() && j < b@.len() ==> no_later(#[trigger] r@[k], b@[j as int]),
        decreases (a@.len() - i) + (b@.len() - j),
    {
        broadcast use vstd::seq_lib::group_to_multiset_ensures;

        let from_a: bool = if i == a.len() {
            false
        } else if j == b.len() {
            true
        } else {
            let x: PacketTag = a[i];
            let y: PacketTag = b[j];
            x.dts < y.dts || (x.dts == y.dts && x.position <= y.position)
        };
        let ghost before = r@;
        if from_a {
            proof {
                let one = a@.take(i as int) + b@.take(j as int);
                let two = a@.take(i + 1) + b@.take(j as int);
                assert(two =~= one.insert(i as int, a@[i as int]));
                assert(two.to_multiset() =~= one.to_multiset().insert(a@[i as int]));
                assert forall|k: int| i < k < a@.len() implies no_later(
                    a@[i as int],
                    #[trigger] a@[k],
                ) by {
                    assert(writing_order()(a@[i as int], a@[k]));
                }
            }
            r.push(a[i]);
            i += 1;
        } else {
            proof {
                let one = a@.take(i as int) + b@.take(j as int);
                let two = a@.take(i as int) + b@.take(j + 1);
                assert(two =~= one.push(b@[j as int]));
                assert forall|k: int| j < k < b@.len() implies no_later(
                    b@[j as int],
                    #[trigger] b@[k],
                ) by {
                    assert(writing_order()(b@[j as int], b@[k]));
                }
            }
            r.push(b[j]);
            j += 1;
        }
        assert(sorted_by(r@, writing_order())) by {
            assert forall|m: int, n: int| 0 <= m < n < r@.len() implies #[trigger] writing_order()(
                r@[m],
                r@[n],
            ) by {
                if n < before.len() {
                    assert(writing_order()(before[m], before[n]));
                }
            }
        }
    }
    assert(a@.take(a@.len() as int) =~= a@);
    assert(b@.take(b@.len() as int) =~= b@);
    r
}

/// Sorts the packets from `from` up to `to`.
fn sort_range(tags: &Vec<PacketTag>, from: usize, to: usize) -> (r: Vec<PacketTag>)
    requires
        from <= to <= tags@.len(),
    ensures
        is_in_writing_order(r@, tags@.subrange(from as int, to as int)),
    decreases to - from,
{
    broadcast use vstd::seq_lib::group_to_multiset_ensures;

    let ghost part = tags@.subrange(from as int, to as int);
    if to - from < 2 {
        let mut r: Vec<PacketTag> = Vec::new();
        if from < to {
            r.push(tags[from]);
        }
        assert(r@ =~= part);
        r
    } else {
        let middle: usize = from + (to - from) / 2;
        let left: Vec<PacketTag> = sort_range(tags, from, middle);
        let right: Vec<PacketTag> = sort_range(tags, middle, to);
        proof {
            let l = tags@.subrange(from as int, middle as int);
            let m = tags@.subrange(middle as int, to as int);
            assert(l + m =~= part);
            vstd::seq_lib::lemma_multiset_commutative(l, m);
            vstd::seq_lib::lemma_multiset_commutative(left@, right@);
            assert(left@.len() == left@.to_multiset().len());
            assert(right@.len() == right@.to_multiset().len());
        }
        merge(&left, &right)
    }
}

/// Puts the packets of a stream into the order in which they are written.
pub fn sort_packets(tags: &Vec<PacketTag>) -> (r: Vec<PacketTag>)
    ensures
        is_in_writing_order(r@, tags@),
{
    assert(tags@.subrange(0, tags@.len() as int) =~= tags@);
    sort_range(tags, 0, tags.len())
}

/// The packets read so far, by the kind and the index of their streams.
pub struct PacketTable {
    video: HashMap<usize, Vec<PacketTag>>,
    audio: HashMap<usize, Vec<PacketTag>>,
    subtitle: HashMap<usize, Vec<PacketTag>>,
    attachment: HashMap<usize, Vec<PacketTag>>,
    data: HashMap<usize, Vec<PacketTag>>,
    unknown: HashMap<usize, Vec<PacketTag>>,
    count: usize,
}

/// What a map holds under a key.
pub open spec fn held(map: Map<usize, Vec<PacketTag>>, stream: usize) -> Option<Seq<PacketTag>> {
    if map.contains_key(stream) {
        Some(map[stream]@)
    } else {
        None
    }
}

/// A list, with the empty one for a list that is not there.
pub open spec fn list_or_empty(list: Option<Seq<PacketTag>>) -> Seq<PacketTag> {
    match list {
        Some(list) => list,
        None => Seq::empty(),
    }
}

/// Adds a packet behind those of its stream.
fn add_to(map: &mut HashMap<usize, Vec<PacketTag>>, stream: usize, tag: PacketTag)
    ensures
        forall|i: usize|
            #[trigger] held(final(map)@, i) == if i == stream {
                Some(list_or_empty(held(old(map)@, stream)).push(tag))
            } else {
                held(old(map)@, i)
            },
{
    broadcast use vstd::std_specs::hash::group_hash_axioms;

    let mut list: Vec<PacketTag> = match map.remove(&stream) {
        Some(list) => list,
        None => Vec::new(),
    };
    list.push(tag);
    map.insert(stream, list);
    assert(held(map@, stream) == Some(list_or_empty(held(old(map)@, stream)).push(tag)));
}

/// The list under a key, if there is one.
fn look_up<'a>(map: &'a HashMap<usize, Vec<PacketTag>>, stream: usize) -> (r: Option<
    &'a Vec<PacketTag>,
>)
    ensures
        match r {
            Some(list) => held(map@, stream) == Some(list@),
            None => held(map@, stream) is None,
        },
{
    broadcast use vstd::std_specs::hash::group_hash_axioms;

    map.get(&stream)
}

impl PacketTable {
    /// The packets of one stream of one kind; nothing, if none were read.
    pub closed spec fn bucket(self, medium: MediaType, stream: usize) -> Option<Seq<PacketTag>> {
        match medium {
            MediaType::Video => held(self.video@, stream),
            MediaType::Audio => held(self.audio@, stream),
            MediaType::Subtitle => held(self.subtitle@, stream),
            MediaType::Attachment => held(self.attachment@, stream),
            MediaType::Data => held(self.data@, stream),
            MediaType::Unknown => held(self.unknown@, stream),
        }
    }

    /// How many packets were read.
    pub closed spec fn spec_count(self) -> nat {
        self.count as nat
    }

    /// A table without packets.
    pub fn new() -> (r: PacketTable)
        ensures
            r.spec_count() == 0,
            forall|medium: MediaType, stream: usize| (#[trigger] r.bucket(medium, stream)) is None,
    {
        broadcast use vstd::std_specs::hash::group_hash_axioms;

        PacketTable {
            video: HashMap::new(),
            audio: HashMap::new(),
            subtitle: HashMap::new(),
            attachment: HashMap::new(),
            data: HashMap::new(),
            unknown: HashMap::new(),
            count: 0,
        }
    }

    /// How many packets were read.
    pub fn count(&self) -> (r: usize)
        ensures
            r == self.spec_count(),
    {
        self.count
    }

    /// Adds the packet that was read next.
    pub fn push(&mut self, packet: ReadPacket)
        requires
            old(self).spec_count() < usize::MAX,
        ensures
            final(self).spec_count() == old(self).spec_count() + 1,
            forall|medium: MediaType, stream: usize|
                #[trigger] final(self).bucket(medium, stream) == if medium == packet.medium && stream
                    == packet.stream {
                    Some(
                        list_or_empty(old(self).bucket(medium, stream)).push(
                            PacketTag {
                                dts: packet.key(),
                                position: old(self).spec_count() as usize,
                            },
                        ),
                    )
                } else {
                    old(self).bucket(medium, stream)
                },
    {
        let dts: i64 = match packet.dts {
            Some(dts) => dts,
            None => 0,
        };
        let tag: PacketTag = PacketTag { dts, position: self.count };
        match packet.medium {
            MediaType::Video => add_to(&mut self.video, packet.stream, tag),
            MediaType::Audio => add_to(&mut self.audio, packet.stream, tag),
            MediaType::Subtitle => add_to(&mut self.subtitle, packet.stream, tag),
            MediaType::Attachment => add_to(&mut self.attachment, packet.stream, tag),
            MediaType::Data => add_to(&mut self.data, packet.stream, tag),
            MediaType::Unknown => add_to(&mut self.unknown, packet.stream, tag),
        }
        self.count = self.count + 1;
    }

    /// The packets of one stream of one kind, in the order of reading.
    pub fn get<'a>(&'a self, medium: MediaType, stream: usize) -> (r: Option<&'a Vec<PacketTag>>)
        ensures
            match r {
                Some(list) => self.bucket(medium, stream) == Some(list@),
                None => self.bucket(medium, stream) is None,
            },
    {
        match medium {
            MediaType::Video => look_up(&self.video, stream),
            MediaType::Audio => look_up(&self.audio, stream),
            MediaType::Subtitle => look_up(&self.subtitle, stream),
            MediaType::Attachment => look_up(&self.attachment, stream),
            MediaType::Data => look_up(&self.data, stream),
            MediaType::Unknown => look_up(&self.unknown, stream),
        }
    }

    /// Whether the table is that of the packets: it has under each kind and
    /// index what was read of that stream, and nothing where nothing was.
    pub open spec fn is_table_of(self, packets: Seq<ReadPacket>) -> bool {
        &&& self.spec_count() == packets.len()
        &&& forall|medium: MediaType, stream: usize|
            #![trigger self.bucket(medium, stream)]
            self.bucket(medium, stream) == if tags_of(packets, medium, stream).len() == 0 {
                None
            } else {
                Some(tags_of(packets, medium, stream))
            }
    }
}

/// Sorts the packets that were read into a table.
pub fn group_packets(packets: &Vec<ReadPacket>) -> (r: PacketTable)
    ensures
        r.is_table_of(packets@),
{
    let mut table: PacketTable = PacketTable::new();
    let mut i: usize = 0;
    while i < packets.len()
        invariant
            i <= packets@.len(),
            table.is_table_of(packets@.take(i as int)),
        decreases packets@.len() - i,
    {
        let ghost before = table;
        table.push(packets[i]);
        proof {
            let now = packets@.take(i + 1);
            assert(now.drop_last() =~= packets@.take(i as int));
            assert(now.last() == packets@[i as int]);
            assert forall|medium: MediaType, stream: usize|
                #![trigger table.bucket(medium, stream)]
                table.bucket(medium, stream) == if tags_of(now, medium, stream).len() == 0 {
                    None
                } else {
                    Some(tags_of(now, medium, stream))
                } by {
                let earlier = tags_of(now.drop_last(), medium, stream);
                assert(before.bucket(medium, stream) == if earlier.len() == 0 {
                    None
                } else {
                    Some(earlier)
                });
                assert(list_or_empty(before.bucket(medium, stream)) =~= earlier);
            }
        }
        i += 1;
    }
    assert(packets@.take(packets@.len() as int) =~= packets@);
    table
}

/// The packets of a stream stand in the order of reading, and they are just
/// those that were read of it, each with its decoding time.
pub proof fn tags_are_the_packets_of_the_stream(
    packets: Seq<ReadPacket>,
    medium: MediaType,
    stream: usize,
)
    requires
        packets.len() <= usize::MAX,
    ensures
        forall|i: int, j: int|
            0 <= i < j < tags_of(packets, medium, stream).len() ==> (#[trigger] tags_of(
                packets,
                medium,
                stream,
            )[i]).position < (#[trigger] tags_of(packets, medium, stream)[j]).position,
        forall|tag: PacketTag| #[trigger]
            tags_of(packets, medium, stream).contains(tag) <==> tag.position < packets.len()
                && packets[tag.position as int].medium == medium
                && packets[tag.position as int].stream == stream
                && packets[tag.position as int].key() == tag.dts,
    decreases packets.len(),
{
    let all = tags_of(packets, medium, stream);
    if packets.len() > 0 {
        let rest = packets.drop_last();
        let before = tags_of(rest, medium, stream);
        tags_are_the_packets_of_the_stream(rest, medium, stream);
        let last = packets.last();
        let n: int = packets.len() - 1;
        assert forall|i: int, j: int| 0 <= i < j < all.len() implies (#[trigger] all[i]).position < (
        #[trigger] all[j]).position by {
            if j < before.len() {
                assert(all[i] == before[i] && all[j] == before[j]);
            } else {
                assert(all[i] == before[i]);
                assert(before.contains(before[i]));
            }
        }
        assert forall|tag: PacketTag| #[trigger] all.contains(tag) <==> tag.position < packets.len()
            && packets[tag.position as int].medium == medium && packets[tag.position as int].stream
            == stream && packets[tag.position as int].key() == tag.dts by {
            if tag.position < n {
                assert(packets[tag.position as int] == rest[tag.position as int]);
                if before.contains(tag) {
                    let k = choose|k: int| 0 <= k < before.len() && before[k] == tag;
                    assert(all[k] == tag);
                }
                if all.contains(tag) {
                    let k = choose|k: int| 0 <= k < all.len() && all[k] == tag;
                    assert(k < before.len() && before[k] == tag);
                }
            } else {
                assert(!before.contains(tag));
                if last.medium == medium && last.stream == stream {
                    assert(all.last().position == n);
                    if tag.position == n && tag.dts == last.key() {
                        assert(all[all.len() - 1] == tag);
                    }
                }
                if all.contains(tag) {
                    let k = choose|k: int| 0 <= k < all.len() && all[k] == tag;
                    if k < before.len() {
                        assert(before.contains(before[k]));
                    }
                }
            }
        }
    }
}

/// Packets in the order of writing do not go back in time, and where times are
/// equal, not in the order of reading; and they are those that were there.
pub proof fn writing_does_not_go_back(out: Seq<PacketTag>, tags: Seq<PacketTag>, i: int, j: int)
    requires
        is_in_writing_order(out, tags),
        0 <= i < j < out.len(),
    ensures
        out[i].dts <= out[j].dts,
        out[i].dts == out[j].dts ==> out[i].position <= out[j].position,
        out.len() == tags.len(),
        out.to_multiset() == tags.to_multiset(),
{
    broadcast use vstd::seq_lib::group_to_multiset_ensures;

    assert(writing_order()(out[i], out[j]));
    assert(out.to_multiset().len() == out.len());
    assert(tags.to_multiset().len() == tags.len());
}

/// A table holds, of the packets that were read, each under the kind and the
/// index of its stream, with its own time, or zero where it has none.
pub proof fn a_table_holds_what_was_read(
    table: PacketTable,
    packets: Seq<ReadPacket>,
    position: usize,
    dts: i64,
)
    requires
        packets.len() <= usize::MAX,
        table.is_table_of(packets),
        position < packets.len(),
        packets[position as int].dts == Some(dts) || packets[position as int].dts is None && dts
            == 0,
    ensures
        table.spec_count() == packets.len(),
        table.bucket(packets[position as int].medium, packets[position as int].stream) matches Some(
            list,
        ) && list.contains(PacketTag { dts, position }),
{
    let packet = packets[position as int];
    tags_are_the_packets_of_the_stream(packets, packet.medium, packet.stream);
    assert(tags_of(packets, packet.medium, packet.stream).contains(PacketTag { dts, position }));
}

/// Whatever a table holds was read: under the kind and the index of a stream
/// it has packets of that stream alone, each with its own time.
pub proof fn what_a_table_holds_was_read(
    table: PacketTable,
    packets: Seq<ReadPacket>,
    medium: MediaType,
    stream: usize,
    list: Seq<PacketTag>,
    k: int,
)
    requires
        packets.len() <= usize::MAX,
        table.is_table_of(packets),
        table.bucket(medium, stream) == Some(list),
        0 <= k < list.len(),
    ensures
        list[k].position < packets.len(),
        packets[list[k].position as int].medium == medium,
        packets[list[k].position as int].stream == stream,
        packets[list[k].position as int].dts == Some(list[k].dts)
            || packets[list[k].position as int].dts is None && list[k].dts == 0,
        k > 0 ==> list[k - 1].position < list[k].position,
{
    tags_are_the_packets_of_the_stream(packets, medium, stream);
    let tags = tags_of(packets, medium, stream);
    assert(tags == list);
    assert(tags.contains(tags[k]));
    if k > 0 {
        assert(tags[k - 1].position < tags[k].position);
    }
}

} // verus!
