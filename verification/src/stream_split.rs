//! Splitting a media file into one file per stream.

use vstd::prelude::*;

use crate::container::{get_best_container_for_codec, suffix_for};
use crate::failure::Failure;
use crate::media::StreamInfo;
use crate::packets::{
    group_packets, is_in_writing_order, sort_packets, tags_of, writing_order, PacketTable, PacketTag,
    ReadPacket,
};
use crate::paths::{
    ends_with, file_stem, is_appended, join, joined, last_at_is_last, last_at_is_unique, parent,
    parent_of, separators_of, stem_of, Mark, Style,
};
use crate::text::{decimal, decimal_text, is_numeral_of};

verus! {

/// The directory in which the output is made: that of the path given, or the
/// current one, if the path has none.
pub open spec fn base_directory(style: Style, output: Seq<char>) -> Seq<char> {
    match parent_of(style, output) {
        Some(directory) => directory,
        None => "."@,
    }
}

/// The name of the directory that holds the files: the stem of the path
/// given, or `output`.
pub open spec fn base_name(style: Style, output: Seq<char>) -> Seq<char> {
    match stem_of(style, output) {
        Some(stem) => stem,
        None => "output"@,
    }
}

/// What the path of a stream's file ends with.
pub open spec fn path_end(style: Style, stream: StreamInfo, number: nat) -> Seq<char> {
    "_"@ + decimal(number) + "."@ + suffix_for(style, stream)
}

/// The path of a stream's file below the base directory. `number` says how
/// many streams come before the stream.
pub open spec fn relative_path(
    style: Style,
    output: Seq<char>,
    stream: StreamInfo,
    number: nat,
) -> Seq<char> {
    base_name(style, output) + "/"@ + stream.medium.spec_name() + "/"@ + stream.codec_name@
        + path_end(style, stream, number)
}

/// The path of a stream's file.
pub open spec fn output_path(
    style: Style,
    output: Seq<char>,
    stream: StreamInfo,
    number: nat,
) -> Seq<char> {
    joined(style, base_directory(style, output), relative_path(style, output, stream, number))
}

/// Whether the packet that was read at the position is one of the stream.
pub open spec fn is_packet_of(
    packets: Seq<ReadPacket>,
    stream: StreamInfo,
    position: usize,
) -> bool {
    &&& position < packets.len()
    &&& packets[position as int].medium == stream.medium
    &&& packets[position as int].stream == stream.index
}

/// Whether the packet at `a` is written before the one at `b`: by decoding
/// time, and among equal times in the order of reading.
pub open spec fn is_before(packets: Seq<ReadPacket>, a: usize, b: usize) -> bool {
    ||| packets[a as int].key() < packets[b as int].key()
    ||| packets[a as int].key() == packets[b as int].key() && a < b
}

/// Whether the positions are those of the packets of the stream, in the order
/// of writing.
pub open spec fn is_order_of(
    order: Seq<usize>,
    packets: Seq<ReadPacket>,
    stream: StreamInfo,
) -> bool {
    &&& forall|position: usize| #[trigger]
        order.contains(position) <==> is_packet_of(packets, stream, position)
    &&& forall|i: int, j: int|
        0 <= i < j < order.len() ==> is_before(packets, #[trigger] order[i], #[trigger] order[j])
}

/// What becomes of one stream: the directory to make first, the path of its
/// file and the directory of that, and the positions of the packets to write,
/// in order. Without packets there is no file.
#[derive(Debug, PartialEq, Eq)]
pub struct SplitFile {
    pub stream: usize,
    pub directory: String,
    pub path: String,
    pub file_directory: Option<String>,
    pub order: Vec<usize>,
}

impl SplitFile {
    /// Whether this is what becomes of the stream.
    pub open spec fn is_for(
        self,
        style: Style,
        output: Seq<char>,
        stream: StreamInfo,
        number: nat,
        packets: Seq<ReadPacket>,
    ) -> bool {
        &&& self.stream == stream.index
        &&& self.directory@ == base_directory(style, output)
        &&& self.path@ == output_path(style, output, stream, number)
        &&& self.file_directory.deep_view() == parent_of(style, self.path@)
        &&& is_order_of(self.order@, packets, stream)
    }
}

/// Whether these are the files of a split.
pub open spec fn is_split(
    files: Seq<SplitFile>,
    streams: Seq<StreamInfo>,
    packets: Seq<ReadPacket>,
    style: Style,
    output: Seq<char>,
) -> bool {
    &&& files.len() == streams.len()
    &&& forall|i: int|
        0 <= i < streams.len() ==> (#[trigger] files[i]).is_for(
            style,
            output,
            streams[i],
            i as nat,
            packets,
        )
}

/// The path of the file that the stream goes into.
pub fn output_path_of(style: Style, output: &str, stream: &StreamInfo, number: usize) -> (r: String)
    ensures
        r@ == output_path(style, output@, *stream, number as nat),
{
    let mut relative: String = match file_stem(style, output) {
        Some(stem) => stem.to_string(),
        None => "output".to_string(),
    };
    relative.append("/");
    relative.append(stream.medium.name());
    relative.append("/");
    relative.append(stream.codec_name.as_str());
    relative.append("_");
    relative.append(decimal_text(number as u64).as_str());
    relative.append(".");
    relative.append(get_best_container_for_codec(style, stream));
    assert(relative@ =~= relative_path(style, output@, *stream, number as nat));
    match parent(style, output) {
        Some(directory) => join(style, directory, relative.as_str()),
        None => join(style, ".", relative.as_str()),
    }
}

/// The positions of sorted packets of a stream are in the order of writing.
proof fn positions_are_in_order(
    sorted: Seq<PacketTag>,
    packets: Seq<ReadPacket>,
    stream: StreamInfo,
)
    requires
        packets.len() <= usize::MAX,
        is_in_writing_order(sorted, tags_of(packets, stream.medium, stream.index)),
    ensures
        is_order_of(sorted.map_values(|tag: PacketTag| tag.position), packets, stream),
{
    broadcast use vstd::seq_lib::group_to_multiset_ensures;

    let tags = tags_of(packets, stream.medium, stream.index);
    let order = sorted.map_values(|tag: PacketTag| tag.position);
    crate::packets::tags_are_the_packets_of_the_stream(packets, stream.medium, stream.index);
    assert forall|i: int| 0 <= i < sorted.len() implies tags.contains(#[trigger] sorted[i]) by {
        assert(sorted.to_multiset().contains(sorted[i]));
    }
    assert forall|position: usize| #[trigger] order.contains(position) <==> is_packet_of(
        packets,
        stream,
        position,
    ) by {
        if order.contains(position) {
            let k = choose|k: int| 0 <= k < order.len() && order[k] == position;
            assert(tags.contains(sorted[k]));
        }
        if is_packet_of(packets, stream, position) {
            let tag = PacketTag { dts: packets[position as int].key(), position };
            assert(tags.contains(tag));
            assert(tags.to_multiset().contains(tag));
            assert(sorted.to_multiset().contains(tag));
            assert(sorted.contains(tag));
            let k = choose|k: int| 0 <= k < sorted.len() && sorted[k] == tag;
            assert(order[k] == position);
        }
    }
    assert(tags.no_duplicates());
    tags.lemma_multiset_has_no_duplicates();
    sorted.lemma_multiset_has_no_duplicates_conv();
    assert forall|i: int, j: int| 0 <= i < j < order.len() implies is_before(
        packets,
        #[trigger] order[i],
        #[trigger] order[j],
    ) by {
        assert(tags.contains(sorted[i]));
        assert(tags.contains(sorted[j]));
        assert(sorted[i] != sorted[j]);
        assert(writing_order()(sorted[i], sorted[j]));
    }
}

/// The positions of the packets of a stream, in the order of writing.
fn order_for(table: &PacketTable, stream: &StreamInfo, Ghost(packets): Ghost<Seq<ReadPacket>>) -> (r:
    Vec<usize>)
    requires
        table.is_table_of(packets),
        packets.len() <= usize::MAX,
    ensures
        is_order_of(r@, packets, *stream),
{
    let ghost tags = tags_of(packets, stream.medium, stream.index);
    let mut order: Vec<usize> = Vec::new();
    match table.get(stream.medium, stream.index) {
        Some(list) => {
            let sorted: Vec<PacketTag> = sort_packets(list);
            let mut i: usize = 0;
            while i < sorted.len()
                invariant
                    i <= sorted@.len(),
                    order@ == sorted@.take(i as int).map_values(|tag: PacketTag| tag.position),
                decreases sorted@.len() - i,
            {
                order.push(sorted[i].position);
                i += 1;
                assert(order@ =~= sorted@.take(i as int).map_values(
                    |tag: PacketTag| tag.position,
                ));
            }
            assert(sorted@.take(sorted@.len() as int) =~= sorted@);
            proof {
                positions_are_in_order(sorted@, packets, *stream);
            }
        },
        None => {
            proof {
                let none = Seq::<PacketTag>::empty();
                assert(tags =~= none);
                positions_are_in_order(none, packets, *stream);
                assert(order@ =~= none.map_values(|tag: PacketTag| tag.position));
            }
        },
    }
    order
}

/// What becomes of each stream, in the order of the streams.
pub fn stream_split(
    streams: &Vec<StreamInfo>,
    packets: &Vec<ReadPacket>,
    style: Style,
    output: &str,
) -> (r: Vec<SplitFile>)
    ensures
        is_split(r@, streams@, packets@, style, output@),
{
    let table: PacketTable = group_packets(packets);
    assert(packets@.len() == packets.len());
    let mut files: Vec<SplitFile> = Vec::new();
    let mut i: usize = 0;
    while i < streams.len()
        invariant
            i <= streams@.len(),
            files@.len() == i,
            table.is_table_of(packets@),
            packets@.len() <= usize::MAX,
            forall|k: int|
                0 <= k < i ==> (#[trigger] files@[k]).is_for(
                    style,
                    output@,
                    streams@[k],
                    k as nat,
                    packets@,
                ),
        decreases streams@.len() - i,
    {
        let stream: &StreamInfo = &streams[i];
        let directory: String = match parent(style, output) {
            Some(directory) => directory.to_string(),
            None => ".".to_string(),
        };
        let path: String = output_path_of(style, output, stream, i);
        let file_directory: Option<String> = match parent(style, path.as_str()) {
            Some(directory) => Some(directory.to_string()),
            None => None,
        };
        let file: SplitFile = SplitFile {
            stream: stream.index,
            directory,
            path,
            file_directory,
            order: order_for(&table, stream, Ghost(packets@)),
        };
        files.push(file);
        i += 1;
    }
    files
}

/// One thing to do while the files are written.
#[derive(Debug, PartialEq, Eq)]
pub enum SplitAction {
    /// Make the directory and those above it.
    MakeDirectory(String),
    /// Say that no packets of the stream were read.
    ReportNoPackets(usize),
    /// Create the file and a muxer for it.
    OpenOutput(String),
    /// Make the directory of the file and those above it.
    MakeFileDirectory(String),
    /// Add to the muxer a stream with the parameters of this one.
    AddStream(usize),
    /// Write the header of the file.
    WriteHeader,
    /// Write the packet that was read at this position, as one of that stream
    /// of the file.
    WritePacket { position: usize, stream: usize },
    /// Write the trailer of the file.
    WriteTrailer,
}

/// Writing a packet into the only stream of the file.
pub open spec fn writing(position: usize) -> SplitAction {
    SplitAction::WritePacket { position, stream: 0 }
}

/// How many things are to be done before the first packet is written.
pub open spec fn steps_before_packets(file: SplitFile) -> int {
    if file.file_directory is Some {
        5
    } else {
        4
    }
}

/// Whether these are the things to do for one stream, in order.
pub open spec fn actions_for(file: SplitFile, actions: Seq<SplitAction>) -> bool {
    let first = steps_before_packets(file);
    let end = first + file.order@.len();
    &&& actions.len() >= 2
    &&& actions[0] matches SplitAction::MakeDirectory(d) && d@ == file.directory@
    &&& file.order@.len() == 0 ==> {
        &&& actions.len() == 2
        &&& actions[1] == SplitAction::ReportNoPackets(file.stream)
    }
    &&& file.order@.len() > 0 ==> {
        &&& actions.len() == end + 1
        &&& actions[1] matches SplitAction::OpenOutput(p) && p@ == file.path@
        &&& file.file_directory matches Some(directory)
            ==> (actions[2] matches SplitAction::MakeFileDirectory(d) && d@ == directory@)
        &&& actions[first - 2] == SplitAction::AddStream(file.stream)
        &&& actions[first - 1] == SplitAction::WriteHeader
        &&& actions.subrange(first, end) == file.order@.map_values(
            |position: usize| writing(position),
        )
        &&& actions[end] == SplitAction::WriteTrailer
    }
}

impl SplitFile {
    /// The things to do for the stream, in order.
    pub fn actions(&self) -> (r: Vec<SplitAction>)
        ensures
            actions_for(*self, r@),
    {
        let mut r: Vec<SplitAction> = Vec::new();
        r.push(SplitAction::MakeDirectory(self.directory.clone()));
        if self.order.len() == 0 {
            r.push(SplitAction::ReportNoPackets(self.stream));
            return r;
        }
        r.push(SplitAction::OpenOutput(self.path.clone()));
        if let Some(directory) = &self.file_directory {
            r.push(SplitAction::MakeFileDirectory(directory.clone()));
        }
        r.push(SplitAction::AddStream(self.stream));
        r.push(SplitAction::WriteHeader);
        let ghost front = r@;
        let mut k: usize = 0;
        while k < self.order.len()
            invariant
                k <= self.order@.len(),
                r@ == front + self.order@.take(k as int).map_values(
                    |position: usize| writing(position),
                ),
            decreases self.order@.len() - k,
        {
            r.push(SplitAction::WritePacket { position: self.order[k], stream: 0 });
            k += 1;
            assert(r@ =~= front + self.order@.take(k as int).map_values(
                |position: usize| writing(position),
            ));
        }
        assert(self.order@.take(self.order@.len() as int) =~= self.order@);
        r.push(SplitAction::WriteTrailer);
        proof {
            let first = steps_before_packets(*self);
            assert(front.len() == first);
            assert(r@.subrange(first, first + self.order@.len()) =~= self.order@.map_values(
                |position: usize| writing(position),
            ));
        }
        r
    }
}

impl SplitAction {
    /// What the action leads to, where it cannot be done.
    pub open spec fn spec_on_failure(self) -> Failure {
        match self {
            SplitAction::MakeDirectory(_) => Failure::PassOver,
            SplitAction::ReportNoPackets(_) => Failure::PassOver,
            SplitAction::OpenOutput(_) => Failure::Panic,
            SplitAction::MakeFileDirectory(directory) => Failure::Stop {
                words: "创建输出目录失败",
                directory: Some(directory),
            },
            SplitAction::AddStream(_) => Failure::Stop { words: "添加流失败", directory: None },
            SplitAction::WriteHeader => Failure::Stop { words: "写入文件头失败", directory: None },
            SplitAction::WritePacket { .. } => Failure::Stop {
                words: "写入包失败",
                directory: None,
            },
            SplitAction::WriteTrailer => Failure::Stop {
                words: "写入文件尾失败",
                directory: None,
            },
        }
    }

    /// What the action leads to, where it cannot be done.
    pub fn on_failure(&self) -> (r: Failure)
        ensures
            r == self.spec_on_failure(),
    {
        match self {
            SplitAction::MakeDirectory(_) => Failure::PassOver,
            SplitAction::ReportNoPackets(_) => Failure::PassOver,
            SplitAction::OpenOutput(_) => Failure::Panic,
            SplitAction::MakeFileDirectory(directory) => Failure::Stop {
                words: "创建输出目录失败",
                directory: Some(directory.clone()),
            },
            SplitAction::AddStream(_) => Failure::Stop { words: "添加流失败", directory: None },
            SplitAction::WriteHeader => Failure::Stop { words: "写入文件头失败", directory: None },
            SplitAction::WritePacket { .. } => Failure::Stop {
                words: "写入包失败",
                directory: None,
            },
            SplitAction::WriteTrailer => Failure::Stop {
                words: "写入文件尾失败",
                directory: None,
            },
        }
    }
}

/// A text splits in one way at the last occurrence of a character.
pub(crate) proof fn split_at_last(a: Seq<char>, b: Seq<char>, x: Seq<char>, y: Seq<char>, c: char)
    requires
        a + seq![c] + b == x + seq![c] + y,
        !b.contains(c),
        !y.contains(c),
    ensures
        a == x,
        b == y,
{
    let s = a + seq![c] + b;
    let t = x + seq![c] + y;
    assert(s[a.len() as int] == c);
    assert(t[x.len() as int] == c);
    let mark = Mark::Only(c);
    assert forall|k: int| a.len() < k < s.len() implies !mark.has(#[trigger] s[k]) by {
        assert(s[k] == b[k - a.len() - 1]);
    }
    assert forall|k: int| x.len() < k < t.len() implies !mark.has(#[trigger] t[k]) by {
        assert(t[k] == y[k - x.len() - 1]);
    }
    last_at_is_unique(s, mark, 0, a.len() as int);
    last_at_is_unique(t, mark, 0, x.len() as int);
    assert(a =~= s.take(a.len() as int));
    assert(x =~= t.take(x.len() as int));
    assert(b =~= s.skip(a.len() as int + 1));
    assert(y =~= t.skip(x.len() as int + 1));
}

/// The directory that holds the files has a name without a separator in it.
pub proof fn base_name_is_one_component(style: Style, output: Seq<char>)
    ensures
        base_name(style, output).len() > 0,
        forall|k: int|
            0 <= k < base_name(style, output).len() ==> !separators_of(style, output).has(
                #[trigger] base_name(style, output)[k],
            ),
{
    reveal_strlit("output");
    let mark = separators_of(style, output);
    let start = crate::paths::body_start(style, output);
    let t = crate::paths::trimmed(output, mark, start);
    crate::paths::prefix_is_in_range(style, output);
    crate::paths::trimmed_is_tight(output, mark, start);
    if stem_of(style, output) is Some {
        let name = crate::paths::last_component(t, mark, start);
        last_at_is_last(t, mark, start);
        last_at_is_last(name, Mark::Only('.'), 0);
        let stem = crate::paths::stem_of_name(name);
        assert forall|k: int| 0 <= k < stem.len() implies !mark.has(#[trigger] stem[k]) by {
            assert(stem[k] == t[crate::paths::last_at(t, mark, start) + 1 + k]);
        }
    }
}

/// Every file lies in a directory of the base name. Where the path of that is
/// put behind the base directory as it is, as always on POSIX systems, the
/// file lies below that.
pub proof fn files_lie_below_the_base_directory(
    style: Style,
    output: Seq<char>,
    stream: StreamInfo,
    number: nat,
)
    ensures
        base_name(style, output).is_prefix_of(relative_path(style, output, stream, number)),
        ({
            let directory = base_directory(style, output);
            let relative = relative_path(style, output, stream, number);
            &&& style == Style::Posix ==> is_appended(style, directory, relative)
            &&& is_appended(style, directory, relative) ==> directory.is_prefix_of(
                output_path(style, output, stream, number),
            )
        }),
{
    base_name_is_one_component(style, output);
    let relative = relative_path(style, output, stream, number);
    let name = base_name(style, output);
    assert(relative.take(name.len() as int) =~= name);
    assert(relative[0] == name[0]);
    let directory = base_directory(style, output);
    if is_appended(style, directory, relative) {
        assert(output_path(style, output, stream, number).take(directory.len() as int)
            =~= directory);
    }
}

/// The path of a stream's file ends with the number of the stream and the
/// suffix.
proof fn output_path_ends_so(style: Style, output: Seq<char>, stream: StreamInfo, number: nat)
    ensures
        ends_with(output_path(style, output, stream, number), path_end(style, stream, number)),
{
    let tail = path_end(style, stream, number);
    let relative = relative_path(style, output, stream, number);
    crate::container::suffix_is_plain(style, stream);
    crate::text::decimal_has_only_digits(number);
    base_name_is_one_component(style, output);
    reveal_strlit("_");
    reveal_strlit(".");
    reveal_strlit("/");
    let suffix = suffix_for(style, stream);
    assert forall|k: int| 0 <= k < tail.len() implies !style.separators().has(#[trigger] tail[k]) by {
        let n = decimal(number).len() as int;
        if 1 <= k < 1 + n {
            assert(tail[k] == decimal(number)[k - 1]);
        } else if k > 1 + n {
            assert(tail[k] == suffix[k - 2 - n]);
            assert(suffix.contains(suffix[k - 2 - n]));
        }
    }
    assert(relative.skip(relative.len() - tail.len()) =~= tail);
    crate::paths::a_joined_path_ends_alike(
        style,
        base_directory(style, output),
        relative,
        tail,
    );
}

/// Two streams of a file never go to the same path.
pub proof fn output_paths_are_distinct(
    style: Style,
    output: Seq<char>,
    one: StreamInfo,
    number_one: nat,
    two: StreamInfo,
    number_two: nat,
)
    requires
        number_one != number_two,
    ensures
        output_path(style, output, one, number_one) != output_path(style, output, two, number_two),
{
    let path_one = output_path(style, output, one, number_one);
    let path_two = output_path(style, output, two, number_two);
    output_path_ends_so(style, output, one, number_one);
    output_path_ends_so(style, output, two, number_two);
    crate::container::suffix_is_plain(style, one);
    crate::container::suffix_is_plain(style, two);
    crate::text::decimal_has_only_digits(number_one);
    crate::text::decimal_has_only_digits(number_two);
    reveal_strlit("_");
    reveal_strlit(".");
    assert("_"@ =~= seq!['_']);
    assert("."@ =~= seq!['.']);
    let front_one = path_one.take(path_one.len() - path_end(style, one, number_one).len());
    let front_two = path_two.take(path_two.len() - path_end(style, two, number_two).len());
    let body_one = front_one + seq!['_'] + decimal(number_one);
    let body_two = front_two + seq!['_'] + decimal(number_two);
    assert(path_one =~= front_one + path_end(style, one, number_one));
    assert(path_two =~= front_two + path_end(style, two, number_two));
    assert(path_one =~= body_one + seq!['.'] + suffix_for(style, one));
    assert(path_two =~= body_two + seq!['.'] + suffix_for(style, two));
    if path_one == path_two {
        split_at_last(body_one, suffix_for(style, one), body_two, suffix_for(style, two), '.');
        assert(!decimal(number_one).contains('_'));
        assert(!decimal(number_two).contains('_'));
        split_at_last(front_one, decimal(number_one), front_two, decimal(number_two), '_');
        crate::text::decimal_is_injective(number_one, number_two);
    }
}

/// The order of writing is fixed: there is one for the packets of a stream.
pub proof fn order_is_unique(
    one: Seq<usize>,
    two: Seq<usize>,
    packets: Seq<ReadPacket>,
    stream: StreamInfo,
)
    requires
        is_order_of(one, packets, stream),
        is_order_of(two, packets, stream),
    ensures
        one == two,
{
    assert forall|i: int| 0 <= i < one.len() && i < two.len() implies one[i] == two[i] by {
        orders_agree_at(one, two, packets, stream, i);
    }
    orders_end_together(one, two, packets, stream);
    orders_end_together(two, one, packets, stream);
    assert(one =~= two);
}

proof fn orders_agree_at(
    one: Seq<usize>,
    two: Seq<usize>,
    packets: Seq<ReadPacket>,
    stream: StreamInfo,
    i: int,
)
    requires
        is_order_of(one, packets, stream),
        is_order_of(two, packets, stream),
        0 <= i < one.len(),
        i < two.len(),
    ensures
        one[i] == two[i],
    decreases i,
{
    assert forall|k: int| 0 <= k < i implies one[k] == two[k] by {
        orders_agree_at(one, two, packets, stream, k);
    }
    assert(one.contains(one[i]));
    assert(two.contains(two[i]));
    assert(two.contains(one[i]));
    assert(one.contains(two[i]));
    let m = choose|m: int| 0 <= m < two.len() && two[m] == one[i];
    let n = choose|n: int| 0 <= n < one.len() && one[n] == two[i];
    if m < i {
        assert(one[m] == one[i]);
        assert(is_before(packets, one[m], one[i]));
    }
    if n < i {
        assert(two[n] == two[i]);
        assert(is_before(packets, two[n], two[i]));
    }
    if m > i && n > i {
        assert(is_before(packets, two[i], two[m]));
        assert(is_before(packets, one[i], one[n]));
    }
}

proof fn orders_end_together(
    one: Seq<usize>,
    two: Seq<usize>,
    packets: Seq<ReadPacket>,
    stream: StreamInfo,
)
    requires
        is_order_of(one, packets, stream),
        is_order_of(two, packets, stream),
    ensures
        one.len() >= two.len(),
{
    if one.len() < two.len() {
        let i = one.len() as int;
        assert(two.contains(two[i]));
        assert(one.contains(two[i]));
        let n = choose|n: int| 0 <= n < one.len() && one[n] == two[i];
        orders_agree_at(one, two, packets, stream, n);
        assert(is_before(packets, two[n], two[i]));
    }
}

/// A packet goes into the file of its stream, once, and into no other, where
/// no two streams have the same index.
pub proof fn every_packet_is_written_once(
    files: Seq<SplitFile>,
    streams: Seq<StreamInfo>,
    packets: Seq<ReadPacket>,
    style: Style,
    output: Seq<char>,
    position: usize,
    number: int,
)
    requires
        is_split(files, streams, packets, style, output),
        forall|i: int, j: int|
            0 <= i < j < streams.len() ==> (#[trigger] streams[i]).index != (
            #[trigger] streams[j]).index,
        0 <= number < streams.len(),
        is_packet_of(packets, streams[number], position),
    ensures
        files[number].order@.contains(position),
        files[number].order@.no_duplicates(),
        forall|i: int|
            0 <= i < files.len() && i != number ==> !(#[trigger] files[i]).order@.contains(position),
{
    assert(files[number].is_for(style, output, streams[number], number as nat, packets));
    assert forall|i: int| 0 <= i < files.len() && i != number implies !(
    #[trigger] files[i]).order@.contains(position) by {
        assert(files[i].is_for(style, output, streams[i], i as nat, packets));
        if i < number {
            assert(streams[i].index != streams[number].index);
        } else {
            assert(streams[number].index != streams[i].index);
        }
    }
    let order = files[number].order@;
    assert forall|i: int, j: int| 0 <= i < order.len() && 0 <= j < order.len() && i != j implies order[i]
        != order[j] by {
        if i < j {
            assert(is_before(packets, order[i], order[j]));
        } else {
            assert(is_before(packets, order[j], order[i]));
        }
    }
}

/// Whatever is written was read: a file has nothing in it but packets of its
/// stream.
pub proof fn every_written_packet_was_read(
    files: Seq<SplitFile>,
    streams: Seq<StreamInfo>,
    packets: Seq<ReadPacket>,
    style: Style,
    output: Seq<char>,
    number: int,
    k: int,
)
    requires
        is_split(files, streams, packets, style, output),
        0 <= number < files.len(),
        0 <= k < files[number].order@.len(),
    ensures
        is_packet_of(packets, streams[number], files[number].order@[k]),
{
    assert(files[number].is_for(style, output, streams[number], number as nat, packets));
    assert(files[number].order@.contains(files[number].order@[k]));
}

/// The file of a stream has the packets of that stream, all of them, each
/// once, and no others; they stand by their decoding times, a packet without
/// one as if at zero, and those of the same time in the order of reading.
pub proof fn packets_are_written_in_decoding_order(
    files: Seq<SplitFile>,
    streams: Seq<StreamInfo>,
    packets: Seq<ReadPacket>,
    style: Style,
    output: Seq<char>,
    number: int,
)
    requires
        is_split(files, streams, packets, style, output),
        0 <= number < streams.len(),
    ensures
        files.len() == streams.len(),
        files[number].stream == streams[number].index,
        forall|p: usize|
            #[trigger] files[number].order@.contains(p) <==> (p < packets.len()
                && packets[p as int].stream == streams[number].index && packets[p as int].medium
                == streams[number].medium),
        forall|i: int, j: int|
            #![trigger files[number].order@[i], files[number].order@[j]]
            0 <= i < j < files[number].order@.len() ==> {
                let p = files[number].order@[i];
                let q = files[number].order@[j];
                match (packets[p as int].dts, packets[q as int].dts) {
                    (Some(a), Some(b)) => a < b || a == b && p < q,
                    (None, Some(b)) => 0 < b || b == 0 && p < q,
                    (Some(a), None) => a < 0 || a == 0 && p < q,
                    (None, None) => p < q,
                }
            },
{
    assert(files[number].is_for(style, output, streams[number], number as nat, packets));
    let order = files[number].order@;
    assert forall|i: int, j: int|
        #![trigger order[i], order[j]]
        0 <= i < j < order.len() implies {
        let p = order[i];
        let q = order[j];
        match (packets[p as int].dts, packets[q as int].dts) {
            (Some(a), Some(b)) => a < b || a == b && p < q,
            (None, Some(b)) => 0 < b || b == 0 && p < q,
            (Some(a), None) => a < 0 || a == 0 && p < q,
            (None, None) => p < q,
        }
    } by {
        assert(is_before(packets, order[i], order[j]));
    }
}

/// Of two packets of a stream that both say when they are to be decoded, the
/// earlier one is written first, whatever the times.
pub proof fn the_earlier_packet_is_written_first(
    files: Seq<SplitFile>,
    streams: Seq<StreamInfo>,
    packets: Seq<ReadPacket>,
    style: Style,
    output: Seq<char>,
    number: int,
    i: int,
    j: int,
    a: i64,
    b: i64,
)
    requires
        is_split(files, streams, packets, style, output),
        0 <= number < streams.len(),
        0 <= i < files[number].order@.len(),
        0 <= j < files[number].order@.len(),
        packets[files[number].order@[i] as int].dts == Some(a),
        packets[files[number].order@[j] as int].dts == Some(b),
        a < b,
    ensures
        i < j,
{
    packets_are_written_in_decoding_order(files, streams, packets, style, output, number);
}

/// For a stream with packets the file is opened, its directory made, the one
/// stream added, the header written, then the packets, each into that stream
/// and in the order found for them, and last the trailer.
pub proof fn a_file_is_written_from_header_to_trailer(file: SplitFile, actions: Seq<SplitAction>)
    requires
        actions_for(file, actions),
        file.order@.len() > 0,
    ensures
        ({
            let n: int = if file.file_directory is Some {
                1
            } else {
                0
            };
            let end = 4 + n + file.order@.len();
            &&& actions.len() == end + 1
            &&& actions[0] matches SplitAction::MakeDirectory(d) && d@ == file.directory@
            &&& actions[1] matches SplitAction::OpenOutput(p) && p@ == file.path@
            &&& n == 1 ==> (actions[2] matches SplitAction::MakeFileDirectory(d) && d@
                == file.file_directory->0@)
            &&& actions[2 + n] == SplitAction::AddStream(file.stream)
            &&& actions[3 + n] == SplitAction::WriteHeader
            &&& forall|k: int|
                0 <= k < file.order@.len() ==> #[trigger] actions[4 + n + k]
                    == (SplitAction::WritePacket { position: file.order@[k], stream: 0 })
            &&& actions[end] == SplitAction::WriteTrailer
        }),
{
    let n: int = if file.file_directory is Some {
        1
    } else {
        0
    };
    let end = 4 + n + file.order@.len();
    let part = actions.subrange(4 + n, end);
    assert forall|k: int| 0 <= k < file.order@.len() implies #[trigger] actions[4 + n + k]
        == (SplitAction::WritePacket { position: file.order@[k], stream: 0 }) by {
        assert(part[k] == actions[4 + n + k]);
    }
}

/// For a stream without packets no file is opened: the base directory is made,
/// and it is said that there are none.
pub proof fn no_file_is_opened_without_packets(file: SplitFile, actions: Seq<SplitAction>)
    requires
        actions_for(file, actions),
        file.order@.len() == 0,
    ensures
        actions.len() == 2,
        actions[0] matches SplitAction::MakeDirectory(d) && d@ == file.directory@,
        actions[1] == SplitAction::ReportNoPackets(file.stream),
{
}

/// To fail to make the base directory, or to report, stops nothing. To fail to
/// open the file is a panic. To fail at anything else is an error, which names
/// the directory where one cannot be made.
pub proof fn failures_lead_where_they_should(action: SplitAction)
    ensures
        action is MakeDirectory || action is ReportNoPackets <==> action.spec_on_failure()
            == Failure::PassOver,
        action is OpenOutput <==> action.spec_on_failure() == Failure::Panic,
        action matches SplitAction::MakeFileDirectory(d) ==> action.spec_on_failure()
            == (Failure::Stop { words: "创建输出目录失败", directory: Some(d) }),
        action is AddStream ==> action.spec_on_failure() == (Failure::Stop {
            words: "添加流失败",
            directory: None,
        }),
        action is WriteHeader ==> action.spec_on_failure() == (Failure::Stop {
            words: "写入文件头失败",
            directory: None,
        }),
        action is WritePacket ==> action.spec_on_failure() == (Failure::Stop {
            words: "写入包失败",
            directory: None,
        }),
        action is WriteTrailer ==> action.spec_on_failure() == (Failure::Stop {
            words: "写入文件尾失败",
            directory: None,
        }),
{
}

/// The output `dir/stem.ext` becomes the directory `dir/stem`, in which the
/// file of a stream stands below one for its kind, named by its codec, its
/// number and its suffix.
pub proof fn files_are_named_after_the_output(
    dir: Seq<char>,
    stem: Seq<char>,
    ext: Seq<char>,
    stream: StreamInfo,
    number: nat,
) -> (numeral: Seq<char>)
    requires
        dir.len() > 0,
        dir.last() != '/',
        !(dir.len() > 1 && dir.last() == '.' && dir[dir.len() - 2] == '/'),
        stem.len() > 0,
        !stem.contains('/'),
        ext.len() > 0,
        !ext.contains('/'),
        !ext.contains('.'),
    ensures
        is_numeral_of(numeral, number as int),
        base_directory(Style::Posix, dir + seq!['/'] + (stem + seq!['.'] + ext)) == dir,
        output_path(Style::Posix, dir + seq!['/'] + (stem + seq!['.'] + ext), stream, number) == dir
            + "/"@ + stem + "/"@ + stream.medium.spec_name() + "/"@ + stream.codec_name@ + "_"@
            + numeral + "."@ + suffix_for(Style::Posix, stream),
{
    let name = stem + seq!['.'] + ext;
    let output = dir + seq!['/'] + name;
    name_is_plain(stem, ext);
    crate::paths::a_name_stands_behind_its_directory(dir, name);
    crate::paths::a_name_is_its_stem_and_its_extension(stem, ext);
    crate::text::decimal_stands_for_the_number(number);
    reveal_strlit("/");
    assert("/"@ =~= seq!['/']);
    let relative = relative_path(Style::Posix, output, stream, number);
    assert(relative[0] == stem[0]);
    assert(stem.contains(stem[0]));
    crate::paths::a_path_is_put_behind_a_directory(dir, relative);
    assert(output_path(Style::Posix, output, stream, number) =~= dir + "/"@ + stem + "/"@
        + stream.medium.spec_name() + "/"@ + stream.codec_name@ + "_"@ + decimal(number) + "."@
        + suffix_for(Style::Posix, stream));
    decimal(number)
}

/// The output `stem.ext`, without a directory, becomes the directory `stem`.
pub proof fn files_are_named_after_a_lone_output(
    stem: Seq<char>,
    ext: Seq<char>,
    stream: StreamInfo,
    number: nat,
) -> (numeral: Seq<char>)
    requires
        stem.len() > 0,
        !stem.contains('/'),
        ext.len() > 0,
        !ext.contains('/'),
        !ext.contains('.'),
    ensures
        is_numeral_of(numeral, number as int),
        base_directory(Style::Posix, stem + seq!['.'] + ext).len() == 0,
        output_path(Style::Posix, stem + seq!['.'] + ext, stream, number) == stem + "/"@
            + stream.medium.spec_name() + "/"@ + stream.codec_name@ + "_"@ + numeral + "."@
            + suffix_for(Style::Posix, stream),
{
    let name = stem + seq!['.'] + ext;
    name_is_plain(stem, ext);
    crate::paths::a_lone_name_has_an_empty_parent(name);
    crate::paths::a_name_is_its_stem_and_its_extension(stem, ext);
    crate::text::decimal_stands_for_the_number(number);
    let relative = relative_path(Style::Posix, name, stream, number);
    assert(relative[0] == stem[0]);
    assert(stem.contains(stem[0]));
    crate::paths::a_path_is_put_behind_a_directory(Seq::empty(), relative);
    assert(output_path(Style::Posix, name, stream, number) =~= stem + "/"@
        + stream.medium.spec_name() + "/"@ + stream.codec_name@ + "_"@ + decimal(number) + "."@
        + suffix_for(Style::Posix, stream));
    decimal(number)
}

proof fn name_is_plain(stem: Seq<char>, ext: Seq<char>)
    requires
        stem.len() > 0,
        !stem.contains('/'),
        ext.len() > 0,
        !ext.contains('/'),
        !ext.contains('.'),
    ensures
        !(stem + seq!['.'] + ext).contains('/'),
        stem + seq!['.'] + ext != seq!['.'],
        stem + seq!['.'] + ext != seq!['.', '.'],
{
    let name = stem + seq!['.'] + ext;
    assert(name.len() >= 3);
    assert forall|k: int| 0 <= k < name.len() implies name[k] != '/' by {
        if k < stem.len() {
            assert(name[k] == stem[k]);
            assert(stem.contains(stem[k]));
        } else if k > stem.len() {
            assert(name[k] == ext[k - stem.len() - 1]);
            assert(ext.contains(ext[k - stem.len() - 1]));
        }
    }
}

/// Where the output names no file, the files are named `output`, and where it
/// has no directory above it, they stand in the current one.
pub proof fn an_output_without_a_name_has_one(style: Style, output: Seq<char>)
    ensures
        stem_of(style, output) is None ==> base_name(style, output) == "output"@,
        stem_of(style, output) matches Some(stem) ==> base_name(style, output) == stem,
        parent_of(style, output) is None ==> base_directory(style, output) == "."@,
        parent_of(style, output) matches Some(dir) ==> base_directory(style, output) == dir,
{
}

/// What becomes of a stream is made in the base directory, under the path of
/// the stream's file, which lies in the directory above it.
pub proof fn a_file_stands_in_its_directory(
    files: Seq<SplitFile>,
    streams: Seq<StreamInfo>,
    packets: Seq<ReadPacket>,
    style: Style,
    output: Seq<char>,
    number: int,
)
    requires
        is_split(files, streams, packets, style, output),
        0 <= number < streams.len(),
    ensures
        files[number].directory@ == base_directory(style, output),
        files[number].path@ == output_path(style, output, streams[number], number as nat),
        files[number].file_directory is None <==> parent_of(style, files[number].path@) is None,
        files[number].file_directory matches Some(d) ==> parent_of(style, files[number].path@)
            == Some(d@),
{
    assert(files[number].is_for(style, output, streams[number], number as nat, packets));
    if let Some(d) = files[number].file_directory {
        assert(files[number].file_directory.deep_view() == Some(d@));
    }
}

/// Whatever the style, the path of a stream's file below the base directory is
/// the base name, the kind of the stream, and its codec, number and suffix; and
/// it is joined to the base directory.
pub proof fn a_path_names_its_stream(
    style: Style,
    output: Seq<char>,
    stream: StreamInfo,
    number: nat,
) -> (numeral: Seq<char>)
    ensures
        is_numeral_of(numeral, number as int),
        relative_path(style, output, stream, number) == base_name(style, output) + "/"@
            + stream.medium.spec_name() + "/"@ + stream.codec_name@ + "_"@ + numeral + "."@
            + suffix_for(style, stream),
        output_path(style, output, stream, number) == joined(
            style,
            base_directory(style, output),
            relative_path(style, output, stream, number),
        ),
{
    crate::text::decimal_stands_for_the_number(number);
    assert(relative_path(style, output, stream, number) =~= base_name(style, output) + "/"@
        + stream.medium.spec_name() + "/"@ + stream.codec_name@ + "_"@ + decimal(number) + "."@
        + suffix_for(style, stream));
    decimal(number)
}

} // verus!
