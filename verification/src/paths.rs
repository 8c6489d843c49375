//! Paths as text, as POSIX systems or Windows read them.
//!
//! On POSIX systems `/` stands between the components. On Windows `/` and `\`
//! do, and a drive, a share or a device may stand in front, as in `C:` or
//! `\\server\share`. A Windows path that begins with `\\?\` is verbatim: only
//! `\` stands between its components.
//!
//! Empty components count for nothing, and neither do `.` components, save one
//! at the very front of a relative path, and those of a verbatim path.

use vstd::prelude::*;

use crate::text::chars_of;

verus! {

/// How paths are read.
#[derive(Clone, Copy, Debug, PartialEq, Eq, Structural)]
pub enum Style {
    Posix,
    Windows,
}

/// The characters that a text is split at.
#[derive(Clone, Copy, Debug, PartialEq, Eq, Structural)]
pub enum Mark {
    /// This one.
    Only(char),
    /// The slash and the backslash.
    EitherSlash,
}

impl Mark {
    /// Whether the character is one of them.
    pub open spec fn has(self, c: char) -> bool {
        match self {
            Mark::Only(mark) => c == mark,
            Mark::EitherSlash => c == '/' || c == '\\',
        }
    }

    /// Whether the character is one of them.
    fn is_at(self, c: char) -> (r: bool)
        ensures
            r == self.has(c),
    {
        match self {
            Mark::Only(mark) => c == mark,
            Mark::EitherSlash => c == '/' || c == '\\',
        }
    }
}

impl Style {
    /// The separators of a path that is not verbatim.
    pub open spec fn separators(self) -> Mark {
        match self {
            Style::Posix => Mark::Only('/'),
            Style::Windows => Mark::EitherSlash,
        }
    }

    /// The separator that is put in.
    pub open spec fn separator(self) -> char {
        match self {
            Style::Posix => '/',
            Style::Windows => '\\',
        }
    }

    /// The separators of a path that is not verbatim.
    fn marks(self) -> (r: Mark)
        ensures
            r == self.separators(),
    {
        match self {
            Style::Posix => Mark::Only('/'),
            Style::Windows => Mark::EitherSlash,
        }
    }
}

/// Where a character of `mark` occurs last in `s` at or after `start`;
/// `start - 1` if none occurs there.
pub open spec fn last_at(s: Seq<char>, mark: Mark, start: int) -> int
    decreases s.len(),
{
    if s.len() <= start || s.len() == 0 {
        start - 1
    } else if mark.has(s.last()) {
        s.len() - 1
    } else {
        last_at(s.drop_last(), mark, start)
    }
}

/// `last_at` points to an occurrence after which there is no other.
pub proof fn last_at_is_last(s: Seq<char>, mark: Mark, start: int)
    requires
        0 <= start <= s.len(),
    ensures
        start - 1 <= last_at(s, mark, start) < s.len() || last_at(s, mark, start) == start - 1,
        last_at(s, mark, start) >= start ==> mark.has(s[last_at(s, mark, start)]),
        forall|k: int| last_at(s, mark, start) < k < s.len() ==> !mark.has(#[trigger] s[k]),
    decreases s.len(),
{
    if s.len() > start && !mark.has(s.last()) {
        last_at_is_last(s.drop_last(), mark, start);
        assert forall|k: int| last_at(s, mark, start) < k < s.len() implies !mark.has(
            #[trigger] s[k],
        ) by {
            if k < s.len() - 1 {
                assert(s.drop_last()[k] == s[k]);
            }
        }
    }
}

/// An occurrence after which there is no other is where `last_at` points to.
pub proof fn last_at_is_unique(s: Seq<char>, mark: Mark, start: int, at: int)
    requires
        0 <= start <= at < s.len(),
        mark.has(s[at]),
        forall|k: int| at < k < s.len() ==> !mark.has(#[trigger] s[k]),
    ensures
        last_at(s, mark, start) == at,
{
    last_at_is_last(s, mark, start);
}

/// Where a character of `mark` occurs first in `s` at or after `from`; the end
/// of `s`, if none occurs there.
pub open spec fn first_at(s: Seq<char>, mark: Mark, from: int) -> int
    decreases s.len() - from,
{
    if from >= s.len() || mark.has(s[from]) {
        from
    } else {
        first_at(s, mark, from + 1)
    }
}

/// What a path has in front.
#[derive(Clone, Copy, Debug, PartialEq, Eq, Structural)]
pub enum Prefix {
    /// Nothing.
    Absent,
    /// A drive.
    Drive,
    /// A share or a device.
    Share,
    /// What a verbatim path begins with.
    Verbatim,
}

/// Whether the character stands in the text at the place.
pub open spec fn is_there(s: Seq<char>, at: int, c: char) -> bool {
    0 <= at < s.len() && s[at] == c
}

/// Whether one of the two slashes stands in the text at the place.
pub open spec fn slash_is_there(s: Seq<char>, at: int) -> bool {
    0 <= at < s.len() && Mark::EitherSlash.has(s[at])
}

/// Whether a drive stands in the text at the place: a letter and a colon.
pub open spec fn drive_is_there(s: Seq<char>, at: int) -> bool {
    &&& 0 <= at < s.len() && ('a' <= s[at] <= 'z' || 'A' <= s[at] <= 'Z')
    &&& is_there(s, at + 1, ':')
}

/// How long a server and a share are, from `from` on: up to the end of the
/// share, or, where there is none, of the server.
pub open spec fn end_of_share(s: Seq<char>, mark: Mark, from: int) -> int {
    let server = first_at(s, mark, from);
    if first_at(s, mark, server + 1) > server + 1 && server < s.len() {
        first_at(s, mark, server + 1)
    } else {
        server
    }
}

/// What a Windows path has in front, and how long that is.
pub open spec fn windows_prefix(s: Seq<char>) -> (Prefix, int) {
    if slash_is_there(s, 0) && slash_is_there(s, 1) {
        if is_there(s, 0, '\\') && is_there(s, 1, '\\') && is_there(s, 2, '?') && is_there(s, 3, '\\') {
            if is_there(s, 4, 'U') && is_there(s, 5, 'N') && is_there(s, 6, 'C') && slash_is_there(s, 7) {
                (Prefix::Verbatim, end_of_share(s, Mark::Only('\\'), 8))
            } else if drive_is_there(s, 4) && (s.len() == 6 || slash_is_there(s, 6)) {
                (Prefix::Verbatim, 6)
            } else {
                (Prefix::Verbatim, first_at(s, Mark::Only('\\'), 4))
            }
        } else if is_there(s, 2, '.') && slash_is_there(s, 3) {
            (Prefix::Share, first_at(s, Mark::EitherSlash, 4))
        } else {
            let server = first_at(s, Mark::EitherSlash, 2);
            if server > 2 && end_of_share(s, Mark::EitherSlash, 2) > server {
                (Prefix::Share, end_of_share(s, Mark::EitherSlash, 2))
            } else {
                (Prefix::Absent, 0)
            }
        }
    } else if drive_is_there(s, 0) {
        (Prefix::Drive, 2)
    } else {
        (Prefix::Absent, 0)
    }
}

/// What the path has in front.
pub open spec fn prefix_of(style: Style, s: Seq<char>) -> Prefix {
    match style {
        Style::Posix => Prefix::Absent,
        Style::Windows => windows_prefix(s).0,
    }
}

/// How long that is.
pub open spec fn prefix_len(style: Style, s: Seq<char>) -> int {
    match style {
        Style::Posix => 0,
        Style::Windows => windows_prefix(s).1,
    }
}

/// The separators of the path.
pub open spec fn separators_of(style: Style, s: Seq<char>) -> Mark {
    if prefix_of(style, s) == Prefix::Verbatim {
        Mark::Only('\\')
    } else {
        style.separators()
    }
}

/// Whether a separator stands where the path begins, behind what it has in
/// front.
pub open spec fn is_rooted(style: Style, s: Seq<char>) -> bool {
    prefix_len(style, s) < s.len() && style.separators().has(s[prefix_len(style, s)])
}

/// Whether the path is relative and its first component is a `.`.
pub open spec fn is_dotted(style: Style, s: Seq<char>) -> bool {
    let n = prefix_len(style, s);
    &&& prefix_of(style, s) == Prefix::Absent || prefix_of(style, s) == Prefix::Drive
    &&& is_there(s, n, '.')
    &&& s.len() == n + 1 || style.separators().has(s[n + 1])
}

/// Where the components of the path start: behind what it has in front, and
/// behind its root, or its leading `.`.
pub open spec fn body_start(style: Style, s: Seq<char>) -> int {
    prefix_len(style, s) + if is_rooted(style, s) || is_dotted(style, s) {
        1int
    } else {
        0
    }
}

/// The text behind the last separator of a path whose body starts at `start`.
pub open spec fn last_component(s: Seq<char>, mark: Mark, start: int) -> Seq<char> {
    s.skip(last_at(s, mark, start) + 1)
}

/// How much stands in front of the last component and its separator.
pub open spec fn rest_len(s: Seq<char>, mark: Mark, start: int) -> int {
    if last_at(s, mark, start) < start {
        start
    } else {
        last_at(s, mark, start)
    }
}

/// Whether the component counts for nothing.
pub open spec fn is_void(component: Seq<char>, mark: Mark) -> bool {
    component.len() == 0 || component == seq!['.'] && mark != Mark::Only('\\')
}

/// Whether the component is a name: neither `.` nor `..`.
pub open spec fn is_name(component: Seq<char>) -> bool {
    component != seq!['.'] && component != seq!['.', '.']
}

/// The path without the components at its end that count for nothing.
pub open spec fn trimmed(s: Seq<char>, mark: Mark, start: int) -> Seq<char>
    decreases s.len(),
{
    if start < 0 || s.len() <= start || !is_void(last_component(s, mark, start), mark) {
        s
    } else {
        proof {
            last_at_is_last(s, mark, start);
        }
        trimmed(s.take(rest_len(s, mark, start)), mark, start)
    }
}

/// What is left of a path starts as the path does, and its last component
/// counts for something.
pub proof fn trimmed_is_tight(s: Seq<char>, mark: Mark, start: int)
    requires
        0 <= start <= s.len(),
    ensures
        start <= trimmed(s, mark, start).len() <= s.len(),
        trimmed(s, mark, start) == s.take(trimmed(s, mark, start).len() as int),
        trimmed(s, mark, start).len() > start ==> !is_void(
            last_component(trimmed(s, mark, start), mark, start),
            mark,
        ),
    decreases s.len(),
{
    if s.len() > start && is_void(last_component(s, mark, start), mark) {
        last_at_is_last(s, mark, start);
        let rest = s.take(rest_len(s, mark, start));
        trimmed_is_tight(rest, mark, start);
        assert(trimmed(s, mark, start) =~= s.take(trimmed(s, mark, start).len() as int));
    } else {
        assert(s =~= s.take(s.len() as int));
    }
}

/// The name of what the path leads to: its last component, unless that is
/// what the path has in front, the root, a `.`, or `..`.
pub open spec fn name_of(style: Style, path: Seq<char>) -> Option<Seq<char>> {
    let mark = separators_of(style, path);
    let start = body_start(style, path);
    let t = trimmed(path, mark, start);
    if t.len() > start && is_name(last_component(t, mark, start)) {
        Some(last_component(t, mark, start))
    } else {
        None
    }
}

/// The path without its last component; nothing for a root, for what a path
/// has in front, and for the empty path.
pub open spec fn parent_of(style: Style, path: Seq<char>) -> Option<Seq<char>> {
    let mark = separators_of(style, path);
    let start = body_start(style, path);
    let t = trimmed(path, mark, start);
    if t.len() > start {
        Some(trimmed(t.take(rest_len(t, mark, start)), mark, start))
    } else if is_dotted(style, path) && prefix_of(style, path) == Prefix::Absent {
        Some(Seq::empty())
    } else {
        None
    }
}

/// What stands in front of the last dot of a name; the whole name, if it has
/// no dot or only one in front.
pub open spec fn stem_of_name(name: Seq<char>) -> Seq<char> {
    if last_at(name, Mark::Only('.'), 0) <= 0 {
        name
    } else {
        name.take(last_at(name, Mark::Only('.'), 0))
    }
}

/// What stands behind the last dot of a name; nothing, if it has no dot or
/// only one in front.
pub open spec fn extension_of_name(name: Seq<char>) -> Option<Seq<char>> {
    if last_at(name, Mark::Only('.'), 0) <= 0 {
        None
    } else {
        Some(name.skip(last_at(name, Mark::Only('.'), 0) + 1))
    }
}

/// The stem of the name that the path leads to.
pub open spec fn stem_of(style: Style, path: Seq<char>) -> Option<Seq<char>> {
    match name_of(style, path) {
        Some(name) => Some(stem_of_name(name)),
        None => None,
    }
}

/// The extension of the name that the path leads to.
pub open spec fn extension_of(style: Style, path: Seq<char>) -> Option<Seq<char>> {
    match name_of(style, path) {
        Some(name) => extension_of_name(name),
        None => None,
    }
}

/// The components of the body of a path that count for something, in order.
pub open spec fn parts_of(s: Seq<char>, mark: Mark, start: int) -> Seq<Seq<char>>
    decreases s.len(),
{
    if start < 0 || s.len() <= start {
        Seq::empty()
    } else {
        proof {
            last_at_is_last(s, mark, start);
        }
        let before = parts_of(s.take(rest_len(s, mark, start)), mark, start);
        if is_void(last_component(s, mark, start), mark) {
            before
        } else {
            before.push(last_component(s, mark, start))
        }
    }
}

/// The components that are reached by going along `steps` from `base`: a `..`
/// takes a name away, if one is there.
pub open spec fn walked(base: Seq<Seq<char>>, steps: Seq<Seq<char>>) -> Seq<Seq<char>>
    decreases steps.len(),
{
    if steps.len() == 0 {
        base
    } else {
        let before = walked(base, steps.drop_last());
        if is_name(steps.last()) {
            before.push(steps.last())
        } else if steps.last() == seq!['.', '.'] && before.len() > 0 && is_name(before.last()) {
            before.drop_last()
        } else {
            before
        }
    }
}

/// The components with a backslash between each two.
pub open spec fn with_backslashes(parts: Seq<Seq<char>>) -> Seq<char>
    decreases parts.len(),
{
    if parts.len() == 0 {
        Seq::empty()
    } else if parts.len() == 1 {
        parts[0]
    } else {
        with_backslashes(parts.drop_last()) + seq!['\\'] + parts.last()
    }
}

/// `path` as seen from the verbatim directory `dir`. As nothing resolves a
/// `..` in a verbatim path later, that is done here.
pub open spec fn joined_verbatim(dir: Seq<char>, path: Seq<char>) -> Seq<char> {
    let style = Style::Windows;
    let rooted = is_rooted(style, dir) || is_rooted(style, path);
    let base = if is_rooted(style, path) {
        Seq::empty()
    } else {
        parts_of(dir, Mark::Only('\\'), body_start(style, dir))
    };
    let parts = walked(base, parts_of(path, Mark::EitherSlash, body_start(style, path)));
    let prefix = dir.take(prefix_len(style, dir));
    if rooted || parts.len() > 0 {
        prefix + seq!['\\'] + with_backslashes(parts)
    } else {
        prefix
    }
}

/// Whether a path is put behind a directory as it is: it is relative, and the
/// directory is not verbatim.
pub open spec fn is_appended(style: Style, dir: Seq<char>, path: Seq<char>) -> bool {
    &&& prefix_of(style, path) == Prefix::Absent
    &&& !is_rooted(style, path)
    &&& prefix_of(style, dir) != Prefix::Verbatim || path.len() == 0
}

/// `path` as seen from the directory `dir`.
pub open spec fn joined(style: Style, dir: Seq<char>, path: Seq<char>) -> Seq<char> {
    if prefix_of(style, path) != Prefix::Absent {
        path
    } else if prefix_of(style, dir) == Prefix::Verbatim && path.len() > 0 {
        joined_verbatim(dir, path)
    } else if is_rooted(style, path) {
        dir.take(prefix_len(style, dir)) + path
    } else if dir.len() == 0 || style.separators().has(dir.last()) || prefix_of(style, dir)
        == Prefix::Drive && dir.len() == 2 {
        dir + path
    } else {
        dir + seq![style.separator()] + path
    }
}

/// On POSIX systems a name of one component stays the name of what the path
/// leads to, whatever directory is put in front of it.
pub proof fn a_joined_name_is_kept(dir: Seq<char>, name: Seq<char>)
    requires
        name.len() > 0,
        !name.contains('/'),
        is_name(name),
    ensures
        name_of(Style::Posix, joined(Style::Posix, dir, name)) == Some(name),
{
    let s = joined(Style::Posix, dir, name);
    let mark = Mark::Only('/');
    let start = body_start(Style::Posix, s);
    let front = s.len() - name.len();
    assert(name.contains(name[0]));
    assert(s.skip(front) =~= name);
    assert forall|k: int| front <= k < s.len() implies !mark.has(#[trigger] s[k]) by {
        assert(s[k] == name[k - front]);
        assert(name.contains(name[k - front]));
    }
    if name.len() == 1 {
        assert(name =~= seq![name[0]]);
    }
    assert(start <= front);
    last_at_is_last(s, mark, start);
    assert(last_at(s, mark, start) + 1 == front) by {
        if front > start {
            last_at_is_unique(s, mark, start, front - 1);
        }
    }
    assert(last_component(s, mark, start) == name);
}

/// `first_at` lies in the text, or at its end.
proof fn first_at_is_in_range(s: Seq<char>, mark: Mark, from: int)
    requires
        0 <= from <= s.len(),
    ensures
        from <= first_at(s, mark, from) <= s.len(),
    decreases s.len() - from,
{
    if from < s.len() && !mark.has(s[from]) {
        first_at_is_in_range(s, mark, from + 1);
    }
}

/// What a path has in front is part of it, and so is its root.
pub proof fn prefix_is_in_range(style: Style, s: Seq<char>)
    ensures
        0 <= prefix_len(style, s) <= s.len(),
        prefix_of(style, s) == Prefix::Absent ==> prefix_len(style, s) == 0,
        prefix_of(style, s) == Prefix::Drive ==> prefix_len(style, s) == 2,
        body_start(style, s) <= s.len(),
{
    if style == Style::Windows && slash_is_there(s, 0) && slash_is_there(s, 1) {
        first_at_is_in_range(s, Mark::EitherSlash, 2);
        let server = first_at(s, Mark::EitherSlash, 2);
        if server < s.len() {
            first_at_is_in_range(s, Mark::EitherSlash, server + 1);
        }
        if s.len() >= 4 {
            first_at_is_in_range(s, Mark::EitherSlash, 4);
            first_at_is_in_range(s, Mark::Only('\\'), 4);
        }
        if s.len() >= 8 {
            first_at_is_in_range(s, Mark::Only('\\'), 8);
            let verbatim = first_at(s, Mark::Only('\\'), 8);
            if verbatim < s.len() {
                first_at_is_in_range(s, Mark::Only('\\'), verbatim + 1);
            }
        }
    }
}

/// The text ends with the other one.
pub open spec fn ends_with(s: Seq<char>, tail: Seq<char>) -> bool {
    tail.len() <= s.len() && s.skip(s.len() - tail.len()) == tail
}

/// What ends a component other than `.` and `..` ends the path that leads to
/// it, from whatever directory.
pub proof fn a_joined_path_ends_alike(
    style: Style,
    dir: Seq<char>,
    path: Seq<char>,
    tail: Seq<char>,
)
    requires
        ends_with(path, tail),
        tail.len() >= 3,
        tail.len() + 1 <= path.len(),
        forall|k: int| 0 <= k < tail.len() ==> !style.separators().has(#[trigger] tail[k]),
    ensures
        ends_with(joined(style, dir, path), tail),
{
    let whole = joined(style, dir, path);
    if prefix_of(style, path) != Prefix::Absent {
    } else if prefix_of(style, dir) == Prefix::Verbatim {
        let mark = Mark::EitherSlash;
        let start = body_start(style, path);
        prefix_is_in_range(style, path);
        last_at_is_last(path, mark, start);
        let front = path.len() - tail.len();
        assert forall|k: int| front <= k < path.len() implies !mark.has(#[trigger] path[k]) by {
            assert(path[k] == path.skip(front)[k - front]);
            assert(path[k] == tail[k - front]);
        }
        let comp = last_component(path, mark, start);
        assert(last_at(path, mark, start) < front);
        assert(comp.len() >= 3);
        assert(ends_with(comp, tail)) by {
            assert(comp.skip(comp.len() - tail.len()) =~= path.skip(front));
        }
        let steps = parts_of(path, mark, start);
        assert(steps.last() == comp);
        let base = if is_rooted(style, path) {
            Seq::empty()
        } else {
            parts_of(dir, Mark::Only('\\'), body_start(style, dir))
        };
        let parts = walked(base, steps);
        assert(parts.last() == comp);
        let text = with_backslashes(parts);
        assert(ends_with(text, comp)) by {
            assert(text.skip(text.len() - comp.len()) =~= comp);
        }
        assert(ends_with(whole, tail)) by {
            assert(whole.skip(whole.len() - tail.len()) =~= text.skip(text.len() - tail.len()));
            assert(text.skip(text.len() - tail.len()) =~= text.skip(text.len() - comp.len()).skip(
                comp.len() - tail.len(),
            ));
        }
    } else {
        assert(whole.skip(whole.len() - tail.len()) =~= path.skip(path.len() - tail.len()));
    }
}

/// One more than where a character of `mark` occurs last in the first `end`
/// characters, at or after `start`.
fn behind_last(v: &Vec<char>, end: usize, mark: Mark, start: usize) -> (r: usize)
    requires
        start <= end <= v@.len(),
    ensures
        start <= r <= end,
        r == last_at(v@.take(end as int), mark, start as int) + 1,
{
    let mut i: usize = end;
    while i > start
        invariant
            start <= i <= end <= v@.len(),
            last_at(v@.take(i as int), mark, start as int) == last_at(
                v@.take(end as int),
                mark,
                start as int,
            ),
        decreases i,
    {
        assert(v@.take(i as int).drop_last() =~= v@.take(i - 1));
        if mark.is_at(v[i - 1]) {
            return i;
        }
        i -= 1;
    }
    i
}

/// Where a character of `mark` occurs first at or after `from`.
fn first_mark(v: &Vec<char>, mark: Mark, from: usize) -> (r: usize)
    requires
        from <= v@.len(),
    ensures
        from <= r <= v@.len(),
        r == first_at(v@, mark, from as int),
{
    let mut i: usize = from;
    while i < v.len()
        invariant
            from <= i <= v@.len(),
            first_at(v@, mark, i as int) == first_at(v@, mark, from as int),
        decreases v@.len() - i,
    {
        if mark.is_at(v[i]) {
            return i;
        }
        i += 1;
    }
    i
}

fn has_at(v: &Vec<char>, at: usize, c: char) -> (r: bool)
    ensures
        r == is_there(v@, at as int, c),
{
    at < v.len() && v[at] == c
}

fn has_slash_at(v: &Vec<char>, at: usize) -> (r: bool)
    ensures
        r == slash_is_there(v@, at as int),
{
    at < v.len() && (v[at] == '/' || v[at] == '\\')
}

fn has_drive_at(v: &Vec<char>, at: usize) -> (r: bool)
    requires
        at < 100,
    ensures
        r == drive_is_there(v@, at as int),
{
    at < v.len() && (('a' <= v[at] && v[at] <= 'z') || ('A' <= v[at] && v[at] <= 'Z')) && has_at(
        v,
        at + 1,
        ':',
    )
}

fn share_end(v: &Vec<char>, mark: Mark, from: usize) -> (r: usize)
    requires
        from <= v@.len(),
    ensures
        from <= r <= v@.len(),
        r == end_of_share(v@, mark, from as int),
{
    let server: usize = first_mark(v, mark, from);
    if server < v.len() {
        let share: usize = first_mark(v, mark, server + 1);
        if share > server + 1 {
            return share;
        }
    }
    server
}

/// What a path has in front, how long that is, and where the body starts.
struct Shape {
    prefix: Prefix,
    prefix_len: usize,
    rooted: bool,
    dotted: bool,
    start: usize,
    mark: Mark,
}

fn prefix_in(style: Style, v: &Vec<char>) -> (r: (Prefix, usize))
    ensures
        r.0 == prefix_of(style, v@),
        r.1 == prefix_len(style, v@),
{
    match style {
        Style::Posix => (Prefix::Absent, 0),
        Style::Windows => if has_slash_at(v, 0) && has_slash_at(v, 1) {
            if has_at(v, 0, '\\') && has_at(v, 1, '\\') && has_at(v, 2, '?') && has_at(v, 3, '\\') {
                if has_at(v, 4, 'U') && has_at(v, 5, 'N') && has_at(v, 6, 'C') && has_slash_at(v, 7) {
                    (Prefix::Verbatim, share_end(v, Mark::Only('\\'), 8))
                } else if has_drive_at(v, 4) && (v.len() == 6 || has_slash_at(v, 6)) {
                    (Prefix::Verbatim, 6)
                } else {
                    (Prefix::Verbatim, first_mark(v, Mark::Only('\\'), 4))
                }
            } else if has_at(v, 2, '.') && has_slash_at(v, 3) {
                (Prefix::Share, first_mark(v, Mark::EitherSlash, 4))
            } else {
                let server: usize = first_mark(v, Mark::EitherSlash, 2);
                let end: usize = share_end(v, Mark::EitherSlash, 2);
                if server > 2 && end > server {
                    (Prefix::Share, end)
                } else {
                    (Prefix::Absent, 0)
                }
            }
        } else if has_drive_at(v, 0) {
            (Prefix::Drive, 2)
        } else {
            (Prefix::Absent, 0)
        },
    }
}

fn shape_of(style: Style, v: &Vec<char>) -> (r: Shape)
    ensures
        r.prefix == prefix_of(style, v@),
        r.prefix_len == prefix_len(style, v@),
        r.rooted == is_rooted(style, v@),
        r.dotted == is_dotted(style, v@),
        r.start == body_start(style, v@),
        r.mark == separators_of(style, v@),
        r.prefix_len <= r.start <= v@.len(),
{
    let (prefix, prefix_len): (Prefix, usize) = prefix_in(style, v);
    proof {
        prefix_is_in_range(style, v@);
    }
    let marks: Mark = style.marks();
    let rooted: bool = prefix_len < v.len() && marks.is_at(v[prefix_len]);
    let dotted: bool = (prefix == Prefix::Absent || prefix == Prefix::Drive) && has_at(
        v,
        prefix_len,
        '.',
    ) && (v.len() - prefix_len == 1 || marks.is_at(v[prefix_len + 1]));
    let start: usize = if rooted || dotted {
        prefix_len + 1
    } else {
        prefix_len
    };
    let mark: Mark = if prefix == Prefix::Verbatim {
        Mark::Only('\\')
    } else {
        marks
    };
    Shape { prefix, prefix_len, rooted, dotted, start, mark }
}

/// Whether the characters from `from` up to `to` are a component that counts
/// for nothing.
fn is_void_at(v: &Vec<char>, from: usize, to: usize, mark: Mark) -> (r: bool)
    requires
        from <= to <= v@.len(),
    ensures
        r == is_void(v@.subrange(from as int, to as int), mark),
{
    let ghost component = v@.subrange(from as int, to as int);
    let r: bool = from == to || (to - from == 1 && v[from] == '.' && mark != Mark::Only('\\'));
    assert(component == seq!['.'] <==> component.len() == 1 && component[0] == '.') by {
        if component.len() == 1 && component[0] == '.' {
            assert(component =~= seq!['.']);
        }
    }
    r
}

/// Whether the characters from `from` up to `to` are a name.
fn is_name_at(v: &Vec<char>, from: usize, to: usize) -> (r: bool)
    requires
        from <= to <= v@.len(),
    ensures
        r == is_name(v@.subrange(from as int, to as int)),
{
    let ghost component = v@.subrange(from as int, to as int);
    let dot: bool = to - from == 1 && v[from] == '.';
    let dots: bool = to - from == 2 && v[from] == '.' && v[from + 1] == '.';
    assert(dot <==> component == seq!['.']) by {
        if dot {
            assert(component =~= seq!['.']);
        }
        if component == seq!['.'] {
            assert(component.len() == 1 && component[0] == '.');
        }
    }
    assert(dots <==> component == seq!['.', '.']) by {
        if dots {
            assert(component =~= seq!['.', '.']);
        }
        if component == seq!['.', '.'] {
            assert(component.len() == 2 && component[0] == '.' && component[1] == '.');
        }
    }
    !dot && !dots
}

/// The length of the path without the components at its end that count for
/// nothing.
fn trimmed_len(v: &Vec<char>, end: usize, mark: Mark, start: usize) -> (r: usize)
    requires
        start <= end <= v@.len(),
    ensures
        start <= r <= end,
        v@.take(r as int) == trimmed(v@.take(end as int), mark, start as int),
{
    let mut n: usize = end;
    while n > start
        invariant
            start <= n <= end <= v@.len(),
            trimmed(v@.take(n as int), mark, start as int) == trimmed(
                v@.take(end as int),
                mark,
                start as int,
            ),
        decreases n,
    {
        let ghost s = v@.take(n as int);
        let behind: usize = behind_last(v, n, mark, start);
        assert(last_component(s, mark, start as int) =~= v@.subrange(behind as int, n as int));
        if !is_void_at(v, behind, n, mark) {
            return n;
        }
        let m: usize = if behind == start {
            start
        } else {
            behind - 1
        };
        assert(s.take(rest_len(s, mark, start as int)) =~= v@.take(m as int));
        n = m;
    }
    n
}

/// The name of what the path leads to.
pub fn file_name<'a>(style: Style, path: &'a str) -> (r: Option<&'a str>)
    ensures
        r.deep_view() == name_of(style, path@),
{
    let v: Vec<char> = chars_of(path);
    let shape: Shape = shape_of(style, &v);
    assert(v@.take(v@.len() as int) =~= path@);
    let end: usize = trimmed_len(&v, v.len(), shape.mark, shape.start);
    if end == shape.start {
        return None;
    }
    let behind: usize = behind_last(&v, end, shape.mark, shape.start);
    assert(last_component(v@.take(end as int), shape.mark, shape.start as int) =~= path@.subrange(
        behind as int,
        end as int,
    ));
    if is_name_at(&v, behind, end) {
        Some(path.substring_char(behind, end))
    } else {
        None
    }
}

/// The path without its last component.
pub fn parent<'a>(style: Style, path: &'a str) -> (r: Option<&'a str>)
    ensures
        r.deep_view() == parent_of(style, path@),
{
    let v: Vec<char> = chars_of(path);
    let shape: Shape = shape_of(style, &v);
    let mark: Mark = shape.mark;
    let start: usize = shape.start;
    assert(v@.take(v@.len() as int) =~= path@);
    let end: usize = trimmed_len(&v, v.len(), mark, start);
    if end > start {
        let ghost t = v@.take(end as int);
        let behind: usize = behind_last(&v, end, mark, start);
        let rest: usize = if behind == start {
            start
        } else {
            behind - 1
        };
        assert(t.take(rest_len(t, mark, start as int)) =~= v@.take(rest as int));
        let n: usize = trimmed_len(&v, rest, mark, start);
        assert(path@.subrange(0, n as int) =~= v@.take(n as int));
        Some(path.substring_char(0, n))
    } else if shape.dotted && shape.prefix == Prefix::Absent {
        assert(path@.subrange(0, 0) =~= Seq::empty());
        Some(path.substring_char(0, 0))
    } else {
        None
    }
}

/// The name of what the path leads to, without its extension.
pub fn file_stem<'a>(style: Style, path: &'a str) -> (r: Option<&'a str>)
    ensures
        r.deep_view() == stem_of(style, path@),
{
    match file_name(style, path) {
        Some(name) => {
            let v: Vec<char> = chars_of(name);
            assert(v@.take(v@.len() as int) =~= name@);
            let behind: usize = behind_last(&v, v.len(), Mark::Only('.'), 0);
            if behind <= 1 {
                Some(name)
            } else {
                assert(name@.subrange(0, behind - 1) =~= name@.take(behind - 1));
                Some(name.substring_char(0, behind - 1))
            }
        },
        None => None,
    }
}

/// The extension of the name that the path leads to.
pub fn extension<'a>(style: Style, path: &'a str) -> (r: Option<&'a str>)
    ensures
        r.deep_view() == extension_of(style, path@),
{
    match file_name(style, path) {
        Some(name) => {
            let v: Vec<char> = chars_of(name);
            assert(v@.take(v@.len() as int) =~= name@);
            let behind: usize = behind_last(&v, v.len(), Mark::Only('.'), 0);
            if behind <= 1 {
                None
            } else {
                assert(name@.subrange(behind as int, name@.len() as int) =~= name@.skip(behind as int));
                Some(name.substring_char(behind, v.len()))
            }
        },
        None => None,
    }
}

/// The components of a path that count for something, and for each whether it
/// is a name and whether it is `..`.
struct Part {
    text: String,
    name: bool,
    up: bool,
}

impl Part {
    spec fn is_fine(self) -> bool {
        &&& self.name == is_name(self.text@)
        &&& self.up == (self.text@ == seq!['.', '.'])
    }
}

spec fn texts(parts: Seq<Part>) -> Seq<Seq<char>> {
    parts.map_values(|part: Part| part.text@)
}

spec fn are_fine(parts: Seq<Part>) -> bool {
    forall|i: int| 0 <= i < parts.len() ==> (#[trigger] parts[i]).is_fine()
}

fn parts_in(path: &str, v: &Vec<char>, end: usize, mark: Mark, start: usize) -> (r: Vec<Part>)
    requires
        v@ == path@,
        start <= end <= v@.len(),
    ensures
        texts(r@) == parts_of(v@.take(end as int), mark, start as int),
        are_fine(r@),
    decreases end,
{
    let ghost s = v@.take(end as int);
    if end == start {
        let r: Vec<Part> = Vec::new();
        assert(texts(r@) =~= Seq::empty());
        return r;
    }
    let behind: usize = behind_last(v, end, mark, start);
    let rest: usize = if behind == start {
        start
    } else {
        behind - 1
    };
    assert(s.take(rest_len(s, mark, start as int)) =~= v@.take(rest as int));
    let ghost component = last_component(s, mark, start as int);
    assert(component =~= v@.subrange(behind as int, end as int));
    let mut r: Vec<Part> = parts_in(path, v, rest, mark, start);
    let ghost before = r@;
    if !is_void_at(v, behind, end, mark) {
        let name: bool = is_name_at(v, behind, end);
        let up: bool = !name && end - behind == 2;
        assert(up <==> component == seq!['.', '.']);
        r.push(Part { text: path.substring_char(behind, end).to_string(), name, up });
        assert(texts(r@) =~= texts(before).push(component));
    }
    r
}

/// Goes along `steps` from `base`.
fn walk(base: Vec<Part>, steps: &Vec<Part>) -> (r: Vec<Part>)
    requires
        are_fine(base@),
        are_fine(steps@),
    ensures
        texts(r@) == walked(texts(base@), texts(steps@)),
        are_fine(r@),
{
    let ghost from = texts(base@);
    let mut r: Vec<Part> = base;
    let mut i: usize = 0;
    assert(texts(steps@.take(0)) =~= Seq::empty());
    while i < steps.len()
        invariant
            i <= steps@.len(),
            are_fine(r@),
            are_fine(steps@),
            texts(r@) == walked(from, texts(steps@.take(i as int))),
        decreases steps@.len() - i,
    {
        let ghost before = r@;
        let ghost now = texts(steps@.take(i + 1));
        assert(now.drop_last() =~= texts(steps@.take(i as int)));
        assert(now.last() == steps@[i as int].text@);
        let step: &Part = &steps[i];
        if step.name {
            r.push(Part { text: step.text.clone(), name: true, up: false });
            assert(texts(r@) =~= texts(before).push(step.text@));
        } else if step.up && r.len() > 0 && r[r.len() - 1].name {
            assert(texts(before).last() == before.last().text@);
            let _ = r.pop();
            assert(texts(r@) =~= texts(before).drop_last());
        } else {
            if r.len() > 0 {
                assert(texts(before).last() == before.last().text@);
            }
        }
        i += 1;
    }
    assert(steps@.take(steps@.len() as int) =~= steps@);
    r
}

/// Writes the components with a backslash between each two.
fn put_backslashes(parts: &Vec<Part>) -> (r: String)
    ensures
        r@ == with_backslashes(texts(parts@)),
{
    proof {
        reveal_strlit("\\");
    }
    let mut r: String = String::new();
    let mut i: usize = 0;
    assert(texts(parts@.take(0)) =~= Seq::empty());
    while i < parts.len()
        invariant
            i <= parts@.len(),
            "\\"@ == seq!['\\'],
            r@ == with_backslashes(texts(parts@.take(i as int))),
        decreases parts@.len() - i,
    {
        let ghost now = texts(parts@.take(i + 1));
        assert(now.drop_last() =~= texts(parts@.take(i as int)));
        assert(now.last() == parts@[i as int].text@);
        if i > 0 {
            r.append("\\");
        }
        r.append(parts[i].text.as_str());
        assert(r@ =~= with_backslashes(now));
        i += 1;
    }
    assert(parts@.take(parts@.len() as int) =~= parts@);
    r
}

/// `path` as seen from the verbatim directory `dir`.
fn join_verbatim(dir: &str, path: &str) -> (r: String)
    ensures
        r@ == joined_verbatim(dir@, path@),
{
    let d: Vec<char> = chars_of(dir);
    let p: Vec<char> = chars_of(path);
    let dir_shape: Shape = shape_of(Style::Windows, &d);
    let path_shape: Shape = shape_of(Style::Windows, &p);
    assert(d@.take(d@.len() as int) =~= dir@);
    assert(p@.take(p@.len() as int) =~= path@);
    let base: Vec<Part> = if path_shape.rooted {
        Vec::new()
    } else {
        parts_in(dir, &d, d.len(), Mark::Only('\\'), dir_shape.start)
    };
    if path_shape.rooted {
        assert(texts(base@) =~= Seq::empty());
    }
    let steps: Vec<Part> = parts_in(path, &p, p.len(), Mark::EitherSlash, path_shape.start);
    let parts: Vec<Part> = walk(base, &steps);
    let mut r: String = dir.substring_char(0, dir_shape.prefix_len).to_string();
    assert(r@ =~= dir@.take(dir_shape.prefix_len as int));
    assert(texts(parts@).len() == parts@.len());
    if dir_shape.rooted || path_shape.rooted || parts.len() > 0 {
        proof {
            reveal_strlit("\\");
        }
        r.append("\\");
        r.append(put_backslashes(&parts).as_str());
        assert("\\"@ =~= seq!['\\']);
    }
    r
}

/// `path` as seen from the directory `dir`.
pub fn join(style: Style, dir: &str, path: &str) -> (r: String)
    ensures
        r@ == joined(style, dir@, path@),
{
    let d: Vec<char> = chars_of(dir);
    let p: Vec<char> = chars_of(path);
    let dir_shape: Shape = shape_of(style, &d);
    let path_shape: Shape = shape_of(style, &p);
    let marks: Mark = style.marks();
    if path_shape.prefix != Prefix::Absent {
        return path.to_string();
    }
    if dir_shape.prefix == Prefix::Verbatim && p.len() > 0 {
        return join_verbatim(dir, path);
    }
    if path_shape.rooted {
        let mut r: String = dir.substring_char(0, dir_shape.prefix_len).to_string();
        assert(r@ =~= dir@.take(dir_shape.prefix_len as int));
        r.append(path);
        return r;
    }
    let mut r: String = dir.to_string();
    if !(d.len() == 0 || marks.is_at(d[d.len() - 1]) || (dir_shape.prefix == Prefix::Drive
        && d.len() == 2)) {
        proof {
            reveal_strlit("/");
            reveal_strlit("\\");
        }
        match style {
            Style::Posix => r.append("/"),
            Style::Windows => r.append("\\"),
        }
        assert(r@ =~= dir@ + seq![style.separator()]);
    }
    r.append(path);
    r
}

/// What is put behind a directory and a slash is the name, and the directory
/// is the parent, unless the directory itself ends with a slash or a lone dot.
pub proof fn a_name_stands_behind_its_directory(dir: Seq<char>, name: Seq<char>)
    requires
        name.len() > 0,
        !name.contains('/'),
        name != seq!['.'],
        name != seq!['.', '.'],
    ensures
        name_of(Style::Posix, dir + seq!['/'] + name) == Some(name),
        dir.len() == 0 ==> parent_of(Style::Posix, dir + seq!['/'] + name) == Some(seq!['/']),
        dir.len() > 0 && dir.last() != '/' && !(dir.len() > 1 && dir.last() == '.' && dir[dir.len()
            - 2] == '/') ==> parent_of(Style::Posix, dir + seq!['/'] + name) == Some(dir),
{
    let s = dir + seq!['/'] + name;
    let mark = Mark::Only('/');
    let start = body_start(Style::Posix, s);
    let front = dir.len() as int;
    assert(s[front] == '/');
    assert(s.skip(front + 1) =~= name);
    assert forall|k: int| front < k < s.len() implies !mark.has(#[trigger] s[k]) by {
        assert(s[k] == name[k - front - 1]);
        if s[k] == '/' {
            assert(name.contains('/'));
        }
    }
    if front > 0 {
        assert(s[0] == dir[0]);
        assert(start <= front);
        last_at_is_unique(s, mark, start, front);
    } else {
        last_at_is_last(s, mark, start);
    }
    assert(last_component(s, mark, start) == name);
    assert(trimmed(s, mark, start) == s);
    if front == 0 {
        assert(s.take(1) =~= seq!['/']);
    } else if dir.last() != '/' && !(dir.len() > 1 && dir.last() == '.' && dir[dir.len() - 2]
        == '/') {
        assert(s.take(front) =~= dir);
        if dir.len() > start {
            last_at_is_last(dir, mark, start);
            let comp = last_component(dir, mark, start);
            assert(comp.len() > 0);
            assert(comp.last() == dir.last());
            if comp == seq!['.'] {
                assert(comp.len() == 1);
                assert(dir.last() == '.');
                assert(dir.len() > 1 ==> last_at(dir, mark, start) == dir.len() - 2);
                if dir.len() == 1 {
                    assert(is_dotted(Style::Posix, s));
                } else if last_at(dir, mark, start) < start {
                    assert(start == dir.len() - 1);
                    assert(dir[0] == s[0]);
                    if is_dotted(Style::Posix, s) {
                        assert(s[1] == dir[1]);
                    }
                }
            }
        }
        assert(trimmed(dir, mark, start) == dir);
    }
}

/// A name alone is the name, and what is above it is the empty path.
pub proof fn a_lone_name_has_an_empty_parent(name: Seq<char>)
    requires
        name.len() > 0,
        !name.contains('/'),
        name != seq!['.'],
        name != seq!['.', '.'],
    ensures
        name_of(Style::Posix, name) == Some(name),
        parent_of(Style::Posix, name) == Some(Seq::<char>::empty()),
{
    let mark = Mark::Only('/');
    assert forall|k: int| 0 <= k < name.len() implies !mark.has(#[trigger] name[k]) by {
        if name[k] == '/' {
            assert(name.contains('/'));
        }
    }
    if name.len() == 1 && name[0] == '.' {
        assert(name =~= seq!['.']);
    }
    let start = body_start(Style::Posix, name);
    assert(name[0] != '/');
    if name.len() > 1 {
        assert(!mark.has(name[1]));
    }
    assert(start == 0);
    last_at_is_last(name, mark, 0);
    assert(last_component(name, mark, 0) =~= name);
    assert(name.take(0) =~= Seq::<char>::empty());
}

/// A name is its stem, a dot and its extension; without a dot, or with only
/// one in front, it is all stem.
pub proof fn a_name_is_its_stem_and_its_extension(stem: Seq<char>, ext: Seq<char>)
    requires
        !ext.contains('.'),
    ensures
        stem.len() > 0 ==> stem_of_name(stem + seq!['.'] + ext) == stem,
        stem.len() > 0 ==> extension_of_name(stem + seq!['.'] + ext) == Some(ext),
        stem_of_name(ext) == ext,
        extension_of_name(ext) is None,
        stem_of_name(seq!['.'] + ext) == seq!['.'] + ext,
        extension_of_name(seq!['.'] + ext) is None,
{
    let mark = Mark::Only('.');
    assert forall|k: int| 0 <= k < ext.len() implies !mark.has(#[trigger] ext[k]) by {
        if ext[k] == '.' {
            assert(ext.contains('.'));
        }
    }
    last_at_is_last(ext, mark, 0);
    let hidden = seq!['.'] + ext;
    assert forall|k: int| 0 < k < hidden.len() implies !mark.has(#[trigger] hidden[k]) by {
        assert(hidden[k] == ext[k - 1]);
    }
    last_at_is_unique(hidden, mark, 0, 0);
    if stem.len() > 0 {
        let name = stem + seq!['.'] + ext;
        let at = stem.len() as int;
        assert forall|k: int| at < k < name.len() implies !mark.has(#[trigger] name[k]) by {
            assert(name[k] == ext[k - at - 1]);
        }
        last_at_is_unique(name, mark, 0, at);
        assert(name.take(at) =~= stem);
        assert(name.skip(at + 1) =~= ext);
    }
}

/// A slash, or a slash and a dot, at the end of a path changes neither its
/// name nor its parent.
pub proof fn what_counts_for_nothing_changes_nothing(path: Seq<char>)
    requires
        path.len() > 0,
    ensures
        name_of(Style::Posix, path + seq!['/']) == name_of(Style::Posix, path),
        parent_of(Style::Posix, path + seq!['/']) == parent_of(Style::Posix, path),
        name_of(Style::Posix, path + seq!['/', '.']) == name_of(Style::Posix, path),
        parent_of(Style::Posix, path + seq!['/', '.']) == parent_of(Style::Posix, path),
{
    let mark = Mark::Only('/');
    let start = body_start(Style::Posix, path);
    let n = path.len() as int;
    let one = path + seq!['/'];
    let two = path + seq!['/', '.'];
    assert(one[0] == path[0] && two[0] == path[0]);
    if n > 1 {
        assert(one[1] == path[1] && two[1] == path[1]);
    } else {
        assert(one[1] == '/' && two[1] == '/');
    }
    assert(body_start(Style::Posix, one) == start);
    assert(body_start(Style::Posix, two) == start);
    last_at_is_unique(one, mark, start, n);
    assert(two[n] == '/' && two[n + 1] == '.');
    last_at_is_unique(two, mark, start, n);
    assert(last_component(one, mark, start) =~= Seq::<char>::empty());
    assert(last_component(two, mark, start) =~= seq!['.']);
    assert(one.take(n) =~= path);
    assert(two.take(n) =~= path);
    assert(trimmed(one, mark, start) == trimmed(path, mark, start));
    assert(trimmed(two, mark, start) == trimmed(path, mark, start));
}

/// The root and the empty path have neither a name nor a parent, and the way
/// up from a directory has no name.
pub proof fn some_paths_have_no_name(dir: Seq<char>)
    requires
        dir.len() > 0,
    ensures
        name_of(Style::Posix, Seq::empty()) is None,
        parent_of(Style::Posix, Seq::empty()) is None,
        name_of(Style::Posix, seq!['/']) is None,
        parent_of(Style::Posix, seq!['/']) is None,
        name_of(Style::Posix, dir + seq!['/', '.', '.']) is None,
{
    let mark = Mark::Only('/');
    let root = seq!['/'];
    assert(body_start(Style::Posix, root) == 1);
    let up = dir + seq!['/', '.', '.'];
    let n = dir.len() as int;
    let start = body_start(Style::Posix, up);
    assert(up[0] == dir[0]);
    assert(up[n] == '/' && up[n + 1] == '.' && up[n + 2] == '.');
    last_at_is_unique(up, mark, start, n);
    assert(last_component(up, mark, start) =~= seq!['.', '.']);
}

/// On POSIX systems a path that starts at the root replaces the directory;
/// any other is put behind it, with one slash between them.
pub proof fn a_path_is_put_behind_a_directory(dir: Seq<char>, path: Seq<char>)
    ensures
        path.len() > 0 && path[0] == '/' ==> joined(Style::Posix, dir, path) == path,
        (path.len() == 0 || path[0] != '/') && (dir.len() == 0 || dir.last() == '/') ==> joined(
            Style::Posix,
            dir,
            path,
        ) == dir + path,
        (path.len() == 0 || path[0] != '/') && dir.len() > 0 && dir.last() != '/' ==> joined(
            Style::Posix,
            dir,
            path,
        ) == dir + seq!['/'] + path,
{
    if path.len() > 0 && path[0] == '/' {
        assert(dir.take(0) + path =~= path);
    }
}

/// The text with a slash for each backslash.
pub open spec fn slashed(s: Seq<char>) -> Seq<char> {
    s.map_values(
        |c: char|
            if c == '\\' {
                '/'
            } else {
                c
            },
    )
}

/// Whether a Windows path has nothing in front: no colon in it, and no two
/// slashes at its beginning.
pub open spec fn is_bare(s: Seq<char>) -> bool {
    &&& !s.contains(':')
    &&& !(s.len() > 1 && (s[0] == '/' || s[0] == '\\') && (s[1] == '/' || s[1] == '\\'))
}

proof fn bare_paths_have_no_prefix(s: Seq<char>)
    requires
        is_bare(s),
    ensures
        windows_prefix(s) == (Prefix::Absent, 0int),
{
    if drive_is_there(s, 0) {
        assert(s[1] == ':');
        assert(s.contains(':'));
    }
}

/// On Windows a bare path that is put behind a bare directory gets a backslash
/// in front, where the directory does not end with a slash of either kind.
pub proof fn windows_puts_a_backslash_between(dir: Seq<char>, path: Seq<char>)
    requires
        is_bare(dir),
        is_bare(path),
        path.len() > 0,
        path[0] != '/' && path[0] != '\\',
    ensures
        dir.len() > 0 && dir.last() != '/' && dir.last() != '\\' ==> joined(
            Style::Windows,
            dir,
            path,
        ) == dir + seq!['\\'] + path,
        dir.len() == 0 || dir.last() == '/' || dir.last() == '\\' ==> joined(
            Style::Windows,
            dir,
            path,
        ) == dir + path,
{
    bare_paths_have_no_prefix(dir);
    bare_paths_have_no_prefix(path);
}

proof fn slashing_moves_no_mark(s: Seq<char>, start: int)
    requires
        0 <= start,
    ensures
        last_at(slashed(s), Mark::Only('/'), start) == last_at(s, Mark::EitherSlash, start),
    decreases s.len(),
{
    if s.len() > start && s.len() > 0 {
        assert(slashed(s).drop_last() =~= slashed(s.drop_last()));
        assert(slashed(s).last() == if s.last() == '\\' {
            '/'
        } else {
            s.last()
        });
        slashing_moves_no_mark(s.drop_last(), start);
    }
}

proof fn slashing_keeps_components(s: Seq<char>, start: int)
    requires
        0 <= start <= s.len(),
    ensures
        last_component(slashed(s), Mark::Only('/'), start) == last_component(
            s,
            Mark::EitherSlash,
            start,
        ),
{
    slashing_moves_no_mark(s, start);
    last_at_is_last(s, Mark::EitherSlash, start);
    let at = last_at(s, Mark::EitherSlash, start) + 1;
    assert forall|k: int| at <= k < s.len() implies slashed(s)[k] == s[k] by {
        assert(!Mark::EitherSlash.has(s[k]));
    }
    assert(slashed(s).skip(at) =~= s.skip(at));
}

proof fn slashing_keeps_what_is_trimmed(s: Seq<char>, start: int)
    requires
        0 <= start <= s.len(),
    ensures
        trimmed(slashed(s), Mark::Only('/'), start) == slashed(
            trimmed(s, Mark::EitherSlash, start),
        ),
    decreases s.len(),
{
    slashing_keeps_components(s, start);
    slashing_moves_no_mark(s, start);
    if s.len() > start && is_void(last_component(s, Mark::EitherSlash, start), Mark::EitherSlash) {
        last_at_is_last(s, Mark::EitherSlash, start);
        let n = rest_len(s, Mark::EitherSlash, start);
        assert(slashed(s).take(n) =~= slashed(s.take(n)));
        slashing_keeps_what_is_trimmed(s.take(n), start);
    }
}

/// On Windows a bare path is read as POSIX systems read it with a slash for
/// each backslash.
pub proof fn windows_reads_a_bare_path_alike(s: Seq<char>)
    requires
        is_bare(s),
    ensures
        name_of(Style::Windows, s) == name_of(Style::Posix, slashed(s)),
        parent_of(Style::Windows, s) is None <==> parent_of(Style::Posix, slashed(s)) is None,
        parent_of(Style::Windows, s) matches Some(p) ==> parent_of(Style::Posix, slashed(s)) == Some(
            slashed(p),
        ),
{
    bare_paths_have_no_prefix(s);
    let t = slashed(s);
    let start = body_start(Style::Windows, s);
    if s.len() > 0 {
        assert(t[0] == if s[0] == '\\' {
            '/'
        } else {
            s[0]
        });
    }
    if s.len() > 1 {
        assert(t[1] == if s[1] == '\\' {
            '/'
        } else {
            s[1]
        });
    }
    assert(body_start(Style::Posix, t) == start);
    assert(is_dotted(Style::Posix, t) == is_dotted(Style::Windows, s));
    slashing_keeps_what_is_trimmed(s, start);
    let m = trimmed(s, Mark::EitherSlash, start);
    trimmed_is_tight(s, Mark::EitherSlash, start);
    slashing_keeps_components(m, start);
    if m.len() > start {
        last_at_is_last(m, Mark::EitherSlash, start);
        slashing_moves_no_mark(m, start);
        let n = rest_len(m, Mark::EitherSlash, start);
        assert(slashed(m).take(n) =~= slashed(m.take(n)));
        slashing_keeps_what_is_trimmed(m.take(n), start);
    } else {
        assert(slashed(Seq::<char>::empty()) =~= Seq::<char>::empty());
    }
}

proof fn a_front_moves_marks(front: Seq<char>, s: Seq<char>, mark: Mark, start: int)
    requires
        0 <= start,
    ensures
        last_at(front + s, mark, front.len() + start) == front.len() + last_at(s, mark, start),
    decreases s.len(),
{
    if s.len() > start && s.len() > 0 {
        assert((front + s).drop_last() =~= front + s.drop_last());
        assert((front + s).last() == s.last());
        a_front_moves_marks(front, s.drop_last(), mark, start);
    }
}

proof fn a_front_keeps_what_is_trimmed(front: Seq<char>, s: Seq<char>, mark: Mark, start: int)
    requires
        0 <= start <= s.len(),
    ensures
        last_component(front + s, mark, front.len() + start) == last_component(s, mark, start),
        trimmed(front + s, mark, front.len() + start) == front + trimmed(s, mark, start),
    decreases s.len(),
{
    a_front_moves_marks(front, s, mark, start);
    last_at_is_last(s, mark, start);
    let at = last_at(s, mark, start) + 1;
    assert((front + s).skip(front.len() + at) =~= s.skip(at));
    if s.len() > start && is_void(last_component(s, mark, start), mark) {
        let n = rest_len(s, mark, start);
        assert((front + s).take(front.len() + n) =~= front + s.take(n));
        a_front_keeps_what_is_trimmed(front, s.take(n), mark, start);
    }
}

/// On Windows what stands behind a drive is read as POSIX systems read it with
/// a slash for each backslash, and the drive stays in front of the parent.
pub proof fn windows_reads_on_behind_a_drive(letter: char, rest: Seq<char>)
    requires
        'a' <= letter <= 'z' || 'A' <= letter <= 'Z',
    ensures
        name_of(Style::Windows, seq![letter, ':'] + rest) == name_of(Style::Posix, slashed(rest)),
        name_of(Style::Posix, slashed(rest)) is Some ==> parent_of(
            Style::Windows,
            seq![letter, ':'] + rest,
        ) is Some,
        parent_of(Style::Windows, seq![letter, ':'] + rest) matches Some(p)
            ==> seq![letter, ':'].is_prefix_of(p) && parent_of(Style::Posix, slashed(rest)) == Some(
            slashed(p.skip(2)),
        ),
{
    let front = seq![letter, ':'];
    let s = front + rest;
    let t = slashed(rest);
    let mark = Mark::EitherSlash;
    assert(s[0] == letter && s[1] == ':');
    assert(windows_prefix(s) == (Prefix::Drive, 2int));
    let start = body_start(Style::Posix, t);
    if rest.len() > 0 {
        assert(s[2] == rest[0]);
        assert(t[0] == if rest[0] == '\\' {
            '/'
        } else {
            rest[0]
        });
    }
    if rest.len() > 1 {
        assert(s[3] == rest[1]);
        assert(t[1] == if rest[1] == '\\' {
            '/'
        } else {
            rest[1]
        });
    }
    assert(body_start(Style::Windows, s) == 2 + start);
    a_front_keeps_what_is_trimmed(front, rest, mark, start);
    slashing_keeps_what_is_trimmed(rest, start);
    let m = trimmed(rest, mark, start);
    trimmed_is_tight(rest, mark, start);
    slashing_keeps_components(m, start);
    a_front_keeps_what_is_trimmed(front, m, mark, start);
    if m.len() > start {
        last_at_is_last(m, mark, start);
        slashing_moves_no_mark(m, start);
        a_front_moves_marks(front, m, mark, start);
        let n = rest_len(m, mark, start);
        assert(slashed(m).take(n) =~= slashed(m.take(n)));
        assert((front + m).take(2 + n) =~= front + m.take(n));
        slashing_keeps_what_is_trimmed(m.take(n), start);
        a_front_keeps_what_is_trimmed(front, m.take(n), mark, start);
        let p = front + trimmed(m.take(n), mark, start);
        assert(p.skip(2) =~= trimmed(m.take(n), mark, start));
        assert(p.take(2) =~= front);
    }
}

proof fn first_at_is_unique(s: Seq<char>, mark: Mark, from: int, at: int)
    requires
        0 <= from <= at <= s.len(),
        at < s.len() ==> mark.has(s[at]),
        forall|k: int| from <= k < at ==> !mark.has(#[trigger] s[k]),
    ensures
        first_at(s, mark, from) == at,
    decreases at - from,
{
    if from < at {
        assert(!mark.has(s[from]));
        first_at_is_unique(s, mark, from + 1, at);
    }
}

/// On Windows a share stands in front of the path, and a name behind it is the
/// name; of a share alone there is none.
pub proof fn windows_reads_on_behind_a_share(
    server: Seq<char>,
    share: Seq<char>,
    name: Seq<char>,
)
    requires
        server.len() > 0,
        share.len() > 0,
        name.len() > 0,
        server != seq!['?'],
        server != seq!['.'],
        forall|k: int| 0 <= k < server.len() ==> #[trigger] server[k] != '/' && server[k] != '\\',
        forall|k: int| 0 <= k < share.len() ==> #[trigger] share[k] != '/' && share[k] != '\\',
        forall|k: int| 0 <= k < name.len() ==> #[trigger] name[k] != '/' && name[k] != '\\',
        name != seq!['.'],
        name != seq!['.', '.'],
    ensures
        ({
            let root = seq!['\\', '\\'] + server + seq!['\\'] + share + seq!['\\'];
            &&& name_of(Style::Windows, root + name) == Some(name)
            &&& parent_of(Style::Windows, root + name) == Some(root)
        }),
{
    let root = seq!['\\', '\\'] + server + seq!['\\'] + share + seq!['\\'];
    let s = root + name;
    let mark = Mark::EitherSlash;
    let a = 2 + server.len() as int;
    let b = a + 1 + share.len() as int;
    assert(s[0] == '\\' && s[1] == '\\' && s[a] == '\\' && s[b] == '\\');
    assert forall|k: int| 2 <= k < a implies !mark.has(#[trigger] s[k]) by {
        assert(s[k] == server[k - 2]);
    }
    assert forall|k: int| a + 1 <= k < b implies !mark.has(#[trigger] s[k]) by {
        assert(s[k] == share[k - a - 1]);
    }
    assert forall|k: int| b < k < s.len() implies !mark.has(#[trigger] s[k]) by {
        assert(s[k] == name[k - b - 1]);
    }
    first_at_is_unique(s, mark, 2, a);
    first_at_is_unique(s, mark, a + 1, b);
    if server.len() == 1 {
        assert(server =~= seq![server[0]]);
        assert(s[2] == server[0]);
    } else {
        assert(s[3] == server[1]);
    }
    assert(windows_prefix(s) == (Prefix::Share, b));
    let start = body_start(Style::Windows, s);
    assert(start == b + 1);
    last_at_is_last(s, mark, start);
    assert(last_at(s, mark, start) == start - 1) by {
        if last_at(s, mark, start) >= start {
            assert(mark.has(s[last_at(s, mark, start)]));
        }
    }
    assert(last_component(s, mark, start) =~= name);
    assert(trimmed(s, mark, start) == s);
    assert(s.take(start) =~= root);
}

/// In a verbatim Windows path only the backslash separates, so that a name
/// behind a drive may have slashes in it.
pub proof fn a_verbatim_name_may_have_slashes(letter: char, name: Seq<char>)
    requires
        'a' <= letter <= 'z' || 'A' <= letter <= 'Z',
        name.len() > 0,
        forall|k: int| 0 <= k < name.len() ==> #[trigger] name[k] != '\\',
        name != seq!['.'],
        name != seq!['.', '.'],
    ensures
        ({
            let root = seq!['\\', '\\', '?', '\\', letter, ':', '\\'];
            &&& name_of(Style::Windows, root + name) == Some(name)
            &&& parent_of(Style::Windows, root + name) == Some(root)
        }),
{
    let root = seq!['\\', '\\', '?', '\\', letter, ':', '\\'];
    let s = root + name;
    let mark = Mark::Only('\\');
    assert(s[0] == '\\' && s[1] == '\\' && s[2] == '?' && s[3] == '\\' && s[4] == letter && s[5]
        == ':' && s[6] == '\\');
    assert(windows_prefix(s) == (Prefix::Verbatim, 6int));
    let start = body_start(Style::Windows, s);
    assert(start == 7);
    last_at_is_last(s, mark, start);
    assert(last_at(s, mark, start) == start - 1) by {
        if last_at(s, mark, start) >= start {
            assert(s[last_at(s, mark, start)] == name[last_at(s, mark, start) - 7]);
        }
    }
    assert(last_component(s, mark, start) =~= name);
    assert(trimmed(s, mark, start) == s);
    assert(s.take(start) =~= root);
}

/// A path has a stem just where it has a name, and stem and extension are those
/// of the name.
pub proof fn stem_and_extension_are_those_of_the_name(style: Style, path: Seq<char>)
    ensures
        name_of(style, path) is None ==> stem_of(style, path) is None && extension_of(style, path)
            is None,
        name_of(style, path) matches Some(name) ==> stem_of(style, path) == Some(
            stem_of_name(name),
        ) && extension_of(style, path) == extension_of_name(name),
{
}

/// On Windows a path with a drive replaces the directory, and one that starts
/// at the root keeps nothing of it but its drive.
pub proof fn windows_starts_anew_at_a_drive_or_a_root(
    dir: Seq<char>,
    letter: char,
    rest: Seq<char>,
    rooted: Seq<char>,
)
    requires
        'a' <= letter <= 'z' || 'A' <= letter <= 'Z',
        is_bare(rooted),
        rooted.len() > 0,
        rooted[0] == '/' || rooted[0] == '\\',
    ensures
        joined(Style::Windows, dir, seq![letter, ':'] + rest) == seq![letter, ':'] + rest,
        joined(Style::Windows, seq![letter, ':'] + rest, rooted) == seq![letter, ':'] + rooted,
        is_bare(dir) ==> joined(Style::Windows, dir, rooted) == rooted,
{
    let s = seq![letter, ':'] + rest;
    assert(s[0] == letter && s[1] == ':');
    assert(windows_prefix(s) == (Prefix::Drive, 2int));
    bare_paths_have_no_prefix(rooted);
    assert(s.take(2) =~= seq![letter, ':']);
    if is_bare(dir) {
        bare_paths_have_no_prefix(dir);
        assert(dir.take(0) + rooted =~= rooted);
    }
}

proof fn one_part(s: Seq<char>, mark: Mark, start: int, part: Seq<char>)
    requires
        0 <= start < s.len(),
        s.skip(start) == part,
        forall|k: int| start <= k < s.len() ==> !mark.has(#[trigger] s[k]),
        !is_void(part, mark),
    ensures
        parts_of(s, mark, start) == seq![part],
{
    last_at_is_last(s, mark, start);
    assert(last_at(s, mark, start) == start - 1);
    assert(s.take(start).len() == start);
    assert(parts_of(s.take(start), mark, start) =~= Seq::<Seq<char>>::empty());
    assert(parts_of(s, mark, start) =~= seq![part]);
}

/// A name is put behind a verbatim directory with a backslash, and the way up
/// takes away what it leads out of.
pub proof fn a_verbatim_directory_is_walked(letter: char, first: Seq<char>, name: Seq<char>)
    requires
        'a' <= letter <= 'z' || 'A' <= letter <= 'Z',
        first.len() > 0,
        first != seq!['.'],
        first != seq!['.', '.'],
        forall|k: int| 0 <= k < first.len() ==> #[trigger] first[k] != '\\',
        name.len() > 0,
        name != seq!['.'],
        name != seq!['.', '.'],
        !name.contains(':'),
        forall|k: int| 0 <= k < name.len() ==> #[trigger] name[k] != '\\' && name[k] != '/',
    ensures
        ({
            let root = seq!['\\', '\\', '?', '\\', letter, ':', '\\'];
            &&& joined(Style::Windows, root + first, name) == root + first + seq!['\\'] + name
            &&& joined(Style::Windows, root + first, seq!['.', '.', '\\'] + name) == root + name
        }),
{
    let root = seq!['\\', '\\', '?', '\\', letter, ':', '\\'];
    let dir = root + first;
    let mark = Mark::Only('\\');
    let either = Mark::EitherSlash;
    assert(dir[0] == '\\' && dir[1] == '\\' && dir[2] == '?' && dir[3] == '\\' && dir[4] == letter
        && dir[5] == ':' && dir[6] == '\\');
    assert(windows_prefix(dir) == (Prefix::Verbatim, 6int));
    assert(body_start(Style::Windows, dir) == 7);
    assert forall|k: int| 7 <= k < dir.len() implies !mark.has(#[trigger] dir[k]) by {
        assert(dir[k] == first[k - 7]);
    }
    assert(dir.skip(7) =~= first);
    one_part(dir, mark, 7, first);
    assert(dir.take(6) + seq!['\\'] =~= root);
    // The name alone.
    if name.len() > 1 {
        assert(name[1] != '/' && name[1] != '\\');
    }
    assert(name[0] != '/' && name[0] != '\\');
    bare_paths_have_no_prefix(name);
    if name.len() == 1 {
        assert(name =~= seq![name[0]]);
    }
    assert(body_start(Style::Windows, name) == 0);
    assert(name.skip(0) =~= name);
    one_part(name, either, 0, name);
    let one = seq![first];
    assert(walked(one, seq![name]) =~= one.push(name)) by {
        assert(seq![name].drop_last() =~= Seq::<Seq<char>>::empty());
        assert(walked(one, seq![name].drop_last()) == one);
    }
    let both = one.push(name);
    assert(both.drop_last() =~= one);
    assert(with_backslashes(one) == first);
    assert(with_backslashes(both) == first + seq!['\\'] + name);
    assert(dir.take(6) + seq!['\\'] + (first + seq!['\\'] + name) =~= root + first + seq!['\\']
        + name);
    // The name behind the way up.
    let up = seq!['.', '.', '\\'] + name;
    assert(up[0] == '.' && up[1] == '.' && up[2] == '\\');
    assert(!up.contains(':')) by {
        if up.contains(':') {
            let k = choose|k: int| 0 <= k < up.len() && up[k] == ':';
            assert(up[k] == name[k - 3]);
            assert(name.contains(':'));
        }
    }
    bare_paths_have_no_prefix(up);
    assert(body_start(Style::Windows, up) == 0);
    assert forall|k: int| 2 < k < up.len() implies !either.has(#[trigger] up[k]) by {
        assert(up[k] == name[k - 3]);
    }
    last_at_is_unique(up, either, 0, 2);
    assert(up.skip(3) =~= name);
    let dots = seq!['.', '.'];
    assert(up.take(2) =~= dots);
    assert(dots.skip(0) =~= dots);
    one_part(dots, either, 0, dots);
    assert(parts_of(up, either, 0) =~= seq![dots, name]);
    let steps = seq![dots, name];
    assert(steps.drop_last() =~= seq![dots]);
    assert(seq![dots].drop_last() =~= Seq::<Seq<char>>::empty());
    assert(walked(one, seq![dots].drop_last()) == one);
    assert(one.drop_last() =~= Seq::<Seq<char>>::empty());
    assert(walked(one, seq![dots]) =~= Seq::<Seq<char>>::empty());
    assert(walked(one, steps) =~= seq![name]);
    assert(with_backslashes(seq![name]) == name);
    assert(dir.take(6) + seq!['\\'] + name =~= root + name);
}

} // verus!
