//! Local file paths, as the bytes that the operating system knows them by.
use vstd::prelude::*;
use vstd::utf8::{
    decode_utf8, encode_utf8, encode_utf8_decode_utf8, encode_utf8_valid_utf8, valid_utf8,
};

use crate::outside::{from_utf8, from_utf8_lossy, lossy_text};
use crate::system::{
    cuts, find_name_end, find_prefix, is_cut, is_separator, lemma_name_end, lemma_name_ends,
    lemma_prefix, name_end, parts_names, prefix_of, separator, separator_byte, System, BACKSLASH,
    DOT, SLASH,
};

verus! {

/// A local path. It need not be text.
pub struct FilePath {
    bytes: Vec<u8>,
}

impl View for FilePath {
    type V = Seq<u8>;

    closed spec fn view(&self) -> Seq<u8> {
        self.bytes@
    }
}

/// Whether a path is written as a directory, with a `/` at its end.
pub open spec fn ends_in_slash(path: Seq<u8>) -> bool {
    path.len() > 0 && path.last() == SLASH
}

/// How many bytes behind its prefix stand for the root.
pub open spec fn root_len(path: Seq<u8>, system: System) -> nat {
    let prefix = prefix_of(path, system).len;
    if path.len() > prefix && parts_names(path[prefix as int], system) {
        1
    } else {
        0
    }
}

/// How many bytes stand for the current directory where a path starts there: one for a `.`
/// in front of all names.
pub open spec fn here_len(path: Seq<u8>, system: System) -> nat {
    let prefix = prefix_of(path, system);
    let at = prefix.len as int;
    if root_len(path, system) == 0 && (prefix.len == 0 || prefix.drive) && path.len() > at
        && path[at] == DOT && (path.len() == at + 1 || parts_names(path[at + 1], system)) {
        1
    } else {
        0
    }
}

/// How many bytes of a path stand in front of its names: its prefix, its root and a leading
/// `.`.
pub open spec fn anchor_len(path: Seq<u8>, system: System) -> nat {
    prefix_of(path, system).len + root_len(path, system) + here_len(path, system)
}

/// A path without what names nothing at its end: separators and, in a path that is not
/// verbatim, names that are a single `.`. The first `anchor` bytes stay.
pub open spec fn trimmed_to(path: Seq<u8>, anchor: nat, verbatim: bool, system: System) -> Seq<u8>
    decreases path.len(),
{
    if path.len() <= anchor {
        path
    } else if cuts(path.last(), verbatim, system) || (!verbatim && path.last() == DOT && (
    path.len() == anchor + 1 || cuts(path[path.len() - 2], verbatim, system))) {
        trimmed_to(path.drop_last(), anchor, verbatim, system)
    } else {
        path
    }
}

/// A path without its last name. The first `anchor` bytes stay.
pub open spec fn without_name(path: Seq<u8>, anchor: nat, verbatim: bool, system: System) -> Seq<u8>
    decreases path.len(),
{
    if path.len() <= anchor || cuts(path.last(), verbatim, system) {
        path
    } else {
        without_name(path.drop_last(), anchor, verbatim, system)
    }
}

/// A path without what names nothing at its end.
pub open spec fn trimmed(path: Seq<u8>, system: System) -> Seq<u8> {
    trimmed_to(path, anchor_len(path, system), prefix_of(path, system).verbatim, system)
}

/// The directory that a path lies in: the path without its last name, and the empty path
/// for one that is but a `.`. A path that is no more than a prefix and a root lies in none,
/// and neither does the empty path.
pub open spec fn parent_path(path: Seq<u8>, system: System) -> Option<Seq<u8>> {
    let prefix = prefix_of(path, system);
    let anchor = anchor_len(path, system);
    let named = trimmed(path, system);
    if named.len() > anchor {
        Some(
            trimmed_to(
                without_name(named, anchor, prefix.verbatim, system),
                anchor,
                prefix.verbatim,
                system,
            ),
        )
    } else if prefix.len == 0 && here_len(path, system) == 1 {
        Some(seq![])
    } else {
        None
    }
}

/// A path and the directories above it, innermost first, as far as they are not empty.
pub open spec fn upward(path: Seq<u8>, system: System) -> Seq<Seq<u8>>
    decreases path.len(),
{
    match parent_path(path, system) {
        Some(parent) => if 0 < parent.len() < path.len() {
            seq![path] + upward(parent, system)
        } else {
            seq![path]
        },
        None => seq![path],
    }
}

/// The names in a path from `from` on. A `.` is a name in a verbatim path alone.
pub open spec fn names_from(path: Seq<u8>, from: int, verbatim: bool, system: System) -> Seq<
    Seq<u8>,
>
    decreases path.len() - from + 1,
{
    if from < 0 || from >= path.len() {
        seq![]
    } else {
        let end = name_end(path, from, verbatim, system);
        if end < from || end > path.len() {
            seq![]
        } else {
            let name = path.subrange(from, end);
            let rest = names_from(path, end + 1, verbatim, system);
            if name.len() == 0 || (!verbatim && name == seq![DOT]) {
                rest
            } else {
                seq![name] + rest
            }
        }
    }
}

/// Where a name leads from a list of names: into it, or with `..` out of the last one, where
/// that is the name of something.
pub open spec fn stepped(names: Seq<Seq<u8>>, name: Seq<u8>) -> Seq<Seq<u8>> {
    if name == seq![DOT, DOT] {
        if names.len() > 0 && names.last() != seq![DOT] && names.last() != seq![DOT, DOT] {
            names.drop_last()
        } else {
            names
        }
    } else {
        names.push(name)
    }
}

/// Where several names lead from a list of names, one after the other.
pub open spec fn walked(names: Seq<Seq<u8>>, steps: Seq<Seq<u8>>) -> Seq<Seq<u8>>
    decreases steps.len(),
{
    if steps.len() == 0 {
        names
    } else {
        stepped(walked(names, steps.drop_last()), steps.last())
    }
}

/// Names with a backslash in front of each.
pub open spec fn listed(names: Seq<Seq<u8>>) -> Seq<u8>
    decreases names.len(),
{
    if names.len() == 0 {
        seq![]
    } else {
        listed(names.drop_last()) + seq![BACKSLASH] + names.last()
    }
}

/// `name` below a verbatim directory: what it leads to is written out behind the prefix,
/// for a verbatim path is taken as it is.
pub open spec fn joined_verbatim(base: Seq<u8>, name: Seq<u8>, system: System) -> Seq<u8> {
    let prefix = prefix_of(base, system).len as int;
    let root = root_len(base, system);
    let rooted = name.len() > 0 && parts_names(name[0], system);
    let names = walked(
        if rooted {
            seq![]
        } else {
            names_from(base, prefix + root, true, system)
        },
        names_from(name, 0, false, system),
    );
    base.take(prefix) + (if names.len() == 0 && (rooted || root == 1) {
        seq![BACKSLASH]
    } else {
        listed(names)
    })
}

/// `name` below the directory `base`: the two with the system's separator between them
/// where one is missing. A `name` with a prefix stands for itself, and one with a root stands
/// behind the prefix of `base`.
pub open spec fn joined(base: Seq<u8>, name: Seq<u8>, system: System) -> Seq<u8> {
    let prefix = prefix_of(base, system);
    if prefix_of(name, system).len > 0 {
        name
    } else if prefix.verbatim && name.len() > 0 {
        joined_verbatim(base, name, system)
    } else if name.len() > 0 && parts_names(name[0], system) {
        base.take(prefix.len as int) + name
    } else if base.len() == 0 || parts_names(base.last(), system) || (prefix.drive && prefix.len
        == base.len()) {
        base + name
    } else {
        base.push(separator(system)) + name
    }
}

/// A path of Windows with the replacement character for each unpaired surrogate in it.
pub open spec fn mended(path: Seq<u8>) -> Seq<u8>
    decreases path.len(),
{
    if path.len() == 0 {
        seq![]
    } else if path.len() >= 3 && path[0] == 0xed && 0xa0 <= path[1] <= 0xbf && 0x80 <= path[2]
        <= 0xbf {
        seq![0xefu8, 0xbfu8, 0xbdu8] + mended(path.skip(3))
    } else {
        seq![path[0]] + mended(path.skip(1))
    }
}

/// Bytes as text, with a replacement character for what is not.
pub open spec fn as_text(bytes: Seq<u8>) -> Seq<char> {
    if valid_utf8(bytes) {
        decode_utf8(bytes)
    } else {
        lossy_text(bytes)
    }
}

/// How a path is shown to people: as text, with a replacement character for what is
/// not.
pub open spec fn shown(path: Seq<u8>, system: System) -> Seq<char> {
    if system == System::Windows && !valid_utf8(path) {
        as_text(mended(path))
    } else {
        as_text(path)
    }
}

/// A path in a record: as text, or `?` where it is not text.
pub open spec fn text_or_mark(path: Seq<u8>) -> Seq<char> {
    if valid_utf8(path) {
        decode_utf8(path)
    } else {
        "?"@
    }
}

/// The view of an optional path.
pub open spec fn opt_path(path: Option<FilePath>) -> Option<Seq<u8>> {
    match path {
        Some(p) => Some(p@),
        None => None,
    }
}

/// The view of an optional borrowed path.
pub open spec fn ref_path(path: Option<&FilePath>) -> Option<Seq<u8>> {
    match path {
        Some(p) => Some(p@),
        None => None,
    }
}

impl FilePath {
    /// The path of these bytes.
    pub fn from_bytes(bytes: Vec<u8>) -> (path: FilePath)
        ensures
            path@ == bytes@,
    {
        FilePath { bytes }
    }

    /// The path that `text` spells.
    pub fn from_text(text: &str) -> (path: FilePath)
        ensures
            path@ == encode_utf8(text@),
    {
        FilePath { bytes: text.as_bytes_vec() }
    }

    /// The bytes of the path.
    pub fn as_bytes(&self) -> (bytes: &[u8])
        ensures
            bytes@ == self@,
    {
        self.bytes.as_slice()
    }

    /// Another copy of the path.
    pub fn copy(&self) -> (path: FilePath)
        ensures
            path@ == self@,
    {
        FilePath { bytes: vstd::slice::slice_to_vec(self.bytes.as_slice()) }
    }

    /// Whether the path has no bytes.
    pub fn is_empty(&self) -> (empty: bool)
        ensures
            empty == (self@.len() == 0),
    {
        self.bytes.len() == 0
    }

    /// Whether the path is written as a directory.
    pub fn ends_with_slash(&self) -> (ends: bool)
        ensures
            ends == ends_in_slash(self@),
    {
        let n: usize = self.bytes.len();
        n > 0 && self.bytes[n - 1] == SLASH
    }

    /// `name` below this directory.
    pub fn join(&self, name: &str, system: System) -> (path: FilePath)
        ensures
            path@ == joined(self@, encode_utf8(name@), system),
    {
        let mut tail: Vec<u8> = name.as_bytes_vec();
        if find_prefix(&tail, system).len > 0 {
            return FilePath { bytes: tail };
        }
        let prefix = find_prefix(&self.bytes, system);
        if prefix.verbatim && tail.len() > 0 {
            return FilePath { bytes: join_verbatim(&self.bytes, &tail, system) };
        }
        if tail.len() > 0 && is_separator(tail[0], system) {
            let mut bytes: Vec<u8> = first_bytes(&self.bytes, prefix.len);
            bytes.append(&mut tail);
            return FilePath { bytes };
        }
        let mut bytes: Vec<u8> = vstd::slice::slice_to_vec(self.bytes.as_slice());
        let n: usize = bytes.len();
        if n > 0 && !is_separator(bytes[n - 1], system) && !(prefix.drive && prefix.len == n) {
            bytes.push(separator_byte(system));
        }
        bytes.append(&mut tail);
        FilePath { bytes }
    }

    /// The path as people are shown it.
    pub fn show(&self, system: System) -> (text: String)
        ensures
            text@ == shown(self@, system),
    {
        match from_utf8(self.bytes.as_slice()) {
            Some(text) => text,
            None => if system == System::Windows {
                from_utf8_lossy(mend(&self.bytes).as_slice())
            } else {
                from_utf8_lossy(self.bytes.as_slice())
            },
        }
    }

    /// The path as text, or `?` where it is not text.
    pub fn text_or_mark(&self) -> (text: String)
        ensures
            text@ == text_or_mark(self@),
    {
        match from_utf8(self.bytes.as_slice()) {
            Some(text) => text,
            None => "?".to_string(),
        }
    }
}

fn first_bytes(bytes: &Vec<u8>, len: usize) -> (first: Vec<u8>)
    requires
        len <= bytes.len(),
    ensures
        first@ == bytes@.take(len as int),
{
    let first = vstd::slice::slice_to_vec(
        vstd::slice::slice_subrange(bytes.as_slice(), 0, len),
    );
    assert(first@ =~= bytes@.take(len as int));
    first
}

fn mend(bytes: &Vec<u8>) -> (mended_bytes: Vec<u8>)
    ensures
        mended_bytes@ == mended(bytes@),
{
    let mut out: Vec<u8> = Vec::new();
    let mut i: usize = 0;
    let n: usize = bytes.len();
    proof {
        assert(bytes@.skip(0) =~= bytes@);
        assert(out@ + mended(bytes@) =~= mended(bytes@));
    }
    while i < n
        invariant
            i <= n,
            n == bytes.len(),
            out@ + mended(bytes@.skip(i as int)) == mended(bytes@),
        decreases n - i,
    {
        let ghost rest = bytes@.skip(i as int);
        let ghost before = out@;
        if n - i >= 3 && bytes[i] == 0xed && 0xa0 <= bytes[i + 1] && bytes[i + 1] <= 0xbf && 0x80
            <= bytes[i + 2] && bytes[i + 2] <= 0xbf {
            out.push(0xef);
            out.push(0xbf);
            out.push(0xbd);
            proof {
                assert(rest.skip(3) =~= bytes@.skip(i + 3));
                assert(out@ + mended(rest.skip(3)) =~= before + mended(rest));
            }
            i = i + 3;
        } else {
            out.push(bytes[i]);
            proof {
                assert(rest.skip(1) =~= bytes@.skip(i + 1));
                assert(out@ + mended(rest.skip(1)) =~= before + mended(rest));
            }
            i = i + 1;
        }
    }
    assert(bytes@.skip(n as int) =~= seq![]);
    assert(out@ =~= out@ + mended(bytes@.skip(n as int)));
    out
}

fn is_dots(name: &Vec<u8>, count: usize) -> (is: bool)
    requires
        count == 1 || count == 2,
    ensures
        is == (if count == 1 {
            name@ == seq![DOT]
        } else {
            name@ == seq![DOT, DOT]
        }),
{
    if count == 1 {
        let is = name.len() == 1 && name[0] == DOT;
        assert(is ==> name@ =~= seq![DOT]);
        is
    } else {
        let is = name.len() == 2 && name[0] == DOT && name[1] == DOT;
        assert(is ==> name@ =~= seq![DOT, DOT]);
        is
    }
}

spec fn lists(names: Seq<Vec<u8>>) -> Seq<Seq<u8>> {
    names.map_values(|name: Vec<u8>| name@)
}

fn find_names(bytes: &Vec<u8>, from: usize, verbatim: bool, system: System) -> (names: Vec<Vec<u8>>)
    requires
        from <= bytes.len(),
    ensures
        lists(names@) == names_from(bytes@, from as int, verbatim, system),
{
    let mut names: Vec<Vec<u8>> = Vec::new();
    let mut at: usize = from;
    assert(lists(names@) + names_from(bytes@, from as int, verbatim, system) =~= names_from(
        bytes@,
        from as int,
        verbatim,
        system,
    ));
    while at < bytes.len()
        invariant
            at <= bytes.len(),
            lists(names@) + names_from(bytes@, at as int, verbatim, system) == names_from(
                bytes@,
                from as int,
                verbatim,
                system,
            ),
        decreases bytes.len() - at,
    {
        let ghost before = lists(names@);
        let end: usize = find_name_end(bytes, at, verbatim, system);
        proof {
            lemma_name_end(bytes@, at as int, verbatim, system);
        }
        let name: Vec<u8> = vstd::slice::slice_to_vec(
            vstd::slice::slice_subrange(bytes.as_slice(), at, end),
        );
        let ghost text = bytes@.subrange(at as int, end as int);
        assert(name@ =~= text);
        let ghost rest = names_from(bytes@, end + 1, verbatim, system);
        if name.len() == 0 || (!verbatim && is_dots(&name, 1)) {
            assert(names_from(bytes@, at as int, verbatim, system) == rest);
        } else {
            names.push(name);
            proof {
                assert(lists(names@) =~= before.push(text));
                assert(before + (seq![text] + rest) =~= before.push(text) + rest);
            }
        }
        if end == bytes.len() {
            assert(rest =~= seq![]);
            assert(lists(names@) + rest =~= lists(names@));
            return names;
        }
        at = end + 1;
    }
    assert(lists(names@) + names_from(bytes@, at as int, verbatim, system) =~= lists(names@));
    names
}

fn walk(names: &mut Vec<Vec<u8>>, steps: Vec<Vec<u8>>)
    ensures
        lists(final(names)@) == walked(lists(old(names)@), lists(steps@)),
{
    let ghost start = lists(names@);
    let mut i: usize = 0;
    assert(lists(steps@).take(0) =~= seq![]);
    while i < steps.len()
        invariant
            i <= steps.len(),
            lists(names@) == walked(start, lists(steps@).take(i as int)),
        decreases steps.len() - i,
    {
        let ghost before = lists(names@);
        let ghost taken = lists(steps@).take(i + 1);
        proof {
            assert(taken.drop_last() =~= lists(steps@).take(i as int));
            assert(taken.last() == steps@[i as int]@);
        }
        if is_dots(&steps[i], 2) {
            let n: usize = names.len();
            if n > 0 {
                assert(before.last() == names@[n - 1]@);
                if !is_dots(&names[n - 1], 1) && !is_dots(&names[n - 1], 2) {
                    names.pop();
                    assert(lists(names@) =~= before.drop_last());
                }
            }
        } else {
            names.push(vstd::slice::slice_to_vec(steps[i].as_slice()));
            assert(lists(names@) =~= before.push(steps@[i as int]@));
        }
        i = i + 1;
    }
    assert(lists(steps@).take(steps.len() as int) =~= lists(steps@));
}

fn append_listed(bytes: &mut Vec<u8>, names: Vec<Vec<u8>>)
    ensures
        final(bytes)@ == old(bytes)@ + listed(lists(names@)),
{
    let ghost start = bytes@;
    let mut i: usize = 0;
    assert(lists(names@).take(0) =~= seq![]);
    assert(start + listed(lists(names@).take(0)) =~= start);
    while i < names.len()
        invariant
            i <= names.len(),
            bytes@ == start + listed(lists(names@).take(i as int)),
        decreases names.len() - i,
    {
        let mut name: Vec<u8> = vstd::slice::slice_to_vec(names[i].as_slice());
        bytes.push(BACKSLASH);
        bytes.append(&mut name);
        proof {
            let taken = lists(names@).take(i + 1);
            assert(taken.drop_last() =~= lists(names@).take(i as int));
            assert(taken.last() == names@[i as int]@);
            assert(bytes@ =~= start + listed(taken));
        }
        i = i + 1;
    }
    assert(lists(names@).take(names.len() as int) =~= lists(names@));
}

fn join_verbatim(base: &Vec<u8>, name: &Vec<u8>, system: System) -> (bytes: Vec<u8>)
    ensures
        bytes@ == joined_verbatim(base@, name@, system),
{
    let prefix: usize = find_prefix(base, system).len;
    let has_root = base.len() > prefix && is_separator(base[prefix], system);
    let rooted = name.len() > 0 && is_separator(name[0], system);
    let mut names: Vec<Vec<u8>> = if rooted {
        Vec::new()
    } else if has_root {
        find_names(base, prefix + 1, true, system)
    } else {
        find_names(base, prefix, true, system)
    };
    assert(rooted ==> lists(names@) =~= seq![]);
    walk(&mut names, find_names(name, 0, false, system));
    let mut bytes: Vec<u8> = first_bytes(base, prefix);
    if names.len() == 0 && (rooted || has_root) {
        bytes.push(BACKSLASH);
        assert(bytes@ =~= base@.take(prefix as int) + seq![BACKSLASH]);
    } else {
        append_listed(&mut bytes, names);
    }
    bytes
}

fn trimmed_len(bytes: &Vec<u8>, end: usize, anchor: usize, verbatim: bool, system: System) -> (len:
    usize)
    requires
        end <= bytes.len(),
    ensures
        len <= end,
        bytes@.take(len as int) == trimmed_to(
            bytes@.take(end as int),
            anchor as nat,
            verbatim,
            system,
        ),
    decreases end,
{
    if end > anchor && (is_cut(bytes[end - 1], verbatim, system) || (!verbatim && bytes[end - 1]
        == DOT && (end - 1 == anchor || is_cut(bytes[end - 2], verbatim, system)))) {
        assert(bytes@.take(end as int).drop_last() =~= bytes@.take(end - 1));
        trimmed_len(bytes, end - 1, anchor, verbatim, system)
    } else {
        end
    }
}

fn nameless_len(bytes: &Vec<u8>, end: usize, anchor: usize, verbatim: bool, system: System) -> (len:
    usize)
    requires
        end <= bytes.len(),
    ensures
        len <= end,
        bytes@.take(len as int) == without_name(
            bytes@.take(end as int),
            anchor as nat,
            verbatim,
            system,
        ),
    decreases end,
{
    if end > anchor && !is_cut(bytes[end - 1], verbatim, system) {
        assert(bytes@.take(end as int).drop_last() =~= bytes@.take(end - 1));
        nameless_len(bytes, end - 1, anchor, verbatim, system)
    } else {
        end
    }
}

/// The directory that `path` lies in.
pub fn parent_of(path: &FilePath, system: System) -> (parent: Option<FilePath>)
    ensures
        opt_path(parent) == parent_path(path@, system),
{
    let n: usize = path.bytes.len();
    let prefix = find_prefix(&path.bytes, system);
    let at: usize = prefix.len;
    let root: usize = if n > at && is_separator(path.bytes[at], system) {
        1
    } else {
        0
    };
    let here: usize = if root == 0 && (at == 0 || prefix.drive) && n > at && path.bytes[at] == DOT
        && (n - at == 1 || is_separator(path.bytes[at + 1], system)) {
        1
    } else {
        0
    };
    let anchor: usize = at + root + here;
    assert(path@.take(n as int) =~= path@);
    let named: usize = trimmed_len(&path.bytes, n, anchor, prefix.verbatim, system);
    if named > anchor {
        let dir: usize = nameless_len(&path.bytes, named, anchor, prefix.verbatim, system);
        let len: usize = trimmed_len(&path.bytes, dir, anchor, prefix.verbatim, system);
        Some(FilePath { bytes: first_bytes(&path.bytes, len) })
    } else if at == 0 && here == 1 {
        let none = FilePath { bytes: Vec::new() };
        assert(none@ =~= seq![]);
        Some(none)
    } else {
        None
    }
}

proof fn lemma_trimmed_to(path: Seq<u8>, anchor: nat, verbatim: bool, system: System)
    ensures
        ({
            let t = trimmed_to(path, anchor, verbatim, system);
            &&& t.len() <= path.len()
            &&& t == path.take(t.len() as int)
            &&& t.len() > anchor ==> !cuts(t.last(), verbatim, system)
        }),
    decreases path.len(),
{
    let t = trimmed_to(path, anchor, verbatim, system);
    if path.len() > anchor && (cuts(path.last(), verbatim, system) || (!verbatim && path.last()
        == DOT && (path.len() == anchor + 1 || cuts(path[path.len() - 2], verbatim, system)))) {
        lemma_trimmed_to(path.drop_last(), anchor, verbatim, system);
        assert(path.drop_last().take(t.len() as int) =~= path.take(t.len() as int));
    } else {
        assert(path.take(path.len() as int) =~= path);
    }
}

proof fn lemma_without_name(path: Seq<u8>, anchor: nat, verbatim: bool, system: System)
    ensures
        ({
            let w = without_name(path, anchor, verbatim, system);
            &&& w.len() <= path.len()
            &&& w == path.take(w.len() as int)
            &&& path.len() > anchor && !cuts(path.last(), verbatim, system) ==> w.len()
                < path.len()
        }),
    decreases path.len(),
{
    let w = without_name(path, anchor, verbatim, system);
    if path.len() <= anchor || cuts(path.last(), verbatim, system) {
        assert(path.take(path.len() as int) =~= path);
    } else {
        lemma_without_name(path.drop_last(), anchor, verbatim, system);
        assert(path.drop_last().take(w.len() as int) =~= path.take(w.len() as int));
    }
}

/// The directory of a path is the start of the path, and shorter.
pub proof fn law_parent_is_shorter(path: Seq<u8>, system: System)
    ensures
        parent_path(path, system) matches Some(parent) ==> {
            &&& parent.len() < path.len()
            &&& parent == path.take(parent.len() as int)
        },
{
    let verbatim = prefix_of(path, system).verbatim;
    let anchor = anchor_len(path, system);
    let named = trimmed(path, system);
    let dir = without_name(named, anchor, verbatim, system);
    let parent = trimmed_to(dir, anchor, verbatim, system);
    lemma_trimmed_to(path, anchor, verbatim, system);
    lemma_without_name(named, anchor, verbatim, system);
    lemma_trimmed_to(dir, anchor, verbatim, system);
    assert(path.take(0) =~= seq![]);
    if named.len() > anchor {
        assert(dir.take(parent.len() as int) =~= path.take(parent.len() as int));
    }
}

/// On the way upward the path itself comes first, and then what lies on the way from the
/// directory that it lies in.
pub proof fn law_upward(path: Seq<u8>, system: System)
    ensures
        upward(path, system).len() > 0,
        upward(path, system)[0] == path,
        parent_path(path, system) matches Some(parent) ==> parent.len() > 0 ==> upward(
            path,
            system,
        ) == seq![path] + upward(parent, system),
{
    law_parent_is_shorter(path, system);
}

proof fn lemma_nameless(dir: Seq<u8>, name: Seq<u8>, anchor: nat, system: System)
    requires
        anchor <= dir.len(),
        dir.len() <= anchor || parts_names(dir.last(), system),
        forall|i: int| 0 <= i < name.len() ==> !parts_names(#[trigger] name[i], system),
    ensures
        without_name(dir + name, anchor, false, system) == dir,
    decreases name.len(),
{
    if name.len() == 0 {
        assert(dir + name =~= dir);
    } else {
        assert((dir + name).last() == name.last());
        assert((dir + name).drop_last() =~= dir + name.drop_last());
        lemma_nameless(dir, name.drop_last(), anchor, system);
    }
}

/// What is put into a directory under a plain name lies in that directory. On Windows this
/// is said of directories that are not verbatim and more than a share or device, and of
/// names that do not come to belong to a prefix.
pub proof fn law_parent_of_joined(dir: Seq<u8>, name: Seq<u8>, system: System)
    requires
        dir.len() > 0,
        !prefix_of(dir, system).verbatim,
        prefix_of(dir, system).len < dir.len() || prefix_of(dir, system).drive,
        name.len() > 0,
        name != seq![DOT],
        forall|i: int| 0 <= i < name.len() ==> !parts_names(#[trigger] name[i], system),
        prefix_of(name, system).len == 0,
        prefix_of(joined(dir, name, system), system) == prefix_of(dir, system),
    ensures
        parent_path(joined(dir, name, system), system) == Some(trimmed(dir, system)),
{
    let prefix = prefix_of(dir, system);
    lemma_prefix(dir, system);
    let whole = if parts_names(dir.last(), system) || (prefix.drive && prefix.len == dir.len()) {
        dir
    } else {
        dir.push(separator(system))
    };
    let path = joined(dir, name, system);
    let at = prefix.len as int;
    assert(!parts_names(name[0], system));
    assert(path =~= whole + name);
    assert(path.last() == name.last());
    assert(!parts_names(name.last(), system));
    assert forall|i: int| 0 <= i < dir.len() implies path[i] == dir[i] by {}
    if at < dir.len() {
        assert(path[at] == dir[at]);
        assert(at + 1 < dir.len() ==> path[at + 1] == dir[at + 1]);
        assert(at + 1 == dir.len() && whole.len() == dir.len() + 1 ==> path[at + 1] == separator(
            system,
        ));
        assert(root_len(path, system) == root_len(dir, system));
        assert(here_len(path, system) == here_len(dir, system));
    } else {
        if whole == dir {
            assert(path[at] == name[0]);
            assert(name.len() > 1 ==> path[at + 1] == name[1]);
            if name.len() == 1 && name[0] == DOT {
                assert(name =~= seq![DOT]);
            }
        }
    }
    lemma_joined_parent(dir, whole, name, path, system);
}

proof fn lemma_joined_parent(
    dir: Seq<u8>,
    whole: Seq<u8>,
    name: Seq<u8>,
    path: Seq<u8>,
    system: System,
)
    requires
        !prefix_of(dir, system).verbatim,
        name.len() > 0,
        name != seq![DOT],
        forall|i: int| 0 <= i < name.len() ==> !parts_names(#[trigger] name[i], system),
        path == whole + name,
        whole == dir && (dir.len() <= anchor_len(dir, system) || parts_names(dir.last(), system))
            || whole == dir.push(separator(system)),
        prefix_of(path, system) == prefix_of(dir, system),
        anchor_len(path, system) == anchor_len(dir, system),
        anchor_len(dir, system) <= dir.len(),
    ensures
        parent_path(path, system) == Some(trimmed(dir, system)),
{
    let anchor = anchor_len(dir, system);
    assert(path.last() == name.last());
    if path.last() == DOT && (path.len() == anchor + 1 || parts_names(
        path[path.len() - 2],
        system,
    )) {
        if name.len() >= 2 {
            assert(path[path.len() - 2] == name[name.len() - 2]);
            assert(false);
        } else {
            assert(name =~= seq![DOT]);
        }
    }
    assert(trimmed(path, system) == path);
    lemma_nameless(whole, name, anchor, system);
    if whole != dir {
        assert(whole.drop_last() =~= dir);
        assert(trimmed_to(whole, anchor, false, system) == trimmed_to(dir, anchor, false, system));
    }
}

/// A path that is text is shown and recorded as that text.
pub proof fn law_text_is_kept(text: Seq<char>, system: System)
    ensures
        shown(encode_utf8(text), system) == text,
        text_or_mark(encode_utf8(text)) == text,
{
    encode_utf8_valid_utf8(text);
    encode_utf8_decode_utf8(text);
}

/// How paths are joined with slashes: an absolute name stands for itself, and any other is
/// put behind the directory, with one slash between them where the directory does not end
/// with one.
pub proof fn law_joined_on_unix(base: Seq<u8>, name: Seq<u8>)
    ensures
        ({
            let whole = joined(base, name, System::Unix);
            &&& name.len() > 0 && name[0] == 0x2f ==> whole == name
            &&& !(name.len() > 0 && name[0] == 0x2f) && (base.len() == 0 || base.last() == 0x2f)
                ==> whole == base + name
            &&& !(name.len() > 0 && name[0] == 0x2f) && base.len() > 0 && base.last() != 0x2f
                ==> whole == base + seq![0x2fu8] + name
        }),
{
    assert(base.take(0) + name =~= name);
    assert(base.push(0x2f) + name =~= base + seq![0x2fu8] + name);
}

/// How paths are joined on Windows, where the directory is not verbatim: a name with a
/// prefix stands for itself, one with a root stands behind the prefix of the directory, and
/// any other is put behind the directory, with a backslash between them where the directory
/// does not end with a separator and is more than a drive.
pub proof fn law_joined_on_windows(base: Seq<u8>, name: Seq<u8>)
    requires
        !prefix_of(base, System::Windows).verbatim,
    ensures
        ({
            let whole = joined(base, name, System::Windows);
            let prefix = prefix_of(base, System::Windows);
            let rooted = name.len() > 0 && (name[0] == 0x2f || name[0] == 0x5c);
            let closed = base.len() == 0 || base.last() == 0x2f || base.last() == 0x5c || (
            prefix.drive && base.len() == 2);
            if prefix_of(name, System::Windows).len > 0 {
                whole == name
            } else if rooted {
                whole == base.take(prefix.len as int) + name
            } else if closed {
                whole == base + name
            } else {
                whole == base + seq![0x5cu8] + name
            }
        }),
{
    assert(base.push(0x5c) + name =~= base + seq![0x5cu8] + name);
}

proof fn lemma_trimmed_run(dir: Seq<u8>, n: nat, anchor: nat)
    requires
        anchor <= dir.len(),
        dir.len() > anchor ==> dir.last() != 0x2f,
        dir.len() > anchor && dir.last() == DOT ==> dir.len() > anchor + 1 && dir[dir.len() - 2]
            != 0x2f,
    ensures
        trimmed_to(dir + Seq::new(n, |i: int| 0x2fu8), anchor, false, System::Unix) == dir,
    decreases n,
{
    let run = Seq::new(n, |i: int| 0x2fu8);
    if n == 0 {
        assert(dir + run =~= dir);
    } else {
        let fewer = Seq::new((n - 1) as nat, |i: int| 0x2fu8);
        assert((dir + run).drop_last() =~= dir + fewer);
        assert((dir + run).last() == 0x2f);
        lemma_trimmed_run(dir, (n - 1) as nat, anchor);
    }
}

proof fn lemma_below(whole: Seq<u8>, name: Seq<u8>)
    requires
        whole.len() > 0,
        whole.last() == 0x2f,
        name.len() > 0,
        name != seq![0x2eu8],
        forall|i: int| 0 <= i < name.len() ==> #[trigger] name[i] != 0x2f,
    ensures
        parent_path(whole + name, System::Unix) == Some(trimmed(whole, System::Unix)),
{
    let path = whole + name;
    assert(path[0] == whole[0]);
    assert(whole.len() > 1 ==> path[1] == whole[1]);
    assert forall|i: int| 0 <= i < name.len() implies !parts_names(
        #[trigger] name[i],
        System::Unix,
    ) by {}
    lemma_joined_parent(whole, whole, name, path, System::Unix);
}

/// The directory that a file lies in, on a system with slashes: what stands before the last
/// name and the slashes in front of that, the root for a name behind slashes alone, and the
/// empty path for a name alone.
pub proof fn law_parent_on_unix(dir: Seq<u8>, n: nat, name: Seq<u8>)
    requires
        n > 0,
        name.len() > 0,
        name != seq![0x2eu8],
        forall|i: int| 0 <= i < name.len() ==> #[trigger] name[i] != 0x2f,
        dir.len() > 0,
        dir.last() != 0x2f,
        dir.len() > 1 && dir.last() == 0x2e ==> dir[dir.len() - 2] != 0x2f,
    ensures
        ({
            let run = Seq::new(n, |i: int| 0x2fu8);
            &&& parent_path(dir + run + name, System::Unix) == Some(dir)
            &&& parent_path(run + name, System::Unix) == Some(seq![0x2fu8])
            &&& parent_path(name, System::Unix) == Some(Seq::<u8>::empty())
        }),
{
    let run = Seq::new(n, |i: int| 0x2fu8);
    let whole = dir + run;
    assert(whole.last() == 0x2f);
    assert(whole[0] == dir[0]);
    assert(dir.len() > 1 ==> whole[1] == dir[1]);
    assert(dir.len() == 1 ==> whole[1] == 0x2f);
    lemma_below(whole, name);
    lemma_trimmed_run(dir, n, anchor_len(whole, System::Unix));
    assert(run.last() == 0x2f);
    assert(run[0] == 0x2f);
    lemma_below(run, name);
    let root = seq![0x2fu8];
    assert(run =~= root + Seq::new((n - 1) as nat, |i: int| 0x2fu8));
    lemma_trimmed_run(root, (n - 1) as nat, 1);
    assert(name.len() == 1 ==> name[0] != DOT) by {
        if name.len() == 1 && name[0] == DOT {
            assert(name =~= seq![0x2eu8]);
        }
    }
    assert(anchor_len(name, System::Unix) == 0);
    let none: Seq<u8> = seq![];
    assert(trimmed(name, System::Unix) == name);
    assert(none + name =~= name);
    lemma_nameless(none, name, 0, System::Unix);
}

/// Slashes at the end of a path, and a `.` behind one, change nothing about the directory
/// that it lies in. The root and the empty path lie in none, and `.` lies in the empty path.
pub proof fn law_parent_ignores_ends(path: Seq<u8>)
    requires
        path.len() > 0,
    ensures
        parent_path(path + seq![0x2fu8], System::Unix) == parent_path(path, System::Unix),
        parent_path(path + seq![0x2fu8, 0x2eu8], System::Unix) == parent_path(path, System::Unix),
        parent_path(seq![0x2fu8], System::Unix) is None,
        parent_path(seq![], System::Unix) is None,
        parent_path(seq![0x2eu8], System::Unix) == Some(Seq::<u8>::empty()),
{
    let once = path + seq![0x2fu8];
    let twice = path + seq![0x2fu8, 0x2eu8];
    assert(once.drop_last() =~= path);
    assert(twice.drop_last() =~= once);
    assert(once[0] == path[0] && twice[0] == path[0]);
    assert(path.len() > 1 ==> once[1] == path[1] && twice[1] == path[1]);
    assert(path.len() == 1 ==> once[1] == 0x2f && twice[1] == 0x2f);
    assert(once.last() == 0x2f);
    assert(twice.last() == 0x2e);
    assert(twice[twice.len() - 2] == 0x2f);
    assert(anchor_len(once, System::Unix) == anchor_len(path, System::Unix));
    assert(anchor_len(twice, System::Unix) == anchor_len(path, System::Unix));
}

/// The directory of a path keeps the prefix and the root of the path, and is cut off at a
/// separator or right behind them.
pub proof fn law_parent_keeps_prefix(path: Seq<u8>, system: System)
    ensures
        parent_path(path, system) matches Some(parent) ==> {
            &&& parent.len() >= prefix_of(path, system).len
            &&& path.len() > prefix_of(path, system).len && parts_names(
                path[prefix_of(path, system).len as int],
                system,
            ) ==> parent.len() >= prefix_of(path, system).len + 1
        },
{
    let prefix = prefix_of(path, system);
    let anchor = anchor_len(path, system);
    let named = trimmed(path, system);
    lemma_prefix(path, system);
    if named.len() > anchor {
        lemma_stays_behind_anchor(named, anchor, prefix.verbatim, system);
    }
}

proof fn lemma_stays_behind_anchor(path: Seq<u8>, anchor: nat, verbatim: bool, system: System)
    requires
        path.len() >= anchor,
    ensures
        without_name(path, anchor, verbatim, system).len() >= anchor,
        trimmed_to(path, anchor, verbatim, system).len() >= anchor,
        trimmed_to(
            without_name(path, anchor, verbatim, system),
            anchor,
            verbatim,
            system,
        ).len() >= anchor,
    decreases path.len(),
{
    if path.len() > anchor {
        lemma_stays_behind_anchor(path.drop_last(), anchor, verbatim, system);
    }
}

/// How a path is shown: a path that is text as that text on every system, and any other as
/// the standard library makes text of it, with each unpaired surrogate of Windows replaced.
pub proof fn law_shown(path: Seq<u8>)
    ensures
        valid_utf8(path) ==> shown(path, System::Unix) == decode_utf8(path) && shown(
            path,
            System::Windows,
        ) == decode_utf8(path) && text_or_mark(path) == decode_utf8(path),
        !valid_utf8(path) ==> shown(path, System::Unix) == lossy_text(path) && text_or_mark(path)
            == "?"@,
        !valid_utf8(path) && valid_utf8(mended(path)) ==> shown(path, System::Windows)
            == decode_utf8(mended(path)),
        !valid_utf8(path) && !valid_utf8(mended(path)) ==> shown(path, System::Windows)
            == lossy_text(mended(path)),
{
}

/// Each unpaired surrogate becomes one replacement character, and all other bytes stay.
pub proof fn law_mended(byte: u8, second: u8, third: u8, rest: Seq<u8>)
    ensures
        mended(seq![]) == Seq::<u8>::empty(),
        byte != 0xed ==> mended(seq![byte] + rest) == seq![byte] + mended(rest),
        0xa0 <= second <= 0xbf && 0x80 <= third <= 0xbf ==> mended(
            seq![0xedu8, second, third] + rest,
        ) == seq![0xefu8, 0xbfu8, 0xbdu8] + mended(rest),
        second < 0xa0 ==> mended(seq![0xedu8, second] + rest) == seq![0xedu8] + mended(
            seq![second] + rest,
        ),
{
    assert((seq![byte] + rest).skip(1) =~= rest);
    assert((seq![0xedu8, second, third] + rest).skip(3) =~= rest);
    assert((seq![0xedu8, second] + rest).skip(1) =~= seq![second] + rest);
}

/// The models of optional paths hold the paths themselves.
pub proof fn law_path_models(path: Option<FilePath>)
    ensures
        path is None <==> opt_path(path) is None,
        path matches Some(p) ==> opt_path(path) == Some(p@) && ref_path(Some(&p)) == Some(p@),
        ref_path(None) is None,
        forall|p: Seq<u8>| #[trigger] ends_in_slash(p) <==> p.len() > 0 && p.last() == 0x2f,
{
}

proof fn lemma_listed_front(names: Seq<Seq<u8>>)
    requires
        names.len() > 0,
    ensures
        listed(names) == seq![BACKSLASH] + names[0] + listed(names.drop_first()),
    decreases names.len(),
{
    let front = names.drop_last();
    let none: Seq<Seq<u8>> = seq![];
    if front.len() == 0 {
        assert(front =~= none);
        assert(names.drop_first() =~= none);
        assert(listed(none) =~= seq![]);
        assert(listed(names) =~= seq![BACKSLASH] + names[0] + listed(names.drop_first()));
    } else {
        lemma_listed_front(front);
        assert(names.drop_first().drop_last() =~= front.drop_first());
        assert(listed(names) =~= seq![BACKSLASH] + names[0] + (listed(front.drop_first()) + seq![
            BACKSLASH,
        ] + names.last()));
    }
}

proof fn lemma_names_listed(path: Seq<u8>, from: int, names: Seq<Seq<u8>>)
    requires
        0 < from <= path.len(),
        path.skip(from - 1) == listed(names),
        names.len() > 0,
        forall|i: int| 0 <= i < names.len() ==> (#[trigger] names[i]).len() > 0,
        forall|i: int, j: int|
            0 <= i < names.len() && 0 <= j < names[i].len() ==> #[trigger] names[i][j] != BACKSLASH,
    ensures
        names_from(path, from, true, System::Windows) == names,
    decreases names.len(),
{
    lemma_listed_front(names);
    let tail = names.drop_first();
    let end = from + names[0].len();
    let rest = path.skip(from - 1);
    assert(rest.len() == path.len() - from + 1);
    assert forall|i: int| from <= i < end implies !cuts(
        #[trigger] path[i],
        true,
        System::Windows,
    ) by {
        assert(path[i] == rest[i - from + 1]);
        assert(rest[i - from + 1] == names[0][i - from]);
    }
    assert(path.subrange(from, end) =~= names[0]) by {
        assert forall|k: int| 0 <= k < names[0].len() implies path.subrange(from, end)[k]
            == names[0][k] by {
            assert(path[from + k] == rest[k + 1]);
        }
    }
    if tail.len() == 0 {
        assert(listed(tail) =~= seq![]);
        lemma_name_ends(path, from, end, true);
        assert(names_from(path, end + 1, true, System::Windows) =~= seq![]);
        assert(names =~= seq![names[0]] + names_from(path, end + 1, true, System::Windows));
    } else {
        lemma_listed_front(tail);
        assert(path[end] == rest[end - from + 1]);
        assert(path[end] == BACKSLASH);
        lemma_name_ends(path, from, end, true);
        let lead = seq![BACKSLASH] + names[0];
        assert(rest == lead + listed(tail));
        assert(rest.skip(lead.len() as int) =~= listed(tail));
        assert(path.skip(end) =~= rest.skip(lead.len() as int));
        assert forall|i: int| 0 <= i < tail.len() implies (#[trigger] tail[i]).len() > 0 by {
            assert(tail[i] == names[i + 1]);
        }
        assert forall|i: int, j: int| 0 <= i < tail.len() && 0 <= j < tail[i].len() implies
            #[trigger] tail[i][j] != BACKSLASH by {
            assert(tail[i][j] == names[i + 1][j]);
        }
        lemma_names_listed(path, end + 1, tail);
        assert(names =~= seq![names[0]] + tail);
    }
}

proof fn lemma_single_name(name: Seq<u8>, lead: Seq<u8>)
    requires
        name.len() > 0,
        name != seq![DOT],
        forall|i: int| 0 <= i < name.len() ==> #[trigger] name[i] != SLASH && name[i] != BACKSLASH,
        lead == seq![BACKSLASH] || lead.len() == 0,
    ensures
        names_from(lead + name, 0, false, System::Windows) == seq![name],
{
    let path = lead + name;
    let from = lead.len() as int;
    assert forall|i: int| from <= i < path.len() implies !cuts(
        #[trigger] path[i],
        false,
        System::Windows,
    ) by {
        assert(path[i] == name[i - from]);
    }
    lemma_name_ends(path, from, path.len() as int, false);
    assert(path.subrange(from, path.len() as int) =~= name);
    let none: Seq<Seq<u8>> = seq![];
    assert(names_from(path, path.len() as int + 1, false, System::Windows) =~= none);
    assert(seq![name] + none =~= seq![name]);
    assert(names_from(path, from, false, System::Windows) =~= seq![name]);
    if from == 1 {
        assert(path[0] == BACKSLASH);
        lemma_name_ends(path, 0, 0, false);
        assert(path.subrange(0, 0).len() == 0);
    }
}

/// Below a verbatim directory a plain name is put behind a backslash, `..` takes the last
/// name away, and a name with a root stands right behind the prefix.
pub proof fn law_joined_below_verbatim(prefix: Seq<u8>, names: Seq<Seq<u8>>, name: Seq<u8>)
    requires
        names.len() > 0,
        forall|i: int| 0 <= i < names.len() ==> (#[trigger] names[i]).len() > 0,
        forall|i: int, j: int|
            0 <= i < names.len() && 0 <= j < names[i].len() ==> #[trigger] names[i][j] != 0x5c,
        prefix_of(prefix + listed(names), System::Windows).verbatim,
        prefix_of(prefix + listed(names), System::Windows).len == prefix.len(),
        prefix_of(name, System::Windows).len == 0,
        name.len() > 0,
        name != seq![0x2eu8],
        name != seq![0x2eu8, 0x2eu8],
        forall|i: int| 0 <= i < name.len() ==> #[trigger] name[i] != 0x2f && name[i] != 0x5c,
    ensures
        ({
            let base = prefix + listed(names);
            let back = seq![0x5cu8];
            &&& joined(base, name, System::Windows) == base + back + name
            &&& joined(base, back + name, System::Windows) == prefix + back + name
            &&& names.last() != seq![0x2eu8] && names.last() != seq![0x2eu8, 0x2eu8] ==> joined(
                base,
                seq![0x2eu8, 0x2eu8],
                System::Windows,
            ) == prefix + (if names.len() == 1 {
                back
            } else {
                listed(names.drop_last())
            })
        }),
        listed(seq![]) == Seq::<u8>::empty(),
        listed(names) == listed(names.drop_last()) + seq![0x5cu8] + names.last(),
{
    let base = prefix + listed(names);
    let at = prefix.len() as int;
    let back = seq![0x5cu8];
    let up = seq![0x2eu8, 0x2eu8];
    let none: Seq<Seq<u8>> = seq![];
    let empty: Seq<u8> = seq![];
    lemma_listed_front(names);
    assert(base[at] == listed(names)[0]);
    assert(base.skip(at) =~= listed(names));
    assert(base.take(at) =~= prefix);
    lemma_names_listed(base, at + 1, names);
    lemma_single_name(name, empty);
    lemma_single_name(name, back);
    assert(up.len() != seq![DOT].len());
    lemma_single_name(up, empty);
    assert(empty + name =~= name);
    assert(empty + up =~= up);
    assert(seq![name].drop_last() =~= none);
    assert(seq![up].drop_last() =~= none);
    assert(walked(names, none) == names);
    assert(walked(names, seq![name]) == names.push(name));
    assert(names.push(name).drop_last() =~= names);
    assert(joined(base, name, System::Windows) =~= base + back + name);
    let rooted = back + name;
    assert(rooted[0] == 0x5c);
    assert(rooted[1] == name[0]);
    assert(prefix_of(rooted, System::Windows).len == 0);
    assert(walked(none, none) == none);
    assert(seq![name].last() == name);
    assert(walked(none, seq![name]) == stepped(none, name));
    assert(stepped(none, name) == none.push(name));
    assert(none.push(name).drop_last() =~= none);
    assert(listed(none) =~= empty);
    assert(joined(base, rooted, System::Windows) =~= prefix + back + name);
    assert(walked(names, seq![up]) == stepped(names, up));
    assert(prefix_of(up, System::Windows).len == 0);
    if names.len() == 1 {
        assert(names.drop_last() =~= none);
    }
}

/// The directory that a file lies in below a drive of Windows: what stands before the last
/// name and its separator, and the root of the drive for a name right behind that.
pub proof fn law_parent_below_drive(dir: Seq<u8>, cut: u8, name: Seq<u8>)
    requires
        dir.len() >= 3,
        0x41 <= dir[0] <= 0x5a || 0x61 <= dir[0] <= 0x7a,
        dir[1] == 0x3a,
        dir[2] == 0x2f || dir[2] == 0x5c,
        cut == 0x2f || cut == 0x5c,
        name.len() > 0,
        name != seq![0x2eu8],
        forall|i: int| 0 <= i < name.len() ==> #[trigger] name[i] != 0x2f && name[i] != 0x5c,
    ensures
        dir.len() == 3 ==> parent_path(dir + name, System::Windows) == Some(dir),
        dir.len() == 3 ==> parent_path(dir, System::Windows) is None,
        dir.len() > 3 && dir.last() != 0x2f && dir.last() != 0x5c && dir.last() != 0x2e
            ==> parent_path(dir + seq![cut] + name, System::Windows) == Some(dir),
{
    let whole = if dir.len() == 3 {
        dir
    } else {
        dir + seq![cut]
    };
    let path = whole + name;
    assert(whole[0] == dir[0] && whole[1] == dir[1] && whole[2] == dir[2]);
    assert(path[0] == dir[0] && path[1] == dir[1] && path[2] == dir[2]);
    assert(anchor_len(path, System::Windows) == 3);
    assert(anchor_len(whole, System::Windows) == 3);
    assert(parts_names(whole.last(), System::Windows));
    assert forall|i: int| 0 <= i < name.len() implies !parts_names(
        #[trigger] name[i],
        System::Windows,
    ) by {}
    lemma_joined_parent(whole, whole, name, path, System::Windows);
    if dir.len() > 3 {
        assert(whole.drop_last() =~= dir);
        if dir.last() != 0x2f && dir.last() != 0x5c && dir.last() != 0x2e {
            assert(trimmed_to(dir, 3, false, System::Windows) == dir);
        }
    }
}

} // verus!
