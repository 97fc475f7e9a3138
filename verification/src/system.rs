//! What differs between systems in the writing of paths: separators, and the prefixes that
//! Windows puts in front of a path.
use vstd::prelude::*;

verus! {

/// How a system writes paths.
#[derive(Clone, Copy, PartialEq, Eq, Structural)]
pub enum System {
    /// With `/`, and without prefixes.
    Unix,
    /// With `\` and `/`, behind a drive or another prefix.
    Windows,
}

/// The byte `/`.
pub const SLASH: u8 = 0x2f;

/// The byte `\`.
pub const BACKSLASH: u8 = 0x5c;

/// The byte `.`.
pub const DOT: u8 = 0x2e;

/// The byte `:`.
pub const COLON: u8 = 0x3a;

/// The byte `?`.
pub const QUESTION: u8 = 0x3f;

/// What a system puts between two names.
pub open spec fn separator(system: System) -> u8 {
    match system {
        System::Unix => SLASH,
        System::Windows => BACKSLASH,
    }
}

/// Whether a byte parts the names in a path.
pub open spec fn parts_names(byte: u8, system: System) -> bool {
    byte == SLASH || byte == separator(system)
}

/// Whether a byte parts the names, where a verbatim path takes a backslash alone for that.
pub open spec fn cuts(byte: u8, verbatim: bool, system: System) -> bool {
    if verbatim {
        byte == BACKSLASH
    } else {
        parts_names(byte, system)
    }
}

/// Where the name that starts at `from` ends.
pub open spec fn name_end(path: Seq<u8>, from: int, verbatim: bool, system: System) -> int
    decreases path.len() - from,
{
    if from >= path.len() {
        path.len() as int
    } else if cuts(path[from], verbatim, system) {
        from
    } else {
        name_end(path, from + 1, verbatim, system)
    }
}

/// The prefix of a path.
pub struct PrefixView {
    /// How many bytes it has, none where there is no prefix.
    pub len: nat,
    /// Whether it is a drive such as `C:`, which does not lead to a root by itself.
    pub drive: bool,
    /// Whether the path is verbatim, behind `\\?\`.
    pub verbatim: bool,
}

/// No prefix.
pub open spec fn no_prefix() -> PrefixView {
    PrefixView { len: 0, drive: false, verbatim: false }
}

/// Whether a byte is a letter.
pub open spec fn is_letter(byte: u8) -> bool {
    0x41 <= byte <= 0x5a || 0x61 <= byte <= 0x7a
}

/// Whether a drive such as `C:` stands at `at`.
pub open spec fn drive_at(path: Seq<u8>, at: int) -> bool {
    at + 2 <= path.len() && is_letter(path[at]) && path[at + 1] == COLON
}

/// Whether a path starts with `\\?\`.
pub open spec fn is_verbatim(path: Seq<u8>) -> bool {
    path.len() >= 4 && path[0] == BACKSLASH && path[1] == BACKSLASH && path[2] == QUESTION
        && path[3] == BACKSLASH
}

/// Whether `UNC\` stands behind `\\?\`.
pub open spec fn is_verbatim_share(path: Seq<u8>) -> bool {
    path.len() >= 8 && path[4] == 0x55 && path[5] == 0x4e && path[6] == 0x43 && parts_names(
        path[7],
        System::Windows,
    )
}

/// The length of a verbatim prefix: `\\?\UNC\server\share`, `\\?\C:` or `\\?\name`.
pub open spec fn verbatim_len(path: Seq<u8>) -> int {
    if is_verbatim_share(path) {
        let server = name_end(path, 8, true, System::Windows);
        let share = name_end(path, server + 1, true, System::Windows);
        if share > server + 1 {
            share
        } else {
            server
        }
    } else if drive_at(path, 4) && (path.len() == 6 || parts_names(path[6], System::Windows)) {
        6
    } else {
        name_end(path, 4, true, System::Windows)
    }
}

/// The prefix of a path that starts with two separators: a verbatim one, the device
/// `\\.\name`, or the share `\\server\share`.
pub open spec fn doubled_prefix(path: Seq<u8>) -> PrefixView {
    if is_verbatim(path) {
        PrefixView { len: verbatim_len(path) as nat, drive: false, verbatim: true }
    } else if path.len() >= 4 && path[2] == DOT && parts_names(path[3], System::Windows) {
        let device = name_end(path, 4, false, System::Windows);
        PrefixView { len: device as nat, drive: false, verbatim: false }
    } else {
        let server = name_end(path, 2, false, System::Windows);
        let share = name_end(path, server + 1, false, System::Windows);
        if server > 2 && share > server + 1 {
            PrefixView { len: share as nat, drive: false, verbatim: false }
        } else {
            no_prefix()
        }
    }
}

/// The prefix of a path.
pub open spec fn prefix_of(path: Seq<u8>, system: System) -> PrefixView {
    if system == System::Unix {
        no_prefix()
    } else if path.len() >= 2 && parts_names(path[0], system) && parts_names(path[1], system) {
        doubled_prefix(path)
    } else if drive_at(path, 0) {
        PrefixView { len: 2, drive: true, verbatim: false }
    } else {
        no_prefix()
    }
}

/// What a system puts between two names.
pub fn separator_byte(system: System) -> (byte: u8)
    ensures
        byte == separator(system),
{
    match system {
        System::Unix => SLASH,
        System::Windows => BACKSLASH,
    }
}

/// Whether a byte parts the names in a path.
pub fn is_separator(byte: u8, system: System) -> (is: bool)
    ensures
        is == parts_names(byte, system),
{
    byte == SLASH || byte == separator_byte(system)
}

/// Whether a byte parts the names in a path that may be verbatim.
pub fn is_cut(byte: u8, verbatim: bool, system: System) -> (is: bool)
    ensures
        is == cuts(byte, verbatim, system),
{
    if verbatim {
        byte == BACKSLASH
    } else {
        is_separator(byte, system)
    }
}

/// A name ends where or behind where it starts, and inside the path.
pub proof fn lemma_name_end(path: Seq<u8>, from: int, verbatim: bool, system: System)
    ensures
        name_end(path, from, verbatim, system) <= path.len(),
        from <= path.len() ==> from <= name_end(path, from, verbatim, system),
        forall|i: int|
            from <= i < name_end(path, from, verbatim, system) ==> !cuts(
                #[trigger] path[i],
                verbatim,
                system,
            ),
    decreases path.len() - from,
{
    if from < path.len() && !cuts(path[from], verbatim, system) {
        lemma_name_end(path, from + 1, verbatim, system);
    }
}

/// Where the name that starts at `from` ends.
pub fn find_name_end(bytes: &Vec<u8>, from: usize, verbatim: bool, system: System) -> (end: usize)
    ensures
        end == name_end(bytes@, from as int, verbatim, system),
        end <= bytes.len(),
{
    if from >= bytes.len() {
        return bytes.len();
    }
    let mut end: usize = from;
    while end < bytes.len() && !is_cut(bytes[end], verbatim, system)
        invariant
            from <= end <= bytes.len(),
            name_end(bytes@, from as int, verbatim, system) == name_end(
                bytes@,
                end as int,
                verbatim,
                system,
            ),
        decreases bytes.len() - end,
    {
        end = end + 1;
    }
    end
}

/// The prefix of a path.
pub struct Prefix {
    pub len: usize,
    pub drive: bool,
    pub verbatim: bool,
}

impl View for Prefix {
    type V = PrefixView;

    open spec fn view(&self) -> PrefixView {
        PrefixView { len: self.len as nat, drive: self.drive, verbatim: self.verbatim }
    }
}

fn has_drive_at(bytes: &Vec<u8>, at: usize) -> (has: bool)
    requires
        at <= bytes.len(),
    ensures
        has == drive_at(bytes@, at as int),
{
    if bytes.len() - at < 2 {
        return false;
    }
    let letter: u8 = bytes[at];
    ((0x41 <= letter && letter <= 0x5a) || (0x61 <= letter && letter <= 0x7a)) && bytes[at + 1]
        == COLON
}

fn find_verbatim_len(bytes: &Vec<u8>) -> (len: usize)
    requires
        is_verbatim(bytes@),
    ensures
        len == verbatim_len(bytes@),
        4 <= len <= bytes.len(),
{
    proof {
        lemma_name_end(bytes@, 4, true, System::Windows);
    }
    if bytes.len() >= 8 && bytes[4] == 0x55 && bytes[5] == 0x4e && bytes[6] == 0x43
        && is_separator(bytes[7], System::Windows) {
        proof {
            lemma_name_end(bytes@, 8, true, System::Windows);
        }
        let server: usize = find_name_end(bytes, 8, true, System::Windows);
        if server == bytes.len() {
            return server;
        }
        let share: usize = find_name_end(bytes, server + 1, true, System::Windows);
        if share > server + 1 {
            share
        } else {
            server
        }
    } else if has_drive_at(bytes, 4) && (bytes.len() == 6 || is_separator(
        bytes[6],
        System::Windows,
    )) {
        6
    } else {
        find_name_end(bytes, 4, true, System::Windows)
    }
}

fn find_doubled_prefix(bytes: &Vec<u8>) -> (prefix: Prefix)
    requires
        bytes.len() >= 2,
    ensures
        prefix@ == doubled_prefix(bytes@),
        prefix.len <= bytes.len(),
{
    let n: usize = bytes.len();
    if n >= 4 && bytes[0] == BACKSLASH && bytes[1] == BACKSLASH && bytes[2] == QUESTION && bytes[3]
        == BACKSLASH {
        Prefix { len: find_verbatim_len(bytes), drive: false, verbatim: true }
    } else if n >= 4 && bytes[2] == DOT && is_separator(bytes[3], System::Windows) {
        let device: usize = find_name_end(bytes, 4, false, System::Windows);
        Prefix { len: device, drive: false, verbatim: false }
    } else {
        let server: usize = find_name_end(bytes, 2, false, System::Windows);
        if server == n {
            return Prefix { len: 0, drive: false, verbatim: false };
        }
        let share: usize = find_name_end(bytes, server + 1, false, System::Windows);
        if server > 2 && share > server + 1 {
            Prefix { len: share, drive: false, verbatim: false }
        } else {
            Prefix { len: 0, drive: false, verbatim: false }
        }
    }
}

/// The prefix of a path.
pub fn find_prefix(bytes: &Vec<u8>, system: System) -> (prefix: Prefix)
    ensures
        prefix@ == prefix_of(bytes@, system),
        prefix.len <= bytes.len(),
{
    if system == System::Unix {
        Prefix { len: 0, drive: false, verbatim: false }
    } else if bytes.len() >= 2 && is_separator(bytes[0], system) && is_separator(bytes[1], system) {
        find_doubled_prefix(bytes)
    } else if has_drive_at(bytes, 0) {
        Prefix { len: 2, drive: true, verbatim: false }
    } else {
        Prefix { len: 0, drive: false, verbatim: false }
    }
}

/// A prefix lies within its path.
pub proof fn lemma_prefix(path: Seq<u8>, system: System)
    ensures
        prefix_of(path, system).len <= path.len(),
{
    lemma_name_end(path, 4, true, System::Windows);
    lemma_name_end(path, 8, true, System::Windows);
    lemma_name_end(path, name_end(path, 8, true, System::Windows) + 1, true, System::Windows);
    lemma_name_end(path, 4, false, System::Windows);
    lemma_name_end(path, 2, false, System::Windows);
    lemma_name_end(path, name_end(path, 2, false, System::Windows) + 1, false, System::Windows);
}

pub(crate) proof fn lemma_name_ends(path: Seq<u8>, from: int, end: int, verbatim: bool)
    requires
        0 <= from <= end <= path.len(),
        forall|i: int|
            from <= i < end ==> !cuts(#[trigger] path[i], verbatim, System::Windows),
        end < path.len() ==> cuts(path[end], verbatim, System::Windows),
    ensures
        name_end(path, from, verbatim, System::Windows) == end,
    decreases end - from,
{
    if from < end {
        lemma_name_ends(path, from + 1, end, verbatim);
    }
}

/// Paths with slashes have no prefix. On Windows a letter and a colon are a drive, and a
/// path that starts with neither a drive nor two separators has no prefix.
pub proof fn law_drives(path: Seq<u8>)
    ensures
        prefix_of(path, System::Unix).len == 0,
        !prefix_of(path, System::Unix).verbatim && !prefix_of(path, System::Unix).drive,
        ({
            let drive = path.len() >= 2 && (0x41 <= path[0] <= 0x5a || 0x61 <= path[0] <= 0x7a)
                && path[1] == 0x3a;
            let doubled = path.len() >= 2 && (path[0] == 0x2f || path[0] == 0x5c) && (path[1]
                == 0x2f || path[1] == 0x5c);
            let prefix = prefix_of(path, System::Windows);
            &&& drive ==> prefix.len == 2 && prefix.drive && !prefix.verbatim
            &&& !drive && !doubled ==> prefix.len == 0 && !prefix.drive && !prefix.verbatim
            &&& doubled ==> !prefix.drive
        }),
{
}

/// A share is the prefix up to the end of its name, and a device that behind `\\.\`.
pub proof fn law_shares(lead: Seq<u8>, server: Seq<u8>, cut: u8, share: Seq<u8>, tail: Seq<u8>)
    requires
        lead.len() == 2,
        lead[0] == 0x2f || lead[0] == 0x5c,
        lead[1] == 0x2f || lead[1] == 0x5c,
        cut == 0x2f || cut == 0x5c,
        forall|i: int|
            0 <= i < server.len() ==> #[trigger] server[i] != 0x2f && server[i] != 0x5c,
        forall|i: int| 0 <= i < share.len() ==> #[trigger] share[i] != 0x2f && share[i] != 0x5c,
        server.len() > 0,
        tail.len() > 0 ==> tail[0] == 0x2f || tail[0] == 0x5c,
        !(server == seq![0x3fu8] && lead == seq![0x5cu8, 0x5cu8] && cut == 0x5c),
    ensures
        ({
            let path = lead + server + seq![cut] + share + tail;
            let prefix = prefix_of(path, System::Windows);
            &&& !prefix.verbatim
            &&& server == seq![0x2eu8] ==> prefix.len == 4 + share.len()
            &&& server != seq![0x2eu8] && share.len() > 0 ==> prefix.len == 3 + server.len()
                + share.len()
            &&& server != seq![0x2eu8] && share.len() == 0 ==> prefix.len == 0
        }),
{
    let path = lead + server + seq![cut] + share + tail;
    let first = 2 + server.len() as int;
    let second = first + 1 + share.len();
    assert(path[0] == lead[0] && path[1] == lead[1] && path[2] == server[0] && path[first] == cut);
    assert forall|i: int| 2 <= i < first implies !cuts(
        #[trigger] path[i],
        false,
        System::Windows,
    ) by {
        assert(path[i] == server[i - 2]);
    }
    assert forall|i: int| first + 1 <= i < second implies !cuts(
        #[trigger] path[i],
        false,
        System::Windows,
    ) by {
        assert(path[i] == share[i - first - 1]);
    }
    assert(second < path.len() ==> path[second] == tail[0]);
    lemma_name_ends(path, 2, first, false);
    lemma_name_ends(path, first + 1, second, false);
    if server.len() == 1 {
        assert(path[3] == cut);
        assert(server =~= seq![server[0]]);
        assert(lead =~= seq![lead[0], lead[1]]);
    } else {
        assert(path[3] == server[1]);
        assert(server != seq![0x2eu8]);
    }
}

/// Behind `\\?\` a path is verbatim. Its prefix is a drive or another name there.
pub proof fn law_verbatim_names(name: Seq<u8>, tail: Seq<u8>)
    requires
        forall|i: int| 0 <= i < name.len() ==> #[trigger] name[i] != 0x2f && name[i] != 0x5c,
        name != seq![0x55u8, 0x4eu8, 0x43u8],
        tail.len() > 0 ==> tail[0] == 0x5c,
    ensures
        ({
            let path = seq![0x5cu8, 0x5cu8, 0x3fu8, 0x5cu8] + name + tail;
            let prefix = prefix_of(path, System::Windows);
            prefix.verbatim && !prefix.drive && prefix.len == 4 + name.len()
        }),
{
    let path = seq![0x5cu8, 0x5cu8, 0x3fu8, 0x5cu8] + name + tail;
    let end = 4 + name.len() as int;
    assert forall|i: int| 4 <= i < end implies !cuts(#[trigger] path[i], true, System::Windows)
        && path[i] != 0x2f by {
        assert(path[i] == name[i - 4]);
    }
    assert(end < path.len() ==> path[end] == tail[0]);
    lemma_name_ends(path, 4, end, true);
    if is_verbatim_share(path) {
        assert(parts_names(path[7], System::Windows));
        assert(!(7 < end));
        if end == 7 {
            assert(name[0] == path[4] && name[1] == path[5] && name[2] == path[6]);
            assert(name =~= seq![0x55u8, 0x4eu8, 0x43u8]);
        } else {
            assert(path[end] == 0x5c);
        }
        assert(false);
    }
    if drive_at(path, 4) && (path.len() == 6 || parts_names(path[6], System::Windows)) {
        assert(!(6 < end));
        assert(end >= 6) by {
            if end < 6 {
                assert(path[end] == 0x5c);
            }
        }
    }
}

/// Behind `\\?\UNC\` the prefix is a server and a share.
pub proof fn law_verbatim_shares(server: Seq<u8>, share: Seq<u8>, tail: Seq<u8>)
    requires
        forall|i: int| 0 <= i < server.len() ==> #[trigger] server[i] != 0x5c,
        forall|i: int| 0 <= i < share.len() ==> #[trigger] share[i] != 0x5c,
        share.len() > 0,
        tail.len() > 0 ==> tail[0] == 0x5c,
    ensures
        ({
            let lead = seq![0x5cu8, 0x5cu8, 0x3fu8, 0x5cu8, 0x55u8, 0x4eu8, 0x43u8, 0x5cu8];
            let path = lead + server + seq![0x5cu8] + share + tail;
            let prefix = prefix_of(path, System::Windows);
            prefix.verbatim && !prefix.drive && prefix.len == 9 + server.len() + share.len()
        }),
{
    let lead = seq![0x5cu8, 0x5cu8, 0x3fu8, 0x5cu8, 0x55u8, 0x4eu8, 0x43u8, 0x5cu8];
    let path = lead + server + seq![0x5cu8] + share + tail;
    let first = 8 + server.len() as int;
    let second = first + 1 + share.len();
    assert forall|i: int| 8 <= i < first implies !cuts(
        #[trigger] path[i],
        true,
        System::Windows,
    ) by {
        assert(path[i] == server[i - 8]);
    }
    assert forall|i: int| first + 1 <= i < second implies !cuts(
        #[trigger] path[i],
        true,
        System::Windows,
    ) by {
        assert(path[i] == share[i - first - 1]);
    }
    assert(path[first] == 0x5c);
    assert(second < path.len() ==> path[second] == tail[0]);
    lemma_name_ends(path, 8, first, true);
    lemma_name_ends(path, first + 1, second, true);
}

} // verus!
