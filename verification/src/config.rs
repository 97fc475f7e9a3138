//! The MinIO Client configuration: where it is, whether it may be used, and the aliases
//! that it holds.
use vstd::prelude::*;
use vstd::utf8::encode_utf8;

use crate::error::{GetError, GetErrorView, MAX_CA_BUNDLE_SIZE, MAX_CONFIG_SIZE};
use crate::outside::home_dir;
use crate::path::{
    joined, law_joined_on_unix, law_joined_on_windows, opt_path, ref_path, FilePath,
};
use crate::source::lemma_ascii_first;
use crate::system::System;
use crate::text::{contains, occurs_in, opt_text, same_text, texts};

verus! {

/// One configured store. `S` is whatever keeps a credential: this crate carries
/// credentials and cannot look into them.
pub struct McAlias<S> {
    pub url: String,
    pub access_key: S,
    pub secret_key: S,
    pub api: Option<String>,
    pub path: Option<String>,
}

/// The model of [`McAlias`].
pub struct McAliasView<S> {
    pub url: Seq<char>,
    pub access_key: S,
    pub secret_key: S,
    pub api: Option<Seq<char>>,
    pub path: Option<Seq<char>>,
}

impl<S> View for McAlias<S> {
    type V = McAliasView<S>;

    open spec fn view(&self) -> McAliasView<S> {
        McAliasView {
            url: self.url@,
            access_key: self.access_key,
            secret_key: self.secret_key,
            api: opt_text(self.api),
            path: opt_text(self.path),
        }
    }
}

/// The model of a configuration: its aliases by name, in the order in which their names
/// first came.
pub type AliasList<S> = Seq<(Seq<char>, McAliasView<S>)>;

/// A configuration file's contents.
pub struct McConfig<S> {
    version: String,
    names: Vec<String>,
    aliases: Vec<McAlias<S>>,
}

/// Whether no name comes twice.
pub open spec fn distinct_names<S>(list: AliasList<S>) -> bool {
    forall|i: int, j: int|
        0 <= i < j < list.len() ==> (#[trigger] list[i]).0 != (#[trigger] list[j]).0
}

/// The names of a list of aliases.
pub open spec fn names_of<S>(list: AliasList<S>) -> Seq<Seq<char>> {
    list.map_values(|e: (Seq<char>, McAliasView<S>)| e.0)
}

/// The alias of this name.
pub open spec fn lookup<S>(list: AliasList<S>, name: Seq<char>) -> Option<McAliasView<S>> {
    if exists|i: int| 0 <= i < list.len() && (#[trigger] list[i]).0 == name {
        let i = choose|i: int| 0 <= i < list.len() && (#[trigger] list[i]).0 == name;
        Some(list[i].1)
    } else {
        None
    }
}

/// `list` with `name` standing for `alias`.
pub open spec fn with_alias<S>(
    list: AliasList<S>,
    name: Seq<char>,
    alias: McAliasView<S>,
) -> AliasList<S> {
    if exists|i: int| 0 <= i < list.len() && (#[trigger] list[i]).0 == name {
        let i = choose|i: int| 0 <= i < list.len() && (#[trigger] list[i]).0 == name;
        list.update(i, (name, alias))
    } else {
        list.push((name, alias))
    }
}

spec fn listed<S>(names: Seq<String>, aliases: Seq<McAlias<S>>) -> AliasList<S> {
    Seq::new(names.len(), |i: int| (names[i]@, aliases[i]@))
}

impl<S> View for McConfig<S> {
    type V = AliasList<S>;

    closed spec fn view(&self) -> AliasList<S> {
        listed(self.names@, self.aliases@)
    }
}

impl<S> McConfig<S> {
    #[verifier::type_invariant]
    spec fn well_formed(self) -> bool {
        &&& self.names.len() == self.aliases.len()
        &&& distinct_names(listed(self.names@, self.aliases@))
    }

    /// The version that the file states.
    pub closed spec fn stated_version(self) -> Seq<char> {
        self.version@
    }

    /// A configuration without aliases.
    pub fn new(version: String) -> (config: Self)
        ensures
            config@ == AliasList::<S>::empty(),
            config.stated_version() == version@,
    {
        let config = McConfig { version, names: Vec::new(), aliases: Vec::new() };
        assert(config@ =~= AliasList::<S>::empty());
        config
    }

    /// The configuration with `name` standing for `alias`, in place of what it stood for.
    pub fn with(self, name: String, alias: McAlias<S>) -> (config: Self)
        ensures
            config@ == with_alias(self@, name@, alias@),
            config.stated_version() == self.stated_version(),
            distinct_names(config@),
    {
        proof {
            use_type_invariant(&self);
        }
        let ghost before = self@;
        let McConfig { version, mut names, mut aliases } = self;
        match position(&names, name.as_str()) {
            Some(i) => {
                let ghost entry = (name@, alias@);
                aliases.set(i, alias);
                proof {
                    assert(before[i as int].0 == name@);
                    let k = choose|k: int|
                        0 <= k < before.len() && (#[trigger] before[k]).0 == name@;
                    assert(k == i);
                    assert(listed(names@, aliases@) =~= before.update(i as int, entry));
                }
            },
            None => {
                let ghost entry = (name@, alias@);
                names.push(name);
                aliases.push(alias);
                proof {
                    assert(listed(names@, aliases@) =~= before.push(entry));
                    assert forall|i: int| 0 <= i < before.len() implies (
                    #[trigger] before[i]).0 != entry.0 by {
                        assert(before[i].0 == names@[i]@);
                    }
                }
            },
        }
        McConfig { version, names, aliases }
    }

    /// The version that the file states.
    pub fn version(&self) -> (version: &str)
        ensures
            version@ == self.stated_version(),
    {
        self.version.as_str()
    }

    /// The alias of this name.
    pub fn get(&self, name: &str) -> (alias: Option<&McAlias<S>>)
        ensures
            match alias {
                Some(a) => lookup(self@, name@) == Some(a@),
                None => lookup(self@, name@) is None,
            },
    {
        proof {
            use_type_invariant(self);
        }
        match position(&self.names, name) {
            Some(i) => {
                proof {
                    lemma_lookup(self@, name@, i as int);
                }
                Some(&self.aliases[i])
            },
            None => {
                proof {
                    assert forall|i: int| 0 <= i < self@.len() implies (
                    #[trigger] self@[i]).0 != name@ by {
                        assert(self@[i].0 == self.names@[i]@);
                    }
                }
                None
            },
        }
    }

    /// The alias of this name, or all the names where there is none.
    pub fn take(self, name: &str) -> (alias: Result<McAlias<S>, Vec<String>>)
        ensures
            match alias {
                Ok(a) => lookup(self@, name@) == Some(a@),
                Err(known) => lookup(self@, name@) is None && texts(known@) == names_of(self@),
            },
    {
        proof {
            use_type_invariant(&self);
        }
        let ghost before = self@;
        let McConfig { version: _, names, mut aliases } = self;
        match position(&names, name) {
            Some(i) => {
                proof {
                    lemma_lookup(before, name@, i as int);
                }
                Ok(aliases.remove(i))
            },
            None => {
                proof {
                    assert forall|i: int| 0 <= i < before.len() implies (
                    #[trigger] before[i]).0 != name@ by {
                        assert(before[i].0 == names@[i]@);
                    }
                    assert(texts(names@) =~= names_of(before));
                }
                Err(names)
            },
        }
    }
}

proof fn lemma_lookup<S>(list: AliasList<S>, name: Seq<char>, i: int)
    requires
        distinct_names(list),
        0 <= i < list.len(),
        list[i].0 == name,
    ensures
        lookup(list, name) == Some(list[i].1),
{
    let k = choose|k: int| 0 <= k < list.len() && (#[trigger] list[k]).0 == name;
    assert(k == i);
}

fn position(names: &Vec<String>, name: &str) -> (at: Option<usize>)
    ensures
        match at {
            Some(i) => i < names.len() && names@[i as int]@ == name@,
            None => forall|i: int| 0 <= i < names.len() ==> (#[trigger] names@[i])@ != name@,
        },
{
    let mut i: usize = 0;
    while i < names.len()
        invariant
            i <= names.len(),
            forall|k: int| 0 <= k < i ==> (#[trigger] names@[k])@ != name@,
        decreases names.len() - i,
    {
        if same_text(names[i].as_str(), name) {
            return Some(i);
        }
        i = i + 1;
    }
    None
}

/// Where the configuration file is: at the path that was given, else in `.mc` below the
/// home directory.
pub open spec fn config_location(
    override_path: Option<Seq<u8>>,
    home: Option<Seq<u8>>,
    system: System,
) -> Result<Seq<u8>, GetErrorView> {
    match override_path {
        Some(path) => Ok(path),
        None => match home {
            Some(home) => Ok(
                joined(
                    joined(home, encode_utf8(".mc"@), system),
                    encode_utf8("config.json"@),
                    system,
                ),
            ),
            None => Err(GetErrorView::NoHomeDirectory),
        },
    }
}

/// Where the configuration file is for a user with this home directory.
pub fn config_path_in(
    override_path: Option<&FilePath>,
    home: Option<FilePath>,
    system: System,
) -> (r: Result<FilePath, GetError>)
    ensures
        match r {
            Ok(path) => config_location(ref_path(override_path), opt_path(home), system)
                == Ok::<_, GetErrorView>(path@),
            Err(e) => config_location(ref_path(override_path), opt_path(home), system)
                == Err::<Seq<u8>, GetErrorView>(e@),
        },
{
    match override_path {
        Some(path) => Ok(path.copy()),
        None => match home {
            Some(home) => Ok(home.join(".mc", system).join("config.json", system)),
            None => Err(GetError::NoHomeDirectory),
        },
    }
}

/// Where the configuration file is. The home directory is asked for only where no path
/// was given.
pub fn config_path(override_path: Option<&FilePath>, system: System) -> (r: Result<
    FilePath,
    GetError,
>)
    ensures
        override_path matches Some(path) ==> r is Ok && r->Ok_0@ == path@,
        exists|home: Option<Seq<u8>>|
            match r {
                Ok(path) => #[trigger] config_location(ref_path(override_path), home, system)
                    == Ok::<_, GetErrorView>(path@),
                Err(e) => config_location(ref_path(override_path), home, system) == Err::<
                    Seq<u8>,
                    GetErrorView,
                >(e@),
            },
{
    if override_path.is_some() {
        let r = config_path_in(override_path, None, system);
        assert(config_location(ref_path(override_path), None, system) is Ok);
        return r;
    }
    let home = match home_dir() {
        Some(bytes) => Some(FilePath::from_bytes(bytes)),
        None => None,
    };
    let ghost asked = opt_path(home);
    let r = config_path_in(override_path, home, system);
    assert(config_location(ref_path(override_path), asked, system) == match r {
        Ok(path) => Ok::<_, GetErrorView>(path@),
        Err(e) => Err(e@),
    });
    r
}

/// The permission bits of a mode.
pub open spec fn permission_bits(mode: u32) -> u32 {
    mode % 0o1000
}

/// Whether a mode grants anything to the group or to others.
pub open spec fn open_to_others(mode: u32) -> bool {
    mode % 0o100 != 0
}

/// Whether a configuration file of this mode may be used. A file has no mode on a system
/// without them.
pub open spec fn permissions_verdict(path: Seq<u8>, mode: Option<u32>) -> Result<
    (),
    GetErrorView,
> {
    match mode {
        Some(mode) if open_to_others(mode) => Err(
            GetErrorView::ConfigAccessible { path, mode: permission_bits(mode) },
        ),
        _ => Ok(()),
    }
}

/// Refuses a configuration file that the group or others have any access to.
pub fn check_permissions(path: &FilePath, mode: Option<u32>) -> (r: Result<(), GetError>)
    ensures
        match r {
            Ok(_) => permissions_verdict(path@, mode) == Ok::<(), GetErrorView>(()),
            Err(e) => permissions_verdict(path@, mode) == Err::<(), GetErrorView>(e@),
        },
{
    match mode {
        Some(mode) => {
            assert(mode & 0o077 == mode % 0o100) by (bit_vector);
            assert(mode & 0o777 == mode % 0o1000) by (bit_vector);
            if mode & 0o077 != 0 {
                Err(GetError::ConfigAccessible { path: path.copy(), mode: mode & 0o777 })
            } else {
                Ok(())
            }
        },
        None => Ok(()),
    }
}

/// Refuses a configuration file of more than [`MAX_CONFIG_SIZE`] bytes.
pub fn check_config_size(path: &FilePath, size: u64) -> (r: Result<(), GetError>)
    ensures
        r is Err <==> size > MAX_CONFIG_SIZE,
        r matches Err(e) ==> e@ == (GetErrorView::ConfigTooLarge { path: path@ }),
{
    if size > MAX_CONFIG_SIZE {
        Err(GetError::ConfigTooLarge { path: path.copy() })
    } else {
        Ok(())
    }
}

/// Refuses a CA bundle of more than [`MAX_CA_BUNDLE_SIZE`] bytes.
pub fn check_ca_bundle_size(path: &FilePath, size: u64) -> (r: Result<(), GetError>)
    ensures
        r is Err <==> size > MAX_CA_BUNDLE_SIZE,
        r matches Err(e) ==> e@ == (GetErrorView::CaBundleTooLarge { path: path@ }),
{
    if size > MAX_CA_BUNDLE_SIZE {
        Err(GetError::CaBundleTooLarge { path: path.copy() })
    } else {
        Ok(())
    }
}

/// Whether requests name the bucket in the path: as the alias says with `on` or `off`,
/// and otherwise everywhere but at Amazon.
pub open spec fn uses_path_style(url: Seq<char>, path: Option<Seq<char>>) -> bool {
    match path {
        Some(setting) if setting == "on"@ => true,
        Some(setting) if setting == "off"@ => false,
        _ => !occurs_in("amazonaws.com"@, url),
    }
}

/// Whether requests to this alias name the bucket in the path.
pub fn resolve_path_style<S>(alias: &McAlias<S>) -> (path_style: bool)
    ensures
        path_style == uses_path_style(alias@.url, alias@.path),
{
    match &alias.path {
        Some(setting) => if same_text(setting.as_str(), "on") {
            true
        } else if same_text(setting.as_str(), "off") {
            false
        } else {
            !contains(alias.url.as_str(), "amazonaws.com")
        },
        None => !contains(alias.url.as_str(), "amazonaws.com"),
    }
}

/// What a name was last made to stand for is what it stands for, and the other names
/// stand for what they did.
pub proof fn law_lookup_after_with<S>(
    list: AliasList<S>,
    name: Seq<char>,
    alias: McAliasView<S>,
    other: Seq<char>,
)
    requires
        distinct_names(list),
    ensures
        distinct_names(with_alias(list, name, alias)),
        lookup(with_alias(list, name, alias), name) == Some(alias),
        other != name ==> lookup(with_alias(list, name, alias), other) == lookup(list, other),
{
    let next = with_alias(list, name, alias);
    if exists|i: int| 0 <= i < list.len() && (#[trigger] list[i]).0 == name {
        let i = choose|i: int| 0 <= i < list.len() && (#[trigger] list[i]).0 == name;
        assert forall|a: int, b: int| 0 <= a < b < next.len() implies (#[trigger] next[a]).0 != (
        #[trigger] next[b]).0 by {
            assert(next[a].0 == list[a].0);
            assert(next[b].0 == list[b].0);
        }
        lemma_lookup(next, name, i);
    } else {
        assert forall|a: int, b: int| 0 <= a < b < next.len() implies (#[trigger] next[a]).0 != (
        #[trigger] next[b]).0 by {
            assert(next[a] == list[a]);
            if b < list.len() {
                assert(next[b] == list[b]);
            }
        }
        lemma_lookup(next, name, list.len() as int);
    }
    if other != name {
        if exists|k: int| 0 <= k < list.len() && (#[trigger] list[k]).0 == other {
            let k = choose|k: int| 0 <= k < list.len() && (#[trigger] list[k]).0 == other;
            assert(next[k] == list[k]);
            lemma_lookup(next, other, k);
        } else {
            assert forall|k: int| 0 <= k < next.len() implies (#[trigger] next[k]).0 != other by {
                if k < list.len() {
                    assert(list[k].0 != other);
                }
            }
        }
    }
}

/// A configuration file is refused exactly where its mode has any of the six bits of the
/// group and of others, and is told with its nine permission bits.
pub proof fn law_private_files_only(path: Seq<u8>, mode: u32)
    ensures
        permissions_verdict(path, None) is Ok,
        permissions_verdict(path, Some(mode)) is Ok <==> mode & 0o077 == 0,
        mode & 0o077 != 0 ==> permissions_verdict(path, Some(mode)) == Err::<(), GetErrorView>(
            GetErrorView::ConfigAccessible { path, mode: mode & 0o777 },
        ),
        open_to_others(mode) <==> mode & 0o077 != 0,
{
    assert(mode & 0o077 == mode % 0o100) by (bit_vector);
    assert(mode & 0o777 == mode % 0o1000) by (bit_vector);
}

/// A name is found with what stands beside it, and a name that stands nowhere is not found.
pub proof fn law_lookup_finds<S>(list: AliasList<S>, name: Seq<char>)
    requires
        forall|i: int, j: int|
            0 <= i < j < list.len() ==> (#[trigger] list[i]).0 != (#[trigger] list[j]).0,
    ensures
        forall|i: int|
            0 <= i < list.len() && (#[trigger] list[i]).0 == name ==> lookup(list, name) == Some(
                list[i].1,
            ),
        (forall|i: int| 0 <= i < list.len() ==> (#[trigger] list[i]).0 != name) ==> lookup(
            list,
            name,
        ) is None,
        names_of(list).len() == list.len(),
        forall|i: int| 0 <= i < list.len() ==> #[trigger] names_of(list)[i] == list[i].0,
{
    assert forall|i: int| 0 <= i < list.len() && (#[trigger] list[i]).0 == name implies lookup(
        list,
        name,
    ) == Some(list[i].1) by {
        lemma_lookup(list, name, i);
    }
}

/// A name that is given an alias keeps its place, or comes last where it is new, and no
/// other entry changes.
pub proof fn law_with_alias_keeps_order<S>(
    list: AliasList<S>,
    name: Seq<char>,
    alias: McAliasView<S>,
)
    requires
        forall|i: int, j: int|
            0 <= i < j < list.len() ==> (#[trigger] list[i]).0 != (#[trigger] list[j]).0,
    ensures
        forall|i: int|
            0 <= i < list.len() && (#[trigger] list[i]).0 == name ==> with_alias(list, name, alias)
                == list.update(i, (name, alias)),
        (forall|i: int| 0 <= i < list.len() ==> (#[trigger] list[i]).0 != name) ==> with_alias(
            list,
            name,
            alias,
        ) == list.push((name, alias)),
{
    assert forall|i: int| 0 <= i < list.len() && (#[trigger] list[i]).0 == name implies with_alias(
        list,
        name,
        alias,
    ) == list.update(i, (name, alias)) by {
        let k = choose|k: int| 0 <= k < list.len() && (#[trigger] list[k]).0 == name;
        assert(k == i);
    }
}

proof fn lemma_plain_names()
    ensures
        encode_utf8(".mc"@).len() > 2,
        encode_utf8(".mc"@)[0] == 0x2e,
        encode_utf8(".mc"@).last() == 0x63,
        encode_utf8("config.json"@).len() > 2,
        encode_utf8("config.json"@)[0] == 0x63,
        encode_utf8("config.json"@)[1] == 0x6f,
{
    reveal_strlit(".mc");
    reveal_strlit("config.json");
    let a = ".mc"@;
    let b = "config.json"@;
    lemma_ascii_first(a);
    lemma_ascii_first(a.drop_first());
    lemma_ascii_first(a.drop_first().drop_first());
    assert(a.drop_first().drop_first().drop_first() =~= seq![]);
    assert(encode_utf8(a) =~= seq![0x2eu8, 0x6du8, 0x63u8]);
    lemma_ascii_first(b);
    lemma_ascii_first(b.drop_first());
    lemma_ascii_first(b.drop_first().drop_first());
}

/// Where the configuration is: at the path that was given, whatever the home directory is,
/// and otherwise in `config.json` in `.mc` in the home directory.
pub proof fn law_config_place(given: Seq<u8>, home: Seq<u8>, other: Option<Seq<u8>>, system: System)
    ensures
        config_location(Some(given), other, system) == Ok::<_, GetErrorView>(given),
        config_location(None, None, system) == Err::<Seq<u8>, GetErrorView>(
            GetErrorView::NoHomeDirectory,
        ),
        ({
            let folder = encode_utf8(".mc"@);
            let file = encode_utf8("config.json"@);
            let slash = seq![0x2fu8];
            let back = seq![0x5cu8];
            let on_unix = config_location(None, Some(home), System::Unix);
            let on_windows = config_location(None, Some(home), System::Windows);
            &&& home.len() > 0 && home.last() != 0x2f ==> on_unix == Ok::<_, GetErrorView>(
                home + slash + folder + slash + file,
            )
            &&& home.len() == 0 || home.last() == 0x2f ==> on_unix == Ok::<_, GetErrorView>(
                home + folder + slash + file,
            )
            &&& home.len() > 2 && (0x41 <= home[0] <= 0x5a || 0x61 <= home[0] <= 0x7a) && home[1]
                == 0x3a ==> on_windows == Ok::<_, GetErrorView>(
                if home.last() == 0x2f || home.last() == 0x5c {
                    home + folder + back + file
                } else {
                    home + back + folder + back + file
                },
            )
        }),
{
    lemma_plain_names();
    let folder = encode_utf8(".mc"@);
    let file = encode_utf8("config.json"@);
    law_joined_on_unix(home, folder);
    let near = joined(home, folder, System::Unix);
    law_joined_on_unix(near, file);
    assert(near.last() == folder.last());
    assert(home + seq![0x2fu8] + folder + seq![0x2fu8] + file =~= home + seq![0x2fu8] + folder
        + seq![0x2fu8] + file);
    if home.len() > 2 && (0x41 <= home[0] <= 0x5a || 0x61 <= home[0] <= 0x7a) && home[1] == 0x3a {
        law_joined_on_windows(home, folder);
        let far = joined(home, folder, System::Windows);
        assert(far[0] == home[0] && far[1] == home[1]);
        assert(far.last() == folder.last());
        law_joined_on_windows(far, file);
    }
}

/// Whether `path_style` is how an alias with this address and setting is spoken to: the
/// setting says it with `on` or `off`, and otherwise the bucket is named in the path exactly
/// where `amazonaws.com` is nowhere in the address.
pub open spec fn addressed_by_path(
    url: Seq<char>,
    setting: Option<Seq<char>>,
    path_style: bool,
) -> bool {
    &&& setting == Some("on"@) ==> path_style
    &&& setting == Some("off"@) ==> !path_style
    &&& setting != Some("on"@) && setting != Some("off"@) ==> (path_style <==> forall|i: int|
        0 <= i <= url.len() - 13 ==> #[trigger] url.subrange(i, i + 13) != "amazonaws.com"@)
}

/// The setting of an alias decides how it is spoken to, and its address where the setting
/// does not.
pub proof fn law_path_style(url: Seq<char>, setting: Option<Seq<char>>)
    ensures
        addressed_by_path(url, setting, uses_path_style(url, setting)),
{
    reveal_strlit("on");
    reveal_strlit("off");
    reveal_strlit("amazonaws.com");
    assert("on"@.len() != "off"@.len());
    let part = "amazonaws.com"@;
    assert(part.len() == 13);
    assert forall|i: int|
        0 <= i <= url.len() - 13 && occurs_in(part, url) == false implies #[trigger] url.subrange(
        i,
        i + 13,
    ) != part by {
        assert(i + part.len() == i + 13);
        if url.subrange(i, i + 13) == part {
            assert(url.subrange(i, i + part.len()) == part);
        }
    }
    if occurs_in(part, url) {
        let i = choose|i: int|
            0 <= i <= url.len() - part.len() && #[trigger] url.subrange(i, i + part.len()) == part;
        assert(url.subrange(i, i + 13) == part);
    }
}

} // verus!
