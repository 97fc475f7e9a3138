//! Where an object comes from and where it goes: `alias/bucket/key`, and the local
//! path that the key resolves to.
use vstd::prelude::*;
use vstd::utf8::{
    char_is_scalar, encode_scalar, encode_utf8, has_width_1_encoding, has_width_2_encoding,
    has_width_3_encoding, leading_byte_width_1, leading_byte_width_2, leading_byte_width_3,
    leading_byte_width_4,
};

use crate::error::{GetError, GetErrorView, MAX_SOURCE_CHARS};
use crate::path::{ends_in_slash, joined, law_text_is_kept, ref_path, shown, FilePath};
use crate::system::{parts_names, prefix_of, separator, System, SLASH};
use crate::text::chars_of;

verus! {

/// How many characters of `s` stand before its first `/`, all of them where it has none.
pub open spec fn slash_at(s: Seq<char>) -> int
    decreases s.len(),
{
    if s.len() == 0 || s[0] == '/' {
        0
    } else {
        1 + slash_at(s.drop_first())
    }
}

/// The part of `s` before its first `/`.
pub open spec fn before_slash(s: Seq<char>) -> Seq<char> {
    s.take(slash_at(s))
}

/// The part of `s` behind its first `/`, where it has one.
pub open spec fn behind_slash(s: Seq<char>) -> Option<Seq<char>> {
    if slash_at(s) < s.len() {
        Some(s.skip(slash_at(s) + 1))
    } else {
        None
    }
}

/// `s` without the slashes at its start.
pub open spec fn without_leading_slashes(s: Seq<char>) -> Seq<char>
    decreases s.len(),
{
    if s.len() > 0 && s[0] == '/' {
        without_leading_slashes(s.drop_first())
    } else {
        s
    }
}

/// The part of `s` behind its last `/`, all of it where it has none.
pub open spec fn behind_last_slash(s: Seq<char>) -> Seq<char>
    decreases s.len(),
{
    if s.len() == 0 || s.last() == '/' {
        seq![]
    } else {
        behind_last_slash(s.drop_last()).push(s.last())
    }
}

/// The alias, bucket and key that a source names, or what it lacks.
pub open spec fn parsed_source(input: Seq<char>) -> Result<
    (Seq<char>, Seq<char>, Seq<char>),
    GetErrorView,
> {
    let trimmed = without_leading_slashes(input);
    let alias = before_slash(trimmed);
    if alias.len() == 0 {
        Err(GetErrorView::MissingAlias)
    } else {
        match behind_slash(trimmed) {
            None => Err(GetErrorView::MissingBucket),
            Some(rest) => {
                let bucket = before_slash(rest);
                if bucket.len() == 0 {
                    Err(GetErrorView::MissingBucket)
                } else {
                    match behind_slash(rest) {
                        None => Err(GetErrorView::MissingKey),
                        Some(key) => if key.len() == 0 {
                            Err(GetErrorView::MissingKey)
                        } else {
                            Ok((alias, bucket, key))
                        },
                    }
                }
            },
        }
    }
}

/// The file name that a key ends in.
pub open spec fn filename(key: Seq<char>) -> Result<Seq<char>, GetErrorView> {
    let name = behind_last_slash(key);
    if name.len() == 0 {
        Err(GetErrorView::NoFilename)
    } else {
        Ok(name)
    }
}

/// Where the object `key` is put: into the current directory where no destination is
/// given, into the destination where that is a directory or ends with a `/`, and at the
/// destination itself otherwise.
pub open spec fn resolved_destination(
    dest: Option<Seq<u8>>,
    key: Seq<char>,
    is_dir: bool,
    system: System,
) -> Result<Seq<u8>, GetErrorView> {
    match filename(key) {
        Err(e) => Err(e),
        Ok(name) => match dest {
            None => Ok(encode_utf8("./"@ + name)),
            Some(path) => if ends_in_slash(path) || is_dir {
                Ok(joined(path, encode_utf8(name), system))
            } else {
                Ok(path)
            },
        },
    }
}

/// Whether `s` holds no `/`.
pub open spec fn slash_free(s: Seq<char>) -> bool {
    forall|i: int| 0 <= i < s.len() ==> s[i] != '/'
}

/// `n` slashes.
pub open spec fn slashes(n: nat) -> Seq<char> {
    Seq::new(n, |i: int| '/')
}

/// Whether `input` is `alias/bucket/key` behind any number of slashes, with an alias and
/// a bucket that hold no slash and nothing empty.
pub open spec fn is_source(
    input: Seq<char>,
    alias: Seq<char>,
    bucket: Seq<char>,
    key: Seq<char>,
) -> bool {
    &&& slash_free(alias) && alias.len() > 0
    &&& slash_free(bucket) && bucket.len() > 0
    &&& key.len() > 0
    &&& exists|n: nat| input == #[trigger] slashes(n) + alias + seq!['/'] + bucket + seq!['/'] + key
}

proof fn lemma_slash_at(s: Seq<char>, at: int)
    requires
        0 <= at <= s.len(),
        forall|i: int| 0 <= i < at ==> s[i] != '/',
        at < s.len() ==> s[at] == '/',
    ensures
        slash_at(s) == at,
    decreases s.len(),
{
    if at > 0 {
        lemma_slash_at(s.drop_first(), at - 1);
    }
}

proof fn lemma_slash_at_bounds(s: Seq<char>)
    ensures
        0 <= slash_at(s) <= s.len(),
        forall|i: int| 0 <= i < slash_at(s) ==> s[i] != '/',
        slash_at(s) < s.len() ==> s[slash_at(s)] == '/',
    decreases s.len(),
{
    if s.len() > 0 && s[0] != '/' {
        let tail = s.drop_first();
        lemma_slash_at_bounds(tail);
        assert forall|i: int| 0 <= i < slash_at(s) implies s[i] != '/' by {
            if i > 0 {
                assert(tail[i - 1] == s[i]);
            }
        }
    }
}

proof fn lemma_leading(s: Seq<char>, n: int)
    requires
        0 <= n <= s.len(),
        forall|i: int| 0 <= i < n ==> s[i] == '/',
        n < s.len() ==> s[n] != '/',
    ensures
        without_leading_slashes(s) == s.skip(n),
    decreases s.len(),
{
    if n > 0 {
        lemma_leading(s.drop_first(), n - 1);
        assert(s.drop_first().skip(n - 1) =~= s.skip(n));
    } else {
        assert(s.skip(0) =~= s);
    }
}

proof fn lemma_leading_count(s: Seq<char>) -> (n: nat)
    ensures
        n <= s.len(),
        forall|i: int| 0 <= i < n ==> s[i] == '/',
        n < s.len() ==> s[n as int] != '/',
        without_leading_slashes(s) == s.skip(n as int),
    decreases s.len(),
{
    if s.len() > 0 && s[0] == '/' {
        let tail = s.drop_first();
        let m = lemma_leading_count(tail);
        let n = m + 1;
        assert forall|i: int| 0 <= i < n implies s[i] == '/' by {
            if i > 0 {
                assert(tail[i - 1] == s[i]);
            }
        }
        assert(tail.skip(m as int) =~= s.skip(n as int));
        n
    } else {
        assert(s.skip(0) =~= s);
        0
    }
}

proof fn lemma_behind_last_slash(s: Seq<char>, at: int)
    requires
        0 <= at <= s.len(),
        forall|i: int| at <= i < s.len() ==> s[i] != '/',
        at > 0 ==> s[at - 1] == '/',
    ensures
        behind_last_slash(s) == s.skip(at),
    decreases s.len(),
{
    if at < s.len() {
        lemma_behind_last_slash(s.drop_last(), at);
        assert(s.drop_last().skip(at).push(s.last()) =~= s.skip(at));
    } else {
        assert(s.skip(at) =~= seq![]);
    }
}

fn find_slash(chars: &Vec<char>, from: usize) -> (at: usize)
    requires
        from <= chars.len(),
    ensures
        from <= at <= chars.len(),
        at == from + slash_at(chars@.skip(from as int)),
{
    let mut at: usize = from;
    while at < chars.len() && chars[at] != '/'
        invariant
            from <= at <= chars.len(),
            forall|i: int| from <= i < at ==> chars@[i] != '/',
        decreases chars.len() - at,
    {
        at = at + 1;
    }
    proof {
        let tail = chars@.skip(from as int);
        assert forall|i: int| 0 <= i < at - from implies tail[i] != '/' by {
            assert(tail[i] == chars@[from + i]);
        }
        lemma_slash_at(tail, at - from);
    }
    at
}

/// Refuses a source with more than [`MAX_SOURCE_CHARS`] characters.
pub fn check_source(source: &str) -> (r: Result<(), GetError>)
    ensures
        r is Err <==> source@.len() > MAX_SOURCE_CHARS,
        r matches Err(e) ==> e@ == GetErrorView::SourceTooLong,
{
    if source.unicode_len() as u64 > MAX_SOURCE_CHARS {
        Err(GetError::SourceTooLong)
    } else {
        Ok(())
    }
}

/// Splits `alias/bucket/key` into its three parts. Slashes at the start are ignored, and
/// the key keeps its own.
pub fn parse_source(input: &str) -> (r: Result<(String, String, String), GetError>)
    ensures
        match r {
            Ok((alias, bucket, key)) => parsed_source(input@) == Ok::<_, GetErrorView>(
                (alias@, bucket@, key@),
            ),
            Err(e) => parsed_source(input@) == Err::<
                (Seq<char>, Seq<char>, Seq<char>),
                GetErrorView,
            >(e@),
        },
{
    let chars = chars_of(input);
    let n: usize = chars.len();
    let mut start: usize = 0;
    while start < n && chars[start] == '/'
        invariant
            n == chars.len(),
            start <= n,
            forall|i: int| 0 <= i < start ==> chars@[i] == '/',
        decreases n - start,
    {
        start = start + 1;
    }
    let ghost trimmed = input@.skip(start as int);
    proof {
        lemma_leading(input@, start as int);
    }
    let alias_end: usize = find_slash(&chars, start);
    proof {
        assert(before_slash(trimmed) =~= input@.subrange(start as int, alias_end as int));
    }
    if alias_end == start {
        return Err(GetError::MissingAlias);
    }
    if alias_end == n {
        return Err(GetError::MissingBucket);
    }
    let bucket_end: usize = find_slash(&chars, alias_end + 1);
    let ghost rest = input@.skip(alias_end + 1);
    proof {
        assert(trimmed.skip(slash_at(trimmed) + 1) =~= rest);
        assert(before_slash(rest) =~= input@.subrange(alias_end + 1, bucket_end as int));
    }
    if bucket_end == alias_end + 1 {
        return Err(GetError::MissingBucket);
    }
    if bucket_end == n {
        return Err(GetError::MissingKey);
    }
    proof {
        assert(rest.skip(slash_at(rest) + 1) =~= input@.subrange(bucket_end + 1, n as int));
    }
    if bucket_end + 1 == n {
        return Err(GetError::MissingKey);
    }
    let alias = input.substring_char(start, alias_end).to_string();
    let bucket = input.substring_char(alias_end + 1, bucket_end).to_string();
    let key = input.substring_char(bucket_end + 1, n).to_string();
    Ok((alias, bucket, key))
}

/// The file name that a key ends in: `app.log` for `logs/2026/app.log`.
pub fn filename_from_key(key: &str) -> (r: Result<&str, GetError>)
    ensures
        match r {
            Ok(name) => filename(key@) == Ok::<_, GetErrorView>(name@),
            Err(e) => filename(key@) == Err::<Seq<char>, GetErrorView>(e@),
        },
{
    let chars = chars_of(key);
    let n: usize = chars.len();
    let mut at: usize = n;
    while at > 0 && chars[at - 1] != '/'
        invariant
            n == chars.len(),
            at <= n,
            forall|i: int| at <= i < n ==> chars@[i] != '/',
        decreases at,
    {
        at = at - 1;
    }
    proof {
        lemma_behind_last_slash(key@, at as int);
        assert(key@.skip(at as int) =~= key@.subrange(at as int, n as int));
    }
    if at == n {
        Err(GetError::NoFilename)
    } else {
        Ok(key.substring_char(at, n))
    }
}

/// The local path for the object `key`. Whether the destination is a directory is for
/// the caller to find out, and matters only where it is not written as one.
pub fn resolve_destination(
    dest: Option<&FilePath>,
    key: &str,
    is_dir: bool,
    system: System,
) -> (r: Result<FilePath, GetError>)
    ensures
        match r {
            Ok(path) => resolved_destination(ref_path(dest), key@, is_dir, system) == Ok::<
                _,
                GetErrorView,
            >(path@),
            Err(e) => resolved_destination(ref_path(dest), key@, is_dir, system) == Err::<
                Seq<u8>,
                GetErrorView,
            >(e@),
        },
{
    let name = match filename_from_key(key) {
        Ok(name) => name,
        Err(e) => {
            return Err(e);
        },
    };
    match dest {
        None => Ok(FilePath::from_text("./".to_string().concat(name).as_str())),
        Some(path) => if path.ends_with_slash() || is_dir {
            Ok(path.join(name, system))
        } else {
            Ok(path.copy())
        },
    }
}

#[verifier::spinoff_prover]
proof fn lemma_source_read(
    n: nat,
    alias: Seq<char>,
    bucket: Seq<char>,
    key: Seq<char>,
    input: Seq<char>,
)
    requires
        slash_free(alias) && alias.len() > 0,
        slash_free(bucket) && bucket.len() > 0,
        key.len() > 0,
        input == slashes(n) + alias + seq!['/'] + bucket + seq!['/'] + key,
    ensures
        parsed_source(input) == Ok::<_, GetErrorView>((alias, bucket, key)),
{
    let trimmed = alias + seq!['/'] + bucket + seq!['/'] + key;
    let rest = bucket + seq!['/'] + key;
    assert(input[n as int] == alias[0]);
    lemma_leading(input, n as int);
    assert(input.skip(n as int) =~= trimmed);
    assert(trimmed[alias.len() as int] == '/');
    lemma_slash_at(trimmed, alias.len() as int);
    assert(before_slash(trimmed) =~= alias);
    assert(trimmed.skip(alias.len() as int + 1) =~= rest);
    assert(rest[bucket.len() as int] == '/');
    lemma_slash_at(rest, bucket.len() as int);
    assert(before_slash(rest) =~= bucket);
    assert(rest.skip(bucket.len() as int + 1) =~= key);
}

#[verifier::spinoff_prover]
proof fn lemma_source_spelt(
    alias: Seq<char>,
    bucket: Seq<char>,
    key: Seq<char>,
    input: Seq<char>,
)
    requires
        parsed_source(input) == Ok::<_, GetErrorView>((alias, bucket, key)),
    ensures
        is_source(input, alias, bucket, key),
{
    let n = lemma_leading_count(input);
    let trimmed = without_leading_slashes(input);
    lemma_slash_at_bounds(trimmed);
    let rest = trimmed.skip(slash_at(trimmed) + 1);
    lemma_slash_at_bounds(rest);
    assert(trimmed =~= alias + seq!['/'] + rest);
    assert(rest =~= bucket + seq!['/'] + key);
    assert(input =~= slashes(n) + trimmed);
    assert(input =~= slashes(n) + alias + seq!['/'] + bucket + seq!['/'] + key);
}

/// A source is read as this alias, bucket and key exactly where it spells them.
pub proof fn law_source_form(
    input: Seq<char>,
    alias: Seq<char>,
    bucket: Seq<char>,
    key: Seq<char>,
)
    ensures
        parsed_source(input) == Ok::<_, GetErrorView>((alias, bucket, key)) <==> is_source(
            input,
            alias,
            bucket,
            key,
        ),
{
    if is_source(input, alias, bucket, key) {
        let n = choose|n: nat|
            input == #[trigger] slashes(n) + alias + seq!['/'] + bucket + seq!['/'] + key;
        lemma_source_read(n, alias, bucket, key, input);
    }
    if parsed_source(input) == Ok::<_, GetErrorView>((alias, bucket, key)) {
        lemma_source_spelt(alias, bucket, key, input);
    }
}

/// Slashes put in front of a source change nothing.
pub proof fn law_leading_slashes_ignored(n: nat, input: Seq<char>)
    ensures
        parsed_source(slashes(n) + input) == parsed_source(input),
{
    let m = lemma_leading_count(input);
    let longer = slashes(n) + input;
    assert forall|i: int| 0 <= i < n + m implies longer[i] == '/' by {
        if i >= n {
            assert(longer[i] == input[i - n]);
        }
    }
    assert(n + m < longer.len() ==> longer[(n + m) as int] == input[m as int]);
    lemma_leading(longer, (n + m) as int);
    assert(longer.skip((n + m) as int) =~= input.skip(m as int));
}

/// The file name of a key is what stands behind its last slash: it holds no slash, the
/// key ends in it, and there is none exactly where the key is empty or ends in a slash.
pub proof fn law_filename(key: Seq<char>)
    ensures
        filename(key) is Err <==> key.len() == 0 || key.last() == '/',
        filename(key) matches Ok(name) ==> {
            &&& slash_free(name)
            &&& 0 < name.len() <= key.len()
            &&& key.skip(key.len() - name.len()) == name
            &&& name.len() < key.len() ==> key[key.len() - name.len() - 1] == '/'
        },
    decreases key.len(),
{
    if key.len() > 0 && key.last() != '/' {
        let front = key.drop_last();
        law_filename(front);
        let name = behind_last_slash(key);
        let inner = behind_last_slash(front);
        assert(name == inner.push(key.last()));
        if inner.len() == 0 {
            assert(key.skip(key.len() - 1) =~= name);
        } else {
            assert(key.skip(key.len() - name.len()) =~= front.skip(
                front.len() - inner.len(),
            ).push(key.last()));
        }
    }
}

proof fn lemma_slash_code(c: char)
    ensures
        c as u32 == 0x2f <==> c == '/',
{
}

pub(crate) proof fn lemma_ascii_first(s: Seq<char>)
    requires
        s.len() > 0,
        (s[0] as u32) < 0x80,
    ensures
        encode_utf8(s) == seq![(s[0] as u32) as u8] + encode_utf8(s.drop_first()),
{
    let c = s[0] as u32;
    char_is_scalar(s[0]);
    assert(encode_utf8(s) == encode_scalar(c) + encode_utf8(s.drop_first()));
    assert((c & 0x7F) as u8 == c) by (bit_vector)
        requires
            c <= 0x7F,
    ;
    assert(has_width_1_encoding(c));
    assert(encode_scalar(c) =~= seq![c as u8]);
}

proof fn lemma_first_byte(s: Seq<char>)
    requires
        s.len() > 0,
    ensures
        encode_utf8(s).len() > 0,
        encode_utf8(s)[0] == SLASH <==> s[0] == '/',
{
    let c = s[0] as u32;
    char_is_scalar(s[0]);
    lemma_slash_code(s[0]);
    assert(encode_utf8(s) == encode_scalar(c) + encode_utf8(s.drop_first()));
    assert(encode_utf8(s)[0] == encode_scalar(c)[0]);
    if has_width_1_encoding(c) {
        assert((c & 0x7F) as u8 == c) by (bit_vector)
            requires
                c <= 0x7F,
        ;
        assert(encode_scalar(c)[0] == leading_byte_width_1(c));
    } else if has_width_2_encoding(c) {
        assert(encode_scalar(c)[0] == leading_byte_width_2(c));
        assert(0xC0u8 | ((c >> 6) & 0x1F) as u8 >= 0xC0) by (bit_vector);
    } else if has_width_3_encoding(c) {
        assert(encode_scalar(c)[0] == leading_byte_width_3(c));
        assert(0xE0u8 | ((c >> 12) & 0x0F) as u8 >= 0xE0) by (bit_vector);
    } else {
        assert(encode_scalar(c)[0] == leading_byte_width_4(c));
        assert(0xF0u8 | ((c >> 18) & 0x7) as u8 >= 0xF0) by (bit_vector);
    }
}

/// An object that goes into a directory keeps the directory's path in front and its own
/// file name at the end, with one separator between them, unless the directory is but a
/// drive. On Windows the name has no prefix or root of its own, and the directory is not
/// verbatim.
pub proof fn law_destination_directory(
    dir: Seq<u8>,
    key: Seq<char>,
    is_dir: bool,
    system: System,
)
    requires
        ends_in_slash(dir) || is_dir && dir.len() > 0,
        filename(key) is Ok,
        system == System::Windows ==> {
            let name = encode_utf8(filename(key)->Ok_0);
            prefix_of(name, system).len == 0 && !parts_names(name[0], system) && !prefix_of(
                dir,
                system,
            ).verbatim
        },
    ensures
        resolved_destination(Some(dir), key, is_dir, system) == Ok::<_, GetErrorView>(
            (if parts_names(dir.last(), system) || (prefix_of(dir, system).drive && dir.len()
                == 2) {
                dir
            } else {
                dir.push(separator(system))
            }) + encode_utf8(filename(key)->Ok_0),
        ),
{
    law_filename(key);
    lemma_first_byte(filename(key)->Ok_0);
}

/// Without a destination the object goes into the current directory, under its own file
/// name, and is shown there.
pub proof fn law_default_destination(key: Seq<char>, is_dir: bool, system: System)
    requires
        filename(key) is Ok,
    ensures
        resolved_destination(None, key, is_dir, system) is Ok,
        shown(resolved_destination(None, key, is_dir, system)->Ok_0, system) == "./"@ + filename(
            key,
        )->Ok_0,
{
    law_text_is_kept("./"@ + filename(key)->Ok_0, system);
}

/// An explicit destination that is no directory is used as it is.
pub proof fn law_explicit_destination(path: Seq<u8>, key: Seq<char>, system: System)
    requires
        !ends_in_slash(path),
        filename(key) is Ok,
    ensures
        resolved_destination(Some(path), key, false, system) == Ok::<_, GetErrorView>(path),
{
}

/// Whether this is what a source was found to lack.
pub open spec fn lacks(
    parsed: Result<(Seq<char>, Seq<char>, Seq<char>), GetErrorView>,
    error: GetErrorView,
) -> bool {
    parsed is Err && parsed->Err_0 == error
}

/// What a source says, by how it is written. Behind any number of slashes come the alias, a
/// slash, the bucket, a slash and the key. Where one of them is missing or empty, the first
/// of these is what is lacking.
pub proof fn law_source_parts(n: nat, alias: Seq<char>, bucket: Seq<char>, key: Seq<char>)
    requires
        alias.len() > 0,
        forall|i: int| 0 <= i < alias.len() ==> alias[i] != '/',
        bucket.len() > 0,
        forall|i: int| 0 <= i < bucket.len() ==> bucket[i] != '/',
    ensures
        ({
            let lead = Seq::new(n, |i: int| '/');
            let slash = seq!['/'];
            let named = lead + alias + slash + bucket;
            &&& lacks(parsed_source(lead), GetErrorView::MissingAlias)
            &&& lacks(parsed_source(lead + alias), GetErrorView::MissingBucket)
            &&& lacks(parsed_source(lead + alias + slash), GetErrorView::MissingBucket)
            &&& lacks(
                parsed_source(lead + alias + slash + slash + key),
                GetErrorView::MissingBucket,
            )
            &&& lacks(parsed_source(named), GetErrorView::MissingKey)
            &&& lacks(parsed_source(named + slash), GetErrorView::MissingKey)
            &&& key.len() > 0 ==> parsed_source(named + slash + key) == Ok::<_, GetErrorView>(
                (alias, bucket, key),
            )
        }),
{
    let lead = Seq::new(n, |i: int| '/');
    let slash = seq!['/'];
    let none: Seq<char> = seq![];
    lemma_leading(lead, n as int);
    assert(lead.skip(n as int) =~= none);
    assert(before_slash(none) =~= none);
    lemma_behind_lead(n, alias, none);
    lemma_behind_lead(n, alias, slash);
    lemma_behind_lead(n, alias, slash + slash + key);
    lemma_behind_lead(n, alias, slash + bucket);
    lemma_behind_lead(n, alias, slash + bucket + slash);
    assert(lead + alias + none =~= lead + alias);
    assert(lead + alias + (slash + slash + key) =~= lead + alias + slash + slash + key);
    assert(lead + alias + (slash + bucket) =~= lead + alias + slash + bucket);
    assert(lead + alias + (slash + bucket + slash) =~= lead + alias + slash + bucket + slash);
    assert(slash.skip(1) =~= none);
    assert((slash + slash + key).skip(1) =~= slash + key);
    assert(before_slash(slash + key) =~= none) by {
        lemma_slash_at(slash + key, 0);
    }
    assert((slash + bucket).skip(1) =~= bucket);
    lemma_slash_at(bucket, bucket.len() as int);
    assert(bucket.take(bucket.len() as int) =~= bucket);
    assert((slash + bucket + slash).skip(1) =~= bucket + slash);
    lemma_slash_at(bucket + slash, bucket.len() as int);
    assert((bucket + slash).take(bucket.len() as int) =~= bucket);
    assert((bucket + slash).skip(bucket.len() as int + 1) =~= none);
    if key.len() > 0 {
        let rest = slash + bucket + slash + key;
        lemma_behind_lead(n, alias, rest);
        assert(lead + alias + rest =~= lead + alias + slash + bucket + slash + key);
        assert(rest.skip(1) =~= bucket + slash + key);
        lemma_slash_at(bucket + slash + key, bucket.len() as int);
        assert((bucket + slash + key).take(bucket.len() as int) =~= bucket);
        assert((bucket + slash + key).skip(bucket.len() as int + 1) =~= key);
    }
}

proof fn lemma_behind_lead(n: nat, alias: Seq<char>, rest: Seq<char>)
    requires
        alias.len() > 0,
        forall|i: int| 0 <= i < alias.len() ==> alias[i] != '/',
        rest.len() > 0 ==> rest[0] == '/',
    ensures
        ({
            let whole = Seq::new(n, |i: int| '/') + alias + rest;
            let trimmed = without_leading_slashes(whole);
            &&& trimmed == alias + rest
            &&& before_slash(trimmed) == alias
            &&& rest.len() == 0 ==> behind_slash(trimmed) is None
            &&& rest.len() > 0 ==> behind_slash(trimmed) == Some(rest.skip(1))
        }),
{
    let whole = Seq::new(n, |i: int| '/') + alias + rest;
    let trimmed = alias + rest;
    assert(whole[n as int] == alias[0]);
    lemma_leading(whole, n as int);
    assert(whole.skip(n as int) =~= trimmed);
    assert(rest.len() > 0 ==> trimmed[alias.len() as int] == rest[0]);
    lemma_slash_at(trimmed, alias.len() as int);
    assert(trimmed.take(alias.len() as int) =~= alias);
    if rest.len() > 0 {
        assert(trimmed.skip(alias.len() as int + 1) =~= rest.skip(1));
    }
}

/// The file name of a key is its last part: all of it where it has no slash, and what is
/// behind the last slash where it has one. A key that is empty or ends in a slash has none.
pub proof fn law_file_names(front: Seq<char>, name: Seq<char>)
    requires
        name.len() > 0,
        forall|i: int| 0 <= i < name.len() ==> name[i] != '/',
    ensures
        filename(name) == Ok::<_, GetErrorView>(name),
        filename(front + seq!['/'] + name) == Ok::<_, GetErrorView>(name),
        filename(front + seq!['/']) == Err::<Seq<char>, GetErrorView>(GetErrorView::NoFilename),
        filename(seq![]) == Err::<Seq<char>, GetErrorView>(GetErrorView::NoFilename),
{
    lemma_behind_last_slash(name, 0);
    assert(name.skip(0) =~= name);
    let whole = front + seq!['/'] + name;
    let at = front.len() as int + 1;
    assert(whole[at - 1] == '/');
    lemma_behind_last_slash(whole, at);
    assert(whole.skip(at) =~= name);
    assert((front + seq!['/']).last() == '/');
}

/// Where an object goes on a system with slashes. Without a destination it goes into the
/// current directory. A destination that ends with a slash, or is a directory, takes it in
/// under its file name, and any other destination is the file itself.
pub proof fn law_destinations_on_unix(path: Seq<u8>, key: Seq<char>, is_dir: bool)
    requires
        filename(key) is Ok,
    ensures
        ({
            let name = encode_utf8(filename(key)->Ok_0);
            let resolved = resolved_destination(Some(path), key, is_dir, System::Unix);
            &&& resolved_destination(None, key, is_dir, System::Unix) == Ok::<_, GetErrorView>(
                encode_utf8("./"@ + filename(key)->Ok_0),
            )
            &&& path.len() > 0 && path.last() == 0x2f ==> resolved == Ok::<_, GetErrorView>(
                path + name,
            )
            &&& path.len() > 0 && path.last() != 0x2f && is_dir ==> resolved == Ok::<
                _,
                GetErrorView,
            >(path + seq![0x2fu8] + name)
            &&& path.len() == 0 && is_dir ==> resolved == Ok::<_, GetErrorView>(name)
            &&& !(path.len() > 0 && path.last() == 0x2f) && !is_dir ==> resolved == Ok::<
                _,
                GetErrorView,
            >(path)
        }),
{
    let name = encode_utf8(filename(key)->Ok_0);
    law_filename(key);
    lemma_first_byte(filename(key)->Ok_0);
    assert(path.push(0x2f) + name =~= path + seq![0x2fu8] + name);
    assert(path.len() == 0 ==> path + name =~= name);
}

/// Where an object goes on Windows: as with slashes, but that a directory is joined by a
/// backslash where no separator is there. This is said of directories below a drive, and
/// of file names that have no backslash and no colon at their start.
pub proof fn law_destinations_on_windows(path: Seq<u8>, key: Seq<char>, is_dir: bool)
    requires
        filename(key) is Ok,
        path.len() >= 3,
        0x41 <= path[0] <= 0x5a || 0x61 <= path[0] <= 0x7a,
        path[1] == 0x3a,
        ({
            let name = encode_utf8(filename(key)->Ok_0);
            name[0] != 0x5c && (name.len() >= 2 ==> name[1] != 0x3a)
        }),
    ensures
        ({
            let name = encode_utf8(filename(key)->Ok_0);
            let resolved = resolved_destination(Some(path), key, is_dir, System::Windows);
            &&& resolved_destination(None, key, is_dir, System::Windows) == Ok::<_, GetErrorView>(
                encode_utf8("./"@ + filename(key)->Ok_0),
            )
            &&& path.last() == 0x2f ==> resolved == Ok::<_, GetErrorView>(path + name)
            &&& path.last() == 0x5c && is_dir ==> resolved == Ok::<_, GetErrorView>(path + name)
            &&& path.last() != 0x2f && path.last() != 0x5c && is_dir ==> resolved == Ok::<
                _,
                GetErrorView,
            >(path + seq![0x5cu8] + name)
            &&& path.last() != 0x2f && !is_dir ==> resolved == Ok::<_, GetErrorView>(path)
        }),
{
    let name = encode_utf8(filename(key)->Ok_0);
    law_filename(key);
    lemma_first_byte(filename(key)->Ok_0);
    assert(path.push(0x5c) + name =~= path + seq![0x5cu8] + name);
}

/// No object goes anywhere under a key without a file name.
pub proof fn law_no_destination_without_name(
    path: Option<Seq<u8>>,
    key: Seq<char>,
    is_dir: bool,
    system: System,
)
    ensures
        resolved_destination(path, key, is_dir, system) is Err <==> key.len() == 0 || key.last()
            == '/',
        key.len() == 0 || key.last() == '/' ==> resolved_destination(path, key, is_dir, system)
            == Err::<Seq<u8>, GetErrorView>(GetErrorView::NoFilename),
{
    law_filename(key);
}

/// A destination that ends with a slash, or is a directory, takes the file name below it as
/// the system joins paths. Any other is the file itself.
pub proof fn law_destinations(path: Seq<u8>, key: Seq<char>, is_dir: bool, system: System)
    requires
        filename(key) is Ok,
    ensures
        resolved_destination(Some(path), key, is_dir, system) == Ok::<_, GetErrorView>(
            if is_dir || (path.len() > 0 && path.last() == 0x2f) {
                joined(path, encode_utf8(filename(key)->Ok_0), system)
            } else {
                path
            },
        ),
        resolved_destination(None, key, is_dir, system) == Ok::<_, GetErrorView>(
            encode_utf8("./"@ + filename(key)->Ok_0),
        ),
{
}

} // verus!
