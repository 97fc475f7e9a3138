//! Small tools on text: numerals, JSON strings, searching and comparing.
use vstd::prelude::*;

use crate::outside::{debug_quoted, debug_text, to_json};

verus! {

/// The digit for `d` in bases up to sixteen.
pub open spec fn hex_digit(d: nat) -> char {
    if d < 10 {
        (('0' as u32) + d) as char
    } else {
        (('a' as u32) + d - 10) as char
    }
}

/// The numeral of `n` in `base`, without leading zeros.
pub open spec fn numeral(n: nat, base: nat) -> Seq<char>
    decreases n,
{
    if n < base || base < 2 {
        seq![hex_digit(n)]
    } else {
        proof {
            assert(n / base < n) by (nonlinear_arith)
                requires
                    2 <= base <= n,
            ;
        }
        numeral(n / base, base).push(hex_digit(n % base))
    }
}

/// The decimal numeral of `n`.
pub open spec fn decimal(n: nat) -> Seq<char> {
    numeral(n, 10)
}

/// The octal numeral of `n`.
pub open spec fn octal(n: nat) -> Seq<char> {
    numeral(n, 8)
}

/// How JSON writes the character `c` inside a string.
pub open spec fn json_escape(c: char) -> Seq<char> {
    if c == '"' || c == '\\' {
        seq!['\\', c]
    } else if c == '\u{8}' {
        seq!['\\', 'b']
    } else if c == '\t' {
        seq!['\\', 't']
    } else if c == '\n' {
        seq!['\\', 'n']
    } else if c == '\u{c}' {
        seq!['\\', 'f']
    } else if c == '\r' {
        seq!['\\', 'r']
    } else if (c as u32) < 0x20 {
        seq!['\\', 'u', '0', '0', hex_digit((c as nat) / 16), hex_digit((c as nat) % 16)]
    } else {
        seq![c]
    }
}

/// `text` with each character as JSON writes it.
pub open spec fn json_escaped(text: Seq<char>) -> Seq<char>
    decreases text.len(),
{
    if text.len() == 0 {
        seq![]
    } else {
        json_escaped(text.drop_last()) + json_escape(text.last())
    }
}

/// `text` as a JSON string.
pub open spec fn json_string(text: Seq<char>) -> Seq<char> {
    seq!['"'] + json_escaped(text) + seq!['"']
}

/// The texts of `parts`, with `", "` between neighbours.
pub open spec fn comma_joined(parts: Seq<Seq<char>>) -> Seq<char>
    decreases parts.len(),
{
    if parts.len() == 0 {
        seq![]
    } else if parts.len() == 1 {
        parts[0]
    } else {
        comma_joined(parts.drop_last()) + ", "@ + parts.last()
    }
}

/// How `{:?}` writes a list of strings.
pub open spec fn debug_list(items: Seq<Seq<char>>) -> Seq<char> {
    "["@ + comma_joined(items.map_values(|t: Seq<char>| debug_text(t))) + "]"@
}

/// Whether `part` occurs in `whole`.
pub open spec fn occurs_in(part: Seq<char>, whole: Seq<char>) -> bool {
    exists|i: int|
        0 <= i <= whole.len() - part.len() && #[trigger] whole.subrange(i, i + part.len()) == part
}

/// The view of an optional text.
pub open spec fn opt_text(text: Option<String>) -> Option<Seq<char>> {
    match text {
        Some(t) => Some(t@),
        None => None,
    }
}

/// The views of a list of texts.
pub open spec fn texts(list: Seq<String>) -> Seq<Seq<char>> {
    list.map_values(|t: String| t@)
}

fn digit_text(d: u128) -> (text: &'static str)
    requires
        d < 10,
    ensures
        text@ == seq![hex_digit(d as nat)],
{
    proof {
        reveal_strlit("0");
        reveal_strlit("1");
        reveal_strlit("2");
        reveal_strlit("3");
        reveal_strlit("4");
        reveal_strlit("5");
        reveal_strlit("6");
        reveal_strlit("7");
        reveal_strlit("8");
        reveal_strlit("9");
    }
    let text = match d {
        0 => "0",
        1 => "1",
        2 => "2",
        3 => "3",
        4 => "4",
        5 => "5",
        6 => "6",
        7 => "7",
        8 => "8",
        _ => "9",
    };
    assert(text@ =~= seq![hex_digit(d as nat)]);
    text
}

fn numeral_text(n: u128, base: u128) -> (text: String)
    requires
        2 <= base <= 10,
    ensures
        text@ == numeral(n as nat, base as nat),
    decreases n,
{
    if n < base {
        digit_text(n).to_string()
    } else {
        assert(n / base < n) by (nonlinear_arith)
            requires
                2 <= base <= n,
        ;
        let mut text = numeral_text(n / base, base);
        text.append(digit_text(n % base));
        assert(text@ =~= numeral(n as nat, base as nat));
        text
    }
}

/// `n` in decimal.
pub fn decimal_text(n: u128) -> (text: String)
    ensures
        text@ == decimal(n as nat),
{
    numeral_text(n, 10)
}

/// `n` in octal.
pub fn octal_text(n: u128) -> (text: String)
    ensures
        text@ == octal(n as nat),
{
    numeral_text(n, 8)
}

/// `text` as a JSON string, quotes included.
pub fn json_text(text: &str) -> (json: String)
    ensures
        json@ == json_string(text@),
{
    match to_json(text) {
        Ok(json) => json,
        Err(_) => String::new(),
    }
}

/// The list `items` as `{:?}` writes it.
pub fn debug_list_text(items: &Vec<String>) -> (text: String)
    ensures
        text@ == debug_list(texts(items@)),
{
    let ghost quoted = texts(items@).map_values(|t: Seq<char>| debug_text(t));
    let mut text = String::new();
    let mut i: usize = 0;
    while i < items.len()
        invariant
            i <= items.len(),
            quoted == texts(items@).map_values(|t: Seq<char>| debug_text(t)),
            text@ == comma_joined(quoted.take(i as int)),
        decreases items.len() - i,
    {
        if i > 0 {
            text.append(", ");
        }
        text.append(debug_quoted(items[i].as_str()).as_str());
        proof {
            let longer = quoted.take(i + 1);
            assert(longer.drop_last() =~= quoted.take(i as int));
            assert(text@ =~= comma_joined(longer));
        }
        i = i + 1;
    }
    assert(quoted.take(items.len() as int) =~= quoted);
    "[".to_string().concat(text.as_str()).concat("]")
}

/// The characters of `text`.
pub fn chars_of(text: &str) -> (chars: Vec<char>)
    ensures
        chars@ == text@,
{
    let mut chars: Vec<char> = Vec::new();
    for c in it: text.chars()
        invariant
            chars@ == it.seq().take(it.index() as int),
            it.seq() == text@,
    {
        chars.push(c);
    }
    chars
}

/// Whether two texts are equal.
pub fn same_text(a: &str, b: &str) -> (same: bool)
    ensures
        same == (a@ == b@),
{
    a.to_string() == b.to_string()
}

fn matches_at(whole: &Vec<char>, part: &Vec<char>, at: usize) -> (found: bool)
    requires
        at + part.len() <= whole.len(),
    ensures
        found == (whole@.subrange(at as int, at + part@.len()) == part@),
{
    let mut j: usize = 0;
    while j < part.len()
        invariant
            j <= part.len(),
            at + part.len() <= whole.len(),
            forall|k: int| 0 <= k < j ==> whole@[at + k] == part@[k],
        decreases part.len() - j,
    {
        if whole[at + j] != part[j] {
            assert(whole@.subrange(at as int, at + part@.len())[j as int] != part@[j as int]);
            return false;
        }
        j = j + 1;
    }
    assert(whole@.subrange(at as int, at + part@.len()) =~= part@);
    true
}

/// Whether `part` occurs in `whole`.
pub fn contains(whole: &str, part: &str) -> (found: bool)
    ensures
        found == occurs_in(part@, whole@),
{
    let w = chars_of(whole);
    let p = chars_of(part);
    if p.len() > w.len() {
        return false;
    }
    let last: usize = w.len() - p.len();
    let mut i: usize = 0;
    while i < last
        invariant
            w@ == whole@,
            p@ == part@,
            last == w.len() - p.len(),
            i <= last,
            forall|k: int| 0 <= k < i ==> #[trigger] w@.subrange(k, k + p@.len()) != p@,
        decreases last - i,
    {
        if matches_at(&w, &p, i) {
            return true;
        }
        i = i + 1;
    }
    matches_at(&w, &p, last)
}

/// Whether a character is a digit of a base.
pub open spec fn is_digit(c: char, base: nat) -> bool {
    0x30 <= (c as u32) && (c as u32) < 0x30 + base
}

/// The number that a text of digits stands for in a base, by its digits from the left.
pub open spec fn digits_value(digits: Seq<char>, base: nat) -> nat
    decreases digits.len(),
{
    if digits.len() == 0 {
        0
    } else {
        digits_value(digits.drop_last(), base) * base + (digits.last() as u32 - 0x30) as nat
    }
}

/// The numeral of a number stands for that number: it is made of the digits of its base, it
/// has at least one, it starts with a zero only where it is nothing else, and its digits are
/// worth the number.
pub proof fn law_numerals_are_exact(n: nat, base: nat)
    requires
        2 <= base <= 10,
    ensures
        numeral(n, base).len() > 0,
        forall|i: int|
            0 <= i < numeral(n, base).len() ==> is_digit(#[trigger] numeral(n, base)[i], base),
        n > 0 ==> numeral(n, base)[0] != '0',
        digits_value(numeral(n, base), base) == n,
        decimal(n) == numeral(n, 10),
        octal(n) == numeral(n, 8),
    decreases n,
{
    let text = numeral(n, base);
    if n < base {
        assert(text.drop_last() =~= seq![]);
        assert(digits_value(seq![], base) == 0);
        assert(0 * base == 0) by (nonlinear_arith);
        assert(text.last() as u32 == 0x30 + n);
    } else {
        let front = numeral(n / base, base);
        assert(n / base < n && n / base > 0) by (nonlinear_arith)
            requires
                2 <= base <= n,
        ;
        law_numerals_are_exact(n / base, base);
        let digit = n % base;
        assert(digit < base && (n / base) * base + digit == n) by (nonlinear_arith)
            requires
                base >= 2,
                digit == n % base,
        ;
        assert(text.drop_last() =~= front);
        assert(text.last() as u32 == 0x30 + digit);
        assert(text[0] == front[0]);
        assert forall|i: int| 0 <= i < text.len() implies is_digit(
            #[trigger] text[i],
            base,
        ) by {
            if i < front.len() {
                assert(text[i] == front[i]);
            }
        }
    }
}

/// A list of names is written in square brackets, each name as `{:?}` writes it, with a
/// comma and a space between neighbours.
pub proof fn law_lists_are_written_in_order(names: Seq<Seq<char>>, name: Seq<char>)
    ensures
        debug_list(seq![]) == seq!['[', ']'],
        debug_list(seq![name]) == seq!['['] + debug_text(name) + seq![']'],
        names.len() > 0 ==> debug_list(names.push(name)) == debug_list(names).drop_last() + seq![
            ',',
            ' ',
        ] + debug_text(name) + seq![']'],
{
    reveal_strlit("[");
    reveal_strlit("]");
    reveal_strlit(", ");
    let quote = |t: Seq<char>| debug_text(t);
    let none: Seq<Seq<char>> = seq![];
    assert(none.map_values(quote) =~= seq![]);
    assert(debug_list(none) =~= seq!['[', ']']);
    assert(seq![name].map_values(quote) =~= seq![debug_text(name)]);
    assert(debug_list(seq![name]) =~= seq!['['] + debug_text(name) + seq![']']);
    if names.len() > 0 {
        let longer = names.push(name).map_values(quote);
        assert(longer.drop_last() =~= names.map_values(quote));
        assert(longer.last() == debug_text(name));
        assert(debug_list(names.push(name)) =~= debug_list(names).drop_last() + seq![',', ' ']
            + debug_text(name) + seq![']']);
    }
}

/// The models of an optional text and of a list of texts hold the texts themselves.
pub proof fn law_text_models(text: Option<String>, list: Seq<String>)
    ensures
        text is None <==> opt_text(text) is None,
        text matches Some(t) ==> opt_text(text) == Some(t@),
        texts(list).len() == list.len(),
        forall|i: int| 0 <= i < list.len() ==> #[trigger] texts(list)[i] == list[i]@,
{
}

/// A text occurs in another exactly where the other is it, with something before and
/// something behind.
pub proof fn law_occurrence(
    part: Seq<char>,
    whole: Seq<char>,
    before: Seq<char>,
    behind: Seq<char>,
)
    ensures
        occurs_in(part, before + part + behind),
        occurs_in(part, whole) ==> exists|i: int|
            0 <= i <= whole.len() - part.len() && whole == #[trigger] whole.take(i) + part
                + whole.skip(i + part.len()),
{
    let longer = before + part + behind;
    let at = before.len() as int;
    assert(longer.subrange(at, at + part.len()) =~= part);
    if occurs_in(part, whole) {
        let i = choose|i: int|
            0 <= i <= whole.len() - part.len() && #[trigger] whole.subrange(i, i + part.len())
                == part;
        assert(whole =~= whole.take(i) + part + whole.skip(i + part.len()));
    }
}

} // verus!
