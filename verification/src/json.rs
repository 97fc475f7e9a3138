//! JSON objects on one line.
use vstd::prelude::*;

use crate::text::{
    decimal, decimal_text, hex_digit, json_escape, json_escaped, json_string, json_text, numeral,
};

verus! {

/// A value in an object.
pub enum JsonValue {
    Text(String),
    Number(u128),
    Flag(bool),
    Null,
}

/// The model of [`JsonValue`].
pub enum JsonValueView {
    Text(Seq<char>),
    Number(nat),
    Flag(bool),
    Null,
}

impl View for JsonValue {
    type V = JsonValueView;

    open spec fn view(&self) -> JsonValueView {
        match *self {
            JsonValue::Text(text) => JsonValueView::Text(text@),
            JsonValue::Number(n) => JsonValueView::Number(n as nat),
            JsonValue::Flag(flag) => JsonValueView::Flag(flag),
            JsonValue::Null => JsonValueView::Null,
        }
    }
}

/// A member of an object.
pub struct Member {
    pub name: &'static str,
    pub value: JsonValue,
}

/// The model of [`Member`].
pub struct MemberView {
    pub name: Seq<char>,
    pub value: JsonValueView,
}

impl View for Member {
    type V = MemberView;

    open spec fn view(&self) -> MemberView {
        MemberView { name: self.name@, value: self.value@ }
    }
}

/// The member `name` with a text.
pub open spec fn text_member(name: Seq<char>, text: Seq<char>) -> MemberView {
    MemberView { name, value: JsonValueView::Text(text) }
}

/// The member `name` with a number.
pub open spec fn number_member(name: Seq<char>, number: nat) -> MemberView {
    MemberView { name, value: JsonValueView::Number(number) }
}

/// The member `name` with a truth value.
pub open spec fn flag_member(name: Seq<char>, flag: bool) -> MemberView {
    MemberView { name, value: JsonValueView::Flag(flag) }
}

/// The member `name` with a text, or with `null` where there is none.
pub open spec fn null_member(name: Seq<char>, text: Option<Seq<char>>) -> MemberView {
    MemberView {
        name,
        value: match text {
            Some(text) => JsonValueView::Text(text),
            None => JsonValueView::Null,
        },
    }
}

/// The member `name` with a text, left out where there is none.
pub open spec fn some_member(name: Seq<char>, text: Option<Seq<char>>) -> Seq<MemberView> {
    match text {
        Some(text) => seq![text_member(name, text)],
        None => seq![],
    }
}

/// A value as JSON writes it.
pub open spec fn value_text(value: JsonValueView) -> Seq<char> {
    match value {
        JsonValueView::Text(text) => json_string(text),
        JsonValueView::Number(n) => decimal(n),
        JsonValueView::Flag(true) => "true"@,
        JsonValueView::Flag(false) => "false"@,
        JsonValueView::Null => "null"@,
    }
}

/// A member as JSON writes it.
pub open spec fn member_text(member: MemberView) -> Seq<char> {
    json_string(member.name) + ":"@ + value_text(member.value)
}

/// Members as JSON writes them, with a comma between neighbours.
pub open spec fn members_text(members: Seq<MemberView>) -> Seq<char>
    decreases members.len(),
{
    if members.len() == 0 {
        seq![]
    } else if members.len() == 1 {
        member_text(members[0])
    } else {
        members_text(members.drop_last()) + ","@ + member_text(members.last())
    }
}

/// The object of these members, as JSON writes it.
pub open spec fn object_text(members: Seq<MemberView>) -> Seq<char> {
    "{"@ + members_text(members) + "}"@
}

/// Whether `text` is a JSON object that holds this text in the member `name`.
pub open spec fn object_with(text: Seq<char>, name: Seq<char>, value: Seq<char>) -> bool {
    exists|members: Seq<MemberView>|
        text == #[trigger] object_text(members) && members.contains(text_member(name, value))
}

/// Whether `text` is a JSON object.
pub open spec fn is_object(text: Seq<char>) -> bool {
    exists|members: Seq<MemberView>| text == #[trigger] object_text(members)
}

/// The views of a list of members.
pub open spec fn member_views(members: Seq<Member>) -> Seq<MemberView> {
    members.map_values(|m: Member| m@)
}

fn value_line(value: &JsonValue) -> (text: String)
    ensures
        text@ == value_text(value@),
{
    match value {
        JsonValue::Text(text) => json_text(text.as_str()),
        JsonValue::Number(n) => decimal_text(*n),
        JsonValue::Flag(flag) => if *flag {
            "true".to_string()
        } else {
            "false".to_string()
        },
        JsonValue::Null => "null".to_string(),
    }
}

/// The object of these members, as JSON writes it.
pub fn object_line(members: &Vec<Member>) -> (line: String)
    ensures
        line@ == object_text(member_views(members@)),
{
    let ghost views = member_views(members@);
    let mut text = String::new();
    let mut i: usize = 0;
    while i < members.len()
        invariant
            i <= members.len(),
            views == member_views(members@),
            text@ == members_text(views.take(i as int)),
        decreases members.len() - i,
    {
        if i > 0 {
            text.append(",");
        }
        text.append(json_text(members[i].name).as_str());
        text.append(":");
        text.append(value_line(&members[i].value).as_str());
        proof {
            let longer = views.take(i + 1);
            assert(longer.drop_last() =~= views.take(i as int));
            assert(longer.last() == members@[i as int]@);
            assert(text@ =~= members_text(longer));
        }
        i = i + 1;
    }
    assert(views.take(members.len() as int) =~= views);
    "{".to_string().concat(text.as_str()).concat("}")
}

/// Whether `text` stays on one line: it holds no control character.
pub open spec fn one_line(text: Seq<char>) -> bool {
    forall|i: int| 0 <= i < text.len() ==> (#[trigger] text[i]) as u32 >= 0x20
}

proof fn lemma_one_line_concat(a: Seq<char>, b: Seq<char>)
    requires
        one_line(a),
        one_line(b),
    ensures
        one_line(a + b),
{
    assert forall|i: int| 0 <= i < (a + b).len() implies (#[trigger] (a + b)[i]) as u32
        >= 0x20 by {
        if i < a.len() {
            assert((a + b)[i] == a[i]);
        } else {
            assert((a + b)[i] == b[i - a.len()]);
        }
    }
}

proof fn lemma_escape_one_line(c: char)
    ensures
        one_line(json_escape(c)),
{
}

proof fn lemma_escaped_one_line(text: Seq<char>)
    ensures
        one_line(json_escaped(text)),
    decreases text.len(),
{
    if text.len() > 0 {
        lemma_escaped_one_line(text.drop_last());
        lemma_escape_one_line(text.last());
        lemma_one_line_concat(json_escaped(text.drop_last()), json_escape(text.last()));
    }
}

proof fn lemma_json_one_line(text: Seq<char>)
    ensures
        one_line(json_string(text)),
{
    lemma_escaped_one_line(text);
    lemma_one_line_concat(seq!['"'], json_escaped(text));
    lemma_one_line_concat(seq!['"'] + json_escaped(text), seq!['"']);
}

proof fn lemma_decimal_one_line(n: nat)
    ensures
        one_line(decimal(n)),
    decreases n,
{
    if n >= 10 {
        lemma_decimal_one_line(n / 10);
        assert(decimal(n) == numeral(n / 10, 10).push(hex_digit(n % 10)));
    }
}

proof fn lemma_member_one_line(member: MemberView)
    ensures
        one_line(member_text(member)),
{
    reveal_strlit(":");
    reveal_strlit("true");
    reveal_strlit("false");
    reveal_strlit("null");
    lemma_json_one_line(member.name);
    match member.value {
        JsonValueView::Text(text) => {
            lemma_json_one_line(text);
        },
        JsonValueView::Number(n) => {
            lemma_decimal_one_line(n);
        },
        _ => {},
    }
    lemma_one_line_concat(json_string(member.name), ":"@);
    lemma_one_line_concat(json_string(member.name) + ":"@, value_text(member.value));
}

proof fn lemma_members_one_line(members: Seq<MemberView>)
    ensures
        one_line(members_text(members)),
    decreases members.len(),
{
    reveal_strlit(",");
    if members.len() == 1 {
        lemma_member_one_line(members[0]);
    } else if members.len() > 1 {
        lemma_members_one_line(members.drop_last());
        lemma_member_one_line(members.last());
        lemma_one_line_concat(members_text(members.drop_last()), ","@);
        lemma_one_line_concat(
            members_text(members.drop_last()) + ","@,
            member_text(members.last()),
        );
    }
}

/// An object is one line, whatever its texts hold: what follows it on a stream is a record
/// of its own.
pub proof fn law_objects_are_one_line(members: Seq<MemberView>)
    ensures
        one_line(object_text(members)),
{
    reveal_strlit("{");
    reveal_strlit("}");
    lemma_members_one_line(members);
    lemma_one_line_concat("{"@, members_text(members));
    lemma_one_line_concat("{"@ + members_text(members), "}"@);
}

/// The value of a hexadecimal digit.
pub open spec fn hex_value(c: char) -> Option<nat> {
    if '0' as u32 <= c as u32 <= '9' as u32 {
        Some((c as u32 - '0' as u32) as nat)
    } else if 'a' as u32 <= c as u32 <= 'f' as u32 {
        Some((c as u32 - 'a' as u32 + 10) as nat)
    } else if 'A' as u32 <= c as u32 <= 'F' as u32 {
        Some((c as u32 - 'A' as u32 + 10) as nat)
    } else {
        None
    }
}

/// The character that four hexadecimal digits stand for, where it needs no second part.
pub open spec fn read_code(s: Seq<char>) -> Option<char> {
    match (hex_value(s[0]), hex_value(s[1]), hex_value(s[2]), hex_value(s[3])) {
        (Some(a), Some(b), Some(c), Some(d)) => {
            let code = ((a * 16 + b) * 16 + c) * 16 + d;
            if 0xd800 <= code < 0xe000 {
                None
            } else {
                Some(code as char)
            }
        },
        _ => None,
    }
}

/// The character that a JSON string goes on with, and how many it is written with.
pub open spec fn read_char(s: Seq<char>) -> Option<(char, int)> {
    if s.len() == 0 || s[0] == '"' || (s[0] as u32) < 0x20 {
        None
    } else if s[0] != '\\' {
        Some((s[0], 1))
    } else if s.len() < 2 {
        None
    } else if s[1] == '"' || s[1] == '\\' || s[1] == '/' {
        Some((s[1], 2))
    } else if s[1] == 'b' {
        Some(('\u{8}', 2))
    } else if s[1] == 'f' {
        Some(('\u{c}', 2))
    } else if s[1] == 'n' {
        Some(('\n', 2))
    } else if s[1] == 'r' {
        Some(('\r', 2))
    } else if s[1] == 't' {
        Some(('\t', 2))
    } else if s[1] == 'u' && s.len() >= 6 {
        match read_code(s.subrange(2, 6)) {
            Some(c) => Some((c, 6)),
            None => None,
        }
    } else {
        None
    }
}

/// The text of a JSON string behind its opening quote, and what follows its closing quote.
pub open spec fn read_string(s: Seq<char>) -> Option<(Seq<char>, Seq<char>)>
    decreases s.len(),
{
    if s.len() > 0 && s[0] == '"' {
        Some((seq![], s.skip(1)))
    } else {
        match read_char(s) {
            Some((c, n)) => if 0 < n <= s.len() {
                match read_string(s.skip(n)) {
                    Some((text, rest)) => Some((seq![c] + text, rest)),
                    None => None,
                }
            } else {
                None
            },
            None => None,
        }
    }
}

proof fn lemma_hex_value(d: nat)
    requires
        d < 16,
    ensures
        hex_value(hex_digit(d)) == Some(d),
{
}

proof fn lemma_read_escape(c: char, rest: Seq<char>)
    ensures
        json_escape(c).len() > 0,
        json_escape(c)[0] != '"',
        read_char(json_escape(c) + rest) == Some((c, json_escape(c).len() as int)),
{
    let s = json_escape(c) + rest;
    let plain = c == '"' || c == '\\' || c == '\u{8}' || c == '\t' || c == '\n' || c == '\u{c}'
        || c == '\r';
    if !plain && (c as u32) < 0x20 {
        let high = (c as nat) / 16;
        let low = (c as nat) % 16;
        lemma_hex_value(0);
        lemma_hex_value(high);
        lemma_hex_value(low);
        let code = s.subrange(2, 6);
        assert(s[1] == 'u');
        assert(code =~= seq!['0', '0', hex_digit(high), hex_digit(low)]);
        assert(hex_digit(0) == '0');
        assert(((0 * 16 + 0) * 16 + high) * 16 + low == c as nat);
        assert(read_code(code) == Some(c));
    } else {
        assert(s[0] == json_escape(c)[0]);
        if json_escape(c).len() == 2 {
            assert(s[1] == json_escape(c)[1]);
        }
    }
}

proof fn lemma_escaped_front(text: Seq<char>)
    requires
        text.len() > 0,
    ensures
        json_escaped(text) == json_escape(text[0]) + json_escaped(text.drop_first()),
    decreases text.len(),
{
    let front = text.drop_last();
    if front.len() == 0 {
        assert(json_escaped(front) =~= seq![]);
        assert(text.drop_first() =~= seq![]);
        assert(json_escaped(text.drop_first()) =~= seq![]);
        assert(json_escaped(text) =~= json_escape(text[0]));
    } else {
        lemma_escaped_front(front);
        assert(text.drop_first().drop_last() =~= front.drop_first());
        assert(json_escaped(text) =~= json_escape(text[0]) + (json_escaped(front.drop_first())
            + json_escape(text.last())));
    }
}

/// A text is read back from its JSON string as it was, whatever it holds, and the string
/// ends at its own closing quote.
pub proof fn law_strings_are_read_back(text: Seq<char>, rest: Seq<char>)
    ensures
        json_string(text) + rest == seq!['"'] + (json_escaped(text) + seq!['"'] + rest),
        read_string(json_escaped(text) + seq!['"'] + rest) == Some((text, rest)),
    decreases text.len(),
{
    let s = json_escaped(text) + seq!['"'] + rest;
    assert(json_string(text) + rest =~= seq!['"'] + s);
    if text.len() == 0 {
        assert(s.skip(1) =~= rest);
        assert(text =~= seq![]);
    } else {
        let tail = text.drop_first();
        let after = json_escaped(tail) + seq!['"'] + rest;
        lemma_escaped_front(text);
        lemma_read_escape(text[0], after);
        assert(s =~= json_escape(text[0]) + after);
        assert(s[0] == json_escape(text[0])[0]);
        assert(s.skip(json_escape(text[0]).len() as int) =~= after);
        law_strings_are_read_back(tail, rest);
        assert(seq![text[0]] + tail =~= text);
    }
}

/// How each value is written: a text as a JSON string, a number in decimal, and the three
/// words.
pub proof fn law_values(text: Seq<char>, number: nat)
    ensures
        value_text(JsonValueView::Text(text)) == json_string(text),
        value_text(JsonValueView::Number(number)) == numeral(number, 10),
        value_text(JsonValueView::Flag(true)) == "true"@,
        value_text(JsonValueView::Flag(false)) == "false"@,
        value_text(JsonValueView::Null) == "null"@,
{
}

/// How an object grows: another member comes last, behind a comma where it is not the
/// first, with its name as a JSON string, a colon and its value.
pub proof fn law_objects_grow(members: Seq<MemberView>, member: MemberView)
    ensures
        object_text(seq![]) == seq!['{', '}'],
        object_text(members.push(member)) == object_text(members).drop_last() + (
        if members.len() == 0 {
            seq![]
        } else {
            seq![',']
        }) + json_string(member.name) + seq![':'] + value_text(member.value) + seq!['}'],
{
    reveal_strlit("{");
    reveal_strlit("}");
    reveal_strlit(",");
    reveal_strlit(":");
    let none: Seq<MemberView> = seq![];
    assert(object_text(none) =~= seq!['{', '}']);
    let longer = members.push(member);
    assert(longer.drop_last() =~= members);
    let between: Seq<char> = if members.len() == 0 {
        seq![]
    } else {
        seq![',']
    };
    assert(members_text(longer) =~= members_text(members) + between + member_text(member));
    assert(object_text(longer) =~= object_text(members).drop_last() + between + json_string(
        member.name,
    ) + seq![':'] + value_text(member.value) + seq!['}']);
}

/// A text without quotes, backslashes and control characters stands in a JSON string as it
/// is.
pub proof fn law_plain_text_is_kept(text: Seq<char>)
    requires
        forall|i: int|
            0 <= i < text.len() ==> text[i] != '"' && text[i] != '\\' && (#[trigger] text[i])
                as u32 >= 0x20,
    ensures
        json_string(text) == seq!['"'] + text + seq!['"'],
{
    lemma_plain_escaped(text);
}

proof fn lemma_plain_escaped(text: Seq<char>)
    requires
        forall|i: int|
            0 <= i < text.len() ==> text[i] != '"' && text[i] != '\\' && (#[trigger] text[i])
                as u32 >= 0x20,
    ensures
        json_escaped(text) == text,
    decreases text.len(),
{
    if text.len() > 0 {
        let front = text.drop_last();
        assert forall|i: int| 0 <= i < front.len() implies front[i] != '"' && front[i] != '\\' && (
        #[trigger] front[i]) as u32 >= 0x20 by {
            assert(front[i] == text[i]);
        }
        lemma_plain_escaped(front);
        let last = text.last();
        assert(text[text.len() - 1] == last);
        assert(last as u32 >= 0x20);
        assert(json_escape(last) =~= seq![last]);
    }
    assert(json_escaped(text) =~= text);
}

/// The models of members and of their lists hold all that they are made of.
pub proof fn law_member_models(members: Seq<Member>)
    ensures
        member_views(members).len() == members.len(),
        forall|i: int|
            0 <= i < members.len() ==> (#[trigger] member_views(members)[i]).name
                == members[i].name@ && member_views(members)[i].value == match members[i].value {
                JsonValue::Text(text) => JsonValueView::Text(text@),
                JsonValue::Number(n) => JsonValueView::Number(n as nat),
                JsonValue::Flag(flag) => JsonValueView::Flag(flag),
                JsonValue::Null => JsonValueView::Null,
            },
{
}

} // verus!
