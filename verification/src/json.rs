//! JSON text: strings, arrays and objects in compact form.

use vstd::prelude::*;
use crate::text::{cat3, join};
#[allow(unused_imports)]
use crate::text::{joined, law_joined_text, texts};

verus! {

/// A hexadecimal digit, in lower case.
pub open spec fn hex_digit(n: int) -> char {
    if n < 10 {
        (48 + n) as char
    } else {
        (87 + n) as char
    }
}

/// A character as it stands in a JSON string.
pub open spec fn escaped(c: char) -> Seq<char> {
    let n = c as u32 as int;
    if c == '"' || c == '\\' {
        seq!['\\', c]
    } else if n == 0x08 {
        seq!['\\', 'b']
    } else if n == 0x09 {
        seq!['\\', 't']
    } else if n == 0x0a {
        seq!['\\', 'n']
    } else if n == 0x0c {
        seq!['\\', 'f']
    } else if n == 0x0d {
        seq!['\\', 'r']
    } else if n < 0x20 {
        seq!['\\', 'u', '0', '0', hex_digit(n / 16), hex_digit(n % 16)]
    } else {
        seq![c]
    }
}

/// The characters of a text as they stand in a JSON string.
pub open spec fn escaped_text(s: Seq<char>) -> Seq<char>
    decreases s.len(),
{
    if s.len() == 0 {
        Seq::<char>::empty()
    } else {
        escaped_text(s.take(s.len() - 1)) + escaped(s[s.len() - 1])
    }
}

/// A text as a JSON string.
pub open spec fn json_string(s: Seq<char>) -> Seq<char> {
    seq!['"'] + escaped_text(s) + seq!['"']
}

/// Every text as a JSON string.
pub open spec fn json_strings(parts: Seq<Seq<char>>) -> Seq<Seq<char>> {
    Seq::new(parts.len(), |i: int| json_string(parts[i]))
}

/// A JSON array of strings.
pub open spec fn json_array(parts: Seq<Seq<char>>) -> Seq<char> {
    "["@ + joined(json_strings(parts), ","@) + "]"@
}

/// The members of a JSON object: keys, and values that are JSON text already.
pub open spec fn json_members(members: Seq<(Seq<char>, Seq<char>)>) -> Seq<Seq<char>> {
    Seq::new(members.len(), |i: int| json_string(members[i].0) + ":"@ + members[i].1)
}

/// A JSON object, its members in the given order.
pub open spec fn json_object(members: Seq<(Seq<char>, Seq<char>)>) -> Seq<char> {
    "{"@ + joined(json_members(members), ","@) + "}"@
}

/// The characters of a list of pairs.
pub open spec fn pair_texts(v: Seq<(String, String)>) -> Seq<(Seq<char>, Seq<char>)> {
    Seq::new(v.len(), |i: int| (v[i].0@, v[i].1@))
}

/// `serde_json::Value` shows a string as JSON text: in quotes, with quote,
/// backslash and the control characters under U+0020 escaped, and every other
/// character as it is.
#[verifier::external_body]
pub(crate) fn string_value(s: &str) -> (r: String)
    ensures
        r@ == json_string(s@),
{
    serde_json::Value::from(s).to_string()
}

/// A value of `serde_json`, which the client carries without looking inside.
#[verifier::external_type_specification]
#[verifier::external_body]
pub struct ExValue(serde_json::Value);

/// The value that a JSON text stands for, or why it is no JSON.
pub uninterp spec fn json_read(text: Seq<char>) -> Result<serde_json::Value, Seq<char>>;

/// A value as JSON text in indented lines.
pub uninterp spec fn json_pretty(value: serde_json::Value) -> Seq<char>;

/// `serde_json::from_str` reads a JSON text; an error is taken by what it says.
/// The result is named. The text `null` is JSON.
#[verifier::external_body]
pub(crate) fn read_value(text: &str) -> (r: Result<serde_json::Value, String>)
    ensures
        match r {
            Ok(value) => json_read(text@) == Ok::<serde_json::Value, Seq<char>>(value),
            Err(e) => json_read(text@) == Err::<serde_json::Value, Seq<char>>(e@),
        },
        text@ == "null"@ ==> r is Ok,
{
    serde_json::from_str::<serde_json::Value>(text).map_err(|e| e.to_string())
}

/// `serde_json::to_string_pretty` writes a value as indented JSON text; were it to
/// fail, the value is shown in one line. The result is named.
#[verifier::external_body]
pub(crate) fn pretty_value(value: &serde_json::Value) -> (text: String)
    ensures
        text@ == json_pretty(*value),
{
    serde_json::to_string_pretty(value).unwrap_or_else(|_| value.to_string())
}

/// A JSON array of strings.
pub fn array_of(parts: &Vec<String>) -> (r: String)
    ensures
        r@ == json_array(texts(parts@)),
{
    let mut values: Vec<String> = Vec::new();
    let mut i: usize = 0;
    while i < parts.len()
        invariant
            i <= parts@.len(),
            values@.len() == i,
            forall|j: int| 0 <= j < i ==> #[trigger] values@[j]@ == json_string(parts@[j]@),
        decreases parts@.len() - i,
    {
        values.push(string_value(parts[i].as_str()));
        i += 1;
    }
    assert(texts(values@) =~= json_strings(texts(parts@)));
    let body = join(&values, ",");
    cat3("[", body.as_str(), "]")
}

/// A JSON object of keys and values that are JSON text already.
pub fn object_of(members: &Vec<(String, String)>) -> (r: String)
    ensures
        r@ == json_object(pair_texts(members@)),
{
    let mut parts: Vec<String> = Vec::new();
    let mut i: usize = 0;
    while i < members.len()
        invariant
            i <= members@.len(),
            parts@.len() == i,
            forall|j: int|
                0 <= j < i ==> #[trigger] parts@[j]@ == json_string(members@[j].0@) + ":"@
                    + members@[j].1@,
        decreases members@.len() - i,
    {
        let key = string_value(members[i].0.as_str());
        parts.push(cat3(key.as_str(), ":", members[i].1.as_str()));
        i += 1;
    }
    assert(texts(parts@) =~= json_members(pair_texts(members@)));
    let body = join(&parts, ",");
    cat3("{", body.as_str(), "}")
}

/// An array holds its texts as JSON strings, in their order, parted by commas: one more
/// text stands before the closing bracket, and nothing else changes.
pub proof fn law_arrays_hold_their_texts(parts: Seq<Seq<char>>, last: Seq<char>)
    ensures
        json_array(Seq::<Seq<char>>::empty()) == seq!['[', ']'],
        json_array(seq![last]) == seq!['['] + json_string(last) + seq![']'],
        parts.len() > 0 ==> json_array(parts.push(last)) == json_array(parts).drop_last() + seq![
            ',',
        ] + json_string(last) + seq![']'],
{
    reveal_strlit("[");
    reveal_strlit("]");
    reveal_strlit(",");
    let none = Seq::<Seq<char>>::empty();
    let values = json_strings(parts);
    law_joined_text(values, json_string(last), ","@);
    law_joined_text(none, json_string(last), ","@);
    assert(json_strings(none) =~= none);
    assert(json_array(none) =~= seq!['[', ']']);
    assert(json_strings(seq![last]) =~= none.push(json_string(last)));
    assert(json_array(seq![last]) =~= seq!['['] + json_string(last) + seq![']']);
    assert(json_strings(parts.push(last)) =~= values.push(json_string(last)));
    if parts.len() > 0 {
        assert(json_array(parts).drop_last() =~= "["@ + joined(values, ","@));
        assert(json_array(parts.push(last)) =~= json_array(parts).drop_last() + seq![',']
            + json_string(last) + seq![']']);
    }
}

/// An object holds its members in their order, each a key, a colon and its value: one
/// more member stands before the closing brace, and nothing else changes.
pub proof fn law_objects_hold_their_members(
    members: Seq<(Seq<char>, Seq<char>)>,
    key: Seq<char>,
    value: Seq<char>,
)
    ensures
        json_object(Seq::<(Seq<char>, Seq<char>)>::empty()) == seq!['{', '}'],
        json_object(seq![(key, value)]) == seq!['{'] + json_string(key) + seq![':'] + value + seq![
            '}',
        ],
        members.len() > 0 ==> json_object(members.push((key, value))) == json_object(
            members,
        ).drop_last() + seq![','] + json_string(key) + seq![':'] + value + seq!['}'],
{
    reveal_strlit("{");
    reveal_strlit("}");
    reveal_strlit(":");
    reveal_strlit(",");
    let none = Seq::<(Seq<char>, Seq<char>)>::empty();
    let parts = json_members(members);
    let last = json_string(key) + ":"@ + value;
    law_joined_text(parts, last, ","@);
    law_joined_text(json_members(none), last, ","@);
    assert(json_members(none) =~= Seq::<Seq<char>>::empty());
    assert(json_object(none) =~= seq!['{', '}']);
    assert(json_members(seq![(key, value)]) =~= json_members(none).push(last));
    assert(json_object(seq![(key, value)]) =~= seq!['{'] + json_string(key) + seq![':'] + value
        + seq!['}']);
    assert(json_members(members.push((key, value))) =~= parts.push(last));
    if members.len() > 0 {
        assert(json_object(members).drop_last() =~= "{"@ + joined(parts, ","@));
        assert(json_object(members.push((key, value))) =~= json_object(members).drop_last() + seq![
            ',',
        ] + json_string(key) + seq![':'] + value + seq!['}']);
    }
}

/// A JSON string stands in quotes, and a text of plain characters stands in them as it is.
pub proof fn law_plain_strings_stand_as_they_are(s: Seq<char>)
    requires
        forall|i: int|
            0 <= i < s.len() ==> s[i] != '"' && s[i] != '\\' && (#[trigger] s[i]) as u32 >= 0x20,
    ensures
        json_string(s) == seq!['"'] + s + seq!['"'],
    decreases s.len(),
{
    if s.len() > 0 {
        let t = s.take(s.len() - 1);
        law_plain_strings_stand_as_they_are(t);
        assert(json_string(t).subrange(1, json_string(t).len() - 1) =~= escaped_text(t));
        assert((seq!['"'] + t + seq!['"']).subrange(1, t.len() as int + 1) =~= t);
        assert(escaped_text(t) =~= t);
        assert(s[s.len() - 1] as u32 >= 0x20);
        assert(escaped_text(s) =~= s);
    } else {
        assert(s =~= Seq::<char>::empty());
    }
}

} // verus!
