//! JSON values and their texts.
//!
//! A value is spoken of by its compact text, which no other value has.

use vstd::prelude::*;

use crate::hexadecimal;
use crate::text;

verus! {

/// Trusted: a JSON value of `serde_json`.
#[verifier::external_type_specification]
#[verifier::external_body]
pub struct ExValue(serde_json::Value);

/// What a JSON value holds: its compact text.
pub uninterp spec fn json_text(value: serde_json::Value) -> Seq<char>;

/// The compact texts of several values.
pub open spec fn json_texts(values: Seq<serde_json::Value>) -> Seq<Seq<char>> {
    values.map_values(|v: serde_json::Value| json_text(v))
}

/// A character as it stands in a JSON string.
pub open spec fn escaped(c: char) -> Seq<char> {
    if c == '"' {
        seq!['\\', '"']
    } else if c == '\\' {
        seq!['\\', '\\']
    } else if c == '\u{8}' {
        seq!['\\', 'b']
    } else if c == '\t' {
        seq!['\\', 't']
    } else if c == '\n' {
        seq!['\\', 'n']
    } else if c == '\u{c}' {
        seq!['\\', 'f']
    } else if c == '\r' {
        seq!['\\', 'r']
    } else if (c as int) < 0x20 {
        seq![
            '\\',
            'u',
            '0',
            '0',
            hexadecimal::lower_digit(c as int / 16),
            hexadecimal::lower_digit(c as int % 16),
        ]
    } else {
        seq![c]
    }
}

/// Characters as they stand in a JSON string, in turn.
pub open spec fn all_escaped(text: Seq<char>) -> Seq<char>
    decreases text.len(),
{
    if text.len() == 0 {
        Seq::empty()
    } else {
        all_escaped(text.drop_last()) + escaped(text.last())
    }
}

/// `text` as a JSON string, in quotes, with what must be escaped escaped.
pub open spec fn json_quoted(text: Seq<char>) -> Seq<char> {
    seq!['"'] + all_escaped(text) + seq!['"']
}

/// The text of an array of the values with these texts.
pub open spec fn array_text(items: Seq<Seq<char>>) -> Seq<char> {
    "["@ + text::join(items, ","@) + "]"@
}

/// The text of an object with these members, the names first and then the texts of the values.
pub open spec fn object_text(members: Seq<(Seq<char>, Seq<char>)>) -> Seq<char> {
    "{"@ + text::join(
        members.map_values(|m: (Seq<char>, Seq<char>)| json_quoted(m.0) + ":"@ + m.1),
        ","@,
    ) + "}"@
}

/// Whether each of these members is found, under its name, in the object with this text.
pub open spec fn holds_members(text: Seq<char>, members: Seq<(Seq<char>, Seq<char>)>) -> bool {
    forall|i: int|
        0 <= i < members.len() ==> json_get(text, (#[trigger] members[i]).0) == Some(members[i].1)
}

/// How members are spoken of in contracts.
pub open spec fn members_view(members: Seq<(&str, serde_json::Value)>) -> Seq<
    (Seq<char>, Seq<char>),
> {
    members.map_values(|m: (&str, serde_json::Value)| (m.0@, json_text(m.1)))
}

/// Whether `a` comes before `b` because of what stands at `i`: a lesser character, or the end.
pub open spec fn less_at(a: Seq<char>, b: Seq<char>, i: int) -> bool {
    &&& 0 <= i <= a.len()
    &&& i < b.len()
    &&& forall|j: int| 0 <= j < i ==> a[j] == b[j]
    &&& i < a.len() ==> a[i] < b[i]
}

/// Whether the name of member `i` comes before that of the next.
pub open spec fn in_order_at(members: Seq<(Seq<char>, Seq<char>)>, i: int) -> bool {
    exists|k: int| #[trigger] less_at(members[i].0, members[i + 1].0, k)
}

/// Whether the names of the members ascend.
pub open spec fn in_order(members: Seq<(Seq<char>, Seq<char>)>) -> bool {
    forall|i: int| 0 <= i < members.len() - 1 ==> #[trigger] in_order_at(members, i)
}

/// Whether this is the text of an object.
pub open spec fn is_object_text(text: Seq<char>) -> bool {
    text.len() > 0 && text[0] == '{'
}

/// Whether a member can be put into the value with this text: an object, or `null`, which stands for
/// an empty one.
pub open spec fn takes_members(text: Seq<char>) -> bool {
    is_object_text(text) || text == "null"@
}

/// Whether the value with this text is read back as it is from position `i` on, `depth` levels deep,
/// inside a string or not: nowhere more than 127 levels deep, and without numbers that have a
/// fraction or an exponent, which are not always read back to the last digit.
pub open spec fn readable_from(text: Seq<char>, i: int, in_string: bool, depth: int) -> bool
    decreases text.len() + 1 - i,
{
    if i < 0 || i >= text.len() {
        true
    } else if in_string {
        if text[i] == '\\' {
            readable_from(text, i + 2, true, depth)
        } else {
            readable_from(text, i + 1, text[i] != '"', depth)
        }
    } else if text[i] == '"' {
        readable_from(text, i + 1, true, depth)
    } else if text[i] == '{' || text[i] == '[' {
        depth < 127 && readable_from(text, i + 1, false, depth + 1)
    } else if text[i] == '}' || text[i] == ']' {
        readable_from(text, i + 1, false, depth - 1)
    } else if text[i] == '.' || (text[i] == 'e' && i > 0 && '0' <= text[i - 1] <= '9') {
        false
    } else {
        readable_from(text, i + 1, false, depth)
    }
}

/// Whether the value with this text is read back as it is.
pub open spec fn readable(text: Seq<char>) -> bool {
    readable_from(text, 0, false, 0)
}

/// The text of the JSON value that `bytes` hold, or what is said of the error where they hold none.
pub uninterp spec fn json_value(bytes: Seq<u8>) -> Result<Seq<char>, Seq<char>>;

/// The text of the member of this name in the object with this text, if it is an object and has one.
pub uninterp spec fn json_get(text: Seq<char>, name: Seq<char>) -> Option<Seq<char>>;

/// The text of the object with this text once the value with text `member` stands under `name`.
pub uninterp spec fn json_set(text: Seq<char>, name: Seq<char>, member: Seq<char>) -> Seq<char>;

/// The value with this text laid out over lines.
pub uninterp spec fn json_pretty(text: Seq<char>) -> Seq<char>;

/// The member of this name in the object that `bytes` hold; none where there is no such member; and
/// what is said of the error where `bytes` hold no JSON.
pub open spec fn json_member(bytes: Seq<u8>, name: Seq<char>) -> Result<
    Option<Seq<char>>,
    Seq<char>,
> {
    match json_value(bytes) {
        Err(e) => Err(e),
        Ok(text) => Ok(json_get(text, name)),
    }
}

/// Whether the value with this text is read from `file`.
pub open spec fn reads_back(file: Seq<char>, text: Seq<char>) -> bool {
    json_value(vstd::utf8::encode_utf8(file)) == Ok::<Seq<char>, Seq<char>>(text)
}

/// Whether `file` is the value with this text laid out over lines, and is read back as that value
/// where it can be.
pub open spec fn laid_out(file: Seq<char>, text: Seq<char>) -> bool {
    &&& file == json_pretty(text)
    &&& readable(text) ==> reads_back(file, text)
}

/// How the outcome of reading a value is spoken of in contracts.
pub open spec fn value_view(r: Result<serde_json::Value, String>) -> Result<Seq<char>, Seq<char>> {
    match r {
        Ok(value) => Ok(json_text(value)),
        Err(e) => Err(e@),
    }
}

/// How a value that may not be there is spoken of in contracts.
pub open spec fn option_view(value: Option<serde_json::Value>) -> Option<Seq<char>> {
    match value {
        Some(value) => Some(json_text(value)),
        None => None,
    }
}

/// How a value that was found is spoken of in contracts.
pub open spec fn found_view(value: Option<&serde_json::Value>) -> Option<Seq<char>> {
    match value {
        Some(value) => Some(json_text(*value)),
        None => None,
    }
}

/// How the outcome of looking up a member is spoken of in contracts.
pub open spec fn member_view(r: Result<Option<serde_json::Value>, String>) -> Result<
    Option<Seq<char>>,
    Seq<char>,
> {
    match r {
        Ok(member) => Ok(option_view(member)),
        Err(e) => Err(e@),
    }
}

/// Trusted: `serde_json::from_slice` reads a JSON value.
#[verifier::external_body]
pub(crate) fn read(bytes: &[u8]) -> (r: Result<serde_json::Value, String>)
    ensures
        value_view(r) == json_value(bytes@),
{
    serde_json::from_slice(bytes).map_err(|e| e.to_string())
}

/// Trusted: `serde_json::Value::get` gives the member of an object, and none of any other value.
#[verifier::external_body]
pub(crate) fn get<'a>(value: &'a serde_json::Value, name: &str) -> (r: Option<
    &'a serde_json::Value,
>)
    ensures
        found_view(r) == json_get(json_text(*value), name@),
{
    value.get(name)
}

/// Trusted: the text of `serde_json::Value::Null` is `null`.
#[verifier::external_body]
pub(crate) fn null() -> (r: serde_json::Value)
    ensures
        json_text(r) == "null"@,
{
    serde_json::Value::Null
}

/// Trusted: the text of a `serde_json::Value::String` is the string in quotes, escaped.
#[verifier::external_body]
pub(crate) fn string(text: &str) -> (r: serde_json::Value)
    ensures
        json_text(r) == json_quoted(text@),
{
    serde_json::Value::String(text.to_string())
}

/// Trusted: the text of a `serde_json::Value::Array` is the texts of its items in brackets, with
/// commas between them.
#[verifier::external_body]
pub(crate) fn array(items: Vec<serde_json::Value>) -> (r: serde_json::Value)
    ensures
        json_text(r) == array_text(json_texts(items@)),
{
    serde_json::Value::Array(items)
}

/// Trusted: a `serde_json::Map` made from members, in the order of their names, keeps them in that
/// order, and the text of the `serde_json::Value::Object` is the members in braces, with commas
/// between them. Each member is found in it under its name.
#[verifier::external_body]
pub(crate) fn object(members: Vec<(&str, serde_json::Value)>) -> (r: serde_json::Value)
    requires
        in_order(members_view(members@)),
    ensures
        json_text(r) == object_text(members_view(members@)),
        holds_members(json_text(r), members_view(members@)),
{
    serde_json::Value::Object(members.into_iter().map(|(name, value)| (name.to_string(), value)).collect())
}

/// Trusted: `serde_json::Value::clone` copies a value.
#[verifier::external_body]
pub(crate) fn copy(value: &serde_json::Value) -> (r: serde_json::Value)
    ensures
        json_text(r) == json_text(*value),
{
    value.clone()
}

/// Trusted: `serde_json::Value::is_object` tells an object, whose text begins with a brace, from every
/// other value.
#[verifier::external_body]
pub(crate) fn is_object(value: &serde_json::Value) -> (r: bool)
    ensures
        r == is_object_text(json_text(*value)),
{
    value.is_object()
}

/// Trusted: `serde_json::Value::is_null` tells `null` from every other value.
#[verifier::external_body]
pub(crate) fn is_null(value: &serde_json::Value) -> (r: bool)
    ensures
        r == (json_text(*value) == "null"@),
{
    value.is_null()
}

/// Trusted: assigning through the index of a `serde_json::Value` by a name puts a member into an
/// object in place of what stood under that name, and leaves all other members as they are; `null`
/// becomes an object first. An object that holds that very member already stays the same. The object
/// is as deep, and has such numbers, as what it is made of. It panics on every other value.
#[verifier::external_body]
pub(crate) fn set(value: &mut serde_json::Value, name: &str, member: serde_json::Value)
    requires
        takes_members(json_text(*old(value))),
    ensures
        json_text(*final(value)) == json_set(json_text(*old(value)), name@, json_text(member)),
        is_object_text(json_text(*final(value))),
        forall|other: Seq<char>| #[trigger]
            json_get(json_text(*final(value)), other) == (if other == name@ {
                Some(json_text(member))
            } else {
                json_get(json_text(*old(value)), other)
            }),
        json_get(json_text(*old(value)), name@) == Some(json_text(member)) ==> json_text(
            *final(value),
        ) == json_text(*old(value)),
        readable(json_text(*old(value))) && readable_from(json_text(member), 0, false, 1)
            ==> readable(json_text(*final(value))),
{
    value[name] = member;
}

/// Trusted: `serde_json::to_string_pretty` lays a value out over lines; it fails on no
/// `serde_json::Value`. `serde_json::from_slice` reads the value back from it, unless it is nested
/// too deep, or holds a number that is not read back to the last digit.
#[verifier::external_body]
pub(crate) fn pretty(value: &serde_json::Value) -> (r: Result<String, String>)
    ensures
        r is Ok,
        r->Ok_0@ == json_pretty(json_text(*value)),
        readable(json_text(*value)) ==> reads_back(r->Ok_0@, json_text(*value)),
{
    serde_json::to_string_pretty(value).map_err(|e| e.to_string())
}

/// The member of this name, if the value is an object and has one.
pub fn member(value: &serde_json::Value, name: &str) -> (r: Option<serde_json::Value>)
    ensures
        option_view(r) == json_get(json_text(*value), name@),
{
    match get(value, name) {
        Some(found) => Some(copy(found)),
        None => None,
    }
}

/// The member of this name in the object that `bytes` hold, if there is one.
pub fn find_member(bytes: &[u8], name: &str) -> (r: Result<Option<serde_json::Value>, String>)
    ensures
        member_view(r) == json_member(bytes@, name@),
{
    match read(bytes) {
        Ok(value) => Ok(member(&value, name)),
        Err(e) => Err(e),
    }
}

/// Members are in order where each is in order with the next.
pub proof fn lemma_in_order(members: Seq<(Seq<char>, Seq<char>)>, at: Seq<int>)
    requires
        members.len() <= at.len() + 1,
        forall|i: int|
            0 <= i < members.len() - 1 ==> less_at(
                members[i].0,
                members[i + 1].0,
                #[trigger] at[i],
            ),
    ensures
        in_order(members),
{
    assert forall|i: int| 0 <= i < members.len() - 1 implies #[trigger] in_order_at(members, i) by {
        assert(less_at(members[i].0, members[i + 1].0, at[i]));
    }
}

} // verus!
