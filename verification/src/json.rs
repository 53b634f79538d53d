//! JSON objects, built and written out by `serde_json`.
use vstd::prelude::*;

use crate::text;

verus! {

/// A JSON value of `serde_json`. Nothing is known of what is inside.
#[verifier::external_type_specification]
#[verifier::external_body]
pub struct ExJsonValue(serde_json::Value);

/// The map type behind a JSON object of `serde_json`. What it holds is named
/// by [`members`].
#[verifier::external_type_specification]
#[verifier::external_body]
#[verifier::reject_recursive_types(K)]
#[verifier::reject_recursive_types(V)]
pub struct ExJsonMap<K, V>(serde_json::Map<K, V>);

/// A JSON object.
pub type JsonObject = serde_json::Map<String, serde_json::Value>;

/// What a JSON object holds: under each key, the compact JSON text of the value.
pub uninterp spec fn members(object: JsonObject) -> Map<Seq<char>, Seq<char>>;

/// The hexadecimal digit for a number below sixteen.
pub open spec fn hex_digit(n: int) -> char {
    if n < 10 {
        ('0' as int + n) as char
    } else {
        ('a' as int + n - 10) as char
    }
}

/// How a character is written inside a JSON string.
pub open spec fn json_escape(c: char) -> Seq<char> {
    if c == '"' || c == '\\' {
        seq!['\\', c]
    } else if c == '\u{8}' {
        seq!['\\', 'b']
    } else if c == '\u{9}' {
        seq!['\\', 't']
    } else if c == '\u{a}' {
        seq!['\\', 'n']
    } else if c == '\u{c}' {
        seq!['\\', 'f']
    } else if c == '\u{d}' {
        seq!['\\', 'r']
    } else if ' ' > c {
        seq!['\\', 'u', '0', '0', hex_digit(c as int / 16), hex_digit(c as int % 16)]
    } else {
        seq![c]
    }
}

/// How the characters of `s` are written inside a JSON string.
pub open spec fn json_escaped(s: Seq<char>) -> Seq<char>
    decreases s.len(),
{
    if s.len() == 0 {
        s
    } else {
        json_escape(s[0]) + json_escaped(s.drop_first())
    }
}

/// The compact JSON text of a string.
pub open spec fn json_string(s: Seq<char>) -> Seq<char> {
    "\""@ + json_escaped(s) + "\""@
}

/// Whether `a` stands before `b` in the order of their code points.
pub open spec fn stands_before(a: Seq<char>, b: Seq<char>) -> bool
    decreases a.len(),
{
    if a.len() == 0 || b.len() == 0 {
        a.len() < b.len()
    } else if a[0] != b[0] {
        a[0] < b[0]
    } else {
        stands_before(a.drop_first(), b.drop_first())
    }
}

/// Whether `keys` are in order, with none twice.
pub open spec fn in_order(keys: Seq<Seq<char>>) -> bool {
    forall|i: int, j: int|
        0 <= i < j < keys.len() ==> stands_before(#[trigger] keys[i], #[trigger] keys[j])
}

/// Whether `keys` are the keys of `members`, in order.
pub open spec fn lists(keys: Seq<Seq<char>>, members: Map<Seq<char>, Seq<char>>) -> bool {
    &&& in_order(keys)
    &&& forall|key: Seq<char>| #[trigger] keys.contains(key) <==> members.dom().contains(key)
}

/// The members under the given keys, with commas between them.
pub open spec fn json_members(
    keys: Seq<Seq<char>>,
    members: Map<Seq<char>, Seq<char>>,
) -> Seq<char>
    decreases keys.len(),
{
    if keys.len() == 0 {
        Seq::empty()
    } else {
        let before = json_members(keys.drop_last(), members);
        let last = json_string(keys.last()) + ":"@ + members[keys.last()];
        if keys.len() == 1 {
            last
        } else {
            before + ","@ + last
        }
    }
}

/// The compact JSON text of an object with the given members, where their values are
/// given as JSON texts: the members stand in the order of their keys.
pub open spec fn json_object(members: Map<Seq<char>, Seq<char>>) -> Seq<char> {
    "{"@ + json_members(choose|keys: Seq<Seq<char>>| lists(keys, members), members) + "}"@
}

/// The JSON text of a truth value.
pub open spec fn json_flag(b: bool) -> Seq<char> {
    if b {
        "true"@
    } else {
        "false"@
    }
}

/// `serde_json::Map::new`: an object without members.
#[verifier::external_body]
pub(crate) fn empty_object() -> (r: JsonObject)
    ensures
        members(r) =~= map![],
{
    serde_json::Map::new()
}

/// `serde_json::Map::insert` of a string value: the key then holds that string,
/// quoted and escaped, and the other keys what they held.
#[verifier::external_body]
pub(crate) fn insert_text(object: &mut JsonObject, key: &str, value: &str)
    ensures
        members(*final(object)) == members(*old(object)).insert(key@, json_string(value@)),
{
    object.insert(key.to_string(), serde_json::Value::from(value));
}

/// `serde_json::Map::insert` of a truth value: the key then holds `true` or
/// `false`, and the other keys what they held.
#[verifier::external_body]
pub(crate) fn insert_flag(object: &mut JsonObject, key: &str, value: bool)
    ensures
        members(*final(object)) == members(*old(object)).insert(key@, json_flag(value)),
{
    object.insert(key.to_string(), serde_json::Value::from(value));
}

/// `serde_json::Map::insert` of an unsigned integer: the key then holds the
/// integer in decimal, and the other keys what they held.
#[verifier::external_body]
pub(crate) fn insert_number(object: &mut JsonObject, key: &str, value: u64)
    ensures
        members(*final(object)) == members(*old(object)).insert(key@, text::decimal(value as nat)),
{
    object.insert(key.to_string(), serde_json::Value::from(value));
}

/// `serde_json::Map::insert` of an object: the key then holds that object, and
/// the other keys what they held.
#[verifier::external_body]
pub(crate) fn insert_object(object: &mut JsonObject, key: &str, value: JsonObject)
    ensures
        members(*final(object)) == members(*old(object)).insert(
            key@,
            json_object(members(value)),
        ),
{
    object.insert(key.to_string(), serde_json::Value::from(value));
}

/// `serde_json::Value::to_string` on an object: its compact JSON text, with the
/// members in the order of their keys.
#[verifier::external_body]
pub(crate) fn render(object: JsonObject) -> (r: String)
    ensures
        r@ == json_object(members(object)),
{
    serde_json::Value::from(object).to_string()
}

} // verus!
