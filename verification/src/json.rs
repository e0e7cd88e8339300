//! JSON objects (`serde_json::Map<String, Value>`) and the parsers that
//! read a marked block as one: `serde_json`, `serde_yaml` and `toml`.

use serde_json::{Map as JsonMap, Value as JsonValue};
use vstd::prelude::*;

verus! {

#[verifier::external_type_specification]
#[verifier::external_body]
#[verifier::reject_recursive_types(K)]
#[verifier::reject_recursive_types(V)]
pub struct ExJsonMap<K, V>(JsonMap<K, V>);

#[verifier::external_type_specification]
#[verifier::external_body]
pub struct ExJsonValue(JsonValue);

/// A JSON object.
pub type JsonObject = JsonMap<String, JsonValue>;

/// A JSON value, of any kind. A number is kept as the text that
/// `serde_json` writes for it.
pub ghost enum JsonTree {
    Null,
    Bool(bool),
    Number(Seq<char>),
    Text(Seq<char>),
    Array(Seq<JsonTree>),
    Object(Map<Seq<char>, JsonTree>),
}

/// The members of a JSON object: each key with its value.
pub type ObjectTree = Map<Seq<char>, JsonTree>;

/// What the object `m` holds: each key with its value.
pub uninterp spec fn object_tree(m: JsonObject) -> ObjectTree;

/// The text that `serde_json::to_string` writes for the object `m`.
pub uninterp spec fn object_json(m: JsonObject) -> Seq<char>;

/// What `serde_json::from_str::<Map<String, Value>>` makes of `text`: `None`
/// when it fails, else the object it reads.
pub uninterp spec fn json_object_tree(text: Seq<char>) -> Option<ObjectTree>;

/// What `serde_yaml::from_str::<Map<String, Value>>` makes of `text`.
pub uninterp spec fn yaml_object_tree(text: Seq<char>) -> Option<ObjectTree>;

/// What `toml::from_str::<Map<String, Value>>` makes of `text`.
pub uninterp spec fn toml_object_tree(text: Seq<char>) -> Option<ObjectTree>;

/// The lowercase hexadecimal digit of `n` (below 16).
pub open spec fn hex_digit(n: u32) -> char {
    if n < 10 {
        (48 + n) as char
    } else {
        (87 + n) as char
    }
}

/// How `serde_json` writes the character `c` inside a string: `"` and `\`
/// behind a backslash, backspace, form feed, line feed, carriage return and
/// tab as `\b`, `\f`, `\n`, `\r`, `\t`, any other control character below
/// U+0020 as `\u00` and two lowercase hex digits, and every other
/// character as itself.
pub open spec fn escaped_char(c: char) -> Seq<char> {
    let u = c as u32;
    if c == '"' {
        seq!['\\', '"']
    } else if c == '\\' {
        seq!['\\', '\\']
    } else if u == 0x8 {
        seq!['\\', 'b']
    } else if u == 0xc {
        seq!['\\', 'f']
    } else if u == 0xa {
        seq!['\\', 'n']
    } else if u == 0xd {
        seq!['\\', 'r']
    } else if u == 0x9 {
        seq!['\\', 't']
    } else if u < 0x20 {
        seq!['\\', 'u', '0', '0', hex_digit(u / 16), hex_digit(u % 16)]
    } else {
        seq![c]
    }
}

/// The characters of `s`, each escaped.
pub open spec fn escaped_text(s: Seq<char>) -> Seq<char>
    decreases s.len(),
{
    if s.len() == 0 {
        Seq::empty()
    } else {
        escaped_char(s[0]) + escaped_text(s.drop_first())
    }
}

/// The JSON string literal of `s`, as `serde_json` writes it.
pub open spec fn json_string(s: Seq<char>) -> Seq<char> {
    seq!['"'] + escaped_text(s) + seq!['"']
}

/// `items` joined with commas, as the compact JSON writer separates the
/// elements of an array or the entries of an object.
pub open spec fn comma_joined(items: Seq<Seq<char>>) -> Seq<char>
    decreases items.len(),
{
    if items.len() == 0 {
        Seq::empty()
    } else if items.len() == 1 {
        items[0]
    } else {
        items[0] + seq![','] + comma_joined(items.drop_first())
    }
}

/// A JSON array of the already written `items`.
pub open spec fn json_array(items: Seq<Seq<char>>) -> Seq<char> {
    seq!['['] + comma_joined(items) + seq![']']
}

/// A JSON array of strings.
pub open spec fn json_string_array(items: Seq<Seq<char>>) -> Seq<char> {
    json_array(items.map_values(|t: Seq<char>| json_string(t)))
}

/// A JSON object of the given members, each a key and its already written
/// value, in the order given.
pub open spec fn json_object_text(members: Seq<(Seq<char>, Seq<char>)>) -> Seq<char> {
    seq!['{'] + comma_joined(
        members.map_values(|m: (Seq<char>, Seq<char>)| json_string(m.0) + seq![':'] + m.1),
    ) + seq!['}']
}

/// Whether `keys` lists every key of `dom` exactly once.
pub open spec fn enumerates(keys: Seq<Seq<char>>, dom: Set<Seq<char>>) -> bool {
    &&& keys.no_duplicates()
    &&& forall|k: Seq<char>| keys.contains(k) <==> dom.contains(k)
}

/// An empty object, from `serde_json::Map::new`.
#[verifier::external_body]
pub(crate) fn new_object() -> (m: JsonObject)
    ensures
        object_tree(m) == ObjectTree::empty(),
{
    JsonMap::new()
}

/// Sets `key` to the string `text` with `serde_json::Map::insert`, which
/// replaces any value the key had.
#[verifier::external_body]
pub(crate) fn insert_text(m: &mut JsonObject, key: String, text: String)
    ensures
        object_tree(*final(m)) == object_tree(*old(m)).insert(key@, JsonTree::Text(text@)),
{
    m.insert(key, JsonValue::String(text));
}

/// Sets `key` to the object `inner` with `serde_json::Map::insert`, which
/// replaces any value the key had.
#[verifier::external_body]
pub(crate) fn insert_object(m: &mut JsonObject, key: String, inner: JsonObject)
    ensures
        object_tree(*final(m)) == object_tree(*old(m)).insert(
            key@,
            JsonTree::Object(object_tree(inner)),
        ),
{
    m.insert(key, JsonValue::Object(inner));
}

/// The number of keys of `m`, from `serde_json::Map::len`.
#[verifier::external_body]
pub(crate) fn object_len(m: &JsonObject) -> (r: usize)
    ensures
        r == object_tree(*m).len(),
{
    m.len()
}

/// `m` as JSON text, from `serde_json::to_string`. That fails only for a
/// value whose `Serialize` fails or a map with keys that are not strings,
/// neither of which a `Map<String, Value>` holds.
#[verifier::external_body]
pub(crate) fn object_to_json(m: &JsonObject) -> (r: String)
    ensures
        r@ == object_json(*m),
{
    serde_json::to_string(m).unwrap()
}

/// Reads `text` as a JSON object with `serde_json::from_str`.
#[verifier::external_body]
pub(crate) fn parse_json_object(text: &str) -> (res: Option<JsonObject>)
    ensures
        match json_object_tree(text@) {
            None => res is None,
            Some(t) => res matches Some(m) && object_tree(m) == t,
        },
{
    serde_json::from_str::<JsonObject>(text).ok()
}

/// Reads `text` as a YAML mapping with `serde_yaml::from_str`.
#[verifier::external_body]
pub(crate) fn parse_yaml_object(text: &str) -> (res: Option<JsonObject>)
    ensures
        match yaml_object_tree(text@) {
            None => res is None,
            Some(t) => res matches Some(m) && object_tree(m) == t,
        },
{
    serde_yaml::from_str::<JsonObject>(text).ok()
}

/// Reads `text` as a TOML table with `toml::from_str`.
#[verifier::external_body]
pub(crate) fn parse_toml_object(text: &str) -> (res: Option<JsonObject>)
    ensures
        match toml_object_tree(text@) {
            None => res is None,
            Some(t) => res matches Some(m) && object_tree(m) == t,
        },
{
    toml::from_str::<JsonObject>(text).ok()
}

} // verus!
