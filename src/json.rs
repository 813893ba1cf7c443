//! The JSON values of the ledger, through serde_json.
use vstd::prelude::*;

verus! {

#[verifier::external_type_specification]
#[verifier::external_body]
pub struct ExJsonValue(serde_json::Value);

#[verifier::external_type_specification]
#[verifier::external_body]
pub struct ExJsonError(serde_json::Error);

#[verifier::external_type_specification]
#[verifier::external_body]
#[verifier::reject_recursive_types(K)]
#[verifier::reject_recursive_types(V)]
pub struct ExJsonMap<K, V>(serde_json::Map<K, V>);

/// A JSON value as far as the ledger tells values apart: `null`, strings,
/// arrays and objects; numbers and booleans are all `Scalar`.
pub enum JsonTree {
    Null,
    Scalar,
    Str(Seq<char>),
    Arr(Seq<JsonTree>),
    Obj(Map<Seq<char>, JsonTree>),
}

/// Arrays and objects are nested at most `n` deep in `t`.
pub open spec fn nested_within(t: JsonTree, n: nat) -> bool
    decreases n,
{
    match t {
        JsonTree::Arr(items) => if n == 0 {
            false
        } else {
            forall|i: int| 0 <= i < items.len() ==> nested_within(#[trigger] items[i], (n - 1) as nat)
        },
        JsonTree::Obj(m) => if n == 0 {
            false
        } else {
            forall|k: Seq<char>| #[trigger] m.contains_key(k) ==> nested_within(m[k], (n - 1) as nat)
        },
        _ => true,
    }
}

/// The deepest nesting of arrays and objects that serde_json reads back.
pub open spec fn max_nesting() -> nat {
    127
}

/// The text is accepted by serde_json as one JSON value (well-formed, nested at
/// most 128 deep, numbers in range).
pub uninterp spec fn json_accepts(text: Seq<char>) -> bool;

/// The value that accepted text denotes.
pub uninterp spec fn json_tree(text: Seq<char>) -> JsonTree;

/// The members of a JSON object, by key.
pub uninterp spec fn object_members(m: serde_json::Map<String, serde_json::Value>) -> Map<Seq<char>, JsonTree>;

/// The members of an empty object.
pub open spec fn no_members() -> Map<Seq<char>, JsonTree> {
    Map::empty()
}

/// The parsed ledger content, told apart by kind.
pub enum ParsedJson {
    Object(serde_json::Map<String, serde_json::Value>),
    Null,
    Other,
}

/// Relies on `serde_json::from_str::<serde_json::Value>`: it fails exactly on
/// text that serde_json does not accept, and otherwise gives the value the
/// text denotes; the arms only tell its variants apart.
#[verifier::external_body]
pub(crate) fn parse_json(text: &str) -> (r: Result<ParsedJson, serde_json::Error>)
    ensures
        r is Ok <==> json_accepts(text@),
        r is Ok ==> nested_within(json_tree(text@), max_nesting()),
        r matches Ok(ParsedJson::Object(m)) ==> json_tree(text@) == JsonTree::Obj(object_members(m)),
        r matches Ok(ParsedJson::Null) ==> json_tree(text@) == JsonTree::Null,
        r matches Ok(ParsedJson::Other) ==> !(json_tree(text@) is Obj) && !(json_tree(text@) is Null),
{
    match serde_json::from_str::<serde_json::Value>(text) {
        Ok(serde_json::Value::Object(m)) => Ok(ParsedJson::Object(m)),
        Ok(serde_json::Value::Null) => Ok(ParsedJson::Null),
        Ok(_) => Ok(ParsedJson::Other),
        Err(e) => Err(e),
    }
}

/// Relies on `serde_json::Map::new`: an object without members.
#[verifier::external_body]
pub(crate) fn new_object() -> (r: serde_json::Map<String, serde_json::Value>)
    ensures
        object_members(r) == no_members(),
{
    serde_json::Map::new()
}

/// Relies on `serde_json::Map::insert` with a `Value::String`: the key holds
/// the string afterwards, and no other member changes.
#[verifier::external_body]
pub(crate) fn insert_string(m: &mut serde_json::Map<String, serde_json::Value>, k: String, s: String)
    ensures
        object_members(*final(m)) == object_members(*old(m)).insert(k@, JsonTree::Str(s@)),
{
    m.insert(k, serde_json::Value::String(s));
}

/// Relies on `serde_json::Map::insert` with a `Value::Array` of
/// `Value::String`s: the key holds the strings in order afterwards, and no other
/// member changes.
#[verifier::external_body]
pub(crate) fn insert_strings(m: &mut serde_json::Map<String, serde_json::Value>, k: String, items: Vec<String>)
    ensures
        object_members(*final(m)) == object_members(*old(m)).insert(
            k@,
            JsonTree::Arr(items@.map_values(|s: String| JsonTree::Str(s@))),
        ),
{
    m.insert(k, serde_json::Value::Array(items.into_iter().map(serde_json::Value::String).collect()));
}

/// Relies on `serde_json::Map::insert` with a `Value::Object`: the key holds
/// the object afterwards, and no other member changes.
#[verifier::external_body]
pub(crate) fn insert_object(
    m: &mut serde_json::Map<String, serde_json::Value>,
    k: String,
    child: serde_json::Map<String, serde_json::Value>,
)
    ensures
        object_members(*final(m)) == object_members(*old(m)).insert(k@, JsonTree::Obj(object_members(child))),
{
    m.insert(k, serde_json::Value::Object(child));
}

/// Relies on the `Display` impl of `serde_json::Value` for an object: compact
/// JSON text that denotes the same object, and that serde_json reads back
/// unless arrays and objects nest deeper than its recursion limit of 128
/// open containers.
#[verifier::external_body]
pub(crate) fn render_object(m: serde_json::Map<String, serde_json::Value>) -> (r: String)
    ensures
        json_accepts(r@) ==> json_tree(r@) == JsonTree::Obj(object_members(m)),
        nested_within(JsonTree::Obj(object_members(m)), max_nesting()) ==> json_accepts(r@),
{
    serde_json::Value::Object(m).to_string()
}

} // verus!
