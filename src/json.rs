//! The parts of serde_json that the store relies on, each with the contract
//! that the library's proofs take on trust.
use vstd::prelude::*;

verus! {

#[verifier::external_type_specification]
#[verifier::external_body]
pub struct ExValue(serde_json::Value);

#[verifier::external_type_specification]
#[verifier::external_body]
#[verifier::reject_recursive_types(K)]
#[verifier::reject_recursive_types(V)]
pub struct ExJsonMap<K, V>(serde_json::Map<K, V>);

#[verifier::external_type_specification]
#[verifier::external_body]
pub struct ExJsonError(serde_json::Error);

/// A JSON object as serde_json holds it.
pub type JsonMap = serde_json::Map<String, serde_json::Value>;

/// How serde_json reads a text: `None` where its parser rejects it,
/// `Some(None)` where it is JSON but not an object, and `Some(Some(c))` where
/// it is an object whose contents are `c` (as `json_contents` gives them).
pub uninterp spec fn json_reading(text: Seq<char>) -> Option<Option<Map<Seq<char>, Option<Seq<char>>>>>;

/// What an object holds: each key with `Some(s)` where its value is the
/// JSON string `s`, and `None` where its value is of another JSON type.
pub uninterp spec fn json_contents(m: JsonMap) -> Map<Seq<char>, Option<Seq<char>>>;

/// The values of an object that are not strings, each as its compact JSON
/// text.
pub uninterp spec fn json_others(m: JsonMap) -> Map<Seq<char>, Seq<char>>;

/// The keys of an object in the order in which serde_json walks them.
pub uninterp spec fn json_order(m: JsonMap) -> Seq<Seq<char>>;

/// The compact JSON text of an object.
pub uninterp spec fn json_text(m: JsonMap) -> Seq<char>;

/// The order of an object lists each of its keys once, and nothing else.
pub open spec fn keys_in_order(m: JsonMap) -> bool {
    json_order(m).no_duplicates() && json_contents(m).dom() == json_order(m).to_set()
}

/// The view of an optional string.
pub open spec fn text_view(o: Option<String>) -> Option<Seq<char>> {
    match o {
        Some(s) => Some(s@),
        None => None,
    }
}

/// Relies on serde_json::from_str, parsing to a serde_json::Value, and on
/// its variants: hands out the object where the value is one.
#[verifier::external_body]
pub(crate) fn parse_object(text: &str) -> (r: Result<Option<JsonMap>, serde_json::Error>)
    ensures
        r is Ok <==> json_reading(text@) is Some,
        r is Ok ==> (r->Ok_0 is Some <==> json_reading(text@)->Some_0 is Some),
        r is Ok && r->Ok_0 is Some ==> json_contents(r->Ok_0->Some_0)
            == json_reading(text@)->Some_0->Some_0 && keys_in_order(r->Ok_0->Some_0),
{
    match serde_json::from_str::<serde_json::Value>(text)? {
        serde_json::Value::Object(m) => Ok(Some(m)),
        _ => Ok(None),
    }
}

/// Relies on the Display impl of serde_json::Error for its message.
#[verifier::external_body]
pub(crate) fn error_text(e: &serde_json::Error) -> (r: String) {
    e.to_string()
}

/// Relies on serde_json::Map::new: the new object is empty.
#[verifier::external_body]
pub(crate) fn new_object() -> (r: JsonMap)
    ensures
        json_contents(r).dom() == Set::<Seq<char>>::empty(),
        json_others(r).dom() == Set::<Seq<char>>::empty(),
        keys_in_order(r),
{
    serde_json::Map::new()
}

/// Relies on serde_json::Map::contains_key.
#[verifier::external_body]
pub(crate) fn object_has(m: &JsonMap, key: &str) -> (r: bool)
    ensures
        r == json_contents(*m).contains_key(key@),
{
    m.contains_key(key)
}

/// Relies on serde_json::Map::get, and on serde_json::Value::as_str to tell
/// a string value (`Some`) from any other (`None`).
#[verifier::external_body]
pub(crate) fn object_get(m: &JsonMap, key: &str) -> (r: Option<Option<String>>)
    ensures
        r is None <==> !json_contents(*m).contains_key(key@),
        r is Some ==> text_view(r->Some_0) == json_contents(*m)[key@],
{
    m.get(key).map(|v| v.as_str().map(|s| s.to_string()))
}

/// Relies on serde_json::Map::insert: the key now holds the string value,
/// every other key keeps its value, whatever its type.
#[verifier::external_body]
pub(crate) fn object_insert(m: &mut JsonMap, key: &str, value: &str)
    ensures
        json_contents(*final(m)) == json_contents(*old(m)).insert(key@, Some(value@)),
        json_others(*final(m)) == json_others(*old(m)).remove(key@),
        keys_in_order(*final(m)),
{
    m.insert(key.to_string(), serde_json::Value::String(value.to_string()));
}

/// Relies on serde_json::Map::remove: the key is gone, every other key keeps
/// its value, whatever its type.
#[verifier::external_body]
pub(crate) fn object_remove(m: &mut JsonMap, key: &str)
    ensures
        json_contents(*final(m)) == json_contents(*old(m)).remove(key@),
        json_others(*final(m)) == json_others(*old(m)).remove(key@),
        keys_in_order(*final(m)),
{
    m.remove(key);
}

/// Relies on serde_json::Map::is_empty.
#[verifier::external_body]
pub(crate) fn object_is_empty(m: &JsonMap) -> (r: bool)
    ensures
        r == (json_contents(*m).dom() == Set::<Seq<char>>::empty()),
{
    m.is_empty()
}

/// Relies on serde_json::Map::iter, which yields each entry once, in the
/// object's order; each value is read with serde_json::Value::as_str.
#[verifier::external_body]
pub(crate) fn object_entries(m: &JsonMap) -> (r: Vec<(String, Option<String>)>)
    ensures
        r@.len() == json_order(*m).len(),
        forall|i: int| 0 <= i < r@.len() ==> #[trigger] r@[i].0@ == json_order(*m)[i],
        forall|i: int|
            0 <= i < r@.len() ==> json_contents(*m).contains_key(#[trigger] r@[i].0@)
                && text_view(r@[i].1) == json_contents(*m)[r@[i].0@],
        forall|k: Seq<char>|
            #[trigger] json_contents(*m).contains_key(k) ==> exists|i: int|
                0 <= i < r@.len() && #[trigger] r@[i].0@ == k,
        forall|i: int, j: int| 0 <= i < j < r@.len() ==> r@[i].0@ != r@[j].0@,
{
    m.iter().map(|(k, v)| (k.clone(), v.as_str().map(|s| s.to_string()))).collect()
}

/// Relies on the Display impl of serde_json::Value, which writes the object
/// as JSON text.
#[verifier::external_body]
pub(crate) fn object_text(m: &JsonMap) -> (r: String)
    ensures
        r@ == json_text(*m),
{
    serde_json::Value::Object(m.clone()).to_string()
}

} // verus!
