//! The object that carries the shapes as text: one member, a list of
//! strings.

use vstd::prelude::*;

verus! {

/// What each string of `s` holds.
pub open spec fn texts(s: Seq<String>) -> Seq<Seq<char>> {
    Seq::new(s.len(), |i: int| s[i]@)
}

/// The compact JSON text of the object with the one member `key`, whose
/// value is the list of the strings `items`.
pub uninterp spec fn json_object_text(key: Seq<char>, items: Seq<Seq<char>>) -> Seq<char>;

/// The strings of the member `key` of the JSON object `data`; none where
/// `data` is no JSON object of lists of strings, or has no such member.
pub uninterp spec fn json_object_items(data: Seq<char>, key: Seq<char>) -> Option<Seq<Seq<char>>>;

/// Calls `serde_json::to_string` on a map from `key` to `items`, which
/// writes the object `{"key":["item",..]}` with every string escaped as JSON
/// asks. The contract names that text. `to_string` fails only on a map whose
/// keys are no strings or on a value that refuses to be written, neither of
/// which a map from a string to strings is.
#[verifier::external_body]
pub(crate) fn to_json_object(key: &str, items: &Vec<String>) -> (r: String)
    ensures
        r@ == json_object_text(key@, texts(items@)),
{
    let mut object = std::collections::BTreeMap::new();
    object.insert(key, items);
    serde_json::to_string(&object).unwrap_or_default()
}

/// Calls `serde_json::from_str` for a map from strings to lists of strings,
/// and takes the member `key` out of it. The contract names what comes out,
/// and claims of it that the text which `to_json_object` writes for `key` and
/// any list of strings reads back as that list: `from_str` undoes the
/// escaping that `to_string` did.
#[verifier::external_body]
pub(crate) fn from_json_object(data: &str, key: &str) -> (r: Option<Vec<String>>)
    ensures
        match r {
            Some(v) => json_object_items(data@, key@) == Some(texts(v@)),
            None => json_object_items(data@, key@) is None,
        },
        forall|items: Seq<Seq<char>>|
            data@ == #[trigger] json_object_text(key@, items) ==> r is Some && texts(r.unwrap()@)
                == items,
{
    let parsed: Result<std::collections::BTreeMap<String, Vec<String>>, serde_json::Error> =
        serde_json::from_str(data);
    match parsed {
        Ok(mut object) => object.remove(key),
        Err(_) => None,
    }
}

} // verus!
