//! Documents on the wire: JSON objects whose members are all strings.

use vstd::prelude::*;
use crate::text::same_text;

verus! {

/// The error with which `serde_json` refuses a text.
#[verifier::external_type_specification]
#[verifier::external_body]
pub struct ExJsonError(serde_json::Error);

/// The members that `serde_json` reads from `text` as a JSON object of
/// strings, as pairs of key and value; `None` where it refuses the text.
pub uninterp spec fn json_text_fields(text: Seq<char>) -> Option<Seq<(Seq<char>, Seq<char>)>>;

/// The views of `fields`, in order.
pub open spec fn field_views(fields: Seq<(String, String)>) -> Seq<(Seq<char>, Seq<char>)> {
    Seq::new(fields.len(), |i: int| (fields[i].0@, fields[i].1@))
}

/// Calls `serde_json::from_str` for a map from `String` to `String` and
/// lists the map's entries. Trusted: that the outcome depends on the text
/// alone, which is what gives `json_text_fields` its meaning. Nothing is
/// claimed about which texts are accepted.
#[verifier::external_body]
fn read_text_fields(text: &str) -> (r: Result<Vec<(String, String)>, serde_json::Error>)
    ensures
        match r {
            Ok(fields) => json_text_fields(text@) == Some(field_views(fields@)),
            Err(_) => json_text_fields(text@) is None,
        },
{
    match serde_json::from_str::<std::collections::BTreeMap<String, String>>(text) {
        Ok(object) => Ok(object.into_iter().collect()),
        Err(refusal) => Err(refusal),
    }
}

/// Reads a document. `None` where the text is no JSON object of strings.
pub fn parse_document(text: &str) -> (r: Option<Vec<(String, String)>>)
    ensures
        match r {
            Some(fields) => json_text_fields(text@) == Some(field_views(fields@)),
            None => json_text_fields(text@) is None,
        },
{
    match read_text_fields(text) {
        Ok(fields) => Some(fields),
        Err(_) => None,
    }
}

/// The value of the first member of `fields` whose key is `key`.
pub open spec fn field_value(fields: Seq<(Seq<char>, Seq<char>)>, key: Seq<char>) -> Option<
    Seq<char>,
>
    decreases fields.len(),
{
    if fields.len() == 0 {
        None
    } else if fields[0].0 == key {
        Some(fields[0].1)
    } else {
        field_value(fields.skip(1), key)
    }
}

/// The characters of an optional text.
pub open spec fn text_of(value: Option<String>) -> Option<Seq<char>> {
    match value {
        Some(s) => Some(s@),
        None => None,
    }
}

/// Looks a member up by its key.
pub fn find_field(fields: &Vec<(String, String)>, key: &str) -> (r: Option<String>)
    ensures
        text_of(r) == field_value(field_views(fields@), key@),
{
    let ghost all = field_views(fields@);
    let n: usize = fields.len();
    let mut i: usize = 0;
    assert(all.skip(0) =~= all);
    while i < n
        invariant
            n == fields@.len(),
            i <= n,
            all == field_views(fields@),
            field_value(all, key@) == field_value(all.skip(i as int), key@),
        decreases n - i,
    {
        assert(all.skip(i as int)[0] == all[i as int]);
        assert(all.skip(i as int).skip(1) =~= all.skip(i + 1));
        if same_text(fields[i].0.as_str(), key) {
            return Some(fields[i].1.clone());
        }
        i += 1;
    }
    None
}

} // verus!
