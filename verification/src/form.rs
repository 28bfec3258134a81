//! Reading the form bodies that the settings page posts.
use vstd::prelude::*;
use crate::text::{str_eq, trim, trimmed};

verus! {

/// The entries of the map that `serde_urlencoded::from_bytes` decodes from
/// `body`, each a name and a value, or `None` when decoding fails.
pub uninterp spec fn urlencoded_pairs(body: Seq<u8>) -> Option<Seq<(Seq<char>, Seq<char>)>>;

/// Decodes an `application/x-www-form-urlencoded` body into a
/// `BTreeMap<String, String>` with `serde_urlencoded::from_bytes` and lists
/// the map's entries. Percent-decoding, `+` and invalid UTF-8 are left to
/// that crate: the result is only named here.
#[verifier::external_body]
fn decode_form(body: &[u8]) -> (r: Option<Vec<(String, String)>>)
    ensures
        r.deep_view() == urlencoded_pairs(body@),
{
    match serde_urlencoded::from_bytes::<std::collections::BTreeMap<String, String>>(body) {
        Ok(map) => Some(map.into_iter().collect()),
        Err(_) => None,
    }
}

/// Whether some entry of `pairs` is named `key`.
pub open spec fn has_key(pairs: Seq<(Seq<char>, Seq<char>)>, key: Seq<char>) -> bool {
    exists|i: int| 0 <= i < pairs.len() && (#[trigger] pairs[i]).0 == key
}

/// Whether some entry of the decoded form `pairs` is named `key`.
pub fn pairs_have_key(pairs: &Vec<(String, String)>, key: &str) -> (r: bool)
    ensures
        r == has_key(pairs.deep_view(), key@),
{
    let mut i: usize = 0;
    while i < pairs.len()
        invariant
            i <= pairs.len(),
            forall|k: int| 0 <= k < i ==> (#[trigger] pairs.deep_view()[k]).0 != key@,
        decreases pairs.len() - i,
    {
        if str_eq(pairs[i].0.as_str(), key) {
            proof {
                assert(pairs.deep_view()[i as int].0 == key@);
            }
            return true;
        }
        i = i + 1;
    }
    false
}

/// Whether the form in `body` carries a field named `key`. A checkbox only
/// submits a value when it is checked, and an unchecked box may arrive as an
/// empty body without a form content type, so a body that does not decode
/// counts as "field missing".
pub fn form_has(body: &[u8], key: &str) -> (r: bool)
    ensures
        r == match urlencoded_pairs(body@) {
            Some(pairs) => has_key(pairs, key@),
            None => false,
        },
{
    match decode_form(body) {
        Some(pairs) => pairs_have_key(&pairs, key),
        None => false,
    }
}

/// A submitted text field with surrounding white space removed, or `None`
/// when the field is missing or holds only white space.
pub open spec fn spec_field_text(value: Option<Seq<char>>) -> Option<Seq<char>> {
    match value {
        Some(v) => if trimmed(v).len() > 0 {
            Some(trimmed(v))
        } else {
            None
        },
        None => None,
    }
}

/// The trimmed text of a submitted field, if it holds any.
pub fn field_text(value: Option<&str>) -> (r: Option<String>)
    ensures
        r.deep_view() == spec_field_text(value.deep_view()),
{
    match value {
        Some(v) => {
            let t = trim(v);
            if !t.as_str().is_empty() {
                Some(t)
            } else {
                None
            }
        },
        None => None,
    }
}

} // verus!
