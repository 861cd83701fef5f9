//! The JSON document in which a file-backed ledger persists its records:
//! one flat object mapping each name to its count.

use vstd::prelude::*;
use crate::ledger::{entries_map, names_unique};
use crate::tarnished::Tarnished;

verus! {

/// What reading a text as a flat name-to-count JSON object yields: the
/// mapping it writes, or nothing when the text is not such an object.
pub uninterp spec fn json_parse(s: Seq<char>) -> Option<Map<Seq<char>, u8>>;

/// Relies on serde_json::to_string_pretty on a map from strings to small
/// integers: it writes the mapping as one flat JSON object, which
/// serde_json::from_str reads back as the very same mapping. The text
/// itself lists the keys in an arbitrary order, so nothing more is said
/// of it than how it parses.
#[verifier::external_body]
pub(crate) fn encode_document(entries: &Vec<Tarnished>) -> (r: String)
    requires
        names_unique(entries@),
    ensures
        json_parse(r@) == Some(entries_map(entries@)),
{
    let map: std::collections::HashMap<String, u8> = entries
        .iter()
        .map(|t| (t.name.clone(), t.strikes))
        .collect();
    serde_json::to_string_pretty(&map).unwrap()
}

/// Relies on serde_json::from_str reading a flat JSON object of names to
/// counts. The order in which the records come back is arbitrary, so the
/// contract speaks only of the mapping they stand for.
#[verifier::external_body]
pub(crate) fn decode_document(raw: &str) -> (r: Option<Vec<Tarnished>>)
    ensures
        r is Some <==> json_parse(raw@) is Some,
        r matches Some(v) ==> names_unique(v@) && Some(entries_map(v@)) == json_parse(raw@),
{
    match serde_json::from_str::<std::collections::HashMap<String, u8>>(raw) {
        Ok(map) => Some(
            map.into_iter().map(|(name, strikes)| Tarnished { name, strikes }).collect(),
        ),
        Err(_) => None,
    }
}

} // verus!
