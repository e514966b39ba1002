//! Snapshot encoding for the persisted adaptive maps.
//!
//! Each adaptive map is persisted as one JSON object with the canonical
//! `"chat_id:user_id"` strings as keys: timestamps for the welcome map,
//! counters for the starting budgets and the loss streaks. The engine only
//! turns maps into snapshot text and back; reading and writing the files
//! themselves is the caller's job. A missing or unreadable snapshot loads
//! as the empty map, never as an error.

use vstd::prelude::*;

verus! {

use crate::maps::StrMap;

/// The snapshot text of a timestamp map. Deterministic: the encoder lays
/// keys out in sorted order, so the text is a function of the map alone.
pub uninterp spec fn stamp_json(m: Map<Seq<char>, u64>) -> Seq<char>;

/// The snapshot text of a counter map, laid out the same way.
pub uninterp spec fn count_json(m: Map<Seq<char>, i32>) -> Seq<char>;

/// Relies on serde_json's `to_string_pretty` on an ordered map of string
/// keys to integers: the output is a JSON object holding exactly the
/// entries, a pure function of them.
#[verifier::external_body]
fn encode_stamp_map(m: &StrMap<u64>) -> (s: String)
    ensures
        s@ == stamp_json(m@),
{
    let mut ordered = std::collections::BTreeMap::new();
    for (k, v) in m.entries.iter() {
        ordered.insert(k.clone(), *v);
    }
    serde_json::to_string_pretty(&ordered).unwrap_or_default()
}

/// Relies on serde_json's `from_str` for a map of string keys to
/// integers: parsing the text that `to_string_pretty` produced for a map
/// yields that map again, and text that does not parse yields an error.
#[verifier::external_body]
fn parse_stamp_map(s: &str) -> (r: Option<StrMap<u64>>)
    ensures
        r is Some ==> r->0.wf(),
        forall|m0: Map<Seq<char>, u64>|
            s@ == #[trigger] stamp_json(m0) ==> r is Some && r->0@ == m0,
{
    match serde_json::from_str::<std::collections::BTreeMap<String, u64>>(s) {
        Ok(parsed) => {
            let mut entries = Vec::new();
            for (k, v) in parsed {
                entries.push((k, v));
            }
            Some(StrMap { entries })
        },
        Err(_) => None,
    }
}

/// Relies on serde_json's `to_string_pretty`, as for the timestamp maps.
#[verifier::external_body]
fn encode_count_map(m: &StrMap<i32>) -> (s: String)
    ensures
        s@ == count_json(m@),
{
    let mut ordered = std::collections::BTreeMap::new();
    for (k, v) in m.entries.iter() {
        ordered.insert(k.clone(), *v);
    }
    serde_json::to_string_pretty(&ordered).unwrap_or_default()
}

/// Relies on serde_json's `from_str`, as for the timestamp maps.
#[verifier::external_body]
fn parse_count_map(s: &str) -> (r: Option<StrMap<i32>>)
    ensures
        r is Some ==> r->0.wf(),
        forall|m0: Map<Seq<char>, i32>|
            s@ == #[trigger] count_json(m0) ==> r is Some && r->0@ == m0,
{
    match serde_json::from_str::<std::collections::BTreeMap<String, i32>>(s) {
        Ok(parsed) => {
            let mut entries = Vec::new();
            for (k, v) in parsed {
                entries.push((k, v));
            }
            Some(StrMap { entries })
        },
        Err(_) => None,
    }
}

/// Encode a timestamp map (the welcome map) as snapshot text.
pub fn save_timestamps(m: &StrMap<u64>) -> (s: String)
    ensures
        s@ == stamp_json(m@),
{
    encode_stamp_map(m)
}

/// Decode a timestamp map from snapshot text. A missing snapshot, and one
/// that is not valid, load as the empty map; the snapshot text of a map
/// loads as exactly that map.
pub fn load_timestamps(snapshot: Option<&str>) -> (m: StrMap<u64>)
    ensures
        m.wf(),
        snapshot is None ==> m@ == Map::<Seq<char>, u64>::empty(),
        forall|m0: Map<Seq<char>, u64>|
            (snapshot is Some && snapshot->0@ == #[trigger] stamp_json(m0)) ==> m@ == m0,
{
    match snapshot {
        None => StrMap::new(),
        Some(s) => match parse_stamp_map(s) {
            Some(m) => m,
            None => StrMap::new(),
        },
    }
}

/// Encode a counter map (starting budgets or loss streaks) as snapshot
/// text.
pub fn save_counts(m: &StrMap<i32>) -> (s: String)
    ensures
        s@ == count_json(m@),
{
    encode_count_map(m)
}

/// Decode a counter map from snapshot text, with the same contract as
/// [`load_timestamps`].
pub fn load_counts(snapshot: Option<&str>) -> (m: StrMap<i32>)
    ensures
        m.wf(),
        snapshot is None ==> m@ == Map::<Seq<char>, i32>::empty(),
        forall|m0: Map<Seq<char>, i32>|
            (snapshot is Some && snapshot->0@ == #[trigger] count_json(m0)) ==> m@ == m0,
{
    match snapshot {
        None => StrMap::new(),
        Some(s) => match parse_count_map(s) {
            Some(m) => m,
            None => StrMap::new(),
        },
    }
}

/// Law: persisting a timestamp map and loading the result gives back the
/// same map.
pub fn reload_timestamps(m: &StrMap<u64>) -> (r: StrMap<u64>)
    ensures
        r.wf(),
        r@ == m@,
{
    let s = save_timestamps(m);
    load_timestamps(Some(s.as_str()))
}

/// Law: persisting a counter map and loading the result gives back the
/// same map.
pub fn reload_counts(m: &StrMap<i32>) -> (r: StrMap<i32>)
    ensures
        r.wf(),
        r@ == m@,
{
    let s = save_counts(m);
    load_counts(Some(s.as_str()))
}

} // verus!
