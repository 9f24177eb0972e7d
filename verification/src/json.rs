//! A plain model of parsed JSON, the trusted bridge to serde_json, and the
//! extraction of the `data.timings` pairs.
//!
//! The extraction logic reads exactly three things of a JSON value: whether
//! it is an object, the value under a given key, and the characters of a
//! string. `JsonValue` holds those as plain values; everything a document
//! holds beyond them (numbers, booleans, nulls, arrays) collapses to
//! `Other`, which the extractor coerces to an empty time string.

use vstd::prelude::*;

use crate::text::str_eq_str;

verus! {

/// A parsed JSON value, reduced to what the extraction logic reads: an
/// object keeps its entries in the order the parser hands them out, a
/// string keeps its characters, and every other kind of value is `Other`.
pub enum JsonValue {
    Object(Vec<(String, JsonValue)>),
    Str(String),
    Other,
}

#[verifier::external_type_specification]
#[verifier::external_body]
pub struct ExSerdeValue(serde_json::Value);

/// The `JsonValue` that the text parses to, or `None` where the text is not
/// valid JSON. The full JSON grammar is not restated here; this name stands
/// for what `serde_json::from_str` accepts, which depends on the text
/// alone.
pub uninterp spec fn json_of_text(s: Seq<char>) -> Option<JsonValue>;

/// What a `serde_json::Value` holds, read as a `JsonValue`. The reading
/// depends on the value alone: objects are walked in the deterministic
/// order of serde_json's map.
pub uninterp spec fn json_model(v: serde_json::Value) -> JsonValue;

/// Relies on `serde_json::from_str`: it returns `Ok` exactly on valid JSON
/// text, and which document a text parses to depends on the text alone.
#[verifier::external_body]
fn value_from_text(s: &str) -> (r: Option<serde_json::Value>)
    ensures
        r matches Some(v) ==> json_of_text(s@) == Some(json_model(v)),
        r is None ==> json_of_text(s@) is None,
{
    serde_json::from_str::<serde_json::Value>(s).ok()
}

/// Relies on `serde_json::Value`'s variants and on iteration over
/// `serde_json::Map`, which visits each entry once, in a deterministic
/// order (the map is ordered by key).
#[verifier::external_body]
fn json_value_of(v: &serde_json::Value) -> (r: JsonValue)
    ensures
        r == json_model(*v),
{
    match v {
        serde_json::Value::Object(m) => JsonValue::Object(
            m.iter().map(|(k, x)| (k.clone(), json_value_of(x))).collect(),
        ),
        serde_json::Value::String(s) => JsonValue::Str(s.clone()),
        _ => JsonValue::Other,
    }
}

/// Parses JSON text into the plain model; `None` exactly where the text is
/// not valid JSON.
pub fn parse_text(s: &str) -> (r: Option<JsonValue>)
    ensures
        r matches Some(j) ==> json_of_text(s@) == Some(j),
        r is None ==> json_of_text(s@) is None,
{
    match value_from_text(s) {
        Some(v) => Some(json_value_of(&v)),
        None => None,
    }
}

/// The value under `key` among object entries: the first entry whose name
/// matches, searched front to back.
pub open spec fn lookup_spec(es: Seq<(String, JsonValue)>, key: Seq<char>) -> Option<JsonValue>
    decreases es.len(),
{
    if es.len() == 0 {
        None
    } else if es[0].0@ == key {
        Some(es[0].1)
    } else {
        lookup_spec(es.skip(1), key)
    }
}

/// The value under `key` of an object, `None` for any other kind of value
/// or where the key is absent.
pub open spec fn get_field(v: JsonValue, key: Seq<char>) -> Option<JsonValue> {
    match v {
        JsonValue::Object(es) => lookup_spec(es@, key),
        _ => None,
    }
}

/// A timing value as text: the characters of a string, and the empty
/// sequence for any other kind of value.
pub open spec fn coerce_text(v: JsonValue) -> Seq<char> {
    match v {
        JsonValue::Str(s) => s@,
        _ => Seq::empty(),
    }
}

/// Object entries as (name, time-text) pairs, in entry order, each value
/// coerced by `coerce_text`.
pub open spec fn entry_pairs(es: Seq<(String, JsonValue)>) -> Seq<(Seq<char>, Seq<char>)> {
    es.map(|i: int, e: (String, JsonValue)| (e.0@, coerce_text(e.1)))
}

/// The pairs extracted from the value under `data`: the entries of its
/// `timings` object, or nothing where `timings` is absent or no object.
pub open spec fn timings_of_data(data: JsonValue) -> Seq<(Seq<char>, Seq<char>)> {
    match get_field(data, "timings"@) {
        Some(t) => match t {
            JsonValue::Object(es) => entry_pairs(es@),
            _ => Seq::empty(),
        },
        None => Seq::empty(),
    }
}

/// The pairs extracted from a whole document: the entries of
/// `data.timings`, or nothing wherever that path is absent or runs through
/// a non-object.
pub open spec fn extract_text_pairs(v: JsonValue) -> Seq<(Seq<char>, Seq<char>)> {
    match get_field(v, "data"@) {
        Some(d) => timings_of_data(d),
        None => Seq::empty(),
    }
}

/// The views of a vector of (name, time) string pairs.
pub open spec fn pair_views(s: Seq<(String, String)>) -> Seq<(Seq<char>, Seq<char>)> {
    s.map(|i: int, p: (String, String)| (p.0@, p.1@))
}

/// Finds the first entry named `key`, as an index into the entries.
fn lookup_index(es: &Vec<(String, JsonValue)>, key: &str) -> (r: Option<usize>)
    ensures
        r matches Some(i) ==> i < es@.len() && lookup_spec(es@, key@) == Some(es@[i as int].1),
        r is None ==> lookup_spec(es@, key@) is None,
{
    let mut i: usize = 0;
    proof {
        assert(es@.skip(0) =~= es@);
    }
    while i < es.len()
        invariant
            i <= es@.len(),
            lookup_spec(es@, key@) == lookup_spec(es@.skip(i as int), key@),
            forall|k: int| 0 <= k < i ==> es@[k].0@ != key@,
        decreases es@.len() - i,
    {
        proof {
            assert(es@.skip(i as int)[0] == es@[i as int]);
            assert(es@.skip(i as int).skip(1) =~= es@.skip(i as int + 1));
        }
        if str_eq_str(es[i].0.as_str(), key) {
            return Some(i);
        }
        i += 1;
    }
    proof {
        assert(es@.skip(i as int).len() == 0);
    }
    None
}

/// The time text of one timing value: the string itself, or an empty
/// string for any other kind of value.
pub fn get_string_value(v: &JsonValue) -> (r: String)
    ensures
        r@ == coerce_text(*v),
{
    match v {
        JsonValue::Str(s) => s.clone(),
        _ => String::new(),
    }
}

/// Reads the entries of a `timings` object as (name, time) pairs.
fn collect_pairs(ts: &Vec<(String, JsonValue)>) -> (r: Vec<(String, String)>)
    ensures
        pair_views(r@) == entry_pairs(ts@),
{
    let mut r: Vec<(String, String)> = Vec::new();
    let mut i: usize = 0;
    while i < ts.len()
        invariant
            i <= ts@.len(),
            r@.len() == i,
            forall|k: int|
                0 <= k < i ==> (#[trigger] r@[k]).0@ == ts@[k].0@ && r@[k].1@ == coerce_text(
                    ts@[k].1,
                ),
        decreases ts@.len() - i,
    {
        let name = ts[i].0.clone();
        let time = get_string_value(&ts[i].1);
        r.push((name, time));
        i += 1;
    }
    proof {
        assert(pair_views(r@) =~= entry_pairs(ts@));
    }
    r
}

/// The pairs under a `data` value: the entries of its `timings` object,
/// and nothing wherever the shape mismatches.
pub fn extract_timings_list(data: &JsonValue) -> (r: Vec<(String, String)>)
    ensures
        pair_views(r@) == timings_of_data(*data),
{
    match data {
        JsonValue::Object(es) => {
            match lookup_index(es, "timings") {
                Some(i) => {
                    match &es[i].1 {
                        JsonValue::Object(ts) => collect_pairs(ts),
                        _ => {
                            let r = Vec::new();
                            proof {
                                assert(pair_views(r@) =~= timings_of_data(*data));
                            }
                            r
                        },
                    }
                },
                None => {
                    let r = Vec::new();
                    proof {
                        assert(pair_views(r@) =~= timings_of_data(*data));
                    }
                    r
                },
            }
        },
        _ => {
            let r = Vec::new();
            proof {
                assert(pair_views(r@) =~= timings_of_data(*data));
            }
            r
        },
    }
}

/// The (name, time) pairs of a whole document, following the fixed
/// `data.timings` path; every shape mismatch yields no pairs rather than an
/// error.
pub fn get_prayer_timings(v: &JsonValue) -> (r: Vec<(String, String)>)
    ensures
        pair_views(r@) == extract_text_pairs(*v),
{
    match v {
        JsonValue::Object(es) => {
            match lookup_index(es, "data") {
                Some(i) => extract_timings_list(&es[i].1),
                None => {
                    let r = Vec::new();
                    proof {
                        assert(pair_views(r@) =~= extract_text_pairs(*v));
                    }
                    r
                },
            }
        },
        _ => {
            let r = Vec::new();
            proof {
                assert(pair_views(r@) =~= extract_text_pairs(*v));
            }
            r
        },
    }
}

/// Every shape mismatch on the `data.timings` path yields no pairs: a
/// non-object document, a document without `data`, a `data` that is no
/// object or has no `timings`, and a `timings` that is no object.
pub proof fn lemma_extract_empty_on_shape_mismatch(v: JsonValue)
    ensures
        !(v is Object) ==> extract_text_pairs(v) == Seq::<(Seq<char>, Seq<char>)>::empty(),
        get_field(v, "data"@) is None ==> extract_text_pairs(v) == Seq::<
            (Seq<char>, Seq<char>),
        >::empty(),
        (get_field(v, "data"@) matches Some(d) && !(d is Object)) ==> extract_text_pairs(v)
            == Seq::<(Seq<char>, Seq<char>)>::empty(),
        (get_field(v, "data"@) matches Some(d) && get_field(d, "timings"@) is None)
            ==> extract_text_pairs(v) == Seq::<(Seq<char>, Seq<char>)>::empty(),
        (get_field(v, "data"@) matches Some(d) && get_field(d, "timings"@) matches Some(t) && !(t
            is Object)) ==> extract_text_pairs(v) == Seq::<(Seq<char>, Seq<char>)>::empty(),
{
}

} // verus!
