//! Reading the two optional counts of a measurement from JSON text, by
//! way of the `serde_json` crate. What the three calls into it return is
//! believed, not proved; what is made of their results is proved.

use vstd::prelude::*;

verus! {

/// A JSON value of the `serde_json` crate.
#[verifier::external_type_specification]
#[verifier::external_body]
pub struct ExJsonValue(serde_json::Value);

/// The error with which the `serde_json` crate refuses a text.
#[verifier::external_type_specification]
#[verifier::external_body]
pub struct ExJsonError(serde_json::Error);

/// What `serde_json::from_str` reads from a text, as far as counts go:
/// nothing where the text is no JSON value, and otherwise the counts
/// that the value holds. The grammar is the crate's, and is not restated
/// here.
pub uninterp spec fn json_text_counts(text: Seq<char>) -> Option<Map<Seq<char>, u64>>;

/// Whether `serde_json::from_str` reads the text as a JSON value.
pub open spec fn is_json(text: Seq<char>) -> bool {
    json_text_counts(text).is_some()
}

/// Calls `serde_json::from_str` for a `Value`: the text parsed as JSON,
/// or the crate's error. What comes depends on the text alone: the
/// value, with the counts that it holds, or the refusal. Nothing is
/// claimed of the error.
#[verifier::external_body]
pub(crate) fn parse_json(text: &str) -> (r: Result<serde_json::Value, serde_json::Error>)
    ensures
        match r {
            Ok(json) => json_text_counts(text@) == Some(json_counts(json)),
            Err(_) => json_text_counts(text@).is_none(),
        },
{
    serde_json::from_str::<serde_json::Value>(text)
}

/// The counts that a JSON value holds: where it is an object, each of its
/// members whose value is a non-negative integer that fits in a `u64`,
/// under the member's name; nothing where it is no object.
pub uninterp spec fn json_counts(json: serde_json::Value) -> Map<Seq<char>, u64>;

/// The JSON value itself as a count: what `Value::as_u64` gives for it,
/// the integer where the value is a non-negative integer that fits in a
/// `u64`.
pub uninterp spec fn json_number(json: serde_json::Value) -> Option<u64>;

/// The count that stands under `key`, if there is one.
pub open spec fn count_under(counts: Map<Seq<char>, u64>, key: Seq<char>) -> Option<u64> {
    if counts.contains_key(key) {
        Some(counts[key])
    } else {
        None
    }
}

/// Calls `Value::get` with a string key, which gives the member of that
/// name where the value is an object that has one, and nothing
/// otherwise. So the member, taken as a count, is the count that the
/// value holds under the key; and where there is no member, the value
/// holds no count under the key.
#[verifier::external_body]
pub(crate) fn json_member<'a>(json: &'a serde_json::Value, key: &str) -> (r: Option<
    &'a serde_json::Value,
>)
    ensures
        match r {
            Some(member) => json_number(*member) == count_under(json_counts(*json), key@),
            None => count_under(json_counts(*json), key@).is_none(),
        },
{
    json.get(key)
}

/// Calls `Value::as_u64`: the value as a `u64` where it is a
/// non-negative integer that fits in one, and nothing otherwise. The
/// result depends on the value alone.
#[verifier::external_body]
pub(crate) fn json_u64(json: &serde_json::Value) -> (r: Option<u64>)
    ensures
        r == json_number(*json),
{
    json.as_u64()
}

/// Why a configuration could not be read.
#[derive(Debug, Copy, Clone, PartialEq, Eq, Structural)]
pub enum ConfigError {
    /// The text is not JSON.
    Malformed,
}

/// The count that a member of a JSON value holds, if it is there and
/// holds a non-negative integer.
pub(crate) fn read_count(json: &serde_json::Value, key: &str) -> (r: Option<u64>)
    ensures
        r == count_under(json_counts(*json), key@),
{
    match json_member(json, key) {
        Some(member) => json_u64(member),
        None => None,
    }
}

/// The number of measurements of a schedule: the number asked for, or,
/// where none or zero is asked for, the length of the longer of the two
/// lists of fields and temperatures.
pub open spec fn resolved_measurements(asked: Option<u64>, fields: usize, temps: usize) -> usize {
    let count = match asked {
        Some(n) => n as usize,
        None => 0usize,
    };
    if count != 0 {
        count
    } else if fields >= temps {
        fields
    } else {
        temps
    }
}

/// The number of sweeps before each measurement: the number asked for,
/// or one where none or zero is asked for.
pub open spec fn resolved_sweeps(asked: Option<u64>) -> usize {
    let count = match asked {
        Some(n) => n as usize,
        None => 1usize,
    };
    if count != 0 {
        count
    } else {
        1
    }
}

/// Settles the two counts of a measurement from what a configuration
/// asks for and from the lengths of its two lists.
pub fn resolve_counts(
    measurement_count: Option<u64>,
    sweep_per_measure: Option<u64>,
    fields: usize,
    temps: usize,
) -> (counts: (usize, usize))
    ensures
        counts.0 == resolved_measurements(measurement_count, fields, temps),
        counts.1 == resolved_sweeps(sweep_per_measure),
        counts.1 >= 1,
{
    let asked_measurements = match measurement_count {
        Some(n) => narrow(n),
        None => 0,
    };
    let asked_sweeps = match sweep_per_measure {
        Some(n) => narrow(n),
        None => 1,
    };
    let measurements = if asked_measurements != 0 {
        asked_measurements
    } else if fields >= temps {
        fields
    } else {
        temps
    };
    let sweeps = if asked_sweeps != 0 {
        asked_sweeps
    } else {
        1
    };
    (measurements, sweeps)
}

/// The count as a machine word, cut to its width.
fn narrow(n: u64) -> (w: usize)
    ensures
        w == n as usize,
{
    #[verifier::truncate]
    (n as usize)
}

} // verus!
