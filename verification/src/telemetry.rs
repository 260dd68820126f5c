//! The record made of each collected register value: it is stored in the
//! historian and published as a flat JSON object, one top-level key per tag,
//! because the HMI's MQTT driver looks values up by a single-level key.

use vstd::prelude::*;

verus! {

/// One collected value: the tag it is filed under (also its key in the
/// published object), the value, the collection time in milliseconds since
/// the Unix epoch, and its quality.
#[derive(Debug, Clone)]
pub struct Sample {
    pub tag: String,
    pub value: u16,
    pub timestamp_ms: i64,
    pub quality: String,
}

/// The record of a value read at `timestamp_ms`: tag `register1`, quality `good`.
pub fn good_sample(value: u16, timestamp_ms: i64) -> (r: Sample)
    ensures
        r.tag@ == "register1"@,
        r.value == value,
        r.timestamp_ms == timestamp_ms,
        r.quality@ == "good"@,
{
    Sample {
        tag: String::from_str("register1"),
        value,
        timestamp_ms,
        quality: String::from_str("good"),
    }
}

/// Wraps `chrono::DateTime::<chrono::Utc>::from(std::time::SystemTime::now())`
/// and its `timestamp_millis()`: the current UTC time in milliseconds since
/// the Unix epoch, negative for a clock set before 1970. Nothing is claimed of
/// the value: it depends on the clock. chrono's conversion panics only for a
/// clock reading outside chrono's date range (years -262143 to 262142).
#[verifier::external_body]
fn now_millis() -> i64 {
    chrono::DateTime::<chrono::Utc>::from(std::time::SystemTime::now()).timestamp_millis()
}

/// The record of a value collected now: tag `register1`, quality `good`,
/// stamped with the current time (whatever the clock reads).
pub fn collected_now(value: u16) -> (r: Sample)
    ensures
        r.tag@ == "register1"@,
        r.value == value,
        r.quality@ == "good"@,
{
    good_sample(value, now_millis())
}

// ---------------------------------------------------------------------------
// The published payload
// ---------------------------------------------------------------------------

/// A scalar JSON value: a string or an integer.
#[derive(Debug, Clone)]
pub enum JsonScalar {
    Text(String),
    Number(i64),
}

pub enum JsonScalarView {
    Text(Seq<char>),
    Number(i64),
}

impl View for JsonScalar {
    type V = JsonScalarView;

    open spec fn view(&self) -> JsonScalarView {
        match self {
            JsonScalar::Text(s) => JsonScalarView::Text(s@),
            JsonScalar::Number(n) => JsonScalarView::Number(*n),
        }
    }
}

/// The entries of a flat JSON object as values.
pub open spec fn entries_view(entries: Seq<(String, JsonScalar)>) -> Seq<(Seq<char>, JsonScalarView)> {
    entries.map_values(|e: (String, JsonScalar)| (e.0@, e.1@))
}

/// The text that serde_json writes for the flat JSON object with these
/// entries (each key mapped to its scalar; for a repeated key the last wins).
pub uninterp spec fn json_object_text(entries: Seq<(Seq<char>, JsonScalarView)>) -> Seq<char>;

/// Wraps `serde_json::to_string` of a `serde_json::Value::Object` built from
/// `entries` (`serde_json::Map::insert` of each key with `Value::from` of its
/// scalar). The contract names the text that serde_json writes for those
/// entries. `to_string` fails only for a map with non-string keys or a value
/// whose serialisation fails; neither can occur for an object of strings and
/// integers, so the empty fallback is never taken.
#[verifier::external_body]
fn flat_json_text(entries: &Vec<(String, JsonScalar)>) -> (r: String)
    ensures
        r@ == json_object_text(entries_view(entries@)),
{
    let mut object = serde_json::Map::new();
    for (key, value) in entries {
        let v = match value {
            JsonScalar::Text(t) => serde_json::Value::from(t.as_str()),
            JsonScalar::Number(n) => serde_json::Value::from(*n),
        };
        object.insert(key.clone(), v);
    }
    match serde_json::to_string(&serde_json::Value::Object(object)) {
        Ok(text) => text,
        Err(_) => String::new(),
    }
}

/// The entries published for a sample: its quality under `quality`, its value
/// under its tag, its time under `ts`. One top-level key per item: the HMI
/// reads values with a single-level key lookup.
pub open spec fn payload_entries(s: Sample) -> Seq<(Seq<char>, JsonScalarView)> {
    seq![
        ("quality"@, JsonScalarView::Text(s.quality@)),
        (s.tag@, JsonScalarView::Number(s.value as i64)),
        ("ts"@, JsonScalarView::Number(s.timestamp_ms)),
    ]
}

/// The MQTT payload of a sample: the flat JSON object of its entries.
pub fn payload_text(s: &Sample) -> (r: String)
    ensures
        r@ == json_object_text(payload_entries(*s)),
        r@ == json_object_text(
            seq![
                ("quality"@, JsonScalarView::Text(s.quality@)),
                (s.tag@, JsonScalarView::Number(s.value as i64)),
                ("ts"@, JsonScalarView::Number(s.timestamp_ms)),
            ],
        ),
{
    let mut entries: Vec<(String, JsonScalar)> = Vec::new();
    entries.push((String::from_str("quality"), JsonScalar::Text(s.quality.clone())));
    entries.push((s.tag.clone(), JsonScalar::Number(s.value as i64)));
    entries.push((String::from_str("ts"), JsonScalar::Number(s.timestamp_ms)));
    assert(entries_view(entries@) =~= payload_entries(*s));
    flat_json_text(&entries)
}

/// Every payload, for every value (0 included), holds exactly three entries:
/// the quality under `quality`, the value as a number under the sample's
/// tag, and the time as a number under `ts`.
pub proof fn law_payload_has_value_under_tag(s: Sample)
    ensures
        payload_entries(s).len() == 3,
        payload_entries(s)[0] == ("quality"@, JsonScalarView::Text(s.quality@)),
        payload_entries(s)[1] == (s.tag@, JsonScalarView::Number(s.value as i64)),
        payload_entries(s)[2] == ("ts"@, JsonScalarView::Number(s.timestamp_ms)),
{
}

} // verus!
