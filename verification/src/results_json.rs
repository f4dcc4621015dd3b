//! The serialized form of the per-candidate results, produced by serde_json.

use vstd::prelude::*;

verus! {

/// The JSON text of the results: an array holding, for each slot in order,
/// an object with the candidate's display name under `candidate` and its
/// accumulated total under `points`. The exact text is serde_json's; it is a
/// function of the names and points alone.
pub uninterp spec fn spec_results_json(names: Seq<Seq<char>>, points: Seq<u64>) -> Seq<char>;

/// Relies on serde_json: `Map::insert`, `Value::String`, `Value::from` and
/// `to_string` build and print `[{"candidate":NAME,"points":POINTS},..]`, one
/// object per slot in order; the text depends on the names and points alone,
/// and printing an array of string-keyed objects cannot fail.
#[verifier::external_body]
pub(crate) fn encode_results(names: &Vec<String>, points: &Vec<u64>) -> (r: String)
    requires
        names@.len() == points@.len(),
    ensures
        r@ == spec_results_json(names@.map_values(|s: String| s@), points@),
{
    let values: Vec<serde_json::Value> = names
        .iter()
        .zip(points.iter())
        .map(|(name, pts)| {
            let mut record = serde_json::Map::new();
            record.insert("candidate".to_string(), serde_json::Value::String(name.clone()));
            record.insert("points".to_string(), serde_json::Value::from(*pts));
            serde_json::Value::Object(record)
        })
        .collect();
    serde_json::to_string(&values).unwrap()
}

} // verus!
