//! The source uris of a build recipe.
//!
//! Evaluating a recipe is delegated to the ecosystem's canonical
//! evaluator, run outside the library; it prints one JSON document mapping
//! each download filename to its list of source uris, and that document is
//! decoded here.

use std::collections::BTreeMap;

use vstd::prelude::*;

verus! {

/// What the evaluator's JSON document denotes: a map from download
/// filename to its source uris, or nothing when the text is not such a
/// document.  The outcome depends on the text alone.
pub uninterp spec fn spec_src_uri_json(s: Seq<char>) -> Option<Map<Seq<char>, Seq<Seq<char>>>>;

/// The map held by a list of filename-to-uris pairs.
pub open spec fn pairs_map(v: Seq<(String, Vec<String>)>) -> Map<Seq<char>, Seq<Seq<char>>>
    decreases v.len(),
{
    if v.len() == 0 {
        Map::empty()
    } else {
        pairs_map(v.drop_last()).insert(
            v.last().0@,
            v.last().1@.map_values(|u: String| u@),
        )
    }
}

/// Relies on serde_json::from_str deserializing the text into a map from
/// string to list of strings: the outcome is a function of the text alone,
/// named by spec_src_uri_json, and the returned pairs carry each filename
/// once.
#[verifier::external_body]
fn decode_src_uri_json(s: &str) -> (r: Result<Vec<(String, Vec<String>)>, String>)
    ensures
        r is Ok <==> spec_src_uri_json(s@) is Some,
        r matches Ok(v) ==> {
            &&& spec_src_uri_json(s@) matches Some(m) && pairs_map(v@) == m
            &&& forall|i: int, j: int|
                0 <= i < j < v@.len() ==> (#[trigger] v@[i]).0@ != (#[trigger] v@[j]).0@
        },
{
    let m: BTreeMap<String, Vec<String>> = serde_json::from_str(s).map_err(|e| e.to_string())?;
    Ok(m.into_iter().collect())
}

/// The source uris a build recipe declares, as decoded from the
/// evaluator's JSON document.
pub struct Ebuild {
    /// each download filename with its source uris
    pub src_uri: Vec<(String, Vec<String>)>,
}

impl Ebuild {
    /// Decodes the evaluator's output for one recipe.  Succeeds exactly
    /// when the text is a JSON map from filename to a list of uris.
    pub fn parse(json: &str) -> (r: Result<Ebuild, String>)
        ensures
            r is Ok <==> spec_src_uri_json(json@) is Some,
            r matches Ok(e) ==> {
                &&& spec_src_uri_json(json@) matches Some(m) && pairs_map(e.src_uri@) == m
                &&& forall|i: int, j: int|
                    0 <= i < j < e.src_uri@.len() ==> (#[trigger] e.src_uri@[i]).0@ != (
                    #[trigger] e.src_uri@[j]).0@
            },
    {
        let src_uri = decode_src_uri_json(json)?;
        Ok(Ebuild { src_uri })
    }

    /// The decoded filename-to-uris pairs.
    pub fn src_uri(&self) -> (r: &Vec<(String, Vec<String>)>)
        ensures
            r == self.src_uri,
    {
        &self.src_uri
    }
}

} // verus!
