//! Decoding of the response body: a JSON array of objects, each mapping
//! field names to nullable text values, becomes a sequence of raw records.

use vstd::prelude::*;

use std::collections::HashMap;

use crate::errors::Error;
use crate::errors::ErrorView;
use crate::record::RawFields;
use crate::record::RawRecord;
use crate::render::request_views;
use crate::render::spec_run;
use crate::render::run_query;

verus! {

/// Relies on serde_json::from_str: decodes `body` as a JSON array of
/// objects whose values are strings or null, or fails with serde_json's
/// own message. The order of the fields within one record follows the
/// decoded map's iteration order, so two calls on one body may order a
/// record's fields differently; callers state nothing about the value.
#[verifier::external_body]
fn parse_body(body: &str) -> (r: Result<Vec<RawRecord>, String>) {
    match serde_json::from_str::<Vec<HashMap<String, Option<String>>>>(body) {
        Ok(maps) => Ok(
            maps.into_iter().map(|m| RawRecord { fields: m.into_iter().collect() }).collect(),
        ),
        Err(e) => Err(e.to_string()),
    }
}

/// The whole pipeline from the raw response body: decode it, then
/// normalize, index and render. A body that does not decode fails with a
/// parse error carrying the decoder's message; any other outcome is the
/// run of `spec_run` on the records the body decoded to.
pub fn run_from_body(
    body: &str,
    requests: &Vec<String>,
    template: &str,
    separator: &str,
) -> (r: Result<String, Error>)
    ensures
        match r {
            Ok(out) => exists|raws: Seq<RawFields>|
                spec_run(raws, request_views(requests@), template@, separator@)
                    == Ok::<Seq<char>, ErrorView>(out@),
            Err(e) => e@ is Parse || exists|raws: Seq<RawFields>|
                spec_run(raws, request_views(requests@), template@, separator@)
                    == Err::<Seq<char>, ErrorView>(e@),
        },
{
    let records = match parse_body(body) {
        Ok(records) => records,
        Err(cause) => {
            return Err(Error::Parse(cause));
        },
    };
    run_query(&records, requests, template, separator)
}

} // verus!
