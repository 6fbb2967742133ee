//! The lookup outcome: maps a fetch status and a parsed page to the result
//! reported to callers.
//!
//! A successful fetch hands the parsed document to the dispatcher; a 404
//! status maps directly to "not found" without parsing; any other non-success
//! status is an upstream error. A malformed-input failure of the parser
//! propagates as a hard failure distinct from all three outcomes.

use vstd::prelude::*;

use crate::dom::Document;
use crate::extract::{parse_spec, parse_wiktionary, MalformedInput};

verus! {

/// What a lookup reports: the extracted fragments, a not-found outcome
/// (never an error code, so callers can branch without exception handling),
/// or an upstream failure.
#[derive(Debug)]
pub enum LookupResult {
    Found(Vec<String>),
    NotFound,
    UpstreamError,
}

/// Decides the outcome of one lookup from the fetch status and the document
/// parsed from the response body (present whenever the status is a success).
pub fn lookup_outcome(status: u16, doc: Option<&Document>) -> (r: Result<
    LookupResult,
    MalformedInput,
>)
    requires
        200 <= status < 300 ==> doc is Some,
    ensures
        match r {
            Ok(out) => match out {
                LookupResult::Found(v) => 200 <= status < 300 && (doc matches Some(d)
                    && parse_spec(*d) == Ok::<Option<Seq<Seq<char>>>, MalformedInput>(
                    Some(v.deep_view()),
                )),
                LookupResult::NotFound => (200 <= status < 300 && (doc matches Some(d)
                    && parse_spec(*d) == Ok::<Option<Seq<Seq<char>>>, MalformedInput>(
                    None::<Seq<Seq<char>>>,
                ))) || status == 404,
                LookupResult::UpstreamError => !(200 <= status < 300) && status != 404,
            },
            Err(_) => 200 <= status < 300 && (doc matches Some(d) && parse_spec(*d) is Err),
        },
{
    if 200 <= status && status < 300 {
        match doc {
            Some(d) => match parse_wiktionary(d) {
                Ok(Some(v)) => Ok(LookupResult::Found(v)),
                Ok(None) => Ok(LookupResult::NotFound),
                Err(e) => Err(e),
            },
            None => {
                proof {
                    assert(false);
                }
                Ok(LookupResult::UpstreamError)
            },
        }
    } else if status == 404 {
        Ok(LookupResult::NotFound)
    } else {
        Ok(LookupResult::UpstreamError)
    }
}

} // verus!
