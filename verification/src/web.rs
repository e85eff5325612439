//! The request URL: built by interpolating year and docket number into the
//! fixed API base, the two segments inserted verbatim, then checked to be a
//! well-formed URL before anything fetches it.

use vstd::prelude::*;

use vstd::string::StringExecFns;

use crate::error::CaseError;

verus! {

/// The endpoint for one case: the fixed base with `year/docket` appended.
pub open spec fn case_endpoint(year: Seq<char>, docket: Seq<char>) -> Seq<char> {
    "https://api.oyez.org/cases/"@ + year + "/"@ + docket
}

/// Whether `s` is a well-formed URL: acceptance by the URL parser, a function
/// of the text alone.
pub uninterp spec fn url_ok(s: Seq<char>) -> bool;

/// Relies on `url::Url::parse` (the parser whose `Url` reqwest re-exports):
/// whether it accepts a text depends on the text alone, and is named
/// `url_ok` of it.
#[verifier::external_body]
pub(crate) fn url_parses(s: &str) -> (r: bool)
    ensures
        r == url_ok(s@),
{
    match url::Url::parse(s) {
        Ok(_) => true,
        Err(_) => false,
    }
}

/// The request URL for one case: the endpoint text, if it is a well-formed
/// URL, and `Network` otherwise.
pub fn build_request_url(year: &str, docket_num: &str) -> (r: Result<String, CaseError>)
    ensures
        match r {
            Ok(u) => u@ == case_endpoint(year@, docket_num@) && url_ok(
                case_endpoint(year@, docket_num@),
            ),
            Err(e) => !url_ok(case_endpoint(year@, docket_num@)) && e == CaseError::Network,
        },
{
    let mut u = String::from_str("https://api.oyez.org/cases/");
    u.append(year);
    u.append("/");
    u.append(docket_num);
    if url_parses(u.as_str()) {
        Ok(u)
    } else {
        Err(CaseError::Network)
    }
}

} // verus!
