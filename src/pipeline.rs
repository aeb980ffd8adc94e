//! The fetch-decode pipeline without its network call: the request that is
//! sent, and what a response's status and body become.

use vstd::prelude::*;
use crate::text::{nat_text, push_nat};
use crate::query::{push_query_escaped, query_escape};
use crate::weather::{
    decodable, decode_weather_text, decodes_to, failed_member, missing_message, WeatherResponse,
};
use crate::json::{json_error_of_text, json_of_text};

verus! {

/// What one fetch gives: a record, or a message that says why there is none.
pub type FetchOutcome = Result<WeatherResponse, String>;

/// The reason phrase that the HTTP standard gives to a status code, where it
/// gives one.
pub uninterp spec fn canonical_reason_of(code: u16) -> Option<Seq<char>>;

/// Relies on `reqwest::StatusCode::from_u16` and `canonical_reason`: the
/// standard reason phrase of a code between 100 and 999, where it has one.
#[verifier::external_body]
fn canonical_reason(code: u16) -> (r: Option<String>)
    requires
        100 <= code <= 999,
    ensures
        match r {
            Some(s) => canonical_reason_of(code) == Some(s@),
            None => canonical_reason_of(code) is None,
        },
{
    match reqwest::StatusCode::from_u16(code) {
        Ok(c) => c.canonical_reason().map(String::from),
        Err(_) => None,
    }
}

/// The reason phrase that a status is shown with.
pub open spec fn reason_text(code: u16) -> Seq<char> {
    if 100 <= code <= 999 && canonical_reason_of(code) is Some {
        canonical_reason_of(code)->0
    } else {
        "<unknown status code>"@
    }
}

/// The message of a fetch that the server answered with an unsuccessful status.
pub open spec fn status_failure(code: u16) -> Seq<char> {
    "API request failed with status: "@ + nat_text(code as nat) + " "@ + reason_text(code)
}

/// Whether a status is in the success range.
pub open spec fn success_status(code: u16) -> bool {
    200 <= code <= 299
}

/// The address that asks the provider for the current weather of `city`,
/// in metric units. City and key are escaped as query values, so neither
/// can end its parameter or add another.
pub open spec fn weather_url(city: Seq<char>, api_key: Seq<char>) -> Seq<char> {
    "https://api.openweathermap.org/data/2.5/weather?q="@ + query_escape(city) + "&appid="@
        + query_escape(api_key) + "&units=metric"@
}

/// Builds the request address for `city`.
pub fn request_url(city: &str, api_key: &str) -> (r: String)
    ensures
        r@ == weather_url(city@, api_key@),
{
    let mut s = String::from_str("https://api.openweathermap.org/data/2.5/weather?q=");
    push_query_escaped(&mut s, city);
    s.append("&appid=");
    push_query_escaped(&mut s, api_key);
    s.append("&units=metric");
    s
}

/// Whether a status is in the success range.
pub fn is_success(code: u16) -> (r: bool)
    ensures
        r == success_status(code),
{
    200 <= code && code <= 299
}

/// The message for an unsuccessful status, given the reason phrase of its
/// code where the standard has one.
pub fn status_message(code: u16, reason: Option<&str>) -> (r: String)
    ensures
        r@ == "API request failed with status: "@ + nat_text(code as nat) + " "@ + match reason {
            Some(p) => p@,
            None => "<unknown status code>"@,
        },
{
    let mut s = String::from_str("API request failed with status: ");
    push_nat(&mut s, code as u64);
    s.append(" ");
    match reason {
        Some(p) => s.append(p),
        None => s.append("<unknown status code>"),
    }
    s
}

/// The message for an unsuccessful status: the code and its reason phrase.
pub fn status_failure_message(code: u16) -> (r: String)
    ensures
        r@ == status_failure(code),
{
    if 100 <= code && code <= 999 {
        match canonical_reason(code) {
            Some(p) => status_message(code, Some(p.as_str())),
            None => status_message(code, None),
        }
    } else {
        status_message(code, None)
    }
}

/// What a response becomes. An unsuccessful status fails with its message and
/// the body is not read; a successful one gives the decoded body, or the
/// decoder's message.
pub fn outcome_of_response(status: u16, body: &str) -> (r: FetchOutcome)
    ensures
        !success_status(status) ==> (r matches Err(e) && e@ == status_failure(status)),
        success_status(status) ==> (r is Ok <==> (json_of_text(body@) matches Some(j) && decodable(j))),
        r matches Ok(w) ==> success_status(status) && w.wf() && decodes_to(json_of_text(body@)->0, w),
        success_status(status) ==> (r matches Err(e) ==> e@ == match json_of_text(body@) {
            Some(j) => missing_message(failed_member(j)),
            None => json_error_of_text(body@),
        }),
{
    if !is_success(status) {
        return Err(status_failure_message(status));
    }
    decode_weather_text(body)
}

} // verus!
