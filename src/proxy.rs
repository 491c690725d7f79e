//! The decisions around the two inference proxies: which request to send to
//! the local server, and what a response or a failed send becomes.
use vstd::prelude::*;
use vstd::string::StringExecFns;
use crate::text::{same_text, joined};

verus! {

/// An HTTP method.
#[derive(PartialEq, Eq, Structural, Clone, Copy, Debug)]
pub enum HttpMethod {
    Get,
    Post,
}

/// A request to the local inference server.
#[derive(Debug)]
pub struct OllamaCall {
    pub method: HttpMethod,
    pub url: String,
    /// The JSON body of a `POST`; a `GET` has none.
    pub body: Option<String>,
}

/// The address of an endpoint of the local inference server.
pub open spec fn ollama_url_of(endpoint: Seq<char>) -> Seq<char> {
    "http://127.0.0.1:11434/api/"@ + endpoint
}

/// Plans the request for `endpoint`: `tags` is fetched with a `GET` and no
/// body, every other endpoint gets `request_data` in a `POST`.
pub fn plan_ollama_request(endpoint: &str, request_data: String) -> (r: OllamaCall)
    ensures
        r.url@ == ollama_url_of(endpoint@),
        endpoint@ == "tags"@ ==> r.method == HttpMethod::Get && r.body is None,
        endpoint@ != "tags"@ ==> r.method == HttpMethod::Post && (r.body matches Some(b) && b@
            == request_data@),
{
    let url = joined("http://127.0.0.1:11434/api/", endpoint);
    if same_text(endpoint, "tags") {
        OllamaCall { method: HttpMethod::Get, url, body: None }
    } else {
        OllamaCall { method: HttpMethod::Post, url, body: Some(request_data) }
    }
}

/// A status code in the success class.
pub open spec fn is_success_code(code: u16) -> bool {
    200 <= code <= 299
}

/// Whether a status code is in the success class.
pub fn is_success_status(code: u16) -> (r: bool)
    ensures
        r == is_success_code(code),
{
    200 <= code && code <= 299
}

/// The outcome of a response: its body on a success status, otherwise the
/// error `<prefix><status>: <body>`.
pub open spec fn outcome_of(
    prefix: Seq<char>,
    code: u16,
    status: Seq<char>,
    body: Seq<char>,
) -> Result<Seq<char>, Seq<char>> {
    if is_success_code(code) {
        Ok(body)
    } else {
        Err(prefix + status + ": "@ + body)
    }
}

/// The view of a result of strings.
pub open spec fn result_view(r: Result<String, String>) -> Result<Seq<char>, Seq<char>> {
    match r {
        Ok(s) => Ok(s@),
        Err(s) => Err(s@),
    }
}

fn response_outcome(prefix: &str, code: u16, status: &str, body: String) -> (r: Result<
    String,
    String,
>)
    ensures
        result_view(r) == outcome_of(prefix@, code, status@, body@),
{
    if is_success_status(code) {
        Ok(body)
    } else {
        let mut m = joined(prefix, status);
        m.append(": ");
        m.append(body.as_str());
        Err(m)
    }
}

/// What a response of the local server becomes, given its status code, the
/// status as text (`404 Not Found`) and its body.
pub fn ollama_outcome(code: u16, status: &str, body: String) -> (r: Result<String, String>)
    ensures
        result_view(r) == outcome_of(
            "Ollama API request failed with status "@,
            code,
            status@,
            body@,
        ),
{
    response_outcome("Ollama API request failed with status ", code, status, body)
}

/// What a response of the cloud API becomes, given its status code, the
/// status as text and its body.
pub fn anthropic_outcome(code: u16, status: &str, body: String) -> (r: Result<String, String>)
    ensures
        result_view(r) == outcome_of("API request failed with status "@, code, status@, body@),
{
    response_outcome("API request failed with status ", code, status, body)
}

/// The error for a request to the cloud API that could not be sent: a
/// timeout is named first, then a failed connection, else a generic failure.
pub open spec fn send_failure_text(timed_out: bool, connect_failed: bool, detail: Seq<char>) -> Seq<
    char,
> {
    if timed_out {
        "Request timed out: "@ + detail
    } else if connect_failed {
        "Connection error: "@ + detail
    } else {
        "Request failed: "@ + detail
    }
}

/// The error for a request that could not be sent.
pub fn send_failure_message(timed_out: bool, connect_failed: bool, detail: &str) -> (r: String)
    ensures
        r@ == send_failure_text(timed_out, connect_failed, detail@),
{
    if timed_out {
        joined("Request timed out: ", detail)
    } else if connect_failed {
        joined("Connection error: ", detail)
    } else {
        joined("Request failed: ", detail)
    }
}

/// The body of a reply from the cloud API as the frontend may consume it.
#[derive(Debug)]
pub struct AnthropicResponse {
    pub content: String,
    pub error: Option<String>,
}

} // verus!
