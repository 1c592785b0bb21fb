use vstd::prelude::*;

use http::HeaderMap;

use crate::headers::{header_text, is_header_text};
use crate::json::{
    JsonValue,
    find_member,
    json_of_text,
    member,
    optional_string,
    parse_json,
    string_member,
};
use crate::retry::TransportError;
use crate::text::{
    chars_of,
    contains_ci,
    contains_ignoring_case,
    same_text,
    starts_with,
    starts_with_str,
};

verus! {

/// An error body of Azure OpenAI, with its `azure-openai-request-id`.
#[derive(Debug, Clone)]
pub struct AzureError {
    pub status: u16,
    pub code: String,
    pub message: String,
    pub request_id: Option<String>,
}

/// Every failure the client reports, by kind.
#[derive(Debug, Clone)]
pub enum ApiError {
    Transport(TransportError),
    Api { status: u16, message: String },
    Stream(String),
    ContextWindowExceeded,
    QuotaExceeded,
    UsageNotIncluded,
    /// The server lost track of the previous response in the chain: replay the turn
    /// with a fresh history.
    PreviousResponseChainBroken { message: String },
    Retryable { message: String, delay_ms: Option<u64> },
    RateLimit(String),
    InvalidRequest { message: String },
    Azure(AzureError),
}

/// Whether an `invalid_request_error` with this `param` and `message` reports a broken
/// response chain. The message is compared ignoring ASCII case.
pub open spec fn is_chain_break(param: Seq<char>, message: Seq<char>) -> bool {
    ||| param == "previous_response_id"@
    ||| (contains_ignoring_case(message, "previous"@) && contains_ignoring_case(message, "not found"@))
    ||| (starts_with(param, "input"@) && contains_ignoring_case(message, "not found"@))
    ||| (param == "input"@ && contains_ignoring_case(message, "duplicate item"@))
    ||| (param == "input"@ && contains_ignoring_case(message, "no tool output found"@))
    ||| (param == "input"@ && contains_ignoring_case(message, "output is missing"@))
}

/// The text of an optional string; empty when absent.
pub open spec fn text_or_empty(s: Option<String>) -> Seq<char> {
    match s {
        Some(t) => t@,
        None => Seq::empty(),
    }
}

/// For a 400 body `{"error": {"type", "param", "message"}}` whose fields decode as
/// optional strings: `Some(message)` when it is an `invalid_request_error` that reports
/// a broken chain, else `None`.
pub open spec fn chain_break_message(body: JsonValue) -> Option<Option<String>> {
    match body {
        JsonValue::Object(top) => match member(top@, "error"@) {
            Some(JsonValue::Object(e)) => {
                let t = optional_string(member(e@, "type"@));
                let p = optional_string(member(e@, "param"@));
                let m = optional_string(member(e@, "message"@));
                if t is None || p is None || m is None {
                    None
                } else if !(t->0 matches Some(s) && s@ == "invalid_request_error"@) {
                    None
                } else if is_chain_break(text_or_empty(p->0), text_or_empty(m->0)) {
                    Some(m->0)
                } else {
                    None
                }
            },
            _ => None,
        },
        _ => None,
    }
}

/// `r` is the chain-break error that `expected` describes, or nothing when it is `None`.
pub open spec fn is_chain_result(r: Option<ApiError>, expected: Option<Option<String>>) -> bool {
    match expected {
        None => r is None,
        Some(m) => r matches Some(ApiError::PreviousResponseChainBroken { message }) && message@
            == text_or_empty(m),
    }
}

fn optional_text(s: &Option<String>) -> (r: Vec<char>)
    ensures
        r@ == text_or_empty(*s),
{
    match s {
        Some(t) => chars_of(t.as_str()),
        None => Vec::new(),
    }
}

fn chain_break(param: &Vec<char>, message: &Vec<char>) -> (r: bool)
    ensures
        r == is_chain_break(param@, message@),
{
    let is_input = same_text(param, "input");
    same_text(param, "previous_response_id") || (contains_ci(message, "previous") && contains_ci(
        message,
        "not found",
    )) || (starts_with_str(param, "input") && contains_ci(message, "not found")) || (is_input
        && contains_ci(message, "duplicate item")) || (is_input && contains_ci(
        message,
        "no tool output found",
    )) || (is_input && contains_ci(message, "output is missing"))
}

impl ApiError {
    /// Classifies a decoded 400 body (see `chain_break_message`).
    pub fn from_bad_request_json(body: &JsonValue) -> (r: Option<ApiError>)
        ensures
            is_chain_result(r, chain_break_message(*body)),
    {
        let top = match body {
            JsonValue::Object(top) => top,
            _ => return None,
        };
        let e = match find_member(top, "error") {
            Some(i) => match &top[i].1 {
                JsonValue::Object(e) => e,
                _ => return None,
            },
            None => return None,
        };
        let t = string_member(e, "type");
        let p = string_member(e, "param");
        let m = string_member(e, "message");
        if t.is_none() || p.is_none() || m.is_none() {
            return None;
        }
        let t = t.unwrap();
        let p = p.unwrap();
        let m = m.unwrap();
        let is_invalid_request = match &t {
            Some(s) => {
                let sc = chars_of(s.as_str());
                same_text(&sc, "invalid_request_error")
            },
            None => false,
        };
        if !is_invalid_request {
            return None;
        }
        let param = optional_text(&p);
        let message = optional_text(&m);
        if chain_break(&param, &message) {
            let text = match m {
                Some(s) => s,
                None => String::new(),
            };
            Some(ApiError::PreviousResponseChainBroken { message: text })
        } else {
            None
        }
    }

    /// Classifies the body of an HTTP 400: a broken response chain, or nothing.
    pub fn from_bad_request_body(body: &str) -> (r: Option<ApiError>)
        ensures
            match json_of_text(body@) {
                Some(v) => is_chain_result(r, chain_break_message(v)),
                None => r is None,
            },
    {
        match parse_json(body) {
            Some(v) => Self::from_bad_request_json(&v),
            None => None,
        }
    }

    /// Lifts a transport failure: an HTTP 400 whose body reports a broken chain becomes
    /// `PreviousResponseChainBroken`; anything else is kept as `Transport`.
    pub fn from_transport(err: TransportError) -> (r: ApiError)
        ensures
            ({
                let chain = match err {
                    TransportError::Http { status, body: Some(b), .. } => if status == 400 {
                        match json_of_text(b@) {
                            Some(v) => chain_break_message(v),
                            None => None,
                        }
                    } else {
                        None
                    },
                    _ => None,
                };
                match chain {
                    Some(m) => r matches ApiError::PreviousResponseChainBroken { message }
                        && message@ == text_or_empty(m),
                    None => r == ApiError::Transport(err),
                }
            }),
    {
        let chain = match &err {
            TransportError::Http { status, body, .. } => {
                if *status == 400 {
                    match body {
                        Some(b) => Self::from_bad_request_body(b.as_str()),
                        None => None,
                    }
                } else {
                    None
                }
            },
            _ => None,
        };
        match chain {
            Some(c) => c,
            None => ApiError::Transport(err),
        }
    }
}

/// What a typed decoder reads from an Azure error body `{"error": {"code", "message"}}`:
/// `None` when the body does not decode, else the optional code and message.
pub open spec fn azure_error_fields(body: Option<JsonValue>) -> Option<(Option<String>, Option<String>)> {
    match body {
        Some(JsonValue::Object(top)) => match member(top@, "error"@) {
            None => Some((None, None)),
            Some(JsonValue::Null) => Some((None, None)),
            Some(JsonValue::Object(e)) => {
                let c = optional_string(member(e@, "code"@));
                let m = optional_string(member(e@, "message"@));
                if c is Some && m is Some {
                    Some((c->0, m->0))
                } else {
                    None
                }
            },
            _ => None,
        },
        _ => None,
    }
}

/// The code and message of an Azure error, given the decoded fields and the raw body:
/// the code defaults to `unknown`, the message to the whole body.
pub open spec fn azure_code_and_message(
    fields: Option<(Option<String>, Option<String>)>,
    body: Seq<char>,
) -> (Seq<char>, Seq<char>) {
    let code = match fields {
        Some((Some(c), _)) => c@,
        _ => "unknown"@,
    };
    let message = match fields {
        Some((_, Some(m))) => m@,
        _ => body,
    };
    (code, message)
}

/// Reads the code and message of a decoded Azure error body (see
/// `azure_error_fields`).
pub fn azure_error_parts(body: &Option<JsonValue>) -> (r: Option<(Option<String>, Option<String>)>)
    ensures
        r == azure_error_fields(*body),
{
    let top = match body {
        Some(JsonValue::Object(top)) => top,
        _ => return None,
    };
    match find_member(top, "error") {
        None => Some((None, None)),
        Some(i) => match &top[i].1 {
            JsonValue::Null => Some((None, None)),
            JsonValue::Object(e) => {
                let c = string_member(e, "code");
                let m = string_member(e, "message");
                if c.is_some() && m.is_some() {
                    Some((c.unwrap(), m.unwrap()))
                } else {
                    None
                }
            },
            _ => None,
        },
    }
}

/// Builds the `AzureError` of a failed response from its status, body and headers.
pub fn parse_azure_error(body: String, status: u16, headers: &HeaderMap) -> (r: AzureError)
    ensures
        r.status == status,
        (r.code@, r.message@) == azure_code_and_message(
            azure_error_fields(json_of_text(body@)),
            body@,
        ),
        is_header_text(*headers, "azure-openai-request-id"@, r.request_id),
{
    proof {
        reveal_strlit("azure-openai-request-id");
    }
    let fields = azure_error_parts(&parse_json(body.as_str()));
    let request_id = header_text(headers, "azure-openai-request-id");
    let (code, message) = match fields {
        Some((c, m)) => {
            let code = match c {
                Some(c) => c,
                None => String::from_str("unknown"),
            };
            let message = match m {
                Some(m) => m,
                None => body,
            };
            (code, message)
        },
        None => (String::from_str("unknown"), body),
    };
    AzureError { status, code, message, request_id }
}

} // verus!
