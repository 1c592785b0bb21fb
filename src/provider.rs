use vstd::prelude::*;
use vstd::string::StringExecFns;
use vstd::utf8::encode_utf8;

use http::{HeaderMap, Method};

use crate::azure::{is_azure_base_url, is_azure_url, parsed_url_host};
use crate::headers::{copy_headers, header_contents};
use crate::json::JsonValue;
use crate::retry::{RetryOn, RetryPolicy};
use crate::text::{
    chars_of,
    count_leading,
    count_trailing,
    equals_ignoring_case,
    find_char,
    index_of,
    trim_end,
    trim_start,
};

verus! {

#[verifier::external_type_specification]
#[verifier::external_body]
pub struct ExMethod(http::Method);

/// A byte that percent-encoding keeps: an ASCII letter or digit, `-`, `.`, `_` or `~`.
pub open spec fn is_unreserved(b: u8) -> bool {
    (48 <= b <= 57) || (65 <= b <= 90) || (97 <= b <= 122) || b == 45 || b == 46 || b == 95
        || b == 126
}

/// The upper-case hexadecimal digit for `d < 16`.
pub open spec fn hex_digit(d: u8) -> char {
    if d < 10 {
        (48 + d) as u8 as char
    } else {
        (55 + d) as u8 as char
    }
}

/// Percent-encoding of bytes: an unreserved byte stands for itself, any other as `%`
/// and two upper-case hexadecimal digits.
pub open spec fn percent_encoded(b: Seq<u8>) -> Seq<char>
    decreases b.len(),
{
    if b.len() == 0 {
        Seq::empty()
    } else {
        let x = b.last();
        percent_encoded(b.drop_last()) + if is_unreserved(x) {
            seq![x as char]
        } else {
            seq!['%', hex_digit(x / 16), hex_digit(x % 16)]
        }
    }
}

/// Percent-encoding of a text's UTF-8 bytes.
pub open spec fn url_encoded(s: Seq<char>) -> Seq<char> {
    percent_encoded(encode_utf8(s))
}

/// Percent-encodes a query component.
///
/// Relies on `urlencoding::encode`, which keeps ASCII letters, digits and `-_.~` and
/// writes every other byte of the text's UTF-8 encoding as `%` and two upper-case
/// hexadecimal digits.
#[verifier::external_body]
fn url_encode(s: &str) -> (r: String)
    ensures
        r@ == url_encoded(s@),
{
    urlencoding::encode(s).into_owned()
}

/// Wire-level dialect of a provider.
#[derive(Debug, Clone, Copy, PartialEq, Eq, Structural)]
pub enum WireApi {
    Responses,
    Chat,
    Compact,
}

/// Retry configuration of a provider, turned into a `RetryPolicy` for the transport.
/// Delays are in milliseconds.
#[derive(Debug, Clone, Copy, PartialEq, Eq, Structural)]
pub struct RetryConfig {
    pub max_attempts: u64,
    pub base_delay_ms: u64,
    pub retry_429: bool,
    pub retry_5xx: bool,
    pub retry_transport: bool,
    /// The longest server-suggested delay that is honoured.
    pub max_retry_delay_ms: Option<u64>,
}

impl RetryConfig {
    pub fn to_policy(&self) -> (r: RetryPolicy)
        ensures
            r == (RetryPolicy {
                max_attempts: self.max_attempts,
                base_delay_ms: self.base_delay_ms,
                retry_on: RetryOn {
                    retry_429: self.retry_429,
                    retry_5xx: self.retry_5xx,
                    retry_transport: self.retry_transport,
                },
                max_retry_delay_ms: self.max_retry_delay_ms,
            }),
    {
        RetryPolicy {
            max_attempts: self.max_attempts,
            base_delay_ms: self.base_delay_ms,
            retry_on: RetryOn {
                retry_429: self.retry_429,
                retry_5xx: self.retry_5xx,
                retry_transport: self.retry_transport,
            },
            max_retry_delay_ms: self.max_retry_delay_ms,
        }
    }
}

/// An HTTP request ready to be sent.
#[derive(Debug)]
pub struct Request {
    pub method: Method,
    pub url: String,
    pub headers: HeaderMap,
    pub body: Option<JsonValue>,
    pub timeout_ms: Option<u64>,
}

/// One API deployment: base URL (which may carry a query string), extra query
/// parameters, wire dialect, default headers and retry configuration.
#[derive(Debug)]
pub struct Provider {
    pub name: String,
    pub base_url: String,
    /// Extra query parameters, percent-encoded when added, in this order. Unlike a map,
    /// the list may repeat a key; each pair is added as given.
    pub query_params: Option<Vec<(String, String)>>,
    pub wire: WireApi,
    pub headers: HeaderMap,
    pub retry: RetryConfig,
    pub stream_idle_timeout_ms: u64,
}

/// The extra query parameters as a sequence.
pub open spec fn params_view(p: Option<Vec<(String, String)>>) -> Option<Seq<(String, String)>> {
    match p {
        Some(ps) => Some(ps@),
        None => None,
    }
}

/// `key=value` with both sides percent-encoded.
pub open spec fn pair_text(p: (String, String)) -> Seq<char> {
    url_encoded(p.0@) + seq!['='] + url_encoded(p.1@)
}

/// The encoded pairs joined by `&`.
pub open spec fn joined_pairs(ps: Seq<(String, String)>) -> Seq<char>
    decreases ps.len(),
{
    if ps.len() == 0 {
        Seq::empty()
    } else if ps.len() == 1 {
        pair_text(ps[0])
    } else {
        joined_pairs(ps.drop_last()) + seq!['&'] + pair_text(ps.last())
    }
}

/// The URL for `path` under `base`: the base's path without trailing slashes, then
/// `/` and the path without leading slashes (if any is left), then the base's own
/// query and the encoded extra parameters, joined by `&` after a `?`.
pub open spec fn url_for(base: Seq<char>, path: Seq<char>, params: Option<Seq<(String, String)>>) -> Seq<char> {
    let p = trim_start(path, '/');
    let q = index_of(base, '?') as int;
    let base_path = trim_end(base.subrange(0, q), '/');
    let existing = if q < base.len() {
        base.subrange(q + 1, base.len() as int)
    } else {
        Seq::empty()
    };
    let head = if p.len() == 0 {
        base_path
    } else {
        base_path + seq!['/'] + p
    };
    let explicit = match params {
        Some(ps) => joined_pairs(ps),
        None => Seq::empty(),
    };
    let query = if existing.len() > 0 && explicit.len() > 0 {
        existing + seq!['&'] + explicit
    } else if existing.len() > 0 {
        existing
    } else {
        explicit
    };
    if query.len() == 0 {
        head
    } else {
        head + seq!['?'] + query
    }
}

/// `url` with the path segment `suffix` (leading slashes dropped) inserted before its
/// query string, separated by a `/` unless the path already ends with one.
pub open spec fn with_segment(url: Seq<char>, suffix: Seq<char>) -> Seq<char> {
    let q = index_of(url, '?') as int;
    let base = url.subrange(0, q);
    let sep = if base.len() > 0 && base.last() == '/' {
        Seq::empty()
    } else {
        seq!['/']
    };
    base + sep + trim_start(suffix, '/') + url.subrange(q, url.len() as int)
}

/// Inserting a segment into `{base_path}?{query}` gives `{base_path}/{segment}?{query}`.
pub proof fn lemma_segment_before_query(base_path: Seq<char>, query: Seq<char>, segment: Seq<char>)
    requires
        forall|i: int| 0 <= i < base_path.len() ==> base_path[i] != '?',
        base_path.len() > 0,
        base_path.last() != '/',
        segment.len() > 0,
        segment[0] != '/',
    ensures
        with_segment(base_path + seq!['?'] + query, segment) == base_path + seq!['/'] + segment
            + seq!['?'] + query,
{
    let url = base_path + seq!['?'] + query;
    crate::text::lemma_index_of(url, '?', base_path.len() as int);
    assert(url.subrange(0, base_path.len() as int) =~= base_path);
    assert(url.subrange(base_path.len() as int, url.len() as int) =~= seq!['?'] + query);
    crate::text::lemma_leading(segment, '/', 0);
    assert(segment.subrange(0, segment.len() as int) =~= segment);
    assert(with_segment(url, segment) =~= base_path + seq!['/'] + segment + seq!['?'] + query);
}

/// The encoded extra parameters joined by `&`.
fn join_pairs(ps: &Vec<(String, String)>) -> (r: String)
    ensures
        r@ == joined_pairs(ps@),
{
    proof {
        reveal_strlit("&");
        reveal_strlit("=");
    }
    let mut r = String::new();
    let mut i: usize = 0;
    while i < ps.len()
        invariant
            i <= ps@.len(),
            r@ == joined_pairs(ps@.subrange(0, i as int)),
            "&"@ == seq!['&'],
            "="@ == seq!['='],
        decreases ps@.len() - i,
    {
        let mut pair = url_encode(ps[i].0.as_str());
        pair.append("=");
        let v = url_encode(ps[i].1.as_str());
        pair.append(v.as_str());
        proof {
            let s = ps@.subrange(0, i + 1);
            assert(s.drop_last() =~= ps@.subrange(0, i as int));
            assert(s.last() == ps@[i as int]);
            assert(pair@ =~= pair_text(ps@[i as int]));
        }
        if i > 0 {
            r.append("&");
        }
        r.append(pair.as_str());
        proof {
            let s = ps@.subrange(0, i + 1);
            if i == 0 {
                assert(r@ =~= pair_text(s[0]));
            } else {
                assert(r@ =~= joined_pairs(s.drop_last()) + seq!['&'] + pair_text(s.last()));
            }
        }
        i = i + 1;
    }
    proof {
        assert(ps@.subrange(0, i as int) =~= ps@);
    }
    r
}

proof fn lemma_pair_text_nonempty(ps: Seq<(String, String)>)
    ensures
        joined_pairs(ps).len() > 0 <==> ps.len() > 0,
    decreases ps.len(),
{
    if ps.len() > 1 {
        lemma_pair_text_nonempty(ps.drop_last());
    }
}

impl Provider {
    /// The full URL for `path` (see `url_for`).
    pub fn url_for_path(&self, path: &str) -> (r: String)
        ensures
            r@ == url_for(
                self.base_url@,
                path@,
                params_view(self.query_params),
            ),
    {
        proof {
            reveal_strlit("/");
            reveal_strlit("?");
            reveal_strlit("&");
        }
        let base = self.base_url.as_str();
        let bc = chars_of(base);
        let q = find_char(&bc, '?');
        let t = count_trailing(&bc, q, '/');
        let mut url = String::from_str(base.substring_char(0, q - t));
        proof {
            assert(base@.subrange(0, q - t) =~= trim_end(base@.subrange(0, q as int), '/'));
        }
        let pc = chars_of(path);
        let lead = count_leading(&pc, '/');
        if lead < pc.len() {
            url.append("/");
            url.append(path.substring_char(lead, pc.len()));
        }
        let existing: &str = if q < bc.len() {
            base.substring_char(q + 1, bc.len())
        } else {
            base.substring_char(bc.len(), bc.len())
        };
        let explicit: String = match &self.query_params {
            Some(ps) => join_pairs(ps),
            None => String::new(),
        };
        let existing_len = existing.unicode_len();
        let explicit_len = explicit.as_str().unicode_len();
        if existing_len > 0 || explicit_len > 0 {
            url.append("?");
            if existing_len > 0 {
                url.append(existing);
                if explicit_len > 0 {
                    url.append("&");
                }
            }
            url.append(explicit.as_str());
        }
        proof {
            assert(url@ =~= url_for(self.base_url@, path@, params_view(self.query_params)));
        }
        url
    }

    /// A request for `path` with the provider's default headers and no body.
    pub fn build_request(&self, method: Method, path: &str) -> (r: Request)
        ensures
            r.method == method,
            r.url@ == url_for(
                self.base_url@,
                path@,
                params_view(self.query_params),
            ),
            header_contents(r.headers) == header_contents(self.headers),
            r.body is None,
            r.timeout_ms is None,
    {
        Request {
            method,
            url: self.url_for_path(path),
            headers: copy_headers(&self.headers),
            body: None,
            timeout_ms: None,
        }
    }

    /// Whether the provider speaks the Responses dialect to Azure: by name (`azure`, in
    /// any ASCII case) or by its base URL.
    pub fn is_azure_responses_endpoint(&self) -> (r: bool)
        ensures
            r == (self.wire == WireApi::Responses && (equals_ignoring_case(self.name@, "azure"@)
                || is_azure_url(self.base_url@, parsed_url_host(self.base_url@)))),
    {
        if self.wire != WireApi::Responses {
            return false;
        }
        is_azure_endpoint(self.name.as_str(), self.base_url.as_str())
    }
}

/// Whether a provider is Azure: by name (`azure`, in any ASCII case) or by base URL.
pub fn is_azure_endpoint(provider_name: &str, base_url: &str) -> (r: bool)
    ensures
        r == (equals_ignoring_case(provider_name@, "azure"@) || is_azure_url(
            base_url@,
            parsed_url_host(base_url@),
        )),
{
    let name = chars_of(provider_name);
    let azure = chars_of("azure");
    let by_name = name.len() == azure.len() && crate::text::ends_with_ci(&name, "azure");
    proof {
        if name@.len() == azure@.len() {
            assert(name@.subrange(0, name@.len() as int) =~= name@);
        }
    }
    by_name || is_azure_base_url(base_url)
}

/// The URL of a stored response resource: `suffix` (such as a response ID) inserted as
/// a path segment into the provider's `responses` URL, before its query string.
pub fn build_azure_url(provider: &Provider, suffix: &str) -> (r: String)
    ensures
        r@ == with_segment(
            url_for(
                provider.base_url@,
                "responses"@,
                params_view(provider.query_params),
            ),
            suffix@,
        ),
{
    proof {
        reveal_strlit("/");
    }
    let full = provider.url_for_path("responses");
    let fs = full.as_str();
    let fc = chars_of(fs);
    let q = find_char(&fc, '?');
    let mut url = String::from_str(fs.substring_char(0, q));
    if !(q > 0 && fc[q - 1] == '/') {
        url.append("/");
    }
    let sc = chars_of(suffix);
    let lead = count_leading(&sc, '/');
    url.append(suffix.substring_char(lead, sc.len()));
    url.append(fs.substring_char(q, fc.len()));
    proof {
        assert(url@ =~= with_segment(full@, suffix@));
    }
    url
}

} // verus!
