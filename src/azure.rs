use vstd::prelude::*;

use crate::text::{chars_of, contains_ci, contains_ignoring_case, ends_with_ci, ends_with_ignoring_case};

verus! {

/// What `url::Url::parse` makes of a text: `None` when it does not parse, else the
/// URL's host, if it has one.
pub uninterp spec fn parsed_url_host(s: Seq<char>) -> Option<Option<Seq<char>>>;

/// The host of a URL, or `None` when the text does not parse as a URL.
///
/// Relies on `url::Url::parse` and `Url::host_str`.
#[verifier::external_body]
fn url_host(s: &str) -> (r: Option<Option<String>>)
    ensures
        match r {
            None => parsed_url_host(s@) is None,
            Some(None) => parsed_url_host(s@) == Some(None::<Seq<char>>),
            Some(Some(h)) => parsed_url_host(s@) == Some(Some(h@)),
        },
{
    match url::Url::parse(s) {
        Ok(u) => Some(u.host_str().map(|h| h.to_string())),
        Err(_) => None,
    }
}

/// A host of an Azure OpenAI endpoint: it ends, ignoring ASCII case, with one of the
/// Azure OpenAI domain suffixes. Front Door, API Management, CDN and blob hosts do not.
pub open spec fn is_azure_host_name(host: Seq<char>) -> bool {
    ||| ends_with_ignoring_case(host, ".openai.azure.com"@)
    ||| ends_with_ignoring_case(host, ".openai.azure.us"@)
    ||| ends_with_ignoring_case(host, ".openai.azure.cn"@)
    ||| ends_with_ignoring_case(host, ".cognitiveservices.azure.com"@)
    ||| ends_with_ignoring_case(host, ".cognitiveservices.azure.us"@)
    ||| ends_with_ignoring_case(host, ".cognitiveservices.azure.cn"@)
    ||| ends_with_ignoring_case(host, ".aoai.azure.com"@)
}

/// The narrow check for a text that is not a URL: it mentions, ignoring ASCII case,
/// `openai.azure.` or `cognitiveservices.azure.`.
pub open spec fn has_azure_marker_text(s: Seq<char>) -> bool {
    contains_ignoring_case(s, "openai.azure."@) || contains_ignoring_case(
        s,
        "cognitiveservices.azure."@,
    )
}

/// Whether a base URL is an Azure OpenAI endpoint, given what URL parsing made of it.
pub open spec fn is_azure_url(base_url: Seq<char>, parsed: Option<Option<Seq<char>>>) -> bool {
    match parsed {
        None => has_azure_marker_text(base_url),
        Some(None) => false,
        Some(Some(host)) => is_azure_host_name(host),
    }
}

/// Whether `host` is the host of an Azure OpenAI endpoint (see `is_azure_host_name`).
pub fn is_azure_host(host: &str) -> (r: bool)
    ensures
        r == is_azure_host_name(host@),
{
    let h = chars_of(host);
    ends_with_ci(&h, ".openai.azure.com") || ends_with_ci(&h, ".openai.azure.us")
        || ends_with_ci(&h, ".openai.azure.cn") || ends_with_ci(&h, ".cognitiveservices.azure.com")
        || ends_with_ci(&h, ".cognitiveservices.azure.us") || ends_with_ci(
        &h,
        ".cognitiveservices.azure.cn",
    ) || ends_with_ci(&h, ".aoai.azure.com")
}

/// Whether a text that is not a URL carries an Azure marker (see
/// `has_azure_marker_text`).
pub fn has_azure_marker(base_url: &str) -> (r: bool)
    ensures
        r == has_azure_marker_text(base_url@),
{
    let s = chars_of(base_url);
    contains_ci(&s, "openai.azure.") || contains_ci(&s, "cognitiveservices.azure.")
}

/// Whether the base URL appears to be an Azure OpenAI endpoint. Matching is on the
/// host, so that non-Azure proxies on Azure infrastructure are not taken for Azure;
/// a text that does not parse as a URL falls back to `has_azure_marker`.
pub fn is_azure_base_url(base_url: &str) -> (r: bool)
    ensures
        r == is_azure_url(base_url@, parsed_url_host(base_url@)),
{
    match url_host(base_url) {
        None => has_azure_marker(base_url),
        Some(None) => false,
        Some(Some(host)) => is_azure_host(host.as_str()),
    }
}

} // verus!
