use codex_api::auth::{add_auth_headers, with_auth_headers, AuthProvider};
use codex_api::azure::{has_azure_marker, is_azure_base_url, is_azure_host};
use codex_api::provider::{
    build_azure_url, is_azure_endpoint, Provider, Request, RetryConfig, WireApi,
};
use http::{HeaderMap, HeaderValue, Method};

fn retry_config() -> RetryConfig {
    RetryConfig {
        max_attempts: 3,
        base_delay_ms: 200,
        retry_429: true,
        retry_5xx: true,
        retry_transport: true,
        max_retry_delay_ms: None,
    }
}

fn provider(name: &str, base_url: &str, params: Option<Vec<(String, String)>>) -> Provider {
    Provider {
        name: name.to_string(),
        base_url: base_url.to_string(),
        query_params: params,
        wire: WireApi::Responses,
        headers: HeaderMap::new(),
        retry: retry_config(),
        stream_idle_timeout_ms: 300_000,
    }
}

#[test]
fn detects_azure_base_urls() {
    let positive_cases = [
        "https://foo.openai.azure.com/openai",
        "https://foo.openai.azure.us/openai/deployments/bar",
        "https://foo.cognitiveservices.azure.com/openai",
        "https://foo.cognitiveservices.azure.cn/openai",
        "https://foo.aoai.azure.com/openai",
    ];
    for url in positive_cases {
        assert!(is_azure_base_url(url), "expected {url} to be Azure");
    }
    let negative_cases = [
        "https://api.openai.com/v1",
        "https://example.com/openai",
        "https://myproxy.azurewebsites.net/openai",
        "https://foo.openai.azure-api.net/openai",
        "https://foo.z01.azurefd.net/",
        "https://myaccount.blob.core.windows.net/openai/something",
    ];
    for url in negative_cases {
        assert!(!is_azure_base_url(url), "expected {url} not to be Azure");
    }
}

#[test]
fn azure_host_matching_ignores_case() {
    assert!(is_azure_host("FOO.OpenAI.Azure.COM"));
    assert!(!is_azure_host("openai.azure.com"));
    assert!(!is_azure_host("foo.openai.azure.com.evil.net"));
    assert!(is_azure_base_url("https://Foo.OPENAI.azure.com/openai"));
}

#[test]
fn unparsable_urls_fall_back_to_markers() {
    assert!(has_azure_marker("foo.OpenAI.Azure.com/openai"));
    assert!(has_azure_marker("x cognitiveservices.azure.y"));
    assert!(!has_azure_marker("azure.openai"));
    assert!(is_azure_base_url("foo.openai.azure.com/openai"));
    assert!(!is_azure_base_url("not a url at all"));
}

#[test]
fn build_url_inserts_suffix_before_query() {
    let provider = provider(
        "Azure",
        "https://example.openai.azure.com/openai/v1",
        Some(vec![("api-version".to_string(), "2025-04-01-preview".to_string())]),
    );
    let url = build_azure_url(&provider, "abc123");
    assert_eq!(
        url,
        "https://example.openai.azure.com/openai/v1/responses/abc123?api-version=2025-04-01-preview"
    );
}

#[test]
fn azure_url_with_query() {
    let provider = provider(
        "r",
        "https://r.openai.azure.com/openai/v1",
        Some(vec![("api-version".to_string(), "2025-04-01-preview".to_string())]),
    );
    assert_eq!(
        build_azure_url(&provider, "abc123"),
        "https://r.openai.azure.com/openai/v1/responses/abc123?api-version=2025-04-01-preview"
    );
    assert_eq!(
        build_azure_url(&provider, "/abc123/input_items"),
        "https://r.openai.azure.com/openai/v1/responses/abc123/input_items?api-version=2025-04-01-preview"
    );
}

#[test]
fn url_for_path_joins_base_query_and_params() {
    let p = provider("openai", "https://api.example.com/v1/", None);
    assert_eq!(p.url_for_path("/responses"), "https://api.example.com/v1/responses");
    assert_eq!(p.url_for_path(""), "https://api.example.com/v1");
    let p = provider("x", "https://h/base//?api-version=1", None);
    assert_eq!(p.url_for_path("models"), "https://h/base/models?api-version=1");
    let p = provider(
        "x",
        "https://h/base?a=1",
        Some(vec![("k y".to_string(), "v&w".to_string()), ("z".to_string(), "~".to_string())]),
    );
    assert_eq!(p.url_for_path("p"), "https://h/base/p?a=1&k%20y=v%26w&z=~");
    let p = provider("x", "https://h/base?", Some(vec![]));
    assert_eq!(p.url_for_path("p"), "https://h/base/p");
}

#[test]
fn build_request_carries_defaults() {
    let mut p = provider("x", "https://h/v1", None);
    p.headers.insert("x-custom", HeaderValue::from_static("1"));
    let req = p.build_request(Method::POST, "responses");
    assert_eq!(req.method, Method::POST);
    assert_eq!(req.url, "https://h/v1/responses");
    assert_eq!(req.headers.get("x-custom").unwrap(), "1");
    assert!(req.body.is_none());
}

#[test]
fn azure_responses_endpoint_needs_responses_wire() {
    let p = provider("AZURE", "https://example.com", None);
    assert!(p.is_azure_responses_endpoint());
    let mut p = provider("other", "https://foo.openai.azure.com/openai", None);
    assert!(p.is_azure_responses_endpoint());
    p.wire = WireApi::Chat;
    assert!(!p.is_azure_responses_endpoint());
    assert!(is_azure_endpoint("Azure", "https://example.com"));
    assert!(!is_azure_endpoint("azure2", "https://example.com"));
}

struct StaticAuth {
    token: Option<String>,
    account: Option<String>,
}

impl AuthProvider for StaticAuth {
    fn bearer_token(&self) -> Option<String> {
        self.token.clone()
    }

    fn account_id(&self) -> Option<String> {
        self.account.clone()
    }
}

fn empty_request() -> Request {
    Request {
        method: Method::GET,
        url: "https://h".to_string(),
        headers: HeaderMap::new(),
        body: None,
        timeout_ms: None,
    }
}

#[test]
fn auth_headers_for_azure_and_openai() {
    let auth = StaticAuth { token: Some("tok".to_string()), account: Some("acct".to_string()) };
    let req = add_auth_headers(&auth, empty_request(), true);
    assert_eq!(req.headers.get("api-key").unwrap(), "tok");
    assert!(req.headers.get("authorization").is_none());
    assert_eq!(req.headers.get("chatgpt-account-id").unwrap(), "acct");
    let req = add_auth_headers(&auth, empty_request(), false);
    assert_eq!(req.headers.get("authorization").unwrap(), "Bearer tok");
    assert!(req.headers.get("api-key").is_none());
}

#[test]
fn invalid_auth_header_values_are_dropped() {
    let req = with_auth_headers(empty_request(), Some("bad\ntoken".to_string()), None, true);
    assert!(req.headers.get("api-key").is_none());
    let req = with_auth_headers(empty_request(), None, Some("ok".to_string()), false);
    assert!(req.headers.get("authorization").is_none());
    assert_eq!(req.headers.get("chatgpt-account-id").unwrap(), "ok");
}
