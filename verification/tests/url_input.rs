use rab_browser::{
    is_likely_domain, is_visitable_host, normalize_url, resolve_address, search_url, SearchEngine,
    NEW_TAB_URL,
};

#[test]
fn normalizes_urls_and_search_queries() {
    assert_eq!(normalize_url("", SearchEngine::Google), NEW_TAB_URL);
    assert_eq!(
        normalize_url("example.com/path", SearchEngine::Google),
        "https://example.com/path"
    );
    assert_eq!(
        normalize_url("https://example.com", SearchEngine::Google),
        "https://example.com"
    );
    assert_eq!(
        normalize_url("rust wry", SearchEngine::Google),
        "https://www.google.com/search?q=rust+wry"
    );
    assert_eq!(
        normalize_url("?rust wry", SearchEngine::Google),
        "https://www.google.com/search?q=rust+wry"
    );
    assert_eq!(
        normalize_url("?rust & wry", SearchEngine::Google),
        "https://www.google.com/search?q=rust+%26+wry"
    );
    assert_eq!(
        normalize_url("https://", SearchEngine::Google),
        "https://www.google.com/search?q=https%3A%2F%2F"
    );
    assert_eq!(
        normalize_url("localhost", SearchEngine::Google),
        "https://localhost"
    );
    assert_eq!(
        normalize_url("localhost:3000", SearchEngine::Google),
        "https://localhost:3000"
    );
    assert_eq!(
        normalize_url("127.0.0.1:8080", SearchEngine::Google),
        "https://127.0.0.1:8080"
    );
}

#[test]
fn uses_the_selected_search_engine() {
    assert_eq!(
        normalize_url("rust wry", SearchEngine::DuckDuckGo),
        "https://duckduckgo.com/?q=rust+wry"
    );
    assert_eq!(
        normalize_url("rust wry", SearchEngine::Bing),
        "https://www.bing.com/search?q=rust+wry"
    );
}

#[test]
fn recognizes_domains_and_local_addresses() {
    assert!(is_likely_domain("example.com"));
    assert!(is_likely_domain("sub.example.co.uk/path?x=1"));
    assert!(is_likely_domain("LOCALHOST"));
    assert!(is_likely_domain("192.168.0.1"));
    assert!(!is_likely_domain("example"));
    assert!(!is_likely_domain("example.c"));
    assert!(!is_likely_domain("example.c0m"));
    assert!(!is_likely_domain("-bad.com"));
    assert!(!is_likely_domain("bad-.com"));
    assert!(!is_likely_domain("rust wry"));
    assert!(!is_likely_domain("[::1]:8080"));
}

#[test]
fn trims_input_and_keeps_explicit_schemes() {
    assert_eq!(
        normalize_url("  example.com \t", SearchEngine::Google),
        "https://example.com"
    );
    assert_eq!(normalize_url("   ", SearchEngine::Bing), NEW_TAB_URL);
    assert_eq!(normalize_url("about:blank", SearchEngine::Google), "about:blank");
    assert_eq!(
        normalize_url("http://example.com", SearchEngine::Google),
        "http://example.com"
    );
    assert_eq!(
        normalize_url("?  spaced  ", SearchEngine::DuckDuckGo),
        "https://duckduckgo.com/?q=spaced"
    );
}

#[test]
fn search_urls_encode_the_query_as_a_form() {
    assert_eq!(
        search_url("日本 a*b-c._d~", SearchEngine::Google),
        "https://www.google.com/search?q=%E6%97%A5%E6%9C%AC+a*b-c._d%7E"
    );
    assert_eq!(search_url("", SearchEngine::Bing), "https://www.bing.com/search?q=");
}

#[test]
fn decides_hosts_and_addresses_from_parse_results() {
    assert!(is_visitable_host("example.com", false));
    assert!(is_visitable_host("LocalHost", false));
    assert!(is_visitable_host("10.0.0.1", true));
    assert!(!is_visitable_host("10.0.0.1", false));
    assert!(!is_visitable_host("a..com", false));
    assert!(!is_visitable_host("intranet", false));
    assert_eq!(
        resolve_address(" mailto://x ", SearchEngine::Google, true, false),
        "mailto://x"
    );
    assert_eq!(
        resolve_address("mailto://x", SearchEngine::Google, false, false),
        "https://www.google.com/search?q=mailto%3A%2F%2Fx"
    );
    assert_eq!(
        resolve_address("intranet", SearchEngine::Bing, true, true),
        "https://intranet"
    );
    assert_eq!(
        resolve_address("?q", SearchEngine::Bing, true, true),
        "https://www.bing.com/search?q=q"
    );
    assert_eq!(resolve_address("", SearchEngine::Bing, true, true), NEW_TAB_URL);
}
