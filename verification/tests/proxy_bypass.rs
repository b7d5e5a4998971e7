use nuphus_core::proxy::{build_reqwest_proxy, get_no_proxy_domains, should_bypass_proxy, ProxyEnv};

fn env_with(no_proxy: Option<&str>, no_proxy_lower: Option<&str>) -> ProxyEnv {
    ProxyEnv {
        https_proxy: None,
        https_proxy_lower: None,
        http_proxy: None,
        http_proxy_lower: None,
        no_proxy: no_proxy.map(|v| v.to_string()),
        no_proxy_lower: no_proxy_lower.map(|v| v.to_string()),
    }
}

fn strings(v: &[&str]) -> Vec<String> {
    v.iter().map(|x| x.to_string()).collect()
}

#[test]
fn defaults_without_no_proxy() {
    assert_eq!(get_no_proxy_domains(&env_with(None, None)), strings(&["localhost", "127.0.0.1"]));
}

#[test]
fn listed_entries_trimmed_and_blank_dropped() {
    let env = env_with(Some(" a.com , ,b.org,,\t"), None);
    assert_eq!(get_no_proxy_domains(&env), strings(&["a.com", "b.org", "localhost", "127.0.0.1"]));
}

#[test]
fn defaults_not_repeated() {
    let env = env_with(Some("127.0.0.1, x.io ,localhost"), None);
    assert_eq!(get_no_proxy_domains(&env), strings(&["127.0.0.1", "x.io", "localhost"]));
}

#[test]
fn upper_case_variable_first() {
    let env = env_with(Some("up.com"), Some("low.com"));
    assert_eq!(get_no_proxy_domains(&env), strings(&["up.com", "localhost", "127.0.0.1"]));
    let env = env_with(None, Some("low.com"));
    assert_eq!(get_no_proxy_domains(&env), strings(&["low.com", "localhost", "127.0.0.1"]));
}

#[test]
fn empty_upper_case_variable_still_decides() {
    let env = env_with(Some(""), Some("low.com"));
    assert_eq!(get_no_proxy_domains(&env), strings(&["localhost", "127.0.0.1"]));
}

#[test]
fn loopback_always_bypassed() {
    let env = env_with(None, None);
    assert!(should_bypass_proxy("localhost", &env));
    assert!(should_bypass_proxy("127.0.0.1", &env));
    assert!(should_bypass_proxy("http://localhost", &env));
    assert!(should_bypass_proxy("https://127.0.0.1", &env));
    assert!(should_bypass_proxy("api.localhost", &env));
    assert!(!should_bypass_proxy("example.com", &env));
    assert!(!should_bypass_proxy("localhost:8080", &env));
}

#[test]
fn listed_domain_and_subdomains_bypassed() {
    let env = env_with(Some("example.com"), None);
    assert!(should_bypass_proxy("example.com", &env));
    assert!(should_bypass_proxy("api.example.com", &env));
    assert!(should_bypass_proxy("https://a.b.example.com", &env));
    assert!(!should_bypass_proxy("notexample.com", &env));
    assert!(!should_bypass_proxy("example.com.evil", &env));
}

#[test]
fn repeated_scheme_prefixes_are_stripped() {
    let env = env_with(Some("example.com"), None);
    assert!(should_bypass_proxy("https://https://example.com", &env));
    assert!(should_bypass_proxy("https://http://http://example.com", &env));
    assert!(!should_bypass_proxy("http://https://example.com", &env));
}

#[test]
fn reqwest_proxy_for_valid_url() {
    assert!(build_reqwest_proxy("http://127.0.0.1:2081", &env_with(None, None)).is_some());
    assert!(build_reqwest_proxy("socks5://10.0.0.1:1080", &env_with(Some("a.com"), None)).is_some());
    assert!(build_reqwest_proxy("127.0.0.1:2081", &env_with(Some(""), None)).is_some());
}

#[test]
fn reqwest_proxy_refused_url() {
    assert!(build_reqwest_proxy("http://[::1", &env_with(None, None)).is_none());
    assert!(build_reqwest_proxy("http://exa mple.com", &env_with(Some("x"), None)).is_none());
}

#[test]
fn more_entries_keep_bypass() {
    let env = env_with(Some("a.com"), None);
    assert!(should_bypass_proxy("x.a.com", &env));
    let env = env_with(Some("a.com,b.org"), None);
    assert!(should_bypass_proxy("x.a.com", &env));
    assert!(should_bypass_proxy("b.org", &env));
    let env = env_with(Some(",b.org"), Some("a.com"));
    assert!(should_bypass_proxy("localhost", &env));
    assert!(!should_bypass_proxy("x.a.com", &env));
}
