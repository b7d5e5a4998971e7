use nuphus_core::proxy::{
    detect_proxy_url, env_proxy_url, normalize_proxy_url, registry_string_value,
    windows_system_proxy, ProxyEnv,
    SystemProxySettings,
};

fn no_env() -> ProxyEnv {
    ProxyEnv {
        https_proxy: None,
        https_proxy_lower: None,
        http_proxy: None,
        http_proxy_lower: None,
        no_proxy: None,
        no_proxy_lower: None,
    }
}

fn s(v: &str) -> Option<String> {
    Some(v.to_string())
}

fn system(enable: Option<u32>, server: Option<&str>) -> SystemProxySettings {
    SystemProxySettings { proxy_enable: enable, proxy_server: server.map(|v| v.to_string()) }
}

#[test]
fn normalize_blank_gives_none() {
    assert_eq!(normalize_proxy_url(""), None);
    assert_eq!(normalize_proxy_url("   "), None);
    assert_eq!(normalize_proxy_url("\t\n\u{3000}\u{a0}"), None);
}

#[test]
fn normalize_adds_http_scheme() {
    assert_eq!(normalize_proxy_url("127.0.0.1:2081"), s("http://127.0.0.1:2081"));
    assert_eq!(normalize_proxy_url("  proxy.local:8080\n"), s("http://proxy.local:8080"));
    assert_eq!(normalize_proxy_url("\u{2003}host:1\u{3000}"), s("http://host:1"));
}

#[test]
fn normalize_keeps_explicit_scheme() {
    assert_eq!(normalize_proxy_url(" socks5://10.0.0.1:1080 "), s("socks5://10.0.0.1:1080"));
    assert_eq!(normalize_proxy_url("https://p.example:443"), s("https://p.example:443"));
}

#[test]
fn normalize_keeps_inner_whitespace() {
    assert_eq!(normalize_proxy_url(" a b "), s("http://a b"));
}

#[test]
fn normalize_is_idempotent() {
    for raw in ["127.0.0.1:2081", " socks5://h:1 ", "x", "  a://b  "] {
        let once = normalize_proxy_url(raw).unwrap();
        assert_eq!(normalize_proxy_url(&once), Some(once.clone()));
        assert!(once.contains("://"));
    }
}

#[test]
fn env_precedence_order() {
    let mut env = no_env();
    env.http_proxy_lower = s("d:4");
    assert_eq!(env_proxy_url(&env), s("http://d:4"));
    env.http_proxy = s("c:3");
    assert_eq!(env_proxy_url(&env), s("http://c:3"));
    env.https_proxy_lower = s("b:2");
    assert_eq!(env_proxy_url(&env), s("http://b:2"));
    env.https_proxy = s("a:1");
    assert_eq!(env_proxy_url(&env), s("http://a:1"));
}

#[test]
fn env_blank_variable_is_skipped() {
    let mut env = no_env();
    env.https_proxy = s("  ");
    env.https_proxy_lower = s("");
    env.http_proxy = s("c:3");
    assert_eq!(env_proxy_url(&env), s("http://c:3"));
    env.http_proxy = s("\t");
    assert_eq!(env_proxy_url(&env), None);
}

#[test]
fn blank_env_leaves_system_proxy() {
    let mut env = no_env();
    env.https_proxy = s(" ");
    let sys = system(Some(1), Some("sys:2"));
    assert_eq!(detect_proxy_url(&env, Some(&sys)), s("http://sys:2"));
    env.http_proxy_lower = s("late:4");
    assert_eq!(detect_proxy_url(&env, Some(&sys)), s("http://late:4"));
}

#[test]
fn registry_string_supplementary_character() {
    assert_eq!(registry_string_value(&[0xD83D, 0xDE00, 0]), "\u{1F600}");
    assert_eq!(registry_string_value(&[0xDC00, 0xD800]), "\u{FFFD}\u{FFFD}");
}

#[test]
fn env_unset_gives_none() {
    assert_eq!(env_proxy_url(&no_env()), None);
}

#[test]
fn system_proxy_needs_enable_one() {
    assert_eq!(windows_system_proxy(&system(None, Some("h:1"))), None);
    assert_eq!(windows_system_proxy(&system(Some(0), Some("h:1"))), None);
    assert_eq!(windows_system_proxy(&system(Some(2), Some("h:1"))), None);
    assert_eq!(windows_system_proxy(&system(Some(1), Some("h:1"))), s("http://h:1"));
}

#[test]
fn system_proxy_needs_server() {
    assert_eq!(windows_system_proxy(&system(Some(1), None)), None);
    assert_eq!(windows_system_proxy(&system(Some(1), Some(" \t "))), None);
}

#[test]
fn system_proxy_prefers_https_entry() {
    let sys = system(Some(1), Some("http=h:80;https=s:443;ftp=f:21"));
    assert_eq!(windows_system_proxy(&sys), s("http://s:443"));
}

#[test]
fn system_proxy_falls_back_to_http_entry() {
    let sys = system(Some(1), Some("ftp=f:21;http=h:80;http=g:81"));
    assert_eq!(windows_system_proxy(&sys), s("http://h:80"));
}

#[test]
fn system_proxy_whole_value_without_entries() {
    assert_eq!(windows_system_proxy(&system(Some(1), Some("ftp=f:21"))), s("http://ftp=f:21"));
    assert_eq!(
        windows_system_proxy(&system(Some(1), Some("127.0.0.1:2081"))),
        s("http://127.0.0.1:2081")
    );
}

#[test]
fn system_proxy_entry_with_scheme() {
    let sys = system(Some(1), Some("https=https://s:1"));
    assert_eq!(windows_system_proxy(&sys), s("https://s:1"));
}

#[test]
fn system_proxy_blank_https_entry() {
    let sys = system(Some(1), Some("https= ;http=h:80"));
    assert_eq!(windows_system_proxy(&sys), None);
}

#[test]
fn detect_env_wins_over_system() {
    let mut env = no_env();
    env.https_proxy = s("env:1");
    let sys = system(Some(1), Some("sys:2"));
    assert_eq!(detect_proxy_url(&env, Some(&sys)), s("http://env:1"));
}

#[test]
fn detect_falls_back_to_system() {
    let sys = system(Some(1), Some("sys:2"));
    assert_eq!(detect_proxy_url(&no_env(), Some(&sys)), s("http://sys:2"));
}

#[test]
fn detect_nothing_configured() {
    assert_eq!(detect_proxy_url(&no_env(), None), None);
    let sys = system(Some(0), Some("sys:2"));
    assert_eq!(detect_proxy_url(&no_env(), Some(&sys)), None);
}

#[test]
fn registry_string_stops_at_nul() {
    let units: Vec<u16> = "127.0.0.1:2081".encode_utf16().chain([0u16, 65, 66]).collect();
    assert_eq!(registry_string_value(&units), "127.0.0.1:2081");
    let plain: Vec<u16> = "h:1".encode_utf16().collect();
    assert_eq!(registry_string_value(&plain), "h:1");
    assert_eq!(registry_string_value(&[0u16, 72]), "");
    assert_eq!(registry_string_value(&[]), "");
}

#[test]
fn registry_string_replaces_lone_surrogate() {
    assert_eq!(registry_string_value(&[72, 0xD800, 105]), "H\u{FFFD}i");
}
