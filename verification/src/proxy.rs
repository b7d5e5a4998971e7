//! Proxy detection and proxy bypass rules.
//!
//! An explicit environment proxy wins over the Windows user proxy, so that
//! CLI and portable launches stay deterministic while the desktop app still
//! follows the proxy configured in the operating system. `NO_PROXY` /
//! `no_proxy` lists the domains that bypass the proxy; `localhost` and
//! `127.0.0.1` always do.
//!
//! The values read from the process environment and from the registry are
//! handed in as plain values ([`ProxyEnv`], [`SystemProxySettings`]); every
//! decision taken on them is made, and proved, here.

use crate::text::{
    chars_of, contains_chars, ends_with_chars, equal_chars, has_substr, split_chars, split_on,
    starts_with_chars, string_of, strip_all_prefix, strip_all_prefix_chars, sub_chars, trim,
    trim_chars,
};
use vstd::prelude::*;

verus! {

// ===== Inputs =====

/// The proxy-related environment variables, each `None` where it is unset
/// (or not valid Unicode).
pub struct ProxyEnv {
    /// `HTTPS_PROXY`
    pub https_proxy: Option<String>,
    /// `https_proxy`
    pub https_proxy_lower: Option<String>,
    /// `HTTP_PROXY`
    pub http_proxy: Option<String>,
    /// `http_proxy`
    pub http_proxy_lower: Option<String>,
    /// `NO_PROXY`
    pub no_proxy: Option<String>,
    /// `no_proxy`
    pub no_proxy_lower: Option<String>,
}

/// [`ProxyEnv`] with each value taken as its characters.
pub struct ProxyEnvView {
    pub https_proxy: Option<Seq<char>>,
    pub https_proxy_lower: Option<Seq<char>>,
    pub http_proxy: Option<Seq<char>>,
    pub http_proxy_lower: Option<Seq<char>>,
    pub no_proxy: Option<Seq<char>>,
    pub no_proxy_lower: Option<Seq<char>>,
}

impl View for ProxyEnv {
    type V = ProxyEnvView;

    open spec fn view(&self) -> ProxyEnvView {
        ProxyEnvView {
            https_proxy: self.https_proxy.deep_view(),
            https_proxy_lower: self.https_proxy_lower.deep_view(),
            http_proxy: self.http_proxy.deep_view(),
            http_proxy_lower: self.http_proxy_lower.deep_view(),
            no_proxy: self.no_proxy.deep_view(),
            no_proxy_lower: self.no_proxy_lower.deep_view(),
        }
    }
}

/// The user proxy values under the Windows key
/// `Software\Microsoft\Windows\CurrentVersion\Internet Settings`, each
/// `None` where it could not be read.
pub struct SystemProxySettings {
    /// The `ProxyEnable` DWORD.
    pub proxy_enable: Option<u32>,
    /// The `ProxyServer` string.
    pub proxy_server: Option<String>,
}

/// [`SystemProxySettings`] with the server taken as its characters.
pub struct SystemProxyView {
    pub proxy_enable: Option<u32>,
    pub proxy_server: Option<Seq<char>>,
}

impl View for SystemProxySettings {
    type V = SystemProxyView;

    open spec fn view(&self) -> SystemProxyView {
        SystemProxyView {
            proxy_enable: self.proxy_enable,
            proxy_server: self.proxy_server.deep_view(),
        }
    }
}

// ===== Specifications =====

/// `a` where it is set, otherwise `b`.
pub open spec fn first_of<T>(a: Option<T>, b: Option<T>) -> Option<T> {
    match a {
        Some(x) => Some(x),
        None => b,
    }
}

/// A proxy setting turned into a URL: white space around it is dropped, a
/// blank setting gives no URL, and `http://` is put in front of a setting
/// that names no scheme.
pub open spec fn normalized_proxy_url(proxy: Seq<char>) -> Option<Seq<char>> {
    let t = trim(proxy);
    if t.len() == 0 {
        None
    } else if has_substr(t, "://"@) {
        Some(t)
    } else {
        Some("http://"@ + t)
    }
}

/// `v` where it is set and not blank.
pub open spec fn non_blank(v: Option<Seq<char>>) -> Option<Seq<char>> {
    match v {
        Some(s) => if trim(s).len() > 0 {
            Some(s)
        } else {
            None
        },
        None => None,
    }
}

/// The first of `HTTPS_PROXY`, `https_proxy`, `HTTP_PROXY`, `http_proxy`
/// that is set and not blank.
pub open spec fn env_proxy_var(env: ProxyEnvView) -> Option<Seq<char>> {
    first_of(
        first_of(
            first_of(non_blank(env.https_proxy), non_blank(env.https_proxy_lower)),
            non_blank(env.http_proxy),
        ),
        non_blank(env.http_proxy_lower),
    )
}

/// The proxy URL that the environment gives: the first variable that is set
/// and not blank, normalized.
pub open spec fn env_proxy(env: ProxyEnvView) -> Option<Seq<char>> {
    match env_proxy_var(env) {
        Some(v) => normalized_proxy_url(v),
        None => None,
    }
}

/// The rest of the first of `parts` that starts with `prefix`.
pub open spec fn first_stripped(parts: Seq<Seq<char>>, prefix: Seq<char>) -> Option<Seq<char>>
    decreases parts.len(),
{
    if parts.len() == 0 {
        None
    } else if prefix.is_prefix_of(parts[0]) {
        Some(parts[0].skip(prefix.len() as int))
    } else {
        first_stripped(parts.drop_first(), prefix)
    }
}

/// The proxy that a `ProxyServer` value names: the first `https=` entry of
/// its `;`-separated list, else the first `http=` entry, else the whole value.
pub open spec fn selected_server(server: Seq<char>) -> Seq<char> {
    let parts = split_on(server, ';');
    match first_stripped(parts, "https="@) {
        Some(s) => s,
        None => match first_stripped(parts, "http="@) {
            Some(s) => s,
            None => server,
        },
    }
}

/// The proxy URL of the Windows user settings: only where `ProxyEnable` is 1
/// and `ProxyServer` is not blank.
pub open spec fn system_proxy(settings: SystemProxyView) -> Option<Seq<char>> {
    if settings.proxy_enable != Some(1u32) {
        None
    } else {
        match settings.proxy_server {
            None => None,
            Some(server) => if trim(server).len() == 0 {
                None
            } else {
                normalized_proxy_url(selected_server(server))
            },
        }
    }
}

/// The detected proxy URL: the environment's, else the system's.
pub open spec fn detected_proxy(env: ProxyEnvView, system: Option<SystemProxyView>) -> Option<
    Seq<char>,
> {
    match env_proxy(env) {
        Some(p) => Some(p),
        None => match system {
            Some(s) => system_proxy(s),
            None => None,
        },
    }
}

/// The UTF-16 units of a registry string up to, not including, its first NUL.
pub open spec fn before_nul(units: Seq<u16>) -> Seq<u16>
    decreases units.len(),
{
    if units.len() == 0 {
        units
    } else if units[0] == 0 {
        Seq::empty()
    } else {
        seq![units[0]] + before_nul(units.drop_first())
    }
}

/// The view of an optional [`SystemProxySettings`].
pub open spec fn system_view(system: Option<&SystemProxySettings>) -> Option<SystemProxyView> {
    match system {
        Some(s) => Some(s@),
        None => None,
    }
}

/// The raw no-proxy list: `NO_PROXY`, else `no_proxy`, else empty.
pub open spec fn no_proxy_var(env: ProxyEnvView) -> Seq<char> {
    match first_of(env.no_proxy, env.no_proxy_lower) {
        Some(v) => v,
        None => Seq::empty(),
    }
}

/// The entries of a comma-separated list, trimmed, blank ones left out.
pub open spec fn listed_domains(raw: Seq<char>) -> Seq<Seq<char>> {
    trimmed_nonblank(split_on(raw, ','))
}

/// `pieces`, each trimmed, blank ones left out.
pub open spec fn trimmed_nonblank(pieces: Seq<Seq<char>>) -> Seq<Seq<char>> {
    pieces.map_values(|p: Seq<char>| trim(p)).filter(|d: Seq<char>| d.len() > 0)
}

/// `ds` with `d` added at the end unless it is there already.
pub open spec fn push_absent(ds: Seq<Seq<char>>, d: Seq<char>) -> Seq<Seq<char>> {
    if ds.contains(d) {
        ds
    } else {
        ds.push(d)
    }
}

/// The domains that bypass the proxy: those listed in the environment,
/// then `localhost` and `127.0.0.1` unless listed already.
pub open spec fn no_proxy_domains(env: ProxyEnvView) -> Seq<Seq<char>> {
    push_absent(push_absent(listed_domains(no_proxy_var(env)), "localhost"@), "127.0.0.1"@)
}

/// The no-proxy lists a built proxy carries: the raw `NO_PROXY` (else
/// `no_proxy`) list where it is not empty, none otherwise.
pub open spec fn attached_no_proxy(env: ProxyEnvView) -> Seq<Seq<char>> {
    if no_proxy_var(env).len() > 0 {
        seq![no_proxy_var(env)]
    } else {
        Seq::empty()
    }
}

/// `host` without its leading `https://` prefixes, then without its leading
/// `http://` prefixes.
pub open spec fn strip_scheme(host: Seq<char>) -> Seq<char> {
    strip_all_prefix(strip_all_prefix(host, "https://"@), "http://"@)
}

/// `host` is the domain `d` or one of its subdomains.
pub open spec fn matches_domain(host: Seq<char>, d: Seq<char>) -> bool {
    host == d || ("."@ + d).is_suffix_of(host)
}

/// `host` bypasses the proxy under the domain list `domains`.
pub open spec fn bypasses(host: Seq<char>, domains: Seq<Seq<char>>) -> bool {
    exists|i: int| 0 <= i < domains.len() && matches_domain(strip_scheme(host), #[trigger] domains[i])
}

// ===== Outside calls =====

#[verifier::external_type_specification]
#[verifier::external_body]
pub struct ExProxy(reqwest::Proxy);

#[verifier::external_type_specification]
#[verifier::external_body]
pub struct ExNoProxy(reqwest::NoProxy);

/// The target URL that `reqwest::Proxy::all` makes of `url`, serialized:
/// `url` parsed as a URL (or, where the scheme seems missing, parsed again
/// with `http://` in front), with port 1080 filled in for a SOCKS scheme
/// without one; `None` where reqwest refuses `url`.
pub uninterp spec fn proxy_target_of(url: Seq<char>) -> Option<Seq<char>>;

/// The target URL a `reqwest::Proxy` sends all traffic to, serialized.
pub uninterp spec fn proxy_target(proxy: reqwest::Proxy) -> Seq<char>;

/// The list a `reqwest::NoProxy` holds: `NoProxy::from_string` keeps its
/// argument as it is and parses it only when the proxy is used.
pub uninterp spec fn no_proxy_list(no_proxy: reqwest::NoProxy) -> Seq<char>;

/// The no-proxy lists a `reqwest::Proxy` carries: none, or the one list of
/// the `NoProxy` it was given.
pub uninterp spec fn proxy_no_proxy_lists(proxy: reqwest::Proxy) -> Seq<Seq<char>>;

/// `reqwest::Proxy::all`: a proxy sending all traffic to the target that
/// reqwest makes of `url`; `None` exactly where reqwest refuses `url`. A new
/// proxy carries no no-proxy list (`Proxy::new` sets it to `None`).
#[verifier::external_body]
fn proxy_all(url: &str) -> (r: Option<reqwest::Proxy>)
    ensures
        r is Some <==> proxy_target_of(url@) is Some,
        r matches Some(p) ==> proxy_target_of(url@) == Some(proxy_target(p)),
        r matches Some(p) ==> proxy_no_proxy_lists(p) == Seq::<Seq<char>>::empty(),
{
    reqwest::Proxy::all(url).ok()
}

/// `reqwest::NoProxy::from_string`: a no-proxy configuration holding `list`;
/// reqwest 0.12 always returns one (it stores the list and parses it lazily).
#[verifier::external_body]
fn no_proxy_from_string(list: &str) -> (r: Option<reqwest::NoProxy>)
    ensures
        r is Some,
        r matches Some(n) ==> no_proxy_list(n) == list@,
{
    reqwest::NoProxy::from_string(list)
}

/// `reqwest::Proxy::no_proxy`: the proxy with its no-proxy configuration
/// replaced by `no_proxy`; its target is kept.
#[verifier::external_body]
fn proxy_with_no_proxy(proxy: reqwest::Proxy, no_proxy: Option<reqwest::NoProxy>) -> (r:
    reqwest::Proxy)
    ensures
        proxy_target(r) == proxy_target(proxy),
        proxy_no_proxy_lists(r) == match no_proxy {
            Some(n) => seq![no_proxy_list(n)],
            None => Seq::<Seq<char>>::empty(),
        },
{
    proxy.no_proxy(no_proxy)
}

/// UTF-16 decoding with each unpaired surrogate replaced by U+FFFD: a unit
/// outside 0xD800..=0xDFFF is its own character; a high surrogate followed by
/// a low one makes one supplementary character; any other surrogate unit
/// becomes U+FFFD, and decoding goes on with the next unit.
pub open spec fn utf16_lossy(units: Seq<u16>) -> Seq<char>
    decreases units.len(),
{
    if units.len() == 0 {
        Seq::empty()
    } else {
        let u = units[0];
        if u < 0xD800 || u > 0xDFFF {
            seq![u as char] + utf16_lossy(units.drop_first())
        } else if u <= 0xDBFF && units.len() >= 2 && 0xDC00 <= units[1] <= 0xDFFF {
            let c = 0x10000 + (u - 0xD800) * 0x400 + (units[1] - 0xDC00);
            seq![c as char] + utf16_lossy(units.skip(2))
        } else {
            seq!['\u{FFFD}'] + utf16_lossy(units.drop_first())
        }
    }
}

/// `String::from_utf16_lossy` (std): decodes UTF-16, replacing each unpaired
/// surrogate by U+FFFD (`utf16_lossy`).
#[verifier::external_body]
fn decode_utf16_lossy(units: &[u16]) -> (s: String)
    ensures
        s@ == utf16_lossy(units@),
{
    String::from_utf16_lossy(units)
}

// ===== Lemmas =====

proof fn lemma_before_nul_at(units: Seq<u16>, i: int)
    requires
        0 <= i <= units.len(),
        forall|k: int| 0 <= k < i ==> #[trigger] units[k] != 0,
        i == units.len() || units[i] == 0,
    ensures
        before_nul(units) == units.take(i),
    decreases i,
{
    if i == 0 {
        assert(units.take(0) =~= Seq::<u16>::empty());
        if units.len() == 0 {
            assert(units =~= Seq::<u16>::empty());
        }
    } else {
        let t = units.drop_first();
        assert forall|k: int| 0 <= k < i - 1 implies #[trigger] t[k] != 0 by {
            assert(t[k] == units[k + 1]);
        }
        lemma_before_nul_at(t, i - 1);
        assert(seq![units[0]] + t.take(i - 1) =~= units.take(i));
    }
}

pub proof fn lemma_first_stripped_skip(parts: Seq<Seq<char>>, prefix: Seq<char>, k: int)
    requires
        0 <= k <= parts.len(),
        forall|m: int| 0 <= m < k ==> !prefix.is_prefix_of(#[trigger] parts[m]),
    ensures
        first_stripped(parts, prefix) == first_stripped(parts.skip(k), prefix),
    decreases k,
{
    if k == 0 {
        assert(parts.skip(0) =~= parts);
    } else {
        assert(!prefix.is_prefix_of(parts[0]));
        let t = parts.drop_first();
        assert forall|m: int| 0 <= m < k - 1 implies !prefix.is_prefix_of(#[trigger] t[m]) by {
            assert(t[m] == parts[m + 1]);
        }
        lemma_first_stripped_skip(t, prefix, k - 1);
        assert(t.skip(k - 1) =~= parts.skip(k));
    }
}

// ===== Executable functions =====

fn first_set(a: &Option<String>, b: &Option<String>) -> (r: Option<String>)
    ensures
        r.deep_view() == first_of(a.deep_view(), b.deep_view()),
{
    match a {
        Some(v) => Some(v.clone()),
        None => match b {
            Some(v) => Some(v.clone()),
            None => None,
        },
    }
}

/// Turns a proxy setting into a URL: `None` for a blank setting, the trimmed
/// setting where it names a scheme (`://`), else the trimmed setting behind
/// `http://`.
pub fn normalize_proxy_url(proxy: &str) -> (r: Option<String>)
    ensures
        r.deep_view() == normalized_proxy_url(proxy@),
{
    let v = chars_of(proxy);
    let t = trim_chars(&v);
    if t.len() == 0 {
        return None;
    }
    let sep = chars_of("://");
    if contains_chars(&t, &sep) {
        Some(string_of(&t))
    } else {
        let mut url = chars_of("http://");
        let ghost scheme = url@;
        let mut i: usize = 0;
        while i < t.len()
            invariant
                i <= t.len(),
                url@ == scheme + t@.take(i as int),
            decreases t.len() - i,
        {
            url.push(t[i]);
            assert(t@.take(i as int).push(t@[i as int]) =~= t@.take(i + 1));
            assert(scheme + t@.take(i + 1) =~= (scheme + t@.take(i as int)).push(t@[i as int]));
            i = i + 1;
        }
        assert(t@.take(t.len() as int) =~= t@);
        Some(string_of(&url))
    }
}

fn normalized_var(v: &Option<String>) -> (r: Option<String>)
    ensures
        r.deep_view() == match non_blank(v.deep_view()) {
            Some(s) => normalized_proxy_url(s),
            None => None,
        },
{
    match v {
        Some(s) => normalize_proxy_url(s.as_str()),
        None => None,
    }
}

/// The proxy URL that the environment gives: the first that is set and not
/// blank of `HTTPS_PROXY`, `https_proxy`, `HTTP_PROXY`, `http_proxy`,
/// normalized.
pub fn env_proxy_url(env: &ProxyEnv) -> (r: Option<String>)
    ensures
        r.deep_view() == env_proxy(env@),
{
    let a = normalized_var(&env.https_proxy);
    if a.is_some() {
        return a;
    }
    let b = normalized_var(&env.https_proxy_lower);
    if b.is_some() {
        return b;
    }
    let c = normalized_var(&env.http_proxy);
    if c.is_some() {
        return c;
    }
    normalized_var(&env.http_proxy_lower)
}

fn first_stripped_chars(parts: &Vec<Vec<char>>, prefix: &Vec<char>, Ghost(ps): Ghost<
    Seq<Seq<char>>,
>) -> (r: Option<Vec<char>>)
    requires
        ps.len() == parts.len(),
        forall|k: int| 0 <= k < parts.len() ==> #[trigger] parts[k]@ == ps[k],
    ensures
        r matches Some(v) ==> first_stripped(ps, prefix@) == Some(v@),
        r is None ==> first_stripped(ps, prefix@) is None,
{
    let mut k: usize = 0;
    while k < parts.len()
        invariant
            k <= parts.len() == ps.len(),
            forall|m: int| 0 <= m < parts.len() ==> #[trigger] parts[m]@ == ps[m],
            forall|m: int| 0 <= m < k ==> !prefix@.is_prefix_of(#[trigger] ps[m]),
        decreases parts.len() - k,
    {
        if starts_with_chars(&parts[k], prefix) {
            proof {
                lemma_first_stripped_skip(ps, prefix@, k as int);
                assert(ps.skip(k as int)[0] == ps[k as int]);
            }
            let n = parts[k].len();
            let rest = sub_chars(&parts[k], prefix.len(), n);
            assert(rest@ =~= ps[k as int].skip(prefix.len() as int));
            return Some(rest);
        }
        k = k + 1;
    }
    proof {
        lemma_first_stripped_skip(ps, prefix@, k as int);
    }
    None
}

/// The text of a registry string value given as its UTF-16 units: the units
/// before the first NUL, decoded with unpaired surrogates replaced.
pub fn registry_string_value(units: &[u16]) -> (s: String)
    ensures
        s@ == utf16_lossy(before_nul(units@)),
{
    let mut i: usize = 0;
    while i < units.len() && units[i] != 0
        invariant
            i <= units.len(),
            forall|k: int| 0 <= k < i ==> #[trigger] units@[k] != 0,
        decreases units.len() - i,
    {
        i = i + 1;
    }
    proof {
        lemma_before_nul_at(units@, i as int);
    }
    let mut kept: Vec<u16> = Vec::new();
    let mut j: usize = 0;
    while j < i
        invariant
            j <= i <= units.len(),
            kept@ == units@.take(j as int),
        decreases i - j,
    {
        kept.push(units[j]);
        assert(units@.take(j as int).push(units@[j as int]) =~= units@.take(j + 1));
        j = j + 1;
    }
    decode_utf16_lossy(kept.as_slice())
}

/// The proxy URL of the Windows user settings: none unless `ProxyEnable` is 1
/// and `ProxyServer` is not blank; then the first `https=` entry of the
/// `;`-separated server list, else the first `http=` entry, else the whole
/// value, normalized.
pub fn windows_system_proxy(settings: &SystemProxySettings) -> (r: Option<String>)
    ensures
        r.deep_view() == system_proxy(settings@),
{
    let enabled = match settings.proxy_enable {
        Some(n) => n == 1,
        None => false,
    };
    if !enabled {
        return None;
    }
    let server = match &settings.proxy_server {
        Some(s) => chars_of(s.as_str()),
        None => {
            return None;
        },
    };
    let blank = trim_chars(&server);
    if blank.len() == 0 {
        return None;
    }
    let parts = split_chars(&server, ';');
    let ghost ps = split_on(server@, ';');
    let https = chars_of("https=");
    let http = chars_of("http=");
    let selected = match first_stripped_chars(&parts, &https, Ghost(ps)) {
        Some(s) => s,
        None => match first_stripped_chars(&parts, &http, Ghost(ps)) {
            Some(s) => s,
            None => server,
        },
    };
    let text = string_of(&selected);
    normalize_proxy_url(text.as_str())
}

/// The proxy URL to use: the environment's where it gives one, else the
/// Windows user proxy (`system`, which is `None` off Windows or where the
/// registry key could not be opened).
pub fn detect_proxy_url(env: &ProxyEnv, system: Option<&SystemProxySettings>) -> (r: Option<
    String,
>)
    ensures
        r.deep_view() == detected_proxy(env@, system_view(system)),
{
    match env_proxy_url(env) {
        Some(p) => Some(p),
        None => match system {
            Some(s) => windows_system_proxy(s),
            None => None,
        },
    }
}

fn no_proxy_var_chars(env: &ProxyEnv) -> (r: Vec<char>)
    ensures
        r@ == no_proxy_var(env@),
{
    match first_set(&env.no_proxy, &env.no_proxy_lower) {
        Some(v) => chars_of(v.as_str()),
        None => Vec::new(),
    }
}

fn contains_entry(ds: &Vec<Vec<char>>, d: &Vec<char>, Ghost(gs): Ghost<Seq<Seq<char>>>) -> (r:
    bool)
    requires
        gs.len() == ds.len(),
        forall|k: int| 0 <= k < ds.len() ==> #[trigger] ds[k]@ == gs[k],
    ensures
        r == gs.contains(d@),
{
    let mut k: usize = 0;
    while k < ds.len()
        invariant
            k <= ds.len() == gs.len(),
            forall|m: int| 0 <= m < ds.len() ==> #[trigger] ds[m]@ == gs[m],
            forall|m: int| 0 <= m < k ==> gs[m] != d@,
        decreases ds.len() - k,
    {
        if equal_chars(&ds[k], d) {
            assert(gs[k as int] == d@);
            return true;
        }
        k = k + 1;
    }
    false
}

fn no_proxy_domain_chars(env: &ProxyEnv) -> (r: (Vec<Vec<char>>, Ghost<Seq<Seq<char>>>))
    ensures
        r.1@ == no_proxy_domains(env@),
        r.0.len() == r.1@.len(),
        forall|k: int| 0 <= k < r.0.len() ==> #[trigger] r.0[k]@ == r.1@[k],
{
    let raw = no_proxy_var_chars(env);
    let parts = split_chars(&raw, ',');
    let ghost ps = split_on(raw@, ',');
    let mut out: Vec<Vec<char>> = Vec::new();
    let ghost mut gs: Seq<Seq<char>> = Seq::empty();
    let mut k: usize = 0;
    proof {
        reveal(Seq::filter);
        assert(ps.take(0).map_values(|p: Seq<char>| trim(p)) =~= Seq::<Seq<char>>::empty());
    }
    while k < parts.len()
        invariant
            k <= parts.len() == ps.len(),
            forall|m: int| 0 <= m < parts.len() ==> #[trigger] parts[m]@ == ps[m],
            gs == trimmed_nonblank(ps.take(k as int)),
            gs.len() == out.len(),
            forall|m: int| 0 <= m < out.len() ==> #[trigger] out[m]@ == gs[m],
        decreases parts.len() - k,
    {
        assert(parts[k as int]@ == ps[k as int]);
        let t = trim_chars(&parts[k]);
        let ghost prev = ps.take(k as int).map_values(|p: Seq<char>| trim(p));
        let ghost next = ps.take(k + 1).map_values(|p: Seq<char>| trim(p));
        assert(next =~= prev.push(trim(ps[k as int])));
        assert(next.drop_last() =~= prev);
        assert(t@ == trim(ps[k as int]));
        if t.len() > 0 {
            out.push(t);
            proof {
                gs = gs.push(t@);
            }
        }
        assert(gs == trimmed_nonblank(ps.take(k + 1))) by {
            reveal(Seq::filter);
            assert(next.last() == t@);
        }
        k = k + 1;
    }
    assert(ps.take(ps.len() as int) =~= ps);
    let ghost listed = gs;
    let localhost = chars_of("localhost");
    if !contains_entry(&out, &localhost, Ghost(gs)) {
        out.push(localhost);
        proof {
            gs = gs.push("localhost"@);
        }
    }
    assert(gs == push_absent(listed, "localhost"@));
    let ghost with_localhost = gs;
    let loopback = chars_of("127.0.0.1");
    if !contains_entry(&out, &loopback, Ghost(gs)) {
        out.push(loopback);
        proof {
            gs = gs.push("127.0.0.1"@);
        }
    }
    assert(gs == push_absent(with_localhost, "127.0.0.1"@));
    (out, Ghost(gs))
}

/// The domains that bypass the proxy: the comma-separated entries of
/// `NO_PROXY` (else `no_proxy`), trimmed, blank ones left out, then
/// `localhost` and `127.0.0.1` unless listed already.
pub fn get_no_proxy_domains(env: &ProxyEnv) -> (r: Vec<String>)
    ensures
        r@.map_values(|s: String| s@) == no_proxy_domains(env@),
{
    let found = no_proxy_domain_chars(env);
    let ds = found.0;
    let ghost gs = found.1@;
    let mut out: Vec<String> = Vec::new();
    let mut k: usize = 0;
    while k < ds.len()
        invariant
            k <= ds.len() == gs.len(),
            forall|m: int| 0 <= m < ds.len() ==> #[trigger] ds[m]@ == gs[m],
            out@.map_values(|s: String| s@) == gs.take(k as int),
        decreases ds.len() - k,
    {
        let s = string_of(&ds[k]);
        let ghost before = out@;
        out.push(s);
        assert(out@ =~= before.push(s));
        assert(out@.map_values(|s: String| s@) =~= before.map_values(|s: String| s@).push(s@));
        assert(gs.take(k + 1) =~= gs.take(k as int).push(gs[k as int]));
        k = k + 1;
    }
    assert(gs.take(gs.len() as int) =~= gs);
    out
}

/// Whether requests to `host` bypass the proxy: after dropping leading
/// `https://` and then `http://` prefixes, `host` is one of the no-proxy
/// domains or a subdomain of one.
pub fn should_bypass_proxy(host: &str, env: &ProxyEnv) -> (r: bool)
    ensures
        r == bypasses(host@, no_proxy_domains(env@)),
{
    let found = no_proxy_domain_chars(env);
    let ds = found.0;
    let ghost gs = found.1@;
    let h0 = chars_of(host);
    let https = chars_of("https://");
    let http = chars_of("http://");
    proof {
        reveal_strlit("https://");
        reveal_strlit("http://");
    }
    let h1 = strip_all_prefix_chars(&h0, &https);
    let h = strip_all_prefix_chars(&h1, &http);
    let dot = chars_of(".");
    let mut k: usize = 0;
    while k < ds.len()
        invariant
            k <= ds.len() == gs.len(),
            forall|m: int| 0 <= m < ds.len() ==> #[trigger] ds[m]@ == gs[m],
            h@ == strip_scheme(host@),
            gs == no_proxy_domains(env@),
            dot@ == "."@,
            forall|m: int| 0 <= m < k ==> !matches_domain(h@, #[trigger] gs[m]),
        decreases ds.len() - k,
    {
        let d = &ds[k];
        if equal_chars(&h, d) {
            assert(matches_domain(strip_scheme(host@), gs[k as int]));
            assert(bypasses(host@, gs));
            return true;
        }
        let mut suffix = sub_chars(&dot, 0, dot.len());
        let mut i: usize = 0;
        while i < d.len()
            invariant
                i <= d.len(),
                suffix@ == dot@ + d@.take(i as int),
            decreases d.len() - i,
        {
            suffix.push(d[i]);
            assert(d@.take(i as int).push(d@[i as int]) =~= d@.take(i + 1));
            assert(dot@ + d@.take(i + 1) =~= (dot@ + d@.take(i as int)).push(d@[i as int]));
            i = i + 1;
        }
        assert(d@.take(d.len() as int) =~= d@);
        if ends_with_chars(&h, &suffix) {
            assert(matches_domain(strip_scheme(host@), gs[k as int]));
            assert(bypasses(host@, gs));
            return true;
        }
        k = k + 1;
    }
    false
}

/// A reqwest proxy sending all traffic to the target reqwest makes of
/// `proxy_url`, with the raw `NO_PROXY`
/// (else `no_proxy`) list attached where that list is not empty; `None` where
/// reqwest refuses the URL.
pub fn build_reqwest_proxy(proxy_url: &str, env: &ProxyEnv) -> (r: Option<reqwest::Proxy>)
    ensures
        r is Some <==> proxy_target_of(proxy_url@) is Some,
        r matches Some(p) ==> proxy_target_of(proxy_url@) == Some(proxy_target(p)),
        r matches Some(p) ==> proxy_no_proxy_lists(p) == attached_no_proxy(env@),
{
    let proxy = match proxy_all(proxy_url) {
        Some(p) => p,
        None => {
            return None;
        },
    };
    let raw = no_proxy_var_chars(env);
    if raw.len() > 0 {
        let list = string_of(&raw);
        match no_proxy_from_string(list.as_str()) {
            Some(no_proxy) => {
                return Some(proxy_with_no_proxy(proxy, Some(no_proxy)));
            },
            None => {},
        }
    }
    Some(proxy)
}

} // verus!
