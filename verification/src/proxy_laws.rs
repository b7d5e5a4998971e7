//! Properties of proxy detection and proxy bypass that hold for every input,
//! stated over the specifications that the functions of `proxy` meet.

use crate::proxy::{
    bypasses, detected_proxy, env_proxy, listed_domains, matches_domain, no_proxy_domains,
    no_proxy_var, normalized_proxy_url, push_absent, strip_scheme, trimmed_nonblank,
    ProxyEnvView, SystemProxyView,
};
use crate::text::{
    has_substr, lemma_split_nonempty, lemma_trim_edges, lemma_trim_of_clean, split_on,
    strip_all_prefix, trim,
};
use vstd::prelude::*;

verus! {

/// A normalized proxy URL always names a scheme (`://`), and normalizing it
/// again gives it back unchanged.
pub proof fn lemma_normalize_idempotent(proxy: Seq<char>)
    ensures
        normalized_proxy_url(proxy) matches Some(u) ==> has_substr(u, "://"@)
            && normalized_proxy_url(u) == Some(u),
{
    reveal_strlit("://");
    reveal_strlit("http://");
    let t = trim(proxy);
    lemma_trim_edges(proxy);
    if t.len() > 0 {
        if has_substr(t, "://"@) {
            lemma_trim_of_clean(t);
        } else {
            let u = "http://"@ + t;
            assert(u.subrange(4int, 4int + "://"@.len()) =~= "://"@);
            assert(has_substr(u, "://"@));
            assert(u[0] == 'h');
            assert(u.last() == t.last());
            lemma_trim_of_clean(u);
        }
    }
}

/// A proxy URL taken from the environment wins over the system proxy,
/// whatever the system settings are.
pub proof fn lemma_env_takes_precedence(env: ProxyEnvView, system: Option<SystemProxyView>)
    requires
        env_proxy(env) is Some,
    ensures
        detected_proxy(env, system) == env_proxy(env),
{
}

/// An environment variable that is set and not blank always yields the
/// detected proxy: the first such one of `HTTPS_PROXY`, `https_proxy`,
/// `HTTP_PROXY`, `http_proxy`, normalized, whatever the system settings are.
pub proof fn lemma_non_blank_env_wins(env: ProxyEnvView, system: Option<SystemProxyView>)
    requires
        crate::proxy::env_proxy_var(env) is Some,
    ensures
        env_proxy(env) is Some,
        detected_proxy(env, system) == normalized_proxy_url(
            crate::proxy::env_proxy_var(env).unwrap(),
        ),
{
}

/// Without a system proxy, the detected proxy is exactly the environment's.
pub proof fn lemma_no_system_proxy(env: ProxyEnvView)
    ensures
        detected_proxy(env, None) == env_proxy(env),
{
}

/// Every detected proxy URL names a scheme.
pub proof fn lemma_detected_has_scheme(env: ProxyEnvView, system: Option<SystemProxyView>)
    ensures
        detected_proxy(env, system) matches Some(u) ==> has_substr(u, "://"@),
{
    match crate::proxy::env_proxy_var(env) {
        Some(v) => lemma_normalize_idempotent(v),
        None => {},
    }
    match system {
        Some(s) => match s.proxy_server {
            Some(server) => lemma_normalize_idempotent(crate::proxy::selected_server(server)),
            None => {},
        },
        None => {},
    }
}

proof fn lemma_push_absent_keeps(ds: Seq<Seq<char>>, d: Seq<char>, e: Seq<char>)
    ensures
        push_absent(ds, d).contains(d),
        ds.contains(e) ==> push_absent(ds, d).contains(e),
        (forall|i: int| 0 <= i < ds.len() ==> (#[trigger] ds[i]).len() > 0) && d.len() > 0
            ==> forall|i: int|
            0 <= i < push_absent(ds, d).len() ==> (#[trigger] push_absent(ds, d)[i]).len() > 0,
{
    if !ds.contains(d) {
        assert(ds.push(d)[ds.len() as int] == d);
        if ds.contains(e) {
            let i = choose|i: int| 0 <= i < ds.len() && ds[i] == e;
            assert(ds.push(d)[i] == e);
        }
    }
}

/// The no-proxy domains always include `localhost` and `127.0.0.1`, and
/// none of them is empty.
pub proof fn lemma_no_proxy_defaults(env: ProxyEnvView)
    ensures
        no_proxy_domains(env).contains("localhost"@),
        no_proxy_domains(env).contains("127.0.0.1"@),
        forall|i: int|
            0 <= i < no_proxy_domains(env).len() ==> (#[trigger] no_proxy_domains(env)[i]).len()
                > 0,
{
    reveal_strlit("localhost");
    reveal_strlit("127.0.0.1");
    let listed = listed_domains(no_proxy_var(env));
    assert forall|i: int| 0 <= i < listed.len() implies (#[trigger] listed[i]).len() > 0 by {
        split_on(no_proxy_var(env), ',').map_values(|p: Seq<char>| trim(p)).lemma_filter_pred(
            |d: Seq<char>| d.len() > 0,
            i,
        );
    }
    let with_localhost = push_absent(listed, "localhost"@);
    lemma_push_absent_keeps(listed, "localhost"@, "localhost"@);
    lemma_push_absent_keeps(with_localhost, "127.0.0.1"@, "localhost"@);
}

/// Each entry of the `NO_PROXY` list that is not blank is, trimmed, one of
/// the no-proxy domains.
pub proof fn lemma_listed_entry_kept(env: ProxyEnvView, i: int)
    requires
        0 <= i < split_on(no_proxy_var(env), ',').len(),
        trim(split_on(no_proxy_var(env), ',')[i]).len() > 0,
    ensures
        no_proxy_domains(env).contains(trim(split_on(no_proxy_var(env), ',')[i])),
{
    let pieces = split_on(no_proxy_var(env), ',');
    let trimmed = pieces.map_values(|p: Seq<char>| trim(p));
    let d = trim(pieces[i]);
    assert(trimmed[i] == d);
    trimmed.lemma_filter_contains(|x: Seq<char>| x.len() > 0, i);
    assert(trimmed_nonblank(pieces).contains(d));
    let listed = listed_domains(no_proxy_var(env));
    lemma_push_absent_keeps(listed, "localhost"@, d);
    lemma_push_absent_keeps(push_absent(listed, "localhost"@), "127.0.0.1"@, d);
}

/// A host given without scheme bypasses the proxy when it is one of the
/// no-proxy domains or a subdomain of one.
pub proof fn lemma_listed_domain_bypassed(env: ProxyEnvView, host: Seq<char>, d: Seq<char>)
    requires
        no_proxy_domains(env).contains(d),
        !"https://"@.is_prefix_of(host),
        !"http://"@.is_prefix_of(host),
        matches_domain(host, d),
    ensures
        bypasses(host, no_proxy_domains(env)),
{
    let ds = no_proxy_domains(env);
    assert(strip_all_prefix(host, "https://"@) == host);
    assert(strip_all_prefix(host, "http://"@) == host);
    assert(strip_scheme(host) == host);
    let i = choose|i: int| 0 <= i < ds.len() && ds[i] == d;
    assert(matches_domain(strip_scheme(host), ds[i]));
}

/// `localhost` and `127.0.0.1` always bypass the proxy.
pub proof fn lemma_loopback_bypassed(env: ProxyEnvView)
    ensures
        bypasses("localhost"@, no_proxy_domains(env)),
        bypasses("127.0.0.1"@, no_proxy_domains(env)),
{
    reveal_strlit("localhost");
    reveal_strlit("127.0.0.1");
    reveal_strlit("https://");
    reveal_strlit("http://");
    lemma_no_proxy_defaults(env);
    assert("localhost"@[0] != "https://"@[0]);
    assert("127.0.0.1"@[0] != "https://"@[0]);
    assert("localhost"@[0] != "http://"@[0]);
    assert("127.0.0.1"@[0] != "http://"@[0]);
    lemma_listed_domain_bypassed(env, "localhost"@, "localhost"@);
    lemma_listed_domain_bypassed(env, "127.0.0.1"@, "127.0.0.1"@);
}

/// A host written with an `https://` scheme bypasses the proxy exactly when
/// the bare host does.
pub proof fn lemma_https_scheme_ignored(host: Seq<char>, domains: Seq<Seq<char>>)
    ensures
        bypasses("https://"@ + host, domains) == bypasses(host, domains),
{
    reveal_strlit("https://");
    let s = "https://"@ + host;
    assert("https://"@.is_prefix_of(s)) by {
        assert(s.subrange(0, 8) =~= "https://"@);
    }
    assert(s.skip(8) =~= host);
    assert(strip_all_prefix(s, "https://"@) == strip_all_prefix(host, "https://"@));
    assert(strip_scheme(s) == strip_scheme(host));
}

proof fn lemma_push_absent_only(ds: Seq<Seq<char>>, d: Seq<char>, e: Seq<char>)
    requires
        push_absent(ds, d).contains(e),
    ensures
        ds.contains(e) || e == d,
{
    if !ds.contains(d) {
        let i = choose|i: int| 0 <= i < ds.len() + 1 && ds.push(d)[i] == e;
        if i < ds.len() {
            assert(ds[i] == e);
        }
    }
}

/// Splitting `a`, a separator and `m` gives the pieces of `a` followed by the
/// pieces of `m`.
pub proof fn lemma_split_append(a: Seq<char>, sep: char, m: Seq<char>)
    ensures
        split_on(a + seq![sep] + m, sep) == split_on(a, sep) + split_on(m, sep),
    decreases m.len(),
{
    let s = a + seq![sep] + m;
    let pa = split_on(a, sep);
    if m.len() == 0 {
        assert(s.drop_last() =~= a);
        assert(s.last() == sep);
        assert(pa.push(Seq::<char>::empty()) =~= pa + seq![Seq::<char>::empty()]);
    } else {
        let m0 = m.drop_last();
        lemma_split_append(a, sep, m0);
        assert(s.drop_last() =~= a + seq![sep] + m0);
        assert(s.last() == m.last());
        lemma_split_nonempty(m0, sep);
        let pm = split_on(m0, sep);
        if m.last() == sep {
            assert((pa + pm).push(Seq::<char>::empty()) =~= pa + pm.push(Seq::<char>::empty()));
        } else {
            let x = pa + pm;
            assert(x.last() == pm.last());
            assert(x.update(x.len() - 1, x.last().push(m.last())) =~= pa + pm.update(
                pm.len() - 1,
                pm.last().push(m.last()),
            ));
        }
    }
}

/// Entries added to the end of the no-proxy list never take a bypass away:
/// a host that bypasses the proxy still does once `,` and more entries
/// follow the list.
pub proof fn lemma_more_no_proxy_entries_keep_bypass(
    env: ProxyEnvView,
    more: Seq<char>,
    host: Seq<char>,
)
    requires
        bypasses(host, no_proxy_domains(env)),
    ensures
        bypasses(
            host,
            no_proxy_domains(
                ProxyEnvView { no_proxy: Some(no_proxy_var(env) + seq![','] + more), ..env },
            ),
        ),
{
    let env2 = ProxyEnvView { no_proxy: Some(no_proxy_var(env) + seq![','] + more), ..env };
    let raw = no_proxy_var(env);
    assert(no_proxy_var(env2) == raw + seq![','] + more);
    lemma_split_append(raw, ',', more);
    let f = |p: Seq<char>| trim(p);
    let keep = |d: Seq<char>| d.len() > 0;
    let sa = split_on(raw, ',');
    let sm = split_on(more, ',');
    assert((sa + sm).map_values(f) =~= sa.map_values(f) + sm.map_values(f));
    Seq::filter_distributes_over_add(sa.map_values(f), sm.map_values(f), keep);
    let l1 = listed_domains(raw);
    let l2 = listed_domains(no_proxy_var(env2));
    assert(l2 == l1 + trimmed_nonblank(sm));
    let d1 = no_proxy_domains(env);
    let d2 = no_proxy_domains(env2);
    let h = crate::proxy::strip_scheme(host);
    let i = choose|i: int| 0 <= i < d1.len() && matches_domain(h, #[trigger] d1[i]);
    let e = d1[i];
    assert(d1.contains(e));
    let lh = "localhost"@;
    let lo = "127.0.0.1"@;
    lemma_push_absent_only(push_absent(l1, lh), lo, e);
    if push_absent(l1, lh).contains(e) {
        lemma_push_absent_only(l1, lh, e);
    }
    if l1.contains(e) {
        let k = choose|k: int| 0 <= k < l1.len() && l1[k] == e;
        assert(l2[k] == e);
        assert(l2.contains(e));
    }
    lemma_push_absent_keeps(l2, lh, e);
    lemma_push_absent_keeps(push_absent(l2, lh), lo, e);
    lemma_push_absent_keeps(l2, lh, lh);
    lemma_push_absent_keeps(push_absent(l2, lh), lo, lh);
    assert(d2.contains(e));
    let j = choose|j: int| 0 <= j < d2.len() && d2[j] == e;
    assert(matches_domain(h, d2[j]));
}

// ===== Behaviour stated against the literal rules =====

/// A non-blank proxy setting keeps all its text: the URL ends with the
/// trimmed setting; it is the trimmed setting itself where that names a
/// scheme (`://`), else exactly `http://` followed by it. A blank setting
/// gives no URL.
pub proof fn lemma_normalize_keeps_setting(proxy: Seq<char>)
    ensures
        trim(proxy).len() == 0 ==> normalized_proxy_url(proxy) is None,
        trim(proxy).len() > 0 ==> (normalized_proxy_url(proxy) matches Some(u)
            && trim(proxy).is_suffix_of(u)),
        trim(proxy).len() > 0 && has_substr(trim(proxy), "://"@) ==> normalized_proxy_url(proxy)
            == Some(trim(proxy)),
        trim(proxy).len() > 0 && !has_substr(trim(proxy), "://"@) ==> normalized_proxy_url(proxy)
            == Some("http://"@ + trim(proxy)),
{
    let t = trim(proxy);
    let u = "http://"@ + t;
    assert(u.subrange(u.len() - t.len(), u.len() as int) =~= t);
    assert(t.subrange(0, t.len() as int) =~= t);
}

/// With `ProxyEnable` other than 1, or no `ProxyServer`, or a blank one, the
/// Windows user settings give no proxy.
pub proof fn lemma_system_proxy_off(settings: SystemProxyView)
    ensures
        settings.proxy_enable != Some(1u32) ==> crate::proxy::system_proxy(settings) is None,
        settings.proxy_server is None ==> crate::proxy::system_proxy(settings) is None,
        (settings.proxy_server matches Some(s) && trim(s).len() == 0) ==> crate::proxy::system_proxy(
            settings,
        ) is None,
{
}

/// The enabled Windows user settings with `server` as `ProxyServer`.
pub open spec fn enabled_with(server: Seq<char>) -> SystemProxyView {
    SystemProxyView { proxy_enable: Some(1u32), proxy_server: Some(server) }
}

/// Where an entry of the `;`-separated `ProxyServer` list starts with
/// `https=`, the proxy is the normalized rest of the first such entry.
pub proof fn lemma_system_proxy_https_entry(server: Seq<char>, i: int)
    requires
        trim(server).len() > 0,
        0 <= i < split_on(server, ';').len(),
        "https="@.is_prefix_of(split_on(server, ';')[i]),
        forall|j: int| 0 <= j < i ==> !"https="@.is_prefix_of(#[trigger] split_on(server, ';')[j]),
    ensures
        crate::proxy::system_proxy(enabled_with(server)) == normalized_proxy_url(
            split_on(server, ';')[i].skip(6),
        ),
{
    reveal_strlit("https=");
    let ps = split_on(server, ';');
    crate::proxy::lemma_first_stripped_skip(ps, "https="@, i);
    assert(ps.skip(i)[0] == ps[i]);
}

/// Where no entry starts with `https=` but one starts with `http=`, the proxy
/// is the normalized rest of the first entry that starts with `http=`.
pub proof fn lemma_system_proxy_http_entry(server: Seq<char>, i: int)
    requires
        trim(server).len() > 0,
        0 <= i < split_on(server, ';').len(),
        forall|j: int|
            0 <= j < split_on(server, ';').len() ==> !"https="@.is_prefix_of(
                #[trigger] split_on(server, ';')[j],
            ),
        "http="@.is_prefix_of(split_on(server, ';')[i]),
        forall|j: int| 0 <= j < i ==> !"http="@.is_prefix_of(#[trigger] split_on(server, ';')[j]),
    ensures
        crate::proxy::system_proxy(enabled_with(server)) == normalized_proxy_url(
            split_on(server, ';')[i].skip(5),
        ),
{
    reveal_strlit("https=");
    reveal_strlit("http=");
    let ps = split_on(server, ';');
    crate::proxy::lemma_first_stripped_skip(ps, "https="@, ps.len() as int);
    assert(ps.skip(ps.len() as int).len() == 0);
    crate::proxy::lemma_first_stripped_skip(ps, "http="@, i);
    assert(ps.skip(i)[0] == ps[i]);
}

/// Where no entry starts with `https=` or `http=`, the proxy is the whole
/// `ProxyServer` value, normalized.
pub proof fn lemma_system_proxy_whole_value(server: Seq<char>)
    requires
        trim(server).len() > 0,
        forall|j: int|
            0 <= j < split_on(server, ';').len() ==> !"https="@.is_prefix_of(
                #[trigger] split_on(server, ';')[j],
            ) && !"http="@.is_prefix_of(split_on(server, ';')[j]),
    ensures
        crate::proxy::system_proxy(enabled_with(server)) == normalized_proxy_url(server),
{
    let ps = split_on(server, ';');
    crate::proxy::lemma_first_stripped_skip(ps, "https="@, ps.len() as int);
    crate::proxy::lemma_first_stripped_skip(ps, "http="@, ps.len() as int);
    assert(ps.skip(ps.len() as int).len() == 0);
}

/// A host bypasses the proxy exactly when, its scheme stripped, it equals a
/// listed domain or ends with `.` followed by one.
pub proof fn lemma_bypass_is_domain_or_subdomain(host: Seq<char>, domains: Seq<Seq<char>>)
    ensures
        bypasses(host, domains) <==> exists|i: int|
            0 <= i < domains.len() && (strip_scheme(host) == #[trigger] domains[i] || ("."@
                + domains[i]).is_suffix_of(strip_scheme(host))),
{
}

proof fn lemma_strip_all_prefix_shape(s: Seq<char>, p: Seq<char>)
    requires
        p.len() > 0,
    ensures
        strip_all_prefix(s, p).is_suffix_of(s),
        !p.is_prefix_of(strip_all_prefix(s, p)),
    decreases s.len(),
{
    if p.is_prefix_of(s) {
        let rest = s.skip(p.len() as int);
        lemma_strip_all_prefix_shape(rest, p);
        let r = strip_all_prefix(rest, p);
        assert(s.subrange(s.len() - r.len(), s.len() as int) =~= rest.subrange(
            rest.len() - r.len(),
            rest.len() as int,
        ));
    } else {
        assert(s.subrange(0, s.len() as int) =~= s);
    }
}

/// The host that the bypass rule compares is the end of the given host, and
/// no longer starts with `http://`; a host without an `https://` or `http://`
/// prefix is compared as it is.
pub proof fn lemma_strip_scheme_shape(host: Seq<char>)
    ensures
        strip_scheme(host).is_suffix_of(host),
        !"http://"@.is_prefix_of(strip_scheme(host)),
        !"https://"@.is_prefix_of(host) && !"http://"@.is_prefix_of(host) ==> strip_scheme(host)
            == host,
{
    reveal_strlit("https://");
    reveal_strlit("http://");
    let h1 = strip_all_prefix(host, "https://"@);
    lemma_strip_all_prefix_shape(host, "https://"@);
    lemma_strip_all_prefix_shape(h1, "http://"@);
    let h2 = strip_all_prefix(h1, "http://"@);
    assert(host.subrange(host.len() - h2.len(), host.len() as int) =~= h1.subrange(
        h1.len() - h2.len(),
        h1.len() as int,
    ));
}

/// The no-proxy list a built reqwest proxy carries is the raw `NO_PROXY`
/// value where that variable is set and not empty; where `NO_PROXY` is
/// unset, the raw `no_proxy` value where that is set and not empty; no list
/// otherwise (an empty `NO_PROXY` hides `no_proxy`).
pub proof fn lemma_attached_list_from_env(env: ProxyEnvView)
    ensures
        (env.no_proxy matches Some(v) && v.len() > 0) ==> crate::proxy::attached_no_proxy(env)
            == seq![env.no_proxy.unwrap()],
        (env.no_proxy matches Some(v) && v.len() == 0) ==> crate::proxy::attached_no_proxy(env)
            == Seq::<Seq<char>>::empty(),
        (env.no_proxy is None && (env.no_proxy_lower matches Some(v) && v.len() > 0))
            ==> crate::proxy::attached_no_proxy(env) == seq![env.no_proxy_lower.unwrap()],
        (env.no_proxy is None && !(env.no_proxy_lower matches Some(v) && v.len() > 0))
            ==> crate::proxy::attached_no_proxy(env) == Seq::<Seq<char>>::empty(),
{
}

} // verus!
