//! What pangolin's services come to in the cluster.

use vstd::prelude::*;

use crate::config::{BackendKind, ConfigView};
use crate::ip::{ip_of, ip_text};
use crate::json::Json;
use crate::pangolin::types::{L4Service, Service as PangService};
use crate::text::{dec, lower, trim_end_char, trim_start_char};
use crate::text_laws::{
    all_space, joined, law_numbers_read_back, law_outer_space_is_no_matter,
    law_rsplit_once_at_the_last, law_split_once_at_the_first, law_split_undoes_join, lemma_dec,
};
use crate::transform::backend::{
    addresses_of, backend_index, classified, cluster_dns_of, emitted, first_of, host_class,
    http_family, ips_on, l4_backend_index, l4_target, l4_targets, object_name, resolved,
    skips_verify, url_targets, urls_of, with_backends, with_l4_backends,
    ClassificationView, Family, HostClass, HostPortView,
};
use crate::transform::desired::DesiredView;
use crate::transform::l4::{family_of, L4Protocol};
use crate::transform::naming::label;
use crate::urls::url_of;

verus! {

// ---- names ------------------------------------------------------------------------------

/// Names of HTTP backends are `be-…`, `svc-…` and so on; those of raw ones carry the
/// protocol in between, so that a service name in several blocks cannot collide.
pub proof fn law_object_names(base: Seq<char>, name: Seq<char>)
    ensures
        object_name(base, http_family().infix, name) == label(base + seq!['-'] + name),
        object_name(base, family_of(L4Protocol::Tcp).infix, name) == label(
            base + seq!['-', 't', 'c', 'p', '-'] + name,
        ),
        object_name(base, family_of(L4Protocol::Udp).infix, name) == label(
            base + seq!['-', 'u', 'd', 'p', '-'] + name,
        ),
        http_family().protocol == "TCP"@,
        family_of(L4Protocol::Tcp).protocol == "TCP"@,
        family_of(L4Protocol::Udp).protocol == "UDP"@,
{
    reveal_strlit("");
    reveal_strlit("-");
    reveal_strlit("tcp");
    reveal_strlit("udp");
    assert("tcp"@ =~= seq!['t', 'c', 'p']);
    assert("udp"@ =~= seq!['u', 'd', 'p']);
    assert("-"@ =~= seq!['-']);
    assert(base + "-"@ + "tcp"@ + seq!['-'] + name =~= base + seq!['-', 't', 'c', 'p', '-'] + name);
    assert(base + "-"@ + "udp"@ + seq!['-'] + name =~= base + seq!['-', 'u', 'd', 'p', '-'] + name);
}

// ---- targets ----------------------------------------------------------------------------

/// The server URL has a host and a port.
pub open spec fn has_target(url: Seq<char>) -> bool {
    url_of(url) matches Some(u) && u.host is Some && u.port is Some
}

/// The target of a server URL is its host, without the brackets of an IPv6 address, at its
/// port, over TLS where the scheme is `https`. A URL without a host or a port has none.
pub proof fn law_url_target(url: Seq<char>, host: Seq<char>)
    requires
        host.len() > 0,
        host[0] != '[',
        host.last() != ']',
    ensures
        has_target(url) ==> {
            let u = url_of(url)->0;
            let t = url_targets(seq![url])[0];
            &&& url_targets(seq![url]).len() == 1
            &&& t.port as int == (u.port->0) as int
            &&& t.tls == (u.scheme == "https"@)
            &&& u.host == Some(host) ==> t.host == host
            &&& u.host == Some(seq!['['] + host + seq![']']) ==> t.host == host
        },
        !has_target(url) ==> url_targets(seq![url]).len() == 0,
{
    assert(seq![url].drop_last() =~= Seq::<Seq<char>>::empty());
    reveal_with_fuel(url_targets, 2);
    let s = seq!['['] + host + seq![']'];
    let t = host + seq![']'];
    assert(s.drop_first() =~= t);
    assert(t.drop_last() =~= host);
    assert(t[0] == host[0]);
    reveal_with_fuel(trim_start_char, 3);
    reveal_with_fuel(trim_end_char, 3);
    assert(trim_start_char(s, '[') == t);
    assert(trim_end_char(t, ']') == host);
    assert(trim_start_char(host, '[') == host);
    assert(trim_end_char(host, ']') == host);
}

/// Targets of URL lists stand one after the other.
pub proof fn law_url_targets_stand_in_order(a: Seq<Seq<char>>, b: Seq<Seq<char>>)
    ensures
        url_targets(a + b) == url_targets(a) + url_targets(b),
        l4_targets(a + b) == l4_targets(a) + l4_targets(b),
    decreases b.len(),
{
    if b.len() == 0 {
        assert(a + b =~= a);
        assert(url_targets(a) + url_targets(b) =~= url_targets(a));
        assert(l4_targets(a) + l4_targets(b) =~= l4_targets(a));
    } else {
        assert((a + b).drop_last() =~= a + b.drop_last());
        law_url_targets_stand_in_order(a, b.drop_last());
        assert((a + b).last() == b.last());
        assert(url_targets(a + b) =~= url_targets(a) + url_targets(b));
        assert(l4_targets(a + b) =~= l4_targets(a) + l4_targets(b));
    }
}

/// A character that white space and the parts of an address do not share.
pub open spec fn is_plain(host: Seq<char>) -> bool {
    &&& host.len() > 0
    &&& !crate::text::is_space(host[0])
    &&& host[0] != '['
    &&& !host.contains(':')
    &&& !host.contains('/')
}

proof fn lemma_no_scheme(s: Seq<char>)
    requires
        !s.contains('/'),
    ensures
        crate::transform::backend::without_scheme(s) == s,
    decreases s.len(),
{
    reveal_strlit("://");
    lemma_no_text(s);
}

proof fn lemma_no_text(s: Seq<char>)
    requires
        !s.contains('/'),
    ensures
        crate::text::find_text(s, "://"@) == s.len(),
    decreases s.len(),
{
    reveal_strlit("://");
    if s.len() > 0 {
        if crate::text::starts_with(s, "://"@) {
            assert(s.take(3)[1] == "://"@[1]);
            assert(s[1] == '/');
        }
        let t = s.drop_first();
        assert forall|j: int| 0 <= j < t.len() implies t[j] != '/' by {
            assert(s.contains(s[j + 1]));
        }
        lemma_no_text(t);
    }
}

proof fn lemma_trimmed(s: Seq<char>)
    requires
        s.len() > 0,
        !crate::text::is_space(s[0]),
        !crate::text::is_space(s.last()),
    ensures
        crate::text::trim(s) == s,
{
}

/// White space around a raw address makes no difference.
pub proof fn law_space_around_addresses(a: Seq<char>, address: Seq<char>, b: Seq<char>)
    requires
        all_space(a),
        all_space(b),
        address.len() > 0,
        !crate::text::is_space(address[0]),
        !crate::text::is_space(address.last()),
    ensures
        l4_target(a + address + b) == l4_target(address),
{
    law_outer_space_is_no_matter(a, address, b);
    lemma_trimmed(address);
}

/// A raw address `host:port` is that host and that port; one without a port has no target.
pub proof fn law_raw_addresses_read_back(host: Seq<char>, port: u16)
    requires
        is_plain(host),
        !crate::text::is_space(host.last()),
    ensures
        l4_target(host + seq![':'] + dec(port as nat)) matches Some(t) && t.host == host
            && t.port as int == port as int && !t.tls,
        l4_target(host) is None,
{
    let d = dec(port as nat);
    let s = host + seq![':'] + d;
    lemma_dec(port as nat);
    law_numbers_read_back(port as nat, 65535);
    assert(crate::text::is_digit(d.last()));
    lemma_trimmed(s);
    lemma_trimmed(host);
    assert forall|j: int| 0 <= j < s.len() implies s[j] != '/' by {
        if j < host.len() {
            assert(host.contains(host[j]));
        } else if j > host.len() {
            assert(crate::text::is_digit(d[j - host.len() - 1]));
        }
    }
    lemma_no_scheme(s);
    lemma_no_scheme(host);
    reveal_strlit("[");
    assert("["@[0] == '[');
    assert(s[0] == host[0]);
    if crate::text::starts_with(s, "["@) {
        assert(s.take(1)[0] == '[');
    }
    if crate::text::starts_with(host, "["@) {
        assert(host.take(1)[0] == '[');
    }
    assert forall|j: int| 0 <= j < d.len() implies d[j] != ':' by {
        assert(crate::text::is_digit(d[j]));
    }
    law_rsplit_once_at_the_last(host, ':', d);
    assert(host + seq![':'] + Seq::<char>::empty() =~= host.push(':'));
    law_rsplit_once_at_the_last(host, ':', host);
}

/// A raw address `[host]:port` is that host, an IPv6 address, and that port.
pub proof fn law_bracketed_addresses_read_back(host: Seq<char>, port: u16)
    requires
        host.len() > 0,
        !host.contains(']'),
        !host.contains('/'),
    ensures
        l4_target(seq!['['] + host + seq![']', ':'] + dec(port as nat)) matches Some(t) && t.host
            == host && t.port as int == port as int && !t.tls,
{
    let d = dec(port as nat);
    let s = seq!['['] + host + seq![']', ':'] + d;
    lemma_dec(port as nat);
    law_numbers_read_back(port as nat, 65535);
    assert(crate::text::is_digit(d.last()));
    lemma_trimmed(s);
    assert forall|j: int| 0 <= j < s.len() implies s[j] != '/' by {
        if 1 <= j < host.len() + 1 {
            assert(host.contains(host[j - 1]));
        } else if j >= host.len() + 3 {
            assert(crate::text::is_digit(d[j - host.len() - 3]));
        }
    }
    lemma_no_scheme(s);
    reveal_strlit("[");
    reveal_strlit(":");
    assert("["@ =~= seq!['[']);
    assert(":"@ =~= seq![':']);
    assert(s.take(1) =~= "["@);
    let r = s.skip(1);
    let after = seq![':'] + d;
    assert(r =~= host + seq![']'] + after);
    law_split_once_at_the_first(host, ']', after);
    assert(after.take(1) =~= ":"@);
    assert(after.skip(1) =~= d);
}

/// A scheme in front of a raw address is passed over.
pub proof fn law_stray_schemes_are_passed_over(scheme: Seq<char>, address: Seq<char>)
    requires
        scheme.len() > 0,
        !crate::text::is_space(scheme[0]),
        !scheme.contains(':'),
        address.len() > 0,
        !crate::text::is_space(address[0]),
        !crate::text::is_space(address.last()),
        !address.contains('/'),
    ensures
        l4_target(scheme + seq![':', '/', '/'] + address) == l4_target(address),
{
    reveal_strlit("://");
    let pat = "://"@;
    assert(pat =~= seq![':', '/', '/']);
    let s = scheme + pat + address;
    lemma_trimmed(s);
    lemma_trimmed(address);
    assert forall|j: int| 0 <= j < scheme.len() implies !crate::text::starts_with(
        #[trigger] s.skip(j),
        pat,
    ) by {
        if crate::text::starts_with(s.skip(j), pat) {
            assert(s.skip(j).take(3)[0] == ':');
            assert(s[j] == scheme[j]);
            assert(scheme.contains(scheme[j]));
        }
    }
    crate::text_laws::law_split_text_at_the_first(scheme, pat, address);
    lemma_no_scheme(address);
}

/// `<service>.<namespace>.svc`, with any further domain and in any casing, is cluster DNS.
pub proof fn law_cluster_dns_names_a_service(parts: Seq<Seq<char>>)
    requires
        parts.len() >= 3,
        forall|i: int| 0 <= i < parts.len() ==> !(#[trigger] parts[i]).contains('.'),
        parts.last().len() > 0,
    ensures
        lower(parts[2]) == "svc"@ ==> cluster_dns_of(joined(parts, '.')) == Some(
            (lower(parts[0]), lower(parts[1])),
        ),
        lower(parts[2]) != "svc"@ ==> cluster_dns_of(joined(parts, '.')) is None,
{
    let s = joined(parts, '.');
    lemma_joined_ends(parts);
    assert(trim_end_char(s, '.') == s);
    let lows = Seq::new(parts.len(), |i: int| lower(parts[i]));
    lemma_lower_joined(parts);
    assert forall|i: int| 0 <= i < lows.len() implies !(#[trigger] lows[i]).contains('.') by {
        assert forall|j: int| 0 <= j < lows[i].len() implies lows[i][j] != '.' by {
            assert(parts[i].contains(parts[i][j]));
        }
    }
    law_split_undoes_join(lows, '.');
}

proof fn lemma_joined_ends(parts: Seq<Seq<char>>)
    requires
        parts.len() > 0,
        parts.last().len() > 0,
        !parts.last().contains('.'),
    ensures
        joined(parts, '.').len() > 0,
        joined(parts, '.').last() != '.',
    decreases parts.len(),
{
    if parts.len() == 1 {
        assert(parts[0].contains(parts[0].last()));
    } else {
        let rest = parts.drop_first();
        assert(rest.last() == parts.last());
        lemma_joined_ends(rest);
    }
}

proof fn lemma_lower_joined(parts: Seq<Seq<char>>)
    requires
        parts.len() > 0,
    ensures
        lower(joined(parts, '.')) == joined(
            Seq::new(parts.len(), |i: int| lower(parts[i])),
            '.',
        ),
    decreases parts.len(),
{
    let lows = Seq::new(parts.len(), |i: int| lower(parts[i]));
    if parts.len() > 1 {
        let rest = parts.drop_first();
        lemma_lower_joined(rest);
        let low_rest = Seq::new(rest.len(), |i: int| lower(rest[i]));
        assert(lows.drop_first() =~= low_rest);
        assert(lower(joined(parts, '.')) =~= lower(parts[0]) + seq!['.'] + lower(
            joined(rest, '.'),
        ));
    }
}

// ---- classification -------------------------------------------------------------------

proof fn lemma_none(entries: Seq<HostPortView>, class: HostClass)
    requires
        forall|j: int| 0 <= j < entries.len() ==> host_class((#[trigger] entries[j]).host) != class,
    ensures
        first_of(entries, class) is None,
    decreases entries.len(),
{
    if entries.len() > 0 {
        let rest = entries.drop_last();
        assert forall|j: int| 0 <= j < rest.len() implies host_class((#[trigger] rest[j]).host)
            != class by {
            assert(rest[j] == entries[j]);
        }
        lemma_none(rest, class);
        assert(host_class(entries[entries.len() - 1].host) != class);
    }
}

proof fn lemma_first(entries: Seq<HostPortView>, class: HostClass, i: int)
    requires
        0 <= i < entries.len(),
        host_class(entries[i].host) == class,
        forall|j: int| 0 <= j < i ==> host_class((#[trigger] entries[j]).host) != class,
    ensures
        first_of(entries, class) == Some(entries[i]),
    decreases entries.len(),
{
    let rest = entries.drop_last();
    if i < rest.len() {
        assert(rest[i] == entries[i]);
        assert forall|j: int| 0 <= j < i implies host_class((#[trigger] rest[j]).host) != class by {
            assert(rest[j] == entries[j]);
        }
        lemma_first(rest, class, i);
    } else {
        assert forall|j: int| 0 <= j < rest.len() implies host_class((#[trigger] rest[j]).host)
            != class by {
            assert(rest[j] == entries[j]);
        }
        lemma_none(rest, class);
    }
}

proof fn lemma_ips_all(entries: Seq<HostPortView>, port: i32)
    requires
        forall|i: int|
            0 <= i < entries.len() ==> ip_of((#[trigger] entries[i]).host) is Some
                && entries[i].port == port,
    ensures
        ips_on(entries, port).len() == entries.len(),
        forall|i: int|
            0 <= i < entries.len() ==> #[trigger] ips_on(entries, port)[i] == ip_of(
                entries[i].host,
            )->0,
    decreases entries.len(),
{
    if entries.len() > 0 {
        let rest = entries.drop_last();
        assert forall|i: int| 0 <= i < rest.len() implies ip_of((#[trigger] rest[i]).host) is Some
            && rest[i].port == port by {
            assert(rest[i] == entries[i]);
        }
        lemma_ips_all(rest, port);
        assert(entries[entries.len() - 1] == entries.last());
        let all = ips_on(entries, port);
        assert forall|i: int| 0 <= i < entries.len() implies #[trigger] all[i] == ip_of(
            entries[i].host,
        )->0 by {
            if i < rest.len() {
                assert(ips_on(rest, port)[i] == ip_of(rest[i].host)->0);
            }
        }
    }
}

/// Every entry is an IP address on this port.
pub open spec fn all_ips(entries: Seq<HostPortView>, port: i32) -> bool {
    &&& entries.len() > 0
    &&& forall|i: int|
        0 <= i < entries.len() ==> ip_of((#[trigger] entries[i]).host) is Some && entries[i].port
            == port
}

/// IP targets on one port: every one of them, in order, and no other address.
pub proof fn law_ip_targets_are_all_kept(entries: Seq<HostPortView>, port: i32, kind: BackendKind)
    requires
        all_ips(entries, port),
    ensures
        classified(entries, kind) matches ClassificationView::Ips { entries: ips, port: p, tls }
            && p == port && tls == entries[0].tls && ips.len() == entries.len() && forall|i: int|
            0 <= i < entries.len() ==> #[trigger] ips[i] == ip_of(entries[i].host)->0,
{
    assert(host_class(entries[0].host) == HostClass::Ip);
    lemma_first(entries, HostClass::Ip, 0);
    lemma_ips_all(entries, port);
}

/// IP targets win over names, and among them the port of the first; the addresses are those
/// of the IP targets on that port.
pub proof fn law_ip_targets_win(entries: Seq<HostPortView>, kind: BackendKind, i: int)
    requires
        0 <= i < entries.len(),
        ip_of(entries[i].host) is Some,
        forall|j: int| 0 <= j < i ==> ip_of((#[trigger] entries[j]).host) is None,
    ensures
        classified(entries, kind) matches ClassificationView::Ips { entries: ips, port, tls }
            && port == entries[i].port && tls == entries[i].tls && ips == ips_on(
            entries,
            entries[i].port,
        ),
        forall|k: int|
            0 <= k < entries.len() && ip_of((#[trigger] entries[k]).host) is Some
                && entries[k].port == entries[i].port ==> ips_on(entries, entries[i].port).contains(
                ip_of(entries[k].host)->0,
            ),
{
    assert(host_class(entries[i].host) == HostClass::Ip);
    lemma_first(entries, HostClass::Ip, i);
    assert forall|k: int|
        0 <= k < entries.len() && ip_of((#[trigger] entries[k]).host) is Some && entries[k].port
            == entries[i].port implies ips_on(entries, entries[i].port).contains(
        ip_of(entries[k].host)->0,
    ) by {
        lemma_ip_listed(entries, entries[i].port, k);
    }
}

/// One more entry adds its address to those on a port, behind the others, if it is an IP
/// address on that port; otherwise it adds nothing.
pub proof fn law_addresses_on_other_ports_are_dropped(
    entries: Seq<HostPortView>,
    e: HostPortView,
    port: i32,
)
    ensures
        ip_of(e.host) is Some && e.port == port ==> ips_on(entries.push(e), port) == ips_on(
            entries,
            port,
        ).push(ip_of(e.host)->0),
        ip_of(e.host) is None || e.port != port ==> ips_on(entries.push(e), port) == ips_on(
            entries,
            port,
        ),
        ips_on(Seq::empty(), port).len() == 0,
{
    assert(entries.push(e).drop_last() =~= entries);
}

proof fn lemma_ip_listed(entries: Seq<HostPortView>, port: i32, k: int)
    requires
        0 <= k < entries.len(),
        ip_of(entries[k].host) is Some,
        entries[k].port == port,
    ensures
        ips_on(entries, port).contains(ip_of(entries[k].host)->0),
    decreases entries.len(),
{
    let rest = entries.drop_last();
    let all = ips_on(entries, port);
    if k < rest.len() {
        assert(rest[k] == entries[k]);
        lemma_ip_listed(rest, port, k);
        let some = ips_on(rest, port);
        let i = choose|i: int| 0 <= i < some.len() && some[i] == ip_of(entries[k].host)->0;
        assert(all[i] == some[i]);
    } else {
        assert(all[all.len() - 1] == ip_of(entries[k].host)->0);
    }
}

/// Without IP targets the first cluster DNS name wins, and without one the first other
/// name, which only Envoy backends can carry.
pub proof fn law_names_come_after_addresses(entries: Seq<HostPortView>, kind: BackendKind, i: int)
    requires
        0 <= i < entries.len(),
        forall|j: int| 0 <= j < entries.len() ==> ip_of((#[trigger] entries[j]).host) is None,
    ensures
        cluster_dns_of(entries[i].host) is Some && (forall|j: int|
            0 <= j < i ==> cluster_dns_of((#[trigger] entries[j]).host) is None) ==> classified(
            entries,
            kind,
        ) == (ClassificationView::ClusterDns {
            service: (cluster_dns_of(entries[i].host)->0).0,
            namespace: (cluster_dns_of(entries[i].host)->0).1,
            port: entries[i].port,
            host: entries[i].host,
            tls: entries[i].tls,
        }),
        (forall|j: int|
            0 <= j < entries.len() ==> cluster_dns_of((#[trigger] entries[j]).host) is None)
            ==> classified(entries, kind) == if kind == BackendKind::EnvoyBackend {
            ClassificationView::Fqdn {
                hostname: entries[0].host,
                port: entries[0].port,
                tls: entries[0].tls,
            }
        } else {
            ClassificationView::Empty
        },
{
    lemma_none(entries, HostClass::Ip);
    if cluster_dns_of(entries[i].host) is Some && (forall|j: int|
        0 <= j < i ==> cluster_dns_of((#[trigger] entries[j]).host) is None) {
        lemma_first(entries, HostClass::ClusterDns, i);
    }
    if forall|j: int|
        0 <= j < entries.len() ==> cluster_dns_of((#[trigger] entries[j]).host) is None {
        lemma_none(entries, HostClass::ClusterDns);
        lemma_first(entries, HostClass::Fqdn, 0);
    }
}

// ---- objects ----------------------------------------------------------------------------

/// The targets of the servers of a pangolin service.
pub open spec fn targets_of(svc: PangService) -> Seq<HostPortView> {
    match svc.load_balancer {
        Some(lb) => url_targets(urls_of(lb.servers@)),
        None => Seq::empty(),
    }
}

/// In Envoy mode a service with IP targets on one port becomes a Backend with one endpoint
/// per target: the text of its address, at the port, and no name.
#[verifier::rlimit(50)]
pub proof fn law_ip_backends_list_every_target(
    cfg: ConfigView,
    services: Seq<(Seq<char>, PangService)>,
    transports: Map<Seq<char>, Json>,
    d: DesiredView,
    name: Seq<char>,
    svc: PangService,
    port: i32,
)
    requires
        cfg.backend_kind == BackendKind::EnvoyBackend,
        all_ips(targets_of(svc), port),
    ensures
        ({
            let e = with_backends(cfg, services.push((name, svc)), transports, d);
            let key = label(seq!['b', 'e', '-'] + name);
            let endpoints = e.envoy_backends[key].spec.endpoints;
            let r = backend_index(cfg, services.push((name, svc)))[name];
            &&& e.envoy_backends.contains_key(key)
            &&& endpoints.len() == targets_of(svc).len()
            &&& forall|i: int|
                0 <= i < endpoints.len() ==> {
                    let endpoint = #[trigger] endpoints[i];
                    &&& endpoint.ip is Some
                    &&& (endpoint.ip->0).address == ip_text(ip_of(targets_of(svc)[i].host)->0)
                    &&& (endpoint.ip->0).port == port
                    &&& endpoint.fqdn is None
                }
            &&& backend_index(cfg, services.push((name, svc))).contains_key(name)
            &&& r.group == "gateway.envoyproxy.io"@ && r.kind == "Backend"@ && r.name == key
                && r.namespace is None && r.port == port
            &&& e.envoy_backends[key].spec.tls is Some <==> targets_of(svc)[0].tls
        }),
{
    let all = services.push((name, svc));
    assert(all.drop_last() =~= services);
    law_ip_targets_are_all_kept(targets_of(svc), port, cfg.backend_kind);
    reveal_strlit("be");
    assert("be"@ + seq!['-'] + name =~= seq!['b', 'e', '-'] + name);
    law_object_names("be"@, name);
}

/// In service mode it becomes a headless Service with that port, and an EndpointSlice of that
/// Service with one endpoint per target.
#[verifier::rlimit(50)]
pub proof fn law_ip_services_list_every_target(
    cfg: ConfigView,
    services: Seq<(Seq<char>, PangService)>,
    transports: Map<Seq<char>, Json>,
    d: DesiredView,
    name: Seq<char>,
    svc: PangService,
    port: i32,
)
    requires
        cfg.backend_kind == BackendKind::Service,
        all_ips(targets_of(svc), port),
    ensures
        ({
            let e = with_backends(cfg, services.push((name, svc)), transports, d);
            let service = label(seq!['s', 'v', 'c', '-'] + name);
            let slice = label(seq!['e', 'p', 's', '-'] + name);
            let r = backend_index(cfg, services.push((name, svc)))[name];
            &&& e.services.contains_key(service)
            &&& is_headless(e, service, port, "TCP"@)
            &&& e.endpoint_slices.contains_key(slice)
            &&& lists_targets(e, slice, service, targets_of(svc), port, "TCP"@)
            &&& backend_index(cfg, services.push((name, svc))).contains_key(name)
            &&& r.group.len() == 0 && r.kind == "Service"@ && r.name == service && r.namespace
                is None && r.port == port
        }),
{
    let all = services.push((name, svc));
    assert(all.drop_last() =~= services);
    law_ip_targets_are_all_kept(targets_of(svc), port, cfg.backend_kind);
    reveal(is_headless);
    reveal(lists_targets);
    reveal_strlit("svc");
    reveal_strlit("eps");
    assert("svc"@ + seq!['-'] + name =~= seq!['s', 'v', 'c', '-'] + name);
    assert("eps"@ + seq!['-'] + name =~= seq!['e', 'p', 's', '-'] + name);
    law_object_names("svc"@, name);
    law_object_names("eps"@, name);
}

/// A Service without a cluster address and with one port, which it hands on unchanged.
#[verifier::opaque]
pub open spec fn is_headless(
    d: DesiredView,
    service: Seq<char>,
    port: i32,
    protocol: Seq<char>,
) -> bool {
    let spec = d.services[service].spec->0;
    let ports = spec.ports->0;
    &&& d.services[service].spec is Some
    &&& spec.cluster_ip == Some("None"@)
    &&& spec.service_type == Some("ClusterIP"@)
    &&& spec.ports is Some && ports.len() == 1
    &&& ports[0].name == Some("default"@)
    &&& ports[0].port == port
    &&& ports[0].target_port == Some(port)
    &&& ports[0].protocol == Some(protocol)
}

/// An EndpointSlice that belongs to a Service and has one endpoint per target.
#[verifier::opaque]
pub open spec fn lists_targets(
    d: DesiredView,
    slice: Seq<char>,
    service: Seq<char>,
    targets: Seq<HostPortView>,
    port: i32,
    protocol: Seq<char>,
) -> bool {
    let s = d.endpoint_slices[slice];
    let ports = s.ports->0;
    &&& s.metadata.labels is Some
    &&& (s.metadata.labels->0).contains_key("kubernetes.io/service-name"@)
    &&& (s.metadata.labels->0)["kubernetes.io/service-name"@] == service
    &&& s.address_type == "IPv4"@
    &&& s.ports is Some && ports.len() == 1
    &&& ports[0].name == Some("default"@)
    &&& ports[0].port == Some(port)
    &&& ports[0].protocol == Some(protocol)
    &&& s.endpoints.len() == targets.len()
    &&& forall|i: int|
        0 <= i < targets.len() ==> (#[trigger] s.endpoints[i]).addresses == seq![
            ip_text(ip_of(targets[i].host)->0),
        ]
}

/// A service with a name outside the cluster becomes, in Envoy mode, a Backend with that
/// name and port as its one endpoint. Over TLS the name is checked, too.
#[verifier::rlimit(50)]
pub proof fn law_named_backends(
    cfg: ConfigView,
    services: Seq<(Seq<char>, PangService)>,
    transports: Map<Seq<char>, Json>,
    d: DesiredView,
    name: Seq<char>,
    svc: PangService,
)
    requires
        targets_of(svc).len() == 1,
        ip_of(targets_of(svc)[0].host) is None,
        cluster_dns_of(targets_of(svc)[0].host) is None,
    ensures
        ({
            let t = targets_of(svc)[0];
            let e = with_backends(cfg, services.push((name, svc)), transports, d);
            let key = label(seq!['b', 'e', '-'] + name);
            let spec = e.envoy_backends[key].spec;
            let r = backend_index(cfg, services.push((name, svc)))[name];
            &&& cfg.backend_kind == BackendKind::Service ==> e == with_backends(
                cfg,
                services,
                transports,
                d,
            ) && backend_index(cfg, services.push((name, svc))) == backend_index(cfg, services)
            &&& cfg.backend_kind == BackendKind::EnvoyBackend ==> {
                &&& e.envoy_backends.contains_key(key)
                &&& spec.endpoints.len() == 1
                &&& spec.endpoints[0].ip is None
                &&& spec.endpoints[0].fqdn is Some
                &&& (spec.endpoints[0].fqdn->0).hostname == t.host
                &&& (spec.endpoints[0].fqdn->0).port == t.port
                &&& spec.tls is Some <==> t.tls
                &&& t.tls ==> (spec.tls->0).sni == Some(t.host)
                &&& r.group == "gateway.envoyproxy.io"@ && r.kind == "Backend"@ && r.name == key
                    && r.namespace is None && r.port == t.port
            }
        }),
{
    let all = services.push((name, svc));
    assert(all.drop_last() =~= services);
    law_names_come_after_addresses(targets_of(svc), cfg.backend_kind, 0);
    reveal_strlit("be");
    assert("be"@ + seq!['-'] + name =~= seq!['b', 'e', '-'] + name);
    law_object_names("be"@, name);
}

/// A service that is cluster DNS refers to the existing Service in its namespace. In the
/// clear nothing is made up for it. Over TLS it becomes a Backend in Envoy mode, and in
/// service mode a TLS policy where the Service is in the controller namespace and
/// certificates are checked.
#[verifier::rlimit(50)]
pub proof fn law_cluster_services(
    cfg: ConfigView,
    services: Seq<(Seq<char>, PangService)>,
    transports: Map<Seq<char>, Json>,
    d: DesiredView,
    name: Seq<char>,
    svc: PangService,
)
    requires
        targets_of(svc).len() == 1,
        ip_of(targets_of(svc)[0].host) is None,
        cluster_dns_of(targets_of(svc)[0].host) is Some,
    ensures
        ({
            let t = targets_of(svc)[0];
            let (service, namespace) = cluster_dns_of(t.host)->0;
            let before = with_backends(cfg, services, transports, d);
            let e = with_backends(cfg, services.push((name, svc)), transports, d);
            let index = backend_index(cfg, services.push((name, svc)));
            let r = index[name];
            let key = label(seq!['b', 'e', '-'] + name);
            let policy = label(seq!['b', 't', 'p', '-'] + name);
            let envoy = cfg.backend_kind == BackendKind::EnvoyBackend;
            &&& index.contains_key(name)
            &&& !(t.tls && envoy) ==> r.group.len() == 0 && r.kind == "Service"@ && r.name
                == service && r.namespace == Some(namespace) && r.port == t.port
            &&& !t.tls ==> e == before
            &&& t.tls && envoy ==> {
                let spec = e.envoy_backends[key].spec;
                &&& e.envoy_backends.contains_key(key)
                &&& spec.endpoints.len() == 1 && spec.endpoints[0].ip is None
                &&& spec.endpoints[0].fqdn is Some
                &&& (spec.endpoints[0].fqdn->0).hostname == t.host
                &&& (spec.endpoints[0].fqdn->0).port == t.port
                &&& spec.tls is Some && (spec.tls->0).sni == Some(t.host)
                &&& r.kind == "Backend"@ && r.name == key && r.namespace is None && r.port
                    == t.port
            }
            &&& t.tls && !envoy && namespace == cfg.namespace && !checks_switched_off(
                svc,
                transports,
            ) ==> {
                let spec = e.backend_tls_policies[policy].spec;
                &&& e.backend_tls_policies.contains_key(policy)
                &&& spec.target_refs.len() == 1
                &&& spec.target_refs[0].group.len() == 0
                &&& spec.target_refs[0].kind == "Service"@
                &&& spec.target_refs[0].name == service
                &&& spec.validation.hostname == t.host
                &&& spec.validation.well_known_ca_certificates == Some("System"@)
            }
            &&& t.tls && !envoy && (namespace != cfg.namespace || checks_switched_off(
                svc,
                transports,
            )) ==> e == before
        }),
{
    let all = services.push((name, svc));
    assert(all.drop_last() =~= services);
    lemma_checks(svc, transports);
    law_names_come_after_addresses(targets_of(svc), cfg.backend_kind, 0);
    reveal_strlit("be");
    reveal_strlit("btp");
    assert("be"@ + seq!['-'] + name =~= seq!['b', 'e', '-'] + name);
    assert("btp"@ + seq!['-'] + name =~= seq!['b', 't', 'p', '-'] + name);
    law_object_names("be"@, name);
    law_object_names("btp"@, name);
}

/// The servers transport of the service says `insecureSkipVerify: true`.
pub open spec fn checks_switched_off(svc: PangService, transports: Map<Seq<char>, Json>) -> bool {
    &&& svc.load_balancer is Some
    &&& (svc.load_balancer->0).servers_transport matches Some(t)
    &&& transports.contains_key(t@)
    &&& transports[t@] matches Json::Object(map)
    &&& map@.contains_key("insecureSkipVerify"@)
    &&& map@["insecureSkipVerify"@] matches Json::Bool(b)
    &&& b
}

proof fn lemma_checks(svc: PangService, transports: Map<Seq<char>, Json>)
    ensures
        skips_verify(svc, transports) == checks_switched_off(svc, transports),
{
}

/// TLS to a Backend is checked against the system's certificates, unless the servers
/// transport of the service switches that off.
#[verifier::rlimit(50)]
pub proof fn law_backend_tls_is_checked(
    cfg: ConfigView,
    services: Seq<(Seq<char>, PangService)>,
    transports: Map<Seq<char>, Json>,
    d: DesiredView,
    name: Seq<char>,
    svc: PangService,
)
    requires
        cfg.backend_kind == BackendKind::EnvoyBackend,
        targets_of(svc).len() == 1,
        targets_of(svc)[0].tls,
    ensures
        ({
            let e = with_backends(cfg, services.push((name, svc)), transports, d);
            let key = label(seq!['b', 'e', '-'] + name);
            let tls = e.envoy_backends[key].spec.tls->0;
            &&& e.envoy_backends.contains_key(key)
            &&& e.envoy_backends[key].spec.tls is Some
            &&& checks_switched_off(svc, transports) ==> tls.insecure_skip_verify == Some(true)
                && tls.well_known_ca_certificates is None
            &&& !checks_switched_off(svc, transports) ==> tls.insecure_skip_verify is None
                && tls.well_known_ca_certificates == Some("System"@)
            &&& ip_of(targets_of(svc)[0].host) is Some ==> tls.sni is None
        }),
{
    let all = services.push((name, svc));
    assert(all.drop_last() =~= services);
    lemma_checks(svc, transports);
    let t = targets_of(svc)[0];
    if ip_of(t.host) is Some {
        law_ip_targets_are_all_kept(targets_of(svc), t.port, cfg.backend_kind);
    } else {
        law_names_come_after_addresses(targets_of(svc), cfg.backend_kind, 0);
    }
    reveal_strlit("be");
    assert("be"@ + seq!['-'] + name =~= seq!['b', 'e', '-'] + name);
    law_object_names("be"@, name);
}

/// A service without targets resolves to nothing and makes no object.
pub proof fn law_no_targets_no_objects(
    cfg: ConfigView,
    services: Seq<(Seq<char>, PangService)>,
    transports: Map<Seq<char>, Json>,
    d: DesiredView,
    name: Seq<char>,
    svc: PangService,
)
    requires
        targets_of(svc).len() == 0,
    ensures
        with_backends(cfg, services.push((name, svc)), transports, d) == with_backends(
            cfg,
            services,
            transports,
            d,
        ),
        backend_index(cfg, services.push((name, svc))) == backend_index(cfg, services),
{
    let all = services.push((name, svc));
    assert(all.drop_last() =~= services);
}

/// The targets of the servers of a raw service.
pub open spec fn raw_targets_of(svc: L4Service) -> Seq<HostPortView> {
    match svc.load_balancer {
        Some(lb) => l4_targets(addresses_of(lb.servers@)),
        None => Seq::empty(),
    }
}

/// What a service with IP targets on one port is emitted as.
#[verifier::rlimit(50)]
proof fn lemma_emitted_ips(
    cfg: ConfigView,
    name: Seq<char>,
    entries: Seq<HostPortView>,
    family: Family,
    d: DesiredView,
    port: i32,
)
    requires
        all_ips(entries, port),
        !entries[0].tls,
    ensures
        ({
            let class = classified(entries, cfg.backend_kind);
            let e = emitted(cfg, name, class, family, false, d);
            let r = resolved(cfg, name, class, family)->0;
            let be = object_name("be"@, family.infix, name);
            let service = object_name("svc"@, family.infix, name);
            let slice = object_name("eps"@, family.infix, name);
            &&& resolved(cfg, name, class, family) is Some
            &&& r.port == port && r.namespace is None
            &&& cfg.backend_kind == BackendKind::EnvoyBackend ==> lists_endpoints(
                e,
                be,
                entries,
                port,
            ) && r.kind == "Backend"@ && r.name == be
            &&& cfg.backend_kind == BackendKind::Service ==> e.services.contains_key(service)
                && is_headless(e, service, port, family.protocol) && e.endpoint_slices.contains_key(
                slice,
            ) && lists_targets(e, slice, service, entries, port, family.protocol) && r.kind
                == "Service"@ && r.name == service
        }),
{
    reveal(is_headless);
    reveal(lists_targets);
    reveal(lists_endpoints);
    law_ip_targets_are_all_kept(entries, port, cfg.backend_kind);
}

/// A Backend in the clear with one endpoint per target.
#[verifier::opaque]
pub open spec fn lists_endpoints(
    d: DesiredView,
    backend: Seq<char>,
    targets: Seq<HostPortView>,
    port: i32,
) -> bool {
    let spec = d.envoy_backends[backend].spec;
    &&& d.envoy_backends.contains_key(backend)
    &&& spec.tls is None
    &&& spec.endpoints.len() == targets.len()
    &&& forall|i: int|
        0 <= i < targets.len() ==> {
            let endpoint = #[trigger] spec.endpoints[i];
            &&& endpoint.ip is Some
            &&& (endpoint.ip->0).address == ip_text(ip_of(targets[i].host)->0)
            &&& (endpoint.ip->0).port == port
            &&& endpoint.fqdn is None
        }
}

pub open spec fn raw_infix(proto: L4Protocol) -> Seq<char> {
    match proto {
        L4Protocol::Tcp => seq!['-', 't', 'c', 'p', '-'],
        L4Protocol::Udp => seq!['-', 'u', 'd', 'p', '-'],
    }
}

/// Raw services with IP targets on one port are emitted like HTTP ones, under names with the
/// protocol in them and with the protocol on their ports.
#[verifier::rlimit(50)]
pub proof fn law_raw_services_list_every_target(
    cfg: ConfigView,
    services: Seq<(Seq<char>, L4Service)>,
    proto: L4Protocol,
    d: DesiredView,
    name: Seq<char>,
    svc: L4Service,
    port: i32,
)
    requires
        all_ips(raw_targets_of(svc), port),
        !raw_targets_of(svc)[0].tls,
    ensures
        ({
            let family = family_of(proto);
            let e = with_l4_backends(cfg, services.push((name, svc)), family, d);
            let index = l4_backend_index(cfg, services.push((name, svc)), family);
            let r = index[name];
            let protocol = match proto {
                L4Protocol::Tcp => "TCP"@,
                L4Protocol::Udp => "UDP"@,
            };
            let be = label(seq!['b', 'e'] + raw_infix(proto) + name);
            let service = label(seq!['s', 'v', 'c'] + raw_infix(proto) + name);
            let slice = label(seq!['e', 'p', 's'] + raw_infix(proto) + name);
            &&& index.contains_key(name)
            &&& r.port == port && r.namespace is None
            &&& cfg.backend_kind == BackendKind::EnvoyBackend ==> lists_endpoints(
                e,
                be,
                raw_targets_of(svc),
                port,
            ) && r.kind == "Backend"@ && r.name == be
            &&& cfg.backend_kind == BackendKind::Service ==> e.services.contains_key(service)
                && is_headless(e, service, port, protocol) && e.endpoint_slices.contains_key(slice)
                && lists_targets(e, slice, service, raw_targets_of(svc), port, protocol) && r.kind
                == "Service"@ && r.name == service
        }),
{
    let family = family_of(proto);
    let before = with_l4_backends(cfg, services, family, d);
    lemma_emitted_ips(cfg, name, raw_targets_of(svc), family, before, port);
    lemma_raw_unfolds(cfg, services, family, d, name, svc);
    lemma_raw_names(proto, name);
}

/// One more raw service is classified, emitted and resolved behind the others.
proof fn lemma_raw_unfolds(
    cfg: ConfigView,
    services: Seq<(Seq<char>, L4Service)>,
    family: Family,
    d: DesiredView,
    name: Seq<char>,
    svc: L4Service,
)
    ensures
        ({
            let class = classified(raw_targets_of(svc), cfg.backend_kind);
            let index = l4_backend_index(cfg, services.push((name, svc)), family);
            let r = resolved(cfg, name, class, family);
            &&& with_l4_backends(cfg, services.push((name, svc)), family, d) == emitted(
                cfg,
                name,
                class,
                family,
                false,
                with_l4_backends(cfg, services, family, d),
            )
            &&& r is Some ==> index.contains_key(name) && index[name] == r->0
        }),
{
    assert(services.push((name, svc)).drop_last() =~= services);
}

/// The names of raw objects, and their protocol.
proof fn lemma_raw_names(proto: L4Protocol, name: Seq<char>)
    ensures
        ({
            let family = family_of(proto);
            &&& object_name("be"@, family.infix, name) == label(
                seq!['b', 'e'] + raw_infix(proto) + name,
            )
            &&& object_name("svc"@, family.infix, name) == label(
                seq!['s', 'v', 'c'] + raw_infix(proto) + name,
            )
            &&& object_name("eps"@, family.infix, name) == label(
                seq!['e', 'p', 's'] + raw_infix(proto) + name,
            )
            &&& family.protocol == match proto {
                L4Protocol::Tcp => "TCP"@,
                L4Protocol::Udp => "UDP"@,
            }
        }),
{
    reveal_strlit("be");
    reveal_strlit("svc");
    reveal_strlit("eps");
    assert("be"@ =~= seq!['b', 'e']);
    assert("svc"@ =~= seq!['s', 'v', 'c']);
    assert("eps"@ =~= seq!['e', 'p', 's']);
    law_object_names("be"@, name);
    law_object_names("svc"@, name);
    law_object_names("eps"@, name);
}

} // verus!
