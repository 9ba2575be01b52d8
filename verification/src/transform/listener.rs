//! Aggregate every hostname seen in routes into a single ListenerSet attached to the
//! configured parent Gateway. One HTTP listener per host, plus an HTTPS listener when
//! a TLS secret template is configured.

use vstd::prelude::*;
use vstd::string::*;

use crate::apply::{labels_of, managed_metadata_with, metadata_with, owner_labels};
use crate::config::{Config, ConfigView};
use crate::gateway::{
    CertificateRef, CertificateRefView, Listener, ListenerSet, ListenerSetSpec,
    ListenerSetSpecView, ListenerSetView, ListenerTls, ListenerTlsView, ListenerView, ParentRef,
    ParentRefView, TlsMode,
};
use crate::strmap::{in_order, lemma_deep_insert, StrSet};
use crate::text;
use crate::text::replace;
use crate::transform::desired::{Desired, DesiredView};
use crate::transform::naming::{dns_label, label};
use crate::transform::route::{RouteIndex, RouteIndexView};

verus! {

/// The secret of a host: the template with `{hostname}` replaced by the host, and then
/// `{hostname-dashed}` by the host with dashes for dots.
pub open spec fn secret_name(template: Seq<char>, host: Seq<char>) -> Seq<char> {
    replace(
        replace(template, "{hostname}"@, host),
        "{hostname-dashed}"@,
        replace(host, "."@, "-"@),
    )
}

pub open spec fn http_listener(cfg: ConfigView, host: Seq<char>) -> ListenerView {
    ListenerView {
        name: label("http-"@ + host),
        hostname: Some(host),
        port: cfg.http_port,
        protocol: "HTTP"@,
        tls: None,
    }
}

pub open spec fn https_listener(
    cfg: ConfigView,
    template: Seq<char>,
    host: Seq<char>,
) -> ListenerView {
    ListenerView {
        name: label("https-"@ + host),
        hostname: Some(host),
        port: cfg.https_port,
        protocol: "HTTPS"@,
        tls: Some(
            ListenerTlsView {
                mode: Some(TlsMode::Terminate),
                certificate_refs: Some(
                    seq![
                        CertificateRefView {
                            group: Some(Seq::empty()),
                            kind: Some("Secret"@),
                            name: secret_name(template, host),
                            namespace: cfg.tls_secret_namespace,
                        },
                    ],
                ),
            },
        ),
    }
}

pub open spec fn http_listeners(cfg: ConfigView, hosts: Seq<Seq<char>>) -> Seq<ListenerView> {
    Seq::new(hosts.len(), |i: int| http_listener(cfg, hosts[i]))
}

pub open spec fn https_listeners(
    cfg: ConfigView,
    template: Seq<char>,
    hosts: Seq<Seq<char>>,
) -> Seq<ListenerView> {
    Seq::new(hosts.len(), |i: int| https_listener(cfg, template, hosts[i]))
}

/// One HTTP listener per host, HTTPS listeners where a secret template is configured,
/// then the raw TCP and UDP listeners.
pub open spec fn listeners_of(
    cfg: ConfigView,
    routes: RouteIndexView,
    l4: Seq<ListenerView>,
) -> Seq<ListenerView> {
    http_listeners(cfg, in_order(routes.hostnames)) + match cfg.tls_secret_template {
        Some(template) => if cfg.enable_https_listeners {
            https_listeners(cfg, template, in_order(routes.https_hosts))
        } else {
            Seq::empty()
        },
        None => Seq::empty(),
    } + l4
}

pub open spec fn listener_set(cfg: ConfigView, listeners: Seq<ListenerView>) -> ListenerSetView {
    ListenerSetView {
        metadata: metadata_with(
            cfg,
            label(cfg.listener_set_name),
            labels_of(cfg),
            cfg.listenerset_annotations,
        ),
        spec: ListenerSetSpecView {
            parent_ref: ParentRefView {
                group: Some("gateway.networking.k8s.io"@),
                kind: Some("Gateway"@),
                name: cfg.parent_gateway,
                namespace: cfg.parent_gateway_namespace,
                section_name: None,
            },
            listeners,
        },
    }
}

pub open spec fn with_listener_set(
    cfg: ConfigView,
    routes: RouteIndexView,
    l4: Seq<ListenerView>,
    d: DesiredView,
) -> DesiredView {
    DesiredView {
        listener_sets: d.listener_sets.insert(
            label(cfg.listener_set_name),
            listener_set(cfg, listeners_of(cfg, routes, l4)),
        ),
        ..d
    }
}

pub fn render_secret_name(template: &str, host: &str) -> (r: String)
    ensures
        r@ == secret_name(template@, host@),
{
    proof {
        reveal_strlit("{hostname}");
        reveal_strlit("{hostname-dashed}");
        reveal_strlit(".");
    }
    let dashed = text::replaced(host, ".", "-");
    let first = text::replaced(template, "{hostname}", host);
    text::replaced(first.as_str(), "{hostname-dashed}", dashed.as_str())
}

fn plain_listener(cfg: &Config, host: &str) -> (r: Listener)
    ensures
        r.deep_view() == http_listener(cfg.deep_view(), host@),
{
    Listener {
        name: dns_label(text::cat("http-", host).as_str()),
        hostname: Some(host.to_owned()),
        port: cfg.http_port,
        protocol: "HTTP".to_owned(),
        tls: None,
    }
}

fn secure_listener(cfg: &Config, template: &str, host: &str) -> (r: Listener)
    ensures
        r.deep_view() == https_listener(cfg.deep_view(), template@, host@),
{
    let cert = CertificateRef {
        group: Some(String::new()),
        kind: Some("Secret".to_owned()),
        name: render_secret_name(template, host),
        namespace: text::copy_opt(&cfg.tls_secret_namespace),
    };
    let certificate_refs = vec![cert];
    proof {
        text::lemma_one(certificate_refs, cert);
    }
    Listener {
        name: dns_label(text::cat("https-", host).as_str()),
        hostname: Some(host.to_owned()),
        port: cfg.https_port,
        protocol: "HTTPS".to_owned(),
        tls: Some(
            ListenerTls {
                mode: Some(TlsMode::Terminate),
                certificate_refs: Some(certificate_refs),
            },
        ),
    }
}

fn plain_listeners(cfg: &Config, hosts: &StrSet) -> (r: Vec<Listener>)
    ensures
        r.deep_view() == http_listeners(cfg.deep_view(), in_order(hosts@)),
{
    let names = hosts.names();
    let ghost all = http_listeners(cfg.deep_view(), in_order(hosts@));
    let mut out: Vec<Listener> = Vec::new();
    let mut i: usize = 0;
    assert(names@.len() == names.deep_view().len());
    assert(out.deep_view() =~= all.take(0));
    while i < names.len()
        invariant
            names.deep_view() == in_order(hosts@),
            all == http_listeners(cfg.deep_view(), in_order(hosts@)),
            names@.len() == all.len(),
            i <= names@.len(),
            out.deep_view() == all.take(i as int),
        decreases names@.len() - i,
    {
        let ghost before = out.deep_view();
        assert(names.deep_view()[i as int] == names@[i as int]@);
        let l = plain_listener(cfg, names[i].as_str());
        assert(l.deep_view() == all[i as int]);
        out.push(l);
        assert(out.deep_view() =~= before.push(l.deep_view()));
        i += 1;
        assert(out.deep_view() =~= all.take(i as int));
    }
    assert(all.take(i as int) =~= all);
    out
}

fn secure_listeners(cfg: &Config, template: &str, hosts: &StrSet) -> (r: Vec<Listener>)
    ensures
        r.deep_view() == https_listeners(cfg.deep_view(), template@, in_order(hosts@)),
{
    let names = hosts.names();
    let ghost all = https_listeners(cfg.deep_view(), template@, in_order(hosts@));
    let mut out: Vec<Listener> = Vec::new();
    let mut i: usize = 0;
    assert(names@.len() == names.deep_view().len());
    assert(out.deep_view() =~= all.take(0));
    while i < names.len()
        invariant
            names.deep_view() == in_order(hosts@),
            all == https_listeners(cfg.deep_view(), template@, in_order(hosts@)),
            names@.len() == all.len(),
            i <= names@.len(),
            out.deep_view() == all.take(i as int),
        decreases names@.len() - i,
    {
        let ghost before = out.deep_view();
        assert(names.deep_view()[i as int] == names@[i as int]@);
        let l = secure_listener(cfg, template, names[i].as_str());
        assert(l.deep_view() == all[i as int]);
        out.push(l);
        assert(out.deep_view() =~= before.push(l.deep_view()));
        i += 1;
        assert(out.deep_view() =~= all.take(i as int));
    }
    assert(all.take(i as int) =~= all);
    out
}

/// Build the listener set for the hosts of the routes and the raw TCP and UDP ports.
pub fn build_listener_set(
    cfg: &Config,
    routes: &RouteIndex,
    l4_listeners: Vec<Listener>,
    desired: &mut Desired,
)
    ensures
        final(desired).deep_view() == with_listener_set(
            cfg.deep_view(),
            routes.deep_view(),
            l4_listeners.deep_view(),
            old(desired).deep_view(),
        ),
{
    broadcast use lemma_deep_insert;

    let mut listeners = plain_listeners(cfg, &routes.hostnames);
    let ghost http = listeners.deep_view();
    let ghost l4 = l4_listeners.deep_view();
    let mut secure: Vec<Listener> = Vec::new();
    assert(secure.deep_view() =~= Seq::<ListenerView>::empty());
    if cfg.enable_https_listeners {
        if let Some(template) = &cfg.tls_secret_template {
            secure = secure_listeners(cfg, template.as_str(), &routes.https_hosts);
        }
    }
    let ghost https = secure.deep_view();
    let mut l4_listeners = l4_listeners;
    listeners.append(&mut secure);
    assert(listeners.deep_view() =~= http + https);
    listeners.append(&mut l4_listeners);
    assert(listeners.deep_view() =~= http + https + l4);

    let name = dns_label(cfg.listener_set_name.as_str());
    let labels = owner_labels(cfg, name.as_str());
    let ls = ListenerSet {
        metadata: managed_metadata_with(
            cfg,
            name.as_str(),
            labels,
            &cfg.listenerset_annotations,
        ),
        spec: ListenerSetSpec {
            parent_ref: ParentRef {
                group: Some("gateway.networking.k8s.io".to_owned()),
                kind: Some("Gateway".to_owned()),
                name: cfg.parent_gateway.clone(),
                namespace: text::copy_opt(&cfg.parent_gateway_namespace),
                section_name: None,
            },
            listeners,
        },
    };
    desired.listener_sets.insert(name, ls);
}

} // verus!
