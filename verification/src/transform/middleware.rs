//! Map a subset of Traefik middlewares into Gateway API HTTPRoute filters.
//!
//! Only filters that are part of standard Gateway API are emitted. Anything else
//! (pangolin's `badger` auth plugin, regex rewrites, retry/ratelimit) is dropped;
//! users are expected to layer Envoy Gateway's own policy CRDs on top if they need
//! those behaviors.

use vstd::prelude::*;
use vstd::string::*;

use crate::gateway::{
    FilterType, HeaderModifier, HeaderModifierView, HeaderSetting, HeaderSettingView, PathRewrite,
    PathRewriteType, PathRewriteView, RedirectScheme, RequestRedirect, RequestRedirectView,
    RouteFilter, RouteFilterView, UrlRewrite, UrlRewriteView,
};
use crate::json::Json;
use crate::pangolin::types::Middleware;
use crate::strmap::StrMap;
use crate::text;
use crate::text::{lower, parse_signed};

verus! {

pub type Middlewares = Map<Seq<char>, Middleware>;

// ---- authentication ---------------------------------------------------------------

/// Pangolin's `badger` auth plugin.
pub open spec fn is_badger_plugin(mw: Middleware) -> bool {
    match mw.0.member("plugin"@) {
        Some(plugin) => plugin.member("badger"@) is Some,
        None => false,
    }
}

/// A reference to the plugin, or to a missing middleware of its name.
pub open spec fn names_badger(name: Seq<char>, middlewares: Middlewares) -> bool {
    if middlewares.contains_key(name) {
        is_badger_plugin(middlewares[name])
    } else {
        name == "badger"@
    }
}

/// The router is protected by pangolin's authentication.
pub open spec fn is_protected(names: Seq<Seq<char>>, middlewares: Middlewares) -> bool {
    exists|i: int| 0 <= i < names.len() && names_badger(#[trigger] names[i], middlewares)
}

// ---- filters ------------------------------------------------------------------------

pub open spec fn no_filter(kind: FilterType) -> RouteFilterView {
    RouteFilterView {
        kind,
        request_redirect: None,
        request_header_modifier: None,
        response_header_modifier: None,
        url_rewrite: None,
    }
}

pub open spec fn redirect_filter(scheme: RedirectScheme, port: Option<i32>) -> RouteFilterView {
    RouteFilterView {
        request_redirect: Some(
            RequestRedirectView { scheme: Some(scheme), port, status_code: None },
        ),
        ..no_filter(FilterType::RequestRedirect)
    }
}

pub open spec fn request_headers_filter(set: Seq<HeaderSettingView>) -> RouteFilterView {
    RouteFilterView {
        request_header_modifier: Some(HeaderModifierView { set: Some(set) }),
        ..no_filter(FilterType::RequestHeaderModifier)
    }
}

pub open spec fn response_headers_filter(set: Seq<HeaderSettingView>) -> RouteFilterView {
    RouteFilterView {
        response_header_modifier: Some(HeaderModifierView { set: Some(set) }),
        ..no_filter(FilterType::ResponseHeaderModifier)
    }
}

pub open spec fn rewrite_filter(rewrite: UrlRewriteView) -> RouteFilterView {
    RouteFilterView { url_rewrite: Some(rewrite), ..no_filter(FilterType::UrlRewrite) }
}

pub open spec fn hostname_rewrite(hostname: Seq<char>) -> RouteFilterView {
    rewrite_filter(UrlRewriteView { hostname: Some(hostname), path: None })
}

pub open spec fn full_path_rewrite(path: Seq<char>) -> RouteFilterView {
    rewrite_filter(
        UrlRewriteView {
            hostname: None,
            path: Some(
                PathRewriteView {
                    kind: PathRewriteType::ReplaceFullPath,
                    replace_full_path: Some(path),
                    replace_prefix_match: None,
                },
            ),
        },
    )
}

pub open spec fn prefix_rewrite(prefix: Seq<char>) -> RouteFilterView {
    rewrite_filter(
        UrlRewriteView {
            hostname: None,
            path: Some(
                PathRewriteView {
                    kind: PathRewriteType::ReplacePrefixMatch,
                    replace_full_path: None,
                    replace_prefix_match: Some(prefix),
                },
            ),
        },
    )
}

// ---- translation ----------------------------------------------------------------------

pub open spec fn one(f: Option<RouteFilterView>) -> Seq<RouteFilterView> {
    match f {
        Some(f) => seq![f],
        None => Seq::empty(),
    }
}

pub open spec fn scheme_of(s: Seq<char>) -> Option<RedirectScheme> {
    if s == "http"@ {
        Some(RedirectScheme::Http)
    } else if s == "https"@ {
        Some(RedirectScheme::Https)
    } else {
        None
    }
}

pub open spec fn redirect_of(body: Json) -> Option<RouteFilterView> {
    let port = match body.member_text("port"@) {
        Some(p) => match parse_signed(p) {
            Some(n) => Some(n as i32),
            None => None,
        },
        None => None,
    };
    match body.member_text("scheme"@) {
        Some(s) => match scheme_of(s) {
            Some(scheme) => Some(redirect_filter(scheme, port)),
            None => None,
        },
        None => None,
    }
}

/// The members of an object-valued member, in key order.
pub open spec fn members_at(body: Json, key: Seq<char>) -> Seq<(Seq<char>, Json)> {
    match body.member(key) {
        Some(v) => match v.members() {
            Some(map) => map.entries(),
            None => Seq::empty(),
        },
        None => Seq::empty(),
    }
}

pub open spec fn is_host_header(name: Seq<char>) -> bool {
    lower(name) == lower("host"@)
}

/// The headers to set, without `Host`, which only a URL rewrite may touch.
pub open spec fn settings_in(members: Seq<(Seq<char>, Json)>, host_apart: bool) -> Seq<
    HeaderSettingView,
>
    decreases members.len(),
{
    if members.len() == 0 {
        Seq::empty()
    } else {
        let rest = settings_in(members.drop_last(), host_apart);
        let (name, value) = members.last();
        if value.text() is Some && !(host_apart && is_host_header(name)) {
            rest.push(HeaderSettingView { name, value: value.text()->0 })
        } else {
            rest
        }
    }
}

/// The hostname rewrites that `Host` headers ask for.
pub open spec fn host_rewrites_in(members: Seq<(Seq<char>, Json)>) -> Seq<RouteFilterView>
    decreases members.len(),
{
    if members.len() == 0 {
        Seq::empty()
    } else {
        let rest = host_rewrites_in(members.drop_last());
        let (name, value) = members.last();
        if value.text() is Some && is_host_header(name) {
            rest.push(hostname_rewrite(value.text()->0))
        } else {
            rest
        }
    }
}

pub open spec fn request_part(set: Seq<HeaderSettingView>) -> Seq<RouteFilterView> {
    if set.len() == 0 {
        Seq::empty()
    } else {
        seq![request_headers_filter(set)]
    }
}

pub open spec fn response_part(set: Seq<HeaderSettingView>) -> Seq<RouteFilterView> {
    if set.len() == 0 {
        Seq::empty()
    } else {
        seq![response_headers_filter(set)]
    }
}

pub open spec fn headers_of(body: Json) -> Seq<RouteFilterView> {
    let sent = members_at(body, "customRequestHeaders"@);
    let answered = members_at(body, "customResponseHeaders"@);
    host_rewrites_in(sent) + request_part(settings_in(sent, true)) + response_part(
        settings_in(answered, false),
    )
}

pub open spec fn add_prefix_of(body: Json) -> Option<RouteFilterView> {
    match body.member_text("prefix"@) {
        Some(prefix) => Some(prefix_rewrite(prefix)),
        None => None,
    }
}

pub open spec fn replace_path_of(body: Json) -> Option<RouteFilterView> {
    match body.member_text("path"@) {
        Some(path) => Some(full_path_rewrite(path)),
        None => None,
    }
}

/// Gateway API has no filter that strips a prefix; replacing the matched prefix by the
/// empty text is the nearest.
pub open spec fn strip_prefix_of(body: Json) -> Option<RouteFilterView> {
    match body.member("prefixes"@) {
        Some(Json::Array(prefixes)) => if prefixes@.len() > 0 {
            Some(prefix_rewrite(Seq::empty()))
        } else {
            None
        },
        _ => None,
    }
}

/// The filters of one middleware. Pangolin emits one top-level key per middleware; the
/// first key in order decides.
pub open spec fn filters_of(mw: Middleware) -> Seq<RouteFilterView> {
    match mw.0.members() {
        None => Seq::empty(),
        Some(map) => if map.entries().len() == 0 {
            Seq::empty()
        } else {
            let (kind, body) = map.entries()[0];
            if kind == "redirectScheme"@ {
                one(redirect_of(body))
            } else if kind == "headers"@ {
                headers_of(body)
            } else if kind == "addPrefix"@ {
                one(add_prefix_of(body))
            } else if kind == "replacePath"@ {
                one(replace_path_of(body))
            } else if kind == "stripPrefix"@ {
                one(strip_prefix_of(body))
            } else {
                Seq::empty()
            }
        },
    }
}

/// The filters of the named middlewares, in order; missing ones are passed over.
pub open spec fn all_filters(names: Seq<Seq<char>>, middlewares: Middlewares) -> Seq<
    RouteFilterView,
>
    decreases names.len(),
{
    if names.len() == 0 {
        Seq::empty()
    } else {
        all_filters(names.drop_last(), middlewares) + if middlewares.contains_key(names.last()) {
            filters_of(middlewares[names.last()])
        } else {
            Seq::empty()
        }
    }
}

// ---- merging ----------------------------------------------------------------------------

/// Filters taken apart by what may stand only once in a rule.
#[verifier::ext_equal]
pub struct Merged {
    pub others: Seq<RouteFilterView>,
    pub request: Seq<HeaderSettingView>,
    pub response: Seq<HeaderSettingView>,
    pub rewrite: Option<UrlRewriteView>,
}

pub open spec fn settings_of(m: Option<HeaderModifierView>) -> Seq<HeaderSettingView> {
    match m {
        Some(m) => match m.set {
            Some(set) => set,
            None => Seq::empty(),
        },
        None => Seq::empty(),
    }
}

/// Two rewrites as one: the last hostname and the first path win.
pub open spec fn with_rewrite(
    merged: Option<UrlRewriteView>,
    incoming: UrlRewriteView,
) -> UrlRewriteView {
    match merged {
        None => incoming,
        Some(m) => UrlRewriteView {
            hostname: if incoming.hostname is Some {
                incoming.hostname
            } else {
                m.hostname
            },
            path: if m.path is Some {
                m.path
            } else {
                incoming.path
            },
        },
    }
}

pub open spec fn with_filter(m: Merged, f: RouteFilterView) -> Merged {
    match f.kind {
        FilterType::UrlRewrite => match f.url_rewrite {
            Some(incoming) => Merged { rewrite: Some(with_rewrite(m.rewrite, incoming)), ..m },
            None => m,
        },
        FilterType::RequestHeaderModifier => Merged {
            request: m.request + settings_of(f.request_header_modifier),
            ..m
        },
        FilterType::ResponseHeaderModifier => Merged {
            response: m.response + settings_of(f.response_header_modifier),
            ..m
        },
        FilterType::RequestRedirect => Merged { others: m.others.push(f), ..m },
    }
}

pub open spec fn taken_apart(filters: Seq<RouteFilterView>) -> Merged
    decreases filters.len(),
{
    if filters.len() == 0 {
        Merged {
            others: Seq::empty(),
            request: Seq::empty(),
            response: Seq::empty(),
            rewrite: None,
        }
    } else {
        with_filter(taken_apart(filters.drop_last()), filters.last())
    }
}

pub open spec fn put_together(m: Merged) -> Seq<RouteFilterView> {
    m.others + request_part(m.request) + response_part(m.response) + match m.rewrite {
        Some(rewrite) => seq![rewrite_filter(rewrite)],
        None => Seq::empty(),
    }
}

/// The filters with each of the kinds that may stand only once merged into one.
pub open spec fn merged(filters: Seq<RouteFilterView>) -> Seq<RouteFilterView> {
    put_together(taken_apart(filters))
}

/// The filters of a router's rule.
pub open spec fn rule_filters(names: Seq<Seq<char>>, middlewares: Middlewares) -> Seq<
    RouteFilterView,
> {
    merged(all_filters(names, middlewares))
}

// ---- laws ---------------------------------------------------------------------------------

proof fn lemma_others_redirect(filters: Seq<RouteFilterView>)
    ensures
        forall|i: int|
            0 <= i < taken_apart(filters).others.len() ==> (#[trigger] taken_apart(
                filters,
            ).others[i]).kind == FilterType::RequestRedirect,
    decreases filters.len(),
{
    if filters.len() > 0 {
        lemma_others_redirect(filters.drop_last());
    }
}

/// Gateway API allows each of URLRewrite, RequestHeaderModifier and
/// ResponseHeaderModifier at most once per rule: two filters of one kind are redirects.
pub proof fn law_merged_once(filters: Seq<RouteFilterView>, i: int, j: int)
    requires
        0 <= i < j < merged(filters).len(),
        merged(filters)[i].kind == merged(filters)[j].kind,
    ensures
        merged(filters)[i].kind == FilterType::RequestRedirect,
{
    lemma_others_redirect(filters);
}

/// The filter sets the `Host` header by a request header setting.
pub open spec fn sets_host(f: RouteFilterView) -> bool {
    exists|i: int|
        0 <= i < settings_of(f.request_header_modifier).len() && is_host_header(
            (#[trigger] settings_of(f.request_header_modifier)[i]).name,
        )
}

proof fn lemma_settings_hostless(members: Seq<(Seq<char>, Json)>)
    ensures
        forall|i: int|
            0 <= i < settings_in(members, true).len() ==> !is_host_header(
                (#[trigger] settings_in(members, true)[i]).name,
            ),
    decreases members.len(),
{
    if members.len() > 0 {
        lemma_settings_hostless(members.drop_last());
        let rest = settings_in(members.drop_last(), true);
        assert forall|i: int| 0 <= i < settings_in(members, true).len() implies !is_host_header(
            (#[trigger] settings_in(members, true)[i]).name,
        ) by {
            if i < rest.len() {
                assert(settings_in(members, true)[i] == rest[i]);
            }
        }
    }
}

proof fn lemma_host_rewrites(members: Seq<(Seq<char>, Json)>)
    ensures
        forall|i: int|
            0 <= i < host_rewrites_in(members).len() ==> (#[trigger] host_rewrites_in(
                members,
            )[i]).request_header_modifier is None,
    decreases members.len(),
{
    if members.len() > 0 {
        lemma_host_rewrites(members.drop_last());
    }
}

proof fn lemma_filters_hostless(mw: Middleware, i: int)
    requires
        0 <= i < filters_of(mw).len(),
    ensures
        !sets_host(filters_of(mw)[i]),
{
    let map = mw.0.members()->0;
    let (kind, body) = map.entries()[0];
    if kind == "headers"@ && kind != "redirectScheme"@ {
        let sent = members_at(body, "customRequestHeaders"@);
        lemma_settings_hostless(sent);
        lemma_host_rewrites(sent);
    }
}

proof fn lemma_all_filters_hostless(names: Seq<Seq<char>>, middlewares: Middlewares, i: int)
    requires
        0 <= i < all_filters(names, middlewares).len(),
    ensures
        !sets_host(all_filters(names, middlewares)[i]),
    decreases names.len(),
{
    let rest = all_filters(names.drop_last(), middlewares);
    if i < rest.len() {
        lemma_all_filters_hostless(names.drop_last(), middlewares, i);
    } else {
        lemma_filters_hostless(middlewares[names.last()], i - rest.len());
    }
}

proof fn lemma_taken_apart_hostless(filters: Seq<RouteFilterView>)
    requires
        forall|i: int| 0 <= i < filters.len() ==> !sets_host(#[trigger] filters[i]),
    ensures
        forall|i: int|
            0 <= i < taken_apart(filters).request.len() ==> !is_host_header(
                (#[trigger] taken_apart(filters).request[i]).name,
            ),
        forall|i: int|
            0 <= i < taken_apart(filters).others.len() ==> !sets_host(
                #[trigger] taken_apart(filters).others[i],
            ),
    decreases filters.len(),
{
    if filters.len() > 0 {
        let rest = filters.drop_last();
        assert forall|i: int| 0 <= i < rest.len() implies !sets_host(#[trigger] rest[i]) by {
            assert(rest[i] == filters[i]);
        }
        lemma_taken_apart_hostless(rest);
        let f = filters[filters.len() - 1];
        assert(!sets_host(f));
        let before = taken_apart(rest).request;
        assert forall|i: int|
            0 <= i < taken_apart(filters).request.len() implies !is_host_header(
            (#[trigger] taken_apart(filters).request[i]).name,
        ) by {
            if i >= before.len() {
                assert(taken_apart(filters).request[i] == settings_of(
                    f.request_header_modifier,
                )[i - before.len()]);
            }
        }
    }
}

/// Gateway API forbids touching `Host` by a header modifier: no rule does.
pub proof fn law_host_is_never_a_header(names: Seq<Seq<char>>, middlewares: Middlewares, i: int)
    requires
        0 <= i < rule_filters(names, middlewares).len(),
    ensures
        !sets_host(rule_filters(names, middlewares)[i]),
{
    let filters = all_filters(names, middlewares);
    assert forall|k: int| 0 <= k < filters.len() implies !sets_host(#[trigger] filters[k]) by {
        lemma_all_filters_hostless(names, middlewares, k);
    }
    lemma_taken_apart_hostless(filters);
    let m = taken_apart(filters);
    let f = merged(filters)[i];
    if i < m.others.len() {
        assert(f == m.others[i]);
    } else if m.request.len() > 0 && i == m.others.len() {
        assert(f == request_headers_filter(m.request));
    }
}

// ---- functions ------------------------------------------------------------------------------

fn is_badger(mw: &Middleware) -> (r: bool)
    ensures
        r == is_badger_plugin(*mw),
{
    match mw.0.get("plugin") {
        Some(plugin) => plugin.get("badger").is_some(),
        None => false,
    }
}

/// True when the router references pangolin's `badger` auth plugin, i.e. the
/// resource is (potentially) protected by pangolin's SSO/password/PIN auth.
/// A referenced-but-missing middleware literally named `badger` is treated as
/// protected too: better to skip a route than to expose a protected resource.
pub fn requires_badger_auth(
    middleware_names: &Vec<String>,
    middlewares: &StrMap<Middleware>,
) -> (r: bool)
    ensures
        r == is_protected(middleware_names.deep_view(), middlewares@),
{
    let ghost names = middleware_names.deep_view();
    let mut i: usize = 0;
    while i < middleware_names.len()
        invariant
            names == middleware_names.deep_view(),
            i <= middleware_names@.len(),
            forall|j: int| 0 <= j < i ==> !names_badger(#[trigger] names[j], middlewares@),
        decreases middleware_names@.len() - i,
    {
        let name = middleware_names[i].as_str();
        assert(names[i as int] == name@);
        let hit = match middlewares.get(name) {
            Some(mw) => is_badger(mw),
            None => text::same(name, "badger"),
        };
        if hit {
            assert(names_badger(names[i as int], middlewares@));
            return true;
        }
        i += 1;
    }
    false
}

fn empty_filter(kind: FilterType) -> (r: RouteFilter)
    ensures
        r.deep_view() == no_filter(kind),
{
    RouteFilter {
        kind,
        request_redirect: None,
        request_header_modifier: None,
        response_header_modifier: None,
        url_rewrite: None,
    }
}

/// A redirect to another scheme.
pub fn redirect_to(scheme: RedirectScheme, port: Option<i32>) -> (r: RouteFilter)
    ensures
        r.deep_view() == redirect_filter(scheme, port),
{
    let mut f = empty_filter(FilterType::RequestRedirect);
    f.request_redirect = Some(RequestRedirect { scheme: Some(scheme), port, status_code: None });
    f
}

fn set_request_headers(set: Vec<HeaderSetting>) -> (r: RouteFilter)
    ensures
        r.deep_view() == request_headers_filter(set.deep_view()),
{
    let mut f = empty_filter(FilterType::RequestHeaderModifier);
    f.request_header_modifier = Some(HeaderModifier { set: Some(set) });
    f
}

fn set_response_headers(set: Vec<HeaderSetting>) -> (r: RouteFilter)
    ensures
        r.deep_view() == response_headers_filter(set.deep_view()),
{
    let mut f = empty_filter(FilterType::ResponseHeaderModifier);
    f.response_header_modifier = Some(HeaderModifier { set: Some(set) });
    f
}

fn rewrite_url(rewrite: UrlRewrite) -> (r: RouteFilter)
    ensures
        r.deep_view() == rewrite_filter(rewrite.deep_view()),
{
    let mut f = empty_filter(FilterType::UrlRewrite);
    f.url_rewrite = Some(rewrite);
    f
}

fn translate_redirect_scheme(body: &Json) -> (r: Option<RouteFilter>)
    ensures
        r.deep_view() == redirect_of(*body),
{
    let scheme = match body.get_str("scheme") {
        Some(s) => s,
        None => {
            return None;
        },
    };
    let port: Option<i32> = match body.get_str("port") {
        Some(p) => text::signed_i32(p),
        None => None,
    };
    if text::same(scheme, "http") {
        Some(redirect_to(RedirectScheme::Http, port))
    } else if text::same(scheme, "https") {
        Some(redirect_to(RedirectScheme::Https, port))
    } else {
        None
    }
}

/// The object under a key, where there is one.
fn object_at<'a>(body: &'a Json, key: &str) -> (r: Option<&'a StrMap<Json>>)
    ensures
        match r {
            Some(map) => members_at(*body, key@) == map.entries(),
            None => members_at(*body, key@) == Seq::<(Seq<char>, Json)>::empty(),
        },
{
    match body.get(key) {
        Some(v) => v.as_object(),
        None => None,
    }
}

fn translate_headers(body: &Json) -> (r: Vec<RouteFilter>)
    ensures
        r.deep_view() == headers_of(*body),
{
    let mut filters: Vec<RouteFilter> = Vec::new();
    let mut req_set: Vec<HeaderSetting> = Vec::new();
    let mut resp_set: Vec<HeaderSetting> = Vec::new();
    let ghost sent = members_at(*body, "customRequestHeaders"@);
    let ghost answered = members_at(*body, "customResponseHeaders"@);
    assert(filters.deep_view() =~= host_rewrites_in(Seq::empty()));
    assert(req_set.deep_view() =~= settings_in(Seq::empty(), true));
    assert(resp_set.deep_view() =~= settings_in(Seq::empty(), false));
    if let Some(map) = object_at(body, "customRequestHeaders") {
        let n: usize = map.len();
        let mut i: usize = 0;
        assert(sent.take(0) =~= Seq::<(Seq<char>, Json)>::empty());
        while i < n
            invariant
                sent == map.entries(),
                n == sent.len(),
                i <= n,
                filters.deep_view() == host_rewrites_in(sent.take(i as int)),
                req_set.deep_view() == settings_in(sent.take(i as int), true),
            decreases n - i,
        {
            let name = map.key_at(i);
            let value = map.value_at(i);
            assert(sent.take(i + 1).drop_last() =~= sent.take(i as int));
            assert(sent.take(i + 1).last() == (name@, *value));
            let ghost before = (filters.deep_view(), req_set.deep_view());
            if let Some(v) = value.as_str() {
                // Pangolin's "custom Host header" resource option arrives as a
                // customRequestHeaders entry, but Gateway API forbids touching
                // Host via RequestHeaderModifier: it is a URLRewrite concern.
                if text::same_ignoring_case(name.as_str(), "host") {
                    let f = rewrite_url(UrlRewrite { hostname: Some(v.to_owned()), path: None });
                    filters.push(f);
                    assert(filters.deep_view() =~= before.0.push(f.deep_view()));
                } else {
                    let h = HeaderSetting { name: name.clone(), value: v.to_owned() };
                    req_set.push(h);
                    assert(req_set.deep_view() =~= before.1.push(h.deep_view()));
                }
            }
            i += 1;
        }
        assert(sent.take(i as int) =~= sent);
    }
    if let Some(map) = object_at(body, "customResponseHeaders") {
        let n: usize = map.len();
        let mut i: usize = 0;
        assert(answered.take(0) =~= Seq::<(Seq<char>, Json)>::empty());
        while i < n
            invariant
                answered == map.entries(),
                n == answered.len(),
                i <= n,
                resp_set.deep_view() == settings_in(answered.take(i as int), false),
            decreases n - i,
        {
            let name = map.key_at(i);
            let value = map.value_at(i);
            assert(answered.take(i + 1).drop_last() =~= answered.take(i as int));
            assert(answered.take(i + 1).last() == (name@, *value));
            let ghost before = resp_set.deep_view();
            if let Some(v) = value.as_str() {
                let h = HeaderSetting { name: name.clone(), value: v.to_owned() };
                resp_set.push(h);
                assert(resp_set.deep_view() =~= before.push(h.deep_view()));
            }
            i += 1;
        }
        assert(answered.take(i as int) =~= answered);
    }
    push_request(&mut filters, req_set);
    push_response(&mut filters, resp_set);
    filters
}

fn push_request(filters: &mut Vec<RouteFilter>, set: Vec<HeaderSetting>)
    ensures
        final(filters).deep_view() == old(filters).deep_view() + request_part(set.deep_view()),
{
    let ghost before = filters.deep_view();
    if set.len() > 0 {
        let f = set_request_headers(set);
        filters.push(f);
        assert(filters.deep_view() =~= before + seq![f.deep_view()]);
    } else {
        assert(before + Seq::<RouteFilterView>::empty() =~= before);
    }
}

fn push_response(filters: &mut Vec<RouteFilter>, set: Vec<HeaderSetting>)
    ensures
        final(filters).deep_view() == old(filters).deep_view() + response_part(set.deep_view()),
{
    let ghost before = filters.deep_view();
    if set.len() > 0 {
        let f = set_response_headers(set);
        filters.push(f);
        assert(filters.deep_view() =~= before + seq![f.deep_view()]);
    } else {
        assert(before + Seq::<RouteFilterView>::empty() =~= before);
    }
}

fn prefix_filter(prefix: &str) -> (r: RouteFilter)
    ensures
        r.deep_view() == prefix_rewrite(prefix@),
{
    rewrite_url(
        UrlRewrite {
            hostname: None,
            path: Some(
                PathRewrite {
                    kind: PathRewriteType::ReplacePrefixMatch,
                    replace_full_path: None,
                    replace_prefix_match: Some(prefix.to_owned()),
                },
            ),
        },
    )
}

fn translate_add_prefix(body: &Json) -> (r: Option<RouteFilter>)
    ensures
        r.deep_view() == add_prefix_of(*body),
{
    match body.get_str("prefix") {
        Some(prefix) => Some(prefix_filter(prefix)),
        None => None,
    }
}

fn translate_replace_path(body: &Json) -> (r: Option<RouteFilter>)
    ensures
        r.deep_view() == replace_path_of(*body),
{
    match body.get_str("path") {
        Some(path) => Some(
            rewrite_url(
                UrlRewrite {
                    hostname: None,
                    path: Some(
                        PathRewrite {
                            kind: PathRewriteType::ReplaceFullPath,
                            replace_full_path: Some(path.to_owned()),
                            replace_prefix_match: None,
                        },
                    ),
                },
            ),
        ),
        None => None,
    }
}

fn translate_strip_prefix(body: &Json) -> (r: Option<RouteFilter>)
    ensures
        r.deep_view() == strip_prefix_of(*body),
{
    match body.get("prefixes") {
        Some(Json::Array(prefixes)) => {
            if prefixes.len() > 0 {
                proof {
                    reveal_strlit("");
                    assert(""@ =~= Seq::<char>::empty());
                }
                Some(prefix_filter(""))
            } else {
                None
            }
        },
        _ => None,
    }
}

fn single(f: Option<RouteFilter>) -> (r: Vec<RouteFilter>)
    ensures
        r.deep_view() == one(f.deep_view()),
{
    let mut out: Vec<RouteFilter> = Vec::new();
    match f {
        Some(f) => {
            out.push(f);
            assert(out.deep_view() =~= seq![f.deep_view()]);
        },
        None => {
            assert(out.deep_view() =~= Seq::<RouteFilterView>::empty());
        },
    }
    out
}

fn translate(mw: &Middleware) -> (r: Vec<RouteFilter>)
    ensures
        r.deep_view() == filters_of(*mw),
{
    let none: Vec<RouteFilter> = Vec::new();
    assert(none.deep_view() =~= Seq::<RouteFilterView>::empty());
    let map = match mw.as_object() {
        Some(map) => map,
        None => {
            return none;
        },
    };
    if map.len() == 0 {
        return none;
    }
    let kind = map.key_at(0).as_str();
    let body = map.value_at(0);
    if text::same(kind, "redirectScheme") {
        single(translate_redirect_scheme(body))
    } else if text::same(kind, "headers") {
        translate_headers(body)
    } else if text::same(kind, "addPrefix") {
        single(translate_add_prefix(body))
    } else if text::same(kind, "replacePath") {
        single(translate_replace_path(body))
    } else if text::same(kind, "stripPrefix") {
        single(translate_strip_prefix(body))
    } else {
        none
    }
}

fn merge_rewrite(current: Option<UrlRewrite>, incoming: UrlRewrite) -> (r: UrlRewrite)
    ensures
        r.deep_view() == with_rewrite(current.deep_view(), incoming.deep_view()),
{
    match current {
        None => incoming,
        Some(m) => UrlRewrite {
            hostname: match incoming.hostname {
                Some(h) => Some(h),
                None => m.hostname,
            },
            path: match m.path {
                Some(p) => Some(p),
                None => incoming.path,
            },
        },
    }
}

fn add_settings(to: &mut Vec<HeaderSetting>, m: Option<HeaderModifier>)
    ensures
        final(to).deep_view() == old(to).deep_view() + settings_of(m.deep_view()),
{
    let ghost before = to.deep_view();
    if let Some(m) = m {
        if let Some(set) = m.set {
            let mut set = set;
            let ghost given = set.deep_view();
            to.append(&mut set);
            assert(to.deep_view() =~= before + given);
            return;
        }
    }
    assert(before + Seq::<HeaderSettingView>::empty() =~= before);
}

/// Gateway API allows each of URLRewrite / RequestHeaderModifier /
/// ResponseHeaderModifier at most once per rule, but several pangolin
/// middlewares can map onto the same filter type (e.g. a custom Host header
/// becomes URLRewrite.hostname next to an addPrefix, which becomes
/// URLRewrite.path). Merge them.
pub fn merge_filters(filters: Vec<RouteFilter>) -> (r: Vec<RouteFilter>)
    ensures
        r.deep_view() == merged(filters.deep_view()),
{
    let ghost all = filters.deep_view();
    let mut filters = filters;
    let n: usize = filters.len();
    let mut out: Vec<RouteFilter> = Vec::new();
    let mut rewrite: Option<UrlRewrite> = None;
    let mut req_set: Vec<HeaderSetting> = Vec::new();
    let mut resp_set: Vec<HeaderSetting> = Vec::new();
    let mut i: usize = 0;
    assert(all.take(0) =~= Seq::<RouteFilterView>::empty());
    assert(out.deep_view() =~= Seq::<RouteFilterView>::empty());
    assert(req_set.deep_view() =~= Seq::<HeaderSettingView>::empty());
    assert(resp_set.deep_view() =~= Seq::<HeaderSettingView>::empty());
    assert(filters.deep_view() =~= all.skip(0));
    while i < n
        invariant
            n == all.len(),
            i <= n,
            filters.deep_view() == all.skip(i as int),
            taken_apart(all.take(i as int)) == (Merged {
                others: out.deep_view(),
                request: req_set.deep_view(),
                response: resp_set.deep_view(),
                rewrite: rewrite.deep_view(),
            }),
        decreases n - i,
    {
        assert(filters@.len() == filters.deep_view().len());
        assert(filters.deep_view()[0] == all[i as int]);
        let ghost left = filters.deep_view();
        let f = filters.remove(0);
        assert(f.deep_view() == all[i as int]);
        assert(filters.deep_view() =~= left.drop_first());
        assert(left.drop_first() =~= all.skip(i + 1));
        assert(all.take(i + 1).drop_last() =~= all.take(i as int));
        let ghost before = out.deep_view();
        match f.kind {
            FilterType::UrlRewrite => {
                if let Some(incoming) = f.url_rewrite {
                    rewrite = Some(merge_rewrite(rewrite, incoming));
                }
            },
            FilterType::RequestHeaderModifier => {
                add_settings(&mut req_set, f.request_header_modifier);
            },
            FilterType::ResponseHeaderModifier => {
                add_settings(&mut resp_set, f.response_header_modifier);
            },
            FilterType::RequestRedirect => {
                out.push(f);
                assert(out.deep_view() =~= before.push(f.deep_view()));
            },
        }
        i += 1;
    }
    assert(all.take(i as int) =~= all);
    push_request(&mut out, req_set);
    push_response(&mut out, resp_set);
    let ghost before = out.deep_view();
    match rewrite {
        Some(rw) => {
            let f = rewrite_url(rw);
            out.push(f);
            assert(out.deep_view() =~= before + seq![f.deep_view()]);
        },
        None => {
            assert(before + Seq::<RouteFilterView>::empty() =~= before);
        },
    }
    out
}

/// The filters that a router's middlewares come to.
pub fn build_filters(
    _router: &str,
    middleware_names: &Vec<String>,
    middlewares: &StrMap<Middleware>,
) -> (r: Vec<
    RouteFilter,
>)
    ensures
        r.deep_view() == rule_filters(middleware_names.deep_view(), middlewares@),
{
    let ghost names = middleware_names.deep_view();
    let mut filters: Vec<RouteFilter> = Vec::new();
    let mut i: usize = 0;
    assert(names.take(0) =~= Seq::<Seq<char>>::empty());
    assert(filters.deep_view() =~= Seq::<RouteFilterView>::empty());
    while i < middleware_names.len()
        invariant
            names == middleware_names.deep_view(),
            i <= middleware_names@.len(),
            filters.deep_view() == all_filters(names.take(i as int), middlewares@),
        decreases middleware_names@.len() - i,
    {
        let name = middleware_names[i].as_str();
        assert(names[i as int] == name@);
        assert(names.take(i + 1).drop_last() =~= names.take(i as int));
        let ghost before = filters.deep_view();
        match middlewares.get(name) {
            Some(mw) => {
                let mut more = translate(mw);
                let ghost given = more.deep_view();
                filters.append(&mut more);
                assert(filters.deep_view() =~= before + given);
            },
            None => {
                assert(before + Seq::<RouteFilterView>::empty() =~= before);
            },
        }
        i += 1;
    }
    assert(names.take(i as int) =~= names);
    merge_filters(filters)
}

} // verus!
