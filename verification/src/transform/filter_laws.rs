//! What each Traefik middleware comes to in a route, and what merging keeps.

use vstd::prelude::*;

use crate::gateway::{
    FilterType, HeaderSettingView, PathRewriteType, RedirectScheme, RouteFilterView,
};
use crate::json::Json;
use crate::pangolin::types::Middleware;
use crate::text::{lower, parse_signed};
use crate::transform::middleware::{
    all_filters, filters_of, host_rewrites_in, is_host_header, is_protected, members_at, merged,
    names_badger, rule_filters, settings_in, settings_of, taken_apart, Middlewares,
};

verus! {

// ---- middlewares ----------------------------------------------------------------------

/// The value is that string.
pub open spec fn is_text(v: Json, t: Seq<char>) -> bool {
    v matches Json::Text(s) && s@ == t
}

/// The value is an object with that member.
pub open spec fn has(v: Json, key: Seq<char>, member: Json) -> bool {
    v matches Json::Object(map) && map@.contains_key(key) && map@[key] == member
}

/// The value is an object with that string as a member.
pub open spec fn has_text(v: Json, key: Seq<char>, t: Seq<char>) -> bool {
    v matches Json::Object(map) && map@.contains_key(key) && is_text(map@[key], t)
}

/// The value has no string as that member.
pub open spec fn lacks_text(v: Json, key: Seq<char>) -> bool {
    forall|t: Seq<char>| !#[trigger] has_text(v, key, t)
}

/// The middleware is of that kind: its first key, in order.
pub open spec fn is_middleware(mw: Middleware, kind: Seq<char>, body: Json) -> bool {
    mw.0 matches Json::Object(map) && map.entries().len() > 0 && map.entries()[0] == (kind, body)
}

proof fn lemma_kinds_differ()
    ensures
        "redirectScheme"@.len() == 14,
        "headers"@.len() == 7,
        "addPrefix"@.len() == 9,
        "replacePath"@.len() == 11,
        "stripPrefix"@.len() == 11,
        "replacePath"@ != "stripPrefix"@,
{
    reveal_strlit("redirectScheme");
    reveal_strlit("headers");
    reveal_strlit("addPrefix");
    reveal_strlit("replacePath");
    reveal_strlit("stripPrefix");
    assert("replacePath"@[0] != "stripPrefix"@[0]);
}

/// The one filter rewrites the URL, and does nothing else.
pub open spec fn only_rewrites(fs: Seq<RouteFilterView>) -> bool {
    &&& fs.len() == 1
    &&& fs[0].kind == FilterType::UrlRewrite
    &&& fs[0].url_rewrite is Some
    &&& fs[0].request_redirect is None
    &&& fs[0].request_header_modifier is None
    &&& fs[0].response_header_modifier is None
}

/// `addPrefix` replaces the matched prefix by the given one, and leaves the rest of the
/// path; without a prefix it says nothing.
pub proof fn law_add_prefix_replaces_the_prefix(mw: Middleware, body: Json, prefix: Seq<char>)
    requires
        is_middleware(mw, "addPrefix"@, body),
    ensures
        has_text(body, "prefix"@, prefix) ==> {
            let fs = filters_of(mw);
            let path = (fs[0].url_rewrite->0).path;
            &&& only_rewrites(fs)
            &&& (fs[0].url_rewrite->0).hostname is None
            &&& path is Some
            &&& (path->0).kind == PathRewriteType::ReplacePrefixMatch
            &&& (path->0).replace_prefix_match == Some(prefix)
            &&& (path->0).replace_full_path is None
        },
        lacks_text(body, "prefix"@) ==> filters_of(mw).len() == 0,
{
    lemma_kinds_differ();
    if lacks_text(body, "prefix"@) {
        if body.member_text("prefix"@) is Some {
            assert(has_text(body, "prefix"@, body.member_text("prefix"@)->0));
        }
    }
}

/// `replacePath` replaces the whole path by the given one; without a path it says nothing.
pub proof fn law_replace_path_replaces_the_path(mw: Middleware, body: Json, new: Seq<char>)
    requires
        is_middleware(mw, "replacePath"@, body),
    ensures
        has_text(body, "path"@, new) ==> {
            let fs = filters_of(mw);
            let path = (fs[0].url_rewrite->0).path;
            &&& only_rewrites(fs)
            &&& (fs[0].url_rewrite->0).hostname is None
            &&& path is Some
            &&& (path->0).kind == PathRewriteType::ReplaceFullPath
            &&& (path->0).replace_full_path == Some(new)
            &&& (path->0).replace_prefix_match is None
        },
        lacks_text(body, "path"@) ==> filters_of(mw).len() == 0,
{
    lemma_kinds_differ();
    if lacks_text(body, "path"@) {
        if body.member_text("path"@) is Some {
            assert(has_text(body, "path"@, body.member_text("path"@)->0));
        }
    }
}

/// `stripPrefix` replaces the matched prefix by nothing, where it names a prefix at all.
pub proof fn law_strip_prefix_drops_the_prefix(mw: Middleware, body: Json, prefixes: Vec<Json>)
    requires
        is_middleware(mw, "stripPrefix"@, body),
        has(body, "prefixes"@, Json::Array(prefixes)),
    ensures
        prefixes@.len() == 0 ==> filters_of(mw).len() == 0,
        prefixes@.len() > 0 ==> {
            let fs = filters_of(mw);
            let path = (fs[0].url_rewrite->0).path;
            &&& only_rewrites(fs)
            &&& (fs[0].url_rewrite->0).hostname is None
            &&& path is Some
            &&& (path->0).kind == PathRewriteType::ReplacePrefixMatch
            &&& path->0.replace_prefix_match matches Some(p) && p.len() == 0
            &&& (path->0).replace_full_path is None
        },
{
    lemma_kinds_differ();
}

/// `redirectScheme` redirects to the given scheme, `http` or `https`, and to the given
/// port where that is a number; any other scheme says nothing.
pub proof fn law_redirect_scheme_redirects(
    mw: Middleware,
    body: Json,
    scheme: Seq<char>,
    port: Seq<char>,
)
    requires
        is_middleware(mw, "redirectScheme"@, body),
        has_text(body, "scheme"@, scheme),
    ensures
        scheme == "http"@ || scheme == "https"@ ==> {
            let fs = filters_of(mw);
            let redirect = fs[0].request_redirect->0;
            &&& fs.len() == 1
            &&& fs[0].kind == FilterType::RequestRedirect
            &&& fs[0].request_redirect is Some
            &&& fs[0].url_rewrite is None
            &&& fs[0].request_header_modifier is None
            &&& fs[0].response_header_modifier is None
            &&& redirect.status_code is None
            &&& redirect.scheme is Some
            &&& redirect.scheme == Some(RedirectScheme::Https) <==> scheme == "https"@
            &&& has_text(body, "port"@, port) && parse_signed(port) is Some ==> redirect.port
                is Some && (redirect.port->0) as int == parse_signed(port)->0
            &&& has_text(body, "port"@, port) && parse_signed(port) is None ==> redirect.port
                is None
            &&& lacks_text(body, "port"@) ==> redirect.port is None
        },
        scheme != "http"@ && scheme != "https"@ ==> filters_of(mw).len() == 0,
{
    lemma_kinds_differ();
    reveal_strlit("http");
    reveal_strlit("https");
    assert("http"@.len() == 4 && "https"@.len() == 5);
    crate::text_laws::lemma_signed_fits(port);
    if lacks_text(body, "port"@) {
        if body.member_text("port"@) is Some {
            assert(has_text(body, "port"@, body.member_text("port"@)->0));
        }
    }
}

/// `Host`, in any casing.
pub open spec fn spells_host(name: Seq<char>) -> bool {
    &&& name.len() == 4
    &&& name[0] == 'h' || name[0] == 'H'
    &&& name[1] == 'o' || name[1] == 'O'
    &&& name[2] == 's' || name[2] == 'S'
    &&& name[3] == 't' || name[3] == 'T'
}

proof fn lemma_spells_host(name: Seq<char>)
    ensures
        is_host_header(name) <==> spells_host(name),
{
    reveal_strlit("host");
    let h = lower("host"@);
    assert("host"@[0] == 'h' && "host"@[1] == 'o' && "host"@[2] == 's' && "host"@[3] == 't');
    assert(h =~= seq!['h', 'o', 's', 't']);
    let n = lower(name);
    if spells_host(name) {
        assert(n =~= h);
    }
    if n == h {
        assert(n.len() == 4);
        assert(n[0] == 'h' && n[1] == 'o' && n[2] == 's' && n[3] == 't');
    }
}

proof fn lemma_settings_members(members: Seq<(Seq<char>, Json)>, apart: bool, h: HeaderSettingView)
    ensures
        settings_in(members, apart).contains(h) <==> exists|i: int|
            0 <= i < members.len() && (#[trigger] members[i]).0 == h.name && is_text(
                members[i].1,
                h.value,
            ) && !(apart && spells_host(h.name)),
    decreases members.len(),
{
    lemma_spells_host(h.name);
    if members.len() > 0 {
        let rest = members.drop_last();
        lemma_settings_members(rest, apart, h);
        let before = settings_in(rest, apart);
        let after = settings_in(members, apart);
        let (name, value) = members.last();
        if after.contains(h) {
            let k = choose|k: int| 0 <= k < after.len() && after[k] == h;
            if k < before.len() {
                assert(before[k] == h);
                let i = choose|i: int|
                    0 <= i < rest.len() && (#[trigger] rest[i]).0 == h.name && is_text(
                        rest[i].1,
                        h.value,
                    ) && !(apart && spells_host(h.name));
                assert(members[i] == rest[i]);
            } else {
                assert(members[members.len() - 1].0 == h.name);
            }
        }
        if exists|i: int|
            0 <= i < members.len() && (#[trigger] members[i]).0 == h.name && is_text(
                members[i].1,
                h.value,
            ) && !(apart && spells_host(h.name)) {
            let i = choose|i: int|
                0 <= i < members.len() && (#[trigger] members[i]).0 == h.name && is_text(
                    members[i].1,
                    h.value,
                ) && !(apart && spells_host(h.name));
            if i < rest.len() {
                assert(rest[i] == members[i]);
                let k = choose|k: int| 0 <= k < before.len() && before[k] == h;
                assert(after[k] == h);
            } else {
                assert(after[after.len() - 1] == h);
            }
        }
    }
}

proof fn lemma_host_rewrite(members: Seq<(Seq<char>, Json)>, i: int, host: Seq<char>)
    requires
        0 <= i < members.len(),
        spells_host(members[i].0),
        is_text(members[i].1, host),
    ensures
        exists|k: int|
            0 <= k < host_rewrites_in(members).len() && #[trigger] rewrites_host(
                host_rewrites_in(members)[k],
                host,
            ),
    decreases members.len(),
{
    let rest = members.drop_last();
    let before = host_rewrites_in(rest);
    let after = host_rewrites_in(members);
    lemma_spells_host(members.last().0);
    if i < rest.len() {
        assert(rest[i] == members[i]);
        lemma_host_rewrite(rest, i, host);
        let k = choose|k: int| 0 <= k < before.len() && #[trigger] rewrites_host(before[k], host);
        assert(after[k] == before[k]);
        assert(rewrites_host(after[k], host));
    } else {
        assert(rewrites_host(after[after.len() - 1], host));
    }
}

/// The filter rewrites the hostname of the request, and no path.
pub open spec fn rewrites_host(f: RouteFilterView, host: Seq<char>) -> bool {
    &&& f.kind == FilterType::UrlRewrite
    &&& f.url_rewrite is Some
    &&& (f.url_rewrite->0).hostname == Some(host)
    &&& (f.url_rewrite->0).path is None
}

/// The filter sets that header of the request.
pub open spec fn sets_request(f: RouteFilterView, h: HeaderSettingView) -> bool {
    &&& f.kind == FilterType::RequestHeaderModifier
    &&& f.request_header_modifier is Some
    &&& (f.request_header_modifier->0).set is Some
    &&& ((f.request_header_modifier->0).set->0).contains(h)
}

/// The filter sets that header of the response.
pub open spec fn sets_response(f: RouteFilterView, h: HeaderSettingView) -> bool {
    &&& f.kind == FilterType::ResponseHeaderModifier
    &&& f.response_header_modifier is Some
    &&& (f.response_header_modifier->0).set is Some
    &&& ((f.response_header_modifier->0).set->0).contains(h)
}

/// The members of the object that a `headers` middleware holds under a key.
pub open spec fn headers_under(body: Json, key: Seq<char>) -> Seq<(Seq<char>, Json)> {
    match body {
        Json::Object(map) => if map@.contains_key(key) {
            match map@[key] {
                Json::Object(headers) => headers.entries(),
                _ => Seq::empty(),
            }
        } else {
            Seq::empty()
        },
        _ => Seq::empty(),
    }
}

/// `headers` sets each custom request header of the request and each custom response header
/// of the response, and no others. A custom `Host` of the request, in any casing, becomes a
/// rewrite of the hostname.
pub proof fn law_headers_are_set(mw: Middleware, body: Json, h: HeaderSettingView)
    requires
        is_middleware(mw, "headers"@, body),
    ensures
        (exists|k: int|
            0 <= k < filters_of(mw).len() && #[trigger] sets_request(filters_of(mw)[k], h)) <==> (
        !spells_host(h.name) && exists|i: int|
            0 <= i < headers_under(body, "customRequestHeaders"@).len() && (
            #[trigger] headers_under(body, "customRequestHeaders"@)[i]).0 == h.name && is_text(
                headers_under(body, "customRequestHeaders"@)[i].1,
                h.value,
            )),
        (exists|k: int|
            0 <= k < filters_of(mw).len() && #[trigger] sets_response(filters_of(mw)[k], h)) <==> (
        exists|i: int|
            0 <= i < headers_under(body, "customResponseHeaders"@).len() && (
            #[trigger] headers_under(body, "customResponseHeaders"@)[i]).0 == h.name && is_text(
                headers_under(body, "customResponseHeaders"@)[i].1,
                h.value,
            )),
{
    lemma_kinds_differ();
    let sent = headers_under(body, "customRequestHeaders"@);
    let answered = headers_under(body, "customResponseHeaders"@);
    assert(sent == members_at(body, "customRequestHeaders"@));
    assert(answered == members_at(body, "customResponseHeaders"@));
    lemma_settings_members(sent, true, h);
    lemma_settings_members(answered, false, h);
    lemma_rewrites_only(sent);
    let fs = filters_of(mw);
    let hosts = host_rewrites_in(sent);
    let req = settings_in(sent, true);
    let resp = settings_in(answered, false);
    if req.len() > 0 {
        let f = fs[hosts.len() as int];
        assert(f.kind == FilterType::RequestHeaderModifier);
        assert(((f.request_header_modifier->0).set->0) == req);
        assert(sets_request(f, h) == req.contains(h));
    }
    if resp.len() > 0 {
        let f = fs[fs.len() - 1];
        assert(f.kind == FilterType::ResponseHeaderModifier);
        assert(((f.response_header_modifier->0).set->0) == resp);
        assert(sets_response(f, h) == resp.contains(h));
    }
}

proof fn lemma_rewrites_only(members: Seq<(Seq<char>, Json)>)
    ensures
        forall|k: int|
            0 <= k < host_rewrites_in(members).len() ==> (#[trigger] host_rewrites_in(
                members,
            )[k]).kind == FilterType::UrlRewrite,
    decreases members.len(),
{
    if members.len() > 0 {
        lemma_rewrites_only(members.drop_last());
    }
}

/// A custom `Host` header of the request becomes a rewrite of the hostname.
pub proof fn law_custom_host_rewrites_the_hostname(
    mw: Middleware,
    body: Json,
    i: int,
    host: Seq<char>,
)
    requires
        is_middleware(mw, "headers"@, body),
        0 <= i < headers_under(body, "customRequestHeaders"@).len(),
        spells_host(headers_under(body, "customRequestHeaders"@)[i].0),
        is_text(headers_under(body, "customRequestHeaders"@)[i].1, host),
    ensures
        exists|k: int|
            0 <= k < filters_of(mw).len() && #[trigger] rewrites_host(filters_of(mw)[k], host),
{
    lemma_kinds_differ();
    let sent = headers_under(body, "customRequestHeaders"@);
    assert(sent == members_at(body, "customRequestHeaders"@));
    lemma_host_rewrite(sent, i, host);
    let hosts = host_rewrites_in(sent);
    let k = choose|k: int| 0 <= k < hosts.len() && #[trigger] rewrites_host(hosts[k], host);
    assert(filters_of(mw)[k] == hosts[k]);
    assert(rewrites_host(filters_of(mw)[k], host));
}

/// A middleware of any other kind has no filter.
pub proof fn law_other_middlewares_have_no_filter(mw: Middleware, kind: Seq<char>, body: Json)
    requires
        is_middleware(mw, kind, body),
        kind != "redirectScheme"@,
        kind != "headers"@,
        kind != "addPrefix"@,
        kind != "replacePath"@,
        kind != "stripPrefix"@,
    ensures
        filters_of(mw).len() == 0,
{
}

/// A router is protected exactly when one of its middlewares is the badger plugin, or names
/// it without being defined.
pub proof fn law_badger_protects(names: Seq<Seq<char>>, middlewares: Middlewares)
    ensures
        is_protected(names, middlewares) <==> exists|i: int|
            0 <= i < names.len() && #[trigger] refers_to_badger(names[i], middlewares),
{
    assert forall|i: int| 0 <= i < names.len() implies #[trigger] refers_to_badger(
        names[i],
        middlewares,
    ) == names_badger(names[i], middlewares) by {}
    if exists|i: int| 0 <= i < names.len() && #[trigger] refers_to_badger(names[i], middlewares) {
        let i = choose|i: int|
            0 <= i < names.len() && #[trigger] refers_to_badger(names[i], middlewares);
        assert(names_badger(names[i], middlewares));
    }
    if is_protected(names, middlewares) {
        let i = choose|i: int|
            0 <= i < names.len() && names_badger(#[trigger] names[i], middlewares);
        assert(refers_to_badger(names[i], middlewares));
    }
}

/// The name stands for `{plugin: {badger: ..}}`, or is `badger` and stands for nothing.
pub open spec fn refers_to_badger(name: Seq<char>, middlewares: Middlewares) -> bool {
    if middlewares.contains_key(name) {
        &&& middlewares[name].0 matches Json::Object(map)
        &&& map@.contains_key("plugin"@)
        &&& map@["plugin"@] matches Json::Object(plugin)
        &&& plugin@.contains_key("badger"@)
    } else {
        name == "badger"@
    }
}

// ---- rules ------------------------------------------------------------------------------

/// A rule's filters come from the middlewares that its router names, and each of their
/// filters counts.
pub proof fn law_filters_come_from_named_middlewares(
    names: Seq<Seq<char>>,
    middlewares: Middlewares,
    f: RouteFilterView,
)
    ensures
        all_filters(names, middlewares).contains(f) <==> exists|i: int|
            0 <= i < names.len() && middlewares.contains_key(#[trigger] names[i]) && filters_of(
                middlewares[names[i]],
            ).contains(f),
        rule_filters(names, middlewares) == merged(all_filters(names, middlewares)),
    decreases names.len(),
{
    if names.len() > 0 {
        let rest = names.drop_last();
        law_filters_come_from_named_middlewares(rest, middlewares, f);
        let before = all_filters(rest, middlewares);
        let all = all_filters(names, middlewares);
        let last = names.last();
        if all.contains(f) {
            let k = choose|k: int| 0 <= k < all.len() && all[k] == f;
            if k < before.len() {
                assert(before[k] == f);
                let i = choose|i: int|
                    0 <= i < rest.len() && middlewares.contains_key(#[trigger] rest[i])
                        && filters_of(middlewares[rest[i]]).contains(f);
                assert(names[i] == rest[i]);
            } else {
                assert(filters_of(middlewares[last])[k - before.len()] == f);
                assert(names[names.len() - 1] == last);
            }
        }
        if exists|i: int|
            0 <= i < names.len() && middlewares.contains_key(#[trigger] names[i]) && filters_of(
                middlewares[names[i]],
            ).contains(f) {
            let i = choose|i: int|
                0 <= i < names.len() && middlewares.contains_key(#[trigger] names[i])
                    && filters_of(middlewares[names[i]]).contains(f);
            if i < rest.len() {
                assert(rest[i] == names[i]);
                let k = choose|k: int| 0 <= k < before.len() && before[k] == f;
                assert(all[k] == f);
            } else {
                let own = filters_of(middlewares[last]);
                let k = choose|k: int| 0 <= k < own.len() && own[k] == f;
                assert(all[before.len() + k] == f);
            }
        }
    }
}

/// The filters of a router with several middlewares stand in the order of its names.
pub proof fn law_filters_stand_in_order(a: Seq<Seq<char>>, b: Seq<Seq<char>>, m: Middlewares)
    ensures
        all_filters(a + b, m) == all_filters(a, m) + all_filters(b, m),
    decreases b.len(),
{
    if b.len() == 0 {
        assert(a + b =~= a);
        assert(all_filters(a, m) + all_filters(b, m) =~= all_filters(a, m));
    } else {
        assert((a + b).drop_last() =~= a + b.drop_last());
        law_filters_stand_in_order(a, b.drop_last(), m);
        let last = (a + b).last();
        assert(last == b.last());
        let own = if m.contains_key(last) {
            filters_of(m[last])
        } else {
            Seq::empty()
        };
        assert(all_filters(a, m) + all_filters(b.drop_last(), m) + own =~= all_filters(a, m) + (
        all_filters(b.drop_last(), m) + own));
    }
}

/// One filter alone stays as it is, where it says something.
pub proof fn law_merging_keeps_single_filters(f: RouteFilterView)
    requires
        f.kind == FilterType::UrlRewrite ==> f.url_rewrite is Some && f.request_redirect is None
            && f.request_header_modifier is None && f.response_header_modifier is None,
        f.kind == FilterType::RequestRedirect || f.kind == FilterType::UrlRewrite,
    ensures
        merged(seq![f]) == seq![f],
{
    let none = Seq::<RouteFilterView>::empty();
    assert(seq![f].drop_last() =~= none);
    reveal_with_fuel(taken_apart, 2);
    assert(merged(seq![f]) =~= seq![f]);
}

spec fn request_of(f: RouteFilterView) -> Seq<HeaderSettingView> {
    if f.kind == FilterType::RequestHeaderModifier {
        settings_of(f.request_header_modifier)
    } else {
        Seq::empty()
    }
}

spec fn response_of(f: RouteFilterView) -> Seq<HeaderSettingView> {
    if f.kind == FilterType::ResponseHeaderModifier {
        settings_of(f.response_header_modifier)
    } else {
        Seq::empty()
    }
}

proof fn lemma_apart_settings(filters: Seq<RouteFilterView>, h: HeaderSettingView)
    ensures
        taken_apart(filters).request.contains(h) <==> exists|i: int|
            0 <= i < filters.len() && #[trigger] sets_request(filters[i], h),
        taken_apart(filters).response.contains(h) <==> exists|i: int|
            0 <= i < filters.len() && #[trigger] sets_response(filters[i], h),
    decreases filters.len(),
{
    if filters.len() > 0 {
        let rest = filters.drop_last();
        lemma_apart_settings(rest, h);
        let f = filters.last();
        let (a, b) = (taken_apart(rest), taken_apart(filters));
        assert(b.request =~= a.request + request_of(f));
        assert(b.response =~= a.response + response_of(f));
        assert(request_of(f).contains(h) == sets_request(f, h));
        assert(response_of(f).contains(h) == sets_response(f, h));
        lemma_in_sum(a.request, request_of(f), h);
        lemma_in_sum(a.response, response_of(f), h);
        assert(filters[filters.len() - 1] == f);
        assert(forall|i: int| 0 <= i < rest.len() ==> filters[i] == #[trigger] rest[i]);
        if exists|i: int| 0 <= i < filters.len() && #[trigger] sets_request(filters[i], h) {
            let i = choose|i: int|
                0 <= i < filters.len() && #[trigger] sets_request(filters[i], h);
            if i < rest.len() {
                assert(sets_request(rest[i], h));
            }
        }
        if exists|i: int| 0 <= i < filters.len() && #[trigger] sets_response(filters[i], h) {
            let i = choose|i: int|
                0 <= i < filters.len() && #[trigger] sets_response(filters[i], h);
            if i < rest.len() {
                assert(sets_response(rest[i], h));
            }
        }
        if exists|i: int| 0 <= i < rest.len() && #[trigger] sets_request(rest[i], h) {
            let i = choose|i: int| 0 <= i < rest.len() && #[trigger] sets_request(rest[i], h);
            assert(sets_request(filters[i], h));
        }
        if exists|i: int| 0 <= i < rest.len() && #[trigger] sets_response(rest[i], h) {
            let i = choose|i: int| 0 <= i < rest.len() && #[trigger] sets_response(rest[i], h);
            assert(sets_response(filters[i], h));
        }
    }
}

proof fn lemma_in_sum(a: Seq<HeaderSettingView>, b: Seq<HeaderSettingView>, h: HeaderSettingView)
    ensures
        (a + b).contains(h) == (a.contains(h) || b.contains(h)),
{
    let s = a + b;
    if s.contains(h) {
        let k = choose|k: int| 0 <= k < s.len() && s[k] == h;
        if k < a.len() {
            assert(a[k] == h);
        } else {
            assert(b[k - a.len()] == h);
        }
    }
    if a.contains(h) {
        let k = choose|k: int| 0 <= k < a.len() && a[k] == h;
        assert(s[k] == h);
    }
    if b.contains(h) {
        let k = choose|k: int| 0 <= k < b.len() && b[k] == h;
        assert(s[a.len() + k] == h);
    }
}

/// Merging loses no header setting and makes none up, on the way in and on the way out.
pub proof fn law_merging_keeps_headers(filters: Seq<RouteFilterView>, h: HeaderSettingView)
    ensures
        (exists|k: int| 0 <= k < merged(filters).len() && #[trigger] sets_request(
            merged(filters)[k],
            h,
        )) <==> exists|i: int| 0 <= i < filters.len() && #[trigger] sets_request(filters[i], h),
        (exists|k: int| 0 <= k < merged(filters).len() && #[trigger] sets_response(
            merged(filters)[k],
            h,
        )) <==> exists|i: int| 0 <= i < filters.len() && #[trigger] sets_response(filters[i], h),
{
    let m = taken_apart(filters);
    let out = merged(filters);
    lemma_apart_settings(filters, h);
    lemma_others(filters);
    let n = m.others.len() as int;
    if m.request.len() > 0 {
        assert(out[n].kind == FilterType::RequestHeaderModifier);
        assert(sets_request(out[n], h) == m.request.contains(h));
    }
    let r = if m.request.len() > 0 {
        n + 1
    } else {
        n
    };
    if m.response.len() > 0 {
        assert(out[r].kind == FilterType::ResponseHeaderModifier);
        assert(sets_response(out[r], h) == m.response.contains(h));
    }
}

proof fn lemma_others(filters: Seq<RouteFilterView>)
    ensures
        forall|i: int|
            0 <= i < taken_apart(filters).others.len() ==> (#[trigger] taken_apart(
                filters,
            ).others[i]).kind == FilterType::RequestRedirect,
        forall|f: RouteFilterView|
            f.kind == FilterType::RequestRedirect ==> (#[trigger] taken_apart(
                filters,
            ).others.contains(f) <==> filters.contains(f)),
    decreases filters.len(),
{
    if filters.len() > 0 {
        let rest = filters.drop_last();
        lemma_others(rest);
        let (a, b) = (taken_apart(rest).others, taken_apart(filters).others);
        assert forall|f: RouteFilterView| f.kind == FilterType::RequestRedirect implies (
        #[trigger] b.contains(f) <==> filters.contains(f)) by {
            if b.contains(f) {
                let k = choose|k: int| 0 <= k < b.len() && b[k] == f;
                if k < a.len() {
                    assert(a[k] == f);
                    assert(a.contains(f));
                    let i = choose|i: int| 0 <= i < rest.len() && rest[i] == f;
                    assert(filters[i] == f);
                } else {
                    assert(filters[filters.len() - 1] == f);
                }
            }
            if filters.contains(f) {
                let i = choose|i: int| 0 <= i < filters.len() && filters[i] == f;
                if i < rest.len() {
                    assert(rest[i] == f);
                    assert(a.contains(f));
                    let k = choose|k: int| 0 <= k < a.len() && a[k] == f;
                    assert(b[k] == f);
                } else {
                    assert(b[b.len() - 1] == f);
                }
            }
        }
    }
}

/// Merging keeps every redirect, and makes none up.
pub proof fn law_merging_keeps_redirects(filters: Seq<RouteFilterView>, f: RouteFilterView)
    requires
        f.kind == FilterType::RequestRedirect,
    ensures
        merged(filters).contains(f) <==> filters.contains(f),
{
    lemma_others(filters);
    let m = taken_apart(filters);
    let out = merged(filters);
    assert(m.others.contains(f) <==> filters.contains(f));
    if m.others.contains(f) {
        let k = choose|k: int| 0 <= k < m.others.len() && m.others[k] == f;
        assert(out[k] == f);
    }
    if out.contains(f) {
        let k = choose|k: int| 0 <= k < out.len() && out[k] == f;
        assert(k < m.others.len());
        assert(m.others[k] == f);
    }
}

/// The filter rewrites the URL and says something of its hostname.
pub open spec fn has_hostname(f: RouteFilterView) -> bool {
    f.kind == FilterType::UrlRewrite && f.url_rewrite is Some && (f.url_rewrite->0).hostname
        is Some
}

/// The filter rewrites the URL and says something of its path.
pub open spec fn has_path(f: RouteFilterView) -> bool {
    f.kind == FilterType::UrlRewrite && f.url_rewrite is Some && (f.url_rewrite->0).path is Some
}

proof fn lemma_apart_rewrite(filters: Seq<RouteFilterView>)
    ensures
        ({
            let m = taken_apart(filters).rewrite;
            &&& m is None <==> forall|i: int|
                0 <= i < filters.len() ==> !((#[trigger] filters[i]).kind == FilterType::UrlRewrite
                    && filters[i].url_rewrite is Some)
            &&& m is Some ==> ((m->0).hostname is None <==> forall|i: int|
                0 <= i < filters.len() ==> !has_hostname(#[trigger] filters[i]))
            &&& m is Some ==> ((m->0).path is None <==> forall|i: int|
                0 <= i < filters.len() ==> !has_path(#[trigger] filters[i]))
        }),
    decreases filters.len(),
{
    if filters.len() > 0 {
        let rest = filters.drop_last();
        lemma_apart_rewrite(rest);
        let f = filters.last();
        assert(filters[filters.len() - 1] == f);
        assert(forall|i: int| 0 <= i < rest.len() ==> filters[i] == #[trigger] rest[i]);
        let m = taken_apart(filters).rewrite;
        let a = taken_apart(rest).rewrite;
        let is_rw = f.kind == FilterType::UrlRewrite && f.url_rewrite is Some;
        if !is_rw {
            assert(m == a);
        }
        assert((forall|i: int| 0 <= i < filters.len() ==> !has_hostname(#[trigger] filters[i]))
            <==> (!has_hostname(f) && forall|i: int|
            0 <= i < rest.len() ==> !has_hostname(#[trigger] rest[i]))) by {
            if forall|i: int| 0 <= i < filters.len() ==> !has_hostname(#[trigger] filters[i]) {
                assert forall|i: int| 0 <= i < rest.len() implies !has_hostname(
                    #[trigger] rest[i],
                ) by {
                    assert(!has_hostname(filters[i]));
                }
            }
            if !has_hostname(f) && forall|i: int|
                0 <= i < rest.len() ==> !has_hostname(#[trigger] rest[i]) {
                assert forall|i: int| 0 <= i < filters.len() implies !has_hostname(
                    #[trigger] filters[i],
                ) by {
                    if i < rest.len() {
                        assert(!has_hostname(rest[i]));
                    }
                }
            }
        }
        assert((forall|i: int| 0 <= i < filters.len() ==> !has_path(#[trigger] filters[i])) <==> (
        !has_path(f) && forall|i: int| 0 <= i < rest.len() ==> !has_path(#[trigger] rest[i]))) by {
            if forall|i: int| 0 <= i < filters.len() ==> !has_path(#[trigger] filters[i]) {
                assert forall|i: int| 0 <= i < rest.len() implies !has_path(#[trigger] rest[i]) by {
                    assert(!has_path(filters[i]));
                }
            }
            if !has_path(f) && forall|i: int|
                0 <= i < rest.len() ==> !has_path(#[trigger] rest[i]) {
                assert forall|i: int| 0 <= i < filters.len() implies !has_path(
                    #[trigger] filters[i],
                ) by {
                    if i < rest.len() {
                        assert(!has_path(rest[i]));
                    }
                }
            }
        }
        let all_no = forall|i: int|
            0 <= i < filters.len() ==> !((#[trigger] filters[i]).kind == FilterType::UrlRewrite
                && filters[i].url_rewrite is Some);
        let rest_no = forall|i: int|
            0 <= i < rest.len() ==> !((#[trigger] rest[i]).kind == FilterType::UrlRewrite
                && rest[i].url_rewrite is Some);
        assert(all_no <==> !is_rw && rest_no) by {
            if all_no {
                assert forall|i: int| 0 <= i < rest.len() implies !((#[trigger] rest[i]).kind
                    == FilterType::UrlRewrite && rest[i].url_rewrite is Some) by {
                    assert(filters[i] == rest[i]);
                }
            }
            if !is_rw && rest_no {
                assert forall|i: int| 0 <= i < filters.len() implies !((#[trigger] filters[i]).kind
                    == FilterType::UrlRewrite && filters[i].url_rewrite is Some) by {
                    if i < rest.len() {
                        assert(filters[i] == rest[i]);
                    }
                }
            }
        }
    }
}

proof fn lemma_last_hostname(filters: Seq<RouteFilterView>, i: int)
    requires
        0 <= i < filters.len(),
        has_hostname(filters[i]),
        forall|j: int| i < j < filters.len() ==> !has_hostname(#[trigger] filters[j]),
    ensures
        taken_apart(filters).rewrite is Some,
        (taken_apart(filters).rewrite->0).hostname == (filters[i].url_rewrite->0).hostname,
    decreases filters.len(),
{
    let rest = filters.drop_last();
    if i < rest.len() {
        assert(rest[i] == filters[i]);
        assert forall|j: int| i < j < rest.len() implies !has_hostname(#[trigger] rest[j]) by {
            assert(rest[j] == filters[j]);
        }
        lemma_last_hostname(rest, i);
        assert(!has_hostname(filters[filters.len() - 1]));
    }
}

proof fn lemma_first_path(filters: Seq<RouteFilterView>, i: int)
    requires
        0 <= i < filters.len(),
        has_path(filters[i]),
        forall|j: int| 0 <= j < i ==> !has_path(#[trigger] filters[j]),
    ensures
        taken_apart(filters).rewrite is Some,
        (taken_apart(filters).rewrite->0).path == (filters[i].url_rewrite->0).path,
    decreases filters.len(),
{
    let rest = filters.drop_last();
    if i < rest.len() {
        assert(rest[i] == filters[i]);
        assert forall|j: int| 0 <= j < i implies !has_path(#[trigger] rest[j]) by {
            assert(rest[j] == filters[j]);
        }
        lemma_first_path(rest, i);
    } else {
        lemma_apart_rewrite(rest);
        assert forall|j: int| 0 <= j < rest.len() implies !has_path(#[trigger] rest[j]) by {
            assert(rest[j] == filters[j]);
        }
    }
}

/// Several rewrites become one, behind all other filters: the last hostname wins, and the
/// first path. Without a rewrite there is none.
pub proof fn law_merging_combines_rewrites(filters: Seq<RouteFilterView>, host: int, path: int)
    ensures
        (0 <= host < filters.len() && has_hostname(filters[host]) && forall|j: int|
            host < j < filters.len() ==> !has_hostname(#[trigger] filters[j])) ==> has_hostname(
            merged(filters).last(),
        ) && (merged(filters).last().url_rewrite->0).hostname == (
        filters[host].url_rewrite->0).hostname,
        (0 <= path < filters.len() && has_path(filters[path]) && forall|j: int|
            0 <= j < path ==> !has_path(#[trigger] filters[j])) ==> has_path(
            merged(filters).last(),
        ) && (merged(filters).last().url_rewrite->0).path == (filters[path].url_rewrite->0).path,
        (forall|j: int| 0 <= j < filters.len() ==> !has_hostname(#[trigger] filters[j]))
            ==> forall|k: int|
            0 <= k < merged(filters).len() ==> !has_hostname(#[trigger] merged(filters)[k]),
        (forall|j: int| 0 <= j < filters.len() ==> !has_path(#[trigger] filters[j]))
            ==> forall|k: int|
            0 <= k < merged(filters).len() ==> !has_path(#[trigger] merged(filters)[k]),
{
    lemma_others(filters);
    lemma_apart_rewrite(filters);
    if 0 <= host < filters.len() && has_hostname(filters[host]) && forall|j: int|
        host < j < filters.len() ==> !has_hostname(#[trigger] filters[j]) {
        lemma_last_hostname(filters, host);
    }
    if 0 <= path < filters.len() && has_path(filters[path]) && forall|j: int|
        0 <= j < path ==> !has_path(#[trigger] filters[j]) {
        lemma_first_path(filters, path);
    }
}

} // verus!
