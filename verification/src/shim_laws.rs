//! What the ext-authz shim promises of a check.

use vstd::prelude::*;

use crate::config::env::{Env, ErrorKind};
use crate::config::laws::set_or;
use crate::duration::duration_of;
use crate::json::Json;
use crate::shim::{
    call_outcome, canonical, context_of, endpoint_text, exchanged, first_values, header_of,
    header_text, headers_of, is_exchange_json, is_verify_json, no_exchange, no_session,
    other_pairs, query_stripped, session_of, sessions_of, shim_error, shim_settings, started,
    verified, verify_body_of, without_path_prefix, CheckContextView, CheckNextView,
    CheckRequestView, CheckStartView, ExchangeBodyView, ExchangeDataView, HeaderFieldView,
    ShimConfigView, Texts, UserDataView, VerifyBodyView, VerifyDataView,
};
use crate::text::{lower, split, trim, trim_end_char};
use crate::text_laws::{
    joined, law_prefixes_are_stripped, law_split_once_at_the_first, law_split_undoes_join,
};
use crate::urls::{pairs_of, query_of, url_of};

verus! {

// ---- headers ----------------------------------------------------------------------------

/// A header that pangolin is to see: any but cookies, where it can be read.
pub open spec fn is_forwarded(f: HeaderFieldView) -> bool {
    f.name != "cookie"@ && f.value is Some
}

/// Every readable header but cookies is forwarded under its canonical name, with the value
/// of the first of that canonical name.
pub proof fn law_headers_are_forwarded(fields: Seq<HeaderFieldView>, i: int)
    requires
        0 <= i < fields.len(),
        is_forwarded(fields[i]),
    ensures
        headers_of(fields).contains_key(canonical(fields[i].name)),
        (forall|j: int|
            0 <= j < i && is_forwarded(#[trigger] fields[j]) ==> canonical(fields[j].name)
                != canonical(fields[i].name)) ==> headers_of(fields)[canonical(fields[i].name)]
            == fields[i].value->0,
    decreases fields.len(),
{
    let rest = fields.drop_last();
    let key = canonical(fields[i].name);
    if i < rest.len() {
        assert(rest[i] == fields[i]);
        law_headers_are_forwarded(rest, i);
        if forall|j: int|
            0 <= j < i && is_forwarded(#[trigger] fields[j]) ==> canonical(fields[j].name) != key {
            assert forall|j: int| 0 <= j < i && is_forwarded(#[trigger] rest[j]) implies canonical(
                rest[j].name,
            ) != key by {
                assert(rest[j] == fields[j]);
            }
        }
    } else {
        if forall|j: int|
            0 <= j < i && is_forwarded(#[trigger] fields[j]) ==> canonical(fields[j].name) != key {
            if headers_of(rest).contains_key(key) {
                law_forwarded_headers_were_sent(rest, key);
                let j = choose|j: int|
                    0 <= j < rest.len() && is_forwarded(#[trigger] rest[j]) && canonical(
                        rest[j].name,
                    ) == key && rest[j].value == Some(headers_of(rest)[key]);
                assert(fields[j] == rest[j]);
            }
        }
    }
}

/// Nothing else is forwarded: every header comes from a readable one that was sent and is no
/// cookie.
pub proof fn law_forwarded_headers_were_sent(fields: Seq<HeaderFieldView>, key: Seq<char>)
    requires
        headers_of(fields).contains_key(key),
    ensures
        exists|j: int|
            0 <= j < fields.len() && is_forwarded(#[trigger] fields[j]) && canonical(fields[j].name)
                == key && fields[j].value == Some(headers_of(fields)[key]),
    decreases fields.len(),
{
    if fields.len() > 0 {
        let rest = fields.drop_last();
        let last = fields.last();
        if headers_of(rest).contains_key(key) {
            law_forwarded_headers_were_sent(rest, key);
            let j = choose|j: int|
                0 <= j < rest.len() && is_forwarded(#[trigger] rest[j]) && canonical(rest[j].name)
                    == key && rest[j].value == Some(headers_of(rest)[key]);
            assert(fields[j] == rest[j]);
        } else {
            assert(fields[fields.len() - 1] == last);
        }
    }
}

/// The canonical name has a capital at its start and behind each dash, and small letters
/// elsewhere; all else stays.
pub proof fn law_canonical_casing(name: Seq<char>, i: int)
    requires
        0 <= i < name.len(),
    ensures
        canonical(name).len() == name.len(),
        ({
            let c = name[i];
            let head = i == 0 || name[i - 1] == '-';
            let r = canonical(name)[i];
            &&& head && 'a' <= c && c <= 'z' ==> r as int == c as int - 32
            &&& !head && 'A' <= c && c <= 'Z' ==> r as int == c as int + 32
            &&& !(head && 'a' <= c && c <= 'z') && !(!head && 'A' <= c && c <= 'Z') ==> r == c
        }),
{
}

/// A header is read from the first field of its name.
pub proof fn law_the_first_field_counts(fields: Seq<HeaderFieldView>, name: Seq<char>, i: int)
    requires
        forall|j: int| 0 <= j < i ==> (#[trigger] fields[j]).name != name,
        0 <= i <= fields.len(),
        i < fields.len() ==> fields[i].name == name,
    ensures
        i < fields.len() ==> header_of(fields, name) == fields[i].value,
        i == fields.len() ==> header_of(fields, name) is None,
    decreases fields.len(),
{
    if i > 0 {
        assert(fields[0].name != name);
        let rest = fields.drop_first();
        assert forall|j: int| 0 <= j < i - 1 implies (#[trigger] rest[j]).name != name by {
            assert(rest[j] == fields[j + 1]);
        }
        law_the_first_field_counts(rest, name, i - 1);
    }
}

// ---- cookies ----------------------------------------------------------------------------

/// The cookies of a header are the sessions whose names carry the prefix: of `a=1; b=2` the
/// value behind the first `=`, without white space around name and value. The last cookie of
/// a name counts.
pub proof fn law_session_cookies_are_collected(
    cookies: Seq<Seq<char>>,
    prefix: Seq<char>,
    i: int,
    name: Seq<char>,
    value: Seq<char>,
)
    requires
        cookies.len() > 0,
        forall|j: int| 0 <= j < cookies.len() ==> !(#[trigger] cookies[j]).contains(';'),
        0 <= i < cookies.len(),
        cookies[i] == name + seq!['='] + value,
        !name.contains('='),
        trim(name).len() > 0,
        prefix.len() <= trim(name).len(),
        trim(name).take(prefix.len() as int) == prefix,
        forall|j: int|
            i < j < cookies.len() ==> !cookie_named(#[trigger] cookies[j], trim(name)),
    ensures
        ({
            let found = sessions_of(split(joined(cookies, ';'), ';'), prefix);
            &&& found.contains_key(trim(name))
            &&& found[trim(name)] == trim(value)
        }),
{
    law_split_undoes_join(cookies, ';');
    law_split_once_at_the_first(name, '=', value);
    lemma_session(cookies, prefix, i, trim(name), trim(value));
}

/// Nothing else is a session: each has a name, which carries the prefix, and was sent as a
/// cookie of that name.
pub proof fn law_sessions_are_cookies(cookies: Seq<Seq<char>>, prefix: Seq<char>, name: Seq<char>)
    requires
        sessions_of(cookies, prefix).contains_key(name),
    ensures
        name.len() > 0,
        prefix.len() <= name.len(),
        name.take(prefix.len() as int) == prefix,
        exists|i: int|
            0 <= i < cookies.len() && cookie_named(#[trigger] cookies[i], name) && (
            crate::text::split_once(cookies[i], '=') matches Some(p) && trim(p.1) == sessions_of(
                cookies,
                prefix,
            )[name]),
    decreases cookies.len(),
{
    let rest = cookies.drop_last();
    let last = cookies[cookies.len() - 1];
    match session_of(last, prefix) {
        Some(found) => {
            if found.0 == name {
                assert(cookie_named(last, name));
            } else {
                law_sessions_are_cookies(rest, prefix, name);
                let i = choose|i: int|
                    0 <= i < rest.len() && cookie_named(#[trigger] rest[i], name) && (
                    crate::text::split_once(rest[i], '=') matches Some(p) && trim(p.1)
                        == sessions_of(rest, prefix)[name]);
                assert(cookies[i] == rest[i]);
            }
        },
        None => {
            law_sessions_are_cookies(rest, prefix, name);
            let i = choose|i: int|
                0 <= i < rest.len() && cookie_named(#[trigger] rest[i], name) && (
                crate::text::split_once(rest[i], '=') matches Some(p) && trim(p.1) == sessions_of(
                    rest,
                    prefix,
                )[name]);
            assert(cookies[i] == rest[i]);
        },
    }
}

/// The cookie has that name.
pub open spec fn cookie_named(cookie: Seq<char>, name: Seq<char>) -> bool {
    crate::text::split_once(cookie, '=') matches Some(p) && trim(p.0) == name
}

proof fn lemma_session(
    cookies: Seq<Seq<char>>,
    prefix: Seq<char>,
    i: int,
    name: Seq<char>,
    value: Seq<char>,
)
    requires
        0 <= i < cookies.len(),
        session_of(cookies[i], prefix) == Some((name, value)),
        forall|j: int| i < j < cookies.len() ==> !cookie_named(#[trigger] cookies[j], name),
    ensures
        sessions_of(cookies, prefix).contains_key(name),
        sessions_of(cookies, prefix)[name] == value,
    decreases cookies.len(),
{
    let rest = cookies.drop_last();
    if i < rest.len() {
        assert(rest[i] == cookies[i]);
        assert forall|j: int| i < j < rest.len() implies !cookie_named(#[trigger] rest[j], name) by {
            assert(rest[j] == cookies[j]);
        }
        lemma_session(rest, prefix, i, name, value);
        assert(!cookie_named(cookies[cookies.len() - 1], name));
    }
}

// ---- queries ----------------------------------------------------------------------------

/// The first value of a name counts, and names that do not occur have none.
pub proof fn law_first_values_count(pairs: Seq<(Seq<char>, Seq<char>)>, i: int, name: Seq<char>)
    ensures
        0 <= i < pairs.len() && (forall|j: int| 0 <= j < i ==> (#[trigger] pairs[j]).0 != pairs[i].0)
            ==> first_values(pairs).contains_key(pairs[i].0) && first_values(pairs)[pairs[i].0]
            == pairs[i].1,
        (forall|j: int| 0 <= j < pairs.len() ==> (#[trigger] pairs[j]).0 != name)
            ==> !first_values(pairs).contains_key(name),
    decreases pairs.len(),
{
    if pairs.len() > 0 {
        let rest = pairs.drop_last();
        assert(pairs[pairs.len() - 1] == pairs.last());
        if 0 <= i < pairs.len() && (forall|j: int|
            0 <= j < i ==> (#[trigger] pairs[j]).0 != pairs[i].0) {
            if i < rest.len() {
                assert(rest[i] == pairs[i]);
                assert forall|j: int| 0 <= j < i implies (#[trigger] rest[j]).0 != rest[i].0 by {
                    assert(rest[j] == pairs[j]);
                }
                law_first_values_count(rest, i, name);
            } else {
                assert forall|j: int| 0 <= j < rest.len() implies (#[trigger] rest[j]).0
                    != pairs[i].0 by {
                    assert(rest[j] == pairs[j]);
                }
                law_first_values_count(rest, i, pairs[i].0);
            }
        }
        if forall|j: int| 0 <= j < pairs.len() ==> (#[trigger] pairs[j]).0 != name {
            assert forall|j: int| 0 <= j < rest.len() implies (#[trigger] rest[j]).0 != name by {
                assert(rest[j] == pairs[j]);
            }
            law_first_values_count(rest, -1, name);
        }
    }
}

/// Taking a parameter out leaves all other pairs, in order.
pub proof fn law_other_pairs_stay(
    a: Seq<(Seq<char>, Seq<char>)>,
    pair: (Seq<char>, Seq<char>),
    param: Seq<char>,
)
    ensures
        pair.0 != param ==> other_pairs(a.push(pair), param) == other_pairs(a, param).push(pair),
        pair.0 == param ==> other_pairs(a.push(pair), param) == other_pairs(a, param),
        other_pairs(Seq::empty(), param).len() == 0,
{
    assert(a.push(pair).drop_last() =~= a);
}

/// A path without a query stays as it is; where pairs are left, they stand behind the path as
/// a query, and where none is left, the path stands alone.
pub proof fn law_stripping_keeps_the_path(path: Seq<char>, query: Seq<char>, param: Seq<char>)
    requires
        !path.contains('?'),
    ensures
        query_stripped(path, param) == path,
        ({
            let kept = other_pairs(pairs_of(query), param);
            let out = query_stripped(path + seq!['?'] + query, param);
            &&& kept.len() == 0 ==> out == path
            &&& kept.len() > 0 ==> out == path + seq!['?'] + query_of(kept)
        }),
{
    law_split_once_at_the_first(path, '?', query);
    reveal_strlit("?");
    assert("?"@ =~= seq!['?']);
}

// ---- paths ------------------------------------------------------------------------------

/// The configured prefix is taken off at the end of a segment: alone it leaves the root, a
/// query behind it hangs at the root, and a longer segment is no match. A slash at the end of
/// the prefix makes no difference, and without a prefix the path stays.
pub proof fn law_prefixes_match_segments(prefix: Seq<char>, rest: Seq<char>, path: Seq<char>)
    requires
        prefix.len() > 0,
        prefix.last() != '/',
    ensures
        without_path_prefix(prefix, prefix) == Some(seq!['/']),
        without_path_prefix(prefix, prefix + seq!['?'] + rest) == Some(seq!['/', '?'] + rest),
        without_path_prefix(prefix, prefix + seq!['/'] + rest) == Some(seq!['/'] + rest),
        rest.len() > 0 && rest[0] != '/' && rest[0] != '?' ==> without_path_prefix(
            prefix,
            prefix + rest,
        ) is None,
        without_path_prefix(prefix + seq!['/'], path) == without_path_prefix(prefix, path),
        !(prefix.len() <= path.len() && path.take(prefix.len() as int) == prefix)
            ==> without_path_prefix(prefix, path) is None,
        without_path_prefix(Seq::empty(), path) == Some(path),
        without_path_prefix(seq!['/'], path) == Some(path),
{
    reveal_strlit("");
    reveal_strlit("/");
    assert(""@ =~= Seq::<char>::empty());
    assert("/"@ =~= seq!['/']);
    if prefix == "/"@ {
        assert(prefix.last() == '/');
    }
    assert(trim_end_char(prefix, '/') == prefix);
    let slashed = prefix + seq!['/'];
    assert(slashed.drop_last() =~= prefix);
    assert(slashed.last() == '/');
    assert(trim_end_char(slashed, '/') == prefix);
    assert(slashed.len() >= 2);
    law_prefixes_are_stripped(prefix, Seq::empty(), path);
    assert(prefix + Seq::<char>::empty() =~= prefix);
    let q = seq!['?'] + rest;
    law_prefixes_are_stripped(prefix, q, path);
    assert(prefix + seq!['?'] + rest =~= prefix + q);
    assert("/"@ + q =~= seq!['/', '?'] + rest);
    let s = seq!['/'] + rest;
    law_prefixes_are_stripped(prefix, s, path);
    assert(prefix + seq!['/'] + rest =~= prefix + s);
    law_prefixes_are_stripped(prefix, rest, path);
}

// ---- checks -----------------------------------------------------------------------------

/// What a header says, or the default.
pub open spec fn header_or(
    fields: Seq<HeaderFieldView>,
    name: Seq<char>,
    default: Seq<char>,
) -> Seq<char> {
    if header_of(fields, name) is Some {
        header_of(fields, name)->0
    } else {
        default
    }
}

/// A request without a host is a bad request.
pub proof fn law_hosts_are_required(cfg: ShimConfigView, req: CheckRequestView)
    ensures
        context_of(cfg, req) is None <==> header_of(req.headers, "host"@) is None || (header_of(
            req.headers,
            "host"@,
        )->0).len() == 0,
        context_of(cfg, req) is None ==> (started(cfg, req) matches CheckStartView::Answer(r)
            && r.status == 400 && r.headers.len() == 0),
{
    reveal_strlit("");
}

/// What a check knows of its request: the host, the scheme that the proxy saw, the method,
/// the path behind the prefix, its query, the session cookies and the headers.
pub proof fn law_checks_know_their_request(cfg: ShimConfigView, req: CheckRequestView)
    requires
        context_of(cfg, req) is Some,
    ensures
        ({
            let c = context_of(cfg, req)->0;
            let full = if req.path_and_query is Some {
                req.path_and_query->0
            } else {
                seq!['/']
            };
            &&& Some(c.host) == header_of(req.headers, "host"@)
            &&& c.scheme == header_or(req.headers, "x-forwarded-proto"@, "https"@)
            &&& c.method == req.method
            &&& c.headers == headers_of(req.headers)
            &&& c.sessions == sessions_of(
                split(header_or(req.headers, "cookie"@, Seq::empty()), ';'),
                cfg.user_session_cookie_name,
            )
            &&& without_path_prefix(cfg.path_prefix, full) is Some ==> c.original
                == without_path_prefix(cfg.path_prefix, full)->0
            &&& without_path_prefix(cfg.path_prefix, full) is None ==> c.original == full
            &&& !c.original.contains('?') ==> c.path == c.original && c.query == first_values(
                pairs_of(Seq::empty()),
            )
            &&& c.original.contains('?') ==> !c.path.contains('?') && exists|query: Seq<char>|
                c.original == #[trigger] (c.path + seq!['?'] + query) && c.query == first_values(
                    pairs_of(query),
                )
        }),
{
    reveal_strlit("");
    reveal_strlit("/");
    assert(""@ =~= Seq::<char>::empty());
    assert("/"@ =~= seq!['/']);
    let c = context_of(cfg, req)->0;
    crate::text::lemma_find(c.original, '?');
    let n = crate::text::find(c.original, '?') as int;
    if c.original.contains('?') {
        let query = c.original.skip(n + 1);
        assert(c.original =~= c.path + seq!['?'] + query);
        assert(!c.path.contains('?'));
    }
}

/// The client's address is the first of those that the proxies list, without white space
/// around it; there is none where nothing stands there.
pub proof fn law_the_first_address_counts(
    cfg: ShimConfigView,
    req: CheckRequestView,
    first: Seq<char>,
    rest: Seq<char>,
)
    requires
        context_of(cfg, req) is Some,
        !first.contains(','),
    ensures
        ({
            let ip = (context_of(cfg, req)->0).request_ip;
            let listed = header_of(req.headers, "x-forwarded-for"@);
            &&& listed is None ==> ip is None
            &&& listed == Some(first) || listed == Some(first + seq![','] + rest) ==> if trim(
                first,
            ).len() > 0 {
                ip == Some(trim(first))
            } else {
                ip is None
            }
        }),
{
    law_split_once_at_the_first(first, ',', rest);
}

/// A request whose query carries the session-request parameter has its token exchanged; any
/// other is verified.
pub proof fn law_tokens_are_exchanged(cfg: ShimConfigView, req: CheckRequestView)
    requires
        context_of(cfg, req) is Some,
    ensures
        ({
            let c = context_of(cfg, req)->0;
            let param = cfg.resource_session_request_param;
            &&& c.query.contains_key(param) ==> (started(cfg, req) matches CheckStartView::Exchange(
                kept,
                body,
            ) && kept == c && body.request_token == c.query[param] && body.request_ip
                == c.request_ip && (!c.host.contains(':') ==> body.host == c.host))
            &&& !c.query.contains_key(param) ==> (started(cfg, req) matches CheckStartView::Verify(
                body,
            ) && body == verify_body_of(c))
        }),
{
    let c = context_of(cfg, req)->0;
    if !c.host.contains(':') {
        law_split_once_at_the_first(c.host, ':', Seq::empty());
    }
}

/// The exchange names the host without its port.
pub proof fn law_exchanges_name_the_bare_host(
    cfg: ShimConfigView,
    req: CheckRequestView,
    host: Seq<char>,
    port: Seq<char>,
)
    requires
        header_of(req.headers, "host"@) == Some(host + seq![':'] + port),
        host.len() > 0,
        !host.contains(':'),
    ensures
        started(cfg, req) matches CheckStartView::Exchange(_, body) ==> body.host == host,
{
    law_split_once_at_the_first(host, ':', port);
}

/// The verification tells pangolin all that the check knows: sessions, headers, query, the
/// URL that was asked for and its parts, and whether it came over TLS.
pub proof fn law_verifications_tell_all(c: CheckContextView)
    ensures
        ({
            let b = verify_body_of(c);
            &&& b.sessions == c.sessions
            &&& b.headers == c.headers
            &&& b.query == c.query
            &&& b.scheme == c.scheme
            &&& b.host == c.host
            &&& b.path == c.path
            &&& b.method == c.method
            &&& b.request_ip == c.request_ip
            &&& b.tls <==> c.scheme == "https"@
            &&& b.original_request_url == c.scheme + seq![':', '/', '/'] + c.host + c.original
        }),
{
    reveal_strlit("://");
    assert("://"@ =~= seq![':', '/', '/']);
}

/// A readable header of the request but a cookie reaches pangolin with the verification,
/// under its canonical name and with the first value of that name.
pub proof fn law_verifications_forward_headers(
    cfg: ShimConfigView,
    req: CheckRequestView,
    i: int,
)
    requires
        0 <= i < req.headers.len(),
        is_forwarded(req.headers[i]),
    ensures
        started(cfg, req) matches CheckStartView::Verify(body) ==> body.headers.contains_key(
            canonical(req.headers[i].name),
        ) && ((forall|j: int|
            0 <= j < i && is_forwarded(#[trigger] req.headers[j]) ==> canonical(
                req.headers[j].name,
            ) != canonical(req.headers[i].name)) ==> body.headers[canonical(req.headers[i].name)]
            == req.headers[i].value->0),
        started(cfg, req) matches CheckStartView::Exchange(c, _) ==> verify_body_of(
            c,
        ).headers.contains_key(canonical(req.headers[i].name)),
{
    law_headers_are_forwarded(req.headers, i);
}

// ---- answers ----------------------------------------------------------------------------

/// What comes of an exchange: an outage denies, a session cookie sends the client back to
/// the original URL without the parameter, and anything else is verified.
pub proof fn law_exchanges_are_answered(
    cfg: ShimConfigView,
    c: CheckContextView,
    data: Option<ExchangeDataView>,
)
    ensures
        ({
            let won = data is Some && (data->0).valid && (data->0).cookie is Some && ((
            data->0).cookie->0).len() > 0;
            let cookie = (data->0).cookie->0;
            let next = exchanged(cfg, c, data);
            &&& data is None ==> (next matches CheckNextView::Answer(r) && r.status == 503
                && r.headers.len() == 0)
            &&& won && header_text(cookie) ==> (next matches CheckNextView::Answer(r) && r.status
                == 302 && r.body.len() == 0 && r.headers == seq![
                (
                    "location"@,
                    c.scheme + seq![':', '/', '/'] + c.host + query_stripped(
                        c.original,
                        cfg.resource_session_request_param,
                    ),
                ),
                ("set-cookie"@, cookie),
            ])
            &&& won && !header_text(cookie) ==> (next matches CheckNextView::Answer(r) && r.status
                == 503 && r.headers.len() == 0)
            &&& data is Some && !won ==> next == CheckNextView::Verify(verify_body_of(c))
        }),
{
    reveal_strlit("://");
    reveal_strlit("");
    assert("://"@ =~= seq![':', '/', '/']);
}

/// What comes of a verification: an outage denies; else a redirect counts first, a challenge
/// next, and only then a valid session. Nothing else passes.
pub proof fn law_verifications_are_answered(data: Option<VerifyDataView>)
    ensures
        ({
            let r = verified(data);
            let d = data->0;
            let redirect = d.redirect_url is Some && (d.redirect_url->0).len() > 0;
            let challenged = d.header_auth_challenged == Some(true);
            &&& data is None ==> r.status == 503 && r.headers.len() == 0
            &&& data is Some && redirect && header_text(d.redirect_url->0) ==> r.status == 302
                && r.headers == seq![("location"@, d.redirect_url->0)]
            &&& data is Some && redirect && !header_text(d.redirect_url->0) ==> r.status == 503
                && r.headers.len() == 0
            &&& data is Some && !redirect && challenged ==> r.status == 401 && r.headers == seq![
                ("www-authenticate"@, "Basic realm=\"pangolin\""@),
            ]
            &&& data is Some && !redirect && !challenged && d.valid ==> r.status == 200
                && r.body.len() == 0
            &&& data is Some && !redirect && !challenged && !d.valid ==> r.status == 401
                && r.headers.len() == 0
        }),
{
    reveal_strlit("");
}

/// A field of the user, by the header that carries it.
pub open spec fn user_field(u: UserDataView, name: Seq<char>) -> Option<Seq<char>> {
    if name == "remote-user-id"@ {
        u.user_id
    } else if name == "remote-user"@ {
        u.username
    } else if name == "remote-email"@ {
        u.email
    } else if name == "remote-name"@ {
        u.name
    } else if name == "remote-role"@ {
        u.role
    } else {
        None
    }
}

/// A session that passes carries the user's identity: one header for each known field that
/// can stand in a header, and no other.
pub proof fn law_passes_carry_the_identity(d: VerifyDataView, name: Seq<char>, value: Seq<char>)
    requires
        verified(Some(d)).status == 200,
    ensures
        verified(Some(d)).headers.contains((name, value)) <==> d.user_data is Some && user_field(
            d.user_data->0,
            name,
        ) == Some(value) && header_text(value),
{
    lemma_identity_names();
    if d.user_data is Some {
        let u = d.user_data->0;
        let a = crate::shim::identity_header("remote-user-id"@, u.user_id);
        let b = crate::shim::identity_header("remote-user"@, u.username);
        let c = crate::shim::identity_header("remote-email"@, u.email);
        let e = crate::shim::identity_header("remote-name"@, u.name);
        let f = crate::shim::identity_header("remote-role"@, u.role);
        let p = (name, value);
        assert(verified(Some(d)).headers == a + b + c + e + f);
        lemma_in_sum(a, b, p);
        lemma_in_sum(a + b, c, p);
        lemma_in_sum(a + b + c, e, p);
        lemma_in_sum(a + b + c + e, f, p);
        lemma_one_header("remote-user-id"@, u.user_id, p);
        lemma_one_header("remote-user"@, u.username, p);
        lemma_one_header("remote-email"@, u.email, p);
        lemma_one_header("remote-name"@, u.name, p);
        lemma_one_header("remote-role"@, u.role, p);
    }
}

proof fn lemma_identity_names()
    ensures
        "remote-user-id"@.len() == 14,
        "remote-user"@.len() == 11,
        "remote-email"@.len() == 12,
        "remote-name"@.len() == 11,
        "remote-role"@.len() == 11,
        "remote-user"@ != "remote-name"@,
        "remote-user"@ != "remote-role"@,
        "remote-name"@ != "remote-role"@,
{
    reveal_strlit("remote-user-id");
    reveal_strlit("remote-user");
    reveal_strlit("remote-email");
    reveal_strlit("remote-name");
    reveal_strlit("remote-role");
    assert("remote-user"@[7] != "remote-name"@[7]);
    assert("remote-user"@[7] != "remote-role"@[7]);
    assert("remote-name"@[7] != "remote-role"@[7]);
}

proof fn lemma_one_header(name: Seq<char>, value: Option<Seq<char>>, p: (Seq<char>, Seq<char>))
    ensures
        crate::shim::identity_header(name, value).contains(p) <==> p.0 == name && value == Some(p.1)
            && header_text(p.1),
{
    let h = crate::shim::identity_header(name, value);
    if value is Some && header_text(value->0) {
        assert(h[0] == (name, value->0));
        if p == (name, value->0) {
            assert(h[0] == p);
        }
    }
}

proof fn lemma_in_sum(
    a: Seq<(Seq<char>, Seq<char>)>,
    b: Seq<(Seq<char>, Seq<char>)>,
    p: (Seq<char>, Seq<char>),
)
    ensures
        (a + b).contains(p) == (a.contains(p) || b.contains(p)),
{
    let s = a + b;
    if s.contains(p) {
        let k = choose|k: int| 0 <= k < s.len() && s[k] == p;
        if k < a.len() {
            assert(a[k] == p);
        } else {
            assert(b[k - a.len()] == p);
        }
    }
    if a.contains(p) {
        let k = choose|k: int| 0 <= k < a.len() && a[k] == p;
        assert(s[k] == p);
    }
    if b.contains(p) {
        let k = choose|k: int| 0 <= k < b.len() && b[k] == p;
        assert(s[a.len() + k] == p);
    }
}

/// A body that could be read counts whatever the status; without one a success is a failed
/// call, and any other status a denial.
pub proof fn law_bodies_count_before_statuses(success: bool, data: VerifyDataView, e: ExchangeDataView)
    ensures
        call_outcome(success, Some(data), no_session()) == Some(data),
        call_outcome(success, Some(e), no_exchange()) == Some(e),
        call_outcome(true, None, no_session()) is None,
        call_outcome(true, None, no_exchange()) is None,
        call_outcome(false, None, no_session()) matches Some(d) && !d.valid && d.redirect_url is None
            && d.header_auth_challenged is None && d.user_data is None,
        call_outcome(false, None, no_exchange()) matches Some(d) && !d.valid && d.cookie is None,
{
}

/// A denial without a readable body is a plain 401.
pub proof fn law_unreadable_denials_are_denials()
    ensures
        verified(call_outcome(false, None, no_session())).status == 401,
        verified(call_outcome(true, None, no_session())).status == 503,
{
}

/// A text can stand in a header unless it holds a control character other than a tab.
pub proof fn law_header_texts(s: Seq<char>)
    ensures
        header_text(s) <==> forall|i: int|
            0 <= i < s.len() ==> ((#[trigger] s[i]) as int >= 32 && s[i] as int != 127) || s[i] as int
                == 9,
{
}

/// The endpoints of the API stand below its base, whether that ends in a slash or not.
pub proof fn law_endpoints_stand_below_the_base(base: Seq<char>, suffix: Seq<char>)
    requires
        base.len() == 0 || base.last() != '/',
    ensures
        endpoint_text(base, suffix) == base + seq!['/'] + suffix,
        endpoint_text(base + seq!['/'], suffix) == base + seq!['/'] + suffix,
{
    reveal_strlit("/");
    assert("/"@ =~= seq!['/']);
    let s = base + seq!['/'];
    assert(s.drop_last() =~= base);
    assert(s.last() == '/');
    reveal_with_fuel(trim_end_char, 3);
}

// ---- settings ---------------------------------------------------------------------------

/// The shim's settings come from their variables, or are the defaults.
pub proof fn law_shim_settings_follow_the_environment(env: Env)
    ensures
        ({
            let s = shim_settings(env);
            &&& s.listen == set_or(env, "SHIM_LISTEN"@, "0.0.0.0:9001"@)
            &&& s.path_prefix == set_or(env, "SHIM_PATH_PREFIX"@, "/verify"@)
            &&& s.user_session_cookie_name == set_or(
                env,
                "SHIM_USER_SESSION_COOKIE_NAME"@,
                "p_session_token"@,
            )
            &&& s.resource_session_request_param == set_or(
                env,
                "SHIM_RESOURCE_SESSION_REQUEST_PARAM"@,
                "p_session_request"@,
            )
            &&& s.ca_file == if env.contains_key("SHIM_CA_FILE"@) && env["SHIM_CA_FILE"@].len() > 0 {
                Some(env["SHIM_CA_FILE"@])
            } else {
                None
            }
            &&& !(env.contains_key("SHIM_PANGOLIN_TIMEOUT"@) && env["SHIM_PANGOLIN_TIMEOUT"@].len()
                > 0) ==> s.timeout.secs == 10 && s.timeout.nanos == 0
            &&& env.contains_key("SHIM_PANGOLIN_TIMEOUT"@) && env["SHIM_PANGOLIN_TIMEOUT"@].len()
                > 0 && duration_of(env["SHIM_PANGOLIN_TIMEOUT"@]) is Some ==> Some(
                (s.timeout.secs, s.timeout.nanos),
            ) == duration_of(env["SHIM_PANGOLIN_TIMEOUT"@])
        }),
{
}

/// The base URL is required and must be a URL, a path prefix must be rooted, certificate
/// checks are switched off by `1`, `true`, `yes` or `on` and only with the acknowledgement
/// `true`, and a timeout must be a duration.
pub proof fn law_wrong_shim_settings_are_refused(env: Env)
    ensures
        !env.contains_key("SHIM_PANGOLIN_API_BASE_URL"@) ==> (shim_error(env) matches Some(e)
            && e.kind == ErrorKind::Missing && e.key == "SHIM_PANGOLIN_API_BASE_URL"@),
        shim_error(env) is None ==> {
            let base = env["SHIM_PANGOLIN_API_BASE_URL"@];
            let skip = set_or(env, "SHIM_TLS_SKIP_VERIFY"@, Seq::empty());
            let ack = set_or(env, "I_UNDERSTAND_SHIM_TLS_SKIP_VERIFY_IS_INSECURE"@, Seq::empty());
            let timeout = set_or(env, "SHIM_PANGOLIN_TIMEOUT"@, Seq::empty());
            let on = lower(skip) == "1"@ || lower(skip) == "true"@ || lower(skip) == "yes"@
                || lower(skip) == "on"@;
            &&& env.contains_key("SHIM_PANGOLIN_API_BASE_URL"@)
            &&& url_of(trim_end_char(base, '/')) is Some
            &&& shim_settings(env).pangolin_api_base_url == (url_of(
                trim_end_char(base, '/'),
            )->0).text
            &&& set_or(env, "SHIM_PATH_PREFIX"@, "/verify"@)[0] == '/'
            &&& shim_settings(env).tls_skip_verify == (skip.len() > 0 && on)
            &&& shim_settings(env).tls_skip_verify ==> lower(ack) == lower("true"@)
            &&& timeout.len() > 0 ==> duration_of(timeout) is Some
        },
{
    reveal_strlit("/");
    if shim_error(env) is None {
        let prefix = set_or(env, "SHIM_PATH_PREFIX"@, "/verify"@);
        assert(prefix.take(1) == "/"@);
        assert(prefix[0] == prefix.take(1)[0]);
    }
}

// ---- bodies -----------------------------------------------------------------------------

/// The value holds those texts, and nothing else.
pub open spec fn holds_texts(v: Option<Json>, texts: Texts, key: Seq<char>) -> bool {
    &&& v matches Some(Json::Object(_))
    &&& texts.contains_key(key) ==> v->0.member_text(key) == Some(texts[key])
    &&& !texts.contains_key(key) ==> v->0.member(key) is None
}

/// The body of a verification holds what the check knows of the request, each thing under
/// its name; the client address only where it is known.
pub proof fn law_verify_bodies(v: Json, b: VerifyBodyView, key: Seq<char>)
    requires
        is_verify_json(v, b),
    ensures
        holds_texts(v.member("sessions"@), b.sessions, key),
        holds_texts(v.member("headers"@), b.headers, key),
        holds_texts(v.member("query"@), b.query, key),
        v.member_text("originalRequestURL"@) == Some(b.original_request_url),
        v.member_text("scheme"@) == Some(b.scheme),
        v.member_text("host"@) == Some(b.host),
        v.member_text("path"@) == Some(b.path),
        v.member_text("method"@) == Some(b.method),
        v.member("tls"@) == Some(Json::Bool(b.tls)),
        b.request_ip is Some ==> v.member_text("requestIp"@) == b.request_ip,
        b.request_ip is None ==> v.member("requestIp"@) is None,
        v.member(key) is Some ==> key == "sessions"@ || key == "headers"@ || key == "query"@ || key
            == "originalRequestURL"@ || key == "scheme"@ || key == "host"@ || key == "path"@ || key
            == "method"@ || key == "tls"@ || key == "requestIp"@,
{
    reveal_strlit("sessions");
    reveal_strlit("headers");
    reveal_strlit("query");
    reveal_strlit("originalRequestURL");
    reveal_strlit("scheme");
    reveal_strlit("host");
    reveal_strlit("path");
    reveal_strlit("method");
    reveal_strlit("tls");
    reveal_strlit("requestIp");
    assert("requestIp"@.len() == 9 && "sessions"@.len() == 8 && "headers"@.len() == 7 && "query"@.len()
        == 5 && "originalRequestURL"@.len() == 18 && "scheme"@.len() == 6 && "host"@.len() == 4
        && "path"@.len() == 4 && "method"@.len() == 6 && "tls"@.len() == 3);
}

/// The body of an exchange holds the token, the host and, where it is known, the client
/// address.
pub proof fn law_exchange_bodies(v: Json, b: ExchangeBodyView, key: Seq<char>)
    requires
        is_exchange_json(v, b),
    ensures
        v.member_text("requestToken"@) == Some(b.request_token),
        v.member_text("host"@) == Some(b.host),
        b.request_ip is Some ==> v.member_text("requestIp"@) == b.request_ip,
        b.request_ip is None ==> v.member("requestIp"@) is None,
        v.member(key) is Some ==> key == "requestToken"@ || key == "host"@ || key == "requestIp"@,
{
    reveal_strlit("requestToken");
    reveal_strlit("host");
    reveal_strlit("requestIp");
    assert("requestToken"@.len() == 12 && "host"@.len() == 4 && "requestIp"@.len() == 9);
}

} // verus!
