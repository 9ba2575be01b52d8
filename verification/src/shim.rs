//! Ext-authz shim: bridges Envoy's HTTP external-authorization protocol to
//! pangolin's badger session verification API.
//!
//! Pangolin protects resources with its `badger` Traefik plugin. Envoy can't
//! run Traefik plugins, so the controller (when `CONFIG_EXT_AUTHZ_SERVICE` is
//! set) emits a `SecurityPolicy` per protected route that points Envoy's
//! ext-authz filter at this service. Per Envoy's HTTP ext-authz contract the
//! check request preserves the original request's **method**, **Host** and
//! **path** (the configured `path` acts as a prefix), and on a non-2xx reply
//! Envoy returns our status and headers (including `Location` / `Set-Cookie`)
//! to the client, which is exactly what badger's redirect-to-portal flow
//! needs.
//!
//! A check takes up to three steps, between which pangolin is called:
//!
//! 1. [`begin_check`] reads the request. If the query carries the
//!    resource-session-request param (the portal's post-login handoff), it asks for
//!    `POST {api}/badger/exchange-session`, otherwise for
//!    `POST {api}/badger/verify-session`.
//! 2. [`after_exchange`] answers `302` back to the original URL (param stripped) with
//!    the returned `Set-Cookie`, or goes on to `verify-session`.
//! 3. [`after_verify`] answers:
//!    * `data.redirectUrl`: `302` with `Location`
//!    * `data.headerAuthChallenged`: `401` and `WWW-Authenticate: Basic`
//!    * `data.valid`: `200` and `Remote-User`/`Remote-Email`/… response headers
//!    * anything else: `401`
//!
//! Pangolin unreachable is `503`. Envoy treats any non-2xx as deny, so an outage fails
//! **closed**.

use vstd::prelude::*;
use vstd::string::*;

use crate::config::env::{
    duration_readable, error, error_of, is_duration_readable, optional, optional_of, required,
    required_of, text_or, text_or_of,
};
use crate::config::env::{truth, truth_of, ConfigError, ConfigErrorView, Env, ErrorKind};
use crate::duration;
use crate::duration::{duration_of, Duration};
use crate::json::Json;
use crate::strmap::{lemma_deep_insert, lemma_first_entries, map_of, StrMap};
use crate::text;
use crate::text::{
    before, lower, lower_char, split, split_once, starts_with, strip_prefix, trim, trim_end_char,
    upper_char,
};
use crate::urls::{pairs_of, parse_url, query_of, query_pairs, query_text, url_of};

verus! {

pub type Texts = Map<Seq<char>, Seq<char>>;

/// Everything the shim binary reads from the environment. All names start
/// with `SHIM_` to keep them apart from the controller's `CONFIG_*` set.
pub struct ShimConfig {
    /// `SHIM_LISTEN`, default `0.0.0.0:9001`.
    pub listen: String,
    /// `SHIM_PANGOLIN_API_BASE_URL` (required), e.g.
    /// `http://pangolin.pangolin-system.svc.cluster.local:3001/api/v1`, in its normal form.
    /// Matches the `apiBaseUrl` pangolin hands to badger.
    pub pangolin_api_base_url: String,
    /// `SHIM_PATH_PREFIX`, default `/verify`. Must equal the controller's
    /// `CONFIG_EXT_AUTHZ_PATH`; Envoy prepends it to the original path.
    pub path_prefix: String,
    /// `SHIM_USER_SESSION_COOKIE_NAME`, default `p_session_token`. Cookies
    /// whose name starts with this are forwarded as sessions.
    pub user_session_cookie_name: String,
    /// `SHIM_RESOURCE_SESSION_REQUEST_PARAM`, default `p_session_request`.
    pub resource_session_request_param: String,
    /// `SHIM_PANGOLIN_TIMEOUT`, default 10s.
    pub timeout: Duration,
    /// `SHIM_CA_FILE`: PEM bundle to trust for an https pangolin API.
    pub ca_file: Option<String>,
    /// `SHIM_TLS_SKIP_VERIFY`, which requires
    /// `I_UNDERSTAND_SHIM_TLS_SKIP_VERIFY_IS_INSECURE=true`.
    pub tls_skip_verify: bool,
}

#[verifier::ext_equal]
pub struct ShimConfigView {
    pub listen: Seq<char>,
    pub pangolin_api_base_url: Seq<char>,
    pub path_prefix: Seq<char>,
    pub user_session_cookie_name: Seq<char>,
    pub resource_session_request_param: Seq<char>,
    pub timeout: Duration,
    pub ca_file: Option<Seq<char>>,
    pub tls_skip_verify: bool,
}

impl DeepView for ShimConfig {
    type V = ShimConfigView;

    open spec fn deep_view(&self) -> ShimConfigView {
        ShimConfigView {
            listen: self.listen@,
            pangolin_api_base_url: self.pangolin_api_base_url@,
            path_prefix: self.path_prefix@,
            user_session_cookie_name: self.user_session_cookie_name@,
            resource_session_request_param: self.resource_session_request_param@,
            timeout: self.timeout,
            ca_file: self.ca_file.deep_view(),
            tls_skip_verify: self.tls_skip_verify,
        }
    }
}

/// A header of a check request, with its name in lowercase. A value that is not
/// visible ASCII is unreadable.
pub struct HeaderField {
    pub name: String,
    pub value: Option<String>,
}

#[verifier::ext_equal]
pub struct HeaderFieldView {
    pub name: Seq<char>,
    pub value: Option<Seq<char>>,
}

impl DeepView for HeaderField {
    type V = HeaderFieldView;

    open spec fn deep_view(&self) -> HeaderFieldView {
        HeaderFieldView {
            name: self.name@,
            value: self.value.deep_view(),
        }
    }
}

/// A check request, as Envoy sends it.
pub struct CheckRequest {
    pub path_and_query: Option<String>,
    pub method: String,
    pub headers: Vec<HeaderField>,
}

#[verifier::ext_equal]
pub struct CheckRequestView {
    pub path_and_query: Option<Seq<char>>,
    pub method: Seq<char>,
    pub headers: Seq<HeaderFieldView>,
}

impl DeepView for CheckRequest {
    type V = CheckRequestView;

    open spec fn deep_view(&self) -> CheckRequestView {
        CheckRequestView {
            path_and_query: self.path_and_query.deep_view(),
            method: self.method@,
            headers: self.headers.deep_view(),
        }
    }
}

/// What a check request says.
pub struct CheckContext {
    /// Path and query of the original request.
    pub original: String,
    pub path: String,
    pub query: StrMap<String>,
    pub sessions: StrMap<String>,
    pub headers: StrMap<String>,
    pub scheme: String,
    pub host: String,
    pub method: String,
    pub request_ip: Option<String>,
}

#[verifier::ext_equal]
pub struct CheckContextView {
    pub original: Seq<char>,
    pub path: Seq<char>,
    pub query: Map<Seq<char>, Seq<char>>,
    pub sessions: Map<Seq<char>, Seq<char>>,
    pub headers: Map<Seq<char>, Seq<char>>,
    pub scheme: Seq<char>,
    pub host: Seq<char>,
    pub method: Seq<char>,
    pub request_ip: Option<Seq<char>>,
}

impl DeepView for CheckContext {
    type V = CheckContextView;

    open spec fn deep_view(&self) -> CheckContextView {
        CheckContextView {
            original: self.original@,
            path: self.path@,
            query: self.query.deep_view(),
            sessions: self.sessions.deep_view(),
            headers: self.headers.deep_view(),
            scheme: self.scheme@,
            host: self.host@,
            method: self.method@,
            request_ip: self.request_ip.deep_view(),
        }
    }
}

/// Body of a `verify-session` call.
pub struct VerifyBody {
    pub sessions: StrMap<String>,
    pub headers: StrMap<String>,
    pub query: StrMap<String>,
    pub original_request_url: String,
    pub scheme: String,
    pub host: String,
    pub path: String,
    pub method: String,
    pub tls: bool,
    pub request_ip: Option<String>,
}

#[verifier::ext_equal]
pub struct VerifyBodyView {
    pub sessions: Map<Seq<char>, Seq<char>>,
    pub headers: Map<Seq<char>, Seq<char>>,
    pub query: Map<Seq<char>, Seq<char>>,
    pub original_request_url: Seq<char>,
    pub scheme: Seq<char>,
    pub host: Seq<char>,
    pub path: Seq<char>,
    pub method: Seq<char>,
    pub tls: bool,
    pub request_ip: Option<Seq<char>>,
}

impl DeepView for VerifyBody {
    type V = VerifyBodyView;

    open spec fn deep_view(&self) -> VerifyBodyView {
        VerifyBodyView {
            sessions: self.sessions.deep_view(),
            headers: self.headers.deep_view(),
            query: self.query.deep_view(),
            original_request_url: self.original_request_url@,
            scheme: self.scheme@,
            host: self.host@,
            path: self.path@,
            method: self.method@,
            tls: self.tls,
            request_ip: self.request_ip.deep_view(),
        }
    }
}

/// What `verify-session` answers.
pub struct VerifyData {
    pub valid: bool,
    pub redirect_url: Option<String>,
    pub header_auth_challenged: Option<bool>,
    pub user_data: Option<UserData>,
}

#[verifier::ext_equal]
pub struct VerifyDataView {
    pub valid: bool,
    pub redirect_url: Option<Seq<char>>,
    pub header_auth_challenged: Option<bool>,
    pub user_data: Option<UserDataView>,
}

impl DeepView for VerifyData {
    type V = VerifyDataView;

    open spec fn deep_view(&self) -> VerifyDataView {
        VerifyDataView {
            valid: self.valid,
            redirect_url: self.redirect_url.deep_view(),
            header_auth_challenged: self.header_auth_challenged.deep_view(),
            user_data: self.user_data.deep_view(),
        }
    }
}

pub struct UserData {
    pub user_id: Option<String>,
    pub username: Option<String>,
    pub email: Option<String>,
    pub name: Option<String>,
    pub role: Option<String>,
}

#[verifier::ext_equal]
pub struct UserDataView {
    pub user_id: Option<Seq<char>>,
    pub username: Option<Seq<char>>,
    pub email: Option<Seq<char>>,
    pub name: Option<Seq<char>>,
    pub role: Option<Seq<char>>,
}

impl DeepView for UserData {
    type V = UserDataView;

    open spec fn deep_view(&self) -> UserDataView {
        UserDataView {
            user_id: self.user_id.deep_view(),
            username: self.username.deep_view(),
            email: self.email.deep_view(),
            name: self.name.deep_view(),
            role: self.role.deep_view(),
        }
    }
}

/// Body of an `exchange-session` call.
pub struct ExchangeBody {
    pub request_token: String,
    pub host: String,
    pub request_ip: Option<String>,
}

#[verifier::ext_equal]
pub struct ExchangeBodyView {
    pub request_token: Seq<char>,
    pub host: Seq<char>,
    pub request_ip: Option<Seq<char>>,
}

impl DeepView for ExchangeBody {
    type V = ExchangeBodyView;

    open spec fn deep_view(&self) -> ExchangeBodyView {
        ExchangeBodyView {
            request_token: self.request_token@,
            host: self.host@,
            request_ip: self.request_ip.deep_view(),
        }
    }
}

/// What `exchange-session` answers.
pub struct ExchangeData {
    pub valid: bool,
    pub cookie: Option<String>,
}

#[verifier::ext_equal]
pub struct ExchangeDataView {
    pub valid: bool,
    pub cookie: Option<Seq<char>>,
}

impl DeepView for ExchangeData {
    type V = ExchangeDataView;

    open spec fn deep_view(&self) -> ExchangeDataView {
        ExchangeDataView {
            valid: self.valid,
            cookie: self.cookie.deep_view(),
        }
    }
}

/// An answer to Envoy.
pub struct Reply {
    pub status: u16,
    pub headers: Vec<(String, String)>,
    pub body: String,
}

#[verifier::ext_equal]
pub struct ReplyView {
    pub status: u16,
    pub headers: Seq<(Seq<char>, Seq<char>)>,
    pub body: Seq<char>,
}

impl DeepView for Reply {
    type V = ReplyView;

    open spec fn deep_view(&self) -> ReplyView {
        ReplyView {
            status: self.status,
            headers: self.headers.deep_view(),
            body: self.body@,
        }
    }
}

// ---- settings ---------------------------------------------------------------------

/// What is wrong with the shim's settings, in the order in which they are read.
pub open spec fn shim_error(env: Env) -> Option<ConfigErrorView> {
    let prefix = text_or_of(env, "SHIM_PATH_PREFIX"@, "/verify"@);
    match required_of(env, "SHIM_PANGOLIN_API_BASE_URL"@) {
        Err(e) => Some(e),
        Ok(raw) => if url_of(trim_end_char(raw, '/')) is None {
            Some(error_of(ErrorKind::InvalidApiBaseUrl, "SHIM_PANGOLIN_API_BASE_URL"@, raw))
        } else if !starts_with(prefix, "/"@) {
            Some(error_of(ErrorKind::InvalidPathPrefix, "SHIM_PATH_PREFIX"@, prefix))
        } else if shim_skips_verify(env) && !shim_acknowledged(env) {
            Some(
                error_of(
                    ErrorKind::SkipVerifyNotAcknowledged,
                    "SHIM_TLS_SKIP_VERIFY"@,
                    Seq::empty(),
                ),
            )
        } else {
            match optional_of(env, "SHIM_PANGOLIN_TIMEOUT"@) {
                Some(v) => if duration_of(v) is None {
                    Some(error_of(ErrorKind::InvalidTimeout, "SHIM_PANGOLIN_TIMEOUT"@, v))
                } else {
                    None
                },
                None => None,
            }
        },
    }
}

pub open spec fn shim_skips_verify(env: Env) -> bool {
    match optional_of(env, "SHIM_TLS_SKIP_VERIFY"@) {
        Some(v) => truth(lower(v)) == Some(true),
        None => false,
    }
}

pub open spec fn shim_acknowledged(env: Env) -> bool {
    match optional_of(env, "I_UNDERSTAND_SHIM_TLS_SKIP_VERIFY_IS_INSECURE"@) {
        Some(v) => lower(v) == lower("true"@),
        None => false,
    }
}

/// The timeout can be read, unless a setting that is read before it is wrong.
pub open spec fn timeout_readable(env: Env) -> bool {
    ||| required_of(env, "SHIM_PANGOLIN_API_BASE_URL"@) is Err
    ||| !starts_with(text_or_of(env, "SHIM_PATH_PREFIX"@, "/verify"@), "/"@)
    ||| shim_skips_verify(env) && !shim_acknowledged(env)
    ||| duration_readable(env, "SHIM_PANGOLIN_TIMEOUT"@)
}

/// The shim's settings, where none is wrong.
pub open spec fn shim_settings(env: Env) -> ShimConfigView {
    ShimConfigView {
        listen: text_or_of(env, "SHIM_LISTEN"@, "0.0.0.0:9001"@),
        pangolin_api_base_url: url_of(
            trim_end_char(required_of(env, "SHIM_PANGOLIN_API_BASE_URL"@)->Ok_0, '/'),
        )->0.text,
        path_prefix: text_or_of(env, "SHIM_PATH_PREFIX"@, "/verify"@),
        user_session_cookie_name: text_or_of(
            env,
            "SHIM_USER_SESSION_COOKIE_NAME"@,
            "p_session_token"@,
        ),
        resource_session_request_param: text_or_of(
            env,
            "SHIM_RESOURCE_SESSION_REQUEST_PARAM"@,
            "p_session_request"@,
        ),
        timeout: match optional_of(env, "SHIM_PANGOLIN_TIMEOUT"@) {
            Some(v) => Duration { secs: (duration_of(v)->0).0, nanos: (duration_of(v)->0).1 },
            None => Duration { secs: 10, nanos: 0 },
        },
        ca_file: optional_of(env, "SHIM_CA_FILE"@),
        tls_skip_verify: shim_skips_verify(env),
    }
}

fn skips_verify(env: &StrMap<String>) -> (r: bool)
    ensures
        r == shim_skips_verify(env.deep_view()),
{
    match optional(env, "SHIM_TLS_SKIP_VERIFY") {
        Some(v) => match truth_of(text::to_lower(v.as_str()).as_str()) {
            Some(b) => b,
            None => false,
        },
        None => false,
    }
}

fn acknowledges(env: &StrMap<String>) -> (r: bool)
    ensures
        r == shim_acknowledged(env.deep_view()),
{
    match optional(env, "I_UNDERSTAND_SHIM_TLS_SKIP_VERIFY_IS_INSECURE") {
        Some(v) => text::same_ignoring_case(v.as_str(), "true"),
        None => false,
    }
}

/// Whether [`ShimConfig::from_env`] can read the timeout of an environment.
pub fn can_read_timeout(env: &StrMap<String>) -> (r: bool)
    ensures
        r == timeout_readable(env.deep_view()),
{
    required(env, "SHIM_PANGOLIN_API_BASE_URL").is_err() || !text::has_prefix(
        text_or(env, "SHIM_PATH_PREFIX", "/verify").as_str(),
        "/",
    ) || (skips_verify(env) && !acknowledges(env)) || is_duration_readable(
        env,
        "SHIM_PANGOLIN_TIMEOUT",
    )
}

impl ShimConfig {
    /// The settings that the environment asks for, or the first that is wrong.
    pub fn from_env(env: &StrMap<String>) -> (r: Result<ShimConfig, ConfigError>)
        requires
            timeout_readable(env.deep_view()),
        ensures
            match r {
                Ok(c) => shim_error(env.deep_view()) is None && c.deep_view() == shim_settings(
                    env.deep_view(),
                ),
                Err(e) => shim_error(env.deep_view()) == Some(e.deep_view()),
            },
    {
        proof {
            reveal_strlit("");
            assert(""@ =~= Seq::<char>::empty());
        }
        let raw = match required(env, "SHIM_PANGOLIN_API_BASE_URL") {
            Ok(v) => v,
            Err(e) => {
                return Err(e);
            },
        };
        let url = match parse_url(text::trimmed_end_char(raw.as_str(), '/').as_str()) {
            Some(u) => u,
            None => {
                return Err(
                    error(ErrorKind::InvalidApiBaseUrl, "SHIM_PANGOLIN_API_BASE_URL", raw.as_str()),
                );
            },
        };
        let path_prefix = text_or(env, "SHIM_PATH_PREFIX", "/verify");
        if !text::has_prefix(path_prefix.as_str(), "/") {
            return Err(
                error(ErrorKind::InvalidPathPrefix, "SHIM_PATH_PREFIX", path_prefix.as_str()),
            );
        }
        let tls_skip_verify = skips_verify(env);
        if tls_skip_verify && !acknowledges(env) {
            return Err(error(ErrorKind::SkipVerifyNotAcknowledged, "SHIM_TLS_SKIP_VERIFY", ""));
        }
        let timeout = match optional(env, "SHIM_PANGOLIN_TIMEOUT") {
            Some(v) => match duration::parse_duration(v.as_str()) {
                Some(d) => d,
                None => {
                    return Err(
                        error(ErrorKind::InvalidTimeout, "SHIM_PANGOLIN_TIMEOUT", v.as_str()),
                    );
                },
            },
            None => Duration::from_secs(10),
        };
        Ok(
            ShimConfig {
                listen: text_or(env, "SHIM_LISTEN", "0.0.0.0:9001"),
                pangolin_api_base_url: url.text,
                path_prefix,
                user_session_cookie_name: text_or(
                    env,
                    "SHIM_USER_SESSION_COOKIE_NAME",
                    "p_session_token",
                ),
                resource_session_request_param: text_or(
                    env,
                    "SHIM_RESOURCE_SESSION_REQUEST_PARAM",
                    "p_session_request",
                ),
                timeout,
                ca_file: optional(env, "SHIM_CA_FILE"),
                tls_skip_verify,
            },
        )
    }
}

/// Certificate checks towards pangolin are never switched off without the explicit
/// acknowledgement.
pub proof fn law_shim_skip_verify_is_acknowledged(env: Env)
    requires
        shim_error(env) is None,
        shim_settings(env).tls_skip_verify,
    ensures
        shim_acknowledged(env),
{
}

// ---- paths and queries --------------------------------------------------------------

/// The original path and query behind the configured prefix, which matches on segment
/// boundaries only.
pub open spec fn without_path_prefix(prefix: Seq<char>, path_and_query: Seq<char>) -> Option<
    Seq<char>,
> {
    if prefix == ""@ || prefix == "/"@ {
        Some(path_and_query)
    } else {
        match strip_prefix(path_and_query, trim_end_char(prefix, '/')) {
            None => None,
            Some(rest) => if rest.len() == 0 {
                Some("/"@)
            } else if rest[0] == '/' {
                Some(rest)
            } else if rest[0] == '?' {
                Some("/"@ + rest)
            } else {
                None
            },
        }
    }
}

/// Strip the configured prefix from `path_and_query`. `Some` when the prefix
/// matched on a segment boundary, `None` otherwise.
pub fn strip_path_prefix(prefix: &str, path_and_query: &str) -> (r: Option<String>)
    ensures
        r.deep_view() == without_path_prefix(prefix@, path_and_query@),
{
    if text::same(prefix, "") || text::same(prefix, "/") {
        return Some(path_and_query.to_owned());
    }
    let trimmed = text::trimmed_end_char(prefix, '/');
    match text::without_prefix(path_and_query, trimmed.as_str()) {
        None => None,
        Some(rest) => {
            if rest.as_str().is_empty() {
                return Some("/".to_owned());
            }
            // Reject partial-segment matches like prefix `/verify` on `/verifyx`.
            let first = rest.as_str().get_char(0);
            if first == '/' {
                Some(rest)
            } else if first == '?' {
                Some(text::cat("/", rest.as_str()))
            } else {
                None
            }
        },
    }
}

/// The prefix in front of a path is what gets stripped: the original path comes back.
pub proof fn law_prefix_round_trip(prefix: Seq<char>, path: Seq<char>)
    requires
        prefix.len() > 0,
        prefix.last() != '/',
        path.len() > 0,
        path[0] == '/',
    ensures
        without_path_prefix(prefix, prefix + path) == Some(path),
{
    reveal_strlit("");
    reveal_strlit("/");
    assert("/"@[0] == '/');
    if prefix == "/"@ {
        assert(prefix.last() == '/');
    }
    assert((prefix + path).take(prefix.len() as int) =~= prefix);
    assert((prefix + path).skip(prefix.len() as int) =~= path);
}

/// First value per name.
pub open spec fn first_values(pairs: Seq<(Seq<char>, Seq<char>)>) -> Texts
    decreases pairs.len(),
{
    if pairs.len() == 0 {
        Map::empty()
    } else {
        let rest = first_values(pairs.drop_last());
        let (k, v) = pairs.last();
        if rest.contains_key(k) {
            rest
        } else {
            rest.insert(k, v)
        }
    }
}

/// First value per name.
pub fn first_per_name(pairs: &Vec<(String, String)>) -> (r: StrMap<String>)
    ensures
        r.deep_view() == first_values(pairs.deep_view()),
{
    broadcast use lemma_deep_insert;

    let ghost all = pairs.deep_view();
    let mut out: StrMap<String> = StrMap::new();
    let mut i: usize = 0;
    assert(out.deep_view() =~= Map::<Seq<char>, Seq<char>>::empty());
    assert(all.take(0) =~= Seq::<(Seq<char>, Seq<char>)>::empty());
    while i < pairs.len()
        invariant
            all == pairs.deep_view(),
            i <= pairs@.len(),
            out.deep_view() == first_values(all.take(i as int)),
        decreases pairs@.len() - i,
    {
        broadcast use lemma_deep_insert;

        assert(all.take(i + 1).drop_last() =~= all.take(i as int));
        assert(all[i as int] == (pairs@[i as int].0@, pairs@[i as int].1@));
        let pair = &pairs[i];
        if !out.contains_key(pair.0.as_str()) {
            out.insert(pair.0.clone(), pair.1.clone());
        }
        i += 1;
    }
    assert(all.take(i as int) =~= all);
    out
}

/// First value per key, like badger's `queryValues` flattening.
pub fn parse_query(query: &str) -> (r: StrMap<String>)
    ensures
        r.deep_view() == first_values(pairs_of(query@)),
{
    let pairs = query_pairs(query);
    first_per_name(&pairs)
}

/// The pairs under other names.
pub open spec fn other_pairs(pairs: Seq<(Seq<char>, Seq<char>)>, param: Seq<char>) -> Seq<
    (Seq<char>, Seq<char>),
>
    decreases pairs.len(),
{
    if pairs.len() == 0 {
        Seq::empty()
    } else {
        let rest = other_pairs(pairs.drop_last(), param);
        if pairs.last().0 == param {
            rest
        } else {
            rest.push(pairs.last())
        }
    }
}

/// The pairs under other names.
pub fn without_param(pairs: &Vec<(String, String)>, param: &str) -> (r: Vec<(String, String)>)
    ensures
        r.deep_view() == other_pairs(pairs.deep_view(), param@),
{
    let ghost all = pairs.deep_view();
    let mut out: Vec<(String, String)> = Vec::new();
    let mut i: usize = 0;
    assert(all.take(0) =~= Seq::<(Seq<char>, Seq<char>)>::empty());
    assert(out.deep_view() =~= Seq::<(Seq<char>, Seq<char>)>::empty());
    while i < pairs.len()
        invariant
            all == pairs.deep_view(),
            i <= pairs@.len(),
            out.deep_view() == other_pairs(all.take(i as int), param@),
        decreases pairs@.len() - i,
    {
        assert(all.take(i + 1).drop_last() =~= all.take(i as int));
        assert(all[i as int] == (pairs@[i as int].0@, pairs@[i as int].1@));
        let ghost done = out.deep_view();
        if !text::same(pairs[i].0.as_str(), param) {
            let p = (pairs[i].0.clone(), pairs[i].1.clone());
            out.push(p);
            assert(out.deep_view() =~= done.push((p.0@, p.1@)));
        }
        i += 1;
    }
    assert(all.take(i as int) =~= all);
    out
}

/// A path and query without one query parameter; without the `?` when nothing remains.
pub open spec fn query_stripped(path_and_query: Seq<char>, param: Seq<char>) -> Seq<char> {
    match split_once(path_and_query, '?') {
        None => path_and_query,
        Some(p) => {
            let kept = other_pairs(pairs_of(p.1), param);
            if kept.len() == 0 {
                p.0
            } else {
                p.0 + "?"@ + query_of(kept)
            }
        },
    }
}

/// No pair of that name is left.
pub proof fn law_no_pair_is_left(pairs: Seq<(Seq<char>, Seq<char>)>, param: Seq<char>, i: int)
    requires
        0 <= i < other_pairs(pairs, param).len(),
    ensures
        other_pairs(pairs, param)[i].0 != param,
    decreases pairs.len(),
{
    let rest = other_pairs(pairs.drop_last(), param);
    if i < rest.len() {
        law_no_pair_is_left(pairs.drop_last(), param, i);
        assert(other_pairs(pairs, param)[i] == rest[i]);
    }
}

/// The read of what was written: the query that stands in the result holds the pairs
/// under other names, unchanged and in order.
pub open spec fn holds_other_pairs(
    path_and_query: Seq<char>,
    param: Seq<char>,
    stripped: Seq<char>,
) -> bool {
    match split_once(path_and_query, '?') {
        None => stripped == path_and_query,
        Some(p) => {
            let kept = other_pairs(pairs_of(p.1), param);
            match split_once(stripped, '?') {
                None => stripped == p.0 && kept.len() == 0,
                Some(q) => q.0 == p.0 && pairs_of(q.1) == kept,
            }
        },
    }
}

/// Remove one query parameter from a `path?query` string, dropping the `?`
/// entirely when nothing remains.
pub fn strip_query_param(path_and_query: &str, param: &str) -> (r: String)
    ensures
        r@ == query_stripped(path_and_query@, param@),
        holds_other_pairs(path_and_query@, param@, r@),
{
    let (path, query) = match text::split_at_first(path_and_query, '?') {
        Some(p) => p,
        None => {
            return path_and_query.to_owned();
        },
    };
    let pairs = query_pairs(query.as_str());
    let kept = without_param(&pairs, param);
    proof {
        let s = path_and_query@;
        text::lemma_find(s, '?');
        assert(forall|j: int| 0 <= j < path@.len() ==> path@[j] == s[j]);
    }
    if kept.len() == 0 {
        proof {
            text::lemma_find_is(path@, '?', path@.len() as int);
        }
        return path;
    }
    let rest = query_text(&kept);
    let out = text::cat3(path.as_str(), "?", rest.as_str());
    proof {
        reveal_strlit("?");
        let n = path@.len() as int;
        assert(out@[n] == '?');
        assert forall|j: int| 0 <= j < n implies out@[j] != '?' by {
            assert(out@[j] == path@[j]);
        }
        text::lemma_find_is(out@, '?', n);
        assert(out@.take(n) =~= path@);
        assert(out@.skip(n + 1) =~= rest@);
    }
    out
}

// ---- cookies and headers ------------------------------------------------------------

/// The session that one cookie carries.
pub open spec fn session_of(pair: Seq<char>, name_prefix: Seq<char>) -> Option<
    (Seq<char>, Seq<char>),
> {
    match split_once(pair, '=') {
        Some(p) => {
            let name = trim(p.0);
            if name.len() > 0 && starts_with(name, name_prefix) {
                Some((name, trim(p.1)))
            } else {
                None
            }
        },
        None => None,
    }
}

/// The sessions of cookies; the last cookie of a name counts.
pub open spec fn sessions_of(pairs: Seq<Seq<char>>, name_prefix: Seq<char>) -> Texts
    decreases pairs.len(),
{
    if pairs.len() == 0 {
        Map::empty()
    } else {
        let rest = sessions_of(pairs.drop_last(), name_prefix);
        match session_of(pairs.last(), name_prefix) {
            Some(s) => rest.insert(s.0, s.1),
            None => rest,
        }
    }
}

/// Every forwarded session is under a name with the configured prefix.
pub proof fn law_sessions_carry_the_prefix(
    pairs: Seq<Seq<char>>,
    name_prefix: Seq<char>,
    name: Seq<char>,
)
    requires
        sessions_of(pairs, name_prefix).contains_key(name),
    ensures
        name.len() > 0,
        starts_with(name, name_prefix),
    decreases pairs.len(),
{
    if pairs.len() > 0 {
        let found = session_of(pairs.last(), name_prefix);
        if !(found is Some && (found->0).0 == name) {
            law_sessions_carry_the_prefix(pairs.drop_last(), name_prefix, name);
        }
    }
}

/// Cookies whose name starts with `name_prefix`, mirroring badger's
/// `strings.HasPrefix(cookie.Name, userSessionCookieName)` collection.
pub fn collect_sessions(cookie_header: &str, name_prefix: &str) -> (r: StrMap<String>)
    ensures
        r.deep_view() == sessions_of(split(cookie_header@, ';'), name_prefix@),
{
    broadcast use lemma_deep_insert;

    let pairs = text::pieces(cookie_header, ';');
    let ghost all = pairs.deep_view();
    let mut out: StrMap<String> = StrMap::new();
    let mut i: usize = 0;
    assert(out.deep_view() =~= Map::<Seq<char>, Seq<char>>::empty());
    assert(all.take(0) =~= Seq::<Seq<char>>::empty());
    while i < pairs.len()
        invariant
            all == pairs.deep_view(),
            i <= pairs@.len(),
            out.deep_view() == sessions_of(all.take(i as int), name_prefix@),
        decreases pairs@.len() - i,
    {
        broadcast use lemma_deep_insert;

        assert(all.take(i + 1).drop_last() =~= all.take(i as int));
        assert(all[i as int] == pairs@[i as int]@);
        if let Some((name, value)) = text::split_at_first(pairs[i].as_str(), '=') {
            let name = text::trimmed(name.as_str());
            if !name.as_str().is_empty() && text::has_prefix(name.as_str(), name_prefix) {
                out.insert(name, text::trimmed(value.as_str()));
            }
        }
        i += 1;
    }
    assert(all.take(i as int) =~= all);
    out
}

/// Go's canonical casing of a header name: the first letter and every letter behind a
/// dash in uppercase, all others in lowercase.
pub open spec fn canonical(name: Seq<char>) -> Seq<char> {
    Seq::new(
        name.len(),
        |i: int|
            if i == 0 || name[i - 1] == '-' {
                upper_char(name[i])
            } else {
                lower_char(name[i])
            },
    )
}

/// Casing a name twice is casing it once.
pub proof fn law_canonical_idempotent(name: Seq<char>)
    ensures
        canonical(canonical(name)) == canonical(name),
{
    let c = canonical(name);
    assert forall|i: int| 0 <= i < c.len() implies ((#[trigger] c[i]) == '-') == (name[i] == '-') by {
        if i == 0 || name[i - 1] == '-' {
            assert(c[i] == upper_char(name[i]));
        } else {
            assert(c[i] == lower_char(name[i]));
        }
    }
    assert forall|i: int| 0 <= i < c.len() implies (#[trigger] canonical(c)[i]) == c[i] by {
        if i > 0 {
            assert((c[i - 1] == '-') == (name[i - 1] == '-'));
        }
    }
    assert(canonical(c) =~= c);
}

/// `x-forwarded-proto` becomes `X-Forwarded-Proto`, matching Go's
/// `textproto.CanonicalMIMEHeaderKey`.
pub fn canonical_header(name: &str) -> (r: String)
    ensures
        r@ == canonical(name@),
{
    let v = text::to_chars(name);
    let mut out = String::new();
    let mut i: usize = 0;
    while i < v.len()
        invariant
            v@ == name@,
            i <= v@.len(),
            out@ == canonical(v@).take(i as int),
        decreases v@.len() - i,
    {
        if i == 0 || v[i - 1] == '-' {
            out.push(text::to_upper_char(v[i]));
        } else {
            out.push(text::to_lower_char(v[i]));
        }
        i += 1;
        assert(out@ =~= canonical(v@).take(i as int));
    }
    assert(canonical(v@).take(i as int) =~= canonical(v@));
    out
}

/// The readable headers, without cookies: the first value per canonical name.
pub open spec fn headers_of(fields: Seq<HeaderFieldView>) -> Texts
    decreases fields.len(),
{
    if fields.len() == 0 {
        Map::empty()
    } else {
        let rest = headers_of(fields.drop_last());
        let f = fields.last();
        if f.name != "cookie"@ && f.value is Some && !rest.contains_key(canonical(f.name)) {
            rest.insert(canonical(f.name), f.value->0)
        } else {
            rest
        }
    }
}

/// First value per header in Go's canonical MIME casing (what badger sends and
/// therefore what pangolin sees today). Cookies are omitted: sessions carry them.
pub fn collect_headers(fields: &Vec<HeaderField>) -> (r: StrMap<String>)
    ensures
        r.deep_view() == headers_of(fields.deep_view()),
{
    broadcast use lemma_deep_insert;

    let ghost all = fields.deep_view();
    let mut out: StrMap<String> = StrMap::new();
    let mut i: usize = 0;
    assert(out.deep_view() =~= Map::<Seq<char>, Seq<char>>::empty());
    assert(all.take(0) =~= Seq::<HeaderFieldView>::empty());
    while i < fields.len()
        invariant
            all == fields.deep_view(),
            i <= fields@.len(),
            out.deep_view() == headers_of(all.take(i as int)),
        decreases fields@.len() - i,
    {
        broadcast use lemma_deep_insert;

        assert(all.take(i + 1).drop_last() =~= all.take(i as int));
        assert(all[i as int] == fields@[i as int].deep_view());
        let field = &fields[i];
        if !text::same(field.name.as_str(), "cookie") {
            if let Some(v) = &field.value {
                let name = canonical_header(field.name.as_str());
                if !out.contains_key(name.as_str()) {
                    out.insert(name, v.clone());
                }
            }
        }
        i += 1;
    }
    assert(all.take(i as int) =~= all);
    out
}

/// The first header of a name, where it is readable.
pub open spec fn header_of(fields: Seq<HeaderFieldView>, name: Seq<char>) -> Option<Seq<char>>
    decreases fields.len(),
{
    if fields.len() == 0 {
        None
    } else if fields[0].name == name {
        fields[0].value
    } else {
        header_of(fields.drop_first(), name)
    }
}

fn header_str(fields: &Vec<HeaderField>, name: &str) -> (r: Option<String>)
    ensures
        r.deep_view() == header_of(fields.deep_view(), name@),
{
    let ghost all = fields.deep_view();
    let mut i: usize = 0;
    assert(all.skip(0) =~= all);
    while i < fields.len()
        invariant
            all == fields.deep_view(),
            i <= fields@.len(),
            header_of(all.skip(i as int), name@) == header_of(all, name@),
        decreases fields@.len() - i,
    {
        assert(all.skip(i as int)[0] == fields@[i as int].deep_view());
        assert(all.skip(i as int).drop_first() =~= all.skip(i + 1));
        if text::same(fields[i].name.as_str(), name) {
            return text::copy_opt(&fields[i].value);
        }
        i += 1;
    }
    None
}

/// A text that can stand as the value of a header: tabs, and characters that are not
/// control characters.
pub open spec fn header_text(s: Seq<char>) -> bool {
    forall|i: int|
        0 <= i < s.len() ==> (' ' <= #[trigger] s[i] && s[i] != '\u{7f}') || s[i] == '\t'
}

/// `http::HeaderValue::from_str` accepts a text whose bytes are tabs, or at least 32
/// and not 127; every byte of a character beyond ASCII is at least 128.
#[verifier::external_body]
fn valid_header(s: &str) -> (r: bool)
    ensures
        r == header_text(s@),
{
    axum::http::HeaderValue::from_str(s).is_ok()
}

// ---- check requests -----------------------------------------------------------------

pub open spec fn plain_reply(status: u16, body: Seq<char>) -> ReplyView {
    ReplyView { status, headers: Seq::empty(), body }
}

fn plain(status: u16, body: &str) -> (r: Reply)
    ensures
        r.deep_view() == plain_reply(status, body@),
{
    let headers: Vec<(String, String)> = Vec::new();
    assert(headers.deep_view() =~= Seq::<(Seq<char>, Seq<char>)>::empty());
    Reply { status, headers, body: body.to_owned() }
}

/// The address of the client, as the first proxy saw it.
pub open spec fn request_ip_of(fields: Seq<HeaderFieldView>) -> Option<Seq<char>> {
    match header_of(fields, "x-forwarded-for"@) {
        Some(v) => {
            let ip = trim(before(v, ','));
            if ip.len() == 0 {
                None
            } else {
                Some(ip)
            }
        },
        None => None,
    }
}

pub open spec fn or_text(s: Option<Seq<char>>, default: Seq<char>) -> Seq<char> {
    match s {
        Some(s) => s,
        None => default,
    }
}

/// The path and query of the original request. Envoy prepends the configured path prefix;
/// a path without it counts as the original one.
pub open spec fn original_of(cfg: ShimConfigView, req: CheckRequestView) -> Seq<char> {
    let full = or_text(req.path_and_query, "/"@);
    or_text(without_path_prefix(cfg.path_prefix, full), full)
}

/// The path and the query around the first `?`.
pub open spec fn path_and_query_of(original: Seq<char>) -> (Seq<char>, Seq<char>) {
    match split_once(original, '?') {
        Some(p) => p,
        None => (original, ""@),
    }
}

/// What a check request says; one without a host is refused.
pub open spec fn context_of(cfg: ShimConfigView, req: CheckRequestView) -> Option<
    CheckContextView,
> {
    let host = or_text(header_of(req.headers, "host"@), ""@);
    if host.len() == 0 {
        None
    } else {
        let original = original_of(cfg, req);
        Some(
            CheckContextView {
                original,
                path: path_and_query_of(original).0,
                query: first_values(pairs_of(path_and_query_of(original).1)),
                sessions: sessions_of(
                    split(or_text(header_of(req.headers, "cookie"@), ""@), ';'),
                    cfg.user_session_cookie_name,
                ),
                headers: headers_of(req.headers),
                scheme: or_text(header_of(req.headers, "x-forwarded-proto"@), "https"@),
                host,
                method: req.method,
                request_ip: request_ip_of(req.headers),
            },
        )
    }
}

/// The body of the `verify-session` call of a check.
pub open spec fn verify_body_of(c: CheckContextView) -> VerifyBodyView {
    VerifyBodyView {
        sessions: c.sessions,
        headers: c.headers,
        query: c.query,
        original_request_url: c.scheme + "://"@ + c.host + c.original,
        scheme: c.scheme,
        host: c.host,
        path: c.path,
        method: c.method,
        tls: c.scheme == "https"@,
        request_ip: c.request_ip,
    }
}

/// The body of the `exchange-session` call for a token.
pub open spec fn exchange_body_of(c: CheckContextView, token: Seq<char>) -> ExchangeBodyView {
    ExchangeBodyView { request_token: token, host: before(c.host, ':'), request_ip: c.request_ip }
}

/// The first step of a check.
pub enum CheckStart {
    /// The request is answered at once.
    Answer(Reply),
    /// Exchange the one-time token, then see [`after_exchange`].
    Exchange(CheckContext, ExchangeBody),
    /// Verify the session, then see [`after_verify`].
    Verify(VerifyBody),
}

pub enum CheckStartView {
    Answer(ReplyView),
    Exchange(CheckContextView, ExchangeBodyView),
    Verify(VerifyBodyView),
}

impl DeepView for CheckStart {
    type V = CheckStartView;

    open spec fn deep_view(&self) -> CheckStartView {
        match self {
            CheckStart::Answer(r) => CheckStartView::Answer(r.deep_view()),
            CheckStart::Exchange(c, b) => CheckStartView::Exchange(c.deep_view(), b.deep_view()),
            CheckStart::Verify(b) => CheckStartView::Verify(b.deep_view()),
        }
    }
}

pub open spec fn started(cfg: ShimConfigView, req: CheckRequestView) -> CheckStartView {
    match context_of(cfg, req) {
        None => CheckStartView::Answer(plain_reply(400, "missing Host header"@)),
        Some(c) => continued(cfg, c),
    }
}

/// What is to be done once the request is read: a token in the query is exchanged first.
pub open spec fn continued(cfg: ShimConfigView, c: CheckContextView) -> CheckStartView {
    if c.query.contains_key(cfg.resource_session_request_param) {
        CheckStartView::Exchange(
            c,
            exchange_body_of(c, c.query[cfg.resource_session_request_param]),
        )
    } else {
        CheckStartView::Verify(verify_body_of(c))
    }
}

/// What a check request says.
pub fn read_request(cfg: &ShimConfig, req: CheckRequest) -> (r: Option<CheckContext>)
    ensures
        r.deep_view() == context_of(cfg.deep_view(), req.deep_view()),
{
    let full = match req.path_and_query {
        Some(p) => p,
        None => "/".to_owned(),
    };
    let original = match strip_path_prefix(cfg.path_prefix.as_str(), full.as_str()) {
        Some(o) => o,
        None => full,
    };
    let host = match header_str(&req.headers, "host") {
        Some(h) => h,
        None => "".to_owned(),
    };
    if host.as_str().is_empty() {
        return None;
    }
    let scheme = match header_str(&req.headers, "x-forwarded-proto") {
        Some(s) => s,
        None => "https".to_owned(),
    };
    let request_ip = match header_str(&req.headers, "x-forwarded-for") {
        Some(v) => {
            let ip = text::trimmed(text::text_before(v.as_str(), ',').as_str());
            if ip.as_str().is_empty() {
                None
            } else {
                Some(ip)
            }
        },
        None => None,
    };
    let (path, query) = match text::split_at_first(original.as_str(), '?') {
        Some(p) => p,
        None => (original.clone(), "".to_owned()),
    };
    let cookies = match header_str(&req.headers, "cookie") {
        Some(c) => c,
        None => "".to_owned(),
    };
    Some(
        CheckContext {
            original,
            path,
            query: parse_query(query.as_str()),
            sessions: collect_sessions(cookies.as_str(), cfg.user_session_cookie_name.as_str()),
            headers: collect_headers(&req.headers),
            scheme,
            host,
            method: req.method,
            request_ip,
        },
    )
}

/// The body of the `verify-session` call of a check.
pub fn verify_body(c: CheckContext) -> (r: VerifyBody)
    ensures
        r.deep_view() == verify_body_of(c.deep_view()),
{
    let mut url = text::cat3(c.scheme.as_str(), "://", c.host.as_str());
    url.append(c.original.as_str());
    let tls = text::same(c.scheme.as_str(), "https");
    VerifyBody {
        sessions: c.sessions,
        headers: c.headers,
        query: c.query,
        original_request_url: url,
        scheme: c.scheme,
        host: c.host,
        path: c.path,
        method: c.method,
        tls,
        request_ip: c.request_ip,
    }
}

/// What is to be done once the request is read.
pub fn continue_check(cfg: &ShimConfig, c: CheckContext) -> (r: CheckStart)
    ensures
        r.deep_view() == continued(cfg.deep_view(), c.deep_view()),
{
    // Post-login handoff: the auth portal redirects back to the resource with
    // a one-time session-request token in the query.
    let token = match c.query.get(cfg.resource_session_request_param.as_str()) {
        Some(t) => Some(t.clone()),
        None => None,
    };
    match token {
        Some(token) => {
            let body = ExchangeBody {
                request_token: token,
                // Pangolin strips a port itself, but be tidy about it.
                host: text::text_before(c.host.as_str(), ':'),
                request_ip: text::copy_opt(&c.request_ip),
            };
            CheckStart::Exchange(c, body)
        },
        None => CheckStart::Verify(verify_body(c)),
    }
}

/// Read a check request and say what is to be done.
pub fn begin_check(cfg: &ShimConfig, req: CheckRequest) -> (r: CheckStart)
    ensures
        r.deep_view() == started(cfg.deep_view(), req.deep_view()),
{
    match read_request(cfg, req) {
        None => CheckStart::Answer(plain(400, "missing Host header")),
        Some(c) => continue_check(cfg, c),
    }
}

/// What came of a call whose response was parsed or not: an unreadable response is a
/// failure if it claimed success, and a denial otherwise.
pub open spec fn call_outcome<T>(success: bool, parsed: Option<T>, denial: T) -> Option<T> {
    match parsed {
        Some(data) => Some(data),
        None => if success {
            None
        } else {
            Some(denial)
        },
    }
}

pub open spec fn no_session() -> VerifyDataView {
    VerifyDataView {
        valid: false,
        redirect_url: None,
        header_auth_challenged: None,
        user_data: None,
    }
}

pub open spec fn no_exchange() -> ExchangeDataView {
    ExchangeDataView { valid: false, cookie: None }
}

/// Pangolin answers 401-ish statuses with a JSON body that still carries
/// data.valid/redirectUrl, so the body counts regardless of the status.
pub fn verify_outcome(success: bool, parsed: Option<VerifyData>) -> (r: Option<VerifyData>)
    ensures
        r.deep_view() == call_outcome(success, parsed.deep_view(), no_session()),
{
    match parsed {
        Some(data) => Some(data),
        None => {
            if success {
                None
            } else {
                Some(
                    VerifyData {
                        valid: false,
                        redirect_url: None,
                        header_auth_challenged: None,
                        user_data: None,
                    },
                )
            }
        },
    }
}

pub fn exchange_outcome(success: bool, parsed: Option<ExchangeData>) -> (r: Option<ExchangeData>)
    ensures
        r.deep_view() == call_outcome(success, parsed.deep_view(), no_exchange()),
{
    match parsed {
        Some(data) => Some(data),
        None => {
            if success {
                None
            } else {
                Some(ExchangeData { valid: false, cookie: None })
            }
        },
    }
}

/// The step after an exchange.
pub enum CheckNext {
    Answer(Reply),
    Verify(VerifyBody),
}

pub enum CheckNextView {
    Answer(ReplyView),
    Verify(VerifyBodyView),
}

impl DeepView for CheckNext {
    type V = CheckNextView;

    open spec fn deep_view(&self) -> CheckNextView {
        match self {
            CheckNext::Answer(r) => CheckNextView::Answer(r.deep_view()),
            CheckNext::Verify(b) => CheckNextView::Verify(b.deep_view()),
        }
    }
}

/// The URL to send the client back to, without the token.
pub open spec fn handoff_location(cfg: ShimConfigView, c: CheckContextView) -> Seq<char> {
    c.scheme + "://"@ + c.host + query_stripped(c.original, cfg.resource_session_request_param)
}

pub open spec fn handoff_reply(location: Seq<char>, cookie: Seq<char>) -> ReplyView {
    if header_text(cookie) {
        ReplyView {
            status: 302,
            headers: seq![("location"@, location), ("set-cookie"@, cookie)],
            body: ""@,
        }
    } else {
        plain_reply(503, "bad exchange cookie"@)
    }
}

/// The answer to an exchange: a new session cookie sends the client back, a rejected
/// token falls back to verification, a failed call denies.
pub open spec fn exchanged(
    cfg: ShimConfigView,
    c: CheckContextView,
    data: Option<ExchangeDataView>,
) -> CheckNextView {
    match data {
        None => CheckNextView::Answer(plain_reply(503, "auth backend unavailable"@)),
        Some(data) => if data.valid && data.cookie is Some && (data.cookie->0).len() > 0 {
            CheckNextView::Answer(handoff_reply(handoff_location(cfg, c), data.cookie->0))
        } else {
            CheckNextView::Verify(verify_body_of(c))
        },
    }
}

/// The answer with a new session cookie.
pub fn hand_off(location: String, cookie: String) -> (r: Reply)
    ensures
        r.deep_view() == handoff_reply(location@, cookie@),
{
    if valid_header(cookie.as_str()) {
        let headers = vec![("location".to_owned(), location), ("set-cookie".to_owned(), cookie)];
        assert(headers.deep_view() =~= seq![("location"@, location@), ("set-cookie"@, cookie@)]);
        Reply { status: 302, headers, body: "".to_owned() }
    } else {
        plain(503, "bad exchange cookie")
    }
}

/// Go on after an `exchange-session` call; `None` stands for a call that failed.
pub fn after_exchange(cfg: &ShimConfig, c: CheckContext, data: Option<ExchangeData>) -> (r: CheckNext)
    ensures
        r.deep_view() == exchanged(cfg.deep_view(), c.deep_view(), data.deep_view()),
{
    let data = match data {
        Some(d) => d,
        None => {
            return CheckNext::Answer(plain(503, "auth backend unavailable"));
        },
    };
    if data.valid {
        if let Some(cookie) = data.cookie {
            if !cookie.as_str().is_empty() {
                let mut location = text::cat3(c.scheme.as_str(), "://", c.host.as_str());
                let rest = strip_query_param(
                    c.original.as_str(),
                    cfg.resource_session_request_param.as_str(),
                );
                location.append(rest.as_str());
                return CheckNext::Answer(hand_off(location, cookie));
            }
        }
    }
    CheckNext::Verify(verify_body(c))
}

/// The header that passes on one piece of the user's identity.
pub open spec fn identity_header(name: Seq<char>, value: Option<Seq<char>>) -> Seq<
    (Seq<char>, Seq<char>),
> {
    match value {
        Some(v) => if header_text(v) {
            seq![(name, v)]
        } else {
            Seq::empty()
        },
        None => Seq::empty(),
    }
}

pub open spec fn identity_headers(user: Option<UserDataView>) -> Seq<(Seq<char>, Seq<char>)> {
    match user {
        Some(u) => identity_header("remote-user-id"@, u.user_id) + identity_header(
            "remote-user"@,
            u.username,
        ) + identity_header("remote-email"@, u.email) + identity_header("remote-name"@, u.name)
            + identity_header("remote-role"@, u.role),
        None => Seq::empty(),
    }
}

/// The answer to a verification.
pub open spec fn verified(data: Option<VerifyDataView>) -> ReplyView {
    match data {
        None => plain_reply(503, "auth backend unavailable"@),
        Some(d) => if d.redirect_url is Some && (d.redirect_url->0).len() > 0 {
            if header_text(d.redirect_url->0) {
                ReplyView {
                    status: 302,
                    headers: seq![("location"@, d.redirect_url->0)],
                    body: ""@,
                }
            } else {
                plain_reply(503, "bad redirect"@)
            }
        } else if d.header_auth_challenged == Some(true) {
            ReplyView {
                status: 401,
                headers: seq![("www-authenticate"@, "Basic realm=\"pangolin\""@)],
                body: ""@,
            }
        } else if d.valid {
            ReplyView { status: 200, headers: identity_headers(d.user_data), body: ""@ }
        } else {
            plain_reply(401, "unauthorized"@)
        },
    }
}

fn add_identity(headers: &mut Vec<(String, String)>, name: &str, value: &Option<String>)
    ensures
        final(headers).deep_view() == old(headers).deep_view() + identity_header(
            name@,
            value.deep_view(),
        ),
{
    let ghost before = headers.deep_view();
    if let Some(v) = value {
        if valid_header(v.as_str()) {
            headers.push((name.to_owned(), v.clone()));
            assert(headers.deep_view() =~= before + seq![(name@, v@)]);
            return;
        }
    }
    assert(before + Seq::<(Seq<char>, Seq<char>)>::empty() =~= before);
}

/// Answer after a `verify-session` call; `None` stands for a call that failed.
pub fn after_verify(data: Option<VerifyData>) -> (r: Reply)
    ensures
        r.deep_view() == verified(data.deep_view()),
{
    let data = match data {
        Some(d) => d,
        None => {
            return plain(503, "auth backend unavailable");
        },
    };
    if let Some(redirect) = &data.redirect_url {
        if !redirect.as_str().is_empty() {
            if !valid_header(redirect.as_str()) {
                return plain(503, "bad redirect");
            }
            let headers = vec![("location".to_owned(), redirect.clone())];
            assert(headers.deep_view() =~= seq![("location"@, redirect@)]);
            return Reply { status: 302, headers, body: "".to_owned() };
        }
    }
    let challenged = match data.header_auth_challenged {
        Some(b) => b,
        None => false,
    };
    if challenged {
        let headers = vec![
            ("www-authenticate".to_owned(), "Basic realm=\"pangolin\"".to_owned()),
        ];
        assert(headers.deep_view() =~= seq![
            ("www-authenticate"@, "Basic realm=\"pangolin\""@),
        ]);
        return Reply { status: 401, headers, body: "".to_owned() };
    }
    if !data.valid {
        return plain(401, "unauthorized");
    }
    let mut headers: Vec<(String, String)> = Vec::new();
    assert(headers.deep_view() =~= Seq::<(Seq<char>, Seq<char>)>::empty());
    if let Some(user) = &data.user_data {
        add_identity(&mut headers, "remote-user-id", &user.user_id);
        add_identity(&mut headers, "remote-user", &user.username);
        add_identity(&mut headers, "remote-email", &user.email);
        add_identity(&mut headers, "remote-name", &user.name);
        add_identity(&mut headers, "remote-role", &user.role);
        proof {
            let u = user.deep_view();
            assert(headers.deep_view() =~= identity_headers(Some(u)));
        }
    }
    Reply { status: 200, headers, body: "".to_owned() }
}

// ---- laws ---------------------------------------------------------------------------

/// A request goes through only where pangolin declared the session valid and asked for
/// neither a redirect nor a challenge; every other outcome denies it.
pub proof fn law_only_valid_sessions_pass(data: Option<VerifyDataView>)
    ensures
        verified(data).status == 200 <==> {
            &&& data matches Some(d)
            &&& d.valid
            &&& d.redirect_url is None || (d.redirect_url->0).len() == 0
            &&& d.header_auth_challenged != Some(true)
        },
        verified(data).status == 200 || verified(data).status >= 300,
{
}

/// An outage fails closed: a failed call is answered 503, at whichever step it comes.
pub proof fn law_outage_fails_closed(cfg: ShimConfigView, c: CheckContextView)
    ensures
        verified(None).status == 503,
        exchanged(cfg, c, None) matches CheckNextView::Answer(r) && r.status == 503,
{
}

/// Nothing before the verification lets a request through.
pub proof fn law_no_pass_before_verification(
    cfg: ShimConfigView,
    req: CheckRequestView,
    c: CheckContextView,
    data: Option<ExchangeDataView>,
)
    ensures
        started(cfg, req) matches CheckStartView::Answer(r) ==> r.status >= 300,
        exchanged(cfg, c, data) matches CheckNextView::Answer(r) ==> r.status >= 300,
{
}

// ---- calls --------------------------------------------------------------------------

/// The URL text of an API endpoint.
pub open spec fn endpoint_text(base: Seq<char>, suffix: Seq<char>) -> Seq<char> {
    trim_end_char(base, '/') + "/"@ + suffix
}

/// The URL of an API endpoint, in its normal form.
pub fn endpoint(base: &str, suffix: &str) -> (r: Option<String>)
    ensures
        match r {
            Some(u) => url_of(endpoint_text(base@, suffix@)) matches Some(p) && p.text == u@,
            None => url_of(endpoint_text(base@, suffix@)) is None,
        },
{
    let trimmed = text::trimmed_end_char(base, '/');
    let s = text::cat3(trimmed.as_str(), "/", suffix);
    match parse_url(s.as_str()) {
        Some(u) => Some(u.text),
        None => None,
    }
}

/// The value is an object whose members are these texts.
pub open spec fn is_text_object(v: Json, texts: Texts) -> bool {
    &&& v matches Json::Object(map)
    &&& map@.dom() == texts.dom()
    &&& forall|k: Seq<char>| #[trigger]
        map@.contains_key(k) ==> map@[k].text() == Some(texts[k])
}

fn text_object(texts: &StrMap<String>) -> (r: Json)
    ensures
        is_text_object(r, texts.deep_view()),
{
    let ghost e = texts.entries();
    let mut out: StrMap<Json> = StrMap::new();
    let n: usize = texts.len();
    let mut i: usize = 0;
    assert(out@.dom() =~= map_of(e.take(0)).dom());
    while i < n
        invariant
            e == texts.entries(),
            n == e.len(),
            i <= n,
            texts.ordered(),
            out@.dom() == map_of(e.take(i as int)).dom(),
            forall|k: Seq<char>| #[trigger]
                out@.contains_key(k) ==> out@[k].text() == Some(map_of(e.take(i as int))[k]@),
        decreases n - i,
    {
        proof {
            lemma_first_entries(e, i as int);
        }
        let ghost before = map_of(e.take(i as int));
        out.insert(texts.key_at(i).clone(), Json::Text(texts.value_at(i).clone()));
        i += 1;
        assert(out@.dom() =~= map_of(e.take(i as int)).dom());
    }
    assert(e.take(i as int) =~= e);
    assert(out@.dom() =~= texts.deep_view().dom());
    Json::Object(out)
}

pub open spec fn verify_body_members() -> Set<Seq<char>> {
    set![
        "sessions"@,
        "headers"@,
        "query"@,
        "originalRequestURL"@,
        "scheme"@,
        "host"@,
        "path"@,
        "method"@,
        "tls"@,
    ]
}

/// The JSON of a verification: field names mirror pangolin's schema, and the address of
/// the client is left out where it is not known.
pub open spec fn is_verify_json(v: Json, b: VerifyBodyView) -> bool {
    &&& v matches Json::Object(map)
    &&& map@.dom() == match b.request_ip {
        Some(_) => verify_body_members().insert("requestIp"@),
        None => verify_body_members(),
    }
    &&& is_text_object(map@["sessions"@], b.sessions)
    &&& is_text_object(map@["headers"@], b.headers)
    &&& is_text_object(map@["query"@], b.query)
    &&& map@["originalRequestURL"@].text() == Some(b.original_request_url)
    &&& map@["scheme"@].text() == Some(b.scheme)
    &&& map@["host"@].text() == Some(b.host)
    &&& map@["path"@].text() == Some(b.path)
    &&& map@["method"@].text() == Some(b.method)
    &&& map@["tls"@] == Json::Bool(b.tls)
    &&& b.request_ip is Some ==> map@["requestIp"@].text() == b.request_ip
}

/// The names of the members differ.
proof fn lemma_verify_names()
    ensures
        "sessions"@.len() == 8,
        "headers"@.len() == 7,
        "query"@.len() == 5,
        "originalRequestURL"@.len() == 18,
        "scheme"@.len() == 6,
        "host"@.len() == 4,
        "path"@.len() == 4,
        "method"@.len() == 6,
        "tls"@.len() == 3,
        "requestIp"@.len() == 9,
        "host"@ != "path"@,
        "scheme"@ != "method"@,
{
    reveal_strlit("sessions");
    reveal_strlit("headers");
    reveal_strlit("query");
    reveal_strlit("originalRequestURL");
    reveal_strlit("scheme");
    reveal_strlit("host");
    reveal_strlit("path");
    reveal_strlit("method");
    reveal_strlit("tls");
    reveal_strlit("requestIp");
    assert("host"@[0] != "path"@[0]);
    assert("scheme"@[0] != "method"@[0]);
}

impl VerifyBody {
    /// The JSON that pangolin's `verifySession` expects.
    pub fn to_json(&self) -> (r: Json)
        ensures
            is_verify_json(r, self.deep_view()),
    {
        let mut map: StrMap<Json> = StrMap::new();
        map.insert("sessions".to_owned(), text_object(&self.sessions));
        map.insert("headers".to_owned(), text_object(&self.headers));
        map.insert("query".to_owned(), text_object(&self.query));
        map.insert(
            "originalRequestURL".to_owned(),
            Json::Text(self.original_request_url.clone()),
        );
        map.insert("scheme".to_owned(), Json::Text(self.scheme.clone()));
        map.insert("host".to_owned(), Json::Text(self.host.clone()));
        map.insert("path".to_owned(), Json::Text(self.path.clone()));
        map.insert("method".to_owned(), Json::Text(self.method.clone()));
        map.insert("tls".to_owned(), Json::Bool(self.tls));
        proof {
            lemma_verify_names();
            assert(map@.dom() =~= verify_body_members());
        }
        if let Some(ip) = &self.request_ip {
            map.insert("requestIp".to_owned(), Json::Text(ip.clone()));
            assert(map@.dom() =~= verify_body_members().insert("requestIp"@));
        }
        Json::Object(map)
    }
}

/// The JSON of an exchange.
pub open spec fn is_exchange_json(v: Json, b: ExchangeBodyView) -> bool {
    &&& v matches Json::Object(map)
    &&& map@.dom() == match b.request_ip {
        Some(_) => set!["requestToken"@, "host"@, "requestIp"@],
        None => set!["requestToken"@, "host"@],
    }
    &&& map@["requestToken"@].text() == Some(b.request_token)
    &&& map@["host"@].text() == Some(b.host)
    &&& b.request_ip is Some ==> map@["requestIp"@].text() == b.request_ip
}

impl ExchangeBody {
    /// The JSON that pangolin's `exchangeSession` expects.
    pub fn to_json(&self) -> (r: Json)
        ensures
            is_exchange_json(r, self.deep_view()),
    {
        let mut map: StrMap<Json> = StrMap::new();
        map.insert("requestToken".to_owned(), Json::Text(self.request_token.clone()));
        map.insert("host".to_owned(), Json::Text(self.host.clone()));
        proof {
            reveal_strlit("requestToken");
            reveal_strlit("host");
            reveal_strlit("requestIp");
            assert("requestToken"@.len() == 12);
            assert("host"@.len() == 4);
            assert("requestIp"@.len() == 9);
            assert(map@.dom() =~= set!["requestToken"@, "host"@]);
        }
        if let Some(ip) = &self.request_ip {
            map.insert("requestIp".to_owned(), Json::Text(ip.clone()));
            assert(map@.dom() =~= set!["requestToken"@, "host"@, "requestIp"@]);
        }
        Json::Object(map)
    }
}

} // verus!
