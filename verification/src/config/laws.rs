//! What each setting comes to.

use vstd::prelude::*;

use crate::config::env::{
    assignments, csv_of, duration_setting, entries_of, flag_of, i32_of, kv_of, message_of,
    numbers_of, ports_of, u64_of, ConfigErrorView, Env, ErrorKind,
};
use crate::config::scope::{
    candidates, kind_of, kind_word, selector_of, selectors_of, selects, touches, unmarked,
    ReconcileKind, ReconcileScopeView, SelectorView,
};
use crate::config::{backend_kind_of, backend_kind_setting, first_error, settings, BackendKind};
use crate::duration::{duration_of, Duration};
use crate::text::{dec, lower, trim};
use crate::text_laws::{
    joined, law_numbers_read_back, law_only_digits_read, law_split_once_at_the_first,
    law_split_undoes_join,
};
use crate::urls::url_of;

verus! {

// ---- variables --------------------------------------------------------------------------

/// The variable is set, to something that is not empty.
pub open spec fn is_set(env: Env, key: Seq<char>) -> bool {
    env.contains_key(key) && env[key].len() > 0
}

/// The variable's value, or the default where it is unset or empty.
pub open spec fn set_or(env: Env, key: Seq<char>, default: Seq<char>) -> Seq<char> {
    if is_set(env, key) {
        env[key]
    } else {
        default
    }
}

/// The variable's value, where it has one.
pub open spec fn set_value(env: Env, key: Seq<char>) -> Option<Seq<char>> {
    if is_set(env, key) {
        Some(env[key])
    } else {
        None
    }
}

pub open spec fn says_yes(word: Seq<char>) -> bool {
    lower(word) == "1"@ || lower(word) == "true"@ || lower(word) == "yes"@ || lower(word) == "on"@
}

pub open spec fn says_no(word: Seq<char>) -> bool {
    lower(word) == "0"@ || lower(word) == "false"@ || lower(word) == "no"@ || lower(word) == "off"@
}

proof fn lemma_words()
    ensures
        "1"@.len() == 1 && "0"@.len() == 1 && "1"@ != "0"@,
        "true"@.len() == 4 && "yes"@.len() == 3 && "on"@.len() == 2,
        "false"@.len() == 5 && "no"@.len() == 2 && "off"@.len() == 3,
        "on"@ != "no"@ && "yes"@ != "off"@,
{
    reveal_strlit("1");
    reveal_strlit("0");
    reveal_strlit("true");
    reveal_strlit("yes");
    reveal_strlit("on");
    reveal_strlit("false");
    reveal_strlit("no");
    reveal_strlit("off");
    assert("1"@[0] != "0"@[0]);
    assert("on"@[0] != "no"@[0]);
    assert("yes"@[0] != "off"@[0]);
}

/// A flag is on or off by its word, in any casing, and the default where it is unset; any
/// other word is refused.
pub proof fn law_flags_follow_words(env: Env, key: Seq<char>, default: bool)
    ensures
        !is_set(env, key) ==> flag_of(env, key, default) == Ok::<_, ConfigErrorView>(default),
        is_set(env, key) && says_yes(env[key]) ==> flag_of(env, key, default) == Ok::<
            _,
            ConfigErrorView,
        >(true),
        is_set(env, key) && says_no(env[key]) ==> flag_of(env, key, default) == Ok::<
            _,
            ConfigErrorView,
        >(false),
        is_set(env, key) && !says_yes(env[key]) && !says_no(env[key]) ==> (flag_of(
            env,
            key,
            default,
        ) matches Err(e) && e.kind == ErrorKind::InvalidBool && e.key == key),
{
    lemma_words();
}

/// A number is what its decimal text says, and the default where it is unset; a text with
/// anything but digits behind its first character is refused.
pub proof fn law_numbers_follow_digits(env: Env, key: Seq<char>, big: u64, small: i32, n: nat, i: int)
    ensures
        !is_set(env, key) ==> u64_of(env, key, big) == Ok::<_, ConfigErrorView>(big) && i32_of(
            env,
            key,
            small,
        ) == Ok::<_, ConfigErrorView>(small),
        is_set(env, key) && env[key] == dec(n) && n <= u64::MAX ==> u64_of(env, key, big) == Ok::<
            _,
            ConfigErrorView,
        >(n as u64),
        is_set(env, key) && env[key] == dec(n) && n <= i32::MAX ==> i32_of(env, key, small) == Ok::<
            _,
            ConfigErrorView,
        >(n as i32),
        is_set(env, key) && 0 < i < env[key].len() && !('0' <= env[key][i] && env[key][i] <= '9')
            ==> (u64_of(env, key, big) matches Err(e) && e.kind == ErrorKind::InvalidU64 && e.key
            == key) && (i32_of(env, key, small) matches Err(e) && e.kind == ErrorKind::InvalidI32
            && e.key == key),
{
    law_numbers_read_back(n, u64::MAX as nat);
    if is_set(env, key) && 0 < i < env[key].len() && !('0' <= env[key][i] && env[key][i] <= '9') {
        law_only_digits_read(env[key], u64::MAX as nat, i);
    }
}

/// A duration is what humantime reads, and the default where it is unset.
pub proof fn law_durations_follow_humantime(env: Env, key: Seq<char>, default: Duration)
    ensures
        !is_set(env, key) ==> duration_setting(env, key, default) == Ok::<_, ConfigErrorView>(
            default,
        ),
        is_set(env, key) && duration_of(env[key]) is Some ==> (duration_setting(env, key, default)
            matches Ok(d) && Some((d.secs, d.nanos)) == duration_of(env[key])),
        is_set(env, key) && duration_of(env[key]) is None ==> (duration_setting(env, key, default)
            matches Err(e) && e.kind == ErrorKind::InvalidDuration && e.key == key),
{
}

proof fn lemma_entries(parts: Seq<Seq<char>>, x: Seq<char>)
    ensures
        entries_of(parts).contains(x) <==> x.len() > 0 && exists|i: int|
            0 <= i < parts.len() && trim(#[trigger] parts[i]) == x,
    decreases parts.len(),
{
    if parts.len() > 0 {
        let rest = parts.drop_last();
        lemma_entries(rest, x);
        let (a, b) = (entries_of(rest), entries_of(parts));
        assert(parts[parts.len() - 1] == parts.last());
        if b.contains(x) {
            let k = choose|k: int| 0 <= k < b.len() && b[k] == x;
            if k < a.len() {
                assert(a[k] == x);
                let i = choose|i: int| 0 <= i < rest.len() && trim(#[trigger] rest[i]) == x;
                assert(parts[i] == rest[i]);
            }
        }
        if x.len() > 0 && exists|i: int| 0 <= i < parts.len() && trim(#[trigger] parts[i]) == x {
            let i = choose|i: int| 0 <= i < parts.len() && trim(#[trigger] parts[i]) == x;
            if i < rest.len() {
                assert(rest[i] == parts[i]);
                let k = choose|k: int| 0 <= k < a.len() && a[k] == x;
                assert(b[k] == x);
            } else {
                assert(b[b.len() - 1] == x);
            }
        }
    }
}

/// A list holds the parts between its commas, without white space around them; empty parts
/// are passed over, and a list of nothing else is refused. Unset, it is the default.
pub proof fn law_lists_hold_their_parts(
    env: Env,
    key: Seq<char>,
    default: Seq<Seq<char>>,
    parts: Seq<Seq<char>>,
    x: Seq<char>,
)
    requires
        parts.len() > 0,
        forall|i: int| 0 <= i < parts.len() ==> !(#[trigger] parts[i]).contains(','),
    ensures
        !is_set(env, key) ==> csv_of(env, key, default) == Ok::<_, ConfigErrorView>(default),
        is_set(env, key) && env[key] == joined(parts, ',') ==> match csv_of(env, key, default) {
            Ok(list) => {
                &&& list.len() > 0
                &&& list.contains(x) <==> x.len() > 0 && exists|i: int|
                    0 <= i < parts.len() && trim(#[trigger] parts[i]) == x
            },
            Err(e) => {
                &&& e.kind == ErrorKind::EmptyList && e.key == key
                &&& forall|i: int| 0 <= i < parts.len() ==> trim(#[trigger] parts[i]).len() == 0
            },
        },
{
    law_split_undoes_join(parts, ',');
    lemma_entries(parts, x);
    if entries_of(parts).len() == 0 {
        assert forall|i: int| 0 <= i < parts.len() implies trim(#[trigger] parts[i]).len() == 0 by {
            lemma_entries(parts, trim(parts[i]));
            if trim(parts[i]).len() > 0 {
                assert(entries_of(parts).contains(trim(parts[i])));
            }
        }
    }
}

/// The entries of a list stand in its order.
pub proof fn law_entries_stand_in_order(parts: Seq<Seq<char>>, part: Seq<char>)
    ensures
        trim(part).len() > 0 ==> entries_of(parts.push(part)) == entries_of(parts).push(trim(part)),
        trim(part).len() == 0 ==> entries_of(parts.push(part)) == entries_of(parts),
        entries_of(Seq::empty()).len() == 0,
{
    assert(parts.push(part).drop_last() =~= parts);
}

/// One more entry `name=value` of a list of assignments sets that name, in place of an
/// earlier one, without white space around name and value; an entry without `=` or without
/// a name is refused, and so is the list after the first such entry.
pub proof fn law_assignments_are_taken(
    key: Seq<char>,
    entries: Seq<Seq<char>>,
    name: Seq<char>,
    value: Seq<char>,
    other: Seq<char>,
)
    requires
        !name.contains('='),
    ensures
        ({
            let before = assignments(key, entries);
            let after = assignments(key, entries.push(name + seq!['='] + value));
            &&& before is Ok && trim(name).len() > 0 ==> after == Ok::<_, ConfigErrorView>(
                before->Ok_0.insert(trim(name), trim(value)),
            )
            &&& before is Ok && trim(name).len() == 0 ==> (after matches Err(e) && e.kind
                == ErrorKind::EmptyAnnotationKey && e.key == key)
            &&& before is Err ==> after == before
            &&& before is Ok ==> (assignments(key, entries.push(name)) matches Err(e) && e.kind
                == ErrorKind::NotKeyValue && e.key == key)
            &&& assignments(key, Seq::empty()) matches Ok(m) && !m.contains_key(other)
        }),
{
    let entry = name + seq!['='] + value;
    assert(entries.push(entry).drop_last() =~= entries);
    assert(entries.push(name).drop_last() =~= entries);
    law_split_once_at_the_first(name, '=', value);
}

/// Annotations are the assignments of their list, and none where it is unset.
pub proof fn law_annotations_are_assignments(env: Env, key: Seq<char>, parts: Seq<Seq<char>>)
    requires
        parts.len() > 0,
        forall|i: int| 0 <= i < parts.len() ==> !(#[trigger] parts[i]).contains(','),
    ensures
        !is_set(env, key) ==> (kv_of(env, key) matches Ok(m) && m =~= Map::<
            Seq<char>,
            Seq<char>,
        >::empty()),
        is_set(env, key) && env[key] == joined(parts, ',') ==> kv_of(env, key) == assignments(
            key,
            entries_of(parts),
        ),
{
    law_split_undoes_join(parts, ',');
}

/// Ports are the numbers of their list, in order.
pub proof fn law_ports_are_numbers(key: Seq<char>, entries: Seq<Seq<char>>, n: nat)
    requires
        n <= i32::MAX,
    ensures
        ({
            let before = numbers_of(key, entries);
            let after = numbers_of(key, entries.push(dec(n)));
            &&& before is Ok ==> after == Ok::<_, ConfigErrorView>(before->Ok_0.push(n as i32))
            &&& before is Err ==> after == before
            &&& numbers_of(key, Seq::empty()) matches Ok(m) && m.len() == 0
        }),
{
    law_numbers_read_back(n, i32::MAX as nat);
    assert(entries.push(dec(n)).drop_last() =~= entries);
}

// ---- settings ---------------------------------------------------------------------------

/// Texts come from their variables, or are the defaults.
pub proof fn law_text_settings_follow_the_environment(env: Env)
    ensures
        ({
            let s = settings(env);
            &&& s.auth_header == set_value(env, "CONFIG_AUTH_HEADER"@)
            &&& s.ca_file == set_value(env, "CONFIG_CA_FILE"@)
            &&& s.namespace == set_or(env, "CONFIG_NAMESPACE"@, "default"@)
            &&& s.parent_gateway_namespace == set_value(env, "CONFIG_PARENT_GATEWAY_NAMESPACE"@)
            &&& s.listener_set_name == set_or(env, "CONFIG_LISTENERSET_NAME"@, "pangolin"@)
            &&& s.tls_secret_template == set_value(env, "CONFIG_TLS_SECRET_TEMPLATE"@)
            &&& s.tls_secret_namespace == set_value(env, "CONFIG_TLS_SECRET_NAMESPACE"@)
            &&& s.field_manager == set_or(
                env,
                "CONFIG_FIELD_MANAGER"@,
                "pangolin-gateway-controller"@,
            )
            &&& s.managed_label_key == set_or(
                env,
                "CONFIG_MANAGED_LABEL_KEY"@,
                "app.kubernetes.io/managed-by"@,
            )
            &&& s.managed_label_value == set_or(
                env,
                "CONFIG_MANAGED_LABEL_VALUE"@,
                "pangolin-gateway-controller"@,
            )
            &&& s.instance_label_key == set_or(
                env,
                "CONFIG_INSTANCE_LABEL_KEY"@,
                "pangolin.envisia.de/instance"@,
            )
            &&& s.instance_label_value == set_or(
                env,
                "CONFIG_INSTANCE_LABEL_VALUE"@,
                "default"@,
            )
            &&& s.managed_annotation_key == set_or(
                env,
                "CONFIG_MANAGED_ANNOTATION_KEY"@,
                "pangolin.envisia.de/source"@,
            )
            &&& s.managed_annotation_value == set_or(
                env,
                "CONFIG_MANAGED_ANNOTATION_VALUE"@,
                "pangolin-gateway-controller"@,
            )
            &&& set_or(env, "CONFIG_HEALTH_LISTEN"@, "0.0.0.0:8081"@) == "off"@
                ==> s.health_listen is None
            &&& set_or(env, "CONFIG_HEALTH_LISTEN"@, "0.0.0.0:8081"@) != "off"@
                ==> s.health_listen == Some(set_or(env, "CONFIG_HEALTH_LISTEN"@, "0.0.0.0:8081"@))
        }),
{
}

/// What a flag of good settings says: its word, or the default.
pub open spec fn flag_says(env: Env, key: Seq<char>, default: bool) -> bool {
    if is_set(env, key) {
        says_yes(env[key])
    } else {
        default
    }
}

/// The flag's word is one of those that are known.
pub open spec fn flag_is_clear(env: Env, key: Seq<char>) -> bool {
    is_set(env, key) ==> says_yes(env[key]) || says_no(env[key])
}

/// Flags of good settings follow their words.
pub proof fn law_flag_settings_follow_the_environment(env: Env)
    requires
        first_error(env) is None,
    ensures
        ({
            let s = settings(env);
            &&& flag_is_clear(env, "CONFIG_TLS_SKIP_VERIFY"@) && s.tls_skip_verify == flag_says(
                env,
                "CONFIG_TLS_SKIP_VERIFY"@,
                false,
            )
            &&& flag_is_clear(env, "CONFIG_ENABLE_HTTPS_LISTENERS"@) && s.enable_https_listeners
                == flag_says(env, "CONFIG_ENABLE_HTTPS_LISTENERS"@, true)
            &&& flag_is_clear(env, "CONFIG_ENABLE_TCP_ROUTES"@) && s.enable_tcp_routes == flag_says(
                env,
                "CONFIG_ENABLE_TCP_ROUTES"@,
                false,
            )
            &&& flag_is_clear(env, "CONFIG_ENABLE_UDP_ROUTES"@) && s.enable_udp_routes == flag_says(
                env,
                "CONFIG_ENABLE_UDP_ROUTES"@,
                false,
            )
            &&& flag_is_clear(env, "CONFIG_ALLOW_UNAUTHENTICATED_ROUTES"@)
                && s.allow_unauthenticated_routes == flag_says(
                env,
                "CONFIG_ALLOW_UNAUTHENTICATED_ROUTES"@,
                false,
            )
            &&& flag_is_clear(env, "CONFIG_READ_ONLY"@) && s.read_only == flag_says(
                env,
                "CONFIG_READ_ONLY"@,
                false,
            )
            &&& flag_is_clear(env, "CONFIG_LOG_TRAEFIK_CONFIG"@) && s.log_traefik_config
                == flag_says(env, "CONFIG_LOG_TRAEFIK_CONFIG"@, false)
        }),
{
    law_flags_follow_words(env, "CONFIG_TLS_SKIP_VERIFY"@, false);
    law_flags_follow_words(env, "CONFIG_ENABLE_HTTPS_LISTENERS"@, true);
    law_flags_follow_words(env, "CONFIG_ENABLE_TCP_ROUTES"@, false);
    law_flags_follow_words(env, "CONFIG_ENABLE_UDP_ROUTES"@, false);
    law_flags_follow_words(env, "CONFIG_ALLOW_UNAUTHENTICATED_ROUTES"@, false);
    law_flags_follow_words(env, "CONFIG_READ_ONLY"@, false);
    law_flags_follow_words(env, "CONFIG_LOG_TRAEFIK_CONFIG"@, false);
}

/// The duration of good settings under a variable.
pub open spec fn is_duration(env: Env, key: Seq<char>, d: Duration, default: u64) -> bool {
    if is_set(env, key) {
        Some((d.secs, d.nanos)) == duration_of(env[key])
    } else {
        d.secs == default && d.nanos == 0
    }
}

/// The number of good settings under a variable.
pub open spec fn is_number(env: Env, key: Seq<char>, n: int, default: int) -> bool {
    &&& !is_set(env, key) ==> n == default
    &&& forall|m: nat| is_set(env, key) && env[key] == #[trigger] dec(m) ==> n == m
}

/// Durations, numbers, annotations and the endpoint of good settings.
pub proof fn law_other_settings_follow_the_environment(env: Env)
    requires
        first_error(env) is None,
    ensures
        ({
            let s = settings(env);
            &&& is_duration(env, "CONFIG_FETCH_TIMEOUT"@, s.fetch_timeout, 30)
            &&& is_duration(env, "CONFIG_POLL_INTERVAL"@, s.poll_interval, 30)
            &&& is_duration(env, "CONFIG_MAX_BACKOFF"@, s.max_backoff, 300)
            &&& is_number(
                env,
                "CONFIG_MAX_RESPONSE_BODY_BYTES"@,
                s.max_response_body_bytes as int,
                16777216,
            )
            &&& is_number(env, "CONFIG_HTTP_PORT"@, s.http_port as int, 80)
            &&& is_number(env, "CONFIG_HTTPS_PORT"@, s.https_port as int, 443)
            &&& s.parent_gateway == env["CONFIG_PARENT_GATEWAY"@]
            &&& s.pangolin_endpoint == (url_of(env["CONFIG_ENDPOINT"@])->0).text
            &&& kv_of(env, "CONFIG_HTTPROUTE_ANNOTATIONS"@) == Ok::<_, ConfigErrorView>(
                s.httproute_annotations,
            )
            &&& kv_of(env, "CONFIG_LISTENERSET_ANNOTATIONS"@) == Ok::<_, ConfigErrorView>(
                s.listenerset_annotations,
            )
        }),
{
    assert forall|m: nat|
        is_set(env, "CONFIG_MAX_RESPONSE_BODY_BYTES"@) && env["CONFIG_MAX_RESPONSE_BODY_BYTES"@]
            == #[trigger] dec(m) implies settings(env).max_response_body_bytes == m by {
        law_numbers_read_back(m, u64::MAX as nat);
    }
    assert forall|m: nat|
        is_set(env, "CONFIG_HTTP_PORT"@) && env["CONFIG_HTTP_PORT"@] == #[trigger] dec(
            m,
        ) implies settings(env).http_port == m by {
        law_numbers_read_back(m, i32::MAX as nat);
        lemma_not_negative(m);
    }
    assert forall|m: nat|
        is_set(env, "CONFIG_HTTPS_PORT"@) && env["CONFIG_HTTPS_PORT"@] == #[trigger] dec(
            m,
        ) implies settings(env).https_port == m by {
        law_numbers_read_back(m, i32::MAX as nat);
        lemma_not_negative(m);
    }
}

proof fn lemma_not_negative(m: nat)
    ensures
        dec(m).len() > 0,
        dec(m)[0] != '-',
{
    crate::text_laws::lemma_dec(m);
    assert(crate::text::is_digit(dec(m)[0]));
}

/// The backend kind is read from its word, in any casing and with white space around it, and
/// Envoy backends are the default.
pub proof fn law_backend_kinds(env: Env, word: Seq<char>)
    ensures
        !is_set(env, "CONFIG_BACKEND_KIND"@) ==> backend_kind_setting(env) == Ok::<
            _,
            ConfigErrorView,
        >(BackendKind::EnvoyBackend),
        is_set(env, "CONFIG_BACKEND_KIND"@) ==> backend_kind_setting(env) == backend_kind_of(
            env["CONFIG_BACKEND_KIND"@],
        ),
        first_error(env) is None ==> backend_kind_setting(env) == Ok::<_, ConfigErrorView>(
            settings(env).backend_kind,
        ),
        ({
            let w = lower(trim(word));
            &&& w == "service"@ || w == "service-endpointslice"@ || w.len() == 0 ==> backend_kind_of(
                word,
            ) == Ok::<_, ConfigErrorView>(BackendKind::Service)
            &&& w == "envoy-backend"@ || w == "envoybackend"@ || w == "backend"@ ==> backend_kind_of(
                word,
            ) == Ok::<_, ConfigErrorView>(BackendKind::EnvoyBackend)
            &&& w.len() > 0 && w != "service"@ && w != "service-endpointslice"@ && w
                != "envoy-backend"@ && w != "envoybackend"@ && w != "backend"@ ==> (backend_kind_of(
                word,
            ) matches Err(e) && e.kind == ErrorKind::InvalidBackendKind)
        }),
{
    reveal_strlit("");
    reveal_strlit("service");
    reveal_strlit("service-endpointslice");
    reveal_strlit("envoy-backend");
    reveal_strlit("envoybackend");
    reveal_strlit("backend");
    assert("service"@.len() == 7 && "service-endpointslice"@.len() == 21 && "envoy-backend"@.len()
        == 13 && "envoybackend"@.len() == 12 && "backend"@.len() == 7);
    assert("service"@[0] != "backend"@[0]);
    let w = lower(trim(word));
    if w.len() == 0 {
        assert(w =~= ""@);
    }
}

/// The authorization service is configured by its name; its settings come from their
/// variables, or are the defaults.
pub proof fn law_ext_authz_settings(env: Env)
    requires
        first_error(env) is None,
    ensures
        ({
            let s = settings(env).ext_authz;
            let a = s->0;
            &&& s is Some <==> is_set(env, "CONFIG_EXT_AUTHZ_SERVICE"@)
            &&& s is Some ==> {
                &&& a.service == env["CONFIG_EXT_AUTHZ_SERVICE"@]
                &&& a.namespace == set_value(env, "CONFIG_EXT_AUTHZ_NAMESPACE"@)
                &&& a.path == set_value(env, "CONFIG_EXT_AUTHZ_PATH"@)
                &&& !is_set(env, "CONFIG_EXT_AUTHZ_PORT"@) ==> a.port == 80
                &&& i32_of(env, "CONFIG_EXT_AUTHZ_PORT"@, 80) == Ok::<_, ConfigErrorView>(a.port)
                &&& !is_set(env, "CONFIG_EXT_AUTHZ_HEADERS_TO_EXT_AUTH"@) ==> a.headers_to_ext_auth
                    == seq!["cookie"@, "authorization"@]
                &&& csv_of(
                    env,
                    "CONFIG_EXT_AUTHZ_HEADERS_TO_EXT_AUTH"@,
                    seq!["cookie"@, "authorization"@],
                ) == Ok::<_, ConfigErrorView>(a.headers_to_ext_auth)
                &&& !is_set(env, "CONFIG_EXT_AUTHZ_HEADERS_TO_BACKEND"@)
                    ==> a.headers_to_backend.len() == 0
                &&& csv_of(env, "CONFIG_EXT_AUTHZ_HEADERS_TO_BACKEND"@, Seq::empty()) == Ok::<
                    _,
                    ConfigErrorView,
                >(a.headers_to_backend)
            }
        }),
{
}

/// The dashboard is configured by its host, and Gerbil by its flag; their settings come from
/// their variables, or are the defaults, the controller namespace among them.
pub proof fn law_static_route_settings(env: Env)
    requires
        first_error(env) is None,
    ensures
        ({
            let namespace = set_or(env, "CONFIG_NAMESPACE"@, "default"@);
            let s = settings(env).pangolin_dashboard;
            let p = s->0;
            &&& s is Some <==> is_set(env, "CONFIG_PANGOLIN_DASHBOARD_HOST"@)
            &&& s is Some ==> {
                &&& p.hostname == env["CONFIG_PANGOLIN_DASHBOARD_HOST"@]
                &&& p.service_name == set_or(env, "CONFIG_PANGOLIN_SERVICE_NAME"@, "pangolin"@)
                &&& p.service_namespace == Some(
                    set_or(env, "CONFIG_PANGOLIN_SERVICE_NAMESPACE"@, namespace),
                )
                &&& i32_of(env, "CONFIG_PANGOLIN_API_PORT"@, 3000) == Ok::<_, ConfigErrorView>(
                    p.api_port,
                )
                &&& i32_of(env, "CONFIG_PANGOLIN_NEXT_PORT"@, 3002) == Ok::<_, ConfigErrorView>(
                    p.next_port,
                )
                &&& flag_of(env, "CONFIG_PANGOLIN_REDIRECT_HTTP_TO_HTTPS"@, true) == Ok::<
                    _,
                    ConfigErrorView,
                >(p.redirect_http_to_https)
            }
        }),
        ({
            let namespace = set_or(env, "CONFIG_NAMESPACE"@, "default"@);
            let s = settings(env).gerbil_udp;
            let g = s->0;
            &&& s is Some <==> flag_says(env, "CONFIG_GERBIL_UDP_ROUTE"@, false)
            &&& s is Some ==> {
                &&& g.service_name == set_or(env, "CONFIG_GERBIL_SERVICE_NAME"@, "gerbil"@)
                &&& g.service_namespace == Some(
                    set_or(env, "CONFIG_GERBIL_SERVICE_NAMESPACE"@, namespace),
                )
                &&& !is_set(env, "CONFIG_GERBIL_UDP_PORTS"@) ==> g.ports == seq![51820i32, 21820i32]
                &&& ports_of(env, "CONFIG_GERBIL_UDP_PORTS"@, seq![51820i32, 21820i32]) == Ok::<
                    _,
                    ConfigErrorView,
                >(g.ports)
            }
        }),
{
    law_flags_follow_words(env, "CONFIG_GERBIL_UDP_ROUTE"@, false);
}

/// Badger's own authorization is configured by its flag.
pub proof fn law_badger_settings(env: Env)
    requires
        first_error(env) is None,
    ensures
        ({
            let namespace = set_or(env, "CONFIG_NAMESPACE"@, "default"@);
            let s = settings(env).badger_ext_auth;
            let b = s->0;
            &&& s is Some <==> flag_says(env, "CONFIG_BADGER_EXT_AUTH"@, false)
            &&& s is Some ==> {
                &&& b.backend_name == set_or(
                    env,
                    "CONFIG_BADGER_EXT_AUTH_BACKEND_NAME"@,
                    "pangolin-badger-ext-authz"@,
                )
                &&& b.backend_namespace == Some(
                    set_or(env, "CONFIG_BADGER_EXT_AUTH_BACKEND_NAMESPACE"@, namespace),
                )
                &&& i32_of(env, "CONFIG_BADGER_EXT_AUTH_BACKEND_PORT"@, 9002) == Ok::<
                    _,
                    ConfigErrorView,
                >(b.backend_port)
                &&& b.path == set_value(env, "CONFIG_BADGER_EXT_AUTH_PATH"@)
                &&& flag_of(env, "CONFIG_BADGER_EXT_AUTH_FAIL_OPEN"@, false) == Ok::<
                    _,
                    ConfigErrorView,
                >(b.fail_open)
                &&& !is_set(env, "CONFIG_BADGER_EXT_AUTH_HEADERS_TO_EXTAUTH"@)
                    ==> b.headers_to_ext_auth == seq![
                    "authorization"@,
                    "cookie"@,
                    "x-forwarded-for"@,
                    "x-forwarded-host"@,
                    "x-forwarded-proto"@,
                    "x-real-ip"@,
                    "p-access-token-id"@,
                    "p-access-token"@,
                ]
                &&& !is_set(env, "CONFIG_BADGER_EXT_AUTH_HEADERS_TO_BACKEND"@)
                    ==> b.headers_to_backend == seq![
                    "remote-user"@,
                    "remote-email"@,
                    "remote-name"@,
                    "remote-role"@,
                ]
            }
        }),
{
    law_flags_follow_words(env, "CONFIG_BADGER_EXT_AUTH"@, false);
}

// ---- the scope --------------------------------------------------------------------------

/// Dashes, underscores and white space make no difference to the name of a kind.
pub proof fn law_marks_make_no_difference(a: Seq<char>, mark: char, b: Seq<char>)
    requires
        mark == '-' || mark == '_' || crate::text::is_space(mark),
    ensures
        kind_of(a + seq![mark] + b).is_ok() == kind_of(a + b).is_ok(),
        kind_of(a + b) is Ok ==> kind_of(a + seq![mark] + b) == kind_of(a + b),
{
    lemma_unmarked_adds(a, b);
    lemma_unmarked_adds(a, seq![mark]);
    lemma_unmarked_adds(a + seq![mark], b);
    assert(seq![mark].drop_last() =~= Seq::<char>::empty());
    reveal_with_fuel(unmarked, 2);
    assert(unmarked(seq![mark]) =~= Seq::<char>::empty());
    assert(unmarked(a) + unmarked(seq![mark]) =~= unmarked(a));
}

proof fn lemma_unmarked_adds(a: Seq<char>, b: Seq<char>)
    ensures
        unmarked(a + b) == unmarked(a) + unmarked(b),
    decreases b.len(),
{
    if b.len() == 0 {
        assert(a + b =~= a);
        assert(unmarked(a) + unmarked(b) =~= unmarked(a));
    } else {
        assert((a + b).drop_last() =~= a + b.drop_last());
        lemma_unmarked_adds(a, b.drop_last());
        assert(unmarked(a + b) =~= unmarked(a) + unmarked(b));
    }
}

/// A kind is read from its name, in the singular or the plural, or from its short name, in
/// any casing; any other word is refused.
pub proof fn law_kinds_have_words(s: Seq<char>)
    ensures
        ({
            let w = kind_word(s);
            match kind_of(s) {
                Ok(ReconcileKind::HttpRoute) => w == "httproute"@ || w == "httproutes"@ || w
                    == "hr"@,
                Ok(ReconcileKind::ListenerSet) => w == "listenerset"@ || w == "listenersets"@ || w
                    == "ls"@,
                Ok(ReconcileKind::Service) => w == "service"@ || w == "services"@ || w == "svc"@,
                Ok(ReconcileKind::EndpointSlice) => w == "endpointslice"@ || w
                    == "endpointslices"@ || w == "eps"@,
                Ok(ReconcileKind::Backend) => w == "backend"@ || w == "backends"@ || w
                    == "envoybackend"@ || w == "envoybackends"@ || w == "be"@,
                Ok(ReconcileKind::SecurityPolicy) => w == "securitypolicy"@ || w
                    == "securitypolicies"@ || w == "sp"@,
                Ok(ReconcileKind::UDPRoute) => w == "udproute"@ || w == "udproutes"@ || w
                    == "udp"@,
                Err(e) => {
                    &&& e.kind == ErrorKind::InvalidReconcileKind
                    &&& e.value == w
                    &&& w != "httproute"@ && w != "httproutes"@ && w != "hr"@
                    &&& w != "listenerset"@ && w != "listenersets"@ && w != "ls"@
                    &&& w != "service"@ && w != "services"@ && w != "svc"@
                    &&& w != "endpointslice"@ && w != "endpointslices"@ && w != "eps"@
                    &&& w != "backend"@ && w != "backends"@ && w != "envoybackend"@ && w
                        != "envoybackends"@ && w != "be"@
                    &&& w != "securitypolicy"@ && w != "securitypolicies"@ && w != "sp"@
                    &&& w != "udproute"@ && w != "udproutes"@ && w != "udp"@
                },
            }
        }),
        kind_of(s) is Ok ==> kind_of(lower(s)) == kind_of(s),
{
    lemma_unmarked_lower(s);
}

proof fn lemma_unmarked_lower(s: Seq<char>)
    ensures
        lower(unmarked(lower(s))) == lower(unmarked(s)),
    decreases s.len(),
{
    if s.len() == 0 {
        assert(lower(s) =~= s);
    } else {
        lemma_unmarked_lower(s.drop_last());
        assert(lower(s).drop_last() =~= lower(s.drop_last()));
        let c = s.last();
        assert(lower(s).last() == crate::text::lower_char(c));
        let (u, v) = (unmarked(lower(s.drop_last())), unmarked(s.drop_last()));
        assert(lower(u.push(crate::text::lower_char(c))) =~= lower(u).push(
            crate::text::lower_char(c),
        ));
        assert(lower(v.push(c)) =~= lower(v).push(crate::text::lower_char(c)));
    }
}

/// An entry `kind/name` or `kind:name` selects that object, one of a host kind a hostname in
/// lowercase, and any other entry an object or a hostname by its name.
pub proof fn law_entries_select(entry: Seq<char>, kind: Seq<char>, name: Seq<char>, sep: char)
    requires
        sep == '/' || sep == ':',
        !kind.contains('/'),
        !kind.contains(':'),
        sep == ':' ==> !name.contains('/'),
        !entry.contains('/'),
        !entry.contains(':'),
    ensures
        ({
            let s = selector_of(kind + seq![sep] + name);
            let host = kind_word(trim(kind)) == "host"@ || kind_word(trim(kind)) == "hosts"@
                || kind_word(trim(kind)) == "hostname"@ || kind_word(trim(kind)) == "hostnames"@;
            let named = trim(name).len() > 0;
            &&& !named ==> (s matches Err(e) && e.kind == ErrorKind::EmptySelector && e.value
                == kind + seq![sep] + name)
            &&& named && host ==> (s matches Ok(SelectorView::Hostname(h)) && h == lower(
                crate::text::trim_end_char(trim(trim(name)), '.'),
            ))
            &&& named && !host && kind_of(trim(kind)) is Ok ==> s == Ok::<_, ConfigErrorView>(
                SelectorView::Object { kind: Some(kind_of(trim(kind))->Ok_0), name: trim(name) },
            )
            &&& named && !host && kind_of(trim(kind)) is Err ==> s is Err
            &&& selector_of(entry) == Ok::<_, ConfigErrorView>(
                SelectorView::ObjectNameOrHostname(entry),
            )
        }),
{
    let e = kind + seq![sep] + name;
    law_split_once_at_the_first(kind, sep, name);
    law_split_once_at_the_first(entry, '/', entry);
    law_split_once_at_the_first(entry, ':', entry);
    if sep == ':' {
        assert forall|j: int| 0 <= j < e.len() implies e[j] != '/' by {
            if j < kind.len() {
                assert(kind.contains(kind[j]));
            } else if j > kind.len() {
                assert(name.contains(name[j - kind.len() - 1]));
            }
        }
        law_split_once_at_the_first(e, '/', e);
    }
}

/// A scope without selectors includes everything; otherwise it includes the objects that a
/// selector names, by kind and name or by name alone, and never by a hostname.
pub proof fn law_scopes_include(scope: ReconcileScopeView, kind: ReconcileKind, name: Seq<char>, i: int)
    ensures
        scope.selectors.len() == 0 ==> scope.includes(kind, name) && scope.affects_kind(kind),
        0 <= i < scope.selectors.len() ==> match scope.selectors[i] {
            SelectorView::Object { kind: k, name: n } => {
                &&& (k is None || k == Some(kind)) && n == name ==> scope.includes(kind, name)
                &&& k is None || k == Some(kind) ==> scope.affects_kind(kind)
            },
            SelectorView::ObjectNameOrHostname(n) => (n == name ==> scope.includes(kind, name))
                && scope.affects_kind(kind),
            SelectorView::Hostname(_) => true,
        },
        scope.selectors.len() > 0 && (forall|j: int|
            0 <= j < scope.selectors.len() ==> match #[trigger] scope.selectors[j] {
                SelectorView::Object { kind: k, name: n } => (k is Some && k != Some(kind)) || n
                    != name,
                SelectorView::ObjectNameOrHostname(n) => n != name,
                SelectorView::Hostname(_) => true,
            }) ==> !scope.includes(kind, name),
{
    if 0 <= i < scope.selectors.len() {
        let s = scope.selectors[i];
        if selects(s, kind, name) {
            assert(scope.includes(kind, name));
        }
        if touches(s, kind) {
            assert(scope.affects_kind(kind));
        }
    }
}

/// One more entry of a scope adds its selector; the first bad entry refuses the scope.
pub proof fn law_scopes_hold_their_entries(entries: Seq<Seq<char>>, entry: Seq<char>)
    ensures
        ({
            let before = selectors_of(entries);
            let after = selectors_of(entries.push(entry));
            &&& before is Ok && selector_of(entry) is Ok ==> after == Ok::<_, ConfigErrorView>(
                before->Ok_0.push(selector_of(entry)->Ok_0),
            )
            &&& before is Ok && selector_of(entry) is Err ==> after is Err && after->Err_0
                == selector_of(entry)->Err_0
            &&& before is Err ==> after == before
            &&& selectors_of(Seq::empty()) matches Ok(s) && s.len() == 0
        }),
{
    assert(entries.push(entry).drop_last() =~= entries);
}

/// The hostnames to look for are those of hostname selectors, and of bare names with a dot,
/// in lowercase.
pub proof fn law_hostname_candidates(selectors: Seq<SelectorView>, s: SelectorView)
    ensures
        ({
            let before = candidates(selectors);
            let after = candidates(selectors.push(s));
            match s {
                SelectorView::Object { kind, name } => after == before,
                SelectorView::Hostname(h) => after == before.push(
                    lower(crate::text::trim_end_char(trim(h), '.')),
                ),
                SelectorView::ObjectNameOrHostname(h) => if h.contains('.') {
                    after == before.push(lower(crate::text::trim_end_char(trim(h), '.')))
                } else {
                    after == before
                },
            }
        }),
{
    assert(selectors.push(s).drop_last() =~= selectors);
}

/// What a scope comes to once its hostnames are resolved: the hostname selectors go, the
/// others stay in order, and each object found is selected by kind and name.
pub proof fn law_hostnames_are_resolved(
    selectors: Seq<SelectorView>,
    s: SelectorView,
    objects: Seq<(ReconcileKind, Seq<char>)>,
    i: int,
)
    ensures
        ({
            let before = (ReconcileScopeView { selectors }).expanded(objects).selectors;
            let after = (ReconcileScopeView { selectors: selectors.push(s) }).expanded(
                objects,
            ).selectors;
            let kept = before.len() - objects.len();
            &&& s is Hostname ==> after == before
            &&& s !is Hostname ==> after == before.insert(kept, s)
            &&& 0 <= i < objects.len() ==> before[kept + i] == (SelectorView::Object {
                kind: Some(objects[i].0),
                name: objects[i].1,
            })
        }),
        (ReconcileScopeView { selectors: Seq::empty() }).expanded(Seq::empty()).selectors.len()
            == 0,
{
    assert(selectors.push(s).drop_last() =~= selectors);
    let before = (ReconcileScopeView { selectors }).expanded(objects).selectors;
    let after = (ReconcileScopeView { selectors: selectors.push(s) }).expanded(objects).selectors;
    if s !is Hostname {
        assert(after =~= before.insert(before.len() - objects.len(), s));
    }
}

/// The scope of the settings holds what its variable lists.
pub proof fn law_scope_setting(env: Env, parts: Seq<Seq<char>>)
    requires
        first_error(env) is None,
        parts.len() > 0,
        forall|i: int| 0 <= i < parts.len() ==> !(#[trigger] parts[i]).contains(','),
    ensures
        !is_set(env, "CONFIG_RECONCILE_ONLY"@) ==> settings(env).reconcile_scope.selectors.len()
            == 0,
        is_set(env, "CONFIG_RECONCILE_ONLY"@) && env["CONFIG_RECONCILE_ONLY"@] == joined(
            parts,
            ',',
        ) ==> selectors_of(entries_of(parts)) == Ok::<_, ConfigErrorView>(
            settings(env).reconcile_scope.selectors,
        ),
{
    law_split_undoes_join(parts, ',');
}

// ---- errors -----------------------------------------------------------------------------

/// None of the settings with a form of their own is set, nor one that asks for such settings.
pub open spec fn rest_is_unset(env: Env) -> bool {
    &&& !is_set(env, "CONFIG_TLS_SKIP_VERIFY"@)
    &&& !is_set(env, "CONFIG_BADGER_EXT_AUTH"@)
    &&& !is_set(env, "CONFIG_PANGOLIN_DASHBOARD_HOST"@)
    &&& !is_set(env, "CONFIG_GERBIL_UDP_ROUTE"@)
    &&& !is_set(env, "CONFIG_RECONCILE_ONLY"@)
    &&& !is_set(env, "CONFIG_FETCH_TIMEOUT"@)
    &&& !is_set(env, "CONFIG_POLL_INTERVAL"@)
    &&& !is_set(env, "CONFIG_MAX_BACKOFF"@)
    &&& !is_set(env, "CONFIG_MAX_RESPONSE_BODY_BYTES"@)
    &&& !is_set(env, "CONFIG_HTTP_PORT"@)
    &&& !is_set(env, "CONFIG_HTTPS_PORT"@)
    &&& !is_set(env, "CONFIG_ENABLE_HTTPS_LISTENERS"@)
    &&& !is_set(env, "CONFIG_ENABLE_TCP_ROUTES"@)
    &&& !is_set(env, "CONFIG_ENABLE_UDP_ROUTES"@)
    &&& !is_set(env, "CONFIG_BACKEND_KIND"@)
    &&& !is_set(env, "CONFIG_EXT_AUTHZ_SERVICE"@)
    &&& !is_set(env, "CONFIG_ALLOW_UNAUTHENTICATED_ROUTES"@)
    &&& !is_set(env, "CONFIG_HTTPROUTE_ANNOTATIONS"@)
    &&& !is_set(env, "CONFIG_LISTENERSET_ANNOTATIONS"@)
    &&& !is_set(env, "CONFIG_READ_ONLY"@)
    &&& !is_set(env, "CONFIG_LOG_TRAEFIK_CONFIG"@)
}

/// An endpoint over `https` and a parent Gateway are all that has to be set.
pub proof fn law_two_settings_are_enough(env: Env)
    requires
        is_set(env, "CONFIG_ENDPOINT"@),
        is_set(env, "CONFIG_PARENT_GATEWAY"@),
        rest_is_unset(env),
        url_of(env["CONFIG_ENDPOINT"@]) matches Some(url) && url.scheme != "http"@,
    ensures
        first_error(env) is None,
{
}

/// The message of an error names the variable, whatever the kind; only that of an unknown
/// object kind does not, which shows the word.
pub proof fn law_messages_name_the_variable(
    kind: ErrorKind,
    key: Seq<char>,
    shown: Seq<char>,
) -> (around: (Seq<char>, Seq<char>))
    ensures
        kind != ErrorKind::InvalidReconcileKind ==> message_of(kind, key, shown) == around.0 + key
            + around.1,
        kind == ErrorKind::InvalidReconcileKind ==> message_of(kind, key, shown) == around.0 + shown
            + around.1,
{
    let m = message_of(kind, key, shown);
    let none = Seq::<char>::empty();
    match kind {
        ErrorKind::Missing => ("required environment variable "@, " is not set"@),
        ErrorKind::InvalidBool => lemma_around("invalid boolean for "@, key, ": "@, shown),
        ErrorKind::InvalidDuration => lemma_around("invalid duration for "@, key, ": "@, shown),
        ErrorKind::InvalidU64 => lemma_around("invalid u64 for "@, key, ": "@, shown),
        ErrorKind::InvalidI32 => lemma_around("invalid i32 for "@, key, ": "@, shown),
        ErrorKind::InvalidI32Entry => lemma_around("invalid i32 in "@, key, ": "@, shown),
        ErrorKind::InvalidReconcileKind => {
            let w = "invalid reconcile object kind "@;
            let after = m.skip((w.len() + shown.len()) as int);
            assert(m =~= w + shown + after);
            (w, after)
        },
        ErrorKind::InvalidBackendKind => {
            let after = m.skip(("invalid "@.len() + key.len()) as int);
            assert(m =~= "invalid "@ + key + after);
            ("invalid "@, after)
        },
        ErrorKind::InvalidApiBaseUrl | ErrorKind::InvalidTimeout => {
            assert(m =~= "invalid "@ + key + none);
            ("invalid "@, none)
        },
        _ => {
            let after = m.skip(key.len() as int);
            assert(m =~= none + key + after);
            (none, after)
        },
    }
}

proof fn lemma_around(a: Seq<char>, b: Seq<char>, c: Seq<char>, d: Seq<char>) -> (r: (
    Seq<char>,
    Seq<char>,
))
    ensures
        a + b + c + d == r.0 + b + r.1,
{
    assert(a + b + c + d =~= a + b + (c + d));
    (a, c + d)
}

} // verus!
