//! The controller's settings.
//!
//! Everything is configured via environment variables; the environment is handed in
//! as a map from names to values.

pub mod env;
pub mod laws;
pub mod scope;

use vstd::prelude::*;
use vstd::string::*;

use crate::config::env::{
    csv_env, csv_of, duration_env, duration_readable, duration_setting, error, error_of, flag,
    flag_of, i32_csv_env, i32_env, i32_of, is_duration_readable, kv_of, optional, optional_of,
    parse_kv_env, ports_of, required, required_of, text_or, text_or_of, u64_env, u64_of,
};
use crate::config::env::{ConfigError, ConfigErrorView, Env, ErrorKind};
use crate::config::scope::{scope_of, ReconcileScope, ReconcileScopeView};
use crate::duration::Duration;
use crate::strmap::StrMap;
use crate::text;
use crate::text::{lower, trim};
use crate::urls::{parse_url, url_of, UrlParts, UrlPartsView};

verus! {

/// Backend object kind used for IP / FQDN pangolin targets.
///
/// Plain cluster-DNS targets (`<svc>.<ns>.svc[.cluster.local]`) are independent of
/// this setting: they resolve to a direct `Service` `backendRef` because the Service
/// already exists.
#[derive(Debug, Clone, Copy, PartialEq, Eq, Structural)]
pub enum BackendKind {
    /// Synthesize a headless `Service` plus an `EndpointSlice`.
    /// Portable across every Gateway API implementation.
    Service,
    /// Emit a `gateway.envoyproxy.io/v1alpha1` `Backend` CRD. Envoy Gateway only,
    /// but unlocks FQDN targets as well as IPs.
    EnvoyBackend,
}

pub open spec fn backend_kind_of(s: Seq<char>) -> Result<BackendKind, ConfigErrorView> {
    let word = lower(trim(s));
    if word == "service"@ || word == "service-endpointslice"@ || word == ""@ {
        Ok(BackendKind::Service)
    } else if word == "envoy-backend"@ || word == "envoybackend"@ || word == "backend"@ {
        Ok(BackendKind::EnvoyBackend)
    } else {
        Err(error_of(ErrorKind::InvalidBackendKind, "CONFIG_BACKEND_KIND"@, word))
    }
}

impl BackendKind {
    pub fn parse(s: &str) -> (r: Result<BackendKind, ConfigError>)
        ensures
            match r {
                Ok(k) => backend_kind_of(s@) == Ok::<_, ConfigErrorView>(k),
                Err(e) => backend_kind_of(s@) == Err::<BackendKind, _>(e.deep_view()),
            },
    {
        let word = text::to_lower(text::trimmed(s).as_str());
        let w = word.as_str();
        if text::same(w, "service") || text::same(w, "service-endpointslice") || text::same(w, "") {
            Ok(BackendKind::Service)
        } else if text::same(w, "envoy-backend") || text::same(w, "envoybackend") || text::same(
            w,
            "backend",
        ) {
            Ok(BackendKind::EnvoyBackend)
        } else {
            Err(error(ErrorKind::InvalidBackendKind, "CONFIG_BACKEND_KIND", w))
        }
    }
}

/// Everything the controller reads from the environment.
pub struct Config {
    /// The URL of pangolin's Traefik provider, in its normal form.
    pub pangolin_endpoint: String,
    pub auth_header: Option<String>,
    pub fetch_timeout: Duration,
    pub poll_interval: Duration,
    pub max_backoff: Duration,
    pub max_response_body_bytes: u64,
    pub tls_skip_verify: bool,
    pub ca_file: Option<String>,
    pub namespace: String,
    pub parent_gateway: String,
    pub parent_gateway_namespace: Option<String>,
    pub listener_set_name: String,
    pub http_port: i32,
    pub https_port: i32,
    pub enable_https_listeners: bool,
    /// Translate pangolin's `tcp` block into TCPRoutes and TCP listeners.
    pub enable_tcp_routes: bool,
    /// Translate pangolin's `udp` block into UDPRoutes and UDP listeners.
    pub enable_udp_routes: bool,
    /// Which Kubernetes object kind backs an HTTPRoute's IP/FQDN targets.
    pub backend_kind: BackendKind,
    /// The external authorization service for badger-protected routes.
    pub ext_authz: Option<ExtAuthzConfig>,
    /// Emit badger-protected routes without any authentication.
    pub allow_unauthenticated_routes: bool,
    /// Optional template for the TLS secret name per hostname. Supports the placeholders
    /// `{hostname}` (dots kept) and `{hostname-dashed}` (dots become dashes).
    /// When `None`, listeners are plain HTTP only.
    pub tls_secret_template: Option<String>,
    /// Optional namespace where TLS secrets live; defaults to the controller namespace.
    pub tls_secret_namespace: Option<String>,
    pub field_manager: String,
    pub managed_label_key: String,
    pub managed_label_value: String,
    pub instance_label_key: String,
    pub instance_label_value: String,
    pub managed_annotation_key: String,
    pub managed_annotation_value: String,
    /// Annotations stamped onto every HTTPRoute the controller creates.
    pub httproute_annotations: StrMap<String>,
    /// Annotations stamped onto the ListenerSet.
    pub listenerset_annotations: StrMap<String>,
    /// Optional Envoy Gateway external auth wiring for pangolin's badger plugin.
    pub badger_ext_auth: Option<BadgerExtAuthConfig>,
    /// Optional static routes for serving the Pangolin dashboard through the same
    /// ListenerSet as managed resources.
    pub pangolin_dashboard: Option<PangolinDashboardConfig>,
    /// Optional UDP routing for Gerbil's WireGuard-facing ports.
    pub gerbil_udp: Option<GerbilUdpConfig>,
    /// Optional allow-list used for migration testing. Empty means reconcile all
    /// desired objects.
    pub reconcile_scope: ReconcileScope,
    pub read_only: bool,
    pub log_traefik_config: bool,
    /// Address of the liveness and readiness endpoints.
    pub health_listen: Option<String>,
}

#[verifier::ext_equal]
pub struct ConfigView {
    pub pangolin_endpoint: Seq<char>,
    pub auth_header: Option<Seq<char>>,
    pub fetch_timeout: Duration,
    pub poll_interval: Duration,
    pub max_backoff: Duration,
    pub max_response_body_bytes: u64,
    pub tls_skip_verify: bool,
    pub ca_file: Option<Seq<char>>,
    pub namespace: Seq<char>,
    pub parent_gateway: Seq<char>,
    pub parent_gateway_namespace: Option<Seq<char>>,
    pub listener_set_name: Seq<char>,
    pub http_port: i32,
    pub https_port: i32,
    pub enable_https_listeners: bool,
    pub enable_tcp_routes: bool,
    pub enable_udp_routes: bool,
    pub backend_kind: BackendKind,
    pub ext_authz: Option<ExtAuthzConfigView>,
    pub allow_unauthenticated_routes: bool,
    pub tls_secret_template: Option<Seq<char>>,
    pub tls_secret_namespace: Option<Seq<char>>,
    pub field_manager: Seq<char>,
    pub managed_label_key: Seq<char>,
    pub managed_label_value: Seq<char>,
    pub instance_label_key: Seq<char>,
    pub instance_label_value: Seq<char>,
    pub managed_annotation_key: Seq<char>,
    pub managed_annotation_value: Seq<char>,
    pub httproute_annotations: Map<Seq<char>, Seq<char>>,
    pub listenerset_annotations: Map<Seq<char>, Seq<char>>,
    pub badger_ext_auth: Option<BadgerExtAuthConfigView>,
    pub pangolin_dashboard: Option<PangolinDashboardConfigView>,
    pub gerbil_udp: Option<GerbilUdpConfigView>,
    pub reconcile_scope: ReconcileScopeView,
    pub read_only: bool,
    pub log_traefik_config: bool,
    pub health_listen: Option<Seq<char>>,
}

impl DeepView for Config {
    type V = ConfigView;

    open spec fn deep_view(&self) -> ConfigView {
        ConfigView {
            pangolin_endpoint: self.pangolin_endpoint@,
            auth_header: self.auth_header.deep_view(),
            fetch_timeout: self.fetch_timeout,
            poll_interval: self.poll_interval,
            max_backoff: self.max_backoff,
            max_response_body_bytes: self.max_response_body_bytes,
            tls_skip_verify: self.tls_skip_verify,
            ca_file: self.ca_file.deep_view(),
            namespace: self.namespace@,
            parent_gateway: self.parent_gateway@,
            parent_gateway_namespace: self.parent_gateway_namespace.deep_view(),
            listener_set_name: self.listener_set_name@,
            http_port: self.http_port,
            https_port: self.https_port,
            enable_https_listeners: self.enable_https_listeners,
            enable_tcp_routes: self.enable_tcp_routes,
            enable_udp_routes: self.enable_udp_routes,
            backend_kind: self.backend_kind,
            ext_authz: self.ext_authz.deep_view(),
            allow_unauthenticated_routes: self.allow_unauthenticated_routes,
            tls_secret_template: self.tls_secret_template.deep_view(),
            tls_secret_namespace: self.tls_secret_namespace.deep_view(),
            field_manager: self.field_manager@,
            managed_label_key: self.managed_label_key@,
            managed_label_value: self.managed_label_value@,
            instance_label_key: self.instance_label_key@,
            instance_label_value: self.instance_label_value@,
            managed_annotation_key: self.managed_annotation_key@,
            managed_annotation_value: self.managed_annotation_value@,
            httproute_annotations: self.httproute_annotations.deep_view(),
            listenerset_annotations: self.listenerset_annotations.deep_view(),
            badger_ext_auth: self.badger_ext_auth.deep_view(),
            pangolin_dashboard: self.pangolin_dashboard.deep_view(),
            gerbil_udp: self.gerbil_udp.deep_view(),
            reconcile_scope: self.reconcile_scope.deep_view(),
            read_only: self.read_only,
            log_traefik_config: self.log_traefik_config,
            health_listen: self.health_listen.deep_view(),
        }
    }
}

/// External authorization for badger-protected routes.
pub struct ExtAuthzConfig {
    pub service: String,
    /// The controller namespace when `None`.
    pub namespace: Option<String>,
    pub port: i32,
    pub path: Option<String>,
    pub headers_to_ext_auth: Vec<String>,
    pub headers_to_backend: Vec<String>,
}

#[verifier::ext_equal]
pub struct ExtAuthzConfigView {
    pub service: Seq<char>,
    pub namespace: Option<Seq<char>>,
    pub port: i32,
    pub path: Option<Seq<char>>,
    pub headers_to_ext_auth: Seq<Seq<char>>,
    pub headers_to_backend: Seq<Seq<char>>,
}

impl DeepView for ExtAuthzConfig {
    type V = ExtAuthzConfigView;

    open spec fn deep_view(&self) -> ExtAuthzConfigView {
        ExtAuthzConfigView {
            service: self.service@,
            namespace: self.namespace.deep_view(),
            port: self.port,
            path: self.path.deep_view(),
            headers_to_ext_auth: self.headers_to_ext_auth.deep_view(),
            headers_to_backend: self.headers_to_backend.deep_view(),
        }
    }
}

pub struct BadgerExtAuthConfig {
    pub backend_name: String,
    pub backend_namespace: Option<String>,
    pub backend_port: i32,
    pub path: Option<String>,
    pub headers_to_ext_auth: Vec<String>,
    pub headers_to_backend: Vec<String>,
    pub fail_open: bool,
}

#[verifier::ext_equal]
pub struct BadgerExtAuthConfigView {
    pub backend_name: Seq<char>,
    pub backend_namespace: Option<Seq<char>>,
    pub backend_port: i32,
    pub path: Option<Seq<char>>,
    pub headers_to_ext_auth: Seq<Seq<char>>,
    pub headers_to_backend: Seq<Seq<char>>,
    pub fail_open: bool,
}

impl DeepView for BadgerExtAuthConfig {
    type V = BadgerExtAuthConfigView;

    open spec fn deep_view(&self) -> BadgerExtAuthConfigView {
        BadgerExtAuthConfigView {
            backend_name: self.backend_name@,
            backend_namespace: self.backend_namespace.deep_view(),
            backend_port: self.backend_port,
            path: self.path.deep_view(),
            headers_to_ext_auth: self.headers_to_ext_auth.deep_view(),
            headers_to_backend: self.headers_to_backend.deep_view(),
            fail_open: self.fail_open,
        }
    }
}

pub struct PangolinDashboardConfig {
    pub hostname: String,
    pub service_name: String,
    pub service_namespace: Option<String>,
    pub api_port: i32,
    pub next_port: i32,
    pub redirect_http_to_https: bool,
}

#[verifier::ext_equal]
pub struct PangolinDashboardConfigView {
    pub hostname: Seq<char>,
    pub service_name: Seq<char>,
    pub service_namespace: Option<Seq<char>>,
    pub api_port: i32,
    pub next_port: i32,
    pub redirect_http_to_https: bool,
}

impl DeepView for PangolinDashboardConfig {
    type V = PangolinDashboardConfigView;

    open spec fn deep_view(&self) -> PangolinDashboardConfigView {
        PangolinDashboardConfigView {
            hostname: self.hostname@,
            service_name: self.service_name@,
            service_namespace: self.service_namespace.deep_view(),
            api_port: self.api_port,
            next_port: self.next_port,
            redirect_http_to_https: self.redirect_http_to_https,
        }
    }
}

pub struct GerbilUdpConfig {
    pub service_name: String,
    pub service_namespace: Option<String>,
    pub ports: Vec<i32>,
}

#[verifier::ext_equal]
pub struct GerbilUdpConfigView {
    pub service_name: Seq<char>,
    pub service_namespace: Option<Seq<char>>,
    pub ports: Seq<i32>,
}

impl DeepView for GerbilUdpConfig {
    type V = GerbilUdpConfigView;

    open spec fn deep_view(&self) -> GerbilUdpConfigView {
        GerbilUdpConfigView {
            service_name: self.service_name@,
            service_namespace: self.service_namespace.deep_view(),
            ports: self.ports.deep_view(),
        }
    }
}

// ---- what the environment says --------------------------------------------------

/// The first of several possible errors.
pub open spec fn or_else(a: Option<ConfigErrorView>, b: Option<ConfigErrorView>) -> Option<
    ConfigErrorView,
> {
    if a is Some {
        a
    } else {
        b
    }
}

pub open spec fn err_of<T>(r: Result<T, ConfigErrorView>) -> Option<ConfigErrorView> {
    match r {
        Ok(_) => None,
        Err(e) => Some(e),
    }
}

pub open spec fn namespace_of(env: Env) -> Seq<char> {
    text_or_of(env, "CONFIG_NAMESPACE"@, "default"@)
}

/// A namespace setting that falls back to the controller namespace.
pub open spec fn namespace_or(env: Env, key: Seq<char>) -> Option<Seq<char>> {
    Some(text_or_of(env, key, namespace_of(env)))
}

pub open spec fn badger_headers_in() -> Seq<Seq<char>> {
    seq![
        "authorization"@,
        "cookie"@,
        "x-forwarded-for"@,
        "x-forwarded-host"@,
        "x-forwarded-proto"@,
        "x-real-ip"@,
        "p-access-token-id"@,
        "p-access-token"@,
    ]
}

pub open spec fn badger_headers_out() -> Seq<Seq<char>> {
    seq!["remote-user"@, "remote-email"@, "remote-name"@, "remote-role"@]
}

pub open spec fn badger_ext_auth_of(env: Env) -> Result<
    Option<BadgerExtAuthConfigView>,
    ConfigErrorView,
> {
    let port = i32_of(env, "CONFIG_BADGER_EXT_AUTH_BACKEND_PORT"@, 9002);
    let sent = csv_of(env, "CONFIG_BADGER_EXT_AUTH_HEADERS_TO_EXTAUTH"@, badger_headers_in());
    let kept = csv_of(env, "CONFIG_BADGER_EXT_AUTH_HEADERS_TO_BACKEND"@, badger_headers_out());
    let open = flag_of(env, "CONFIG_BADGER_EXT_AUTH_FAIL_OPEN"@, false);
    match flag_of(env, "CONFIG_BADGER_EXT_AUTH"@, false) {
        Err(e) => Err(e),
        Ok(on) => if !on {
            Ok(None)
        } else {
            match or_else(err_of(port), or_else(err_of(sent), or_else(err_of(kept), err_of(open)))) {
                Some(e) => Err(e),
                None => Ok(
                    Some(
                        BadgerExtAuthConfigView {
                            backend_name: text_or_of(
                                env,
                                "CONFIG_BADGER_EXT_AUTH_BACKEND_NAME"@,
                                "pangolin-badger-ext-authz"@,
                            ),
                            backend_namespace: namespace_or(
                                env,
                                "CONFIG_BADGER_EXT_AUTH_BACKEND_NAMESPACE"@,
                            ),
                            backend_port: port->Ok_0,
                            path: optional_of(env, "CONFIG_BADGER_EXT_AUTH_PATH"@),
                            headers_to_ext_auth: sent->Ok_0,
                            headers_to_backend: kept->Ok_0,
                            fail_open: open->Ok_0,
                        },
                    ),
                ),
            }
        },
    }
}

pub open spec fn pangolin_dashboard_of(env: Env) -> Result<
    Option<PangolinDashboardConfigView>,
    ConfigErrorView,
> {
    let api = i32_of(env, "CONFIG_PANGOLIN_API_PORT"@, 3000);
    let next = i32_of(env, "CONFIG_PANGOLIN_NEXT_PORT"@, 3002);
    let redirect = flag_of(env, "CONFIG_PANGOLIN_REDIRECT_HTTP_TO_HTTPS"@, true);
    match optional_of(env, "CONFIG_PANGOLIN_DASHBOARD_HOST"@) {
        None => Ok(None),
        Some(hostname) => match or_else(err_of(api), or_else(err_of(next), err_of(redirect))) {
            Some(e) => Err(e),
            None => Ok(
                Some(
                    PangolinDashboardConfigView {
                        hostname,
                        service_name: text_or_of(env, "CONFIG_PANGOLIN_SERVICE_NAME"@, "pangolin"@),
                        service_namespace: namespace_or(env, "CONFIG_PANGOLIN_SERVICE_NAMESPACE"@),
                        api_port: api->Ok_0,
                        next_port: next->Ok_0,
                        redirect_http_to_https: redirect->Ok_0,
                    },
                ),
            ),
        },
    }
}

pub open spec fn gerbil_udp_of(env: Env) -> Result<Option<GerbilUdpConfigView>, ConfigErrorView> {
    let ports = ports_of(env, "CONFIG_GERBIL_UDP_PORTS"@, seq![51820i32, 21820i32]);
    match flag_of(env, "CONFIG_GERBIL_UDP_ROUTE"@, false) {
        Err(e) => Err(e),
        Ok(on) => if !on {
            Ok(None)
        } else {
            match ports {
                Err(e) => Err(e),
                Ok(ports) => Ok(
                    Some(
                        GerbilUdpConfigView {
                            service_name: text_or_of(
                                env,
                                "CONFIG_GERBIL_SERVICE_NAME"@,
                                "gerbil"@,
                            ),
                            service_namespace: namespace_or(
                                env,
                                "CONFIG_GERBIL_SERVICE_NAMESPACE"@,
                            ),
                            ports,
                        },
                    ),
                ),
            }
        },
    }
}

pub open spec fn ext_authz_of(env: Env) -> Result<Option<ExtAuthzConfigView>, ConfigErrorView> {
    let port = i32_of(env, "CONFIG_EXT_AUTHZ_PORT"@, 80);
    let sent = csv_of(
        env,
        "CONFIG_EXT_AUTHZ_HEADERS_TO_EXT_AUTH"@,
        seq!["cookie"@, "authorization"@],
    );
    let kept = csv_of(env, "CONFIG_EXT_AUTHZ_HEADERS_TO_BACKEND"@, Seq::empty());
    match optional_of(env, "CONFIG_EXT_AUTHZ_SERVICE"@) {
        None => Ok(None),
        Some(service) => match or_else(err_of(port), or_else(err_of(sent), err_of(kept))) {
            Some(e) => Err(e),
            None => Ok(
                Some(
                    ExtAuthzConfigView {
                        service,
                        namespace: optional_of(env, "CONFIG_EXT_AUTHZ_NAMESPACE"@),
                        port: port->Ok_0,
                        path: optional_of(env, "CONFIG_EXT_AUTHZ_PATH"@),
                        headers_to_ext_auth: sent->Ok_0,
                        headers_to_backend: kept->Ok_0,
                    },
                ),
            ),
        },
    }
}

pub open spec fn reconcile_scope_of(env: Env) -> Result<ReconcileScopeView, ConfigErrorView> {
    match optional_of(env, "CONFIG_RECONCILE_ONLY"@) {
        None => Ok(ReconcileScopeView { selectors: Seq::empty() }),
        Some(raw) => scope_of(raw),
    }
}

pub open spec fn backend_kind_setting(env: Env) -> Result<BackendKind, ConfigErrorView> {
    match optional_of(env, "CONFIG_BACKEND_KIND"@) {
        None => Ok(BackendKind::EnvoyBackend),
        Some(raw) => backend_kind_of(raw),
    }
}

/// Where the health endpoints listen: `off` switches them off.
pub open spec fn health_listen_of(env: Env) -> Option<Seq<char>> {
    let listen = text_or_of(env, "CONFIG_HEALTH_LISTEN"@, "0.0.0.0:8081"@);
    if listen == "off"@ {
        None
    } else {
        Some(listen)
    }
}

/// What is wrong with reaching an endpoint: certificate checks are switched off only with
/// the acknowledgement, and plain `http` is used only with permission.
pub open spec fn reach_error(env: Env, url: UrlPartsView) -> Option<ConfigErrorView> {
    let skip = flag_of(env, "CONFIG_TLS_SKIP_VERIFY"@, false);
    let acknowledged = flag_of(env, "I_UNDERSTAND_CONFIG_TLS_SKIP_VERIFY_IS_INSECURE"@, false);
    let allowed = flag_of(env, "CONFIG_ALLOW_INSECURE_HTTP"@, false);
    let unacknowledged = error_of(
        ErrorKind::SkipVerifyNotAcknowledged,
        "CONFIG_TLS_SKIP_VERIFY"@,
        Seq::empty(),
    );
    let insecure = error_of(ErrorKind::InsecureHttp, "CONFIG_ENDPOINT"@, Seq::empty());
    or_else(
        err_of(skip),
        or_else(
            if skip->Ok_0 {
                unless(acknowledged, unacknowledged)
            } else {
                None
            },
            if url.scheme == "http"@ {
                unless(allowed, insecure)
            } else {
                None
            },
        ),
    )
}

/// The error of a flag that is unreadable or not set.
pub open spec fn unless(flag: Result<bool, ConfigErrorView>, e: ConfigErrorView) -> Option<
    ConfigErrorView,
> {
    match flag {
        Err(bad) => Some(bad),
        Ok(set) => if set {
            None
        } else {
            Some(e)
        },
    }
}

/// What is wrong with the endpoint.
pub open spec fn endpoint_error(env: Env) -> Option<ConfigErrorView> {
    match required_of(env, "CONFIG_ENDPOINT"@) {
        Err(e) => Some(e),
        Ok(raw) => match url_of(raw) {
            None => Some(error_of(ErrorKind::InvalidUrl, "CONFIG_ENDPOINT"@, raw)),
            Some(url) => reach_error(env, url),
        },
    }
}

/// What is wrong with the optional blocks.
pub open spec fn blocks_error(env: Env) -> Option<ConfigErrorView> {
    or_else(
        err_of(badger_ext_auth_of(env)),
        or_else(
            err_of(pangolin_dashboard_of(env)),
            or_else(
                err_of(gerbil_udp_of(env)),
                err_of(reconcile_scope_of(env)),
            ),
        ),
    )
}

/// What is wrong with the settings for polling pangolin.
pub open spec fn polling_error(env: Env) -> Option<ConfigErrorView> {
    or_else(
        err_of(duration_setting(env, "CONFIG_FETCH_TIMEOUT"@, (Duration { secs: 30, nanos: 0 }))),
        or_else(
            err_of(
                duration_setting(env, "CONFIG_POLL_INTERVAL"@, (Duration { secs: 30, nanos: 0 })),
            ),
            or_else(
                err_of(
                    duration_setting(env, "CONFIG_MAX_BACKOFF"@, (Duration { secs: 300, nanos: 0 })),
                ),
                or_else(
                    err_of(u64_of(env, "CONFIG_MAX_RESPONSE_BODY_BYTES"@, 16_777_216)),
                    err_of(required_of(env, "CONFIG_PARENT_GATEWAY"@)),
                ),
            ),
        ),
    )
}

/// What is wrong with the settings for listeners and raw routes.
pub open spec fn listener_error(env: Env) -> Option<ConfigErrorView> {
    or_else(
        err_of(i32_of(env, "CONFIG_HTTP_PORT"@, 80)),
        or_else(
            err_of(i32_of(env, "CONFIG_HTTPS_PORT"@, 443)),
            or_else(
                err_of(flag_of(env, "CONFIG_ENABLE_HTTPS_LISTENERS"@, true)),
                or_else(
                    err_of(flag_of(env, "CONFIG_ENABLE_TCP_ROUTES"@, false)),
                    err_of(flag_of(env, "CONFIG_ENABLE_UDP_ROUTES"@, false)),
                ),
            ),
        ),
    )
}

/// What is wrong with the settings for backends and routes.
pub open spec fn route_error(env: Env) -> Option<ConfigErrorView> {
    or_else(
        err_of(backend_kind_setting(env)),
        or_else(
            err_of(ext_authz_of(env)),
            or_else(
                err_of(flag_of(env, "CONFIG_ALLOW_UNAUTHENTICATED_ROUTES"@, false)),
                or_else(
                    err_of(kv_of(env, "CONFIG_HTTPROUTE_ANNOTATIONS"@)),
                    err_of(kv_of(env, "CONFIG_LISTENERSET_ANNOTATIONS"@)),
                ),
            ),
        ),
    )
}

/// What is wrong with the operating modes.
pub open spec fn mode_error(env: Env) -> Option<ConfigErrorView> {
    or_else(
        err_of(flag_of(env, "CONFIG_READ_ONLY"@, false)),
        err_of(flag_of(env, "CONFIG_LOG_TRAEFIK_CONFIG"@, false)),
    )
}

/// The first setting that is wrong, in the order in which settings are read.
pub open spec fn first_error(env: Env) -> Option<ConfigErrorView> {
    or_else(
        endpoint_error(env),
        or_else(
            blocks_error(env),
            or_else(
                polling_error(env),
                or_else(listener_error(env), or_else(route_error(env), mode_error(env))),
            ),
        ),
    )
}

/// The settings, where none is wrong.
pub open spec fn settings(env: Env) -> ConfigView {
    ConfigView {
        pangolin_endpoint: url_of(required_of(env, "CONFIG_ENDPOINT"@)->Ok_0)->0.text,
        auth_header: optional_of(env, "CONFIG_AUTH_HEADER"@),
        fetch_timeout: duration_setting(
            env,
            "CONFIG_FETCH_TIMEOUT"@,
            (Duration { secs: 30, nanos: 0 }),
        )->Ok_0,
        poll_interval: duration_setting(
            env,
            "CONFIG_POLL_INTERVAL"@,
            (Duration { secs: 30, nanos: 0 }),
        )->Ok_0,
        max_backoff: duration_setting(
            env,
            "CONFIG_MAX_BACKOFF"@,
            (Duration { secs: 300, nanos: 0 }),
        )->Ok_0,
        max_response_body_bytes: u64_of(env, "CONFIG_MAX_RESPONSE_BODY_BYTES"@, 16_777_216)->Ok_0,
        tls_skip_verify: flag_of(env, "CONFIG_TLS_SKIP_VERIFY"@, false)->Ok_0,
        ca_file: optional_of(env, "CONFIG_CA_FILE"@),
        namespace: namespace_of(env),
        parent_gateway: required_of(env, "CONFIG_PARENT_GATEWAY"@)->Ok_0,
        parent_gateway_namespace: optional_of(env, "CONFIG_PARENT_GATEWAY_NAMESPACE"@),
        listener_set_name: text_or_of(env, "CONFIG_LISTENERSET_NAME"@, "pangolin"@),
        http_port: i32_of(env, "CONFIG_HTTP_PORT"@, 80)->Ok_0,
        https_port: i32_of(env, "CONFIG_HTTPS_PORT"@, 443)->Ok_0,
        enable_https_listeners: flag_of(env, "CONFIG_ENABLE_HTTPS_LISTENERS"@, true)->Ok_0,
        enable_tcp_routes: flag_of(env, "CONFIG_ENABLE_TCP_ROUTES"@, false)->Ok_0,
        enable_udp_routes: flag_of(env, "CONFIG_ENABLE_UDP_ROUTES"@, false)->Ok_0,
        backend_kind: backend_kind_setting(env)->Ok_0,
        ext_authz: ext_authz_of(env)->Ok_0,
        allow_unauthenticated_routes: flag_of(
            env,
            "CONFIG_ALLOW_UNAUTHENTICATED_ROUTES"@,
            false,
        )->Ok_0,
        tls_secret_template: optional_of(env, "CONFIG_TLS_SECRET_TEMPLATE"@),
        tls_secret_namespace: optional_of(env, "CONFIG_TLS_SECRET_NAMESPACE"@),
        field_manager: text_or_of(env, "CONFIG_FIELD_MANAGER"@, "pangolin-gateway-controller"@),
        managed_label_key: text_or_of(
            env,
            "CONFIG_MANAGED_LABEL_KEY"@,
            "app.kubernetes.io/managed-by"@,
        ),
        managed_label_value: text_or_of(
            env,
            "CONFIG_MANAGED_LABEL_VALUE"@,
            "pangolin-gateway-controller"@,
        ),
        instance_label_key: text_or_of(
            env,
            "CONFIG_INSTANCE_LABEL_KEY"@,
            "pangolin.envisia.de/instance"@,
        ),
        instance_label_value: text_or_of(env, "CONFIG_INSTANCE_LABEL_VALUE"@, "default"@),
        managed_annotation_key: text_or_of(
            env,
            "CONFIG_MANAGED_ANNOTATION_KEY"@,
            "pangolin.envisia.de/source"@,
        ),
        managed_annotation_value: text_or_of(
            env,
            "CONFIG_MANAGED_ANNOTATION_VALUE"@,
            "pangolin-gateway-controller"@,
        ),
        httproute_annotations: kv_of(env, "CONFIG_HTTPROUTE_ANNOTATIONS"@)->Ok_0,
        listenerset_annotations: kv_of(env, "CONFIG_LISTENERSET_ANNOTATIONS"@)->Ok_0,
        badger_ext_auth: badger_ext_auth_of(env)->Ok_0,
        pangolin_dashboard: pangolin_dashboard_of(env)->Ok_0,
        gerbil_udp: gerbil_udp_of(env)->Ok_0,
        reconcile_scope: reconcile_scope_of(env)->Ok_0,
        read_only: flag_of(env, "CONFIG_READ_ONLY"@, false)->Ok_0,
        log_traefik_config: flag_of(env, "CONFIG_LOG_TRAEFIK_CONFIG"@, false)->Ok_0,
        health_listen: health_listen_of(env),
    }
}

/// The endpoint is refused whatever its URL is.
pub open spec fn endpoint_refused(env: Env) -> bool {
    let skip = flag_of(env, "CONFIG_TLS_SKIP_VERIFY"@, false);
    let acknowledged = flag_of(env, "I_UNDERSTAND_CONFIG_TLS_SKIP_VERIFY_IS_INSECURE"@, false);
    ||| required_of(env, "CONFIG_ENDPOINT"@) is Err
    ||| skip is Err
    ||| skip->Ok_0 && acknowledged != Ok::<_, ConfigErrorView>(true)
}

/// Every duration setting can be read, unless a setting that is read before them is wrong.
pub open spec fn durations_readable(env: Env) -> bool {
    ||| endpoint_refused(env)
    ||| blocks_error(env) is Some
    ||| duration_readable(env, "CONFIG_FETCH_TIMEOUT"@) && duration_readable(
        env,
        "CONFIG_POLL_INTERVAL"@,
    ) && duration_readable(env, "CONFIG_MAX_BACKOFF"@)
}

// ---- laws -------------------------------------------------------------------------

/// The endpoint and the parent Gateway are required: no settings come of an environment
/// that lacks one.
pub proof fn law_required_settings_are_set(env: Env)
    requires
        first_error(env) is None,
    ensures
        env.contains_key("CONFIG_ENDPOINT"@),
        env.contains_key("CONFIG_PARENT_GATEWAY"@),
        settings(env).parent_gateway == env["CONFIG_PARENT_GATEWAY"@],
        url_of(env["CONFIG_ENDPOINT"@]) is Some,
{
}

/// Without an endpoint the error names the variable.
pub proof fn law_missing_endpoint_is_named(env: Env)
    requires
        !env.contains_key("CONFIG_ENDPOINT"@),
    ensures
        first_error(env) == Some(
            error_of(ErrorKind::Missing, "CONFIG_ENDPOINT"@, Seq::empty()),
        ),
{
}

/// Certificate checks are never switched off without the explicit acknowledgement.
pub proof fn law_skip_verify_is_acknowledged(env: Env)
    requires
        first_error(env) is None,
        settings(env).tls_skip_verify,
    ensures
        flag_of(env, "I_UNDERSTAND_CONFIG_TLS_SKIP_VERIFY_IS_INSECURE"@, false) == Ok::<
            _,
            ConfigErrorView,
        >(true),
{
}

/// A plain `http` endpoint is never accepted without the explicit permission.
pub proof fn law_plain_http_is_permitted(env: Env)
    requires
        first_error(env) is None,
        url_of(required_of(env, "CONFIG_ENDPOINT"@)->Ok_0)->0.scheme == "http"@,
    ensures
        flag_of(env, "CONFIG_ALLOW_INSECURE_HTTP"@, false) == Ok::<_, ConfigErrorView>(true),
{
}

// ---- reading the environment ------------------------------------------------------

fn namespace_text(env: &StrMap<String>) -> (r: String)
    ensures
        r@ == namespace_of(env.deep_view()),
{
    text_or(env, "CONFIG_NAMESPACE", "default")
}

fn namespace_env(env: &StrMap<String>, key: &str) -> (r: Option<String>)
    ensures
        r.deep_view() == namespace_or(env.deep_view(), key@),
{
    let namespace = namespace_text(env);
    Some(text_or(env, key, namespace.as_str()))
}

fn parse_badger_ext_auth(env: &StrMap<String>) -> (r: Result<
    Option<BadgerExtAuthConfig>,
    ConfigError,
>)
    ensures
        match r {
            Ok(v) => badger_ext_auth_of(env.deep_view()) == Ok::<_, ConfigErrorView>(v.deep_view()),
            Err(e) => badger_ext_auth_of(env.deep_view()) == Err::<
                Option<BadgerExtAuthConfigView>,
                _,
            >(e.deep_view()),
        },
{
    match flag(env, "CONFIG_BADGER_EXT_AUTH", false) {
        Err(e) => {
            return Err(e);
        },
        Ok(on) => {
            if !on {
                return Ok(None);
            }
        },
    }
    let backend_port: i32 = match i32_env(env, "CONFIG_BADGER_EXT_AUTH_BACKEND_PORT", 9002) {
        Ok(v) => v,
        Err(e) => {
            return Err(e);
        },
    };
    let sent = vec![
        "authorization".to_owned(),
        "cookie".to_owned(),
        "x-forwarded-for".to_owned(),
        "x-forwarded-host".to_owned(),
        "x-forwarded-proto".to_owned(),
        "x-real-ip".to_owned(),
        "p-access-token-id".to_owned(),
        "p-access-token".to_owned(),
    ];
    assert(sent.deep_view() =~= badger_headers_in());
    let headers_to_ext_auth = match csv_env(
        env,
        "CONFIG_BADGER_EXT_AUTH_HEADERS_TO_EXTAUTH",
        sent,
    ) {
        Ok(v) => v,
        Err(e) => {
            return Err(e);
        },
    };
    let kept = vec![
        "remote-user".to_owned(),
        "remote-email".to_owned(),
        "remote-name".to_owned(),
        "remote-role".to_owned(),
    ];
    assert(kept.deep_view() =~= badger_headers_out());
    let headers_to_backend = match csv_env(
        env,
        "CONFIG_BADGER_EXT_AUTH_HEADERS_TO_BACKEND",
        kept,
    ) {
        Ok(v) => v,
        Err(e) => {
            return Err(e);
        },
    };
    let fail_open = match flag(env, "CONFIG_BADGER_EXT_AUTH_FAIL_OPEN", false) {
        Ok(v) => v,
        Err(e) => {
            return Err(e);
        },
    };
    Ok(
        Some(
            BadgerExtAuthConfig {
                backend_name: text_or(
                    env,
                    "CONFIG_BADGER_EXT_AUTH_BACKEND_NAME",
                    "pangolin-badger-ext-authz",
                ),
                backend_namespace: namespace_env(env, "CONFIG_BADGER_EXT_AUTH_BACKEND_NAMESPACE"),
                backend_port,
                path: optional(env, "CONFIG_BADGER_EXT_AUTH_PATH"),
                headers_to_ext_auth,
                headers_to_backend,
                fail_open,
            },
        ),
    )
}

fn parse_pangolin_dashboard(env: &StrMap<String>) -> (r: Result<
    Option<PangolinDashboardConfig>,
    ConfigError,
>)
    ensures
        match r {
            Ok(v) => pangolin_dashboard_of(env.deep_view()) == Ok::<_, ConfigErrorView>(
                v.deep_view(),
            ),
            Err(e) => pangolin_dashboard_of(env.deep_view()) == Err::<
                Option<PangolinDashboardConfigView>,
                _,
            >(e.deep_view()),
        },
{
    let hostname = match optional(env, "CONFIG_PANGOLIN_DASHBOARD_HOST") {
        Some(h) => h,
        None => {
            return Ok(None);
        },
    };
    let api_port: i32 = match i32_env(env, "CONFIG_PANGOLIN_API_PORT", 3000) {
        Ok(v) => v,
        Err(e) => {
            return Err(e);
        },
    };
    let next_port: i32 = match i32_env(env, "CONFIG_PANGOLIN_NEXT_PORT", 3002) {
        Ok(v) => v,
        Err(e) => {
            return Err(e);
        },
    };
    let redirect_http_to_https = match flag(env, "CONFIG_PANGOLIN_REDIRECT_HTTP_TO_HTTPS", true) {
        Ok(v) => v,
        Err(e) => {
            return Err(e);
        },
    };
    Ok(
        Some(
            PangolinDashboardConfig {
                hostname,
                service_name: text_or(env, "CONFIG_PANGOLIN_SERVICE_NAME", "pangolin"),
                service_namespace: namespace_env(env, "CONFIG_PANGOLIN_SERVICE_NAMESPACE"),
                api_port,
                next_port,
                redirect_http_to_https,
            },
        ),
    )
}

fn parse_gerbil_udp(env: &StrMap<String>) -> (r: Result<Option<GerbilUdpConfig>, ConfigError>)
    ensures
        match r {
            Ok(v) => gerbil_udp_of(env.deep_view()) == Ok::<_, ConfigErrorView>(v.deep_view()),
            Err(e) => gerbil_udp_of(env.deep_view()) == Err::<Option<GerbilUdpConfigView>, _>(
                e.deep_view(),
            ),
        },
{
    match flag(env, "CONFIG_GERBIL_UDP_ROUTE", false) {
        Err(e) => {
            return Err(e);
        },
        Ok(on) => {
            if !on {
                return Ok(None);
            }
        },
    }
    let default: Vec<i32> = vec![51820, 21820];
    assert(default@ =~= seq![51820i32, 21820i32]);
    let ports = match i32_csv_env(env, "CONFIG_GERBIL_UDP_PORTS", default) {
        Ok(v) => v,
        Err(e) => {
            return Err(e);
        },
    };
    assert(ports.deep_view() =~= ports@);
    Ok(
        Some(
            GerbilUdpConfig {
                service_name: text_or(env, "CONFIG_GERBIL_SERVICE_NAME", "gerbil"),
                service_namespace: namespace_env(env, "CONFIG_GERBIL_SERVICE_NAMESPACE"),
                ports,
            },
        ),
    )
}

fn parse_ext_authz(env: &StrMap<String>) -> (r: Result<Option<ExtAuthzConfig>, ConfigError>)
    ensures
        match r {
            Ok(v) => ext_authz_of(env.deep_view()) == Ok::<_, ConfigErrorView>(v.deep_view()),
            Err(e) => ext_authz_of(env.deep_view()) == Err::<Option<ExtAuthzConfigView>, _>(
                e.deep_view(),
            ),
        },
{
    let service = match optional(env, "CONFIG_EXT_AUTHZ_SERVICE") {
        Some(s) => s,
        None => {
            return Ok(None);
        },
    };
    let port: i32 = match i32_env(env, "CONFIG_EXT_AUTHZ_PORT", 80) {
        Ok(v) => v,
        Err(e) => {
            return Err(e);
        },
    };
    let sent = vec!["cookie".to_owned(), "authorization".to_owned()];
    assert(sent.deep_view() =~= seq!["cookie"@, "authorization"@]);
    let headers_to_ext_auth = match csv_env(env, "CONFIG_EXT_AUTHZ_HEADERS_TO_EXT_AUTH", sent) {
        Ok(v) => v,
        Err(e) => {
            return Err(e);
        },
    };
    let kept: Vec<String> = Vec::new();
    assert(kept.deep_view() =~= Seq::<Seq<char>>::empty());
    let headers_to_backend = match csv_env(env, "CONFIG_EXT_AUTHZ_HEADERS_TO_BACKEND", kept) {
        Ok(v) => v,
        Err(e) => {
            return Err(e);
        },
    };
    Ok(
        Some(
            ExtAuthzConfig {
                service,
                namespace: optional(env, "CONFIG_EXT_AUTHZ_NAMESPACE"),
                port,
                path: optional(env, "CONFIG_EXT_AUTHZ_PATH"),
                headers_to_ext_auth,
                headers_to_backend,
            },
        ),
    )
}

fn parse_reconcile_scope(env: &StrMap<String>) -> (r: Result<ReconcileScope, ConfigError>)
    ensures
        match r {
            Ok(v) => reconcile_scope_of(env.deep_view()) == Ok::<_, ConfigErrorView>(v.deep_view()),
            Err(e) => reconcile_scope_of(env.deep_view()) == Err::<ReconcileScopeView, _>(
                e.deep_view(),
            ),
        },
{
    match optional(env, "CONFIG_RECONCILE_ONLY") {
        Some(raw) => ReconcileScope::parse(raw.as_str()),
        None => Ok(ReconcileScope::all()),
    }
}

fn parse_backend_kind(env: &StrMap<String>) -> (r: Result<BackendKind, ConfigError>)
    ensures
        match r {
            Ok(v) => backend_kind_setting(env.deep_view()) == Ok::<_, ConfigErrorView>(v),
            Err(e) => backend_kind_setting(env.deep_view()) == Err::<BackendKind, _>(
                e.deep_view(),
            ),
        },
{
    match optional(env, "CONFIG_BACKEND_KIND") {
        Some(raw) => BackendKind::parse(raw.as_str()),
        None => Ok(BackendKind::EnvoyBackend),
    }
}

fn parse_health_listen(env: &StrMap<String>) -> (r: Option<String>)
    ensures
        r.deep_view() == health_listen_of(env.deep_view()),
{
    let listen = text_or(env, "CONFIG_HEALTH_LISTEN", "0.0.0.0:8081");
    if text::same(listen.as_str(), "off") {
        None
    } else {
        Some(listen)
    }
}

/// Whether an endpoint may be reached: whether certificates then go unchecked, or what
/// stands in the way.
pub fn check_endpoint(env: &StrMap<String>, url: &UrlParts) -> (r: Result<bool, ConfigError>)
    ensures
        match r {
            Ok(skip) => reach_error(env.deep_view(), url.deep_view()) is None && flag_of(
                env.deep_view(),
                "CONFIG_TLS_SKIP_VERIFY"@,
                false,
            ) == Ok::<_, ConfigErrorView>(skip),
            Err(e) => reach_error(env.deep_view(), url.deep_view()) == Some(e.deep_view()),
        },
{
    proof {
        reveal_strlit("");
        assert(""@ =~= Seq::<char>::empty());
    }
    let skip = match flag(env, "CONFIG_TLS_SKIP_VERIFY", false) {
        Ok(v) => v,
        Err(e) => {
            return Err(e);
        },
    };
    if skip {
        match flag(env, "I_UNDERSTAND_CONFIG_TLS_SKIP_VERIFY_IS_INSECURE", false) {
            Err(e) => {
                return Err(e);
            },
            Ok(acknowledged) => {
                if !acknowledged {
                    return Err(
                        error(ErrorKind::SkipVerifyNotAcknowledged, "CONFIG_TLS_SKIP_VERIFY", ""),
                    );
                }
            },
        }
    }
    if text::same(url.scheme.as_str(), "http") {
        match flag(env, "CONFIG_ALLOW_INSECURE_HTTP", false) {
            Err(e) => {
                return Err(e);
            },
            Ok(allowed) => {
                if !allowed {
                    return Err(error(ErrorKind::InsecureHttp, "CONFIG_ENDPOINT", ""));
                }
            },
        }
    }
    Ok(skip)
}

/// The endpoint's URL in its normal form, and whether certificates go unchecked.
fn parse_endpoint(env: &StrMap<String>) -> (r: Result<(String, bool), ConfigError>)
    ensures
        match r {
            Ok(v) => endpoint_error(env.deep_view()) is None && v.0@ == settings(
                env.deep_view(),
            ).pangolin_endpoint && v.1 == settings(env.deep_view()).tls_skip_verify,
            Err(e) => endpoint_error(env.deep_view()) == Some(e.deep_view()),
        },
{
    let raw = match required(env, "CONFIG_ENDPOINT") {
        Ok(v) => v,
        Err(e) => {
            return Err(e);
        },
    };
    let url = match parse_url(raw.as_str()) {
        Some(u) => u,
        None => {
            return Err(error(ErrorKind::InvalidUrl, "CONFIG_ENDPOINT", raw.as_str()));
        },
    };
    match check_endpoint(env, &url) {
        Ok(skip) => Ok((url.text, skip)),
        Err(e) => Err(e),
    }
}

fn is_endpoint_refused(env: &StrMap<String>) -> (r: bool)
    ensures
        r == endpoint_refused(env.deep_view()),
{
    if required(env, "CONFIG_ENDPOINT").is_err() {
        return true;
    }
    match flag(env, "CONFIG_TLS_SKIP_VERIFY", false) {
        Err(_) => true,
        Ok(skip) => if skip {
            match flag(env, "I_UNDERSTAND_CONFIG_TLS_SKIP_VERIFY_IS_INSECURE", false) {
                Ok(acknowledged) => !acknowledged,
                Err(_) => true,
            }
        } else {
            false
        },
    }
}

/// Whether [`Config::from_env`] can read the durations of an environment.
pub fn can_read_durations(env: &StrMap<String>) -> (r: bool)
    ensures
        r == durations_readable(env.deep_view()),
{
    is_endpoint_refused(env) || parse_badger_ext_auth(env).is_err() || parse_pangolin_dashboard(
        env,
    ).is_err() || parse_gerbil_udp(env).is_err() || parse_reconcile_scope(env).is_err() || (
    is_duration_readable(env, "CONFIG_FETCH_TIMEOUT") && is_duration_readable(
        env,
        "CONFIG_POLL_INTERVAL",
    ) && is_duration_readable(env, "CONFIG_MAX_BACKOFF"))
}

impl Config {
    /// The settings that the environment asks for, or the first that is wrong.
    pub fn from_env(env: &StrMap<String>) -> (r: Result<Config, ConfigError>)
        requires
            durations_readable(env.deep_view()),
        ensures
            match r {
                Ok(c) => first_error(env.deep_view()) is None && c.deep_view() == settings(
                    env.deep_view(),
                ) && c.max_backoff.valid() && c.poll_interval.valid() && c.fetch_timeout.valid(),
                Err(e) => first_error(env.deep_view()) == Some(e.deep_view()),
            },
    {
        let (pangolin_endpoint, tls_skip_verify) = match parse_endpoint(env) {
            Ok(v) => v,
            Err(e) => {
                return Err(e);
            },
        };
        let badger_ext_auth = match parse_badger_ext_auth(env) {
            Ok(v) => v,
            Err(e) => {
                return Err(e);
            },
        };
        let pangolin_dashboard = match parse_pangolin_dashboard(env) {
            Ok(v) => v,
            Err(e) => {
                return Err(e);
            },
        };
        let gerbil_udp = match parse_gerbil_udp(env) {
            Ok(v) => v,
            Err(e) => {
                return Err(e);
            },
        };
        let reconcile_scope = match parse_reconcile_scope(env) {
            Ok(v) => v,
            Err(e) => {
                return Err(e);
            },
        };
        let fetch_timeout = match duration_env(
            env,
            "CONFIG_FETCH_TIMEOUT",
            Duration { secs: 30, nanos: 0 },
        ) {
            Ok(v) => v,
            Err(e) => {
                return Err(e);
            },
        };
        let poll_interval = match duration_env(
            env,
            "CONFIG_POLL_INTERVAL",
            Duration { secs: 30, nanos: 0 },
        ) {
            Ok(v) => v,
            Err(e) => {
                return Err(e);
            },
        };
        let max_backoff = match duration_env(
            env,
            "CONFIG_MAX_BACKOFF",
            Duration { secs: 300, nanos: 0 },
        ) {
            Ok(v) => v,
            Err(e) => {
                return Err(e);
            },
        };
        let max_response_body_bytes: u64 = match u64_env(env, "CONFIG_MAX_RESPONSE_BODY_BYTES", 16_777_216) {
            Ok(v) => v,
            Err(e) => {
                return Err(e);
            },
        };
        let parent_gateway = match required(env, "CONFIG_PARENT_GATEWAY") {
            Ok(v) => v,
            Err(e) => {
                return Err(e);
            },
        };
        let http_port: i32 = match i32_env(env, "CONFIG_HTTP_PORT", 80) {
            Ok(v) => v,
            Err(e) => {
                return Err(e);
            },
        };
        let https_port: i32 = match i32_env(env, "CONFIG_HTTPS_PORT", 443) {
            Ok(v) => v,
            Err(e) => {
                return Err(e);
            },
        };
        let enable_https_listeners = match flag(env, "CONFIG_ENABLE_HTTPS_LISTENERS", true) {
            Ok(v) => v,
            Err(e) => {
                return Err(e);
            },
        };
        let enable_tcp_routes = match flag(env, "CONFIG_ENABLE_TCP_ROUTES", false) {
            Ok(v) => v,
            Err(e) => {
                return Err(e);
            },
        };
        let enable_udp_routes = match flag(env, "CONFIG_ENABLE_UDP_ROUTES", false) {
            Ok(v) => v,
            Err(e) => {
                return Err(e);
            },
        };
        let backend_kind = match parse_backend_kind(env) {
            Ok(v) => v,
            Err(e) => {
                return Err(e);
            },
        };
        let ext_authz = match parse_ext_authz(env) {
            Ok(v) => v,
            Err(e) => {
                return Err(e);
            },
        };
        let allow_unauthenticated_routes = match flag(
            env,
            "CONFIG_ALLOW_UNAUTHENTICATED_ROUTES",
            false,
        ) {
            Ok(v) => v,
            Err(e) => {
                return Err(e);
            },
        };
        let httproute_annotations = match parse_kv_env(env, "CONFIG_HTTPROUTE_ANNOTATIONS") {
            Ok(v) => v,
            Err(e) => {
                return Err(e);
            },
        };
        let listenerset_annotations = match parse_kv_env(env, "CONFIG_LISTENERSET_ANNOTATIONS") {
            Ok(v) => v,
            Err(e) => {
                return Err(e);
            },
        };
        let read_only = match flag(env, "CONFIG_READ_ONLY", false) {
            Ok(v) => v,
            Err(e) => {
                return Err(e);
            },
        };
        let log_traefik_config = match flag(env, "CONFIG_LOG_TRAEFIK_CONFIG", false) {
            Ok(v) => v,
            Err(e) => {
                return Err(e);
            },
        };
        Ok(
            Config {
                pangolin_endpoint,
                auth_header: optional(env, "CONFIG_AUTH_HEADER"),
                fetch_timeout,
                poll_interval,
                max_backoff,
                max_response_body_bytes,
                tls_skip_verify,
                ca_file: optional(env, "CONFIG_CA_FILE"),
                namespace: namespace_text(env),
                parent_gateway,
                parent_gateway_namespace: optional(env, "CONFIG_PARENT_GATEWAY_NAMESPACE"),
                listener_set_name: text_or(env, "CONFIG_LISTENERSET_NAME", "pangolin"),
                http_port,
                https_port,
                enable_https_listeners,
                enable_tcp_routes,
                enable_udp_routes,
                backend_kind,
                ext_authz,
                allow_unauthenticated_routes,
                tls_secret_template: optional(env, "CONFIG_TLS_SECRET_TEMPLATE"),
                tls_secret_namespace: optional(env, "CONFIG_TLS_SECRET_NAMESPACE"),
                field_manager: text_or(env, "CONFIG_FIELD_MANAGER", "pangolin-gateway-controller"),
                managed_label_key: text_or(
                    env,
                    "CONFIG_MANAGED_LABEL_KEY",
                    "app.kubernetes.io/managed-by",
                ),
                managed_label_value: text_or(
                    env,
                    "CONFIG_MANAGED_LABEL_VALUE",
                    "pangolin-gateway-controller",
                ),
                instance_label_key: text_or(
                    env,
                    "CONFIG_INSTANCE_LABEL_KEY",
                    "pangolin.envisia.de/instance",
                ),
                instance_label_value: text_or(env, "CONFIG_INSTANCE_LABEL_VALUE", "default"),
                managed_annotation_key: text_or(
                    env,
                    "CONFIG_MANAGED_ANNOTATION_KEY",
                    "pangolin.envisia.de/source",
                ),
                managed_annotation_value: text_or(
                    env,
                    "CONFIG_MANAGED_ANNOTATION_VALUE",
                    "pangolin-gateway-controller",
                ),
                httproute_annotations,
                listenerset_annotations,
                badger_ext_auth,
                pangolin_dashboard,
                gerbil_udp,
                reconcile_scope,
                read_only,
                log_traefik_config,
                health_listen: parse_health_listen(env),
            },
        )
    }

    /// Selector used by garbage collection to enumerate every object the controller
    /// has created.
    pub fn managed_selector(&self) -> (r: String)
        ensures
            r@ == self.managed_label_key@ + "="@ + self.managed_label_value@ + ","@
                + self.instance_label_key@ + "="@ + self.instance_label_value@,
    {
        let mut out = self.managed_label_key.clone();
        out.append("=");
        out.append(self.managed_label_value.as_str());
        out.append(",");
        out.append(self.instance_label_key.as_str());
        out.append("=");
        out.append(self.instance_label_value.as_str());
        out
    }
}

} // verus!
