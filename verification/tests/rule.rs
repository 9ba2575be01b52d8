//! Router rules.

use pangolin_gateway_controller::transform::rule::{
    normalize_path, parse, unparseable, PathMatch, PathMatchKind,
};

#[test]
fn host_only() {
    let r = parse("Host(`example.com`)");
    assert_eq!(r.hosts, vec!["example.com"]);
    assert!(r.path.is_none());
    assert!(r.is_usable());
}

#[test]
fn host_and_path_prefix() {
    let r = parse("Host(`example.com`) && PathPrefix(`/api`)");
    assert_eq!(r.hosts, vec!["example.com"]);
    assert_eq!(
        r.path,
        Some(PathMatch {
            kind: PathMatchKind::Prefix,
            value: "/api".into()
        })
    );
    assert!(r.is_usable());
}

#[test]
fn host_with_multiple() {
    let r = parse("Host(`a.com`, `b.com`)");
    assert_eq!(r.hosts, vec!["a.com", "b.com"]);
}

#[test]
fn host_and_exact_path() {
    let r = parse("Host(`example.com`) && Path(`/exact`)");
    assert_eq!(
        r.path,
        Some(PathMatch {
            kind: PathMatchKind::Exact,
            value: "/exact".into()
        })
    );
}

#[test]
fn disjunction_is_unsupported() {
    let r = parse("Host(`a.com`) || Host(`b.com`)");
    assert!(r.has_disjunction);
    assert!(!r.is_usable());
}

#[test]
fn host_regexp_marked() {
    let r = parse("HostRegexp(`{any:.+}.example.com`)");
    assert!(r.host_regexp);
    assert!(!r.is_usable());
}

#[test]
fn unsupported_predicate_recorded() {
    let r = parse("Host(`a.com`) && Method(`GET`)");
    assert_eq!(r.unsupported_predicates, vec!["Method"]);
    assert!(!r.is_usable());
}

#[test]
fn negation_is_unsupported() {
    let r = parse("!Host(`a.com`)");
    assert!(r.has_negation);
    assert!(!r.is_usable());
}

#[test]
fn operators_inside_backticks_are_text() {
    let r = parse("Host(`a||b!c`) && PathPrefix(`/x|y`)");
    assert!(!r.has_disjunction);
    assert!(!r.has_negation);
    assert_eq!(r.hosts, vec!["a||b!c"]);
    assert_eq!(r.path.unwrap().value, "/x|y");
}

#[test]
fn unparseable_token_is_recorded_with_its_offset() {
    let r = parse("Host(`a.com`) && 'x'");
    assert_eq!(r.hosts, vec!["a.com"]);
    assert_eq!(
        r.unsupported_predicates,
        vec!["unparseable token at offset 17: '\\''"]
    );
    assert_eq!(unparseable(3, "'$'"), "unparseable token at offset 3: '$'");
}

#[test]
fn predicate_without_arguments_is_recorded() {
    let r = parse("Host");
    assert_eq!(
        r.unsupported_predicates,
        vec!["predicate Host missing arguments"]
    );
    assert!(!r.is_usable());
}

#[test]
fn bare_arguments_are_trimmed() {
    let r = parse("Host( a.com , b.com )");
    assert_eq!(r.hosts, vec!["a.com", "b.com"]);
}

#[test]
fn unterminated_argument_runs_to_the_end() {
    let r = parse("Host(`a.com");
    assert_eq!(r.hosts, vec!["a.com"]);
    assert!(r.is_usable());
}

#[test]
fn the_last_path_counts_and_regex_paths_are_kept() {
    let r = parse("Host(`a`) && Path(`/x`) && PathRegexp(`^y`)");
    assert_eq!(
        r.path,
        Some(PathMatch {
            kind: PathMatchKind::Regex,
            value: "^y".into()
        })
    );
    assert_eq!(PathMatchKind::Regex.as_str(), "Regex");
    assert_eq!(PathMatchKind::Prefix.as_str(), "PathPrefix");
    assert_eq!(PathMatchKind::Exact.as_str(), "Exact");
}

#[test]
fn path_predicate_without_arguments_says_nothing() {
    let r = parse("Host(`a`) && PathPrefix()");
    assert!(r.path.is_none());
    assert!(r.is_usable());
}

#[test]
fn paths_are_rooted() {
    assert_eq!(normalize_path("api"), "/api");
    assert_eq!(normalize_path("/api"), "/api");
    assert_eq!(normalize_path(""), "/");
    assert_eq!(normalize_path(&normalize_path("x/y")), "/x/y");
}
