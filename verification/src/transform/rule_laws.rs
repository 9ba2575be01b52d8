//! What the rule parser promises: a rendered rule reads back, and each term of a rule
//! shows in what the rule says.

use vstd::prelude::*;

use crate::text::{char_debug, dec, is_alpha, is_digit, is_space, trim};
use crate::text_laws::law_numbers_read_back;
use crate::transform::rule::{
    args_at, args_end, backticks, lemma_backticks_add, lemma_no_backticks, lemma_run, member,
    parsed, parsed_start, run, terms_at, unquoted, usable, with_term, with_terms, Class,
    ParsedRuleView, PathMatchKind, TermView,
};

verus! {

// ---- terms --------------------------------------------------------------------------

/// The rule holds this call.
pub open spec fn holds_call(s: Seq<char>, name: Seq<char>, args: Seq<Seq<char>>) -> bool {
    exists|i: int| 0 <= i < terms_at(s, 0).len() && terms_at(s, 0)[i] == TermView::Call(name, args)
}

pub open spec fn is_path_name(name: Seq<char>) -> bool {
    name == "PathPrefix"@ || name == "Path"@ || name == "PathRegexp"@
}

/// The predicates that can be translated.
pub open spec fn is_known_name(name: Seq<char>) -> bool {
    name == "Host"@ || name == "HostRegexp"@ || is_path_name(name)
}

/// The term is a call of a path predicate that names a path.
pub open spec fn names_path(t: TermView) -> bool {
    t matches TermView::Call(name, args) && is_path_name(name) && args.len() > 0
}

proof fn lemma_names_differ()
    ensures
        "Host"@ != "HostRegexp"@,
        "Host"@ != "PathPrefix"@,
        "Host"@ != "Path"@,
        "Host"@ != "PathRegexp"@,
        "HostRegexp"@ != "PathPrefix"@,
        "HostRegexp"@ != "Path"@,
        "HostRegexp"@ != "PathRegexp"@,
        "PathPrefix"@ != "Path"@,
        "PathPrefix"@ != "PathRegexp"@,
        "Path"@ != "PathRegexp"@,
{
    reveal_strlit("Host");
    reveal_strlit("HostRegexp");
    reveal_strlit("PathPrefix");
    reveal_strlit("Path");
    reveal_strlit("PathRegexp");
    assert("Host"@[0] != "Path"@[0]);
    assert("HostRegexp"@[0] != "PathPrefix"@[0]);
    assert("HostRegexp"@[0] != "PathRegexp"@[0]);
    assert("PathPrefix"@[4] != "PathRegexp"@[4]);
    assert("Host"@.len() == 4 && "HostRegexp"@.len() == 10);
    assert("Path"@.len() == 4 && "PathRegexp"@.len() == 10 && "PathPrefix"@.len() == 10);
}

/// What a term leaves alone.
proof fn lemma_term(r: ParsedRuleView, t: TermView)
    ensures
        ({
            let q = with_term(r, t);
            &&& q.has_disjunction == r.has_disjunction
            &&& q.has_negation == r.has_negation
            &&& r.host_regexp ==> q.host_regexp
            &&& r.unsupported_predicates.len() <= q.unsupported_predicates.len()
            &&& q.unsupported_predicates.take(r.unsupported_predicates.len() as int)
                =~= r.unsupported_predicates
            &&& r.hosts.len() <= q.hosts.len()
            &&& q.hosts.take(r.hosts.len() as int) =~= r.hosts
            &&& !names_path(t) ==> q.path == r.path
        }),
{
    lemma_names_differ();
}

/// What terms leave alone.
proof fn lemma_terms(r: ParsedRuleView, ts: Seq<TermView>)
    ensures
        ({
            let q = with_terms(r, ts);
            &&& q.has_disjunction == r.has_disjunction
            &&& q.has_negation == r.has_negation
            &&& r.host_regexp ==> q.host_regexp
            &&& r.unsupported_predicates.len() <= q.unsupported_predicates.len()
            &&& q.unsupported_predicates.take(r.unsupported_predicates.len() as int)
                =~= r.unsupported_predicates
            &&& r.hosts.len() <= q.hosts.len()
            &&& q.hosts.take(r.hosts.len() as int) =~= r.hosts
            &&& (forall|i: int| 0 <= i < ts.len() ==> !names_path(#[trigger] ts[i])) ==> q.path
                == r.path
        }),
    decreases ts.len(),
{
    if ts.len() > 0 {
        let m = with_term(r, ts[0]);
        let rest = ts.drop_first();
        lemma_term(r, ts[0]);
        lemma_terms(m, rest);
        let q = with_terms(r, ts);
        let u = r.unsupported_predicates;
        assert(q.unsupported_predicates.take(u.len() as int) =~= u) by {
            assert forall|i: int| 0 <= i < u.len() implies q.unsupported_predicates[i] == u[i] by {
                assert(m.unsupported_predicates.take(u.len() as int)[i] == u[i]);
                assert(q.unsupported_predicates.take(m.unsupported_predicates.len() as int)[i]
                    == m.unsupported_predicates[i]);
            }
        }
        assert(q.hosts.take(r.hosts.len() as int) =~= r.hosts) by {
            assert forall|i: int| 0 <= i < r.hosts.len() implies q.hosts[i] == r.hosts[i] by {
                assert(m.hosts.take(r.hosts.len() as int)[i] == r.hosts[i]);
                assert(q.hosts.take(m.hosts.len() as int)[i] == m.hosts[i]);
            }
        }
        if forall|i: int| 0 <= i < ts.len() ==> !names_path(#[trigger] ts[i]) {
            assert(!names_path(ts[0]));
            assert forall|i: int| 0 <= i < rest.len() implies !names_path(#[trigger] rest[i]) by {
                assert(rest[i] == ts[i + 1]);
            }
        }
    }
}

/// Terms in two parts.
proof fn lemma_terms_split(r: ParsedRuleView, ts: Seq<TermView>, i: int)
    requires
        0 <= i < ts.len(),
    ensures
        with_terms(r, ts) == with_terms(
            with_term(with_terms(r, ts.take(i)), ts[i]),
            ts.skip(i + 1),
        ),
    decreases i,
{
    if i == 0 {
        assert(ts.take(0) =~= Seq::<TermView>::empty());
        assert(ts.drop_first() =~= ts.skip(1));
    } else {
        let rest = ts.drop_first();
        lemma_terms_split(with_term(r, ts[0]), rest, i - 1);
        assert(rest[i - 1] == ts[i]);
        assert(rest.skip(i) =~= ts.skip(i + 1));
        assert(ts.take(i).drop_first() =~= rest.take(i - 1));
        assert(ts.take(i)[0] == ts[0]);
    }
}

/// Every call of a predicate that cannot be translated is listed by its name, whatever its
/// arguments, and makes the rule unusable.
pub proof fn law_unknown_predicates_are_listed(
    s: Seq<char>,
    name: Seq<char>,
    args: Seq<Seq<char>>,
)
    requires
        holds_call(s, name, args),
        !is_known_name(name),
    ensures
        parsed(s).unsupported_predicates.contains(name),
        !usable(parsed(s)),
{
    let ts = terms_at(s, 0);
    let i = choose|i: int| 0 <= i < ts.len() && ts[i] == TermView::Call(name, args);
    let start = parsed_start(s);
    lemma_terms_split(start, ts, i);
    let m = with_terms(start, ts.take(i));
    let n = with_term(m, ts[i]);
    lemma_terms(n, ts.skip(i + 1));
    let at = n.unsupported_predicates.len() - 1;
    assert(n.unsupported_predicates[at] == name);
    let q = parsed(s);
    assert(q.unsupported_predicates.take(n.unsupported_predicates.len() as int)[at] == name);
    assert(q.unsupported_predicates[at] == name);
}

/// A usable rule is made of calls of `Host`, `PathPrefix`, `Path` and `PathRegexp` alone.
pub proof fn law_usable_rules_are_known(s: Seq<char>, i: int)
    requires
        usable(parsed(s)),
        0 <= i < terms_at(s, 0).len(),
    ensures
        terms_at(s, 0)[i] matches TermView::Call(name, args) && is_known_name(name) && name
            != "HostRegexp"@,
{
    let ts = terms_at(s, 0);
    let start = parsed_start(s);
    lemma_terms_split(start, ts, i);
    let m = with_terms(start, ts.take(i));
    let n = with_term(m, ts[i]);
    lemma_terms(n, ts.skip(i + 1));
    lemma_names_differ();
    match ts[i] {
        TermView::Call(name, args) => {
            if !is_known_name(name) {
                law_unknown_predicates_are_listed(s, name, args);
            }
        },
        _ => {
            assert(n.unsupported_predicates.len() > 0);
        },
    }
}

/// A rule is translated only where it has a host and no operator or regular expression that
/// Gateway API lacks.
pub proof fn law_usable_rules_are_plain(r: ParsedRuleView)
    ensures
        usable(r) <==> r.hosts.len() > 0 && !r.host_regexp && !r.has_disjunction
            && !r.has_negation && r.unsupported_predicates =~= Seq::<Seq<char>>::empty(),
{
}

/// A rule with a regular expression for hosts says so.
pub proof fn law_host_regexp_is_marked(s: Seq<char>, args: Seq<Seq<char>>)
    requires
        holds_call(s, "HostRegexp"@, args),
    ensures
        parsed(s).host_regexp,
        !usable(parsed(s)),
{
    let ts = terms_at(s, 0);
    let i = choose|i: int| 0 <= i < ts.len() && ts[i] == TermView::Call("HostRegexp"@, args);
    let start = parsed_start(s);
    lemma_names_differ();
    lemma_terms_split(start, ts, i);
    lemma_terms(with_term(with_terms(start, ts.take(i)), ts[i]), ts.skip(i + 1));
}

proof fn lemma_hosts_come_from(r: ParsedRuleView, ts: Seq<TermView>, host: Seq<char>)
    requires
        with_terms(r, ts).hosts.contains(host),
    ensures
        r.hosts.contains(host) || exists|i: int|
            0 <= i < ts.len() && (#[trigger] ts[i] matches TermView::Call(name, args) && name
                == "Host"@ && args.contains(host)),
    decreases ts.len(),
{
    if ts.len() > 0 {
        let rest = ts.drop_first();
        let m = with_term(r, ts[0]);
        lemma_hosts_come_from(m, rest, host);
        lemma_names_differ();
        if m.hosts.contains(host) {
            if !r.hosts.contains(host) {
                let j = choose|j: int| 0 <= j < m.hosts.len() && m.hosts[j] == host;
                match ts[0] {
                    TermView::Call(name, args) => {
                        if j < r.hosts.len() {
                            assert(r.hosts[j] == host);
                        } else {
                            assert(args[j - r.hosts.len()] == host);
                        }
                        assert(ts[0] matches TermView::Call(name, args) && name == "Host"@
                            && args.contains(host));
                    },
                    _ => {},
                }
            }
        } else {
            let i = choose|i: int|
                0 <= i < rest.len() && (#[trigger] rest[i] matches TermView::Call(name, args)
                    && name == "Host"@ && args.contains(host));
            assert(rest[i] == ts[i + 1]);
        }
    }
}

/// The hosts of a rule are the arguments of its `Host` predicates, all of them and no
/// others.
pub proof fn law_hosts_are_host_arguments(s: Seq<char>, host: Seq<char>)
    ensures
        parsed(s).hosts.contains(host) <==> exists|i: int|
            0 <= i < terms_at(s, 0).len() && (#[trigger] terms_at(s, 0)[i] matches TermView::Call(
                name,
                args,
            ) && name == "Host"@ && args.contains(host)),
{
    let ts = terms_at(s, 0);
    let start = parsed_start(s);
    if parsed(s).hosts.contains(host) {
        lemma_hosts_come_from(start, ts, host);
    }
    if exists|i: int|
        0 <= i < ts.len() && (#[trigger] ts[i] matches TermView::Call(name, args) && name
            == "Host"@ && args.contains(host)) {
        let i = choose|i: int|
            0 <= i < ts.len() && (#[trigger] ts[i] matches TermView::Call(name, args) && name
                == "Host"@ && args.contains(host));
        lemma_terms_split(start, ts, i);
        let m = with_terms(start, ts.take(i));
        let n = with_term(m, ts[i]);
        lemma_terms(n, ts.skip(i + 1));
        let args = ts[i]->Call_1;
        let k = choose|k: int| 0 <= k < args.len() && args[k] == host;
        let at = m.hosts.len() + k;
        assert(n.hosts[at] == host);
        assert(parsed(s).hosts.take(n.hosts.len() as int)[at] == host);
        assert(parsed(s).hosts[at] == host);
    }
}

/// The last path predicate of a rule decides its path: a prefix, an exact path or a regular
/// expression, which alone is not rooted. The first argument is the path.
pub proof fn law_the_last_path_counts(s: Seq<char>, i: int)
    requires
        0 <= i < terms_at(s, 0).len(),
        names_path(terms_at(s, 0)[i]),
        forall|j: int| i < j < terms_at(s, 0).len() ==> !names_path(#[trigger] terms_at(s, 0)[j]),
    ensures
        ({
            let name = terms_at(s, 0)[i]->Call_0;
            let path = (terms_at(s, 0)[i]->Call_1)[0];
            let found = parsed(s).path->0;
            &&& parsed(s).path is Some
            &&& found.kind == PathMatchKind::Prefix <==> name == "PathPrefix"@
            &&& found.kind == PathMatchKind::Exact <==> name == "Path"@
            &&& found.kind == PathMatchKind::Regex <==> name == "PathRegexp"@
            &&& name == "PathRegexp"@ || (path.len() > 0 && path[0] == '/') ==> found.value == path
            &&& name != "PathRegexp"@ && !(path.len() > 0 && path[0] == '/') ==> found.value.len()
                == path.len() + 1 && found.value[0] == '/' && found.value.skip(1) == path
        }),
{
    let ts = terms_at(s, 0);
    let start = parsed_start(s);
    lemma_names_differ();
    lemma_terms_split(start, ts, i);
    let n = with_term(with_terms(start, ts.take(i)), ts[i]);
    let rest = ts.skip(i + 1);
    lemma_terms(n, rest);
    assert forall|j: int| 0 <= j < rest.len() implies !names_path(#[trigger] rest[j]) by {
        assert(rest[j] == ts[i + 1 + j]);
    }
    let path = (ts[i]->Call_1)[0];
    assert((seq!['/'] + path).skip(1) =~= path);
}

/// A rule without a path predicate matches every path.
pub proof fn law_no_path_without_predicate(s: Seq<char>)
    requires
        forall|j: int| 0 <= j < terms_at(s, 0).len() ==> !names_path(#[trigger] terms_at(s, 0)[j]),
    ensures
        parsed(s).path is None,
{
    lemma_terms(parsed_start(s), terms_at(s, 0));
}

// ---- rendering ------------------------------------------------------------------------

/// Arguments between backticks, with commas between them.
pub open spec fn args_text(args: Seq<Seq<char>>) -> Seq<char>
    decreases args.len(),
{
    if args.len() == 0 {
        Seq::empty()
    } else if args.len() == 1 {
        seq!['`'] + args[0] + seq!['`']
    } else {
        seq!['`'] + args[0] + seq!['`'] + seq![',', ' '] + args_text(args.drop_first())
    }
}

/// A predicate with its arguments.
pub open spec fn call_text(name: Seq<char>, args: Seq<Seq<char>>) -> Seq<char> {
    name + seq!['('] + args_text(args) + seq![')']
}

/// Predicates that all have to hold.
pub open spec fn rule_text(calls: Seq<(Seq<char>, Seq<Seq<char>>)>) -> Seq<char>
    decreases calls.len(),
{
    if calls.len() == 0 {
        Seq::empty()
    } else if calls.len() == 1 {
        call_text(calls[0].0, calls[0].1)
    } else {
        call_text(calls[0].0, calls[0].1) + seq![' ', '&', '&', ' '] + rule_text(
            calls.drop_first(),
        )
    }
}

pub open spec fn is_predicate_name(name: Seq<char>) -> bool {
    &&& name.len() > 0
    &&& is_alpha(name[0])
    &&& forall|i: int|
        0 <= i < name.len() ==> is_alpha(#[trigger] name[i]) || is_digit(name[i]) || name[i] == '_'
}

/// Arguments that can stand between backticks.
pub open spec fn are_quotable(args: Seq<Seq<char>>) -> bool {
    forall|i: int| 0 <= i < args.len() ==> !(#[trigger] args[i]).contains('`')
}

pub open spec fn are_calls(calls: Seq<(Seq<char>, Seq<Seq<char>>)>) -> bool {
    forall|i: int|
        0 <= i < calls.len() ==> is_predicate_name((#[trigger] calls[i]).0) && are_quotable(
            calls[i].1,
        )
}

proof fn lemma_args(s: Seq<char>, i: int, k: int, args: Seq<Seq<char>>)
    requires
        0 <= i,
        0 <= k,
        i + k + args_text(args).len() < s.len(),
        forall|j: int| i <= j < i + k ==> member(Class::Comma, #[trigger] s[j]),
        s.subrange(i + k, i + k + args_text(args).len()) == args_text(args),
        s[i + k + args_text(args).len()] == ')',
        are_quotable(args),
    ensures
        args_at(s, i) == args,
        args_end(s, i) == i + k + args_text(args).len(),
    decreases args.len(),
{
    let t = args_text(args);
    let a = i + k;
    if args.len() == 0 {
        lemma_run(s, i, k, Class::Comma);
        assert(args =~= Seq::<Seq<char>>::empty());
    } else {
        let x = args[0];
        let m = x.len() as int;
        assert(s[a] == s.subrange(a, a + t.len())[0]);
        assert(t[0] == '`');
        lemma_run(s, i, k, Class::Comma);
        assert forall|j: int| a + 1 <= j < a + 1 + m implies member(
            Class::Quoted,
            #[trigger] s[j],
        ) by {
            assert(s[j] == s.subrange(a, a + t.len())[j - a]);
            assert(t[j - a] == x[j - a - 1]);
            assert(x.contains(x[j - a - 1]));
        }
        assert(s[a + 1 + m] == s.subrange(a, a + t.len())[1 + m]);
        assert(t[1 + m] == '`');
        lemma_run(s, a + 1, m, Class::Quoted);
        let b = a + 1 + m;
        assert(s.subrange(a + 1, b) =~= x) by {
            assert forall|j: int| 0 <= j < m implies s.subrange(a + 1, b)[j] == x[j] by {
                assert(s[a + 1 + j] == s.subrange(a, a + t.len())[1 + j]);
                assert(t[1 + j] == x[j]);
            }
        }
        let rest = args.drop_first();
        assert forall|j: int| 0 <= j < rest.len() implies !(#[trigger] rest[j]).contains('`') by {
            assert(rest[j] == args[j + 1]);
        }
        assert(are_quotable(rest));
        if args.len() == 1 {
            assert(rest =~= Seq::<Seq<char>>::empty());
            assert(s.subrange(b + 1, b + 1) =~= args_text(rest));
            lemma_args(s, b + 1, 0, rest);
        } else {
            let u = args_text(rest);
            assert(t.len() == m + 4 + u.len());
            assert(s[b + 1] == s.subrange(a, a + t.len())[m + 2]);
            assert(s[b + 2] == s.subrange(a, a + t.len())[m + 3]);
            assert(t[m + 2] == ',' && t[m + 3] == ' ');
            assert(s.subrange(b + 3, b + 3 + u.len()) =~= u) by {
                assert forall|j: int| 0 <= j < u.len() implies s.subrange(b + 3, b + 3 + u.len())[j]
                    == u[j] by {
                    assert(s[b + 3 + j] == s.subrange(a, a + t.len())[m + 4 + j]);
                    assert(t[m + 4 + j] == u[j]);
                }
            }
            lemma_args(s, b + 1, 2, rest);
        }
        assert(args =~= seq![x] + rest);
    }
}

proof fn lemma_calls(
    s: Seq<char>,
    i: int,
    k: int,
    calls: Seq<(Seq<char>, Seq<Seq<char>>)>,
)
    requires
        0 <= i,
        0 <= k,
        calls.len() > 0,
        are_calls(calls),
        i + k + rule_text(calls).len() == s.len(),
        forall|j: int| i <= j < i + k ==> member(Class::Connector, #[trigger] s[j]),
        s.skip(i + k) == rule_text(calls),
    ensures
        terms_at(s, i) == Seq::new(
            calls.len(),
            |j: int| TermView::Call(calls[j].0, calls[j].1),
        ),
    decreases calls.len(),
{
    let t = rule_text(calls);
    let a = i + k;
    let (name, args) = calls[0];
    let n = name.len() as int;
    let first = call_text(name, args);
    let p = args_text(args);
    let rest = calls.drop_first();
    assert(forall|j: int| 0 <= j < t.len() ==> s.skip(a)[j] == #[trigger] s[a + j]);
    assert forall|j: int| 0 <= j < first.len() implies #[trigger] s[a + j] == first[j] by {
        assert(t[j] == first[j]);
        assert(s.skip(a)[j] == t[j]);
    }
    assert(forall|j: int| 0 <= j < n ==> first[j] == name[j]);
    assert(s[a] == name[0]) by {
        assert(s[a + 0] == first[0]);
    }
    lemma_run(s, i, k, Class::Connector);
    assert forall|j: int| a <= j < a + n implies member(Class::Name, #[trigger] s[j]) by {
        assert(s[a + (j - a)] == first[j - a]);
    }
    assert(s[a + n] == '(') by {
        assert(first[n] == '(');
    }
    lemma_run(s, a, n, Class::Name);
    lemma_run(s, a + n, 0, Class::Space);
    assert(s.subrange(a, a + n) =~= name) by {
        assert forall|j: int| 0 <= j < n implies s.subrange(a, a + n)[j] == name[j] by {
            assert(s[a + j] == first[j]);
        }
    }
    let c = a + n + 1;
    assert(s.subrange(c, c + p.len()) =~= p) by {
        assert forall|j: int| 0 <= j < p.len() implies s.subrange(c, c + p.len())[j] == p[j] by {
            assert(s[a + (n + 1 + j)] == first[n + 1 + j]);
        }
    }
    assert(s[c + p.len()] == ')') by {
        assert(s[a + (n + 1 + p.len())] == first[n + 1 + p.len()]);
    }
    lemma_args(s, c, 0, args);
    let e = c + p.len() + 1;
    let all = Seq::new(calls.len(), |j: int| TermView::Call(calls[j].0, calls[j].1));
    let one = TermView::Call(name, args);
    if calls.len() == 1 {
        assert(e == s.len());
        assert(terms_at(s, i) =~= seq![one]);
        assert(all =~= seq![one]);
    } else {
        let u = rule_text(rest);
        assert(t.len() == first.len() + 4 + u.len());
        assert forall|j: int| e <= j < e + 4 implies member(Class::Connector, #[trigger] s[j]) by {
            assert(s.skip(a)[j - a] == s[a + (j - a)]);
            assert(t[j - a] == seq![' ', '&', '&', ' '][j - e]);
        }
        assert(s.skip(e + 4) =~= u) by {
            assert forall|j: int| 0 <= j < u.len() implies s.skip(e + 4)[j] == u[j] by {
                assert(s.skip(a)[first.len() + 4 + j] == s[a + (first.len() + 4 + j)]);
                assert(t[first.len() + 4 + j] == u[j]);
            }
        }
        assert forall|j: int| 0 <= j < rest.len() implies is_predicate_name(
            (#[trigger] rest[j]).0,
        ) && are_quotable(rest[j].1) by {
            assert(rest[j] == calls[j + 1]);
        }
        lemma_calls(s, e, 4, rest);
        let more = Seq::new(rest.len(), |j: int| TermView::Call(rest[j].0, rest[j].1));
        assert(all =~= seq![one] + more);
    }
}

/// A rendered rule reads back: its terms are the predicates with their arguments, all of
/// them, in order, whatever the arguments hold between their backticks.
pub proof fn law_rendered_rules_read_back(calls: Seq<(Seq<char>, Seq<Seq<char>>)>)
    requires
        calls.len() > 0,
        are_calls(calls),
    ensures
        terms_at(rule_text(calls), 0).len() == calls.len(),
        forall|i: int|
            0 <= i < calls.len() ==> #[trigger] terms_at(rule_text(calls), 0)[i]
                == TermView::Call(calls[i].0, calls[i].1),
{
    let s = rule_text(calls);
    assert(s.skip(0) =~= s);
    lemma_calls(s, 0, 0, calls);
}

/// How arguments are read: white space and commas between them are passed over, a closing
/// parenthesis or the end of the text ends them, backticks hold one as it stands, and one
/// without backticks reaches to the next comma or closing parenthesis and counts without
/// the white space around it.
pub proof fn law_arguments_are_read(s: Seq<char>, i: int, n: int)
    requires
        0 <= i < s.len(),
        0 < n,
        i + n < s.len(),
    ensures
        is_space(s[i]) || s[i] == ',' ==> args_at(s, i) == args_at(s, i + 1) && args_end(s, i)
            == args_end(s, i + 1),
        s[i] == ')' ==> args_at(s, i).len() == 0 && args_end(s, i) == i,
        args_at(s, s.len() as int).len() == 0 && args_end(s, s.len() as int) == s.len(),
        s[i] == '`' && s[i + n] == '`' && (forall|j: int| i < j < i + n ==> #[trigger] s[j] != '`')
            ==> args_at(s, i) == seq![s.subrange(i + 1, i + n)] + args_at(s, i + n + 1) && args_end(
            s,
            i,
        ) == args_end(s, i + n + 1),
        s[i] != '`' && !is_space(s[i]) && (s[i + n] == ',' || s[i + n] == ')') && (forall|j: int|
            i <= j < i + n ==> #[trigger] s[j] != ',' && s[j] != ')') ==> args_at(s, i) == seq![
            trim(s.subrange(i, i + n)),
        ] + args_at(s, i + n) && args_end(s, i) == args_end(s, i + n),
{
    if !is_space(s[i]) && s[i] != ',' {
        lemma_run(s, i, 0, Class::Comma);
        if s[i] == '`' && s[i + n] == '`' && (forall|j: int|
            i < j < i + n ==> #[trigger] s[j] != '`') {
            lemma_run(s, i + 1, n - 1, Class::Quoted);
        }
        if s[i] != '`' && (s[i + n] == ',' || s[i + n] == ')') && (forall|j: int|
            i <= j < i + n ==> #[trigger] s[j] != ',' && s[j] != ')') {
            lemma_run(s, i + 1, n - 1, Class::Bare);
        }
    }
}

/// A predicate whose one argument has no backticks reads as that argument, without the
/// white space around it.
pub proof fn law_bare_arguments_are_read(name: Seq<char>, arg: Seq<char>)
    requires
        is_predicate_name(name),
        arg.len() > 0,
        !is_space(arg[0]),
        arg[0] != '`',
        forall|j: int| 0 <= j < arg.len() ==> #[trigger] arg[j] != ',' && arg[j] != ')',
    ensures
        terms_at(name + seq!['('] + arg + seq![')'], 0) == seq![
            TermView::Call(name, seq![trim(arg)]),
        ],
{
    let s = name + seq!['('] + arg + seq![')'];
    let n = name.len() as int;
    let c = n + 1;
    let d = c + arg.len();
    lemma_run(s, 0, 0, Class::Connector);
    assert forall|j: int| 0 <= j < n implies member(Class::Name, #[trigger] s[j]) by {
        assert(s[j] == name[j]);
    }
    assert(s[0] == name[0]);
    assert(s[n] == '(' && s[d] == ')');
    lemma_run(s, 0, n, Class::Name);
    lemma_run(s, n, 0, Class::Space);
    assert(s.subrange(0, n) =~= name);
    assert(s.subrange(c, d) =~= arg);
    assert(s[c] == arg[0]);
    assert forall|j: int| c <= j < c + arg.len() implies #[trigger] s[j] != ',' && s[j] != ')' by {
        assert(s[j] == arg[j - c]);
    }
    law_arguments_are_read(s, c, arg.len() as int);
    lemma_run(s, d, 0, Class::Comma);
    assert(args_at(s, d).len() == 0);
    assert(args_at(s, c) =~= seq![trim(arg)]);
    assert(args_end(s, c) == d);
    assert(terms_at(s, 0) =~= seq![TermView::Call(name, seq![trim(arg)])]);
}

/// White space and the characters of connectives stand between predicates.
pub open spec fn is_between(c: char) -> bool {
    is_space(c) || c == '&' || c == '|'
}

/// What stands where a predicate is expected: connectives are passed over, and a character
/// that is no letter ends the reading, as a token that cannot be parsed.
pub proof fn law_tokens_are_read(s: Seq<char>, i: int)
    requires
        0 <= i < s.len(),
    ensures
        is_between(s[i]) ==> terms_at(s, i) == terms_at(s, i + 1),
        !is_between(s[i]) && !('a' <= s[i] && s[i] <= 'z') && !('A' <= s[i] && s[i] <= 'Z')
            ==> terms_at(s, i) == seq![TermView::Unparseable(i, seq![s[i]])],
        terms_at(s, s.len() as int).len() == 0,
{
    if is_between(s[i]) {
        let a = i + run(s, i, Class::Connector);
        assert(a == i + 1 + run(s, i + 1, Class::Connector));
        let c = a + run(s, a, Class::Name) + run(s, a + run(s, a, Class::Name), Class::Space);
        lemma_args_end(s, c + 1);
    } else {
        lemma_run(s, i, 0, Class::Connector);
        assert(s.subrange(i, i + 1) =~= seq![s[i]]);
    }
    lemma_run(s, s.len() as int, 0, Class::Connector);
}

/// Arguments end where they start, or behind.
proof fn lemma_args_end(s: Seq<char>, i: int)
    ensures
        args_end(s, i) >= i,
    decreases s.len() - i,
{
    let a = i + run(s, i, Class::Comma);
    if !(a >= s.len() || s[a] == ')') {
        if s[a] == '`' {
            let b = a + 1 + run(s, a + 1, Class::Quoted);
            if b < s.len() {
                lemma_args_end(s, b + 1);
            }
        } else {
            let b = a + 1 + run(s, a + 1, Class::Bare);
            if b < s.len() {
                lemma_args_end(s, b);
            }
        }
    }
}

proof fn lemma_lead(s: Seq<char>, i: int, n: int)
    requires
        0 <= i <= n < s.len(),
        forall|j: int| i <= j < n ==> is_between(#[trigger] s[j]),
    ensures
        terms_at(s, i) == terms_at(s, n),
    decreases n - i,
{
    if i < n {
        law_tokens_are_read(s, i);
        lemma_lead(s, i + 1, n);
    }
}

/// A rule that starts, behind connectives, with a character that is no letter is reported
/// with the place and the character, and is not usable.
pub proof fn law_stray_characters_are_reported(lead: Seq<char>, c: char, rest: Seq<char>)
    requires
        forall|j: int| 0 <= j < lead.len() ==> is_between(#[trigger] lead[j]),
        !is_between(c),
        !('a' <= c && c <= 'z'),
        !('A' <= c && c <= 'Z'),
    ensures
        parsed(lead + seq![c] + rest).unsupported_predicates == seq![
            "unparseable token at offset "@ + dec(lead.len()) + ": "@ + char_debug(c),
        ],
        !usable(parsed(lead + seq![c] + rest)),
{
    let s = lead + seq![c] + rest;
    let n = lead.len() as int;
    assert(s[n] == c);
    assert forall|j: int| 0 <= j < n implies is_between(#[trigger] s[j]) by {
        assert(s[j] == lead[j]);
    }
    lemma_lead(s, 0, n);
    law_tokens_are_read(s, n);
    law_numbers_read_back(lead.len(), 0);
    let t = TermView::Unparseable(n, seq![c]);
    let one = seq![t];
    assert(one.drop_first() =~= Seq::<TermView>::empty());
    assert(with_terms(parsed_start(s), one) == with_terms(
        with_term(parsed_start(s), t),
        Seq::empty(),
    ));
    assert(parsed(s) == with_term(parsed_start(s), t));
    assert(parsed(s).unsupported_predicates =~= seq![
        "unparseable token at offset "@ + dec(lead.len()) + ": "@ + char_debug(c),
    ]);
}

/// A predicate without arguments is reported by its name, and the rule is not usable.
pub proof fn law_predicates_need_arguments(name: Seq<char>)
    requires
        is_predicate_name(name),
    ensures
        parsed(name).unsupported_predicates == seq!["predicate "@ + name + " missing arguments"@],
        !usable(parsed(name)),
{
    let n = name.len() as int;
    lemma_run(name, 0, 0, Class::Connector);
    lemma_run(name, 0, n, Class::Name);
    lemma_run(name, n, 0, Class::Space);
    assert(name.subrange(0, n) =~= name);
    let t = TermView::NoArguments(name);
    let one = seq![t];
    assert(terms_at(name, 0) =~= one);
    assert(one.drop_first() =~= Seq::<TermView>::empty());
    assert(with_terms(parsed_start(name), one) == with_terms(
        with_term(parsed_start(name), t),
        Seq::empty(),
    ));
    assert(parsed(name) == with_term(parsed_start(name), t));
    assert(parsed(name).unsupported_predicates =~= seq![
        "predicate "@ + name + " missing arguments"@,
    ]);
}

// ---- operators ------------------------------------------------------------------------

/// No `|` and no `!` stands outside backticks, and the backticks are balanced.
spec fn calm(t: Seq<char>) -> bool {
    &&& backticks(t) % 2 == 0
    &&& forall|i: int|
        0 <= i < t.len() && ((#[trigger] t[i]) == '|' || t[i] == '!') ==> backticks(t.take(i)) % 2
            == 1
}

proof fn lemma_calm_add(a: Seq<char>, b: Seq<char>)
    requires
        calm(a),
        calm(b),
    ensures
        calm(a + b),
{
    let t = a + b;
    lemma_backticks_add(a, b);
    assert forall|i: int| 0 <= i < t.len() && ((#[trigger] t[i]) == '|' || t[i] == '!') implies backticks(
        t.take(i),
    ) % 2 == 1 by {
        if i < a.len() {
            assert(t.take(i) =~= a.take(i));
            assert(a[i] == t[i]);
        } else {
            assert(t.take(i) =~= a + b.take(i - a.len()));
            lemma_backticks_add(a, b.take(i - a.len()));
            assert(b[i - a.len()] == t[i]);
        }
    }
}

proof fn lemma_calm_plain(t: Seq<char>)
    requires
        !t.contains('`'),
        !t.contains('|'),
        !t.contains('!'),
    ensures
        calm(t),
{
    lemma_no_backticks(t);
    assert forall|i: int| 0 <= i < t.len() implies (#[trigger] t[i]) != '|' && t[i] != '!' by {
        assert(t.contains(t[i]));
    }
}

proof fn lemma_tick()
    ensures
        backticks(seq!['`']) == 1,
{
    assert(seq!['`'].drop_last() =~= Seq::<char>::empty());
    reveal_with_fuel(backticks, 2);
}

proof fn lemma_calm_quoted(x: Seq<char>)
    requires
        !x.contains('`'),
    ensures
        calm(seq!['`'] + x + seq!['`']),
{
    let t = seq!['`'] + x + seq!['`'];
    lemma_tick();
    lemma_no_backticks(x);
    lemma_backticks_add(seq!['`'], x);
    lemma_backticks_add(seq!['`'] + x, seq!['`']);
    assert forall|i: int| 0 <= i < t.len() && ((#[trigger] t[i]) == '|' || t[i] == '!') implies backticks(
        t.take(i),
    ) % 2 == 1 by {
        let q = x.take(i - 1);
        assert(t.take(i) =~= seq!['`'] + q);
        assert forall|j: int| 0 <= j < q.len() implies q[j] != '`' by {
            assert(x.contains(x[j]));
        }
        lemma_no_backticks(q);
        lemma_backticks_add(seq!['`'], q);
    }
}

proof fn lemma_calm_args(args: Seq<Seq<char>>)
    requires
        are_quotable(args),
    ensures
        calm(args_text(args)),
    decreases args.len(),
{
    if args.len() == 0 {
        lemma_calm_plain(Seq::empty());
    } else {
        lemma_calm_quoted(args[0]);
        if args.len() > 1 {
            let rest = args.drop_first();
            assert forall|j: int| 0 <= j < rest.len() implies !(#[trigger] rest[j]).contains('`') by {
                assert(rest[j] == args[j + 1]);
            }
            lemma_calm_args(rest);
            lemma_calm_plain(seq![',', ' ']);
            lemma_calm_add(seq!['`'] + args[0] + seq!['`'], seq![',', ' ']);
            lemma_calm_add(seq!['`'] + args[0] + seq!['`'] + seq![',', ' '], args_text(rest));
        }
    }
}

proof fn lemma_calm_rule(calls: Seq<(Seq<char>, Seq<Seq<char>>)>)
    requires
        are_calls(calls),
    ensures
        calm(rule_text(calls)),
    decreases calls.len(),
{
    if calls.len() == 0 {
        lemma_calm_plain(Seq::empty());
    } else {
        let (name, args) = calls[0];
        assert(is_predicate_name(name));
        assert forall|j: int| 0 <= j < name.len() implies name[j] != '`' && name[j] != '|'
            && name[j] != '!' by {
            assert(is_alpha(name[j]) || is_digit(name[j]) || name[j] == '_');
        }
        lemma_calm_plain(name);
        lemma_calm_plain(seq!['(']);
        lemma_calm_plain(seq![')']);
        lemma_calm_args(args);
        lemma_calm_add(name, seq!['(']);
        lemma_calm_add(name + seq!['('], args_text(args));
        lemma_calm_add(name + seq!['('] + args_text(args), seq![')']);
        if calls.len() > 1 {
            let rest = calls.drop_first();
            assert forall|j: int| 0 <= j < rest.len() implies is_predicate_name(
                (#[trigger] rest[j]).0,
            ) && are_quotable(rest[j].1) by {
                assert(rest[j] == calls[j + 1]);
            }
            lemma_calm_rule(rest);
            lemma_calm_plain(seq![' ', '&', '&', ' ']);
            lemma_calm_add(call_text(name, args), seq![' ', '&', '&', ' ']);
            lemma_calm_add(call_text(name, args) + seq![' ', '&', '&', ' '], rule_text(rest));
        }
    }
}

/// What stands between backticks is text: a rule of predicates that all have to hold has
/// neither a disjunction nor a negation.
pub proof fn law_quoted_operators_are_text(calls: Seq<(Seq<char>, Seq<Seq<char>>)>)
    requires
        are_calls(calls),
    ensures
        !parsed(rule_text(calls)).has_disjunction,
        !parsed(rule_text(calls)).has_negation,
{
    let s = rule_text(calls);
    lemma_calm_rule(calls);
    lemma_terms(parsed_start(s), terms_at(s, 0));
    assert forall|i: int| 0 <= i < s.len() && (s[i] == '|' || s[i] == '!') implies !#[trigger] unquoted(
        s,
        i,
    ) by {
        assert(s[i] == '|' || s[i] == '!');
    }
}

/// A disjunction between two rules is found, and makes the whole unusable.
pub proof fn law_disjunctions_are_found(
    left: Seq<(Seq<char>, Seq<Seq<char>>)>,
    right: Seq<char>,
)
    requires
        are_calls(left),
    ensures
        parsed(rule_text(left) + seq!['|', '|'] + right).has_disjunction,
        parsed(rule_text(left) + seq![' ', '|', '|', ' '] + right).has_disjunction,
        !usable(parsed(rule_text(left) + seq!['|', '|'] + right)),
        !usable(parsed(rule_text(left) + seq![' ', '|', '|', ' '] + right)),
{
    let a = rule_text(left);
    lemma_calm_rule(left);
    let n = a.len() as int;
    let s = a + seq!['|', '|'] + right;
    assert(s.take(n) =~= a);
    assert(unquoted(s, n) && s[n] == '|' && s[n + 1] == '|');
    lemma_terms(parsed_start(s), terms_at(s, 0));
    let t = a + seq![' ', '|', '|', ' '] + right;
    assert(t.take(n + 1) =~= a + seq![' ']);
    lemma_calm_plain(seq![' ']);
    lemma_backticks_add(a, seq![' ']);
    assert(unquoted(t, n + 1) && t[n + 1] == '|' && t[n + 2] == '|');
    lemma_terms(parsed_start(t), terms_at(t, 0));
}

/// A negation behind a rule is found, and makes the whole unusable.
pub proof fn law_negations_are_found(left: Seq<(Seq<char>, Seq<Seq<char>>)>, right: Seq<char>)
    requires
        are_calls(left),
    ensures
        parsed(rule_text(left) + seq!['!'] + right).has_negation,
        parsed(rule_text(left) + seq![' ', '&', '&', ' ', '!'] + right).has_negation,
        !usable(parsed(rule_text(left) + seq!['!'] + right)),
        !usable(parsed(rule_text(left) + seq![' ', '&', '&', ' ', '!'] + right)),
{
    let a = rule_text(left);
    lemma_calm_rule(left);
    let n = a.len() as int;
    let s = a + seq!['!'] + right;
    assert(s.take(n) =~= a);
    assert(unquoted(s, n) && s[n] == '!');
    lemma_terms(parsed_start(s), terms_at(s, 0));
    let t = a + seq![' ', '&', '&', ' ', '!'] + right;
    assert(t.take(n + 4) =~= a + seq![' ', '&', '&', ' ']);
    lemma_calm_plain(seq![' ', '&', '&', ' ']);
    lemma_backticks_add(a, seq![' ', '&', '&', ' ']);
    assert(unquoted(t, n + 4) && t[n + 4] == '!');
    lemma_terms(parsed_start(t), terms_at(t, 0));
}

/// Without two bars in a row there is no disjunction, and without a mark no negation.
pub proof fn law_single_bars_are_no_disjunction(s: Seq<char>)
    ensures
        (forall|i: int| 0 <= i < s.len() - 1 && #[trigger] s[i] == '|' ==> s[i + 1] != '|')
            ==> !parsed(s).has_disjunction,
        !s.contains('!') ==> !parsed(s).has_negation,
{
    lemma_terms(parsed_start(s), terms_at(s, 0));
}

} // verus!
