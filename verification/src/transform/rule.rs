//! Minimal parser for the Traefik v3 router rule language.
//!
//! Pangolin emits expressions like:
//!
//! ```text
//! Host(`example.com`) && PathPrefix(`/api`)
//! Host(`a.com`, `b.com`)
//! Host(`example.com`) && Path(`/exact`)
//! ```
//!
//! We only need to extract hostnames and a single path matcher per rule. Anything else
//! (Method, Headers, Query, regex hosts, `!`-negation, `||`) is surfaced to the caller
//! so that the router is dropped rather than silently misrouted.

use vstd::prelude::*;
use vstd::string::*;

use crate::text;
use crate::text::{is_alpha, is_digit, is_space, trim};

verus! {

// ---- the rule language ----------------------------------------------------------

/// The characters that one step of the scanner runs over.
#[derive(Clone, Copy)]
pub enum Class {
    /// White space and the connectors `&&` and `||` between predicates.
    Connector,
    /// The rest of a predicate's name.
    Name,
    Space,
    /// White space and commas between arguments.
    Comma,
    /// Up to the closing backtick.
    Quoted,
    /// Up to the next comma or closing parenthesis.
    Bare,
}

pub open spec fn member(class: Class, c: char) -> bool {
    match class {
        Class::Connector => is_space(c) || c == '&' || c == '|',
        Class::Name => is_alpha(c) || is_digit(c) || c == '_',
        Class::Space => is_space(c),
        Class::Comma => is_space(c) || c == ',',
        Class::Quoted => c != '`',
        Class::Bare => c != ',' && c != ')',
    }
}

/// How many characters of the class follow from index `i` on.
pub open spec fn run(s: Seq<char>, i: int, class: Class) -> nat
    decreases s.len() - i,
{
    if 0 <= i < s.len() && member(class, s[i]) {
        1 + run(s, i + 1, class)
    } else {
        0
    }
}

/// The arguments that stand at `i`, after an opening parenthesis.
pub open spec fn args_at(s: Seq<char>, i: int) -> Seq<Seq<char>>
    decreases s.len() - i,
{
    let a = i + run(s, i, Class::Comma);
    if a >= s.len() || s[a] == ')' {
        Seq::empty()
    } else if s[a] == '`' {
        let b = a + 1 + run(s, a + 1, Class::Quoted);
        seq![s.subrange(a + 1, b)] + if b < s.len() {
            args_at(s, b + 1)
        } else {
            Seq::empty()
        }
    } else {
        let b = a + 1 + run(s, a + 1, Class::Bare);
        seq![trim(s.subrange(a, b))] + if b < s.len() {
            args_at(s, b)
        } else {
            Seq::empty()
        }
    }
}

/// Where the arguments that stand at `i` end: at the closing parenthesis, or at
/// the end of the text.
pub open spec fn args_end(s: Seq<char>, i: int) -> int
    decreases s.len() - i,
{
    let a = i + run(s, i, Class::Comma);
    if a >= s.len() || s[a] == ')' {
        a
    } else if s[a] == '`' {
        let b = a + 1 + run(s, a + 1, Class::Quoted);
        if b < s.len() {
            args_end(s, b + 1)
        } else {
            b
        }
    } else {
        let b = a + 1 + run(s, a + 1, Class::Bare);
        if b < s.len() {
            args_end(s, b)
        } else {
            b
        }
    }
}

/// One term of a rule.
#[verifier::ext_equal]
pub enum TermView {
    /// A predicate with its arguments.
    Call(Seq<char>, Seq<Seq<char>>),
    /// A predicate that no `(` follows; nothing is read after it.
    NoArguments(Seq<char>),
    /// An offset and the one character there, which starts no predicate; nothing is
    /// read after it.
    Unparseable(int, Seq<char>),
}

/// The terms of a rule from index `i` on.
pub open spec fn terms_at(s: Seq<char>, i: int) -> Seq<TermView>
    decreases s.len() - i,
{
    let a = i + run(s, i, Class::Connector);
    if a >= s.len() {
        Seq::empty()
    } else if !is_alpha(s[a]) {
        seq![TermView::Unparseable(a, s.subrange(a, a + 1))]
    } else {
        let b = a + run(s, a, Class::Name);
        let name = s.subrange(a, b);
        let c = b + run(s, b, Class::Space);
        if c >= s.len() || s[c] != '(' {
            seq![TermView::NoArguments(name)]
        } else {
            let d = args_end(s, c + 1);
            let e = if d < s.len() {
                d + 1
            } else {
                d
            };
            seq![TermView::Call(name, args_at(s, c + 1))] + if i < e < s.len() {
                terms_at(s, e)
            } else {
                Seq::empty()
            }
        }
    }
}

pub open spec fn backticks(s: Seq<char>) -> nat
    decreases s.len(),
{
    if s.len() == 0 {
        0
    } else {
        backticks(s.drop_last()) + if s.last() == '`' {
            1nat
        } else {
            0nat
        }
    }
}

/// Index `i` lies outside the backtick strings.
pub open spec fn unquoted(s: Seq<char>, i: int) -> bool {
    backticks(s.take(i)) % 2 == 0
}

/// `||` stands outside the backtick strings.
pub open spec fn disjunction_in(s: Seq<char>) -> bool {
    exists|i: int|
        0 <= i < s.len() - 1 && #[trigger] unquoted(s, i) && s[i] == '|' && s[i + 1] == '|'
}

/// `!` stands outside the backtick strings.
pub open spec fn negation_in(s: Seq<char>) -> bool {
    exists|i: int| 0 <= i < s.len() && #[trigger] unquoted(s, i) && s[i] == '!'
}

// ---- parsed rules -----------------------------------------------------------------

#[derive(Debug, Clone, PartialEq, Eq)]
pub struct ParsedRule {
    pub hosts: Vec<String>,
    pub path: Option<PathMatch>,
    pub host_regexp: bool,
    pub unsupported_predicates: Vec<String>,
    pub has_disjunction: bool,
    pub has_negation: bool,
}

#[verifier::ext_equal]
pub struct ParsedRuleView {
    pub hosts: Seq<Seq<char>>,
    pub path: Option<PathMatchView>,
    pub host_regexp: bool,
    pub unsupported_predicates: Seq<Seq<char>>,
    pub has_disjunction: bool,
    pub has_negation: bool,
}

impl DeepView for ParsedRule {
    type V = ParsedRuleView;

    open spec fn deep_view(&self) -> ParsedRuleView {
        ParsedRuleView {
            hosts: self.hosts.deep_view(),
            path: self.path.deep_view(),
            host_regexp: self.host_regexp,
            unsupported_predicates: self.unsupported_predicates.deep_view(),
            has_disjunction: self.has_disjunction,
            has_negation: self.has_negation,
        }
    }
}

#[derive(Debug, Clone, PartialEq, Eq)]
pub struct PathMatch {
    pub kind: PathMatchKind,
    pub value: String,
}

#[verifier::ext_equal]
pub struct PathMatchView {
    pub kind: PathMatchKind,
    pub value: Seq<char>,
}

impl DeepView for PathMatch {
    type V = PathMatchView;

    open spec fn deep_view(&self) -> PathMatchView {
        PathMatchView { kind: self.kind, value: self.value@ }
    }
}

#[derive(Debug, Clone, Copy, PartialEq, Eq, Structural)]
pub enum PathMatchKind {
    Exact,
    Prefix,
    Regex,
}

impl PathMatchKind {
    /// The name of the kind.
    pub fn as_str(self) -> (r: &'static str)
        ensures
            r@ == match self {
                PathMatchKind::Exact => "Exact"@,
                PathMatchKind::Prefix => "PathPrefix"@,
                PathMatchKind::Regex => "Regex"@,
            },
    {
        match self {
            PathMatchKind::Exact => "Exact",
            PathMatchKind::Prefix => "PathPrefix",
            PathMatchKind::Regex => "Regex",
        }
    }
}

pub open spec fn usable(r: ParsedRuleView) -> bool {
    &&& !r.has_disjunction
    &&& !r.has_negation
    &&& !r.host_regexp
    &&& r.unsupported_predicates.len() == 0
    &&& r.hosts.len() > 0
}

impl ParsedRule {
    pub fn is_usable(&self) -> (r: bool)
        ensures
            r == usable(self.deep_view()),
    {
        !self.has_disjunction && !self.has_negation && !self.host_regexp
            && self.unsupported_predicates.len() == 0 && self.hosts.len() > 0
    }
}

/// A path with its leading slash.
pub open spec fn rooted(p: Seq<char>) -> Seq<char> {
    if p.len() > 0 && p[0] == '/' {
        p
    } else {
        seq!['/'] + p
    }
}

pub open spec fn unparseable_text(offset: int, token: Seq<char>) -> Seq<char> {
    "unparseable token at offset "@ + text::int_text(offset) + ": "@ + token
}

pub open spec fn no_arguments_text(name: Seq<char>) -> Seq<char> {
    "predicate "@ + name + " missing arguments"@
}

/// What one more term adds to a rule.
pub open spec fn with_term(r: ParsedRuleView, t: TermView) -> ParsedRuleView {
    match t {
        TermView::Unparseable(offset, token) => ParsedRuleView {
            unsupported_predicates: r.unsupported_predicates.push(
                unparseable_text(offset, text::char_debug(token[0])),
            ),
            ..r
        },
        TermView::NoArguments(name) => ParsedRuleView {
            unsupported_predicates: r.unsupported_predicates.push(no_arguments_text(name)),
            ..r
        },
        TermView::Call(name, args) => with_call(r, name, args),
    }
}

pub open spec fn with_call(
    r: ParsedRuleView,
    name: Seq<char>,
    args: Seq<Seq<char>>,
) -> ParsedRuleView {
    if name == "Host"@ {
        ParsedRuleView { hosts: r.hosts + args, ..r }
    } else if name == "HostRegexp"@ {
        ParsedRuleView { host_regexp: true, ..r }
    } else if name == "PathPrefix"@ {
        with_path(r, PathMatchKind::Prefix, args)
    } else if name == "Path"@ {
        with_path(r, PathMatchKind::Exact, args)
    } else if name == "PathRegexp"@ {
        with_path(r, PathMatchKind::Regex, args)
    } else {
        ParsedRuleView { unsupported_predicates: r.unsupported_predicates.push(name), ..r }
    }
}

/// The first argument becomes the path; a path predicate without arguments says nothing.
pub open spec fn with_path(
    r: ParsedRuleView,
    kind: PathMatchKind,
    args: Seq<Seq<char>>,
) -> ParsedRuleView {
    if args.len() == 0 {
        r
    } else {
        let value = if kind == PathMatchKind::Regex {
            args[0]
        } else {
            rooted(args[0])
        };
        ParsedRuleView { path: Some(PathMatchView { kind, value }), ..r }
    }
}

pub open spec fn with_terms(r: ParsedRuleView, ts: Seq<TermView>) -> ParsedRuleView
    decreases ts.len(),
{
    if ts.len() == 0 {
        r
    } else {
        with_terms(with_term(r, ts[0]), ts.drop_first())
    }
}

proof fn lemma_with_terms(r: ParsedRuleView, t: TermView, rest: Seq<TermView>)
    ensures
        with_terms(r, seq![t] + rest) == with_terms(with_term(r, t), rest),
        with_terms(r, seq![t]) == with_term(r, t),
{
    assert((seq![t] + rest).drop_first() =~= rest);
    assert(seq![t].drop_first() =~= Seq::<TermView>::empty());
    reveal_with_fuel(with_terms, 2);
}

/// What a rule text says.
pub open spec fn parsed(s: Seq<char>) -> ParsedRuleView {
    with_terms(parsed_start(s), terms_at(s, 0))
}

/// What is known of a rule before its terms are read.
pub open spec fn parsed_start(s: Seq<char>) -> ParsedRuleView {
    ParsedRuleView {
        hosts: Seq::empty(),
        path: None,
        host_regexp: false,
        unsupported_predicates: Seq::empty(),
        has_disjunction: disjunction_in(s),
        has_negation: negation_in(s),
    }
}

// ---- laws ---------------------------------------------------------------------------

pub proof fn lemma_backticks_add(a: Seq<char>, b: Seq<char>)
    ensures
        backticks(a + b) == backticks(a) + backticks(b),
    decreases b.len(),
{
    if b.len() == 0 {
        assert(a + b =~= a);
    } else {
        lemma_backticks_add(a, b.drop_last());
        assert((a + b).drop_last() =~= a + b.drop_last());
    }
}

pub proof fn lemma_no_backticks(s: Seq<char>)
    requires
        !s.contains('`'),
    ensures
        backticks(s) == 0,
    decreases s.len(),
{
    if s.len() > 0 {
        assert(s.contains(s.last()));
        assert forall|i: int| 0 <= i < s.drop_last().len() implies s.drop_last()[i] != '`' by {
            assert(s.contains(s[i]));
        }
        lemma_no_backticks(s.drop_last());
    }
}

/// A run over members that ends at a non-member or at the end of the text.
pub proof fn lemma_run(s: Seq<char>, i: int, n: int, class: Class)
    requires
        0 <= i,
        0 <= n,
        i + n <= s.len(),
        forall|j: int| i <= j < i + n ==> member(class, #[trigger] s[j]),
        i + n < s.len() ==> !member(class, s[i + n]),
    ensures
        run(s, i, class) == n,
    decreases n,
{
    if n > 0 {
        lemma_run(s, i + 1, n - 1, class);
    }
}

/// A predicate with one backtick argument reads as that call.
proof fn lemma_quoted_call(s: Seq<char>, i: int, a: int, name: Seq<char>, x: Seq<char>)
    requires
        0 <= i <= a,
        forall|j: int| i <= j < a ==> member(Class::Connector, #[trigger] s[j]),
        name.len() > 0,
        forall|j: int| 0 <= j < name.len() ==> is_alpha(#[trigger] name[j]),
        !x.contains('`'),
        a + name.len() + x.len() + 4 <= s.len(),
        s.subrange(a, a + name.len()) == name,
        s[a + name.len()] == '(',
        s[a + name.len() + 1] == '`',
        s.subrange(a + name.len() + 2, a + name.len() + 2 + x.len()) == x,
        s[a + name.len() + 2 + x.len()] == '`',
        s[a + name.len() + 3 + x.len()] == ')',
    ensures
        ({
            let e = a + name.len() + x.len() + 4;
            terms_at(s, i) == seq![TermView::Call(name, seq![x])] + if e < s.len() {
                terms_at(s, e)
            } else {
                Seq::empty()
            }
        }),
{
    let n = name.len() as int;
    let k = a + n + 2;
    let m = x.len() as int;
    assert(s[a] == name[0]);
    lemma_run(s, i, a - i, Class::Connector);
    assert forall|j: int| a <= j < a + n implies member(Class::Name, #[trigger] s[j]) by {
        assert(s[j] == name[j - a]);
    }
    lemma_run(s, a, n, Class::Name);
    lemma_run(s, a + n, 0, Class::Space);
    lemma_run(s, a + n + 1, 0, Class::Comma);
    assert forall|j: int| k <= j < k + m implies member(Class::Quoted, #[trigger] s[j]) by {
        assert(s[j] == x[j - k]);
        assert(x.contains(x[j - k]));
    }
    lemma_run(s, k, m, Class::Quoted);
    lemma_run(s, k + m + 1, 0, Class::Comma);
    assert(args_at(s, k + m + 1) =~= Seq::<Seq<char>>::empty());
    assert(args_end(s, k + m + 1) == k + m + 1);
    assert(args_at(s, a + n + 1) =~= seq![x]);
    assert(args_end(s, a + n + 1) == k + m + 1);
}

proof fn lemma_host_rule_operators(host: Seq<char>)
    requires
        !host.contains('`'),
    ensures
        !disjunction_in("Host(`"@ + host + "`)"@),
        !negation_in("Host(`"@ + host + "`)"@),
{
    reveal_strlit("Host(`");
    reveal_strlit("`)");
    let (a, c) = ("Host(`"@, "`)"@);
    let s = a + host + c;
    assert forall|i: int| 0 <= i < s.len() && (s[i] == '|' || s[i] == '!') implies !#[trigger] unquoted(
        s,
        i,
    ) by {
        let q = host.take(i - 6);
        assert(6 <= i < 6 + host.len());
        assert(s.take(i) =~= a + q);
        assert forall|j: int| 0 <= j < q.len() implies q[j] != '`' by {
            assert(host.contains(host[j]));
        }
        lemma_no_backticks(q);
        lemma_backticks_add(a, q);
        lemma_opening(a, 5);
    }
}

/// The rule of a plain host: it reads as that host alone, whatever the host's text.
#[verifier::rlimit(30)]
pub proof fn law_host_rule(host: Seq<char>)
    requires
        !host.contains('`'),
    ensures
        parsed("Host(`"@ + host + "`)"@) == (ParsedRuleView {
            hosts: seq![host],
            path: None,
            host_regexp: false,
            unsupported_predicates: Seq::empty(),
            has_disjunction: false,
            has_negation: false,
        }),
        usable(parsed("Host(`"@ + host + "`)"@)),
{
    reveal_strlit("Host(`");
    reveal_strlit("`)");
    reveal_strlit("Host");
    let (a, c) = ("Host(`"@, "`)"@);
    let s = a + host + c;
    assert(s.subrange(0, 4) =~= "Host"@);
    assert(s.subrange(6, host.len() + 6int) =~= host);
    lemma_quoted_call(s, 0, 0, "Host"@, host);
    lemma_host_rule_operators(host);
    let start = parsed_start(s);
    let t = TermView::Call("Host"@, seq![host]);
    assert(terms_at(s, 0) =~= seq![t]);
    lemma_with_terms(start, t, Seq::empty());
    assert(start.hosts + seq![host] =~= seq![host]);
}

/// A text whose only backtick is its last character.
proof fn lemma_opening(a: Seq<char>, n: int)
    requires
        0 <= n == a.len() - 1,
        a.last() == '`',
        forall|j: int| 0 <= j < n ==> a[j] != '`',
    ensures
        backticks(a) == 1,
{
    let t = a.drop_last();
    assert forall|j: int| 0 <= j < t.len() implies t[j] != '`' by {
        assert(a[j] != '`');
    }
    lemma_no_backticks(t);
}

proof fn lemma_prefix_rule_operators(host: Seq<char>, path: Seq<char>)
    requires
        !host.contains('`'),
        !path.contains('`'),
    ensures
        !disjunction_in("Host(`"@ + host + "`) && PathPrefix(`"@ + path + "`)"@),
        !negation_in("Host(`"@ + host + "`) && PathPrefix(`"@ + path + "`)"@),
{
    reveal_strlit("Host(`");
    reveal_strlit("`) && PathPrefix(`");
    reveal_strlit("`)");
    let (a, b, c) = ("Host(`"@, "`) && PathPrefix(`"@, "`)"@);
    let (h, p) = (host.len() as int, path.len() as int);
    let s = a + host + b + path + c;
    assert forall|i: int| 0 <= i < s.len() && (s[i] == '|' || s[i] == '!') implies !#[trigger] unquoted(
        s,
        i,
    ) by {
        lemma_opening(a, 5);
        if i < 6 + h {
            let q = host.take(i - 6);
            assert(s.take(i) =~= a + q);
            assert forall|j: int| 0 <= j < q.len() implies q[j] != '`' by {
                assert(host.contains(host[j]));
            }
            lemma_no_backticks(q);
            lemma_backticks_add(a, q);
        } else {
            let q = path.take(i - 24 - h);
            assert(s.take(i) =~= a + host + b + q);
            assert forall|j: int| 0 <= j < q.len() implies q[j] != '`' by {
                assert(path.contains(path[j]));
            }
            lemma_no_backticks(q);
            lemma_no_backticks(host);
            lemma_backticks_add(a + host + b, q);
            lemma_backticks_add(a + host, b);
            lemma_backticks_add(a, host);
            assert(b =~= seq!['`'] + b.drop_first());
            lemma_opening(seq!['`'], 0);
            lemma_opening(b.drop_first(), 16);
            lemma_backticks_add(seq!['`'], b.drop_first());
        }
    }
}

/// The rule of a host and a path prefix: it reads as that host and that prefix.
#[verifier::rlimit(30)]
pub proof fn law_host_and_prefix_rule(host: Seq<char>, path: Seq<char>)
    requires
        !host.contains('`'),
        !path.contains('`'),
    ensures
        parsed("Host(`"@ + host + "`) && PathPrefix(`"@ + path + "`)"@) == (ParsedRuleView {
            hosts: seq![host],
            path: Some(PathMatchView { kind: PathMatchKind::Prefix, value: rooted(path) }),
            host_regexp: false,
            unsupported_predicates: Seq::empty(),
            has_disjunction: false,
            has_negation: false,
        }),
{
    reveal_strlit("Host(`");
    reveal_strlit("`) && PathPrefix(`");
    reveal_strlit("`)");
    reveal_strlit("Host");
    reveal_strlit("HostRegexp");
    reveal_strlit("PathPrefix");
    let (a, b, c) = ("Host(`"@, "`) && PathPrefix(`"@, "`)"@);
    let (h, p) = (host.len() as int, path.len() as int);
    let s = a + host + b + path + c;
    assert(s.subrange(0, 4) =~= "Host"@);
    assert(s.subrange(6, 6 + h) =~= host);
    lemma_quoted_call(s, 0, 0, "Host"@, host);
    assert(s.subrange(12 + h, 22 + h) =~= "PathPrefix"@);
    assert(s.subrange(24 + h, 24 + h + p) =~= path);
    lemma_quoted_call(s, 8 + h, 12 + h, "PathPrefix"@, path);
    lemma_prefix_rule_operators(host, path);
    let start = parsed_start(s);
    let t = TermView::Call("Host"@, seq![host]);
    let u = TermView::Call("PathPrefix"@, seq![path]);
    assert(terms_at(s, 8 + h) =~= seq![u]);
    assert(terms_at(s, 0) =~= seq![t] + seq![u]);
    lemma_with_terms(start, t, seq![u]);
    lemma_with_terms(with_term(start, t), u, Seq::empty());
    assert(start.hosts + seq![host] =~= seq![host]);
    assert("PathPrefix"@ != "Host"@);
    assert("PathPrefix"@ != "HostRegexp"@) by {
        assert("PathPrefix"@[0] != "HostRegexp"@[0]);
    }
}

/// Rooting a path twice is rooting it once.
pub proof fn law_rooted_idempotent(p: Seq<char>)
    ensures
        rooted(rooted(p)) == rooted(p),
{
}

// ---- parsing ------------------------------------------------------------------------

fn is_member(class: Class, c: char) -> (r: bool)
    ensures
        r == member(class, c),
{
    match class {
        Class::Connector => text::is_space_char(c) || c == '&' || c == '|',
        Class::Name => ('A' <= c && c <= 'Z') || ('a' <= c && c <= 'z') || ('0' <= c && c <= '9')
            || c == '_',
        Class::Space => text::is_space_char(c),
        Class::Comma => text::is_space_char(c) || c == ',',
        Class::Quoted => c != '`',
        Class::Bare => c != ',' && c != ')',
    }
}

/// The index after the characters of the class.
fn skip(chars: &Vec<char>, from: usize, class: Class) -> (r: usize)
    requires
        from <= chars@.len(),
    ensures
        from <= r <= chars@.len(),
        r == from + run(chars@, from as int, class),
{
    let mut i: usize = from;
    while i < chars.len() && is_member(class, chars[i])
        invariant
            from <= i <= chars@.len(),
            from + run(chars@, from as int, class) == i + run(chars@, i as int, class),
        decreases chars@.len() - i,
    {
        i += 1;
    }
    i
}

fn read_args(chars: &Vec<char>, from: usize) -> (r: (Vec<String>, usize))
    requires
        from <= chars@.len(),
    ensures
        r.0.deep_view() == args_at(chars@, from as int),
        r.1 == args_end(chars@, from as int),
        from <= r.1 <= chars@.len(),
{
    let mut args: Vec<String> = Vec::new();
    let mut i: usize = from;
    let ghost s = chars@;
    assert(args.deep_view() + args_at(s, from as int) =~= args_at(s, from as int));
    loop
        invariant
            s == chars@,
            from <= i <= s.len(),
            args.deep_view() + args_at(s, i as int) == args_at(s, from as int),
            args_end(s, i as int) == args_end(s, from as int),
        decreases s.len() - i,
    {
        let a: usize = skip(chars, i, Class::Comma);
        let ghost done = args.deep_view();
        if a >= chars.len() || chars[a] == ')' {
            assert(done + Seq::<Seq<char>>::empty() =~= done);
            return (args, a);
        }
        let (arg, b, next) = if chars[a] == '`' {
            let b: usize = skip(chars, a + 1, Class::Quoted);
            let next: usize = if b < chars.len() {
                b + 1
            } else {
                b
            };
            (text::from_chars(chars, a + 1, b), b, next)
        } else {
            let b: usize = skip(chars, a + 1, Class::Bare);
            (text::trimmed_range(chars, a, b), b, b)
        };
        args.push(arg);
        assert(args.deep_view() =~= done.push(arg@));
        if b >= chars.len() {
            assert(args_at(s, i as int) =~= seq![arg@]);
            assert(args.deep_view() =~= done + seq![arg@]);
            return (args, b);
        }
        assert(args_at(s, i as int) == seq![arg@] + args_at(s, next as int));
        assert(args.deep_view() + args_at(s, next as int) =~= done + (seq![arg@] + args_at(
            s,
            next as int,
        )));
        i = next;
    }
}

/// The text recorded for a character that starts no predicate, given how the
/// character is shown.
pub fn unparseable(offset: usize, token: &str) -> (r: String)
    ensures
        r@ == unparseable_text(offset as int, token@),
{
    let mut out = text::cat3(
        "unparseable token at offset ",
        text::decimal(offset as u64).as_str(),
        ": ",
    );
    out.append(token);
    out
}

fn first_as_path(args: &Vec<String>, kind: PathMatchKind) -> (r: PathMatch)
    requires
        args@.len() > 0,
    ensures
        r.deep_view() == (PathMatchView {
            kind,
            value: if kind == PathMatchKind::Regex {
                args.deep_view()[0]
            } else {
                rooted(args.deep_view()[0])
            },
        }),
{
    let first = args[0].as_str();
    let value = match kind {
        PathMatchKind::Regex => first.to_owned(),
        _ => normalize_path(first),
    };
    PathMatch { kind, value }
}

pub fn normalize_path(p: &str) -> (r: String)
    ensures
        r@ == rooted(p@),
{
    proof {
        reveal_strlit("/");
        assert("/"@ =~= seq!['/']);
        assert(p@.len() > 0 ==> p@.take(1) =~= seq![p@[0]]);
        if p@.len() > 0 && p@[0] != '/' {
            assert(p@.take(1)[0] != seq!['/'][0]);
        }
    }
    if text::has_prefix(p, "/") {
        p.to_owned()
    } else {
        text::cat("/", p)
    }
}

fn handle_predicate(out: &mut ParsedRule, ident: &str, args: Vec<String>)
    ensures
        final(out).deep_view() == with_call(old(out).deep_view(), ident@, args.deep_view()),
{
    let ghost before = out.deep_view();
    if text::same(ident, "Host") {
        let mut args = args;
        let ghost given = args.deep_view();
        out.hosts.append(&mut args);
        assert(out.hosts.deep_view() =~= before.hosts + given);
    } else if text::same(ident, "HostRegexp") {
        out.host_regexp = true;
    } else if text::same(ident, "PathPrefix") {
        if args.len() > 0 {
            out.path = Some(first_as_path(&args, PathMatchKind::Prefix));
        }
    } else if text::same(ident, "Path") {
        if args.len() > 0 {
            out.path = Some(first_as_path(&args, PathMatchKind::Exact));
        }
    } else if text::same(ident, "PathRegexp") {
        if args.len() > 0 {
            out.path = Some(first_as_path(&args, PathMatchKind::Regex));
        }
    } else {
        out.unsupported_predicates.push(ident.to_owned());
        assert(out.unsupported_predicates.deep_view() =~= before.unsupported_predicates.push(
            ident@,
        ));
    }
}

/// Scan for `||` and `!` outside backtick strings.
fn scan_operators(chars: &Vec<char>) -> (r: (bool, bool))
    ensures
        r.0 == disjunction_in(chars@),
        r.1 == negation_in(chars@),
{
    let ghost s = chars@;
    let mut disjunction = false;
    let mut negation = false;
    let mut in_backtick = false;
    let mut i: usize = 0;
    assert(s.take(0) =~= Seq::<char>::empty());
    while i < chars.len()
        invariant
            s == chars@,
            i <= s.len(),
            in_backtick == !unquoted(s, i as int),
            disjunction == exists|j: int|
                0 <= j < s.len() - 1 && j < i && #[trigger] unquoted(s, j) && s[j] == '|' && s[j + 1]
                    == '|',
            negation == exists|j: int|
                0 <= j < s.len() && j < i && #[trigger] unquoted(s, j) && s[j] == '!',
        decreases s.len() - i,
    {
        let c = chars[i];
        assert(s.take(i + 1).drop_last() =~= s.take(i as int));
        assert(unquoted(s, i as int) == !in_backtick);
        if c == '`' {
            in_backtick = !in_backtick;
        } else if !in_backtick {
            if c == '|' && i + 1 < chars.len() && chars[i + 1] == '|' {
                disjunction = true;
            } else if c == '!' {
                negation = true;
            }
        }
        i += 1;
    }
    (disjunction, negation)
}

/// Parse a router rule.
pub fn parse(rule: &str) -> (out: ParsedRule)
    ensures
        out.deep_view() == parsed(rule@),
{
    let chars = text::to_chars(rule);
    let ghost s = chars@;
    let (has_disjunction, has_negation) = scan_operators(&chars);
    let mut out = ParsedRule {
        hosts: Vec::new(),
        path: None,
        host_regexp: false,
        unsupported_predicates: Vec::new(),
        has_disjunction,
        has_negation,
    };
    let mut i: usize = 0;
    assert(out.hosts.deep_view() =~= Seq::<Seq<char>>::empty());
    assert(out.unsupported_predicates.deep_view() =~= Seq::<Seq<char>>::empty());
    loop
        invariant
            s == chars@,
            i <= s.len(),
            with_terms(out.deep_view(), terms_at(s, i as int)) == parsed(rule@),
        decreases s.len() - i,
    {
        let ghost before = out.deep_view();
        let a: usize = skip(&chars, i, Class::Connector);
        if a >= chars.len() {
            return out;
        }
        let first = chars[a];
        if !(('A' <= first && first <= 'Z') || ('a' <= first && first <= 'z')) {
            let shown = text::debug_char(first);
            out.unsupported_predicates.push(unparseable(a, shown.as_str()));
            proof {
                let t = TermView::Unparseable(a as int, s.subrange(a as int, a + 1));
                assert(out.deep_view() =~= with_term(before, t));
                lemma_with_terms(before, t, Seq::empty());
            }
            return out;
        }
        let b: usize = skip(&chars, a, Class::Name);
        let ident = text::from_chars(&chars, a, b);
        let c: usize = skip(&chars, b, Class::Space);
        if c >= chars.len() || chars[c] != '(' {
            out.unsupported_predicates.push(
                text::cat3("predicate ", ident.as_str(), " missing arguments"),
            );
            proof {
                let t = TermView::NoArguments(ident@);
                assert(out.deep_view() =~= with_term(before, t));
                lemma_with_terms(before, t, Seq::empty());
            }
            return out;
        }
        let (args, d) = read_args(&chars, c + 1);
        let ghost given = args.deep_view();
        handle_predicate(&mut out, ident.as_str(), args);
        let next: usize = if d < chars.len() {
            d + 1
        } else {
            d
        };
        proof {
            let t = TermView::Call(ident@, given);
            let rest = if i < next < s.len() {
                terms_at(s, next as int)
            } else {
                Seq::<TermView>::empty()
            };
            assert(terms_at(s, i as int) =~= seq![t] + rest);
            lemma_with_terms(before, t, rest);
            if next >= s.len() {
                assert(terms_at(s, next as int) =~= rest);
            }
        }
        i = next;
    }
}

} // verus!
