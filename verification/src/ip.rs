//! IP addresses and their text forms: dotted decimal for IPv4, RFC 4291 text for
//! IPv6, printed in the canonical style of RFC 5952.

use vstd::prelude::*;
use vstd::string::*;

use crate::text;
use crate::text::{all_digits, dec, find_text, is_digit, split, value};
use crate::transform::naming::hex_text;
use crate::transform::naming::hexadecimal;

verus! {

#[derive(Debug, Clone, Copy, PartialEq, Eq)]
pub enum IpAddr {
    V4([u8; 4]),
    V6([u16; 8]),
}

#[verifier::ext_equal]
pub enum IpAddrView {
    V4(Seq<u8>),
    V6(Seq<u16>),
}

impl DeepView for IpAddr {
    type V = IpAddrView;

    open spec fn deep_view(&self) -> IpAddrView {
        match self {
            IpAddr::V4(octets) => IpAddrView::V4(octets@),
            IpAddr::V6(segments) => IpAddrView::V6(segments@),
        }
    }
}

// ---- text forms ---------------------------------------------------------------

/// A decimal number from 0 to 255 without superfluous zeros.
pub open spec fn octet_of(s: Seq<char>) -> Option<u8> {
    if 1 <= s.len() <= 3 && all_digits(s) && (s.len() > 1 ==> s[0] != '0') && value(s) <= 255 {
        Some(value(s) as u8)
    } else {
        None
    }
}

/// Four octets between dots.
pub open spec fn v4_of(s: Seq<char>) -> Option<Seq<u8>> {
    let p = split(s, '.');
    if p.len() == 4 && octet_of(p[0]) is Some && octet_of(p[1]) is Some && octet_of(p[2]) is Some
        && octet_of(p[3]) is Some {
        Some(seq![octet_of(p[0])->0, octet_of(p[1])->0, octet_of(p[2])->0, octet_of(p[3])->0])
    } else {
        None
    }
}

pub open spec fn is_hex(c: char) -> bool {
    is_digit(c) || ('a' <= c && c <= 'f') || ('A' <= c && c <= 'F')
}

pub open spec fn hex_digit_value(c: char) -> int {
    if is_digit(c) {
        c as int - 48
    } else if 'a' <= c && c <= 'f' {
        c as int - 87
    } else {
        c as int - 55
    }
}

pub open spec fn hex_value(s: Seq<char>) -> int
    decreases s.len(),
{
    if s.len() == 0 {
        0
    } else {
        hex_value(s.drop_last()) * 16 + hex_digit_value(s.last())
    }
}

/// One to four hexadecimal digits.
pub open spec fn group_of(s: Seq<char>) -> Option<u16> {
    if 1 <= s.len() <= 4 && forall|i: int| 0 <= i < s.len() ==> is_hex(#[trigger] s[i]) {
        Some(hex_value(s) as u16)
    } else {
        None
    }
}

pub open spec fn pair(hi: u8, lo: u8) -> u16 {
    (hi as int * 256 + lo as int) as u16
}

/// The groups that colon-separated parts stand for; where `v4` is set, the last part
/// may be an IPv4 address, which makes two groups.
pub open spec fn groups_of(parts: Seq<Seq<char>>, v4: bool) -> Option<Seq<u16>>
    decreases parts.len(),
{
    if parts.len() == 0 {
        Some(Seq::empty())
    } else if v4 && parts.len() == 1 && v4_of(parts[0]) is Some {
        let o = v4_of(parts[0])->0;
        Some(seq![pair(o[0], o[1]), pair(o[2], o[3])])
    } else {
        match (group_of(parts[0]), groups_of(parts.drop_first(), v4)) {
            (Some(g), Some(rest)) => Some(seq![g] + rest),
            _ => None,
        }
    }
}

/// The groups of one side of `::`, which may be empty.
pub open spec fn side_of(s: Seq<char>, v4: bool) -> Option<Seq<u16>> {
    if s.len() == 0 {
        Some(Seq::empty())
    } else {
        groups_of(split(s, ':'), v4)
    }
}

pub open spec fn zeros(n: int) -> Seq<u16> {
    Seq::new(n as nat, |i: int| 0u16)
}

/// Eight groups, of which `::` may stand for one or more zero groups.
pub open spec fn v6_of(s: Seq<char>) -> Option<Seq<u16>> {
    let i = find_text(s, "::"@) as int;
    if i < s.len() {
        match (side_of(s.take(i), false), side_of(s.skip(i + 2), true)) {
            (Some(a), Some(b)) => if a.len() + b.len() <= 7 {
                Some(a + zeros(8 - a.len() - b.len()) + b)
            } else {
                None
            },
            _ => None,
        }
    } else {
        match groups_of(split(s, ':'), true) {
            Some(g) => if g.len() == 8 {
                Some(g)
            } else {
                None
            },
            None => None,
        }
    }
}

/// The address a text stands for.
pub open spec fn ip_of(s: Seq<char>) -> Option<IpAddrView> {
    match v4_of(s) {
        Some(o) => Some(IpAddrView::V4(o)),
        None => match v6_of(s) {
            Some(g) => Some(IpAddrView::V6(g)),
            None => None,
        },
    }
}

pub open spec fn v4_text(o: Seq<u8>) -> Seq<char> {
    dec(o[0] as nat) + "."@ + dec(o[1] as nat) + "."@ + dec(o[2] as nat) + "."@ + dec(o[3] as nat)
}

/// Groups in hexadecimal, between colons.
pub open spec fn groups_text(g: Seq<u16>) -> Seq<char>
    decreases g.len(),
{
    if g.len() == 0 {
        Seq::empty()
    } else if g.len() == 1 {
        hex_text(g[0] as nat)
    } else {
        hex_text(g[0] as nat) + ":"@ + groups_text(g.drop_first())
    }
}

/// How many zero groups follow from index `i` on.
pub open spec fn zero_run(g: Seq<u16>, i: int) -> nat
    decreases g.len() - i,
{
    if 0 <= i < g.len() && g[i] == 0 {
        1 + zero_run(g, i + 1)
    } else {
        0
    }
}

/// The start of the first longest run of zero groups that starts at `i` or later.
pub open spec fn longest_zeros(g: Seq<u16>, i: int) -> int
    decreases g.len() - i,
{
    if 0 <= i && i + 1 < g.len() {
        let later = longest_zeros(g, i + 1);
        if zero_run(g, later) > zero_run(g, i) {
            later
        } else {
            i
        }
    } else {
        i
    }
}

/// An IPv4 address mapped into IPv6.
pub open spec fn is_mapped(g: Seq<u16>) -> bool {
    g[0] == 0 && g[1] == 0 && g[2] == 0 && g[3] == 0 && g[4] == 0 && g[5] == 0xffff
}

pub open spec fn v6_text(g: Seq<u16>) -> Seq<char> {
    if is_mapped(g) {
        "::ffff:"@ + v4_text(
            seq![(g[6] / 256) as u8, (g[6] % 256) as u8, (g[7] / 256) as u8, (g[7] % 256) as u8],
        )
    } else {
        let at = longest_zeros(g, 0);
        let n = zero_run(g, at) as int;
        if n > 1 {
            groups_text(g.take(at)) + "::"@ + groups_text(g.skip(at + n))
        } else {
            groups_text(g)
        }
    }
}

/// The canonical text of an address.
pub open spec fn ip_text(ip: IpAddrView) -> Seq<char> {
    match ip {
        IpAddrView::V4(o) => v4_text(o),
        IpAddrView::V6(g) => v6_text(g),
    }
}

// ---- parsing --------------------------------------------------------------------

proof fn lemma_value_bound(s: Seq<char>)
    requires
        all_digits(s),
        s.len() <= 3,
    ensures
        value(s) < 1000,
{
    reveal_with_fuel(value, 4);
    if s.len() >= 1 {
        assert(is_digit(s.last()));
        let t = s.drop_last();
        if t.len() >= 1 {
            assert(is_digit(s[s.len() - 2]));
            if t.drop_last().len() >= 1 {
                assert(is_digit(s[s.len() - 3]));
            }
        }
    }
}

fn octet(s: &str) -> (r: Option<u8>)
    ensures
        r == octet_of(s@),
{
    let v = text::to_chars(s);
    if v.len() < 1 || v.len() > 3 {
        return None;
    }
    let mut n: u16 = 0;
    let mut i: usize = 0;
    assert(v@.take(0) =~= Seq::<char>::empty());
    while i < v.len()
        invariant
            v@ == s@,
            i <= v@.len() <= 3,
            forall|j: int| 0 <= j < i ==> is_digit(#[trigger] v@[j]),
            n == value(v@.take(i as int)),
            n < 1000,
        decreases v@.len() - i,
    {
        let c = v[i];
        if c < '0' || '9' < c {
            assert(!is_digit(v@[i as int]));
            return None;
        }
        proof {
            assert(v@.take(i + 1).drop_last() =~= v@.take(i as int));
            lemma_value_bound(v@.take(i + 1));
        }
        n = n * 10 + (c as u8 - 48) as u16;
        i += 1;
    }
    assert(v@.take(i as int) =~= v@);
    if v.len() > 1 && v[0] == '0' {
        return None;
    }
    if n > 255 {
        return None;
    }
    Some(n as u8)
}

pub fn parse_v4(s: &str) -> (r: Option<[u8; 4]>)
    ensures
        match r {
            Some(o) => v4_of(s@) == Some(o@),
            None => v4_of(s@) is None,
        },
{
    let p = text::pieces(s, '.');
    if p.len() != 4 {
        return None;
    }
    assert(forall|i: int| 0 <= i < 4 ==> #[trigger] p.deep_view()[i] == p@[i]@);
    match (octet(p[0].as_str()), octet(p[1].as_str()), octet(p[2].as_str()), octet(p[3].as_str())) {
        (Some(a), Some(b), Some(c), Some(d)) => {
            let r = [a, b, c, d];
            assert(r@ =~= seq![a, b, c, d]);
            Some(r)
        },
        _ => None,
    }
}

proof fn lemma_hex_bound(s: Seq<char>)
    requires
        s.len() <= 4,
        forall|i: int| 0 <= i < s.len() ==> is_hex(#[trigger] s[i]),
    ensures
        0 <= hex_value(s),
        s.len() == 0 ==> hex_value(s) == 0,
        s.len() == 1 ==> hex_value(s) <= 0xf,
        s.len() == 2 ==> hex_value(s) <= 0xff,
        s.len() == 3 ==> hex_value(s) <= 0xfff,
        s.len() == 4 ==> hex_value(s) <= 0xffff,
    decreases s.len(),
{
    if s.len() > 0 {
        lemma_hex_bound(s.drop_last());
        assert(is_hex(s[s.len() - 1]));
    }
}

fn group(s: &str) -> (r: Option<u16>)
    ensures
        r == group_of(s@),
{
    let v = text::to_chars(s);
    if v.len() < 1 || v.len() > 4 {
        return None;
    }
    let mut n: u32 = 0;
    let mut i: usize = 0;
    assert(v@.take(0) =~= Seq::<char>::empty());
    while i < v.len()
        invariant
            v@ == s@,
            i <= v@.len() <= 4,
            forall|j: int| 0 <= j < i ==> is_hex(#[trigger] v@[j]),
            n == hex_value(v@.take(i as int)),
            n <= 0xffff,
        decreases v@.len() - i,
    {
        let c = v[i];
        let d: u32 = if '0' <= c && c <= '9' {
            (c as u8 - 48) as u32
        } else if 'a' <= c && c <= 'f' {
            (c as u8 - 87) as u32
        } else if 'A' <= c && c <= 'F' {
            (c as u8 - 55) as u32
        } else {
            assert(!is_hex(v@[i as int]));
            return None;
        };
        proof {
            assert(v@.take(i + 1).drop_last() =~= v@.take(i as int));
            lemma_hex_bound(v@.take(i + 1));
        }
        n = n * 16 + d;
        i += 1;
    }
    assert(v@.take(i as int) =~= v@);
    Some(n as u16)
}

fn groups(parts: &Vec<String>, from: usize, v4: bool) -> (r: Option<Vec<u16>>)
    requires
        from <= parts@.len(),
    ensures
        match r {
            Some(g) => groups_of(parts.deep_view().skip(from as int), v4) == Some(g@),
            None => groups_of(parts.deep_view().skip(from as int), v4) is None,
        },
    decreases parts@.len() - from,
{
    let ghost rest = parts.deep_view().skip(from as int);
    if from >= parts.len() {
        let g: Vec<u16> = Vec::new();
        return Some(g);
    }
    assert(rest[0] == parts@[from as int]@);
    if v4 && from + 1 == parts.len() {
        if let Some(o) = parse_v4(parts[from].as_str()) {
            let mut g: Vec<u16> = Vec::new();
            let a: u16 = o[0] as u16 * 256 + o[1] as u16;
            let b: u16 = o[2] as u16 * 256 + o[3] as u16;
            g.push(a);
            g.push(b);
            assert(g@ =~= seq![pair(o@[0], o@[1]), pair(o@[2], o@[3])]);
            return Some(g);
        }
    }
    assert(rest.drop_first() =~= parts.deep_view().skip(from + 1));
    match (group(parts[from].as_str()), groups(parts, from + 1, v4)) {
        (Some(h), Some(t)) => {
            let mut t = t;
            let ghost tail = t@;
            t.insert(0, h);
            assert(t@ =~= seq![h] + tail);
            Some(t)
        },
        _ => None,
    }
}

fn side(s: &str, v4: bool) -> (r: Option<Vec<u16>>)
    ensures
        match r {
            Some(g) => side_of(s@, v4) == Some(g@),
            None => side_of(s@, v4) is None,
        },
{
    if s.is_empty() {
        let g: Vec<u16> = Vec::new();
        return Some(g);
    }
    let p = text::pieces(s, ':');
    assert(p.deep_view().skip(0) =~= p.deep_view());
    groups(&p, 0, v4)
}

fn segments(g: &Vec<u16>) -> (r: [u16; 8])
    requires
        g@.len() == 8,
    ensures
        r@ == g@,
{
    let r = [g[0], g[1], g[2], g[3], g[4], g[5], g[6], g[7]];
    assert(r@ =~= g@);
    r
}

pub fn parse_v6(s: &str) -> (r: Option<[u16; 8]>)
    ensures
        match r {
            Some(g) => v6_of(s@) == Some(g@),
            None => v6_of(s@) is None,
        },
{
    proof {
        reveal_strlit("::");
        text::lemma_find_text(s@, "::"@);
    }
    let cut = text::text_split(s, "::");
    match cut {
        Some((left, right)) => {
            match (side(left.as_str(), false), side(right.as_str(), true)) {
                (Some(a), Some(b)) => {
                    if a.len() > 7 || b.len() > 7 || a.len() + b.len() > 7 {
                        return None;
                    }
                    let n: usize = 8 - a.len() - b.len();
                    let mut g: Vec<u16> = a;
                    let ghost head = g@;
                    let mut i: usize = 0;
                    while i < n
                        invariant
                            i <= n,
                            g@ == head + zeros(i as int),
                        decreases n - i,
                    {
                        g.push(0);
                        i += 1;
                        assert(g@ =~= head + zeros(i as int));
                    }
                    let mut b = b;
                    let ghost tail = b@;
                    g.append(&mut b);
                    assert(g@ =~= head + zeros(n as int) + tail);
                    Some(segments(&g))
                },
                _ => None,
            }
        },
        None => {
            let p = text::pieces(s, ':');
            assert(p.deep_view().skip(0) =~= p.deep_view());
            match groups(&p, 0, true) {
                Some(g) => {
                    if g.len() == 8 {
                        Some(segments(&g))
                    } else {
                        None
                    }
                },
                None => None,
            }
        },
    }
}

// ---- printing ---------------------------------------------------------------------

fn v4_string(o: &[u8; 4]) -> (r: String)
    ensures
        r@ == v4_text(o@),
{
    let mut out = text::decimal(o[0] as u64);
    out.append(".");
    out.append(text::decimal(o[1] as u64).as_str());
    out.append(".");
    out.append(text::decimal(o[2] as u64).as_str());
    out.append(".");
    out.append(text::decimal(o[3] as u64).as_str());
    out
}

fn groups_string(g: &[u16; 8], from: usize, to: usize) -> (r: String)
    requires
        from <= to <= 8,
    ensures
        r@ == groups_text(g@.subrange(from as int, to as int)),
    decreases to - from,
{
    let ghost s = g@.subrange(from as int, to as int);
    if from == to {
        String::new()
    } else if from + 1 == to {
        hexadecimal(g[from] as u32)
    } else {
        assert(s.drop_first() =~= g@.subrange(from + 1, to as int));
        let rest = groups_string(g, from + 1, to);
        text::cat3(hexadecimal(g[from] as u32).as_str(), ":", rest.as_str())
    }
}

fn zeros_from(g: &[u16; 8], from: usize) -> (r: usize)
    requires
        from <= 8,
    ensures
        r == zero_run(g@, from as int),
        from + r <= 8,
    decreases 8 - from,
{
    if from < 8 && g[from] == 0 {
        1 + zeros_from(g, from + 1)
    } else {
        0
    }
}

fn longest_from(g: &[u16; 8], from: usize) -> (r: usize)
    requires
        from < 8,
    ensures
        r == longest_zeros(g@, from as int),
        from <= r < 8,
    decreases 8 - from,
{
    if from + 1 < 8 {
        let later: usize = longest_from(g, from + 1);
        if zeros_from(g, later) > zeros_from(g, from) {
            later
        } else {
            from
        }
    } else {
        from
    }
}

fn v6_string(g: &[u16; 8]) -> (r: String)
    ensures
        r@ == v6_text(g@),
{
    if g[0] == 0 && g[1] == 0 && g[2] == 0 && g[3] == 0 && g[4] == 0 && g[5] == 0xffff {
        let o = [(g[6] / 256) as u8, (g[6] % 256) as u8, (g[7] / 256) as u8, (g[7] % 256) as u8];
        assert(o@ =~= seq![
            (g@[6] / 256) as u8,
            (g@[6] % 256) as u8,
            (g@[7] / 256) as u8,
            (g@[7] % 256) as u8,
        ]);
        return text::cat("::ffff:", v4_string(&o).as_str());
    }
    let at: usize = longest_from(g, 0);
    let n: usize = zeros_from(g, at);
    if n > 1 {
        assert(g@.take(at as int) =~= g@.subrange(0, at as int));
        assert(g@.skip(at + n) =~= g@.subrange(at + n, 8));
        let head = groups_string(g, 0, at);
        let tail = groups_string(g, at + n, 8);
        text::cat3(head.as_str(), "::", tail.as_str())
    } else {
        assert(g@ =~= g@.subrange(0, 8));
        groups_string(g, 0, 8)
    }
}

impl IpAddr {
    /// The address that a text stands for, if it stands for one.
    pub fn parse(s: &str) -> (r: Option<IpAddr>)
        ensures
            r.deep_view() == ip_of(s@),
    {
        match parse_v4(s) {
            Some(o) => Some(IpAddr::V4(o)),
            None => match parse_v6(s) {
                Some(g) => Some(IpAddr::V6(g)),
                None => None,
            },
        }
    }

    /// The canonical text of the address.
    pub fn text(&self) -> (r: String)
        ensures
            r@ == ip_text(self.deep_view()),
    {
        match self {
            IpAddr::V4(o) => v4_string(o),
            IpAddr::V6(g) => v6_string(g),
        }
    }
}

} // verus!
