//! How addresses are written and read.

use vstd::prelude::*;

use crate::ip::{
    group_of, groups_of, groups_text, hex_digit_value, hex_value, ip_of, ip_text, is_hex,
    is_mapped, longest_zeros, octet_of, pair, side_of, v4_of, v4_text, v6_of, v6_text, zero_run,
    zeros, IpAddrView,
};
use crate::text::{
    all_digits, dec, digit, find_text, is_digit, lemma_find, split, starts_with,
    value,
};
use crate::text_laws::{
    joined, law_split_undoes_join, lemma_dec, lemma_find_text_is, not_before,
};
use crate::transform::naming::hex_text;

verus! {

// ---- IPv4 -------------------------------------------------------------------------------

/// Digits without superfluous zeros are the text of their value.
proof fn lemma_canonical(s: Seq<char>)
    requires
        s.len() > 0,
        all_digits(s),
        s.len() > 1 ==> s[0] != '0',
    ensures
        dec(value(s)) == s,
        s[0] != '0' ==> value(s) > 0,
    decreases s.len(),
{
    let t = s.drop_last();
    let d = s.last();
    assert(is_digit(s[s.len() - 1]));
    assert(digit(d as int - 48) == d);
    if s.len() == 1 {
        assert(t.len() == 0);
        assert(value(t) == 0);
        assert(value(s) == d as int - 48);
        assert(dec(value(s)) =~= s);
    } else {
        assert forall|i: int| 0 <= i < t.len() implies is_digit(#[trigger] t[i]) by {
            assert(t[i] == s[i]);
        }
        lemma_canonical(t);
        assert(t[0] == s[0]);
        assert(value(s) == 10 * value(t) + (d as int - 48));
        assert(value(s) >= 10);
        assert(value(s) / 10 == value(t) && value(s) % 10 == d as int - 48);
        assert(dec(value(s)) =~= s);
    }
}

proof fn lemma_octet(s: Seq<char>, n: u8)
    ensures
        octet_of(s) == Some(n) <==> s == dec(n as nat),
{
    lemma_dec(n as nat);
    reveal_with_fuel(dec, 4);
    assert(dec(n as nat).len() <= 3);
    if octet_of(s) == Some(n) {
        lemma_canonical(s);
    }
}

proof fn lemma_octet_has_no(n: u8, c: char)
    requires
        !is_digit(c),
    ensures
        !dec(n as nat).contains(c),
{
    lemma_dec(n as nat);
    let s = dec(n as nat);
    if s.contains(c) {
        let i = choose|i: int| 0 <= i < s.len() && s[i] == c;
        assert(is_digit(s[i]));
    }
}

pub open spec fn octet_texts(o: Seq<u8>) -> Seq<Seq<char>> {
    Seq::new(o.len(), |i: int| dec(o[i] as nat))
}

proof fn lemma_v4_joined(o: Seq<u8>)
    requires
        o.len() == 4,
    ensures
        v4_text(o) == joined(octet_texts(o), '.'),
        split(v4_text(o), '.') == octet_texts(o),
{
    reveal_strlit(".");
    assert("."@ =~= seq!['.']);
    let p = octet_texts(o);
    reveal_with_fuel(joined, 5);
    let a = p.drop_first();
    let b = a.drop_first();
    let c = b.drop_first();
    assert(joined(c, '.') == p[3]);
    assert(joined(b, '.') == p[2] + seq!['.'] + p[3]);
    assert(joined(a, '.') == p[1] + seq!['.'] + (p[2] + seq!['.'] + p[3]));
    assert(joined(p, '.') =~= v4_text(o));
    assert forall|i: int| 0 <= i < p.len() implies !(#[trigger] p[i]).contains('.') by {
        lemma_octet_has_no(o[i], '.');
    }
    law_split_undoes_join(p, '.');
}

proof fn lemma_v4_reads(s: Seq<char>, o: Seq<u8>)
    requires
        o.len() == 4,
    ensures
        v4_of(s) == Some(o) <==> s == v4_text(o),
{
    lemma_v4_joined(o);
    let p = split(s, '.');
    if s == v4_text(o) {
        lemma_octet(p[0], o[0]);
        lemma_octet(p[1], o[1]);
        lemma_octet(p[2], o[2]);
        lemma_octet(p[3], o[3]);
        assert(v4_of(s)->0 =~= o);
    }
    if v4_of(s) == Some(o) {
        let r = v4_of(s)->0;
        assert(r[0] == o[0] && r[1] == o[1] && r[2] == o[2] && r[3] == o[3]);
        lemma_octet(p[0], o[0]);
        lemma_octet(p[1], o[1]);
        lemma_octet(p[2], o[2]);
        lemma_octet(p[3], o[3]);
        assert(p =~= octet_texts(o));
        lemma_joined_split(s, '.');
    }
}

/// Joining undoes splitting.
proof fn lemma_joined_split(s: Seq<char>, c: char)
    ensures
        split(s, c).len() > 0,
        joined(split(s, c), c) == s,
    decreases s.len(),
{
    lemma_find(s, c);
    let i = crate::text::find(s, c) as int;
    let p = split(s, c);
    if i < s.len() {
        let t = s.skip(i + 1);
        lemma_joined_split(t, c);
        assert(p.drop_first() =~= split(t, c));
        assert(s =~= s.take(i) + seq![c] + t);
    }
}

/// A text is an IPv4 address exactly when it holds four numbers from 0 to 255 in decimal,
/// without superfluous zeros, between dots; the address holds those numbers, and is written
/// that way.
pub proof fn law_v4_addresses(s: Seq<char>, o: Seq<u8>)
    requires
        o.len() == 4,
    ensures
        ip_of(s) == Some(IpAddrView::V4(o)) <==> s == dec(o[0] as nat) + "."@ + dec(o[1] as nat)
            + "."@ + dec(o[2] as nat) + "."@ + dec(o[3] as nat),
        ip_text(IpAddrView::V4(o)) == dec(o[0] as nat) + "."@ + dec(o[1] as nat) + "."@ + dec(
            o[2] as nat,
        ) + "."@ + dec(o[3] as nat),
{
    lemma_v4_reads(s, o);
}

// ---- groups -----------------------------------------------------------------------------

proof fn lemma_hex(n: nat)
    ensures
        hex_text(n).len() > 0,
        hex_value(hex_text(n)) == n,
        forall|i: int| 0 <= i < hex_text(n).len() ==> is_hex(#[trigger] hex_text(n)[i]),
    decreases n,
{
    let s = hex_text(n);
    if n < 16 {
        assert(s.drop_last().len() == 0);
        assert(hex_value(s.drop_last()) == 0);
    } else {
        lemma_hex(n / 16);
        assert(s.drop_last() =~= hex_text(n / 16));
        assert forall|i: int| 0 <= i < s.len() implies is_hex(#[trigger] s[i]) by {
            if i < s.len() - 1 {
                assert(s[i] == hex_text(n / 16)[i]);
            }
        }
    }
}

proof fn lemma_group(n: u16)
    ensures
        group_of(hex_text(n as nat)) == Some(n),
        !hex_text(n as nat).contains(':'),
        !hex_text(n as nat).contains('.'),
        v4_of(hex_text(n as nat)) is None,
{
    let s = hex_text(n as nat);
    lemma_hex(n as nat);
    reveal_with_fuel(hex_text, 5);
    assert(s.len() <= 4);
    if s.contains(':') {
        let i = choose|i: int| 0 <= i < s.len() && s[i] == ':';
        assert(is_hex(s[i]));
    }
    if s.contains('.') {
        let i = choose|i: int| 0 <= i < s.len() && s[i] == '.';
        assert(is_hex(s[i]));
    }
    lemma_no_v4(s);
}

/// A text without a dot is no IPv4 address.
proof fn lemma_no_v4(s: Seq<char>)
    requires
        !s.contains('.'),
    ensures
        v4_of(s) is None,
{
    lemma_find(s, '.');
    assert(split(s, '.').len() == 1);
}

pub open spec fn group_texts(g: Seq<u16>) -> Seq<Seq<char>> {
    Seq::new(g.len(), |i: int| hex_text(g[i] as nat))
}

/// No two colons in a row, and none at either end.
pub open spec fn single_colons(s: Seq<char>) -> bool {
    &&& s.len() > 0 ==> s[0] != ':' && s[s.len() - 1] != ':'
    &&& forall|i: int|
        #![trigger s[i]]
        0 <= i && i + 1 < s.len() && s[i] == ':' ==> s[i + 1] != ':'
}

proof fn lemma_groups(g: Seq<u16>, v4: bool)
    requires
        g.len() > 0,
    ensures
        groups_text(g) == joined(group_texts(g), ':'),
        groups_text(g).len() > 0,
        groups_of(group_texts(g), v4) == Some(g),
        split(groups_text(g), ':') == group_texts(g),
        side_of(groups_text(g), v4) == Some(g),
        single_colons(groups_text(g)),
        !groups_text(g).contains('.'),
    decreases g.len(),
{
    reveal_strlit(":");
    assert(":"@ =~= seq![':']);
    let p = group_texts(g);
    let s = groups_text(g);
    let h = hex_text(g[0] as nat);
    lemma_group(g[0]);
    lemma_hex(g[0] as nat);
    assert(p[0] == h);
    assert(h[0] != ':' && h[h.len() - 1] != ':') by {
        assert(h.contains(h[0]));
        assert(h.contains(h[h.len() - 1]));
    }
    assert forall|i: int| 0 <= i < h.len() implies h[i] != ':' && h[i] != '.' by {
        assert(h.contains(h[i]));
    }
    if g.len() == 1 {
        let none = p.drop_first();
        assert(none.len() == 0);
        assert(groups_of(none, v4) == Some(Seq::<u16>::empty()));
        assert(groups_of(p, v4)->0 =~= g);
    } else {
        let rest = g.drop_first();
        lemma_groups(rest, v4);
        assert(p.drop_first() =~= group_texts(rest));
        let t = groups_text(rest);
        assert(s =~= h + seq![':'] + t);
        assert(seq![g[0]] + rest =~= g);
        assert(single_colons(s)) by {
            assert(s[s.len() - 1] == t[t.len() - 1]);
            assert forall|i: int|
                #![trigger s[i]]
                0 <= i && i + 1 < s.len() && s[i] == ':' implies s[i + 1] != ':' by {
                let n = h.len() as int;
                if i < n {
                    assert(s[i] == h[i]);
                } else if i == n {
                    assert(s[i + 1] == t[0]);
                } else {
                    assert(s[i] == t[i - n - 1]);
                    assert(s[i + 1] == t[i - n]);
                }
            }
        }
        if s.contains('.') {
            let i = choose|i: int| 0 <= i < s.len() && s[i] == '.';
            let n = h.len() as int;
            if i < n {
                assert(s[i] == h[i]);
            } else if i > n {
                assert(s[i] == t[i - n - 1]);
                assert(t.contains('.'));
            }
        }
    }
    assert forall|i: int| 0 <= i < p.len() implies !(#[trigger] p[i]).contains(':') by {
        lemma_group(g[i]);
    }
    law_split_undoes_join(p, ':');
}

// ---- IPv6 -------------------------------------------------------------------------------

proof fn lemma_zero_run(g: Seq<u16>, i: int)
    requires
        0 <= i <= g.len(),
    ensures
        i + zero_run(g, i) <= g.len(),
        forall|j: int| i <= j < i + zero_run(g, i) ==> g[j] == 0,
    decreases g.len() - i,
{
    if i < g.len() && g[i] == 0 {
        lemma_zero_run(g, i + 1);
    }
}

/// The zero groups that `::` stands for are the longest run, and the first of that length.
pub proof fn law_the_longest_zeros_are_shortened(g: Seq<u16>, i: int, j: int)
    requires
        0 <= i < g.len(),
        i <= j < g.len(),
    ensures
        i <= longest_zeros(g, i) < g.len(),
        zero_run(g, j) <= zero_run(g, longest_zeros(g, i)),
        j < longest_zeros(g, i) ==> zero_run(g, j) < zero_run(g, longest_zeros(g, i)),
    decreases g.len() - i,
{
    if i + 1 < g.len() {
        law_the_longest_zeros_are_shortened(
            g,
            i + 1,
            if j > i {
                j
            } else {
                i + 1
            },
        );
    }
}

proof fn lemma_not_found(s: Seq<char>, pat: Seq<char>)
    requires
        not_before(s, pat, s.len() as int),
    ensures
        find_text(s, pat) == s.len(),
    decreases s.len(),
{
    if s.len() > 0 {
        assert(s.skip(0) =~= s);
        assert(!starts_with(s.skip(0), pat));
        let t = s.drop_first();
        assert forall|j: int| 0 <= j < t.len() implies !starts_with(#[trigger] t.skip(j), pat) by {
            assert(t.skip(j) =~= s.skip(j + 1));
        }
        lemma_not_found(t, pat);
    }
}

/// `::` does not stand in groups, nor where they meet what follows.
proof fn lemma_no_pair(a: Seq<char>, b: Seq<char>)
    requires
        single_colons(a),
    ensures
        not_before(a + b, "::"@, a.len() as int),
{
    reveal_strlit("::");
    let s = a + b;
    let pat = "::"@;
    assert(pat.len() == 2 && pat[0] == ':' && pat[1] == ':');
    assert forall|j: int| 0 <= j < a.len() implies !starts_with(#[trigger] s.skip(j), pat) by {
        let t = s.skip(j);
        if starts_with(t, pat) {
            let u = t.take(2);
            assert(u[0] == ':' && u[1] == ':');
            assert(t[0] == u[0] && t[1] == u[1]);
            assert(s[j] == t[0] && s[j + 1] == t[1]);
            assert(a[j] == s[j]);
            if j + 1 < a.len() {
                assert(a[j + 1] == s[j + 1]);
            }
        }
    }
}

proof fn lemma_pair_found(a: Seq<char>, b: Seq<char>)
    requires
        single_colons(a),
    ensures
        find_text(a + "::"@ + b, "::"@) == a.len(),
        (a + "::"@ + b).take(a.len() as int) == a,
        (a + "::"@ + b).skip(a.len() as int + 2) == b,
        (a + "::"@ + b).len() == a.len() + 2 + b.len(),
{
    reveal_strlit("::");
    let pat = "::"@;
    let s = a + pat + b;
    assert(s =~= a + (pat + b));
    lemma_no_pair(a, pat + b);
    let n = a.len() as int;
    assert(s.skip(n) =~= pat + b);
    assert(s.skip(n).take(2) =~= pat);
    lemma_find_text_is(s, pat, n);
    assert(s.take(n) =~= a);
    assert(s.skip(n + 2) =~= b);
}

/// One side of `::`.
proof fn lemma_side(g: Seq<u16>, v4: bool)
    ensures
        side_of(groups_text(g), v4) == Some(g),
        single_colons(groups_text(g)),
        !groups_text(g).contains('.'),
{
    if g.len() > 0 {
        lemma_groups(g, v4);
    } else {
        assert(g =~= Seq::<u16>::empty());
    }
}

proof fn lemma_plain_v6(g: Seq<u16>)
    requires
        g.len() == 8,
        !is_mapped(g),
    ensures
        v6_of(v6_text(g)) == Some(g),
        v4_of(v6_text(g)) is None,
{
    reveal_strlit("::");
    let at = longest_zeros(g, 0);
    law_the_longest_zeros_are_shortened(g, 0, 0);
    lemma_zero_run(g, at);
    let n = zero_run(g, at) as int;
    let s = v6_text(g);
    if n > 1 {
        let (l, r) = (g.take(at), g.skip(at + n));
        let (a, b) = (groups_text(l), groups_text(r));
        lemma_side(l, false);
        lemma_side(r, true);
        lemma_pair_found(a, b);
        assert(l + zeros(8 - l.len() - r.len()) + r =~= g);
        if s.contains('.') {
            let i = choose|i: int| 0 <= i < s.len() && s[i] == '.';
            if i < a.len() {
                assert(a[i] == s[i]);
                assert(a.contains('.'));
            } else if i >= a.len() + 2 {
                assert(b[i - a.len() - 2] == s[i]);
                assert(b.contains('.'));
            } else {
                assert(s[i] == ':');
            }
        }
    } else {
        lemma_groups(g, true);
        let none = Seq::<char>::empty();
        assert(s + none =~= s);
        lemma_no_pair(s, none);
        lemma_not_found(s, "::"@);
    }
    lemma_no_v4(s);
}

proof fn lemma_v4_has_no_colon(o: Seq<u8>)
    requires
        o.len() == 4,
    ensures
        !v4_text(o).contains(':'),
        v4_text(o).len() > 0,
{
    reveal_strlit(".");
    lemma_octet_has_no(o[0], ':');
    lemma_octet_has_no(o[1], ':');
    lemma_octet_has_no(o[2], ':');
    lemma_octet_has_no(o[3], ':');
    lemma_dec(o[0] as nat);
    let (a, b, c, d) = (dec(o[0] as nat), dec(o[1] as nat), dec(o[2] as nat), dec(o[3] as nat));
    let s = v4_text(o);
    if s.contains(':') {
        let i = choose|i: int| 0 <= i < s.len() && s[i] == ':';
        let (x, y, z) = (
            a.len() as int + 1,
            a.len() as int + b.len() + 2,
            a.len() as int + b.len() + c.len() + 3,
        );
        if i < a.len() {
            assert(a[i] == ':');
            assert(a.contains(':'));
        } else if x <= i < x + b.len() {
            assert(b[i - x] == ':');
            assert(b.contains(':'));
        } else if y <= i < y + c.len() {
            assert(c[i - y] == ':');
            assert(c.contains(':'));
        } else if z <= i {
            assert(d[i - z] == ':');
            assert(d.contains(':'));
        }
    }
}

/// An IPv4 address may stand in the place of the last two groups.
pub proof fn law_v4_addresses_end_v6_addresses(g: Seq<u16>, o: Seq<u8>)
    requires
        o.len() == 4,
        g.len() <= 5,
    ensures
        ({
            let tail = seq![
                (256 * o[0] as int + o[1] as int) as u16,
                (256 * o[2] as int + o[3] as int) as u16,
            ];
            &&& g.len() == 0 ==> v6_of("::"@ + v4_text(o)) == Some(zeros(6) + tail)
            &&& g.len() > 0 ==> v6_of("::"@ + groups_text(g) + ":"@ + v4_text(o)) == Some(
                zeros(6 - g.len()) + (g + tail),
            )
        }),
{
    reveal_strlit("::");
    reveal_strlit(":");
    assert(":"@ =~= seq![':']);
    let none = Seq::<char>::empty();
    let t = v4_text(o);
    let tail = seq![pair(o[0], o[1]), pair(o[2], o[3])];
    lemma_v4_reads(t, o);
    lemma_v4_has_no_colon(o);
    if g.len() == 0 {
        let p = seq![t];
        assert(none + "::"@ + t =~= "::"@ + t);
        lemma_pair_found(none, t);
        assert(joined(p, ':') == t);
        law_split_undoes_join(p, ':');
        assert(groups_of(p, true) == Some(tail));
        assert(none.take(0) =~= none);
        assert(Seq::<u16>::empty() + zeros(6) + tail =~= zeros(6) + tail);
    } else {
        let b = groups_text(g) + ":"@ + t;
        lemma_pair_found(none, b);
        assert(none + "::"@ + b =~= "::"@ + groups_text(g) + ":"@ + t);
        lemma_tail(g, o);
        assert(Seq::<u16>::empty() + zeros(6 - g.len()) + (g + tail) =~= zeros(6 - g.len()) + (g
            + tail));
    }
}

proof fn lemma_tail(g: Seq<u16>, o: Seq<u8>)
    requires
        o.len() == 4,
        g.len() > 0,
    ensures
        side_of(groups_text(g) + ":"@ + v4_text(o), true) == Some(
            g + seq![pair(o[0], o[1]), pair(o[2], o[3])],
        ),
{
    reveal_strlit(":");
    assert(":"@ =~= seq![':']);
    let t = v4_text(o);
    let p = group_texts(g).push(t);
    lemma_v4_has_no_colon(o);
    assert forall|i: int| 0 <= i < p.len() implies !(#[trigger] p[i]).contains(':') by {
        if i < g.len() {
            lemma_group(g[i]);
        }
    }
    lemma_groups(g, true);
    lemma_joined_push(group_texts(g), t, ':');
    law_split_undoes_join(p, ':');
    lemma_tail_groups(g, o);
}

proof fn lemma_joined_push(p: Seq<Seq<char>>, t: Seq<char>, c: char)
    requires
        p.len() > 0,
    ensures
        joined(p.push(t), c) == joined(p, c) + seq![c] + t,
    decreases p.len(),
{
    let q = p.push(t);
    assert(q.drop_first() =~= p.drop_first().push(t));
    if p.len() == 1 {
        assert(q.drop_first() =~= seq![t]);
        assert(joined(seq![t], c) == t);
    } else {
        lemma_joined_push(p.drop_first(), t, c);
        assert(joined(q, c) =~= joined(p, c) + seq![c] + t);
    }
}

proof fn lemma_tail_groups(g: Seq<u16>, o: Seq<u8>)
    requires
        o.len() == 4,
    ensures
        groups_of(group_texts(g).push(v4_text(o)), true) == Some(
            g + seq![pair(o[0], o[1]), pair(o[2], o[3])],
        ),
    decreases g.len(),
{
    let tail = seq![pair(o[0], o[1]), pair(o[2], o[3])];
    let p = group_texts(g).push(v4_text(o));
    lemma_v4_reads(v4_text(o), o);
    if g.len() == 0 {
        assert(p[0] == v4_text(o));
        assert(g + tail =~= tail);
    } else {
        let rest = g.drop_first();
        lemma_tail_groups(rest, o);
        lemma_group(g[0]);
        assert(p[0] == hex_text(g[0] as nat));
        assert(p.drop_first() =~= group_texts(rest).push(v4_text(o)));
        assert(seq![g[0]] + (rest + tail) =~= g + tail);
    }
}

proof fn lemma_mapped_v6(g: Seq<u16>)
    requires
        g.len() == 8,
        is_mapped(g),
    ensures
        v6_of(v6_text(g)) == Some(g),
        v4_of(v6_text(g)) is None,
{
    let o = seq![(g[6] / 256) as u8, (g[6] % 256) as u8, (g[7] / 256) as u8, (g[7] % 256) as u8];
    let m = seq![0xffffu16];
    reveal_strlit("::ffff:");
    reveal_strlit("::");
    reveal_strlit(":");
    reveal_with_fuel(hex_text, 5);
    assert(groups_text(m) =~= seq!['f', 'f', 'f', 'f']);
    assert("::ffff:"@ =~= "::"@ + groups_text(m) + ":"@);
    let s = v6_text(g);
    assert(s =~= "::"@ + groups_text(m) + ":"@ + v4_text(o));
    law_v4_addresses_end_v6_addresses(m, o);
    assert(pair(o[0], o[1]) == g[6]);
    assert(pair(o[2], o[3]) == g[7]);
    assert(zeros(5) + (m + seq![g[6], g[7]]) =~= g);
    assert(v4_of(s) is None) by {
        if v4_of(s) is Some {
            let q = v4_of(s)->0;
            lemma_v4_reads(s, q);
            lemma_v4_has_no_colon(q);
            assert(s[0] == ':');
            assert(s.contains(':'));
        }
    }
}

/// Addresses read back from their text.
pub proof fn law_addresses_read_back(ip: IpAddrView)
    requires
        match ip {
            IpAddrView::V4(o) => o.len() == 4,
            IpAddrView::V6(g) => g.len() == 8,
        },
    ensures
        ip_of(ip_text(ip)) == Some(ip),
{
    match ip {
        IpAddrView::V4(o) => {
            lemma_v4_reads(ip_text(ip), o);
        },
        IpAddrView::V6(g) => {
            if is_mapped(g) {
                lemma_mapped_v6(g);
            } else {
                lemma_plain_v6(g);
            }
        },
    }
}

/// `::` between groups stands for the zero groups that are missing, of which there is at
/// least one; and eight groups need none.
pub proof fn law_groups_are_filled_up(a: Seq<u16>, b: Seq<u16>)
    ensures
        a.len() + b.len() <= 7 ==> v6_of(groups_text(a) + "::"@ + groups_text(b)) == Some(
            a + zeros(8 - a.len() - b.len()) + b,
        ),
        a.len() + b.len() > 7 ==> v6_of(groups_text(a) + "::"@ + groups_text(b)) is None,
        a.len() == 8 ==> v6_of(groups_text(a)) == Some(a),
        a.len() != 8 && a.len() > 0 ==> v6_of(groups_text(a)) is None,
{
    lemma_side(a, false);
    lemma_side(b, true);
    lemma_pair_found(groups_text(a), groups_text(b));
    if a.len() > 0 {
        lemma_groups(a, true);
        let s = groups_text(a);
        let none = Seq::<char>::empty();
        assert(s + none =~= s);
        lemma_no_pair(s, none);
        lemma_not_found(s, "::"@);
    }
}

/// The digits of a group are hexadecimal, in either case, one to four of them.
pub proof fn law_groups_are_hexadecimal(s: Seq<char>, c: char)
    ensures
        group_of(s) is Some ==> 1 <= s.len() <= 4,
        s.len() <= 3 && (s.len() == 0 || group_of(s) is Some) ==> {
            let n = if s.len() == 0 {
                0
            } else {
                group_of(s)->0 as int
            };
            &&& '0' <= c && c <= '9' ==> group_of(s.push(c)) == Some(
                (16 * n + (c as int - '0' as int)) as u16,
            )
            &&& 'a' <= c && c <= 'f' ==> group_of(s.push(c)) == Some(
                (16 * n + 10 + (c as int - 'a' as int)) as u16,
            )
            &&& 'A' <= c && c <= 'F' ==> group_of(s.push(c)) == Some(
                (16 * n + 10 + (c as int - 'A' as int)) as u16,
            )
        },
        !('0' <= c && c <= '9') && !('a' <= c && c <= 'f') && !('A' <= c && c <= 'F') ==> group_of(
            s.push(c),
        ) is None,
{
    let t = s.push(c);
    assert(t.drop_last() =~= s);
    assert(t[t.len() - 1] == c);
    if s.len() <= 3 && (s.len() == 0 || group_of(s) is Some) {
        lemma_hex_small(s);
        if is_hex(c) {
            assert forall|i: int| 0 <= i < t.len() implies is_hex(#[trigger] t[i]) by {
                if i < s.len() {
                    assert(t[i] == s[i]);
                }
            }
            assert(hex_value(t) == 16 * hex_value(s) + hex_digit_value(c));
        }
    }
}

proof fn lemma_hex_small(s: Seq<char>)
    requires
        s.len() <= 3,
        s.len() == 0 || group_of(s) is Some,
    ensures
        0 <= hex_value(s) <= 0xfff,
        s.len() == 0 ==> hex_value(s) == 0,
{
    reveal_with_fuel(hex_value, 4);
    if s.len() >= 1 {
        assert(is_hex(s[s.len() - 1]));
        let t = s.drop_last();
        if t.len() >= 1 {
            assert(is_hex(s[s.len() - 2]));
            let u = t.drop_last();
            if u.len() >= 1 {
                assert(is_hex(s[s.len() - 3]));
                assert(u.drop_last().len() == 0);
            }
        }
    }
}

} // verus!
