//! What labels keep of the names that they are made from.

use vstd::prelude::*;

use crate::text::{trim_end_char, trim_start_char};
use crate::text_laws::{law_trim_end_char_takes_trailing, law_trim_start_char_takes_leading};
use crate::transform::naming::{
    base_label, cleaned, collapse, hex_digit, hex_text, is_alnum, is_label, is_label_char, label,
    label_with, lemma_base, lemma_collapse_keeps, name_hash, single_dashes,
};

verus! {

/// Neither a letter nor a digit.
pub open spec fn is_separator(c: char) -> bool {
    !('a' <= c && c <= 'z') && !('A' <= c && c <= 'Z') && !('0' <= c && c <= '9')
}

/// A label without two dashes in a row.
pub open spec fn is_plain_label(s: Seq<char>) -> bool {
    is_label(s) && single_dashes(s)
}

/// What is kept of a text that starts and ends in a letter or digit and has no two dashes in
/// a row once cleaned.
proof fn lemma_kept(s: Seq<char>, t: Seq<char>)
    requires
        t == cleaned(s),
        t.len() > 0,
        single_dashes(t),
        is_alnum(t[0]),
        is_alnum(t.last()),
    ensures
        base_label(s) == t,
{
    lemma_collapse_keeps(t);
    law_trim_start_char_takes_leading(t, '-');
    assert(trim_start_char(t, '-') == t);
    assert(trim_end_char(t, '-') == t);
}

/// A separator between two labels becomes a dash, whatever it is.
pub proof fn law_separators_become_dashes(a: Seq<char>, c: char, b: Seq<char>)
    requires
        is_plain_label(a),
        is_plain_label(b),
        is_separator(c),
        a.len() + b.len() <= 62,
    ensures
        label(a + seq![c] + b) == a + seq!['-'] + b,
{
    let s = a + seq![c] + b;
    let t = a + seq!['-'] + b;
    assert(cleaned(s) =~= t) by {
        assert forall|i: int| 0 <= i < s.len() implies cleaned(s)[i] == t[i] by {
            if i < a.len() {
                assert(is_label_char(a[i]));
            } else if i > a.len() {
                assert(is_label_char(b[i - a.len() - 1]));
            }
        }
    }
    assert forall|i: int| 0 < i < t.len() implies (#[trigger] t[i]) != '-' || t[i - 1] != '-' by {
        if i < a.len() {
            assert(a[i] != '-' || a[i - 1] != '-');
        } else if i == a.len() {
            assert(t[i - 1] == a.last());
        } else if i == a.len() + 1 {
            assert(t[i] == b[0]);
        } else {
            let j = i - a.len() - 1;
            assert(b[j] != '-' || b[j - 1] != '-');
        }
    }
    lemma_kept(s, t);
}

/// Capitals become small letters.
pub proof fn law_capitals_become_small(s: Seq<char>, i: int)
    requires
        1 <= s.len() <= 63,
        forall|j: int| 0 <= j < s.len() ==> !is_separator(#[trigger] s[j]),
        0 <= i < s.len(),
    ensures
        label(s).len() == s.len(),
        'A' <= s[i] && s[i] <= 'Z' ==> label(s)[i] as int == s[i] as int + 32,
        !('A' <= s[i] && s[i] <= 'Z') ==> label(s)[i] == s[i],
{
    let t = cleaned(s);
    assert forall|j: int| 0 <= j < t.len() implies is_alnum(#[trigger] t[j]) by {
        assert(!is_separator(s[j]));
    }
    lemma_kept(s, t);
    assert(!is_separator(s[i]));
}

/// Separators at the ends are dropped.
pub proof fn law_outer_separators_are_dropped(c: char, a: Seq<char>, d: char)
    requires
        is_plain_label(a),
        is_separator(c),
        is_separator(d),
        a.len() <= 63,
    ensures
        label(seq![c] + a + seq![d]) == a,
{
    let s = seq![c] + a + seq![d];
    let t = seq!['-'] + a + seq!['-'];
    assert(cleaned(s) =~= t) by {
        assert forall|i: int| 0 <= i < s.len() implies cleaned(s)[i] == t[i] by {
            if 0 < i <= a.len() {
                assert(is_label_char(a[i - 1]));
            }
        }
    }
    assert forall|i: int| 0 < i < t.len() implies (#[trigger] t[i]) != '-' || t[i - 1] != '-' by {
        if i == 1 {
            assert(t[i] == a[0]);
        } else if i <= a.len() {
            assert(a[i - 1] != '-' || a[i - 2] != '-');
        } else {
            assert(t[i - 1] == a.last());
        }
    }
    lemma_collapse_keeps(t);
    let u = a + seq!['-'];
    assert(t.drop_first() =~= u);
    assert(u.drop_last() =~= a);
    assert(u[0] == a[0]);
    reveal_with_fuel(trim_start_char, 3);
    reveal_with_fuel(trim_end_char, 3);
    assert(trim_start_char(t, '-') == u);
    assert(trim_end_char(u, '-') == a);
}

/// Separators in a row count as one.
pub proof fn law_separators_in_a_row_count_once(a: Seq<char>, c: char, d: char, b: Seq<char>)
    requires
        is_plain_label(a),
        is_plain_label(b),
        is_separator(c),
        is_separator(d),
        a.len() + b.len() <= 62,
    ensures
        label(a + seq![c, d] + b) == a + seq!['-'] + b,
{
    let s = a + seq![c, d] + b;
    let t = a + seq!['-', '-'] + b;
    let u = a + seq!['-'] + b;
    assert(cleaned(s) =~= t) by {
        assert forall|i: int| 0 <= i < s.len() implies cleaned(s)[i] == t[i] by {
            if i < a.len() {
                assert(is_label_char(a[i]));
            } else if i > a.len() + 1 {
                assert(is_label_char(b[i - a.len() - 2]));
            }
        }
    }
    lemma_collapse_keeps(a);
    let v = a + seq!['-'];
    let w = a + seq!['-', '-'];
    assert(v.drop_last() =~= a);
    assert(w.drop_last() =~= v);
    assert(collapse(v) =~= v);
    assert(collapse(w) =~= v);
    lemma_collapse_behind(w, v, b);
    assert(collapse(t) == u);
    assert forall|i: int| 0 < i < u.len() implies (#[trigger] u[i]) != '-' || u[i - 1] != '-' by {
        if i < a.len() {
            assert(a[i] != '-' || a[i - 1] != '-');
        } else if i == a.len() {
            assert(u[i - 1] == a.last());
        } else if i == a.len() + 1 {
            assert(u[i] == b[0]);
        } else {
            let j = i - a.len() - 1;
            assert(b[j] != '-' || b[j - 1] != '-');
        }
    }
    assert(u[0] == a[0]);
    assert(u.last() == b.last());
    law_trim_start_char_takes_leading(u, '-');
    assert(trim_start_char(u, '-') == u);
    assert(trim_end_char(u, '-') == u);
}

/// What collapses to `v` collapses to `v` and a label behind it.
proof fn lemma_collapse_behind(w: Seq<char>, v: Seq<char>, b: Seq<char>)
    requires
        collapse(w) == v,
        single_dashes(b),
        b.len() > 0 ==> b[0] != '-',
    ensures
        collapse(w + b) == v + b,
    decreases b.len(),
{
    if b.len() == 0 {
        assert(w + b =~= w);
        assert(v + b =~= v);
    } else {
        let c = b.drop_last();
        assert(single_dashes(c)) by {
            assert forall|i: int| 0 < i < c.len() implies (#[trigger] c[i]) != '-' || c[i - 1]
                != '-' by {
                assert(b[i] != '-' || b[i - 1] != '-');
            }
        }
        lemma_collapse_behind(w, v, c);
        assert((w + b).drop_last() =~= w + c);
        let last = b.len() - 1;
        if last > 0 {
            assert(b[last] != '-' || b[last - 1] != '-');
            assert((v + c).last() == b[last - 1]);
        }
        assert(v + b =~= (v + c).push(b.last()));
    }
}

/// A name without a letter or digit gets a name of its own.
pub proof fn law_empty_names_fall_back(s: Seq<char>)
    requires
        forall|i: int| 0 <= i < s.len() ==> is_separator(#[trigger] s[i]),
    ensures
        label(s) == "pangolin"@,
{
    reveal_strlit("pangolin");
    let t = cleaned(s);
    assert forall|i: int| 0 <= i < t.len() implies (#[trigger] t[i]) == '-' by {
        assert(is_separator(s[i]));
    }
    lemma_dashes_collapse(t);
    let u = collapse(t);
    law_trim_start_char_takes_leading(u, '-');
    let v = trim_start_char(u, '-');
    if v.len() > 0 {
        assert(v[0] == u[u.len() - v.len()]);
    }
}

proof fn lemma_dashes_collapse(t: Seq<char>)
    requires
        forall|i: int| 0 <= i < t.len() ==> (#[trigger] t[i]) == '-',
    ensures
        forall|i: int| 0 <= i < collapse(t).len() ==> (#[trigger] collapse(t)[i]) == '-',
    decreases t.len(),
{
    if t.len() > 0 {
        let r = t.drop_last();
        assert forall|i: int| 0 <= i < r.len() implies (#[trigger] r[i]) == '-' by {
            assert(t[i] == '-');
        }
        lemma_dashes_collapse(r);
        assert(t[t.len() - 1] == '-');
        let (a, b) = (collapse(r), collapse(t));
        assert forall|i: int| 0 <= i < b.len() implies (#[trigger] b[i]) == '-' by {
            if i < a.len() {
                assert(b[i] == a[i]);
            }
        }
    }
}

proof fn lemma_hex_injective(a: nat, b: nat)
    requires
        hex_text(a) == hex_text(b),
    ensures
        a == b,
    decreases a,
{
    let (s, t) = (hex_text(a), hex_text(b));
    assert(s.last() == t.last());
    assert(s.last() == hex_digit((a % 16) as int)) by {
        if a < 16 {
            assert(a % 16 == a);
        }
    }
    assert(t.last() == hex_digit((b % 16) as int)) by {
        if b < 16 {
            assert(b % 16 == b);
        }
    }
    assert(a % 16 == b % 16);
    if a >= 16 {
        lemma_hex_nonempty(a / 16);
        if b >= 16 {
            assert(s.drop_last() =~= hex_text(a / 16));
            assert(t.drop_last() =~= hex_text(b / 16));
            lemma_hex_injective(a / 16, b / 16);
        } else {
            assert(s.len() == 1 + hex_text(a / 16).len());
        }
    } else if b >= 16 {
        lemma_hex_nonempty(b / 16);
        assert(t.len() == 1 + hex_text(b / 16).len());
    }
}

proof fn lemma_hex_nonempty(n: nat)
    ensures
        hex_text(n).len() > 0,
        forall|i: int| 0 <= i < hex_text(n).len() ==> (#[trigger] hex_text(n)[i]) != '-',
    decreases n,
{
    if n >= 16 {
        lemma_hex_nonempty(n / 16);
    }
}

/// The last dash of a text parts it in one way.
proof fn lemma_last_dash(a: Seq<char>, x: Seq<char>, b: Seq<char>, y: Seq<char>)
    requires
        a + seq!['-'] + x == b + seq!['-'] + y,
        forall|i: int| 0 <= i < x.len() ==> (#[trigger] x[i]) != '-',
        forall|i: int| 0 <= i < y.len() ==> (#[trigger] y[i]) != '-',
    ensures
        x == y,
{
    let s = a + seq!['-'] + x;
    let t = b + seq!['-'] + y;
    assert(s.len() == t.len());
    assert(s.len() == a.len() + 1 + x.len() && t.len() == b.len() + 1 + y.len());
    if x.len() < y.len() {
        let k = y.len() - x.len() - 1;
        assert(t[b.len() + 1 + k] == y[k]);
        assert(s[a.len() as int] == '-');
        assert(a.len() == b.len() + 1 + k);
    }
    if y.len() < x.len() {
        let k = x.len() - y.len() - 1;
        assert(s[a.len() + 1 + k] == x[k]);
        assert(t[b.len() as int] == '-');
        assert(b.len() == a.len() + 1 + k);
    }
    assert(a.len() == b.len());
    assert forall|i: int| 0 <= i < x.len() implies x[i] == y[i] by {
        assert(s[a.len() + 1 + i] == x[i]);
        assert(t[b.len() + 1 + i] == y[i]);
    }
    assert(x =~= y);
}

/// Names that are too long are told apart by their hashes: with different hashes their
/// labels differ.
pub proof fn law_long_names_are_told_apart(s: Seq<char>, t: Seq<char>, h: u32, k: u32)
    requires
        base_label(s).len() > 63,
        base_label(t).len() > 63,
        h != k,
    ensures
        label_with(s, h) != label_with(t, k),
        label(s) == label_with(s, name_hash(s)),
{
    lemma_hex_nonempty(h as nat);
    lemma_hex_nonempty(k as nat);
    let (x, y) = (hex_text(h as nat), hex_text(k as nat));
    let a = trim_end_char(base_label(s).take(63 - (seq!['-'] + x).len()), '-');
    let b = trim_end_char(base_label(t).take(63 - (seq!['-'] + y).len()), '-');
    if label_with(s, h) == label_with(t, k) {
        assert(a + (seq!['-'] + x) =~= a + seq!['-'] + x);
        assert(b + (seq!['-'] + y) =~= b + seq!['-'] + y);
        lemma_last_dash(a, x, b, y);
        lemma_hex_injective(h as nat, k as nat);
    }
}

/// A name that is too long keeps its head, as much of it as fits beside the hash.
pub proof fn law_long_names_keep_their_head(s: Seq<char>, h: u32, i: int)
    requires
        base_label(s).len() > 63,
        0 <= i < 50,
    ensures
        label_with(s, h).len() <= 63,
        label_with(s, h)[i] == base_label(s)[i],
{
    let x = hex_text(h as nat);
    crate::transform::naming::lemma_hex_len(h as nat);
    lemma_base(s);
    let base = base_label(s);
    let n = 63 - (seq!['-'] + x).len();
    assert(n >= 54);
    let cut = base.take(n);
    law_trim_end_char_takes_trailing(cut, '-');
    let head = trim_end_char(cut, '-');
    if head.len() < n - 1 {
        assert(cut[n - 1] == '-' && cut[n - 2] == '-');
        assert(base[n - 1] == '-' && base[n - 2] == '-');
    }
}

} // verus!
