//! What the text functions promise.

use vstd::prelude::*;

use crate::text::{
    all_digits, before, dec, find_text, int_text, is_space, lemma_find_is,
    lemma_rfind, lower, parse_signed, parse_unsigned, replace, rsplit_once, split, split_once,
    split_text, starts_with, strip_prefix, trim, trim_end, trim_end_char, trim_start,
    trim_start_char, value,
};

verus! {

// ---- numbers --------------------------------------------------------------------------

/// A signed number fits `i32`.
pub proof fn lemma_signed_fits(s: Seq<char>)
    ensures
        parse_signed(s) is Some ==> -0x8000_0000 <= parse_signed(s)->0 <= 0x7fff_ffff,
{
}

/// The digits of a number, without superfluous zeros.
pub proof fn lemma_dec(n: nat)
    ensures
        dec(n).len() > 0,
        all_digits(dec(n)),
        value(dec(n)) == n,
        dec(n).len() > 1 ==> dec(n)[0] != '0',
        n > 0 ==> dec(n)[0] != '0',
    decreases n,
{
    if n >= 10 {
        lemma_dec(n / 10);
        let d = dec(n);
        assert(d.drop_last() =~= dec(n / 10));
        assert(d[0] == dec(n / 10)[0]);
    } else {
        let d = dec(n);
        assert(d.drop_last() =~= Seq::<char>::empty());
        assert(value(d.drop_last()) == 0);
    }
}

/// A number reads back from its decimal text, with and without a leading plus.
pub proof fn law_numbers_read_back(n: nat, max: nat)
    ensures
        n <= max ==> parse_unsigned(dec(n), max) == Some(n),
        n <= max ==> parse_unsigned(seq!['+'] + dec(n), max) == Some(n),
        n > max ==> parse_unsigned(dec(n), max) is None,
        n <= 0x7fff_ffff ==> parse_signed(dec(n)) == Some(n as int),
        n <= 0x8000_0000 ==> parse_signed(seq!['-'] + dec(n)) == Some(-(n as int)),
        int_text(n as int) == dec(n),
        n > 0 ==> int_text(-(n as int)) == seq!['-'] + dec(n),
{
    lemma_dec(n);
    let d = dec(n);
    assert(d[0] != '+' && d[0] != '-') by {
        assert(crate::text::is_digit(d[0]));
    }
    assert((seq!['+'] + d).skip(1) =~= d);
    assert((seq!['-'] + d).skip(1) =~= d);
}

/// Digits are decimal: one more digit is ten times the number and that digit, and a single
/// digit is worth its distance from `0`.
pub proof fn law_digits_are_decimal(s: Seq<char>, c: char, max: nat)
    requires
        '0' <= c && c <= '9',
    ensures
        parse_unsigned(s, max) is Some && 10 * (parse_unsigned(s, max)->0) + (c as int
            - '0' as int) <= max ==> parse_unsigned(s.push(c), max) == Some(
            (10 * (parse_unsigned(s, max)->0) + (c as int - '0' as int)) as nat,
        ),
        c as int - '0' as int <= max ==> parse_unsigned(seq![c], max) == Some(
            (c as int - '0' as int) as nat,
        ),
{
    let t = s.push(c);
    if parse_unsigned(s, max) is Some {
        let a = if s[0] == '+' {
            s.skip(1)
        } else {
            s
        };
        let b = if t[0] == '+' {
            t.skip(1)
        } else {
            t
        };
        assert(b =~= a.push(c));
        assert(b.drop_last() =~= a);
    }
    assert(seq![c].drop_last() =~= Seq::<char>::empty());
    assert(value(seq![c].drop_last()) == 0);
}

/// Only digits read as a number, behind an optional sign.
pub proof fn law_only_digits_read(s: Seq<char>, max: nat, i: int)
    requires
        0 <= i < s.len(),
        !('0' <= s[i] && s[i] <= '9'),
    ensures
        i > 0 || s[0] != '+' || s.len() == 1 ==> parse_unsigned(s, max) is None,
        i > 0 || (s[0] != '+' && s[0] != '-') || s.len() == 1 ==> parse_signed(s) is None,
        parse_unsigned(Seq::empty(), max) is None,
        parse_signed(Seq::empty()) is None,
{
    if s[0] == '+' || s[0] == '-' {
        if i > 0 {
            assert(s.skip(1)[i - 1] == s[i]);
        }
    }
}

// ---- cases and white space --------------------------------------------------------------

/// Lowercasing changes ASCII capitals to the small letter 32 places on, and nothing else.
pub proof fn law_lower_changes_capitals(s: Seq<char>, i: int)
    requires
        0 <= i < s.len(),
    ensures
        lower(s).len() == s.len(),
        'A' <= s[i] && s[i] <= 'Z' ==> lower(s)[i] as int == s[i] as int + 32,
        !('A' <= s[i] && s[i] <= 'Z') ==> lower(s)[i] == s[i],
        lower(lower(s)) == lower(s),
{
    assert(lower(lower(s)) =~= lower(s));
}

/// White space is the blank, the controls from tab to carriage return, and the characters
/// beyond ASCII that Unicode counts as such.
pub proof fn law_white_space(c: char)
    ensures
        (c as int) < 128 ==> (is_space(c) <==> c == ' ' || (9 <= c as int && c as int <= 13)),
        (c as int) >= 128 ==> (is_space(c) <==> c as int == 0x85 || c as int == 0xa0 || c as int
            == 0x1680 || (0x2000 <= c as int && c as int <= 0x200a) || c as int == 0x2028 || c as int
            == 0x2029 || c as int == 0x202f || c as int == 0x205f || c as int == 0x3000),
{
}

pub open spec fn all_space(s: Seq<char>) -> bool {
    forall|i: int| 0 <= i < s.len() ==> is_space(#[trigger] s[i])
}

proof fn lemma_trim_start(s: Seq<char>) -> (a: Seq<char>)
    ensures
        s == a + trim_start(s),
        all_space(a),
        trim_start(s).len() > 0 ==> !is_space(trim_start(s)[0]),
    decreases s.len(),
{
    if s.len() > 0 && is_space(s[0]) {
        let b = lemma_trim_start(s.drop_first());
        let a = seq![s[0]] + b;
        let t = s.drop_first();
        assert(s =~= seq![s[0]] + t);
        assert(seq![s[0]] + (b + trim_start(t)) =~= a + trim_start(t));
        assert(all_space(a));
        a
    } else {
        assert(s =~= Seq::<char>::empty() + s);
        Seq::empty()
    }
}

proof fn lemma_trim_end(s: Seq<char>) -> (a: Seq<char>)
    ensures
        s == trim_end(s) + a,
        all_space(a),
        trim_end(s).len() > 0 ==> !is_space(trim_end(s).last()),
    decreases s.len(),
{
    if s.len() > 0 && is_space(s.last()) {
        let b = lemma_trim_end(s.drop_last());
        let a = b.push(s.last());
        let t = s.drop_last();
        assert(s =~= t.push(s.last()));
        assert((trim_end(t) + b).push(s.last()) =~= trim_end(t) + a);
        assert(all_space(a));
        a
    } else {
        assert(s =~= s + Seq::<char>::empty());
        Seq::empty()
    }
}

/// Trimming takes white space away at both ends, all of it and nothing else.
pub proof fn law_trim_takes_outer_space(s: Seq<char>) -> (r: (Seq<char>, Seq<char>))
    ensures
        s == r.0 + trim(s) + r.1,
        all_space(r.0),
        all_space(r.1),
        trim(s).len() > 0 ==> !is_space(trim(s)[0]) && !is_space(trim(s).last()),
{
    let a = lemma_trim_start(s);
    let t = trim_start(s);
    let b = lemma_trim_end(t);
    assert(s =~= a + trim(s) + b);
    if trim(s).len() > 0 {
        assert(t[0] == trim(s)[0]);
    }
    (a, b)
}

/// White space around a text makes no difference once it is trimmed.
pub proof fn law_outer_space_is_no_matter(a: Seq<char>, s: Seq<char>, b: Seq<char>)
    requires
        all_space(a),
        all_space(b),
        s.len() > 0,
        !is_space(s[0]),
        !is_space(s.last()),
    ensures
        trim(a + s + b) == s,
{
    let t = a + s + b;
    let r = law_trim_takes_outer_space(t);
    let (x, m, y) = (r.0, trim(t), r.1);
    let (i, j) = (a.len() as int, a.len() + s.len() - 1);
    assert(t[i] == s[0]);
    assert(t[j] == s[s.len() - 1]);
    assert(t == x + m + y);
    if x.len() > i {
        assert(x[i] == t[i]);
    }
    if t.len() - y.len() <= j {
        assert(y[j - (x.len() + m.len())] == t[j]);
    }
    assert(m.len() > 0);
    let (f, l) = (x.len() as int, x.len() + m.len() - 1);
    assert(t[f] == m[0] && t[l] == m[m.len() - 1]);
    if f < i {
        assert(a[f] == t[f]);
    }
    if l > j {
        assert(b[l - (a.len() + s.len())] == t[l]);
    }
    assert(m =~= t.subrange(f, l + 1));
    assert(s =~= t.subrange(i, j + 1));
}

/// Trimming a character takes it away at that end, as often as it stands there.
pub proof fn law_trim_end_char_takes_trailing(s: Seq<char>, c: char)
    ensures
        trim_end_char(s, c).len() <= s.len(),
        trim_end_char(s, c) == s.take(trim_end_char(s, c).len() as int),
        forall|i: int| trim_end_char(s, c).len() <= i < s.len() ==> #[trigger] s[i] == c,
        trim_end_char(s, c).len() > 0 ==> trim_end_char(s, c).last() != c,
    decreases s.len(),
{
    if s.len() > 0 && s.last() == c {
        let t = s.drop_last();
        law_trim_end_char_takes_trailing(t, c);
        let n = trim_end_char(s, c).len() as int;
        assert(s.take(n) =~= t.take(n));
        assert forall|i: int| n <= i < s.len() implies #[trigger] s[i] == c by {
            if i < t.len() {
                assert(t[i] == c);
            }
        }
    } else {
        assert(s.take(s.len() as int) =~= s);
    }
}

/// Likewise at the start.
pub proof fn law_trim_start_char_takes_leading(s: Seq<char>, c: char)
    ensures
        trim_start_char(s, c).len() <= s.len(),
        trim_start_char(s, c) == s.skip(s.len() - trim_start_char(s, c).len()),
        forall|i: int| 0 <= i < s.len() - trim_start_char(s, c).len() ==> #[trigger] s[i] == c,
        trim_start_char(s, c).len() > 0 ==> trim_start_char(s, c)[0] != c,
    decreases s.len(),
{
    if s.len() > 0 && s[0] == c {
        let t = s.drop_first();
        law_trim_start_char_takes_leading(t, c);
        let r = trim_start_char(s, c);
        assert(s.skip(s.len() - r.len()) =~= t.skip(t.len() - r.len()));
        assert forall|i: int| 0 <= i < s.len() - r.len() implies #[trigger] s[i] == c by {
            if i > 0 {
                assert(t[i - 1] == c);
            }
        }
    } else {
        assert(s.skip(0) =~= s);
    }
}

// ---- parts ------------------------------------------------------------------------------

/// A text splits at the first occurrence of a character, and only where it has one.
pub proof fn law_split_once_at_the_first(a: Seq<char>, c: char, b: Seq<char>)
    requires
        !a.contains(c),
    ensures
        split_once(a + seq![c] + b, c) == Some((a, b)),
        split_once(a, c) is None,
        before(a + seq![c] + b, c) == a,
        before(a, c) == a,
{
    let s = a + seq![c] + b;
    let n = a.len() as int;
    assert forall|j: int| 0 <= j < n implies s[j] != c && a[j] != c by {
        assert(a.contains(a[j]));
    }
    lemma_find_is(s, c, n);
    lemma_find_is(a, c, n);
    assert(s.take(n) =~= a);
    assert(s.skip(n + 1) =~= b);
}

/// A text splits at the last occurrence of a character, and only where it has one.
pub proof fn law_rsplit_once_at_the_last(a: Seq<char>, c: char, b: Seq<char>)
    requires
        !b.contains(c),
    ensures
        rsplit_once(a + seq![c] + b, c) == Some((a, b)),
        rsplit_once(b, c) is None,
{
    let s = a + seq![c] + b;
    let n = a.len() as int;
    lemma_rfind(s, c);
    lemma_rfind(b, c);
    let i = crate::text::rfind(s, c);
    assert(s[n] == c);
    if i > n {
        assert(b[i - n - 1] == c);
    }
    assert(s.take(n) =~= a);
    assert(s.skip(n + 1) =~= b);
    let k = crate::text::rfind(b, c);
    if k >= 0 {
        assert(b[k] == c);
    }
}

/// Texts with a character between them.
pub open spec fn joined(parts: Seq<Seq<char>>, c: char) -> Seq<char>
    decreases parts.len(),
{
    if parts.len() == 0 {
        Seq::empty()
    } else if parts.len() == 1 {
        parts[0]
    } else {
        parts[0] + seq![c] + joined(parts.drop_first(), c)
    }
}

/// Splitting undoes joining: the parts come back, all of them and in order.
pub proof fn law_split_undoes_join(parts: Seq<Seq<char>>, c: char)
    requires
        parts.len() > 0,
        forall|i: int| 0 <= i < parts.len() ==> !(#[trigger] parts[i]).contains(c),
    ensures
        split(joined(parts, c), c) == parts,
    decreases parts.len(),
{
    let p = parts[0];
    assert forall|j: int| 0 <= j < p.len() implies p[j] != c by {
        assert(p.contains(p[j]));
    }
    let s = joined(parts, c);
    let n = p.len() as int;
    if parts.len() == 1 {
        lemma_find_is(s, c, n);
        assert(split(s, c) =~= parts);
    } else {
        let rest = parts.drop_first();
        assert forall|i: int| 0 <= i < rest.len() implies !(#[trigger] rest[i]).contains(c) by {
            assert(rest[i] == parts[i + 1]);
        }
        law_split_undoes_join(rest, c);
        assert forall|j: int| 0 <= j < n implies s[j] != c by {
            assert(s[j] == p[j]);
        }
        lemma_find_is(s, c, n);
        assert(s.take(n) =~= p);
        assert(s.skip(n + 1) =~= joined(rest, c));
        assert(split(s, c) =~= parts);
    }
}

/// A prefix is stripped exactly where the text starts with it.
pub proof fn law_prefixes_are_stripped(prefix: Seq<char>, rest: Seq<char>, s: Seq<char>)
    ensures
        starts_with(prefix + rest, prefix),
        strip_prefix(prefix + rest, prefix) == Some(rest),
        strip_prefix(s, prefix) is Some ==> s == prefix + strip_prefix(s, prefix)->0,
{
    assert((prefix + rest).take(prefix.len() as int) =~= prefix);
    assert((prefix + rest).skip(prefix.len() as int) =~= rest);
    if strip_prefix(s, prefix) is Some {
        assert(s =~= s.take(prefix.len() as int) + s.skip(prefix.len() as int));
    }
}

/// The pattern starts at no position up to that of `n`.
pub open spec fn not_before(s: Seq<char>, pat: Seq<char>, n: int) -> bool {
    forall|j: int| 0 <= j < n ==> !starts_with(#[trigger] s.skip(j), pat)
}

pub proof fn lemma_find_text_is(s: Seq<char>, pat: Seq<char>, n: int)
    requires
        0 <= n < s.len(),
        not_before(s, pat, n),
        starts_with(s.skip(n), pat),
    ensures
        find_text(s, pat) == n,
    decreases n,
{
    assert(s.skip(0) =~= s);
    if n > 0 {
        assert(!starts_with(s.skip(0), pat));
        let t = s.drop_first();
        assert forall|j: int| 0 <= j < n - 1 implies !starts_with(#[trigger] t.skip(j), pat) by {
            assert(t.skip(j) =~= s.skip(j + 1));
        }
        assert(t.skip(n - 1) =~= s.skip(n));
        lemma_find_text_is(t, pat, n - 1);
    }
}

/// A text splits at the first occurrence of a pattern.
pub proof fn law_split_text_at_the_first(a: Seq<char>, pat: Seq<char>, b: Seq<char>)
    requires
        pat.len() > 0,
        not_before(a + pat + b, pat, a.len() as int),
    ensures
        split_text(a + pat + b, pat) == Some((a, b)),
{
    let s = a + pat + b;
    let n = a.len() as int;
    assert(s.skip(n) =~= pat + b);
    assert((pat + b).take(pat.len() as int) =~= pat);
    lemma_find_text_is(s, pat, n);
    assert(s.take(n) =~= a);
    assert(s.skip(n + pat.len()) =~= b);
}

/// Replacing puts the new text in the place of the first occurrence of a pattern and goes
/// on behind it; a text without the pattern stays.
pub proof fn law_replace_replaces(a: Seq<char>, pat: Seq<char>, b: Seq<char>, with: Seq<char>)
    requires
        pat.len() > 0,
    ensures
        not_before(a + pat + b, pat, a.len() as int) ==> replace(a + pat + b, pat, with) == a + with
            + replace(b, pat, with),
        not_before(a, pat, a.len() as int) ==> replace(a, pat, with) == a,
    decreases a.len(),
{
    let s = a + pat + b;
    assert(s.skip(0) =~= s);
    assert(a.skip(0) =~= a);
    if a.len() == 0 {
        assert(s.take(pat.len() as int) =~= pat);
        assert(s.skip(pat.len() as int) =~= b);
        assert(a + with + replace(b, pat, with) =~= with + replace(b, pat, with));
    } else {
        let t = a.drop_first();
        law_replace_replaces(t, pat, b, with);
        assert(s.drop_first() =~= t + pat + b);
        if not_before(s, pat, a.len() as int) {
            assert(!starts_with(s.skip(0), pat));
            assert forall|j: int| 0 <= j < t.len() implies !starts_with(
                #[trigger] (t + pat + b).skip(j),
                pat,
            ) by {
                assert((t + pat + b).skip(j) =~= s.skip(j + 1));
            }
            assert(seq![s[0]] + (t + with + replace(b, pat, with)) =~= a + with + replace(
                b,
                pat,
                with,
            ));
        }
        if not_before(a, pat, a.len() as int) {
            assert(!starts_with(a.skip(0), pat));
            assert forall|j: int| 0 <= j < t.len() implies !starts_with(
                #[trigger] t.skip(j),
                pat,
            ) by {
                assert(t.skip(j) =~= a.skip(j + 1));
            }
            assert(seq![a[0]] + t =~= a);
        }
    }
}

} // verus!
