//! Which duration texts can be read.

use vstd::prelude::*;

use crate::duration::{overflows, readable, summed, too_large, unit_nanos, with_digit, Reading};
use crate::text::{dec, digit, is_digit};

verus! {

/// The nanoseconds of each unit, by how its name starts: nanoseconds, microseconds,
/// milliseconds, seconds, minutes, hours, days, weeks, months of 30.44 days and years of
/// 365.25 days.
pub proof fn law_units(s: Seq<char>)
    requires
        s.len() > 0,
    ensures
        s[0] == 'n' ==> unit_nanos(s) == Some(1nat),
        s[0] == 'u' || s[0] == 'µ' ==> unit_nanos(s) == Some(1_000nat),
        s.len() > 1 && s[0] == 'm' && s[1] == 's' ==> unit_nanos(s) == Some(1_000_000nat),
        s[0] == 's' ==> unit_nanos(s) == Some(1_000_000_000nat),
        s.len() == 1 && s[0] == 'm' ==> unit_nanos(s) == Some((60 * 1_000_000_000) as nat),
        s[0] == 'h' ==> unit_nanos(s) == Some((3_600 * 1_000_000_000) as nat),
        s[0] == 'd' ==> unit_nanos(s) == Some((24 * 3_600 * 1_000_000_000) as nat),
        s[0] == 'w' ==> unit_nanos(s) == Some((7 * 24 * 3_600 * 1_000_000_000) as nat),
        s[0] == 'M' ==> 100 * unit_nanos(s)->0 == 3_044 * 24 * 3_600 * 1_000_000_000,
        s[0] == 'y' ==> 100 * unit_nanos(s)->0 == 36_525 * 24 * 3_600 * 1_000_000_000,
{
}

proof fn lemma_digits(n: nat, rest: Seq<char>, sum: nat)
    ensures
        n < too_large() ==> overflows(dec(n) + rest, summed(sum)) == overflows(
            rest,
            Reading { begun: true, whole: n, ..summed(sum) },
        ),
        n >= too_large() ==> !overflows(dec(n) + rest, summed(sum)),
    decreases n,
{
    let s = dec(n) + rest;
    if n < 10 {
        let c = digit(n as int);
        assert(dec(n) =~= seq![c]);
        assert(s[0] == c);
        assert(is_digit(c));
        assert(s.drop_first() =~= rest);
        assert(with_digit(summed(sum), c) == (Reading { begun: true, whole: n, ..summed(sum) }));
    } else {
        let c = digit((n % 10) as int);
        let tail = seq![c] + rest;
        lemma_digits(n / 10, tail, sum);
        assert(s =~= dec(n / 10) + tail);
        let r = Reading { begun: true, whole: n / 10, ..summed(sum) };
        assert(tail[0] == c);
        assert(is_digit(c));
        assert(tail.drop_first() =~= rest);
        assert(with_digit(r, c) == (Reading { begun: true, whole: n, ..summed(sum) }));
    }
}

/// A span is its number times its unit. Behind a sum of spans, it overflows exactly when its
/// unit is below the second, it is no longer than a second, and it takes the sum to 2^64
/// seconds; otherwise reading goes on with the greater sum, and ends where that is too large.
pub proof fn law_spans_add_up(sum: nat, n: nat, rest: Seq<char>)
    requires
        n < 0x1_0000_0000_0000_0000,
        rest.len() > 0,
        unit_nanos(rest) is Some,
    ensures
        ({
            let span = n * unit_nanos(rest)->0;
            let full = 0x1_0000_0000_0000_0000 * 1_000_000_000;
            let hit = unit_nanos(rest)->0 < 1_000_000_000 && span <= 1_000_000_000 && sum + span
                == full;
            overflows(dec(n) + rest, summed(sum)) <==> hit || (sum + span < full && overflows(
                rest.drop_first(),
                summed(sum + span),
            ))
        }),
{
    lemma_digits(n, rest, sum);
}

/// A single span is always readable, and so is a text without digits.
pub proof fn law_single_spans_are_readable(n: nat, name: Seq<char>)
    requires
        forall|i: int| 0 <= i < name.len() ==> !is_digit(#[trigger] name[i]) && name[i] != '.',
    ensures
        readable(name),
        name.len() > 0 && (name[0] == 's' || name[0] == 'm' && name.len() == 1 || name[0] == 'h'
            || name[0] == 'd' || name[0] == 'w' || name[0] == 'y') ==> readable(dec(n) + name),
        readable(dec(n)),
{
    lemma_no_digits(name, 0);
    let none = Seq::<char>::empty();
    assert(dec(n) + none =~= dec(n));
    lemma_digits(n, none, 0);
    lemma_digits(n, name, 0);
    if name.len() > 0 {
        let rest = name.drop_first();
        assert forall|i: int| 0 <= i < rest.len() implies !is_digit(#[trigger] rest[i]) by {
            assert(rest[i] == name[i + 1]);
        }
        if unit_nanos(name) is Some {
            lemma_no_digits(rest, n * unit_nanos(name)->0);
            if n < 0x1_0000_0000_0000_0000 {
                law_spans_add_up(0, n, name);
            }
        }
    }
}

proof fn lemma_no_digits(s: Seq<char>, sum: nat)
    requires
        forall|i: int| 0 <= i < s.len() ==> !is_digit(#[trigger] s[i]),
    ensures
        !overflows(s, summed(sum)),
    decreases s.len(),
{
    if s.len() > 0 {
        assert(!is_digit(s[0]));
        let t = s.drop_first();
        assert forall|i: int| 0 <= i < t.len() implies !is_digit(#[trigger] t[i]) by {
            assert(t[i] == s[i + 1]);
        }
        lemma_no_digits(t, sum);
    }
}

} // verus!
