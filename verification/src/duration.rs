//! Spans of time.

use vstd::prelude::*;
use vstd::string::*;

use crate::text;
use crate::text::{is_alpha, is_digit};

verus! {

/// A span of time: whole seconds and the nanoseconds of the last one.
#[derive(Debug, Clone, Copy, PartialEq, Eq, Structural)]
pub struct Duration {
    pub secs: u64,
    pub nanos: u32,
}

pub open spec fn nanos_per_sec() -> int {
    1_000_000_000
}

impl Duration {
    /// The span in nanoseconds.
    pub open spec fn total(&self) -> int {
        self.secs * nanos_per_sec() + self.nanos
    }

    pub open spec fn valid(&self) -> bool {
        self.nanos < nanos_per_sec()
    }

    pub fn from_secs(secs: u64) -> (r: Duration)
        ensures
            r.secs == secs,
            r.nanos == 0,
    {
        Duration { secs, nanos: 0 }
    }

    /// Whether this span is shorter than another.
    pub fn shorter_than(&self, other: &Duration) -> (r: bool)
        requires
            self.valid(),
            other.valid(),
        ensures
            r == (self.total() < other.total()),
    {
        self.secs < other.secs || (self.secs == other.secs && self.nanos < other.nanos)
    }

    /// Twice the span.
    pub fn doubled(&self) -> (r: Duration)
        requires
            self.valid(),
            2 * self.total() < (u64::MAX + 1) * nanos_per_sec(),
        ensures
            r.valid(),
            r.total() == 2 * self.total(),
    {
        let n: u32 = 2 * self.nanos;
        if n >= 1_000_000_000 {
            Duration { secs: self.secs * 2 + 1, nanos: n - 1_000_000_000 }
        } else {
            Duration { secs: self.secs * 2, nanos: n }
        }
    }
}

/// A letter of a unit's name.
pub open spec fn is_unit_letter(c: char) -> bool {
    is_alpha(c) || c == 'µ'
}

/// The nanoseconds of the unit whose name starts a text.
pub open spec fn unit_nanos(s: Seq<char>) -> Option<nat> {
    let c = s[0];
    if c == 'n' {
        Some(1)
    } else if c == 'u' || c == 'µ' {
        Some(1_000)
    } else if c == 'm' && s.len() > 1 && (s[1] == 's' || (s[1] == 'i' && s.len() > 2 && s[2]
        == 'l')) {
        Some(1_000_000)
    } else if c == 's' {
        Some(1_000_000_000)
    } else if c == 'M' || (c == 'm' && s.len() > 1 && s[1] == 'o') {
        Some(2_630_016_000_000_000)
    } else if c == 'm' {
        Some(60_000_000_000)
    } else if c == 'h' {
        Some(3_600_000_000_000)
    } else if c == 'd' {
        Some(86_400_000_000_000)
    } else if c == 'w' {
        Some(604_800_000_000_000)
    } else if c == 'y' {
        Some(31_557_600_000_000_000)
    } else {
        None
    }
}

/// One more than the numbers that are read, and than the whole seconds of a `Duration`.
pub open spec fn too_large() -> nat {
    0x1_0000_0000_0000_0000
}

/// One second more than the whole seconds that a `Duration` holds, in nanoseconds.
pub open spec fn full_sum() -> nat {
    too_large() * 1_000_000_000
}

/// What was read of a text: the sum of its spans in nanoseconds, and the number of the
/// span that was begun, with its fraction.
pub struct Reading {
    pub sum: nat,
    pub begun: bool,
    pub whole: nat,
    pub fraction: bool,
    pub numerator: nat,
    pub denominator: nat,
}

pub open spec fn summed(sum: nat) -> Reading {
    Reading { sum, begun: false, whole: 0, fraction: false, numerator: 0, denominator: 1 }
}

pub open spec fn with_digit(r: Reading, c: char) -> Reading {
    let d = (c as int - '0' as int) as nat;
    if r.fraction {
        Reading {
            numerator: 10 * r.numerator + d,
            denominator: 10 * r.denominator,
            ..r
        }
    } else {
        Reading { begun: true, whole: 10 * r.whole + d, ..r }
    }
}

/// The fraction of a span, in nanoseconds.
pub open spec fn fraction_nanos(r: Reading, unit: nat) -> nat {
    if r.fraction {
        r.numerator * unit / r.denominator
    } else {
        0
    }
}

/// Adding a part that is counted in nanoseconds overflows `Duration::new`: the nanoseconds
/// come to exactly one second when the seconds are full.
pub open spec fn overflows_by(sum: nat, part: nat) -> bool {
    part <= 1_000_000_000 && sum + part == full_sum()
}

/// Adding a span overflows. Whole numbers are counted in nanoseconds for units below the
/// second, fractions for minutes and seconds too.
pub open spec fn span_overflows(r: Reading, unit: nat) -> bool {
    let sum = r.sum + r.whole * unit;
    ||| unit < 1_000_000_000 && overflows_by(r.sum, r.whole * unit)
    ||| unit <= 60_000_000_000 && sum < full_sum() && r.fraction && overflows_by(
        sum,
        fraction_nanos(r, unit),
    )
}

/// Adding up the spans of the rest of a text overflows. Reading ends early at a number
/// that is too large, at a unit that is not known and at a sum that is too large.
pub open spec fn overflows(s: Seq<char>, r: Reading) -> bool
    decreases s.len(),
{
    if s.len() == 0 {
        false
    } else {
        let c = s[0];
        let rest = s.drop_first();
        if is_digit(c) {
            let t = with_digit(r, c);
            t.whole < too_large() && t.numerator < too_large() && t.denominator < too_large()
                && overflows(rest, t)
        } else if is_unit_letter(c) && r.begun {
            match unit_nanos(s) {
                Some(unit) => {
                    let sum = r.sum + r.whole * unit + fraction_nanos(r, unit);
                    span_overflows(r, unit) || (sum < full_sum() && overflows(rest, summed(sum)))
                },
                None => false,
            }
        } else if c == '.' && r.begun {
            overflows(
                rest,
                Reading { fraction: true, numerator: 0, denominator: 1, ..r },
            )
        } else {
            overflows(rest, r)
        }
    }
}

/// A text that can be read as a duration: adding up its spans does not overflow.
pub open spec fn readable(s: Seq<char>) -> bool {
    !overflows(s, summed(0))
}

fn is_letter(c: char) -> (r: bool)
    ensures
        r == is_unit_letter(c),
{
    ('a' <= c && c <= 'z') || ('A' <= c && c <= 'Z') || c == 'µ'
}

fn unit_at(chars: &Vec<char>, i: usize) -> (r: Option<u128>)
    requires
        i < chars@.len(),
    ensures
        match r {
            Some(u) => unit_nanos(chars@.skip(i as int)) == Some(u as nat) && 1 <= u
                <= 31_557_600_000_000_000,
            None => unit_nanos(chars@.skip(i as int)) is None,
        },
{
    let c = chars[i];
    let left: usize = chars.len() - i;
    let ghost s = chars@.skip(i as int);
    assert(s[0] == c);
    assert(left > 1 ==> s[1] == chars@[i + 1]);
    assert(left > 2 ==> s[2] == chars@[i + 2]);
    if c == 'n' {
        Some(1)
    } else if c == 'u' || c == 'µ' {
        Some(1_000)
    } else if c == 'm' && left > 1 && (chars[i + 1] == 's' || (chars[i + 1] == 'i' && left > 2
        && chars[i + 2] == 'l')) {
        Some(1_000_000)
    } else if c == 's' {
        Some(1_000_000_000)
    } else if c == 'M' || (c == 'm' && left > 1 && chars[i + 1] == 'o') {
        Some(2_630_016_000_000_000)
    } else if c == 'm' {
        Some(60_000_000_000)
    } else if c == 'h' {
        Some(3_600_000_000_000)
    } else if c == 'd' {
        Some(86_400_000_000_000)
    } else if c == 'w' {
        Some(604_800_000_000_000)
    } else if c == 'y' {
        Some(31_557_600_000_000_000)
    } else {
        None
    }
}

/// Whether a text can be read as a duration.
pub fn is_readable(s: &str) -> (r: bool)
    ensures
        r == readable(s@),
{
    let chars = text::to_chars(s);
    let large: u128 = 0x1_0000_0000_0000_0000;
    let full: u128 = 0x1_0000_0000_0000_0000 * 1_000_000_000;
    let mut sum: u128 = 0;
    let mut begun = false;
    let mut whole: u128 = 0;
    let mut fraction = false;
    let mut numerator: u128 = 0;
    let mut denominator: u128 = 1;
    let mut i: usize = 0;
    assert(chars@.skip(0) =~= s@);
    while i < chars.len()
        invariant
            chars@ == s@,
            large == too_large(),
            full == full_sum(),
            full == 18_446_744_073_709_551_616_000_000_000,
            i <= chars@.len(),
            sum < full,
            whole < large,
            numerator < large,
            1 <= denominator < large,
            readable(s@) == !overflows(
                chars@.skip(i as int),
                (Reading {
                    sum: sum as nat,
                    begun,
                    whole: whole as nat,
                    fraction,
                    numerator: numerator as nat,
                    denominator: denominator as nat,
                }),
            ),
        decreases chars@.len() - i,
    {
        let c = chars[i];
        let ghost here = chars@.skip(i as int);
        assert(here.drop_first() =~= chars@.skip(i + 1));
        assert(here[0] == c);
        if '0' <= c && c <= '9' {
            let d: u128 = c as u128 - '0' as u128;
            if fraction {
                numerator = 10 * numerator + d;
                denominator = 10 * denominator;
            } else {
                begun = true;
                whole = 10 * whole + d;
            }
            if whole >= large || numerator >= large || denominator >= large {
                return true;
            }
        } else if is_letter(c) && begun {
            match unit_at(&chars, i) {
                Some(unit) => {
                    proof {
                        lemma_product(whole as nat, unit as nat);
                        lemma_product(numerator as nat, unit as nat);
                    }
                    let all: u128 = whole * unit;
                    let part: u128 = if fraction {
                        numerator * unit / denominator
                    } else {
                        0
                    };
                    assert(part <= numerator * unit) by (nonlinear_arith)
                        requires
                            denominator >= 1,
                            part == 0 || part == (numerator * unit) as int / denominator as int,
                            numerator * unit >= 0,
                    ;
                    if unit < 1_000_000_000 && all <= 1_000_000_000 && sum + all == full {
                        return false;
                    }
                    if sum + all >= full {
                        return true;
                    }
                    if unit <= 60_000_000_000 && fraction && part <= 1_000_000_000 && sum + all
                        + part == full {
                        return false;
                    }
                    if sum + all + part >= full {
                        return true;
                    }
                    sum = sum + all + part;
                    begun = false;
                    whole = 0;
                    fraction = false;
                    numerator = 0;
                    denominator = 1;
                },
                None => {
                    return true;
                },
            }
        } else if c == '.' && begun {
            fraction = true;
            numerator = 0;
            denominator = 1;
        }
        i += 1;
    }
    true
}

proof fn lemma_product(n: nat, unit: nat)
    requires
        n < too_large(),
        unit <= 31_557_600_000_000_000,
    ensures
        0 <= n * unit < 600_000_000_000_000_000_000_000_000_000_000_000,
{
    assert(n * unit <= 0x1_0000_0000_0000_0000 * 31_557_600_000_000_000) by (nonlinear_arith)
        requires
            n < 0x1_0000_0000_0000_0000,
            unit <= 31_557_600_000_000_000,
    ;
    assert(n * unit >= 0) by (nonlinear_arith);
}

/// What `humantime::parse_duration` makes of a text, as seconds and nanoseconds:
/// nothing where it refuses it.
pub uninterp spec fn duration_of(s: Seq<char>) -> Option<(u64, u32)>;

/// `humantime::parse_duration`, with the result read out by `as_secs` and
/// `subsec_nanos`. The result depends on the text alone, and its nanoseconds are less
/// than a second; how a text is read is left unsaid. The sum of its spans is built up by
/// `Duration::new`, which panics where that sum comes to one second more than a
/// `Duration` holds by nanoseconds that are exactly a second.
#[verifier::external_body]
fn read_duration(s: &str) -> (r: Option<(u64, u32)>)
    requires
        readable(s@),
    ensures
        r == duration_of(s@),
        r matches Some(d) ==> d.1 < 1_000_000_000,
{
    match humantime::parse_duration(s) {
        Ok(d) => Some((d.as_secs(), d.subsec_nanos())),
        Err(_) => None,
    }
}

pub fn parse_duration(s: &str) -> (r: Option<Duration>)
    requires
        readable(s@),
    ensures
        match r {
            Some(d) => duration_of(s@) == Some((d.secs, d.nanos)) && d.valid(),
            None => duration_of(s@) is None,
        },
{
    match read_duration(s) {
        Some((secs, nanos)) => Some(Duration { secs, nanos }),
        None => None,
    }
}

} // verus!
