//! Kubernetes naming helpers. RFC 1123 DNS label: lowercase alphanumeric or `-`,
//! must start and end alphanumeric, at most 63 characters.

use std::collections::hash_map::DefaultHasher;
use std::hash::Hasher;

use vstd::prelude::*;
use vstd::std_specs::hash::DefaultHasherAdditionalSpecFns;
use vstd::string::*;
use vstd::utf8::encode_utf8;

use crate::text;
use crate::text::{is_digit, is_lower, is_upper, lower_char, trim_end_char, trim_start_char};

verus! {

pub const MAX_DNS_LABEL: usize = 63;

// ---- labels -------------------------------------------------------------------

pub open spec fn is_alnum(c: char) -> bool {
    is_lower(c) || is_digit(c)
}

pub open spec fn is_label_char(c: char) -> bool {
    is_alnum(c) || c == '-'
}

/// A valid DNS-1123 label.
pub open spec fn is_label(s: Seq<char>) -> bool {
    &&& 1 <= s.len() <= MAX_DNS_LABEL
    &&& forall|i: int| 0 <= i < s.len() ==> is_label_char(#[trigger] s[i])
    &&& is_alnum(s[0])
    &&& is_alnum(s.last())
}

/// No two dashes in a row.
pub open spec fn single_dashes(s: Seq<char>) -> bool {
    forall|i: int| 0 < i < s.len() ==> (#[trigger] s[i]) != '-' || s[i - 1] != '-'
}

// ---- sanitizing -----------------------------------------------------------------

pub open spec fn clean_char(c: char) -> char {
    if is_upper(c) {
        lower_char(c)
    } else if is_label_char(c) {
        c
    } else {
        '-'
    }
}

pub open spec fn cleaned(s: Seq<char>) -> Seq<char> {
    Seq::new(s.len(), |i: int| clean_char(s[i]))
}

/// Every run of dashes reduced to one.
pub open spec fn collapse(s: Seq<char>) -> Seq<char>
    decreases s.len(),
{
    if s.len() == 0 {
        s
    } else {
        let t = collapse(s.drop_last());
        if s.last() == '-' && t.len() > 0 && t.last() == '-' {
            t
        } else {
            t.push(s.last())
        }
    }
}

/// The sanitized name before any truncation.
pub open spec fn base_label(input: Seq<char>) -> Seq<char> {
    let t = trim_end_char(trim_start_char(collapse(cleaned(input)), '-'), '-');
    if t.len() == 0 {
        "pangolin"@
    } else {
        t
    }
}

pub open spec fn hex_digit(d: int) -> char {
    if d < 10 {
        (48 + d) as char
    } else {
        (87 + d) as char
    }
}

/// Lowercase hexadecimal digits of a natural number.
pub open spec fn hex_text(n: nat) -> Seq<char>
    decreases n,
{
    if n < 16 {
        seq![hex_digit(n as int)]
    } else {
        hex_text(n / 16).push(hex_digit((n % 16) as int))
    }
}

/// The label for a name whose hash is `hash`: the sanitized name, or its head and
/// the hash where it is too long.
pub open spec fn label_with(input: Seq<char>, hash: u32) -> Seq<char> {
    let base = base_label(input);
    if base.len() <= MAX_DNS_LABEL {
        base
    } else {
        let suffix = seq!['-'] + hex_text(hash as nat);
        trim_end_char(base.take(MAX_DNS_LABEL - suffix.len()), '-') + suffix
    }
}

/// The low 32 bits of what a fresh `DefaultHasher` makes of a string: its UTF-8
/// bytes followed by the byte `0xff`.
pub open spec fn name_hash(input: Seq<char>) -> u32 {
    (DefaultHasher::spec_finish(seq![encode_utf8(input), seq![0xffu8]]) & 0xffff_ffff) as u32
}

/// The DNS label made from an arbitrary string.
pub open spec fn label(input: Seq<char>) -> Seq<char> {
    label_with(input, name_hash(input))
}

/// `<prefix>-<name>` as a label.
pub open spec fn prefixed(prefix: Seq<char>, name: Seq<char>) -> Seq<char> {
    label(prefix + seq!['-'] + name)
}

// ---- laws -------------------------------------------------------------------------

proof fn lemma_collapse(s: Seq<char>)
    requires
        forall|i: int| 0 <= i < s.len() ==> is_label_char(#[trigger] s[i]),
    ensures
        single_dashes(collapse(s)),
        forall|i: int| 0 <= i < collapse(s).len() ==> is_label_char(#[trigger] collapse(s)[i]),
    decreases s.len(),
{
    if s.len() > 0 {
        lemma_collapse(s.drop_last());
    }
}

pub proof fn lemma_collapse_keeps(s: Seq<char>)
    requires
        single_dashes(s),
    ensures
        collapse(s) == s,
    decreases s.len(),
{
    if s.len() > 0 {
        let t = s.drop_last();
        assert(single_dashes(t)) by {
            assert forall|i: int| 0 < i < t.len() implies (#[trigger] t[i]) != '-' || t[i - 1]
                != '-' by {
                assert(s[i] != '-' || s[i - 1] != '-');
            }
        }
        lemma_collapse_keeps(t);
        if t.len() > 0 {
            assert(s[s.len() - 1] != '-' || s[s.len() - 2] != '-');
        }
        assert(s =~= t.push(s.last()));
    }
}

proof fn lemma_trim_start(s: Seq<char>)
    ensures
        trim_start_char(s, '-').len() <= s.len(),
        trim_start_char(s, '-') == s.skip(s.len() - trim_start_char(s, '-').len()),
        trim_start_char(s, '-').len() > 0 ==> trim_start_char(s, '-')[0] != '-',
    decreases s.len(),
{
    if s.len() > 0 && s[0] == '-' {
        lemma_trim_start(s.drop_first());
        let t = trim_start_char(s, '-');
        assert(t =~= s.skip(s.len() - t.len()));
    } else {
        assert(s =~= s.skip(0));
    }
}

proof fn lemma_trim_end(s: Seq<char>)
    ensures
        trim_end_char(s, '-').len() <= s.len(),
        trim_end_char(s, '-') == s.take(trim_end_char(s, '-').len() as int),
        trim_end_char(s, '-').len() > 0 ==> trim_end_char(s, '-').last() != '-',
        s.len() > 0 && s[0] != '-' ==> trim_end_char(s, '-').len() > 0,
    decreases s.len(),
{
    if s.len() > 0 && s.last() == '-' {
        lemma_trim_end(s.drop_last());
        let t = trim_end_char(s, '-');
        assert(t =~= s.take(t.len() as int));
    } else {
        assert(s =~= s.take(s.len() as int));
    }
}

/// What `base_label` is made of.
pub proof fn lemma_base(input: Seq<char>)
    ensures
        base_label(input).len() > 0,
        single_dashes(base_label(input)),
        is_alnum(base_label(input)[0]),
        is_alnum(base_label(input).last()),
        forall|i: int|
            0 <= i < base_label(input).len() ==> is_label_char(#[trigger] base_label(input)[i]),
{
    let c = collapse(cleaned(input));
    lemma_collapse(cleaned(input));
    let a = trim_start_char(c, '-');
    lemma_trim_start(c);
    let t = trim_end_char(a, '-');
    lemma_trim_end(a);
    let off = c.len() - a.len();
    assert forall|i: int| 0 <= i < t.len() implies t[i] == c[off + i] by {}
    if t.len() == 0 {
        reveal_strlit("pangolin");
    } else {
        assert(is_label_char(t[0]) && is_label_char(t[t.len() - 1])) by {
            assert(is_label_char(c[off + 0]));
            assert(is_label_char(c[off + t.len() - 1]));
        }
        assert forall|i: int| 0 < i < t.len() implies (#[trigger] t[i]) != '-' || t[i - 1]
            != '-' by {
            assert(c[off + i] != '-' || c[off + i - 1] != '-');
        }
    }
}

proof fn lemma_hex(n: nat)
    ensures
        hex_text(n).len() > 0,
        forall|i: int| 0 <= i < hex_text(n).len() ==> is_alnum(#[trigger] hex_text(n)[i]),
    decreases n,
{
    if n >= 16 {
        lemma_hex(n / 16);
    }
}

pub proof fn lemma_hex_len(n: nat)
    requires
        n < 0x1_0000_0000,
    ensures
        hex_text(n).len() <= 8,
{
    reveal_with_fuel(hex_text, 9);
}

/// Every produced name is a valid DNS-1123 label, and holds no two dashes in a row.
pub proof fn law_label_is_valid(input: Seq<char>, hash: u32)
    ensures
        is_label(label_with(input, hash)),
        single_dashes(label_with(input, hash)),
{
    let base = base_label(input);
    lemma_base(input);
    if base.len() > MAX_DNS_LABEL {
        let hex = hex_text(hash as nat);
        lemma_hex(hash as nat);
        lemma_hex_len(hash as nat);
        let suffix = seq!['-'] + hex;
        let cut = base.take(MAX_DNS_LABEL - suffix.len());
        lemma_trim_end(cut);
        let head = trim_end_char(cut, '-');
        assert(cut[0] == base[0]);
        let out = head + suffix;
        assert(out.last() == hex.last());
        assert(out[0] == head[0]);
        assert forall|i: int| 0 <= i < out.len() implies is_label_char(#[trigger] out[i]) by {
            if i < head.len() {
                assert(out[i] == base[i]);
            } else if i > head.len() {
                assert(out[i] == hex[i - head.len() - 1]);
            }
        }
        assert forall|i: int| 0 < i < out.len() implies (#[trigger] out[i]) != '-' || out[i - 1]
            != '-' by {
            if i < head.len() {
                assert(out[i] == base[i] && out[i - 1] == base[i - 1]);
            } else if i == head.len() {
                assert(out[i - 1] == head.last());
            } else {
                assert(out[i] == hex[i - head.len() - 1]);
            }
        }
    }
}

/// A valid label without double dashes is its own label.
pub proof fn law_label_keeps_labels(s: Seq<char>, hash: u32)
    requires
        is_label(s),
        single_dashes(s),
    ensures
        label_with(s, hash) == s,
{
    assert(cleaned(s) =~= s);
    lemma_collapse_keeps(s);
    lemma_trim_start(s);
    lemma_trim_end(s);
    assert(trim_start_char(s, '-') == s);
    assert(trim_end_char(s, '-') == s);
}

/// Making a label twice is making it once.
pub proof fn law_label_idempotent(input: Seq<char>)
    ensures
        label(label(input)) == label(input),
{
    law_label_is_valid(input, name_hash(input));
    law_label_keeps_labels(label(input), name_hash(label(input)));
}

// ---- functions ----------------------------------------------------------------------

fn base_of(input: &str) -> (r: String)
    ensures
        r@ == base_label(input@),
{
    let v = text::to_chars(input);
    let mut out: Vec<char> = Vec::new();
    let mut i: usize = 0;
    while i < v.len()
        invariant
            i <= v@.len(),
            v@ == input@,
            out@ == collapse(cleaned(v@).take(i as int)),
        decreases v@.len() - i,
    {
        let c = v[i];
        let d = if 'A' <= c && c <= 'Z' {
            text::to_lower_char(c)
        } else if ('a' <= c && c <= 'z') || ('0' <= c && c <= '9') || c == '-' {
            c
        } else {
            '-'
        };
        assert(cleaned(v@).take(i + 1).drop_last() =~= cleaned(v@).take(i as int));
        assert(cleaned(v@).take(i + 1).last() == d);
        let n: usize = out.len();
        if !(d == '-' && n > 0 && out[n - 1] == '-') {
            out.push(d);
        }
        i += 1;
    }
    assert(cleaned(v@).take(i as int) =~= cleaned(v@));
    let collapsed = text::from_chars(&out, 0, out.len());
    assert(collapsed@ =~= out@);
    let trimmed = text::trimmed_end_char(
        text::trimmed_start_char(collapsed.as_str(), '-').as_str(),
        '-',
    );
    if trimmed.as_str().is_empty() {
        "pangolin".to_owned()
    } else {
        trimmed
    }
}

fn hex_digit_char(d: u32) -> (r: char)
    requires
        d < 16,
    ensures
        r == hex_digit(d as int),
{
    if d < 10 {
        (48 + d as u8) as char
    } else {
        (87 + d as u8) as char
    }
}

pub fn hexadecimal(n: u32) -> (r: String)
    ensures
        r@ == hex_text(n as nat),
    decreases n,
{
    if n < 16 {
        let mut out = String::new();
        out.push(hex_digit_char(n));
        assert(out@ =~= hex_text(n as nat));
        out
    } else {
        let mut out = hexadecimal(n / 16);
        out.push(hex_digit_char(n % 16));
        out
    }
}

/// The label for `input`, given the hash to use where it is too long.
pub fn dns_label_with(input: &str, hash: u32) -> (r: String)
    ensures
        r@ == label_with(input@, hash),
        is_label(r@),
{
    let base = base_of(input);
    let v = text::to_chars(base.as_str());
    proof {
        law_label_is_valid(input@, hash);
    }
    if v.len() <= MAX_DNS_LABEL {
        return base;
    }
    proof {
        lemma_hex_len(hash as nat);
    }
    let hex = hexadecimal(hash);
    let digits = text::to_chars(hex.as_str());
    let cut = text::from_chars(&v, 0, MAX_DNS_LABEL - 1 - digits.len());
    let head = text::trimmed_end_char(cut.as_str(), '-');
    let mut out = head;
    out.push('-');
    out.append(hex.as_str());
    assert(cut@ =~= base@.take(MAX_DNS_LABEL - (seq!['-'] + hex@).len()));
    assert(out@ =~= trim_end_char(cut@, '-') + (seq!['-'] + hex@));
    out
}

/// Sanitize an arbitrary string to a DNS-1123 label, keeping a short hash suffix
/// to disambiguate when truncation collides.
pub fn dns_label(input: &str) -> (r: String)
    ensures
        r@ == label(input@),
        is_label(r@),
{
    let mut hasher = DefaultHasher::new();
    hasher.write(input.as_bytes());
    hasher.write(&[0xffu8]);
    let h: u64 = hasher.finish();
    proof {
        assert(hasher@ =~~= seq![encode_utf8(input@), seq![0xffu8]]);
        assert(h & 0xffff_ffff <= 0xffff_ffff) by (bit_vector);
    }
    dns_label_with(input, (h & 0xffff_ffff) as u32)
}

/// Stable composite name: `<prefix>-<sanitized>`, hashed when overlong.
pub fn prefixed_label(prefix: &str, name: &str) -> (r: String)
    ensures
        r@ == prefixed(prefix@, name@),
        is_label(r@),
{
    let mut combined = prefix.to_owned();
    combined.push('-');
    combined.append(name);
    assert(combined@ =~= prefix@ + seq!['-'] + name@);
    dns_label(combined.as_str())
}

} // verus!
