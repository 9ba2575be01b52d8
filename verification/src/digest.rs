//! Digests of response bodies.

use sha2::Digest;
use vstd::prelude::*;
use vstd::string::*;

use crate::ip::hex_digit_value;
use crate::transform::naming::hex_digit;

verus! {

/// Two lowercase hexadecimal digits for each byte.
pub open spec fn hex_of(bytes: Seq<u8>) -> Seq<char> {
    Seq::new(
        2 * bytes.len(),
        |i: int|
            if i % 2 == 0 {
                hex_digit(bytes[i / 2] as int / 16)
            } else {
                hex_digit(bytes[i / 2] as int % 16)
            },
    )
}

/// `hex::encode`: two lowercase hexadecimal digits for each byte, the high half first.
#[verifier::external_body]
fn hex_encode(bytes: &Vec<u8>) -> (r: String)
    ensures
        r@ == hex_of(bytes@),
{
    hex::encode(bytes)
}

/// The SHA-256 digest of bytes.
pub uninterp spec fn sha256_of(bytes: Seq<u8>) -> Seq<u8>;

/// `sha2::Sha256::digest`. The result depends on the bytes alone and holds 32 bytes;
/// the algorithm is left unsaid.
#[verifier::external_body]
fn sha256(bytes: &Vec<u8>) -> (r: Vec<u8>)
    ensures
        r@ == sha256_of(bytes@),
        r@.len() == 32,
{
    sha2::Sha256::digest(bytes).to_vec()
}

/// The text form of a digest.
pub fn digest_text(digest: &Vec<u8>) -> (r: String)
    ensures
        r@ == hex_of(digest@),
{
    hex_encode(digest)
}

/// SHA-256 of a body, in hexadecimal.
pub fn body_digest(body: &Vec<u8>) -> (r: String)
    ensures
        r@ == hex_of(sha256_of(body@)),
        r@.len() == 64,
{
    let digest = sha256(body);
    digest_text(&digest)
}

/// The hexadecimal text of bytes reads back, byte for byte, and holds no capitals.
pub proof fn law_digests_read_back(bytes: Seq<u8>, i: int)
    requires
        0 <= i < bytes.len(),
    ensures
        hex_of(bytes).len() == 2 * bytes.len(),
        bytes[i] == 16 * hex_digit_value(hex_of(bytes)[2 * i]) + hex_digit_value(
            hex_of(bytes)[2 * i + 1],
        ),
        ({
            let (a, b) = (hex_of(bytes)[2 * i], hex_of(bytes)[2 * i + 1]);
            &&& ('0' <= a && a <= '9') || ('a' <= a && a <= 'f')
            &&& ('0' <= b && b <= '9') || ('a' <= b && b <= 'f')
        }),
{
    let h = hex_of(bytes);
    assert((2 * i) % 2 == 0 && (2 * i) / 2 == i);
    assert((2 * i + 1) % 2 == 1 && (2 * i + 1) / 2 == i);
    assert(h[2 * i] == hex_digit(bytes[i] as int / 16));
    assert(h[2 * i + 1] == hex_digit(bytes[i] as int % 16));
}

} // verus!
