//! SHA-256 digests and hexadecimal text.

use vstd::prelude::*;

verus! {

/// The SHA-256 digest of a byte string, as the `sha2` crate computes it.
pub uninterp spec fn sha256_of(bytes: Seq<u8>) -> Seq<u8>;

/// Calls `sha2::Sha256::digest`. The contract names the digest, which depends on
/// the bytes alone, and states its length.
#[verifier::external_body]
pub(crate) fn sha256(bytes: &[u8]) -> (digest: Vec<u8>)
    ensures
        digest@ == sha256_of(bytes@),
        digest@.len() == 32,
{
    <sha2::Sha256 as sha2::Digest>::digest(bytes).to_vec()
}

/// The lower-case hexadecimal digit for a value below sixteen.
pub open spec fn hex_digit(value: int) -> char {
    if value < 10 {
        (48 + value) as char
    } else {
        (87 + value) as char
    }
}

/// Two lower-case hexadecimal digits for each byte, the high half first.
pub open spec fn hex_of(bytes: Seq<u8>) -> Seq<char> {
    Seq::new(
        2 * bytes.len(),
        |i: int|
            if i % 2 == 0 {
                hex_digit(bytes[i / 2] as int / 16)
            } else {
                hex_digit(bytes[i / 2] as int % 16)
            },
    )
}

pub fn digit(value: u8) -> (c: char)
    requires
        value < 16,
    ensures
        c == hex_digit(value as int),
{
    if value < 10 {
        (48 + value) as char
    } else {
        (87 + value) as char
    }
}

pub fn hex(bytes: &[u8]) -> (text: String)
    ensures
        text@ == hex_of(bytes@),
{
    let mut text = String::new();
    for i in 0..bytes.len()
        invariant
            text@ == hex_of(bytes@.take(i as int)),
    {
        text.push(digit(bytes[i] / 16));
        text.push(digit(bytes[i] % 16));
        proof {
            let next = bytes@.take(i + 1);
            assert(next.len() == i + 1);
            assert forall|j: int| 0 <= j < 2 * i implies hex_of(bytes@.take(i as int))[j] == hex_of(
                next,
            )[j] by {
                assert(bytes@.take(i as int)[j / 2] == next[j / 2]);
            }
            assert(text@ =~= hex_of(next));
        }
    }
    proof {
        assert(bytes@.take(bytes@.len() as int) =~= bytes@);
    }
    text
}

/// The lower-case hexadecimal SHA-256 digest of a text's UTF-8 bytes.
pub fn sha256_hex(text: &str) -> (hash: String)
    ensures
        hash@ == hex_of(sha256_of(vstd::utf8::encode_utf8(text@))),
        hash@.len() == 64,
{
    hex(sha256(text.as_bytes()).as_slice())
}

/// Different byte strings of one length have different hexadecimal texts.
pub proof fn hex_injective(a: Seq<u8>, b: Seq<u8>)
    ensures
        hex_of(a) == hex_of(b) ==> a == b,
{
    if hex_of(a) == hex_of(b) {
        assert(hex_of(a).len() == 2 * a.len());
        assert(hex_of(b).len() == 2 * b.len());
        assert forall|i: int| 0 <= i < a.len() implies a[i] == b[i] by {
            assert(hex_of(a)[2 * i] == hex_digit(a[i] as int / 16));
            assert(hex_of(b)[2 * i] == hex_digit(b[i] as int / 16));
            assert(hex_of(a)[2 * i + 1] == hex_digit(a[i] as int % 16));
            assert(hex_of(b)[2 * i + 1] == hex_digit(b[i] as int % 16));
        }
        assert(a =~= b);
    }
}

} // verus!
