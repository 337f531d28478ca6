//! Content digests.

use vstd::prelude::*;

use crate::engine::rules::{hex_digit, is_digest};

verus! {

/// The BLAKE3 hash of `bytes`, thirty-two bytes long.
pub uninterp spec fn blake3_of(bytes: Seq<u8>) -> Seq<u8>;

/// The lowercase hexadecimal character of a number below sixteen.
pub open spec fn hex_char(n: int) -> char {
    if n < 10 {
        (48 + n) as char
    } else {
        (87 + n) as char
    }
}

/// The lowercase hexadecimal text of `bytes`, two characters for each, the high half first.
pub open spec fn lower_hex(bytes: Seq<u8>) -> Seq<char> {
    Seq::new(
        2 * bytes.len(),
        |i: int|
            if i % 2 == 0 {
                hex_char(bytes[i / 2] as int / 16)
            } else {
                hex_char(bytes[i / 2] as int % 16)
            },
    )
}

/// `blake3::hash` followed by `Hash::to_hex`: the hash of the input, which depends on nothing but
/// its bytes, as lowercase hexadecimal text. The hash is thirty-two bytes long, so the text has
/// sixty-four characters.
#[verifier::external_body]
fn hash_to_hex(bytes: &[u8]) -> (r: String)
    ensures
        r@ == lower_hex(blake3_of(bytes@)),
        r@.len() == 64,
{
    blake3::hash(bytes).to_hex().to_string()
}

/// Hexadecimal text of thirty-two bytes is a digest.
pub proof fn lower_hex_is_digest(bytes: Seq<u8>)
    requires
        bytes.len() == 32,
    ensures
        is_digest(lower_hex(bytes)),
{
    let s = lower_hex(bytes);
    assert forall|i: int| 0 <= i < s.len() implies hex_digit(#[trigger] s[i]) by {
        let b = bytes[i / 2] as int;
        assert(0 <= b / 16 < 16 && 0 <= b % 16 < 16);
    }
}

/// The digest of `bytes`: their BLAKE3 hash as lowercase hexadecimal text.
pub fn digest_of(bytes: &[u8]) -> (r: String)
    ensures
        r@ == lower_hex(blake3_of(bytes@)),
        is_digest(r@),
{
    let r = hash_to_hex(bytes);
    proof {
        lower_hex_is_digest(blake3_of(bytes@));
    }
    r
}

/// Hexadecimal text tells bytes apart, and reads back: two characters stand for each byte, sixteen
/// times the first and once the second.
pub proof fn hexadecimal_reads_back(bytes: Seq<u8>, i: int)
    requires
        0 <= i < bytes.len(),
    ensures
        ({
            let high = lower_hex(bytes)[2 * i];
            let low = lower_hex(bytes)[2 * i + 1];
            bytes[i] == 16 * hex_worth(high) + hex_worth(low)
        }),
{
    let b = bytes[i];
    assert((2 * i) / 2 == i && (2 * i + 1) / 2 == i);
    digit_reads_back(b as int / 16);
    digit_reads_back(b as int % 16);
    byte_is_its_halves(b);
}

/// The number that a lowercase hexadecimal digit stands for.
pub open spec fn hex_worth(c: char) -> int {
    if '0' <= c <= '9' {
        c as u32 - '0' as u32
    } else {
        c as u32 - 'a' as u32 + 10
    }
}

proof fn digit_reads_back(n: int)
    requires
        0 <= n < 16,
    ensures
        hex_worth(hex_char(n)) == n,
{
}

proof fn byte_is_its_halves(b: u8)
    ensures
        b == 16 * (b as int / 16) + b as int % 16,
        0 <= b as int / 16 < 16,
        0 <= b as int % 16 < 16,
{
}

} // verus!
