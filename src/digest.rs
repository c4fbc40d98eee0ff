use vstd::prelude::*;

use sha2::Digest;
use vstd::string::StringSliceAdditionalSpecFns;

verus! {

/// The lower-case hexadecimal digit for `n`, where `0 <= n < 16`.
pub open spec fn hex_digit(n: int) -> char {
    if n < 10 {
        (n + 48) as char
    } else {
        (n + 87) as char
    }
}

/// Two lower-case hexadecimal digits for each byte, high half first.
pub open spec fn hex_lower(b: Seq<u8>) -> Seq<char>
    decreases b.len(),
{
    if b.len() == 0 {
        seq![]
    } else {
        seq![hex_digit(b[0] as int / 16), hex_digit(b[0] as int % 16)] + hex_lower(b.drop_first())
    }
}

/// The value of a hexadecimal digit in either case.
pub open spec fn hex_digit_value(c: char) -> Option<int> {
    let v = c as int;
    if 48 <= v <= 57 {
        Some(v - 48)
    } else if 97 <= v <= 102 {
        Some(v - 87)
    } else if 65 <= v <= 70 {
        Some(v - 55)
    } else {
        None
    }
}

/// The bytes that a string of hexadecimal digit pairs spells, or `None` where
/// its length is odd or it holds a character that is no hexadecimal digit.
pub open spec fn hex_decoded(s: Seq<char>) -> Option<Seq<u8>>
    decreases s.len(),
{
    if s.len() == 0 {
        Some(seq![])
    } else if s.len() == 1 {
        None
    } else {
        match (hex_digit_value(s[0]), hex_digit_value(s[1]), hex_decoded(s.subrange(2, s.len() as int))) {
            (Some(h), Some(l), Some(rest)) => Some(seq![(h * 16 + l) as u8] + rest),
            _ => None,
        }
    }
}

pub proof fn lemma_hex_lower_len(b: Seq<u8>)
    ensures
        hex_lower(b).len() == 2 * b.len(),
    decreases b.len(),
{
    if b.len() > 0 {
        lemma_hex_lower_len(b.drop_first());
    }
}

/// Decoding what `hex_lower` wrote gives the bytes back.
pub proof fn lemma_hex_round_trip(b: Seq<u8>)
    ensures
        hex_decoded(hex_lower(b)) == Some(b),
    decreases b.len(),
{
    if b.len() > 0 {
        let s = hex_lower(b);
        let (h, l) = (b[0] as int / 16, b[0] as int % 16);
        lemma_hex_lower_len(b.drop_first());
        assert(s.subrange(2, s.len() as int) =~= hex_lower(b.drop_first()));
        lemma_hex_round_trip(b.drop_first());
        assert(hex_digit_value(hex_digit(h as int)) == Some(h as int));
        assert(hex_digit_value(hex_digit(l as int)) == Some(l as int));
        assert(((h * 16 + l) as u8) == b[0]);
        assert(seq![b[0]] + b.drop_first() =~= b);
    }
}

/// Relies on `hex::encode`: two lower-case digits for each byte, high half first.
#[verifier::external_body]
pub(crate) fn hex_encode(b: &[u8]) -> (r: String)
    ensures
        r@ == hex_lower(b@),
{
    hex::encode(b)
}

/// Relies on `hex::decode`: digit pairs of either case to bytes; an odd length
/// or any other character is refused.
#[verifier::external_body]
pub(crate) fn hex_decode(s: &str) -> (r: Option<Vec<u8>>)
    ensures
        r matches Some(v) ==> hex_decoded(s@) == Some(v@),
        r is None ==> hex_decoded(s@) is None,
{
    hex::decode(s).ok()
}

/// The SHA-256 digest of `data`.
pub uninterp spec fn sha256_of(data: Seq<u8>) -> Seq<u8>;

/// Relies on `sha2::Sha256::digest`: the 32-byte SHA-256 digest of `data`.
#[verifier::external_body]
pub(crate) fn sha256(data: &[u8]) -> (r: Vec<u8>)
    ensures
        r@ == sha256_of(data@),
        r@.len() == 32,
{
    sha2::Sha256::digest(data).to_vec()
}

/// The 32-byte Argon2id hash of the UTF-8 bytes of `secret` under `salt`, with
/// the argon2 crate's default parameters.
pub uninterp spec fn argon2id_of(secret: Seq<char>, salt: Seq<u8>) -> Seq<u8>;

/// Relies on `argon2::Argon2::hash_password_into` with `Argon2::default()`
/// (Argon2id, version 0x13, 19 MiB of memory, two passes, one lane) and the
/// crate's default output length of 32 bytes. Its source fails only on a
/// password or salt over `u32::MAX` bytes, a salt under 8 bytes, or an output
/// length outside 4..=64 for this path; `requires` rules those out.
#[verifier::external_body]
pub(crate) fn argon2id(secret: &str, salt: &[u8]) -> (r: Vec<u8>)
    requires
        secret.spec_bytes().len() <= 0xffff_ffff,
        8 <= salt@.len() <= 0xffff_ffff,
    ensures
        r@ == argon2id_of(secret@, salt@),
        r@.len() == 32,
{
    let mut out = vec![0u8; argon2::Params::DEFAULT_OUTPUT_LEN];
    let _ = argon2::Argon2::default().hash_password_into(secret.as_bytes(), salt, &mut out);
    out
}

} // verus!
