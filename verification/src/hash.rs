//! The short, stable hash that names atomic rules.
use vstd::prelude::*;
use vstd::string::StringSliceAdditionalSpecFns;

verus! {

/// The 32-bit MurmurHash2 of `data` under `seed`, read little-endian on
/// every machine.
pub uninterp spec fn murmur2_hash(data: Seq<u8>, seed: u32) -> u32;

/// The digit that stands for `d` in base 36: `0` to `9`, then `a` to `z`.
pub open spec fn base36_digit(d: nat) -> char {
    if d < 10 {
        (d + 48) as u8 as char
    } else {
        (d + 87) as u8 as char
    }
}

/// The numeral of `n` in base 36, most significant digit first, without
/// leading zeros; `0` is the numeral of zero.
pub open spec fn base36(n: nat) -> Seq<char>
    decreases n,
{
    if n < 36 {
        seq![base36_digit(n)]
    } else {
        base36(n / 36).push(base36_digit(n % 36))
    }
}

/// The name that `create_hash` gives to the text `value`.
pub open spec fn hash_text(value: Seq<char>) -> Seq<char> {
    base36(murmur2_hash(vstd::utf8::encode_utf8(value), 1) as nat)
}

/// `murmur2::murmur2`, the endianness-independent MurmurHash2: the result
/// is a function of the bytes and the seed alone.
#[verifier::external_body]
fn murmur2_of(data: &[u8], seed: u32) -> (h: u32)
    ensures
        h == murmur2_hash(data@, seed),
{
    murmur2::murmur2(data, seed)
}

/// `radix_fmt::radix` with base 36, shown without the alternate flag: the
/// lower-case base-36 numeral of `n`.
#[verifier::external_body]
fn radix_36(n: u32) -> (s: String)
    ensures
        s@ == base36(n as nat),
{
    radix_fmt::radix(n, 36).to_string()
}

/// Hashes a text to a short name: the base-36 numeral of the MurmurHash2,
/// seed 1, of its UTF-8 bytes.
pub fn create_hash(value: &str) -> (name: String)
    ensures
        name@ == hash_text(value@),
{
    let h = murmur2_of(value.as_bytes(), 1);
    radix_36(h)
}

} // verus!
