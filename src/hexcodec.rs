//! Hexadecimal text and the fixed-width values written in it.
use vstd::prelude::*;
use crate::text::{chars_of, string_of, all_hex, all_decimal, hex_digit_value, digit_char, decimal_text, decimal_value};

verus! {

/// The byte written by the two hexadecimal digits `hi` and `lo`.
pub open spec fn byte_of(hi: char, lo: char) -> u8 {
    (hex_digit_value(hi).unwrap_or(0) * 16 + hex_digit_value(lo).unwrap_or(0)) as u8
}

/// The bytes written by an even run of hexadecimal digits, two digits per byte.
pub open spec fn hex_bytes(s: Seq<char>) -> Seq<u8> {
    Seq::new(s.len() / 2, |i: int| byte_of(s[2 * i], s[2 * i + 1]))
}

/// What hex decoding yields: bytes for an even run of hexadecimal digits, nothing otherwise.
pub open spec fn hex_decoded(s: Seq<char>) -> Option<Seq<u8>> {
    if all_hex(s) && s.len() % 2 == 0 {
        Some(hex_bytes(s))
    } else {
        None
    }
}

/// Lowercase hexadecimal text of `b`, two digits per byte.
pub open spec fn hex_encoded(b: Seq<u8>) -> Seq<char>
    decreases b.len(),
{
    if b.len() == 0 {
        Seq::empty()
    } else {
        hex_encoded(b.drop_last()) + seq![
            digit_char((b.last() / 16) as nat),
            digit_char((b.last() % 16) as nat),
        ]
    }
}

/// `s` without a leading `0x`, if it has one.
pub open spec fn strip_0x(s: Seq<char>) -> Seq<char> {
    if s.len() >= 2 && s[0] == '0' && s[1] == 'x' {
        s.skip(2)
    } else {
        s
    }
}

/// Whitespace that hex readers of fixed-width hashes step over.
pub open spec fn is_hex_blank(c: char) -> bool {
    c == ' ' || c == '\r' || c == '\n' || c == '\t'
}

/// The weight of one 64-bit limb.
pub open spec fn limb_base() -> nat {
    0x1_0000_0000_0000_0000
}

/// The value of a 256-bit unsigned integer from its four 64-bit limbs, least significant first.
pub open spec fn u256_value(limbs: Seq<u64>) -> nat {
    limbs[0] as nat + limb_base() * (limbs[1] as nat + limb_base() * (limbs[2] as nat
        + limb_base() * limbs[3] as nat))
}

pub open spec fn u256_bound() -> nat {
    limb_base() * limb_base() * limb_base() * limb_base()
}

/// Relies on hex::encode: two lowercase hexadecimal digits for each byte, in order.
#[verifier::external_body]
pub(crate) fn hex_encode(b: &[u8]) -> (r: String)
    ensures
        r@ == hex_encoded(b@),
{
    hex::encode(b)
}

/// Relies on hex::decode: digits of either case, two per byte; an odd length or any
/// other character is refused.
#[verifier::external_body]
pub(crate) fn hex_decode(s: &str) -> (r: Option<Vec<u8>>)
    ensures
        match r {
            Some(v) => hex_decoded(s@) == Some(v@),
            None => hex_decoded(s@) is None,
        },
{
    hex::decode(s).ok()
}

/// The bytes of an `n`-byte hash written in hex: an optional leading `0x`, blanks anywhere
/// skipped, then exactly `2n` hexadecimal digits of either case.
pub open spec fn fixed_hex(s: Seq<char>, n: nat) -> Option<Seq<u8>> {
    let t = strip_0x(s).filter(|c: char| !is_hex_blank(c));
    if all_hex(t) && t.len() == 2 * n {
        Some(hex_bytes(t))
    } else {
        None
    }
}

/// Relies on H256's FromStr (fixed-hash, with rustc-hex's FromHexIter): strips one leading
/// `0x`, steps over blanks, and takes exactly 64 hexadecimal digits.
#[verifier::external_body]
pub(crate) fn parse_h256(s: &str) -> (r: Option<[u8; 32]>)
    ensures
        match r {
            Some(b) => fixed_hex(s@, 32) == Some(b@),
            None => fixed_hex(s@, 32) is None,
        },
{
    <ethereum_types::H256 as std::str::FromStr>::from_str(s).ok().map(|h| h.0)
}

/// Relies on H160's FromStr (fixed-hash, with rustc-hex's FromHexIter): strips one leading
/// `0x`, steps over blanks, and takes exactly 40 hexadecimal digits.
#[verifier::external_body]
pub(crate) fn parse_h160(s: &str) -> (r: Option<[u8; 20]>)
    ensures
        match r {
            Some(b) => fixed_hex(s@, 20) == Some(b@),
            None => fixed_hex(s@, 20) is None,
        },
{
    <ethereum_types::H160 as std::str::FromStr>::from_str(s).ok().map(|h| h.0)
}

/// Relies on U256::from_dec_str: only decimal digits (none reads as zero), refused when the
/// value does not fit 256 bits; the result as four limbs, least significant first.
#[verifier::external_body]
pub(crate) fn parse_u256_decimal(s: &str) -> (r: Option<[u64; 4]>)
    ensures
        match r {
            Some(l) => all_decimal(s@) && decimal_value(s@) < u256_bound() && u256_value(l@)
                == decimal_value(s@),
            None => !(all_decimal(s@) && decimal_value(s@) < u256_bound()),
        },
{
    ethereum_types::U256::from_dec_str(s).ok().map(|v| v.0)
}

/// Relies on U256's Display: the decimal digits of the value, without leading zeros.
#[verifier::external_body]
pub(crate) fn u256_decimal(limbs: [u64; 4]) -> (r: String)
    ensures
        r@ == decimal_text(u256_value(limbs@)),
{
    ethereum_types::U256(limbs).to_string()
}

/// The bytes written as hex text after the first two characters of `s` (its `0x`).
pub open spec fn hex_after_prefix(s: Seq<char>) -> Option<Seq<u8>> {
    if s.len() >= 2 {
        hex_decoded(s.skip(2))
    } else {
        None
    }
}

/// Decodes the hex text that follows the first two characters of `s`.
pub fn decode_hex_after_prefix(s: &str) -> (r: Option<Vec<u8>>)
    ensures
        match r {
            Some(v) => hex_after_prefix(s@) == Some(v@),
            None => hex_after_prefix(s@) is None,
        },
{
    let chars = chars_of(s);
    if chars.len() < 2 {
        return None;
    }
    let rest = string_of(&slice_from(&chars, 2));
    proof {
        assert(s@.skip(2) =~= rest@);
    }
    hex_decode(rest.as_str())
}

/// Decodes hex text after an optional `0x`.
pub fn decode_hex_optional_prefix(s: &str) -> (r: Option<Vec<u8>>)
    ensures
        match r {
            Some(v) => hex_decoded(strip_0x(s@)) == Some(v@),
            None => hex_decoded(strip_0x(s@)) is None,
        },
{
    let chars = chars_of(s);
    let body = if chars.len() >= 2 && chars[0] == '0' && chars[1] == 'x' {
        string_of(&slice_from(&chars, 2))
    } else {
        string_of(&chars)
    };
    proof {
        assert(body@ =~= strip_0x(s@));
    }
    hex_decode(body.as_str())
}

/// The characters of `v` from position `from` on.
pub fn slice_from(v: &Vec<char>, from: usize) -> (r: Vec<char>)
    requires
        from <= v@.len(),
    ensures
        r@ == v@.skip(from as int),
{
    let mut out: Vec<char> = Vec::new();
    let mut i: usize = from;
    while i < v.len()
        invariant
            from <= i <= v@.len(),
            out@ == v@.subrange(from as int, i as int),
        decreases v@.len() - i,
    {
        out.push(v[i]);
        proof {
            assert(v@.subrange(from as int, i + 1) =~= v@.subrange(from as int, i as int).push(
                v@[i as int],
            ));
        }
        i = i + 1;
    }
    proof {
        assert(v@.subrange(from as int, i as int) =~= v@.skip(from as int));
    }
    out
}

} // verus!
