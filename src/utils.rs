//! Format conversions on quantities, hashes and call data.
use vstd::prelude::*;
use crate::hexcodec::{hex_decode, hex_decoded, hex_encode, hex_encoded, strip_0x};
use crate::text::{
    all_hex, chars_of, contains, contains_chars, decimal_text, digits_of, hex_digit_value,
    hex_text, hex_value, is_hex_digit, string_of,
};

verus! {

/// The value of a hex quantity as it is written after its first two characters (its `0x`):
/// an optional `+`, then one or more hexadecimal digits of either case whose value fits 64
/// bits.
pub open spec fn hex_quantity(s: Seq<char>) -> Option<u64> {
    if s.len() < 2 {
        None
    } else {
        let body = s.skip(2);
        let digits = if body.len() > 0 && body[0] == '+' { body.skip(1) } else { body };
        if digits.len() > 0 && all_hex(digits) && hex_value(digits) <= u64::MAX {
            Some(hex_value(digits) as u64)
        } else {
            None
        }
    }
}

proof fn lemma_hex_value_grows(s: Seq<char>, i: int, k: int)
    requires
        0 <= i <= k <= s.len(),
    ensures
        hex_value(s.take(i)) <= hex_value(s.take(k)),
    decreases k - i,
{
    if i < k {
        lemma_hex_value_grows(s, i, k - 1);
        assert(s.take(k).drop_last() =~= s.take(k - 1));
    }
}

/// The value of a hex quantity such as `0xff`. `None` when the text after the first two
/// characters is not a hex number that fits 64 bits.
pub fn hex_to_decimal(hex: String) -> (r: Option<u64>)
    ensures
        r == hex_quantity(hex@),
{
    let chars = chars_of(hex.as_str());
    if chars.len() < 2 {
        return None;
    }
    let mut start: usize = 2;
    if chars.len() > 2 && chars[2] == '+' {
        start = 3;
    }
    let ghost body = hex@.skip(2);
    let ghost digits = if body.len() > 0 && body[0] == '+' { body.skip(1) } else { body };
    proof {
        assert(digits =~= hex@.skip(start as int));
    }
    if start >= chars.len() {
        return None;
    }
    let mut value: u64 = 0;
    let mut i: usize = start;
    while i < chars.len()
        invariant
            start <= i <= chars@.len(),
            chars@ == hex@,
            digits == hex@.skip(start as int),
            hex@.len() >= 2,
            body == hex@.skip(2),
            digits == (if body.len() > 0 && body[0] == '+' { body.skip(1) } else { body }),
            digits.len() > 0,
            forall|k: int| 0 <= k < i - start ==> is_hex_digit(#[trigger] digits[k]),
            value as nat == hex_value(digits.take(i - start)),
        decreases chars@.len() - i,
    {
        let c = chars[i];
        let d: u64 = if '0' <= c && c <= '9' {
            (c as u32 - '0' as u32) as u64
        } else if 'a' <= c && c <= 'f' {
            (c as u32 - 'a' as u32 + 10) as u64
        } else if 'A' <= c && c <= 'F' {
            (c as u32 - 'A' as u32 + 10) as u64
        } else {
            proof {
                assert(digits[i - start] == c);
                assert(!is_hex_digit(digits[i - start]));
                assert(!all_hex(digits));
            }
            return None;
        };
        proof {
            assert(digits.take(i - start + 1).drop_last() =~= digits.take(i - start));
            assert(digits.take(i - start + 1).last() == c);
            assert(digits[i - start] == c);
            assert(hex_digit_value(c) == Some(d as nat));
            assert(hex_value(digits.take(i - start + 1)) == value * 16 + d);
        }
        if value > (u64::MAX - d) / 16 {
            proof {
                assert(value * 16 + d > u64::MAX) by (nonlinear_arith)
                    requires
                        value > (u64::MAX - d) / 16,
                        d < 16,
                ;
                lemma_hex_value_grows(digits, i - start + 1, digits.len() as int);
                assert(digits.take(digits.len() as int) =~= digits);
            }
            return None;
        }
        value = value * 16 + d;
        i = i + 1;
    }
    proof {
        assert(digits.take(i - start) =~= digits);
    }
    Some(value)
}

/// `0x` followed by the lowercase hex digits of `decimal`, without leading zeros.
pub fn decimal_to_hex(decimal: u64) -> (r: String)
    ensures
        r@ == "0x"@ + hex_text(decimal as nat),
{
    let mut out = "0x".to_string();
    let digits = string_of(&digits_of(decimal, 16));
    out.append(digits.as_str());
    out
}

/// `0x` followed by the last `to_len` characters of `hex`.
pub fn shorten_hex(hex: &str, to_len: u32) -> (r: String)
    requires
        to_len <= hex@.len(),
    ensures
        r@ == "0x"@ + hex@.skip(hex@.len() - to_len),
{
    let chars = chars_of(hex);
    let from: usize = chars.len() - to_len as usize;
    let tail = string_of(&crate::hexcodec::slice_from(&chars, from));
    let mut out = "0x".to_string();
    out.append(tail.as_str());
    out
}

/// The selector that call data starts with: its first four bytes.
pub open spec fn method_hash(input: Seq<char>) -> Option<Seq<char>> {
    match hex_decoded(strip_0x(input)) {
        Some(b) if b.len() >= 4 => Some("0x"@ + hex_encoded(b.take(4))),
        _ => None,
    }
}

/// The selector of call data (an optional `0x`, then hex), written as `0x` and eight hex
/// digits. `None` when the data is not hex or holds fewer than four bytes.
pub fn util_get_method_hash(input: String) -> (r: Option<String>)
    ensures
        match method_hash(input@) {
            Some(h) => r matches Some(s) && s@ == h,
            None => r is None,
        },
{
    let bytes = match crate::hexcodec::decode_hex_optional_prefix(input.as_str()) {
        Some(b) => b,
        None => {
            return None;
        },
    };
    if bytes.len() < 4 {
        return None;
    }
    let sel: [u8; 4] = [bytes[0], bytes[1], bytes[2], bytes[3]];
    proof {
        assert(sel@ =~= bytes@.take(4));
    }
    let mut out = "0x".to_string();
    let digits = hex_encode(&sel);
    out.append(digits.as_str());
    Some(out)
}

/// The block numbers from `start` up to, not including, `end`.
pub fn util_get_list_blocks_range(start: u64, end: u64) -> (r: Vec<u64>)
    ensures
        r@.len() == (if start < end { end - start } else { 0 }),
        forall|i: int| 0 <= i < r@.len() ==> #[trigger] r@[i] == start + i,
{
    let mut blocks: Vec<u64> = Vec::new();
    let mut n: u64 = start;
    while n < end
        invariant
            start <= n,
            n <= end || start >= end,
            start < end ==> n <= end,
            start >= end ==> n == start,
            blocks@.len() == n - start,
            forall|i: int| 0 <= i < blocks@.len() ==> #[trigger] blocks@[i] == start + i,
        decreases end - n,
    {
        blocks.push(n);
        n = n + 1;
    }
    blocks
}

/// A timeout in seconds written for a command line, such as `30s`.
pub fn get_timeout_string(timeout: u64) -> (r: String)
    ensures
        r@ == decimal_text(timeout as nat) + "s"@,
{
    let mut out = string_of(&digits_of(timeout, 10));
    out.append("s");
    out
}

/// `args` followed by the timeout and API address options.
pub fn make_cmd_args(args: Vec<String>, api_multiaddr: String, timeout_sec: u64) -> (r: Vec<String>)
    ensures
        r@.len() == args@.len() + 4,
        forall|i: int| 0 <= i < args@.len() ==> #[trigger] r@[i] == args@[i],
        r@[args@.len() as int]@ == "--timeout"@,
        r@[args@.len() as int + 1]@ == decimal_text(timeout_sec as nat) + "s"@,
        r@[args@.len() as int + 2]@ == "--api"@,
        r@[args@.len() as int + 3] == api_multiaddr,
{
    let mut out = args;
    out.push("--timeout".to_string());
    out.push(get_timeout_string(timeout_sec));
    out.push("--api".to_string());
    out.push(api_multiaddr);
    out
}

/// Whether `s` starts with `p`.
pub open spec fn starts_with(s: Seq<char>, p: Seq<char>) -> bool {
    p.len() <= s.len() && s.take(p.len() as int) == p
}

fn has_prefix(s: &str, p: &str) -> (r: bool)
    ensures
        r == starts_with(s@, p@),
{
    let sc = chars_of(s);
    let pc = chars_of(p);
    if pc.len() > sc.len() {
        return false;
    }
    let mut i: usize = 0;
    while i < pc.len()
        invariant
            sc@ == s@,
            pc@ == p@,
            pc@.len() <= sc@.len(),
            i <= pc@.len(),
            forall|k: int| 0 <= k < i ==> sc@[k] == pc@[k],
        decreases pc@.len() - i,
    {
        if sc[i] != pc[i] {
            proof {
                assert(s@.take(p@.len() as int)[i as int] != p@[i as int]);
            }
            return false;
        }
        i = i + 1;
    }
    proof {
        assert(s@.take(p@.len() as int) =~= p@);
    }
    true
}

/// Whether a metadata link is empty or points into the nft.storage gateway.
pub fn is_nft_storage_link(link: &str) -> (r: bool)
    ensures
        r == (link@.len() == 0 || starts_with(link@, "https://nftstorage.link/ipfs/"@)),
{
    link.is_empty() || has_prefix(link, "https://nftstorage.link/ipfs/")
}

/// Whether a content identifier is empty or an IPFS path.
pub fn is_ipfs_cid(cid: &str) -> (r: bool)
    ensures
        r == (cid@.len() == 0 || starts_with(cid@, "/ipfs/"@)),
{
    cid.is_empty() || has_prefix(cid, "/ipfs/")
}

/// Whether `text` holds a word of the blocked list. The list is empty, so no text is.
pub fn is_profane(text: &str) -> (r: bool)
    ensures
        !r,
{
    let words: Vec<&str> = vec!["", ""];
    proof {
        reveal_strlit("");
    }
    let t = chars_of(text);
    let mut i: usize = 0;
    while i < words.len()
        invariant
            i <= words@.len(),
            forall|k: int| 0 <= k < words@.len() ==> (#[trigger] words@[k])@.len() == 0,
        decreases words@.len() - i,
    {
        let w = chars_of(words[i]);
        if w.len() > 0 && contains_chars(&t, &w) {
            return true;
        }
        i = i + 1;
    }
    false
}

/// Relies on String::from_utf8: the text that valid UTF-8 bytes encode.
#[verifier::external_body]
fn utf8_string(b: Vec<u8>) -> (r: Option<String>)
    ensures
        match r {
            Some(s) => vstd::utf8::valid_utf8(b@) && s@ == vstd::utf8::decode_utf8(b@),
            None => !vstd::utf8::valid_utf8(b@),
        },
{
    String::from_utf8(b).ok()
}

/// `s` without its leading NUL characters.
pub open spec fn trim_start_nul(s: Seq<char>) -> Seq<char>
    decreases s.len(),
{
    if s.len() > 0 && s[0] == '\0' {
        trim_start_nul(s.skip(1))
    } else {
        s
    }
}

/// `s` without its trailing NUL characters.
pub open spec fn trim_end_nul(s: Seq<char>) -> Seq<char>
    decreases s.len(),
{
    if s.len() > 0 && s.last() == '\0' {
        trim_end_nul(s.drop_last())
    } else {
        s
    }
}

/// A decoded text without blanks and backslashes, and without NULs at either end.
pub open spec fn cleaned_text(s: Seq<char>) -> Seq<char> {
    trim_start_nul(trim_end_nul(s.filter(|c: char| c != ' ' && c != '\\')))
}

/// The text that hex-encoded UTF-8 bytes (after a two-character `0x`) spell, with blanks and
/// backslashes removed and NULs trimmed from both ends. `None` when the text is not hex or
/// the bytes are not UTF-8.
pub fn hex_to_string(hex: String) -> (r: Option<String>)
    ensures
        match crate::hexcodec::hex_after_prefix(hex@) {
            Some(b) => if vstd::utf8::valid_utf8(b) {
                r matches Some(s) && s@ == cleaned_text(vstd::utf8::decode_utf8(b))
            } else {
                r is None
            },
            None => r is None,
        },
{
    let bytes = crate::hexcodec::decode_hex_after_prefix(hex.as_str())?;
    let text = utf8_string(bytes)?;
    let chars = chars_of(text.as_str());
    let ghost keep = |c: char| c != ' ' && c != '\\';
    let mut kept: Vec<char> = Vec::new();
    let mut i: usize = 0;
    while i < chars.len()
        invariant
            i <= chars@.len(),
            keep == (|c: char| c != ' ' && c != '\\'),
            kept@ == chars@.take(i as int).filter(keep),
        decreases chars@.len() - i,
    {
        proof {
            assert(chars@.take(i + 1) =~= chars@.take(i as int).push(chars@[i as int]));
            chars@.take(i as int).lemma_filter_push(chars@[i as int], keep);
        }
        if chars[i] != ' ' && chars[i] != '\\' {
            kept.push(chars[i]);
        }
        i = i + 1;
    }
    proof {
        assert(chars@.take(i as int) =~= chars@);
    }
    let mut end: usize = kept.len();
    proof {
        assert(kept@.take(end as int) =~= kept@);
    }
    while end > 0 && kept[end - 1] == '\0'
        invariant
            end <= kept@.len(),
            trim_end_nul(kept@) == trim_end_nul(kept@.take(end as int)),
        decreases end,
    {
        proof {
            assert(kept@.take(end as int).drop_last() =~= kept@.take(end - 1));
        }
        end = end - 1;
    }
    let mut start: usize = 0;
    proof {
        assert(kept@.subrange(0, end as int) =~= kept@.take(end as int));
    }
    while start < end && kept[start] == '\0'
        invariant
            start <= end <= kept@.len(),
            trim_start_nul(trim_end_nul(kept@)) == trim_start_nul(kept@.subrange(start as int, end as int)),
        decreases end - start,
    {
        proof {
            assert(kept@.subrange(start as int, end as int).skip(1) =~= kept@.subrange(start + 1, end as int));
        }
        start = start + 1;
    }
    let mut out: Vec<char> = Vec::new();
    let mut k: usize = start;
    while k < end
        invariant
            start <= k <= end <= kept@.len(),
            out@ == kept@.subrange(start as int, k as int),
        decreases end - k,
    {
        out.push(kept[k]);
        proof {
            assert(kept@.subrange(start as int, k + 1) =~= kept@.subrange(start as int, k as int).push(kept@[k as int]));
        }
        k = k + 1;
    }
    Some(string_of(&out))
}

} // verus!
