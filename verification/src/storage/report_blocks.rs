//! Hexadecimal text for the raw report bytes kept in the campaign store.
use crate::text::{decimal, push_char, push_decimal_u64, push_str};
use vstd::prelude::*;
use vstd::string::StringSliceAdditionalSpecFns;

verus! {

/// Upper-case hexadecimal digit for `d` (0..=15), as an ASCII code.
pub open spec fn hex_upper(d: int) -> u8 {
    if d < 10 {
        (48 + d) as u8
    } else {
        (55 + d) as u8
    }
}

/// Two upper-case hexadecimal digits per byte.
pub open spec fn hex_text(b: Seq<u8>) -> Seq<char>
    decreases b.len(),
{
    if b.len() == 0 {
        Seq::empty()
    } else {
        hex_text(b.drop_last()) + seq![
            hex_upper(b.last() as int / 16) as char,
            hex_upper(b.last() as int % 16) as char,
        ]
    }
}

fn hex_digit(d: u8) -> (c: char)
    requires
        d < 16,
    ensures
        c == hex_upper(d as int) as char,
{
    if d < 10 {
        (48 + d) as char
    } else {
        (55 + d) as char
    }
}

/// Writes bytes as upper-case hexadecimal text, two digits per byte.
pub fn encode_hex(bytes: &[u8]) -> (r: String)
    ensures
        r@ == hex_text(bytes@),
{
    let mut out = String::new();
    let mut i: usize = 0;
    while i < bytes.len()
        invariant
            i <= bytes@.len(),
            out@ == hex_text(bytes@.take(i as int)),
        decreases bytes@.len() - i,
    {
        let b = bytes[i];
        proof {
            assert(b >> 4 == b / 16) by (bit_vector);
            assert(b & 0x0F == b % 16) by (bit_vector);
            assert(bytes@.take(i + 1).drop_last() =~= bytes@.take(i as int));
        }
        push_char(&mut out, hex_digit(b >> 4));
        push_char(&mut out, hex_digit(b & 0x0F));
        i = i + 1;
        assert(out@ =~= hex_text(bytes@.take(i as int)));
    }
    assert(bytes@.take(i as int) =~= bytes@);
    out
}

/// The value of a hexadecimal digit (either case), if `c` is one.
pub open spec fn nibble(c: u8) -> Option<u8> {
    if 48 <= c <= 57 {
        Some((c - 48) as u8)
    } else if 97 <= c <= 102 {
        Some((c - 97 + 10) as u8)
    } else if 65 <= c <= 70 {
        Some((c - 65 + 10) as u8)
    } else {
        None
    }
}

/// The value of hexadecimal digit `byte`, if it is one.
pub fn decode_hex_nibble(byte: u8) -> (r: Option<u8>)
    ensures
        r == nibble(byte),
{
    if 48 <= byte && byte <= 57 {
        Some(byte - 48)
    } else if 97 <= byte && byte <= 102 {
        Some(byte - 97 + 10)
    } else if 65 <= byte && byte <= 70 {
        Some(byte - 65 + 10)
    } else {
        None
    }
}

/// `"invalid hex character at offset <k>"`.
pub open spec fn bad_hex_at(k: nat) -> Seq<char> {
    "invalid hex character at offset "@ + decimal(k)
}

/// The first `k` digit pairs of `text` read as bytes, or the first bad
/// digit's offset.
pub open spec fn decode_pairs(text: Seq<u8>, k: int) -> Result<Seq<u8>, Seq<char>>
    decreases k,
{
    if k <= 0 {
        Ok(Seq::empty())
    } else {
        match decode_pairs(text, k - 1) {
            Err(e) => Err(e),
            Ok(v) => match nibble(text[2 * (k - 1)]) {
                None => Err(bad_hex_at((2 * (k - 1)) as nat)),
                Some(hi) => match nibble(text[2 * (k - 1) + 1]) {
                    None => Err(bad_hex_at((2 * (k - 1) + 1) as nat)),
                    Some(lo) => Ok(v.push((hi * 16 + lo) as u8)),
                },
            },
        }
    }
}

/// Hexadecimal text read back as bytes: an odd length is refused, else the
/// first character that is not a hexadecimal digit.
pub open spec fn decode_hex_text(text: Seq<u8>) -> Result<Seq<u8>, Seq<char>> {
    if text.len() % 2 != 0 {
        Err("hex text length must be even"@)
    } else {
        decode_pairs(text, text.len() as int / 2)
    }
}

fn bad_offset(idx: usize) -> (e: String)
    ensures
        e@ == bad_hex_at(idx as nat),
{
    let mut m = String::new();
    push_str(&mut m, "invalid hex character at offset ");
    push_decimal_u64(&mut m, idx as u64);
    assert(m@ =~= bad_hex_at(idx as nat));
    m
}

/// Reads hexadecimal text (either case) back as bytes.
pub fn decode_hex(text: &str) -> (r: Result<Vec<u8>, String>)
    ensures
        match decode_hex_text(text.spec_bytes()) {
            Ok(v) => r matches Ok(out) && out@ == v,
            Err(m) => r matches Err(e) && e@ == m,
        },
{
    let bytes = text.as_bytes();
    if bytes.len() % 2 != 0 {
        let mut m = String::new();
        push_str(&mut m, "hex text length must be even");
        assert(m@ =~= "hex text length must be even"@);
        return Err(m);
    }
    let pairs = bytes.len() / 2;
    let mut out: Vec<u8> = Vec::new();
    let mut k: usize = 0;
    while k < pairs
        invariant
            k <= pairs,
            pairs == bytes@.len() / 2,
            bytes@.len() % 2 == 0,
            bytes@ == text.spec_bytes(),
            decode_pairs(bytes@, k as int) == Ok::<Seq<u8>, Seq<char>>(out@),
        decreases pairs - k,
    {
        assert(2 * k + 1 < bytes.len());
        let idx = k + k;
        let hi = match decode_hex_nibble(bytes[idx]) {
            Some(v) => v,
            None => {
                proof {
                    lemma_pairs_err_stays(bytes@, k + 1, pairs as int);
                }
                return Err(bad_offset(idx));
            },
        };
        let lo = match decode_hex_nibble(bytes[idx + 1]) {
            Some(v) => v,
            None => {
                proof {
                    lemma_pairs_err_stays(bytes@, k + 1, pairs as int);
                }
                return Err(bad_offset(idx + 1));
            },
        };
        let byte = (hi << 4) | lo;
        assert(byte == hi * 16 + lo) by (bit_vector)
            requires
                hi < 16,
                lo < 16,
                byte == (hi << 4) | lo,
        ;
        out.push(byte);
        k = k + 1;
    }
    Ok(out)
}

proof fn lemma_pairs_err_stays(text: Seq<u8>, a: int, b: int)
    requires
        0 <= a <= b,
        decode_pairs(text, a) is Err,
    ensures
        decode_pairs(text, b) == decode_pairs(text, a),
    decreases b - a,
{
    if b > a {
        lemma_pairs_err_stays(text, a, b - 1);
    }
}

/// ASCII codes of a text's characters.
pub open spec fn ascii_codes(s: Seq<char>) -> Seq<u8> {
    s.map_values(|c: char| c as u8)
}

proof fn lemma_hex_text_len(b: Seq<u8>)
    ensures
        hex_text(b).len() == 2 * b.len(),
    decreases b.len(),
{
    if b.len() > 0 {
        lemma_hex_text_len(b.drop_last());
    }
}

/// Hexadecimal text read back gives the bytes that were written.
pub proof fn lemma_decode_encode_hex(b: Seq<u8>)
    ensures
        decode_hex_text(ascii_codes(hex_text(b))) == Ok::<Seq<u8>, Seq<char>>(b),
    decreases b.len(),
{
    lemma_hex_text_len(b);
    lemma_decode_prefix(b, b.len() as int);
    assert(b.take(b.len() as int) =~= b);
}

proof fn lemma_decode_prefix(b: Seq<u8>, k: int)
    requires
        0 <= k <= b.len(),
    ensures
        decode_pairs(ascii_codes(hex_text(b)), k) == Ok::<Seq<u8>, Seq<char>>(b.take(k)),
    decreases k,
{
    lemma_hex_text_len(b);
    if k == 0 {
        assert(b.take(0) =~= Seq::<u8>::empty());
    } else {
        lemma_decode_prefix(b, k - 1);
        let t = ascii_codes(hex_text(b));
        lemma_hex_text_at(b, k - 1);
        let x = b[k - 1];
        assert(t[2 * (k - 1)] == hex_upper(x as int / 16));
        assert(t[2 * (k - 1) + 1] == hex_upper(x as int % 16));
        assert(nibble(hex_upper(x as int / 16)) == Some((x as int / 16) as u8));
        assert(nibble(hex_upper(x as int % 16)) == Some((x as int % 16) as u8));
        assert((x as int / 16) * 16 + x as int % 16 == x);
        assert(b.take(k - 1).push(x) =~= b.take(k));
    }
}

proof fn lemma_hex_text_at(b: Seq<u8>, j: int)
    requires
        0 <= j < b.len(),
    ensures
        hex_text(b).len() == 2 * b.len(),
        hex_text(b)[2 * j] == hex_upper(b[j] as int / 16) as char,
        hex_text(b)[2 * j + 1] == hex_upper(b[j] as int % 16) as char,
    decreases b.len(),
{
    lemma_hex_text_len(b);
    lemma_hex_text_len(b.drop_last());
    if j < b.len() - 1 {
        lemma_hex_text_at(b.drop_last(), j);
    }
}

} // verus!
