//! Hexadecimal text of file contents, as draft snapshots store them.

use vstd::prelude::*;
use crate::error::StaircaseError;
use crate::text::{owned, substring, to_chars};

verus! {

/// The lowercase hexadecimal digit of `d` (below 16).
pub open spec fn hex_digit(d: nat) -> char {
    if d < 10 { (('0' as nat) + d) as char } else { (('a' as nat) + d - 10) as char }
}

/// The two lowercase hexadecimal digits of each byte, in order.
pub open spec fn spec_hex(bytes: Seq<u8>) -> Seq<char>
    decreases bytes.len(),
{
    if bytes.len() == 0 {
        seq![]
    } else {
        spec_hex(bytes.drop_last()) + seq![hex_digit(bytes.last() as nat / 16), hex_digit(bytes.last() as nat % 16)]
    }
}

/// Whether `c` is a hexadecimal digit, in either case.
pub open spec fn is_hex_digit(c: char) -> bool {
    ('0' <= c && c <= '9') || ('a' <= c && c <= 'f') || ('A' <= c && c <= 'F')
}

/// The value of a hexadecimal digit.
pub open spec fn hex_value(c: char) -> nat {
    if '0' <= c && c <= '9' {
        (c as nat - '0' as nat) as nat
    } else if 'a' <= c && c <= 'f' {
        (c as nat - 'a' as nat + 10) as nat
    } else {
        (c as nat - 'A' as nat + 10) as nat
    }
}

/// Whether `text` is hexadecimal text of whole bytes: an even number of digits.
pub open spec fn is_hex_text(text: Seq<char>) -> bool {
    text.len() % 2 == 0 && forall|i: int| 0 <= i < text.len() ==> is_hex_digit(#[trigger] text[i])
}

/// The byte that digits `2i` and `2i + 1` of `text` stand for.
pub open spec fn byte_at(text: Seq<char>, i: int) -> nat {
    16 * hex_value(text[2 * i]) + hex_value(text[2 * i + 1])
}

/// The message for text that is not hexadecimal.
pub open spec fn bad_hex_message() -> Seq<char> {
    "invalid hexadecimal content"@
}

/// The digit of `d`.
fn digit_text(d: u8) -> (r: String)
    requires
        d < 16,
    ensures
        r@ == seq![hex_digit(d as nat)],
{
    let digits = "0123456789abcdef";
    proof {
        reveal_strlit("0123456789abcdef");
    }
    let r = substring(digits, d as usize, d as usize + 1);
    proof {
        assert(r@ =~= seq![hex_digit(d as nat)]);
    }
    r
}

/// The hexadecimal text of `bytes` (see [`spec_hex`]).
pub fn hex_encode(bytes: &[u8]) -> (r: String)
    ensures
        r@ == spec_hex(bytes@),
{
    let mut out = String::new();
    let mut i: usize = 0;
    proof {
        assert(bytes@.take(0) =~= seq![]);
    }
    while i < bytes.len()
        invariant
            i <= bytes@.len(),
            out@ == spec_hex(bytes@.take(i as int)),
        decreases bytes@.len() - i,
    {
        let b = bytes[i];
        let high = digit_text(b / 16);
        let low = digit_text(b % 16);
        out.append(high.as_str());
        out.append(low.as_str());
        proof {
            let t = bytes@.take(i + 1);
            assert(t.drop_last() =~= bytes@.take(i as int));
            assert(t.last() == b);
            assert(out@ =~= spec_hex(t));
        }
        i += 1;
    }
    proof {
        assert(bytes@.take(bytes@.len() as int) =~= bytes@);
    }
    out
}

/// The value of a hexadecimal digit, when `c` is one.
fn digit_value(c: char) -> (r: Option<u8>)
    ensures
        r is Some <==> is_hex_digit(c),
        r matches Some(v) ==> v as nat == hex_value(c) && v < 16,
{
    if '0' <= c && c <= '9' {
        Some((c as u32 - '0' as u32) as u8)
    } else if 'a' <= c && c <= 'f' {
        Some((c as u32 - 'a' as u32 + 10) as u8)
    } else if 'A' <= c && c <= 'F' {
        Some((c as u32 - 'A' as u32 + 10) as u8)
    } else {
        None
    }
}

/// The bytes that hexadecimal `text` stands for, two digits (in either
/// case) a byte; an error unless it is hexadecimal text of whole bytes.
pub fn hex_decode(text: &str) -> (r: Result<Vec<u8>, StaircaseError>)
    ensures
        r is Ok <==> is_hex_text(text@),
        r matches Ok(v) ==> v@.len() * 2 == text@.len() && forall|i: int| 0 <= i < v@.len() ==> v@[i] as nat == byte_at(text@, i),
        r matches Err(e) ==> (e matches StaircaseError::Other(m) && m@ == bad_hex_message()),
{
    let chars = to_chars(text);
    let n = chars.len();
    if n % 2 != 0 {
        return Err(StaircaseError::Other(owned("invalid hexadecimal content")));
    }
    let mut out: Vec<u8> = Vec::new();
    let mut i: usize = 0;
    while i < n / 2
        invariant
            chars@ == text@,
            n == chars@.len(),
            n % 2 == 0,
            i <= n / 2,
            out@.len() == i,
            forall|j: int| 0 <= j < 2 * i ==> is_hex_digit(#[trigger] text@[j]),
            forall|j: int| 0 <= j < i ==> out@[j] as nat == byte_at(text@, j),
        decreases n / 2 - i,
    {
        let hi = digit_value(chars[2 * i]);
        let lo = digit_value(chars[2 * i + 1]);
        match (hi, lo) {
            (Some(h), Some(l)) => {
                out.push(h * 16 + l);
            },
            _ => {
                return Err(StaircaseError::Other(owned("invalid hexadecimal content")));
            },
        }
        i += 1;
    }
    Ok(out)
}

/// Hexadecimal text reads back as the bytes it was written from: the text
/// of any bytes is hexadecimal text of whole bytes, and each pair of its
/// digits stands for the byte it came from.
pub proof fn law_hex_round_trip(bytes: Seq<u8>)
    ensures
        is_hex_text(spec_hex(bytes)),
        spec_hex(bytes).len() == 2 * bytes.len(),
        forall|i: int| 0 <= i < bytes.len() ==> byte_at(spec_hex(bytes), i) == bytes[i] as nat,
    decreases bytes.len(),
{
    if bytes.len() > 0 {
        let front = bytes.drop_last();
        law_hex_round_trip(front);
        let h = spec_hex(bytes);
        let hf = spec_hex(front);
        let b = bytes.last() as nat;
        assert(h == hf + seq![hex_digit(b / 16), hex_digit(b % 16)]);
        assert forall|i: int| 0 <= i < bytes.len() implies byte_at(h, i) == bytes[i] as nat by {
            if i < front.len() {
                assert(h[2 * i] == hf[2 * i]);
                assert(h[2 * i + 1] == hf[2 * i + 1]);
                assert(front[i] == bytes[i]);
            } else {
                assert(h[2 * i] == hex_digit(b / 16));
                assert(h[2 * i + 1] == hex_digit(b % 16));
            }
        }
        assert forall|i: int| 0 <= i < h.len() implies is_hex_digit(#[trigger] h[i]) by {
            if i < hf.len() {
                assert(h[i] == hf[i]);
            }
        }
    }
}

} // verus!
