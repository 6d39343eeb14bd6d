//! Text on the wire: UTF-8 strings and the hexadecimal form of identifiers.

use vstd::prelude::*;
use vstd::utf8::{decode_utf8, encode_utf8, valid_utf8};

verus! {

/// `String::from_utf8`: the string that the bytes spell, or nothing when
/// they are not valid UTF-8. The error that the standard library returns is
/// dropped here.
#[verifier::external_body]
pub(crate) fn string_from_utf8(bytes: Vec<u8>) -> (r: Option<String>)
    ensures
        r is Some <==> valid_utf8(bytes@),
        r matches Some(s) ==> s@ == decode_utf8(bytes@),
{
    match String::from_utf8(bytes) {
        Ok(s) => Some(s),
        Err(_) => None,
    }
}

/// The lowercase hexadecimal digit for a number below sixteen.
pub open spec fn hex_digit(d: nat) -> char {
    if d == 0 {
        '0'
    } else if d == 1 {
        '1'
    } else if d == 2 {
        '2'
    } else if d == 3 {
        '3'
    } else if d == 4 {
        '4'
    } else if d == 5 {
        '5'
    } else if d == 6 {
        '6'
    } else if d == 7 {
        '7'
    } else if d == 8 {
        '8'
    } else if d == 9 {
        '9'
    } else if d == 10 {
        'a'
    } else if d == 11 {
        'b'
    } else if d == 12 {
        'c'
    } else if d == 13 {
        'd'
    } else if d == 14 {
        'e'
    } else {
        'f'
    }
}

/// Two lowercase hexadecimal digits for each byte, in order.
pub open spec fn hex_text(bytes: Seq<u8>) -> Seq<char>
    decreases bytes.len(),
{
    if bytes.len() == 0 {
        Seq::empty()
    } else {
        hex_text(bytes.drop_last()) + seq![
            hex_digit(bytes.last() as nat / 16),
            hex_digit(bytes.last() as nat % 16),
        ]
    }
}

/// The number that an ASCII hexadecimal digit stands for, in either case.
pub open spec fn hex_value(c: u8) -> Option<u8> {
    if 0x30 <= c <= 0x39 {
        Some((c - 0x30) as u8)
    } else if 0x61 <= c <= 0x66 {
        Some((c - 0x61 + 10) as u8)
    } else if 0x41 <= c <= 0x46 {
        Some((c - 0x41 + 10) as u8)
    } else {
        None
    }
}

/// Executable form of [`hex_value`].
pub fn hex_value_of(c: u8) -> (r: Option<u8>)
    ensures
        r == hex_value(c),
        r matches Some(d) ==> d < 16,
{
    if 0x30 <= c && c <= 0x39 {
        Some(c - 0x30)
    } else if 0x61 <= c && c <= 0x66 {
        Some(c - 0x61 + 10)
    } else if 0x41 <= c && c <= 0x46 {
        Some(c - 0x41 + 10)
    } else {
        None
    }
}

/// The text of one hexadecimal digit.
fn hex_digit_str(d: u8) -> (r: &'static str)
    requires
        d < 16,
    ensures
        r@ == seq![hex_digit(d as nat)],
{
    proof {
        reveal_strlit("0");
        reveal_strlit("1");
        reveal_strlit("2");
        reveal_strlit("3");
        reveal_strlit("4");
        reveal_strlit("5");
        reveal_strlit("6");
        reveal_strlit("7");
        reveal_strlit("8");
        reveal_strlit("9");
        reveal_strlit("a");
        reveal_strlit("b");
        reveal_strlit("c");
        reveal_strlit("d");
        reveal_strlit("e");
        reveal_strlit("f");
    }
    let r: &'static str = match d {
        0 => "0",
        1 => "1",
        2 => "2",
        3 => "3",
        4 => "4",
        5 => "5",
        6 => "6",
        7 => "7",
        8 => "8",
        9 => "9",
        10 => "a",
        11 => "b",
        12 => "c",
        13 => "d",
        14 => "e",
        _ => "f",
    };
    assert(r@ =~= seq![hex_digit(d as nat)]);
    r
}

/// The bytes in lowercase hexadecimal, two digits each.
pub fn to_hex(bytes: &[u8]) -> (r: String)
    ensures
        r@ == hex_text(bytes@),
        r@.len() == 2 * bytes@.len(),
{
    let mut out: String = String::new();
    let mut i: usize = 0;
    assert(bytes@.take(0) =~= Seq::<u8>::empty());
    while i < bytes.len()
        invariant
            i <= bytes@.len(),
            out@ == hex_text(bytes@.take(i as int)),
            out@.len() == 2 * i,
        decreases bytes@.len() - i,
    {
        let b: u8 = bytes[i];
        proof {
            let next = bytes@.take(i + 1);
            assert(next.drop_last() =~= bytes@.take(i as int));
            assert(next.last() == b);
            assert(hex_text(next) =~= out@ + seq![hex_digit(b as nat / 16)] + seq![
                hex_digit(b as nat % 16),
            ]);
        }
        out.append(hex_digit_str(b / 16));
        out.append(hex_digit_str(b % 16));
        i = i + 1;
    }
    assert(bytes@.take(i as int) =~= bytes@);
    out
}

/// The bytes without the hyphens among them.
pub open spec fn without_hyphens(s: Seq<u8>) -> Seq<u8>
    decreases s.len(),
{
    if s.len() == 0 {
        Seq::empty()
    } else if s.last() == 0x2d {
        without_hyphens(s.drop_last())
    } else {
        without_hyphens(s.drop_last()).push(s.last())
    }
}

/// The bytes that pairs of hexadecimal digits spell, or nothing when a
/// digit is left over or a character is no hexadecimal digit.
pub open spec fn hex_bytes(digits: Seq<u8>) -> Option<Seq<u8>>
    decreases digits.len(),
{
    if digits.len() == 0 {
        Some(Seq::empty())
    } else if digits.len() == 1 {
        None
    } else {
        let n = digits.len();
        match (hex_bytes(digits.take(n - 2)), hex_value(digits[n - 2]), hex_value(digits[n - 1])) {
            (Some(head), Some(hi), Some(lo)) => Some(head.push((16 * hi + lo) as u8)),
            _ => None,
        }
    }
}

/// The sixteen bytes of an identifier written as text: thirty-two
/// hexadecimal digits in either case, with hyphens anywhere among them.
pub open spec fn uuid_bytes(text: Seq<u8>) -> Option<Seq<u8>> {
    let digits = without_hyphens(text);
    if digits.len() == 32 {
        hex_bytes(digits)
    } else {
        None
    }
}

/// Where a front part of the digits spells nothing, the whole spells
/// nothing.
proof fn lemma_hex_bytes_prefix(digits: Seq<u8>, k: int)
    requires
        0 <= 2 * k <= digits.len(),
        digits.len() % 2 == 0,
        hex_bytes(digits.take(2 * k)) is None,
    ensures
        hex_bytes(digits) is None,
    decreases digits.len(),
{
    if 2 * k < digits.len() {
        let shorter = digits.take(digits.len() - 2);
        assert(shorter.take(2 * k) =~= digits.take(2 * k));
        lemma_hex_bytes_prefix(shorter, k);
    } else {
        assert(digits.take(2 * k) =~= digits);
    }
}

/// Executable form of [`uuid_bytes`], on the UTF-8 bytes of `text`.
pub fn parse_uuid(text: &str) -> (r: Option<Vec<u8>>)
    ensures
        match uuid_bytes(encode_utf8(text@)) {
            Some(b) => r matches Some(v) && v@ == b && b.len() == 16,
            None => r is None,
        },
{
    let bytes = text.as_bytes();
    let mut digits: Vec<u8> = Vec::new();
    let mut i: usize = 0;
    assert(bytes@.take(0) =~= Seq::<u8>::empty());
    while i < bytes.len()
        invariant
            i <= bytes@.len(),
            digits@ == without_hyphens(bytes@.take(i as int)),
        decreases bytes@.len() - i,
    {
        let b: u8 = bytes[i];
        proof {
            let next = bytes@.take(i + 1);
            assert(next.drop_last() =~= bytes@.take(i as int));
            assert(next.last() == b);
        }
        if b != 0x2d {
            digits.push(b);
        }
        i = i + 1;
    }
    assert(bytes@.take(i as int) =~= bytes@);
    if digits.len() != 32 {
        return None;
    }
    let mut out: Vec<u8> = Vec::new();
    let mut k: usize = 0;
    assert(digits@.take(0) =~= Seq::<u8>::empty());
    while k < 16
        invariant
            k <= 16,
            digits@.len() == 32,
            uuid_bytes(encode_utf8(text@)) == hex_bytes(digits@),
            hex_bytes(digits@.take(2 * k)) == Some(out@),
            out@.len() == k,
        decreases 16 - k,
    {
        let hi = hex_value_of(digits[2 * k]);
        let lo = hex_value_of(digits[2 * k + 1]);
        proof {
            let next = digits@.take(2 * k + 2);
            assert(next.take(next.len() - 2) =~= digits@.take(2 * k));
            assert(next[next.len() - 2] == digits@[2 * k as int]);
            assert(next[next.len() - 1] == digits@[2 * k + 1]);
        }
        match (hi, lo) {
            (Some(h), Some(l)) => {
                out.push(16 * h + l);
            },
            _ => {
                proof {
                    let next = digits@.take(2 * k + 2);
                    assert(next.len() == 2 * k + 2);
                    assert(hex_bytes(next) is None);
                    lemma_hex_bytes_prefix(digits@, k + 1);
                }
                return None;
            },
        }
        k = k + 1;
    }
    assert(digits@.take(32) =~= digits@);
    Some(out)
}

/// A number in decimal, without sign or padding.
pub open spec fn decimal_text(n: nat) -> Seq<char>
    decreases n,
{
    if n < 10 {
        seq![hex_digit(n)]
    } else {
        decimal_text(n / 10).push(hex_digit(n % 10))
    }
}

/// The text of one decimal digit.
fn decimal_digit_str(d: u32) -> (r: &'static str)
    requires
        d < 10,
    ensures
        r@ == seq![hex_digit(d as nat)],
{
    proof {
        reveal_strlit("0");
        reveal_strlit("1");
        reveal_strlit("2");
        reveal_strlit("3");
        reveal_strlit("4");
        reveal_strlit("5");
        reveal_strlit("6");
        reveal_strlit("7");
        reveal_strlit("8");
        reveal_strlit("9");
    }
    let r: &'static str = match d {
        0 => "0",
        1 => "1",
        2 => "2",
        3 => "3",
        4 => "4",
        5 => "5",
        6 => "6",
        7 => "7",
        8 => "8",
        _ => "9",
    };
    assert(r@ =~= seq![hex_digit(d as nat)]);
    r
}

/// Appends a number in decimal.
pub fn push_decimal(out: &mut String, n: u32)
    ensures
        final(out)@ == old(out)@ + decimal_text(n as nat),
    decreases n,
{
    if n >= 10 {
        push_decimal(out, n / 10);
    }
    out.append(decimal_digit_str(n % 10));
    assert(final(out)@ =~= old(out)@ + decimal_text(n as nat));
}

/// A number in decimal, with a minus sign in front where it is negative.
pub open spec fn signed_decimal_text(v: int) -> Seq<char> {
    if v < 0 {
        seq!['-'] + decimal_text((-v) as nat)
    } else {
        decimal_text(v as nat)
    }
}

/// Writes a 32-bit value in decimal.
pub fn signed_decimal(v: i32) -> (r: String)
    ensures
        r@ == signed_decimal_text(v as int),
{
    let mut out: String = String::new();
    if v < 0 {
        proof {
            reveal_strlit("-");
        }
        out.append("-");
        assert(out@ =~= seq!['-']);
        let magnitude: u32 = (-(v as i64)) as u32;
        push_decimal(&mut out, magnitude);
    } else {
        push_decimal(&mut out, v as u32);
        assert(out@ =~= decimal_text(v as nat));
    }
    out
}

} // verus!
