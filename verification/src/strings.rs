//! Verified text utilities: string equality, decimal rendering of
//! integers, and percent-encoding of credential text for connection
//! strings.

use vstd::prelude::*;
use vstd::string::StrSliceExecFns;
use vstd::string::StringExecFns;

verus! {

/// Compares two string slices by content.
pub fn str_eq(a: &str, b: &str) -> (r: bool)
    ensures
        r == (a@ == b@),
{
    let x: String = a.to_owned();
    let y: String = b.to_owned();
    x == y
}

/// The character for one decimal digit.
pub open spec fn digit_char(d: int) -> char {
    if d == 0 {
        '0'
    } else if d == 1 {
        '1'
    } else if d == 2 {
        '2'
    } else if d == 3 {
        '3'
    } else if d == 4 {
        '4'
    } else if d == 5 {
        '5'
    } else if d == 6 {
        '6'
    } else if d == 7 {
        '7'
    } else if d == 8 {
        '8'
    } else {
        '9'
    }
}

/// The decimal rendering of a nonnegative integer, most significant
/// digit first.
pub open spec fn dec_digits(n: int) -> Seq<char>
    decreases n,
{
    if n < 10 {
        seq![digit_char(n)]
    } else {
        dec_digits(n / 10) + seq![digit_char(n % 10)]
    }
}

/// A one-character string for a decimal digit.
fn digit_str(d: u32) -> (r: &'static str)
    requires
        d < 10,
    ensures
        r@ == seq![digit_char(d as int)],
{
    let r = match d {
        0 => "0",
        1 => "1",
        2 => "2",
        3 => "3",
        4 => "4",
        5 => "5",
        6 => "6",
        7 => "7",
        8 => "8",
        _ => "9",
    };
    proof {
        reveal_strlit("0");
        reveal_strlit("1");
        reveal_strlit("2");
        reveal_strlit("3");
        reveal_strlit("4");
        reveal_strlit("5");
        reveal_strlit("6");
        reveal_strlit("7");
        reveal_strlit("8");
        reveal_strlit("9");
        assert(r@ =~= seq![digit_char(d as int)]);
    }
    r
}

/// Renders an unsigned integer in decimal.
pub fn u32_string(n: u32) -> (r: String)
    ensures
        r@ == dec_digits(n as int),
    decreases n,
{
    if n < 10 {
        digit_str(n).to_owned()
    } else {
        let mut s = u32_string(n / 10);
        s.append(digit_str(n % 10));
        s
    }
}

/// Whether a byte may stand for itself in a percent-encoded string:
/// the unreserved set of letters, digits, `-`, `_`, `.` and `~`.
pub open spec fn is_unreserved_byte(b: u8) -> bool {
    (0x41 <= b && b <= 0x5a)  // A..Z
     || (0x61 <= b && b <= 0x7a)  // a..z
     || (0x30 <= b && b <= 0x39)  // 0..9
     || b == 0x2d || b == 0x5f || b == 0x2e || b == 0x7e
}

/// The byte of the uppercase hexadecimal digit for a value below 16.
pub open spec fn hex_digit_byte(d: int) -> u8 {
    if d < 10 {
        (0x30 + d) as u8
    } else {
        (0x37 + d) as u8
    }
}

/// The percent-encoding of one byte: the byte itself when unreserved,
/// else `%` and two uppercase hexadecimal digits.
pub open spec fn encoded_byte(b: u8) -> Seq<u8> {
    if is_unreserved_byte(b) {
        seq![b]
    } else {
        seq![0x25u8, hex_digit_byte(b as int / 16), hex_digit_byte(b as int % 16)]
    }
}

/// The percent-encoding of a byte string.
pub open spec fn pct_encoded(bs: Seq<u8>) -> Seq<u8>
    decreases bs.len(),
{
    if bs.len() == 0 {
        Seq::empty()
    } else {
        pct_encoded(bs.drop_last()) + encoded_byte(bs.last())
    }
}

/// Every byte of a percent-encoded string is ASCII.
pub proof fn lemma_pct_encoded_ascii(bs: Seq<u8>)
    ensures
        forall|i: int| 0 <= i < pct_encoded(bs).len() ==> pct_encoded(bs)[i] < 0x80,
    decreases bs.len(),
{
    if bs.len() > 0 {
        lemma_pct_encoded_ascii(bs.drop_last());
        assert(forall|i: int|
            0 <= i < encoded_byte(bs.last()).len() ==> encoded_byte(bs.last())[i] < 0x80);
        assert(pct_encoded(bs) == pct_encoded(bs.drop_last()) + encoded_byte(bs.last()));
    }
}

/// A byte string read as characters, one character per byte.
pub open spec fn chars_of_bytes(bs: Seq<u8>) -> Seq<char> {
    bs.map(|_i: int, b: u8| b as char)
}

/// Relies on `String::from_utf8`: a vector of ASCII bytes decodes to
/// the string of exactly those characters.
#[verifier::external_body]
fn string_from_ascii(v: Vec<u8>) -> (r: String)
    requires
        forall|i: int| 0 <= i < v@.len() ==> v@[i] < 0x80,
    ensures
        r@ == chars_of_bytes(v@),
{
    match String::from_utf8(v) {
        Ok(s) => s,
        Err(_) => String::new(),
    }
}

/// Appends the percent-encoding of one byte.
fn push_encoded_byte(out: &mut Vec<u8>, b: u8)
    ensures
        final(out)@ == old(out)@ + encoded_byte(b),
{
    let unreserved = (0x41 <= b && b <= 0x5a) || (0x61 <= b && b <= 0x7a) || (0x30 <= b && b
        <= 0x39) || b == 0x2d || b == 0x5f || b == 0x2e || b == 0x7e;
    if unreserved {
        out.push(b);
        assert(out@ =~= old(out)@ + encoded_byte(b));
    } else {
        let hi: u8 = b / 16;
        let lo: u8 = b % 16;
        out.push(0x25u8);
        out.push(if hi < 10 {
            0x30 + hi
        } else {
            0x37 + hi
        });
        out.push(if lo < 10 {
            0x30 + lo
        } else {
            0x37 + lo
        });
        assert(out@ =~= old(out)@ + encoded_byte(b));
    }
}

/// The percent-encoding of a string, over the characters of its UTF-8
/// bytes.
pub open spec fn url_encoded(s: Seq<char>) -> Seq<char> {
    chars_of_bytes(pct_encoded(vstd::utf8::encode_utf8(s)))
}

/// Percent-encodes a string so it can stand inside a URI: unreserved
/// bytes are kept, every other byte of the UTF-8 form becomes `%` and
/// two hexadecimal digits.
pub fn url_encode(s: &str) -> (r: String)
    ensures
        r@ == url_encoded(s@),
{
    let bytes: Vec<u8> = s.as_bytes_vec();
    let mut out: Vec<u8> = Vec::new();
    let n = bytes.len();
    for i in 0..n
        invariant
            n == bytes@.len(),
            bytes@ == vstd::utf8::encode_utf8(s@),
            out@ == pct_encoded(bytes@.take(i as int)),
    {
        push_encoded_byte(&mut out, bytes[i]);
        proof {
            assert(bytes@.take(i + 1).drop_last() =~= bytes@.take(i as int));
            assert(bytes@.take(i + 1).last() == bytes@[i as int]);
        }
    }
    proof {
        assert(bytes@.take(n as int) =~= bytes@);
        lemma_pct_encoded_ascii(bytes@);
    }
    string_from_ascii(out)
}


/// A character folded to lower case, for the ASCII letters only.
pub open spec fn lower_char(c: char) -> char {
    if 'A' <= c && c <= 'Z' {
        (((c as u8) + 32) as char)
    } else {
        c
    }
}

/// A string with its ASCII letters folded to lower case.
pub open spec fn lower_chars(s: Seq<char>) -> Seq<char> {
    s.map(|_i: int, c: char| lower_char(c))
}

/// Whether the string, folded to lower case, reads as the pattern.
/// The pattern is compared as given.
pub fn lower_eq(s: &str, pattern: &str) -> (r: bool)
    ensures
        r == (lower_chars(s@) == pattern@),
{
    let n = s.unicode_len();
    let m = pattern.unicode_len();
    if n != m {
        proof {
            assert(lower_chars(s@).len() == s@.len());
        }
        return false;
    }
    for i in 0..n
        invariant
            n == s@.len(),
            n == pattern@.len(),
            forall|j: int| 0 <= j < i ==> lower_char(s@[j]) == pattern@[j],
    {
        let c = s.get_char(i);
        let folded = if 'A' <= c && c <= 'Z' {
            (((c as u8) + 32) as char)
        } else {
            c
        };
        if folded != pattern.get_char(i) {
            proof {
                assert(lower_chars(s@)[i as int] != pattern@[i as int]);
            }
            return false;
        }
    }
    proof {
        assert(lower_chars(s@) =~= pattern@);
    }
    true
}

} // verus!
