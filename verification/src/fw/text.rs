//! Texts for people: words, numbers and names strung together.
use vstd::prelude::*;

use super::bytes;
use super::decimal;

verus! {

/// Words as bytes.
pub open spec fn words(s: Seq<char>) -> Seq<u8> {
    vstd::utf8::encode_utf8(s)
}

/// The character of a hexadecimal digit; `ten` is the one that stands for ten.
pub open spec fn hex_digit(d: nat, ten: u8) -> u8 {
    if d < 10 {
        (48 + d) as u8
    } else {
        (ten + d - 10) as u8
    }
}

/// A number in hexadecimal digits; `ten` is the character that stands for ten.
pub open spec fn hex(n: nat, ten: u8) -> Seq<u8>
    decreases n,
{
    if n < 16 {
        seq![hex_digit(n, ten)]
    } else {
        hex(n / 16, ten).push(hex_digit(n % 16, ten))
    }
}

/// A number in hexadecimal digits with capital letters.
pub open spec fn upper_hex(n: nat) -> Seq<u8> {
    hex(n, 65)
}

/// A number in hexadecimal digits with small letters.
pub open spec fn lower_hex(n: nat) -> Seq<u8> {
    hex(n, 97)
}

/// A text that begins with words.
pub fn begin(s: &str) -> (r: Vec<u8>)
    ensures
        r@ == words(s@),
{
    bytes::copy_bytes(s.as_bytes())
}

/// Appends words.
pub fn push_words(out: &mut Vec<u8>, s: &str)
    ensures
        final(out)@ == old(out)@ + words(s@),
{
    bytes::push_bytes(out, s.as_bytes());
}

/// Appends a number in decimal digits.
pub fn push_number(out: &mut Vec<u8>, n: u64)
    ensures
        final(out)@ == old(out)@ + decimal::digits(n as nat),
{
    let number: Vec<u8> = decimal::to_long_digits(n);
    bytes::push_bytes(out, number.as_slice());
}

/// Appends a number in decimal digits, with a minus sign in front where it is negative.
pub fn push_signed(out: &mut Vec<u8>, n: i32)
    ensures
        final(out)@ == old(out)@ + decimal::signed(n as int),
{
    let number: Vec<u8> = decimal::to_signed(n);
    bytes::push_bytes(out, number.as_slice());
}

/// Appends a number in hexadecimal digits; `ten` is the character that stands for ten.
fn push_hex(out: &mut Vec<u8>, n: u32, ten: u8)
    requires
        ten < 240,
    ensures
        final(out)@ == old(out)@ + hex(n as nat, ten),
    decreases n,
{
    let ghost before = out@;
    if n >= 16 {
        push_hex(out, n / 16, ten);
    }
    let d: u8 = (n % 16) as u8;
    if d < 10 {
        out.push(48 + d);
    } else {
        out.push(ten + (d - 10));
    }
    assert(out@ =~= before + hex(n as nat, ten));
}

/// Appends a number in hexadecimal digits with capital letters.
pub fn push_upper_hex(out: &mut Vec<u8>, n: u32)
    ensures
        final(out)@ == old(out)@ + upper_hex(n as nat),
{
    push_hex(out, n, 65);
}

/// Appends a number in hexadecimal digits with small letters.
pub fn push_lower_hex(out: &mut Vec<u8>, n: u32)
    ensures
        final(out)@ == old(out)@ + lower_hex(n as nat),
{
    push_hex(out, n, 97);
}

/// Appends a name.
pub fn push_name(out: &mut Vec<u8>, name: &[u8])
    ensures
        final(out)@ == old(out)@ + name@,
{
    bytes::push_bytes(out, name);
}

/// What hexadecimal digits stand for, in either case.
pub open spec fn hex_value(s: Seq<u8>) -> int
    decreases s.len(),
{
    if s.len() == 0 {
        0
    } else {
        16 * hex_value(s.drop_last()) + (if s.last() < 58 {
            s.last() - 48
        } else if s.last() < 71 {
            s.last() - 55
        } else {
            s.last() - 87
        })
    }
}

/// The hexadecimal digits of a number stand for the number, with no zero in front of others.
pub proof fn law_hex_round_trip(n: nat, upper: bool)
    ensures
        ({
            let s = hex(
                n,
                if upper {
                    'A' as u8
                } else {
                    'a' as u8
                },
            );
            &&& hex_value(s) == n
            &&& s.len() > 0
            &&& n > 0 ==> s[0] != 48
        }),
    decreases n,
{
    let ten = if upper {
        'A' as u8
    } else {
        'a' as u8
    };
    let s = hex(n, ten);
    if n >= 16 {
        law_hex_round_trip(n / 16, upper);
        assert(s.drop_last() =~= hex(n / 16, ten));
    } else {
        assert(s.drop_last() =~= Seq::empty());
        reveal_with_fuel(hex_value, 2);
    }
}

/// Capital letters from A on, and small ones from a on, are the digits that decimal numbers
/// lack; either way the digits stand for the number.
pub proof fn law_hex_cases(n: nat)
    ensures
        hex_value(upper_hex(n)) == n,
        hex_value(lower_hex(n)) == n,
        n < 10 ==> upper_hex(n) == lower_hex(n),
        10 <= n < 16 ==> upper_hex(n) == seq![('A' as u8 + n - 10) as u8] && lower_hex(n) == seq![
            ('a' as u8 + n - 10) as u8,
        ],
{
    law_hex_round_trip(n, true);
    law_hex_round_trip(n, false);
}

} // verus!
