//! Numbers written in decimal digits.
use vstd::prelude::*;

use super::bytes;

verus! {

/// The decimal digits of `n`, as characters.
pub open spec fn digits(n: nat) -> Seq<u8>
    decreases n,
{
    if n < 10 {
        seq![(48 + n) as u8]
    } else {
        digits(n / 10).push((48 + n % 10) as u8)
    }
}

/// The decimal digits of `n`, with zeros in front where there are fewer than `width`.
pub open spec fn padded(n: nat, width: nat) -> Seq<u8> {
    if digits(n).len() < width {
        Seq::new((width - digits(n).len()) as nat, |i: int| 48u8) + digits(n)
    } else {
        digits(n)
    }
}

/// The decimal digits of `n`, which may have up to sixty-four bits.
pub fn to_long_digits(n: u64) -> (r: Vec<u8>)
    ensures
        r@ == digits(n as nat),
{
    let mut reversed: Vec<u8> = Vec::new();
    let mut rest: u64 = n;
    let ghost mut low = Seq::<u8>::empty();
    while rest >= 10
        invariant
            digits(n as nat) == digits(rest as nat) + low,
            reversed@ == low.reverse(),
        decreases rest,
    {
        let d: u8 = (48 + rest % 10) as u8;
        proof {
            assert(digits(rest as nat) == digits((rest / 10) as nat).push(d));
            assert(digits((rest / 10) as nat).push(d) + low =~= digits((rest / 10) as nat) + (seq![
                d,
            ] + low));
            assert((seq![d] + low).reverse() =~= low.reverse().push(d));
            low = seq![d] + low;
        }
        reversed.push(d);
        rest = rest / 10;
    }
    reversed.push((48 + rest) as u8);
    proof {
        let d = (48 + rest) as u8;
        assert((seq![d] + low).reverse() =~= low.reverse().push(d));
        low = seq![d] + low;
        assert(digits(n as nat) == low);
    }
    let mut out: Vec<u8> = Vec::new();
    let mut i: usize = reversed.len();
    assert(low.take(0) =~= out@);
    while i > 0
        invariant
            i <= reversed@.len(),
            reversed@ == low.reverse(),
            low == digits(n as nat),
            out@ == low.take(low.len() - i),
        decreases i,
    {
        i -= 1;
        out.push(reversed[i]);
        assert(reversed@[i as int] == low[low.len() - 1 - i]);
        assert(out@ =~= low.take(low.len() - i));
    }
    assert(low.take(low.len() as int) =~= low);
    out
}

/// The decimal digits of `n`.
pub fn to_digits(n: u32) -> (r: Vec<u8>)
    ensures
        r@ == digits(n as nat),
        1 <= r@.len() <= 10,
{
    proof {
        lemma_digits_len(n as nat);
    }
    to_long_digits(n as u64)
}

/// A number in decimal digits, with a minus sign in front where it is negative.
pub open spec fn signed(n: int) -> Seq<u8> {
    if n < 0 {
        seq![45u8] + digits((-n) as nat)
    } else {
        digits(n as nat)
    }
}

/// A number in decimal digits, with a minus sign in front where it is negative.
pub fn to_signed(n: i32) -> (r: Vec<u8>)
    ensures
        r@ == signed(n as int),
{
    if n < 0 {
        let size: u64 = (-(n as i64)) as u64;
        let number: Vec<u8> = to_long_digits(size);
        let mut out: Vec<u8> = Vec::new();
        out.push(45);
        bytes::push_bytes(&mut out, number.as_slice());
        assert(out@ =~= signed(n as int));
        out
    } else {
        to_long_digits(n as u64)
    }
}

/// The decimal digits of `n`, with zeros in front where there are fewer than `width`.
pub fn to_padded(n: u32, width: usize) -> (r: Vec<u8>)
    ensures
        r@ == padded(n as nat, width as nat),
{
    let number: Vec<u8> = to_digits(n);
    let mut out: Vec<u8> = Vec::new();
    let zeros: usize = if number.len() < width {
        width - number.len()
    } else {
        0
    };
    let mut k: usize = 0;
    while k < zeros
        invariant
            k <= zeros,
            out@ == Seq::new(k as nat, |j: int| 48u8),
        decreases zeros - k,
    {
        out.push(48);
        k += 1;
        assert(out@ =~= Seq::new(k as nat, |j: int| 48u8));
    }
    bytes::push_bytes(&mut out, number.as_slice());
    assert(out@ =~= padded(n as nat, width as nat));
    out
}

/// The power of ten.
pub open spec fn pow10(k: nat) -> nat
    decreases k,
{
    if k == 0 {
        1
    } else {
        10 * pow10((k - 1) as nat)
    }
}

/// A number below a power of ten has no more digits than the power.
proof fn lemma_digits_below(n: nat, k: nat)
    requires
        0 < k,
        n < pow10(k),
    ensures
        1 <= digits(n).len() <= k,
    decreases k,
{
    if n >= 10 {
        assert(k > 1) by {
            reveal_with_fuel(pow10, 2);
        }
        assert(n / 10 < pow10((k - 1) as nat));
        lemma_digits_below(n / 10, (k - 1) as nat);
    }
}

/// Numbers of thirty-two bits have at most ten digits.
pub proof fn lemma_digits_len(n: nat)
    requires
        n <= u32::MAX,
    ensures
        1 <= digits(n).len() <= 10,
{
    reveal_with_fuel(pow10, 11);
    lemma_digits_below(n, 10);
}

/// A padded number has at least the width, and exactly the width where it fits.
pub proof fn law_padded_width(n: nat, width: nat)
    ensures
        padded(n, width).len() >= width,
        0 < width && n < pow10(width) ==> padded(n, width).len() == width,
{
    if 0 < width && n < pow10(width) {
        lemma_digits_below(n, width);
    }
}

/// The number that decimal digits stand for.
pub open spec fn value_of(s: Seq<u8>) -> int
    decreases s.len(),
{
    if s.len() == 0 {
        0
    } else {
        10 * value_of(s.drop_last()) + (s.last() - 48)
    }
}

/// The digits of a number stand for the number.
pub proof fn law_digits_round_trip(n: nat)
    ensures
        value_of(digits(n)) == n,
    decreases n,
{
    if n < 10 {
        assert(digits(n).drop_last() =~= Seq::<u8>::empty());
        reveal_with_fuel(value_of, 2);
    } else {
        law_digits_round_trip(n / 10);
        assert(digits(n).drop_last() =~= digits(n / 10));
    }
}

/// Decimal digits are digits, and none of them a leading zero but where there is no other.
pub proof fn law_digits_are_digits(n: nat)
    ensures
        digits(n).len() > 0,
        forall|i: int| 0 <= i < digits(n).len() ==> 48 <= #[trigger] digits(n)[i] <= 57,
        n > 0 ==> digits(n)[0] != 48,
    decreases n,
{
    if n >= 10 {
        law_digits_are_digits(n / 10);
    }
}

/// Padding puts zeros in front of the digits up to the width, and leaves longer numbers alone.
pub proof fn law_padding_is_zeros(n: nat, width: nat)
    ensures
        ({
            let p = padded(n, width);
            let d = digits(n);
            &&& p.len() == if d.len() < width {
                width
            } else {
                d.len()
            }
            &&& p.subrange(p.len() - d.len(), p.len() as int) == d
            &&& forall|i: int| 0 <= i < p.len() - d.len() ==> #[trigger] p[i] == 48
        }),
{
    let p = padded(n, width);
    let d = digits(n);
    assert(p.subrange(p.len() - d.len(), p.len() as int) =~= d);
}

/// A negative number has a minus sign in front of the digits of its size, and another number
/// just its digits.
pub proof fn law_signs(n: int)
    ensures
        n >= 0 ==> signed(n) == digits(n as nat),
        n < 0 ==> signed(n).len() == 1 + digits((-n) as nat).len() && signed(n)[0] == '-' as u8
            && signed(n).subrange(1, signed(n).len() as int) == digits((-n) as nat),
{
    if n < 0 {
        assert(signed(n).subrange(1, signed(n).len() as int) =~= digits((-n) as nat));
    }
}

} // verus!
