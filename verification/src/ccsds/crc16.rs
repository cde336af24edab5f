//! The frame checksum: CRC-16 with polynomial `0x1021`, start value all ones, most
//! significant bit first, no final inversion.
use vstd::prelude::*;

use crate::fw::bytes;

verus! {

/// The generator polynomial.
pub const CRC16_POLYNOMIAL: u16 = 0x1021;

/// The register before the first byte.
pub const CRC16_START: u16 = 0xFFFF;

/// The register after one more message bit has been shifted in.
pub open spec fn crc16_bit(c: u16) -> u16 {
    if c & 0x8000 != 0 {
        (c << 1u32) ^ CRC16_POLYNOMIAL
    } else {
        c << 1u32
    }
}

/// The register after `n` more bits.
pub open spec fn crc16_bits(c: u16, n: nat) -> u16
    decreases n,
{
    if n == 0 {
        c
    } else {
        crc16_bit(crc16_bits(c, (n - 1) as nat))
    }
}

/// The register after one more message byte.
pub open spec fn crc16_byte(c: u16, b: u8) -> u16 {
    crc16_bits(c ^ ((b as u16) << 8u32), 8)
}

/// The register after the bytes of `s`, in order.
pub open spec fn crc16_register(c: u16, s: Seq<u8>) -> u16
    decreases s.len(),
{
    if s.len() == 0 {
        c
    } else {
        crc16_byte(crc16_register(c, s.drop_last()), s.last())
    }
}

/// The checksum of `s`.
pub open spec fn crc16(s: Seq<u8>) -> u16 {
    crc16_register(CRC16_START, s)
}

/// The frame checksum.
pub struct Crc16;

impl Crc16 {
    /// The checksum of the first `len` bytes of `data`.
    pub fn compute_prefix(data: &[u8], len: usize) -> (r: u16)
        requires
            len <= data@.len(),
        ensures
            r == crc16(data@.take(len as int)),
    {
        let mut c: u16 = CRC16_START;
        let mut i: usize = 0;
        while i < len
            invariant
                i <= len <= data@.len(),
                c == crc16(data@.take(i as int)),
            decreases len - i,
        {
            c = c ^ ((data[i] as u16) << 8u32);
            let ghost entry = c;
            let mut n: u32 = 0;
            while n < 8
                invariant
                    n <= 8,
                    c == crc16_bits(entry, n as nat),
                decreases 8 - n,
            {
                c = if c & 0x8000 != 0 {
                    (c << 1u32) ^ CRC16_POLYNOMIAL
                } else {
                    c << 1u32
                };
                n += 1;
            }
            assert(data@.take(i + 1).drop_last() =~= data@.take(i as int));
            i += 1;
        }
        c
    }

    /// The checksum of `data`.
    pub fn compute(data: &[u8]) -> (r: u16)
        ensures
            r == crc16(data@),
    {
        assert(data@.take(data@.len() as int) =~= data@);
        Self::compute_prefix(data, data.len())
    }
}

/// Taking a message in piece by piece gives the same register as taking it in whole.
pub proof fn law_crc16_in_pieces(c: u16, a: Seq<u8>, b: Seq<u8>)
    ensures
        crc16_register(crc16_register(c, a), b) == crc16_register(c, a + b),
    decreases b.len(),
{
    if b.len() == 0 {
        assert(a + b =~= a);
    } else {
        law_crc16_in_pieces(c, a, b.drop_last());
        assert((a + b).drop_last() =~= a + b.drop_last());
    }
}

proof fn lemma_low_byte_shifts_up(c: u16, n: nat)
    requires
        c < 0x100,
        n <= 8,
    ensures
        crc16_bits(c, n) == c << (n as u16),
    decreases n,
{
    if n == 0 {
        assert(c << 0u16 == c) by (bit_vector);
    } else {
        lemma_low_byte_shifts_up(c, (n - 1) as nat);
        let k = (n - 1) as u16;
        assert(c < 0x100 && k < 8 ==> (c << k) & 0x8000 == 0 && ((c << k) << 1u32) == c << ((k + 1)
            as u16)) by (bit_vector);
    }
}

/// A message followed by its checksum has checksum zero.
pub proof fn law_crc16_residue(s: Seq<u8>)
    ensures
        crc16(s + bytes::be16(crc16(s))) == 0,
{
    let c = crc16(s);
    let high = (c / 0x100) as u8;
    let low = (c % 0x100) as u8;
    let tail = bytes::be16(c);
    law_crc16_in_pieces(CRC16_START, s, tail);
    assert(tail.drop_last() =~= seq![high]);
    assert(seq![high].drop_last() =~= Seq::<u8>::empty());
    assert(crc16_register(c, Seq::<u8>::empty()) == c);
    assert(crc16_register(c, seq![high]) == crc16_byte(c, high));
    assert(crc16_register(c, tail) == crc16_byte(crc16_byte(c, high), low));
    let after_high = c ^ ((high as u16) << 8u32);
    assert(c ^ (((c / 0x100) as u8 as u16) << 8u32) == c % 0x100) by (bit_vector);
    lemma_low_byte_shifts_up(after_high, 8);
    let shifted = after_high << 8u16;
    assert(((c % 0x100) << 8u16) ^ (((c % 0x100) as u8 as u16) << 8u32) == 0) by (bit_vector);
    assert(crc16_byte(c, high) == shifted);
    lemma_low_byte_shifts_up(0, 8);
    assert(0u16 << 8u16 == 0u16) by (bit_vector);
}

proof fn lemma_bits_apart(c: u16, d: u16, n: nat)
    requires
        c != d,
    ensures
        crc16_bits(c, n) != crc16_bits(d, n),
    decreases n,
{
    if n > 0 {
        lemma_bits_apart(c, d, (n - 1) as nat);
        let x = crc16_bits(c, (n - 1) as nat);
        let y = crc16_bits(d, (n - 1) as nat);
        assert(x != y ==> (if x & 0x8000 != 0 {
            (x << 1u32) ^ 0x1021
        } else {
            x << 1u32
        }) != (if y & 0x8000 != 0 {
            (y << 1u32) ^ 0x1021
        } else {
            y << 1u32
        })) by (bit_vector);
    }
}

proof fn lemma_registers_apart(c: u16, d: u16, s: Seq<u8>)
    requires
        c != d,
    ensures
        crc16_register(c, s) != crc16_register(d, s),
    decreases s.len(),
{
    if s.len() > 0 {
        lemma_registers_apart(c, d, s.drop_last());
        let x = crc16_register(c, s.drop_last());
        let y = crc16_register(d, s.drop_last());
        let b = s.last();
        assert(x != y ==> x ^ ((b as u16) << 8u32) != y ^ ((b as u16) << 8u32)) by (bit_vector);
        lemma_bits_apart(x ^ ((b as u16) << 8u32), y ^ ((b as u16) << 8u32), 8);
    }
}

/// Every byte counts: two messages that differ in one byte, wherever it stands, have different
/// checksums.
pub proof fn law_one_changed_byte_changes_the_checksum(
    before: Seq<u8>,
    x: u8,
    y: u8,
    after: Seq<u8>,
)
    requires
        x != y,
    ensures
        crc16(before.push(x) + after) != crc16(before.push(y) + after),
{
    let start = CRC16_START;
    let c = crc16_register(start, before);
    law_crc16_in_pieces(start, before.push(x), after);
    law_crc16_in_pieces(start, before.push(y), after);
    assert(before.push(x).drop_last() =~= before);
    assert(before.push(y).drop_last() =~= before);
    assert(x != y ==> c ^ ((x as u16) << 8u32) != c ^ ((y as u16) << 8u32)) by (bit_vector);
    lemma_bits_apart(c ^ ((x as u16) << 8u32), c ^ ((y as u16) << 8u32), 8);
    lemma_registers_apart(crc16_register(start, before.push(x)), crc16_register(start, before.push(y)), after);
}

/// The checksum of nothing is where the computation starts.
pub proof fn law_checksum_of_nothing()
    ensures
        crc16(Seq::empty()) == 0xFFFF,
{
}

} // verus!
