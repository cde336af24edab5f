//! The CRC-32 used by sequence files and by file validation sidecars
//! (reflected polynomial `0xEDB88320`, start value and final inversion all ones).
use vstd::prelude::*;

verus! {

/// The reflected generator polynomial.
pub const CRC32_POLYNOMIAL: u32 = 0xEDB8_8320;

/// The register before the first byte.
pub const CRC32_START: u32 = 0xFFFF_FFFF;

/// The register after one more message bit has been shifted in.
pub open spec fn crc32_bit(c: u32) -> u32 {
    if c & 1 == 1 {
        (c >> 1) ^ CRC32_POLYNOMIAL
    } else {
        c >> 1
    }
}

/// The register after `n` more bits.
pub open spec fn crc32_bits(c: u32, n: nat) -> u32
    decreases n,
{
    if n == 0 {
        c
    } else {
        crc32_bit(crc32_bits(c, (n - 1) as nat))
    }
}

/// The register after one more message byte.
pub open spec fn crc32_byte(c: u32, b: u8) -> u32 {
    crc32_bits(c ^ (b as u32), 8)
}

/// The register after the bytes of `s`, in order.
pub open spec fn crc32_register(c: u32, s: Seq<u8>) -> u32
    decreases s.len(),
{
    if s.len() == 0 {
        c
    } else {
        crc32_byte(crc32_register(c, s.drop_last()), s.last())
    }
}

/// The CRC-32 of `s`.
pub open spec fn crc32(s: Seq<u8>) -> u32 {
    !crc32_register(CRC32_START, s)
}

/// A CRC-32 in the course of computation.
#[derive(Debug, Clone, Copy, PartialEq, Eq, Structural)]
pub struct Crc32 {
    /// The shift register.
    pub register: u32,
}

impl Crc32 {
    /// Whether exactly the bytes of `s` have been taken in.
    pub open spec fn holds(self, s: Seq<u8>) -> bool {
        self.register == crc32_register(CRC32_START, s)
    }

    /// A hash of nothing yet.
    pub fn new() -> (r: Self)
        ensures
            r.holds(Seq::<u8>::empty()),
    {
        Crc32 { register: CRC32_START }
    }

    /// Takes in the bytes of `data`.
    pub fn update(&mut self, data: &[u8])
        ensures
            final(self).register == crc32_register(old(self).register, data@),
            forall|s: Seq<u8>| #[trigger] old(self).holds(s) ==> final(self).holds(s + data@),
    {
        let ghost start = self.register;
        let mut i: usize = 0;
        while i < data.len()
            invariant
                i <= data@.len(),
                self.register == crc32_register(start, data@.take(i as int)),
            decreases data@.len() - i,
        {
            let mut c: u32 = self.register ^ (data[i] as u32);
            let ghost entry = c;
            let mut n: u32 = 0;
            while n < 8
                invariant
                    n <= 8,
                    c == crc32_bits(entry, n as nat),
                decreases 8 - n,
            {
                c = if c & 1 == 1 {
                    (c >> 1) ^ CRC32_POLYNOMIAL
                } else {
                    c >> 1
                };
                n += 1;
            }
            self.register = c;
            assert(data@.take(i + 1).drop_last() =~= data@.take(i as int));
            i += 1;
        }
        assert(data@.take(i as int) =~= data@);
        proof {
            assert forall|s: Seq<u8>| #[trigger] old(self).holds(s) implies self.holds(s + data@) by {
                law_crc32_in_pieces(CRC32_START, s, data@);
            }
        }
    }

    /// The CRC-32 of what was taken in.
    pub fn finalize(&self) -> (r: u32)
        ensures
            r == !self.register,
            forall|s: Seq<u8>| #[trigger] self.holds(s) ==> r == crc32(s),
    {
        !self.register
    }

    /// The CRC-32 of `data`.
    pub fn hash_u32(data: &[u8]) -> (r: u32)
        ensures
            r == crc32(data@),
    {
        let mut hash = Crc32::new();
        hash.update(data);
        hash.finalize()
    }
}

impl Default for Crc32 {
    fn default() -> (r: Self)
        ensures
            r.holds(Seq::<u8>::empty()),
    {
        Crc32::new()
    }
}

/// Taking a message in piece by piece gives the same register as taking it in whole.
pub proof fn law_crc32_in_pieces(c: u32, a: Seq<u8>, b: Seq<u8>)
    ensures
        crc32_register(crc32_register(c, a), b) == crc32_register(c, a + b),
    decreases b.len(),
{
    if b.len() == 0 {
        assert(a + b =~= a);
    } else {
        law_crc32_in_pieces(c, a, b.drop_last());
        assert((a + b).drop_last() =~= a + b.drop_last());
    }
}

proof fn lemma_bits_apart(c: u32, d: u32, n: nat)
    requires
        c != d,
    ensures
        crc32_bits(c, n) != crc32_bits(d, n),
    decreases n,
{
    if n > 0 {
        lemma_bits_apart(c, d, (n - 1) as nat);
        let x = crc32_bits(c, (n - 1) as nat);
        let y = crc32_bits(d, (n - 1) as nat);
        assert(x != y ==> (if x & 1 == 1 {
            (x >> 1) ^ 0xEDB8_8320
        } else {
            x >> 1
        }) != (if y & 1 == 1 {
            (y >> 1) ^ 0xEDB8_8320
        } else {
            y >> 1
        })) by (bit_vector);
    }
}

proof fn lemma_registers_apart(c: u32, d: u32, s: Seq<u8>)
    requires
        c != d,
    ensures
        crc32_register(c, s) != crc32_register(d, s),
    decreases s.len(),
{
    if s.len() > 0 {
        lemma_registers_apart(c, d, s.drop_last());
        let x = crc32_register(c, s.drop_last());
        let y = crc32_register(d, s.drop_last());
        let b = s.last();
        assert(x != y ==> x ^ (b as u32) != y ^ (b as u32)) by (bit_vector);
        lemma_bits_apart(x ^ (b as u32), y ^ (b as u32), 8);
    }
}

/// Every byte counts: two messages that differ in one byte, wherever it stands, have different
/// checksums.
pub proof fn law_one_changed_byte_changes_the_checksum(
    before: Seq<u8>,
    x: u8,
    y: u8,
    after: Seq<u8>,
)
    requires
        x != y,
    ensures
        crc32(before.push(x) + after) != crc32(before.push(y) + after),
{
    let start = CRC32_START;
    let c = crc32_register(start, before);
    law_crc32_in_pieces(start, before.push(x), after);
    law_crc32_in_pieces(start, before.push(y), after);
    assert(before.push(x).drop_last() =~= before);
    assert(before.push(y).drop_last() =~= before);
    assert(x != y ==> c ^ (x as u32) != c ^ (y as u32)) by (bit_vector);
    lemma_bits_apart(c ^ (x as u32), c ^ (y as u32), 8);
    lemma_registers_apart(crc32_register(start, before.push(x)), crc32_register(start, before.push(y)), after);
    let one = crc32_register(start, before.push(x) + after);
    let two = crc32_register(start, before.push(y) + after);
    assert(one != two ==> !one != !two) by (bit_vector);
}

/// The checksum of nothing is where the computation starts, inverted.
pub proof fn law_checksum_of_nothing()
    ensures
        crc32(Seq::empty()) == 0,
{
    assert(!0xFFFF_FFFFu32 == 0) by (bit_vector);
}

} // verus!
