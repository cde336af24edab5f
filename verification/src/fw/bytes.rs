//! Big-endian encoding and decoding of integers and length-prefixed strings.
use vstd::prelude::*;

verus! {

/// Result of serializing or deserializing a value.
#[derive(Debug, Clone, Copy, PartialEq, Eq, Structural)]
pub enum SerializeStatus {
    /// The operation succeeded.
    OK,
    /// A value had the wrong format while serializing.
    FormatError,
    /// The buffer being written to is full.
    NoRoomLeft,
    /// Nothing is left in the buffer being read.
    DeserBufferEmpty,
    /// A value read does not have the right format.
    DeserFormatError,
    /// Fewer bytes are left than the value needs.
    DeserSizeMismatch,
    /// The buffer holds another type of value.
    DeserTypeMismatch,
    /// A value was dropped to make room.
    DiscardedExisting,
}

impl SerializeStatus {
    /// The number that stands for the status on the wire.
    pub open spec fn code(self) -> u8 {
        match self {
            SerializeStatus::OK => 0,
            SerializeStatus::FormatError => 1,
            SerializeStatus::NoRoomLeft => 2,
            SerializeStatus::DeserBufferEmpty => 3,
            SerializeStatus::DeserFormatError => 4,
            SerializeStatus::DeserSizeMismatch => 5,
            SerializeStatus::DeserTypeMismatch => 6,
            SerializeStatus::DiscardedExisting => 7,
        }
    }

    /// The number that stands for the status on the wire.
    pub fn as_repr(self) -> (r: u8)
        ensures
            r == self.code(),
    {
        match self {
            SerializeStatus::OK => 0,
            SerializeStatus::FormatError => 1,
            SerializeStatus::NoRoomLeft => 2,
            SerializeStatus::DeserBufferEmpty => 3,
            SerializeStatus::DeserFormatError => 4,
            SerializeStatus::DeserSizeMismatch => 5,
            SerializeStatus::DeserTypeMismatch => 6,
            SerializeStatus::DiscardedExisting => 7,
        }
    }
}

/// Why a value could not be deserialized.
#[derive(Debug, Clone, Copy, PartialEq, Eq, Structural)]
pub enum DeserialStatus {
    /// Nothing was left in the buffer.
    BufferEmpty,
    /// The value does not have the right format.
    FormatError,
    /// Fewer bytes were left than the value needs.
    SizeMismatch,
    /// The buffer holds another type of value.
    TypeMismatch,
}

impl DeserialStatus {
    /// What the outcome of a deserialization comes to. Outcomes that it cannot have count
    /// as a wrong format.
    pub open spec fn of(status: SerializeStatus) -> DeserialStatus {
        match status {
            SerializeStatus::DeserBufferEmpty => DeserialStatus::BufferEmpty,
            SerializeStatus::DeserSizeMismatch => DeserialStatus::SizeMismatch,
            SerializeStatus::DeserTypeMismatch => DeserialStatus::TypeMismatch,
            _ => DeserialStatus::FormatError,
        }
    }

    /// The number that stands for the status on the wire.
    pub open spec fn code(self) -> u8 {
        match self {
            DeserialStatus::BufferEmpty => 3,
            DeserialStatus::FormatError => 4,
            DeserialStatus::SizeMismatch => 5,
            DeserialStatus::TypeMismatch => 6,
        }
    }

    /// What a text calls the status.
    pub open spec fn spec_label(self) -> Seq<char> {
        match self {
            DeserialStatus::BufferEmpty => "BufferEmpty"@,
            DeserialStatus::FormatError => "FormatError"@,
            DeserialStatus::SizeMismatch => "SizeMismatch"@,
            DeserialStatus::TypeMismatch => "TypeMismatch"@,
        }
    }

    /// What the outcome of a deserialization comes to.
    pub fn from_status(status: SerializeStatus) -> (r: DeserialStatus)
        ensures
            r == DeserialStatus::of(status),
    {
        match status {
            SerializeStatus::DeserBufferEmpty => DeserialStatus::BufferEmpty,
            SerializeStatus::DeserSizeMismatch => DeserialStatus::SizeMismatch,
            SerializeStatus::DeserTypeMismatch => DeserialStatus::TypeMismatch,
            _ => DeserialStatus::FormatError,
        }
    }

    /// The number that stands for the status on the wire.
    pub fn as_repr(self) -> (r: u8)
        ensures
            r == self.code(),
    {
        match self {
            DeserialStatus::BufferEmpty => 3,
            DeserialStatus::FormatError => 4,
            DeserialStatus::SizeMismatch => 5,
            DeserialStatus::TypeMismatch => 6,
        }
    }

    /// What a text calls the status.
    pub fn label(&self) -> (r: &'static str)
        ensures
            r@ == self.spec_label(),
    {
        match self {
            DeserialStatus::BufferEmpty => "BufferEmpty",
            DeserialStatus::FormatError => "FormatError",
            DeserialStatus::SizeMismatch => "SizeMismatch",
            DeserialStatus::TypeMismatch => "TypeMismatch",
        }
    }
}

/// The two bytes of `v`, most significant first.
pub open spec fn be16(v: u16) -> Seq<u8> {
    seq![(v / 0x100) as u8, (v % 0x100) as u8]
}

/// The four bytes of `v`, most significant first.
#[verifier::opaque]
pub open spec fn be32(v: u32) -> Seq<u8> {
    seq![
        (v / 0x100_0000) as u8,
        (v / 0x1_0000 % 0x100) as u8,
        (v / 0x100 % 0x100) as u8,
        (v % 0x100) as u8,
    ]
}

/// Four bytes are four bytes.
pub broadcast proof fn lemma_be32_len(v: u32)
    ensures
        (#[trigger] be32(v)).len() == 4,
{
    reveal(be32);
}

/// The eight bytes of `v`, most significant first.
pub open spec fn be64(v: u64) -> Seq<u8> {
    be32((v / 0x1_0000_0000) as u32) + be32((v % 0x1_0000_0000) as u32)
}

/// The value of the two bytes of `s` at `i`, most significant first.
pub open spec fn u16_at(s: Seq<u8>, i: int) -> u16 {
    (s[i] * 0x100 + s[i + 1]) as u16
}

/// The value of the four bytes of `s` at `i`, most significant first.
#[verifier::opaque]
pub open spec fn u32_at(s: Seq<u8>, i: int) -> u32 {
    (s[i] * 0x100_0000 + s[i + 1] * 0x1_0000 + s[i + 2] * 0x100 + s[i + 3]) as u32
}

/// The value of the eight bytes of `s` at `i`, most significant first.
pub open spec fn u64_at(s: Seq<u8>, i: int) -> u64 {
    (u32_at(s, i) * 0x1_0000_0000 + u32_at(s, i + 4)) as u64
}

/// A string on the wire: its length in two bytes, then its bytes.
pub open spec fn be_string(s: Seq<u8>) -> Seq<u8> {
    be16(s.len() as u16) + s
}

/// `v` as an unsigned number with the same bits.
pub open spec fn bits16(v: i16) -> u16 {
    if v >= 0 {
        v as u16
    } else {
        (v + 0x1_0000) as u16
    }
}

/// `v` as an unsigned number with the same bits.
pub open spec fn bits32(v: i32) -> u32 {
    if v >= 0 {
        v as u32
    } else {
        (v + 0x1_0000_0000) as u32
    }
}

/// The signed number with the bits of `v`.
pub open spec fn signed16(v: u16) -> i16 {
    if v < 0x8000 {
        v as i16
    } else {
        (v - 0x1_0000) as i16
    }
}

/// The signed number with the bits of `v`.
pub open spec fn signed32(v: u32) -> i32 {
    if v < 0x8000_0000 {
        v as i32
    } else {
        (v - 0x1_0000_0000) as i32
    }
}

/// What reading a fixed-size value of `n` bytes at `pos` runs into, if anything.
pub open spec fn read_fault(s: Seq<u8>, pos: int, n: int) -> Option<SerializeStatus> {
    if pos >= s.len() {
        Some(SerializeStatus::DeserBufferEmpty)
    } else if s.len() - pos < n {
        Some(SerializeStatus::DeserSizeMismatch)
    } else {
        None
    }
}

/// What reading one byte at `pos` gives.
pub open spec fn u8_read(s: Seq<u8>, pos: int) -> Result<u8, SerializeStatus> {
    match read_fault(s, pos, 1) {
        Some(e) => Err(e),
        None => Ok(s[pos]),
    }
}

/// What reading two bytes at `pos` gives.
pub open spec fn u16_read(s: Seq<u8>, pos: int) -> Result<u16, SerializeStatus> {
    match read_fault(s, pos, 2) {
        Some(e) => Err(e),
        None => Ok(u16_at(s, pos)),
    }
}

/// What reading four bytes at `pos` gives.
pub open spec fn u32_read(s: Seq<u8>, pos: int) -> Result<u32, SerializeStatus> {
    match read_fault(s, pos, 4) {
        Some(e) => Err(e),
        None => Ok(u32_at(s, pos)),
    }
}

/// What reading eight bytes at `pos` gives.
pub open spec fn u64_read(s: Seq<u8>, pos: int) -> Result<u64, SerializeStatus> {
    match read_fault(s, pos, 8) {
        Some(e) => Err(e),
        None => Ok(u64_at(s, pos)),
    }
}

/// What reading a string of at most `max` bytes at `pos` gives: the string. The
/// next value starts `2 + string length` bytes further on.
pub open spec fn string_read(s: Seq<u8>, pos: int, max: int) -> Result<Seq<u8>, SerializeStatus> {
    match u16_read(s, pos) {
        Err(e) => Err(e),
        Ok(n) => if n > max || n > s.len() - pos - 2 {
            Err(SerializeStatus::DeserSizeMismatch)
        } else {
            Ok(s.subrange(pos + 2, pos + 2 + n))
        },
    }
}

/// Reads one byte at `pos`.
pub fn read_u8(buf: &[u8], pos: usize) -> (r: Result<u8, SerializeStatus>)
    ensures
        r == u8_read(buf@, pos as int),
{
    if pos >= buf.len() {
        Err(SerializeStatus::DeserBufferEmpty)
    } else {
        Ok(buf[pos])
    }
}

/// Reads two bytes at `pos`, most significant first.
pub fn read_u16(buf: &[u8], pos: usize) -> (r: Result<u16, SerializeStatus>)
    ensures
        r == u16_read(buf@, pos as int),
{
    if pos >= buf.len() {
        Err(SerializeStatus::DeserBufferEmpty)
    } else if buf.len() - pos < 2 {
        Err(SerializeStatus::DeserSizeMismatch)
    } else {
        Ok(buf[pos] as u16 * 0x100 + buf[pos + 1] as u16)
    }
}

/// Reads four bytes at `pos`, most significant first.
pub fn read_u32(buf: &[u8], pos: usize) -> (r: Result<u32, SerializeStatus>)
    ensures
        r == u32_read(buf@, pos as int),
{
    reveal(u32_at);
    if pos >= buf.len() {
        Err(SerializeStatus::DeserBufferEmpty)
    } else if buf.len() - pos < 4 {
        Err(SerializeStatus::DeserSizeMismatch)
    } else {
        Ok(
            buf[pos] as u32 * 0x100_0000 + buf[pos + 1] as u32 * 0x1_0000 + buf[pos + 2] as u32
                * 0x100 + buf[pos + 3] as u32,
        )
    }
}

/// Reads eight bytes at `pos`, most significant first.
pub fn read_u64(buf: &[u8], pos: usize) -> (r: Result<u64, SerializeStatus>)
    ensures
        r == u64_read(buf@, pos as int),
{
    reveal(u32_at);
    if pos >= buf.len() {
        Err(SerializeStatus::DeserBufferEmpty)
    } else if buf.len() - pos < 8 {
        Err(SerializeStatus::DeserSizeMismatch)
    } else {
        let high: u32 = buf[pos] as u32 * 0x100_0000 + buf[pos + 1] as u32 * 0x1_0000 + buf[pos + 2]
            as u32 * 0x100 + buf[pos + 3] as u32;
        let low: u32 = buf[pos + 4] as u32 * 0x100_0000 + buf[pos + 5] as u32 * 0x1_0000 + buf[pos
            + 6] as u32 * 0x100 + buf[pos + 7] as u32;
        Ok(high as u64 * 0x1_0000_0000 + low as u64)
    }
}

/// Reads a string of at most `max` bytes at `pos`.
pub fn read_string(buf: &[u8], pos: usize, max: usize) -> (r: Result<Vec<u8>, SerializeStatus>)
    ensures
        match r {
            Ok(v) => string_read(buf@, pos as int, max as int) == Ok::<Seq<u8>, SerializeStatus>(
                v@,
            ),
            Err(e) => string_read(buf@, pos as int, max as int) == Err::<Seq<u8>, SerializeStatus>(
                e,
            ),
        },
{
    match read_u16(buf, pos) {
        Err(e) => Err(e),
        Ok(n) => {
            let len: usize = n as usize;
            if len > max || len > buf.len() - pos - 2 {
                Err(SerializeStatus::DeserSizeMismatch)
            } else {
                Ok(copy_range(buf, pos + 2, pos + 2 + len))
            }
        },
    }
}

/// A copy of the bytes of `buf` from `start` to before `end`.
pub fn copy_range(buf: &[u8], start: usize, end: usize) -> (r: Vec<u8>)
    requires
        start <= end <= buf@.len(),
    ensures
        r@ == buf@.subrange(start as int, end as int),
{
    let mut out: Vec<u8> = Vec::new();
    push_range(&mut out, buf, start, end);
    out
}

/// A copy of `buf`.
pub fn copy_bytes(buf: &[u8]) -> (r: Vec<u8>)
    ensures
        r@ == buf@,
{
    let out: Vec<u8> = copy_range(buf, 0, buf.len());
    assert(out@ =~= buf@);
    out
}

/// Appends the bytes of `buf` from `start` to before `end`.
pub fn push_range(out: &mut Vec<u8>, buf: &[u8], start: usize, end: usize)
    requires
        start <= end <= buf@.len(),
    ensures
        final(out)@ == old(out)@ + buf@.subrange(start as int, end as int),
{
    let ghost before = out@;
    let mut i: usize = start;
    while i < end
        invariant
            start <= i <= end <= buf@.len(),
            out@ == before + buf@.subrange(start as int, i as int),
        decreases end - i,
    {
        out.push(buf[i]);
        i += 1;
        assert(out@ =~= before + buf@.subrange(start as int, i as int));
    }
}

/// Appends `buf`.
pub fn push_bytes(out: &mut Vec<u8>, buf: &[u8])
    ensures
        final(out)@ == old(out)@ + buf@,
{
    push_range(out, buf, 0, buf.len());
    assert(buf@.subrange(0, buf@.len() as int) =~= buf@);
}

/// Appends one byte.
pub fn push_u8(out: &mut Vec<u8>, v: u8)
    ensures
        final(out)@ == old(out)@ + seq![v],
{
    let ghost before = out@;
    out.push(v);
    assert(out@ =~= before + seq![v]);
}

/// Appends two bytes, most significant first.
pub fn push_u16(out: &mut Vec<u8>, v: u16)
    ensures
        final(out)@ == old(out)@ + be16(v),
{
    let ghost before = out@;
    out.push((v / 0x100) as u8);
    out.push((v % 0x100) as u8);
    assert(out@ =~= before + be16(v));
}

/// Appends four bytes, most significant first.
pub fn push_u32(out: &mut Vec<u8>, v: u32)
    ensures
        final(out)@ == old(out)@ + be32(v),
{
    let ghost before = out@;
    out.push((v / 0x100_0000) as u8);
    out.push((v / 0x1_0000 % 0x100) as u8);
    out.push((v / 0x100 % 0x100) as u8);
    out.push((v % 0x100) as u8);
    reveal(be32);
    assert(out@ =~= before + be32(v));
}

/// Appends eight bytes, most significant first.
pub fn push_u64(out: &mut Vec<u8>, v: u64)
    ensures
        final(out)@ == old(out)@ + be64(v),
{
    let ghost before = out@;
    push_u32(out, (v / 0x1_0000_0000) as u32);
    push_u32(out, (v % 0x1_0000_0000) as u32);
    assert(out@ =~= before + be64(v));
}

/// Appends a signed number as two bytes, most significant first.
pub fn push_i16(out: &mut Vec<u8>, v: i16)
    ensures
        final(out)@ == old(out)@ + be16(bits16(v)),
{
    push_u16(out, to_bits16(v));
}

/// Appends a signed number as four bytes, most significant first.
pub fn push_i32(out: &mut Vec<u8>, v: i32)
    ensures
        final(out)@ == old(out)@ + be32(bits32(v)),
{
    push_u32(out, to_bits32(v));
}

/// Appends a string with its length in front.
pub fn push_string(out: &mut Vec<u8>, s: &[u8])
    requires
        s@.len() <= 0xFFFF,
    ensures
        final(out)@ == old(out)@ + be_string(s@),
{
    let ghost before = out@;
    push_u16(out, s.len() as u16);
    push_bytes(out, s);
    assert(out@ =~= before + be_string(s@));
}

/// `v` as an unsigned number with the same bits.
pub fn to_bits16(v: i16) -> (r: u16)
    ensures
        r == bits16(v),
{
    if v >= 0 {
        v as u16
    } else {
        (v as i32 + 0x1_0000) as u16
    }
}

/// `v` as an unsigned number with the same bits.
pub fn to_bits32(v: i32) -> (r: u32)
    ensures
        r == bits32(v),
{
    if v >= 0 {
        v as u32
    } else {
        (v as i64 + 0x1_0000_0000) as u32
    }
}

/// The signed number with the bits of `v`.
pub fn to_signed16(v: u16) -> (r: i16)
    ensures
        r == signed16(v),
{
    if v < 0x8000 {
        v as i16
    } else {
        (v as i32 - 0x1_0000) as i16
    }
}

/// The signed number with the bits of `v`.
pub fn to_signed32(v: u32) -> (r: i32)
    ensures
        r == signed32(v),
{
    if v < 0x8000_0000 {
        v as i32
    } else {
        (v as i64 - 0x1_0000_0000) as i32
    }
}

/// Whether two byte strings are the same.
pub fn same_bytes(a: &[u8], b: &[u8]) -> (r: bool)
    ensures
        r == (a@ == b@),
{
    if a.len() != b.len() {
        return false;
    }
    let mut i: usize = 0;
    while i < a.len()
        invariant
            a@.len() == b@.len(),
            i <= a@.len(),
            forall|j: int| 0 <= j < i ==> a@[j] == b@[j],
        decreases a@.len() - i,
    {
        if a[i] != b[i] {
            return false;
        }
        i += 1;
    }
    assert(a@ =~= b@);
    true
}

/// Joining sequences does not depend on which are joined first.
pub proof fn lemma_join(a: Seq<u8>, b: Seq<u8>, c: Seq<u8>)
    ensures
        a + (b + c) == a + b + c,
        a + b == a + b + Seq::empty(),
{
    assert(a + (b + c) =~= a + b + c);
    assert(a + b =~= a + b + Seq::empty());
}

/// Joining four sequences does not depend on which are joined first.
pub proof fn lemma_join_four(a: Seq<u8>, b: Seq<u8>, c: Seq<u8>, d: Seq<u8>)
    ensures
        a + (b + c + d) == a + b + c + d,
        a + (b + c + d) == a + b + (c + d),
{
    assert(a + (b + c + d) =~= a + b + c + d);
    assert(a + (b + c + d) =~= a + b + (c + d));
}

/// Reading back sixteen bits that were written gives the same value, wherever
/// they stand and whatever stands around them.
pub proof fn law_u16_round_trip(before: Seq<u8>, v: u16, after: Seq<u8>)
    ensures
        u16_read(before + be16(v) + after, before.len() as int) == Ok::<u16, SerializeStatus>(v),
{
    let s = before + be16(v) + after;
    let i = before.len() as int;
    assert(s[i] == be16(v)[0] && s[i + 1] == be16(v)[1]);
}

/// Reading back thirty-two bits that were written gives the same value, wherever
/// they stand and whatever stands around them.
pub proof fn law_u32_round_trip(before: Seq<u8>, v: u32, after: Seq<u8>)
    ensures
        u32_read(before + be32(v) + after, before.len() as int) == Ok::<u32, SerializeStatus>(v),
{
    reveal(be32);
    reveal(u32_at);
    let s = before + be32(v) + after;
    let i = before.len() as int;
    assert(s[i] == be32(v)[0] && s[i + 1] == be32(v)[1] && s[i + 2] == be32(v)[2] && s[i + 3]
        == be32(v)[3]);
}

/// Reading back sixty-four bits that were written gives the same value, wherever
/// they stand and whatever stands around them.
pub proof fn law_u64_round_trip(before: Seq<u8>, v: u64, after: Seq<u8>)
    ensures
        u64_read(before + be64(v) + after, before.len() as int) == Ok::<u64, SerializeStatus>(v),
{
    broadcast use lemma_be32_len;

    let s = before + be64(v) + after;
    let high = (v / 0x1_0000_0000) as u32;
    let low = (v % 0x1_0000_0000) as u32;
    law_u32_round_trip(before, high, be32(low) + after);
    law_u32_round_trip(before + be32(high), low, after);
    assert(before + be32(high) + (be32(low) + after) =~= s);
    assert(before + be32(high) + be32(low) + after =~= s);
}

/// Reading back a string that was written gives the same string, provided that the
/// reader takes strings of that length.
pub proof fn law_string_round_trip(before: Seq<u8>, v: Seq<u8>, after: Seq<u8>, max: int)
    requires
        v.len() <= max,
        v.len() <= 0xFFFF,
    ensures
        string_read(before + be_string(v) + after, before.len() as int, max) == Ok::<
            Seq<u8>,
            SerializeStatus,
        >(v),
{
    let s = before + be_string(v) + after;
    law_u16_round_trip(before, v.len() as u16, v + after);
    assert(before + be16(v.len() as u16) + (v + after) =~= s);
    let i = before.len() as int;
    assert(s.subrange(i + 2, i + 2 + v.len()) =~= v);
}

/// Encoding the value that two bytes stand for gives the two bytes back.
pub proof fn law_be16_of_u16_at(s: Seq<u8>, i: int)
    requires
        0 <= i,
        i + 2 <= s.len(),
    ensures
        be16(u16_at(s, i)) == s.subrange(i, i + 2),
{
    assert(be16(u16_at(s, i)) =~= s.subrange(i, i + 2));
}

/// The signed and the unsigned reading of the same bits undo each other.
pub proof fn law_signed_bits_round_trip(a: i16, b: i32)
    ensures
        signed16(bits16(a)) == a,
        signed32(bits32(b)) == b,
{
}

/// Numbers go on the wire with their most significant byte first, and nothing of them is
/// lost: the bytes, weighed by their places, add up to the number.
pub proof fn law_most_significant_first(a: u16, b: u32)
    ensures
        be16(a).len() == 2,
        be16(a)[0] * 256 + be16(a)[1] == a,
        be32(b).len() == 4,
        be32(b)[0] * 16777216 + be32(b)[1] * 65536 + be32(b)[2] * 256 + be32(b)[3] == b,
{
    reveal(be32);
}

/// The same holds of numbers of eight bytes.
pub proof fn law_most_significant_of_eight_first(c: u64)
    ensures
        be64(c).len() == 8,
        (be64(c)[0] * 16777216 + be64(c)[1] * 65536 + be64(c)[2] * 256 + be64(c)[3]) * 4294967296
            + be64(c)[4] * 16777216 + be64(c)[5] * 65536 + be64(c)[6] * 256 + be64(c)[7] == c,
{
    law_most_significant_first(0, (c / 0x1_0000_0000) as u32);
    law_most_significant_first(0, (c % 0x1_0000_0000) as u32);
}

/// A string goes on the wire behind its length, which takes two bytes.
pub proof fn law_string_layout(s: Seq<u8>)
    requires
        s.len() <= 0xFFFF,
    ensures
        be_string(s).len() == 2 + s.len(),
        be_string(s)[0] * 256 + be_string(s)[1] == s.len(),
        be_string(s).subrange(2, 2 + s.len() as int) == s,
{
    assert(be_string(s).subrange(2, 2 + s.len() as int) =~= s);
}

/// A number can be read where all its bytes are there, and is what they add up to, the most
/// significant first. Where there is no byte at all the bytes have run out, and where there
/// are too few the size does not match.
pub proof fn law_numbers_read(s: Seq<u8>, i: int)
    requires
        0 <= i,
    ensures
        u8_read(s, i) == (if i < s.len() {
            Ok(s[i])
        } else {
            Err(SerializeStatus::DeserBufferEmpty)
        }),
        i + 2 <= s.len() ==> u16_read(s, i) is Ok && u16_read(s, i)->Ok_0 == s[i] * 256 + s[i + 1],
        i + 4 <= s.len() ==> u32_read(s, i) is Ok && u32_read(s, i)->Ok_0 == s[i] * 16777216 + s[i
            + 1] * 65536 + s[i + 2] * 256 + s[i + 3],
        i + 8 <= s.len() ==> u64_read(s, i) is Ok && u64_read(s, i)->Ok_0 == (s[i] * 16777216 + s[i
            + 1] * 65536 + s[i + 2] * 256 + s[i + 3]) * 4294967296 + s[i + 4] * 16777216 + s[i + 5]
            * 65536 + s[i + 6] * 256 + s[i + 7],
        s.len() <= i ==> {
            &&& u16_read(s, i) == Err::<u16, _>(SerializeStatus::DeserBufferEmpty)
            &&& u32_read(s, i) == Err::<u32, _>(SerializeStatus::DeserBufferEmpty)
            &&& u64_read(s, i) == Err::<u64, _>(SerializeStatus::DeserBufferEmpty)
        },
        i < s.len() < i + 2 ==> u16_read(s, i) == Err::<u16, _>(SerializeStatus::DeserSizeMismatch),
        i < s.len() < i + 4 ==> u32_read(s, i) == Err::<u32, _>(SerializeStatus::DeserSizeMismatch),
        i < s.len() < i + 8 ==> u64_read(s, i) == Err::<u64, _>(SerializeStatus::DeserSizeMismatch),
{
    reveal(u32_at);
}

/// A string can be read where its length and all its bytes are there and it is no longer
/// than is allowed, and is those bytes.
pub proof fn law_strings_read(s: Seq<u8>, i: int, max: int)
    requires
        0 <= i,
        0 <= max,
    ensures
        string_read(s, i, max) is Ok <==> i + 2 <= s.len() && s[i] * 256 + s[i + 1] <= max && i + 2
            + s[i] * 256 + s[i + 1] <= s.len(),
        string_read(s, i, max) is Ok ==> string_read(s, i, max)->Ok_0 == s.subrange(
            i + 2,
            i + 2 + s[i] * 256 + s[i + 1],
        ),
        string_read(s, i, max) is Err ==> string_read(s, i, max) == Err::<Seq<u8>, _>(
            if s.len() <= i {
                SerializeStatus::DeserBufferEmpty
            } else {
                SerializeStatus::DeserSizeMismatch
            },
        ),
{
}

/// A signed number and the unsigned number with the same bits are the same, or one lap
/// apart.
pub proof fn law_signed_numbers(a: i16, b: i32, c: u16, d: u32)
    ensures
        bits16(a) == a as int % 65536,
        bits32(b) == b as int % 4294967296,
        signed16(c) as int % 65536 == c,
        signed32(d) as int % 4294967296 == d,
{
}

/// The numbers at a place are what the bytes there add up to, the most significant first.
pub proof fn law_numbers_at(s: Seq<u8>, i: int)
    ensures
        u16_at(s, i) == s[i] * 256 + s[i + 1],
        u32_at(s, i) == s[i] * 16777216 + s[i + 1] * 65536 + s[i + 2] * 256 + s[i + 3],
{
    reveal(u32_at);
}

/// What four bytes add up to, the first of them weighing most.
pub open spec fn sum_of_four(s: Seq<u8>, i: int) -> int {
    s[i] * 16777216 + s[i + 1] * 65536 + s[i + 2] * 256 + s[i + 3]
}

/// What two bytes add up to, the first of them weighing most.
pub open spec fn sum_of_two(s: Seq<u8>, i: int) -> int {
    s[i] * 256 + s[i + 1]
}

/// A number on the wire adds up to itself, wherever it stands.
pub proof fn law_numbers_add_up(before: Seq<u8>, a: u32, b: u16, after: Seq<u8>)
    ensures
        sum_of_four(before + be32(a) + after, before.len() as int) == a,
        sum_of_two(before + be16(b) + after, before.len() as int) == b,
{
    law_most_significant_first(b, a);
    let four = before + be32(a) + after;
    let n = before.len() as int;
    assert(four[n] == be32(a)[0]);
    assert(four[n + 1] == be32(a)[1]);
    assert(four[n + 2] == be32(a)[2]);
    assert(four[n + 3] == be32(a)[3]);
    let two = before + be16(b) + after;
    assert(two[n] == be16(b)[0]);
    assert(two[n + 1] == be16(b)[1]);
}

/// Up to three numbers one after the other add up to themselves, each in its place.
pub proof fn law_numbers_in_a_row(a: u32, b: u32, c: u32, rest: Seq<u8>)
    ensures
        ({
            let s = be32(a) + be32(b) + be32(c) + rest;
            &&& s.len() == 12 + rest.len()
            &&& sum_of_four(s, 0) == a
            &&& sum_of_four(s, 4) == b
            &&& sum_of_four(s, 8) == c
            &&& s.subrange(12, 12 + rest.len() as int) == rest
        }),
        ({
            let s = be32(a) + be32(b) + rest;
            &&& s.len() == 8 + rest.len()
            &&& sum_of_four(s, 0) == a
            &&& sum_of_four(s, 4) == b
            &&& s.subrange(8, 8 + rest.len() as int) == rest
        }),
        ({
            let s = be32(a) + rest;
            &&& s.len() == 4 + rest.len()
            &&& sum_of_four(s, 0) == a
            &&& s.subrange(4, 4 + rest.len() as int) == rest
        }),
{
    broadcast use lemma_be32_len;

    let e = Seq::<u8>::empty();
    let s = be32(a) + be32(b) + be32(c) + rest;
    assert(s =~= e + be32(a) + (be32(b) + be32(c) + rest));
    law_numbers_add_up(e, a, 0, be32(b) + be32(c) + rest);
    assert(s =~= be32(a) + be32(b) + (be32(c) + rest));
    law_numbers_add_up(be32(a), b, 0, be32(c) + rest);
    law_numbers_add_up(be32(a) + be32(b), c, 0, rest);
    assert(s.subrange(12, 12 + rest.len() as int) =~= rest);
    let two = be32(a) + be32(b) + rest;
    assert(two =~= e + be32(a) + (be32(b) + rest));
    law_numbers_add_up(e, a, 0, be32(b) + rest);
    law_numbers_add_up(be32(a), b, 0, rest);
    assert(two.subrange(8, 8 + rest.len() as int) =~= rest);
    let one = be32(a) + rest;
    assert(one =~= e + be32(a) + rest);
    law_numbers_add_up(e, a, 0, rest);
    assert(one.subrange(4, 4 + rest.len() as int) =~= rest);
}

/// Each status has a number of its own. What a deserialization can run into keeps its number,
/// and what it cannot counts as malformed.
pub proof fn law_status_numbers(s: SerializeStatus, d: DeserialStatus)
    ensures
        s is OK <==> s.code() == 0,
        s is FormatError <==> s.code() == 1,
        s is NoRoomLeft <==> s.code() == 2,
        s is DeserBufferEmpty <==> s.code() == 3,
        s is DeserFormatError <==> s.code() == 4,
        s is DeserSizeMismatch <==> s.code() == 5,
        s is DeserTypeMismatch <==> s.code() == 6,
        s is DiscardedExisting <==> s.code() == 7,
        d is BufferEmpty <==> d.code() == 3,
        d is FormatError <==> d.code() == 4,
        d is SizeMismatch <==> d.code() == 5,
        d is TypeMismatch <==> d.code() == 6,
        3 <= s.code() <= 6 ==> DeserialStatus::of(s).code() == s.code(),
        !(3 <= s.code() <= 6) ==> DeserialStatus::of(s) is FormatError,
{
}

} // verus!
