//! Counters that wrap around.
use vstd::prelude::*;

verus! {

/// The count after one more, back to zero after the largest.
pub open spec fn bumped(v: u32) -> u32 {
    if v == u32::MAX {
        0
    } else {
        (v + 1) as u32
    }
}

/// The count after one more, back to zero after the largest.
pub fn bump(v: u32) -> (r: u32)
    ensures
        r == bumped(v),
{
    if v == u32::MAX {
        0
    } else {
        v + 1
    }
}

/// The count after `n` more, counting around.
pub open spec fn advanced(v: u32, n: nat) -> u32 {
    ((v + n) % 0x1_0000_0000) as u32
}

/// The count after `n` more, counting around.
pub fn advance(v: u32, n: usize) -> (r: u32)
    ensures
        r == advanced(v, n as nat),
{
    let low: u64 = n as u64 % 0x1_0000_0000;
    proof {
        vstd::arithmetic::div_mod::lemma_add_mod_noop_right(v as int, n as int, 0x1_0000_0000);
    }
    ((v as u64 + low) % 0x1_0000_0000) as u32
}

/// How far `v` lies after `base`, counting around.
pub open spec fn offset_from(v: u32, base: u32) -> u32 {
    if v >= base {
        (v - base) as u32
    } else {
        (v + 0x1_0000_0000 - base) as u32
    }
}

/// How far `v` lies after `base`, counting around.
pub fn offset(v: u32, base: u32) -> (r: u32)
    ensures
        r == offset_from(v, base),
{
    if v >= base {
        v - base
    } else {
        (v as u64 + 0x1_0000_0000 - base as u64) as u32
    }
}

/// Counting one on from `v` gives the next number, and zero after the largest.
pub proof fn law_bumped(v: u32)
    ensures
        bumped(v) == (v + 1) % 0x1_0000_0000,
{
}

/// Counting on by how far `v` lies after `base` leads from `base` to `v`.
pub proof fn law_offset_leads_back(v: u32, base: u32)
    ensures
        (base + offset_from(v, base)) % 0x1_0000_0000 == v,
{
}

/// Counting on by one number and by another is counting on by both together.
pub proof fn law_advances_add_up(v: u32, n: nat, m: nat)
    ensures
        advanced(v, 0) == v,
        advanced(v, 1) == bumped(v),
        advanced(advanced(v, n), m) == advanced(v, n + m),
{
    vstd::arithmetic::div_mod::lemma_add_mod_noop_right(m as int, (v + n) as int, 0x1_0000_0000);
}

} // verus!
