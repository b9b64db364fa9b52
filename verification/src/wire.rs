//! Little-endian integers inside byte sequences.

use vstd::prelude::*;

verus! {

/// The number that `s` stands for, least significant byte first.
pub open spec fn le_value(s: Seq<u8>) -> nat
    decreases s.len(),
{
    if s.len() == 0 {
        0
    } else {
        s[0] as nat + 256 * le_value(s.drop_first())
    }
}

/// The `n` low bytes of `v`, least significant byte first.
pub open spec fn le_bytes(v: nat, n: nat) -> Seq<u8>
    decreases n,
{
    if n == 0 {
        Seq::empty()
    } else {
        seq![(v % 256) as u8] + le_bytes(v / 256, (n - 1) as nat)
    }
}

/// The two's complement representation of `v` in 32 bits.
pub open spec fn two_complement(v: i32) -> nat {
    (v as int % 0x1_0000_0000) as nat
}

/// The 32-bit number at byte offset `at` of `s`.
pub open spec fn u32_at(s: Seq<u8>, at: int) -> nat {
    le_value(s.subrange(at, at + 4))
}

/// The 64-bit number at byte offset `at` of `s`.
pub open spec fn u64_at(s: Seq<u8>, at: int) -> nat {
    le_value(s.subrange(at, at + 8))
}

/// Nothing of `v` is left beyond its `n` low bytes.
spec fn fits(v: nat, n: nat) -> bool
    decreases n,
{
    if n == 0 {
        v == 0
    } else {
        fits(v / 256, (n - 1) as nat)
    }
}

proof fn lemma_read_back(v: nat, n: nat)
    requires
        fits(v, n),
    ensures
        le_value(le_bytes(v, n)) == v,
        le_bytes(v, n).len() == n,
    decreases n,
{
    if n > 0 {
        lemma_read_back(v / 256, (n - 1) as nat);
        assert(le_bytes(v, n).drop_first() =~= le_bytes(v / 256, (n - 1) as nat));
    }
}

/// Four bytes hold every 32-bit number: reading back what was written gives
/// the number itself.
pub proof fn law_u32_read_back(v: nat)
    requires
        v <= u32::MAX,
    ensures
        le_value(le_bytes(v, 4)) == v,
        le_bytes(v, 4).len() == 4,
{
    reveal_with_fuel(fits, 5);
    lemma_read_back(v, 4);
}

/// Eight bytes hold every 64-bit number: reading back what was written gives
/// the number itself.
pub proof fn law_u64_read_back(v: nat)
    requires
        v <= u64::MAX,
    ensures
        le_value(le_bytes(v, 8)) == v,
        le_bytes(v, 8).len() == 8,
{
    reveal_with_fuel(fits, 9);
    lemma_read_back(v, 8);
}

proof fn lemma_le_value_4(s: Seq<u8>)
    requires
        s.len() == 4,
    ensures
        le_value(s) == s[0] + 256 * s[1] + 65536 * s[2] + 16777216 * s[3],
        le_value(s) < 0x1_0000_0000,
{
    reveal_with_fuel(le_value, 5);
}

proof fn lemma_le_value_8(s: Seq<u8>)
    requires
        s.len() == 8,
    ensures
        le_value(s) == le_value(s.subrange(0, 4)) + 0x1_0000_0000 * le_value(s.subrange(4, 8)),
{
    reveal_with_fuel(le_value, 9);
    let lo = s.subrange(0, 4);
    let hi = s.subrange(4, 8);
    lemma_le_value_4(lo);
    lemma_le_value_4(hi);
}

/// The 32-bit number at byte offset `at`.
pub fn read_u32(data: &[u8], at: usize) -> (v: u32)
    requires
        at + 4 <= data@.len(),
    ensures
        v == u32_at(data@, at as int),
{
    proof {
        lemma_le_value_4(data@.subrange(at as int, at + 4));
    }
    data[at] as u32 + 256 * (data[at + 1] as u32) + 65536 * (data[at + 2] as u32) + 16777216 * (
    data[at + 3] as u32)
}

/// The 64-bit number at byte offset `at`.
pub fn read_u64(data: &[u8], at: usize) -> (v: u64)
    requires
        at + 8 <= data@.len(),
    ensures
        v == u64_at(data@, at as int),
{
    assert(at + 8 <= data.len());
    let lo: u32 = read_u32(data, at);
    let hi: u32 = read_u32(data, at + 4);
    proof {
        let s = data@.subrange(at as int, at + 8);
        lemma_le_value_8(s);
        assert(s.subrange(0, 4) =~= data@.subrange(at as int, at + 4));
        assert(s.subrange(4, 8) =~= data@.subrange(at + 4, at + 8));
    }
    lo as u64 + 0x1_0000_0000 * (hi as u64)
}

/// Appends the four bytes of `v`.
pub fn push_u32(buf: &mut Vec<u8>, v: u32)
    ensures
        final(buf)@ == old(buf)@ + le_bytes(v as nat, 4),
{
    proof {
        reveal_with_fuel(le_bytes, 5);
    }
    buf.push((v % 256) as u8);
    buf.push((v / 256 % 256) as u8);
    buf.push((v / 256 / 256 % 256) as u8);
    buf.push((v / 256 / 256 / 256 % 256) as u8);
    assert(buf@ =~= old(buf)@ + le_bytes(v as nat, 4));
}

/// The bits of `v` read as an unsigned number.
pub fn i32_bits(v: i32) -> (bits: u32)
    ensures
        bits == two_complement(v),
{
    if v >= 0 {
        v as u32
    } else {
        (v as i64 + 0x1_0000_0000) as u32
    }
}

/// Appends `other` to `buf`.
pub fn push_bytes(buf: &mut Vec<u8>, other: &[u8])
    ensures
        final(buf)@ == old(buf)@ + other@,
{
    buf.extend_from_slice(other);
    assert(buf@ =~= old(buf)@ + other@);
}

/// Four bytes stand for the sum of their values, each weighed 256 times as
/// much as the one before it.
pub proof fn law_u32_weights(s: Seq<u8>, at: int)
    requires
        0 <= at,
        at + 4 <= s.len(),
    ensures
        u32_at(s, at) == s[at] + 0x100 * s[at + 1] + 0x1_0000 * s[at + 2] + 0x100_0000 * s[at + 3],
        u32_at(s, at) <= u32::MAX,
{
    lemma_le_value_4(s.subrange(at, at + 4));
}

/// Eight bytes stand for their first four and, weighed two to the 32, their
/// last four.
pub proof fn law_u64_weights(s: Seq<u8>, at: int)
    requires
        0 <= at,
        at + 8 <= s.len(),
    ensures
        u64_at(s, at) == u32_at(s, at) + 0x1_0000_0000 * u32_at(s, at + 4),
        u64_at(s, at) <= u64::MAX,
{
    let t = s.subrange(at, at + 8);
    lemma_le_value_8(t);
    assert(t.subrange(0, 4) =~= s.subrange(at, at + 4));
    assert(t.subrange(4, 8) =~= s.subrange(at + 4, at + 8));
    law_u32_weights(s, at);
    law_u32_weights(s, at + 4);
}

/// Bytes that were read as a number are written back as they were.
pub proof fn law_bytes_written_back(s: Seq<u8>)
    ensures
        le_bytes(le_value(s), s.len()) == s,
    decreases s.len(),
{
    if s.len() > 0 {
        let rest = s.drop_first();
        law_bytes_written_back(rest);
        let v = le_value(s);
        assert(v % 256 == s[0] as nat);
        assert(v / 256 == le_value(rest));
        assert(le_bytes(v, s.len()) =~= s);
    } else {
        assert(le_bytes(le_value(s), 0) =~= s);
    }
}

/// A number that is not negative stands for itself, and a negative one for
/// itself plus two to the 32; so different numbers have different bits.
pub proof fn law_two_complement(v: i32, w: i32)
    ensures
        v >= 0 ==> two_complement(v) == v,
        v < 0 ==> two_complement(v) == v + 0x1_0000_0000,
        two_complement(v) <= u32::MAX,
        two_complement(v) == two_complement(w) ==> v == w,
{
}

} // verus!
