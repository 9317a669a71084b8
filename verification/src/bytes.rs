//! Integers in a buffer of bytes, in the byte order of the machine.
//!
//! A buffer of the operating system is aligned for nothing in particular.
//! Everything here reads byte by byte from an offset, so that what is read
//! depends on the bytes alone and never on where they lie.

use vstd::endian::{endianness, Endian};
use vstd::prelude::*;

verus! {

/// The number that `b` spells with its least significant byte first.
pub open spec fn le_value(b: Seq<u8>) -> nat
    decreases b.len(),
{
    if b.len() == 0 {
        0
    } else {
        b[0] as nat + 256 * le_value(b.drop_first())
    }
}

/// The number that `b` spells with its most significant byte first.
pub open spec fn be_value(b: Seq<u8>) -> nat
    decreases b.len(),
{
    if b.len() == 0 {
        0
    } else {
        256 * be_value(b.drop_last()) + b.last() as nat
    }
}

/// The number that `b` spells in the byte order of the machine.
pub open spec fn native_value(b: Seq<u8>) -> nat {
    match endianness() {
        Endian::Little => le_value(b),
        Endian::Big => be_value(b),
    }
}

/// The number that the `n` bytes of `b` from the offset `at` spell.
pub open spec fn value_at(b: Seq<u8>, at: int, n: int) -> nat {
    native_value(b.subrange(at, at + n))
}

/// The 8-bit two's complement reading of `v`.
pub open spec fn signed8(v: nat) -> i8 {
    if v < 0x80 {
        v as i8
    } else {
        (v - 0x100) as i8
    }
}

/// The 16-bit two's complement reading of `v`.
pub open spec fn signed16(v: nat) -> i16 {
    if v < 0x8000 {
        v as i16
    } else {
        (v - 0x1_0000) as i16
    }
}

/// The 32-bit two's complement reading of `v`.
pub open spec fn signed32(v: nat) -> i32 {
    if v < 0x8000_0000 {
        v as i32
    } else {
        (v - 0x1_0000_0000) as i32
    }
}

/// The 64-bit two's complement reading of `v`.
pub open spec fn signed64(v: nat) -> i64 {
    if v < 0x8000_0000_0000_0000 {
        v as i64
    } else {
        (v - 0x1_0000_0000_0000_0000) as i64
    }
}

/// What one byte spells.
pub proof fn lemma_value_1(b: Seq<u8>)
    requires
        b.len() == 1,
    ensures
        le_value(b) == b[0],
        be_value(b) == b[0],
        native_value(b) == b[0],
{
    reveal_with_fuel(le_value, 2);
    reveal_with_fuel(be_value, 2);
}

/// What two bytes spell, in either order.
pub proof fn lemma_value_2(b: Seq<u8>)
    requires
        b.len() == 2,
    ensures
        le_value(b) == b[0] + 256 * b[1],
        be_value(b) == b[1] + 256 * b[0],
        native_value(b) < 0x1_0000,
        native_value(b) == 0 <==> b[0] == 0 && b[1] == 0,
{
    lemma_value_1(b.drop_first());
    lemma_value_1(b.drop_last());
}

/// What four bytes spell, in either order.
pub proof fn lemma_value_4(b: Seq<u8>)
    requires
        b.len() == 4,
    ensures
        le_value(b) == b[0] + 256 * (b[1] + 256 * (b[2] + 256 * b[3])),
        be_value(b) == b[3] + 256 * (b[2] + 256 * (b[1] + 256 * b[0])),
        native_value(b) < 0x1_0000_0000,
{
    let t = b.drop_first();
    let tt = t.drop_first();
    lemma_value_2(tt);
    assert(le_value(t) == t[0] + 256 * le_value(tt));
    let h = b.drop_last();
    let hh = h.drop_last();
    lemma_value_2(hh);
    assert(be_value(h) == 256 * be_value(hh) + h.last());
}

/// What eight bytes spell, in either order.
pub proof fn lemma_value_8(b: Seq<u8>)
    requires
        b.len() == 8,
    ensures
        le_value(b) == le_value(b.subrange(0, 4)) + 0x1_0000_0000 * le_value(b.subrange(4, 8)),
        be_value(b) == be_value(b.subrange(4, 8)) + 0x1_0000_0000 * be_value(b.subrange(0, 4)),
        native_value(b) < 0x1_0000_0000_0000_0000,
{
    let lo = b.subrange(0, 4);
    let hi = b.subrange(4, 8);
    lemma_value_4(lo);
    lemma_value_4(hi);
    let t1 = b.drop_first();
    let t2 = t1.drop_first();
    let t3 = t2.drop_first();
    let t4 = t3.drop_first();
    assert(t4 =~= hi);
    assert(le_value(t3) == t3[0] + 256 * le_value(t4));
    assert(le_value(t2) == t2[0] + 256 * le_value(t3));
    assert(le_value(t1) == t1[0] + 256 * le_value(t2));
    assert(le_value(b) == b[0] + 256 * le_value(t1));
    let h1 = b.drop_last();
    let h2 = h1.drop_last();
    let h3 = h2.drop_last();
    let h4 = h3.drop_last();
    assert(h4 =~= lo);
    assert(be_value(h3) == 256 * be_value(h4) + h3.last());
    assert(be_value(h2) == 256 * be_value(h3) + h2.last());
    assert(be_value(h1) == 256 * be_value(h2) + h1.last());
    assert(be_value(b) == 256 * be_value(h1) + b.last());
}

/// What is read depends on the bytes alone: the same bytes at another
/// offset of another buffer, aligned or not, spell the same number.
pub proof fn lemma_read_anywhere(a: Seq<u8>, i: int, b: Seq<u8>, j: int, n: int)
    requires
        0 <= n,
        0 <= i,
        i + n <= a.len(),
        0 <= j,
        j + n <= b.len(),
        a.subrange(i, i + n) == b.subrange(j, j + n),
    ensures
        value_at(a, i, n) == value_at(b, j, n),
        signed8(value_at(a, i, n)) == signed8(value_at(b, j, n)),
        signed16(value_at(a, i, n)) == signed16(value_at(b, j, n)),
        signed32(value_at(a, i, n)) == signed32(value_at(b, j, n)),
        signed64(value_at(a, i, n)) == signed64(value_at(b, j, n)),
{
}

/// `u16::from_ne_bytes`: the 16-bit number that two bytes spell in the byte
/// order of the machine.
#[verifier::external_body]
fn u16_from_ne_bytes(b0: u8, b1: u8) -> (r: u16)
    ensures
        r == native_value(seq![b0, b1]),
{
    u16::from_ne_bytes([b0, b1])
}

/// `u32::from_ne_bytes`: the 32-bit number that four bytes spell in the byte
/// order of the machine.
#[verifier::external_body]
fn u32_from_ne_bytes(b0: u8, b1: u8, b2: u8, b3: u8) -> (r: u32)
    ensures
        r == native_value(seq![b0, b1, b2, b3]),
{
    u32::from_ne_bytes([b0, b1, b2, b3])
}

/// `u64::from_ne_bytes`: the 64-bit number that eight bytes spell in the
/// byte order of the machine.
#[verifier::external_body]
fn u64_from_ne_bytes(b0: u8, b1: u8, b2: u8, b3: u8, b4: u8, b5: u8, b6: u8, b7: u8) -> (r: u64)
    ensures
        r == native_value(seq![b0, b1, b2, b3, b4, b5, b6, b7]),
{
    u64::from_ne_bytes([b0, b1, b2, b3, b4, b5, b6, b7])
}

/// Reads the byte at `at`.
pub fn read_u8(data: &[u8], at: usize) -> (r: u8)
    requires
        at + 1 <= data.len(),
    ensures
        r == value_at(data@, at as int, 1),
        r == data@[at as int],
{
    proof {
        lemma_value_1(data@.subrange(at as int, at + 1));
    }
    data[at]
}

/// Reads the byte at `at` as a signed number.
pub fn read_i8(data: &[u8], at: usize) -> (r: i8)
    requires
        at + 1 <= data.len(),
    ensures
        r == signed8(value_at(data@, at as int, 1)),
{
    let v: u8 = read_u8(data, at);
    if v < 0x80 {
        v as i8
    } else {
        (v - 0x80) as i8 + i8::MIN
    }
}

/// Reads the two bytes from `at` as an unsigned number.
pub fn read_u16(data: &[u8], at: usize) -> (r: u16)
    requires
        at + 2 <= data.len(),
    ensures
        r == value_at(data@, at as int, 2),
{
    proof {
        assert(data@.subrange(at as int, at + 2) =~= seq![data@[at as int], data@[at + 1]]);
    }
    u16_from_ne_bytes(data[at], data[at + 1])
}

/// Reads the two bytes from `at` as a signed number.
pub fn read_i16(data: &[u8], at: usize) -> (r: i16)
    requires
        at + 2 <= data.len(),
    ensures
        r == signed16(value_at(data@, at as int, 2)),
{
    let v: u16 = read_u16(data, at);
    if v < 0x8000 {
        v as i16
    } else {
        (v - 0x8000) as i16 + i16::MIN
    }
}

/// Reads the four bytes from `at` as an unsigned number.
pub fn read_u32(data: &[u8], at: usize) -> (r: u32)
    requires
        at + 4 <= data.len(),
    ensures
        r == value_at(data@, at as int, 4),
{
    proof {
        assert(data@.subrange(at as int, at + 4) =~= seq![
            data@[at as int],
            data@[at + 1],
            data@[at + 2],
            data@[at + 3],
        ]);
    }
    u32_from_ne_bytes(data[at], data[at + 1], data[at + 2], data[at + 3])
}

/// Reads the four bytes from `at` as a signed number.
pub fn read_i32(data: &[u8], at: usize) -> (r: i32)
    requires
        at + 4 <= data.len(),
    ensures
        r == signed32(value_at(data@, at as int, 4)),
{
    let v: u32 = read_u32(data, at);
    if v < 0x8000_0000 {
        v as i32
    } else {
        (v - 0x8000_0000) as i32 + i32::MIN
    }
}

/// Reads the eight bytes from `at` as an unsigned number.
pub fn read_u64(data: &[u8], at: usize) -> (r: u64)
    requires
        at + 8 <= data.len(),
    ensures
        r == value_at(data@, at as int, 8),
{
    proof {
        assert(data@.subrange(at as int, at + 8) =~= seq![
            data@[at as int],
            data@[at + 1],
            data@[at + 2],
            data@[at + 3],
            data@[at + 4],
            data@[at + 5],
            data@[at + 6],
            data@[at + 7],
        ]);
    }
    u64_from_ne_bytes(
        data[at],
        data[at + 1],
        data[at + 2],
        data[at + 3],
        data[at + 4],
        data[at + 5],
        data[at + 6],
        data[at + 7],
    )
}

/// Reads the eight bytes from `at` as an unsigned number with the most
/// significant byte first, whatever the byte order of the machine.
pub fn read_be_u64(data: &[u8], at: usize) -> (r: u64)
    requires
        at + 8 <= data.len(),
    ensures
        r == be_value(data@.subrange(at as int, at + 8)),
{
    proof {
        let b = data@.subrange(at as int, at + 8);
        lemma_value_8(b);
        lemma_value_4(b.subrange(0, 4));
        lemma_value_4(b.subrange(4, 8));
    }
    let b0: u64 = data[at] as u64;
    let b1: u64 = data[at + 1] as u64;
    let b2: u64 = data[at + 2] as u64;
    let b3: u64 = data[at + 3] as u64;
    let b4: u64 = data[at + 4] as u64;
    let b5: u64 = data[at + 5] as u64;
    let b6: u64 = data[at + 6] as u64;
    let b7: u64 = data[at + 7] as u64;
    let high: u64 = ((b0 * 256 + b1) * 256 + b2) * 256 + b3;
    let low: u64 = ((b4 * 256 + b5) * 256 + b6) * 256 + b7;
    high * 0x1_0000_0000 + low
}

/// Reads the eight bytes from `at` as a signed number.
pub fn read_i64(data: &[u8], at: usize) -> (r: i64)
    requires
        at + 8 <= data.len(),
    ensures
        r == signed64(value_at(data@, at as int, 8)),
{
    let v: u64 = read_u64(data, at);
    if v < 0x8000_0000_0000_0000 {
        v as i64
    } else {
        (v - 0x8000_0000_0000_0000) as i64 + i64::MIN
    }
}

} // verus!
