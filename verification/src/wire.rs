//! Little-endian field codecs for the fixed-layout records that cross the
//! kernel/user transport boundary. Records are read and written at explicit
//! byte offsets; nothing assumes natural alignment of the buffer.

use vstd::prelude::*;

verus! {

/// The little-endian bytes of a 16-bit value.
pub open spec fn spec_u16_le(n: u16) -> Seq<u8> {
    seq![(n % 256) as u8, ((n / 256) % 256) as u8]
}

/// The little-endian bytes of a 32-bit value.
pub open spec fn spec_u32_le(n: u32) -> Seq<u8> {
    seq![
        (n % 256) as u8,
        ((n / 256) % 256) as u8,
        ((n / 65536) % 256) as u8,
        ((n / 16777216) % 256) as u8,
    ]
}

/// The little-endian bytes of a 64-bit value.
pub open spec fn spec_u64_le(n: u64) -> Seq<u8> {
    seq![
        (n % 256) as u8,
        ((n / 0x100) % 256) as u8,
        ((n / 0x10000) % 256) as u8,
        ((n / 0x1000000) % 256) as u8,
        ((n / 0x100000000) % 256) as u8,
        ((n / 0x10000000000) % 256) as u8,
        ((n / 0x1000000000000) % 256) as u8,
        ((n / 0x100000000000000) % 256) as u8,
    ]
}

/// The 16-bit value whose little-endian bytes are `b`.
pub open spec fn spec_u16_of_le(b: Seq<u8>) -> u16
    recommends
        b.len() == 2,
{
    (b[0] + b[1] * 0x100) as u16
}

/// The 32-bit value whose little-endian bytes are `b`.
pub open spec fn spec_u32_of_le(b: Seq<u8>) -> u32
    recommends
        b.len() == 4,
{
    (b[0] + b[1] * 0x100 + b[2] * 0x10000 + b[3] * 0x1000000) as u32
}

/// The 64-bit value whose little-endian bytes are `b`.
pub open spec fn spec_u64_of_le(b: Seq<u8>) -> u64
    recommends
        b.len() == 8,
{
    (b[0] + b[1] * 0x100 + b[2] * 0x10000 + b[3] * 0x1000000 + b[4] * 0x100000000
        + b[5] * 0x10000000000 + b[6] * 0x1000000000000 + b[7] * 0x100000000000000) as u64
}

/// The big-endian (network-order) bytes of a 32-bit value.
pub open spec fn spec_u32_be(n: u32) -> Seq<u8> {
    seq![
        ((n / 16777216) % 256) as u8,
        ((n / 65536) % 256) as u8,
        ((n / 256) % 256) as u8,
        (n % 256) as u8,
    ]
}

/// The 16-bit value whose big-endian bytes are `b`.
pub open spec fn spec_u16_of_be(b: Seq<u8>) -> u16
    recommends
        b.len() == 2,
{
    (b[0] * 0x100 + b[1]) as u16
}

/// The 32-bit value whose big-endian bytes are `b`.
pub open spec fn spec_u32_of_be(b: Seq<u8>) -> u32
    recommends
        b.len() == 4,
{
    (b[0] * 0x1000000 + b[1] * 0x10000 + b[2] * 0x100 + b[3]) as u32
}

/// Reads the 16-bit big-endian field at byte offset `off`.
pub fn read_u16_be(bytes: &[u8], off: usize) -> (r: u16)
    requires
        off + 2 <= bytes@.len(),
    ensures
        r == spec_u16_of_be(bytes@.subrange(off as int, off + 2)),
{
    let b0: u16 = bytes[off] as u16;
    let b1: u16 = bytes[off + 1] as u16;
    b0 * 0x100 + b1
}

/// Reads the 32-bit big-endian field at byte offset `off`.
pub fn read_u32_be(bytes: &[u8], off: usize) -> (r: u32)
    requires
        off + 4 <= bytes@.len(),
    ensures
        r == spec_u32_of_be(bytes@.subrange(off as int, off + 4)),
{
    let b0: u32 = bytes[off] as u32;
    let b1: u32 = bytes[off + 1] as u32;
    let b2: u32 = bytes[off + 2] as u32;
    let b3: u32 = bytes[off + 3] as u32;
    b0 * 0x1000000 + b1 * 0x10000 + b2 * 0x100 + b3
}

/// Turns a 32-bit value back into its four network-order octets.
pub fn u32_to_be(n: u32) -> (r: [u8; 4])
    ensures
        r@ == spec_u32_be(n),
{
    let r: [u8; 4] = [
        ((n / 16777216) % 256) as u8,
        ((n / 65536) % 256) as u8,
        ((n / 256) % 256) as u8,
        (n % 256) as u8,
    ];
    assert(r@ =~= spec_u32_be(n));
    r
}

/// The network-order octets of a 32-bit value read from network order are
/// the original bytes.
pub proof fn lemma_u32_be_of_bytes_round_trip(b: Seq<u8>)
    requires
        b.len() == 4,
    ensures
        spec_u32_be(spec_u32_of_be(b)) =~= b,
{
    let b0 = b[0] as int;
    let b1 = b[1] as int;
    let b2 = b[2] as int;
    let b3 = b[3] as int;
    let n = b0 * 0x1000000 + b1 * 0x10000 + b2 * 0x100 + b3;
    vstd::arithmetic::div_mod::lemma_fundamental_div_mod_converse(
        n,
        0x1000000,
        b0,
        b1 * 0x10000 + b2 * 0x100 + b3,
    );
    vstd::arithmetic::div_mod::lemma_fundamental_div_mod_converse(
        n,
        0x10000,
        b0 * 0x100 + b1,
        b2 * 0x100 + b3,
    );
    vstd::arithmetic::div_mod::lemma_fundamental_div_mod_converse(
        n,
        0x100,
        b0 * 0x10000 + b1 * 0x100 + b2,
        b3,
    );
    assert((b0 * 0x100 + b1) % 0x100 == b1) by {
        vstd::arithmetic::div_mod::lemma_mod_multiples_vanish(b0, b1, 0x100);
        vstd::arithmetic::div_mod::lemma_small_mod(b1 as nat, 0x100);
    }
    assert((b0 * 0x10000 + b1 * 0x100 + b2) % 0x100 == b2) by {
        vstd::arithmetic::div_mod::lemma_mod_multiples_vanish(b0 * 0x100 + b1, b2, 0x100);
        vstd::arithmetic::div_mod::lemma_small_mod(b2 as nat, 0x100);
    }
    assert(b0 % 0x100 == b0) by {
        vstd::arithmetic::div_mod::lemma_small_mod(b0 as nat, 0x100);
    }
}

/// Appends the little-endian bytes of `n` to `out`.
pub fn put_u16_le(out: &mut Vec<u8>, n: u16)
    ensures
        final(out)@ == old(out)@ + spec_u16_le(n),
{
    out.push((n % 256) as u8);
    out.push(((n / 256) % 256) as u8);
    assert(final(out)@ =~= old(out)@ + spec_u16_le(n));
}

/// Appends the little-endian bytes of `n` to `out`.
pub fn put_u32_le(out: &mut Vec<u8>, n: u32)
    ensures
        final(out)@ == old(out)@ + spec_u32_le(n),
{
    out.push((n % 256) as u8);
    out.push(((n / 256) % 256) as u8);
    out.push(((n / 65536) % 256) as u8);
    out.push(((n / 16777216) % 256) as u8);
    assert(final(out)@ =~= old(out)@ + spec_u32_le(n));
}

/// Appends the little-endian bytes of `n` to `out`.
pub fn put_u64_le(out: &mut Vec<u8>, n: u64)
    ensures
        final(out)@ == old(out)@ + spec_u64_le(n),
{
    out.push((n % 256) as u8);
    out.push(((n / 0x100) % 256) as u8);
    out.push(((n / 0x10000) % 256) as u8);
    out.push(((n / 0x1000000) % 256) as u8);
    out.push(((n / 0x100000000) % 256) as u8);
    out.push(((n / 0x10000000000) % 256) as u8);
    out.push(((n / 0x1000000000000) % 256) as u8);
    out.push(((n / 0x100000000000000) % 256) as u8);
    assert(final(out)@ =~= old(out)@ + spec_u64_le(n));
}

/// Reads the 16-bit little-endian field at byte offset `off`.
pub fn read_u16_le(bytes: &[u8], off: usize) -> (r: u16)
    requires
        off + 2 <= bytes@.len(),
    ensures
        r == spec_u16_of_le(bytes@.subrange(off as int, off + 2)),
{
    let b0: u16 = bytes[off] as u16;
    let b1: u16 = bytes[off + 1] as u16;
    b0 + b1 * 0x100
}

/// Reads the 32-bit little-endian field at byte offset `off`.
pub fn read_u32_le(bytes: &[u8], off: usize) -> (r: u32)
    requires
        off + 4 <= bytes@.len(),
    ensures
        r == spec_u32_of_le(bytes@.subrange(off as int, off + 4)),
{
    let b0: u32 = bytes[off] as u32;
    let b1: u32 = bytes[off + 1] as u32;
    let b2: u32 = bytes[off + 2] as u32;
    let b3: u32 = bytes[off + 3] as u32;
    b0 + b1 * 0x100 + b2 * 0x10000 + b3 * 0x1000000
}

/// Reads the 64-bit little-endian field at byte offset `off`.
pub fn read_u64_le(bytes: &[u8], off: usize) -> (r: u64)
    requires
        off + 8 <= bytes@.len(),
    ensures
        r == spec_u64_of_le(bytes@.subrange(off as int, off + 8)),
{
    let b0: u64 = bytes[off] as u64;
    let b1: u64 = bytes[off + 1] as u64;
    let b2: u64 = bytes[off + 2] as u64;
    let b3: u64 = bytes[off + 3] as u64;
    let b4: u64 = bytes[off + 4] as u64;
    let b5: u64 = bytes[off + 5] as u64;
    let b6: u64 = bytes[off + 6] as u64;
    let b7: u64 = bytes[off + 7] as u64;
    b0 + b1 * 0x100 + b2 * 0x10000 + b3 * 0x1000000 + b4 * 0x100000000 + b5 * 0x10000000000
        + b6 * 0x1000000000000 + b7 * 0x100000000000000
}

/// The little-endian bytes of a signed 32-bit value, two's complement.
pub open spec fn spec_i32_le(n: i32) -> Seq<u8> {
    spec_u32_le(n as u32)
}

/// The little-endian bytes of a signed 64-bit value, two's complement.
pub open spec fn spec_i64_le(n: i64) -> Seq<u8> {
    spec_u64_le(n as u64)
}

/// The signed 32-bit value whose little-endian two's-complement bytes are `b`.
pub open spec fn spec_i32_of_le(b: Seq<u8>) -> i32
    recommends
        b.len() == 4,
{
    spec_u32_of_le(b) as i32
}

/// The signed 64-bit value whose little-endian two's-complement bytes are `b`.
pub open spec fn spec_i64_of_le(b: Seq<u8>) -> i64
    recommends
        b.len() == 8,
{
    spec_u64_of_le(b) as i64
}

/// Appends the little-endian two's-complement bytes of `n` to `out`.
pub fn put_i32_le(out: &mut Vec<u8>, n: i32)
    ensures
        final(out)@ == old(out)@ + spec_i32_le(n),
{
    put_u32_le(out, n as u32);
}

/// Appends the little-endian two's-complement bytes of `n` to `out`.
pub fn put_i64_le(out: &mut Vec<u8>, n: i64)
    ensures
        final(out)@ == old(out)@ + spec_i64_le(n),
{
    put_u64_le(out, n as u64);
}

/// Reads the signed 32-bit little-endian field at byte offset `off`.
pub fn read_i32_le(bytes: &[u8], off: usize) -> (r: i32)
    requires
        off + 4 <= bytes@.len(),
    ensures
        r == spec_i32_of_le(bytes@.subrange(off as int, off + 4)),
{
    read_u32_le(bytes, off) as i32
}

/// Reads the signed 64-bit little-endian field at byte offset `off`.
pub fn read_i64_le(bytes: &[u8], off: usize) -> (r: i64)
    requires
        off + 8 <= bytes@.len(),
    ensures
        r == spec_i64_of_le(bytes@.subrange(off as int, off + 8)),
{
    read_u64_le(bytes, off) as i64
}

/// A 16-bit value is recovered exactly from its little-endian bytes.
pub proof fn lemma_u16_le_round_trip(n: u16)
    ensures
        spec_u16_of_le(spec_u16_le(n)) == n,
{
}

/// A 32-bit value is recovered exactly from its little-endian bytes.
pub proof fn lemma_u32_le_round_trip(n: u32)
    ensures
        spec_u32_of_le(spec_u32_le(n)) == n,
{
}

/// A signed 32-bit value is recovered exactly from its little-endian bytes.
pub proof fn lemma_i32_le_round_trip(n: i32)
    ensures
        spec_i32_of_le(spec_i32_le(n)) == n,
{
    lemma_u32_le_round_trip(n as u32);
    assert(n as u32 as i32 == n) by (bit_vector);
}

/// A signed 64-bit value is recovered exactly from its little-endian bytes.
pub proof fn lemma_i64_le_round_trip(n: i64)
    ensures
        spec_i64_of_le(spec_i64_le(n)) == n,
{
    lemma_u64_le_round_trip(n as u64);
    assert(n as u64 as i64 == n) by (bit_vector);
}

/// A 64-bit value is recovered exactly from its little-endian bytes.
pub proof fn lemma_u64_le_round_trip(n: u64)
    ensures
        spec_u64_of_le(spec_u64_le(n)) == n,
{
    let n_ = n as int;
    assert(n_ % 0x100 + (n_ / 0x100 % 0x100) * 0x100 + (n_ / 0x10000 % 0x100) * 0x10000 + (n_
        / 0x1000000 % 0x100) * 0x1000000 + (n_ / 0x100000000 % 0x100) * 0x100000000 + (n_
        / 0x10000000000 % 0x100) * 0x10000000000 + (n_ / 0x1000000000000 % 0x100)
        * 0x1000000000000 + (n_ / 0x100000000000000 % 0x100) * 0x100000000000000 == n_) by {
        lemma_split_div_mod(n_, 0x100);
        lemma_split_div_mod(n_, 0x10000);
        lemma_split_div_mod(n_, 0x1000000);
        lemma_split_div_mod(n_, 0x100000000);
        lemma_split_div_mod(n_, 0x10000000000);
        lemma_split_div_mod(n_, 0x1000000000000);
        lemma_split_div_mod(n_, 0x100000000000000);
    }
}

/// Splitting off the low digit of `n / d` in base 256: the quotient by `d`
/// decomposes into its own low byte plus 256 times the quotient by `d * 256`.
proof fn lemma_split_div_mod(n: int, d: int)
    requires
        n >= 0,
        d >= 1,
    ensures
        n / d == n / d % 0x100 + (n / (d * 0x100)) * 0x100,
{
    vstd::arithmetic::div_mod::lemma_div_denominator(n, d, 0x100);
    assert(n / d == n / d % 0x100 + (n / d / 0x100) * 0x100) by {
        vstd::arithmetic::div_mod::lemma_fundamental_div_mod(n / d, 0x100);
    }
}

} // verus!
