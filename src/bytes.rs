//! Little-endian reads from byte buffers.

use vstd::prelude::*;

verus! {

/// The unsigned 16-bit value stored little-endian at `off`.
pub open spec fn u16_le(b: Seq<u8>, off: int) -> u16 {
    (b[off] as int + 256 * b[off + 1] as int) as u16
}

/// The unsigned 32-bit value stored little-endian at `off`.
pub open spec fn u32_le(b: Seq<u8>, off: int) -> u32 {
    (b[off] as int + 256 * b[off + 1] as int + 65536 * b[off + 2] as int + 16777216 * b[off
        + 3] as int) as u32
}

/// The `n` 16-bit values stored one after another from `off`.
pub open spec fn u16s_le(b: Seq<u8>, off: int, n: nat) -> Seq<u16> {
    Seq::new(n, |k: int| u16_le(b, off + 2 * k))
}

/// The `n` 32-bit values stored one after another from `off`.
pub open spec fn u32s_le(b: Seq<u8>, off: int, n: nat) -> Seq<u32> {
    Seq::new(n, |k: int| u32_le(b, off + 4 * k))
}

pub fn read_u16_le(b: &[u8], off: usize) -> (r: u16)
    requires
        off + 2 <= b@.len(),
    ensures
        r == u16_le(b@, off as int),
{
    let lo = b[off] as u16;
    let hi = b[off + 1] as u16;
    lo + hi * 256
}

pub fn read_u32_le(b: &[u8], off: usize) -> (r: u32)
    requires
        off + 4 <= b@.len(),
    ensures
        r == u32_le(b@, off as int),
{
    let b0 = b[off] as u32;
    let b1 = b[off + 1] as u32;
    let b2 = b[off + 2] as u32;
    let b3 = b[off + 3] as u32;
    b0 + b1 * 256 + b2 * 65536 + b3 * 16777216
}

/// Reads `n` consecutive little-endian 16-bit values starting at `off`.
pub fn read_u16s_le(b: &[u8], off: usize, n: usize) -> (r: Vec<u16>)
    requires
        off + 2 * n <= b@.len(),
    ensures
        r@ == u16s_le(b@, off as int, n as nat),
{
    let len = b.len();
    let mut r: Vec<u16> = Vec::with_capacity(n);
    let mut k: usize = 0;
    while k < n
        invariant
            k <= n,
            b@.len() == len,
            off + 2 * n <= b@.len(),
            r@ == u16s_le(b@, off as int, k as nat),
        decreases n - k,
    {
        let v = read_u16_le(b, off + 2 * k);
        r.push(v);
        k = k + 1;
        assert(r@ =~= u16s_le(b@, off as int, k as nat));
    }
    r
}

/// Copies the `n` bytes that start at `off`.
pub fn read_bytes(b: &[u8], off: usize, n: usize) -> (r: Vec<u8>)
    requires
        off + n <= b@.len(),
    ensures
        r@ == b@.subrange(off as int, off + n),
{
    let len = b.len();
    let mut r: Vec<u8> = Vec::with_capacity(n);
    let mut k: usize = 0;
    while k < n
        invariant
            k <= n,
            b@.len() == len,
            off + n <= b@.len(),
            r@ == b@.subrange(off as int, off + k),
        decreases n - k,
    {
        r.push(b[off + k]);
        k = k + 1;
        assert(r@ =~= b@.subrange(off as int, off + k));
    }
    r
}

/// Reads three consecutive little-endian 32-bit values starting at `off`.
pub fn read_u32x3_le(b: &[u8], off: usize) -> (r: [u32; 3])
    requires
        off + 12 <= b@.len(),
    ensures
        r@ == u32s_le(b@, off as int, 3),
{
    let _len = b.len();
    let r = [read_u32_le(b, off), read_u32_le(b, off + 4), read_u32_le(b, off + 8)];
    assert(r@ =~= u32s_le(b@, off as int, 3));
    r
}

} // verus!
