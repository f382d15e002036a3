//! Fixed-width integer fields of the waterfall wire format: big-endian header
//! fields and little-endian record fields, read from and written to byte
//! buffers.

use vstd::prelude::*;

verus! {

/// The value of the four big-endian bytes `b[off .. off + 4]`.
pub open spec fn be_u32_at(b: Seq<u8>, off: int) -> int
    recommends
        0 <= off,
        off + 4 <= b.len(),
{
    b[off] * 0x100_0000 + b[off + 1] * 0x1_0000 + b[off + 2] * 0x100 + b[off + 3]
}

/// The value of the four little-endian bytes `b[off .. off + 4]`.
pub open spec fn le_u32_at(b: Seq<u8>, off: int) -> int
    recommends
        0 <= off,
        off + 4 <= b.len(),
{
    b[off + 3] * 0x100_0000 + b[off + 2] * 0x1_0000 + b[off + 1] * 0x100 + b[off]
}

/// The unsigned value of the eight little-endian bytes `b[off .. off + 8]`.
pub open spec fn le_u64_at(b: Seq<u8>, off: int) -> int
    recommends
        0 <= off,
        off + 8 <= b.len(),
{
    le_u32_at(b, off + 4) * 0x1_0000_0000 + le_u32_at(b, off)
}

/// The two's-complement value of the eight little-endian bytes
/// `b[off .. off + 8]`.
pub open spec fn le_i64_at(b: Seq<u8>, off: int) -> int
    recommends
        0 <= off,
        off + 8 <= b.len(),
{
    if le_u64_at(b, off) < 0x8000_0000_0000_0000 {
        le_u64_at(b, off)
    } else {
        le_u64_at(b, off) - 0x1_0000_0000_0000_0000
    }
}

/// The four big-endian bytes of `x`.
pub open spec fn be_u32_bytes(x: u32) -> Seq<u8> {
    seq![
        (x / 0x100_0000 % 0x100) as u8,
        (x / 0x1_0000 % 0x100) as u8,
        (x / 0x100 % 0x100) as u8,
        (x % 0x100) as u8,
    ]
}

pub fn read_be_u32(b: &[u8], off: usize) -> (r: u32)
    requires
        off + 4 <= b@.len(),
    ensures
        r == be_u32_at(b@, off as int),
{
    let _len: usize = b.len();
    (b[off] as u32) * 0x100_0000 + (b[off + 1] as u32) * 0x1_0000 + (b[off + 2] as u32) * 0x100
        + (b[off + 3] as u32)
}

pub fn read_le_u32(b: &[u8], off: usize) -> (r: u32)
    requires
        off + 4 <= b@.len(),
    ensures
        r == le_u32_at(b@, off as int),
{
    let _len: usize = b.len();
    (b[off + 3] as u32) * 0x100_0000 + (b[off + 2] as u32) * 0x1_0000 + (b[off + 1] as u32) * 0x100
        + (b[off] as u32)
}

pub fn read_le_i64(b: &[u8], off: usize) -> (r: i64)
    requires
        off + 8 <= b@.len(),
    ensures
        r == le_i64_at(b@, off as int),
{
    let _len: usize = b.len();
    let lo = read_le_u32(b, off);
    let hi = read_le_u32(b, off + 4);
    let unsigned: u64 = (hi as u64) * 0x1_0000_0000 + (lo as u64);
    if unsigned < 0x8000_0000_0000_0000 {
        unsigned as i64
    } else {
        -((0xFFFF_FFFF_FFFF_FFFFu64 - unsigned) as i64) - 1
    }
}

pub fn push_be_u32(out: &mut Vec<u8>, x: u32)
    ensures
        final(out)@ == old(out)@ + be_u32_bytes(x),
{
    out.push((x / 0x100_0000 % 0x100) as u8);
    out.push((x / 0x1_0000 % 0x100) as u8);
    out.push((x / 0x100 % 0x100) as u8);
    out.push((x % 0x100) as u8);
    proof {
        assert(out@ =~= old(out)@ + be_u32_bytes(x));
    }
}

} // verus!
