//! Fixed-width integers at a position in a byte sequence, in either byte order.
use vstd::prelude::*;

verus! {

/// The unsigned 16-bit value at `off`, least significant byte first.
pub open spec fn spec_u16_le(s: Seq<u8>, off: int) -> int {
    s[off] as int + s[off + 1] as int * 0x100
}

/// The unsigned 16-bit value at `off`, most significant byte first.
pub open spec fn spec_u16_be(s: Seq<u8>, off: int) -> int {
    s[off] as int * 0x100 + s[off + 1] as int
}

/// The unsigned 32-bit value at `off`, least significant byte first.
pub open spec fn spec_u32_le(s: Seq<u8>, off: int) -> int {
    s[off] as int + s[off + 1] as int * 0x100 + s[off + 2] as int * 0x1_0000 + s[off + 3] as int
        * 0x100_0000
}

/// The unsigned 32-bit value at `off`, most significant byte first.
pub open spec fn spec_u32_be(s: Seq<u8>, off: int) -> int {
    s[off] as int * 0x100_0000 + s[off + 1] as int * 0x1_0000 + s[off + 2] as int * 0x100 + s[off
        + 3] as int
}

/// The unsigned 16-bit value at `off` in the given byte order.
pub open spec fn spec_u16(s: Seq<u8>, off: int, big_endian: bool) -> int {
    if big_endian {
        spec_u16_be(s, off)
    } else {
        spec_u16_le(s, off)
    }
}

/// The unsigned 32-bit value at `off` in the given byte order.
pub open spec fn spec_u32(s: Seq<u8>, off: int, big_endian: bool) -> int {
    if big_endian {
        spec_u32_be(s, off)
    } else {
        spec_u32_le(s, off)
    }
}

/// The two's-complement reading of an unsigned 32-bit value.
pub open spec fn spec_signed32(u: int) -> int {
    if u >= 0x8000_0000 {
        u - 0x1_0000_0000
    } else {
        u
    }
}

/// The signed 32-bit value at `off`, most significant byte first.
pub open spec fn spec_i32_be(s: Seq<u8>, off: int) -> int {
    spec_signed32(spec_u32_be(s, off))
}

/// The two's-complement reading of a byte.
pub open spec fn spec_signed8(u: int) -> int {
    if u >= 0x80 {
        u - 0x100
    } else {
        u
    }
}

/// The two's-complement reading of an unsigned 16-bit value.
pub open spec fn spec_signed16(u: int) -> int {
    if u >= 0x8000 {
        u - 0x1_0000
    } else {
        u
    }
}

/// The signed 16-bit value at `off`, most significant byte first.
pub open spec fn spec_i16_be(s: Seq<u8>, off: int) -> int {
    spec_signed16(spec_u16_be(s, off))
}

/// The unsigned 64-bit value at `off`, most significant byte first.
pub open spec fn spec_u64_be(s: Seq<u8>, off: int) -> int {
    spec_u32_be(s, off) * 0x1_0000_0000 + spec_u32_be(s, off + 4)
}

/// The two's-complement reading of an unsigned 64-bit value.
pub open spec fn spec_signed64(u: int) -> int {
    if u >= 0x8000_0000_0000_0000 {
        u - 0x1_0000_0000_0000_0000
    } else {
        u
    }
}

/// The signed 64-bit value at `off`, most significant byte first.
pub open spec fn spec_i64_be(s: Seq<u8>, off: int) -> int {
    spec_signed64(spec_u64_be(s, off))
}

pub(crate) fn read_u16(data: &[u8], off: usize, big_endian: bool) -> (r: u16)
    requires
        off + 2 <= data@.len(),
    ensures
        r == spec_u16(data@, off as int, big_endian),
{
    let b0: u16 = data[off] as u16;
    let b1: u16 = data[off + 1] as u16;
    if big_endian {
        b0 * 0x100 + b1
    } else {
        b0 + b1 * 0x100
    }
}

pub(crate) fn read_u32(data: &[u8], off: usize, big_endian: bool) -> (r: u32)
    requires
        off + 4 <= data@.len(),
    ensures
        r == spec_u32(data@, off as int, big_endian),
{
    let b0: u32 = data[off] as u32;
    let b1: u32 = data[off + 1] as u32;
    let b2: u32 = data[off + 2] as u32;
    let b3: u32 = data[off + 3] as u32;
    if big_endian {
        b0 * 0x100_0000 + b1 * 0x1_0000 + b2 * 0x100 + b3
    } else {
        b0 + b1 * 0x100 + b2 * 0x1_0000 + b3 * 0x100_0000
    }
}

/// Reinterprets an unsigned 32-bit value as two's complement.
pub fn to_signed32(u: u32) -> (r: i32)
    ensures
        r == spec_signed32(u as int),
{
    if u >= 0x8000_0000 {
        let low: i32 = (u - 0x8000_0000) as i32;
        low + i32::MIN
    } else {
        u as i32
    }
}

pub(crate) fn read_i32_be(data: &[u8], off: usize) -> (r: i32)
    requires
        off + 4 <= data@.len(),
    ensures
        r == spec_i32_be(data@, off as int),
{
    to_signed32(read_u32(data, off, true))
}

/// Reinterprets a byte as two's complement.
pub fn to_signed8(u: u8) -> (r: i8)
    ensures
        r == spec_signed8(u as int),
{
    if u >= 0x80 {
        let low: i8 = (u - 0x80) as i8;
        low + i8::MIN
    } else {
        u as i8
    }
}

pub(crate) fn read_i16_be(data: &[u8], off: usize) -> (r: i16)
    requires
        off + 2 <= data@.len(),
    ensures
        r == spec_i16_be(data@, off as int),
{
    let u: u16 = read_u16(data, off, true);
    if u >= 0x8000 {
        let low: i16 = (u - 0x8000) as i16;
        low + i16::MIN
    } else {
        u as i16
    }
}

pub(crate) fn read_i64_be(data: &[u8], off: usize) -> (r: i64)
    requires
        off + 8 <= data@.len(),
    ensures
        r == spec_i64_be(data@, off as int),
{
    let total: usize = data.len();
    let high: u64 = read_u32(data, off, true) as u64;
    let low: u64 = read_u32(data, off + 4, true) as u64;
    let u: u64 = high * 0x1_0000_0000 + low;
    if u >= 0x8000_0000_0000_0000 {
        let rest: i64 = (u - 0x8000_0000_0000_0000) as i64;
        rest + i64::MIN
    } else {
        u as i64
    }
}

/// A copy of `data[from..to]`.
pub(crate) fn copy_range(data: &[u8], from: usize, to: usize) -> (r: Vec<u8>)
    requires
        from <= to <= data@.len(),
    ensures
        r@ == data@.subrange(from as int, to as int),
{
    let mut out: Vec<u8> = Vec::new();
    let mut i: usize = from;
    while i < to
        invariant
            from <= i <= to <= data@.len(),
            out@ == data@.subrange(from as int, i as int),
        decreases to - i,
    {
        out.push(data[i]);
        i += 1;
        assert(out@ =~= data@.subrange(from as int, i as int));
    }
    out
}

/// Appends `data[from..to]` to `out`.
pub(crate) fn push_range(out: &mut Vec<u8>, data: &[u8], from: usize, to: usize)
    requires
        from <= to <= data@.len(),
    ensures
        final(out)@ == old(out)@ + data@.subrange(from as int, to as int),
{
    let mut i: usize = from;
    assert(out@ =~= old(out)@ + data@.subrange(from as int, i as int));
    while i < to
        invariant
            from <= i <= to <= data@.len(),
            out@ == old(out)@ + data@.subrange(from as int, i as int),
        decreases to - i,
    {
        out.push(data[i]);
        i += 1;
        assert(out@ =~= old(out)@ + data@.subrange(from as int, i as int));
    }
}

/// The bytes of each buffer, in the same order.
pub open spec fn records_view(records: Seq<Vec<u8>>) -> Seq<Seq<u8>> {
    Seq::new(records.len(), |i: int| records[i]@)
}

} // verus!
