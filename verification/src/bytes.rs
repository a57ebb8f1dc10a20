use vstd::prelude::*;

verus! {

/// Byte order of multi-byte integers.
#[derive(Debug, Clone, Copy, PartialEq, Eq, Structural)]
pub enum Endian {
    Little,
    Big,
}

/// The unsigned 16-bit integer stored in two bytes, in the given order.
pub open spec fn u16_from(e: Endian, b0: u8, b1: u8) -> u16 {
    match e {
        Endian::Little => (b0 + 256 * b1) as u16,
        Endian::Big => (b1 + 256 * b0) as u16,
    }
}

/// The unsigned 32-bit integer stored in four bytes, in the given order.
pub open spec fn u32_from(e: Endian, b0: u8, b1: u8, b2: u8, b3: u8) -> u32 {
    match e {
        Endian::Little => (b0 + 256 * b1 + 65536 * b2 + 16777216 * b3) as u32,
        Endian::Big => (b3 + 256 * b2 + 65536 * b1 + 16777216 * b0) as u32,
    }
}

pub open spec fn abs(x: int) -> int {
    if x < 0 {
        -x
    } else {
        x
    }
}

/// Two's complement reading of a byte.
pub open spec fn i8_of(v: u8) -> i8 {
    if v < 128 {
        v as i8
    } else {
        (v - 256) as i8
    }
}

/// Two's complement reading of a 16-bit value.
pub open spec fn i16_of(v: u16) -> i16 {
    if v < 32768 {
        v as i16
    } else {
        (v - 65536) as i16
    }
}

/// Two's complement reading of a 32-bit value.
pub open spec fn i32_of(v: u32) -> i32 {
    if v < 0x8000_0000 {
        v as i32
    } else {
        (v - 0x1_0000_0000) as i32
    }
}

/// Whether `n` bytes can be read at position `pos` of `d`.
pub open spec fn can_read(d: Seq<u8>, pos: int, n: int) -> bool {
    0 <= pos && pos + n <= d.len()
}

/// The 16-bit value at index `i` of `d`.
pub open spec fn u16_at(e: Endian, d: Seq<u8>, i: int) -> u16 {
    u16_from(e, d[i], d[i + 1])
}

/// The 32-bit value at index `i` of `d`.
pub open spec fn u32_at(e: Endian, d: Seq<u8>, i: int) -> u32 {
    u32_from(e, d[i], d[i + 1], d[i + 2], d[i + 3])
}

/// The 64-bit value at index `i` of `d`.
pub open spec fn u64_at(e: Endian, d: Seq<u8>, i: int) -> u64 {
    match e {
        Endian::Little => (u32_at(e, d, i) + 0x1_0000_0000 * u32_at(e, d, i + 4)) as u64,
        Endian::Big => (u32_at(e, d, i + 4) + 0x1_0000_0000 * u32_at(e, d, i)) as u64,
    }
}

/// Whether `d` holds the bytes `m` from index `i` on.
pub open spec fn has_at(d: Seq<u8>, i: int, m: Seq<u8>) -> bool {
    0 <= i && i + m.len() <= d.len() && d.subrange(i, i + m.len()) == m
}

pub fn load_u8(d: &[u8], pos: u64) -> (r: u8)
    requires
        can_read(d@, pos as int, 1),
    ensures
        r == d@[pos as int],
{
    d[pos as usize]
}

pub fn load_u16(e: Endian, d: &[u8], pos: u64) -> (r: u16)
    requires
        can_read(d@, pos as int, 2),
    ensures
        r == u16_at(e, d@, pos as int),
{
    let i = pos as usize;
    let b0 = d[i] as u16;
    let b1 = d[i + 1] as u16;
    match e {
        Endian::Little => b0 + 256 * b1,
        Endian::Big => b1 + 256 * b0,
    }
}

pub fn load_u32(e: Endian, d: &[u8], pos: u64) -> (r: u32)
    requires
        can_read(d@, pos as int, 4),
    ensures
        r == u32_at(e, d@, pos as int),
{
    let i = pos as usize;
    let b0 = d[i] as u32;
    let b1 = d[i + 1] as u32;
    let b2 = d[i + 2] as u32;
    let b3 = d[i + 3] as u32;
    match e {
        Endian::Little => b0 + 256 * b1 + 65536 * b2 + 16777216 * b3,
        Endian::Big => b3 + 256 * b2 + 65536 * b1 + 16777216 * b0,
    }
}

pub fn load_u64(e: Endian, d: &[u8], pos: u64) -> (r: u64)
    requires
        can_read(d@, pos as int, 8),
    ensures
        r == u64_at(e, d@, pos as int),
{
    let _len = d.len();
    let a = load_u32(e, d, pos) as u64;
    let b = load_u32(e, d, pos + 4) as u64;
    match e {
        Endian::Little => a + 0x1_0000_0000 * b,
        Endian::Big => b + 0x1_0000_0000 * a,
    }
}

pub fn to_i8(v: u8) -> (r: i8)
    ensures
        r == i8_of(v),
{
    if v < 128 {
        v as i8
    } else {
        (v as i16 - 256) as i8
    }
}

pub fn to_i16(v: u16) -> (r: i16)
    ensures
        r == i16_of(v),
{
    if v < 32768 {
        v as i16
    } else {
        (v as i32 - 65536) as i16
    }
}

pub fn to_i32(v: u32) -> (r: i32)
    ensures
        r == i32_of(v),
{
    if v < 0x8000_0000 {
        v as i32
    } else {
        (v as i64 - 0x1_0000_0000) as i32
    }
}

/// Whether `d` holds the bytes `m` from index `i` on.
pub fn bytes_at(d: &[u8], i: usize, m: &[u8]) -> (r: bool)
    ensures
        r == has_at(d@, i as int, m@),
{
    if i > d.len() || m.len() > d.len() - i {
        return false;
    }
    let mut k: usize = 0;
    while k < m.len()
        invariant
            i + m.len() <= d.len(),
            k <= m.len(),
            forall|j: int| 0 <= j < k ==> d@[i + j] == m@[j],
        decreases m.len() - k,
    {
        if d[i + k] != m[k] {
            assert(d@.subrange(i as int, i + m.len())[k as int] != m@[k as int]);
            return false;
        }
        k += 1;
    }
    assert(d@.subrange(i as int, i + m.len()) =~= m@);
    true
}

} // verus!
