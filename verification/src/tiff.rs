//! TIFF: the width and height are the values of tags 256 and 257 in the first
//! image file directory.
use crate::bytes::{
    abs, can_read, i16_of, i32_of, i8_of, load_u16, load_u32, load_u64, load_u8, to_i16, to_i32,
    to_i8, u16_at, u32_at, u64_at, Endian,
};
use crate::window::{agrees, complete, held, fetch_bytes, fetch_u16, within, Fetched, Window};
use crate::float::{f32_bits_to_u64, f32_to_u64, f64_bits_to_u64, f64_to_u64};
use crate::format::{ImError, ImFormat, ImInfo, ImResult};
use vstd::prelude::*;

verus! {

/// What reading the value of a directory entry gives.
#[derive(Debug, Clone, Copy, PartialEq, Eq, Structural)]
pub enum FieldValue {
    /// The value, converted to `u64`.
    Value(u64),
    /// The field type is unknown or the value lies past the end of the data.
    Invalid,
    /// A rational value with denominator zero: computing it divides by zero.
    ZeroDivisor,
}

/// Integer division as Rust computes it: the quotient rounded toward zero.
pub open spec fn trunc_div(a: int, b: int) -> int {
    if (a < 0) == (b < 0) {
        abs(a) / abs(b)
    } else {
        -(abs(a) / abs(b))
    }
}

/// A signed value clamped below at zero.
pub open spec fn max0(v: int) -> u64 {
    if v < 0 {
        0
    } else {
        v as u64
    }
}

/// The value of a directory entry of field type `ftype` stored at `p`.
pub open spec fn field_value(e: Endian, d: Seq<u8>, ftype: u16, p: int) -> FieldValue {
    let n = field_size(ftype);
    if ftype < 1 || ftype > 12 || !can_read(d, p, n) {
        FieldValue::Invalid
    } else if ftype == 1 || ftype == 2 {
        FieldValue::Value(d[p] as u64)
    } else if ftype == 3 {
        FieldValue::Value(u16_at(e, d, p) as u64)
    } else if ftype == 4 {
        FieldValue::Value(u32_at(e, d, p) as u64)
    } else if ftype == 5 {
        if u32_at(e, d, p + 4) == 0 {
            FieldValue::ZeroDivisor
        } else {
            FieldValue::Value((u32_at(e, d, p) / u32_at(e, d, p + 4)) as u64)
        }
    } else if ftype == 6 || ftype == 7 {
        FieldValue::Value(max0(i8_of(d[p]) as int))
    } else if ftype == 8 {
        FieldValue::Value(max0(i16_of(u16_at(e, d, p)) as int))
    } else if ftype == 9 {
        FieldValue::Value(max0(i32_of(u32_at(e, d, p)) as int))
    } else if ftype == 10 {
        if i32_of(u32_at(e, d, p + 4)) == 0 {
            FieldValue::ZeroDivisor
        } else {
            FieldValue::Value(
                max0(trunc_div(i32_of(u32_at(e, d, p)) as int, i32_of(u32_at(e, d, p + 4)) as int)),
            )
        }
    } else if ftype == 11 {
        FieldValue::Value(f32_bits_to_u64(u32_at(e, d, p)))
    } else {
        FieldValue::Value(f64_bits_to_u64(u64_at(e, d, p)))
    }
}

/// The outcome of scanning the directory entries `index..count` of the
/// directory at `ifd`, having seen the given width and height so far.
/// `None` stands for an arithmetic fault (an entry offset past `u32::MAX`, or
/// a division by zero).
pub open spec fn tiff_scan(
    e: Endian,
    d: Seq<u8>,
    ifd: int,
    count: int,
    index: int,
    width: Option<u64>,
    height: Option<u64>,
) -> Option<ImResult<ImInfo>>
    decreases count - index,
{
    if index >= count {
        Some(Err(ImError::ParserError(ImFormat::TIFF)))
    } else {
        let entry = ifd + 2 + 12 * index;
        if entry > u32::MAX {
            None
        } else if !can_read(d, entry, 2) {
            Some(Err(ImError::ParserError(ImFormat::TIFF)))
        } else if u16_at(e, d, entry) != 256 && u16_at(e, d, entry) != 257 {
            tiff_scan(e, d, ifd, count, index + 1, width, height)
        } else if !can_read(d, entry + 2, 2) {
            Some(Err(ImError::ParserError(ImFormat::TIFF)))
        } else {
            match field_value(e, d, u16_at(e, d, entry + 2), entry + 8) {
                FieldValue::ZeroDivisor => None,
                FieldValue::Invalid => Some(Err(ImError::ParserError(ImFormat::TIFF))),
                FieldValue::Value(v) => if u16_at(e, d, entry) == 256 {
                    match height {
                        Some(h) => Some(Ok(ImInfo { width: v, height: h, format: ImFormat::TIFF })),
                        None => tiff_scan(e, d, ifd, count, index + 1, Some(v), height),
                    }
                } else {
                    match width {
                        Some(w) => Some(Ok(ImInfo { width: w, height: v, format: ImFormat::TIFF })),
                        None => tiff_scan(e, d, ifd, count, index + 1, width, Some(v)),
                    }
                },
            }
        }
    }
}

/// The byte order a TIFF header announces: `MM` for big endian, else little.
pub open spec fn tiff_endian(p: Seq<u8>) -> Endian {
    if p[0] == 0x4d {
        Endian::Big
    } else {
        Endian::Little
    }
}

/// The outcome of reading a TIFF file `d` whose first bytes are `p`.
pub open spec fn tiff_result(d: Seq<u8>, p: Seq<u8>) -> Option<ImResult<ImInfo>> {
    let e = tiff_endian(p);
    let ifd = u32_at(e, p, 4) as int;
    if !can_read(d, ifd, 2) {
        Some(Err(ImError::ParserError(ImFormat::TIFF)))
    } else {
        tiff_scan(e, d, ifd, u16_at(e, d, ifd) as int, 0, None, None)
    }
}

fn clamp0(v: i64) -> (r: u64)
    ensures
        r == max0(v as int),
{
    if v < 0 {
        0
    } else {
        v as u64
    }
}

/// The number of bytes a value of field type `ftype` takes.
pub open spec fn field_size(ftype: u16) -> int {
    if ftype == 1 || ftype == 2 || ftype == 6 || ftype == 7 {
        1
    } else if ftype == 3 || ftype == 8 {
        2
    } else if ftype == 4 || ftype == 9 || ftype == 11 {
        4
    } else {
        8
    }
}

/// Decodes the value of field type `ftype` held at the start of `b`.
fn decode_field(e: Endian, b: &[u8], ftype: u16) -> (r: FieldValue)
    requires
        1 <= ftype <= 12,
        b@.len() == field_size(ftype),
    ensures
        r == field_value(e, b@, ftype, 0),
{
    if ftype == 1 || ftype == 2 {
        FieldValue::Value(load_u8(b, 0) as u64)
    } else if ftype == 3 {
        FieldValue::Value(load_u16(e, b, 0) as u64)
    } else if ftype == 4 {
        FieldValue::Value(load_u32(e, b, 0) as u64)
    } else if ftype == 5 {
        let a = load_u32(e, b, 0);
        let c = load_u32(e, b, 4);
        if c == 0 {
            FieldValue::ZeroDivisor
        } else {
            FieldValue::Value((a / c) as u64)
        }
    } else if ftype == 6 || ftype == 7 {
        FieldValue::Value(clamp0(to_i8(load_u8(b, 0)) as i64))
    } else if ftype == 8 {
        FieldValue::Value(clamp0(to_i16(load_u16(e, b, 0)) as i64))
    } else if ftype == 9 {
        FieldValue::Value(clamp0(to_i32(load_u32(e, b, 0)) as i64))
    } else if ftype == 10 {
        let a = to_i32(load_u32(e, b, 0)) as i64;
        let c = to_i32(load_u32(e, b, 4)) as i64;
        if c == 0 {
            FieldValue::ZeroDivisor
        } else {
            let ua: u64 = if a < 0 {
                (-a) as u64
            } else {
                a as u64
            };
            let uc: u64 = if c < 0 {
                (-c) as u64
            } else {
                c as u64
            };
            let q = ua / uc;
            if (a < 0) == (c < 0) {
                FieldValue::Value(q)
            } else {
                FieldValue::Value(0)
            }
        }
    } else if ftype == 11 {
        FieldValue::Value(f32_to_u64(load_u32(e, b, 0)))
    } else {
        FieldValue::Value(f64_to_u64(load_u64(e, b, 0)))
    }
}

/// A field's value depends on the bytes it takes alone.
proof fn lemma_field_value_bytes(e: Endian, d: Seq<u8>, ftype: u16, p: int)
    requires
        1 <= ftype <= 12,
        can_read(d, p, field_size(ftype)),
    ensures
        field_value(e, d, ftype, p) == field_value(
            e,
            d.subrange(p, p + field_size(ftype)),
            ftype,
            0,
        ),
{
    let b = d.subrange(p, p + field_size(ftype));
    assert(b[0] == d[p]);
    if field_size(ftype) >= 2 {
        assert(b[1] == d[p + 1]);
    }
    if field_size(ftype) >= 4 {
        assert(b[2] == d[p + 2]);
        assert(b[3] == d[p + 3]);
    }
    if field_size(ftype) >= 8 {
        assert(b[4] == d[p + 4]);
        assert(b[5] == d[p + 5]);
        assert(b[6] == d[p + 6]);
        assert(b[7] == d[p + 7]);
    }
}

/// Reads the value of a directory entry of field type `ftype` at `p`.
pub fn read_field(e: Endian, w: &Window, ftype: u16, p: u64) -> (r: Fetched<FieldValue>)
    ensures
        r matches Fetched::Got(x) ==> forall|d: Seq<u8>|
            #[trigger] agrees(w, d) ==> x == field_value(e, d, ftype, p as int),
        r matches Fetched::Need(q, n) ==> n > 0 && q + n <= w.len && !held(
            w,
            q as int,
            n as int,
        ),
        complete(w) ==> r is Got,
{
    let n: u64 = if ftype == 1 || ftype == 2 || ftype == 6 || ftype == 7 {
        1
    } else if ftype == 3 || ftype == 8 {
        2
    } else if ftype == 4 || ftype == 9 || ftype == 11 {
        4
    } else {
        8
    };
    if ftype < 1 || ftype > 12 || !within(w, p, n) {
        return Fetched::Got(FieldValue::Invalid);
    }
    match fetch_bytes(w, p, n) {
        Fetched::Need(q, m) => Fetched::Need(q, m),
        Fetched::Got(b) => {
            let x = decode_field(e, b.as_slice(), ftype);
            proof {
                assert forall|d: Seq<u8>| #[trigger] agrees(w, d) implies x == field_value(
                    e,
                    d,
                    ftype,
                    p as int,
                ) by {
                    lemma_field_value_bytes(e, d, ftype, p as int);
                }
            }
            Fetched::Got(x)
        },
    }
}

/// Reads the width and height of a TIFF file whose first bytes are `pre`
/// (at least 8 of them), through the window `w`: the result holds of every
/// stream the window agrees with. `None` where the computation faults.
pub fn parse_tiff(w: &Window, pre: &[u8]) -> (r: Fetched<Option<ImResult<ImInfo>>>)
    requires
        pre.len() >= 8,
        w.len <= i64::MAX,
    ensures
        r matches Fetched::Got(x) ==> forall|d: Seq<u8>|
            #[trigger] agrees(w, d) ==> x == tiff_result(d, pre@),
        r matches Fetched::Need(q, n) ==> n > 0 && q + n <= w.len && !held(
            w,
            q as int,
            n as int,
        ),
        complete(w) ==> r is Got,
{
    let e = if pre[0] == 0x4d {
        Endian::Big
    } else {
        Endian::Little
    };
    let ifd = load_u32(e, pre, 4) as u64;
    if !within(w, ifd, 2) {
        return Fetched::Got(Some(Err(ImError::ParserError(ImFormat::TIFF))));
    }
    let count = match fetch_u16(e, w, ifd) {
        Fetched::Got(v) => v as u64,
        Fetched::Need(q, n) => {
            return Fetched::Need(q, n);
        },
    };
    let mut width: Option<u64> = None;
    let mut height: Option<u64> = None;
    let mut index: u64 = 0;
    while index < count
        invariant
            w.len <= i64::MAX,
            e == tiff_endian(pre@),
            ifd == u32_at(e, pre@, 4),
            ifd <= u32::MAX,
            count <= 0xffff,
            index <= count,
            forall|d: Seq<u8>|
                #[trigger] agrees(w, d) ==> can_read(d, ifd as int, 2) && count == u16_at(
                    e,
                    d,
                    ifd as int,
                ) && tiff_scan(e, d, ifd as int, count as int, index as int, width, height)
                    == tiff_result(d, pre@),
        decreases count - index,
    {
        let entry = ifd + 2 + 12 * index;
        if entry > 0xffff_ffff {
            return Fetched::Got(None);
        }
        if !within(w, entry, 2) {
            return Fetched::Got(Some(Err(ImError::ParserError(ImFormat::TIFF))));
        }
        let tag = match fetch_u16(e, w, entry) {
            Fetched::Got(v) => v,
            Fetched::Need(q, n) => {
                return Fetched::Need(q, n);
            },
        };
        if tag == 256 || tag == 257 {
            if !within(w, entry + 2, 2) {
                return Fetched::Got(Some(Err(ImError::ParserError(ImFormat::TIFF))));
            }
            let ftype = match fetch_u16(e, w, entry + 2) {
                Fetched::Got(v) => v,
                Fetched::Need(q, n) => {
                    return Fetched::Need(q, n);
                },
            };
            let value = match read_field(e, w, ftype, entry + 8) {
                Fetched::Got(v) => v,
                Fetched::Need(q, n) => {
                    return Fetched::Need(q, n);
                },
            };
            match value {
                FieldValue::ZeroDivisor => {
                    return Fetched::Got(None);
                },
                FieldValue::Invalid => {
                    return Fetched::Got(Some(Err(ImError::ParserError(ImFormat::TIFF))));
                },
                FieldValue::Value(v) => {
                    if tag == 256 {
                        match height {
                            Some(h) => {
                                return Fetched::Got(
                                    Some(Ok(ImInfo { width: v, height: h, format: ImFormat::TIFF })),
                                );
                            },
                            None => {
                                width = Some(v);
                            },
                        }
                    } else {
                        match width {
                            Some(wd) => {
                                return Fetched::Got(
                                    Some(Ok(ImInfo { width: wd, height: v, format: ImFormat::TIFF })),
                                );
                            },
                            None => {
                                height = Some(v);
                            },
                        }
                    }
                },
            }
        }
        index += 1;
    }
    Fetched::Got(Some(Err(ImError::ParserError(ImFormat::TIFF))))
}

} // verus!
