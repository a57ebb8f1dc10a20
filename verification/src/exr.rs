//! OpenEXR: the size is given by the `displayWindow` attribute of the header,
//! a list of (name, type, size, value) attributes that starts at offset 8.
use crate::bytes::{can_read, i32_of, to_i32, u32_at, Endian};
use crate::window::{agrees, complete, held, fetch_has, fetch_u32, fetch_u8, within, Fetched, Window};
use crate::format::{ImError, ImFormat, ImInfo, ImResult};
use vstd::prelude::*;

verus! {

/// The first index at or after `pos` that holds a zero byte.
pub open spec fn next_zero(d: Seq<u8>, pos: int) -> Option<int>
    decreases d.len() - pos,
{
    if pos < 0 || pos >= d.len() {
        None
    } else if d[pos] == 0 {
        Some(pos)
    } else {
        next_zero(d, pos + 1)
    }
}

pub proof fn lemma_next_zero(d: Seq<u8>, pos: int)
    ensures
        next_zero(d, pos) matches Some(i) ==> pos <= i < d.len() && d[i] == 0,
    decreases d.len() - pos,
{
    if 0 <= pos < d.len() && d[pos] != 0 {
        lemma_next_zero(d, pos + 1);
    }
}

pub open spec fn display_window() -> Seq<u8> {
    seq![0x64u8, 0x69, 0x73, 0x70, 0x6c, 0x61, 0x79, 0x57, 0x69, 0x6e, 0x64, 0x6f, 0x77]
}

pub open spec fn box2i() -> Seq<u8> {
    seq![0x62u8, 0x6f, 0x78, 0x32, 0x69]
}

/// The size given by a `box2i` value at `p`: the inclusive bounds x1, y1, x2,
/// y2 as little-endian 32-bit signed integers.
pub open spec fn window_result(d: Seq<u8>, p: int) -> ImResult<ImInfo> {
    let x1 = i32_of(u32_at(Endian::Little, d, p)) as int;
    let y1 = i32_of(u32_at(Endian::Little, d, p + 4)) as int;
    let x2 = i32_of(u32_at(Endian::Little, d, p + 8)) as int;
    let y2 = i32_of(u32_at(Endian::Little, d, p + 12)) as int;
    if x2 - x1 + 1 <= 0 || y2 - y1 + 1 <= 0 {
        Err(ImError::ParserError(ImFormat::OpenEXR))
    } else {
        Ok(
            ImInfo {
                width: (x2 - x1 + 1) as u64,
                height: (y2 - y1 + 1) as u64,
                format: ImFormat::OpenEXR,
            },
        )
    }
}

/// The outcome of reading the attribute list from `pos` on.
pub open spec fn exr_scan(d: Seq<u8>, pos: int) -> ImResult<ImInfo>
    decreases d.len() - pos,
{
    let fail = Err(ImError::ParserError(ImFormat::OpenEXR));
    match next_zero(d, pos) {
        None => fail,
        Some(z1) => if z1 == pos {
            // an empty name ends the header
            fail
        } else {
            match next_zero(d, z1 + 1) {
                None => fail,
                Some(z2) => if !can_read(d, z2 + 1, 4) {
                    fail
                } else if d.subrange(pos, z1) == display_window() {
                    if d.subrange(z1 + 1, z2) != box2i() || u32_at(Endian::Little, d, z2 + 1) != 16
                        || !can_read(d, z2 + 5, 16) {
                        fail
                    } else {
                        window_result(d, z2 + 5)
                    }
                } else if z2 + 5 + u32_at(Endian::Little, d, z2 + 1) > d.len() {
                    fail
                } else {
                    proof {
                        lemma_next_zero(d, pos);
                        lemma_next_zero(d, z1 + 1);
                    }
                    exr_scan(d, z2 + 5 + u32_at(Endian::Little, d, z2 + 1))
                },
            }
        },
    }
}

/// The outcome of reading an OpenEXR file `d`.
pub open spec fn exr_result(d: Seq<u8>) -> ImResult<ImInfo> {
    exr_scan(d, 8)
}

/// The index of the first zero byte at or after `pos`.
fn find_zero(w: &Window, pos: u64) -> (r: Fetched<Option<u64>>)
    requires
        w.len <= i64::MAX,
    ensures
        r matches Fetched::Got(x) ==> forall|d: Seq<u8>|
            #[trigger] agrees(w, d) ==> match x {
                Some(i) => next_zero(d, pos as int) == Some(i as int),
                None => next_zero(d, pos as int) is None,
            },
        r matches Fetched::Got(Some(i)) ==> pos <= i < w.len,
        r matches Fetched::Need(q, n) ==> n > 0 && q + n <= w.len && !held(
            w,
            q as int,
            n as int,
        ),
        complete(w) ==> r is Got,
{
    let len = w.len;
    let mut i = pos;
    loop
        invariant
            len == w.len,
            len <= i64::MAX,
            pos <= i,
            forall|d: Seq<u8>| #[trigger] agrees(w, d) ==> next_zero(d, i as int) == next_zero(d, pos as int),
        decreases len - i,
    {
        if !within(w, i, 1) {
            return Fetched::Got(None);
        }
        let byte = match fetch_u8(w, i) {
            Fetched::Got(v) => v,
            Fetched::Need(q, n) => {
                return Fetched::Need(q, n);
            },
        };
        if byte == 0 {
            return Fetched::Got(Some(i));
        }
        i = i + 1;
    }
}

fn read_window(w: &Window, p: u64) -> (r: Fetched<ImResult<ImInfo>>)
    requires
        p + 16 <= w.len,
    ensures
        r matches Fetched::Got(x) ==> forall|d: Seq<u8>|
            #[trigger] agrees(w, d) ==> x == window_result(d, p as int),
        r matches Fetched::Need(q, n) ==> n > 0 && q + n <= w.len && !held(
            w,
            q as int,
            n as int,
        ),
        complete(w) ==> r is Got,
{
    let x1 = match fetch_u32(Endian::Little, w, p) {
        Fetched::Got(v) => to_i32(v) as i64,
        Fetched::Need(q, n) => {
            return Fetched::Need(q, n);
        },
    };
    let y1 = match fetch_u32(Endian::Little, w, p + 4) {
        Fetched::Got(v) => to_i32(v) as i64,
        Fetched::Need(q, n) => {
            return Fetched::Need(q, n);
        },
    };
    let x2 = match fetch_u32(Endian::Little, w, p + 8) {
        Fetched::Got(v) => to_i32(v) as i64,
        Fetched::Need(q, n) => {
            return Fetched::Need(q, n);
        },
    };
    let y2 = match fetch_u32(Endian::Little, w, p + 12) {
        Fetched::Got(v) => to_i32(v) as i64,
        Fetched::Need(q, n) => {
            return Fetched::Need(q, n);
        },
    };
    let width = x2 - x1 + 1;
    let height = y2 - y1 + 1;
    if width <= 0 || height <= 0 {
        return Fetched::Got(Err(ImError::ParserError(ImFormat::OpenEXR)));
    }
    Fetched::Got(Ok(ImInfo { width: width as u64, height: height as u64, format: ImFormat::OpenEXR }))
}

/// Reads the size of an OpenEXR image through the window `w`: the result
/// holds of every stream the window agrees with.
pub fn parse_exr(w: &Window) -> (r: Fetched<ImResult<ImInfo>>)
    requires
        w.len <= i64::MAX,
    ensures
        r matches Fetched::Got(x) ==> forall|d: Seq<u8>|
            #[trigger] agrees(w, d) ==> x == exr_result(d),
        r matches Fetched::Need(q, n) ==> n > 0 && q + n <= w.len && !held(
            w,
            q as int,
            n as int,
        ),
        complete(w) ==> r is Got,
{
    let dw: [u8; 13] = [0x64, 0x69, 0x73, 0x70, 0x6c, 0x61, 0x79, 0x57, 0x69, 0x6e, 0x64, 0x6f, 0x77];
    let bx: [u8; 5] = [0x62, 0x6f, 0x78, 0x32, 0x69];
    assert(dw@ =~= display_window());
    assert(bx@ =~= box2i());
    let len = w.len;
    let mut pos: u64 = 8;
    loop
        invariant
            len == w.len,
            len <= i64::MAX,
            pos <= len + 8,
            dw@ == display_window(),
            bx@ == box2i(),
            forall|d: Seq<u8>| #[trigger] agrees(w, d) ==> exr_scan(d, pos as int) == exr_result(d),
        decreases len + 8 - pos,
    {
        let z1 = match find_zero(w, pos) {
            Fetched::Need(q, n) => {
                return Fetched::Need(q, n);
            },
            Fetched::Got(None) => {
                return Fetched::Got(Err(ImError::ParserError(ImFormat::OpenEXR)));
            },
            Fetched::Got(Some(z)) => z,
        };
        if z1 == pos {
            return Fetched::Got(Err(ImError::ParserError(ImFormat::OpenEXR)));
        }
        let z2 = match find_zero(w, z1 + 1) {
            Fetched::Need(q, n) => {
                return Fetched::Need(q, n);
            },
            Fetched::Got(None) => {
                return Fetched::Got(Err(ImError::ParserError(ImFormat::OpenEXR)));
            },
            Fetched::Got(Some(z)) => z,
        };
        if !within(w, z2 + 1, 4) {
            return Fetched::Got(Err(ImError::ParserError(ImFormat::OpenEXR)));
        }
        let size = match fetch_u32(Endian::Little, w, z2 + 1) {
            Fetched::Got(v) => v as u64,
            Fetched::Need(q, n) => {
                return Fetched::Need(q, n);
            },
        };
        let is_window = if z1 - pos == 13 {
            match fetch_has(w, pos, dw.as_slice()) {
                Fetched::Got(v) => v,
                Fetched::Need(q, n) => {
                    return Fetched::Need(q, n);
                },
            }
        } else {
            false
        };
        proof {
            assert forall|d: Seq<u8>| #[trigger] agrees(w, d) implies (is_window <==> d.subrange(
                pos as int,
                z1 as int,
            ) == display_window()) by {
                if z1 - pos != 13 {
                    assert(d.subrange(pos as int, z1 as int).len() != display_window().len());
                }
            }
        }
        if is_window {
            let is_box = if z2 - (z1 + 1) == 5 {
                match fetch_has(w, z1 + 1, bx.as_slice()) {
                    Fetched::Got(v) => v,
                    Fetched::Need(q, n) => {
                        return Fetched::Need(q, n);
                    },
                }
            } else {
                false
            };
            proof {
                assert forall|d: Seq<u8>| #[trigger] agrees(w, d) implies (is_box <==> d.subrange(
                    z1 + 1,
                    z2 as int,
                ) == box2i()) by {
                    if z2 - (z1 + 1) != 5 {
                        assert(d.subrange(z1 + 1, z2 as int).len() != box2i().len());
                    }
                }
            }
            if !is_box || size != 16 || !within(w, z2 + 5, 16) {
                return Fetched::Got(Err(ImError::ParserError(ImFormat::OpenEXR)));
            }
            return read_window(w, z2 + 5);
        }
        if z2 + 5 + size > len {
            return Fetched::Got(Err(ImError::ParserError(ImFormat::OpenEXR)));
        }
        pos = z2 + 5 + size;
    }
}

} // verus!
