//! JPEG: the size is in the first start-of-frame segment (markers `C0` to
//! `C3`), found by skipping the segments before it.
use crate::bytes::{can_read, u16_at, Endian};
use crate::window::{agrees, complete, held, fetch_u16, fetch_u8, within, Fetched, Window};
use crate::format::{ImError, ImFormat, ImInfo, ImResult};
use vstd::prelude::*;

verus! {

/// The first index at or after `pos` that holds `0xFF`.
pub open spec fn next_ff(d: Seq<u8>, pos: int) -> Option<int>
    decreases d.len() - pos,
{
    if pos < 0 || pos >= d.len() {
        None
    } else if d[pos] == 0xff {
        Some(pos)
    } else {
        next_ff(d, pos + 1)
    }
}

/// The first index at or after `pos` that does not hold `0xFF`.
pub open spec fn next_non_ff(d: Seq<u8>, pos: int) -> Option<int>
    decreases d.len() - pos,
{
    if pos < 0 || pos >= d.len() {
        None
    } else if d[pos] != 0xff {
        Some(pos)
    } else {
        next_non_ff(d, pos + 1)
    }
}

/// The outcome of scanning for a start-of-frame marker, at position `pos`
/// with `b` the byte last read. `None` stands for a segment length below 2,
/// on which the length computation underflows.
pub open spec fn jpeg_scan(d: Seq<u8>, pos: int, b: u8) -> Option<ImResult<ImInfo>>
    decreases d.len() - pos,
{
    let fail = Some(Err(ImError::ParserError(ImFormat::JPEG)));
    if b == 0xda || b == 0 {
        fail
    } else {
        let after_ff = if b == 0xff {
            Some(pos)
        } else {
            match next_ff(d, pos) {
                Some(i) => Some(i + 1),
                None => None,
            }
        };
        match after_ff {
            None => fail,
            Some(a) => match next_non_ff(d, a) {
                None => fail,
                Some(m) => if 0xc0 <= d[m] <= 0xc3 {
                    if can_read(d, m + 4, 4) {
                        Some(
                            Ok(
                                ImInfo {
                                    width: u16_at(Endian::Big, d, m + 6) as u64,
                                    height: u16_at(Endian::Big, d, m + 4) as u64,
                                    format: ImFormat::JPEG,
                                },
                            ),
                        )
                    } else {
                        fail
                    }
                } else if !can_read(d, m + 1, 2) {
                    fail
                } else if u16_at(Endian::Big, d, m + 1) < 2 {
                    None
                } else if !can_read(d, m + 1 + u16_at(Endian::Big, d, m + 1), 1) {
                    fail
                } else {
                    proof {
                        lemma_next_non_ff(d, a);
                        if b != 0xff {
                            lemma_next_ff(d, pos);
                        }
                    }
                    let next = m + 1 + u16_at(Endian::Big, d, m + 1);
                    jpeg_scan(d, next + 1, d[next])
                },
            },
        }
    }
}

pub proof fn lemma_next_ff(d: Seq<u8>, pos: int)
    ensures
        next_ff(d, pos) matches Some(i) ==> pos <= i < d.len() && d[i] == 0xff,
    decreases d.len() - pos,
{
    if 0 <= pos < d.len() && d[pos] != 0xff {
        lemma_next_ff(d, pos + 1);
    }
}

pub proof fn lemma_next_non_ff(d: Seq<u8>, pos: int)
    ensures
        next_non_ff(d, pos) matches Some(i) ==> pos <= i < d.len() && d[i] != 0xff,
    decreases d.len() - pos,
{
    if 0 <= pos < d.len() && d[pos] == 0xff {
        lemma_next_non_ff(d, pos + 1);
    }
}

/// The outcome of reading a JPEG file `d` whose first bytes are `p`: the scan
/// starts at position 3, with the third byte as the byte last read.
pub open spec fn jpeg_result(d: Seq<u8>, p: Seq<u8>) -> Option<ImResult<ImInfo>> {
    jpeg_scan(d, 3, p[2])
}

/// Reads the size of a JPEG image through the window `w`: the result holds
/// of every stream the window agrees with.
pub fn parse_jpeg(w: &Window, pre: &[u8]) -> (r: Fetched<Option<ImResult<ImInfo>>>)
    requires
        w.len <= i64::MAX,
        pre.len() >= 3,
    ensures
        r matches Fetched::Got(x) ==> forall|d: Seq<u8>|
            #[trigger] agrees(w, d) ==> x == jpeg_result(d, pre@),
        r matches Fetched::Need(q, n) ==> n > 0 && q + n <= w.len && !held(
            w,
            q as int,
            n as int,
        ),
        complete(w) ==> r is Got,
{
    let len = w.len;
    let mut pos: u64 = 3;
    let mut b = pre[2];
    while b != 0xda && b != 0
        invariant
            len == w.len,
            len <= i64::MAX,
            forall|d: Seq<u8>| #[trigger] agrees(w, d) ==> jpeg_scan(d, pos as int, b) == jpeg_result(d, pre@),
        decreases len + 1 - pos,
    {
        let ghost pos0 = pos;
        let ghost b0 = b;
        if b != 0xff {
            loop
                invariant_except_break
                    pos0 <= pos,
                    forall|d: Seq<u8>| #[trigger] agrees(w, d) ==> next_ff(d, pos as int) == next_ff(d, pos0 as int),
                invariant
                    len == w.len,
                    len <= i64::MAX,
                    b0 != 0xda && b0 != 0 && b0 != 0xff,
                    forall|d: Seq<u8>| #[trigger] agrees(w, d) ==> jpeg_scan(d, pos0 as int, b0) == jpeg_result(d, pre@),
                ensures
                    b == 0xff,
                    pos0 < pos <= len,
                    forall|d: Seq<u8>| #[trigger] agrees(w, d) ==> next_ff(d, pos0 as int) == Some(pos - 1),
                decreases len - pos,
            {
                if !within(w, pos, 1) {
                    return Fetched::Got(Some(Err(ImError::ParserError(ImFormat::JPEG))));
                }
                b = match fetch_u8(w, pos) {
                    Fetched::Got(v) => v,
                    Fetched::Need(q, n) => {
                        return Fetched::Need(q, n);
                    },
                };
                pos = pos + 1;
                if b == 0xff {
                    break;
                }
            }
        }
        let ghost a = pos;
        loop
            invariant_except_break
                b == 0xff,
                a <= pos,
                forall|d: Seq<u8>| #[trigger] agrees(w, d) ==> next_non_ff(d, pos as int) == next_non_ff(d, a as int),
            invariant
                len == w.len,
                len <= i64::MAX,
                b0 != 0xda && b0 != 0,
                b0 == 0xff ==> a == pos0,
                b0 != 0xff ==> forall|d: Seq<u8>| #[trigger] agrees(w, d) ==> next_ff(d, pos0 as int) == Some(a - 1),
                forall|d: Seq<u8>| #[trigger] agrees(w, d) ==> jpeg_scan(d, pos0 as int, b0) == jpeg_result(d, pre@),
            ensures
                a < pos <= len,
                forall|d: Seq<u8>| #[trigger] agrees(w, d) ==> next_non_ff(d, a as int) == Some(pos - 1) && b == d[pos - 1],
            decreases len - pos,
        {
            if !within(w, pos, 1) {
                return Fetched::Got(Some(Err(ImError::ParserError(ImFormat::JPEG))));
            }
            b = match fetch_u8(w, pos) {
                Fetched::Got(v) => v,
                Fetched::Need(q, n) => {
                    return Fetched::Need(q, n);
                },
            };
            pos = pos + 1;
            if b != 0xff {
                break;
            }
        }
        if b >= 0xc0 && b <= 0xc3 {
            if !within(w, pos + 3, 4) {
                return Fetched::Got(Some(Err(ImError::ParserError(ImFormat::JPEG))));
            }
            let h = match fetch_u16(Endian::Big, w, pos + 3) {
                Fetched::Got(v) => v,
                Fetched::Need(q, n) => {
                    return Fetched::Need(q, n);
                },
            };
            let wd = match fetch_u16(Endian::Big, w, pos + 5) {
                Fetched::Got(v) => v,
                Fetched::Need(q, n) => {
                    return Fetched::Need(q, n);
                },
            };
            return Fetched::Got(Some(Ok(ImInfo { width: wd as u64, height: h as u64, format: ImFormat::JPEG })));
        }
        if !within(w, pos, 2) {
            return Fetched::Got(Some(Err(ImError::ParserError(ImFormat::JPEG))));
        }
        let seg = match fetch_u16(Endian::Big, w, pos) {
            Fetched::Got(v) => v as u64,
            Fetched::Need(q, n) => {
                return Fetched::Need(q, n);
            },
        };
        if seg < 2 {
            return Fetched::Got(None);
        }
        let next = pos + seg;
        if !within(w, next, 1) {
            return Fetched::Got(Some(Err(ImError::ParserError(ImFormat::JPEG))));
        }
        b = match fetch_u8(w, next) {
            Fetched::Got(v) => v,
            Fetched::Need(q, n) => {
                return Fetched::Need(q, n);
            },
        };
        pos = next + 1;
    }
    Fetched::Got(Some(Err(ImError::ParserError(ImFormat::JPEG))))
}

} // verus!
