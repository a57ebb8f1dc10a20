//! Formats made of nested boxes (chunks with a 4-byte big-endian size that
//! counts the 8-byte header, then a 4-byte name): AVIF, HEIF and JPEG 2000.
use crate::bytes::{can_read, load_u32, u32_at, Endian};
use crate::window::{agrees, complete, held, fetch_has, fetch_u32, within, Fetched, Window};
use crate::format::{ImError, ImFormat, ImInfo, ImResult};
use vstd::prelude::*;

verus! {

/// Searches the box list that starts at `pos` for a box called `name`,
/// giving up once the boxes skipped add up to more than `limit`.
/// Gives the position just after the found box's header, and its size.
pub open spec fn find_box(d: Seq<u8>, pos: int, name: Seq<u8>, limit: int, skipped: int) -> Option<
    (int, int),
>
    decreases d.len() - pos,
{
    if skipped > limit || !can_read(d, pos, 8) {
        None
    } else if u32_at(Endian::Big, d, pos) < 8 {
        None
    } else if d.subrange(pos + 4, pos + 8) == name {
        Some((pos + 8, u32_at(Endian::Big, d, pos) as int))
    } else if pos + u32_at(Endian::Big, d, pos) > d.len() {
        None
    } else {
        find_box(
            d,
            pos + u32_at(Endian::Big, d, pos),
            name,
            limit,
            skipped + u32_at(Endian::Big, d, pos),
        )
    }
}

pub open spec fn name_meta() -> Seq<u8> {
    seq![0x6du8, 0x65, 0x74, 0x61]
}

pub open spec fn name_iprp() -> Seq<u8> {
    seq![0x69u8, 0x70, 0x72, 0x70]
}

pub open spec fn name_ipco() -> Seq<u8> {
    seq![0x69u8, 0x70, 0x63, 0x6f]
}

pub open spec fn name_ispe() -> Seq<u8> {
    seq![0x69u8, 0x73, 0x70, 0x65]
}

pub open spec fn name_jp2h() -> Seq<u8> {
    seq![0x6au8, 0x70, 0x32, 0x68]
}

pub open spec fn name_ihdr() -> Seq<u8> {
    seq![0x69u8, 0x68, 0x64, 0x72]
}

/// AVIF and HEIF: the `ispe` box inside `meta` > `iprp` > `ipco`, searched
/// from the end of the leading `ftyp` box; its size must be at least 12.
pub open spec fn heif_result(d: Seq<u8>, p: Seq<u8>, format: ImFormat) -> ImResult<ImInfo> {
    let ftyp_size = u32_at(Endian::Big, p, 0) as int;
    let fail = Err(ImError::ParserError(format));
    if ftyp_size < 12 {
        fail
    } else {
        match find_box(d, ftyp_size, name_meta(), u64::MAX as int, 0) {
            None => fail,
            Some((p1, s1)) => if s1 < 12 {
                fail
            } else {
                match find_box(d, p1 + 4, name_iprp(), s1 - 12, 0) {
                    None => fail,
                    Some((p2, s2)) => match find_box(d, p2, name_ipco(), s2 - 8, 0) {
                        None => fail,
                        Some((p3, s3)) => match find_box(d, p3, name_ispe(), s3 - 8, 0) {
                            None => fail,
                            Some((p4, s4)) => if s4 < 12 || !can_read(d, p4, 12) {
                                fail
                            } else {
                                Ok(
                                    ImInfo {
                                        width: u32_at(Endian::Big, d, p4 + 4) as u64,
                                        height: u32_at(Endian::Big, d, p4 + 8) as u64,
                                        format,
                                    },
                                )
                            },
                        },
                    },
                }
            },
        }
    }
}

/// JPEG 2000: the `ihdr` box inside the `jp2h` box that follows the
/// signature box; it holds the height, then the width.
pub open spec fn jp2_result(d: Seq<u8>, p: Seq<u8>) -> ImResult<ImInfo> {
    let fail = Err(ImError::ParserError(ImFormat::JP2K));
    match find_box(d, 12 + u32_at(Endian::Big, p, 12), name_jp2h(), u64::MAX as int, 0) {
        None => fail,
        Some((p1, s1)) => match find_box(d, p1, name_ihdr(), s1, 0) {
            None => fail,
            Some((p2, s2)) => if s2 < 8 || !can_read(d, p2, 8) {
                fail
            } else {
                Ok(
                    ImInfo {
                        width: u32_at(Endian::Big, d, p2 + 4) as u64,
                        height: u32_at(Endian::Big, d, p2) as u64,
                        format: ImFormat::JP2K,
                    },
                )
            },
        },
    }
}

/// Finds the box called `name` in the box list at `pos`, through the window
/// `w`; see [`find_box`].
pub fn find_riff_chunk(w: &Window, pos: u64, name: &[u8], limit: u64) -> (r: Fetched<
    Option<(u64, u64)>,
>)
    requires
        w.len <= i64::MAX,
        name@.len() == 4,
    ensures
        r matches Fetched::Got(x) ==> forall|d: Seq<u8>|
            #[trigger] agrees(w, d) ==> match x {
                Some((q, s)) => find_box(d, pos as int, name@, limit as int, 0) == Some(
                    (q as int, s as int),
                ),
                None => find_box(d, pos as int, name@, limit as int, 0) is None,
            },
        r matches Fetched::Got(Some((q, s))) ==> 8 <= q <= w.len && 8 <= s <= u32::MAX,
        r matches Fetched::Need(q, n) ==> n > 0 && q + n <= w.len && !held(
            w,
            q as int,
            n as int,
        ),
        complete(w) ==> r is Got,
{
    let len = w.len;
    let mut cur = pos;
    let mut skipped: u64 = 0;
    loop
        invariant
            len == w.len,
            len <= i64::MAX,
            name@.len() == 4,
            cur == pos + skipped,
            forall|d: Seq<u8>|
                #[trigger] agrees(w, d) ==> find_box(d, cur as int, name@, limit as int, skipped as int)
                    == find_box(d, pos as int, name@, limit as int, 0),
        decreases len - cur,
    {
        if skipped > limit || !within(w, cur, 8) {
            return Fetched::Got(None);
        }
        let size = match fetch_u32(Endian::Big, w, cur) {
            Fetched::Got(v) => v as u64,
            Fetched::Need(q, n) => {
                return Fetched::Need(q, n);
            },
        };
        if size < 8 {
            return Fetched::Got(None);
        }
        let hit = match fetch_has(w, cur + 4, name) {
            Fetched::Got(v) => v,
            Fetched::Need(q, n) => {
                return Fetched::Need(q, n);
            },
        };
        if hit {
            return Fetched::Got(Some((cur + 8, size)));
        }
        if cur + size > len {
            return Fetched::Got(None);
        }
        cur = cur + size;
        skipped = skipped + size;
    }
}

fn box_names() -> (r: ([u8; 4], [u8; 4], [u8; 4], [u8; 4], [u8; 4], [u8; 4]))
    ensures
        r.0@ == name_meta(),
        r.1@ == name_iprp(),
        r.2@ == name_ipco(),
        r.3@ == name_ispe(),
        r.4@ == name_jp2h(),
        r.5@ == name_ihdr(),
{
    let r = (
        [0x6du8, 0x65, 0x74, 0x61],
        [0x69u8, 0x70, 0x72, 0x70],
        [0x69u8, 0x70, 0x63, 0x6f],
        [0x69u8, 0x73, 0x70, 0x65],
        [0x6au8, 0x70, 0x32, 0x68],
        [0x69u8, 0x68, 0x64, 0x72],
    );
    assert(r.0@ =~= name_meta());
    assert(r.1@ =~= name_iprp());
    assert(r.2@ =~= name_ipco());
    assert(r.3@ =~= name_ispe());
    assert(r.4@ =~= name_jp2h());
    assert(r.5@ =~= name_ihdr());
    r
}

/// Reads the size of an AVIF or HEIF image (`format` says which) through the
/// window `w`: the result holds of every stream the window agrees with.
pub fn parse_heif(w: &Window, pre: &[u8], format: ImFormat) -> (r: Fetched<ImResult<ImInfo>>)
    requires
        w.len <= i64::MAX,
        pre.len() >= 4,
    ensures
        r matches Fetched::Got(x) ==> forall|d: Seq<u8>|
            #[trigger] agrees(w, d) ==> x == heif_result(d, pre@, format),
        r matches Fetched::Need(q, n) ==> n > 0 && q + n <= w.len && !held(
            w,
            q as int,
            n as int,
        ),
        complete(w) ==> r is Got,
{
    let names = box_names();
    let ftyp_size = load_u32(Endian::Big, pre, 0) as u64;
    if ftyp_size < 12 {
        return Fetched::Got(Err(ImError::ParserError(format)));
    }
    let (p1, s1) = match find_riff_chunk(w, ftyp_size, names.0.as_slice(), u64::MAX) {
        Fetched::Need(q, n) => {
            return Fetched::Need(q, n);
        },
        Fetched::Got(None) => {
            return Fetched::Got(Err(ImError::ParserError(format)));
        },
        Fetched::Got(Some(found)) => found,
    };
    if s1 < 12 {
        return Fetched::Got(Err(ImError::ParserError(format)));
    }
    let (p2, s2) = match find_riff_chunk(w, p1 + 4, names.1.as_slice(), s1 - 12) {
        Fetched::Need(q, n) => {
            return Fetched::Need(q, n);
        },
        Fetched::Got(None) => {
            return Fetched::Got(Err(ImError::ParserError(format)));
        },
        Fetched::Got(Some(found)) => found,
    };
    let (p3, s3) = match find_riff_chunk(w, p2, names.2.as_slice(), s2 - 8) {
        Fetched::Need(q, n) => {
            return Fetched::Need(q, n);
        },
        Fetched::Got(None) => {
            return Fetched::Got(Err(ImError::ParserError(format)));
        },
        Fetched::Got(Some(found)) => found,
    };
    let (p4, s4) = match find_riff_chunk(w, p3, names.3.as_slice(), s3 - 8) {
        Fetched::Need(q, n) => {
            return Fetched::Need(q, n);
        },
        Fetched::Got(None) => {
            return Fetched::Got(Err(ImError::ParserError(format)));
        },
        Fetched::Got(Some(found)) => found,
    };
    if s4 < 12 || !within(w, p4, 12) {
        return Fetched::Got(Err(ImError::ParserError(format)));
    }
    let width = match fetch_u32(Endian::Big, w, p4 + 4) {
        Fetched::Got(v) => v as u64,
        Fetched::Need(q, n) => {
            return Fetched::Need(q, n);
        },
    };
    let height = match fetch_u32(Endian::Big, w, p4 + 8) {
        Fetched::Got(v) => v as u64,
        Fetched::Need(q, n) => {
            return Fetched::Need(q, n);
        },
    };
    Fetched::Got(Ok(ImInfo { width, height, format }))
}

/// Reads the size of a JPEG 2000 image through the window `w`: the result
/// holds of every stream the window agrees with.
pub fn parse_jp2(w: &Window, pre: &[u8]) -> (r: Fetched<ImResult<ImInfo>>)
    requires
        w.len <= i64::MAX,
        pre.len() >= 16,
    ensures
        r matches Fetched::Got(x) ==> forall|d: Seq<u8>|
            #[trigger] agrees(w, d) ==> x == jp2_result(d, pre@),
        r matches Fetched::Need(q, n) ==> n > 0 && q + n <= w.len && !held(
            w,
            q as int,
            n as int,
        ),
        complete(w) ==> r is Got,
{
    let names = box_names();
    let start = 12 + load_u32(Endian::Big, pre, 12) as u64;
    let (p1, s1) = match find_riff_chunk(w, start, names.4.as_slice(), u64::MAX) {
        Fetched::Need(q, n) => {
            return Fetched::Need(q, n);
        },
        Fetched::Got(None) => {
            return Fetched::Got(Err(ImError::ParserError(ImFormat::JP2K)));
        },
        Fetched::Got(Some(found)) => found,
    };
    let (p2, s2) = match find_riff_chunk(w, p1, names.5.as_slice(), s1) {
        Fetched::Need(q, n) => {
            return Fetched::Need(q, n);
        },
        Fetched::Got(None) => {
            return Fetched::Got(Err(ImError::ParserError(ImFormat::JP2K)));
        },
        Fetched::Got(Some(found)) => found,
    };
    if s2 < 8 || !within(w, p2, 8) {
        return Fetched::Got(Err(ImError::ParserError(ImFormat::JP2K)));
    }
    let height = match fetch_u32(Endian::Big, w, p2) {
        Fetched::Got(v) => v as u64,
        Fetched::Need(q, n) => {
            return Fetched::Need(q, n);
        },
    };
    let width = match fetch_u32(Endian::Big, w, p2 + 4) {
        Fetched::Got(v) => v as u64,
        Fetched::Need(q, n) => {
            return Fetched::Need(q, n);
        },
    };
    Fetched::Got(Ok(ImInfo { width, height, format: ImFormat::JP2K }))
}

} // verus!
