//! What reading gives for the formats made of nested boxes (JPEG 2000, AVIF
//! and HEIF), stated over the bytes of the stream alone: boxes with other
//! names are skipped by their sizes, whatever they are called.
use crate::detect::{imsz_outcome, preamble};
use crate::format::{ImError, ImFormat, ImInfo};
use crate::format_laws::{preamble_starts_with, recognised, signatures_are_recognised};
use crate::header_laws::{be32, read_as, refused_as};
use vstd::prelude::*;

verus! {

/// `b` lists the starts of a chain of boxes in `d`, ending in one called
/// `name`: each box has a big-endian 32-bit size of at least 8 (counting its
/// 8-byte header) and its name after it, and its header lies within `d`;
/// every box but the last has another name and is followed by the next.
pub open spec fn box_chain(d: Seq<u8>, b: Seq<int>, name: Seq<u8>) -> bool {
    &&& b.len() >= 1
    &&& forall|i: int|
        0 <= i < b.len() ==> 0 <= #[trigger] b[i] && b[i] + 8 <= d.len() && be32(d, b[i]) >= 8
    &&& forall|i: int|
        0 <= i < b.len() - 1 ==> d.subrange(#[trigger] b[i] + 4, b[i] + 8) != name && b[i + 1]
            == b[i] + be32(d, b[i])
    &&& d.subrange(b.last() + 4, b.last() + 8) == name
}

/// `jp2h`.
pub open spec fn jp2h() -> Seq<u8> {
    seq![0x6au8, 0x70, 0x32, 0x68]
}

/// `ihdr`.
pub open spec fn ihdr() -> Seq<u8> {
    seq![0x69u8, 0x68, 0x64, 0x72]
}

/// `meta`.
pub open spec fn meta() -> Seq<u8> {
    seq![0x6du8, 0x65, 0x74, 0x61]
}

/// `iprp`.
pub open spec fn iprp() -> Seq<u8> {
    seq![0x69u8, 0x70, 0x72, 0x70]
}

/// `ipco`.
pub open spec fn ipco() -> Seq<u8> {
    seq![0x69u8, 0x70, 0x63, 0x6f]
}

/// `ispe`.
pub open spec fn ispe() -> Seq<u8> {
    seq![0x69u8, 0x73, 0x70, 0x65]
}

proof fn box_found(d: Seq<u8>, b: Seq<int>, name: Seq<u8>, limit: int, i: int)
    requires
        box_chain(d, b, name),
        b.last() - b[0] <= limit,
        0 <= i < b.len(),
    ensures
        crate::boxes::find_box(d, b[i], name, limit, b[i] - b[0]) == Some(
            (b.last() + 8, be32(d, b.last())),
        ),
    decreases b.len() - i,
{
    assert(0 <= b[i] && b[i] + 8 <= d.len() && be32(d, b[i]) >= 8);
    box_order(d, b, name, i);
    box_order(d, b, name, 0);
    assert(crate::bytes::u32_at(crate::bytes::Endian::Big, d, b[i]) == be32(d, b[i]));
    if i < b.len() - 1 {
        assert(d.subrange(b[i] + 4, b[i] + 8) != name && b[i + 1] == b[i] + be32(d, b[i]));
        assert(0 <= b[i + 1] && b[i + 1] + 8 <= d.len());
        box_found(d, b, name, limit, i + 1);
    }
}

proof fn box_order(d: Seq<u8>, b: Seq<int>, name: Seq<u8>, i: int)
    requires
        box_chain(d, b, name),
        0 <= i < b.len(),
    ensures
        b[i] <= b.last(),
    decreases b.len() - i,
{
    if i < b.len() - 1 {
        assert(b[i + 1] == b[i] + be32(d, b[i]) && be32(d, b[i]) >= 8);
        box_order(d, b, name, i + 1);
    }
}

proof fn jp2_outcome(d: Seq<u8>)
    requires
        d.len() >= 24,
        d[0] == 0 && d[1] == 0 && d[2] == 0 && d[3] == 0x0c,
        d[4] == 0x6a && d[5] == 0x50 && d[6] == 0x20 && d[7] == 0x20,
        d[16] == 0x66 && d[17] == 0x74 && d[18] == 0x79 && d[19] == 0x70,
        d[20] == 0x6a && d[21] == 0x70 && d[22] == 0x32 && d[23] == 0x20,
    ensures
        imsz_outcome(d, 0) == Some(crate::boxes::jp2_result(d, preamble(d, 0))),
        crate::bytes::u32_at(crate::bytes::Endian::Big, preamble(d, 0), 12) == be32(d, 12),
{
    signatures_are_recognised(d);
    preamble_starts_with(d, 24);
    assert(recognised(d) == Some(ImFormat::JP2K));
}

/// A JPEG 2000 file (the signature box `00 00 00 0C jP  `, then `ftypjp2 `
/// at 16) is read from the `jp2h` box found in the box list that follows the
/// signature box, and in it the `ihdr` box: boxes with other names are
/// skipped by their sizes (`s` and `t` list the boxes visited; those skipped
/// inside `jp2h` add up to no more than its size). The `ihdr` box holds the
/// height and the width, big endian, after its header; one too short for
/// them, or cut short, is a parser error.
pub proof fn jp2_skips_other_boxes(d: Seq<u8>, s: Seq<int>, t: Seq<int>)
    requires
        d.len() >= 24,
        d.len() <= u64::MAX,
        d[0] == 0 && d[1] == 0 && d[2] == 0 && d[3] == 0x0c,
        d[4] == 0x6a && d[5] == 0x50 && d[6] == 0x20 && d[7] == 0x20,
        d[16] == 0x66 && d[17] == 0x74 && d[18] == 0x79 && d[19] == 0x70,
        d[20] == 0x6a && d[21] == 0x70 && d[22] == 0x32 && d[23] == 0x20,
        box_chain(d, s, jp2h()),
        s[0] == 12 + be32(d, 12),
        box_chain(d, t, ihdr()),
        t[0] == s.last() + 8,
        t.last() - t[0] <= be32(d, s.last()),
    ensures
        t.last() + 16 <= d.len() ==> imsz_outcome(d, 0) == read_as(
            ImFormat::JP2K,
            be32(d, t.last() + 12),
            be32(d, t.last() + 8),
        ),
        t.last() + 16 > d.len() ==> imsz_outcome(d, 0) == refused_as(ImFormat::JP2K),
{
    jp2_outcome(d);
    assert(crate::boxes::name_jp2h() =~= jp2h());
    assert(crate::boxes::name_ihdr() =~= ihdr());
    box_order(d, s, jp2h(), 0);
    box_found(d, s, jp2h(), u64::MAX as int, 0);
    box_found(d, t, ihdr(), be32(d, s.last()), 0);
    let v = t.last() + 8;
    if t.last() + 16 <= d.len() {
        assert(crate::bytes::u32_at(crate::bytes::Endian::Big, d, v) == be32(d, v));
        assert(crate::bytes::u32_at(crate::bytes::Endian::Big, d, v + 4) == be32(d, v + 4));
    }
}

proof fn heif_outcome(d: Seq<u8>)
    requires
        d.len() >= 12,
        !(d[0] == 0xff && d[1] == 0xd8),
        d[4] == 0x66 && d[5] == 0x74 && d[6] == 0x79 && d[7] == 0x70,
        (d[8] == 0x61 && d[9] == 0x76 && d[10] == 0x69 && d[11] == 0x66) || (d[8] == 0x68 && d[9]
            == 0x65 && d[10] == 0x69 && d[11] == 0x63),
    ensures
        imsz_outcome(d, 0) == Some(
            crate::boxes::heif_result(
                d,
                preamble(d, 0),
                if d[8] == 0x61 {
                    ImFormat::AVIF
                } else {
                    ImFormat::HEIF
                },
            ),
        ),
        crate::bytes::u32_at(crate::bytes::Endian::Big, preamble(d, 0), 0) == be32(d, 0),
{
    signatures_are_recognised(d);
    preamble_starts_with(d, 12);
    if d[8] == 0x61 {
        assert(recognised(d) == Some(ImFormat::AVIF));
    } else {
        assert(recognised(d) == Some(ImFormat::HEIF));
    }
}

proof fn heif_found(
    d: Seq<u8>,
    p: Seq<u8>,
    format: ImFormat,
    m: Seq<int>,
    r: Seq<int>,
    c: Seq<int>,
    e: Seq<int>,
)
    requires
        d.len() <= u64::MAX,
        crate::bytes::u32_at(crate::bytes::Endian::Big, p, 0) == be32(d, 0),
        be32(d, 0) >= 12,
        box_chain(d, m, meta()),
        m[0] == be32(d, 0),
        be32(d, m.last()) >= 12,
        box_chain(d, r, iprp()),
        r[0] == m.last() + 12,
        r.last() - r[0] <= be32(d, m.last()) - 12,
        box_chain(d, c, ipco()),
        c[0] == r.last() + 8,
        c.last() - c[0] <= be32(d, r.last()) - 8,
        box_chain(d, e, ispe()),
        e[0] == c.last() + 8,
        e.last() - e[0] <= be32(d, c.last()) - 8,
    ensures
        be32(d, e.last()) >= 12 && e.last() + 20 <= d.len() ==> crate::boxes::heif_result(
            d,
            p,
            format,
        ) == Ok::<ImInfo, ImError>(
            ImInfo {
                width: be32(d, e.last() + 12) as u64,
                height: be32(d, e.last() + 16) as u64,
                format,
            },
        ),
        !(be32(d, e.last()) >= 12 && e.last() + 20 <= d.len()) ==> crate::boxes::heif_result(
            d,
            p,
            format,
        ) == Err::<ImInfo, ImError>(ImError::ParserError(format)),
{
    assert(crate::boxes::name_meta() =~= meta());
    assert(crate::boxes::name_iprp() =~= iprp());
    assert(crate::boxes::name_ipco() =~= ipco());
    assert(crate::boxes::name_ispe() =~= ispe());
    box_order(d, m, meta(), 0);
    box_found(d, m, meta(), u64::MAX as int, 0);
    box_found(d, r, iprp(), be32(d, m.last()) - 12, 0);
    box_found(d, c, ipco(), be32(d, r.last()) - 8, 0);
    box_found(d, e, ispe(), be32(d, c.last()) - 8, 0);
    let v = e.last() + 8;
    if e.last() + 20 <= d.len() {
        assert(crate::bytes::u32_at(crate::bytes::Endian::Big, d, v + 4) == be32(d, v + 4));
        assert(crate::bytes::u32_at(crate::bytes::Endian::Big, d, v + 8) == be32(d, v + 8));
    }
}

/// An AVIF or HEIF file (`ftypavif` or `ftypheic` at 4; not starting with
/// `FF D8`, which would make it a JPEG first) is read from the `ispe` box
/// inside `ipco`, inside `iprp`, inside `meta`, the `meta` box being searched
/// from the end of the leading `ftyp` box (of size at least 12): at each
/// level boxes with other names are skipped by their sizes (`m`, `r`, `c` and
/// `e` list the boxes visited; inside a box, those skipped add up to no more
/// than its size less its header, and 4 more bytes for `meta`). The `ispe`
/// box holds the width and height, big endian, 4 bytes after its header; one
/// too short for them, or cut short, is a parser error.
pub proof fn heif_skips_other_boxes(
    d: Seq<u8>,
    m: Seq<int>,
    r: Seq<int>,
    c: Seq<int>,
    e: Seq<int>,
)
    requires
        d.len() >= 12,
        d.len() <= u64::MAX,
        !(d[0] == 0xff && d[1] == 0xd8),
        d[4] == 0x66 && d[5] == 0x74 && d[6] == 0x79 && d[7] == 0x70,
        (d[8] == 0x61 && d[9] == 0x76 && d[10] == 0x69 && d[11] == 0x66) || (d[8] == 0x68 && d[9]
            == 0x65 && d[10] == 0x69 && d[11] == 0x63),
        be32(d, 0) >= 12,
        box_chain(d, m, meta()),
        m[0] == be32(d, 0),
        be32(d, m.last()) >= 12,
        box_chain(d, r, iprp()),
        r[0] == m.last() + 12,
        r.last() - r[0] <= be32(d, m.last()) - 12,
        box_chain(d, c, ipco()),
        c[0] == r.last() + 8,
        c.last() - c[0] <= be32(d, r.last()) - 8,
        box_chain(d, e, ispe()),
        e[0] == c.last() + 8,
        e.last() - e[0] <= be32(d, c.last()) - 8,
    ensures
        ({
            let format = if d[8] == 0x61 {
                ImFormat::AVIF
            } else {
                ImFormat::HEIF
            };
            &&& be32(d, e.last()) >= 12 && e.last() + 20 <= d.len() ==> imsz_outcome(d, 0)
                == read_as(format, be32(d, e.last() + 12), be32(d, e.last() + 16))
            &&& !(be32(d, e.last()) >= 12 && e.last() + 20 <= d.len()) ==> imsz_outcome(d, 0)
                == refused_as(format)
        }),
{
    heif_outcome(d);
    let format = if d[8] == 0x61 {
        ImFormat::AVIF
    } else {
        ImFormat::HEIF
    };
    heif_found(d, preamble(d, 0), format, m, r, c, e);
}
} // verus!
