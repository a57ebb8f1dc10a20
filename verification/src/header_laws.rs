//! What reading gives for the formats whose size stands in the first bytes,
//! stated over the bytes of the stream alone.
use crate::bytes::has_at;
use crate::detect::{imsz_outcome, preamble};
use crate::header::name_ihdr_upper;
use crate::format::{ImError, ImFormat, ImInfo};
use crate::format_laws::{is_at, not_at, preamble_starts_with, recognised, signatures_are_recognised};
use vstd::prelude::*;

verus! {

/// The little-endian 16-bit value at `i`, from its two bytes.
pub open spec fn le16(d: Seq<u8>, i: int) -> int {
    d[i] + 256 * d[i + 1]
}

/// The big-endian 32-bit value at `i`, from its four bytes.
pub open spec fn be32(d: Seq<u8>, i: int) -> int {
    d[i] * 0x100_0000 + d[i + 1] * 0x1_0000 + d[i + 2] * 0x100 + d[i + 3]
}

/// The little-endian 32-bit value at `i`, from its four bytes.
pub open spec fn le32(d: Seq<u8>, i: int) -> int {
    d[i] + d[i + 1] * 0x100 + d[i + 2] * 0x1_0000 + d[i + 3] * 0x100_0000
}

/// The size `w` x `h` of a `format` image, as a successful outcome.
pub open spec fn read_as(format: ImFormat, w: int, h: int) -> Option<Result<ImInfo, ImError>> {
    Some(Ok(ImInfo { width: w as u64, height: h as u64, format }))
}

/// A parser error of `format`, as an outcome.
pub open spec fn refused_as(format: ImFormat) -> Option<Result<ImInfo, ImError>> {
    Some(Err(ImError::ParserError(format)))
}

/// `IHDR` at 12, byte by byte.
proof fn ihdr_at_12(p: Seq<u8>)
    requires
        p.len() == 30,
    ensures
        has_at(p, 12, name_ihdr_upper()) == (p[12] == 0x49 && p[13] == 0x48 && p[14] == 0x44
            && p[15] == 0x52),
{
    if p[12] != 0x49 {
        not_at(p, 12, name_ihdr_upper(), 0);
    } else if p[13] != 0x48 {
        not_at(p, 12, name_ihdr_upper(), 1);
    } else if p[14] != 0x44 {
        not_at(p, 12, name_ihdr_upper(), 2);
    } else if p[15] != 0x52 {
        not_at(p, 12, name_ihdr_upper(), 3);
    } else {
        is_at(p, 12, name_ihdr_upper());
    }
}

/// A GIF (`GIF87a` or `GIF89a`) has its width and height, little endian, at
/// 6 and 8; a stream too short to hold them is a parser error.
pub proof fn gif_is_read(d: Seq<u8>)
    requires
        d.len() >= 6,
        d[0] == 0x47 && d[1] == 0x49 && d[2] == 0x46 && d[3] == 0x38,
        d[4] == 0x37 || d[4] == 0x39,
        d[5] == 0x61,
    ensures
        d.len() >= 10 ==> imsz_outcome(d, 0) == read_as(ImFormat::GIF, le16(d, 6), le16(d, 8)),
        d.len() < 10 ==> imsz_outcome(d, 0) == refused_as(ImFormat::GIF),
{
    signatures_are_recognised(d);
    preamble_starts_with(d, 6);
    if d.len() >= 10 {
        preamble_starts_with(d, 10);
    }
    assert(recognised(d) == Some(ImFormat::GIF));
}

/// A PNG (`89 P N G 0D 0A 1A 0A`) whose first chunk is an `IHDR` of size at
/// least 8 has its width and height, big endian, at 16 and 20; any other
/// PNG, or one too short to hold them, is a parser error.
pub proof fn png_is_read(d: Seq<u8>)
    requires
        d.len() >= 8,
        d[0] == 0x89 && d[1] == 0x50 && d[2] == 0x4e && d[3] == 0x47,
        d[4] == 0x0d && d[5] == 0x0a && d[6] == 0x1a && d[7] == 0x0a,
    ensures
        d.len() >= 24 && be32(d, 8) >= 8 && d[12] == 0x49 && d[13] == 0x48 && d[14] == 0x44
            && d[15] == 0x52 ==> imsz_outcome(d, 0) == read_as(
            ImFormat::PNG,
            be32(d, 16),
            be32(d, 20),
        ),
        !(d.len() >= 24 && be32(d, 8) >= 8 && d[12] == 0x49 && d[13] == 0x48 && d[14] == 0x44
            && d[15] == 0x52) ==> imsz_outcome(d, 0) == refused_as(ImFormat::PNG),
{
    signatures_are_recognised(d);
    preamble_starts_with(d, 8);
    if d.len() >= 24 {
        preamble_starts_with(d, 24);
    }
    assert(recognised(d) == Some(ImFormat::PNG));
    let p = preamble(d, 0);
    if d.len() >= 24 {
        ihdr_at_12(p);
    }
}

/// Bytes 4 to 7 are not `ftyp` (which would make the stream an AVIF or HEIF
/// candidate before the formats below are tried).
pub open spec fn no_ftyp(d: Seq<u8>) -> bool {
    !(d[4] == 0x66 && d[5] == 0x74 && d[6] == 0x79 && d[7] == 0x70)
}

/// A 32-bit value read as two's complement.
pub open spec fn signed32(v: int) -> int {
    if v >= 0x8000_0000 {
        v - 0x1_0000_0000
    } else {
        v
    }
}

/// A QOI image (`qoif`) has its width and height, big endian, at 4 and 8.
pub proof fn qoi_is_read(d: Seq<u8>)
    requires
        d.len() >= 14,
        d[0] == 0x71 && d[1] == 0x6f && d[2] == 0x69 && d[3] == 0x66,
        no_ftyp(d),
    ensures
        imsz_outcome(d, 0) == read_as(ImFormat::QOI, be32(d, 4), be32(d, 8)),
{
    signatures_are_recognised(d);
    preamble_starts_with(d, 14);
    assert(recognised(d) == Some(ImFormat::QOI));
}

/// A Photoshop image (`8BPS`, version 1 for PSD, 2 for PSB, six zero bytes)
/// has its height and width, big endian, at 14 and 18.
pub proof fn psd_and_psb_are_read(d: Seq<u8>)
    requires
        d.len() >= 22,
        d[0] == 0x38 && d[1] == 0x42 && d[2] == 0x50 && d[3] == 0x53,
        d[4] == 0 && (d[5] == 1 || d[5] == 2),
        d[6] == 0 && d[7] == 0 && d[8] == 0 && d[9] == 0 && d[10] == 0 && d[11] == 0,
    ensures
        imsz_outcome(d, 0) == read_as(
            if d[5] == 1 {
                ImFormat::PSD
            } else {
                ImFormat::PSB
            },
            be32(d, 18),
            be32(d, 14),
        ),
{
    signatures_are_recognised(d);
    preamble_starts_with(d, 22);
    if d[5] == 1 {
        assert(recognised(d) == Some(ImFormat::PSD));
    } else {
        assert(recognised(d) == Some(ImFormat::PSB));
    }
}

/// A GIMP image (`gimp xcf `, a zero byte at 13) has its width and height,
/// big endian, at 14 and 18.
pub proof fn xcf_is_read(d: Seq<u8>)
    requires
        d.len() >= 22,
        d[0] == 0x67 && d[1] == 0x69 && d[2] == 0x6d && d[3] == 0x70 && d[4] == 0x20,
        d[5] == 0x78 && d[6] == 0x63 && d[7] == 0x66 && d[8] == 0x20,
        d[13] == 0,
    ensures
        imsz_outcome(d, 0) == read_as(ImFormat::XCF, be32(d, 14), be32(d, 18)),
{
    signatures_are_recognised(d);
    preamble_starts_with(d, 22);
    assert(recognised(d) == Some(ImFormat::XCF));
}

/// A PCX image (`0A`, a version below 6, 1, 2, 4 or 8 bits per plane) spans
/// the inclusive window from (x1, y1) to (x2, y2), 16-bit little endian at
/// 4, 6, 8 and 10; an empty window is a parser error.
pub proof fn pcx_is_read(d: Seq<u8>)
    requires
        d.len() >= 30,
        d[0] == 0x0a && d[1] < 6,
        d[3] == 1 || d[3] == 2 || d[3] == 4 || d[3] == 8,
        no_ftyp(d),
    ensures
        le16(d, 8) - le16(d, 4) + 1 > 0 && le16(d, 10) - le16(d, 6) + 1 > 0 ==> imsz_outcome(d, 0)
            == read_as(ImFormat::PCX, le16(d, 8) - le16(d, 4) + 1, le16(d, 10) - le16(d, 6) + 1),
        le16(d, 8) - le16(d, 4) + 1 <= 0 || le16(d, 10) - le16(d, 6) + 1 <= 0 ==> imsz_outcome(d, 0)
            == refused_as(ImFormat::PCX),
{
    signatures_are_recognised(d);
    preamble_starts_with(d, 30);
    assert(recognised(d) == Some(ImFormat::PCX));
}

/// A DirectDraw surface (`DDS `, header size 124 as `7C 00 00 00`, one of
/// the caps, height or width flags set) has its height and width, little
/// endian, at 12 and 16.
pub proof fn dds_is_read(d: Seq<u8>)
    requires
        d.len() >= 30,
        d[0] == 0x44 && d[1] == 0x44 && d[2] == 0x53 && d[3] == 0x20,
        d[4] == 0x7c && d[5] == 0 && d[6] == 0 && d[7] == 0,
        d[8] % 8 != 0 || (d[9] / 16) % 2 != 0,
    ensures
        imsz_outcome(d, 0) == read_as(ImFormat::DDS, le32(d, 16), le32(d, 12)),
{
    signatures_are_recognised(d);
    preamble_starts_with(d, 30);
    assert(recognised(d) == Some(ImFormat::DDS));
}

/// A bare bitmap info header (size 40 as `28 00 00 00`, one plane as
/// `01 00` at 12, a zero byte at 15) has its signed width and height, little
/// endian, at 4 and 8; the height is taken as its absolute value (the
/// smallest 32-bit value, which has none, is left out).
pub proof fn dib_is_read(d: Seq<u8>)
    requires
        d.len() >= 16,
        d[0] == 0x28 && d[1] == 0 && d[2] == 0 && d[3] == 0,
        d[12] == 1 && d[13] == 0 && d[15] == 0,
        no_ftyp(d),
        signed32(le32(d, 8)) != -0x8000_0000,
    ensures
        imsz_outcome(d, 0) == read_as(
            ImFormat::DIB,
            signed32(le32(d, 4)),
            crate::format_laws::magnitude(signed32(le32(d, 8))),
        ),
{
    signatures_are_recognised(d);
    preamble_starts_with(d, 16);
    assert(recognised(d) == Some(ImFormat::DIB));
}

/// A Valve texture (`VTF\0`) with a header size (little endian at 12) of at
/// least 10 has its width and height, 16-bit little endian, at 16 and 18; a
/// smaller header size is a parser error.
pub proof fn vtf_is_read(d: Seq<u8>)
    requires
        d.len() >= 20,
        d[0] == 0x56 && d[1] == 0x54 && d[2] == 0x46 && d[3] == 0,
        no_ftyp(d),
    ensures
        le32(d, 12) >= 10 ==> imsz_outcome(d, 0) == read_as(
            ImFormat::VTF,
            le16(d, 16),
            le16(d, 18),
        ),
        le32(d, 12) < 10 ==> imsz_outcome(d, 0) == refused_as(ImFormat::VTF),
{
    signatures_are_recognised(d);
    preamble_starts_with(d, 20);
    assert(recognised(d) == Some(ImFormat::VTF));
}

/// A four-byte chunk name at 12, byte by byte.
proof fn name_at_12(p: Seq<u8>, m: Seq<u8>)
    requires
        p.len() == 30,
        m.len() == 4,
    ensures
        has_at(p, 12, m) == (p[12] == m[0] && p[13] == m[1] && p[14] == m[2] && p[15] == m[3]),
{
    if p[12] != m[0] {
        not_at(p, 12, m, 0);
    } else if p[13] != m[1] {
        not_at(p, 12, m, 1);
    } else if p[14] != m[2] {
        not_at(p, 12, m, 2);
    } else if p[15] != m[3] {
        not_at(p, 12, m, 3);
    } else {
        is_at(p, 12, m);
    }
}

proof fn webp_outcome(d: Seq<u8>)
    requires
        d.len() >= 30,
        d[0] == 0x52 && d[1] == 0x49 && d[2] == 0x46 && d[3] == 0x46,
        d[8] == 0x57 && d[9] == 0x45 && d[10] == 0x42 && d[11] == 0x50,
    ensures
        imsz_outcome(d, 0) == Some(crate::header::webp_result(preamble(d, 0))),
        forall|i: int| 0 <= i < 30 ==> #[trigger] preamble(d, 0)[i] == d[i],
{
    signatures_are_recognised(d);
    preamble_starts_with(d, 30);
    assert(recognised(d) == Some(ImFormat::WEBP));
}

/// The WebP reading of the preamble `p`, as an outcome.
spec fn webp_outcome_of(p: Seq<u8>) -> Option<Result<ImInfo, ImError>> {
    Some(crate::header::webp_result(p))
}

proof fn webp_cases(d: Seq<u8>, p: Seq<u8>)
    requires
        d.len() >= 30,
        p.len() == 30,
        forall|i: int| 0 <= i < 30 ==> #[trigger] p[i] == d[i],
    ensures
        d[12] == 0x56 && d[13] == 0x50 && d[14] == 0x38 && d[15] == 0x4c ==> webp_outcome_of(p)
            == read_as(
            ImFormat::WEBP,
            1 + (d[22] % 64) * 256 + d[21],
            1 + (d[24] % 16) * 1024 + d[23] * 4 + d[22] / 64,
        ),
        d[12] == 0x56 && d[13] == 0x50 && d[14] == 0x38 && d[15] == 0x20 ==> webp_outcome_of(p)
            == if d[23] == 0x9d && d[24] == 0x01 && d[25] == 0x2a {
            read_as(ImFormat::WEBP, le16(d, 26), le16(d, 28))
        } else {
            refused_as(ImFormat::WEBP)
        },
        d[12] == 0x56 && d[13] == 0x50 && d[14] == 0x38 && d[15] == 0x58 ==> webp_outcome_of(p)
            == read_as(
            ImFormat::WEBP,
            d[24] + 256 * d[25] + 65536 * d[26] + 1,
            d[27] + 256 * d[28] + 65536 * d[29] + 1,
        ),
        !(d[12] == 0x56 && d[13] == 0x50 && d[14] == 0x38 && (d[15] == 0x4c || d[15] == 0x20
            || d[15] == 0x58)) ==> webp_outcome_of(p) == refused_as(ImFormat::WEBP),
{
    assert(p[12] == d[12] && p[13] == d[13] && p[14] == d[14] && p[15] == d[15]);
    name_at_12(p, crate::header::webp_vp8l());
    name_at_12(p, crate::header::webp_vp8());
    name_at_12(p, crate::header::webp_vp8x());
    if d[12] == 0x56 && d[13] == 0x50 && d[14] == 0x38 && d[15] == 0x4c {
        assert(p[21] == d[21] && p[22] == d[22] && p[23] == d[23] && p[24] == d[24]);
    } else if d[12] == 0x56 && d[13] == 0x50 && d[14] == 0x38 && d[15] == 0x20 {
        assert(p[23] == d[23] && p[24] == d[24] && p[25] == d[25]);
        assert(p[26] == d[26] && p[27] == d[27] && p[28] == d[28] && p[29] == d[29]);
    } else if d[12] == 0x56 && d[13] == 0x50 && d[14] == 0x38 && d[15] == 0x58 {
        assert(p[24] == d[24] && p[25] == d[25] && p[26] == d[26]);
        assert(p[27] == d[27] && p[28] == d[28] && p[29] == d[29]);
    }
}

/// A WebP image (`RIFF`, `WEBP` at 8) is read by its first chunk at 12:
/// lossless (`VP8L`) packs the width and height less one in 14 bits each
/// from byte 21 on; lossy (`VP8 `) needs the frame tag `9D 01 2A` at 23 and
/// has them, 16-bit little endian, at 26 and 28; extended (`VP8X`) has them
/// less one, 24-bit little endian, at 24 and 27. Any other chunk, or a lossy
/// one without the frame tag, is a parser error.
pub proof fn webp_is_read(d: Seq<u8>)
    requires
        d.len() >= 30,
        d[0] == 0x52 && d[1] == 0x49 && d[2] == 0x46 && d[3] == 0x46,
        d[8] == 0x57 && d[9] == 0x45 && d[10] == 0x42 && d[11] == 0x50,
    ensures
        d[12] == 0x56 && d[13] == 0x50 && d[14] == 0x38 && d[15] == 0x4c ==> imsz_outcome(d, 0)
            == read_as(
            ImFormat::WEBP,
            1 + (d[22] % 64) * 256 + d[21],
            1 + (d[24] % 16) * 1024 + d[23] * 4 + d[22] / 64,
        ),
        d[12] == 0x56 && d[13] == 0x50 && d[14] == 0x38 && d[15] == 0x20 ==> imsz_outcome(d, 0)
            == if d[23] == 0x9d && d[24] == 0x01 && d[25] == 0x2a {
            read_as(ImFormat::WEBP, le16(d, 26), le16(d, 28))
        } else {
            refused_as(ImFormat::WEBP)
        },
        d[12] == 0x56 && d[13] == 0x50 && d[14] == 0x38 && d[15] == 0x58 ==> imsz_outcome(d, 0)
            == read_as(
            ImFormat::WEBP,
            d[24] + 256 * d[25] + 65536 * d[26] + 1,
            d[27] + 256 * d[28] + 65536 * d[29] + 1,
        ),
        !(d[12] == 0x56 && d[13] == 0x50 && d[14] == 0x38 && (d[15] == 0x4c || d[15] == 0x20
            || d[15] == 0x58)) ==> imsz_outcome(d, 0) == refused_as(ImFormat::WEBP),
{
    webp_outcome(d);
    webp_cases(d, preamble(d, 0));
}

/// A stream recognised as a Truevision TGA image (by the literal table of
/// [`recognised`]: a colour map type below 2, an image type below 12 and the
/// `TRUEVISION-XFILE.` footer) has its width and height, 16-bit little
/// endian, at 12 and 14.
pub proof fn tga_is_read(d: Seq<u8>)
    requires
        recognised(d) == Some(ImFormat::TGA),
    ensures
        imsz_outcome(d, 0) == read_as(ImFormat::TGA, le16(d, 12), le16(d, 14)),
{
    signatures_are_recognised(d);
    preamble_starts_with(d, 30);
}

/// From `a` on, `d` holds `k` non-zero bytes and then a zero byte.
pub open spec fn zero_ended(d: Seq<u8>, a: int, k: int) -> bool {
    &&& 0 <= a
    &&& 0 <= k
    &&& a + k < d.len()
    &&& forall|j: int| a <= j < a + k ==> #[trigger] d[j] != 0
    &&& d[a + k] == 0
}

/// `displayWindow`.
pub open spec fn display_window_name() -> Seq<u8> {
    seq![0x64u8, 0x69, 0x73, 0x70, 0x6c, 0x61, 0x79, 0x57, 0x69, 0x6e, 0x64, 0x6f, 0x77]
}

/// `box2i`.
pub open spec fn box2i_name() -> Seq<u8> {
    seq![0x62u8, 0x6f, 0x78, 0x32, 0x69]
}

/// Where the value of the OpenEXR attribute at `a` starts, its name being
/// `n` bytes and its type name `t` bytes long (each ended by a zero byte,
/// then a 32-bit size).
pub open spec fn exr_value_at(a: int, n: int, t: int) -> int {
    a + n + t + 6
}

/// `s` lists the starts of a chain of OpenEXR header attributes in `d`, with
/// the lengths of their names (`n`) and type names (`t`): the first at 8;
/// each a non-empty name and a type name, both ended by a zero byte, then a
/// little-endian 32-bit size; every attribute but the last is not named
/// `displayWindow` and is followed, after as many value bytes as its size
/// says, by the next; the last is a `displayWindow` of type `box2i` and
/// size 16 whose 16 value bytes lie within `d`.
pub open spec fn exr_attribute_chain(d: Seq<u8>, s: Seq<int>, n: Seq<int>, t: Seq<int>) -> bool {
    &&& s.len() >= 1
    &&& n.len() == s.len()
    &&& t.len() == s.len()
    &&& s[0] == 8
    &&& forall|i: int|
        0 <= i < s.len() ==> 1 <= #[trigger] n[i] && zero_ended(d, s[i], n[i]) && zero_ended(
            d,
            s[i] + n[i] + 1,
            t[i],
        ) && exr_value_at(s[i], n[i], t[i]) <= d.len()
    &&& forall|i: int|
        0 <= i < s.len() - 1 ==> d.subrange(#[trigger] s[i], s[i] + n[i])
            != display_window_name() && s[i + 1] == exr_value_at(s[i], n[i], t[i]) + le32(
            d,
            exr_value_at(s[i], n[i], t[i]) - 4,
        )
    &&& d.subrange(s.last(), s.last() + n.last()) == display_window_name()
    &&& d.subrange(s.last() + n.last() + 1, s.last() + n.last() + 1 + t.last()) == box2i_name()
    &&& le32(d, exr_value_at(s.last(), n.last(), t.last()) - 4) == 16
    &&& exr_value_at(s.last(), n.last(), t.last()) + 16 <= d.len()
}

/// The size an OpenEXR `box2i` value at `v` gives: the inclusive bounds
/// x1, y1, x2, y2, signed 32-bit little endian; an empty window is a parser
/// error.
pub open spec fn exr_window(d: Seq<u8>, v: int) -> Option<Result<ImInfo, ImError>> {
    let w = signed32(le32(d, v + 8)) - signed32(le32(d, v)) + 1;
    let h = signed32(le32(d, v + 12)) - signed32(le32(d, v + 4)) + 1;
    if w <= 0 || h <= 0 {
        refused_as(ImFormat::OpenEXR)
    } else {
        read_as(ImFormat::OpenEXR, w, h)
    }
}

proof fn zero_found(d: Seq<u8>, a: int, k: int)
    requires
        zero_ended(d, a, k),
    ensures
        crate::exr::next_zero(d, a) == Some(a + k),
    decreases k,
{
    if k > 0 {
        assert(d[a] != 0);
        zero_found(d, a + 1, k - 1);
    }
}

proof fn exr_scan_skips(d: Seq<u8>, a: int, nl: int, tl: int)
    requires
        1 <= nl,
        zero_ended(d, a, nl),
        zero_ended(d, a + nl + 1, tl),
        exr_value_at(a, nl, tl) + le32(d, exr_value_at(a, nl, tl) - 4) <= d.len(),
        d.subrange(a, a + nl) != display_window_name(),
    ensures
        crate::exr::exr_scan(d, a) == crate::exr::exr_scan(
            d,
            exr_value_at(a, nl, tl) + le32(d, exr_value_at(a, nl, tl) - 4),
        ),
{
    let z1 = a + nl;
    let z2 = z1 + 1 + tl;
    zero_found(d, a, nl);
    zero_found(d, z1 + 1, tl);
    assert(crate::bytes::u32_at(crate::bytes::Endian::Little, d, z2 + 1) == le32(d, z2 + 1));
    assert(crate::exr::display_window() == display_window_name());
}

proof fn exr_scan_window(d: Seq<u8>, a: int, nl: int, tl: int)
    requires
        1 <= nl,
        zero_ended(d, a, nl),
        zero_ended(d, a + nl + 1, tl),
        d.subrange(a, a + nl) == display_window_name(),
        d.subrange(a + nl + 1, a + nl + 1 + tl) == box2i_name(),
        le32(d, exr_value_at(a, nl, tl) - 4) == 16,
        exr_value_at(a, nl, tl) + 16 <= d.len(),
    ensures
        Some(crate::exr::exr_scan(d, a)) == exr_window(d, exr_value_at(a, nl, tl)),
{
    let z1 = a + nl;
    let z2 = z1 + 1 + tl;
    let v = z2 + 5;
    zero_found(d, a, nl);
    zero_found(d, z1 + 1, tl);
    assert(crate::bytes::u32_at(crate::bytes::Endian::Little, d, z2 + 1) == le32(d, z2 + 1));
    assert(crate::exr::display_window() =~= display_window_name());
    assert(crate::exr::box2i() =~= box2i_name());
    assert(crate::bytes::i32_of(crate::bytes::u32_at(crate::bytes::Endian::Little, d, v))
        == signed32(le32(d, v)));
    assert(crate::bytes::i32_of(crate::bytes::u32_at(crate::bytes::Endian::Little, d, v + 4))
        == signed32(le32(d, v + 4)));
    assert(crate::bytes::i32_of(crate::bytes::u32_at(crate::bytes::Endian::Little, d, v + 8))
        == signed32(le32(d, v + 8)));
    assert(crate::bytes::i32_of(crate::bytes::u32_at(crate::bytes::Endian::Little, d, v + 12))
        == signed32(le32(d, v + 12)));
}

proof fn exr_chain_from(d: Seq<u8>, s: Seq<int>, n: Seq<int>, t: Seq<int>, i: int)
    requires
        exr_attribute_chain(d, s, n, t),
        0 <= i < s.len(),
    ensures
        Some(crate::exr::exr_scan(d, s[i])) == exr_window(
            d,
            exr_value_at(s.last(), n.last(), t.last()),
        ),
    decreases s.len() - i,
{
    assert(1 <= n[i] && zero_ended(d, s[i], n[i]) && zero_ended(d, s[i] + n[i] + 1, t[i])
        && exr_value_at(s[i], n[i], t[i]) <= d.len());
    if i < s.len() - 1 {
        assert(d.subrange(s[i], s[i] + n[i]) != display_window_name() && s[i + 1]
            == exr_value_at(s[i], n[i], t[i]) + le32(d, exr_value_at(s[i], n[i], t[i]) - 4));
        assert(1 <= n[i + 1] && zero_ended(d, s[i + 1], n[i + 1]));
        exr_scan_skips(d, s[i], n[i], t[i]);
        exr_chain_from(d, s, n, t, i + 1);
    } else {
        exr_scan_window(d, s[i], n[i], t[i]);
    }
}

proof fn exr_outcome(d: Seq<u8>)
    requires
        d.len() > 8,
        d[0] == 0x76 && d[1] == 0x2f && d[2] == 0x31 && d[3] == 0x01,
        d[4] == 1 || d[4] == 2,
    ensures
        imsz_outcome(d, 0) == Some(crate::exr::exr_result(d)),
{
    signatures_are_recognised(d);
    preamble_starts_with(d, 9);
    assert(recognised(d) == Some(ImFormat::OpenEXR));
}

/// An OpenEXR image (`76 2F 31 01`, version 1 or 2) whose `displayWindow`
/// attribute comes after any chain of other attributes, whatever their names,
/// types and sizes, has the size of that window.
pub proof fn exr_skips_other_attributes(d: Seq<u8>, s: Seq<int>, n: Seq<int>, t: Seq<int>)
    requires
        d[0] == 0x76 && d[1] == 0x2f && d[2] == 0x31 && d[3] == 0x01,
        d[4] == 1 || d[4] == 2,
        exr_attribute_chain(d, s, n, t),
    ensures
        imsz_outcome(d, 0) == exr_window(d, exr_value_at(s.last(), n.last(), t.last())),
{
    assert(zero_ended(d, s[0], n[0]));
    exr_outcome(d);
    exr_chain_from(d, s, n, t, 0);
}

} // verus!
