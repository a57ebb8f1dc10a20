//! What reading gives for each format, stated over the bytes of the stream
//! and the literal signatures, independently of how the reading is
//! specified.
use crate::bytes::{has_at, i16_of, i32_of, i8_of, u16_at, u32_at, u64_at, Endian};
use crate::detect::{
    sig_avif, sig_bmhd, sig_ftyp_jp2, sig_ilbm, sig_pbm, sig_webp, detect, imsz_outcome, pre_len, preamble, sig_bm, sig_dds, sig_dib, sig_exr, sig_form,
    sig_ftyp_avif, sig_ftyp_heic, sig_gif87a, sig_gif89a, sig_ico, sig_jp2, sig_png, sig_psb,
    sig_psd, sig_qoi, sig_riff, sig_tiff_be, sig_tiff_le, sig_vtf, sig_xcf, zeros4,
};
use crate::format::{ImError, ImFormat, ImInfo};
use vstd::prelude::*;

verus! {

/// The preamble begins with the stream's first `k` bytes.
pub(crate) proof fn preamble_starts_with(d: Seq<u8>, k: int)
    requires
        0 <= k <= 30,
        k <= d.len(),
    ensures
        pre_len(d, 0) >= k,
        forall|i: int| 0 <= i < k ==> #[trigger] preamble(d, 0)[i] == d[i],
{
}

/// `p` does not hold `m` at `k`: they differ at `k + j`.
pub(crate) proof fn not_at(p: Seq<u8>, k: int, m: Seq<u8>, j: int)
    requires
        0 <= j < m.len(),
        0 <= k,
        k + j < p.len(),
        p[k + j] != m[j],
    ensures
        !has_at(p, k, m),
{
    if has_at(p, k, m) {
        assert(p.subrange(k, k + m.len())[j] == p[k + j]);
    }
}

/// `p` holds `m` at `k`.
pub(crate) proof fn is_at(p: Seq<u8>, k: int, m: Seq<u8>)
    requires
        0 <= k,
        k + m.len() <= p.len(),
        forall|j: int| 0 <= j < m.len() ==> #[trigger] p[k + j] == m[j],
    ensures
        has_at(p, k, m),
{
    assert forall|j: int| 0 <= j < m.len() implies #[trigger] p.subrange(k, k + m.len())[j]
        == m[j] by {
        assert(p[k + j] == m[j]);
    }
    assert(p.subrange(k, k + m.len()) =~= m);
}

/// Bytes 4 to 7 are not `ftyp`, so the stream is not taken for AVIF or HEIF.
pub(crate) proof fn not_ftyp(p: Seq<u8>)
    requires
        p.len() >= 12,
        !(p[4] == 0x66 && p[5] == 0x74 && p[6] == 0x79 && p[7] == 0x70),
    ensures
        !has_at(p, 4, sig_ftyp_avif()),
        !has_at(p, 4, sig_ftyp_heic()),
{
    let j: int = if p[4] != 0x66 {
        0
    } else if p[5] != 0x74 {
        1
    } else if p[6] != 0x79 {
        2
    } else {
        3
    };
    assert(sig_ftyp_avif()[0] == 0x66 && sig_ftyp_avif()[1] == 0x74 && sig_ftyp_avif()[2] == 0x79
        && sig_ftyp_avif()[3] == 0x70);
    assert(sig_ftyp_heic()[0] == 0x66 && sig_ftyp_heic()[1] == 0x74 && sig_ftyp_heic()[2] == 0x79
        && sig_ftyp_heic()[3] == 0x70);
    not_at(p, 4, sig_ftyp_avif(), j);
    not_at(p, 4, sig_ftyp_heic(), j);
}

/// No signature that is checked before ILBM's, other than those at offset 4,
/// starts with `F` (0x46).
proof fn not_before_ilbm(p: Seq<u8>)
    requires
        p.len() == 30,
        p[0] == 0x46,
        !(p[4] == 0x66 && p[5] == 0x74 && p[6] == 0x79 && p[7] == 0x70),
    ensures
        !has_at(p, 0, sig_gif87a()) && !has_at(p, 0, sig_gif89a()) && !has_at(p, 0, sig_png())
            && !has_at(p, 0, sig_bm()) && !has_at(p, 0, sig_riff()) && !has_at(p, 4, sig_ftyp_avif())
            && !has_at(p, 4, sig_ftyp_heic()) && !has_at(p, 0, sig_jp2()) && !has_at(p, 0, sig_tiff_le())
            && !has_at(p, 0, sig_tiff_be()) && !has_at(p, 0, sig_qoi()) && !has_at(p, 0, sig_psd())
            && !has_at(p, 0, sig_psb()) && !has_at(p, 0, sig_xcf()) && !has_at(p, 0, sig_ico())
            && !has_at(p, 0, sig_exr()) && !has_at(p, 0, sig_dds()) && !has_at(p, 0, sig_dib())
            && !has_at(p, 0, sig_vtf()),
{
    not_at(p, 0, sig_gif87a(), 0);
    not_at(p, 0, sig_gif89a(), 0);
    not_at(p, 0, sig_png(), 0);
    not_at(p, 0, sig_bm(), 0);
    not_at(p, 0, sig_riff(), 0);
    not_ftyp(p);
    not_at(p, 0, sig_jp2(), 0);
    not_at(p, 0, sig_tiff_le(), 0);
    not_at(p, 0, sig_tiff_be(), 0);
    not_at(p, 0, sig_qoi(), 0);
    not_at(p, 0, sig_psd(), 0);
    not_at(p, 0, sig_psb(), 0);
    not_at(p, 0, sig_xcf(), 0);
    not_at(p, 0, sig_ico(), 0);
    not_at(p, 0, sig_exr(), 0);
    not_at(p, 0, sig_dds(), 0);
    not_at(p, 0, sig_dib(), 0);
    not_at(p, 0, sig_vtf(), 0);
}

proof fn detected_as_ilbm(d: Seq<u8>)
    requires
        d.len() >= 24,
        d[0] == 0x46 && d[1] == 0x4f && d[2] == 0x52 && d[3] == 0x4d,
        (d[8] == 0x49 && d[9] == 0x4c && d[10] == 0x42 && d[11] == 0x4d) || (d[8] == 0x50 && d[9]
            == 0x42 && d[10] == 0x4d && d[11] == 0x20),
        d[12] == 0x42 && d[13] == 0x4d && d[14] == 0x48 && d[15] == 0x44,
        !(d[4] == 0x66 && d[5] == 0x74 && d[6] == 0x79 && d[7] == 0x70),
    ensures
        detect(d, preamble(d, 0), pre_len(d, 0)) == Some(ImFormat::ILBM),
{
    let p = preamble(d, 0);
    preamble_starts_with(d, 24);
    not_before_ilbm(p);
    is_at(p, 0, sig_form());
    is_at(p, 12, crate::detect::sig_bmhd());
    if d[8] == 0x49 {
        is_at(p, 8, crate::detect::sig_ilbm());
    } else {
        is_at(p, 8, crate::detect::sig_pbm());
    }
    reveal(detect);
}

/// Interleaved and planar bitmaps alike: a stream that starts with `FORM`,
/// has `ILBM` or `PBM ` at 8 and `BMHD` at 12 (and no `ftyp` at 4, which
/// would make it an AVIF or HEIF candidate first) is read as ILBM: the 16-bit
/// big-endian width and height at 20 and 22 when the `FORM` size (at 4) is at
/// least 32 and the `BMHD` size (at 16) at least 20, else a parser error.
pub proof fn ilbm_and_pbm_are_read(d: Seq<u8>)
    requires
        d.len() >= 24,
        d[0] == 0x46 && d[1] == 0x4f && d[2] == 0x52 && d[3] == 0x4d,
        (d[8] == 0x49 && d[9] == 0x4c && d[10] == 0x42 && d[11] == 0x4d) || (d[8] == 0x50 && d[9]
            == 0x42 && d[10] == 0x4d && d[11] == 0x20),
        d[12] == 0x42 && d[13] == 0x4d && d[14] == 0x48 && d[15] == 0x44,
        !(d[4] == 0x66 && d[5] == 0x74 && d[6] == 0x79 && d[7] == 0x70),
    ensures
        imsz_outcome(d, 0) == Some(
            if d[4] * 0x100_0000 + d[5] * 0x1_0000 + d[6] * 0x100 + d[7] >= 32 && d[16] * 0x100_0000
                + d[17] * 0x1_0000 + d[18] * 0x100 + d[19] >= 20 {
                Ok::<ImInfo, ImError>(
                    ImInfo {
                        width: (d[20] * 256 + d[21]) as u64,
                        height: (d[22] * 256 + d[23]) as u64,
                        format: ImFormat::ILBM,
                    },
                )
            } else {
                Err(ImError::ParserError(ImFormat::ILBM))
            },
        ),
{
    detected_as_ilbm(d);
    preamble_starts_with(d, 24);
    assert(imsz_outcome(d, 0) == Some(crate::header::ilbm_result(preamble(d, 0))));
}

/// The absolute value.
pub open spec fn magnitude(x: int) -> int {
    if x < 0 {
        -x
    } else {
        x
    }
}

proof fn detected_as_bmp(d: Seq<u8>)
    requires
        d.len() >= 10,
        d[0] == 0x42 && d[1] == 0x4d,
        d[6] == 0 && d[7] == 0 && d[8] == 0 && d[9] == 0,
    ensures
        detect(d, preamble(d, 0), pre_len(d, 0)) == Some(ImFormat::BMP),
{
    let p = preamble(d, 0);
    preamble_starts_with(d, 10);
    not_at(p, 0, sig_gif87a(), 0);
    not_at(p, 0, sig_gif89a(), 0);
    not_at(p, 0, sig_png(), 0);
    is_at(p, 0, sig_bm());
    is_at(p, 6, zeros4());
    reveal(detect);
}

/// A BMP (`BM`, four zero bytes at 6) is read by its header size at 14,
/// whatever the newer header's size: a Windows 2.0 header (size 12) gives the
/// 16-bit signed width at 18 (sign extended) and the absolute 16-bit signed
/// height at 20; any larger header (40, 108, 124, ...) the 32-bit signed
/// width at 18 and the absolute 32-bit signed height at 22, once the first 26
/// bytes are there and the file size at 2 covers them. A height at the
/// smallest value of its type has no absolute value in its type and is left
/// out.
pub proof fn bmp_headers_of_any_size(d: Seq<u8>)
    requires
        d.len() >= 22,
        d[0] == 0x42 && d[1] == 0x4d,
        d[6] == 0 && d[7] == 0 && d[8] == 0 && d[9] == 0,
        u32_at(Endian::Little, d, 2) >= 22,
    ensures
        u32_at(Endian::Little, d, 14) == 12 && i16_of(u16_at(Endian::Little, d, 20)) != i16::MIN
            ==> imsz_outcome(d, 0) == Some(
            Ok::<ImInfo, ImError>(
                ImInfo {
                    width: i16_of(u16_at(Endian::Little, d, 18)) as u64,
                    height: magnitude(i16_of(u16_at(Endian::Little, d, 20)) as int) as u64,
                    format: ImFormat::BMP,
                },
            ),
        ),
        u32_at(Endian::Little, d, 14) > 12 && d.len() >= 26 && u32_at(Endian::Little, d, 2) >= 26
            && i32_of(u32_at(Endian::Little, d, 22)) != i32::MIN ==> imsz_outcome(d, 0) == Some(
            Ok::<ImInfo, ImError>(
                ImInfo {
                    width: i32_of(u32_at(Endian::Little, d, 18)) as u64,
                    height: magnitude(i32_of(u32_at(Endian::Little, d, 22)) as int) as u64,
                    format: ImFormat::BMP,
                },
            ),
        ),
{
    detected_as_bmp(d);
    let k: int = if d.len() >= 26 {
        26
    } else {
        22
    };
    preamble_starts_with(d, k);
    let p = preamble(d, 0);
    assert(imsz_outcome(d, 0) == crate::header::bmp_result(p, pre_len(d, 0)));
    assert(u32_at(Endian::Little, p, 2) == u32_at(Endian::Little, d, 2));
    assert(u32_at(Endian::Little, p, 14) == u32_at(Endian::Little, d, 14));
    assert(u16_at(Endian::Little, p, 18) == u16_at(Endian::Little, d, 18));
    assert(u16_at(Endian::Little, p, 20) == u16_at(Endian::Little, d, 20));
    if k == 26 {
        assert(u32_at(Endian::Little, p, 18) == u32_at(Endian::Little, d, 18));
        assert(u32_at(Endian::Little, p, 22) == u32_at(Endian::Little, d, 22));
    }
}

/// The big-endian 16-bit value at `i`, from its two bytes.
pub open spec fn be16(d: Seq<u8>, i: int) -> int {
    d[i] * 256 + d[i + 1]
}

/// Where the scan resumes at `a`: the byte there is neither `00` nor `DA`;
/// bytes other than `FF` up to `f`, then `FF` bytes up to the marker at `m`,
/// which is not `FF`.
pub open spec fn jpeg_padding(d: Seq<u8>, a: int, f: int, m: int) -> bool {
    &&& 0 <= a <= f < m < d.len()
    &&& d[a] != 0 && d[a] != 0xda
    &&& forall|j: int| a <= j < f ==> #[trigger] d[j] != 0xff
    &&& forall|j: int| f <= j < m ==> #[trigger] d[j] == 0xff
    &&& d[m] != 0xff
}

/// From `a` on, the scan finds the marker at `m`.
proof fn jpeg_marker_found(d: Seq<u8>, a: int, f: int, m: int)
    requires
        jpeg_padding(d, a, f, m),
    ensures
        d[a] == 0xff ==> crate::jpeg::next_non_ff(d, a + 1) == Some(m),
        d[a] != 0xff ==> crate::jpeg::next_ff(d, a + 1) == Some(f) && crate::jpeg::next_non_ff(
            d,
            f + 1,
        ) == Some(m),
{
    if d[a] == 0xff {
        non_ff_found(d, a + 1, m);
    } else {
        ff_found(d, a + 1, f);
        non_ff_found(d, f + 1, m);
    }
}

proof fn jpeg_skip_step(d: Seq<u8>, a: int, f: int, m: int)
    requires
        jpeg_padding(d, a, f, m),
        !(0xc0 <= d[m] <= 0xc3),
        m + 3 <= d.len(),
        be16(d, m + 1) >= 2,
        m + 1 + be16(d, m + 1) < d.len(),
    ensures
        crate::jpeg::jpeg_scan(d, a + 1, d[a]) == crate::jpeg::jpeg_scan(
            d,
            m + 1 + be16(d, m + 1) + 1,
            d[m + 1 + be16(d, m + 1)],
        ),
{
    jpeg_marker_found(d, a, f, m);
    assert(u16_at(Endian::Big, d, m + 1) == be16(d, m + 1));
}

proof fn jpeg_frame_step(d: Seq<u8>, a: int, f: int, m: int)
    requires
        jpeg_padding(d, a, f, m),
        0xc0 <= d[m] <= 0xc3,
        m + 8 <= d.len(),
    ensures
        crate::jpeg::jpeg_scan(d, a + 1, d[a]) == Some(
            Ok::<ImInfo, ImError>(
                ImInfo {
                    width: be16(d, m + 6) as u64,
                    height: be16(d, m + 4) as u64,
                    format: ImFormat::JPEG,
                },
            ),
        ),
{
    jpeg_marker_found(d, a, f, m);
    assert(u16_at(Endian::Big, d, m + 4) == be16(d, m + 4));
    assert(u16_at(Endian::Big, d, m + 6) == be16(d, m + 6));
}

/// `s` lists where a chain of JPEG segments resumes in `d`, `f` and `m`
/// where each segment's `FF` run and marker stand: the scan starts at 2 and
/// resumes after each segment; at each place the byte is neither `00` nor
/// `DA`, any bytes other than `FF` may come first, then one or more `FF`
/// (fill bytes), then the marker. Every segment but the last has a marker
/// other than a start-of-frame (`C0` to `C3`) and a length of at least 2,
/// which counts itself and after which the scan resumes; the last is a
/// start-of-frame whose height and width (after the length and one byte of
/// precision) lie within `d`.
pub open spec fn jpeg_segment_chain(d: Seq<u8>, s: Seq<int>, f: Seq<int>, m: Seq<int>) -> bool {
    &&& s.len() >= 1
    &&& f.len() == s.len()
    &&& m.len() == s.len()
    &&& s[0] == 2
    &&& forall|i: int| 0 <= i < s.len() ==> jpeg_padding(d, #[trigger] s[i], f[i], m[i])
    &&& forall|i: int|
        0 <= i < s.len() - 1 ==> !(0xc0 <= d[#[trigger] m[i]] <= 0xc3) && m[i] + 3 <= d.len()
            && be16(d, m[i] + 1) >= 2 && s[i + 1] == m[i] + 1 + be16(d, m[i] + 1)
    &&& 0xc0 <= d[m.last()] <= 0xc3
    &&& m.last() + 8 <= d.len()
}

proof fn ff_found(d: Seq<u8>, a: int, k: int)
    requires
        0 <= a <= k < d.len(),
        forall|j: int| a <= j < k ==> #[trigger] d[j] != 0xff,
        d[k] == 0xff,
    ensures
        crate::jpeg::next_ff(d, a) == Some(k),
    decreases k - a,
{
    if a < k {
        ff_found(d, a + 1, k);
    }
}

proof fn non_ff_found(d: Seq<u8>, a: int, k: int)
    requires
        0 <= a <= k < d.len(),
        forall|j: int| a <= j < k ==> #[trigger] d[j] == 0xff,
        d[k] != 0xff,
    ensures
        crate::jpeg::next_non_ff(d, a) == Some(k),
    decreases k - a,
{
    if a < k {
        non_ff_found(d, a + 1, k);
    }
}

proof fn jpeg_chain_from(d: Seq<u8>, s: Seq<int>, f: Seq<int>, m: Seq<int>, i: int)
    requires
        jpeg_segment_chain(d, s, f, m),
        0 <= i < s.len(),
    ensures
        crate::jpeg::jpeg_scan(d, s[i] + 1, d[s[i]]) == Some(
            Ok::<ImInfo, ImError>(
                ImInfo {
                    width: be16(d, m.last() + 6) as u64,
                    height: be16(d, m.last() + 4) as u64,
                    format: ImFormat::JPEG,
                },
            ),
        ),
    decreases s.len() - i,
{
    assert(jpeg_padding(d, s[i], f[i], m[i]));
    if i < s.len() - 1 {
        assert(!(0xc0 <= d[m[i]] <= 0xc3) && m[i] + 3 <= d.len() && be16(d, m[i] + 1) >= 2
            && s[i + 1] == m[i] + 1 + be16(d, m[i] + 1));
        assert(jpeg_padding(d, s[i + 1], f[i + 1], m[i + 1]));
        jpeg_skip_step(d, s[i], f[i], m[i]);
        jpeg_chain_from(d, s, f, m, i + 1);
    } else {
        jpeg_frame_step(d, s[i], f[i], m[i]);
    }
}

proof fn detected_as_jpeg(d: Seq<u8>)
    requires
        d.len() >= 3,
        d[0] == 0xff && d[1] == 0xd8,
    ensures
        detect(d, preamble(d, 0), pre_len(d, 0)) == Some(ImFormat::JPEG),
{
    let p = preamble(d, 0);
    preamble_starts_with(d, 3);
    not_at(p, 0, sig_gif87a(), 0);
    not_at(p, 0, sig_gif89a(), 0);
    not_at(p, 0, sig_png(), 0);
    not_at(p, 0, sig_bm(), 0);
    reveal(detect);
}

/// A JPEG (`FF D8`) whose start-of-frame segment comes after any chain of
/// well-formed segments, whatever their markers, and whatever padding or fill
/// bytes stand between them, has the height and width read at offsets 4 and
/// 6 after its marker (3 and 5 after its length).
pub proof fn jpeg_skips_any_segments(d: Seq<u8>, s: Seq<int>, f: Seq<int>, m: Seq<int>)
    requires
        d.len() >= 3,
        d[0] == 0xff && d[1] == 0xd8,
        jpeg_segment_chain(d, s, f, m),
    ensures
        imsz_outcome(d, 0) == Some(
            Ok::<ImInfo, ImError>(
                ImInfo {
                    width: be16(d, m.last() + 6) as u64,
                    height: be16(d, m.last() + 4) as u64,
                    format: ImFormat::JPEG,
                },
            ),
        ),
{
    detected_as_jpeg(d);
    preamble_starts_with(d, 3);
    assert(jpeg_padding(d, s[0], f[0], m[0]));
    jpeg_chain_from(d, s, f, m, 0);
    assert(imsz_outcome(d, 0) == crate::jpeg::jpeg_result(d, preamble(d, 0)));
}

/// The byte order a TIFF stream announces at its start.
pub open spec fn tiff_order(d: Seq<u8>) -> Endian {
    if d[0] == 0x4d {
        Endian::Big
    } else {
        Endian::Little
    }
}

/// The offset of the first image file directory.
pub open spec fn tiff_ifd(d: Seq<u8>) -> int {
    u32_at(tiff_order(d), d, 4) as int
}

/// The offset of directory entry `i`: after the 2-byte entry count, 12
/// bytes an entry.
pub open spec fn tiff_entry(d: Seq<u8>, i: int) -> int {
    tiff_ifd(d) + 2 + 12 * i
}

pub open spec fn tiff_tag(d: Seq<u8>, i: int) -> u16 {
    u16_at(tiff_order(d), d, tiff_entry(d, i))
}

pub open spec fn tiff_type(d: Seq<u8>, i: int) -> u16 {
    u16_at(tiff_order(d), d, tiff_entry(d, i) + 2)
}

/// The number of bytes a value of TIFF field type `t` takes: 1 for BYTE,
/// ASCII, SBYTE and UNDEFINED (1, 2, 6, 7), 2 for SHORT and SSHORT (3, 8), 4
/// for LONG, SLONG and FLOAT (4, 9, 11), 8 for the rationals and DOUBLE (5,
/// 10, 12).
pub open spec fn tiff_value_size(t: u16) -> int {
    if t == 1 || t == 2 || t == 6 || t == 7 {
        1
    } else if t == 3 || t == 8 {
        2
    } else if t == 4 || t == 9 || t == 11 {
        4
    } else {
        8
    }
}

/// A signed value clamped below at zero.
pub open spec fn at_least_zero(v: int) -> u64 {
    if v < 0 {
        0
    } else {
        v as u64
    }
}

/// The value of entry `i`, read in place 8 bytes into the entry and made a
/// `u64`: unsigned values as they are, signed ones clamped at zero, a
/// rational as the quotient of its two parts rounded toward zero (then
/// clamped at zero), a FLOAT or DOUBLE as Rust's `as u64` gives it.
pub open spec fn tiff_value(d: Seq<u8>, i: int) -> u64 {
    let e = tiff_order(d);
    let p = tiff_entry(d, i) + 8;
    let t = tiff_type(d, i);
    if t == 1 || t == 2 {
        d[p] as u64
    } else if t == 3 {
        u16_at(e, d, p) as u64
    } else if t == 4 {
        u32_at(e, d, p) as u64
    } else if t == 5 {
        (u32_at(e, d, p) / u32_at(e, d, p + 4)) as u64
    } else if t == 6 || t == 7 {
        at_least_zero(i8_of(d[p]) as int)
    } else if t == 8 {
        at_least_zero(i16_of(u16_at(e, d, p)) as int)
    } else if t == 9 {
        at_least_zero(i32_of(u32_at(e, d, p)) as int)
    } else if t == 10 {
        let num = i32_of(u32_at(e, d, p)) as int;
        let den = i32_of(u32_at(e, d, p + 4)) as int;
        if (num < 0) != (den < 0) {
            0
        } else {
            (magnitude(num) / magnitude(den)) as u64
        }
    } else if t == 11 {
        crate::float::f32_bits_to_u64(u32_at(e, d, p))
    } else {
        crate::float::f64_bits_to_u64(u64_at(e, d, p))
    }
}

/// Entry `i` has a known field type, its value lies within `d`, and a
/// rational has a non-zero denominator.
pub open spec fn tiff_value_readable(d: Seq<u8>, i: int) -> bool {
    let e = tiff_order(d);
    let p = tiff_entry(d, i) + 8;
    let t = tiff_type(d, i);
    &&& 1 <= t <= 12
    &&& p + tiff_value_size(t) <= d.len()
    &&& t == 5 ==> u32_at(e, d, p + 4) != 0
    &&& t == 10 ==> i32_of(u32_at(e, d, p + 4)) != 0
}

/// `d` is a TIFF (`II*\0` or `MM\0*`) whose first directory holds a width
/// entry (tag 256) at `iw` and a height entry (tag 257) at `ih`, both of an
/// unsigned type, with no other width or height entry before the later of
/// them; the entries up to that one lie within `d` and at offsets that fit
/// in 32 bits. Bytes 4 to 7 are not `ftyp` (which would make the stream an
/// AVIF or HEIF candidate first).
pub open spec fn tiff_with_size_entries(d: Seq<u8>, iw: int, ih: int) -> bool {
    let last = if iw < ih {
        ih
    } else {
        iw
    };
    &&& d.len() >= 8
    &&& (d[0] == 0x49 && d[1] == 0x49 && d[2] == 0x2a && d[3] == 0) || (d[0] == 0x4d && d[1]
        == 0x4d && d[2] == 0 && d[3] == 0x2a)
    &&& !(d[4] == 0x66 && d[5] == 0x74 && d[6] == 0x79 && d[7] == 0x70)
    &&& tiff_ifd(d) + 2 <= d.len()
    &&& 0 <= iw < u16_at(tiff_order(d), d, tiff_ifd(d))
    &&& 0 <= ih < u16_at(tiff_order(d), d, tiff_ifd(d))
    &&& iw != ih
    &&& tiff_entry(d, last) <= u32::MAX
    &&& tiff_tag(d, iw) == 256 && tiff_tag(d, ih) == 257
    &&& tiff_value_readable(d, iw) && tiff_value_readable(d, ih)
    &&& forall|j: int|
        0 <= j < last && j != iw && j != ih ==> #[trigger] tiff_tag(d, j) != 256 && tiff_tag(d, j)
            != 257
}

proof fn tiff_walk(d: Seq<u8>, iw: int, ih: int, i: int)
    requires
        tiff_with_size_entries(d, iw, ih),
        0 <= i <= (if iw < ih {
            ih
        } else {
            iw
        }),
    ensures
        crate::tiff::tiff_scan(
            tiff_order(d),
            d,
            tiff_ifd(d),
            u16_at(tiff_order(d), d, tiff_ifd(d)) as int,
            i,
            if iw < i {
                Some(tiff_value(d, iw))
            } else {
                None
            },
            if ih < i {
                Some(tiff_value(d, ih))
            } else {
                None
            },
        ) == Some(
            Ok::<ImInfo, ImError>(
                ImInfo {
                    width: tiff_value(d, iw),
                    height: tiff_value(d, ih),
                    format: ImFormat::TIFF,
                },
            ),
        ),
    decreases (if iw < ih {
        ih
    } else {
        iw
    }) - i,
{
    let last = if iw < ih {
        ih
    } else {
        iw
    };
    let e = tiff_order(d);
    let entry = tiff_entry(d, i);
    assert(entry <= tiff_entry(d, last));
    if i == iw || i == ih {
        let p = entry + 8;
        assert(tiff_entry(d, i) + 4 <= d.len());
        assert(crate::tiff::field_size(tiff_type(d, i)) == tiff_value_size(tiff_type(d, i)));
        assert(crate::tiff::field_value(e, d, tiff_type(d, i), p) == crate::tiff::FieldValue::Value(
            tiff_value(d, i),
        ));
    } else {
        assert(tiff_tag(d, i) != 256 && tiff_tag(d, i) != 257);
    }
    if i < last {
        tiff_walk(d, iw, ih, i + 1);
    }
}

proof fn detected_as_tiff(d: Seq<u8>)
    requires
        d.len() >= 8,
        (d[0] == 0x49 && d[1] == 0x49 && d[2] == 0x2a && d[3] == 0) || (d[0] == 0x4d && d[1] == 0x4d
            && d[2] == 0 && d[3] == 0x2a),
        !(d[4] == 0x66 && d[5] == 0x74 && d[6] == 0x79 && d[7] == 0x70),
    ensures
        detect(d, preamble(d, 0), pre_len(d, 0)) == Some(ImFormat::TIFF),
{
    let p = preamble(d, 0);
    preamble_starts_with(d, 8);
    not_at(p, 0, sig_gif87a(), 0);
    not_at(p, 0, sig_gif89a(), 0);
    not_at(p, 0, sig_png(), 0);
    not_at(p, 0, sig_bm(), 0);
    not_at(p, 0, sig_riff(), 0);
    not_at(p, 0, sig_jp2(), 0);
    if pre_len(d, 0) >= 12 {
        not_ftyp(p);
    }
    if d[0] == 0x49 {
        is_at(p, 0, sig_tiff_le());
    } else {
        is_at(p, 0, sig_tiff_be());
    }
    reveal(detect);
}

/// TIFF, in either byte order: entries whose tag is neither 256 nor 257 are
/// skipped wherever they stand, and the size is the values of the width and
/// height entries.
pub proof fn tiff_reads_the_size_entries(d: Seq<u8>, iw: int, ih: int)
    requires
        tiff_with_size_entries(d, iw, ih),
    ensures
        imsz_outcome(d, 0) == Some(
            Ok::<ImInfo, ImError>(
                ImInfo {
                    width: tiff_value(d, iw),
                    height: tiff_value(d, ih),
                    format: ImFormat::TIFF,
                },
            ),
        ),
{
    detected_as_tiff(d);
    preamble_starts_with(d, 8);
    let p = preamble(d, 0);
    assert(crate::tiff::tiff_endian(p) == tiff_order(d));
    assert(u32_at(tiff_order(d), p, 4) == u32_at(tiff_order(d), d, 4));
    tiff_walk(d, iw, ih, 0);
    assert(imsz_outcome(d, 0) == crate::tiff::tiff_result(d, p));
}

proof fn detected_as_ico(d: Seq<u8>)
    requires
        d.len() >= 6,
        d[0] == 0 && d[1] == 0 && d[2] == 1 && d[3] == 0,
        !(d.len() >= 8 && d[4] == 0x66 && d[5] == 0x74 && d[6] == 0x79 && d[7] == 0x70),
    ensures
        detect(d, preamble(d, 0), pre_len(d, 0)) == Some(ImFormat::ICO),
{
    let p = preamble(d, 0);
    preamble_starts_with(d, 6);
    if d.len() >= 8 {
        preamble_starts_with(d, 8);
    }
    not_at(p, 0, sig_gif87a(), 0);
    not_at(p, 0, sig_gif89a(), 0);
    not_at(p, 0, sig_png(), 0);
    not_at(p, 0, sig_bm(), 0);
    not_at(p, 0, sig_riff(), 0);
    not_ftyp(p);
    not_at(p, 0, sig_jp2(), 2);
    not_at(p, 0, sig_tiff_le(), 0);
    not_at(p, 0, sig_tiff_be(), 0);
    not_at(p, 0, sig_qoi(), 0);
    not_at(p, 0, sig_psd(), 0);
    not_at(p, 0, sig_psb(), 0);
    not_at(p, 0, sig_xcf(), 0);
    is_at(p, 0, sig_ico());
    reveal(detect);
}

/// The number of images an ICO directory announces: the little-endian
/// 16-bit value at 4.
pub open spec fn ico_announced(d: Seq<u8>) -> int {
    d[4] + 256 * d[5]
}

/// Among the first `count` ICO entries, any entry at least as wide as `w`
/// and at least as high as `h` has exactly that size, and `w` x `h` is the
/// size of one of them, or zero.
pub open spec fn biggest_entry(d: Seq<u8>, count: int, w: u64, h: u64) -> bool {
    &&& forall|i: int|
        0 <= i < count && #[trigger] d[6 + 16 * i] >= w && d[7 + 16 * i] >= h ==> d[6 + 16 * i]
            == w && d[7 + 16 * i] == h
    &&& (w == 0 && h == 0) || exists|i: int|
        0 <= i < count && #[trigger] d[6 + 16 * i] == w && d[7 + 16 * i] == h
}

proof fn kept_entry_is_biggest(d: Seq<u8>, count: nat)
    ensures
        biggest_entry(
            d,
            count as int,
            crate::ico::ico_best(d, count).0 as u64,
            crate::ico::ico_best(d, count).1 as u64,
        ),
{
    crate::laws::ico_best_is_biggest(d, count);
    let best = crate::ico::ico_best(d, count);
    assert forall|i: int|
        0 <= i < count && #[trigger] d[6 + 16 * i] >= best.0 as u64 && d[7 + 16 * i] >= best.1 as u64
            implies d[6 + 16 * i] == best.0 as u64 && d[7 + 16 * i] == best.1 as u64 by {
        assert(crate::ico::ico_entry(d, i) == (d[6 + 16 * i], d[7 + 16 * i]));
        assert(crate::ico::ico_entry(d, i).0 >= best.0 && crate::ico::ico_entry(d, i).1 >= best.1);
    }
    if best != (0u8, 0u8) {
        let i = choose|i: int| 0 <= i < count && #[trigger] crate::ico::ico_entry(d, i) == best;
        assert(crate::ico::ico_entry(d, i) == (d[6 + 16 * i], d[7 + 16 * i]));
        assert(d[6 + 16 * i] == best.0 as u64 && d[7 + 16 * i] == best.1 as u64);
    }
}

proof fn ico_outcome(d: Seq<u8>)
    requires
        d.len() >= 6,
        d[0] == 0 && d[1] == 0 && d[2] == 1 && d[3] == 0,
        !(d.len() >= 8 && d[4] == 0x66 && d[5] == 0x74 && d[6] == 0x79 && d[7] == 0x70),
    ensures
        imsz_outcome(d, 0) == Some(crate::ico::ico_result(d, preamble(d, 0))),
        crate::ico::ico_count(preamble(d, 0)) == ico_announced(d),
{
    detected_as_ico(d);
    preamble_starts_with(d, 6);
}

/// An ICO file (`00 00 01 00`; bytes 4 to 7 not `ftyp`, which would make it
/// an AVIF or HEIF candidate first) is read over all the entries its header
/// announces, each 16 bytes from 6 on, with the width and height in its first
/// two bytes. A directory that does not fit in the file is a parser error;
/// otherwise the size is that of the biggest image (see [`biggest_entry`]).
pub proof fn ico_reports_biggest_announced_entry(d: Seq<u8>)
    requires
        d.len() >= 6,
        d[0] == 0 && d[1] == 0 && d[2] == 1 && d[3] == 0,
        !(d.len() >= 8 && d[4] == 0x66 && d[5] == 0x74 && d[6] == 0x79 && d[7] == 0x70),
    ensures
        ico_announced(d) > 0 && 6 + 16 * ico_announced(d) > d.len() ==> imsz_outcome(d, 0) == Some(
            Err::<ImInfo, ImError>(ImError::ParserError(ImFormat::ICO)),
        ),
        ico_announced(d) == 0 || 6 + 16 * ico_announced(d) <= d.len() ==> (imsz_outcome(d, 0) matches Some(Ok(info))
            && info.format == ImFormat::ICO && biggest_entry(d, ico_announced(d), info.width, info.height)),
{
    ico_outcome(d);
    kept_entry_is_biggest(d, ico_announced(d) as nat);
}

/// The stream `d` with the ICO entry count set to `k`.
pub open spec fn with_count(d: Seq<u8>, k: int) -> Seq<u8> {
    d.update(4, (k % 256) as u8).update(5, (k / 256) as u8)
}

proof fn entries_decide(d1: Seq<u8>, d2: Seq<u8>, k: nat)
    requires
        d1.len() == d2.len(),
        forall|i: int| 6 <= i < d1.len() ==> #[trigger] d1[i] == d2[i],
        6 + 16 * k <= d1.len(),
    ensures
        crate::ico::ico_best(d1, k) == crate::ico::ico_best(d2, k),
    decreases k,
{
    if k > 0 {
        entries_decide(d1, d2, (k - 1) as nat);
        assert(d1[6 + 16 * (k - 1)] == d2[6 + 16 * (k - 1)]);
        assert(d1[6 + 16 * (k - 1) + 1] == d2[6 + 16 * (k - 1) + 1]);
    }
}

proof fn ico_with_count(d: Seq<u8>, k: int)
    requires
        0 <= k <= 65535,
        d.len() >= 8 && d.len() >= 6 + 16 * k,
        d[0] == 0 && d[1] == 0 && d[2] == 1 && d[3] == 0,
        !(d[6] == 0x79 && d[7] == 0x70),
    ensures
        imsz_outcome(with_count(d, k), 0) == Some(
            Ok::<ImInfo, ImError>(
                ImInfo {
                    width: crate::ico::ico_best(d, k as nat).0 as u64,
                    height: crate::ico::ico_best(d, k as nat).1 as u64,
                    format: ImFormat::ICO,
                },
            ),
        ),
{
    let dk = with_count(d, k);
    assert(dk[4] + 256 * dk[5] == k);
    detected_as_ico(dk);
    preamble_starts_with(dk, 6);
    let p = preamble(dk, 0);
    assert(crate::ico::ico_count(p) == k);
    assert(imsz_outcome(dk, 0) == Some(crate::ico::ico_result(dk, p)));
    entries_decide(dk, d, k as nat);
}

/// How the reading of an ICO directory proceeds, as two readings relate: a
/// directory announcing no image gives 0 x 0, and announcing one more image,
/// the entry at `k`, gives that entry's size when it is at least as wide and
/// at least as high as what the first `k` entries give, else the same size.
/// (Bytes 6 and 7 are not `yp`, so that no count makes bytes 4 to 7 `ftyp`.)
#[verifier::rlimit(40)]
pub proof fn ico_one_more_entry(d: Seq<u8>, k: int)
    requires
        0 <= k < 65535,
        d.len() >= 8 && d.len() >= 6 + 16 * (k + 1),
        d[0] == 0 && d[1] == 0 && d[2] == 1 && d[3] == 0,
        !(d[6] == 0x79 && d[7] == 0x70),
    ensures
        imsz_outcome(with_count(d, 0), 0) == Some(
            Ok::<ImInfo, ImError>(ImInfo { width: 0, height: 0, format: ImFormat::ICO }),
        ),
        imsz_outcome(with_count(d, k), 0) matches Some(Ok(before)) && before.format == ImFormat::ICO
            && imsz_outcome(with_count(d, k + 1), 0) == Some(
            Ok::<ImInfo, ImError>(
                if d[6 + 16 * k] >= before.width && d[7 + 16 * k] >= before.height {
                    ImInfo {
                        width: d[6 + 16 * k] as u64,
                        height: d[7 + 16 * k] as u64,
                        format: ImFormat::ICO,
                    }
                } else {
                    before
                },
            ),
        ),
{
    ico_with_count(d, 0);
    ico_with_count(d, k);
    ico_with_count(d, k + 1);
    let b = crate::ico::ico_best(d, k as nat);
    let e = (d[6 + 16 * k], d[7 + 16 * k]);
    assert(crate::ico::ico_best(d, (k + 1) as nat) == if e.0 >= b.0 && e.1 >= b.1 {
        e
    } else {
        b
    }) by {
        assert(crate::ico::ico_entry(d, k) == e);
    }
}

/// The DDS flags test (`& 0x1007` on the little-endian 32-bit value at 8)
/// looks at the low three bits of byte 8 and bit 4 of byte 9.
proof fn dds_flags(p: Seq<u8>)
    requires
        p.len() == 30,
    ensures
        (u32_at(Endian::Little, p, 8) & 0x1007 != 0) == (p[8] % 8 != 0 || (p[9] / 16) % 2 != 0),
{
    let v = u32_at(Endian::Little, p, 8);
    let b0 = p[8];
    let b1 = p[9];
    let b2 = p[10];
    let b3 = p[11];
    assert(v == b0 as u32 + 256 * (b1 as u32) + 65536 * (b2 as u32) + 16777216 * (b3 as u32));
    assert((v & 0x1007 != 0) == (b0 % 8 != 0 || (b1 / 16) % 2 != 0)) by (bit_vector)
        requires
            v == b0 as u32 + 256 * (b1 as u32) + 65536 * (b2 as u32) + 16777216 * (b3 as u32),
    ;
}

proof fn bytes_gif87a_at_0(p: Seq<u8>)
    requires
        p.len() == 30,
    ensures
        has_at(p, 0, sig_gif87a()) == (p[0] == 0x47 && p[1] == 0x49 && p[2] == 0x46 && p[3] == 0x38 && p[4] == 0x37 && p[5] == 0x61),
{
    if p[0] != 0x47 {
        not_at(p, 0, sig_gif87a(), 0);
    }     else if p[1] != 0x49 {
        not_at(p, 0, sig_gif87a(), 1);
    }     else if p[2] != 0x46 {
        not_at(p, 0, sig_gif87a(), 2);
    }     else if p[3] != 0x38 {
        not_at(p, 0, sig_gif87a(), 3);
    }     else if p[4] != 0x37 {
        not_at(p, 0, sig_gif87a(), 4);
    }     else if p[5] != 0x61 {
        not_at(p, 0, sig_gif87a(), 5);
    } else {
        is_at(p, 0, sig_gif87a());
    }
}

proof fn bytes_gif89a_at_0(p: Seq<u8>)
    requires
        p.len() == 30,
    ensures
        has_at(p, 0, sig_gif89a()) == (p[0] == 0x47 && p[1] == 0x49 && p[2] == 0x46 && p[3] == 0x38 && p[4] == 0x39 && p[5] == 0x61),
{
    if p[0] != 0x47 {
        not_at(p, 0, sig_gif89a(), 0);
    }     else if p[1] != 0x49 {
        not_at(p, 0, sig_gif89a(), 1);
    }     else if p[2] != 0x46 {
        not_at(p, 0, sig_gif89a(), 2);
    }     else if p[3] != 0x38 {
        not_at(p, 0, sig_gif89a(), 3);
    }     else if p[4] != 0x39 {
        not_at(p, 0, sig_gif89a(), 4);
    }     else if p[5] != 0x61 {
        not_at(p, 0, sig_gif89a(), 5);
    } else {
        is_at(p, 0, sig_gif89a());
    }
}

proof fn bytes_png_at_0(p: Seq<u8>)
    requires
        p.len() == 30,
    ensures
        has_at(p, 0, sig_png()) == (p[0] == 0x89 && p[1] == 0x50 && p[2] == 0x4e && p[3] == 0x47 && p[4] == 0x0d && p[5] == 0x0a && p[6] == 0x1a && p[7] == 0x0a),
{
    if p[0] != 0x89 {
        not_at(p, 0, sig_png(), 0);
    }     else if p[1] != 0x50 {
        not_at(p, 0, sig_png(), 1);
    }     else if p[2] != 0x4e {
        not_at(p, 0, sig_png(), 2);
    }     else if p[3] != 0x47 {
        not_at(p, 0, sig_png(), 3);
    }     else if p[4] != 0x0d {
        not_at(p, 0, sig_png(), 4);
    }     else if p[5] != 0x0a {
        not_at(p, 0, sig_png(), 5);
    }     else if p[6] != 0x1a {
        not_at(p, 0, sig_png(), 6);
    }     else if p[7] != 0x0a {
        not_at(p, 0, sig_png(), 7);
    } else {
        is_at(p, 0, sig_png());
    }
}

proof fn bytes_bm_at_0(p: Seq<u8>)
    requires
        p.len() == 30,
    ensures
        has_at(p, 0, sig_bm()) == (p[0] == 0x42 && p[1] == 0x4d),
{
    if p[0] != 0x42 {
        not_at(p, 0, sig_bm(), 0);
    }     else if p[1] != 0x4d {
        not_at(p, 0, sig_bm(), 1);
    } else {
        is_at(p, 0, sig_bm());
    }
}

proof fn bytes_zeros4_at_6(p: Seq<u8>)
    requires
        p.len() == 30,
    ensures
        has_at(p, 6, zeros4()) == (p[6] == 0x00 && p[7] == 0x00 && p[8] == 0x00 && p[9] == 0x00),
{
    if p[6] != 0x00 {
        not_at(p, 6, zeros4(), 0);
    }     else if p[7] != 0x00 {
        not_at(p, 6, zeros4(), 1);
    }     else if p[8] != 0x00 {
        not_at(p, 6, zeros4(), 2);
    }     else if p[9] != 0x00 {
        not_at(p, 6, zeros4(), 3);
    } else {
        is_at(p, 6, zeros4());
    }
}

proof fn bytes_riff_at_0(p: Seq<u8>)
    requires
        p.len() == 30,
    ensures
        has_at(p, 0, sig_riff()) == (p[0] == 0x52 && p[1] == 0x49 && p[2] == 0x46 && p[3] == 0x46),
{
    if p[0] != 0x52 {
        not_at(p, 0, sig_riff(), 0);
    }     else if p[1] != 0x49 {
        not_at(p, 0, sig_riff(), 1);
    }     else if p[2] != 0x46 {
        not_at(p, 0, sig_riff(), 2);
    }     else if p[3] != 0x46 {
        not_at(p, 0, sig_riff(), 3);
    } else {
        is_at(p, 0, sig_riff());
    }
}

proof fn bytes_webp_at_8(p: Seq<u8>)
    requires
        p.len() == 30,
    ensures
        has_at(p, 8, sig_webp()) == (p[8] == 0x57 && p[9] == 0x45 && p[10] == 0x42 && p[11] == 0x50),
{
    if p[8] != 0x57 {
        not_at(p, 8, sig_webp(), 0);
    }     else if p[9] != 0x45 {
        not_at(p, 8, sig_webp(), 1);
    }     else if p[10] != 0x42 {
        not_at(p, 8, sig_webp(), 2);
    }     else if p[11] != 0x50 {
        not_at(p, 8, sig_webp(), 3);
    } else {
        is_at(p, 8, sig_webp());
    }
}

proof fn bytes_ftyp_avif_at_4(p: Seq<u8>)
    requires
        p.len() == 30,
    ensures
        has_at(p, 4, sig_ftyp_avif()) == (p[4] == 0x66 && p[5] == 0x74 && p[6] == 0x79 && p[7] == 0x70 && p[8] == 0x61 && p[9] == 0x76 && p[10] == 0x69 && p[11] == 0x66),
{
    if p[4] != 0x66 {
        not_at(p, 4, sig_ftyp_avif(), 0);
    }     else if p[5] != 0x74 {
        not_at(p, 4, sig_ftyp_avif(), 1);
    }     else if p[6] != 0x79 {
        not_at(p, 4, sig_ftyp_avif(), 2);
    }     else if p[7] != 0x70 {
        not_at(p, 4, sig_ftyp_avif(), 3);
    }     else if p[8] != 0x61 {
        not_at(p, 4, sig_ftyp_avif(), 4);
    }     else if p[9] != 0x76 {
        not_at(p, 4, sig_ftyp_avif(), 5);
    }     else if p[10] != 0x69 {
        not_at(p, 4, sig_ftyp_avif(), 6);
    }     else if p[11] != 0x66 {
        not_at(p, 4, sig_ftyp_avif(), 7);
    } else {
        is_at(p, 4, sig_ftyp_avif());
    }
}

proof fn bytes_ftyp_heic_at_4(p: Seq<u8>)
    requires
        p.len() == 30,
    ensures
        has_at(p, 4, sig_ftyp_heic()) == (p[4] == 0x66 && p[5] == 0x74 && p[6] == 0x79 && p[7] == 0x70 && p[8] == 0x68 && p[9] == 0x65 && p[10] == 0x69 && p[11] == 0x63),
{
    if p[4] != 0x66 {
        not_at(p, 4, sig_ftyp_heic(), 0);
    }     else if p[5] != 0x74 {
        not_at(p, 4, sig_ftyp_heic(), 1);
    }     else if p[6] != 0x79 {
        not_at(p, 4, sig_ftyp_heic(), 2);
    }     else if p[7] != 0x70 {
        not_at(p, 4, sig_ftyp_heic(), 3);
    }     else if p[8] != 0x68 {
        not_at(p, 4, sig_ftyp_heic(), 4);
    }     else if p[9] != 0x65 {
        not_at(p, 4, sig_ftyp_heic(), 5);
    }     else if p[10] != 0x69 {
        not_at(p, 4, sig_ftyp_heic(), 6);
    }     else if p[11] != 0x63 {
        not_at(p, 4, sig_ftyp_heic(), 7);
    } else {
        is_at(p, 4, sig_ftyp_heic());
    }
}

proof fn bytes_avif_at_8(p: Seq<u8>)
    requires
        p.len() == 30,
    ensures
        has_at(p, 8, sig_avif()) == (p[8] == 0x61 && p[9] == 0x76 && p[10] == 0x69 && p[11] == 0x66),
{
    if p[8] != 0x61 {
        not_at(p, 8, sig_avif(), 0);
    }     else if p[9] != 0x76 {
        not_at(p, 8, sig_avif(), 1);
    }     else if p[10] != 0x69 {
        not_at(p, 8, sig_avif(), 2);
    }     else if p[11] != 0x66 {
        not_at(p, 8, sig_avif(), 3);
    } else {
        is_at(p, 8, sig_avif());
    }
}

proof fn bytes_jp2_at_0(p: Seq<u8>)
    requires
        p.len() == 30,
    ensures
        has_at(p, 0, sig_jp2()) == (p[0] == 0x00 && p[1] == 0x00 && p[2] == 0x00 && p[3] == 0x0c && p[4] == 0x6a && p[5] == 0x50 && p[6] == 0x20 && p[7] == 0x20),
{
    if p[0] != 0x00 {
        not_at(p, 0, sig_jp2(), 0);
    }     else if p[1] != 0x00 {
        not_at(p, 0, sig_jp2(), 1);
    }     else if p[2] != 0x00 {
        not_at(p, 0, sig_jp2(), 2);
    }     else if p[3] != 0x0c {
        not_at(p, 0, sig_jp2(), 3);
    }     else if p[4] != 0x6a {
        not_at(p, 0, sig_jp2(), 4);
    }     else if p[5] != 0x50 {
        not_at(p, 0, sig_jp2(), 5);
    }     else if p[6] != 0x20 {
        not_at(p, 0, sig_jp2(), 6);
    }     else if p[7] != 0x20 {
        not_at(p, 0, sig_jp2(), 7);
    } else {
        is_at(p, 0, sig_jp2());
    }
}

proof fn bytes_ftyp_jp2_at_16(p: Seq<u8>)
    requires
        p.len() == 30,
    ensures
        has_at(p, 16, sig_ftyp_jp2()) == (p[16] == 0x66 && p[17] == 0x74 && p[18] == 0x79 && p[19] == 0x70 && p[20] == 0x6a && p[21] == 0x70 && p[22] == 0x32 && p[23] == 0x20),
{
    if p[16] != 0x66 {
        not_at(p, 16, sig_ftyp_jp2(), 0);
    }     else if p[17] != 0x74 {
        not_at(p, 16, sig_ftyp_jp2(), 1);
    }     else if p[18] != 0x79 {
        not_at(p, 16, sig_ftyp_jp2(), 2);
    }     else if p[19] != 0x70 {
        not_at(p, 16, sig_ftyp_jp2(), 3);
    }     else if p[20] != 0x6a {
        not_at(p, 16, sig_ftyp_jp2(), 4);
    }     else if p[21] != 0x70 {
        not_at(p, 16, sig_ftyp_jp2(), 5);
    }     else if p[22] != 0x32 {
        not_at(p, 16, sig_ftyp_jp2(), 6);
    }     else if p[23] != 0x20 {
        not_at(p, 16, sig_ftyp_jp2(), 7);
    } else {
        is_at(p, 16, sig_ftyp_jp2());
    }
}

proof fn bytes_tiff_le_at_0(p: Seq<u8>)
    requires
        p.len() == 30,
    ensures
        has_at(p, 0, sig_tiff_le()) == (p[0] == 0x49 && p[1] == 0x49 && p[2] == 0x2a && p[3] == 0x00),
{
    if p[0] != 0x49 {
        not_at(p, 0, sig_tiff_le(), 0);
    }     else if p[1] != 0x49 {
        not_at(p, 0, sig_tiff_le(), 1);
    }     else if p[2] != 0x2a {
        not_at(p, 0, sig_tiff_le(), 2);
    }     else if p[3] != 0x00 {
        not_at(p, 0, sig_tiff_le(), 3);
    } else {
        is_at(p, 0, sig_tiff_le());
    }
}

proof fn bytes_tiff_be_at_0(p: Seq<u8>)
    requires
        p.len() == 30,
    ensures
        has_at(p, 0, sig_tiff_be()) == (p[0] == 0x4d && p[1] == 0x4d && p[2] == 0x00 && p[3] == 0x2a),
{
    if p[0] != 0x4d {
        not_at(p, 0, sig_tiff_be(), 0);
    }     else if p[1] != 0x4d {
        not_at(p, 0, sig_tiff_be(), 1);
    }     else if p[2] != 0x00 {
        not_at(p, 0, sig_tiff_be(), 2);
    }     else if p[3] != 0x2a {
        not_at(p, 0, sig_tiff_be(), 3);
    } else {
        is_at(p, 0, sig_tiff_be());
    }
}

proof fn bytes_qoi_at_0(p: Seq<u8>)
    requires
        p.len() == 30,
    ensures
        has_at(p, 0, sig_qoi()) == (p[0] == 0x71 && p[1] == 0x6f && p[2] == 0x69 && p[3] == 0x66),
{
    if p[0] != 0x71 {
        not_at(p, 0, sig_qoi(), 0);
    }     else if p[1] != 0x6f {
        not_at(p, 0, sig_qoi(), 1);
    }     else if p[2] != 0x69 {
        not_at(p, 0, sig_qoi(), 2);
    }     else if p[3] != 0x66 {
        not_at(p, 0, sig_qoi(), 3);
    } else {
        is_at(p, 0, sig_qoi());
    }
}

proof fn bytes_psd_at_0(p: Seq<u8>)
    requires
        p.len() == 30,
    ensures
        has_at(p, 0, sig_psd()) == (p[0] == 0x38 && p[1] == 0x42 && p[2] == 0x50 && p[3] == 0x53 && p[4] == 0x00 && p[5] == 0x01 && p[6] == 0x00 && p[7] == 0x00 && p[8] == 0x00 && p[9] == 0x00 && p[10] == 0x00 && p[11] == 0x00),
{
    if p[0] != 0x38 {
        not_at(p, 0, sig_psd(), 0);
    }     else if p[1] != 0x42 {
        not_at(p, 0, sig_psd(), 1);
    }     else if p[2] != 0x50 {
        not_at(p, 0, sig_psd(), 2);
    }     else if p[3] != 0x53 {
        not_at(p, 0, sig_psd(), 3);
    }     else if p[4] != 0x00 {
        not_at(p, 0, sig_psd(), 4);
    }     else if p[5] != 0x01 {
        not_at(p, 0, sig_psd(), 5);
    }     else if p[6] != 0x00 {
        not_at(p, 0, sig_psd(), 6);
    }     else if p[7] != 0x00 {
        not_at(p, 0, sig_psd(), 7);
    }     else if p[8] != 0x00 {
        not_at(p, 0, sig_psd(), 8);
    }     else if p[9] != 0x00 {
        not_at(p, 0, sig_psd(), 9);
    }     else if p[10] != 0x00 {
        not_at(p, 0, sig_psd(), 10);
    }     else if p[11] != 0x00 {
        not_at(p, 0, sig_psd(), 11);
    } else {
        is_at(p, 0, sig_psd());
    }
}

proof fn bytes_psb_at_0(p: Seq<u8>)
    requires
        p.len() == 30,
    ensures
        has_at(p, 0, sig_psb()) == (p[0] == 0x38 && p[1] == 0x42 && p[2] == 0x50 && p[3] == 0x53 && p[4] == 0x00 && p[5] == 0x02 && p[6] == 0x00 && p[7] == 0x00 && p[8] == 0x00 && p[9] == 0x00 && p[10] == 0x00 && p[11] == 0x00),
{
    if p[0] != 0x38 {
        not_at(p, 0, sig_psb(), 0);
    }     else if p[1] != 0x42 {
        not_at(p, 0, sig_psb(), 1);
    }     else if p[2] != 0x50 {
        not_at(p, 0, sig_psb(), 2);
    }     else if p[3] != 0x53 {
        not_at(p, 0, sig_psb(), 3);
    }     else if p[4] != 0x00 {
        not_at(p, 0, sig_psb(), 4);
    }     else if p[5] != 0x02 {
        not_at(p, 0, sig_psb(), 5);
    }     else if p[6] != 0x00 {
        not_at(p, 0, sig_psb(), 6);
    }     else if p[7] != 0x00 {
        not_at(p, 0, sig_psb(), 7);
    }     else if p[8] != 0x00 {
        not_at(p, 0, sig_psb(), 8);
    }     else if p[9] != 0x00 {
        not_at(p, 0, sig_psb(), 9);
    }     else if p[10] != 0x00 {
        not_at(p, 0, sig_psb(), 10);
    }     else if p[11] != 0x00 {
        not_at(p, 0, sig_psb(), 11);
    } else {
        is_at(p, 0, sig_psb());
    }
}

proof fn bytes_xcf_at_0(p: Seq<u8>)
    requires
        p.len() == 30,
    ensures
        has_at(p, 0, sig_xcf()) == (p[0] == 0x67 && p[1] == 0x69 && p[2] == 0x6d && p[3] == 0x70 && p[4] == 0x20 && p[5] == 0x78 && p[6] == 0x63 && p[7] == 0x66 && p[8] == 0x20),
{
    if p[0] != 0x67 {
        not_at(p, 0, sig_xcf(), 0);
    }     else if p[1] != 0x69 {
        not_at(p, 0, sig_xcf(), 1);
    }     else if p[2] != 0x6d {
        not_at(p, 0, sig_xcf(), 2);
    }     else if p[3] != 0x70 {
        not_at(p, 0, sig_xcf(), 3);
    }     else if p[4] != 0x20 {
        not_at(p, 0, sig_xcf(), 4);
    }     else if p[5] != 0x78 {
        not_at(p, 0, sig_xcf(), 5);
    }     else if p[6] != 0x63 {
        not_at(p, 0, sig_xcf(), 6);
    }     else if p[7] != 0x66 {
        not_at(p, 0, sig_xcf(), 7);
    }     else if p[8] != 0x20 {
        not_at(p, 0, sig_xcf(), 8);
    } else {
        is_at(p, 0, sig_xcf());
    }
}

proof fn bytes_ico_at_0(p: Seq<u8>)
    requires
        p.len() == 30,
    ensures
        has_at(p, 0, sig_ico()) == (p[0] == 0x00 && p[1] == 0x00 && p[2] == 0x01 && p[3] == 0x00),
{
    if p[0] != 0x00 {
        not_at(p, 0, sig_ico(), 0);
    }     else if p[1] != 0x00 {
        not_at(p, 0, sig_ico(), 1);
    }     else if p[2] != 0x01 {
        not_at(p, 0, sig_ico(), 2);
    }     else if p[3] != 0x00 {
        not_at(p, 0, sig_ico(), 3);
    } else {
        is_at(p, 0, sig_ico());
    }
}

proof fn bytes_exr_at_0(p: Seq<u8>)
    requires
        p.len() == 30,
    ensures
        has_at(p, 0, sig_exr()) == (p[0] == 0x76 && p[1] == 0x2f && p[2] == 0x31 && p[3] == 0x01),
{
    if p[0] != 0x76 {
        not_at(p, 0, sig_exr(), 0);
    }     else if p[1] != 0x2f {
        not_at(p, 0, sig_exr(), 1);
    }     else if p[2] != 0x31 {
        not_at(p, 0, sig_exr(), 2);
    }     else if p[3] != 0x01 {
        not_at(p, 0, sig_exr(), 3);
    } else {
        is_at(p, 0, sig_exr());
    }
}

proof fn bytes_dds_at_0(p: Seq<u8>)
    requires
        p.len() == 30,
    ensures
        has_at(p, 0, sig_dds()) == (p[0] == 0x44 && p[1] == 0x44 && p[2] == 0x53 && p[3] == 0x20 && p[4] == 0x7c && p[5] == 0x00 && p[6] == 0x00 && p[7] == 0x00),
{
    if p[0] != 0x44 {
        not_at(p, 0, sig_dds(), 0);
    }     else if p[1] != 0x44 {
        not_at(p, 0, sig_dds(), 1);
    }     else if p[2] != 0x53 {
        not_at(p, 0, sig_dds(), 2);
    }     else if p[3] != 0x20 {
        not_at(p, 0, sig_dds(), 3);
    }     else if p[4] != 0x7c {
        not_at(p, 0, sig_dds(), 4);
    }     else if p[5] != 0x00 {
        not_at(p, 0, sig_dds(), 5);
    }     else if p[6] != 0x00 {
        not_at(p, 0, sig_dds(), 6);
    }     else if p[7] != 0x00 {
        not_at(p, 0, sig_dds(), 7);
    } else {
        is_at(p, 0, sig_dds());
    }
}

proof fn bytes_dib_at_0(p: Seq<u8>)
    requires
        p.len() == 30,
    ensures
        has_at(p, 0, sig_dib()) == (p[0] == 0x28 && p[1] == 0x00 && p[2] == 0x00 && p[3] == 0x00),
{
    if p[0] != 0x28 {
        not_at(p, 0, sig_dib(), 0);
    }     else if p[1] != 0x00 {
        not_at(p, 0, sig_dib(), 1);
    }     else if p[2] != 0x00 {
        not_at(p, 0, sig_dib(), 2);
    }     else if p[3] != 0x00 {
        not_at(p, 0, sig_dib(), 3);
    } else {
        is_at(p, 0, sig_dib());
    }
}

proof fn bytes_vtf_at_0(p: Seq<u8>)
    requires
        p.len() == 30,
    ensures
        has_at(p, 0, sig_vtf()) == (p[0] == 0x56 && p[1] == 0x54 && p[2] == 0x46 && p[3] == 0x00),
{
    if p[0] != 0x56 {
        not_at(p, 0, sig_vtf(), 0);
    }     else if p[1] != 0x54 {
        not_at(p, 0, sig_vtf(), 1);
    }     else if p[2] != 0x46 {
        not_at(p, 0, sig_vtf(), 2);
    }     else if p[3] != 0x00 {
        not_at(p, 0, sig_vtf(), 3);
    } else {
        is_at(p, 0, sig_vtf());
    }
}

proof fn bytes_form_at_0(p: Seq<u8>)
    requires
        p.len() == 30,
    ensures
        has_at(p, 0, sig_form()) == (p[0] == 0x46 && p[1] == 0x4f && p[2] == 0x52 && p[3] == 0x4d),
{
    if p[0] != 0x46 {
        not_at(p, 0, sig_form(), 0);
    }     else if p[1] != 0x4f {
        not_at(p, 0, sig_form(), 1);
    }     else if p[2] != 0x52 {
        not_at(p, 0, sig_form(), 2);
    }     else if p[3] != 0x4d {
        not_at(p, 0, sig_form(), 3);
    } else {
        is_at(p, 0, sig_form());
    }
}

proof fn bytes_ilbm_at_8(p: Seq<u8>)
    requires
        p.len() == 30,
    ensures
        has_at(p, 8, sig_ilbm()) == (p[8] == 0x49 && p[9] == 0x4c && p[10] == 0x42 && p[11] == 0x4d),
{
    if p[8] != 0x49 {
        not_at(p, 8, sig_ilbm(), 0);
    }     else if p[9] != 0x4c {
        not_at(p, 8, sig_ilbm(), 1);
    }     else if p[10] != 0x42 {
        not_at(p, 8, sig_ilbm(), 2);
    }     else if p[11] != 0x4d {
        not_at(p, 8, sig_ilbm(), 3);
    } else {
        is_at(p, 8, sig_ilbm());
    }
}

proof fn bytes_pbm_at_8(p: Seq<u8>)
    requires
        p.len() == 30,
    ensures
        has_at(p, 8, sig_pbm()) == (p[8] == 0x50 && p[9] == 0x42 && p[10] == 0x4d && p[11] == 0x20),
{
    if p[8] != 0x50 {
        not_at(p, 8, sig_pbm(), 0);
    }     else if p[9] != 0x42 {
        not_at(p, 8, sig_pbm(), 1);
    }     else if p[10] != 0x4d {
        not_at(p, 8, sig_pbm(), 2);
    }     else if p[11] != 0x20 {
        not_at(p, 8, sig_pbm(), 3);
    } else {
        is_at(p, 8, sig_pbm());
    }
}

proof fn bytes_bmhd_at_12(p: Seq<u8>)
    requires
        p.len() == 30,
    ensures
        has_at(p, 12, sig_bmhd()) == (p[12] == 0x42 && p[13] == 0x4d && p[14] == 0x48 && p[15] == 0x44),
{
    if p[12] != 0x42 {
        not_at(p, 12, sig_bmhd(), 0);
    }     else if p[13] != 0x4d {
        not_at(p, 12, sig_bmhd(), 1);
    }     else if p[14] != 0x48 {
        not_at(p, 12, sig_bmhd(), 2);
    }     else if p[15] != 0x44 {
        not_at(p, 12, sig_bmhd(), 3);
    } else {
        is_at(p, 12, sig_bmhd());
    }
}

/// The format a stream is recognised as, written out over its first 30
/// bytes (`q`, zero past the end of the stream; `n` of them read) with the
/// literal signatures, in the order they are tried; TGA also needs the stream
/// to end in `TRUEVISION-XFILE.` and a zero byte.
pub open spec fn recognised(d: Seq<u8>) -> Option<ImFormat> {
    let q = preamble(d, 0);
    let n = pre_len(d, 0);
    if n >= 6 && ((q[0] == 0x47 && q[1] == 0x49 && q[2] == 0x46 && q[3] == 0x38 && q[4] == 0x37 && q[5] == 0x61) || (q[0] == 0x47 && q[1] == 0x49 && q[2] == 0x46 && q[3] == 0x38 && q[4] == 0x39 && q[5] == 0x61)) {
        Some(ImFormat::GIF)
    } else if n >= 8 && (q[0] == 0x89 && q[1] == 0x50 && q[2] == 0x4e && q[3] == 0x47 && q[4] == 0x0d && q[5] == 0x0a && q[6] == 0x1a && q[7] == 0x0a) {
        Some(ImFormat::PNG)
    } else if n >= 10 && (q[0] == 0x42 && q[1] == 0x4d) && (q[6] == 0x00 && q[7] == 0x00 && q[8] == 0x00 && q[9] == 0x00) {
        Some(ImFormat::BMP)
    } else if n >= 3 && q[0] == 0xff && q[1] == 0xd8 {
        Some(ImFormat::JPEG)
    } else if n >= 30 && (q[0] == 0x52 && q[1] == 0x49 && q[2] == 0x46 && q[3] == 0x46) && (q[8] == 0x57 && q[9] == 0x45 && q[10] == 0x42 && q[11] == 0x50) {
        Some(ImFormat::WEBP)
    } else if n >= 12 && ((q[4] == 0x66 && q[5] == 0x74 && q[6] == 0x79 && q[7] == 0x70 && q[8] == 0x61 && q[9] == 0x76 && q[10] == 0x69 && q[11] == 0x66) || (q[4] == 0x66 && q[5] == 0x74 && q[6] == 0x79 && q[7] == 0x70 && q[8] == 0x68 && q[9] == 0x65 && q[10] == 0x69 && q[11] == 0x63)) {
        if (q[8] == 0x61 && q[9] == 0x76 && q[10] == 0x69 && q[11] == 0x66) {
            Some(ImFormat::AVIF)
        } else {
            Some(ImFormat::HEIF)
        }
    } else if n >= 24 && (q[0] == 0x00 && q[1] == 0x00 && q[2] == 0x00 && q[3] == 0x0c && q[4] == 0x6a && q[5] == 0x50 && q[6] == 0x20 && q[7] == 0x20) && (q[16] == 0x66 && q[17] == 0x74 && q[18] == 0x79 && q[19] == 0x70 && q[20] == 0x6a && q[21] == 0x70 && q[22] == 0x32 && q[23] == 0x20) {
        Some(ImFormat::JP2K)
    } else if n >= 8 && ((q[0] == 0x49 && q[1] == 0x49 && q[2] == 0x2a && q[3] == 0x00) || (q[0] == 0x4d && q[1] == 0x4d && q[2] == 0x00 && q[3] == 0x2a)) {
        Some(ImFormat::TIFF)
    } else if n >= 14 && (q[0] == 0x71 && q[1] == 0x6f && q[2] == 0x69 && q[3] == 0x66) {
        Some(ImFormat::QOI)
    } else if n >= 22 && (q[0] == 0x38 && q[1] == 0x42 && q[2] == 0x50 && q[3] == 0x53 && q[4] == 0x00 && q[5] == 0x01 && q[6] == 0x00 && q[7] == 0x00 && q[8] == 0x00 && q[9] == 0x00 && q[10] == 0x00 && q[11] == 0x00) {
        Some(ImFormat::PSD)
    } else if n >= 22 && (q[0] == 0x38 && q[1] == 0x42 && q[2] == 0x50 && q[3] == 0x53 && q[4] == 0x00 && q[5] == 0x02 && q[6] == 0x00 && q[7] == 0x00 && q[8] == 0x00 && q[9] == 0x00 && q[10] == 0x00 && q[11] == 0x00) {
        Some(ImFormat::PSB)
    } else if n >= 22 && (q[0] == 0x67 && q[1] == 0x69 && q[2] == 0x6d && q[3] == 0x70 && q[4] == 0x20 && q[5] == 0x78 && q[6] == 0x63 && q[7] == 0x66 && q[8] == 0x20) && q[13] == 0 {
        Some(ImFormat::XCF)
    } else if n >= 6 && (q[0] == 0x00 && q[1] == 0x00 && q[2] == 0x01 && q[3] == 0x00) {
        Some(ImFormat::ICO)
    } else if n > 8 && (q[0] == 0x76 && q[1] == 0x2f && q[2] == 0x31 && q[3] == 0x01) && (q[4] == 1 || q[4] == 2) {
        Some(ImFormat::OpenEXR)
    } else if n >= 30 && q[0] == 0x0a && q[1] < 6 && (q[3] == 1 || q[3] == 2 || q[3] == 4 || q[3] == 8) {
        Some(ImFormat::PCX)
    } else if n >= 30 && (q[0] == 0x44 && q[1] == 0x44 && q[2] == 0x53 && q[3] == 0x20 && q[4] == 0x7c && q[5] == 0x00 && q[6] == 0x00 && q[7] == 0x00) && (q[8] % 8 != 0 || (q[9] / 16) % 2 != 0) {
        Some(ImFormat::DDS)
    } else if n >= 14 && (q[0] == 0x28 && q[1] == 0x00 && q[2] == 0x00 && q[3] == 0x00) && q[12] == 1 && q[13] == 0 && q[15] == 0 {
        Some(ImFormat::DIB)
    } else if n >= 20 && (q[0] == 0x56 && q[1] == 0x54 && q[2] == 0x46 && q[3] == 0x00) {
        Some(ImFormat::VTF)
    } else if n >= 24 && (q[0] == 0x46 && q[1] == 0x4f && q[2] == 0x52 && q[3] == 0x4d) && ((q[8] == 0x49 && q[9] == 0x4c && q[10] == 0x42 && q[11] == 0x4d) || (q[8] == 0x50 && q[9] == 0x42 && q[10] == 0x4d && q[11] == 0x20)) && (q[12] == 0x42 && q[13] == 0x4d && q[14] == 0x48 && q[15] == 0x44) {
        Some(ImFormat::ILBM)
    } else if n >= 30 && q[1] < 2 && q[2] < 12 && d.len() >= 18 && d.subrange(d.len() - 18, d.len() as int) == seq![0x54u8, 0x52, 0x55, 0x45, 0x56, 0x49, 0x53, 0x49, 0x4f, 0x4e, 0x2d, 0x58, 0x46, 0x49, 0x4c, 0x45, 0x2e, 0x00] {
        Some(ImFormat::TGA)
    } else {
        None
    }
}

/// The signatures are fixed: a stream is recognised as a format exactly when
/// its bytes carry that format's literal signature, and no signature tried
/// before it matches (see [`recognised`]).
pub proof fn signatures_are_recognised(d: Seq<u8>)
    ensures
        detect(d, preamble(d, 0), pre_len(d, 0)) == recognised(d),
{
    let p = preamble(d, 0);
    bytes_gif87a_at_0(p);
    bytes_gif89a_at_0(p);
    bytes_png_at_0(p);
    bytes_bm_at_0(p);
    bytes_zeros4_at_6(p);
    bytes_riff_at_0(p);
    bytes_webp_at_8(p);
    bytes_ftyp_avif_at_4(p);
    bytes_ftyp_heic_at_4(p);
    bytes_avif_at_8(p);
    bytes_jp2_at_0(p);
    bytes_ftyp_jp2_at_16(p);
    bytes_tiff_le_at_0(p);
    bytes_tiff_be_at_0(p);
    bytes_qoi_at_0(p);
    bytes_psd_at_0(p);
    bytes_psb_at_0(p);
    bytes_xcf_at_0(p);
    bytes_ico_at_0(p);
    bytes_exr_at_0(p);
    bytes_dds_at_0(p);
    bytes_dib_at_0(p);
    bytes_vtf_at_0(p);
    bytes_form_at_0(p);
    bytes_ilbm_at_8(p);
    bytes_pbm_at_8(p);
    bytes_bmhd_at_12(p);
    dds_flags(p);
    assert(crate::detect::has_tga_footer(d) == (d.len() >= 18 && d.subrange(d.len() - 18, d.len() as int) == crate::detect::tga_footer()));
    reveal(detect);
}

} // verus!
