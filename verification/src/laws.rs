//! Properties of the library as a whole.
use crate::api::{imsz_completes, imsz_spec};
use crate::bytes::{can_read, i16_of, i32_of, u16_at, u32_at, Endian};
use crate::boxes::{find_box, heif_result, name_iprp, name_ipco, name_ispe, name_meta};
use crate::bytes::has_at;
use crate::detect::{
    detect, has_tga_footer, imsz_outcome, pre_len, preamble, sig_avif, sig_ftyp_avif, sig_ftyp_heic,
    sig_gif87a, sig_gif89a, sig_png, sig_webp, zeros4,
};
use crate::exr::{exr_result, exr_scan, lemma_next_zero, next_zero};
use crate::header::pcx_result;
use crate::format::{format_code, format_name, ImError, ImFormat, ImInfo, ImResult};
use crate::ico::{ico_best, ico_count, ico_entry, ico_result};
use crate::jpeg::{jpeg_scan, lemma_next_ff, lemma_next_non_ff, next_ff, next_non_ff};
use crate::tiff::{field_value, tiff_endian, tiff_scan, FieldValue};
use vstd::prelude::*;

verus! {

/// Every format has its own code, between 1 and 21; so looking a format's
/// code up gives the format back.
pub proof fn format_codes_are_distinct(f: ImFormat, g: ImFormat)
    ensures
        1 <= format_code(f) <= 21,
        format_code(f) == format_code(g) ==> f == g,
{
}

/// Each format has its own name: a non-empty text of printable ASCII
/// characters (so without NUL bytes), different from every other format's.
pub proof fn format_names_are_distinct(f: ImFormat, g: ImFormat)
    ensures
        f != g ==> format_name(f) != format_name(g),
        format_name(f).len() > 0,
        forall|i: int| 0 <= i < format_name(f).len() ==> ' ' <= #[trigger] format_name(f)[i] <= '~',
{
    reveal_strlit("GIF");
    reveal_strlit("PNG");
    reveal_strlit("BMP");
    reveal_strlit("JPEG");
    reveal_strlit("WebP");
    reveal_strlit("QOI");
    reveal_strlit("PSD");
    reveal_strlit("PSB");
    reveal_strlit("XCF");
    reveal_strlit("ICO");
    reveal_strlit("AVIF");
    reveal_strlit("TIFF");
    reveal_strlit("OpenEXR");
    reveal_strlit("PCX");
    reveal_strlit("TGA");
    reveal_strlit("DDS");
    reveal_strlit("HEIF");
    reveal_strlit("JPEG 2000");
    reveal_strlit("DIB");
    reveal_strlit("VTF");
    reveal_strlit("ILBM");
    let a = format_name(f);
    let b = format_name(g);
    assert(a.len() >= 3 && b.len() >= 3);
    if a == b {
        assert(a[0] == b[0] && a[1] == b[1] && a[2] == b[2]);
    }
}

/// The size kept after `k` ICO directory entries: an entry at least as wide
/// and at least as high as it is the same size; it is the size of one of the
/// entries, or zero when there are none; and it only grows.
pub proof fn ico_best_is_biggest(d: Seq<u8>, k: nat)
    ensures
        forall|i: int|
            0 <= i < k && #[trigger] ico_entry(d, i).0 >= ico_best(d, k).0 && ico_entry(d, i).1
                >= ico_best(d, k).1 ==> ico_entry(d, i) == ico_best(d, k),
        ico_best(d, k) == (0u8, 0u8) || exists|i: int|
            0 <= i < k && #[trigger] ico_entry(d, i) == ico_best(d, k),
        k > 0 ==> ico_best(d, k).0 >= ico_best(d, (k - 1) as nat).0 && ico_best(d, k).1
            >= ico_best(d, (k - 1) as nat).1,
    decreases k,
{
    if k > 0 {
        let k1 = (k - 1) as nat;
        ico_best_is_biggest(d, k1);
        assert forall|i: int|
            0 <= i < k && #[trigger] ico_entry(d, i).0 >= ico_best(d, k).0 && ico_entry(d, i).1
                >= ico_best(d, k).1 implies ico_entry(d, i) == ico_best(d, k) by {
            if i < k1 {
                assert(ico_entry(d, i).0 >= ico_best(d, k1).0 && ico_entry(d, i).1 >= ico_best(
                    d,
                    k1,
                ).1);
                assert(ico_entry(d, i) == ico_best(d, k1));
            }
        }
        if ico_best(d, k) != ico_best(d, k1) {
            assert(ico_entry(d, k1 as int) == ico_best(d, k));
        }
    }
}

/// An ICO file's reported size is that of its biggest image: an image in the
/// directory at least as wide and at least as high has exactly that size, and
/// the size is that of one of them (or zero for an empty directory).
pub proof fn ico_reports_biggest_image(data: Seq<u8>)
    requires
        imsz_completes(data),
        imsz_spec(data) is Ok,
        imsz_spec(data)->Ok_0.format == ImFormat::ICO,
    ensures
        ({
            let info = imsz_spec(data)->Ok_0;
            let count = ico_count(preamble(data, 0));
            &&& forall|i: int|
                0 <= i < count && #[trigger] ico_entry(data, i).0 >= info.width && ico_entry(
                    data,
                    i,
                ).1 >= info.height ==> ico_entry(data, i).0 == info.width && ico_entry(data, i).1
                    == info.height
            &&& (info.width == 0 && info.height == 0) || exists|i: int|
                0 <= i < count && #[trigger] ico_entry(data, i).0 == info.width && ico_entry(
                    data,
                    i,
                ).1 == info.height
        }),
{
    let p = preamble(data, 0);
    let count = ico_count(p);
    ico_best_is_biggest(data, count);
    outcome_follows_detection(data, 0);
    assert(detect(data, p, pre_len(data, 0)) == Some(ImFormat::ICO));
    assert(imsz_outcome(data, 0) == Some(ico_result(data, p)));
}

/// Whether an outcome is one of reading format `f`: a size reported as of
/// format `f`, a parser error for `f`, or a fault.
pub open spec fn outcome_of(r: Option<ImResult<ImInfo>>, f: ImFormat) -> bool {
    match r {
        None => true,
        Some(Ok(info)) => info.format == f,
        Some(Err(e)) => e == ImError::ParserError(f),
    }
}

proof fn jpeg_scan_is_jpeg(d: Seq<u8>, pos: int, b: u8)
    ensures
        outcome_of(jpeg_scan(d, pos, b), ImFormat::JPEG),
    decreases d.len() - pos,
{
    if !(b == 0xda || b == 0) {
        let after_ff = if b == 0xff {
            Some(pos)
        } else {
            match next_ff(d, pos) {
                Some(i) => Some(i + 1),
                None => None,
            }
        };
        if let Some(a) = after_ff {
            if let Some(m) = next_non_ff(d, a) {
                lemma_next_non_ff(d, a);
                if b != 0xff {
                    lemma_next_ff(d, pos);
                }
                if !(0xc0 <= d[m] <= 0xc3) && can_read(d, m + 1, 2) && u16_at(Endian::Big, d, m + 1)
                    >= 2 && can_read(d, m + 1 + u16_at(Endian::Big, d, m + 1), 1) {
                    let next = m + 1 + u16_at(Endian::Big, d, m + 1);
                    jpeg_scan_is_jpeg(d, next + 1, d[next]);
                }
            }
        }
    }
}

proof fn tiff_scan_is_tiff(
    e: Endian,
    d: Seq<u8>,
    ifd: int,
    count: int,
    index: int,
    width: Option<u64>,
    height: Option<u64>,
)
    ensures
        outcome_of(tiff_scan(e, d, ifd, count, index, width, height), ImFormat::TIFF),
    decreases count - index,
{
    if index < count {
        tiff_scan_is_tiff(e, d, ifd, count, index + 1, width, height);
        let entry = ifd + 2 + 12 * index;
        if let FieldValue::Value(x) = field_value(e, d, u16_at(e, d, entry + 2), entry + 8) {
            tiff_scan_is_tiff(e, d, ifd, count, index + 1, Some(x), height);
            tiff_scan_is_tiff(e, d, ifd, count, index + 1, width, Some(x));
        }
    }
}

proof fn exr_scan_is_exr(d: Seq<u8>, pos: int)
    ensures
        outcome_of(Some(exr_scan(d, pos)), ImFormat::OpenEXR),
    decreases d.len() - pos,
{
    if let Some(z1) = next_zero(d, pos) {
        lemma_next_zero(d, pos);
        if let Some(z2) = next_zero(d, z1 + 1) {
            lemma_next_zero(d, z1 + 1);
            if z1 != pos && can_read(d, z2 + 1, 4) {
                let next = z2 + 5 + u32_at(Endian::Little, d, z2 + 1);
                if next <= d.len() {
                    exr_scan_is_exr(d, next);
                }
            }
        }
    }
}

/// Each recognised format leads to an outcome of that format.
proof fn outcome_follows_detection(d: Seq<u8>, start: int)
    ensures
        match detect(d, preamble(d, start), pre_len(d, start)) {
            None => imsz_outcome(d, start) == Some(
                Err::<ImInfo, ImError>(ImError::UnknownFormat),
            ),
            Some(f) => outcome_of(imsz_outcome(d, start), f),
        },
{
    let p = preamble(d, start);
    let n = pre_len(d, start);
    match detect(d, p, n) {
        None => {},
        Some(f) => {
            if f == ImFormat::JPEG {
                jpeg_scan_is_jpeg(d, 3, p[2]);
            } else if f == ImFormat::TIFF {
                let e = tiff_endian(p);
                let ifd = u32_at(e, p, 4) as int;
                if can_read(d, ifd, 2) {
                    tiff_scan_is_tiff(e, d, ifd, u16_at(e, d, ifd) as int, 0, None, None);
                }
            } else if f == ImFormat::OpenEXR {
                exr_scan_is_exr(d, 8);
            }
        },
    }
}

/// Why reading the TIFF directory entries `index..count` faults: an entry
/// offset past `u32::MAX`, or a width or height entry whose value is a
/// rational with denominator zero.
pub open spec fn tiff_fault_at(e: Endian, d: Seq<u8>, ifd: int, i: int) -> bool {
    let entry = ifd + 2 + 12 * i;
    ||| entry > u32::MAX
    ||| can_read(d, entry, 4) && (u16_at(e, d, entry) == 256 || u16_at(e, d, entry) == 257)
        && field_value(e, d, u16_at(e, d, entry + 2), entry + 8) == FieldValue::ZeroDivisor
}

/// The inputs on which the computation faults, by format: a BMP or DIB height
/// equal to the smallest value of its type (its absolute value overflows), a
/// JPEG segment length below 2 (subtracting 2 underflows), and a TIFF entry
/// offset past `u32::MAX` or a zero denominator.
pub open spec fn fault_cause(d: Seq<u8>, start: int) -> bool {
    let p = preamble(d, start);
    let n = pre_len(d, start);
    match detect(d, p, n) {
        Some(ImFormat::BMP) => {
            let file_size = u32_at(Endian::Little, p, 2) as int;
            let min_size = if file_size < n {
                file_size
            } else {
                n
            };
            let header_size = u32_at(Endian::Little, p, 14);
            min_size >= 22 && if header_size == 12 {
                i16_of(u16_at(Endian::Little, p, 20)) == i16::MIN
            } else {
                min_size >= 26 && header_size > 12 && i32_of(u32_at(Endian::Little, p, 22))
                    == i32::MIN
            }
        },
        Some(ImFormat::DIB) => i32_of(u32_at(Endian::Little, p, 8)) == i32::MIN,
        Some(ImFormat::JPEG) => exists|m: int|
            3 <= m && #[trigger] can_read(d, m + 1, 2) && u16_at(Endian::Big, d, m + 1) < 2,
        Some(ImFormat::TIFF) => {
            let e = tiff_endian(p);
            let ifd = u32_at(e, p, 4) as int;
            can_read(d, ifd, 2) && exists|i: int|
                0 <= i < u16_at(e, d, ifd) && #[trigger] tiff_fault_at(e, d, ifd, i)
        },
        _ => false,
    }
}

proof fn jpeg_fault_has_cause(d: Seq<u8>, pos: int, b: u8)
    requires
        jpeg_scan(d, pos, b) is None,
    ensures
        exists|m: int| pos <= m && #[trigger] can_read(d, m + 1, 2) && u16_at(Endian::Big, d, m + 1) < 2,
    decreases d.len() - pos,
{
    let after_ff = if b == 0xff {
        Some(pos)
    } else {
        match next_ff(d, pos) {
            Some(i) => Some(i + 1),
            None => None,
        }
    };
    let a = after_ff->0;
    let m = next_non_ff(d, a)->0;
    lemma_next_non_ff(d, a);
    if b != 0xff {
        lemma_next_ff(d, pos);
    }
    if u16_at(Endian::Big, d, m + 1) < 2 {
        assert(can_read(d, m + 1, 2));
    } else {
        let next = m + 1 + u16_at(Endian::Big, d, m + 1);
        jpeg_fault_has_cause(d, next + 1, d[next]);
    }
}

proof fn tiff_fault_has_cause(
    e: Endian,
    d: Seq<u8>,
    ifd: int,
    count: int,
    index: int,
    width: Option<u64>,
    height: Option<u64>,
)
    requires
        0 <= index,
        tiff_scan(e, d, ifd, count, index, width, height) is None,
    ensures
        exists|i: int| index <= i < count && #[trigger] tiff_fault_at(e, d, ifd, i),
    decreases count - index,
{
    let entry = ifd + 2 + 12 * index;
    if entry > u32::MAX {
        assert(tiff_fault_at(e, d, ifd, index));
    } else if u16_at(e, d, entry) != 256 && u16_at(e, d, entry) != 257 {
        tiff_fault_has_cause(e, d, ifd, count, index + 1, width, height);
    } else {
        match field_value(e, d, u16_at(e, d, entry + 2), entry + 8) {
            FieldValue::ZeroDivisor => {
                assert(tiff_fault_at(e, d, ifd, index));
            },
            FieldValue::Invalid => {},
            FieldValue::Value(v) => {
                if u16_at(e, d, entry) == 256 {
                    tiff_fault_has_cause(e, d, ifd, count, index + 1, Some(v), height);
                } else {
                    tiff_fault_has_cause(e, d, ifd, count, index + 1, width, Some(v));
                }
            },
        }
    }
}

/// Reading faults only for the causes listed in [`fault_cause`]: any other
/// input gives a size or an error. For BMP and DIB the listed causes always
/// fault.
pub proof fn faults_have_a_listed_cause(d: Seq<u8>, start: int)
    ensures
        imsz_outcome(d, start) is None ==> fault_cause(d, start),
        ({
            let found = detect(d, preamble(d, start), pre_len(d, start));
            (found == Some(ImFormat::BMP) || found == Some(ImFormat::DIB)) && fault_cause(d, start)
                ==> imsz_outcome(d, start) is None
        }),
{
    let p = preamble(d, start);
    let n = pre_len(d, start);
    if imsz_outcome(d, start) is None {
        match detect(d, p, n) {
            Some(ImFormat::JPEG) => {
                jpeg_fault_has_cause(d, 3, p[2]);
            },
            Some(ImFormat::TIFF) => {
                let e = tiff_endian(p);
                let ifd = u32_at(e, p, 4) as int;
                tiff_fault_has_cause(e, d, ifd, u16_at(e, d, ifd) as int, 0, None, None);
            },
            _ => {},
        }
    }
}

/// The errors mean what they say: `UnknownFormat` exactly when no format is
/// recognised; a parser error, or a size, only for the recognised format;
/// and reading bytes in memory never gives an IO error.
pub proof fn errors_follow_detection(data: Seq<u8>)
    requires
        imsz_completes(data),
    ensures
        ({
            let found = detect(data, preamble(data, 0), pre_len(data, 0));
            &&& (imsz_spec(data) == Err::<crate::format::ImInfo, ImError>(ImError::UnknownFormat)
                <==> found is None)
            &&& (imsz_spec(data) matches Err(ImError::ParserError(f)) ==> found == Some(f))
            &&& (imsz_spec(data) matches Ok(info) ==> found == Some(info.format))
            &&& !(imsz_spec(data) is Err && imsz_spec(data)->Err_0 is IO)
        }),
{
    outcome_follows_detection(data, 0);
}

/// OpenEXR and PCX sizes are at least one in both directions: windows of
/// zero or negative extent are refused.
pub proof fn window_sizes_are_positive(data: Seq<u8>)
    requires
        imsz_completes(data),
        imsz_spec(data) is Ok,
        imsz_spec(data)->Ok_0.format == ImFormat::OpenEXR || imsz_spec(data)->Ok_0.format
            == ImFormat::PCX,
    ensures
        imsz_spec(data)->Ok_0.width >= 1,
        imsz_spec(data)->Ok_0.height >= 1,
{
    let p = preamble(data, 0);
    outcome_follows_detection(data, 0);
    if imsz_spec(data)->Ok_0.format == ImFormat::OpenEXR {
        assert(detect(data, p, pre_len(data, 0)) == Some(ImFormat::OpenEXR));
        assert(imsz_outcome(data, 0) == Some(exr_result(data)));
        exr_scan_is_positive(data, 8);
    } else {
        assert(detect(data, p, pre_len(data, 0)) == Some(ImFormat::PCX));
        assert(imsz_outcome(data, 0) == Some(pcx_result(p)));
    }
}

proof fn exr_scan_is_positive(d: Seq<u8>, pos: int)
    ensures
        exr_scan(d, pos) matches Ok(info) ==> info.width >= 1 && info.height >= 1,
    decreases d.len() - pos,
{
    if let Some(z1) = next_zero(d, pos) {
        lemma_next_zero(d, pos);
        if let Some(z2) = next_zero(d, z1 + 1) {
            lemma_next_zero(d, z1 + 1);
            if z1 != pos && can_read(d, z2 + 1, 4) {
                let next = z2 + 5 + u32_at(Endian::Little, d, z2 + 1);
                if next <= d.len() {
                    exr_scan_is_positive(d, next);
                }
            }
        }
    }
}

/// A TGA image is reported only for input that ends in the
/// `TRUEVISION-XFILE.` footer.
pub proof fn tga_needs_footer(data: Seq<u8>)
    requires
        imsz_completes(data),
        imsz_spec(data) is Ok,
        imsz_spec(data)->Ok_0.format == ImFormat::TGA,
    ensures
        has_tga_footer(data),
{
    outcome_follows_detection(data, 0);
    reveal(detect);
}

/// Streams that agree from index `lo` on.
pub open spec fn agree_from(d1: Seq<u8>, d2: Seq<u8>, lo: int) -> bool {
    d1.len() == d2.len() && forall|i: int| lo <= i < d1.len() ==> #[trigger] d1[i] == d2[i]
}

/// A box search from `lo` on reads nothing before `lo`.
proof fn find_box_reads_from(d1: Seq<u8>, d2: Seq<u8>, lo: int, pos: int, name: Seq<u8>, limit: int, skipped: int)
    requires
        agree_from(d1, d2, lo),
        lo <= pos,
    ensures
        find_box(d1, pos, name, limit, skipped) == find_box(d2, pos, name, limit, skipped),
    decreases d1.len() - pos,
{
    if can_read(d1, pos, 8) {
        assert(d1[pos] == d2[pos] && d1[pos + 1] == d2[pos + 1] && d1[pos + 2] == d2[pos + 2]
            && d1[pos + 3] == d2[pos + 3]);
        assert(d1.subrange(pos + 4, pos + 8) =~= d2.subrange(pos + 4, pos + 8));
        let size = u32_at(Endian::Big, d1, pos) as int;
        if size >= 8 && pos + size <= d1.len() {
            find_box_reads_from(d1, d2, lo, pos + size, name, limit, skipped + size);
        }
    }
}

/// The same outcome, but for format `f`.
pub open spec fn as_format(r: ImResult<ImInfo>, f: ImFormat) -> ImResult<ImInfo> {
    match r {
        Ok(info) => Ok(ImInfo { width: info.width, height: info.height, format: f }),
        Err(_) => Err(ImError::ParserError(f)),
    }
}

/// AVIF and HEIF files are read alike: two streams that differ only in the
/// brand (`avif` or `heic`, bytes 8 to 11) and are not taken for a JPEG give
/// the same size, or the same failure, each under its own format.
pub proof fn avif_and_heif_read_alike(d1: Seq<u8>, d2: Seq<u8>)
    requires
        d1.len() >= 12,
        agree_from(d1, d2, 12),
        forall|i: int| 0 <= i < 8 ==> #[trigger] d1[i] == d2[i],
        has_at(d1, 4, sig_ftyp_avif()),
        has_at(d2, 4, sig_ftyp_heic()),
        !(d1[0] == 0xff && d1[1] == 0xd8),
    ensures
        imsz_outcome(d1, 0) == Some(heif_result(d1, preamble(d1, 0), ImFormat::AVIF)),
        imsz_outcome(d2, 0) == Some(
            as_format(heif_result(d1, preamble(d1, 0), ImFormat::AVIF), ImFormat::HEIF),
        ),
        outcome_of(Some(heif_result(d1, preamble(d1, 0), ImFormat::AVIF)), ImFormat::AVIF),
{
    let p1 = preamble(d1, 0);
    let p2 = preamble(d2, 0);
    brand_signatures();
    detected_as_heif(d1, sig_ftyp_avif(), 0x61);
    assert(d2[0] == d1[0] && d2[1] == d1[1]);
    detected_as_heif(d2, sig_ftyp_heic(), 0x68);
    assert(p1[0] == d1[0] && p1[1] == d1[1] && p1[2] == d1[2] && p1[3] == d1[3]);
    assert(p2[0] == d2[0] && p2[1] == d2[1] && p2[2] == d2[2] && p2[3] == d2[3]);
    heif_reads_from_12(d1, d2, p1, p2);
    outcome_of_heif(d1, ImFormat::AVIF);
    outcome_of_heif(d2, ImFormat::HEIF);
}

proof fn brand_signatures()
    ensures
        sig_ftyp_avif().len() == 8 && sig_ftyp_avif()[0] == 0x66 && sig_ftyp_avif()[1] == 0x74
            && sig_ftyp_avif()[2] == 0x79 && sig_ftyp_avif()[3] == 0x70 && sig_ftyp_avif()[4]
            == 0x61,
        sig_ftyp_heic().len() == 8 && sig_ftyp_heic()[0] == 0x66 && sig_ftyp_heic()[1] == 0x74
            && sig_ftyp_heic()[2] == 0x79 && sig_ftyp_heic()[3] == 0x70 && sig_ftyp_heic()[4]
            == 0x68,
        sig_ftyp_avif().subrange(4, 8) == sig_avif(),
{
    assert(sig_ftyp_avif().subrange(4, 8) =~= sig_avif());
}

/// What is read for a stream taken for AVIF or HEIF.
proof fn outcome_of_heif(d: Seq<u8>, f: ImFormat)
    requires
        f == ImFormat::AVIF || f == ImFormat::HEIF,
        detect(d, preamble(d, 0), pre_len(d, 0)) == Some(f),
    ensures
        imsz_outcome(d, 0) == Some(heif_result(d, preamble(d, 0), f)),
{
}

/// A stream with `ftyp` and a brand at 4 that is not a JPEG is taken for AVIF
/// when the brand is `avif` (first byte `0x61`), else for HEIF.
proof fn detected_as_heif(d: Seq<u8>, ftyp: Seq<u8>, brand0: u8)
    requires
        d.len() >= 12,
        ftyp.len() == 8,
        ftyp[0] == 0x66 && ftyp[1] == 0x74 && ftyp[2] == 0x79 && ftyp[3] == 0x70,
        ftyp[4] == brand0,
        brand0 == 0x61 || brand0 == 0x68,
        brand0 == 0x61 ==> ftyp.subrange(4, 8) == sig_avif(),
        ftyp == sig_ftyp_avif() || ftyp == sig_ftyp_heic(),
        has_at(d, 4, ftyp),
        !(d[0] == 0xff && d[1] == 0xd8),
    ensures
        detect(d, preamble(d, 0), pre_len(d, 0)) == Some(
            if brand0 == 0x61 {
                ImFormat::AVIF
            } else {
                ImFormat::HEIF
            },
        ),
{
    let p = preamble(d, 0);
    let n = pre_len(d, 0);
    assert(n >= 12);
    assert(p.subrange(4, 12) =~= d.subrange(4, 12));
    assert(p.subrange(4, 12) == ftyp);
    assert(p[4] == ftyp[0]) by {
        assert(p.subrange(4, 12)[0] == p[4]);
    }
    assert(p[6] == ftyp[2]) by {
        assert(p.subrange(4, 12)[2] == p[6]);
    }
    assert(p[8] == brand0) by {
        assert(p.subrange(4, 12)[4] == p[8]);
    }
    assert(p[0] == d[0] && p[1] == d[1]);
    assert(!has_at(p, 0, sig_gif87a()) && !has_at(p, 0, sig_gif89a())) by {
        if has_at(p, 0, sig_gif87a()) {
            assert(p.subrange(0, 6)[4] == p[4]);
        }
        if has_at(p, 0, sig_gif89a()) {
            assert(p.subrange(0, 6)[4] == p[4]);
        }
    }
    assert(!has_at(p, 0, sig_png())) by {
        if has_at(p, 0, sig_png()) {
            assert(p.subrange(0, 8)[4] == p[4]);
        }
    }
    assert(!has_at(p, 6, zeros4())) by {
        if has_at(p, 6, zeros4()) {
            assert(p.subrange(6, 10)[0] == p[6]);
        }
    }
    assert(!has_at(p, 8, sig_webp())) by {
        if has_at(p, 8, sig_webp()) {
            assert(p.subrange(8, 12)[0] == p[8]);
        }
    }
    assert(has_at(p, 4, sig_ftyp_avif()) || has_at(p, 4, sig_ftyp_heic()));
    if brand0 == 0x61 {
        assert(p.subrange(8, 12) =~= p.subrange(4, 12).subrange(4, 8));
        assert(has_at(p, 8, sig_avif()));
    } else {
        assert(!has_at(p, 8, sig_avif())) by {
            if has_at(p, 8, sig_avif()) {
                assert(p.subrange(8, 12)[0] == p[8]);
            }
        }
    }
    reveal(detect);
}

/// Reading an AVIF or HEIF box tree looks at the first four bytes of the
/// preamble and at the stream from index 12 on, and the format only labels
/// the result.
proof fn heif_reads_from_12(d1: Seq<u8>, d2: Seq<u8>, p1: Seq<u8>, p2: Seq<u8>)
    requires
        agree_from(d1, d2, 12),
        p1.len() >= 4 && p2.len() >= 4,
        p1[0] == p2[0] && p1[1] == p2[1] && p1[2] == p2[2] && p1[3] == p2[3],
    ensures
        heif_result(d2, p2, ImFormat::HEIF) == as_format(heif_result(d1, p1, ImFormat::AVIF), ImFormat::HEIF),
        outcome_of(Some(heif_result(d1, p1, ImFormat::AVIF)), ImFormat::AVIF),
{
    let meta = u32_at(Endian::Big, p1, 0) as int;
    assert(meta == u32_at(Endian::Big, p2, 0));
    if meta >= 12 {
        find_box_reads_from(d1, d2, 12, meta, name_meta(), u64::MAX as int, 0);
        if let Some((q1, s1)) = find_box(d1, meta, name_meta(), u64::MAX as int, 0) {
            lemma_find_box_at_least(d1, meta, name_meta(), u64::MAX as int, 0);
            find_box_reads_from(d1, d2, 12, q1 + 4, name_iprp(), s1 - 12, 0);
            if let Some((q2, s2)) = find_box(d1, q1 + 4, name_iprp(), s1 - 12, 0) {
                lemma_find_box_at_least(d1, q1 + 4, name_iprp(), s1 - 12, 0);
                find_box_reads_from(d1, d2, 12, q2, name_ipco(), s2 - 8, 0);
                if let Some((q3, s3)) = find_box(d1, q2, name_ipco(), s2 - 8, 0) {
                    lemma_find_box_at_least(d1, q2, name_ipco(), s2 - 8, 0);
                    find_box_reads_from(d1, d2, 12, q3, name_ispe(), s3 - 8, 0);
                    if let Some((q4, s4)) = find_box(d1, q3, name_ispe(), s3 - 8, 0) {
                        lemma_find_box_at_least(d1, q3, name_ispe(), s3 - 8, 0);
                        if can_read(d1, q4, 12) {
                            assert(d1[q4 + 4] == d2[q4 + 4] && d1[q4 + 5] == d2[q4 + 5] && d1[q4 + 6]
                                == d2[q4 + 6] && d1[q4 + 7] == d2[q4 + 7]);
                            assert(d1[q4 + 8] == d2[q4 + 8] && d1[q4 + 9] == d2[q4 + 9] && d1[q4 + 10]
                                == d2[q4 + 10] && d1[q4 + 11] == d2[q4 + 11]);
                        }
                    }
                }
            }
        }
    }
}

/// A box that is found lies after the position the search starts at.
proof fn lemma_find_box_at_least(d: Seq<u8>, pos: int, name: Seq<u8>, limit: int, skipped: int)
    ensures
        find_box(d, pos, name, limit, skipped) matches Some((q, s)) ==> pos + 8 <= q && 8 <= s,
    decreases d.len() - pos,
{
    if can_read(d, pos, 8) && u32_at(Endian::Big, d, pos) >= 8 && d.subrange(pos + 4, pos + 8) != name
        && pos + u32_at(Endian::Big, d, pos) <= d.len() {
        lemma_find_box_at_least(
            d,
            pos + u32_at(Endian::Big, d, pos),
            name,
            limit,
            skipped + u32_at(Endian::Big, d, pos),
        );
    }
}

/// Formats whose size is in the header are read from the first 30 bytes
/// alone: two inputs that agree on them give the same outcome.
pub proof fn header_formats_read_only_the_preamble(d1: Seq<u8>, d2: Seq<u8>)
    requires
        preamble(d1, 0) == preamble(d2, 0),
        pre_len(d1, 0) == pre_len(d2, 0),
        detect(d1, preamble(d1, 0), pre_len(d1, 0)) matches Some(f) && (f == ImFormat::GIF || f
            == ImFormat::PNG || f == ImFormat::BMP || f == ImFormat::WEBP || f == ImFormat::QOI
            || f == ImFormat::PSD || f == ImFormat::PSB || f == ImFormat::XCF || f == ImFormat::PCX
            || f == ImFormat::DDS || f == ImFormat::DIB || f == ImFormat::VTF || f
            == ImFormat::ILBM),
    ensures
        imsz_outcome(d1, 0) == imsz_outcome(d2, 0),
{
    let p = preamble(d1, 0);
    let n = pre_len(d1, 0);
    detection_before_tga_ignores_the_rest(d1, d2, p, n);
}

/// Detection looks past the preamble only for TGA.
proof fn detection_before_tga_ignores_the_rest(d1: Seq<u8>, d2: Seq<u8>, p: Seq<u8>, n: int)
    requires
        detect(d1, p, n) matches Some(f) && f != ImFormat::TGA,
    ensures
        detect(d2, p, n) == detect(d1, p, n),
{
    reveal(detect);
}

} // verus!
