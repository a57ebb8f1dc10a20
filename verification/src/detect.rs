//! Recognising the format from the first 30 bytes, and reading the size.
use crate::boxes::{heif_result, jp2_result, parse_heif, parse_jp2};
use crate::bytes::{bytes_at, has_at, load_u32, u32_at, Endian};
use crate::exr::{exr_result, parse_exr};
use crate::format::{ImError, ImFormat, ImInfo, ImResult};
use crate::header::{
    bmp_result, dib_result, fixed_result, gif_result, ilbm_result, parse_bmp, parse_dib,
    parse_fixed, parse_gif, parse_ilbm, parse_pcx, parse_png, parse_vtf, parse_webp, pcx_result,
    png_result, vtf_result, webp_result,
};
use crate::ico::{ico_result, parse_ico};
use crate::jpeg::{jpeg_result, parse_jpeg};
use crate::tiff::{parse_tiff, tiff_result};
use crate::window::{agrees, complete, held, fetch_has, fetch_u8, whole, Fetched, Window};
use vstd::prelude::*;

verus! {

pub open spec fn sig_gif87a() -> Seq<u8> {
    seq![0x47u8, 0x49, 0x46, 0x38, 0x37, 0x61]
}

pub open spec fn sig_gif89a() -> Seq<u8> {
    seq![0x47u8, 0x49, 0x46, 0x38, 0x39, 0x61]
}

pub open spec fn sig_png() -> Seq<u8> {
    seq![0x89u8, 0x50, 0x4e, 0x47, 0x0d, 0x0a, 0x1a, 0x0a]
}

pub open spec fn sig_bm() -> Seq<u8> {
    seq![0x42u8, 0x4d]
}

pub open spec fn zeros4() -> Seq<u8> {
    seq![0u8, 0, 0, 0]
}

pub open spec fn sig_riff() -> Seq<u8> {
    seq![0x52u8, 0x49, 0x46, 0x46]
}

pub open spec fn sig_webp() -> Seq<u8> {
    seq![0x57u8, 0x45, 0x42, 0x50]
}

pub open spec fn sig_ftyp_avif() -> Seq<u8> {
    seq![0x66u8, 0x74, 0x79, 0x70, 0x61, 0x76, 0x69, 0x66]
}

pub open spec fn sig_ftyp_heic() -> Seq<u8> {
    seq![0x66u8, 0x74, 0x79, 0x70, 0x68, 0x65, 0x69, 0x63]
}

pub open spec fn sig_avif() -> Seq<u8> {
    seq![0x61u8, 0x76, 0x69, 0x66]
}

pub open spec fn sig_jp2() -> Seq<u8> {
    seq![0u8, 0, 0, 0x0c, 0x6a, 0x50, 0x20, 0x20]
}

pub open spec fn sig_ftyp_jp2() -> Seq<u8> {
    seq![0x66u8, 0x74, 0x79, 0x70, 0x6a, 0x70, 0x32, 0x20]
}

pub open spec fn sig_tiff_le() -> Seq<u8> {
    seq![0x49u8, 0x49, 0x2a, 0x00]
}

pub open spec fn sig_tiff_be() -> Seq<u8> {
    seq![0x4du8, 0x4d, 0x00, 0x2a]
}

pub open spec fn sig_qoi() -> Seq<u8> {
    seq![0x71u8, 0x6f, 0x69, 0x66]
}

pub open spec fn sig_psd() -> Seq<u8> {
    seq![0x38u8, 0x42, 0x50, 0x53, 0, 1, 0, 0, 0, 0, 0, 0]
}

pub open spec fn sig_psb() -> Seq<u8> {
    seq![0x38u8, 0x42, 0x50, 0x53, 0, 2, 0, 0, 0, 0, 0, 0]
}

pub open spec fn sig_xcf() -> Seq<u8> {
    seq![0x67u8, 0x69, 0x6d, 0x70, 0x20, 0x78, 0x63, 0x66, 0x20]
}

pub open spec fn sig_ico() -> Seq<u8> {
    seq![0u8, 0, 1, 0]
}

pub open spec fn sig_exr() -> Seq<u8> {
    seq![0x76u8, 0x2f, 0x31, 0x01]
}

pub open spec fn sig_dds() -> Seq<u8> {
    seq![0x44u8, 0x44, 0x53, 0x20, 0x7c, 0, 0, 0]
}

pub open spec fn sig_dib() -> Seq<u8> {
    seq![0x28u8, 0, 0, 0]
}

pub open spec fn sig_vtf() -> Seq<u8> {
    seq![0x56u8, 0x54, 0x46, 0]
}

pub open spec fn sig_form() -> Seq<u8> {
    seq![0x46u8, 0x4f, 0x52, 0x4d]
}

pub open spec fn sig_ilbm() -> Seq<u8> {
    seq![0x49u8, 0x4c, 0x42, 0x4d]
}

pub open spec fn sig_pbm() -> Seq<u8> {
    seq![0x50u8, 0x42, 0x4d, 0x20]
}

pub open spec fn sig_bmhd() -> Seq<u8> {
    seq![0x42u8, 0x4d, 0x48, 0x44]
}

/// `TRUEVISION-XFILE.` and a zero byte.
pub open spec fn tga_footer() -> Seq<u8> {
    seq![
        0x54u8, 0x52, 0x55, 0x45, 0x56, 0x49, 0x53, 0x49, 0x4f, 0x4e, 0x2d, 0x58, 0x46, 0x49,
        0x4c, 0x45, 0x2e, 0,
    ]
}

/// Whether the whole stream `d` ends in the TGA footer.
pub open spec fn has_tga_footer(d: Seq<u8>) -> bool {
    d.len() >= 18 && has_at(d, d.len() - 18, tga_footer())
}

/// The number of bytes read at `start` into the 30-byte preamble.
pub open spec fn pre_len(d: Seq<u8>, start: int) -> int {
    if start >= d.len() {
        0
    } else if d.len() - start >= 30 {
        30
    } else {
        d.len() - start
    }
}

/// The 30-byte preamble: the bytes at `start`, padded with zeros.
pub open spec fn preamble(d: Seq<u8>, start: int) -> Seq<u8> {
    Seq::new(30, |i: int| if i < pre_len(d, start) { d[start + i] } else { 0u8 })
}

/// The format that the preamble `p` (holding `n` bytes read) and the stream
/// `d` are recognised as; the first rule that matches decides.
#[verifier::opaque]
pub open spec fn detect(d: Seq<u8>, p: Seq<u8>, n: int) -> Option<ImFormat> {
    if n >= 6 && (has_at(p, 0, sig_gif87a()) || has_at(p, 0, sig_gif89a())) {
        Some(ImFormat::GIF)
    } else if n >= 8 && has_at(p, 0, sig_png()) {
        Some(ImFormat::PNG)
    } else if n >= 10 && has_at(p, 0, sig_bm()) && has_at(p, 6, zeros4()) {
        Some(ImFormat::BMP)
    } else if n >= 3 && p[0] == 0xff && p[1] == 0xd8 {
        Some(ImFormat::JPEG)
    } else if n >= 30 && has_at(p, 0, sig_riff()) && has_at(p, 8, sig_webp()) {
        Some(ImFormat::WEBP)
    } else if n >= 12 && (has_at(p, 4, sig_ftyp_avif()) || has_at(p, 4, sig_ftyp_heic())) {
        if has_at(p, 8, sig_avif()) {
            Some(ImFormat::AVIF)
        } else {
            Some(ImFormat::HEIF)
        }
    } else if n >= 24 && has_at(p, 0, sig_jp2()) && has_at(p, 16, sig_ftyp_jp2()) {
        Some(ImFormat::JP2K)
    } else if n >= 8 && (has_at(p, 0, sig_tiff_le()) || has_at(p, 0, sig_tiff_be())) {
        Some(ImFormat::TIFF)
    } else if n >= 14 && has_at(p, 0, sig_qoi()) {
        Some(ImFormat::QOI)
    } else if n >= 22 && has_at(p, 0, sig_psd()) {
        Some(ImFormat::PSD)
    } else if n >= 22 && has_at(p, 0, sig_psb()) {
        Some(ImFormat::PSB)
    } else if n >= 22 && has_at(p, 0, sig_xcf()) && p[13] == 0 {
        Some(ImFormat::XCF)
    } else if n >= 6 && has_at(p, 0, sig_ico()) {
        Some(ImFormat::ICO)
    } else if n > 8 && has_at(p, 0, sig_exr()) && (p[4] == 1 || p[4] == 2) {
        Some(ImFormat::OpenEXR)
    } else if n >= 30 && p[0] == 0x0a && p[1] < 6 && (p[3] == 1 || p[3] == 2 || p[3] == 4 || p[3]
        == 8) {
        Some(ImFormat::PCX)
    } else if n >= 30 && has_at(p, 0, sig_dds()) && u32_at(Endian::Little, p, 8) & 0x1007 != 0 {
        Some(ImFormat::DDS)
    } else if n >= 14 && has_at(p, 0, sig_dib()) && p[12] == 1 && p[13] == 0 && p[15] == 0 {
        Some(ImFormat::DIB)
    } else if n >= 20 && has_at(p, 0, sig_vtf()) {
        Some(ImFormat::VTF)
    } else if n >= 24 && has_at(p, 0, sig_form()) && (has_at(p, 8, sig_ilbm()) || has_at(
        p,
        8,
        sig_pbm(),
    )) && has_at(p, 12, sig_bmhd()) {
        Some(ImFormat::ILBM)
    } else if n >= 30 && p[1] < 2 && p[2] < 12 && has_tga_footer(d) {
        Some(ImFormat::TGA)
    } else {
        None
    }
}

/// What reading the size of the image in stream `d`, positioned at `start`,
/// gives: the preamble is read at `start`, later reads are at absolute
/// positions. `None` stands for an input on which the computation faults
/// (an arithmetic overflow or a division by zero).
pub open spec fn imsz_outcome(d: Seq<u8>, start: int) -> Option<ImResult<ImInfo>> {
    let p = preamble(d, start);
    let n = pre_len(d, start);
    match detect(d, p, n) {
        None => Some(Err(ImError::UnknownFormat)),
        Some(f) => match f {
            ImFormat::GIF => Some(gif_result(p, n)),
            ImFormat::PNG => Some(png_result(p, n)),
            ImFormat::BMP => bmp_result(p, n),
            ImFormat::JPEG => jpeg_result(d, p),
            ImFormat::WEBP => Some(webp_result(p)),
            ImFormat::AVIF | ImFormat::HEIF => Some(heif_result(d, p, f)),
            ImFormat::JP2K => Some(jp2_result(d, p)),
            ImFormat::TIFF => tiff_result(d, p),
            ImFormat::ICO => Some(ico_result(d, p)),
            ImFormat::OpenEXR => Some(exr_result(d)),
            ImFormat::PCX => Some(pcx_result(p)),
            ImFormat::DIB => dib_result(p),
            ImFormat::VTF => Some(vtf_result(p)),
            ImFormat::ILBM => Some(ilbm_result(p)),
            _ => Some(fixed_result(f, p)),
        },
    }
}

/// Reads the preamble: up to 30 bytes at `start`, padded with zeros.
fn read_preamble(w: &Window, start: u64) -> (r: Fetched<(Vec<u8>, usize)>)
    requires
        w.len <= i64::MAX,
    ensures
        r matches Fetched::Got((p, n)) ==> forall|d: Seq<u8>|
            #[trigger] agrees(w, d) ==> p@ == preamble(d, start as int) && n == pre_len(
                d,
                start as int,
            ),
        r matches Fetched::Got((p, n)) ==> p@.len() == 30,
        r matches Fetched::Need(q, m) ==> m > 0 && q + m <= w.len && !held(
            w,
            q as int,
            m as int,
        ),
        complete(w) ==> r is Got,
{
    let len = w.len;
    let n: u64 = if start >= len {
        0
    } else if len - start >= 30 {
        30
    } else {
        len - start
    };
    let mut pre: Vec<u8> = Vec::new();
    let mut i: u64 = 0;
    while i < 30
        invariant
            len == w.len,
            forall|d: Seq<u8>| #[trigger] agrees(w, d) ==> n == pre_len(d, start as int),
            n <= 30,
            n > 0 ==> start + n <= len,
            i <= 30,
            pre@.len() == i,
            forall|d: Seq<u8>|
                #[trigger] agrees(w, d) ==> forall|j: int|
                    0 <= j < i ==> pre@[j] == preamble(d, start as int)[j],
        decreases 30 - i,
    {
        if i < n {
            match fetch_u8(w, start + i) {
                Fetched::Got(v) => pre.push(v),
                Fetched::Need(q, m) => {
                    return Fetched::Need(q, m);
                },
            }
        } else {
            pre.push(0);
        }
        i = i + 1;
    }
    proof {
        assert forall|d: Seq<u8>| #[trigger] agrees(w, d) implies pre@ == preamble(
            d,
            start as int,
        ) by {
            assert(pre@ =~= preamble(d, start as int));
        }
    }
    Fetched::Got((pre, n as usize))
}

/// Whether the stream ends in the TGA footer.
fn tga_footer_at_end(w: &Window) -> (r: Fetched<bool>)
    ensures
        r matches Fetched::Got(x) ==> forall|d: Seq<u8>|
            #[trigger] agrees(w, d) ==> x == has_tga_footer(d),
        r matches Fetched::Need(q, m) ==> m > 0 && q + m <= w.len && !held(
            w,
            q as int,
            m as int,
        ),
        complete(w) ==> r is Got,
{
    let footer: [u8; 18] = [
        0x54,
        0x52,
        0x55,
        0x45,
        0x56,
        0x49,
        0x53,
        0x49,
        0x4f,
        0x4e,
        0x2d,
        0x58,
        0x46,
        0x49,
        0x4c,
        0x45,
        0x2e,
        0,
    ];
    assert(footer@ =~= tga_footer());
    if w.len < 18 {
        return Fetched::Got(false);
    }
    fetch_has(w, w.len - 18, footer.as_slice())
}

/// Recognises the format; see [`detect`].
fn detect_format(w: &Window, p: &[u8], n: usize) -> (r: Fetched<Option<ImFormat>>)
    requires
        p.len() == 30,
    ensures
        r matches Fetched::Got(x) ==> forall|d: Seq<u8>|
            #[trigger] agrees(w, d) ==> x == detect(d, p@, n as int),
        r matches Fetched::Need(q, m) ==> m > 0 && q + m <= w.len && !held(
            w,
            q as int,
            m as int,
        ),
        complete(w) ==> r is Got,
{
    reveal(detect);
    let gif87a: [u8; 6] = [0x47, 0x49, 0x46, 0x38, 0x37, 0x61];
    assert(gif87a@ =~= sig_gif87a());
    let gif89a: [u8; 6] = [0x47, 0x49, 0x46, 0x38, 0x39, 0x61];
    assert(gif89a@ =~= sig_gif89a());
    let png: [u8; 8] = [0x89, 0x50, 0x4e, 0x47, 0x0d, 0x0a, 0x1a, 0x0a];
    assert(png@ =~= sig_png());
    let bm: [u8; 2] = [0x42, 0x4d];
    assert(bm@ =~= sig_bm());
    let zeros: [u8; 4] = [0x00, 0x00, 0x00, 0x00];
    assert(zeros@ =~= zeros4());
    let riff: [u8; 4] = [0x52, 0x49, 0x46, 0x46];
    assert(riff@ =~= sig_riff());
    let webp: [u8; 4] = [0x57, 0x45, 0x42, 0x50];
    assert(webp@ =~= sig_webp());
    let ftyp_avif: [u8; 8] = [0x66, 0x74, 0x79, 0x70, 0x61, 0x76, 0x69, 0x66];
    assert(ftyp_avif@ =~= sig_ftyp_avif());
    let ftyp_heic: [u8; 8] = [0x66, 0x74, 0x79, 0x70, 0x68, 0x65, 0x69, 0x63];
    assert(ftyp_heic@ =~= sig_ftyp_heic());
    let avif: [u8; 4] = [0x61, 0x76, 0x69, 0x66];
    assert(avif@ =~= sig_avif());
    let jp2: [u8; 8] = [0x00, 0x00, 0x00, 0x0c, 0x6a, 0x50, 0x20, 0x20];
    assert(jp2@ =~= sig_jp2());
    let ftyp_jp2: [u8; 8] = [0x66, 0x74, 0x79, 0x70, 0x6a, 0x70, 0x32, 0x20];
    assert(ftyp_jp2@ =~= sig_ftyp_jp2());
    let tiff_le: [u8; 4] = [0x49, 0x49, 0x2a, 0x00];
    assert(tiff_le@ =~= sig_tiff_le());
    let tiff_be: [u8; 4] = [0x4d, 0x4d, 0x00, 0x2a];
    assert(tiff_be@ =~= sig_tiff_be());
    let qoi: [u8; 4] = [0x71, 0x6f, 0x69, 0x66];
    assert(qoi@ =~= sig_qoi());
    let psd: [u8; 12] = [0x38, 0x42, 0x50, 0x53, 0x00, 0x01, 0x00, 0x00, 0x00, 0x00, 0x00, 0x00];
    assert(psd@ =~= sig_psd());
    let psb: [u8; 12] = [0x38, 0x42, 0x50, 0x53, 0x00, 0x02, 0x00, 0x00, 0x00, 0x00, 0x00, 0x00];
    assert(psb@ =~= sig_psb());
    let xcf: [u8; 9] = [0x67, 0x69, 0x6d, 0x70, 0x20, 0x78, 0x63, 0x66, 0x20];
    assert(xcf@ =~= sig_xcf());
    let ico: [u8; 4] = [0x00, 0x00, 0x01, 0x00];
    assert(ico@ =~= sig_ico());
    let exr: [u8; 4] = [0x76, 0x2f, 0x31, 0x01];
    assert(exr@ =~= sig_exr());
    let dds: [u8; 8] = [0x44, 0x44, 0x53, 0x20, 0x7c, 0x00, 0x00, 0x00];
    assert(dds@ =~= sig_dds());
    let dib: [u8; 4] = [0x28, 0x00, 0x00, 0x00];
    assert(dib@ =~= sig_dib());
    let vtf: [u8; 4] = [0x56, 0x54, 0x46, 0x00];
    assert(vtf@ =~= sig_vtf());
    let form: [u8; 4] = [0x46, 0x4f, 0x52, 0x4d];
    assert(form@ =~= sig_form());
    let ilbm: [u8; 4] = [0x49, 0x4c, 0x42, 0x4d];
    assert(ilbm@ =~= sig_ilbm());
    let pbm: [u8; 4] = [0x50, 0x42, 0x4d, 0x20];
    assert(pbm@ =~= sig_pbm());
    let bmhd: [u8; 4] = [0x42, 0x4d, 0x48, 0x44];
    assert(bmhd@ =~= sig_bmhd());
    let found = if n >= 6 && (bytes_at(p, 0, gif87a.as_slice()) || bytes_at(p, 0, gif89a.as_slice())) {
        Some(ImFormat::GIF)
    } else if n >= 8 && bytes_at(p, 0, png.as_slice()) {
        Some(ImFormat::PNG)
    } else if n >= 10 && bytes_at(p, 0, bm.as_slice()) && bytes_at(p, 6, zeros.as_slice()) {
        Some(ImFormat::BMP)
    } else if n >= 3 && p[0] == 0xff && p[1] == 0xd8 {
        Some(ImFormat::JPEG)
    } else if n >= 30 && bytes_at(p, 0, riff.as_slice()) && bytes_at(p, 8, webp.as_slice()) {
        Some(ImFormat::WEBP)
    } else if n >= 12 && (bytes_at(p, 4, ftyp_avif.as_slice()) || bytes_at(p, 4, ftyp_heic.as_slice())) {
        if bytes_at(p, 8, avif.as_slice()) {
            Some(ImFormat::AVIF)
        } else {
            Some(ImFormat::HEIF)
        }
    } else if n >= 24 && bytes_at(p, 0, jp2.as_slice()) && bytes_at(p, 16, ftyp_jp2.as_slice()) {
        Some(ImFormat::JP2K)
    } else if n >= 8 && (bytes_at(p, 0, tiff_le.as_slice()) || bytes_at(p, 0, tiff_be.as_slice())) {
        Some(ImFormat::TIFF)
    } else if n >= 14 && bytes_at(p, 0, qoi.as_slice()) {
        Some(ImFormat::QOI)
    } else if n >= 22 && bytes_at(p, 0, psd.as_slice()) {
        Some(ImFormat::PSD)
    } else if n >= 22 && bytes_at(p, 0, psb.as_slice()) {
        Some(ImFormat::PSB)
    } else if n >= 22 && bytes_at(p, 0, xcf.as_slice()) && p[13] == 0 {
        Some(ImFormat::XCF)
    } else if n >= 6 && bytes_at(p, 0, ico.as_slice()) {
        Some(ImFormat::ICO)
    } else if n > 8 && bytes_at(p, 0, exr.as_slice()) && (p[4] == 1 || p[4] == 2) {
        Some(ImFormat::OpenEXR)
    } else if n >= 30 && p[0] == 0x0a && p[1] < 6 && (p[3] == 1 || p[3] == 2 || p[3] == 4 || p[3]
        == 8) {
        Some(ImFormat::PCX)
    } else if n >= 30 && bytes_at(p, 0, dds.as_slice()) && load_u32(Endian::Little, p, 8) & 0x1007 != 0 {
        Some(ImFormat::DDS)
    } else if n >= 14 && bytes_at(p, 0, dib.as_slice()) && p[12] == 1 && p[13] == 0 && p[15] == 0 {
        Some(ImFormat::DIB)
    } else if n >= 20 && bytes_at(p, 0, vtf.as_slice()) {
        Some(ImFormat::VTF)
    } else if n >= 24 && bytes_at(p, 0, form.as_slice()) && (bytes_at(p, 8, ilbm.as_slice()) || bytes_at(p, 8, pbm.as_slice())) && bytes_at(p, 12, bmhd.as_slice()) {
        Some(ImFormat::ILBM)
    } else if n >= 30 && p[1] < 2 && p[2] < 12 {
        match tga_footer_at_end(w) {
            Fetched::Got(footer) => if footer {
                Some(ImFormat::TGA)
            } else {
                None
            },
            Fetched::Need(q, m) => {
                return Fetched::Need(q, m);
            },
        }
    } else {
        None
    };
    proof {
        assert forall|d: Seq<u8>| #[trigger] agrees(w, d) implies found == detect(
            d,
            p@,
            n as int,
        ) by {
            reveal(detect);
        }
    }
    Fetched::Got(found)
}

/// One step of reading the size of the image in a stream positioned at
/// `start`, through the window `w`: either the outcome, which holds of every
/// stream the window agrees with (see [`imsz_outcome`]; `None` where the
/// computation would fault), or the bytes to add to the window first. A
/// window holding the whole stream always gives the outcome.
pub fn imsz_step(w: &Window, start: u64) -> (r: Fetched<Option<ImResult<ImInfo>>>)
    requires
        w.len <= i64::MAX,
    ensures
        r matches Fetched::Got(x) ==> forall|d: Seq<u8>|
            #[trigger] agrees(w, d) ==> x == imsz_outcome(d, start as int),
        r matches Fetched::Need(q, n) ==> n > 0 && q + n <= w.len && !held(
            w,
            q as int,
            n as int,
        ),
        complete(w) ==> r is Got,
{
    let (pre, n) = match read_preamble(w, start) {
        Fetched::Got(found) => found,
        Fetched::Need(q, m) => {
            return Fetched::Need(q, m);
        },
    };
    let p = pre.as_slice();
    let found = match detect_format(w, p, n) {
        Fetched::Got(found) => found,
        Fetched::Need(q, m) => {
            return Fetched::Need(q, m);
        },
    };
    let r = match found {
        None => Fetched::Got(Some(Err(ImError::UnknownFormat))),
        Some(f) => match f {
            ImFormat::GIF => Fetched::Got(Some(parse_gif(p, n))),
            ImFormat::PNG => Fetched::Got(Some(parse_png(p, n))),
            ImFormat::BMP => Fetched::Got(parse_bmp(p, n)),
            ImFormat::JPEG => parse_jpeg(w, p),
            ImFormat::WEBP => Fetched::Got(Some(parse_webp(p))),
            ImFormat::AVIF | ImFormat::HEIF => match parse_heif(w, p, f) {
                Fetched::Got(x) => Fetched::Got(Some(x)),
                Fetched::Need(q, m) => Fetched::Need(q, m),
            },
            ImFormat::JP2K => match parse_jp2(w, p) {
                Fetched::Got(x) => Fetched::Got(Some(x)),
                Fetched::Need(q, m) => Fetched::Need(q, m),
            },
            ImFormat::TIFF => parse_tiff(w, p),
            ImFormat::ICO => match parse_ico(w, p) {
                Fetched::Got(x) => Fetched::Got(Some(x)),
                Fetched::Need(q, m) => Fetched::Need(q, m),
            },
            ImFormat::OpenEXR => match parse_exr(w) {
                Fetched::Got(x) => Fetched::Got(Some(x)),
                Fetched::Need(q, m) => Fetched::Need(q, m),
            },
            ImFormat::PCX => Fetched::Got(Some(parse_pcx(p))),
            ImFormat::DIB => Fetched::Got(parse_dib(p)),
            ImFormat::VTF => Fetched::Got(Some(parse_vtf(p))),
            ImFormat::ILBM => Fetched::Got(Some(parse_ilbm(p))),
            _ => Fetched::Got(Some(parse_fixed(f, p))),
        },
    };
    r
}

/// Reads the size of the image in the stream `d`, positioned at `start`.
/// Gives `None` exactly where the computation would fault; see
/// [`imsz_outcome`].
pub fn imsz_from_stream(d: &[u8], start: u64) -> (r: Option<ImResult<ImInfo>>)
    requires
        d.len() <= isize::MAX,
    ensures
        r == imsz_outcome(d@, start as int),
{
    let w = whole(d);
    match imsz_step(&w, start) {
        Fetched::Got(x) => x,
        Fetched::Need(_, _) => None,
    }
}

} // verus!
