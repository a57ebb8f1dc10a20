//! Formats whose size is in the first 30 bytes of the file.
use crate::bytes::{
    abs, has_at, i16_of, i32_of, load_u16, load_u32, to_i16, to_i32, u16_at, u32_at, Endian,
};
use crate::format::{ImError, ImFormat, ImInfo, ImResult};
use vstd::prelude::*;

verus! {

pub open spec fn info(format: ImFormat, width: u64, height: u64) -> ImResult<ImInfo> {
    Ok(ImInfo { width, height, format })
}

pub open spec fn fail(format: ImFormat) -> ImResult<ImInfo> {
    Err(ImError::ParserError(format))
}

/// GIF: the logical screen width and height, little endian, at 6 and 8.
pub open spec fn gif_result(p: Seq<u8>, n: int) -> ImResult<ImInfo> {
    if n < 10 {
        fail(ImFormat::GIF)
    } else {
        info(
            ImFormat::GIF,
            u16_at(Endian::Little, p, 6) as u64,
            u16_at(Endian::Little, p, 8) as u64,
        )
    }
}

pub open spec fn name_ihdr_upper() -> Seq<u8> {
    seq![0x49u8, 0x48, 0x44, 0x52]
}

/// PNG: the first chunk must be `IHDR`, of size at least 8; it starts with the
/// width and height, big endian.
pub open spec fn png_result(p: Seq<u8>, n: int) -> ImResult<ImInfo> {
    if n < 24 || u32_at(Endian::Big, p, 8) < 8 || !has_at(p, 12, name_ihdr_upper()) {
        fail(ImFormat::PNG)
    } else {
        info(
            ImFormat::PNG,
            u32_at(Endian::Big, p, 16) as u64,
            u32_at(Endian::Big, p, 20) as u64,
        )
    }
}

/// BMP: the header size tells a Windows 2.0 header (16-bit signed sizes) from
/// a newer one (32-bit signed sizes). The width is taken as is, converted to
/// `u64` with sign extension; the height is taken as its absolute value
/// (negative for images stored upside down). `None` where the absolute value
/// overflows.
pub open spec fn bmp_result(p: Seq<u8>, n: int) -> Option<ImResult<ImInfo>> {
    let file_size = u32_at(Endian::Little, p, 2) as int;
    let min_size = if file_size < n {
        file_size
    } else {
        n
    };
    let header_size = u32_at(Endian::Little, p, 14);
    if min_size < 22 {
        Some(fail(ImFormat::BMP))
    } else if header_size == 12 {
        let w = i16_of(u16_at(Endian::Little, p, 18));
        let h = i16_of(u16_at(Endian::Little, p, 20));
        if h == i16::MIN {
            None
        } else {
            Some(info(ImFormat::BMP, w as u64, abs(h as int) as u64))
        }
    } else if min_size < 26 || header_size <= 12 {
        Some(fail(ImFormat::BMP))
    } else {
        let w = i32_of(u32_at(Endian::Little, p, 18));
        let h = i32_of(u32_at(Endian::Little, p, 22));
        if h == i32::MIN {
            None
        } else {
            Some(info(ImFormat::BMP, w as u64, abs(h as int) as u64))
        }
    }
}

pub open spec fn webp_vp8l() -> Seq<u8> {
    seq![0x56u8, 0x50, 0x38, 0x4c]
}

pub open spec fn webp_vp8() -> Seq<u8> {
    seq![0x56u8, 0x50, 0x38, 0x20]
}

pub open spec fn webp_vp8x() -> Seq<u8> {
    seq![0x56u8, 0x50, 0x38, 0x58]
}

/// WebP, by the kind of its first chunk: lossless (`VP8L`: 14-bit sizes minus
/// one, packed from byte 21 on), lossy (`VP8 `: a frame tag `9D 01 2A` then
/// 16-bit sizes) or extended (`VP8X`: 24-bit sizes minus one).
pub open spec fn webp_result(p: Seq<u8>) -> ImResult<ImInfo> {
    if has_at(p, 12, webp_vp8l()) {
        let b0 = p[21] as int;
        let b1 = p[22] as int;
        let b2 = p[23] as int;
        let b3 = p[24] as int;
        info(
            ImFormat::WEBP,
            (1 + (b1 % 64) * 256 + b0) as u64,
            (1 + (b3 % 16) * 1024 + b2 * 4 + b1 / 64) as u64,
        )
    } else if has_at(p, 12, webp_vp8()) {
        if p[23] != 0x9d || p[24] != 0x01 || p[25] != 0x2a {
            fail(ImFormat::WEBP)
        } else {
            info(
                ImFormat::WEBP,
                u16_at(Endian::Little, p, 26) as u64,
                u16_at(Endian::Little, p, 28) as u64,
            )
        }
    } else if has_at(p, 12, webp_vp8x()) {
        info(
            ImFormat::WEBP,
            (p[24] + 256 * p[25] + 65536 * p[26] + 1) as u64,
            (p[27] + 256 * p[28] + 65536 * p[29] + 1) as u64,
        )
    } else {
        fail(ImFormat::WEBP)
    }
}

/// PCX: the inclusive window bounds x1, y1, x2, y2, 16-bit little endian.
pub open spec fn pcx_result(p: Seq<u8>) -> ImResult<ImInfo> {
    let w = u16_at(Endian::Little, p, 8) - u16_at(Endian::Little, p, 4) + 1;
    let h = u16_at(Endian::Little, p, 10) - u16_at(Endian::Little, p, 6) + 1;
    if w <= 0 || h <= 0 {
        fail(ImFormat::PCX)
    } else {
        info(ImFormat::PCX, w as u64, h as u64)
    }
}

/// DIB: a `BITMAPINFOHEADER` without file header; the height is taken as its
/// absolute value, `None` where that overflows.
pub open spec fn dib_result(p: Seq<u8>) -> Option<ImResult<ImInfo>> {
    let w = i32_of(u32_at(Endian::Little, p, 4));
    let h = i32_of(u32_at(Endian::Little, p, 8));
    if h == i32::MIN {
        None
    } else {
        Some(info(ImFormat::DIB, w as u64, abs(h as int) as u64))
    }
}

/// VTF: needs a header size of at least 10; 16-bit little-endian sizes.
pub open spec fn vtf_result(p: Seq<u8>) -> ImResult<ImInfo> {
    if u32_at(Endian::Little, p, 12) < 10 {
        fail(ImFormat::VTF)
    } else {
        info(
            ImFormat::VTF,
            u16_at(Endian::Little, p, 16) as u64,
            u16_at(Endian::Little, p, 18) as u64,
        )
    }
}

/// ILBM: the `FORM` chunk needs room for a whole header chunk (32 bytes), the
/// `BMHD` chunk room for its data (20 bytes); 16-bit big-endian sizes.
pub open spec fn ilbm_result(p: Seq<u8>) -> ImResult<ImInfo> {
    if u32_at(Endian::Big, p, 4) < 32 || u32_at(Endian::Big, p, 16) < 20 {
        fail(ImFormat::ILBM)
    } else {
        info(
            ImFormat::ILBM,
            u16_at(Endian::Big, p, 20) as u64,
            u16_at(Endian::Big, p, 22) as u64,
        )
    }
}

/// Formats whose size is read at fixed offsets with no check: the offsets of
/// the width and height, their byte order and their width in bytes.
pub open spec fn fixed_result(format: ImFormat, p: Seq<u8>) -> ImResult<ImInfo> {
    match format {
        ImFormat::QOI => info(
            format,
            u32_at(Endian::Big, p, 4) as u64,
            u32_at(Endian::Big, p, 8) as u64,
        ),
        ImFormat::PSD | ImFormat::PSB => info(
            format,
            u32_at(Endian::Big, p, 18) as u64,
            u32_at(Endian::Big, p, 14) as u64,
        ),
        ImFormat::XCF => info(
            format,
            u32_at(Endian::Big, p, 14) as u64,
            u32_at(Endian::Big, p, 18) as u64,
        ),
        ImFormat::DDS => info(
            format,
            u32_at(Endian::Little, p, 16) as u64,
            u32_at(Endian::Little, p, 12) as u64,
        ),
        _ => info(
            format,
            u16_at(Endian::Little, p, 12) as u64,
            u16_at(Endian::Little, p, 14) as u64,
        ),
    }
}

pub fn parse_gif(p: &[u8], n: usize) -> (r: ImResult<ImInfo>)
    requires
        p.len() == 30,
    ensures
        r == gif_result(p@, n as int),
{
    if n < 10 {
        return Err(ImError::ParserError(ImFormat::GIF));
    }
    Ok(
        ImInfo {
            width: load_u16(Endian::Little, p, 6) as u64,
            height: load_u16(Endian::Little, p, 8) as u64,
            format: ImFormat::GIF,
        },
    )
}

pub fn parse_png(p: &[u8], n: usize) -> (r: ImResult<ImInfo>)
    requires
        p.len() == 30,
    ensures
        r == png_result(p@, n as int),
{
    let ihdr: [u8; 4] = [0x49, 0x48, 0x44, 0x52];
    assert(ihdr@ =~= name_ihdr_upper());
    if n < 24 || load_u32(Endian::Big, p, 8) < 8 || !crate::bytes::bytes_at(p, 12, ihdr.as_slice()) {
        return Err(ImError::ParserError(ImFormat::PNG));
    }
    Ok(
        ImInfo {
            width: load_u32(Endian::Big, p, 16) as u64,
            height: load_u32(Endian::Big, p, 20) as u64,
            format: ImFormat::PNG,
        },
    )
}

fn abs_u64_i16(h: i16) -> (r: u64)
    requires
        h != i16::MIN,
    ensures
        r == abs(h as int) as u64,
{
    if h < 0 {
        (-h) as u64
    } else {
        h as u64
    }
}

fn abs_u64_i32(h: i32) -> (r: u64)
    requires
        h != i32::MIN,
    ensures
        r == abs(h as int) as u64,
{
    if h < 0 {
        (-h) as u64
    } else {
        h as u64
    }
}

pub fn parse_bmp(p: &[u8], n: usize) -> (r: Option<ImResult<ImInfo>>)
    requires
        p.len() == 30,
    ensures
        r == bmp_result(p@, n as int),
{
    let file_size = load_u32(Endian::Little, p, 2) as u64;
    let min_size = if file_size < n as u64 {
        file_size
    } else {
        n as u64
    };
    let header_size = load_u32(Endian::Little, p, 14);
    if min_size < 22 {
        return Some(Err(ImError::ParserError(ImFormat::BMP)));
    }
    if header_size == 12 {
        let w = to_i16(load_u16(Endian::Little, p, 18));
        let h = to_i16(load_u16(Endian::Little, p, 20));
        if h == i16::MIN {
            return None;
        }
        Some(Ok(ImInfo { width: w as u64, height: abs_u64_i16(h), format: ImFormat::BMP }))
    } else {
        if min_size < 26 || header_size <= 12 {
            return Some(Err(ImError::ParserError(ImFormat::BMP)));
        }
        let w = to_i32(load_u32(Endian::Little, p, 18));
        let h = to_i32(load_u32(Endian::Little, p, 22));
        if h == i32::MIN {
            return None;
        }
        Some(Ok(ImInfo { width: w as u64, height: abs_u64_i32(h), format: ImFormat::BMP }))
    }
}

pub fn parse_webp(p: &[u8]) -> (r: ImResult<ImInfo>)
    requires
        p.len() == 30,
    ensures
        r == webp_result(p@),
{
    let vp8l: [u8; 4] = [0x56, 0x50, 0x38, 0x4c];
    let vp8: [u8; 4] = [0x56, 0x50, 0x38, 0x20];
    let vp8x: [u8; 4] = [0x56, 0x50, 0x38, 0x58];
    assert(vp8l@ =~= webp_vp8l());
    assert(vp8@ =~= webp_vp8());
    assert(vp8x@ =~= webp_vp8x());
    if crate::bytes::bytes_at(p, 12, vp8l.as_slice()) {
        let b0 = p[21] as u32;
        let b1 = p[22] as u32;
        let b2 = p[23] as u32;
        let b3 = p[24] as u32;
        let w = 1 + (b1 % 64) * 256 + b0;
        let h = 1 + (b3 % 16) * 1024 + b2 * 4 + b1 / 64;
        Ok(ImInfo { width: w as u64, height: h as u64, format: ImFormat::WEBP })
    } else if crate::bytes::bytes_at(p, 12, vp8.as_slice()) {
        if p[23] != 0x9d || p[24] != 0x01 || p[25] != 0x2a {
            return Err(ImError::ParserError(ImFormat::WEBP));
        }
        Ok(
            ImInfo {
                width: load_u16(Endian::Little, p, 26) as u64,
                height: load_u16(Endian::Little, p, 28) as u64,
                format: ImFormat::WEBP,
            },
        )
    } else if crate::bytes::bytes_at(p, 12, vp8x.as_slice()) {
        let w = p[24] as u64 + 256 * p[25] as u64 + 65536 * p[26] as u64 + 1;
        let h = p[27] as u64 + 256 * p[28] as u64 + 65536 * p[29] as u64 + 1;
        Ok(ImInfo { width: w, height: h, format: ImFormat::WEBP })
    } else {
        Err(ImError::ParserError(ImFormat::WEBP))
    }
}

pub fn parse_pcx(p: &[u8]) -> (r: ImResult<ImInfo>)
    requires
        p.len() == 30,
    ensures
        r == pcx_result(p@),
{
    let x1 = load_u16(Endian::Little, p, 4) as i64;
    let y1 = load_u16(Endian::Little, p, 6) as i64;
    let x2 = load_u16(Endian::Little, p, 8) as i64;
    let y2 = load_u16(Endian::Little, p, 10) as i64;
    let w = x2 - x1 + 1;
    let h = y2 - y1 + 1;
    if w <= 0 || h <= 0 {
        return Err(ImError::ParserError(ImFormat::PCX));
    }
    Ok(ImInfo { width: w as u64, height: h as u64, format: ImFormat::PCX })
}

pub fn parse_dib(p: &[u8]) -> (r: Option<ImResult<ImInfo>>)
    requires
        p.len() == 30,
    ensures
        r == dib_result(p@),
{
    let w = to_i32(load_u32(Endian::Little, p, 4));
    let h = to_i32(load_u32(Endian::Little, p, 8));
    if h == i32::MIN {
        return None;
    }
    Some(Ok(ImInfo { width: w as u64, height: abs_u64_i32(h), format: ImFormat::DIB }))
}

pub fn parse_vtf(p: &[u8]) -> (r: ImResult<ImInfo>)
    requires
        p.len() == 30,
    ensures
        r == vtf_result(p@),
{
    if load_u32(Endian::Little, p, 12) < 10 {
        return Err(ImError::ParserError(ImFormat::VTF));
    }
    Ok(
        ImInfo {
            width: load_u16(Endian::Little, p, 16) as u64,
            height: load_u16(Endian::Little, p, 18) as u64,
            format: ImFormat::VTF,
        },
    )
}

pub fn parse_ilbm(p: &[u8]) -> (r: ImResult<ImInfo>)
    requires
        p.len() == 30,
    ensures
        r == ilbm_result(p@),
{
    if load_u32(Endian::Big, p, 4) < 32 || load_u32(Endian::Big, p, 16) < 20 {
        return Err(ImError::ParserError(ImFormat::ILBM));
    }
    Ok(
        ImInfo {
            width: load_u16(Endian::Big, p, 20) as u64,
            height: load_u16(Endian::Big, p, 22) as u64,
            format: ImFormat::ILBM,
        },
    )
}

pub fn parse_fixed(format: ImFormat, p: &[u8]) -> (r: ImResult<ImInfo>)
    requires
        p.len() == 30,
    ensures
        r == fixed_result(format, p@),
{
    let (w, h) = match format {
        ImFormat::QOI => (load_u32(Endian::Big, p, 4) as u64, load_u32(Endian::Big, p, 8) as u64),
        ImFormat::PSD | ImFormat::PSB => (
            load_u32(Endian::Big, p, 18) as u64,
            load_u32(Endian::Big, p, 14) as u64,
        ),
        ImFormat::XCF => (load_u32(Endian::Big, p, 14) as u64, load_u32(Endian::Big, p, 18) as u64),
        ImFormat::DDS => (
            load_u32(Endian::Little, p, 16) as u64,
            load_u32(Endian::Little, p, 12) as u64,
        ),
        _ => (load_u16(Endian::Little, p, 12) as u64, load_u16(Endian::Little, p, 14) as u64),
    };
    Ok(ImInfo { width: w, height: h, format })
}

} // verus!
