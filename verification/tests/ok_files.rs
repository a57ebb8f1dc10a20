use imsz::{imsz, imsz_from_bytes, ImFormat, ImInfo, ImResult};

fn be32(v: u32) -> [u8; 4] {
    v.to_be_bytes()
}

fn le32(v: u32) -> [u8; 4] {
    v.to_le_bytes()
}

/// A box (chunk) with a big-endian size that counts its 8-byte header.
fn boxed(name: &[u8; 4], content: &[u8]) -> Vec<u8> {
    let mut out = Vec::new();
    out.extend_from_slice(&be32(8 + content.len() as u32));
    out.extend_from_slice(name);
    out.extend_from_slice(content);
    out
}

fn padded(mut data: Vec<u8>, len: usize) -> Vec<u8> {
    while data.len() < len {
        data.push(0);
    }
    data
}

fn heif_image(brand: &[u8; 4]) -> Vec<u8> {
    let mut ftyp_content = Vec::new();
    ftyp_content.extend_from_slice(brand);
    ftyp_content.extend_from_slice(&[0, 0, 0, 0]);
    ftyp_content.extend_from_slice(b"mif1");
    let mut data = boxed(b"ftyp", &ftyp_content);

    let mut ispe = vec![0, 0, 0, 0];
    ispe.extend_from_slice(&be32(32));
    ispe.extend_from_slice(&be32(16));
    let mut ipco = boxed(b"colr", b"nclx\0\x01\0\x0d\0\x06\x80");
    ipco.extend(boxed(b"ispe", &ispe));
    let iprp = boxed(b"ipco", &ipco);
    let mut meta = vec![0, 0, 0, 0];
    meta.extend(boxed(b"hdlr", b"\0\0\0\0\0\0\0\0pict"));
    meta.extend(boxed(b"iprp", &iprp));
    data.extend(boxed(b"meta", &meta));
    data.extend(boxed(b"mdat", &[1, 2, 3, 4]));
    data
}

fn bmp_image(height: i32) -> Vec<u8> {
    let mut data = b"BM".to_vec();
    data.extend_from_slice(&le32(70));
    data.extend_from_slice(&[0, 0, 0, 0]);
    data.extend_from_slice(&le32(54));
    data.extend_from_slice(&le32(40));
    data.extend_from_slice(&32i32.to_le_bytes());
    data.extend_from_slice(&height.to_le_bytes());
    data.extend_from_slice(&[1, 0, 24, 0]);
    padded(data, 70)
}

fn tiff_image(big: bool) -> Vec<u8> {
    let u16b = |v: u16| if big { v.to_be_bytes() } else { v.to_le_bytes() };
    let u32b = |v: u32| if big { v.to_be_bytes() } else { v.to_le_bytes() };
    let mut data = if big { b"MM\0*".to_vec() } else { b"II*\0".to_vec() };
    data.extend_from_slice(&u32b(8));
    data.extend_from_slice(&u16b(3));
    // width: SHORT 32
    data.extend_from_slice(&u16b(256));
    data.extend_from_slice(&u16b(3));
    data.extend_from_slice(&u32b(1));
    data.extend_from_slice(&u16b(32));
    data.extend_from_slice(&[0, 0]);
    // height: LONG 16
    data.extend_from_slice(&u16b(257));
    data.extend_from_slice(&u16b(4));
    data.extend_from_slice(&u32b(1));
    data.extend_from_slice(&u32b(16));
    // compression
    data.extend_from_slice(&u16b(259));
    data.extend_from_slice(&u16b(3));
    data.extend_from_slice(&u32b(1));
    data.extend_from_slice(&u16b(1));
    data.extend_from_slice(&[0, 0]);
    data.extend_from_slice(&u32b(0));
    data
}

fn webp_image(chunk: &[u8; 4], payload: &[u8]) -> Vec<u8> {
    let mut body = b"WEBP".to_vec();
    body.extend_from_slice(chunk);
    body.extend_from_slice(&le32(payload.len() as u32));
    body.extend_from_slice(payload);
    let mut data = b"RIFF".to_vec();
    data.extend_from_slice(&le32(body.len() as u32));
    data.extend(body);
    padded(data, 40)
}

fn vp8l_payload() -> Vec<u8> {
    // signature, then (width - 1) | (height - 1) << 14, little endian
    let bits: u32 = 31 | (15 << 14);
    let mut p = vec![0x2f];
    p.extend_from_slice(&le32(bits));
    p.extend_from_slice(&[0, 0, 0]);
    p
}

fn vp8_payload() -> Vec<u8> {
    let mut p = vec![0x30, 0x01, 0x00, 0x9d, 0x01, 0x2a];
    p.extend_from_slice(&32u16.to_le_bytes());
    p.extend_from_slice(&16u16.to_le_bytes());
    p.extend_from_slice(&[0, 0]);
    p
}

fn vp8x_image(inner_chunk: &[u8; 4], inner: &[u8]) -> Vec<u8> {
    let mut payload = vec![0x10, 0, 0, 0];
    payload.extend_from_slice(&[31, 0, 0]);
    payload.extend_from_slice(&[15, 0, 0]);
    payload.extend_from_slice(inner_chunk);
    payload.extend_from_slice(&le32(inner.len() as u32));
    payload.extend_from_slice(inner);
    webp_image(b"VP8X", &payload)
}

fn check(result: ImResult<ImInfo>, format: ImFormat, name: &str) {
    match result {
        Ok(info) => {
            assert_eq!(info.format, format);
            assert_eq!(info.format.name(), name);
            assert_eq!(info.width, 32);
            assert_eq!(info.height, 16);
        }
        Err(error) => {
            assert!(false, "{}", error.message());
        }
    }
}

#[test]
fn avif() {
    check(imsz_from_bytes(&heif_image(b"avif")), ImFormat::AVIF, "AVIF");
}

#[test]
fn bmp() {
    check(imsz_from_bytes(&bmp_image(16)), ImFormat::BMP, "BMP");
}

#[test]
fn dds() {
    let mut data = b"DDS \x7c\0\0\0".to_vec();
    data.extend_from_slice(&le32(0x1007));
    data.extend_from_slice(&le32(16));
    data.extend_from_slice(&le32(32));
    check(imsz_from_bytes(&padded(data, 128)), ImFormat::DDS, "DDS");
}

#[test]
fn dib() {
    let mut data = le32(40).to_vec();
    data.extend_from_slice(&32i32.to_le_bytes());
    data.extend_from_slice(&16i32.to_le_bytes());
    data.extend_from_slice(&[1, 0, 24, 0]);
    check(imsz_from_bytes(&padded(data, 60)), ImFormat::DIB, "DIB");
}

#[test]
fn exr() {
    let mut data = vec![0x76, 0x2f, 0x31, 0x01, 0x02, 0, 0, 0];
    data.extend_from_slice(b"comments\0string\0");
    data.extend_from_slice(&le32(3));
    data.extend_from_slice(b"abc");
    data.extend_from_slice(b"displayWindow\0box2i\0");
    data.extend_from_slice(&le32(16));
    for v in [0i32, 0, 31, 15] {
        data.extend_from_slice(&v.to_le_bytes());
    }
    data.push(0);
    check(imsz_from_bytes(&data), ImFormat::OpenEXR, "OpenEXR");
}

#[test]
fn gif() {
    let mut data = b"GIF89a".to_vec();
    data.extend_from_slice(&32u16.to_le_bytes());
    data.extend_from_slice(&16u16.to_le_bytes());
    data.extend_from_slice(&[0xf0, 0, 0, 0x3b]);
    check(imsz_from_bytes(&data), ImFormat::GIF, "GIF");
}

#[test]
fn heif() {
    check(imsz_from_bytes(&heif_image(b"heic")), ImFormat::HEIF, "HEIF");
}

#[test]
fn ico() {
    let mut data = vec![0, 0, 1, 0, 2, 0];
    let mut small = vec![16, 8];
    small.resize(16, 0);
    let mut big = vec![32, 16];
    big.resize(16, 0);
    data.extend(small);
    data.extend(big);
    check(imsz_from_bytes(&data), ImFormat::ICO, "ICO");
}

#[test]
fn ilbm() {
    let mut bmhd = Vec::new();
    bmhd.extend_from_slice(&32u16.to_be_bytes());
    bmhd.extend_from_slice(&16u16.to_be_bytes());
    bmhd.resize(20, 0);
    let mut form = b"ILBM".to_vec();
    form.extend(boxed_size_only(b"BMHD", &bmhd));
    let data = boxed_size_only(b"FORM", &form);
    check(imsz_from_bytes(&data), ImFormat::ILBM, "ILBM");
}

/// An IFF chunk: name, big-endian size of the content, content.
fn boxed_size_only(name: &[u8; 4], content: &[u8]) -> Vec<u8> {
    let mut out = name.to_vec();
    out.extend_from_slice(&be32(content.len() as u32));
    out.extend_from_slice(content);
    out
}

#[test]
fn jp2() {
    let mut data = vec![0, 0, 0, 0x0c, 0x6a, 0x50, 0x20, 0x20, 0x0d, 0x0a, 0x87, 0x0a];
    data.extend(boxed(b"ftyp", b"jp2 \0\0\0\0jp2 "));
    let mut ihdr = Vec::new();
    ihdr.extend_from_slice(&be32(16));
    ihdr.extend_from_slice(&be32(32));
    ihdr.extend_from_slice(&[0, 3, 7, 7, 0, 0]);
    let mut jp2h = boxed(b"ihdr", &ihdr);
    jp2h.extend(boxed(b"colr", &[1, 0, 0, 0, 0, 0, 16]));
    data.extend(boxed(b"jp2h", &jp2h));
    check(imsz_from_bytes(&data), ImFormat::JP2K, "JPEG 2000");
}

#[test]
fn jpeg() {
    let mut data = vec![0xff, 0xd8, 0xff, 0xe0, 0x00, 0x10];
    data.extend_from_slice(b"JFIF\0\x01\x01\0\0\x01\0\x01\0\0");
    data.extend_from_slice(&[0xff, 0xc0, 0x00, 0x11, 0x08]);
    data.extend_from_slice(&16u16.to_be_bytes());
    data.extend_from_slice(&32u16.to_be_bytes());
    data.extend_from_slice(&[3, 1, 0x22, 0, 2, 0x11, 1, 3, 0x11, 1, 0xff, 0xd9]);
    check(imsz_from_bytes(&data), ImFormat::JPEG, "JPEG");
}

#[test]
fn pcx() {
    let mut data = vec![0x0a, 5, 1, 8];
    for v in [0u16, 0, 31, 15] {
        data.extend_from_slice(&v.to_le_bytes());
    }
    check(imsz_from_bytes(&padded(data, 128)), ImFormat::PCX, "PCX");
}

#[test]
fn png() {
    let mut data = b"\x89PNG\r\n\x1a\n".to_vec();
    let mut ihdr = Vec::new();
    ihdr.extend_from_slice(&be32(32));
    ihdr.extend_from_slice(&be32(16));
    ihdr.extend_from_slice(&[8, 6, 0, 0, 0]);
    data.extend_from_slice(&be32(13));
    data.extend_from_slice(b"IHDR");
    data.extend(ihdr);
    data.extend_from_slice(&[0, 0, 0, 0]);
    check(imsz_from_bytes(&data), ImFormat::PNG, "PNG");
}

fn photoshop_image(version: u8) -> Vec<u8> {
    let mut data = b"8BPS".to_vec();
    data.extend_from_slice(&[0, version, 0, 0, 0, 0, 0, 0, 0, 3]);
    data.extend_from_slice(&be32(16));
    data.extend_from_slice(&be32(32));
    data.extend_from_slice(&[0, 8, 0, 3]);
    padded(data, 40)
}

#[test]
fn psb() {
    check(imsz_from_bytes(&photoshop_image(2)), ImFormat::PSB, "PSB");
}

#[test]
fn psd() {
    check(imsz_from_bytes(&photoshop_image(1)), ImFormat::PSD, "PSD");
}

#[test]
fn qoi() {
    let mut data = b"qoif".to_vec();
    data.extend_from_slice(&be32(32));
    data.extend_from_slice(&be32(16));
    data.extend_from_slice(&[4, 0]);
    data.extend_from_slice(&[0, 0, 0, 0, 0, 0, 0, 1]);
    check(imsz_from_bytes(&data), ImFormat::QOI, "QOI");
}

fn tga_image() -> Vec<u8> {
    let mut data = vec![0, 0, 2, 0, 0, 0, 0, 0, 0, 0, 0, 0];
    data.extend_from_slice(&32u16.to_le_bytes());
    data.extend_from_slice(&16u16.to_le_bytes());
    data.extend_from_slice(&[24, 0]);
    data.resize(18 + 32 * 16 * 3, 0x80);
    data.extend_from_slice(&[0; 8]);
    data.extend_from_slice(b"TRUEVISION-XFILE.\0");
    data
}

#[test]
fn tga() {
    check(imsz_from_bytes(&tga_image()), ImFormat::TGA, "TGA");
}

#[test]
fn tiff_be() {
    check(imsz_from_bytes(&tiff_image(true)), ImFormat::TIFF, "TIFF");
}

#[test]
fn tiff_le() {
    check(imsz_from_bytes(&tiff_image(false)), ImFormat::TIFF, "TIFF");
}

#[test]
fn webp_lossless() {
    check(imsz_from_bytes(&webp_image(b"VP8L", &vp8l_payload())), ImFormat::WEBP, "WebP");
}

#[test]
fn webp_lossless_vp8x() {
    check(imsz_from_bytes(&vp8x_image(b"VP8L", &vp8l_payload())), ImFormat::WEBP, "WebP");
}

#[test]
fn webp_lossy() {
    check(imsz_from_bytes(&webp_image(b"VP8 ", &vp8_payload())), ImFormat::WEBP, "WebP");
}

#[test]
fn webp_lossy_vp8x() {
    check(imsz_from_bytes(&vp8x_image(b"VP8 ", &vp8_payload())), ImFormat::WEBP, "WebP");
}

#[test]
fn xcf() {
    let mut data = b"gimp xcf v011\0".to_vec();
    data.extend_from_slice(&be32(32));
    data.extend_from_slice(&be32(16));
    data.extend_from_slice(&be32(0));
    check(imsz_from_bytes(&padded(data, 40)), ImFormat::XCF, "XCF");
}

#[test]
fn imsz_accepts_buffers_of_each_kind() {
    let data = tiff_image(false);
    check(imsz(data.as_slice()), ImFormat::TIFF, "TIFF");
    check(imsz(&data), ImFormat::TIFF, "TIFF");
    check(imsz(data.clone()), ImFormat::TIFF, "TIFF");
    let mut array = [0u8; 40];
    array[..data.len().min(40)].copy_from_slice(&data[..data.len().min(40)]);
    check(imsz(&array), ImFormat::TIFF, "TIFF");
    check(imsz(array), ImFormat::TIFF, "TIFF");
}
