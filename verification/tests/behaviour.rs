use imsz::format::ImFormat as Format;
use imsz::{
    convert_result, imsz_from_bytes, imsz_from_stream, imsz_step, w, CStatus, Fetched, ImError,
    ImFormat, ImInfo, Segment, Window,
};

fn size_of(result: Result<ImInfo, ImError>) -> (ImFormat, u64, u64) {
    match result {
        Ok(info) => (info.format, info.width, info.height),
        Err(error) => panic!("{}", error.message()),
    }
}

fn parser_error(result: Result<ImInfo, ImError>) -> ImFormat {
    match result {
        Err(ImError::ParserError(format)) => format,
        Err(error) => panic!("unexpected error: {}", error.message()),
        Ok(info) => panic!("unexpected success: {:?}", info),
    }
}

fn tiff_with_fields(width_type: u16, width_value: &[u8], height: u32) -> Vec<u8> {
    // little endian, directory at 8, width value stored past the directory
    let mut data = b"II*\0".to_vec();
    data.extend_from_slice(&8u32.to_le_bytes());
    data.extend_from_slice(&2u16.to_le_bytes());
    data.extend_from_slice(&256u16.to_le_bytes());
    data.extend_from_slice(&width_type.to_le_bytes());
    data.extend_from_slice(&1u32.to_le_bytes());
    if width_value.len() <= 4 {
        let mut v = width_value.to_vec();
        v.resize(4, 0);
        data.extend_from_slice(&v);
    } else {
        // an 8-byte value does not fit: the first 4 bytes are stored in place
        data.extend_from_slice(&width_value[..4]);
    }
    data.extend_from_slice(&257u16.to_le_bytes());
    data.extend_from_slice(&4u16.to_le_bytes());
    data.extend_from_slice(&1u32.to_le_bytes());
    data.extend_from_slice(&height.to_le_bytes());
    data.extend_from_slice(&0u32.to_le_bytes());
    data
}

/// A TIFF whose width entry is an 8-byte value (read in place at the entry,
/// overlapping the next entry's first 4 bytes).
fn tiff_wide_width(width_type: u16, value: [u8; 8]) -> Vec<u8> {
    let mut data = b"II*\0".to_vec();
    data.extend_from_slice(&8u32.to_le_bytes());
    data.extend_from_slice(&1u16.to_le_bytes());
    data.extend_from_slice(&256u16.to_le_bytes());
    data.extend_from_slice(&width_type.to_le_bytes());
    data.extend_from_slice(&1u32.to_le_bytes());
    data.extend_from_slice(&value);
    data
}

#[test]
fn unknown_format() {
    let result = imsz_from_bytes(b"this is not an image at all, really");
    assert!(matches!(result, Err(ImError::UnknownFormat)));
    assert!(matches!(imsz_from_bytes(b""), Err(ImError::UnknownFormat)));
}

#[test]
fn truncated_gif_is_a_parser_error() {
    assert_eq!(parser_error(imsz_from_bytes(b"GIF89a\x20\x00")), ImFormat::GIF);
}

#[test]
fn png_without_ihdr_is_a_parser_error() {
    let mut data = b"\x89PNG\r\n\x1a\n\0\0\0\x0dIDAT".to_vec();
    data.resize(40, 0);
    assert_eq!(parser_error(imsz_from_bytes(&data)), ImFormat::PNG);
}

#[test]
fn bmp_height_is_absolute() {
    let mut data = b"BM".to_vec();
    data.extend_from_slice(&70u32.to_le_bytes());
    data.extend_from_slice(&[0; 4]);
    data.extend_from_slice(&54u32.to_le_bytes());
    data.extend_from_slice(&40u32.to_le_bytes());
    data.extend_from_slice(&32i32.to_le_bytes());
    data.extend_from_slice(&(-16i32).to_le_bytes());
    data.resize(70, 0);
    assert_eq!(size_of(imsz_from_bytes(&data)), (ImFormat::BMP, 32, 16));
}

#[test]
fn bmp_core_header() {
    let mut data = b"BM".to_vec();
    data.extend_from_slice(&40u32.to_le_bytes());
    data.extend_from_slice(&[0; 4]);
    data.extend_from_slice(&26u32.to_le_bytes());
    data.extend_from_slice(&12u32.to_le_bytes());
    data.extend_from_slice(&(-3i16).to_le_bytes());
    data.extend_from_slice(&(-7i16).to_le_bytes());
    data.resize(40, 0);
    // the width is sign extended, the height made positive
    assert_eq!(size_of(imsz_from_bytes(&data)), (ImFormat::BMP, u64::MAX - 2, 7));
}

#[test]
fn bmp_height_overflow_faults() {
    let mut data = b"BM".to_vec();
    data.extend_from_slice(&70u32.to_le_bytes());
    data.extend_from_slice(&[0; 4]);
    data.extend_from_slice(&54u32.to_le_bytes());
    data.extend_from_slice(&40u32.to_le_bytes());
    data.extend_from_slice(&32i32.to_le_bytes());
    data.extend_from_slice(&i32::MIN.to_le_bytes());
    data.resize(70, 0);
    assert!(imsz_from_stream(&data, 0).is_none());
}

#[test]
fn tiff_rational_and_float_fields() {
    // RATIONAL 96/3 = 32
    let mut v = 96u32.to_le_bytes().to_vec();
    v.extend_from_slice(&3u32.to_le_bytes());
    let data = tiff_wide_width(5, v.clone().try_into().unwrap());
    let mut data = data;
    data.extend_from_slice(&[0; 8]);
    // only the width is present: the directory ends without a height
    assert_eq!(parser_error(imsz_from_bytes(&data)), ImFormat::TIFF);

    // FLOAT 32.75 truncates to 32
    let data = tiff_with_fields(11, &32.75f32.to_bits().to_le_bytes(), 16);
    assert_eq!(size_of(imsz_from_bytes(&data)), (ImFormat::TIFF, 32, 16));
    // negative FLOAT saturates to 0
    let data = tiff_with_fields(11, &(-5.0f32).to_bits().to_le_bytes(), 16);
    assert_eq!(size_of(imsz_from_bytes(&data)), (ImFormat::TIFF, 0, 16));
    // SSHORT is clamped at 0
    let data = tiff_with_fields(8, &(-9i16).to_le_bytes(), 16);
    assert_eq!(size_of(imsz_from_bytes(&data)), (ImFormat::TIFF, 0, 16));
    // BYTE
    let data = tiff_with_fields(1, &[200], 16);
    assert_eq!(size_of(imsz_from_bytes(&data)), (ImFormat::TIFF, 200, 16));
    // unknown field type
    let data = tiff_with_fields(13, &[1, 2, 3, 4], 16);
    assert_eq!(parser_error(imsz_from_bytes(&data)), ImFormat::TIFF);
}

#[test]
fn tiff_double_and_srational_values() {
    // height first, then a DOUBLE width read in place
    let mut data = b"II*\0".to_vec();
    data.extend_from_slice(&8u32.to_le_bytes());
    data.extend_from_slice(&2u16.to_le_bytes());
    data.extend_from_slice(&257u16.to_le_bytes());
    data.extend_from_slice(&3u16.to_le_bytes());
    data.extend_from_slice(&1u32.to_le_bytes());
    data.extend_from_slice(&[16, 0, 0, 0]);
    data.extend_from_slice(&256u16.to_le_bytes());
    data.extend_from_slice(&12u16.to_le_bytes());
    data.extend_from_slice(&1u32.to_le_bytes());
    data.extend_from_slice(&1e30f64.to_bits().to_le_bytes());
    assert_eq!(size_of(imsz_from_bytes(&data)), (ImFormat::TIFF, 1e30f64 as u64, 16));

    let mut data = b"II*\0".to_vec();
    data.extend_from_slice(&8u32.to_le_bytes());
    data.extend_from_slice(&2u16.to_le_bytes());
    data.extend_from_slice(&257u16.to_le_bytes());
    data.extend_from_slice(&3u16.to_le_bytes());
    data.extend_from_slice(&1u32.to_le_bytes());
    data.extend_from_slice(&[16, 0, 0, 0]);
    data.extend_from_slice(&256u16.to_le_bytes());
    data.extend_from_slice(&10u16.to_le_bytes());
    data.extend_from_slice(&1u32.to_le_bytes());
    data.extend_from_slice(&(-100i32).to_le_bytes());
    data.extend_from_slice(&(-3i32).to_le_bytes());
    // -100 / -3 rounds toward zero: 33
    assert_eq!(size_of(imsz_from_bytes(&data)), (ImFormat::TIFF, 33, 16));
}

#[test]
fn tiff_zero_denominator_faults() {
    let mut data = b"II*\0".to_vec();
    data.extend_from_slice(&8u32.to_le_bytes());
    data.extend_from_slice(&1u16.to_le_bytes());
    data.extend_from_slice(&256u16.to_le_bytes());
    data.extend_from_slice(&5u16.to_le_bytes());
    data.extend_from_slice(&1u32.to_le_bytes());
    data.extend_from_slice(&7u32.to_le_bytes());
    data.extend_from_slice(&0u32.to_le_bytes());
    assert!(imsz_from_stream(&data, 0).is_none());
}

#[test]
fn ico_keeps_the_biggest_image() {
    let mut data = vec![0, 0, 1, 0, 3, 0];
    for (w, h) in [(48u8, 48u8), (64, 32), (16, 16)] {
        let mut entry = vec![w, h];
        entry.resize(16, 0);
        data.extend(entry);
    }
    // (64, 32) is not at least as high as (48, 48): the first stays
    assert_eq!(size_of(imsz_from_bytes(&data)), (ImFormat::ICO, 48, 48));
    let empty = vec![0, 0, 1, 0, 0, 0];
    assert_eq!(size_of(imsz_from_bytes(&empty)), (ImFormat::ICO, 0, 0));
    let short = vec![0, 0, 1, 0, 1, 0, 32, 32];
    assert_eq!(parser_error(imsz_from_bytes(&short)), ImFormat::ICO);
}

#[test]
fn jpeg_without_frame_is_a_parser_error() {
    let data = vec![0xff, 0xd8, 0xff, 0xe0, 0x00, 0x04, 0x00, 0x00, 0xff, 0xda, 0x00, 0x02, 0x00];
    assert_eq!(parser_error(imsz_from_bytes(&data)), ImFormat::JPEG);
}

#[test]
fn jpeg_short_segment_length_faults() {
    let data = vec![0xff, 0xd8, 0xff, 0xe0, 0x00, 0x01, 0x00, 0x00];
    assert!(imsz_from_stream(&data, 0).is_none());
}

#[test]
fn exr_empty_window_is_a_parser_error() {
    let mut data = vec![0x76, 0x2f, 0x31, 0x01, 0x02, 0, 0, 0];
    data.extend_from_slice(b"displayWindow\0box2i\0");
    data.extend_from_slice(&16u32.to_le_bytes());
    for v in [10i32, 0, 5, 15] {
        data.extend_from_slice(&v.to_le_bytes());
    }
    assert_eq!(parser_error(imsz_from_bytes(&data)), ImFormat::OpenEXR);
}

#[test]
fn pcx_inverted_window_is_a_parser_error() {
    let mut data = vec![0x0a, 5, 1, 8];
    for v in [10u16, 0, 5, 15] {
        data.extend_from_slice(&v.to_le_bytes());
    }
    data.resize(64, 0);
    assert_eq!(parser_error(imsz_from_bytes(&data)), ImFormat::PCX);
}

#[test]
fn tga_needs_its_footer() {
    let mut data = vec![0, 0, 2, 0, 0, 0, 0, 0, 0, 0, 0, 0, 32, 0, 16, 0, 24, 0];
    data.resize(200, 0x80);
    assert!(matches!(imsz_from_bytes(&data), Err(ImError::UnknownFormat)));
    data.extend_from_slice(b"TRUEVISION-XFILE.\0");
    assert_eq!(size_of(imsz_from_bytes(&data)), (ImFormat::TGA, 32, 16));
}

#[test]
fn webp_lossless_bit_packing() {
    // width 1 + 0x3abc, height 1 + 0x2def
    let (wm, hm) = (0x3abcu32, 0x2defu32);
    let bits = wm | (hm << 14);
    let mut data = b"RIFF\0\0\0\0WEBPVP8L\0\0\0\0\x2f".to_vec();
    data.extend_from_slice(&bits.to_le_bytes());
    data.resize(40, 0);
    assert_eq!(
        size_of(imsz_from_bytes(&data)),
        (ImFormat::WEBP, 1 + wm as u64, 1 + hm as u64)
    );
}

#[test]
fn stream_read_from_an_offset() {
    // the preamble is read at the offset; later reads use absolute positions
    let mut data = vec![9u8; 5];
    data.extend_from_slice(b"qoif");
    data.extend_from_slice(&7u32.to_be_bytes());
    data.extend_from_slice(&9u32.to_be_bytes());
    data.extend_from_slice(&[4, 0]);
    match imsz_from_stream(&data, 5) {
        Some(Ok(info)) => assert_eq!((info.format, info.width, info.height), (ImFormat::QOI, 7, 9)),
        _ => panic!("expected a QOI size"),
    }
    assert!(matches!(imsz_from_stream(&data, 100), Some(Err(ImError::UnknownFormat))));
}

#[test]
fn header_formats_ignore_trailing_bytes() {
    let mut data = b"qoif".to_vec();
    data.extend_from_slice(&32u32.to_be_bytes());
    data.extend_from_slice(&16u32.to_be_bytes());
    data.extend_from_slice(&[4, 0]);
    data.resize(30, 0);
    let first = size_of(imsz_from_bytes(&data));
    data.extend_from_slice(&[0xff; 100]);
    assert_eq!(size_of(imsz_from_bytes(&data)), first);
}

#[test]
fn format_names_and_codes() {
    let all = [
        (Format::GIF, "GIF"),
        (Format::PNG, "PNG"),
        (Format::BMP, "BMP"),
        (Format::JPEG, "JPEG"),
        (Format::WEBP, "WebP"),
        (Format::QOI, "QOI"),
        (Format::PSD, "PSD"),
        (Format::PSB, "PSB"),
        (Format::XCF, "XCF"),
        (Format::ICO, "ICO"),
        (Format::AVIF, "AVIF"),
        (Format::TIFF, "TIFF"),
        (Format::OpenEXR, "OpenEXR"),
        (Format::PCX, "PCX"),
        (Format::TGA, "TGA"),
        (Format::DDS, "DDS"),
        (Format::HEIF, "HEIF"),
        (Format::JP2K, "JPEG 2000"),
        (Format::DIB, "DIB"),
        (Format::VTF, "VTF"),
        (Format::ILBM, "ILBM"),
    ];
    for (index, (format, name)) in all.iter().enumerate() {
        assert_eq!(format.name(), *name);
        assert_eq!(format.code(), index as u32 + 1);
        assert_eq!(Format::from_code(format.code()), Some(*format));
    }
    for (i, (_, a)) in all.iter().enumerate() {
        for (_, b) in all.iter().skip(i + 1) {
            assert_ne!(a, b);
        }
    }
    assert_eq!(Format::from_code(0), None);
    assert_eq!(Format::from_code(22), None);
}

#[test]
fn error_messages() {
    assert_eq!(ImError::UnknownFormat.message(), "Unknown Format");
    assert_eq!(ImError::ParserError(ImFormat::JP2K).message(), "Error parsing JPEG 2000 image");
    let io = ImError::from(std::io::Error::new(std::io::ErrorKind::Other, "boom"));
    assert_eq!(io.message(), "boom");
}

#[test]
fn c_status_codes() {
    let ok: Result<ImInfo, ImError> = Ok(ImInfo { width: 3, height: 4, format: ImFormat::PNG });
    assert_eq!(convert_result(&ok), CStatus { code: 0, format: Some(2), size: Some((3, 4)) });
    let parse: Result<ImInfo, ImError> = Err(ImError::ParserError(ImFormat::ILBM));
    assert_eq!(convert_result(&parse), CStatus { code: -2, format: Some(21), size: None });
    let unknown: Result<ImInfo, ImError> = Err(ImError::UnknownFormat);
    assert_eq!(convert_result(&unknown), CStatus { code: -3, format: None, size: None });
    let io: Result<ImInfo, ImError> = Err(ImError::IO(std::io::Error::from_raw_os_error(2)));
    assert_eq!(convert_result(&io), CStatus { code: 2, format: None, size: None });
    let io: Result<ImInfo, ImError> =
        Err(ImError::IO(std::io::Error::new(std::io::ErrorKind::Other, "x")));
    assert_eq!(convert_result(&io).code, -1);
}

#[test]
fn widening_ascii() {
    assert_eq!(w(b"GIF\0"), vec![0x47u16, 0x49, 0x46, 0]);
    assert_eq!(w(b""), Vec::<u16>::new());
}

/// Reads through a window, fetching `block` bytes (or what is asked for, if
/// more) where the library asks; gives the outcome and the bytes fetched.
fn step_through(data: &[u8], start: u64, block: u64) -> (Option<Result<ImInfo, ImError>>, u64) {
    let len = data.len() as u64;
    let mut window = Window { len, segments: Vec::new() };
    let mut fetched = 0;
    loop {
        match imsz_step(&window, start) {
            Fetched::Got(outcome) => return (outcome, fetched),
            Fetched::Need(pos, n) => {
                assert!(n > 0 && pos + n <= len);
                assert!(!window
                    .segments
                    .iter()
                    .any(|seg| seg.offset <= pos && pos + n <= seg.offset + seg.bytes.len() as u64));
                let size = n.max(block).min(len - pos);
                let bytes = data[pos as usize..(pos + size) as usize].to_vec();
                window.segments.push(Segment { offset: pos, bytes });
                fetched += size;
            }
        }
    }
}

#[test]
fn empty_window_asks_for_the_first_byte() {
    let window = Window { len: 100, segments: Vec::new() };
    assert!(matches!(imsz_step(&window, 0), Fetched::Need(0, 1)));
    let window = Window { len: 100, segments: Vec::new() };
    assert!(matches!(imsz_step(&window, 40), Fetched::Need(40, 1)));
}

#[test]
fn jpeg_skips_segments_without_reading_them() {
    let mut data = vec![0xff, 0xd8, 0xff, 0xe1];
    let filler = 60000u16;
    data.extend_from_slice(&filler.to_be_bytes());
    data.resize(4 + filler as usize, 0x55);
    data.extend_from_slice(&[0xff, 0xc2, 0x00, 0x11, 0x08]);
    data.extend_from_slice(&480u16.to_be_bytes());
    data.extend_from_slice(&640u16.to_be_bytes());
    data.extend_from_slice(&[3, 1, 0x22, 0, 2, 0x11, 1, 3, 0x11, 1, 0xff, 0xd9]);
    let (outcome, fetched) = step_through(&data, 0, 64);
    match outcome {
        Some(Ok(info)) => assert_eq!((info.format, info.width, info.height), (ImFormat::JPEG, 640, 480)),
        _ => panic!("expected a JPEG size"),
    }
    assert!(fetched <= 256, "fetched {} bytes", fetched);
    assert_eq!(size_of(imsz_from_bytes(&data)), (ImFormat::JPEG, 640, 480));
}

#[test]
fn tiff_directory_at_the_end_is_read_alone() {
    let mut data = b"II*\0".to_vec();
    let ifd: u32 = 100_000;
    data.extend_from_slice(&ifd.to_le_bytes());
    data.resize(ifd as usize, 0xaa);
    data.extend_from_slice(&2u16.to_le_bytes());
    for (tag, value) in [(256u16, 300u32), (257, 200)] {
        data.extend_from_slice(&tag.to_le_bytes());
        data.extend_from_slice(&4u16.to_le_bytes());
        data.extend_from_slice(&1u32.to_le_bytes());
        data.extend_from_slice(&value.to_le_bytes());
    }
    let (outcome, fetched) = step_through(&data, 0, 32);
    match outcome {
        Some(Ok(info)) => assert_eq!((info.format, info.width, info.height), (ImFormat::TIFF, 300, 200)),
        _ => panic!("expected a TIFF size"),
    }
    assert!(fetched <= 128, "fetched {} bytes", fetched);
}

#[test]
fn stepping_agrees_with_reading_in_memory() {
    let mut data = b"GIF87a".to_vec();
    data.extend_from_slice(&[7, 0, 9, 0, 0, 0]);
    let (outcome, _) = step_through(&data, 0, 1);
    match outcome {
        Some(Ok(info)) => assert_eq!((info.format, info.width, info.height), (ImFormat::GIF, 7, 9)),
        _ => panic!("expected a GIF size"),
    }
    let (outcome, fetched) = step_through(b"not an image", 0, 4);
    assert!(matches!(outcome, Some(Err(ImError::UnknownFormat))));
    assert_eq!(fetched, 12);
}

#[test]
fn avif_and_heif_read_alike() {
    let mut ispe = vec![0, 0, 0, 0];
    ispe.extend_from_slice(&640u32.to_be_bytes());
    ispe.extend_from_slice(&480u32.to_be_bytes());
    let boxed = |name: &[u8], content: &[u8]| {
        let mut out = (8 + content.len() as u32).to_be_bytes().to_vec();
        out.extend_from_slice(name);
        out.extend_from_slice(content);
        out
    };
    let iprp = boxed(b"iprp", &boxed(b"ipco", &boxed(b"ispe", &ispe)));
    let mut meta = vec![0, 0, 0, 0];
    meta.extend(iprp);
    let mut avif = boxed(b"ftyp", b"avif\0\0\0\0");
    avif.extend(boxed(b"meta", &meta));
    let mut heif = avif.clone();
    heif[8..12].copy_from_slice(b"heic");
    assert_eq!(size_of(imsz_from_bytes(&avif)), (ImFormat::AVIF, 640, 480));
    assert_eq!(size_of(imsz_from_bytes(&heif)), (ImFormat::HEIF, 640, 480));
    avif.truncate(avif.len() - 4);
    heif.truncate(heif.len() - 4);
    assert_eq!(parser_error(imsz_from_bytes(&avif)), ImFormat::AVIF);
    assert_eq!(parser_error(imsz_from_bytes(&heif)), ImFormat::HEIF);
}
