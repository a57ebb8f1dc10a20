use vstd::prelude::*;

verus! {

/// The image formats that can be recognised.
#[non_exhaustive]
#[derive(Debug, Clone, Copy, PartialEq, Eq, Structural)]
pub enum ImFormat {
    /// Graphics Interchange Format files in version GIF87a or GIF89a.
    GIF,
    /// Portable Network Graphics files. Requires the first chunk to be `IHDR`.
    PNG,
    /// Windows Bitmap, both for Windows 2.0 (BITMAPCOREHEADER) and for newer
    /// versions (BITMAPINFOHEADER).
    BMP,
    /// Joint Photographic Experts Group files.
    JPEG,
    /// WebP files. Supported sub-formats: `VP8 `, `VP8L`, `VP8X`.
    WEBP,
    /// Quite OK Image format files.
    QOI,
    /// Adobe Photoshop files.
    PSD,
    PSB,
    /// GIMP files.
    XCF,
    /// ICO files can contain multiple images. This returns the dimensions of
    /// the biggest image in the file.
    ICO,
    /// AV1 Image File Format.
    AVIF,
    /// Tag Image File Format. Supports big endian and little endian TIFF files.
    TIFF,
    /// OpenEXR files.
    OpenEXR,
    /// PiCture eXchange files.
    PCX,
    /// TARGA files, recognised only by their `TRUEVISION-XFILE.` footer.
    TGA,
    /// DirectDraw Surface files.
    DDS,
    /// HEIC/HEIF files. These are extremely similar to AVIF.
    HEIF,
    /// JPEG 2000 files.
    JP2K,
    /// Device-Independent Bitmap files.
    DIB,
    /// Valve Texture Format.
    VTF,
    /// Interleaved Bitmap files, including Planar Bitmap variant.
    ILBM,
}

/// The display name of each format.
pub open spec fn format_name(f: ImFormat) -> Seq<char> {
    match f {
        ImFormat::GIF => "GIF"@,
        ImFormat::PNG => "PNG"@,
        ImFormat::BMP => "BMP"@,
        ImFormat::JPEG => "JPEG"@,
        ImFormat::WEBP => "WebP"@,
        ImFormat::QOI => "QOI"@,
        ImFormat::PSD => "PSD"@,
        ImFormat::PSB => "PSB"@,
        ImFormat::XCF => "XCF"@,
        ImFormat::ICO => "ICO"@,
        ImFormat::AVIF => "AVIF"@,
        ImFormat::TIFF => "TIFF"@,
        ImFormat::OpenEXR => "OpenEXR"@,
        ImFormat::PCX => "PCX"@,
        ImFormat::TGA => "TGA"@,
        ImFormat::DDS => "DDS"@,
        ImFormat::HEIF => "HEIF"@,
        ImFormat::JP2K => "JPEG 2000"@,
        ImFormat::DIB => "DIB"@,
        ImFormat::VTF => "VTF"@,
        ImFormat::ILBM => "ILBM"@,
    }
}

/// The numeric code of each format, as used by the C interface (1 to 21, in
/// declaration order; 0 stands for "unknown").
pub open spec fn format_code(f: ImFormat) -> u32 {
    match f {
        ImFormat::GIF => 1,
        ImFormat::PNG => 2,
        ImFormat::BMP => 3,
        ImFormat::JPEG => 4,
        ImFormat::WEBP => 5,
        ImFormat::QOI => 6,
        ImFormat::PSD => 7,
        ImFormat::PSB => 8,
        ImFormat::XCF => 9,
        ImFormat::ICO => 10,
        ImFormat::AVIF => 11,
        ImFormat::TIFF => 12,
        ImFormat::OpenEXR => 13,
        ImFormat::PCX => 14,
        ImFormat::TGA => 15,
        ImFormat::DDS => 16,
        ImFormat::HEIF => 17,
        ImFormat::JP2K => 18,
        ImFormat::DIB => 19,
        ImFormat::VTF => 20,
        ImFormat::ILBM => 21,
    }
}

impl ImFormat {
    /// The display name of the format, e.g. `"JPEG 2000"` for [`ImFormat::JP2K`].
    pub fn name(&self) -> (r: &'static str)
        ensures
            r@ == format_name(*self),
    {
        match self {
            ImFormat::GIF => "GIF",
            ImFormat::PNG => "PNG",
            ImFormat::BMP => "BMP",
            ImFormat::JPEG => "JPEG",
            ImFormat::WEBP => "WebP",
            ImFormat::QOI => "QOI",
            ImFormat::PSD => "PSD",
            ImFormat::PSB => "PSB",
            ImFormat::XCF => "XCF",
            ImFormat::ICO => "ICO",
            ImFormat::AVIF => "AVIF",
            ImFormat::TIFF => "TIFF",
            ImFormat::OpenEXR => "OpenEXR",
            ImFormat::PCX => "PCX",
            ImFormat::TGA => "TGA",
            ImFormat::DDS => "DDS",
            ImFormat::HEIF => "HEIF",
            ImFormat::JP2K => "JPEG 2000",
            ImFormat::DIB => "DIB",
            ImFormat::VTF => "VTF",
            ImFormat::ILBM => "ILBM",
        }
    }

    /// The numeric code of the format (1 for GIF up to 21 for ILBM).
    pub fn code(&self) -> (r: u32)
        ensures
            r == format_code(*self),
    {
        match self {
            ImFormat::GIF => 1,
            ImFormat::PNG => 2,
            ImFormat::BMP => 3,
            ImFormat::JPEG => 4,
            ImFormat::WEBP => 5,
            ImFormat::QOI => 6,
            ImFormat::PSD => 7,
            ImFormat::PSB => 8,
            ImFormat::XCF => 9,
            ImFormat::ICO => 10,
            ImFormat::AVIF => 11,
            ImFormat::TIFF => 12,
            ImFormat::OpenEXR => 13,
            ImFormat::PCX => 14,
            ImFormat::TGA => 15,
            ImFormat::DDS => 16,
            ImFormat::HEIF => 17,
            ImFormat::JP2K => 18,
            ImFormat::DIB => 19,
            ImFormat::VTF => 20,
            ImFormat::ILBM => 21,
        }
    }

    /// The format with the given numeric code, if there is one.
    pub fn from_code(code: u32) -> (r: Option<ImFormat>)
        ensures
            match r {
                Some(f) => format_code(f) == code,
                None => forall|f: ImFormat| format_code(f) != code,
            },
    {
        match code {
            1 => Some(ImFormat::GIF),
            2 => Some(ImFormat::PNG),
            3 => Some(ImFormat::BMP),
            4 => Some(ImFormat::JPEG),
            5 => Some(ImFormat::WEBP),
            6 => Some(ImFormat::QOI),
            7 => Some(ImFormat::PSD),
            8 => Some(ImFormat::PSB),
            9 => Some(ImFormat::XCF),
            10 => Some(ImFormat::ICO),
            11 => Some(ImFormat::AVIF),
            12 => Some(ImFormat::TIFF),
            13 => Some(ImFormat::OpenEXR),
            14 => Some(ImFormat::PCX),
            15 => Some(ImFormat::TGA),
            16 => Some(ImFormat::DDS),
            17 => Some(ImFormat::HEIF),
            18 => Some(ImFormat::JP2K),
            19 => Some(ImFormat::DIB),
            20 => Some(ImFormat::VTF),
            21 => Some(ImFormat::ILBM),
            _ => None,
        }
    }
}

/// The width, height and format of an image.
#[derive(Debug, Clone)]
pub struct ImInfo {
    pub width: u64,
    pub height: u64,
    pub format: ImFormat,
}

/// `std::io::Error`, declared so that IO errors can be carried in [`ImError`];
/// nothing is claimed of its contents.
#[verifier::external_type_specification]
#[verifier::external_body]
pub struct ExIoError(std::io::Error);

/// Why the size of an image could not be read.
#[derive(Debug)]
pub enum ImError {
    /// If there was an IO error reading the image file this error is returned.
    IO(std::io::Error),
    /// If the image format couldn't be detected this error is returned.
    UnknownFormat,
    /// If the image format was detected, but then something went wrong parsing
    /// the file this error is returned.
    ParserError(ImFormat),
}

pub type ImResult<T> = Result<T, ImError>;

impl vstd::std_specs::convert::FromSpecImpl<std::io::Error> for ImError {
    open spec fn obeys_from_spec() -> bool {
        true
    }

    open spec fn from_spec(error: std::io::Error) -> Self {
        ImError::IO(error)
    }
}

impl From<std::io::Error> for ImError {
    fn from(error: std::io::Error) -> (r: Self) {
        ImError::IO(error)
    }
}

} // verus!
