//! Reading the size of an image held in memory.
use crate::detect::{imsz_from_stream, imsz_outcome};
use crate::format::{format_name, ImError, ImFormat, ImInfo, ImResult};
use vstd::prelude::*;
use vstd::string::StringExecFns;

verus! {

/// Whether reading the size of the image in `data` completes, i.e. involves
/// no arithmetic fault; see [`imsz_outcome`].
pub open spec fn imsz_completes(data: Seq<u8>) -> bool {
    data.len() <= isize::MAX && imsz_outcome(data, 0) is Some
}

/// The result of reading the size of the image in `data`.
pub open spec fn imsz_spec(data: Seq<u8>) -> ImResult<ImInfo> {
    imsz_outcome(data, 0)->0
}

/// Reads width and height of the image held in `data`.
pub fn imsz_from_bytes(data: &[u8]) -> (r: ImResult<ImInfo>)
    requires
        imsz_completes(data@),
    ensures
        r == imsz_spec(data@),
{
    match imsz_from_stream(data, 0) {
        Some(r) => r,
        None => Err(ImError::UnknownFormat),
    }
}

/// Sources that the size of an image can be read from.
pub trait Imsz: Sized {
    /// The bytes of the image.
    spec fn image_bytes(&self) -> Seq<u8>;

    /// Reads width and height of the image.
    fn imsz(self) -> (r: ImResult<ImInfo>)
        requires
            imsz_completes(self.image_bytes()),
        ensures
            r == imsz_spec(self.image_bytes()),
    ;
}

impl<'a> Imsz for &'a [u8] {
    open spec fn image_bytes(&self) -> Seq<u8> {
        self@
    }

    fn imsz(self) -> (r: ImResult<ImInfo>) {
        imsz_from_bytes(self)
    }
}

impl<'a> Imsz for &'a Vec<u8> {
    open spec fn image_bytes(&self) -> Seq<u8> {
        self@
    }

    fn imsz(self) -> (r: ImResult<ImInfo>) {
        imsz_from_bytes(self.as_slice())
    }
}

impl Imsz for Vec<u8> {
    open spec fn image_bytes(&self) -> Seq<u8> {
        self@
    }

    fn imsz(self) -> (r: ImResult<ImInfo>) {
        imsz_from_bytes(self.as_slice())
    }
}

impl<'a, const LEN: usize> Imsz for &'a [u8; LEN] {
    open spec fn image_bytes(&self) -> Seq<u8> {
        self@
    }

    fn imsz(self) -> (r: ImResult<ImInfo>) {
        imsz_from_bytes(self.as_slice())
    }
}

impl<const LEN: usize> Imsz for [u8; LEN] {
    open spec fn image_bytes(&self) -> Seq<u8> {
        self@
    }

    fn imsz(self) -> (r: ImResult<ImInfo>) {
        imsz_from_bytes(self.as_slice())
    }
}

/// Reads width and height of an image; `input` can be a byte buffer.
pub fn imsz<T: Imsz>(input: T) -> (r: ImResult<ImInfo>)
    requires
        imsz_completes(input.image_bytes()),
    ensures
        r == imsz_spec(input.image_bytes()),
{
    input.imsz()
}

impl ImError {
    /// A description of the error.
    pub fn message(&self) -> (r: String)
        ensures
            match self {
                ImError::IO(e) => vstd::string::to_string_from_display_ensures::<std::io::Error>(
                    e,
                    r,
                ),
                ImError::UnknownFormat => r@ == "Unknown Format"@,
                ImError::ParserError(f) => r@ == "Error parsing "@ + format_name(*f) + " image"@,
            },
    {
        match self {
            ImError::IO(error) => error.to_string(),
            ImError::UnknownFormat => String::from_str("Unknown Format"),
            ImError::ParserError(format) => {
                let mut s = String::from_str("Error parsing ");
                s.append(format.name());
                s.append(" image");
                s
            },
        }
    }
}

} // verus!
