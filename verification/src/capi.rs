//! The values that the C interface reports.
use crate::format::{format_code, ImError, ImInfo, ImResult};
use vstd::prelude::*;

verus! {

/// What the C interface reports for a result: the status code, and what it
/// stores into the caller's info record (the format code, and the width and
/// height), where it stores anything.
#[derive(Debug, Clone, Copy, PartialEq, Eq)]
pub struct CStatus {
    pub code: i32,
    pub format: Option<u32>,
    pub size: Option<(u64, u64)>,
}

/// What `std::io::Error::raw_os_error` gives for an error: the operating
/// system's error number the error was made from, if any. It depends on the
/// error value alone.
pub uninterp spec fn os_error_of(error: std::io::Error) -> Option<i32>;

/// `std::io::Error::raw_os_error`; its result is named [`os_error_of`].
#[verifier::external_body]
fn os_error_number(error: &std::io::Error) -> (r: Option<i32>)
    ensures
        r == os_error_of(*error),
{
    error.raw_os_error()
}

/// Converts a result into what the C interface reports: `0` and the whole
/// info on success; `-2` and the format on a parser error; `-3` on an unknown
/// format; the OS error number (or `-1` without one) on an IO error.
pub fn convert_result(result: &ImResult<ImInfo>) -> (r: CStatus)
    ensures
        match result {
            Ok(info) => r == (CStatus {
                code: 0i32,
                format: Some(format_code(info.format)),
                size: Some((info.width, info.height)),
            }),
            Err(ImError::ParserError(f)) => r == (CStatus {
                code: -2i32,
                format: Some(format_code(*f)),
                size: None,
            }),
            Err(ImError::UnknownFormat) => r == (CStatus { code: -3i32, format: None, size: None }),
            Err(ImError::IO(e)) => r == (CStatus {
                code: match os_error_of(*e) {
                    Some(n) => n,
                    None => -1i32,
                },
                format: None,
                size: None,
            }),
        },
{
    match result {
        Ok(info) => CStatus {
            code: 0,
            format: Some(info.format.code()),
            size: Some((info.width, info.height)),
        },
        Err(ImError::IO(error)) => {
            let code = match os_error_number(error) {
                Some(errnum) => errnum,
                None => -1,
            };
            CStatus { code, format: None, size: None }
        },
        Err(ImError::ParserError(format)) => CStatus {
            code: -2,
            format: Some(format.code()),
            size: None,
        },
        Err(ImError::UnknownFormat) => CStatus { code: -3, format: None, size: None },
    }
}

/// Widens ASCII text to UTF-16 code units, one for one.
pub fn w(ascii: &[u8]) -> (r: Vec<u16>)
    ensures
        r@.len() == ascii@.len(),
        forall|i: int| 0 <= i < ascii@.len() ==> r@[i] == ascii@[i] as u16,
{
    let mut wide: Vec<u16> = Vec::new();
    let mut index: usize = 0;
    while index < ascii.len()
        invariant
            index <= ascii@.len(),
            wide@.len() == index,
            forall|i: int| 0 <= i < index ==> wide@[i] == ascii@[i] as u16,
        decreases ascii@.len() - index,
    {
        wide.push(ascii[index] as u16);
        index += 1;
    }
    wide
}

} // verus!
