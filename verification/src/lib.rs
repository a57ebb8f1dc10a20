//! Get image width and height from the first bytes of an image file.
//!
//! The size is read from the bytes of the image: [`imsz_from_bytes`] reads a
//! whole image held in memory, [`imsz_from_stream`] a stream positioned at a
//! given offset, and [`imsz_step`] works through a [`Window`] that holds only
//! some bytes of the stream, saying which bytes it needs next.
pub mod api;
pub mod boxes;
pub mod box_laws;
pub mod bytes;
pub mod capi;
pub mod detect;
pub mod exr;
pub mod float;
pub mod format;
pub mod format_laws;
pub mod header;
pub mod header_laws;
pub mod ico;
pub mod jpeg;
pub mod laws;
pub mod tiff;
pub mod window;

pub use api::{imsz, imsz_from_bytes, Imsz};
pub use capi::{convert_result, w, CStatus};
pub use detect::{imsz_from_stream, imsz_step};
pub use format::{ImError, ImFormat, ImInfo, ImResult};
pub use window::{Fetched, Segment, Window};
