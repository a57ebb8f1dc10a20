# imsz

Get width and height of an image from the first bytes of the file.

Supported formats: AVIF, BMP, DDS, DIB, GIF, HEIC/HEIF, ICO, ILBM, JPEG,
JPEG 2000, PCX, PNG, PSD/PSB, OpenEXR, QOI, TGA, TIFF, VTF, WebP, XCF.

## Layout

- `src/` is the library, verified with Verus. It reads the size of an image
  from its bytes: `imsz_from_bytes` for a whole image, `imsz_from_stream` for
  a stream whose first 30 bytes are read at a given position, and `imsz_step`
  for a stream seen through a `Window` of fetched segments: it gives the
  result, which then holds of every stream that agrees with the window, or
  the bytes to fetch next.
  - `window.rs`: windows and reading through them.
  - `format.rs`: the formats, their names and codes, the result and error types.
  - `bytes.rs`: integers from bytes, in either byte order.
  - `detect.rs`: recognising the format, and the specification of the whole
    reading (`imsz_outcome`).
  - `header.rs`, `jpeg.rs`, `tiff.rs`, `boxes.rs` (AVIF, HEIF, JPEG 2000),
    `ico.rs`, `exr.rs`: each format's reading, with its specification.
  - `float.rs`: `f32`/`f64` to `u64` conversion from the bit patterns.
  - `api.rs`: the public entry points and the `Imsz` trait; `capi.rs`: the
    values the C interface reports.
  - `laws.rs`: properties of the library as a whole.
- `app/` holds the file, reader and C interfaces; they run `imsz_step`,
  reading the blocks it asks for.
- `tests/` runs the library on images built in memory.

Inputs on which the computation would overflow or divide by zero (a BMP or
DIB height of `i16::MIN` or `i32::MIN`, a JPEG segment length below 2, a TIFF directory
entry past `u32::MAX` or a rational value with denominator zero) are told
apart by `imsz_from_stream`, which gives `None` for them.
