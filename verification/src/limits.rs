use vstd::prelude::*;

use crate::error::{ErrorView, SpheneError};
use crate::text::{append_str, decimal_digits, push_decimal_u64};

verus! {

/// Pixel-count ceiling: an image whose width times height reaches this value is
/// refused before any pixel buffer is allocated.
pub const MAX_PIXELS: u64 = 250_000_000;

/// Largest input file, in bytes, that the native path opens.
pub const MAX_INPUT_BYTES: u64 = 50 * 1024 * 1024;

/// Whether a `width` by `height` image stays under the pixel ceiling.
pub open spec fn dimensions_allowed(width: u32, height: u32) -> bool {
    width * height < MAX_PIXELS
}

/// Refuses dimensions whose pixel count reaches or exceeds [`MAX_PIXELS`].
pub fn check_dimensions(width: u32, height: u32) -> (r: Result<(), SpheneError>)
    ensures
        r is Ok <==> dimensions_allowed(width, height),
        r matches Err(e) ==> e@ == ErrorView::DimensionsTooLarge(width, height),
{
    let w: u64 = width as u64;
    let h: u64 = height as u64;
    assert(w * h <= 0xffff_ffff_0000_0001) by (nonlinear_arith)
        requires
            w <= 0xffff_ffff,
            h <= 0xffff_ffff,
    ;
    let pixels: u64 = w * h;
    if pixels >= MAX_PIXELS {
        return Err(SpheneError::DimensionsTooLarge(width, height));
    }
    Ok(())
}

/// Refuses an input file of `size` bytes when it is larger than
/// [`MAX_INPUT_BYTES`].
pub fn check_input_len(size: u64) -> (r: Result<(), SpheneError>)
    ensures
        r is Ok <==> size <= MAX_INPUT_BYTES,
        r matches Err(e) ==> e@ == ErrorView::IoError(
            "Input file exceeds 50 MiB limit: "@ + decimal_digits(size as nat) + " bytes"@,
        ),
{
    if size > MAX_INPUT_BYTES {
        let mut message = String::from_str("Input file exceeds 50 MiB limit: ");
        push_decimal_u64(&mut message, size);
        append_str(&mut message, " bytes");
        return Err(SpheneError::IoError(message));
    }
    Ok(())
}

} // verus!
