use vstd::prelude::*;
use vstd::arithmetic::div_mod::{lemma_fundamental_div_mod, lemma_fundamental_div_mod_converse};

use crate::error::{ErrorView, SpheneError};
use crate::text::{append_str, decimal_digits, push_decimal_u64};

verus! {

/// The bytes of a `height`-row image whose rows of `row_len` bytes start every
/// `stride` bytes in `src`, with the rows packed one after the other.
pub open spec fn packed_rows(src: Seq<u8>, row_len: nat, height: nat, stride: nat) -> Seq<u8> {
    Seq::new(row_len * height, |i: int| src[(i / row_len as int) * stride + i % row_len as int])
}

/// `dst` with the packed rows `pixels`, of `row_len` bytes each, written every
/// `stride` bytes up to position `limit`; the bytes between the rows keep
/// their value.
pub open spec fn rows_written_up_to(
    dst: Seq<u8>,
    pixels: Seq<u8>,
    row_len: nat,
    stride: nat,
    limit: int,
) -> Seq<u8> {
    Seq::new(
        dst.len(),
        |i: int|
            if stride > 0 && i < limit && i % (stride as int) < row_len {
                pixels[(i / stride as int) * row_len + i % (stride as int)]
            } else {
                dst[i]
            },
    )
}

/// `dst` with the `height` packed rows `pixels` written every `stride` bytes.
pub open spec fn strided_rows(dst: Seq<u8>, pixels: Seq<u8>, row_len: nat, height: nat, stride: nat) -> Seq<u8> {
    rows_written_up_to(dst, pixels, row_len, stride, (stride * height) as int)
}

/// The number of bytes in a buffer of `height` rows `row_bytes` apart, each
/// holding `width` RGBA pixels, or the error that stops its use.
pub open spec fn rgba_buffer_size(width: u32, height: u32, row_bytes: usize) -> Result<usize, ErrorView> {
    if 4 * width > usize::MAX {
        Err(ErrorView::IoError("libavif: RGBA row size overflow"@))
    } else if row_bytes < 4 * width {
        Err(
            ErrorView::IoError(
                "libavif: RGBA row stride "@ + decimal_digits(row_bytes as nat) + " is shorter than "@
                    + decimal_digits((4 * width) as nat),
            ),
        )
    } else if row_bytes * height > usize::MAX {
        Err(ErrorView::IoError("libavif: RGBA buffer size overflow"@))
    } else {
        Ok((row_bytes * height) as usize)
    }
}

/// Checks that rows of `width` RGBA pixels fit in `row_bytes` bytes and returns
/// the size of a buffer of `height` such rows.
pub fn rgba_buffer_len(width: u32, height: u32, row_bytes: usize) -> (r: Result<usize, SpheneError>)
    ensures
        match rgba_buffer_size(width, height, row_bytes) {
            Ok(n) => r == Ok::<usize, SpheneError>(n),
            Err(e) => r matches Err(err) && err@ == e,
        },
{
    let minimum_row_bytes = match (width as usize).checked_mul(4) {
        Some(m) => m,
        None => {
            return Err(SpheneError::IoError(String::from_str("libavif: RGBA row size overflow")));
        },
    };
    if row_bytes < minimum_row_bytes {
        let mut message = String::from_str("libavif: RGBA row stride ");
        push_decimal_u64(&mut message, row_bytes as u64);
        append_str(&mut message, " is shorter than ");
        push_decimal_u64(&mut message, minimum_row_bytes as u64);
        return Err(SpheneError::IoError(message));
    }
    match row_bytes.checked_mul(height as usize) {
        Some(n) => Ok(n),
        None => Err(SpheneError::IoError(String::from_str("libavif: RGBA buffer size overflow"))),
    }
}

/// Copies a decoded image out of a buffer whose rows of `width` RGBA pixels
/// start every `row_bytes` bytes, into a packed RGBA pixel buffer.
pub fn rgba_from_rows(src: &[u8], width: u32, height: u32, row_bytes: usize) -> (r: Vec<u8>)
    requires
        4 * width <= row_bytes,
        row_bytes * height <= src@.len(),
    ensures
        r@ == packed_rows(src@, (4 * width) as nat, height as nat, row_bytes as nat),
{
    let row_len: usize = (width as usize) * 4;
    let rows: usize = height as usize;
    let src_len: usize = src.len();
    let mut out: Vec<u8> = Vec::new();
    let mut y: usize = 0;
    while y < rows
        invariant
            y <= rows,
            rows == height,
            row_len == 4 * width,
            row_len <= row_bytes,
            row_bytes * height <= src@.len(),
            src_len == src@.len(),
            out@.len() == y * row_len,
            forall|k: int|
                0 <= k < out@.len() ==> #[trigger] out@[k] == src@[(k / row_len as int) * row_bytes
                    + k % row_len as int],
        decreases rows - y,
    {
        assert(y * row_bytes + row_bytes <= row_bytes * height) by (nonlinear_arith)
            requires
                y < height,
        ;
        let start: usize = y * row_bytes;
        let mut j: usize = 0;
        while j < row_len
            invariant
                y < rows,
                j <= row_len,
                rows == height,
                row_len <= row_bytes,
                start == y * row_bytes,
                start + row_bytes <= src@.len(),
                src_len == src@.len(),
                out@.len() == y * row_len + j,
                forall|k: int|
                    0 <= k < out@.len() ==> #[trigger] out@[k] == src@[(k / row_len as int)
                        * row_bytes + k % row_len as int],
            decreases row_len - j,
        {
            let b = src[start + j];
            proof {
                lemma_fundamental_div_mod_converse(
                    (y * row_len + j) as int,
                    row_len as int,
                    y as int,
                    j as int,
                );
            }
            assert((y * row_len + j) as int == y as int * row_len as int + j as int) by (nonlinear_arith);
            out.push(b);
            j = j + 1;
        }
        assert(y * row_len + row_len == (y + 1) * row_len) by (nonlinear_arith);
        y = y + 1;
    }
    assert(out@ =~= packed_rows(src@, (4 * width) as nat, height as nat, row_bytes as nat)) by {
        assert(rows * row_len == row_len * height) by (nonlinear_arith)
            requires rows == height;
    }
    out
}

/// Writing the byte at `limit` extends the written prefix by one position.
proof fn lemma_write_one_more(
    dst: Seq<u8>,
    pixels: Seq<u8>,
    row_len: nat,
    stride: nat,
    y: int,
    j: int,
)
    requires
        0 <= y,
        0 <= j < row_len,
        row_len <= stride,
        y * stride + j < dst.len(),
        y * row_len + j < pixels.len(),
    ensures
        rows_written_up_to(dst, pixels, row_len, stride, y * stride + j + 1) =~= rows_written_up_to(
            dst,
            pixels,
            row_len,
            stride,
            y * stride + j,
        ).update(y * stride + j, pixels[y * row_len + j]),
{
    let p = y * stride + j;
    lemma_fundamental_div_mod_converse(p, stride as int, y, j);
}

/// Between the end of a row and the start of the next nothing is written.
proof fn lemma_row_gap(dst: Seq<u8>, pixels: Seq<u8>, row_len: nat, stride: nat, y: int)
    requires
        0 <= y,
        row_len <= stride,
    ensures
        rows_written_up_to(dst, pixels, row_len, stride, y * stride + row_len) =~= rows_written_up_to(
            dst,
            pixels,
            row_len,
            stride,
            (y + 1) * stride,
        ),
{
    assert((y + 1) * stride == y * stride + stride) by (nonlinear_arith);
    let a = rows_written_up_to(dst, pixels, row_len, stride, y * stride + row_len);
    let b = rows_written_up_to(dst, pixels, row_len, stride, (y + 1) * stride);
    assert forall|i: int| 0 <= i < dst.len() implies #[trigger] a[i] == b[i] by {
        if y * stride + row_len <= i < (y + 1) * stride {
            lemma_fundamental_div_mod_converse(i, stride as int, y, i - y * stride);
        }
    }
}

/// Copies the first `width` by `height` pixels of a packed RGBA image into a buffer
/// whose rows start every `row_bytes` bytes, leaving the padding after each
/// row as it was.
pub fn write_rgba_rows(dst: &mut [u8], pixels: &[u8], width: u32, height: u32, row_bytes: usize)
    requires
        4 * width <= row_bytes,
        row_bytes * height <= old(dst)@.len(),
        pixels@.len() >= 4 * width * height,
    ensures
        final(dst)@ == strided_rows(old(dst)@, pixels@, (4 * width) as nat, height as nat, row_bytes as nat),
{
    let ghost original = dst@;
    let ghost pix = pixels@;
    let row_len: usize = (width as usize) * 4;
    let rows: usize = height as usize;
    let dst_len: usize = dst.len();
    let pix_len: usize = pixels.len();
    let mut y: usize = 0;
    assert(dst@ =~= rows_written_up_to(original, pix, row_len as nat, row_bytes as nat, 0));
    while y < rows
        invariant
            y <= rows,
            rows == height,
            row_len == 4 * width,
            row_len <= row_bytes,
            row_bytes * height <= original.len(),
            pix == pixels@,
            pix.len() >= row_len * height,
            pix_len == pix.len(),
            dst_len == dst@.len(),
            dst_len == original.len(),
            dst@ == rows_written_up_to(
                original,
                pix,
                row_len as nat,
                row_bytes as nat,
                y * row_bytes,
            ),
        decreases rows - y,
    {
        assert(y * row_bytes + row_bytes <= row_bytes * height) by (nonlinear_arith)
            requires
                y < height,
        ;
        assert(y * row_len + row_len <= row_len * height) by (nonlinear_arith)
            requires
                y < height,
        ;
        let start: usize = y * row_bytes;
        let first: usize = y * row_len;
        let mut j: usize = 0;
        while j < row_len
            invariant
                y < rows,
                j <= row_len,
                rows == height,
                row_len <= row_bytes,
                start == y * row_bytes,
                first == y * row_len,
                start + row_bytes <= original.len(),
                first + row_len <= pix.len(),
                pix_len == pix.len(),
                pix == pixels@,
                dst_len == dst@.len(),
                dst_len == original.len(),
                dst@ == rows_written_up_to(
                    original,
                    pix,
                    row_len as nat,
                    row_bytes as nat,
                    start + j,
                ),
            decreases row_len - j,
        {
            let b = pixels[first + j];
            proof {
                lemma_write_one_more(
                    original,
                    pix,
                    row_len as nat,
                    row_bytes as nat,
                    y as int,
                    j as int,
                );
            }
            dst[start + j] = b;
            j = j + 1;
        }
        proof {
            lemma_row_gap(original, pix, row_len as nat, row_bytes as nat, y as int);
        }
        assert((y + 1) * row_bytes == y * row_bytes + row_bytes) by (nonlinear_arith);
        y = y + 1;
    }
    assert(rows * row_bytes == row_bytes * height) by (nonlinear_arith)
        requires
            rows == height,
    ;
}

/// The rows that the encoder writes into a strided buffer are read back
/// unchanged by the decoder's copy out of such a buffer.
pub proof fn lemma_rows_round_trip(dst: Seq<u8>, pixels: Seq<u8>, row_len: nat, height: nat, stride: nat)
    requires
        row_len <= stride,
        stride * height <= dst.len(),
        pixels.len() == row_len * height,
    ensures
        packed_rows(strided_rows(dst, pixels, row_len, height, stride), row_len, height, stride)
            == pixels,
{
    let written = strided_rows(dst, pixels, row_len, height, stride);
    let back = packed_rows(written, row_len, height, stride);
    assert forall|i: int| 0 <= i < pixels.len() implies back[i] == pixels[i] by {
        assert(row_len > 0) by (nonlinear_arith)
            requires
                0 <= i < row_len * height,
        ;
        let y = i / row_len as int;
        let k = i % row_len as int;
        lemma_fundamental_div_mod(i, row_len as int);
        assert(0 <= k < row_len);
        assert(y * row_len + k == i) by (nonlinear_arith)
            requires
                i == row_len * y + k,
        ;
        assert(0 <= y < height) by (nonlinear_arith)
            requires
                i == row_len * y + k,
                0 <= k < row_len,
                0 <= i < row_len * height,
        ;
        let p = y * stride + k;
        assert(p + 1 <= stride * height) by (nonlinear_arith)
            requires
                p == y * stride + k,
                k < row_len,
                row_len <= stride,
                y + 1 <= height,
        ;
        lemma_fundamental_div_mod_converse(p, stride as int, y, k);
    }
    assert(back =~= pixels);
}

/// The error text for an AVIF image whose header, or decoded frame when
/// `decoded`, reports a zero width or height.
pub open spec fn invalid_dimensions_text(width: u32, height: u32, decoded: bool) -> Seq<char> {
    (if decoded {
        "libavif: decoded image has invalid dimensions "@
    } else {
        "libavif: parsed image has invalid dimensions "@
    }) + decimal_digits(width as nat) + "x"@ + decimal_digits(height as nat)
}

/// Accepts the dimensions that the AVIF codec reports for a parsed header, or
/// for a decoded frame when `decoded`, unless one of them is zero.
pub fn avif_dimensions(width: u32, height: u32, decoded: bool) -> (r: Result<(u32, u32), SpheneError>)
    ensures
        r is Ok <==> (width != 0 && height != 0),
        r matches Ok(d) ==> d == (width, height),
        r matches Err(e) ==> e@ == ErrorView::IoError(invalid_dimensions_text(width, height, decoded)),
{
    if width == 0 || height == 0 {
        let mut message = if decoded {
            String::from_str("libavif: decoded image has invalid dimensions ")
        } else {
            String::from_str("libavif: parsed image has invalid dimensions ")
        };
        push_decimal_u64(&mut message, width as u64);
        append_str(&mut message, "x");
        push_decimal_u64(&mut message, height as u64);
        return Err(SpheneError::IoError(message));
    }
    Ok((width, height))
}

/// Refuses to encode an image with no pixels.
pub fn check_encodable(width: u32, height: u32) -> (r: Result<(), SpheneError>)
    ensures
        r is Ok <==> (width != 0 && height != 0),
        r matches Err(e) ==> e@ == ErrorView::IoError("libavif: cannot encode a zero-sized image"@),
{
    if width == 0 || height == 0 {
        return Err(SpheneError::IoError(String::from_str("libavif: cannot encode a zero-sized image")));
    }
    Ok(())
}

/// The error text for a libavif call `context` that failed with result `code`,
/// whose description is `reason` (absent when libavif has none).
pub open spec fn libavif_failure_text(context: Seq<char>, reason: Option<Seq<char>>, code: u32) -> Seq<
    char,
> {
    "libavif "@ + context + " failed: "@ + match reason {
        Some(r) => r,
        None => "unknown libavif error"@,
    } + " (code "@ + decimal_digits(code as nat) + ")"@
}

/// The error for a libavif call `context` that failed with result `code`.
pub fn libavif_failure(context: &str, reason: Option<&str>, code: u32) -> (e: SpheneError)
    ensures
        e@ == ErrorView::IoError(
            libavif_failure_text(
                context@,
                match reason {
                    Some(r) => Some(r@),
                    None => None,
                },
                code,
            ),
        ),
{
    let mut message = String::from_str("libavif ");
    append_str(&mut message, context);
    append_str(&mut message, " failed: ");
    match reason {
        Some(r) => append_str(&mut message, r),
        None => append_str(&mut message, "unknown libavif error"),
    }
    append_str(&mut message, " (code ");
    push_decimal_u64(&mut message, code as u64);
    append_str(&mut message, ")");
    SpheneError::IoError(message)
}

} // verus!
