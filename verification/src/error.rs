use vstd::prelude::*;

use crate::text::{append_str, push_decimal_u64, decimal_digits};

verus! {

/// Errors reported by the native conversion path.
#[derive(Debug)]
pub enum SpheneError {
    IoError(String),
    UnsupportedFormat(String),
    Unknown,
    DimensionsTooLarge(u32, u32),
}

/// The mathematical value of a [`SpheneError`]: its variant and the characters
/// of its message.
pub enum ErrorView {
    IoError(Seq<char>),
    UnsupportedFormat(Seq<char>),
    Unknown,
    DimensionsTooLarge(u32, u32),
}

impl View for SpheneError {
    type V = ErrorView;

    open spec fn view(&self) -> ErrorView {
        match self {
            SpheneError::IoError(s) => ErrorView::IoError(s@),
            SpheneError::UnsupportedFormat(s) => ErrorView::UnsupportedFormat(s@),
            SpheneError::Unknown => ErrorView::Unknown,
            SpheneError::DimensionsTooLarge(w, h) => ErrorView::DimensionsTooLarge(*w, *h),
        }
    }
}

/// The human-readable text of an error.
pub open spec fn error_text(e: ErrorView) -> Seq<char> {
    match e {
        ErrorView::IoError(s) => "Failed to read image file from path: "@ + s,
        ErrorView::UnsupportedFormat(s) => "Unsupported image format: "@ + s,
        ErrorView::Unknown => "Unknown error occurred during image processing"@,
        ErrorView::DimensionsTooLarge(w, h) => "Requested dimensions "@ + decimal_digits(w as nat)
            + "x"@ + decimal_digits(h as nat) + " exceed the 250-megapixel safety limit"@,
    }
}

impl SpheneError {
    /// The message shown to a user for this error.
    pub fn describe(&self) -> (text: String)
        ensures
            text@ == error_text(self@),
    {
        match self {
            SpheneError::IoError(s) => {
                let mut text = String::from_str("Failed to read image file from path: ");
                append_str(&mut text, s.as_str());
                text
            },
            SpheneError::UnsupportedFormat(s) => {
                let mut text = String::from_str("Unsupported image format: ");
                append_str(&mut text, s.as_str());
                text
            },
            SpheneError::Unknown => String::from_str("Unknown error occurred during image processing"),
            SpheneError::DimensionsTooLarge(w, h) => {
                let mut text = String::from_str("Requested dimensions ");
                push_decimal_u64(&mut text, *w as u64);
                append_str(&mut text, "x");
                push_decimal_u64(&mut text, *h as u64);
                append_str(&mut text, " exceed the 250-megapixel safety limit");
                text
            },
        }
    }
}

} // verus!
