use vstd::prelude::*;

use crate::cli::path_extension;
use crate::error::{ErrorView, SpheneError};
use crate::text::ascii_lowercase;

verus! {

/// How the native engine treats an image format.
#[derive(Debug, Clone, Copy, PartialEq, Eq, Structural)]
pub enum ImageKind {
    Jpeg,
    WebP,
    Avif,
    /// Any other format that the `image` crate knows.
    Other,
}

/// The format that the `image` crate's `ImageFormat::from_extension` gives
/// for a file extension, which it compares in ASCII lower case, sorted into
/// [`ImageKind`]; `None` for an extension it does not know.
pub open spec fn kind_for_extension(e: Seq<char>) -> Option<ImageKind> {
    let l = ascii_lowercase(e);
    if l == "avif"@ {
        Some(ImageKind::Avif)
    } else if l == "jpg"@ || l == "jpeg"@ || l == "jfif"@ {
        Some(ImageKind::Jpeg)
    } else if l == "webp"@ {
        Some(ImageKind::WebP)
    } else if l == "png"@ || l == "apng"@ || l == "gif"@ || l == "tif"@ || l == "tiff"@ || l
        == "tga"@ || l == "dds"@ || l == "bmp"@ || l == "ico"@ || l == "hdr"@ || l == "exr"@ || l
        == "pbm"@ || l == "pam"@ || l == "ppm"@ || l == "pgm"@ || l == "pnm"@ || l == "ff"@ || l
        == "qoi"@ {
        Some(ImageKind::Other)
    } else {
        None
    }
}

/// The text of the error that `image::ImageFormat::from_path` reports for a
/// path whose format it cannot tell.
pub uninterp spec fn image_format_error_text(path: Seq<char>) -> Seq<char>;

/// What `image::ImageFormat::from_path` makes of a path: the format named by
/// the path's extension, or the text of the error when the path has no
/// extension or one the crate does not know.
pub open spec fn image_format_from_path(path: Seq<char>) -> Result<ImageKind, Seq<char>> {
    match path_extension(path) {
        Some(e) => match kind_for_extension(e) {
            Some(k) => Ok(k),
            None => Err(image_format_error_text(path)),
        },
        None => Err(image_format_error_text(path)),
    }
}

/// Calls `image::ImageFormat::from_path`. As its source shows, it looks the
/// path's extension (`Path::extension`) up in the table of
/// [`kind_for_extension`], and otherwise fails; the format is sorted into
/// [`ImageKind`] and an error is turned into its text, which is only named.
#[verifier::external_body]
fn format_from_path(path: &str) -> (r: Result<ImageKind, String>)
    ensures
        format_view(r) == image_format_from_path(path@),
        r matches Err(m) ==> m@ == image_format_error_text(path@),
{
    match image::ImageFormat::from_path(path) {
        Ok(image::ImageFormat::Jpeg) => Ok(ImageKind::Jpeg),
        Ok(image::ImageFormat::WebP) => Ok(ImageKind::WebP),
        Ok(image::ImageFormat::Avif) => Ok(ImageKind::Avif),
        Ok(_) => Ok(ImageKind::Other),
        Err(e) => Err(e.to_string()),
    }
}

/// A format lookup with its error text as characters.
pub open spec fn format_view(r: Result<ImageKind, String>) -> Result<ImageKind, Seq<char>> {
    match r {
        Ok(k) => Ok(k),
        Err(m) => Err(m@),
    }
}

/// Whether `path` names an AVIF image, which goes through the AVIF codec
/// rather than the `image` crate.
pub open spec fn avif_path(path: Seq<char>) -> bool {
    image_format_from_path(path) == Ok::<ImageKind, Seq<char>>(ImageKind::Avif)
}

/// A path goes to the AVIF codec exactly when its extension is `avif` in any
/// ASCII case.
pub proof fn lemma_avif_path_is_avif_extension(path: Seq<char>)
    ensures
        avif_path(path) <==> (path_extension(path) matches Some(e) && ascii_lowercase(e)
            == "avif"@),
{
}

/// Reports whether `path` names an AVIF image.
pub fn is_avif_path(path: &str) -> (r: bool)
    ensures
        r == avif_path(path@),
{
    match format_from_path(path) {
        Ok(ImageKind::Avif) => true,
        _ => false,
    }
}

/// Quality used for WebP output when none is given.
pub const DEFAULT_WEBP_QUALITY: u8 = 75;

/// Quality used for AVIF output when none is given (libavif's 0 to 100 scale).
pub const DEFAULT_AVIF_QUALITY: u8 = 75;

/// How the output image is written.
#[allow(inconsistent_fields)]
#[derive(Debug, Clone, Copy, PartialEq, Eq, Structural)]
pub enum OutputPlan {
    /// JPEG without alpha; with a quality, through a JPEG encoder set to it,
    /// otherwise with the `image` crate's default settings.
    Jpeg { quality: Option<u8> },
    /// Lossy WebP at the given quality.
    WebP { quality: u8 },
    /// AVIF at the given quality.
    Avif { quality: u8 },
    /// Any other format, saved by the `image` crate; the quality is ignored.
    Save,
}

/// The way an output of format `format` is written, for an optional quality.
pub open spec fn output_plan_for(format: Result<ImageKind, Seq<char>>, quality: Option<u8>) -> Result<
    OutputPlan,
    ErrorView,
> {
    match format {
        Err(m) => Err(ErrorView::UnsupportedFormat(m)),
        Ok(ImageKind::Jpeg) => Ok(OutputPlan::Jpeg { quality }),
        Ok(ImageKind::WebP) => Ok(
            OutputPlan::WebP {
                quality: match quality {
                    Some(q) => q,
                    None => DEFAULT_WEBP_QUALITY,
                },
            },
        ),
        Ok(ImageKind::Avif) => Ok(
            OutputPlan::Avif {
                quality: match quality {
                    Some(q) => q,
                    None => DEFAULT_AVIF_QUALITY,
                },
            },
        ),
        Ok(ImageKind::Other) => Ok(OutputPlan::Save),
    }
}

/// Chooses how to write an output whose format lookup gave `format`.
pub fn plan_output(format: Result<ImageKind, String>, quality: Option<u8>) -> (r: Result<
    OutputPlan,
    SpheneError,
>)
    ensures
        match output_plan_for(format_view(format), quality) {
            Ok(p) => r == Ok::<OutputPlan, SpheneError>(p),
            Err(e) => r matches Err(err) && err@ == e,
        },
{
    match format {
        Err(m) => Err(SpheneError::UnsupportedFormat(m)),
        Ok(ImageKind::Jpeg) => Ok(OutputPlan::Jpeg { quality }),
        Ok(ImageKind::WebP) => Ok(
            OutputPlan::WebP {
                quality: match quality {
                    Some(q) => q,
                    None => DEFAULT_WEBP_QUALITY,
                },
            },
        ),
        Ok(ImageKind::Avif) => Ok(
            OutputPlan::Avif {
                quality: match quality {
                    Some(q) => q,
                    None => DEFAULT_AVIF_QUALITY,
                },
            },
        ),
        Ok(ImageKind::Other) => Ok(OutputPlan::Save),
    }
}

/// Chooses how to write the output file `output`, whose format follows from its
/// extension.
pub fn output_plan(output: &str, quality: Option<u8>) -> (r: Result<OutputPlan, SpheneError>)
    ensures
        match output_plan_for(image_format_from_path(output@), quality) {
            Ok(p) => r == Ok::<OutputPlan, SpheneError>(p),
            Err(e) => r matches Err(err) && err@ == e,
        },
{
    plan_output(format_from_path(output), quality)
}

/// `-quality` reaches only the JPEG, WebP and AVIF encoders: every other
/// output format is written the same way whatever quality is asked for, and a
/// format that cannot be determined is refused whatever the quality.
pub proof fn lemma_quality_only_reaches_lossy_formats(
    format: Result<ImageKind, Seq<char>>,
    q1: Option<u8>,
    q2: Option<u8>,
)
    requires
        format == Ok::<ImageKind, Seq<char>>(ImageKind::Other) || format is Err,
    ensures
        output_plan_for(format, q1) == output_plan_for(format, q2),
{
}

} // verus!
