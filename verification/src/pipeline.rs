use vstd::prelude::*;

use crate::error::{ErrorView, SpheneError};
use crate::formats::{avif_path, image_format_from_path, is_avif_path, output_plan, output_plan_for, OutputPlan};
use crate::limits::{check_dimensions, check_input_len, dimensions_allowed, MAX_INPUT_BYTES};
use crate::text::decimal_digits;

verus! {

/// Where a conversion stands.
#[derive(Debug, Clone, Copy, PartialEq, Eq, Structural)]
pub enum Stage {
    Start,
    CheckSize,
    ReadDimensions,
    Decode,
    Fit,
    Resample,
    Encode,
    Done,
}

/// What the caller must do next; each step is answered with one [`Event`].
#[derive(Debug, Clone, Copy, PartialEq, Eq, Structural)]
pub enum Step {
    /// Read the size in bytes of the input file; answer `InputSize`.
    ReadInputSize,
    /// Read the pixel dimensions from the input's header without decoding
    /// pixels, with the AVIF codec when `avif`; answer `Dimensions`.
    ReadDimensions { avif: bool },
    /// Decode the input, with the AVIF codec when `avif`; answer `Decoded`.
    Decode { avif: bool },
    /// Compute the size with the source's aspect ratio that fits the box;
    /// answer `Fitted`.
    FitWithin { source_width: u32, source_height: u32, box_width: u32, box_height: u32 },
    /// Resample the decoded image in linear light to `width` by `height`;
    /// answer `Resampled`.
    Resample { width: u32, height: u32 },
    /// Keep the decoded image at its size, as RGBA; answer `Resampled`.
    KeepSize,
    /// Write the image to the output path as `plan` says; answer `Encoded`.
    Encode { plan: OutputPlan },
    /// The conversion is complete.
    Finished,
}

/// What the caller reports after carrying out a [`Step`].
#[derive(Debug, Clone, Copy, PartialEq, Eq, Structural)]
pub enum Event {
    Start,
    InputSize(u64),
    Dimensions(u32, u32),
    Decoded,
    Fitted(u32, u32),
    Resampled,
    Encoded,
}

/// A file-to-file conversion: the paths, the wanted size and quality, and how
/// far it has come.
#[derive(Debug)]
pub struct Conversion {
    input: String,
    output: String,
    bounds: Option<(u32, u32)>,
    quality: Option<u8>,
    stage: Stage,
    input_size: Option<u64>,
    source: Option<(u32, u32)>,
}

/// The mathematical value of a [`Conversion`].
pub struct ConversionView {
    pub input: Seq<char>,
    pub output: Seq<char>,
    /// The box the output must fit in, keeping the source's aspect ratio;
    /// without one the output keeps the source size.
    pub bounds: Option<(u32, u32)>,
    pub quality: Option<u8>,
    pub stage: Stage,
    pub input_size: Option<u64>,
    pub source: Option<(u32, u32)>,
}

impl View for Conversion {
    type V = ConversionView;

    closed spec fn view(&self) -> ConversionView {
        ConversionView {
            input: self.input@,
            output: self.output@,
            bounds: self.bounds,
            quality: self.quality,
            stage: self.stage,
            input_size: self.input_size,
            source: self.source,
        }
    }
}

/// Whether the input file's size has been accepted at this stage.
pub open spec fn size_checked(stage: Stage) -> bool {
    match stage {
        Stage::ReadDimensions | Stage::Decode | Stage::Fit | Stage::Resample | Stage::Encode => true,
        _ => false,
    }
}

/// Whether the source dimensions have been accepted at this stage.
pub open spec fn dimensions_checked(stage: Stage) -> bool {
    match stage {
        Stage::Decode | Stage::Fit | Stage::Resample | Stage::Encode => true,
        _ => false,
    }
}

/// The invariant of a conversion: a requested size is under the pixel
/// ceiling, and once a stage is past a check, the value it accepted is recorded
/// and within its limit.
pub open spec fn well_formed(c: ConversionView) -> bool {
    &&& (c.bounds matches Some((w, h)) ==> dimensions_allowed(w, h))
    &&& (size_checked(c.stage) ==> (c.input_size matches Some(n) && n <= MAX_INPUT_BYTES))
    &&& (dimensions_checked(c.stage) ==> (c.source matches Some((w, h)) && dimensions_allowed(
        w,
        h,
    )))
}

/// The recorded source dimensions of `c`.
pub open spec fn source_size(c: ConversionView) -> (u32, u32) {
    match c.source {
        Some(s) => s,
        None => (0, 0),
    }
}

/// `c` moved to `stage`.
pub open spec fn at_stage(c: ConversionView, stage: Stage) -> ConversionView {
    ConversionView { stage, ..c }
}

/// The state after `c` receives `event`, and the step it asks for or the error
/// that ends it.
pub open spec fn transition(c: ConversionView, event: Event) -> (ConversionView, Result<Step, ErrorView>) {
    match (c.stage, event) {
        (Stage::Start, Event::Start) => (at_stage(c, Stage::CheckSize), Ok(Step::ReadInputSize)),
        (Stage::CheckSize, Event::InputSize(n)) => if n <= MAX_INPUT_BYTES {
            (
                ConversionView { stage: Stage::ReadDimensions, input_size: Some(n), ..c },
                Ok(Step::ReadDimensions { avif: avif_path(c.input) }),
            )
        } else {
            (
                at_stage(c, Stage::Done),
                Err(
                    ErrorView::IoError(
                        "Input file exceeds 50 MiB limit: "@ + decimal_digits(n as nat) + " bytes"@,
                    ),
                ),
            )
        },
        (Stage::ReadDimensions, Event::Dimensions(w, h)) => if dimensions_allowed(w, h) {
            (
                ConversionView { stage: Stage::Decode, source: Some((w, h)), ..c },
                Ok(Step::Decode { avif: avif_path(c.input) }),
            )
        } else {
            (at_stage(c, Stage::Done), Err(ErrorView::DimensionsTooLarge(w, h)))
        },
        (Stage::Decode, Event::Decoded) => match c.bounds {
            Some((bw, bh)) => {
                let (sw, sh) = source_size(c);
                (
                    at_stage(c, Stage::Fit),
                    Ok(
                        Step::FitWithin {
                            source_width: sw,
                            source_height: sh,
                            box_width: bw,
                            box_height: bh,
                        },
                    ),
                )
            },
            None => (at_stage(c, Stage::Resample), Ok(Step::KeepSize)),
        },
        (Stage::Fit, Event::Fitted(w, h)) => if dimensions_allowed(w, h) {
            (at_stage(c, Stage::Resample), Ok(Step::Resample { width: w, height: h }))
        } else {
            (at_stage(c, Stage::Done), Err(ErrorView::DimensionsTooLarge(w, h)))
        },
        (Stage::Resample, Event::Resampled) => match output_plan_for(
            image_format_from_path(c.output),
            c.quality,
        ) {
            Ok(plan) => (at_stage(c, Stage::Encode), Ok(Step::Encode { plan })),
            Err(e) => (at_stage(c, Stage::Done), Err(e)),
        },
        (Stage::Encode, Event::Encoded) => (at_stage(c, Stage::Done), Ok(Step::Finished)),
        _ => (at_stage(c, Stage::Done), Err(ErrorView::Unknown)),
    }
}

/// A fresh conversion of `input` to `output`.
pub open spec fn fresh_conversion(
    input: Seq<char>,
    output: Seq<char>,
    bounds: Option<(u32, u32)>,
    quality: Option<u8>,
) -> ConversionView {
    ConversionView {
        input,
        output,
        bounds,
        quality,
        stage: Stage::Start,
        input_size: None,
        source: None,
    }
}

impl Conversion {
    #[verifier::type_invariant]
    spec fn conversion_invariant(self) -> bool {
        well_formed(self@)
    }

    /// The input path.
    pub fn input(&self) -> (r: &str)
        ensures
            r@ == self@.input,
    {
        self.input.as_str()
    }

    /// The output path.
    pub fn output(&self) -> (r: &str)
        ensures
            r@ == self@.output,
    {
        self.output.as_str()
    }

    /// Feeds the outcome of the last step to the conversion and returns the
    /// next step. The first event is `Start`. Every pixel dimension is checked
    /// against the ceiling, and the file size against its limit, before the
    /// step that needs them; an event out of turn ends the conversion with
    /// `Unknown`.
    pub fn advance(&mut self, event: Event) -> (r: Result<Step, SpheneError>)
        ensures
            final(self)@ == transition(old(self)@, event).0,
            match transition(old(self)@, event).1 {
                Ok(s) => r == Ok::<Step, SpheneError>(s),
                Err(e) => r matches Err(err) && err@ == e,
            },
    {
        proof {
            use_type_invariant(&*self);
        }
        match (self.stage, event) {
            (Stage::Start, Event::Start) => {
                self.stage = Stage::CheckSize;
                Ok(Step::ReadInputSize)
            },
            (Stage::CheckSize, Event::InputSize(n)) => {
                match check_input_len(n) {
                    Ok(()) => {
                        self.input_size = Some(n);
                        self.stage = Stage::ReadDimensions;
                        Ok(Step::ReadDimensions { avif: is_avif_path(self.input.as_str()) })
                    },
                    Err(e) => {
                        self.stage = Stage::Done;
                        Err(e)
                    },
                }
            },
            (Stage::ReadDimensions, Event::Dimensions(w, h)) => {
                match check_dimensions(w, h) {
                    Ok(()) => {
                        self.source = Some((w, h));
                        self.stage = Stage::Decode;
                        Ok(Step::Decode { avif: is_avif_path(self.input.as_str()) })
                    },
                    Err(e) => {
                        self.stage = Stage::Done;
                        Err(e)
                    },
                }
            },
            (Stage::Decode, Event::Decoded) => {
                match self.bounds {
                    Some((bw, bh)) => {
                        let (sw, sh) = match self.source {
                            Some(s) => s,
                            None => (0, 0),
                        };
                        self.stage = Stage::Fit;
                        Ok(
                            Step::FitWithin {
                                source_width: sw,
                                source_height: sh,
                                box_width: bw,
                                box_height: bh,
                            },
                        )
                    },
                    None => {
                        self.stage = Stage::Resample;
                        Ok(Step::KeepSize)
                    },
                }
            },
            (Stage::Fit, Event::Fitted(w, h)) => {
                match check_dimensions(w, h) {
                    Ok(()) => {
                        self.stage = Stage::Resample;
                        Ok(Step::Resample { width: w, height: h })
                    },
                    Err(e) => {
                        self.stage = Stage::Done;
                        Err(e)
                    },
                }
            },
            (Stage::Resample, Event::Resampled) => {
                match output_plan(self.output.as_str(), self.quality) {
                    Ok(plan) => {
                        self.stage = Stage::Encode;
                        Ok(Step::Encode { plan })
                    },
                    Err(e) => {
                        self.stage = Stage::Done;
                        Err(e)
                    },
                }
            },
            (Stage::Encode, Event::Encoded) => {
                self.stage = Stage::Done;
                Ok(Step::Finished)
            },
            _ => {
                self.stage = Stage::Done;
                Err(SpheneError::Unknown)
            },
        }
    }
}

/// Starts resizing `input` to fit within a `width` by `height` box, keeping
/// its aspect ratio, written to `output` in the format of its extension; a box
/// at or over the pixel ceiling is refused at once, before any file is
/// touched.
pub fn resize_image(input: &str, output: &str, width: u32, height: u32) -> (r: Result<
    Conversion,
    SpheneError,
>)
    ensures
        r is Ok <==> dimensions_allowed(width, height),
        r matches Err(e) ==> e@ == ErrorView::DimensionsTooLarge(width, height),
        r matches Ok(c) ==> c@ == fresh_conversion(input@, output@, Some((width, height)), None),
{
    check_dimensions(width, height)?;
    Ok(
        Conversion {
            input: String::from_str(input),
            output: String::from_str(output),
            bounds: Some((width, height)),
            quality: None,
            stage: Stage::Start,
            input_size: None,
            source: None,
        },
    )
}

/// Starts converting `input` to `output`, optionally resized to fit within
/// `resize` with the source's aspect ratio, with `quality` where the output
/// format has one; a resize box at or over the pixel ceiling is refused at
/// once.
pub fn convert_image(input: &str, output: &str, resize: Option<(u32, u32)>, quality: Option<u8>) -> (r:
    Result<Conversion, SpheneError>)
    ensures
        r is Ok <==> (resize matches Some((w, h)) ==> dimensions_allowed(w, h)),
        r matches Err(e) ==> resize matches Some((w, h)) && e@ == ErrorView::DimensionsTooLarge(w, h),
        r matches Ok(c) ==> c@ == fresh_conversion(input@, output@, resize, quality),
{
    if let Some((w, h)) = resize {
        check_dimensions(w, h)?;
    }
    Ok(
        Conversion {
            input: String::from_str(input),
            output: String::from_str(output),
            bounds: resize,
            quality,
            stage: Stage::Start,
            input_size: None,
            source: None,
        },
    )
}

} // verus!
