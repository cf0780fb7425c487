//! Sphene: a bounded native image-conversion path with an ImageMagick fallback.
//!
//! The library holds the decisions of the tool: which command lines the native
//! engine can run, the pixel and file-size limits checked before any pixel buffer
//! is allocated, the steps of a conversion, and the RGBA row layout exchanged
//! with the AVIF codec. Reading and writing files, running codecs and spawning
//! ImageMagick are left to the program around it.
pub mod error;
pub mod text;
pub mod limits;
pub mod cli;
pub mod options;
pub mod laws;
pub mod invocation;
pub mod formats;
pub mod pipeline;
pub mod avif;

pub use avif::{
    avif_dimensions, check_encodable, libavif_failure, rgba_buffer_len, rgba_from_rows,
    write_rgba_rows,
};
pub use cli::{
    fallback_reason, has_native_extension, FallbackReason, is_native_extension, native_input_output, native_resize_geometry,
    needs_fallback, parse_quality, parse_resize,
};
pub use error::{ErrorView, SpheneError};
pub use formats::{
    is_avif_path, output_plan, plan_output, ImageKind, OutputPlan, DEFAULT_AVIF_QUALITY,
    DEFAULT_WEBP_QUALITY,
};
pub use invocation::{
    choose_fallback, fallback_executables, forwarded_arguments, requests_help, split_path_variable,
    strip_convert,
};
pub use limits::{check_dimensions, check_input_len, MAX_INPUT_BYTES, MAX_PIXELS};
pub use options::{parse_native_options, NativeOptions};
pub use pipeline::{convert_image, resize_image, Conversion, Event, Stage, Step};
