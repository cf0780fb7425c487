use sphene::{
    convert_image, output_plan, plan_output, resize_image, Event, ImageKind, OutputPlan,
    SpheneError, Step, MAX_INPUT_BYTES,
};

#[test]
fn convert_with_resize_walks_every_step() {
    let mut c = convert_image("in.jpg", "out.webp", Some((1200, 800)), None).unwrap();
    assert_eq!(c.input(), "in.jpg");
    assert_eq!(c.output(), "out.webp");
    assert_eq!(c.advance(Event::Start).unwrap(), Step::ReadInputSize);
    assert_eq!(
        c.advance(Event::InputSize(4_984)).unwrap(),
        Step::ReadDimensions { avif: false }
    );
    assert_eq!(
        c.advance(Event::Dimensions(6000, 4000)).unwrap(),
        Step::Decode { avif: false }
    );
    assert_eq!(
        c.advance(Event::Decoded).unwrap(),
        Step::FitWithin { source_width: 6000, source_height: 4000, box_width: 1200, box_height: 800 }
    );
    assert_eq!(
        c.advance(Event::Fitted(1200, 800)).unwrap(),
        Step::Resample { width: 1200, height: 800 }
    );
    assert_eq!(
        c.advance(Event::Resampled).unwrap(),
        Step::Encode { plan: OutputPlan::WebP { quality: 75 } }
    );
    assert_eq!(c.advance(Event::Encoded).unwrap(), Step::Finished);
}

#[test]
fn convert_without_resize_keeps_size_and_honours_quality() {
    let mut c = convert_image("in.png", "out.jpg", None, Some(80)).unwrap();
    c.advance(Event::Start).unwrap();
    c.advance(Event::InputSize(10)).unwrap();
    c.advance(Event::Dimensions(10, 10)).unwrap();
    assert_eq!(c.advance(Event::Decoded).unwrap(), Step::KeepSize);
    assert_eq!(
        c.advance(Event::Resampled).unwrap(),
        Step::Encode { plan: OutputPlan::Jpeg { quality: Some(80) } }
    );
}

#[test]
fn resize_image_fits_the_box_without_quality() {
    let mut c = resize_image("in.png", "out.png", 2, 2).unwrap();
    c.advance(Event::Start).unwrap();
    c.advance(Event::InputSize(100)).unwrap();
    c.advance(Event::Dimensions(4, 2)).unwrap();
    assert_eq!(
        c.advance(Event::Decoded).unwrap(),
        Step::FitWithin { source_width: 4, source_height: 2, box_width: 2, box_height: 2 }
    );
    assert_eq!(c.advance(Event::Fitted(2, 1)).unwrap(), Step::Resample { width: 2, height: 1 });
    assert_eq!(c.advance(Event::Resampled).unwrap(), Step::Encode { plan: OutputPlan::Save });
    let mut c = resize_image("in.png", "out.jpg", 2, 2).unwrap();
    c.advance(Event::Start).unwrap();
    c.advance(Event::InputSize(100)).unwrap();
    c.advance(Event::Dimensions(4, 2)).unwrap();
    c.advance(Event::Decoded).unwrap();
    c.advance(Event::Fitted(2, 1)).unwrap();
    assert_eq!(
        c.advance(Event::Resampled).unwrap(),
        Step::Encode { plan: OutputPlan::Jpeg { quality: None } }
    );
}

#[test]
fn decompression_bomb_is_refused_before_decode() {
    let mut c = convert_image("bomb.png", "out.png", None, None).unwrap();
    c.advance(Event::Start).unwrap();
    c.advance(Event::InputSize(107 * 1024)).unwrap();
    let err = c.advance(Event::Dimensions(30_000, 30_000)).unwrap_err();
    assert!(matches!(err, SpheneError::DimensionsTooLarge(30_000, 30_000)));
}

#[test]
fn oversized_input_file_is_refused_before_reading_dimensions() {
    let mut c = convert_image("big.png", "out.png", None, None).unwrap();
    c.advance(Event::Start).unwrap();
    let err = c.advance(Event::InputSize(MAX_INPUT_BYTES + 1)).unwrap_err();
    assert!(matches!(err, SpheneError::IoError(ref m) if m.contains("50 MiB")));
}

#[test]
fn fitted_size_over_the_ceiling_is_refused() {
    let mut c = convert_image("in.png", "out.png", Some((20_000, 12_000)), None).unwrap();
    c.advance(Event::Start).unwrap();
    c.advance(Event::InputSize(1)).unwrap();
    c.advance(Event::Dimensions(100, 60)).unwrap();
    c.advance(Event::Decoded).unwrap();
    let err = c.advance(Event::Fitted(20_000, 12_500)).unwrap_err();
    assert!(matches!(err, SpheneError::DimensionsTooLarge(20_000, 12_500)));
}

#[test]
fn convert_refuses_an_oversized_resize_box() {
    let err = convert_image("in.png", "out.png", Some((20_000, 20_000)), None).unwrap_err();
    assert!(matches!(err, SpheneError::DimensionsTooLarge(20_000, 20_000)));
    assert!(convert_image("in.png", "out.png", Some((800, 600)), None).is_ok());
}

#[test]
fn avif_paths_go_through_the_avif_codec() {
    let mut c = convert_image("photo.AVIF", "out.avif", None, None).unwrap();
    c.advance(Event::Start).unwrap();
    assert_eq!(c.advance(Event::InputSize(1)).unwrap(), Step::ReadDimensions { avif: true });
    assert_eq!(c.advance(Event::Dimensions(6, 6)).unwrap(), Step::Decode { avif: true });
    c.advance(Event::Decoded).unwrap();
    assert_eq!(
        c.advance(Event::Resampled).unwrap(),
        Step::Encode { plan: OutputPlan::Avif { quality: 75 } }
    );
}

#[test]
fn unknown_output_format_is_reported_at_encode_time() {
    let mut c = convert_image("in.png", "out.unknown", None, None).unwrap();
    c.advance(Event::Start).unwrap();
    c.advance(Event::InputSize(1)).unwrap();
    c.advance(Event::Dimensions(1, 1)).unwrap();
    c.advance(Event::Decoded).unwrap();
    let err = c.advance(Event::Resampled).unwrap_err();
    assert!(matches!(err, SpheneError::UnsupportedFormat(_)));
}

#[test]
fn events_out_of_turn_end_the_conversion() {
    let mut c = convert_image("in.png", "out.png", None, None).unwrap();
    let err = c.advance(Event::Decoded).unwrap_err();
    assert!(matches!(err, SpheneError::Unknown));
    let err = c.advance(Event::Start).unwrap_err();
    assert!(matches!(err, SpheneError::Unknown));
}

#[test]
fn output_plans_follow_the_extension() {
    assert_eq!(output_plan("a.jpg", Some(80)).unwrap(), OutputPlan::Jpeg { quality: Some(80) });
    assert_eq!(output_plan("a.jpeg", None).unwrap(), OutputPlan::Jpeg { quality: None });
    assert_eq!(output_plan("a.webp", Some(40)).unwrap(), OutputPlan::WebP { quality: 40 });
    assert_eq!(output_plan("a.avif", Some(90)).unwrap(), OutputPlan::Avif { quality: 90 });
    assert_eq!(output_plan("a.png", Some(90)).unwrap(), OutputPlan::Save);
    assert_eq!(output_plan("a.bmp", None).unwrap(), OutputPlan::Save);
    assert!(matches!(output_plan("noext", None), Err(SpheneError::UnsupportedFormat(_))));
}

#[test]
fn plan_output_maps_each_format() {
    assert_eq!(plan_output(Ok(ImageKind::WebP), None).unwrap(), OutputPlan::WebP { quality: 75 });
    assert_eq!(plan_output(Ok(ImageKind::Avif), None).unwrap(), OutputPlan::Avif { quality: 75 });
    assert_eq!(plan_output(Ok(ImageKind::Other), Some(3)).unwrap(), OutputPlan::Save);
    let err = plan_output(Err("no format".to_string()), Some(3)).unwrap_err();
    assert!(matches!(err, SpheneError::UnsupportedFormat(ref m) if m == "no format"));
}

#[test]
fn quality_is_ignored_by_other_formats() {
    assert_eq!(plan_output(Ok(ImageKind::Other), Some(1)).unwrap(), plan_output(Ok(ImageKind::Other), None).unwrap());
    assert_eq!(output_plan("out.gif", Some(10)).unwrap(), output_plan("out.gif", None).unwrap());
}

#[test]
fn format_table_follows_the_extension() {
    for ext in ["jpg", "JPEG", "jfif"] {
        assert_eq!(output_plan(&format!("a.{ext}"), None).unwrap(), OutputPlan::Jpeg { quality: None });
    }
    assert_eq!(output_plan("a.WEBP", None).unwrap(), OutputPlan::WebP { quality: 75 });
    assert_eq!(output_plan("a.AvIf", Some(5)).unwrap(), OutputPlan::Avif { quality: 5 });
    for ext in [
        "png", "apng", "gif", "tif", "tiff", "tga", "dds", "bmp", "ico", "hdr", "exr", "pbm",
        "pam", "ppm", "pgm", "pnm", "ff", "qoi", "QOI",
    ] {
        assert_eq!(output_plan(&format!("a.{ext}"), Some(9)).unwrap(), OutputPlan::Save, "{ext}");
    }
    for path in ["a.xyz", "a.heic", "a", ".png", "a.jpg.", "dir.png/"] {
        let r = output_plan(path, None);
        if path == "dir.png/" {
            // A trailing separator is dropped by `Path::extension`.
            assert_eq!(r.unwrap(), OutputPlan::Save);
        } else {
            assert!(matches!(r, Err(SpheneError::UnsupportedFormat(_))), "{path}");
        }
    }
}
