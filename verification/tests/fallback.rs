use sphene::{fallback_reason, needs_fallback, FallbackReason};

fn args(v: &[&str]) -> Vec<String> {
    v.iter().map(|s| s.to_string()).collect()
}

#[test]
fn native_convert_syntax_does_not_fall_back() {
    assert!(!needs_fallback(&args(&["convert", "in.jpg", "out.png"])));
    assert!(!needs_fallback(&args(&[
        "convert", "in.jpg", "-resize", "800x600", "-quality", "80", "out.png"
    ])));
}

#[test]
fn stdin_flag_falls_back() {
    assert!(needs_fallback(&args(&["convert", "-", "out.png"])));
}

#[test]
fn resize_modifier_falls_back() {
    assert!(needs_fallback(&args(&[
        "convert", "in.jpg", "-resize", "800x600^", "out.png"
    ])));
}

#[test]
fn unknown_flag_falls_back() {
    assert!(needs_fallback(&args(&[
        "convert",
        "in.jpg",
        "-polaroid",
        "out.png"
    ])));
}

#[test]
fn unknown_extensions_fall_back() {
    assert!(needs_fallback(&args(&["convert", "in.unknown", "out.png"])));
    assert!(needs_fallback(&args(&["convert", "in.png", "out.unknown"])));
}

#[test]
fn malformed_resize_geometry_falls_back() {
    assert!(needs_fallback(&args(&[
        "convert", "in.jpg", "-resize", "garbage"
    ])));
}

#[test]
fn extensions_are_matched_in_any_case() {
    assert!(!needs_fallback(&args(&["sphene", "PHOTO.JPG", "out.WebP"])));
    assert!(!needs_fallback(&args(&["sphene", "in.avif", "out.jpeg"])));
}

#[test]
fn hidden_file_without_extension_falls_back() {
    assert!(needs_fallback(&args(&["sphene", ".png", "out.png"])));
}

#[test]
fn each_resize_modifier_falls_back() {
    for value in ["800x600!", "800x600>", "800x600<", "^800x600"] {
        assert!(needs_fallback(&args(&["sphene", "in.jpg", "-resize", value, "out.png"])));
    }
    assert!(needs_fallback(&args(&["sphene", "in.jpg", "-quality", "80!", "out.png"])));
}

#[test]
fn stdin_after_a_flag_falls_back() {
    assert!(needs_fallback(&args(&["convert", "in.jpg", "-quality", "-"])));
    assert!(needs_fallback(&args(&["sphene", "in.jpg", "-quality", "-", "out.png"])));
    assert!(needs_fallback(&args(&["sphene", "in.jpg", "-resize", "-", "out.png"])));
    assert!(needs_fallback(&args(&["sphene", "in.jpg", "out.png", "-"])));
}

#[test]
fn flag_like_value_after_a_native_flag_is_not_a_flag() {
    // The value after a native flag is not itself checked as a flag.
    assert!(!needs_fallback(&args(&["sphene", "in.jpg", "-quality", "-x", "out.png"])));
}

#[test]
fn resize_without_value_falls_back() {
    assert!(needs_fallback(&args(&["sphene", "in.jpg", "out.png", "-resize"])));
}

#[test]
fn resize_geometry_over_u32_falls_back() {
    assert!(needs_fallback(&args(&[
        "sphene", "in.jpg", "-resize", "4294967296x10", "out.png"
    ])));
    assert!(!needs_fallback(&args(&[
        "sphene", "in.jpg", "-resize", "4294967295x+10", "out.png"
    ])));
}

#[test]
fn incomplete_command_is_left_to_the_parser() {
    assert!(!needs_fallback(&args(&["sphene", "in.jpg"])));
    assert!(!needs_fallback(&args(&["sphene"])));
    assert!(!needs_fallback(&args(&[])));
}

#[test]
fn fallback_reasons_name_the_argument() {
    assert_eq!(fallback_reason(&args(&["convert", "in.jpg", "out.png"])), None);
    assert_eq!(
        fallback_reason(&args(&["convert", "in.unknown", "out.png"])),
        Some(FallbackReason::ForeignExtension)
    );
    // `-` as input has no extension, which is seen first.
    assert_eq!(
        fallback_reason(&args(&["convert", "-", "out.png"])),
        Some(FallbackReason::ForeignExtension)
    );
    assert_eq!(
        fallback_reason(&args(&["convert", "in.jpg", "-", "out.png"])),
        Some(FallbackReason::StandardInput(2))
    );
    assert_eq!(
        fallback_reason(&args(&["convert", "in.jpg", "-quality", "-", "out.png"])),
        Some(FallbackReason::StandardInput(3))
    );
    assert_eq!(
        fallback_reason(&args(&["convert", "in.jpg", "-polaroid", "out.png"])),
        Some(FallbackReason::UnknownFlag(2))
    );
    assert_eq!(
        fallback_reason(&args(&["convert", "in.jpg", "-resize", "800x600^", "out.png"])),
        Some(FallbackReason::ResizeModifier(3))
    );
    assert_eq!(
        fallback_reason(&args(&["convert", "in.jpg", "-resize", "garbage"])),
        Some(FallbackReason::MalformedGeometry(2))
    );
}
