use sphene::{
    parse_native_options, parse_quality, parse_resize, native_resize_geometry, SpheneError,
};

fn args(v: &[&str]) -> Vec<String> {
    v.iter().map(|s| s.to_string()).collect()
}

fn unsupported_message(r: Result<sphene::NativeOptions, SpheneError>) -> String {
    match r {
        Err(SpheneError::UnsupportedFormat(m)) => m,
        other => panic!("unexpected {other:?}"),
    }
}

#[test]
fn resize_geometry_is_two_u32s_around_the_first_x() {
    assert_eq!(parse_resize("800x600"), Some((800, 600)));
    assert_eq!(parse_resize("+8x+6"), Some((8, 6)));
    assert_eq!(parse_resize("0x0"), Some((0, 0)));
    assert_eq!(parse_resize("4294967295x1"), Some((u32::MAX, 1)));
    assert_eq!(parse_resize("4294967296x1"), None);
    assert_eq!(parse_resize("800x"), None);
    assert_eq!(parse_resize("x600"), None);
    assert_eq!(parse_resize("8x6x2"), None);
    assert_eq!(parse_resize("800X600"), None);
    assert_eq!(parse_resize("-8x6"), None);
    assert_eq!(parse_resize("+x6"), None);
    assert!(native_resize_geometry("800x600"));
    assert!(!native_resize_geometry("garbage"));
}

#[test]
fn quality_is_a_u8() {
    assert_eq!(parse_quality("80"), Some(80));
    assert_eq!(parse_quality("255"), Some(255));
    assert_eq!(parse_quality("0080"), Some(80));
    assert_eq!(parse_quality("+5"), Some(5));
    assert_eq!(parse_quality("256"), None);
    assert_eq!(parse_quality(""), None);
    assert_eq!(parse_quality("-1"), None);
    assert_eq!(parse_quality("8 "), None);
}

#[test]
fn native_options_read_flags_and_output() {
    let o = parse_native_options(&args(&["-resize", "800x600", "-quality", "80", "out.webp"])).unwrap();
    assert_eq!(o.output, "out.webp");
    assert_eq!(o.resize, Some((800, 600)));
    assert_eq!(o.quality, Some(80));
    let o = parse_native_options(&args(&["out.png"])).unwrap();
    assert_eq!(o.output, "out.png");
    assert_eq!(o.resize, None);
    assert_eq!(o.quality, None);
    let o = parse_native_options(&args(&["-quality", "10", "-quality", "20", "o.jpg"])).unwrap();
    assert_eq!(o.quality, Some(20));
}

#[test]
fn native_option_errors_name_the_problem() {
    assert_eq!(unsupported_message(parse_native_options(&args(&[]))), "missing output path");
    assert_eq!(
        unsupported_message(parse_native_options(&args(&["-resize", "o.png"]))),
        "-resize requires a value"
    );
    assert_eq!(
        unsupported_message(parse_native_options(&args(&["-quality", "o.png"]))),
        "-quality requires a value"
    );
    assert_eq!(
        unsupported_message(parse_native_options(&args(&["-resize", "big", "o.png"]))),
        "invalid -resize value: big"
    );
    assert_eq!(
        unsupported_message(parse_native_options(&args(&["-quality", "300", "o.png"]))),
        "invalid -quality value: 300"
    );
    assert_eq!(
        unsupported_message(parse_native_options(&args(&["extra", "o.png"]))),
        "unexpected argument: extra"
    );
}

#[test]
fn parsing_agrees_with_std() {
    let samples = [
        "", "0", "7", "+7", "+", "-", "-7", "255", "256", "65535", "4294967295", "4294967296",
        "00000000000000000000001", "1a", "a1", " 1", "1 ", "١", "+-1", "++1", "99999999999999999999",
    ];
    for s in samples {
        assert_eq!(parse_quality(s), s.parse::<u8>().ok(), "quality {s:?}");
        let geometry = format!("{s}x{s}");
        let expected = s.parse::<u32>().ok().map(|v| (v, v));
        assert_eq!(parse_resize(&geometry), expected, "geometry {geometry:?}");
    }
}

#[test]
fn admitted_command_lines_parse_natively() {
    let cmd = args(&["sphene", "in.jpg", "-resize", "800x600", "-quality", "80", "out.png"]);
    assert!(!sphene::needs_fallback(&cmd));
    let o = parse_native_options(&cmd[2..]).unwrap();
    assert_eq!(o.output, "out.png");
    assert_eq!(o.resize, Some((800, 600)));
    assert_eq!(o.quality, Some(80));
    // `high` is no number: the command stays native and reading its options fails.
    let cmd = args(&["sphene", "in.jpg", "-quality", "high", "out.png"]);
    assert!(!sphene::needs_fallback(&cmd));
    assert!(parse_native_options(&cmd[2..]).is_err());
}
