use sphene::{
    choose_fallback, fallback_executables, forwarded_arguments, split_path_variable, has_native_extension, is_avif_path,
    is_native_extension, native_input_output, requests_help, strip_convert,
};

fn args(v: &[&str]) -> Vec<String> {
    v.iter().map(|s| s.to_string()).collect()
}

#[test]
fn convert_subcommand_is_stripped() {
    assert_eq!(strip_convert(&args(&["sphene", "convert", "a.jpg", "b.png"])), args(&["sphene", "a.jpg", "b.png"]));
    assert_eq!(strip_convert(&args(&["sphene", "a.jpg", "convert"])), args(&["sphene", "a.jpg", "convert"]));
    assert_eq!(strip_convert(&args(&["convert"])), args(&["convert"]));
    assert_eq!(strip_convert(&args(&[])), args(&[]));
}

#[test]
fn help_and_version_are_recognised() {
    for flag in ["--help", "-h", "--version", "-V"] {
        assert!(requests_help(&args(&["sphene", flag])));
    }
    assert!(!requests_help(&args(&["sphene", "in.jpg", "--help"])));
    assert!(!requests_help(&args(&["--help"])));
}

#[test]
fn fallback_prefers_magick_then_convert() {
    assert_eq!(fallback_executables(None), args(&["/usr/bin/magick", "/usr/bin/convert"]));
}

#[test]
fn fallback_also_searches_path() {
    assert_eq!(
        fallback_executables(Some("/opt/homebrew/bin:/usr/local/bin/::relative")),
        args(&[
            "/usr/bin/magick",
            "/usr/bin/convert",
            "/opt/homebrew/bin/magick",
            "/opt/homebrew/bin/convert",
            "/usr/local/bin/magick",
            "/usr/local/bin/convert",
            "relative/magick",
            "relative/convert",
        ])
    );
    assert_eq!(fallback_executables(Some("")), args(&["/usr/bin/magick", "/usr/bin/convert"]));
}

#[test]
fn path_is_split_at_colons() {
    assert_eq!(split_path_variable("/a:/b/c"), args(&["/a", "/b/c"]));
    assert_eq!(split_path_variable(""), args(&[""]));
    assert_eq!(split_path_variable(":x:"), args(&["", "x", ""]));
}

#[test]
fn first_existing_executable_that_is_not_sphene_is_chosen() {
    assert_eq!(choose_fallback(&[false, false, true, true], &[false, false, false, false]), Some(2));
    assert_eq!(choose_fallback(&[true, true], &[true, false]), Some(1));
    assert_eq!(choose_fallback(&[true, false], &[true, false]), None);
    assert_eq!(choose_fallback(&[], &[]), None);
}

#[test]
fn path_convert_drops_the_subcommand() {
    let raw = args(&["sphene", "convert", "in.heic", "out.png"]);
    assert_eq!(forwarded_arguments(&raw, "/opt/im6/bin/convert"), args(&["in.heic", "out.png"]));
}

#[test]
fn forwarded_arguments_drop_the_program_name() {
    let raw = args(&["sphene", "convert", "in.heic", "out.png"]);
    assert_eq!(forwarded_arguments(&raw, "/usr/bin/magick"), args(&["convert", "in.heic", "out.png"]));
    assert_eq!(forwarded_arguments(&raw, "/usr/bin/convert"), args(&["in.heic", "out.png"]));
    let raw = args(&["sphene", "in.heic", "out.png"]);
    assert_eq!(forwarded_arguments(&raw, "/usr/bin/convert"), args(&["in.heic", "out.png"]));
    assert_eq!(forwarded_arguments(&args(&["sphene"]), "/usr/bin/convert"), args(&[]));
    assert_eq!(forwarded_arguments(&args(&[]), "/usr/bin/magick"), args(&[]));
}

#[test]
fn native_command_lines_are_recognised() {
    assert_eq!(native_input_output(&args(&["p", "in.jpg", "out.png"])), Some(("in.jpg", "out.png")));
    assert_eq!(
        native_input_output(&args(&["p", "in.jpg", "-resize", "1x1", "-quality", "9", "out.png"])),
        Some(("in.jpg", "out.png"))
    );
    assert_eq!(native_input_output(&args(&["p", "in.jpg", "-resize", "1x1"])), None);
    assert_eq!(native_input_output(&args(&["p", "in.jpg", "-x", "out.png"])), None);
    assert_eq!(native_input_output(&args(&["p", "in.jpg", "a.png", "b.png"])), None);
    assert_eq!(native_input_output(&args(&["p", "in.jpg", "-out.png"])), None);
    assert_eq!(native_input_output(&args(&["p", "in.jpg"])), None);
}

#[test]
fn native_extensions() {
    assert!(has_native_extension("dir/photo.JPG"));
    assert!(has_native_extension("a.b/c.webp"));
    assert!(!has_native_extension("archive.tar.gz"));
    assert!(!has_native_extension("noext"));
    assert!(!has_native_extension(".png"));
    assert!(!has_native_extension("photo.heic"));
    assert!(is_native_extension("AvIf"));
    assert!(is_native_extension("jpeg"));
    assert!(!is_native_extension("jp"));
    assert!(!is_native_extension("gif"));
    assert!(is_avif_path("x.avif"));
    assert!(!is_avif_path("x.png"));
    assert!(!is_avif_path("avif"));
}
