use sphene::{
    avif_dimensions, check_encodable, libavif_failure, rgba_buffer_len, rgba_from_rows,
    write_rgba_rows, SpheneError,
};

fn io_message(e: SpheneError) -> String {
    match e {
        SpheneError::IoError(m) => m,
        other => panic!("unexpected {other:?}"),
    }
}

#[test]
fn buffer_length_is_stride_times_height() {
    assert_eq!(rgba_buffer_len(2, 3, 8).unwrap(), 24);
    assert_eq!(rgba_buffer_len(2, 3, 16).unwrap(), 48);
    assert_eq!(rgba_buffer_len(0, 0, 0).unwrap(), 0);
    assert_eq!(
        io_message(rgba_buffer_len(2, 3, 7).unwrap_err()),
        "libavif: RGBA row stride 7 is shorter than 8"
    );
    assert_eq!(
        io_message(rgba_buffer_len(1, 3, usize::MAX).unwrap_err()),
        "libavif: RGBA buffer size overflow"
    );
}

#[test]
fn rows_are_packed_and_unpacked() {
    // Two rows of two pixels, with four bytes of padding after each row.
    let strided: Vec<u8> = vec![
        1, 2, 3, 4, 5, 6, 7, 8, 0, 0, 0, 0, //
        9, 10, 11, 12, 13, 14, 15, 16, 0, 0, 0, 0,
    ];
    let packed = rgba_from_rows(&strided, 2, 2, 12);
    assert_eq!(packed, (1..=16).collect::<Vec<u8>>());
    let mut buffer = vec![0xAAu8; 24];
    write_rgba_rows(&mut buffer, &packed, 2, 2, 12);
    assert_eq!(
        buffer,
        vec![
            1, 2, 3, 4, 5, 6, 7, 8, 0xAA, 0xAA, 0xAA, 0xAA, //
            9, 10, 11, 12, 13, 14, 15, 16, 0xAA, 0xAA, 0xAA, 0xAA,
        ]
    );
    assert_eq!(rgba_from_rows(&buffer, 2, 2, 12), packed);
}

#[test]
fn zero_dimensions_are_refused() {
    assert_eq!(avif_dimensions(6, 4, false).unwrap(), (6, 4));
    assert_eq!(
        io_message(avif_dimensions(0, 4, false).unwrap_err()),
        "libavif: parsed image has invalid dimensions 0x4"
    );
    assert_eq!(
        io_message(avif_dimensions(6, 0, true).unwrap_err()),
        "libavif: decoded image has invalid dimensions 6x0"
    );
    assert!(check_encodable(1, 1).is_ok());
    assert_eq!(
        io_message(check_encodable(0, 0).unwrap_err()),
        "libavif: cannot encode a zero-sized image"
    );
}

#[test]
fn libavif_failures_name_the_call() {
    assert_eq!(
        io_message(libavif_failure("avifDecoderParse", Some("BMFF parsing failed"), 7)),
        "libavif avifDecoderParse failed: BMFF parsing failed (code 7)"
    );
    assert_eq!(
        io_message(libavif_failure("avifEncoderWrite", None, 1)),
        "libavif avifEncoderWrite failed: unknown libavif error (code 1)"
    );
}
