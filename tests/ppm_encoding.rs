use ray_tracing::ppm::{encode_ppm, push_decimal, push_header, push_pixel, push_pixels, Rgb};

fn text(bytes: &[u8]) -> String {
    String::from_utf8(bytes.to_vec()).unwrap()
}

#[test]
fn decimal_single_digit() {
    let mut out = Vec::new();
    push_decimal(&mut out, 0);
    assert_eq!(text(&out), "0");
}

#[test]
fn decimal_several_digits() {
    let mut out = b"x".to_vec();
    push_decimal(&mut out, 4096);
    assert_eq!(text(&out), "x4096");
}

#[test]
fn decimal_largest_u32() {
    let mut out = Vec::new();
    push_decimal(&mut out, u32::MAX);
    assert_eq!(text(&out), "4294967295");
}

#[test]
fn header_of_wide_image() {
    let mut out = Vec::new();
    push_header(&mut out, 400, 225);
    assert_eq!(text(&out), "P3\n400 225\n255\n");
}

#[test]
fn pixel_line_channels_in_order() {
    let mut out = Vec::new();
    push_pixel(&mut out, Rgb::new(255, 7, 10));
    assert_eq!(text(&out), "255 7 10\n");
}

#[test]
fn pixel_lines_keep_order() {
    let mut out = Vec::new();
    let px = vec![Rgb::new(1, 2, 3), Rgb::new(40, 50, 60)];
    push_pixels(&mut out, &px);
    assert_eq!(text(&out), "1 2 3\n40 50 60\n");
}

#[test]
fn empty_pixel_list_adds_nothing() {
    let mut out = b"P3\n".to_vec();
    push_pixels(&mut out, &Vec::new());
    assert_eq!(text(&out), "P3\n");
}

#[test]
fn whole_file() {
    let px = vec![Rgb::new(0, 0, 0), Rgb::new(255, 255, 255)];
    let file = encode_ppm(2, 1, &px);
    assert_eq!(text(&file), "P3\n2 1\n255\n0 0 0\n255 255 255\n");
}
