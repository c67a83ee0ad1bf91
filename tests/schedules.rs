use ray_tracing::options::{ImageOptions, ParallelOptions, RenderOptions};
use ray_tracing::ppm::Rgb;
use ray_tracing::render::{render, render_all_at_once, render_by_rows, render_series};

fn gradient(i: u32, j: u32) -> Rgb {
    Rgb::new((i * 10) as u8, (j * 20) as u8, ((i + j) % 256) as u8)
}

fn text(bytes: &[u8]) -> String {
    String::from_utf8(bytes.to_vec()).unwrap()
}

#[test]
fn series_is_row_major() {
    let body = render_series(&gradient, 3, 2);
    assert_eq!(
        text(&body),
        "0 0 0\n10 0 1\n20 0 2\n0 20 1\n10 20 2\n20 20 3\n"
    );
}

#[test]
fn by_rows_is_row_major() {
    let body = render_by_rows(&gradient, 3, 2);
    assert_eq!(
        text(&body),
        "0 0 0\n10 0 1\n20 0 2\n0 20 1\n10 20 2\n20 20 3\n"
    );
}

#[test]
fn all_at_once_is_row_major() {
    let body = render_all_at_once(&gradient, 3, 2);
    assert_eq!(
        text(&body),
        "0 0 0\n10 0 1\n20 0 2\n0 20 1\n10 20 2\n20 20 3\n"
    );
}

#[test]
fn strategies_agree_on_a_large_frame() {
    let width = 40;
    let height = 23;
    let series = render_series(&gradient, width, height);
    let rows = render_by_rows(&gradient, width, height);
    let all = render_all_at_once(&gradient, width, height);
    assert_eq!(series, rows);
    assert_eq!(series, all);
    assert_eq!(text(&series).lines().count(), (width * height) as usize);
}

#[test]
fn empty_frame_has_no_pixels() {
    assert!(render_series(&gradient, 0, 5).is_empty());
    assert!(render_by_rows(&gradient, 5, 0).is_empty());
    assert!(render_all_at_once(&gradient, 0, 0).is_empty());
}

#[test]
fn render_writes_header_and_pixels() {
    let image = ImageOptions::new(2, 2);
    let file = render(&image, &RenderOptions::new(), &gradient);
    assert_eq!(text(&file), "P3\n2 2\n255\n0 0 0\n10 0 1\n0 20 1\n10 20 2\n");
}

#[test]
fn render_output_independent_of_strategy() {
    let image = ImageOptions::new(16, 9);
    let center = |i: u32, j: u32| {
        if i == 8 && j == 4 {
            Rgb::new(200, 10, 10)
        } else {
            Rgb::new(128, 178, 255)
        }
    };
    let series = render(&image, &RenderOptions::new().parallel(ParallelOptions::Series), &center);
    let rows = render(&image, &RenderOptions::new().parallel(ParallelOptions::ByRows), &center);
    let all = render(&image, &RenderOptions::new().parallel(ParallelOptions::AllAtOnce), &center);
    assert_eq!(series, rows);
    assert_eq!(rows, all);
    let again = render(&image, &RenderOptions::new().parallel(ParallelOptions::AllAtOnce), &center);
    assert_eq!(all, again);
    let lines: Vec<&str> = std::str::from_utf8(&all).unwrap().lines().collect();
    assert_eq!(lines[3 + 4 * 16 + 8], "200 10 10");
    assert_eq!(lines[3], "128 178 255");
}
