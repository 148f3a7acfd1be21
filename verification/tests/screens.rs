use cyd_clock::bitmap::{BmpPixel};
use cyd_clock::color::{Rgb565Color, Rgb888Color};
use cyd_clock::cyd::screen_utils as cyd;
use cyd_clock::draw::{PixelFill, Point};
use cyd_clock::utils::screen_utils::{clear_screen, draw_text};

fn fill(sx: u16, sy: u16, ex: u16, ey: u16, color: Rgb565Color, count: usize) -> PixelFill {
    PixelFill { start_x: sx, start_y: sy, end_x: ex, end_y: ey, color, count }
}

#[test]
fn clear_screen_in_two_batches() {
    let v = clear_screen(Rgb565Color::blue());
    assert_eq!(v, vec![
        fill(0, 0, 500, 250, Rgb565Color::blue(), 125000),
        fill(0, 250, 500, 350, Rgb565Color::blue(), 50000),
    ]);
}

#[test]
fn draw_text_records_text_place_and_color() {
    let t = draw_text("Loading...", Point::new(10, 10), Rgb565Color::white());
    assert_eq!(t.text, "Loading...");
    assert_eq!(t.position, Point { x: 10, y: 10 });
    assert_eq!(t.color, Rgb565Color::white());
    let t2 = cyd::draw_text("x", Point::new(1, 2), Rgb565Color::red());
    assert_eq!(t2.text, "x");
}

#[test]
fn draw_box_counts_every_pixel() {
    let f = cyd::draw_box(Rgb565Color::red(), 3, 4, 5, 8).unwrap();
    assert_eq!(f, fill(3, 4, 5, 8, Rgb565Color::red(), 15));
    let single = cyd::draw_box(Rgb565Color::red(), 7, 7, 7, 7).unwrap();
    assert_eq!(single.count, 1);
}

#[test]
fn draw_box_refuses_reversed_corners() {
    let e = cyd::draw_box(Rgb565Color::red(), 5, 4, 3, 8).unwrap_err();
    assert_eq!(e.description(), "draw_box invalid coords");
    let e = cyd::draw_box(Rgb565Color::red(), 3, 9, 5, 8).unwrap_err();
    assert_eq!(e.description(), "draw_box invalid coords");
}

#[test]
fn cyd_clear_screen_covers_every_pixel() {
    let v = cyd::clear_screen(Rgb565Color::black());
    assert_eq!(v, vec![
        fill(0, 0, 500, 250, Rgb565Color::black(), 501 * 251),
        fill(0, 250, 500, 350, Rgb565Color::black(), 501 * 101),
    ]);
    for f in &v {
        let area = (f.end_x - f.start_x + 1) as usize * (f.end_y - f.start_y + 1) as usize;
        assert_eq!(f.count, area);
    }
}

#[test]
fn draw_pixels_at_scale_magnifies_each_pixel() {
    let white = Rgb888Color { r: 255, g: 255, b: 255 };
    let pixels = vec![
        BmpPixel { x: 0, y: 0, color: white },
        BmpPixel { x: 1, y: 2, color: Rgb888Color { r: 255, g: 0, b: 0 } },
    ];
    let (fills, err) = cyd::draw_pixels_at_scale(&pixels, Point::new(10, 20), 3);
    assert!(err.is_none());
    assert_eq!(fills, vec![
        fill(10, 20, 13, 23, Rgb565Color::white(), 16),
        fill(13, 26, 16, 29, Rgb565Color::red(), 16),
    ]);
}

#[test]
fn draw_pixels_at_scale_stops_at_invalid_box() {
    let c = Rgb888Color { r: 0, g: 0, b: 0 };
    let pixels = vec![
        BmpPixel { x: 0, y: 0, color: c },
        BmpPixel { x: 1, y: 0, color: c },
        BmpPixel { x: 2, y: 0, color: c },
    ];
    // The second pixel's box crosses column 65535 and its corners wrap round.
    let (fills, err) = cyd::draw_pixels_at_scale(&pixels, Point::new(65534, 0), 1);
    assert_eq!(fills.len(), 1);
    assert_eq!(fills[0], fill(65534, 0, 65535, 1, Rgb565Color::black(), 4));
    assert_eq!(err.unwrap().description(), "draw_box invalid coords");
}
