use cyd_clock::bitmap::{decode_glyph, decode_image, BmpPixel, ImagePixel};
use cyd_clock::clock::layout::{digit_fills, digit_layout, load_font, redraw_time_fills};
use cyd_clock::clock::screens::{background, debug_enabled, error_text, image_url, startup_screen, time_url};
use cyd_clock::clock::step::{clock_step, initial_state, plan_time_redraw, ClockAction, ClockState, DigitDraw};
use cyd_clock::clock::time_zone::{clock_texts, current_clock_millis, find_time_zone, MAX_TIMESTAMP_MILLIS, MIN_TIMESTAMP_MILLIS};
use cyd_clock::color::{Rgb565Color, Rgb888Color};
use cyd_clock::draw::{PixelFill, Point};
use cyd_clock::utils::image_utils::draw_image;

/// A 24-bit BMP file, rows stored bottom up; `rows[y][x]` is (r, g, b).
fn bmp24(rows: &[Vec<(u8, u8, u8)>]) -> Vec<u8> {
    let h = rows.len() as u32;
    let w = rows[0].len() as u32;
    let row_size = (w * 3 + 3) / 4 * 4;
    let data_size = row_size * h;
    let mut v = Vec::new();
    v.extend_from_slice(b"BM");
    v.extend_from_slice(&(54 + data_size).to_le_bytes());
    v.extend_from_slice(&[0, 0, 0, 0]);
    v.extend_from_slice(&54u32.to_le_bytes());
    v.extend_from_slice(&40u32.to_le_bytes());
    v.extend_from_slice(&(w as i32).to_le_bytes());
    v.extend_from_slice(&(h as i32).to_le_bytes());
    v.extend_from_slice(&1u16.to_le_bytes());
    v.extend_from_slice(&24u16.to_le_bytes());
    v.extend_from_slice(&0u32.to_le_bytes());
    v.extend_from_slice(&data_size.to_le_bytes());
    v.extend_from_slice(&2835u32.to_le_bytes());
    v.extend_from_slice(&2835u32.to_le_bytes());
    v.extend_from_slice(&0u32.to_le_bytes());
    v.extend_from_slice(&0u32.to_le_bytes());
    for row in rows.iter().rev() {
        let mut n = 0;
        for &(r, g, b) in row {
            v.extend_from_slice(&[b, g, r]);
            n += 3;
        }
        while n % 4 != 0 {
            v.push(0);
            n += 1;
        }
    }
    v
}

fn rgb(r: u8, g: u8, b: u8) -> Rgb888Color {
    Rgb888Color { r, g, b }
}

#[test]
fn decode_glyph_reads_pixels_top_down() {
    let bytes = bmp24(&[vec![(255, 0, 0), (0, 255, 0)], vec![(0, 0, 255), (1, 2, 3)]]);
    let px = decode_glyph(&bytes).unwrap();
    assert_eq!(px, vec![
        BmpPixel { x: 0, y: 0, color: rgb(255, 0, 0) },
        BmpPixel { x: 1, y: 0, color: rgb(0, 255, 0) },
        BmpPixel { x: 0, y: 1, color: rgb(0, 0, 255) },
        BmpPixel { x: 1, y: 1, color: rgb(1, 2, 3) },
    ]);
    assert_eq!(decode_glyph(b"not a bitmap"), None);
}

#[test]
fn decode_image_converts_to_display_colors() {
    let bytes = bmp24(&[vec![(255, 0, 0), (255, 255, 255)]]);
    let px = decode_image(&bytes).unwrap();
    assert_eq!(px, vec![
        ImagePixel { x: 0, y: 0, color: Rgb565Color::red() },
        ImagePixel { x: 1, y: 0, color: Rgb565Color::white() },
    ]);
    assert_eq!(decode_image(&[]), None);
}

#[test]
fn draw_image_reports_fetch_and_parse_failures() {
    assert_eq!(draw_image(None, Point::new(10, 220)).unwrap_err().description(), "Failed to get bitmap");
    assert_eq!(draw_image(Some(vec![1, 2, 3]), Point::new(10, 220)).unwrap_err().description(), "BMP parse failed");
    let d = draw_image(Some(bmp24(&[vec![(0, 0, 0)]])), Point::new(250, 220)).unwrap();
    assert_eq!(d.origin, Point { x: 250, y: 220 });
    assert_eq!(d.pixels, vec![ImagePixel { x: 0, y: 0, color: Rgb565Color::black() }]);
}

#[test]
fn time_zone_lookup() {
    let utc = find_time_zone("UTC").unwrap();
    let london = find_time_zone("Europe/London").unwrap();
    assert_ne!(utc, london);
    assert_eq!(chrono_tz::TZ_VARIANTS[london].name(), "Europe/London");
    assert_eq!(find_time_zone("Nowhere/Nothing"), None);
    assert_eq!(find_time_zone(""), None);
}

#[test]
fn clock_texts_format_date_and_time() {
    let utc = find_time_zone("UTC").unwrap();
    let (date, time) = clock_texts(utc, 0).unwrap();
    assert_eq!(date, "Thursday 01 January 1970 (01/01/1970) WK 00");
    assert_eq!(time, "000000");
    let (_, time) = clock_texts(utc, 1_700_000_000_000).unwrap();
    assert_eq!(time, "221320");
    // London kept summer time all through 1970.
    let london = find_time_zone("Europe/London").unwrap();
    let (_, time) = clock_texts(london, 0).unwrap();
    assert_eq!(time, "010000");
    assert_eq!(clock_texts(utc, i64::MAX), None);
    assert_eq!(clock_texts(usize::MAX, 0), None);
}

#[test]
fn clock_millis_adds_elapsed_time() {
    assert_eq!(current_clock_millis(1_700_000_000_000, 5_000, 7_500), 1_700_000_002_500);
    assert_eq!(current_clock_millis(1_000, 5_000, 5_000), 1_000);
}

#[test]
fn digit_layout_positions() {
    assert_eq!(digit_layout(0), (Point { x: 10, y: 10 }, 5));
    assert_eq!(digit_layout(1), (Point { x: 105, y: 10 }, 5));
    assert_eq!(digit_layout(3), (Point { x: 295, y: 10 }, 5));
    assert_eq!(digit_layout(4), (Point { x: 390, y: 10 }, 2));
    assert_eq!(digit_layout(5), (Point { x: 425, y: 10 }, 2));
    // Columns do not overlap: the end of a 15-pixel glyph is left of the next start.
    for n in 0..5usize {
        let (a, sa) = digit_layout(n);
        let (b, _) = digit_layout(n + 1);
        assert!(a.x + 15 * sa < b.x);
    }
}

#[test]
fn digit_fills_scale_the_glyph() {
    let glyph = vec![BmpPixel { x: 2, y: 1, color: rgb(255, 255, 255) }];
    assert_eq!(digit_fills(1, &glyph), vec![PixelFill {
        start_x: 115, start_y: 15, end_x: 120, end_y: 20, color: Rgb565Color::white(), count: 30,
    }]);
    assert_eq!(digit_fills(5, &glyph), vec![PixelFill {
        start_x: 429, start_y: 12, end_x: 431, end_y: 14, color: Rgb565Color::white(), count: 6,
    }]);
}

#[test]
fn plan_redraws_only_changed_digits() {
    let (d, ok) = plan_time_redraw("123456", "aaaaaa");
    assert!(ok);
    assert_eq!(d.iter().map(|x| (x.position, x.digit)).collect::<Vec<_>>(),
        vec![(0, 1), (1, 2), (2, 3), (3, 4), (4, 5), (5, 6)]);
    let (d, ok) = plan_time_redraw("123457", "123456");
    assert!(ok);
    assert_eq!(d, vec![DigitDraw { position: 5, digit: 7 }]);
    let (d, ok) = plan_time_redraw("1x3457", "103456");
    assert!(!ok);
    assert!(d.is_empty());
    let (d, ok) = plan_time_redraw("993457", "1234");
    assert!(ok);
    assert_eq!(d, vec![DigitDraw { position: 0, digit: 9 }, DigitDraw { position: 1, digit: 9 }]);
    let (d, ok) = plan_time_redraw("123456", "123456");
    assert!(ok && d.is_empty());
}

#[test]
fn load_font_and_redraw_fills() {
    let glyphs: Vec<Vec<u8>> = (0..10u8).map(|i| bmp24(&[vec![(i, i, i)]])).collect();
    let font = load_font(&glyphs).unwrap();
    assert_eq!(font.len(), 10);
    assert_eq!(font[7], vec![BmpPixel { x: 0, y: 0, color: rgb(7, 7, 7) }]);
    let fills = redraw_time_fills(&vec![DigitDraw { position: 0, digit: 1 }, DigitDraw { position: 4, digit: 0 }], &font);
    assert_eq!(fills.len(), 2);
    assert_eq!((fills[0].start_x, fills[0].end_x, fills[0].count), (10, 15, 30));
    assert_eq!((fills[1].start_x, fills[1].end_x, fills[1].count), (390, 392, 6));
    let mut bad = glyphs.clone();
    bad[3] = vec![0, 1, 2];
    assert!(load_font(&bad).is_none());
}

fn step(s: ClockState, millis: i64, date: &str, time: &str) -> (ClockState, ClockAction) {
    clock_step(s, millis, date.to_string(), time.to_string(), false)
}

#[test]
fn clock_step_sequence() {
    let s = initial_state();
    assert_eq!(s.current_time, "aaaaaa");
    assert_eq!(s.current_date, "");
    // First the time is drawn in full.
    let (s, a) = step(s, 60_000, "Mon", "120000");
    match a {
        ClockAction::RedrawTime { digits, complete } => {
            assert!(complete);
            assert_eq!(digits.len(), 6);
        },
        _ => panic!("expected the time"),
    }
    assert_eq!(s.current_time, "120000");
    // Then the date.
    let (s, a) = step(s, 60_000, "Mon", "120000");
    match a {
        ClockAction::RedrawDate { clear, text } => {
            assert_eq!(clear, PixelFill { start_x: 10, start_y: 185, end_x: 450, end_y: 205, color: Rgb565Color::black(), count: 11000 });
            assert_eq!(text.text, "Mon");
            assert_eq!(text.position, Point { x: 10, y: 200 });
            assert_eq!(text.color, Rgb565Color::white());
        },
        _ => panic!("expected the date"),
    }
    // Then the two pictures.
    let (s, a) = step(s, 60_000, "Mon", "120000");
    assert!(matches!(a, ClockAction::RefreshImage { slot: 0, origin: Point { x: 10, y: 220 } }));
    assert_eq!(s.last_updated_at_a, 60_000);
    let (s, a) = step(s, 60_000, "Mon", "120000");
    assert!(matches!(a, ClockAction::RefreshImage { slot: 1, origin: Point { x: 250, y: 220 } }));
    // Then nothing, until 50 s have passed.
    let (s, a) = step(s, 60_000, "Mon", "120000");
    assert!(matches!(a, ClockAction::Idle));
    let (s, a) = step(s, 110_000, "Mon", "120000");
    assert!(matches!(a, ClockAction::Idle));
    let (s, a) = step(s, 110_001, "Mon", "120000");
    assert!(matches!(a, ClockAction::RefreshImage { slot: 0, .. }));
    // A new second redraws one digit.
    let (s, a) = step(s, 110_002, "Mon", "120001");
    match a {
        ClockAction::RedrawTime { digits, complete } => {
            assert!(complete);
            assert_eq!(digits, vec![DigitDraw { position: 5, digit: 1 }]);
        },
        _ => panic!("expected the time"),
    }
    // A character that is not a digit stops the redraw and keeps the old time.
    let (s, a) = step(s, 110_003, "Mon", "12000x");
    assert!(matches!(a, ClockAction::RedrawTime { complete: false, .. }));
    assert_eq!(s.current_time, "120001");
}

#[test]
fn debug_colors_the_date_band_green() {
    let s = ClockState { current_date: String::new(), current_time: "000000".to_string(), last_updated_at_a: 0, last_updated_at_b: 0 };
    let (_, a) = clock_step(s, 0, "Tue".to_string(), "000000".to_string(), true);
    match a {
        ClockAction::RedrawDate { clear, .. } => assert_eq!(clear.color, Rgb565Color::green()),
        _ => panic!("expected the date"),
    }
}

#[test]
fn screens_and_addresses() {
    assert!(debug_enabled("TRUE"));
    assert!(!debug_enabled("true"));
    assert!(!debug_enabled("TRUE "));
    assert_eq!(background(true), Rgb565Color::blue());
    assert_eq!(background(false), Rgb565Color::black());
    let (fills, text) = startup_screen(true);
    assert_eq!(fills.len(), 2);
    assert_eq!(fills[0].color, Rgb565Color::blue());
    assert_eq!(text.text, "Loading...");
    assert_eq!(text.position, Point { x: 10, y: 10 });
    let e = error_text("Failed to get bitmap");
    assert_eq!(e.text, "Ex: Failed to get bitmap");
    assert_eq!(e.position, Point { x: 10, y: 50 });
    assert_eq!(e.color, Rgb565Color::red());
    assert_eq!(time_url("http://clock.local"), "http://clock.local/Time/GetCurrentTime");
    assert_eq!(image_url("http://clock.local", 0), "http://clock.local/Time/Image/0");
    assert_eq!(image_url("http://clock.local", 1), "http://clock.local/Time/Image/1");
}

#[test]
fn bmp_decodable_refuses_overflowing_headers() {
    let ok = bmp24(&[vec![(1, 2, 3)]]);
    assert!(cyd_clock::bitmap::bmp_decodable(&ok));
    assert!(cyd_clock::bitmap::bmp_decodable(&[1, 2, 3]));
    // A huge colour count: entries * 4 leaves 32 bits.
    let mut many_colors = ok.clone();
    many_colors[46..50].copy_from_slice(&0x4000_0000u32.to_le_bytes());
    assert_eq!(cyd_clock::bitmap::bmp_decodable(&many_colors), usize::BITS > 32);
    // A width of 2^29 at 24 bits per pixel.
    let mut wide = ok.clone();
    wide[18..22].copy_from_slice(&(1u32 << 29).to_le_bytes());
    assert_eq!(cyd_clock::bitmap::bmp_decodable(&wide), usize::BITS > 32);
    // Where it answers yes, decoding returns normally.
    assert!(decode_image(&many_colors).is_none() || usize::BITS <= 32);
    assert!(decode_glyph(&wide).is_none() || usize::BITS <= 32);
}

#[test]
fn clock_range_and_time_digits() {
    let utc = find_time_zone("UTC").unwrap();
    let (date, time) = clock_texts(utc, MIN_TIMESTAMP_MILLIS).unwrap();
    assert!(date.contains("-262143"));
    assert_eq!(time, "000000");
    assert!(clock_texts(utc, MIN_TIMESTAMP_MILLIS - 1).is_none());
    let (_, time) = clock_texts(utc, MAX_TIMESTAMP_MILLIS).unwrap();
    assert_eq!(time, "235959");
    assert!(clock_texts(utc, MAX_TIMESTAMP_MILLIS + 1).is_none());
    assert_eq!(chrono::NaiveDateTime::MIN.and_utc().timestamp_millis(), MIN_TIMESTAMP_MILLIS);
    assert_eq!(chrono::NaiveDateTime::MAX.and_utc().timestamp_millis(), MAX_TIMESTAMP_MILLIS);
    for millis in [0i64, 1_700_000_000_000, -1, 86_399_999, 4_102_444_799_999] {
        let (_, time) = clock_texts(utc, millis).unwrap();
        assert_eq!(time.len(), 6);
        assert!(time.chars().all(|c| c.is_ascii_digit()));
    }
}

#[test]
fn bmp_decodable_only_refuses_files_reaching_an_overflow() {
    // Refused by tinybmp at the signature, whatever the other fields say.
    let mut bad_sig = bmp24(&[vec![(1, 2, 3)]]);
    bad_sig[0] = b'X';
    bad_sig[1] = b'X';
    bad_sig[18..22].copy_from_slice(&0x7FFF_FFFFu32.to_le_bytes());
    bad_sig[28..30].copy_from_slice(&32u16.to_le_bytes());
    assert!(cyd_clock::bitmap::bmp_decodable(&bad_sig));
    assert_eq!(draw_image(Some(bad_sig), Point::new(10, 220)).unwrap_err().description(), "BMP parse failed");
    // Refused at the height and at the header length.
    let mut flat = bmp24(&[vec![(1, 2, 3)]]);
    flat[18..22].copy_from_slice(&0x7FFF_FFFFu32.to_le_bytes());
    flat[22..26].copy_from_slice(&0u32.to_le_bytes());
    assert!(cyd_clock::bitmap::bmp_decodable(&flat));
    let mut odd_header = bmp24(&[vec![(1, 2, 3)]]);
    odd_header[14..18].copy_from_slice(&41u32.to_le_bytes());
    odd_header[46..50].copy_from_slice(&0x4000_0000u32.to_le_bytes());
    assert!(cyd_clock::bitmap::bmp_decodable(&odd_header));
    // A colour table larger than the file is refused before the row length.
    let mut short_table = bmp24(&[vec![(1, 2, 3)]]);
    short_table[46..50].copy_from_slice(&10u32.to_le_bytes());
    short_table[18..22].copy_from_slice(&0x7FFF_FFFFu32.to_le_bytes());
    assert!(cyd_clock::bitmap::bmp_decodable(&short_table));
    assert_eq!(decode_glyph(&short_table), None);
}
