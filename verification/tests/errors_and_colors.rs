use cyd_clock::color::{Rgb565Color, Rgb888Color};
use cyd_clock::configuration::setup_display::{display_init_error, SimpleError};
use cyd_clock::utils::always_same::AlwaysSame;
use cyd_clock::utils::simple_error::ContextExt;

#[test]
fn simple_error_keeps_description() {
    let e = SimpleError::new("ESP Init");
    assert_eq!(e.description(), "ESP Init");
    assert_eq!(e.to_string(), "ESP Init");
    assert_eq!(display_init_error().description(), "ESP Init");
}

#[test]
fn draw_context_on_result() {
    let ok: Result<u32, &str> = Ok(7);
    assert_eq!(ok.draw_context().unwrap(), 7);
    let err: Result<u32, &str> = Err("bus failure");
    assert_eq!(err.draw_context().unwrap_err().description(), "Unhandled Draw Ex");
}

#[test]
fn draw_context_on_option() {
    assert_eq!(Some(3u8).draw_context().unwrap(), 3);
    let none: Option<u8> = None;
    assert_eq!(none.draw_context().unwrap_err().description(), "Unhandled Draw Ex");
}

#[test]
fn named_colors() {
    assert_eq!(Rgb565Color::white(), Rgb565Color { r: 31, g: 63, b: 31 });
    assert_eq!(Rgb565Color::blue(), Rgb565Color { r: 0, g: 0, b: 31 });
    assert_eq!(Rgb565Color::green(), Rgb565Color { r: 0, g: 63, b: 0 });
    assert_eq!(Rgb565Color::red(), Rgb565Color { r: 31, g: 0, b: 0 });
    assert_eq!(Rgb565Color::black(), Rgb565Color { r: 0, g: 0, b: 0 });
    assert_eq!(Rgb565Color::new(1, 2, 3), Rgb565Color { r: 1, g: 2, b: 3 });
}

#[test]
fn rgb888_to_rgb565_rounds_each_channel() {
    assert_eq!(Rgb888Color { r: 255, g: 255, b: 255 }.to_rgb565(), Rgb565Color { r: 31, g: 63, b: 31 });
    assert_eq!(Rgb888Color { r: 0, g: 0, b: 0 }.to_rgb565(), Rgb565Color { r: 0, g: 0, b: 0 });
    assert_eq!(Rgb888Color { r: 128, g: 128, b: 128 }.to_rgb565(), Rgb565Color { r: 16, g: 32, b: 16 });
    assert_eq!(Rgb888Color { r: 4, g: 2, b: 5 }.to_rgb565(), Rgb565Color { r: 0, g: 0, b: 1 });
}

#[test]
fn always_same_repeats_its_value() {
    let mut it = AlwaysSame { value: Rgb565Color::red() }.into_iter();
    assert_eq!(it.next(), Some(Rgb565Color::red()));
    assert_eq!(it.next(), Some(Rgb565Color::red()));
    let v = it.take(5);
    assert_eq!(v.len(), 5);
    assert!(v.iter().all(|c| *c == Rgb565Color::red()));
    assert!(it.take(0).is_empty());
}
