use cyd_clock::bitmap::BmpPixel;
use cyd_clock::clock::layout::{digit_layout_computable, redraw_computable};
use cyd_clock::clock::step::{clock_step, step_computable, ClockAction, ClockState, DigitDraw};
use cyd_clock::color::Rgb888Color;
use cyd_clock::cyd::screen_utils::{box_computable, scaled_pixels_computable};
use cyd_clock::draw::Point;

fn state(date: &str, time: &str, a: i64, b: i64) -> ClockState {
    ClockState { current_date: date.to_string(), current_time: time.to_string(), last_updated_at_a: a, last_updated_at_b: b }
}

#[test]
fn repeated_pass_draws_nothing_twice() {
    let mut s = state("", "aaaaaa", 0, 0);
    let mut kinds = Vec::new();
    for _ in 0..5 {
        let (next, a) = clock_step(s, 90_000, "Wed".to_string(), "101010".to_string(), false);
        kinds.push(match a {
            ClockAction::RedrawTime { .. } => "time",
            ClockAction::RedrawDate { .. } => "date",
            ClockAction::RefreshImage { slot: 0, .. } => "image0",
            ClockAction::RefreshImage { .. } => "image1",
            ClockAction::Idle => "idle",
        });
        s = next;
    }
    assert_eq!(kinds, vec!["time", "date", "image0", "image1", "idle"]);
}

#[test]
fn step_computable_guards_the_subtractions() {
    let s = state("d", "t", i64::MIN, 0);
    assert!(!step_computable(&s, 1, &"d".to_string(), &"t".to_string()));
    assert!(step_computable(&s, 1, &"e".to_string(), &"t".to_string()));
    let s = state("d", "t", 0, i64::MIN);
    assert!(!step_computable(&s, 10, &"d".to_string(), &"t".to_string()));
    assert!(step_computable(&s, 60_000, &"d".to_string(), &"t".to_string()));
    assert!(step_computable(&state("d", "t", 0, 0), 5, &"d".to_string(), &"t".to_string()));
}

#[test]
fn layout_and_redraw_guards() {
    assert!(digit_layout_computable(5));
    assert!(!digit_layout_computable(usize::MAX));
    let c = Rgb888Color { r: 1, g: 1, b: 1 };
    let font = vec![vec![BmpPixel { x: 0, y: 0, color: c }], vec![BmpPixel { x: i32::MAX, y: 0, color: c }]];
    assert!(redraw_computable(&vec![DigitDraw { position: 2, digit: 0 }], &font));
    assert!(!redraw_computable(&vec![DigitDraw { position: 2, digit: 1 }], &font));
    assert!(!redraw_computable(&vec![DigitDraw { position: 2, digit: 2 }], &font));
    assert!(redraw_computable(&vec![], &font));
}

#[test]
fn box_and_scale_guards() {
    assert!(box_computable(0, 0, 500, 350));
    assert!(box_computable(5, 0, 4, 0));
    assert!(!box_computable(0, 0, 65535, 65535));
    assert!(box_computable(0, 0, 65535, 65534));
    let c = Rgb888Color { r: 1, g: 1, b: 1 };
    assert!(scaled_pixels_computable(&vec![BmpPixel { x: 3, y: 4, color: c }], Point::new(10, 10), 5));
    assert!(!scaled_pixels_computable(&vec![BmpPixel { x: i32::MAX, y: 4, color: c }], Point::new(10, 10), 5));
}
