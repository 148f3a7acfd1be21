use vstd::prelude::*;
use crate::clock::time_zone::same_text;
use crate::color::Rgb565Color;
use crate::draw::{point, Point, PixelFill, TextDraw};
use crate::utils::screen_utils::{clear_screen, draw_text, spec_clear_screen};

verus! {

/// The debug setting is on exactly when it reads `TRUE`.
pub fn debug_enabled(flag: &str) -> (r: bool)
    ensures
        r == (flag@ == "TRUE"@),
{
    same_text(flag, "TRUE")
}

/// The screen's background: blue when debugging, else black.
pub open spec fn background_color(is_debug: bool) -> Rgb565Color {
    if is_debug {
        Rgb565Color { r: 0, g: 0, b: 31 }
    } else {
        Rgb565Color { r: 0, g: 0, b: 0 }
    }
}

/// The screen's background colour.
pub fn background(is_debug: bool) -> (c: Rgb565Color)
    ensures
        c == background_color(is_debug),
{
    if is_debug { Rgb565Color::blue() } else { Rgb565Color::black() }
}

/// What the clock shows while it starts: the cleared screen, then
/// `Loading...` in white at `(10, 10)`.
pub fn startup_screen(is_debug: bool) -> (r: (Vec<PixelFill>, TextDraw))
    ensures
        r.0@ == spec_clear_screen(background_color(is_debug)),
        r.1.text@ == "Loading..."@,
        r.1.position == point(10, 10),
        r.1.color == (Rgb565Color { r: 31, g: 63, b: 31 }),
{
    let fills = clear_screen(background(is_debug));
    let text = draw_text("Loading...", Point::new(10, 10), Rgb565Color::white());
    (fills, text)
}

/// How the clock reports the error that ended it: `Ex: ` and the message, in
/// red at `(10, 50)`.
pub fn error_text(message: &str) -> (t: TextDraw)
    ensures
        t.text@ == "Ex: "@ + message@,
        t.position == point(10, 50),
        t.color == (Rgb565Color { r: 31, g: 0, b: 0 }),
{
    let mut text = String::from_str("Ex: ");
    text.append(message);
    TextDraw { text, position: Point::new(10, 50), color: Rgb565Color::red() }
}

/// The address that answers with the current time in milliseconds.
pub fn time_url(base: &str) -> (r: String)
    ensures
        r@ == base@ + "/Time/GetCurrentTime"@,
{
    let mut url = String::from_str(base);
    url.append("/Time/GetCurrentTime");
    url
}

/// The address of picture `slot`.
pub fn image_url(base: &str, slot: usize) -> (r: String)
    requires
        slot < 2,
    ensures
        slot == 0 ==> r@ == base@ + "/Time/Image/0"@,
        slot == 1 ==> r@ == base@ + "/Time/Image/1"@,
{
    let mut url = String::from_str(base);
    if slot == 0 {
        url.append("/Time/Image/0");
    } else {
        url.append("/Time/Image/1");
    }
    url
}

} // verus!
