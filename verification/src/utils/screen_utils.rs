use vstd::prelude::*;
use crate::color::Rgb565Color;
use crate::draw::{fill, Point, PixelFill, TextDraw};

verus! {

/// The two fills that clear the screen: the band of rows 0 to 250 and the
/// band of rows 250 to 350, each 500 columns wide, sent in two batches so
/// that the bus keeps up. Each sends 500 pixels per row for 250 and 100 rows.
pub open spec fn spec_clear_screen(color: Rgb565Color) -> Seq<PixelFill> {
    seq![fill(0, 0, 500, 250, color, 500int * 250), fill(0, 250, 500, 350, color, 500int * 100)]
}

/// Paints the whole screen with `color`.
pub fn clear_screen(color: Rgb565Color) -> (v: Vec<PixelFill>)
    ensures
        v@ == spec_clear_screen(color),
{
    let first = PixelFill { start_x: 0, start_y: 0, end_x: 500, end_y: 250, color, count: 500 * 250 };
    let second = PixelFill { start_x: 0, start_y: 250, end_x: 500, end_y: 350, color, count: 500 * 100 };
    let mut v: Vec<PixelFill> = Vec::new();
    v.push(first);
    v.push(second);
    assert(v@ =~= spec_clear_screen(color));
    v
}

/// Clearing the screen paints every pixel of columns 0 to 500 and rows 0 to
/// 350 with the colour, 500 pixels for each row of each window.
pub proof fn lemma_clear_screen_covers(color: Rgb565Color, x: int, y: int)
    requires
        0 <= x <= 500,
        0 <= y <= 350,
    ensures
        exists|i: int| 0 <= i < spec_clear_screen(color).len() && (#[trigger] spec_clear_screen(color)[i]).covers(x, y),
        forall|i: int| 0 <= i < spec_clear_screen(color).len() ==> (#[trigger] spec_clear_screen(color)[i]).color == color
            && spec_clear_screen(color)[i].count == 500 * (spec_clear_screen(color)[i].end_y - spec_clear_screen(color)[i].start_y),
{
    let s = spec_clear_screen(color);
    if y <= 250 {
        assert(s[0].covers(x, y));
    } else {
        assert(s[1].covers(x, y));
    }
}

/// Writes `text` at `point` in `color`, in the 10x20 font.
pub fn draw_text(text: &str, point: Point, color: Rgb565Color) -> (t: TextDraw)
    ensures
        t.text@ == text@,
        t.position == point,
        t.color == color,
{
    TextDraw { text: String::from_str(text), position: point, color }
}

} // verus!
