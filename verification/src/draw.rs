use vstd::prelude::*;
use crate::color::Rgb565Color;

verus! {

/// A position on the screen, in pixels from the top left corner.
#[derive(Debug, Clone, Copy, PartialEq, Eq, Structural)]
pub struct Point {
    pub x: i32,
    pub y: i32,
}

/// One call of the display's `set_pixels`: the window from
/// `(start_x, start_y)` to `(end_x, end_y)`, both corners included, is
/// written with `count` pixels of one colour, row by row.
#[derive(Debug, Clone, Copy, PartialEq, Eq, Structural)]
pub struct PixelFill {
    pub start_x: u16,
    pub start_y: u16,
    pub end_x: u16,
    pub end_y: u16,
    pub color: Rgb565Color,
    pub count: usize,
}

/// A text drawn in the 10x20 ISO 8859-16 monospace font, with its baseline's
/// left end at `position`.
#[derive(Debug)]
pub struct TextDraw {
    pub text: String,
    pub position: Point,
    pub color: Rgb565Color,
}

pub open spec fn point(x: int, y: int) -> Point {
    Point { x: x as i32, y: y as i32 }
}

pub open spec fn fill(start_x: int, start_y: int, end_x: int, end_y: int, color: Rgb565Color, count: int) -> PixelFill {
    PixelFill {
        start_x: start_x as u16,
        start_y: start_y as u16,
        end_x: end_x as u16,
        end_y: end_y as u16,
        color,
        count: count as usize,
    }
}

impl PixelFill {
    /// The number of pixels in the window.
    pub open spec fn area(self) -> int {
        (self.end_x - self.start_x + 1) * (self.end_y - self.start_y + 1)
    }

    /// The window holds the pixel `(x, y)`.
    pub open spec fn covers(self, x: int, y: int) -> bool {
        self.start_x <= x <= self.end_x && self.start_y <= y <= self.end_y
    }
}

impl Point {
    pub fn new(x: i32, y: i32) -> (p: Self)
        ensures
            p == (Point { x, y }),
    {
        Point { x, y }
    }
}

} // verus!
