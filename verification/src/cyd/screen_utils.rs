use vstd::prelude::*;
use crate::bitmap::BmpPixel;
use crate::color::{convert_channel, spec_rgb565_of, Rgb565Color, MAX_G_565, MAX_RB_565};
use crate::draw::{fill, Point, PixelFill};
use crate::utils::simple_error::SimpleError;

pub use crate::utils::screen_utils::draw_text;

verus! {

/// The description of the error for a box whose end lies before its start.
pub open spec fn invalid_coords_text() -> Seq<char> {
    seq![
        'd', 'r', 'a', 'w', '_', 'b', 'o', 'x', ' ', 'i', 'n', 'v', 'a', 'l', 'i', 'd', ' ', 'c',
        'o', 'o', 'r', 'd', 's',
    ]
}

/// A box can be drawn: its end corner is not before its start corner.
pub open spec fn box_valid(start_x: u16, start_y: u16, end_x: u16, end_y: u16) -> bool {
    start_x <= end_x && start_y <= end_y
}

/// The number of pixels of the box, computed in 32 bits, fits there.
pub open spec fn box_area_fits(start_x: u16, start_y: u16, end_x: u16, end_y: u16) -> bool {
    box_valid(start_x, start_y, end_x, end_y) ==> (end_x - start_x + 1) * (end_y - start_y + 1)
        <= u32::MAX
}

/// The fill of a box, or `None` where its corners are the wrong way round.
pub open spec fn spec_box(color: Rgb565Color, start_x: u16, start_y: u16, end_x: u16, end_y: u16) -> Option<PixelFill> {
    if box_valid(start_x, start_y, end_x, end_y) {
        Some(fill(start_x as int, start_y as int, end_x as int, end_y as int, color,
            (end_x - start_x + 1) * (end_y - start_y + 1)))
    } else {
        None
    }
}

/// Whether `draw_box` can count the pixels of the box in 32 bits.
pub fn box_computable(start_x: u16, start_y: u16, end_x: u16, end_y: u16) -> (r: bool)
    ensures
        r == box_area_fits(start_x, start_y, end_x, end_y),
{
    if start_x <= end_x && start_y <= end_y {
        let w: u64 = (end_x - start_x) as u64 + 1;
        let h: u64 = (end_y - start_y) as u64 + 1;
        assert(w * h <= 0x1_0000 * 0x1_0000) by (nonlinear_arith)
            requires 1 <= w <= 0x1_0000, 1 <= h <= 0x1_0000;
        w * h <= u32::MAX as u64
    } else {
        true
    }
}

/// Fills the box with corners `(start_x, start_y)` and `(end_x, end_y)`, both
/// included, with `color`: one pixel for each pixel of the box.
pub fn draw_box(color: Rgb565Color, start_x: u16, start_y: u16, end_x: u16, end_y: u16) -> (r: Result<PixelFill, SimpleError>)
    requires
        box_area_fits(start_x, start_y, end_x, end_y),
    ensures
        r is Ok <==> box_valid(start_x, start_y, end_x, end_y),
        r matches Ok(f) ==> spec_box(color, start_x, start_y, end_x, end_y) == Some(f),
        r matches Err(e) ==> e@ == invalid_coords_text(),
{
    if end_x < start_x || end_y < start_y {
        let e = SimpleError::new("draw_box invalid coords");
        proof {
            reveal_strlit("draw_box invalid coords");
        }
        return Err(e);
    }
    let x_diff: u32 = end_x as u32 - start_x as u32;
    let y_diff: u32 = end_y as u32 - start_y as u32;
    let count: u32 = (x_diff + 1) * (y_diff + 1);
    Ok(PixelFill { start_x, start_y, end_x, end_y, color, count: count as usize })
}

/// The fills that clear the screen: the boxes from `(0, 0)` to `(500, 250)`
/// and from `(0, 250)` to `(500, 350)`, drawn in two batches so that the bus
/// keeps up.
pub open spec fn spec_clear_screen(color: Rgb565Color) -> Seq<PixelFill> {
    seq![
        fill(0, 0, 500, 250, color, 501int * 251),
        fill(0, 250, 500, 350, color, 501int * 101),
    ]
}

/// Paints the screen, columns 0 to 500 and rows 0 to 350, with `color`.
pub fn clear_screen(color: Rgb565Color) -> (v: Vec<PixelFill>)
    ensures
        v@ == spec_clear_screen(color),
{
    let mut v: Vec<PixelFill> = Vec::new();
    assert(501 * 251 <= u32::MAX && 501 * 101 <= u32::MAX);
    match draw_box(color, 0, 0, 500, 250) {
        Ok(f) => v.push(f),
        Err(_) => {},
    }
    match draw_box(color, 0, 250, 500, 350) {
        Ok(f) => v.push(f),
        Err(_) => {},
    }
    assert(v@ =~= spec_clear_screen(color));
    v
}

/// The coordinates of the box that stands for `pixel` when the image is
/// drawn at `point`, magnified `scale` times, in 32-bit signed arithmetic
/// (start x, start y, end x, end y).
pub open spec fn scaled_corners(point: Point, pixel: BmpPixel, scale: i32) -> (int, int, int, int) {
    (
        point.x + pixel.x * scale,
        point.y + pixel.y * scale,
        point.x + (pixel.x + 1) * scale,
        point.y + (pixel.y + 1) * scale,
    )
}

pub open spec fn fits_i32(v: int) -> bool {
    i32::MIN <= v <= i32::MAX
}

/// Every step of computing the pixel's box stays within `i32`.
pub open spec fn scaled_arith_ok(point: Point, pixel: BmpPixel, scale: i32) -> bool {
    &&& fits_i32(pixel.x * scale)
    &&& fits_i32(pixel.y * scale)
    &&& fits_i32(pixel.x + 1)
    &&& fits_i32(pixel.y + 1)
    &&& fits_i32((pixel.x + 1) * scale)
    &&& fits_i32((pixel.y + 1) * scale)
    &&& fits_i32(scaled_corners(point, pixel, scale).0)
    &&& fits_i32(scaled_corners(point, pixel, scale).1)
    &&& fits_i32(scaled_corners(point, pixel, scale).2)
    &&& fits_i32(scaled_corners(point, pixel, scale).3)
}

/// The fill for one pixel of a magnified image: its corners cut to 16 bits
/// as the display takes them, its colour shown in 16 bits; `None` where the
/// cut corners are the wrong way round.
pub open spec fn spec_scaled_box(point: Point, pixel: BmpPixel, scale: i32) -> Option<PixelFill> {
    let c = scaled_corners(point, pixel, scale);
    spec_box(spec_rgb565_of(pixel.color), c.0 as u16, c.1 as u16, c.2 as u16, c.3 as u16)
}

/// The computation for the pixel can be carried out without overflow.
pub open spec fn scaled_pixel_ok(point: Point, pixel: BmpPixel, scale: i32) -> bool {
    let c = scaled_corners(point, pixel, scale);
    &&& scaled_arith_ok(point, pixel, scale)
    &&& box_area_fits(c.0 as u16, c.1 as u16, c.2 as u16, c.3 as u16)
}

/// Whether `draw_pixels_at_scale` can compute the box of `pixel`.
pub fn scaled_pixel_computable(point: Point, pixel: BmpPixel, scale: i32) -> (r: bool)
    ensures
        r == scaled_pixel_ok(point, pixel, scale),
{
    let px: i128 = point.x as i128;
    let py: i128 = point.y as i128;
    let x: i128 = pixel.x as i128;
    let y: i128 = pixel.y as i128;
    let s: i128 = scale as i128;
    let fits = |v: i128| -> (b: bool)
        ensures
            b == fits_i32(v as int),
        { i32::MIN as i128 <= v && v <= i32::MAX as i128 };
    assert(-0x8000_0000 * 0x8000_0000 <= x * s <= 0x8000_0000 * 0x8000_0000) by (nonlinear_arith)
        requires -0x8000_0000 <= x < 0x8000_0000, -0x8000_0000 <= s < 0x8000_0000;
    assert(-0x8000_0000 * 0x8000_0000 <= y * s <= 0x8000_0000 * 0x8000_0000) by (nonlinear_arith)
        requires -0x8000_0000 <= y < 0x8000_0000, -0x8000_0000 <= s < 0x8000_0000;
    assert(-0x8000_0001 * 0x8000_0000 <= (x + 1) * s <= 0x8000_0001 * 0x8000_0000) by (nonlinear_arith)
        requires -0x8000_0000 <= x < 0x8000_0000, -0x8000_0000 <= s < 0x8000_0000;
    assert(-0x8000_0001 * 0x8000_0000 <= (y + 1) * s <= 0x8000_0001 * 0x8000_0000) by (nonlinear_arith)
        requires -0x8000_0000 <= y < 0x8000_0000, -0x8000_0000 <= s < 0x8000_0000;
    let arith: bool = fits(x * s) && fits(y * s) && fits(x + 1) && fits(y + 1) && fits((x + 1) * s)
        && fits((y + 1) * s) && fits(px + x * s) && fits(py + y * s) && fits(px + (x + 1) * s)
        && fits(py + (y + 1) * s);
    if !arith {
        return false;
    }
    let sx: u16 = (point.x + pixel.x * scale) as u16;
    let sy: u16 = (point.y + pixel.y * scale) as u16;
    let ex: u16 = (point.x + (pixel.x + 1) * scale) as u16;
    let ey: u16 = (point.y + (pixel.y + 1) * scale) as u16;
    if sx <= ex && sy <= ey {
        let w: u64 = (ex - sx) as u64 + 1;
        let h: u64 = (ey - sy) as u64 + 1;
        assert(w * h <= 0x1_0000 * 0x1_0000) by (nonlinear_arith)
            requires 1 <= w <= 0x1_0000, 1 <= h <= 0x1_0000;
        w * h <= u32::MAX as u64
    } else {
        true
    }
}

/// Whether `draw_pixels_at_scale` can compute the boxes of all the pixels.
pub fn scaled_pixels_computable(pixels: &Vec<BmpPixel>, point: Point, scale: i32) -> (r: bool)
    ensures
        r == forall|i: int| 0 <= i < pixels@.len() ==> scaled_pixel_ok(point, #[trigger] pixels@[i], scale),
{
    let n: usize = pixels.len();
    for i in 0..n
        invariant
            n == pixels@.len(),
            forall|j: int| 0 <= j < i ==> scaled_pixel_ok(point, #[trigger] pixels@[j], scale),
    {
        if !scaled_pixel_computable(point, pixels[i], scale) {
            return false;
        }
    }
    true
}

/// Draws the pixels of an image at `point`, each as a box of `scale` by
/// `scale` screen pixels. The fills come in the order of the pixels; at the
/// first pixel whose box is invalid the drawing stops with an error, after the
/// fills of the pixels before it.
pub fn draw_pixels_at_scale(pixels: &Vec<BmpPixel>, point: Point, scale: i32) -> (r: (Vec<PixelFill>, Option<SimpleError>))
    requires
        forall|i: int| 0 <= i < pixels@.len() ==> scaled_pixel_ok(point, #[trigger] pixels@[i], scale),
    ensures
        r.0@.len() <= pixels@.len(),
        forall|i: int| 0 <= i < r.0@.len() ==> spec_scaled_box(point, pixels@[i], scale) == Some(#[trigger] r.0@[i]),
        forall|i: int| 0 <= i < r.0@.len() ==> (#[trigger] r.0@[i]).color == spec_rgb565_of(pixels@[i].color),
        r.1 is None <==> r.0@.len() == pixels@.len(),
        r.1 matches Some(e) ==> spec_scaled_box(point, pixels@[r.0@.len() as int], scale) is None
            && e@ == invalid_coords_text(),
{
    let mut fills: Vec<PixelFill> = Vec::new();
    let n: usize = pixels.len();
    for i in 0..n
        invariant
            n == pixels@.len(),
            forall|j: int| 0 <= j < pixels@.len() ==> scaled_pixel_ok(point, #[trigger] pixels@[j], scale),
            fills@.len() == i,
            forall|j: int| 0 <= j < i ==> spec_scaled_box(point, pixels@[j], scale) == Some(#[trigger] fills@[j]),
    {
        let p = pixels[i];
        assert(scaled_pixel_ok(point, pixels@[i as int], scale));
        let sx: i32 = point.x + p.x * scale;
        let sy: i32 = point.y + p.y * scale;
        let ex: i32 = point.x + (p.x + 1) * scale;
        let ey: i32 = point.y + (p.y + 1) * scale;
        let color = p.color.to_rgb565();
        match draw_box(color, sx as u16, sy as u16, ex as u16, ey as u16) {
            Ok(f) => fills.push(f),
            Err(e) => {
                return (fills, Some(e));
            },
        }
    }
    (fills, None)
}

/// A drawn box sends exactly one pixel for each pixel of its window, and
/// its window runs from the start corner to the end corner.
pub proof fn lemma_box_fills_its_area(color: Rgb565Color, start_x: u16, start_y: u16, end_x: u16, end_y: u16)
    requires
        box_area_fits(start_x, start_y, end_x, end_y),
        box_valid(start_x, start_y, end_x, end_y),
    ensures
        spec_box(color, start_x, start_y, end_x, end_y) matches Some(f) && f.count == f.area()
            && f.covers(start_x as int, start_y as int) && f.covers(end_x as int, end_y as int)
            && f.color == color,
{
    assert((end_x - start_x + 1) * (end_y - start_y + 1) >= 0) by (nonlinear_arith)
        requires start_x <= end_x, start_y <= end_y;
}

/// The box for a pixel paints that pixel's own colour, each 16-bit channel
/// converted from the same 8-bit channel, over the window from the pixel's
/// position magnified from `point` to the next position, corners cut to 16
/// bits, one pixel for each pixel of the window; it is refused exactly when
/// the cut corners are the wrong way round.
pub proof fn lemma_scaled_box_paints_pixel(point: Point, pixel: BmpPixel, scale: i32)
    requires
        scaled_pixel_ok(point, pixel, scale),
    ensures
        ({
            let sx = (point.x + pixel.x * scale) as u16;
            let sy = (point.y + pixel.y * scale) as u16;
            let ex = (point.x + pixel.x * scale + scale) as u16;
            let ey = (point.y + pixel.y * scale + scale) as u16;
            &&& spec_scaled_box(point, pixel, scale) is Some <==> (sx <= ex && sy <= ey)
            &&& spec_scaled_box(point, pixel, scale) matches Some(f) ==> {
                &&& f.color.r == convert_channel(pixel.color.r, 255, MAX_RB_565)
                &&& f.color.g == convert_channel(pixel.color.g, 255, MAX_G_565)
                &&& f.color.b == convert_channel(pixel.color.b, 255, MAX_RB_565)
                &&& f.start_x == sx && f.start_y == sy && f.end_x == ex && f.end_y == ey
                &&& f.count == f.area()
            }
        }),
{
    crate::color::lemma_convert_channel_bounds(pixel.color.r);
    crate::color::lemma_convert_channel_bounds(pixel.color.g);
    crate::color::lemma_convert_channel_bounds(pixel.color.b);
    assert((pixel.x + 1) * scale == pixel.x * scale + scale) by (nonlinear_arith);
    assert((pixel.y + 1) * scale == pixel.y * scale + scale) by (nonlinear_arith);
    let c = scaled_corners(point, pixel, scale);
    if box_valid(c.0 as u16, c.1 as u16, c.2 as u16, c.3 as u16) {
        lemma_box_fills_its_area(spec_rgb565_of(pixel.color), c.0 as u16, c.1 as u16, c.2 as u16, c.3 as u16);
    }
}

/// Clearing the screen paints every pixel of columns 0 to 500 and rows 0 to
/// 350 with the colour, each fill with as many pixels as its window holds.
pub proof fn lemma_clear_screen_covers(color: Rgb565Color, x: int, y: int)
    requires
        0 <= x <= 500,
        0 <= y <= 350,
    ensures
        exists|i: int| 0 <= i < spec_clear_screen(color).len() && (#[trigger] spec_clear_screen(color)[i]).covers(x, y),
        forall|i: int| 0 <= i < spec_clear_screen(color).len() ==> (#[trigger] spec_clear_screen(color)[i]).color == color
            && spec_clear_screen(color)[i].count == spec_clear_screen(color)[i].area(),
{
    let s = spec_clear_screen(color);
    if y <= 250 {
        assert(s[0].covers(x, y));
    } else {
        assert(s[1].covers(x, y));
    }
}

} // verus!
