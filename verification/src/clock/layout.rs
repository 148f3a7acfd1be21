use vstd::prelude::*;
use crate::bitmap::{bmp_header_safe, decode_glyph, spec_glyph_pixels, BmpPixel};
use crate::clock::step::DigitDraw;
use crate::color::{convert_channel, spec_rgb565_of, MAX_G_565, MAX_RB_565};
use crate::cyd::screen_utils::fits_i32;
use crate::draw::{fill, Point, PixelFill};

verus! {

/// Magnification of the hour and minute digits.
pub const LARGE_SCALE: i32 = 5;

/// Magnification of the second digits.
pub const SMALL_SCALE: i32 = 2;

/// Row of the top of the digits.
pub const DIGIT_OFFSET_Y: i32 = 10;

/// Width in font pixels that the layout reserves for one digit.
pub const GLYPH_WIDTH: i32 = 15;

/// Positions below this one hold the hours and minutes.
pub const FIRST_SMALL_POSITION: usize = 4;

/// Digits at positions past the first four (the seconds) are drawn small.
pub open spec fn is_small_position(position: int) -> bool {
    position > 3
}

pub open spec fn spec_digit_scale(position: int) -> int {
    if is_small_position(position) { SMALL_SCALE as int } else { LARGE_SCALE as int }
}

/// Column of the left edge of the digit at `position`: large digits take 15
/// font pixels and a gap of 20 screen pixels, small ones 15 and a gap of 5,
/// all from column 10.
pub open spec fn spec_digit_offset_x(position: int) -> int {
    if !is_small_position(position) {
        10 + position * ((LARGE_SCALE * GLYPH_WIDTH) + 20)
    } else {
        10 + 4 * ((LARGE_SCALE * GLYPH_WIDTH) + 20) + (position - 4) * ((SMALL_SCALE * GLYPH_WIDTH) + 5)
    }
}

/// The position's column can be computed in `i32`.
pub open spec fn digit_layout_ok(position: int) -> bool {
    &&& position <= i32::MAX
    &&& fits_i32(spec_digit_offset_x(position))
    &&& fits_i32(position - 4)
    &&& fits_i32(position * 95)
    &&& fits_i32((position - 4) * 35)
}

/// Where the digit at `position` is drawn and how much it is magnified.
pub fn digit_layout(position: usize) -> (r: (Point, i32))
    requires
        digit_layout_ok(position as int),
    ensures
        r.0 == (Point { x: spec_digit_offset_x(position as int) as i32, y: DIGIT_OFFSET_Y }),
        r.1 == spec_digit_scale(position as int),
        position <= 3 ==> r.0.x == 10 + 95 * position && r.1 == 5,
        position > 3 ==> r.0.x == 390 + 35 * (position - 4) && r.1 == 2,
        r.0.y == 10,
{
    let number: i32 = position as i32;
    let is_small: bool = position > 3;
    let offset_x: i32 = if !is_small {
        10 + (number * ((LARGE_SCALE * GLYPH_WIDTH) + 20))
    } else {
        10 + (4 * ((LARGE_SCALE * GLYPH_WIDTH) + 20)) + ((number - 4) * ((SMALL_SCALE * GLYPH_WIDTH) + 5))
    };
    let scale: i32 = if is_small { SMALL_SCALE } else { LARGE_SCALE };
    (Point { x: offset_x, y: DIGIT_OFFSET_Y }, scale)
}

/// Every step of computing the window for the glyph pixel stays in `i32`.
pub open spec fn digit_pixel_ok(position: int, pixel: BmpPixel) -> bool {
    let ox = spec_digit_offset_x(position);
    let s = spec_digit_scale(position);
    &&& fits_i32(pixel.x * s)
    &&& fits_i32(pixel.y * s)
    &&& fits_i32(pixel.x + 1)
    &&& fits_i32(pixel.y + 1)
    &&& fits_i32((pixel.x + 1) * s)
    &&& fits_i32((pixel.y + 1) * s)
    &&& fits_i32(ox + pixel.x * s)
    &&& fits_i32(DIGIT_OFFSET_Y + pixel.y * s)
    &&& fits_i32(ox + (pixel.x + 1) * s)
    &&& fits_i32(DIGIT_OFFSET_Y + (pixel.y + 1) * s)
}

/// The `set_pixels` call for one pixel of the glyph drawn at `position`: its
/// magnified square, corners cut to 16 bits, and `scale * (scale + 1)`
/// pixels of its colour.
pub open spec fn spec_digit_fill(position: int, pixel: BmpPixel) -> PixelFill {
    let ox = spec_digit_offset_x(position);
    let s = spec_digit_scale(position);
    fill(
        ox + pixel.x * s,
        DIGIT_OFFSET_Y + pixel.y * s,
        ox + (pixel.x + 1) * s,
        DIGIT_OFFSET_Y + (pixel.y + 1) * s,
        spec_rgb565_of(pixel.color),
        s * (s + 1),
    )
}

/// The fills that draw the glyph of a digit at `position` of the time, one
/// for each pixel of the glyph, in the glyph's order.
pub fn digit_fills(position: usize, glyph: &Vec<BmpPixel>) -> (v: Vec<PixelFill>)
    requires
        digit_layout_ok(position as int),
        forall|i: int| 0 <= i < glyph@.len() ==> digit_pixel_ok(position as int, #[trigger] glyph@[i]),
    ensures
        v@.len() == glyph@.len(),
        forall|i: int| 0 <= i < glyph@.len() ==> #[trigger] v@[i] == spec_digit_fill(position as int, glyph@[i]),
        forall|i: int| 0 <= i < glyph@.len() ==> (#[trigger] v@[i]).color == spec_rgb565_of(glyph@[i].color),
{
    let (offset, scale) = digit_layout(position);
    let offset_x: i32 = offset.x;
    let offset_y: i32 = offset.y;
    assert(scale == 5 || scale == 2);
    assert(scale * (scale + 1) == 30 || scale * (scale + 1) == 6) by (nonlinear_arith)
        requires scale == 5 || scale == 2;
    let count: usize = (scale * (scale + 1)) as usize;
    let mut v: Vec<PixelFill> = Vec::new();
    let n: usize = glyph.len();
    for i in 0..n
        invariant
            n == glyph@.len(),
            offset_x == spec_digit_offset_x(position as int),
            offset_y == DIGIT_OFFSET_Y,
            scale == spec_digit_scale(position as int),
            count == spec_digit_scale(position as int) * (spec_digit_scale(position as int) + 1),
            forall|j: int| 0 <= j < glyph@.len() ==> digit_pixel_ok(position as int, #[trigger] glyph@[j]),
            v@.len() == i,
            forall|j: int| 0 <= j < i ==> #[trigger] v@[j] == spec_digit_fill(position as int, glyph@[j]),
    {
        let p = glyph[i];
        assert(digit_pixel_ok(position as int, glyph@[i as int]));
        let color = p.color.to_rgb565();
        let start_x: i32 = offset_x + p.x * scale;
        let start_y: i32 = offset_y + p.y * scale;
        let end_x: i32 = offset_x + (p.x + 1) * scale;
        let end_y: i32 = offset_y + (p.y + 1) * scale;
        v.push(PixelFill {
            start_x: start_x as u16,
            start_y: start_y as u16,
            end_x: end_x as u16,
            end_y: end_y as u16,
            color,
            count,
        });
    }
    v
}

/// Decodes the ten glyphs of the clock's font, digit 0 first; `None` where
/// one of them is not a bitmap that can be decoded.
pub fn load_font(glyphs: &Vec<Vec<u8>>) -> (r: Option<Vec<Vec<BmpPixel>>>)
    requires
        forall|i: int| 0 <= i < glyphs@.len() ==> bmp_header_safe(#[trigger] glyphs@[i]@),
    ensures
        r is Some <==> forall|i: int| 0 <= i < glyphs@.len() ==> (#[trigger] spec_glyph_pixels(glyphs@[i]@)) is Some,
        r matches Some(font) ==> font@.len() == glyphs@.len() && forall|i: int| 0 <= i < glyphs@.len()
            ==> spec_glyph_pixels(glyphs@[i]@) == Some(#[trigger] font@[i]@),
{
    let mut font: Vec<Vec<BmpPixel>> = Vec::new();
    let n: usize = glyphs.len();
    for i in 0..n
        invariant
            n == glyphs@.len(),
            font@.len() == i,
            forall|j: int| 0 <= j < glyphs@.len() ==> bmp_header_safe(#[trigger] glyphs@[j]@),
            forall|j: int| 0 <= j < i ==> spec_glyph_pixels(glyphs@[j]@) == Some(#[trigger] font@[j]@),
    {
        match decode_glyph(glyphs[i].as_slice()) {
            None => {
                return None;
            },
            Some(g) => font.push(g),
        }
    }
    assert forall|i: int| 0 <= i < glyphs@.len() implies (#[trigger] spec_glyph_pixels(glyphs@[i]@)) is Some by {
        assert(spec_glyph_pixels(glyphs@[i]@) == Some(font@[i]@));
    }
    Some(font)
}

/// The fills of the glyph pixels of `glyph` drawn at `position`.
pub open spec fn spec_glyph_fills(position: int, glyph: Seq<BmpPixel>) -> Seq<PixelFill> {
    glyph.map_values(|p: BmpPixel| spec_digit_fill(position, p))
}

/// The fills that redraw the planned digits, digit after digit, each with
/// the glyph of its value.
pub open spec fn spec_redraw_fills(digits: Seq<DigitDraw>, font: Seq<Vec<BmpPixel>>) -> Seq<PixelFill>
    decreases digits.len(),
{
    if digits.len() == 0 {
        Seq::empty()
    } else {
        let d = digits.last();
        spec_redraw_fills(digits.drop_last(), font) + spec_glyph_fills(d.position as int, font[d.digit as int]@)
    }
}

/// Every planned digit has a glyph whose fills can be computed.
pub open spec fn redraw_ok(digits: Seq<DigitDraw>, font: Seq<Vec<BmpPixel>>) -> bool {
    forall|k: int| 0 <= k < digits.len() ==> {
        let d = #[trigger] digits[k];
        &&& d.digit < font.len()
        &&& digit_layout_ok(d.position as int)
        &&& forall|i: int| 0 <= i < font[d.digit as int]@.len()
            ==> digit_pixel_ok(d.position as int, #[trigger] font[d.digit as int]@[i])
    }
}

/// The fills that redraw the changed digits of the time with the font.
pub fn redraw_time_fills(digits: &Vec<DigitDraw>, font: &Vec<Vec<BmpPixel>>) -> (v: Vec<PixelFill>)
    requires
        redraw_ok(digits@, font@),
    ensures
        v@ == spec_redraw_fills(digits@, font@),
{
    let mut v: Vec<PixelFill> = Vec::new();
    let n: usize = digits.len();
    for k in 0..n
        invariant
            n == digits@.len(),
            redraw_ok(digits@, font@),
            v@ == spec_redraw_fills(digits@.subrange(0, k as int), font@),
    {
        let d = digits[k];
        assert(redraw_ok(digits@, font@) ==> d.digit < font@.len() && digit_layout_ok(d.position as int));
        let mut fills = digit_fills(d.position, &font[d.digit]);
        assert(fills@ =~= spec_glyph_fills(d.position as int, font@[d.digit as int]@));
        v.append(&mut fills);
        assert(digits@.subrange(0, k + 1).drop_last() =~= digits@.subrange(0, k as int));
        assert(digits@.subrange(0, k + 1).last() == d);
    }
    assert(digits@.subrange(0, n as int) =~= digits@);
    v
}

/// Whether `digit_layout` can place `position`: its column fits in `i32`.
pub fn digit_layout_computable(position: usize) -> (r: bool)
    ensures
        r == digit_layout_ok(position as int),
{
    let n: i128 = position as i128;
    let fits = |v: i128| -> (b: bool)
        ensures
            b == fits_i32(v as int),
        { i32::MIN as i128 <= v && v <= i32::MAX as i128 };
    let offset: i128 = if position > 3 { 10 + 4 * 95 + (n - 4) * 35 } else { 10 + n * 95 };
    n <= i32::MAX as i128 && fits(offset) && fits(n - 4) && fits(n * 95) && fits((n - 4) * 35)
}

/// Whether the window of the glyph pixel at `position` can be computed in
/// `i32`; the position must be placeable.
pub fn digit_pixel_computable(position: usize, pixel: BmpPixel) -> (r: bool)
    requires
        digit_layout_ok(position as int),
    ensures
        r == digit_pixel_ok(position as int, pixel),
{
    let (offset, scale) = digit_layout(position);
    let ox: i128 = offset.x as i128;
    let oy: i128 = offset.y as i128;
    let s: i128 = scale as i128;
    let x: i128 = pixel.x as i128;
    let y: i128 = pixel.y as i128;
    let fits = |v: i128| -> (b: bool)
        ensures
            b == fits_i32(v as int),
        { i32::MIN as i128 <= v && v <= i32::MAX as i128 };
    assert(-0x8000_0000 * 5 <= x * s <= 0x8000_0000 * 5) by (nonlinear_arith)
        requires -0x8000_0000 <= x < 0x8000_0000, 2 <= s <= 5;
    assert(-0x8000_0000 * 5 <= (x + 1) * s <= 0x8000_0001 * 5) by (nonlinear_arith)
        requires -0x8000_0000 <= x < 0x8000_0000, 2 <= s <= 5;
    assert(-0x8000_0000 * 5 <= y * s <= 0x8000_0000 * 5) by (nonlinear_arith)
        requires -0x8000_0000 <= y < 0x8000_0000, 2 <= s <= 5;
    assert(-0x8000_0000 * 5 <= (y + 1) * s <= 0x8000_0001 * 5) by (nonlinear_arith)
        requires -0x8000_0000 <= y < 0x8000_0000, 2 <= s <= 5;
    fits(x * s) && fits(y * s) && fits(x + 1) && fits(y + 1) && fits((x + 1) * s) && fits((y + 1) * s)
        && fits(ox + x * s) && fits(oy + y * s) && fits(ox + (x + 1) * s) && fits(oy + (y + 1) * s)
}

/// Whether `redraw_time_fills` can draw the planned digits with the font:
/// each digit has a glyph, and all its windows can be computed.
pub fn redraw_computable(digits: &Vec<DigitDraw>, font: &Vec<Vec<BmpPixel>>) -> (r: bool)
    ensures
        r == redraw_ok(digits@, font@),
{
    let n: usize = digits.len();
    for k in 0..n
        invariant
            n == digits@.len(),
            forall|j: int| 0 <= j < k ==> {
                let d = #[trigger] digits@[j];
                &&& d.digit < font@.len()
                &&& digit_layout_ok(d.position as int)
                &&& forall|i: int| 0 <= i < font@[d.digit as int]@.len()
                    ==> digit_pixel_ok(d.position as int, #[trigger] font@[d.digit as int]@[i])
            },
    {
        let d = digits[k];
        assert(digits@[k as int] == d);
        if d.digit >= font.len() || !digit_layout_computable(d.position) {
            return false;
        }
        let glyph = &font[d.digit];
        let m: usize = glyph.len();
        for i in 0..m
            invariant
                m == glyph@.len(),
                d.digit < font@.len(),
                *glyph == font@[d.digit as int],
                k < digits@.len(),
                digits@[k as int] == d,
                digit_layout_ok(d.position as int),
                forall|l: int| 0 <= l < i ==> digit_pixel_ok(d.position as int, #[trigger] glyph@[l]),
        {
            if !digit_pixel_computable(d.position, glyph[i]) {
                assert(!digit_pixel_ok(d.position as int, font@[d.digit as int]@[i as int]));
                assert(!redraw_ok(digits@, font@)) by {
                    if redraw_ok(digits@, font@) {
                        let dd = digits@[k as int];
                        assert(digit_pixel_ok(dd.position as int, font@[dd.digit as int]@[i as int]));
                    }
                }
                return false;
            }
        }
    }
    true
}

/// The fill for a glyph pixel paints that pixel's own colour, each 16-bit
/// channel converted from the same 8-bit channel, over the square of the
/// digit's scale whose top left corner is the pixel's position magnified
/// from the digit's corner; it sends `scale * (scale + 1)` pixels.
pub proof fn lemma_digit_fill_paints_pixel(position: int, pixel: BmpPixel)
    ensures
        ({
            let f = spec_digit_fill(position, pixel);
            let s = spec_digit_scale(position);
            let ox = spec_digit_offset_x(position);
            &&& f.color.r == convert_channel(pixel.color.r, 255, MAX_RB_565)
            &&& f.color.g == convert_channel(pixel.color.g, 255, MAX_G_565)
            &&& f.color.b == convert_channel(pixel.color.b, 255, MAX_RB_565)
            &&& f.start_x == (ox + pixel.x * s) as u16
            &&& f.start_y == (DIGIT_OFFSET_Y + pixel.y * s) as u16
            &&& f.end_x == (ox + pixel.x * s + s) as u16
            &&& f.end_y == (DIGIT_OFFSET_Y + pixel.y * s + s) as u16
            &&& f.count == s * (s + 1)
            &&& (s == 5 || s == 2)
        }),
{
    crate::color::lemma_convert_channel_bounds(pixel.color.r);
    crate::color::lemma_convert_channel_bounds(pixel.color.g);
    crate::color::lemma_convert_channel_bounds(pixel.color.b);
    let s = spec_digit_scale(position);
    assert((pixel.x + 1) * s == pixel.x * s + s) by (nonlinear_arith);
    assert((pixel.y + 1) * s == pixel.y * s + s) by (nonlinear_arith);
    assert(s * (s + 1) == 30 || s * (s + 1) == 6) by (nonlinear_arith)
        requires s == 5 || s == 2;
}

/// Redrawing several digits draws them one after the other: the fills for a
/// plan followed by more digits are those of the plan followed by those of
/// the further digits, and the fills for one digit are, in order, one for
/// each pixel of the glyph of its value, drawn at its position.
pub proof fn lemma_redraw_fills_digit_by_digit(a: Seq<DigitDraw>, b: Seq<DigitDraw>, font: Seq<Vec<BmpPixel>>)
    ensures
        spec_redraw_fills(a + b, font) == spec_redraw_fills(a, font) + spec_redraw_fills(b, font),
        b.len() == 1 ==> ({
            let d = b[0];
            let fills = spec_redraw_fills(b, font);
            &&& fills.len() == font[d.digit as int]@.len()
            &&& forall|i: int| 0 <= i < fills.len() ==> #[trigger] fills[i] == spec_digit_fill(
                d.position as int,
                font[d.digit as int]@[i],
            )
        }),
    decreases b.len(),
{
    if b.len() == 0 {
        assert(a + b =~= a);
        assert(spec_redraw_fills(a, font) + spec_redraw_fills(b, font) =~= spec_redraw_fills(a, font));
    } else {
        lemma_redraw_fills_digit_by_digit(a, b.drop_last(), font);
        assert((a + b).drop_last() =~= a + b.drop_last());
        assert((a + b).last() == b.last());
        if b.len() == 1 {
            assert(b.drop_last() =~= Seq::<DigitDraw>::empty());
        }
    }
}

/// Digits never overlap: the right edge of any font column of the glyph
/// drawn at one position lies left of where any later position starts.
pub proof fn lemma_digit_columns_apart(n: int, m: int, column: int)
    requires
        0 <= n < m,
        0 <= column < GLYPH_WIDTH,
    ensures
        spec_digit_offset_x(n) + (column + 1) * spec_digit_scale(n) < spec_digit_offset_x(m),
{
    if is_small_position(n) {
        assert((column + 1) * 2 <= 30) by (nonlinear_arith)
            requires 0 <= column < 15;
        assert((m - 4) * 35 >= (n - 4) * 35 + 35) by (nonlinear_arith)
            requires n < m;
    } else {
        assert((column + 1) * 5 <= 75) by (nonlinear_arith)
            requires 0 <= column < 15;
        if is_small_position(m) {
            assert(n * 95 <= 285) by (nonlinear_arith)
                requires 0 <= n <= 3;
            assert((m - 4) * 35 >= 0) by (nonlinear_arith)
                requires m >= 4;
        } else {
            assert(m * 95 >= n * 95 + 95) by (nonlinear_arith)
                requires n < m;
        }
    }
}

} // verus!
