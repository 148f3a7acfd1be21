use vstd::prelude::*;
use embedded_graphics::pixelcolor::{Rgb565, Rgb888, RgbColor};
use tinybmp::Bmp;
use crate::color::{Rgb565Color, Rgb888Color};

verus! {

/// A pixel of a bitmap decoded to 8 bits per channel, at its position in the
/// image (the top left pixel is at `(0, 0)`).
#[derive(Debug, Clone, Copy, PartialEq, Eq, Structural)]
pub struct BmpPixel {
    pub x: i32,
    pub y: i32,
    pub color: Rgb888Color,
}

/// A pixel of a bitmap decoded to the display's 16-bit colours.
#[derive(Debug, Clone, Copy, PartialEq, Eq, Structural)]
pub struct ImagePixel {
    pub x: i32,
    pub y: i32,
    pub color: Rgb565Color,
}

/// The little-endian 32-bit value at offset `o` of `b`.
pub open spec fn le_u32_at(b: Seq<u8>, o: int) -> int {
    b[o] + b[o + 1] * 0x100 + b[o + 2] * 0x1_0000 + b[o + 3] * 0x100_0000
}

/// The little-endian 16-bit value at offset `o` of `b`.
pub open spec fn le_u16_at(b: Seq<u8>, o: int) -> int {
    b[o] + b[o + 1] * 0x100
}

/// The bits per pixel field of a BMP file (offset 28).
pub open spec fn bmp_bpp(b: Seq<u8>) -> int {
    le_u16_at(b, 28)
}

/// The bit depths that `tinybmp` reads.
pub open spec fn bmp_bpp_supported(bpp: int) -> bool {
    bpp == 1 || bpp == 4 || bpp == 8 || bpp == 16 || bpp == 24 || bpp == 32
}

/// The DIB header length field (offset 14).
pub open spec fn bmp_dib_len(b: Seq<u8>) -> int {
    le_u32_at(b, 14)
}

/// The width field (offset 18), unsigned.
pub open spec fn bmp_width(b: Seq<u8>) -> int {
    le_u32_at(b, 18)
}

/// The height field (offset 22), unsigned.
pub open spec fn bmp_height(b: Seq<u8>) -> int {
    le_u32_at(b, 22)
}

/// The compression field (offset 30).
pub open spec fn bmp_compression(b: Seq<u8>) -> int {
    le_u32_at(b, 30)
}

/// The number of colour table entries that `tinybmp` reads: the colours-used
/// field (offset 46), or `1 << bpp` where that field is 0 and the depth is
/// below 16 bits.
pub open spec fn bmp_color_entries(b: Seq<u8>) -> int {
    let used = le_u32_at(b, 46);
    let bpp = bmp_bpp(b);
    if used == 0 && bpp < 16 {
        if bpp == 1 { 2 } else if bpp == 4 { 16 } else { 256 }
    } else {
        used
    }
}

/// `tinybmp` reads its header up to the colour table: the signature is
/// `BM`, the DIB header has one of the lengths 40, 56, 108, 124 and is all
/// there, the depth and the compression (0 or 3) are ones it reads, the
/// width as a signed number is positive and the height is not 0.
pub open spec fn bmp_reaches_color_table(b: Seq<u8>) -> bool {
    &&& b.len() >= 18
    &&& b[0] == 0x42 && b[1] == 0x4D
    &&& (bmp_dib_len(b) == 40 || bmp_dib_len(b) == 56 || bmp_dib_len(b) == 108 || bmp_dib_len(b) == 124)
    &&& b.len() >= 14 + bmp_dib_len(b)
    &&& bmp_bpp_supported(bmp_bpp(b))
    &&& (bmp_compression(b) == 0 || bmp_compression(b) == 3)
    &&& 1 <= bmp_width(b) < 0x8000_0000
    &&& bmp_height(b) != 0
}

/// The file holds channel masks: a header of 56 bytes or more with
/// compression 3; they are at offsets 54, 58, 62 and 66.
pub open spec fn bmp_has_masks(b: Seq<u8>) -> bool {
    bmp_dib_len(b) >= 56 && bmp_compression(b) == 3
}

pub open spec fn bmp_masks_are(b: Seq<u8>, red: int, green: int, blue: int) -> bool {
    le_u32_at(b, 54) == red && le_u32_at(b, 58) == green && le_u32_at(b, 62) == blue
        && le_u32_at(b, 66) == 0
}

/// `tinybmp` has a colour type for the depth and masks: 16 bits with no
/// masks or the masks of RGB555 or RGB565, 32 bits with no masks or those
/// of RGB888, and any other depth it reads.
pub open spec fn bmp_color_type_ok(b: Seq<u8>) -> bool {
    let bpp = bmp_bpp(b);
    if bpp == 16 {
        !bmp_has_masks(b) || bmp_masks_are(b, 0x7C00, 0x3E0, 0x1F) || bmp_masks_are(b, 0xF800, 0x7E0, 0x1F)
    } else if bpp == 32 {
        !bmp_has_masks(b) || bmp_masks_are(b, 0xFF0000, 0xFF00, 0xFF)
    } else {
        true
    }
}

/// `tinybmp` reaches the computation of a row's length: past the header,
/// the colour table is all there and the colour type is one it reads.
pub open spec fn bmp_reaches_row_length(b: Seq<u8>) -> bool {
    &&& bmp_reaches_color_table(b)
    &&& b.len() >= 14 + bmp_dib_len(b) + bmp_color_entries(b) * 4
    &&& bmp_color_type_ok(b)
}

/// `tinybmp` decodes the file without overflowing `usize`. Once its header
/// is read it computes the colour table's length as entries * 4, and once
/// that table and the colour type are accepted a row's length from
/// width * bpp + 31, both in `usize`; on a 32-bit target either can
/// overflow (a panic, or a row length of 0 that its pixel iterator panics
/// on). Files it refuses before a step are not held to that step.
pub open spec fn bmp_header_safe(b: Seq<u8>) -> bool {
    &&& bmp_reaches_color_table(b) ==> bmp_color_entries(b) * 4 <= usize::MAX
    &&& bmp_reaches_row_length(b) ==> bmp_width(b) * bmp_bpp(b) + 31 <= usize::MAX
}

fn read_u32(bytes: &[u8], o: usize) -> (v: u64)
    requires
        o + 4 <= bytes@.len(),
    ensures
        v == le_u32_at(bytes@, o as int),
{
    bytes[o] as u64 + bytes[o + 1] as u64 * 0x100 + bytes[o + 2] as u64 * 0x1_0000 + bytes[o + 3] as u64
        * 0x100_0000
}

/// Whether `tinybmp` can decode `bytes` without overflowing `usize`.
pub fn bmp_decodable(bytes: &[u8]) -> (r: bool)
    ensures
        r == bmp_header_safe(bytes@),
{
    let n: usize = bytes.len();
    if n < 18 || bytes[0] != 0x42 || bytes[1] != 0x4D {
        return true;
    }
    let dib: u64 = read_u32(bytes, 14);
    if !(dib == 40 || dib == 56 || dib == 108 || dib == 124) || (n as u64) < 14 + dib {
        return true;
    }
    let bpp: u64 = bytes[28] as u64 + bytes[29] as u64 * 0x100;
    let compression: u64 = read_u32(bytes, 30);
    let width: u64 = read_u32(bytes, 18);
    let height: u64 = read_u32(bytes, 22);
    if !(bpp == 1 || bpp == 4 || bpp == 8 || bpp == 16 || bpp == 24 || bpp == 32)
        || !(compression == 0 || compression == 3) || width < 1 || width >= 0x8000_0000
        || height == 0 {
        return true;
    }
    let used: u64 = read_u32(bytes, 46);
    let entries: u64 = if used == 0 && bpp < 16 {
        if bpp == 1 { 2 } else if bpp == 4 { 16 } else { 256 }
    } else {
        used
    };
    if entries * 4 > usize::MAX as u64 {
        return false;
    }
    if (n as u64) < 14 + dib + entries * 4 {
        return true;
    }
    let has_masks: bool = dib >= 56 && compression == 3;
    let type_ok: bool = if !has_masks || !(bpp == 16 || bpp == 32) {
        true
    } else {
        let red: u64 = read_u32(bytes, 54);
        let green: u64 = read_u32(bytes, 58);
        let blue: u64 = read_u32(bytes, 62);
        let alpha: u64 = read_u32(bytes, 66);
        if bpp == 16 {
            (red == 0x7C00 && green == 0x3E0 && blue == 0x1F && alpha == 0) || (red == 0xF800
                && green == 0x7E0 && blue == 0x1F && alpha == 0)
        } else {
            red == 0xFF0000 && green == 0xFF00 && blue == 0xFF && alpha == 0
        }
    };
    if !type_ok {
        return true;
    }
    assert(width * bpp <= 0x8000_0000 * 32) by (nonlinear_arith)
        requires width < 0x8000_0000, bpp <= 32;
    width * bpp + 31 <= usize::MAX as u64
}

/// The pixels, in the order `tinybmp` yields them, of the BMP file `bytes`
/// decoded as `Rgb888` (x, y, red, green, blue); `None` where `tinybmp`
/// refuses the file.
pub uninterp spec fn bmp_rgb888_pixels(bytes: Seq<u8>) -> Option<Seq<(i32, i32, u8, u8, u8)>>;

/// The same for the file decoded as `Rgb565`.
pub uninterp spec fn bmp_rgb565_pixels(bytes: Seq<u8>) -> Option<Seq<(i32, i32, u8, u8, u8)>>;

/// `tinybmp::Bmp::<Rgb888>::from_slice`, then its `pixels()` iterator, each
/// pixel read back as its position and channels. The contract names the
/// result and claims only that it is determined by the bytes. The files on
/// which `tinybmp` overflows `usize` are left out.
#[verifier::external_body]
fn decode_bmp_rgb888(bytes: &[u8]) -> (r: Option<Vec<(i32, i32, u8, u8, u8)>>)
    requires
        bmp_header_safe(bytes@),
    ensures
        match r {
            Some(v) => bmp_rgb888_pixels(bytes@) == Some(v@),
            None => bmp_rgb888_pixels(bytes@) is None,
        },
{
    Bmp::<Rgb888>::from_slice(bytes).ok().map(
        |bmp| bmp.pixels().map(|p| (p.0.x, p.0.y, p.1.r(), p.1.g(), p.1.b())).collect(),
    )
}

/// `tinybmp::Bmp::<Rgb565>::from_slice`, then its `pixels()` iterator. The
/// channels come from `Rgb565::r()`, `g()` and `b()`, which mask with 31, 63
/// and 31: the contract claims these bounds, and otherwise names the result.
/// The files on which `tinybmp` overflows `usize` are left out.
#[verifier::external_body]
fn decode_bmp_rgb565(bytes: &[u8]) -> (r: Option<Vec<(i32, i32, u8, u8, u8)>>)
    requires
        bmp_header_safe(bytes@),
    ensures
        match r {
            Some(v) => {
                &&& bmp_rgb565_pixels(bytes@) == Some(v@)
                &&& forall|i: int|
                    0 <= i < v@.len() ==> (#[trigger] v@[i]).2 <= 31 && v@[i].3 <= 63 && v@[i].4
                        <= 31
            },
            None => bmp_rgb565_pixels(bytes@) is None,
        },
{
    Bmp::<Rgb565>::from_slice(bytes).ok().map(
        |bmp| bmp.pixels().map(|p| (p.0.x, p.0.y, p.1.r(), p.1.g(), p.1.b())).collect(),
    )
}

pub open spec fn bmp_pixel_of(t: (i32, i32, u8, u8, u8)) -> BmpPixel {
    BmpPixel { x: t.0, y: t.1, color: Rgb888Color { r: t.2, g: t.3, b: t.4 } }
}

pub open spec fn image_pixel_of(t: (i32, i32, u8, u8, u8)) -> ImagePixel {
    ImagePixel { x: t.0, y: t.1, color: Rgb565Color { r: t.2, g: t.3, b: t.4 } }
}

/// The pixels of a BMP file with 8 bits per channel; `None` where the file
/// cannot be decoded.
pub open spec fn spec_glyph_pixels(bytes: Seq<u8>) -> Option<Seq<BmpPixel>> {
    match bmp_rgb888_pixels(bytes) {
        Some(s) => Some(s.map_values(|t: (i32, i32, u8, u8, u8)| bmp_pixel_of(t))),
        None => None,
    }
}

/// The pixels of a BMP file in the display's colours; `None` where the file
/// cannot be decoded.
pub open spec fn spec_image_pixels(bytes: Seq<u8>) -> Option<Seq<ImagePixel>> {
    match bmp_rgb565_pixels(bytes) {
        Some(s) => Some(s.map_values(|t: (i32, i32, u8, u8, u8)| image_pixel_of(t))),
        None => None,
    }
}

/// Decoding keeps every pixel that `tinybmp` yields where it put it: the
/// i-th decoded pixel has the i-th yielded position and channels, for the
/// pictures and for the glyphs alike, and none is added or lost.
pub proof fn lemma_decoded_pixels_keep_positions(bytes: Seq<u8>)
    ensures
        spec_image_pixels(bytes) is Some <==> bmp_rgb565_pixels(bytes) is Some,
        spec_image_pixels(bytes) matches Some(px) ==> px.len() == bmp_rgb565_pixels(bytes)->0.len()
            && forall|i: int| 0 <= i < px.len() ==> {
                let t = bmp_rgb565_pixels(bytes)->0[i];
                &&& (#[trigger] px[i]).x == t.0 && px[i].y == t.1
                &&& px[i].color == (Rgb565Color { r: t.2, g: t.3, b: t.4 })
            },
        spec_glyph_pixels(bytes) is Some <==> bmp_rgb888_pixels(bytes) is Some,
        spec_glyph_pixels(bytes) matches Some(px) ==> px.len() == bmp_rgb888_pixels(bytes)->0.len()
            && forall|i: int| 0 <= i < px.len() ==> {
                let t = bmp_rgb888_pixels(bytes)->0[i];
                &&& (#[trigger] px[i]).x == t.0 && px[i].y == t.1
                &&& px[i].color == (Rgb888Color { r: t.2, g: t.3, b: t.4 })
            },
{
}

/// Decodes a BMP file (such as a digit of the clock's font) to its pixels with
/// 8 bits per channel.
pub fn decode_glyph(bytes: &[u8]) -> (r: Option<Vec<BmpPixel>>)
    requires
        bmp_header_safe(bytes@),
    ensures
        r matches Some(v) ==> spec_glyph_pixels(bytes@) == Some(v@),
        r is None ==> spec_glyph_pixels(bytes@) is None,
        // Each decoded pixel keeps the position and channels that `tinybmp`
        // yields for it, in the same order.
        r is Some <==> bmp_rgb888_pixels(bytes@) is Some,
        r matches Some(v) ==> v@.len() == bmp_rgb888_pixels(bytes@)->0.len() && forall|i: int|
            0 <= i < v@.len() ==> {
                let t = bmp_rgb888_pixels(bytes@)->0[i];
                &&& (#[trigger] v@[i]).x == t.0 && v@[i].y == t.1
                &&& v@[i].color.r == t.2 && v@[i].color.g == t.3 && v@[i].color.b == t.4
            },
{
    match decode_bmp_rgb888(bytes) {
        None => None,
        Some(raw) => {
            let mut out: Vec<BmpPixel> = Vec::new();
            let n: usize = raw.len();
            for i in 0..n
                invariant
                    n == raw@.len(),
                    out@.len() == i,
                    forall|j: int| 0 <= j < i ==> out@[j] == bmp_pixel_of(#[trigger] raw@[j]),
            {
                let t = raw[i];
                out.push(BmpPixel { x: t.0, y: t.1, color: Rgb888Color { r: t.2, g: t.3, b: t.4 } });
            }
            assert(out@ =~= raw@.map_values(|t: (i32, i32, u8, u8, u8)| bmp_pixel_of(t)));
            Some(out)
        },
    }
}

/// Decodes a BMP file (such as a picture fetched from the server) to its
/// pixels in the display's colours.
pub fn decode_image(bytes: &[u8]) -> (r: Option<Vec<ImagePixel>>)
    requires
        bmp_header_safe(bytes@),
    ensures
        r matches Some(v) ==> spec_image_pixels(bytes@) == Some(v@),
        r is None ==> spec_image_pixels(bytes@) is None,
        // Each decoded pixel keeps the position and channels that `tinybmp`
        // yields for it, in the same order.
        r is Some <==> bmp_rgb565_pixels(bytes@) is Some,
        r matches Some(v) ==> v@.len() == bmp_rgb565_pixels(bytes@)->0.len() && forall|i: int|
            0 <= i < v@.len() ==> {
                let t = bmp_rgb565_pixels(bytes@)->0[i];
                &&& (#[trigger] v@[i]).x == t.0 && v@[i].y == t.1
                &&& v@[i].color.r == t.2 && v@[i].color.g == t.3 && v@[i].color.b == t.4
            },
        r matches Some(v) ==> forall|i: int| 0 <= i < v@.len() ==> (#[trigger] v@[i]).color.wf(),
{
    match decode_bmp_rgb565(bytes) {
        None => None,
        Some(raw) => {
            let mut out: Vec<ImagePixel> = Vec::new();
            let n: usize = raw.len();
            for i in 0..n
                invariant
                    n == raw@.len(),
                    forall|j: int|
                        0 <= j < raw@.len() ==> (#[trigger] raw@[j]).2 <= 31 && raw@[j].3 <= 63
                            && raw@[j].4 <= 31,
                    out@.len() == i,
                    forall|j: int| 0 <= j < i ==> out@[j] == image_pixel_of(#[trigger] raw@[j]),
            {
                let t = raw[i];
                out.push(ImagePixel { x: t.0, y: t.1, color: Rgb565Color { r: t.2, g: t.3, b: t.4 } });
            }
            assert(out@ =~= raw@.map_values(|t: (i32, i32, u8, u8, u8)| image_pixel_of(t)));
            assert forall|i: int| 0 <= i < out@.len() implies (#[trigger] out@[i]).color.wf() by {
                assert(out@[i] == image_pixel_of(raw@[i]));
            }
            Some(out)
        },
    }
}

} // verus!
