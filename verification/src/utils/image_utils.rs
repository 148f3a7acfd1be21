use vstd::prelude::*;
use crate::bitmap::{bmp_header_safe, decode_image, spec_image_pixels, ImagePixel};
use crate::draw::Point;
use crate::utils::simple_error::SimpleError;

verus! {

/// A picture to draw with its top left corner at `origin`.
#[derive(Debug)]
pub struct ImageDraw {
    pub origin: Point,
    pub pixels: Vec<ImagePixel>,
}

/// Draws the BMP picture fetched from the server at `point`: `body` is the
/// response, or `None` where the request failed.
pub fn draw_image(body: Option<Vec<u8>>, point: Point) -> (r: Result<ImageDraw, SimpleError>)
    requires
        body matches Some(b) ==> bmp_header_safe(b@),
    ensures
        body is None ==> r is Err && r->Err_0@ == "Failed to get bitmap"@,
        body matches Some(b) ==> match spec_image_pixels(b@) {
            None => r is Err && r->Err_0@ == "BMP parse failed"@,
            Some(px) => r is Ok && r->Ok_0.origin == point && r->Ok_0.pixels@ == px,
        },
{
    match body {
        None => Err(SimpleError::new("Failed to get bitmap")),
        Some(bytes) => match decode_image(bytes.as_slice()) {
            None => Err(SimpleError::new("BMP parse failed")),
            Some(pixels) => Ok(ImageDraw { origin: point, pixels }),
        },
    }
}

} // verus!
