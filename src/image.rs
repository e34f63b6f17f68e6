use vstd::prelude::*;

use crate::canvas::Canvas;
use crate::color::{lemma_palette_round_trip, palette, Color};

verus! {

#[verifier::external_type_specification]
#[verifier::external_body]
pub struct ExImage(bmp::Image);

/// The width and height of a bitmap.
pub uninterp spec fn image_size(img: bmp::Image) -> (int, int);

/// The RGB triple at each `(x, y)` of a bitmap, `(0, 0)` being the top left.
pub uninterp spec fn image_pixels(img: bmp::Image) -> Map<(int, int), (u8, u8, u8)>;

pub open spec fn in_image(img: bmp::Image, x: int, y: int) -> bool {
    0 <= x < image_size(img).0 && 0 <= y < image_size(img).1
}

/// `img` is the bitmap of `c`: the same size, each pixel the palette triple
/// of the material at the same place.
pub open spec fn shows(img: bmp::Image, c: Canvas) -> bool {
    &&& image_size(img) == (c.w(), c.h())
    &&& forall|x: int, y: int|
        #![trigger image_pixels(img)[(x, y)]]
        c.in_bounds(x, y) ==> image_pixels(img).contains_key((x, y)) && image_pixels(img)[(x, y)]
            == palette(c.at(x, y))
}

/// Each pixel of a canvas's bitmap holds exactly one of the six palette
/// triples: the one of the material drawn there, and no other material's.
pub proof fn lemma_image_palette_only(img: bmp::Image, c: Canvas, x: int, y: int, d: Color)
    requires
        shows(img, c),
        c.in_bounds(x, y),
    ensures
        image_pixels(img)[(x, y)] == palette(c.at(x, y)),
        image_pixels(img)[(x, y)] == palette(d) ==> d == c.at(x, y),
{
    lemma_palette_round_trip(c.at(x, y), d);
}

/// A conservative bound under which a bitmap of this size can be made: it
/// allows `4 * (width + 2)` bytes per row, at least the `3 * width` bytes
/// padded to four that a row takes, so the pixel count and the file size
/// both fit in 32 bits. Some larger sizes that would fit are refused. The
/// height must be positive: with none, the bound would not limit the width,
/// whose row size alone overflows for widths past about 1.4e9.
pub open spec fn encodable(width: int, height: int) -> bool {
    &&& 0 < height
    &&& 4 * (width + 2) * height + 54 <= u32::MAX
}

/// Relies on bmp::Image::new: a black image of the given size. It computes
/// the pixel count and the file size in `u32`, so both must fit.
#[verifier::external_body]
fn new_image(width: u32, height: u32) -> (r: bmp::Image)
    requires
        encodable(width as int, height as int),
    ensures
        image_size(r) == (width as int, height as int),
        forall|x: int, y: int|
            in_image(r, x, y) ==> #[trigger] image_pixels(r).contains_key((x, y)),
        forall|x: int, y: int|
            in_image(r, x, y) ==> #[trigger] image_pixels(r)[(x, y)] == (0u8, 0u8, 0u8),
{
    bmp::Image::new(width, height)
}

/// Relies on bmp::Image::set_pixel: it writes the one pixel at `(x, y)`.
/// Its index `(height - y - 1) * width + x`, computed in `u32`, needs
/// `y < height`, and `x < width` keeps it to that row.
#[verifier::external_body]
fn put_pixel(img: &mut bmp::Image, x: u32, y: u32, rgb: (u8, u8, u8))
    requires
        in_image(*old(img), x as int, y as int),
        encodable(image_size(*old(img)).0, image_size(*old(img)).1),
    ensures
        image_size(*final(img)) == image_size(*old(img)),
        image_pixels(*final(img)) == image_pixels(*old(img)).insert((x as int, y as int), rgb),
{
    img.set_pixel(x, y, bmp::Pixel::new(rgb.0, rgb.1, rgb.2))
}

/// The bitmap of a canvas: each pixel the palette triple of its material.
/// `None` when the canvas is too large for a bitmap file.
pub fn to_image(c: &Canvas) -> (r: Option<bmp::Image>)
    requires
        c.wf(),
    ensures
        r is None <==> !encodable(c.w(), c.h()),
        r matches Some(img) ==> shows(img, *c),
{
    let w = c.width();
    let h = c.height();
    let wide: u128 = w as u128 + 2;
    assert(wide * 4 * (h as u128) + 54 < 0x1_0000_0000_0000_0000_0000) by (nonlinear_arith)
        requires
            wide < 0x2_0000_0000,
            h < 0x1_0000_0000,
    ;
    if h == 0 || wide * 4 * (h as u128) + 54 > u32::MAX as u128 {
        return None;
    }
    let mut img = new_image(w, h);
    let mut y: u32 = 0;
    while y < h
        invariant
            c.wf(),
            w == c.w(),
            h == c.h(),
            encodable(w as int, h as int),
            y <= h,
            image_size(img) == (w as int, h as int),
            forall|i: int, j: int|
                c.in_bounds(i, j) ==> #[trigger] image_pixels(img).contains_key((i, j)),
            forall|i: int, j: int|
                c.in_bounds(i, j) && j < y ==> #[trigger] image_pixels(img)[(i, j)] == palette(
                    c.at(i, j),
                ),
        decreases h - y,
    {
        let mut x: u32 = 0;
        while x < w
            invariant
                c.wf(),
                w == c.w(),
                h == c.h(),
                encodable(w as int, h as int),
                y < h,
                x <= w,
                image_size(img) == (w as int, h as int),
                forall|i: int, j: int|
                    c.in_bounds(i, j) ==> #[trigger] image_pixels(img).contains_key((i, j)),
                forall|i: int, j: int|
                    #![trigger image_pixels(img)[(i, j)]]
                    c.in_bounds(i, j) && (j < y || (j == y && i < x)) ==> image_pixels(img)[(i, j)]
                        == palette(c.at(i, j)),
            decreases w - x,
        {
            let color: Color = c.get(x, y);
            put_pixel(&mut img, x, y, color.rgb());
            x = x + 1;
        }
        y = y + 1;
    }
    Some(img)
}

} // verus!
