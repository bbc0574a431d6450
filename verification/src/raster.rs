//! The pixel buffer as an image that can be written to a file.
//!
//! The buffer counts its rows from the bottom, a file from the top: row `y`
//! of the image to be written is row `height - 1 - y` of the buffer.

use crate::image_cer::ImageCer;
use image::GenericImage;
use vstd::prelude::*;

verus! {

#[verifier::external_type_specification]
#[verifier::external_body]
pub struct ExDynamicImage(image::DynamicImage);

/// What an `image::DynamicImage` of 8-bit red, green and blue holds: the
/// three channels stored at each coordinate `(x, y)` inside it. An image of
/// any other kind has the empty map.
pub uninterp spec fn raster_rgb8(img: image::DynamicImage) -> Map<(int, int), (u8, u8, u8)>;

/// The pixels of a `width` by `height` image that are all `value`.
pub open spec fn uniform_raster(width: int, height: int, value: (u8, u8, u8)) -> Map<
    (int, int),
    (u8, u8, u8),
> {
    Map::new(|at: (int, int)| 0 <= at.0 < width && 0 <= at.1 < height, |at: (int, int)| value)
}

/// `image::DynamicImage::new_rgb8`: an image of 8-bit red, green and blue
/// with every channel of every pixel at zero. The call panics where the
/// number of channels is more than a vector can hold, which `requires` leaves
/// out.
#[verifier::external_body]
fn raster_new(width: u32, height: u32) -> (img: image::DynamicImage)
    requires
        3 * width * height <= isize::MAX,
    ensures
        raster_rgb8(img) == uniform_raster(width as int, height as int, (0u8, 0u8, 0u8)),
{
    image::DynamicImage::new_rgb8(width, height)
}

/// `image::GenericImage::put_pixel` on an image of 8-bit red, green and
/// blue: the pixel at `(x, y)` takes the three colour channels, the alpha
/// channel is dropped, and no other pixel changes. The call panics for a
/// coordinate outside the image, which `requires` leaves out.
#[verifier::external_body]
fn raster_put(img: &mut image::DynamicImage, x: u32, y: u32, r: u8, g: u8, b: u8, a: u8)
    requires
        raster_rgb8(*old(img)).dom().contains((x as int, y as int)),
    ensures
        raster_rgb8(*final(img)) == raster_rgb8(*old(img)).insert((x as int, y as int), (r, g, b)),
{
    img.put_pixel(x, y, image::Rgba([r, g, b, a]))
}

/// What the image made from a buffer holds: at `(x, y)` the channels of the
/// buffer's pixel in column `x` of row `height - 1 - y`.
pub open spec fn flipped(img: ImageCer<u8>) -> Map<(int, int), (u8, u8, u8)> {
    Map::new(
        |at: (int, int)| img.in_grid(at.0, at.1),
        |at: (int, int)|
            {
                let pix = img.pixel_at(at.0, img.spec_height() - 1 - at.1);
                (pix.r, pix.g, pix.b)
            },
    )
}

/// Whether row `y` up to column `x`, and every row above it, hold what
/// [`flipped`] says.
spec fn done_up_to(held: Map<(int, int), (u8, u8, u8)>, img: ImageCer<u8>, x: int, y: int) -> bool {
    forall|at: (int, int)|
        img.in_grid(at.0, at.1) && (at.1 < y || (at.1 == y && at.0 < x)) ==> #[trigger] held[at]
            == flipped(img)[at]
}

/// The image to be written for a buffer of bytes: of 8-bit red, green and
/// blue, as large as the buffer, with the rows in the opposite order. Nothing
/// where the image would be more than a vector can hold.
pub fn to_raster(img: &ImageCer<u8>) -> (out: Option<image::DynamicImage>)
    ensures
        out is None <==> 3 * img.spec_width() * img.spec_height() > isize::MAX,
        out matches Some(raster) ==> raster_rgb8(raster) == flipped(*img),
{
    let width = img.get_width();
    let height = img.get_height();
    let count = img.pixel_count();
    proof {
        assert(3 * width * height == 3 * (width * height)) by (nonlinear_arith);
    }
    if count > (isize::MAX as usize) / 3 {
        return None;
    }
    let mut raster = raster_new(width, height);
    let mut y: u32 = 0;
    while y < height
        invariant
            y <= height,
            width == img.spec_width(),
            height == img.spec_height(),
            height <= u16::MAX,
            width <= u16::MAX,
            raster_rgb8(raster).dom() == flipped(*img).dom(),
            done_up_to(raster_rgb8(raster), *img, 0, y as int),
        decreases height - y,
    {
        let mut x: u32 = 0;
        while x < width
            invariant
                x <= width,
                y < height,
                width == img.spec_width(),
                height == img.spec_height(),
                height <= u16::MAX,
                width <= u16::MAX,
                raster_rgb8(raster).dom() == flipped(*img).dom(),
                done_up_to(raster_rgb8(raster), *img, x as int, y as int),
            decreases width - x,
        {
            let ghost before = raster_rgb8(raster);
            match img.get_pixel(x as u16, (height - 1 - y) as u16) {
                Some(pix) => {
                    assert(flipped(*img).dom().contains((x as int, y as int)));
                    raster_put(&mut raster, x, y, pix.r, pix.g, pix.b, 255);
                },
                None => {
                    assert(false);
                },
            }
            proof {
                let after = raster_rgb8(raster);
                assert(after.dom() =~= before.dom());
                assert forall|at: (int, int)|
                    img.in_grid(at.0, at.1) && (at.1 < y || (at.1 == y && at.0 < x + 1))
                    implies #[trigger] after[at] == flipped(*img)[at] by {
                    if at != (x as int, y as int) {
                        assert(before[at] == flipped(*img)[at]);
                    }
                }
            }
            x += 1;
        }
        y += 1;
    }
    assert(raster_rgb8(raster) =~= flipped(*img));
    Some(raster)
}

} // verus!
