//! The raster image that a render fills, kept in an `image::RgbImage`.

use vstd::prelude::*;

verus! {

/// An 8-bit RGB image of the `image` crate.
#[verifier::external_body]
pub struct Canvas {
    inner: image::RgbImage,
}

/// The pixels of an image: the colour at each `(x, y)` with `x` below the
/// width and `y` below the height, as red, green and blue.
pub uninterp spec fn image_pixels(canvas: Canvas) -> Map<(int, int), (u8, u8, u8)>;

/// The width and the height that an image was made with.
pub uninterp spec fn image_extent(canvas: Canvas) -> (nat, nat);

impl Canvas {
    /// Whether the image is `width` pixels wide and `height` high, and holds a
    /// colour at every place within those bounds and nowhere else.
    pub open spec fn has_extent(self, width: nat, height: nat) -> bool {
        &&& image_extent(self) == (width, height)
        &&& forall|x: int, y: int| #[trigger]
            image_pixels(self).dom().contains((x, y)) <==> 0 <= x < width && 0 <= y < height
    }

    /// `image::ImageBuffer::new` for 8-bit RGB. Trusted: the image has the
    /// width and height asked for and every pixel of it is black, since the
    /// buffer is made of zeros. The call multiplies three by the width and
    /// then by the height, and panics where either product overflows or the
    /// buffer is longer than a vector can be, so both are ruled out.
    #[verifier::external_body]
    pub(crate) fn new(width: u32, height: u32) -> (canvas: Canvas)
        requires
            3 * width <= usize::MAX,
            3 * width * height <= isize::MAX,
        ensures
            canvas.has_extent(width as nat, height as nat),
            forall|x: int, y: int|
                0 <= x < width && 0 <= y < height ==> #[trigger] image_pixels(canvas)[(x, y)] == (
                    0u8,
                    0u8,
                    0u8,
                ),
    {
        Canvas { inner: image::ImageBuffer::new(width, height) }
    }

    /// `image::ImageBuffer::get_pixel_mut`, written through. Trusted: the pixel
    /// at `(x, y)` takes the colour given, every other pixel and the extent
    /// stay. The call panics out of bounds, so that is ruled out.
    #[verifier::external_body]
    pub(crate) fn set_pixel(&mut self, x: u32, y: u32, red: u8, green: u8, blue: u8)
        requires
            x < image_extent(*old(self)).0,
            y < image_extent(*old(self)).1,
        ensures
            image_extent(*final(self)) == image_extent(*old(self)),
            image_pixels(*final(self)) == image_pixels(*old(self)).insert(
                (x as int, y as int),
                (red, green, blue),
            ),
    {
        *self.inner.get_pixel_mut(x, y) = image::Rgb([red, green, blue]);
    }

    /// `image::ImageBuffer::into_raw`. Trusted: the buffer holds three bytes
    /// for each pixel, red, green, blue, row after row from the top and from
    /// left to right within a row.
    #[verifier::external_body]
    pub(crate) fn into_raw(self) -> (bytes: Vec<u8>)
        ensures
            bytes@.len() == 3 * image_extent(self).0 * image_extent(self).1,
            forall|x: int, y: int|
                0 <= x < image_extent(self).0 && 0 <= y < image_extent(self).1 ==> #[trigger] image_pixels(
                    self,
                )[(x, y)] == (
                    bytes@[3 * (y * image_extent(self).0 + x)],
                    bytes@[3 * (y * image_extent(self).0 + x) + 1],
                    bytes@[3 * (y * image_extent(self).0 + x) + 2],
                ),
    {
        self.inner.into_raw()
    }
}

} // verus!
