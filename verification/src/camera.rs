//! The camera: the size of the image, the order of its pixels, the budget of
//! bounces for a ray, and the image itself once every pixel has its colour.

use vstd::prelude::*;
use crate::canvas::{image_extent, image_pixels, Canvas};
use crate::interval::Interval;
use crate::scalar::{Scalar, INFINITY_BITS};
use crate::vec::{Point3, Vec3};

verus! {

/// How many rays are averaged into one pixel.
pub const SAMPLES_PER_PIXEL: i32 = 100;

/// How many bounces a ray is followed through.
pub const MAX_DEPTH: i32 = 50;

/// The pattern of `0.001`: hits nearer than this are not counted, so that a
/// scattered ray does not meet the surface it has just left.
pub const NEAREST_HIT_BITS: u64 = 0x3f50_624d_d2f1_a9fc;

/// The colour of one pixel, with its column `i` and its row `j`.
#[derive(Clone, Copy, Debug, PartialEq, Eq, Structural)]
pub struct Pixel {
    pub i: u32,
    pub j: u32,
    pub r: u8,
    pub g: u8,
    pub b: u8,
}

/// What a ray met on one leg of its path.
#[derive(Clone, Copy, Debug, PartialEq, Eq, Structural)]
pub enum Encounter {
    /// Nothing: the ray left the scene.
    Missed,
    /// A surface that took the ray in.
    Absorbed,
    /// A surface that sent the ray on.
    Scattered,
}

/// The colour of a ray, as far as one leg of its path decides it.
#[derive(Clone, Copy, Debug, PartialEq, Eq, Structural)]
pub enum Shade {
    /// Black.
    Black,
    /// The background gradient at the ray's direction.
    Background,
    /// The surface's attenuation times the colour of the scattered ray, which
    /// is followed with the depth given.
    Attenuated(i32),
}

/// The colour at `(x, y)` after the pixels are written in order onto a black
/// image: that of the last pixel written there, or black.
pub open spec fn painted(pixels: Seq<Pixel>, x: int, y: int) -> (u8, u8, u8)
    decreases pixels.len(),
{
    if pixels.len() == 0 {
        (0u8, 0u8, 0u8)
    } else {
        let last = pixels.last();
        if last.i == x && last.j == y {
            (last.r, last.g, last.b)
        } else {
            painted(pixels.drop_last(), x, y)
        }
    }
}

/// Whether `bytes` is the 8-bit RGB buffer of the image, `width` by `height`,
/// that the pixels paint: three bytes for each place, red, green, blue, row
/// after row from the top and from left to right within a row.
pub open spec fn is_image(bytes: Seq<u8>, width: int, height: int, pixels: Seq<Pixel>) -> bool {
    &&& bytes.len() == 3 * width * height
    &&& forall|x: int, y: int|
        0 <= x < width && 0 <= y < height ==> #[trigger] painted(pixels, x, y) == (
            bytes[3 * (y * width + x)],
            bytes[3 * (y * width + x) + 1],
            bytes[3 * (y * width + x) + 2],
        )
}

/// Whether a ray's budget of bounces is spent: such a ray is black, and the
/// scene is not asked about it.
pub open spec fn spent(depth: i32) -> bool {
    depth <= 0
}

/// The shade of a ray with `depth` bounces left: black once the budget is
/// spent; else the background where it met nothing, black where it was
/// absorbed, and where it was scattered the attenuated colour of the new ray,
/// with one bounce less.
pub open spec fn shade_of(depth: i32, encounter: Encounter) -> Shade {
    if spent(depth) {
        Shade::Black
    } else {
        match encounter {
            Encounter::Missed => Shade::Background,
            Encounter::Absorbed => Shade::Black,
            Encounter::Scattered => Shade::Attenuated((depth - 1) as i32),
        }
    }
}

/// Where a path ends that is followed with a budget of `depth` bounces and
/// meets `encounters` leg after leg: at the background after so many
/// scatterings, or, for `None`, in black. The colour of such a path is the
/// background behind its last leg, attenuated once for each scattering. A
/// path that outlasts the encounters listed counts as black.
pub open spec fn lit_after(depth: i32, encounters: Seq<Encounter>) -> Option<int>
    decreases encounters.len(),
{
    if encounters.len() == 0 {
        None
    } else {
        match shade_of(depth, encounters.first()) {
            Shade::Black => None,
            Shade::Background => Some(0),
            Shade::Attenuated(rest) => match lit_after(rest, encounters.drop_first()) {
                Some(scatterings) => Some(scatterings + 1),
                None => None,
            },
        }
    }
}

/// The viewport of a render: the size of the image and where its pixels lie.
/// The image is at least one row high.
#[derive(Clone, Copy, Debug)]
pub struct Camera {
    image_width: u32,
    image_height: u32,
    center: Point3,
    pixel00_loc: Point3,
    pixel_delta_u: Vec3,
    pixel_delta_v: Vec3,
}

impl Camera {
    #[verifier::type_invariant]
    spec fn at_least_one_row(self) -> bool {
        self.image_height >= 1
    }

    /// The width of the image in pixels.
    pub closed spec fn width(self) -> u32 {
        self.image_width
    }

    /// The height of the image in pixels.
    pub closed spec fn height(self) -> u32 {
        self.image_height
    }

    /// The centre, the place of the top left pixel, and the steps from a
    /// pixel to the next one right and to the next one down.
    pub closed spec fn placement(self) -> (Point3, Point3, Vec3, Vec3) {
        (self.center, self.pixel00_loc, self.pixel_delta_u, self.pixel_delta_v)
    }

    /// The height of an image for which the width divided by the aspect ratio
    /// came to `rows`: that count, but never less than one row.
    pub fn image_height_for(rows: u32) -> (height: u32)
        ensures
            height >= 1,
            height == if rows < 1 {
                1
            } else {
                rows
            },
    {
        if rows < 1 {
            1
        } else {
            rows
        }
    }

    /// A camera for an image `image_width` wide, for which the width divided by
    /// the aspect ratio came to `rows`. The four vectors are taken as they
    /// are.
    pub fn new(
        image_width: u32,
        rows: u32,
        center: Point3,
        pixel00_loc: Point3,
        pixel_delta_u: Vec3,
        pixel_delta_v: Vec3,
    ) -> (camera: Camera)
        ensures
            camera.width() == image_width,
            camera.height() >= 1,
            camera.height() == if rows < 1 {
                1
            } else {
                rows
            },
            camera.placement() == (center, pixel00_loc, pixel_delta_u, pixel_delta_v),
    {
        Camera {
            image_width,
            image_height: Self::image_height_for(rows),
            center,
            pixel00_loc,
            pixel_delta_u,
            pixel_delta_v,
        }
    }

    pub fn image_width(&self) -> (w: u32)
        ensures
            w == self.width(),
    {
        self.image_width
    }

    /// The height of the image, which is never zero, whatever width and
    /// aspect ratio the camera was made for.
    pub fn image_height(&self) -> (h: u32)
        ensures
            h == self.height(),
            h >= 1,
    {
        proof {
            use_type_invariant(self);
        }
        self.image_height
    }

    pub fn center(&self) -> (p: Point3)
        ensures
            p == self.placement().0,
    {
        self.center
    }

    pub fn pixel00_loc(&self) -> (p: Point3)
        ensures
            p == self.placement().1,
    {
        self.pixel00_loc
    }

    pub fn pixel_delta_u(&self) -> (v: Vec3)
        ensures
            v == self.placement().2,
    {
        self.pixel_delta_u
    }

    pub fn pixel_delta_v(&self) -> (v: Vec3)
        ensures
            v == self.placement().3,
    {
        self.pixel_delta_v
    }

    /// The interval in which a hit counts: from `0.001` to infinity.
    pub fn visible_range() -> (range: Interval)
        ensures
            range == (Interval {
                start: Scalar { bits: NEAREST_HIT_BITS },
                end: Scalar { bits: INFINITY_BITS },
            }),
    {
        Interval::new(Scalar::from_bits(NEAREST_HIT_BITS), Scalar::from_bits(INFINITY_BITS))
    }

    /// Whether a ray with `depth` bounces left is black without a look at the
    /// scene.
    pub fn is_spent(depth: i32) -> (r: bool)
        ensures
            r == spent(depth),
    {
        depth <= 0
    }

    /// What one leg of a ray's path makes of its colour; see [`shade_of`]. A
    /// scattered ray is followed with a smaller depth that is not negative,
    /// so no path has more legs than the depth it began with.
    pub fn ray_color(depth: i32, encounter: Encounter) -> (shade: Shade)
        ensures
            shade == shade_of(depth, encounter),
            shade matches Shade::Attenuated(rest) ==> 0 <= rest < depth,
    {
        if depth <= 0 {
            return Shade::Black;
        }
        match encounter {
            Encounter::Missed => Shade::Background,
            Encounter::Absorbed => Shade::Black,
            Encounter::Scattered => Shade::Attenuated(depth - 1),
        }
    }

    /// The places of all pixels, row after row from the top and from left to
    /// right within a row: the pixel in column `i` of row `j` is entry
    /// `j * width + i`.
    pub fn pixels(&self) -> (places: Vec<(u32, u32)>)
        ensures
            places@.len() == self.width() * self.height(),
            forall|i: int, j: int|
                0 <= i < self.width() && 0 <= j < self.height() ==> #[trigger] places@[j
                    * self.width() + i] == (i as u32, j as u32),
    {
        let width = self.image_width;
        let height = self.image_height;
        let mut places: Vec<(u32, u32)> = Vec::new();
        let mut j: u32 = 0;
        while j < height
            invariant
                j <= height,
                width == self.width(),
                height == self.height(),
                places@.len() == j * width,
                forall|i: int, row: int|
                    0 <= i < width && 0 <= row < j ==> #[trigger] places@[row * width + i] == (
                        i as u32,
                        row as u32,
                    ),
            decreases height - j,
        {
            let mut i: u32 = 0;
            while i < width
                invariant
                    i <= width,
                    j < height,
                    places@.len() == j * width + i,
                    forall|col: int, row: int|
                        0 <= col < width && 0 <= row < j ==> #[trigger] places@[row * width + col]
                            == (col as u32, row as u32),
                    forall|col: int|
                        0 <= col < i ==> #[trigger] places@[j * width + col] == (col as u32, j),
                decreases width - i,
            {
                let ghost before = places@;
                places.push((i, j));
                proof {
                    assert forall|col: int, row: int| 0 <= col < width && 0 <= row < j implies #[trigger] places@[row
                        * width + col] == (col as u32, row as u32) by {
                        assert(0 <= row * width + col < j * width) by (nonlinear_arith)
                            requires
                                0 <= col < width,
                                0 <= row < j,
                        ;
                        assert(places@[row * width + col] == before[row * width + col]);
                    }
                }
                i += 1;
            }
            proof {
                assert((j + 1) * width == j * width + width) by (nonlinear_arith);
            }
            j += 1;
        }
        proof {
            assert(height * width == width * height) by (nonlinear_arith);
        }
        places
    }

    /// The finished image, as the bytes of an 8-bit RGB buffer: three for each
    /// pixel, row after row from the top. The pixels are written in the order
    /// given onto a black image, so each place shows the last colour written
    /// there. Every pixel must lie within the image, and the buffer, like a
    /// row of it, must be no longer than a vector can be.
    pub fn render(&self, pixels: &Vec<Pixel>) -> (bytes: Vec<u8>)
        requires
            3 * self.width() <= usize::MAX,
            3 * self.width() * self.height() <= isize::MAX,
            forall|k: int|
                0 <= k < pixels@.len() ==> (#[trigger] pixels@[k]).i < self.width() && pixels@[k].j
                    < self.height(),
        ensures
            is_image(bytes@, self.width() as int, self.height() as int, pixels@),
    {
        let width = self.image_width;
        let height = self.image_height;
        let mut img = Canvas::new(width, height);
        let mut k: usize = 0;
        while k < pixels.len()
            invariant
                k <= pixels@.len(),
                width == self.width(),
                height == self.height(),
                image_extent(img) == (width as nat, height as nat),
                forall|n: int|
                    0 <= n < pixels@.len() ==> (#[trigger] pixels@[n]).i < width && pixels@[n].j
                        < height,
                forall|x: int, y: int|
                    0 <= x < width && 0 <= y < height ==> #[trigger] image_pixels(img)[(x, y)]
                        == painted(pixels@.take(k as int), x, y),
            decreases pixels@.len() - k,
        {
            let pixel = pixels[k];
            proof {
                assert(pixels@.take(k + 1).drop_last() == pixels@.take(k as int));
                assert(pixels@.take(k + 1).last() == pixel);
            }
            img.set_pixel(pixel.i, pixel.j, pixel.r, pixel.g, pixel.b);
            k += 1;
        }
        proof {
            assert(pixels@.take(k as int) == pixels@);
        }
        let ghost done = img;
        let bytes = img.into_raw();
        proof {
            assert forall|x: int, y: int| 0 <= x < width && 0 <= y < height implies #[trigger] painted(
                pixels@,
                x,
                y,
            ) == (
                bytes@[3 * (y * width + x)],
                bytes@[3 * (y * width + x) + 1],
                bytes@[3 * (y * width + x) + 2],
            ) by {
                assert(image_pixels(done)[(x, y)] == painted(pixels@, x, y));
            }
        }
        bytes
    }
}

/// A larger budget of bounces takes no light from a path. A path that
/// reaches the background within `shallow` bounces reaches it after the same
/// scatterings within `deep` ones, so its colour is the same; every other
/// path is black within `shallow`. A path that reaches the background has
/// fewer scatterings than its budget: with a budget of one, a ray that meets
/// a surface is black, and with none every ray is.
pub proof fn lemma_deeper_budget_keeps_the_light(
    shallow: i32,
    deep: i32,
    encounters: Seq<Encounter>,
)
    requires
        shallow <= deep,
    ensures
        lit_after(shallow, encounters) is Some ==> lit_after(deep, encounters) == lit_after(
            shallow,
            encounters,
        ),
        lit_after(shallow, encounters) matches Some(scatterings) ==> 0 <= scatterings < shallow,
        shallow <= 0 ==> lit_after(shallow, encounters) is None,
        shallow == 1 && encounters.len() > 0 && encounters.first() != Encounter::Missed
            ==> lit_after(shallow, encounters) is None,
    decreases encounters.len(),
{
    if encounters.len() > 0 && shallow > 0 {
        let rest = encounters.drop_first();
        lemma_deeper_budget_keeps_the_light((shallow - 1) as i32, (deep - 1) as i32, rest);
    }
}

/// The image is a function of its size and its pixels: two buffers that both
/// are the image of the same pixels at the same size are equal, byte for byte.
/// So the same colours written twice give the same image.
pub proof fn lemma_image_is_determined(
    first: Seq<u8>,
    second: Seq<u8>,
    width: int,
    height: int,
    pixels: Seq<Pixel>,
)
    requires
        0 <= width,
        0 <= height,
        is_image(first, width, height, pixels),
        is_image(second, width, height, pixels),
    ensures
        first == second,
{
    assert forall|n: int| 0 <= n < first.len() implies first[n] == second[n] by {
        let place = n / 3;
        let channel = n % 3;
        assert(width > 0 && height > 0) by (nonlinear_arith)
            requires
                0 <= n < 3 * width * height,
                0 <= width,
                0 <= height,
        ;
        let x = place % width;
        let y = place / width;
        assert(0 <= x < width && 0 <= y < height && y * width + x == place) by (nonlinear_arith)
            requires
                0 <= place,
                3 * place <= n,
                n < 3 * width * height,
                width > 0,
                x == place % width,
                y == place / width,
        ;
        assert(painted(pixels, x, y) == (
            first[3 * (y * width + x)],
            first[3 * (y * width + x) + 1],
            first[3 * (y * width + x) + 2],
        ));
        assert(painted(pixels, x, y) == (
            second[3 * (y * width + x)],
            second[3 * (y * width + x) + 1],
            second[3 * (y * width + x) + 2],
        ));
        assert(n == 3 * (y * width + x) + channel);
    }
    assert(first =~= second);
}

} // verus!
