//! The output image: an RGB buffer of the `image` crate, filled pixel by pixel.

use vstd::prelude::*;
use vstd::arithmetic::div_mod::{lemma_fundamental_div_mod, lemma_mod_pos_bound};
use crate::colour::RgbColour;
use crate::value::NormalizedValue;
use crate::viewport::ViewportRect;
use crate::kernel::{computes2, computes3};

verus! {

/// An 8-bit RGB pixel buffer of the `image` crate (`image::RgbImage`). The
/// verifier does not look inside: what the buffer holds is known to it only
/// through [`raster_dimensions`] and [`raster_pixels`], and only as far as
/// the three functions that call into the crate say so without proof.
#[verifier::external_body]
pub struct Raster {
    buffer: image::RgbImage,
}

/// The image `image::DynamicImage`, carried through as an opaque value.
#[verifier::external_type_specification]
#[verifier::external_body]
pub struct ExDynamicImage(image::DynamicImage);

/// Width and height of a buffer, in this order.
pub uninterp spec fn raster_dimensions(raster: Raster) -> (u32, u32);

/// The pixels of a buffer, row by row from the top, each row from the left.
pub uninterp spec fn raster_pixels(raster: Raster) -> Seq<RgbColour>;

/// Width and height of an image, in this order.
pub uninterp spec fn image_dimensions(img: image::DynamicImage) -> (u32, u32);

/// The pixels of an image as 8-bit RGB, row by row from the top, each row
/// from the left.
pub uninterp spec fn image_pixels(img: image::DynamicImage) -> Seq<RgbColour>;

/// Position of pixel `(x, y)` in the row-major sequence of an image that is
/// `width` pixels wide.
pub open spec fn pixel_index(width: u32, x: u32, y: u32) -> int {
    y * width + x
}

/// `pixels` is the image of size `width` by `height` that `paint` draws:
/// every pixel holds a colour that `paint` returned for its coordinates.
pub open spec fn is_drawing<F: Fn(u32, u32) -> RgbColour>(
    paint: F,
    width: u32,
    height: u32,
    pixels: Seq<RgbColour>,
) -> bool {
    &&& pixels.len() == width * height
    &&& forall|x: u32, y: u32|
        x < width && y < height ==> call_ensures(
            paint,
            (x, y),
            #[trigger] pixels[pixel_index(width, x, y)],
        )
}

/// How far pixel number `index` lies along an axis of `size` pixels, as a
/// fraction of the axis: the pixel stands for its left or upper edge, so the
/// first pixel lies at zero and no pixel lies at one.
pub open spec fn pixel_fraction(index: u32, size: u32) -> NormalizedValue {
    NormalizedValue { numerator: index, denominator: size }
}

/// `colour` is a colour of pixel `(x, y)` where the image of size `width` by
/// `height` shows the part `range` of the plane: `locate` places the pixel
/// on each axis between the bounds of the range, and `function` gives the
/// colour of the point found.
pub open spec fn is_plane_colour<T, L: Fn(NormalizedValue, T, T) -> T, D: Fn(T, T) -> RgbColour>(
    locate: L,
    function: D,
    range: ViewportRect<T>,
    width: u32,
    height: u32,
    x: u32,
    y: u32,
    colour: RgbColour,
) -> bool {
    exists|px: T, py: T|
        {
            &&& call_ensures(locate, (pixel_fraction(x, width), range.x_min, range.x_max), px)
            &&& call_ensures(locate, (pixel_fraction(y, height), range.y_min, range.y_max), py)
            &&& call_ensures(function, (px, py), colour)
        }
}

/// `pixels` is the image of size `width` by `height` that `function` draws
/// over the part `range` of the plane.
pub open spec fn is_plane_drawing<T, L: Fn(NormalizedValue, T, T) -> T, D: Fn(T, T) -> RgbColour>(
    locate: L,
    function: D,
    range: ViewportRect<T>,
    width: u32,
    height: u32,
    pixels: Seq<RgbColour>,
) -> bool {
    &&& pixels.len() == width * height
    &&& forall|x: u32, y: u32|
        x < width && y < height ==> is_plane_colour(
            locate,
            function,
            range,
            width,
            height,
            x,
            y,
            #[trigger] pixels[pixel_index(width, x, y)],
        )
}

/// The closure `locate` is exact under the valuation `value`: it places a
/// fraction `n / d` between zero and one at the value
/// `low + (n / d) * (high - low)`. The equation is stated with both sides
/// multiplied by `d`.
pub open spec fn exact_locate<T, L: Fn(NormalizedValue, T, T) -> T>(
    locate: L,
    value: spec_fn(T) -> int,
) -> bool {
    forall|fraction: NormalizedValue, low: T, high: T, place: T|
        fraction.in_unit_interval() && call_ensures(locate, (fraction, low, high), place)
            ==> value(place) * fraction.denominator == value(low) * fraction.denominator
            + fraction.numerator * (value(high) - value(low))
}

/// The image of size `width` by `height` whose pixel `(x, y)` holds the
/// colour `colour_at(x, y)`.
pub open spec fn drawing_of(
    colour_at: spec_fn(u32, u32) -> RgbColour,
    width: u32,
    height: u32,
) -> Seq<RgbColour> {
    Seq::new(
        (width * height) as nat,
        |i: int| colour_at((i % (width as int)) as u32, (i / (width as int)) as u32),
    )
}

/// An image size whose RGB buffer can be allocated: neither a row nor the
/// whole buffer overflows the length of a byte vector.
pub open spec fn fits_in_memory(width: u32, height: u32) -> bool {
    &&& 3 * width <= usize::MAX
    &&& 3 * width * height <= isize::MAX
}

/// Tests whether an image of the given size fits in memory.
pub fn image_fits(width: u32, height: u32) -> (fits: bool)
    ensures
        fits == fits_in_memory(width, height),
{
    let row: u128 = 3 * (width as u128);
    assert(row * (height as u128) <= 3 * 0xffff_ffff * 0xffff_ffff) by (nonlinear_arith)
        requires
            row <= 3 * 0xffff_ffff,
            height <= 0xffff_ffff,
    ;
    assert(row * (height as u128) == 3 * width * height) by (nonlinear_arith)
        requires
            row == 3 * width,
    ;
    row <= usize::MAX as u128 && row * (height as u128) <= isize::MAX as u128
}

/// Calls `image::ImageBuffer::new`. Assumed of it, not proved: the buffer has
/// the given size, and every channel of every pixel is zero. The call panics
/// where the byte length of the buffer overflows; the precondition keeps
/// such sizes out.
#[verifier::external_body]
fn blank_raster(width: u32, height: u32) -> (raster: Raster)
    requires
        fits_in_memory(width, height),
    ensures
        raster_dimensions(raster) == (width, height),
        raster_pixels(raster) == Seq::new(
            (width * height) as nat,
            |i: int| RgbColour { r: 0, g: 0, b: 0 },
        ),
{
    Raster { buffer: image::ImageBuffer::new(width, height) }
}

/// Calls `image::ImageBuffer::put_pixel`. Assumed of it, not proved: it
/// replaces the pixel at `(x, y)` and leaves every other pixel and the size
/// as they were. The call panics outside the buffer; the precondition keeps
/// such positions out.
#[verifier::external_body]
fn put_pixel(raster: &mut Raster, x: u32, y: u32, colour: RgbColour)
    requires
        x < raster_dimensions(*old(raster)).0,
        y < raster_dimensions(*old(raster)).1,
    ensures
        raster_dimensions(*final(raster)) == raster_dimensions(*old(raster)),
        raster_pixels(*final(raster)) == raster_pixels(*old(raster)).update(
            pixel_index(raster_dimensions(*old(raster)).0, x, y),
            colour,
        ),
{
    raster.buffer.put_pixel(x, y, image::Rgb([colour.r, colour.g, colour.b]))
}

/// Wraps the buffer in `image::DynamicImage::ImageRgb8`. Assumed of it, not
/// proved: the image has the buffer's size and pixels.
#[verifier::external_body]
fn into_image(raster: Raster) -> (img: image::DynamicImage)
    ensures
        image_dimensions(img) == raster_dimensions(raster),
        image_pixels(img) == raster_pixels(raster),
{
    image::DynamicImage::ImageRgb8(raster.buffer)
}

/// Row-major positions are ordered as the pixels are swept: a pixel of an
/// earlier row, or an earlier pixel of the same row, has a smaller position.
pub proof fn lemma_pixel_index_ordered(width: u32, x1: u32, y1: u32, x2: u32, y2: u32)
    requires
        x1 < width,
        x2 < width,
        y1 < y2 || (y1 == y2 && x1 < x2),
    ensures
        pixel_index(width, x1, y1) < pixel_index(width, x2, y2),
{
    if y1 < y2 {
        assert((y1 + 1) * width <= y2 * width) by (nonlinear_arith)
            requires
                y1 + 1 <= y2,
        ;
        assert((y1 + 1) * width == y1 * width + width) by (nonlinear_arith);
    }
}

/// Draws `paint` over an image of size `image_size` (width, then height):
/// pixel `(x, y)` of the result holds the colour `paint(x, y)`.
pub fn draw_pixels<F: Fn(u32, u32) -> RgbColour>(image_size: (u32, u32), paint: F) -> (img:
    image::DynamicImage)
    requires
        fits_in_memory(image_size.0, image_size.1),
        forall|x: u32, y: u32|
            x < image_size.0 && y < image_size.1 ==> call_requires(paint, (x, y)),
    ensures
        image_dimensions(img) == image_size,
        is_drawing(paint, image_size.0, image_size.1, image_pixels(img)),
{
    let (width, height) = image_size;
    let mut raster = blank_raster(width, height);
    let mut y: u32 = 0;
    while y < height
        invariant
            y <= height,
            raster_dimensions(raster) == (width, height),
            raster_pixels(raster).len() == width * height,
            forall|x: u32, y: u32| x < width && y < height ==> call_requires(paint, (x, y)),
            forall|px: u32, py: u32|
                px < width && py < y ==> call_ensures(
                    paint,
                    (px, py),
                    #[trigger] raster_pixels(raster)[pixel_index(width, px, py)],
                ),
        decreases height - y,
    {
        let mut x: u32 = 0;
        while x < width
            invariant
                x <= width,
                y < height,
                raster_dimensions(raster) == (width, height),
                raster_pixels(raster).len() == width * height,
                forall|x: u32, y: u32| x < width && y < height ==> call_requires(paint, (x, y)),
                forall|px: u32, py: u32|
                    px < width && (py < y || (py == y && px < x)) ==> call_ensures(
                        paint,
                        (px, py),
                        #[trigger] raster_pixels(raster)[pixel_index(width, px, py)],
                    ),
            decreases width - x,
        {
            let colour = paint(x, y);
            let ghost before = raster_pixels(raster);
            proof {
                lemma_pixel_index_ordered(width, x, y, 0, height);
                assert(pixel_index(width, 0, height) == height * width);
                assert(height * width == width * height) by (nonlinear_arith);
            }
            put_pixel(&mut raster, x, y, colour);
            proof {
                assert forall|px: u32, py: u32|
                    px < width && (py < y || (py == y && px < x + 1)) implies call_ensures(
                    paint,
                    (px, py),
                    #[trigger] raster_pixels(raster)[pixel_index(width, px, py)],
                ) by {
                    if px == x && py == y {
                    } else {
                        lemma_pixel_index_ordered(width, px, py, x, y);
                        assert(raster_pixels(raster)[pixel_index(width, px, py)]
                            == before[pixel_index(width, px, py)]);
                    }
                }
            }
            x = x + 1;
        }
        y = y + 1;
    }
    into_image(raster)
}

/// Draws `function` over the part `function_range` of the plane at the
/// resolution `image_size` (width, then height). Pixel `(x, y)` holds the
/// colour of the point that `locate` finds for it: on each axis `locate` is
/// handed how far along the axis the pixel lies and the two bounds of the
/// range on that axis.
pub fn draw_function<T: Copy, L: Fn(NormalizedValue, T, T) -> T, D: Fn(T, T) -> RgbColour>(
    function_range: ViewportRect<T>,
    image_size: (u32, u32),
    locate: L,
    function: D,
) -> (img: image::DynamicImage)
    requires
        fits_in_memory(image_size.0, image_size.1),
        forall|x: u32|
            x < image_size.0 ==> call_requires(
                locate,
                (
                    #[trigger] pixel_fraction(x, image_size.0),
                    function_range.x_min,
                    function_range.x_max,
                ),
            ),
        forall|y: u32|
            y < image_size.1 ==> call_requires(
                locate,
                (
                    #[trigger] pixel_fraction(y, image_size.1),
                    function_range.y_min,
                    function_range.y_max,
                ),
            ),
        forall|x: u32, y: u32, px: T, py: T|
            x < image_size.0 && y < image_size.1 && #[trigger] call_ensures(
                locate,
                (pixel_fraction(x, image_size.0), function_range.x_min, function_range.x_max),
                px,
            ) && #[trigger] call_ensures(
                locate,
                (pixel_fraction(y, image_size.1), function_range.y_min, function_range.y_max),
                py,
            ) ==> call_requires(function, (px, py)),
    ensures
        image_dimensions(img) == image_size,
        is_plane_drawing(
            locate,
            function,
            function_range,
            image_size.0,
            image_size.1,
            image_pixels(img),
        ),
{
    let (width, height) = image_size;
    let locate = &locate;
    let function = &function;
    let paint = |x: u32, y: u32| -> (colour: RgbColour)
        requires
            x < width,
            y < height,
        ensures
            is_plane_colour(*locate, *function, function_range, width, height, x, y, colour),
        {
            let along_x = NormalizedValue { numerator: x, denominator: width };
            let along_y = NormalizedValue { numerator: y, denominator: height };
            assert(along_x == pixel_fraction(x, width));
            assert(along_y == pixel_fraction(y, height));
            let px = locate(along_x, function_range.x_min, function_range.x_max);
            let py = locate(along_y, function_range.y_min, function_range.y_max);
            function(px, py)
        };
    draw_pixels(image_size, paint)
}

/// Under exact arithmetic every pixel of an axis lies inside the range it is
/// drawn over, the upper bound excluded: the first pixel lies on the lower
/// bound, and the last one below the upper bound.
pub proof fn lemma_pixels_lie_in_range<T, L: Fn(NormalizedValue, T, T) -> T>(
    locate: L,
    value: spec_fn(T) -> int,
    index: u32,
    size: u32,
    low: T,
    high: T,
    place: T,
)
    requires
        exact_locate(locate, value),
        index < size,
        value(low) < value(high),
        call_ensures(locate, (pixel_fraction(index, size), low, high), place),
    ensures
        value(low) <= value(place) < value(high),
        index == 0 ==> value(place) == value(low),
{
    let d = size as int;
    let n = index as int;
    let v = value(place);
    let lo = value(low);
    let hi = value(high);
    assert(v * d == lo * d + n * (hi - lo));
    assert(lo <= v < hi) by (nonlinear_arith)
        requires
            v * d == lo * d + n * (hi - lo),
            0 <= n < d,
            lo < hi,
    ;
    if index == 0 {
        assert(v == lo) by (nonlinear_arith)
            requires
                v * d == lo * d + n * (hi - lo),
                n == 0,
                d > 0,
        ;
    }
}

/// Every position of a row-major image belongs to exactly one pixel: a
/// sequence that holds `colour_at(x, y)` at the position of each pixel
/// `(x, y)` is the image of `colour_at`.
pub proof fn lemma_row_major_image(
    colour_at: spec_fn(u32, u32) -> RgbColour,
    width: u32,
    height: u32,
    pixels: Seq<RgbColour>,
)
    requires
        pixels.len() == width * height,
        forall|x: u32, y: u32|
            x < width && y < height ==> #[trigger] pixels[pixel_index(width, x, y)] == colour_at(
                x,
                y,
            ),
    ensures
        pixels == drawing_of(colour_at, width, height),
{
    let expected = drawing_of(colour_at, width, height);
    assert forall|i: int| 0 <= i < pixels.len() implies pixels[i] == expected[i] by {
        let w = width as int;
        assert(w > 0) by (nonlinear_arith)
            requires
                0 <= i < w * height,
                w >= 0,
        ;
        lemma_fundamental_div_mod(i, w);
        lemma_mod_pos_bound(i, w);
        let x = i % w;
        let y = i / w;
        assert(0 <= y < height) by (nonlinear_arith)
            requires
                i == w * y + x,
                0 <= x < w,
                0 <= i < w * height,
        ;
        assert(pixel_index(width, x as u32, y as u32) == i) by (nonlinear_arith)
            requires
                i == w * y + x,
                pixel_index(width, x as u32, y as u32) == y * w + x,
        ;
        assert(pixels[pixel_index(width, x as u32, y as u32)] == colour_at(x as u32, y as u32));
    }
    assert(pixels =~= expected);
}

/// With a painter that behaves as a function the image is determined, pixel
/// for pixel. Drawing the same function twice at the same size therefore
/// gives the same image.
pub proof fn lemma_drawing_determined<F: Fn(u32, u32) -> RgbColour>(
    paint: F,
    colour_at: spec_fn(u32, u32) -> RgbColour,
    width: u32,
    height: u32,
    pixels: Seq<RgbColour>,
)
    requires
        computes2(paint, colour_at),
        is_drawing(paint, width, height, pixels),
    ensures
        pixels == drawing_of(colour_at, width, height),
{
    lemma_row_major_image(colour_at, width, height, pixels);
}

/// The colour of pixel `(x, y)` where the image of size `width` by `height`
/// shows the part `range` of the plane, and the placing and the colouring
/// are the functions `place` and `colour_of`.
pub open spec fn plane_colour<T>(
    place: spec_fn(NormalizedValue, T, T) -> T,
    colour_of: spec_fn(T, T) -> RgbColour,
    range: ViewportRect<T>,
    width: u32,
    height: u32,
    x: u32,
    y: u32,
) -> RgbColour {
    colour_of(
        place(pixel_fraction(x, width), range.x_min, range.x_max),
        place(pixel_fraction(y, height), range.y_min, range.y_max),
    )
}

/// With closures that behave as functions the image of a part of the plane
/// is determined, pixel for pixel. Rendering the same function over the same
/// range at the same resolution twice therefore gives the same image.
pub proof fn lemma_plane_drawing_determined<
    T,
    L: Fn(NormalizedValue, T, T) -> T,
    D: Fn(T, T) -> RgbColour,
>(
    locate: L,
    function: D,
    place: spec_fn(NormalizedValue, T, T) -> T,
    colour_of: spec_fn(T, T) -> RgbColour,
    range: ViewportRect<T>,
    width: u32,
    height: u32,
    pixels: Seq<RgbColour>,
)
    requires
        computes3(locate, place),
        computes2(function, colour_of),
        is_plane_drawing(locate, function, range, width, height, pixels),
    ensures
        pixels == drawing_of(
            |x: u32, y: u32| plane_colour(place, colour_of, range, width, height, x, y),
            width,
            height,
        ),
{
    lemma_row_major_image(
        |x: u32, y: u32| plane_colour(place, colour_of, range, width, height, x, y),
        width,
        height,
        pixels,
    );
}

} // verus!
