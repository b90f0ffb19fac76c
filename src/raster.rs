use vstd::prelude::*;

use crate::generator::view::ConstrainedValue;

verus! {

/// The column of the pixel that byte `b` of an RGBA8 buffer `image_width`
/// pixels wide belongs to.
pub open spec fn byte_column(b: int, image_width: nat) -> int {
    (b / 4) % (image_width as int)
}

/// The row of the pixel that byte `b` of an RGBA8 buffer `image_width` pixels
/// wide belongs to.
pub open spec fn byte_row(b: int, image_width: nat) -> int {
    (b / 4) / (image_width as int)
}

/// Draws a vertical line across the image at the specified x coordinate.
pub fn draw_vertical_line(image: &mut [u8], image_width: u32, image_height: u32, pixel_x: u32)
    requires
        pixel_x < image_width,
        old(image)@.len() == 4 * image_width * image_height,
    ensures
        final(image)@.len() == old(image)@.len(),
        forall|b: int|
            0 <= b < old(image)@.len() ==> #[trigger] final(image)@[b] == if byte_column(b, image_width as nat) == pixel_x {
                0xFFu8
            } else {
                old(image)@[b]
            },
{
    let width = image_width as usize;
    let height = image_height as usize;
    let ghost before = image@;
    let len = image.len();
    let mut y: usize = 0;
    while y < height
        invariant
            pixel_x < width,
            width == image_width,
            height == image_height,
            y <= height,
            before.len() == 4 * width * height,
            image@.len() == before.len(),
            len == before.len(),
            forall|b: int|
                0 <= b < before.len() ==> #[trigger] image@[b] == if byte_column(b, width as nat) == pixel_x && byte_row(b, width as nat) < y {
                    0xFFu8
                } else {
                    before[b]
                },
        decreases height - y,
    {
        assert(y * width + pixel_x < width * height) by (nonlinear_arith)
            requires y < height, pixel_x < width;
        assert((y * width + pixel_x) * 4 + 3 < len) by (nonlinear_arith)
            requires y * width + pixel_x < width * height, len == 4 * width * height;
        let index = (y * width + pixel_x as usize) * 4;
        image[index] = 0xFFu8;
        image[index + 1] = 0xFFu8;
        image[index + 2] = 0xFFu8;
        image[index + 3] = 0xFFu8;
        assert forall|b: int| 0 <= b < before.len() implies #[trigger] image@[b] == if byte_column(b, width as nat) == pixel_x && byte_row(b, width as nat) < y + 1 {
            0xFFu8
        } else {
            before[b]
        } by {
            let p = b / 4;
            lemma_pixel_row_column(p, width as int, y as int, pixel_x as int);
        }
        y += 1;
    }
    assert forall|b: int| 0 <= b < before.len() implies #[trigger] byte_row(b, width as nat) < height by {
        lemma_row_below_height(b, width as int, height as int);
    }
}

proof fn lemma_row_below_height(b: int, width: int, height: int)
    requires
        width > 0,
        0 <= b < 4 * width * height,
    ensures
        (b / 4) / width < height,
{
    let wh = width * height;
    assert(4 * width * height == 4 * wh) by (nonlinear_arith)
        requires wh == width * height;
    assert(b / 4 < wh);
    assert((b / 4) / width < height) by (nonlinear_arith)
        requires b / 4 < wh, wh == width * height, width > 0, b >= 0;
}

proof fn lemma_pixel_row_column(p: int, width: int, y: int, x: int)
    requires
        width > 0,
        0 <= x < width,
        0 <= y,
        0 <= p,
    ensures
        p == y * width + x <==> (p % width == x && p / width == y),
{
    assert(p == (p / width) * width + p % width) by (nonlinear_arith)
        requires width > 0;
    assert(0 <= p % width < width) by (nonlinear_arith)
        requires width > 0;
    if p % width == x && p / width == y {
    } else if p == y * width + x {
        assert((y * width + x) / width == y && (y * width + x) % width == x) by (nonlinear_arith)
            requires width > 0, 0 <= x < width, 0 <= y;
    }
}

/// Draws a horizontal line across the image at the specified y coordinate.
pub fn draw_horizontal_line(image: &mut [u8], image_width: u32, image_height: u32, pixel_y: u32)
    requires
        pixel_y < image_height,
        old(image)@.len() == 4 * image_width * image_height,
    ensures
        final(image)@.len() == old(image)@.len(),
        forall|b: int|
            0 <= b < old(image)@.len() ==> #[trigger] final(image)@[b] == if byte_row(
                b,
                image_width as nat,
            ) == pixel_y {
                0xFFu8
            } else {
                old(image)@[b]
            },
{
    let width = image_width as usize;
    let height = image_height as usize;
    let ghost before = image@;
    let len = image.len();
    assert forall|b: int| 0 <= b < before.len() implies 0 <= #[trigger] byte_column(
        b,
        width as nat,
    ) < width by {
        assert(width > 0) by (nonlinear_arith)
            requires b < before.len(), before.len() == 4 * width * height, b >= 0;
        lemma_column_bounds(b, width as int);
    }
    let mut x: usize = 0;
    while x < width
        invariant
            pixel_y < height,
            width == image_width,
            height == image_height,
            x <= width,
            before.len() == 4 * width * height,
            forall|b: int| 0 <= b < before.len() ==> 0 <= #[trigger] byte_column(b, width as nat) < width,
            image@.len() == before.len(),
            len == before.len(),
            forall|b: int|
                0 <= b < before.len() ==> #[trigger] image@[b] == if byte_row(b, width as nat)
                    == pixel_y && byte_column(b, width as nat) < x {
                    0xFFu8
                } else {
                    before[b]
                },
        decreases width - x,
    {
        assert(pixel_y * width + x < width * height) by (nonlinear_arith)
            requires pixel_y < height, x < width;
        assert((pixel_y * width + x) * 4 + 3 < len) by (nonlinear_arith)
            requires pixel_y * width + x < width * height, len == 4 * width * height;
        let index = (pixel_y as usize * width + x) * 4;
        image[index] = 0xFFu8;
        image[index + 1] = 0xFFu8;
        image[index + 2] = 0xFFu8;
        image[index + 3] = 0xFFu8;
        assert forall|b: int| 0 <= b < before.len() implies #[trigger] image@[b] == if byte_row(
            b,
            width as nat,
        ) == pixel_y && byte_column(b, width as nat) < x + 1 {
            0xFFu8
        } else {
            before[b]
        } by {
            let p = b / 4;
            lemma_pixel_row_column(p, width as int, pixel_y as int, x as int);
        }
        x += 1;
    }
}

proof fn lemma_column_bounds(b: int, width: int)
    requires
        width > 0,
        b >= 0,
    ensures
        0 <= (b / 4) % width < width,
{
    assert(0 <= (b / 4) % width < width) by (nonlinear_arith)
        requires width > 0, b >= 0;
}

/// Draws a crosshair through a pixel position: a horizontal line where the
/// row is within the image and a vertical line where the column is.
pub fn draw_constrained_crosshair(
    image: &mut [u8],
    image_width: u32,
    image_height: u32,
    pixel: (ConstrainedValue<u32>, ConstrainedValue<u32>),
)
    requires
        old(image)@.len() == 4 * image_width * image_height,
        pixel.0 matches ConstrainedValue::WithinConstraint(x) ==> x < image_width,
        pixel.1 matches ConstrainedValue::WithinConstraint(y) ==> y < image_height,
    ensures
        final(image)@.len() == old(image)@.len(),
        forall|b: int|
            0 <= b < old(image)@.len() ==> #[trigger] final(image)@[b] == if (pixel.1 matches ConstrainedValue::WithinConstraint(
                y,
            ) && byte_row(b, image_width as nat) == y) || (pixel.0 matches ConstrainedValue::WithinConstraint(
                x,
            ) && byte_column(b, image_width as nat) == x) {
                0xFFu8
            } else {
                old(image)@[b]
            },
{
    let (pixel_x, pixel_y) = pixel;
    if let ConstrainedValue::WithinConstraint(pixel_y) = pixel_y {
        draw_horizontal_line(image, image_width, image_height, pixel_y);
    }
    if let ConstrainedValue::WithinConstraint(pixel_x) = pixel_x {
        draw_vertical_line(image, image_width, image_height, pixel_x);
    }
}

/// Where along one axis a line of text `label_extent` pixels long starts
/// when it marks `position` on an image `image_extent` pixels long: at the
/// edge when the position is off the image, and otherwise on the position,
/// extending towards the centre of the image.
pub fn glyph_line_origin(position: ConstrainedValue<u32>, image_extent: u32, label_extent: u32) -> (r:
    u32)
    requires
        position matches ConstrainedValue::WithinConstraint(v) ==> (v >= image_extent / 2
            ==> label_extent <= v),
        position is GreaterThanConstraint ==> label_extent <= image_extent,
    ensures
        r == match position {
            ConstrainedValue::LessThanConstraint => 0,
            ConstrainedValue::WithinConstraint(v) => if v < image_extent / 2 {
                v as int
            } else {
                v - label_extent
            },
            ConstrainedValue::GreaterThanConstraint => image_extent - label_extent,
        },
{
    match position {
        ConstrainedValue::LessThanConstraint => 0,
        ConstrainedValue::WithinConstraint(v) => {
            if v < image_extent / 2 {
                v
            } else {
                v - label_extent
            }
        },
        ConstrainedValue::GreaterThanConstraint => image_extent - label_extent,
    }
}

} // verus!
