use fractal_video::generator::view::ConstrainedValue;
use fractal_video::raster::{
    draw_constrained_crosshair, draw_horizontal_line, draw_vertical_line, glyph_line_origin,
};

fn is_white(image: &[u8], width: usize, x: usize, y: usize) -> bool {
    let i = (y * width + x) * 4;
    image[i..i + 4] == [0xFF; 4]
}

#[test]
fn vertical_line_covers_one_column() {
    let mut image = vec![0u8; 4 * 3 * 2];
    draw_vertical_line(&mut image, 3, 2, 1);
    for y in 0..2 {
        for x in 0..3 {
            assert_eq!(is_white(&image, 3, x, y), x == 1);
        }
    }
}

#[test]
fn horizontal_line_covers_one_row() {
    let mut image = vec![7u8; 4 * 3 * 2];
    draw_horizontal_line(&mut image, 3, 2, 1);
    assert_eq!(&image[..12], &[7u8; 12]);
    assert_eq!(&image[12..], &[0xFFu8; 12]);
}

#[test]
fn crosshair_draws_only_visible_lines() {
    let mut image = vec![0u8; 4 * 4 * 4];
    draw_constrained_crosshair(
        &mut image,
        4,
        4,
        (ConstrainedValue::WithinConstraint(2), ConstrainedValue::WithinConstraint(1)),
    );
    for y in 0..4 {
        for x in 0..4 {
            assert_eq!(is_white(&image, 4, x, y), x == 2 || y == 1);
        }
    }

    let mut image = vec![0u8; 4 * 4 * 4];
    draw_constrained_crosshair(
        &mut image,
        4,
        4,
        (ConstrainedValue::GreaterThanConstraint, ConstrainedValue::WithinConstraint(3)),
    );
    for y in 0..4 {
        for x in 0..4 {
            assert_eq!(is_white(&image, 4, x, y), y == 3);
        }
    }

    let mut image = vec![0u8; 4 * 4 * 4];
    draw_constrained_crosshair(
        &mut image,
        4,
        4,
        (ConstrainedValue::LessThanConstraint, ConstrainedValue::GreaterThanConstraint),
    );
    assert_eq!(image, vec![0u8; 4 * 4 * 4]);
}

#[test]
fn labels_extend_towards_the_centre() {
    assert_eq!(glyph_line_origin(ConstrainedValue::LessThanConstraint, 100, 30), 0);
    assert_eq!(glyph_line_origin(ConstrainedValue::WithinConstraint(20), 100, 30), 20);
    assert_eq!(glyph_line_origin(ConstrainedValue::WithinConstraint(49), 100, 30), 49);
    assert_eq!(glyph_line_origin(ConstrainedValue::WithinConstraint(50), 100, 30), 20);
    assert_eq!(glyph_line_origin(ConstrainedValue::WithinConstraint(90), 100, 30), 60);
    assert_eq!(glyph_line_origin(ConstrainedValue::GreaterThanConstraint, 100, 30), 70);
}
