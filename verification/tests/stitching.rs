use quilt_painter::color::Rgb;
use quilt_painter::images::PixelImage;
use quilt_painter::quilt::stitch_quilt;

const RED: Rgb = Rgb { r: 255, g: 0, b: 0 };
const GREEN: Rgb = Rgb { r: 0, g: 255, b: 0 };
const BLUE: Rgb = Rgb { r: 0, g: 0, b: 255 };
const WHITE: Rgb = Rgb { r: 255, g: 255, b: 255 };

#[test]
fn two_views_fill_right_to_left() {
    // Stitch placement: with two columns and one row, view 0 must land in
    // the right half and view 1 in the left half.
    let views = vec![PixelImage::new(2, 2, RED), PixelImage::new(2, 2, GREEN)];
    let quilt = stitch_quilt(&views, 2, 1);
    assert_eq!(quilt.dimensions(), (4, 2));
    for y in 0..2 {
        for x in 0..2 {
            assert_eq!(quilt.get_pixel(x, y), GREEN, "view 1 fills the left half");
            assert_eq!(quilt.get_pixel(x + 2, y), RED, "view 0 fills the right half");
        }
    }
}

#[test]
fn four_views_in_two_rows() {
    let views = vec![
        PixelImage::new(1, 1, RED),
        PixelImage::new(1, 1, GREEN),
        PixelImage::new(1, 1, BLUE),
        PixelImage::new(1, 1, WHITE),
    ];
    let quilt = stitch_quilt(&views, 2, 2);
    assert_eq!(quilt.dimensions(), (2, 2));
    // Row 0 holds views 0 and 1 (right to left), row 1 holds views 2 and 3.
    assert_eq!(quilt.get_pixel(1, 0), RED);
    assert_eq!(quilt.get_pixel(0, 0), GREEN);
    assert_eq!(quilt.get_pixel(1, 1), BLUE);
    assert_eq!(quilt.get_pixel(0, 1), WHITE);
}

#[test]
fn quilt_dimensions_follow_truncated_tiles() {
    // Dimension law: tiles of 5/2 x 3/1 pixels rebuild a quilt of
    // (5 - 5 % 2) x (3 - 3 % 1) pixels.
    let tile_w = 5u32 / 2;
    let tile_h = 3u32 / 1;
    let views = vec![PixelImage::new(tile_w, tile_h, RED), PixelImage::new(tile_w, tile_h, GREEN)];
    let quilt = stitch_quilt(&views, 2, 1);
    assert_eq!(quilt.dimensions(), (5 - 5 % 2, 3 - 3 % 1));
}

#[test]
fn stitching_is_deterministic() {
    // The same views give the byte-identical quilt on every run.
    let make_views = || {
        let mut a = PixelImage::new(2, 1, RED);
        a.put_pixel(1, 0, BLUE);
        vec![a, PixelImage::new(2, 1, GREEN)]
    };
    let q1 = stitch_quilt(&make_views(), 2, 1);
    let q2 = stitch_quilt(&make_views(), 2, 1);
    assert_eq!(q1.dimensions(), q2.dimensions());
    for y in 0..1 {
        for x in 0..4 {
            assert_eq!(q1.get_pixel(x, y), q2.get_pixel(x, y));
        }
    }
}

#[test]
fn single_view_quilt_copies_the_view() {
    let mut v = PixelImage::new(2, 2, RED);
    v.put_pixel(0, 1, BLUE);
    let expected = [[RED, RED], [BLUE, RED]];
    let quilt = stitch_quilt(&vec![v], 1, 1);
    assert_eq!(quilt.dimensions(), (2, 2));
    for y in 0..2 {
        for x in 0..2 {
            assert_eq!(quilt.get_pixel(x, y), expected[y as usize][x as usize]);
        }
    }
}
