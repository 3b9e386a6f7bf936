use quilt_painter::color::Rgb;
use quilt_painter::images::{
    effective_heightmap, effective_texture, flat_heightmap, split_rgbd_image, DepthImage,
    PixelImage, RgbdImage, TextureImage,
};

fn solid(width: u32, height: u32, c: Rgb) -> PixelImage {
    PixelImage::new(width, height, c)
}

const RED: Rgb = Rgb { r: 255, g: 0, b: 0 };
const GRAY: Rgb = Rgb { r: 128, g: 128, b: 128 };
const BLACK: Rgb = Rgb { r: 0, g: 0, b: 0 };

#[test]
fn new_image_is_filled() {
    let img = solid(3, 2, RED);
    assert_eq!(img.dimensions(), (3, 2));
    for y in 0..2 {
        for x in 0..3 {
            assert_eq!(img.get_pixel(x, y), RED);
        }
    }
}

#[test]
fn put_pixel_changes_only_its_cell() {
    let mut img = solid(3, 3, BLACK);
    img.put_pixel(1, 2, RED);
    for y in 0..3 {
        for x in 0..3 {
            let expected = if (x, y) == (1, 2) { RED } else { BLACK };
            assert_eq!(img.get_pixel(x, y), expected);
        }
    }
}

#[test]
fn test_load_rgbd_image() {
    let mut test_image = PixelImage::new(4, 2, BLACK);

    // Left half (texture) is red
    for x in 0..2 {
        for y in 0..2 {
            test_image.put_pixel(x, y, Rgb { r: 255, g: 0, b: 0 });
        }
    }

    // Right half (heightmap) is gray
    for x in 2..4 {
        for y in 0..2 {
            test_image.put_pixel(x, y, Rgb { r: 128, g: 128, b: 128 });
        }
    }

    let (texture, heightmap) = split_rgbd_image(test_image);

    assert_eq!(texture.dimensions(), (2, 2));
    assert_eq!(heightmap.dimensions(), (2, 2));

    // Check texture is red
    assert_eq!(texture.get_pixel(0, 0), Rgb { r: 255, g: 0, b: 0 });

    // Check heightmap is gray
    assert_eq!(heightmap.get_pixel(0, 0), Rgb { r: 128, g: 128, b: 128 });
}

#[test]
fn combine_then_split_round_trip() {
    let mut tex = solid(2, 2, RED);
    tex.put_pixel(1, 1, Rgb { r: 1, g: 2, b: 3 });
    let depth = solid(2, 2, GRAY);
    let rgbd = RgbdImage::combine(TextureImage(tex), DepthImage(depth));
    assert_eq!(rgbd.width(), 4);
    assert_eq!(rgbd.height(), 2);
    let (t2, d2) = rgbd.split();
    assert_eq!(t2.dimensions(), (2, 2));
    assert_eq!(t2.get_pixel(0, 0), RED);
    assert_eq!(t2.get_pixel(1, 1), Rgb { r: 1, g: 2, b: 3 });
    for y in 0..2 {
        for x in 0..2 {
            assert_eq!(d2.get_pixel(x, y), GRAY);
        }
    }
}

#[test]
fn split_drops_odd_middle_column() {
    // A 5-wide image halves to width 2: the middle column belongs to neither.
    let img = solid(5, 1, RED);
    let (t, d) = split_rgbd_image(img);
    assert_eq!(t.dimensions(), (2, 1));
    assert_eq!(d.dimensions(), (2, 1));
}

#[test]
fn flat_heightmap_is_all_zero() {
    let d = flat_heightmap(3, 2);
    for y in 0..2 {
        for x in 0..3 {
            assert_eq!(d.get_pixel(x, y), BLACK);
        }
    }
}

#[test]
fn zero_heightmap_bypass_matches_flat_map() {
    // The debug bypass must hand the renderer exactly what a genuinely flat
    // depth map would: same size, every sample zero.
    let noisy = DepthImage(solid(4, 3, GRAY));
    let bypassed = effective_heightmap(&noisy, true);
    let flat = flat_heightmap(4, 3);
    assert_eq!(bypassed.dimensions(), noisy.dimensions());
    for y in 0..3 {
        for x in 0..4 {
            assert_eq!(bypassed.get_pixel(x, y), flat.get_pixel(x, y));
        }
    }
}

#[test]
fn heightmap_kept_without_bypass() {
    let noisy = DepthImage(solid(4, 3, GRAY));
    let kept = effective_heightmap(&noisy, false);
    assert_eq!(kept.dimensions(), (4, 3));
    for y in 0..3 {
        for x in 0..4 {
            assert_eq!(kept.get_pixel(x, y), GRAY);
        }
    }
}

#[test]
fn texture_swapped_in_heightmap_mode() {
    let tex = TextureImage(solid(2, 2, RED));
    let depth = DepthImage(solid(2, 2, GRAY));
    let swapped = effective_texture(tex, &depth, &Some("heightmap".to_string()));
    assert_eq!(swapped.get_pixel(0, 0), GRAY);

    let tex2 = TextureImage(solid(2, 2, RED));
    let kept = effective_texture(tex2, &depth, &Some("zbuffer".to_string()));
    assert_eq!(kept.get_pixel(0, 0), RED);

    let tex3 = TextureImage(solid(2, 2, RED));
    let kept2 = effective_texture(tex3, &depth, &None);
    assert_eq!(kept2.get_pixel(0, 0), RED);
}
