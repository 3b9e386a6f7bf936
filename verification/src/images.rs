//! The pixel-grid data model: a dense row-major RGB image, the texture and
//! depth wrappers around it, and the side-by-side RGBD layout that carries a
//! texture and its depth map in one image.

use vstd::prelude::*;
use crate::color::Rgb;

verus! {

/// A row-major index stays inside the grid.
pub proof fn lemma_grid_index_bounds(w: int, h: int, x: int, y: int)
    requires
        0 <= x < w,
        0 <= y < h,
    ensures
        0 <= y * w,
        y * w + x < w * h,
{
    assert(0 <= y * w && y * w + x < w * h) by (nonlinear_arith)
        requires
            0 <= x < w,
            0 <= y < h,
    ;
}

/// Distinct coordinates have distinct row-major indices.
pub proof fn lemma_grid_index_injective(w: int, x1: int, y1: int, x2: int, y2: int)
    requires
        0 <= x1 < w,
        0 <= x2 < w,
        0 <= y1,
        0 <= y2,
        !(x1 == x2 && y1 == y2),
    ensures
        y1 * w + x1 != y2 * w + x2,
{
    assert(y1 * w + x1 != y2 * w + x2) by (nonlinear_arith)
        requires
            0 <= x1 < w,
            0 <= x2 < w,
            0 <= y1,
            0 <= y2,
            !(x1 == x2 && y1 == y2),
    ;
}

/// A width x height grid of RGB pixels, stored row by row.
#[derive(Debug)]
pub struct PixelImage {
    pub width: u32,
    pub height: u32,
    pub data: Vec<Rgb>,
}

impl PixelImage {
    /// The storage holds exactly one pixel per grid cell (and the grid is
    /// small enough to index with a machine word).
    pub open spec fn wf(&self) -> bool {
        &&& self.data@.len() == self.width as int * self.height as int
        &&& self.width as int * self.height as int <= usize::MAX as int
    }

    /// The pixel in column `x` of row `y`.
    pub open spec fn pixel_at(&self, x: int, y: int) -> Rgb {
        self.data@[y * self.width as int + x]
    }

    /// A fresh image with every pixel set to `fill`.
    pub fn new(width: u32, height: u32, fill: Rgb) -> (r: PixelImage)
        requires
            width as int * height as int <= usize::MAX as int,
        ensures
            r.wf(),
            r.width == width,
            r.height == height,
            forall|x: int, y: int|
                0 <= x < width && 0 <= y < height ==> #[trigger] r.pixel_at(x, y) == fill,
    {
        let n: usize = (width as usize) * (height as usize);
        let mut data: Vec<Rgb> = Vec::new();
        let mut i: usize = 0;
        while i < n
            invariant
                i <= n,
                data@.len() == i,
                forall|k: int| 0 <= k < i ==> data@[k] == fill,
            decreases n - i,
        {
            data.push(fill);
            i = i + 1;
        }
        let r = PixelImage { width, height, data };
        proof {
            assert forall|x: int, y: int|
                0 <= x < width && 0 <= y < height implies #[trigger] r.pixel_at(x, y) == fill by {
                lemma_grid_index_bounds(width as int, height as int, x, y);
            }
        }
        r
    }

    pub fn width(&self) -> (r: u32)
        ensures
            r == self.width,
    {
        self.width
    }

    pub fn height(&self) -> (r: u32)
        ensures
            r == self.height,
    {
        self.height
    }

    pub fn dimensions(&self) -> (r: (u32, u32))
        ensures
            r.0 == self.width,
            r.1 == self.height,
    {
        (self.width, self.height)
    }

    pub fn get_pixel(&self, x: u32, y: u32) -> (r: Rgb)
        requires
            self.wf(),
            x < self.width,
            y < self.height,
        ensures
            r == self.pixel_at(x as int, y as int),
    {
        proof {
            lemma_grid_index_bounds(self.width as int, self.height as int, x as int, y as int);
        }
        let idx: usize = (y as usize) * (self.width as usize) + (x as usize);
        self.data[idx]
    }

    pub fn put_pixel(&mut self, x: u32, y: u32, c: Rgb)
        requires
            old(self).wf(),
            x < old(self).width,
            y < old(self).height,
        ensures
            final(self).wf(),
            final(self).width == old(self).width,
            final(self).height == old(self).height,
            final(self).pixel_at(x as int, y as int) == c,
            forall|a: int, b: int|
                0 <= a < old(self).width && 0 <= b < old(self).height && !(a == x && b == y)
                    ==> #[trigger] final(self).pixel_at(a, b) == old(self).pixel_at(a, b),
    {
        proof {
            lemma_grid_index_bounds(self.width as int, self.height as int, x as int, y as int);
        }
        let idx: usize = (y as usize) * (self.width as usize) + (x as usize);
        self.data[idx] = c;
        proof {
            assert forall|a: int, b: int|
                0 <= a < old(self).width && 0 <= b < old(self).height && !(a == x && b == y)
                    implies #[trigger] self.pixel_at(a, b) == old(self).pixel_at(a, b) by {
                lemma_grid_index_injective(self.width as int, a, b, x as int, y as int);
                lemma_grid_index_bounds(self.width as int, self.height as int, a, b);
            }
        }
    }
}

fn clone_pixels(v: &Vec<Rgb>) -> (r: Vec<Rgb>)
    ensures
        r@ == v@,
{
    let mut r: Vec<Rgb> = Vec::new();
    let mut i: usize = 0;
    while i < v.len()
        invariant
            i <= v@.len(),
            r@ == v@.take(i as int),
        decreases v@.len() - i,
    {
        r.push(v[i]);
        proof {
            assert(v@.take(i + 1) =~= v@.take(i as int).push(v@[i as int]));
        }
        i = i + 1;
    }
    proof {
        assert(v@.take(v@.len() as int) =~= v@);
    }
    r
}

impl Clone for PixelImage {
    fn clone(&self) -> (r: Self)
        ensures
            r.width == self.width,
            r.height == self.height,
            r.data@ == self.data@,
    {
        PixelImage { width: self.width, height: self.height, data: clone_pixels(&self.data) }
    }
}

/// The color image that is re-projected into each view.
#[derive(Debug)]
pub struct TextureImage(pub PixelImage);

/// The aligned depth map; only its red channel carries the height sample.
#[derive(Debug)]
pub struct DepthImage(pub PixelImage);

/// A texture and its depth map side by side in one image: texture in the
/// left half, depth in the right half.
#[derive(Debug)]
pub struct RgbdImage(pub PixelImage);

impl Clone for TextureImage {
    fn clone(&self) -> (r: Self)
        ensures
            r.0.width == self.0.width,
            r.0.height == self.0.height,
            r.0.data@ == self.0.data@,
    {
        TextureImage(self.0.clone())
    }
}

impl Clone for DepthImage {
    fn clone(&self) -> (r: Self)
        ensures
            r.0.width == self.0.width,
            r.0.height == self.0.height,
            r.0.data@ == self.0.data@,
    {
        DepthImage(self.0.clone())
    }
}

impl Clone for RgbdImage {
    fn clone(&self) -> (r: Self)
        ensures
            r.0.width == self.0.width,
            r.0.height == self.0.height,
            r.0.data@ == self.0.data@,
    {
        RgbdImage(self.0.clone())
    }
}

impl TextureImage {
    pub fn width(&self) -> (r: u32)
        ensures
            r == self.0.width,
    {
        self.0.width()
    }

    pub fn height(&self) -> (r: u32)
        ensures
            r == self.0.height,
    {
        self.0.height()
    }

    pub fn dimensions(&self) -> (r: (u32, u32))
        ensures
            r.0 == self.0.width,
            r.1 == self.0.height,
    {
        self.0.dimensions()
    }

    pub fn get_pixel(&self, x: u32, y: u32) -> (r: Rgb)
        requires
            self.0.wf(),
            x < self.0.width,
            y < self.0.height,
        ensures
            r == self.0.pixel_at(x as int, y as int),
    {
        self.0.get_pixel(x, y)
    }
}

impl DepthImage {
    pub fn width(&self) -> (r: u32)
        ensures
            r == self.0.width,
    {
        self.0.width()
    }

    pub fn height(&self) -> (r: u32)
        ensures
            r == self.0.height,
    {
        self.0.height()
    }

    pub fn dimensions(&self) -> (r: (u32, u32))
        ensures
            r.0 == self.0.width,
            r.1 == self.0.height,
    {
        self.0.dimensions()
    }

    pub fn get_pixel(&self, x: u32, y: u32) -> (r: Rgb)
        requires
            self.0.wf(),
            x < self.0.width,
            y < self.0.height,
        ensures
            r == self.0.pixel_at(x as int, y as int),
    {
        self.0.get_pixel(x, y)
    }
}

impl RgbdImage {
    pub fn width(&self) -> (r: u32)
        ensures
            r == self.0.width,
    {
        self.0.width()
    }

    pub fn height(&self) -> (r: u32)
        ensures
            r == self.0.height,
    {
        self.0.height()
    }

    /// Parts a side-by-side RGBD image into its texture (left half) and
    /// depth map (right half), each half the width of the whole.
    #[verifier::loop_isolation(false)]
    pub fn split(self) -> (r: (TextureImage, DepthImage))
        requires
            self.0.wf(),
        ensures
            r.0.0.wf(),
            r.1.0.wf(),
            r.0.0.width == self.0.width / 2,
            r.0.0.height == self.0.height,
            r.1.0.width == self.0.width / 2,
            r.1.0.height == self.0.height,
            forall|x: int, y: int|
                0 <= x < self.0.width / 2 && 0 <= y < self.0.height ==> #[trigger] r.0.0.pixel_at(
                    x,
                    y,
                ) == self.0.pixel_at(x, y),
            forall|x: int, y: int|
                0 <= x < self.0.width / 2 && 0 <= y < self.0.height ==> #[trigger] r.1.0.pixel_at(
                    x,
                    y,
                ) == self.0.pixel_at(x + self.0.width / 2, y),
    {
        let width = self.0.width();
        let height = self.0.height();
        let half_width: u32 = width / 2;
        proof {
            vstd::arithmetic::mul::lemma_mul_inequality(
                half_width as int,
                width as int,
                height as int,
            );
        }
        let black = Rgb { r: 0, g: 0, b: 0 };
        let mut texture = PixelImage::new(half_width, height, black);
        let mut depth = PixelImage::new(half_width, height, black);
        let mut y: u32 = 0;
        while y < height
            invariant
                y <= height,
                texture.wf(),
                texture.width == half_width,
                texture.height == height,
                depth.wf(),
                depth.width == half_width,
                depth.height == height,
                forall|a: int, b: int|
                    0 <= a < half_width && 0 <= b < y ==> #[trigger] texture.pixel_at(a, b)
                        == self.0.pixel_at(a, b),
                forall|a: int, b: int|
                    0 <= a < half_width && 0 <= b < y ==> #[trigger] depth.pixel_at(a, b)
                        == self.0.pixel_at(a + half_width, b),
            decreases height - y,
        {
            let mut x: u32 = 0;
            while x < half_width
                invariant
                    x <= half_width,
                    y < height,
                    texture.wf(),
                    texture.width == half_width,
                    texture.height == height,
                    depth.wf(),
                    depth.width == half_width,
                    depth.height == height,
                    forall|a: int, b: int|
                        0 <= a < half_width && 0 <= b < y ==> #[trigger] texture.pixel_at(a, b)
                            == self.0.pixel_at(a, b),
                    forall|a: int, b: int|
                        0 <= a < half_width && 0 <= b < y ==> #[trigger] depth.pixel_at(a, b)
                            == self.0.pixel_at(a + half_width, b),
                    forall|a: int|
                        0 <= a < x ==> #[trigger] texture.pixel_at(a, y as int) == self.0.pixel_at(
                            a,
                            y as int,
                        ),
                    forall|a: int|
                        0 <= a < x ==> #[trigger] depth.pixel_at(a, y as int) == self.0.pixel_at(
                            a + half_width,
                            y as int,
                        ),
                decreases half_width - x,
            {
                texture.put_pixel(x, y, self.0.get_pixel(x, y));
                depth.put_pixel(x, y, self.0.get_pixel(x + half_width, y));
                x = x + 1;
            }
            y = y + 1;
        }
        (TextureImage(texture), DepthImage(depth))
    }

    /// Lays a texture and its equally-sized depth map side by side in one
    /// image: texture left, depth right.
    #[verifier::loop_isolation(false)]
    pub fn combine(texture: TextureImage, depth: DepthImage) -> (r: RgbdImage)
        requires
            texture.0.wf(),
            depth.0.wf(),
            depth.0.width == texture.0.width,
            depth.0.height == texture.0.height,
            2 * texture.0.width as int <= u32::MAX as int,
            2 * texture.0.width as int * texture.0.height as int <= usize::MAX as int,
        ensures
            r.0.wf(),
            r.0.width == 2 * texture.0.width,
            r.0.height == texture.0.height,
            forall|x: int, y: int|
                0 <= x < texture.0.width && 0 <= y < texture.0.height ==> #[trigger] r.0.pixel_at(
                    x,
                    y,
                ) == texture.0.pixel_at(x, y),
            forall|x: int, y: int|
                0 <= x < texture.0.width && 0 <= y < texture.0.height ==> #[trigger] r.0.pixel_at(
                    x + texture.0.width,
                    y,
                ) == depth.0.pixel_at(x, y),
    {
        let width = texture.0.width();
        let height = texture.0.height();
        let black = Rgb { r: 0, g: 0, b: 0 };
        let mut combined = PixelImage::new(2 * width, height, black);
        let mut y: u32 = 0;
        while y < height
            invariant
                y <= height,
                combined.wf(),
                combined.width == 2 * width,
                combined.height == height,
                forall|a: int, b: int|
                    0 <= a < width && 0 <= b < y ==> #[trigger] combined.pixel_at(a, b)
                        == texture.0.pixel_at(a, b),
                forall|a: int, b: int|
                    0 <= a < width && 0 <= b < y ==> #[trigger] combined.pixel_at(a + width, b)
                        == depth.0.pixel_at(a, b),
            decreases height - y,
        {
            let mut x: u32 = 0;
            while x < width
                invariant
                    x <= width,
                    y < height,
                    combined.wf(),
                    combined.width == 2 * width,
                    combined.height == height,
                    forall|a: int, b: int|
                        0 <= a < width && 0 <= b < y ==> #[trigger] combined.pixel_at(a, b)
                            == texture.0.pixel_at(a, b),
                    forall|a: int, b: int|
                        0 <= a < width && 0 <= b < y ==> #[trigger] combined.pixel_at(a + width, b)
                            == depth.0.pixel_at(a, b),
                    forall|a: int|
                        0 <= a < x ==> #[trigger] combined.pixel_at(a, y as int)
                            == texture.0.pixel_at(a, y as int),
                    forall|a: int|
                        0 <= a < x ==> #[trigger] combined.pixel_at(a + width, y as int)
                            == depth.0.pixel_at(a, y as int),
                decreases width - x,
            {
                combined.put_pixel(x, y, texture.0.get_pixel(x, y));
                combined.put_pixel(x + width, y, depth.0.get_pixel(x, y));
                x = x + 1;
            }
            y = y + 1;
        }
        RgbdImage(combined)
    }
}

/// Parts a side-by-side RGBD image into texture and depth halves.
pub fn split_rgbd_image(img: PixelImage) -> (r: (TextureImage, DepthImage))
    requires
        img.wf(),
    ensures
        r.0.0.wf(),
        r.1.0.wf(),
        r.0.0.width == img.width / 2,
        r.0.0.height == img.height,
        r.1.0.width == img.width / 2,
        r.1.0.height == img.height,
        forall|x: int, y: int|
            0 <= x < img.width / 2 && 0 <= y < img.height ==> #[trigger] r.0.0.pixel_at(x, y)
                == img.pixel_at(x, y),
        forall|x: int, y: int|
            0 <= x < img.width / 2 && 0 <= y < img.height ==> #[trigger] r.1.0.pixel_at(x, y)
                == img.pixel_at(x + img.width / 2, y),
{
    RgbdImage(img).split()
}

/// An all-black depth map: every height sample is zero.
pub fn flat_heightmap(width: u32, height: u32) -> (r: DepthImage)
    requires
        width as int * height as int <= usize::MAX as int,
    ensures
        r.0.wf(),
        r.0.width == width,
        r.0.height == height,
        forall|x: int, y: int|
            0 <= x < width && 0 <= y < height ==> #[trigger] r.0.pixel_at(x, y) == (Rgb {
                r: 0,
                g: 0,
                b: 0,
            }),
{
    DepthImage(PixelImage::new(width, height, Rgb { r: 0, g: 0, b: 0 }))
}

/// The depth map the renderer actually sees: the input map, or an all-zero
/// map of the same size when the zero-heightmap debug bypass is on.
pub fn effective_heightmap(heightmap: &DepthImage, zero_heightmap: bool) -> (r: DepthImage)
    requires
        heightmap.0.wf(),
    ensures
        r.0.wf(),
        r.0.width == heightmap.0.width,
        r.0.height == heightmap.0.height,
        zero_heightmap ==> forall|x: int, y: int|
            0 <= x < heightmap.0.width && 0 <= y < heightmap.0.height ==> #[trigger] r.0.pixel_at(
                x,
                y,
            ) == (Rgb { r: 0, g: 0, b: 0 }),
        !zero_heightmap ==> r.0.data@ == heightmap.0.data@,
{
    if zero_heightmap {
        flat_heightmap(heightmap.0.width(), heightmap.0.height())
    } else {
        heightmap.clone()
    }
}

/// The texture the renderer actually sees: the depth map itself when the
/// heightmap texture debug mode is on, the input texture otherwise.
pub fn effective_texture(texture: TextureImage, heightmap: &DepthImage, texture_mode: &Option<
    String,
>) -> (r: TextureImage)
    ensures
        (match texture_mode {
            Some(m) => m@ == "heightmap"@,
            None => false,
        }) ==> r.0.width == heightmap.0.width && r.0.height == heightmap.0.height && r.0.data@
            == heightmap.0.data@,
        !(match texture_mode {
            Some(m) => m@ == "heightmap"@,
            None => false,
        }) ==> r.0.width == texture.0.width && r.0.height == texture.0.height && r.0.data@
            == texture.0.data@,
{
    match texture_mode {
        Some(m) => {
            if crate::text::str_eq(m.as_str(), "heightmap") {
                TextureImage(heightmap.0.clone())
            } else {
                texture
            }
        },
        None => texture,
    }
}

} // verus!
