use vstd::prelude::*;
use crate::mode::SSTVMode;

verus! {

/// An RGB8 image held row by row, three bytes per pixel.
pub struct Raster {
    pub width: u32,
    pub height: u32,
    /// Pixel `(x, y)` holds channels `data[3 * (y * width + x) + c]`, with
    /// `c` = 0 (red), 1 (green), 2 (blue).
    pub data: Vec<u8>,
}

proof fn lemma_pixel_count_bound(width: u32, height: u32)
    ensures
        0 <= (width as int) * (height as int) <= 0xffff_ffff * 0xffff_ffff,
        3 * (width as int) * (height as int) == 3 * ((width as int) * (height as int)),
{
    assert(0 <= (width as int) * (height as int) <= 0xffff_ffff * 0xffff_ffff) by (nonlinear_arith)
        requires
            width <= 0xffff_ffff,
            height <= 0xffff_ffff,
    ;
    assert(3 * (width as int) * (height as int) == 3 * ((width as int) * (height as int)))
        by (nonlinear_arith);
}

/// Pixel `(x, y)` of a `w` by `h` image lies inside it.
proof fn lemma_pixel_index(x: int, y: int, w: int, h: int)
    requires
        0 <= x < w,
        0 <= y < h,
    ensures
        0 <= y * w + x,
        y * w + x + 1 <= w * h,
        3 * (y * w + x) + 3 <= 3 * w * h,
{
    assert(0 <= y * w + x && y * w + x + 1 <= w * h) by (nonlinear_arith)
        requires
            0 <= x < w,
            0 <= y < h,
    ;
    assert(3 * w * h == 3 * (w * h)) by (nonlinear_arith);
}

impl Raster {
    pub open spec fn wf(&self) -> bool {
        self.data@.len() == 3 * (self.width as int) * (self.height as int)
            && self.data@.len() <= usize::MAX
    }

    /// Channel `c` of pixel `(x, y)`.
    pub open spec fn channel(&self, x: int, y: int, c: int) -> u8 {
        self.data@[3 * (y * self.width + x) + c]
    }

    /// The `(r, g, b)` bytes of pixel `(x, y)`.
    pub open spec fn rgb_at(&self, x: int, y: int) -> (u8, u8, u8) {
        (self.channel(x, y, 0), self.channel(x, y, 1), self.channel(x, y, 2))
    }

    /// An image of the given size over `data`, when `data` holds exactly
    /// three bytes per pixel.
    pub fn from_rgb(width: u32, height: u32, data: Vec<u8>) -> (r: Option<Raster>)
        ensures
            r is Some <==> data@.len() == 3 * (width as int) * (height as int),
            r matches Some(img) ==> img.wf() && img.width == width && img.height == height
                && img.data@ == data@,
    {
        proof {
            lemma_pixel_count_bound(width, height);
        }
        let n = data.len() as u128;
        if n == 3 * ((width as u128) * (height as u128)) {
            Some(Raster { width, height, data })
        } else {
            None
        }
    }

    /// The image of the given size with every pixel `(r, g, b)`.
    pub fn filled(width: u32, height: u32, r: u8, g: u8, b: u8) -> (img: Raster)
        requires
            3 * (width as int) * (height as int) <= usize::MAX,
        ensures
            img.wf(),
            img.width == width,
            img.height == height,
            forall|x: int, y: int|
                0 <= x < width && 0 <= y < height ==> #[trigger] img.rgb_at(x, y) == (r, g, b),
    {
        proof {
            lemma_pixel_count_bound(width, height);
        }
        let count: usize = (width as usize) * (height as usize);
        let mut data: Vec<u8> = Vec::with_capacity(3 * count);
        let mut j: usize = 0;
        while j < count
            invariant
                3 * count == 3 * (width as int) * (height as int),
                3 * count <= usize::MAX,
                j <= count,
                data@.len() == 3 * j,
                forall|k: int|
                    0 <= k < 3 * j ==> #[trigger] data@[k] == (if k % 3 == 0 {
                        r
                    } else if k % 3 == 1 {
                        g
                    } else {
                        b
                    }),
            decreases count - j,
        {
            data.push(r);
            data.push(g);
            data.push(b);
            j = j + 1;
        }
        let img = Raster { width, height, data };
        assert forall|x: int, y: int| 0 <= x < width && 0 <= y < height implies #[trigger] img.rgb_at(
            x,
            y,
        ) == (r, g, b) by {
            lemma_pixel_index(x, y, width as int, height as int);
            let k = 3 * (y * width + x);
            assert(k % 3 == 0 && (k + 1) % 3 == 1 && (k + 2) % 3 == 2);
            assert(k + 2 < data@.len());
            assert(data@[k] == r);
            assert(data@[k + 1] == g);
            assert(data@[k + 2] == b);
        }
        img
    }

    /// The `(r, g, b)` bytes of pixel `(x, y)`.
    pub fn pixel(&self, x: u32, y: u32) -> (p: (u8, u8, u8))
        requires
            self.wf(),
            x < self.width,
            y < self.height,
        ensures
            p == self.rgb_at(x as int, y as int),
    {
        proof {
            lemma_pixel_index(x as int, y as int, self.width as int, self.height as int);
            assert(self.data@.len() == 3 * (self.width as int) * (self.height as int));
        }
        let base: usize = 3 * ((y as usize) * (self.width as usize) + (x as usize));
        (self.data[base], self.data[base + 1], self.data[base + 2])
    }
}

/// The pixel bytes that `image::imageops::resize` with the nearest-neighbour
/// filter makes of a `width` by `height` RGB8 image to `nwidth` by `nheight`.
pub uninterp spec fn nearest_resized(
    data: Seq<u8>,
    width: u32,
    height: u32,
    nwidth: u32,
    nheight: u32,
) -> Seq<u8>;

/// Relies on `image::imageops::resize` with `FilterType::Nearest`: the
/// result holds three bytes for each of `nwidth * nheight` pixels, and an
/// image asked for at its own size comes back unchanged (the function then
/// copies it). `ImageBuffer::from_raw` accepts the pixel bytes of a
/// well-formed raster, and the result buffer is allocated with
/// `ImageBuffer::new`, which panics when its length overflows `usize`.
#[verifier::external_body]
fn resize_nearest(img: &Raster, nwidth: u32, nheight: u32) -> (r: Vec<u8>)
    requires
        img.wf(),
        nwidth > 0,
        nheight > 0,
        3 * (nwidth as int) * (nheight as int) <= usize::MAX,
    ensures
        r@ == nearest_resized(img.data@, img.width, img.height, nwidth, nheight),
        r@.len() == 3 * (nwidth as int) * (nheight as int),
        nwidth == img.width && nheight == img.height ==> r@ == img.data@,
{
    let buf: image::RgbImage = image::ImageBuffer::from_raw(img.width, img.height, img.data.clone())
        .unwrap();
    image::imageops::resize(&buf, nwidth, nheight, image::imageops::FilterType::Nearest).into_raw()
}

impl Raster {
    /// This image resampled (nearest neighbour) to the size that `mode`
    /// transmits.
    pub fn fit_to(&self, mode: SSTVMode) -> (r: Raster)
        requires
            self.wf(),
        ensures
            r.wf(),
            (r.width, r.height) == mode.spec_resolution(),
            r.data@ == nearest_resized(self.data@, self.width, self.height, r.width, r.height),
            (self.width, self.height) == mode.spec_resolution() ==> r.data@ == self.data@,
    {
        let (w, h) = mode.resolution();
        let data = resize_nearest(self, w, h);
        Raster { width: w, height: h, data }
    }
}

} // verus!
