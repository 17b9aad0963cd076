use vstd::prelude::*;

verus! {

/// Relies on `image::Pixel::to_luma` for `Rgb<u8>`: the luma of one pixel is
/// `(2126 * r + 7152 * g + 722 * b) / 10000`, computed in `u32` and truncated.
#[verifier::external_body]
fn luma_of_rgb(r: u8, g: u8, b: u8) -> (l: u8)
    ensures
        l == luma(r, g, b),
{
    image::Pixel::to_luma(&image::Rgb([r, g, b])).0[0]
}

/// The BT.709 luma of an 8-bit RGB pixel, in integer arithmetic.
pub open spec fn luma(r: u8, g: u8, b: u8) -> u8 {
    ((2126 * r + 7152 * g + 722 * b) / 10000) as u8
}

/// What a grayscale raster holds: its size and one luma byte per pixel,
/// row by row.
pub ghost struct GrayModel {
    pub width: u32,
    pub height: u32,
    pub luma: Seq<u8>,
}

impl GrayModel {
    pub open spec fn wf(self) -> bool {
        self.luma.len() == self.width * self.height
    }

    /// The luma of the pixel in column `x` of row `y`.
    pub open spec fn at(self, x: int, y: int) -> u8 {
        self.luma[y * self.width + x]
    }
}

/// What an RGB raster holds: its size and three bytes (red, green, blue)
/// per pixel, row by row.
pub ghost struct RgbModel {
    pub width: u32,
    pub height: u32,
    pub data: Seq<u8>,
}

impl RgbModel {
    pub open spec fn wf(self) -> bool {
        self.data.len() == 3 * (self.width * self.height)
    }

    /// The pixel in column `x` of row `y`.
    pub open spec fn at(self, x: int, y: int) -> RgbPixel {
        let i = 3 * (y * self.width + x);
        RgbPixel { r: self.data[i], g: self.data[i + 1], b: self.data[i + 2] }
    }
}

/// One 8-bit RGB pixel.
#[derive(Clone, Copy, Debug, PartialEq, Eq, Structural)]
pub struct RgbPixel {
    pub r: u8,
    pub g: u8,
    pub b: u8,
}

/// Why a raster could not be built from its parts.
#[derive(Clone, Copy, Debug, PartialEq, Eq, Structural)]
pub enum RasterError {
    /// The buffer does not hold exactly one sample per channel and pixel.
    SizeMismatch,
}

/// A decoded grayscale image: one luma byte per pixel, row-major.
#[derive(Debug)]
pub struct GrayRaster {
    width: u32,
    height: u32,
    luma: Vec<u8>,
}

impl View for GrayRaster {
    type V = GrayModel;

    closed spec fn view(&self) -> GrayModel {
        GrayModel { width: self.width, height: self.height, luma: self.luma@ }
    }
}

pub(crate) proof fn lemma_pixel_index(x: int, y: int, w: int, h: int)
    requires
        0 <= x < w,
        0 <= y < h,
    ensures
        0 <= y * w + x < w * h,
{
    assert(0 <= y * w) by (nonlinear_arith)
        requires
            0 <= y,
            0 <= w,
    ;
    assert(y * w + x < w * h) by (nonlinear_arith)
        requires
            0 <= x < w,
            0 <= y < h,
    ;
}

proof fn lemma_size_fits(w: u32, h: u32)
    ensures
        0 <= w * h <= 0xffff_fffe_0000_0001,
{
    assert(0 <= w * h <= 0xffff_fffe_0000_0001) by (nonlinear_arith)
        requires
            0 <= w <= 0xffff_ffff,
            0 <= h <= 0xffff_ffff,
    ;
}

impl GrayRaster {
    #[verifier::type_invariant]
    spec fn inv(self) -> bool {
        self.luma.len() == self.width * self.height
    }

    /// Builds a raster of `width` by `height` pixels from row-major luma bytes.
    pub fn new(width: u32, height: u32, luma: Vec<u8>) -> (r: Result<GrayRaster, RasterError>)
        ensures
            r is Ok <==> luma@.len() == width * height,
            r matches Ok(g) ==> g@ == (GrayModel { width, height, luma: luma@ }),
    {
        proof { lemma_size_fits(width, height); }
        if luma.len() as u64 == width as u64 * height as u64 {
            Ok(GrayRaster { width, height, luma })
        } else {
            Err(RasterError::SizeMismatch)
        }
    }

    pub fn width(&self) -> (r: u32)
        ensures
            r == self@.width,
            self@.wf(),
    {
        proof { use_type_invariant(self); }
        self.width
    }

    pub fn height(&self) -> (r: u32)
        ensures
            r == self@.height,
            self@.wf(),
    {
        proof { use_type_invariant(self); }
        self.height
    }

    /// The luma of the pixel in column `x` of row `y`.
    pub fn pixel(&self, x: u32, y: u32) -> (r: u8)
        requires
            x < self@.width,
            y < self@.height,
        ensures
            r == self@.at(x as int, y as int),
    {
        proof {
            use_type_invariant(self);
            lemma_pixel_index(x as int, y as int, self.width as int, self.height as int);
        }
        self.luma[(y as u64 * self.width as u64 + x as u64) as usize]
    }

    /// The luma bytes, row by row.
    pub fn as_bytes(&self) -> (r: &Vec<u8>)
        ensures
            r@ == self@.luma,
    {
        &self.luma
    }
}

/// A decoded colour image: red, green and blue bytes per pixel, row-major.
#[derive(Debug)]
pub struct RgbRaster {
    width: u32,
    height: u32,
    data: Vec<u8>,
}

impl View for RgbRaster {
    type V = RgbModel;

    closed spec fn view(&self) -> RgbModel {
        RgbModel { width: self.width, height: self.height, data: self.data@ }
    }
}

impl RgbRaster {
    #[verifier::type_invariant]
    spec fn inv(self) -> bool {
        self.data.len() == 3 * (self.width * self.height)
    }

    /// Builds a raster of `width` by `height` pixels from row-major RGB bytes.
    pub fn new(width: u32, height: u32, data: Vec<u8>) -> (r: Result<RgbRaster, RasterError>)
        ensures
            r is Ok <==> data@.len() == 3 * (width * height),
            r matches Ok(c) ==> c@ == (RgbModel { width, height, data: data@ }),
    {
        proof { lemma_size_fits(width, height); }
        let n: u64 = width as u64 * height as u64;
        let len: usize = data.len();
        assert(len as int <= u64::MAX);
        if n <= u64::MAX / 3 && len as u64 == 3 * n {
            Ok(RgbRaster { width, height, data })
        } else {
            Err(RasterError::SizeMismatch)
        }
    }

    pub fn width(&self) -> (r: u32)
        ensures
            r == self@.width,
            self@.wf(),
    {
        proof { use_type_invariant(self); }
        self.width
    }

    pub fn height(&self) -> (r: u32)
        ensures
            r == self@.height,
            self@.wf(),
    {
        proof { use_type_invariant(self); }
        self.height
    }

    /// The pixel in column `x` of row `y`.
    pub fn pixel(&self, x: u32, y: u32) -> (r: RgbPixel)
        requires
            x < self@.width,
            y < self@.height,
        ensures
            r == self@.at(x as int, y as int),
    {
        proof {
            use_type_invariant(self);
            lemma_pixel_index(x as int, y as int, self.width as int, self.height as int);
        }
        let i: usize = (3 * (y as u64 * self.width as u64 + x as u64)) as usize;
        RgbPixel { r: self.data[i], g: self.data[i + 1], b: self.data[i + 2] }
    }

    /// Reduces every pixel to its BT.709 luma, keeping the size.
    pub fn to_luma8(&self) -> (r: GrayRaster)
        ensures
            r@.width == self@.width,
            r@.height == self@.height,
            r@.wf(),
            forall|i: int|
                0 <= i < r@.luma.len() ==> #[trigger] r@.luma[i] == luma(
                    self@.data[3 * i],
                    self@.data[3 * i + 1],
                    self@.data[3 * i + 2],
                ),
    {
        proof { use_type_invariant(self); }
        let len: usize = self.data.len();
        let n: usize = len / 3;
        proof {
            assert(3 * n == len) by (nonlinear_arith)
                requires
                    n == len / 3,
                    len as int == 3 * (self.width * self.height),
            ;
        }
        let mut out: Vec<u8> = Vec::with_capacity(n);
        let mut i: usize = 0;
        while i < n
            invariant
                3 * n == len,
                len == self.data@.len(),
                self.data@.len() == 3 * (self.width * self.height),
                i <= n,
                out@.len() == i,
                forall|j: int|
                    0 <= j < i ==> #[trigger] out@[j] == luma(
                        self.data@[3 * j],
                        self.data@[3 * j + 1],
                        self.data@[3 * j + 2],
                    ),
            decreases n - i,
        {
            let l = luma_of_rgb(self.data[3 * i], self.data[3 * i + 1], self.data[3 * i + 2]);
            out.push(l);
            i += 1;
        }
        GrayRaster { width: self.width, height: self.height, luma: out }
    }
}

} // verus!
