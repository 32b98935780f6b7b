use vstd::prelude::*;

verus! {

/// A decoded raster image held as plain bytes, two channel layouts.
///
/// `GrayAlpha` stores two bytes per pixel (luma, alpha); `Rgba` stores four
/// (red, green, blue, alpha). Pixels are stored row by row from the top,
/// left to right, exactly as a decoder hands the raw buffer out.
pub enum PixelSource {
    GrayAlpha { width: u32, height: u32, data: Vec<u8> },
    Rgba { width: u32, height: u32, data: Vec<u8> },
}

impl PixelSource {
    /// The buffer holds exactly the bytes of `width * height` pixels.
    pub open spec fn wf(self) -> bool {
        match self {
            PixelSource::GrayAlpha { width, height, data } => data@.len() == 2 * ((width as int)
                * (height as int)),
            PixelSource::Rgba { width, height, data } => data@.len() == 4 * ((width as int)
                * (height as int)),
        }
    }

    pub open spec fn spec_width(self) -> u32 {
        match self {
            PixelSource::GrayAlpha { width, .. } => width,
            PixelSource::Rgba { width, .. } => width,
        }
    }

    pub open spec fn spec_height(self) -> u32 {
        match self {
            PixelSource::GrayAlpha { height, .. } => height,
            PixelSource::Rgba { height, .. } => height,
        }
    }

    /// Whether the source carries per-pixel color (the `Rgba` layout).
    pub open spec fn spec_is_color(self) -> bool {
        self is Rgba
    }

    /// The alpha channel of the pixel at column `x`, row `y`.
    pub open spec fn spec_alpha(self, x: int, y: int) -> u8 {
        match self {
            PixelSource::GrayAlpha { width, data, .. } => data@[2 * (y * (width as int) + x) + 1],
            PixelSource::Rgba { width, data, .. } => data@[4 * (y * (width as int) + x) + 3],
        }
    }

    /// The color of the pixel at column `x`, row `y`: present exactly when
    /// the source carries color.
    pub open spec fn spec_color(self, x: int, y: int) -> Option<(u8, u8, u8)> {
        match self {
            PixelSource::GrayAlpha { .. } => None,
            PixelSource::Rgba { width, data, .. } => {
                let base = 4 * (y * (width as int) + x);
                Some((data@[base], data@[base + 1], data@[base + 2]))
            },
        }
    }

    /// Builds a gray-plus-alpha source; rejects a buffer whose length does
    /// not match the dimensions.
    pub fn new_gray_alpha(width: u32, height: u32, data: Vec<u8>) -> (r: Option<PixelSource>)
        ensures
            match r {
                Some(s) => s == (PixelSource::GrayAlpha { width, height, data }) && s.wf(),
                None => data@.len() != 2 * ((width as int) * (height as int)),
            },
    {
        proof {
            lemma_pixel_total(width as int, height as int);
        }
        let wh: u128 = (width as u128) * (height as u128);
        let expected: u128 = 2u128 * wh;
        if (data.len() as u128) == expected {
            Some(PixelSource::GrayAlpha { width, height, data })
        } else {
            None
        }
    }

    /// Builds a color source; rejects a buffer whose length does not match
    /// the dimensions.
    pub fn new_rgba(width: u32, height: u32, data: Vec<u8>) -> (r: Option<PixelSource>)
        ensures
            match r {
                Some(s) => s == (PixelSource::Rgba { width, height, data }) && s.wf(),
                None => data@.len() != 4 * ((width as int) * (height as int)),
            },
    {
        proof {
            lemma_pixel_total(width as int, height as int);
        }
        let wh: u128 = (width as u128) * (height as u128);
        let expected: u128 = 4u128 * wh;
        if (data.len() as u128) == expected {
            Some(PixelSource::Rgba { width, height, data })
        } else {
            None
        }
    }

    pub fn width(&self) -> (w: u32)
        ensures
            w == self.spec_width(),
    {
        match self {
            PixelSource::GrayAlpha { width, .. } => *width,
            PixelSource::Rgba { width, .. } => *width,
        }
    }

    pub fn height(&self) -> (h: u32)
        ensures
            h == self.spec_height(),
    {
        match self {
            PixelSource::GrayAlpha { height, .. } => *height,
            PixelSource::Rgba { height, .. } => *height,
        }
    }

    /// The alpha channel of the pixel at `(x, y)`.
    pub fn get_alpha(&self, x: u32, y: u32) -> (a: u8)
        requires
            self.wf(),
            x < self.spec_width(),
            y < self.spec_height(),
        ensures
            a == self.spec_alpha(x as int, y as int),
    {
        match self {
            PixelSource::GrayAlpha { width, height, data } => {
                let len: usize = data.len();
                proof {
                    lemma_flat_index(x as int, y as int, *width as int, *height as int, 2, len as int);
                }
                let idx: usize = (y as usize) * (*width as usize) + (x as usize);
                data[2 * idx + 1]
            },
            PixelSource::Rgba { width, height, data } => {
                let len: usize = data.len();
                proof {
                    lemma_flat_index(x as int, y as int, *width as int, *height as int, 4, len as int);
                }
                let idx: usize = (y as usize) * (*width as usize) + (x as usize);
                data[4 * idx + 3]
            },
        }
    }

    /// The color of the pixel at `(x, y)`, when the source carries color.
    pub fn get_color(&self, x: u32, y: u32) -> (c: Option<(u8, u8, u8)>)
        requires
            self.wf(),
            x < self.spec_width(),
            y < self.spec_height(),
        ensures
            c == self.spec_color(x as int, y as int),
    {
        match self {
            PixelSource::GrayAlpha { .. } => None,
            PixelSource::Rgba { width, height, data } => {
                let len: usize = data.len();
                proof {
                    lemma_flat_index(x as int, y as int, *width as int, *height as int, 4, len as int);
                }
                let idx: usize = (y as usize) * (*width as usize) + (x as usize);
                let base: usize = 4 * idx;
                Some((data[base], data[base + 1], data[base + 2]))
            },
        }
    }
}

/// A pixel count of two dimensions that each fit in 32 bits fits in 64.
proof fn lemma_pixel_total(w: int, h: int)
    requires
        0 <= w < 0x1_0000_0000,
        0 <= h < 0x1_0000_0000,
    ensures
        0 <= w * h < 0x1_0000_0000_0000_0000,
{
    assert(0 <= w * h < 0x1_0000_0000_0000_0000) by (nonlinear_arith)
        requires
            0 <= w < 0x1_0000_0000,
            0 <= h < 0x1_0000_0000,
    ;
}

/// The last byte of a pixel's `c`-byte record lies inside a buffer of
/// `c * width * height` bytes.
proof fn lemma_flat_index(x: int, y: int, w: int, h: int, c: int, len: int)
    requires
        0 <= x < w,
        0 <= y < h,
        1 <= c,
        len == c * (w * h),
    ensures
        0 <= y * w + x,
        c * (y * w + x) + (c - 1) < len,
{
    assert(0 <= y * w + x && c * (y * w + x) + (c - 1) < c * (w * h)) by (nonlinear_arith)
        requires
            0 <= x < w,
            0 <= y < h,
            1 <= c,
    ;
}

} // verus!
