//! Image dimensions and the raster of quantized pixel colors.

use crate::ppm::{ppm, push_header, push_pixel_line, pixel_lines};
use vstd::prelude::*;

verus! {

/// Why a configuration cannot be rendered.
#[derive(Debug, Clone, Copy, PartialEq, Eq, Structural)]
pub enum ImageSizeError {
    /// The derived image height is below one pixel.
    HeightTooSmall,
    /// The image width is below one pixel.
    WidthTooSmall,
}

/// Width and height of the rendered image, in pixels; both at least one.
#[derive(Debug, Clone, Copy, PartialEq, Eq, Structural)]
pub struct ImageSize {
    width: u32,
    height: u32,
}

impl ImageSize {
    #[verifier::type_invariant]
    spec fn well_formed(self) -> bool {
        self.width >= 1 && self.height >= 1 && self.width <= i32::MAX && self.height <= i32::MAX
    }

    pub closed spec fn spec_width(self) -> nat {
        self.width as nat
    }

    pub closed spec fn spec_height(self) -> nat {
        self.height as nat
    }

    /// Checks the dimensions derived from a camera configuration. A height
    /// below one pixel is fatal to a render and is reported before the width.
    pub fn new(width: i32, height: i32) -> (r: Result<ImageSize, ImageSizeError>)
        ensures
            r is Err <==> (height < 1 || width < 1),
            height < 1 ==> r == Err::<ImageSize, _>(ImageSizeError::HeightTooSmall),
            height >= 1 && width < 1 ==> r == Err::<ImageSize, _>(ImageSizeError::WidthTooSmall),
            r matches Ok(s) ==> s.spec_width() == width && s.spec_height() == height,
    {
        if height < 1 {
            Err(ImageSizeError::HeightTooSmall)
        } else if width < 1 {
            Err(ImageSizeError::WidthTooSmall)
        } else {
            Ok(ImageSize { width: width as u32, height: height as u32 })
        }
    }

    pub fn width(&self) -> (r: u32)
        ensures
            r == self.spec_width(),
            1 <= r <= i32::MAX,
    {
        proof { use_type_invariant(self); }
        self.width
    }

    pub fn height(&self) -> (r: u32)
        ensures
            r == self.spec_height(),
            1 <= r <= i32::MAX,
    {
        proof { use_type_invariant(self); }
        self.height
    }

    /// Raster index of the pixel in column `x` of row `y`: rows are laid out
    /// top to bottom, and the pixels of a row left to right.
    pub fn pixel_index(&self, x: u32, y: u32) -> (r: u64)
        requires
            x < self.spec_width(),
            y < self.spec_height(),
        ensures
            r == y * self.spec_width() + x,
            r < self.spec_pixel_count(),
    {
        proof {
            use_type_invariant(self);
            let w = self.spec_width();
            let h = self.spec_height();
            assert(y * w + x < w * h) by (nonlinear_arith)
                requires x < w, y < h;
            assert(y * w <= (i32::MAX as int) * (i32::MAX as int)) by (nonlinear_arith)
                requires y < h <= i32::MAX, w <= i32::MAX;
        }
        y as u64 * self.width as u64 + x as u64
    }

    pub open spec fn spec_pixel_count(self) -> nat {
        self.spec_width() * self.spec_height()
    }

    /// Number of pixels in the image.
    pub fn pixel_count(&self) -> (r: u64)
        ensures
            r == self.spec_pixel_count(),
    {
        proof {
            use_type_invariant(self);
            assert(self.width as u64 * self.height as u64 <= (i32::MAX as u64) * (i32::MAX as u64))
                by (nonlinear_arith)
                requires self.width <= i32::MAX, self.height <= i32::MAX;
        }
        self.width as u64 * self.height as u64
    }
}

/// A pixel color after gamma encoding and quantization: one byte per channel.
#[derive(Debug, Clone, Copy, PartialEq, Eq, Structural)]
pub struct Rgb8 {
    pub r: u8,
    pub g: u8,
    pub b: u8,
}

impl Rgb8 {
    pub fn new(r: u8, g: u8, b: u8) -> (p: Rgb8)
        ensures
            p == (Rgb8 { r, g, b }),
    {
        Rgb8 { r, g, b }
    }
}

/// There are `height` rows of `width` pixels each.
pub open spec fn rows_fit(size: ImageSize, rows: Seq<Vec<Rgb8>>) -> bool {
    &&& rows.len() == size.spec_height()
    &&& forall|y: int| 0 <= y < rows.len() ==> (#[trigger] rows[y])@.len() == size.spec_width()
}

/// A cell of an earlier row lies before the start of row `y`.
proof fn lemma_cell_in_earlier_rows(w: int, x: int, yy: int, y: int)
    requires
        0 <= x < w,
        0 <= yy < y,
    ensures
        0 <= yy * w + x < y * w,
{
    assert(0 <= yy * w) by (nonlinear_arith)
        requires 0 <= yy, 0 < w;
    assert(yy * w + w <= y * w) by (nonlinear_arith)
        requires yy < y, 0 < w;
}

/// The quantized colors of a whole image in raster order: rows top to bottom,
/// and within a row pixels left to right. The pixel in column `x` of row `y`
/// is at index `y * width + x`.
pub struct Frame {
    size: ImageSize,
    pixels: Vec<Rgb8>,
}

impl View for Frame {
    type V = Seq<Rgb8>;

    closed spec fn view(&self) -> Seq<Rgb8> {
        self.pixels@
    }
}

impl Frame {
    #[verifier::type_invariant]
    spec fn well_formed(self) -> bool {
        self.pixels@.len() == self.size.spec_pixel_count()
    }

    pub closed spec fn spec_size(self) -> ImageSize {
        self.size
    }

    /// Takes the pixels of an image of the given size, listed in raster
    /// order; `None` when their number is not `width * height`.
    pub fn from_pixels(size: ImageSize, pixels: Vec<Rgb8>) -> (r: Option<Frame>)
        ensures
            r is Some <==> pixels@.len() == size.spec_pixel_count(),
            r matches Some(f) ==> f.spec_size() == size && f@ == pixels@,
    {
        if pixels.len() as u64 == size.pixel_count() {
            Some(Frame { size, pixels })
        } else {
            None
        }
    }

    /// Assembles the rows of an image, listed top to bottom, into raster
    /// order; `None` when there are not `height` rows of `width` pixels each.
    pub fn from_rows(size: ImageSize, rows: Vec<Vec<Rgb8>>) -> (r: Option<Frame>)
        ensures
            r is Some <==> rows_fit(size, rows@),
            r matches Some(f) ==> {
                &&& f.spec_size() == size
                &&& f@.len() == size.spec_pixel_count()
                &&& forall|x: int, y: int|
                    0 <= x < size.spec_width() && 0 <= y < size.spec_height() ==> f@[y
                        * size.spec_width() + x] == (#[trigger] rows@[y]@[x])
            },
    {
        let width = size.width();
        let height = size.height();
        if rows.len() != height as usize {
            return None;
        }
        let mut k: usize = 0;
        while k < rows.len()
            invariant
                k <= rows@.len(),
                rows@.len() == height,
                width == size.spec_width(),
                height == size.spec_height(),
                forall|y: int| 0 <= y < k ==> (#[trigger] rows@[y])@.len() == width,
            decreases rows@.len() - k,
        {
            if rows[k].len() != width as usize {
                assert(rows@[k as int]@.len() != size.spec_width());
                return None;
            }
            k = k + 1;
        }
        let ghost w = width as int;
        let mut pixels: Vec<Rgb8> = Vec::new();
        let mut y: usize = 0;
        while y < rows.len()
            invariant
                rows_fit(size, rows@),
                w == size.spec_width(),
                y <= rows@.len(),
                pixels@.len() == y * w,
                forall|yy: int, x: int|
                    0 <= yy < y && 0 <= x < w ==> pixels@[yy * w + x] == (#[trigger] rows@[yy]@[x]),
            decreases rows@.len() - y,
        {
            let row = &rows[y];
            let ghost before = pixels@;
            let mut x: usize = 0;
            while x < row.len()
                invariant
                    row@ == rows@[y as int]@,
                    row@.len() == w,
                    x <= w,
                    pixels@.len() == y * w + x,
                    pixels@.subrange(0, y * w) == before,
                    forall|i: int| 0 <= i < x ==> pixels@[y * w + i] == row@[i],
                decreases row@.len() - x,
            {
                pixels.push(row[x]);
                x = x + 1;
                proof {
                    assert(pixels@.subrange(0, y * w) =~= before);
                }
            }
            proof {
                assert forall|yy: int, xx: int| 0 <= yy <= y && 0 <= xx < w implies pixels@[yy * w
                    + xx] == (#[trigger] rows@[yy]@[xx]) by {
                    if yy < y {
                        lemma_cell_in_earlier_rows(w, xx, yy, y as int);
                        assert(pixels@[yy * w + xx] == pixels@.subrange(0, y * w)[yy * w + xx]);
                    }
                }
                assert((y + 1) * w == y * w + w) by (nonlinear_arith);
            }
            y = y + 1;
        }
        proof {
            assert(pixels@.len() == size.spec_pixel_count()) by (nonlinear_arith)
                requires
                    pixels@.len() == y * w,
                    y == size.spec_height(),
                    w == size.spec_width(),
            ;
        }
        Some(Frame { size, pixels })
    }

    pub fn size(&self) -> (r: ImageSize)
        ensures
            r == self.spec_size(),
    {
        self.size
    }

    /// The pixel in column `x` of row `y`.
    pub fn pixel(&self, x: u32, y: u32) -> (p: Rgb8)
        requires
            x < self.spec_size().spec_width(),
            y < self.spec_size().spec_height(),
        ensures
            p == self@[y * self.spec_size().spec_width() + x],
    {
        proof {
            use_type_invariant(self);
        }
        let index = self.size.pixel_index(x, y);
        assert(index < self.pixels.len());
        self.pixels[index as usize]
    }

    /// The image encoded as a PPM file.
    pub fn to_ppm(&self) -> (r: Vec<u8>)
        ensures
            r@ == ppm(self.spec_size().spec_width(), self.spec_size().spec_height(), self@),
    {
        let mut out: Vec<u8> = Vec::new();
        push_header(&mut out, self.size.width(), self.size.height());
        let ghost head = out@;
        let mut i: usize = 0;
        while i < self.pixels.len()
            invariant
                i <= self.pixels@.len(),
                out@ == head + pixel_lines(self.pixels@.subrange(0, i as int)),
            decreases self.pixels@.len() - i,
        {
            push_pixel_line(&mut out, self.pixels[i]);
            i = i + 1;
            assert(self.pixels@.subrange(0, i as int).drop_last()
                =~= self.pixels@.subrange(0, i - 1 as int));
            assert(out@ =~= head + pixel_lines(self.pixels@.subrange(0, i as int)));
        }
        assert(self.pixels@.subrange(0, i as int) =~= self.pixels@);
        out
    }
}

} // verus!
