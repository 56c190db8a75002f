use vstd::prelude::*;
use crate::color::Rgba;

verus! {

/// Why raw bytes could not become an image.
#[derive(Debug, Clone, Copy, PartialEq, Eq, Structural)]
pub enum ImportError {
    /// The byte count is not four per pixel.
    SizeMismatch,
    /// The image is larger than the canvas can be.
    TooLarge,
}

/// The four bytes of `c`, in RGBA order.
pub open spec fn rgba_bytes(c: Rgba) -> Seq<u8> {
    seq![c.r, c.g, c.b, c.a]
}

/// A fixed-size raster of RGBA pixels, stored row by row from the top.
pub struct Image {
    width: u32,
    height: u32,
    pixels: Vec<Rgba>,
}

/// Bytes per pixel in the raw RGBA layout.
pub const BYTES_PER_PIXEL: usize = 4;

impl Image {
    /// Pixels are exactly `width * height`, row by row.
    pub closed spec fn wf(&self) -> bool {
        self.pixels@.len() == self.width as int * self.height as int
    }

    pub closed spec fn spec_width(&self) -> int {
        self.width as int
    }

    pub closed spec fn spec_height(&self) -> int {
        self.height as int
    }

    /// The pixels, row by row from the top.
    pub closed spec fn view_pixels(&self) -> Seq<Rgba> {
        self.pixels@
    }

    pub open spec fn in_bounds(&self, x: int, y: int) -> bool {
        0 <= x < self.spec_width() && 0 <= y < self.spec_height()
    }

    pub open spec fn index_of(&self, x: int, y: int) -> int {
        y * self.spec_width() + x
    }

    /// The pixel at column `x`, row `y`.
    pub open spec fn at(&self, x: int, y: int) -> Rgba {
        self.view_pixels()[self.index_of(x, y)]
    }

    pub proof fn lemma_dims(&self)
        ensures
            0 <= self.spec_width() <= u32::MAX,
            0 <= self.spec_height() <= u32::MAX,
    {
    }

    pub proof fn lemma_index(&self, x: int, y: int)
        requires
            self.wf(),
            self.in_bounds(x, y),
        ensures
            0 <= y * self.spec_width() <= self.index_of(x, y) < self.view_pixels().len(),
            self.view_pixels().len() == self.spec_width() * self.spec_height(),
    {
        assert(0 <= y * self.spec_width() <= y * self.spec_width() + x < self.spec_width() * self.spec_height())
            by (nonlinear_arith)
            requires
                0 <= x < self.spec_width(),
                0 <= y < self.spec_height(),
        ;
    }

    /// Two in-bounds positions share a storage slot only if they are the same position.
    pub proof fn lemma_index_injective(&self, x1: int, y1: int, x2: int, y2: int)
        requires
            self.in_bounds(x1, y1),
            self.in_bounds(x2, y2),
            self.index_of(x1, y1) == self.index_of(x2, y2),
        ensures
            x1 == x2 && y1 == y2,
    {
        let w = self.spec_width();
        if y1 < y2 {
            assert(y1 * w + x1 < y2 * w + x2) by (nonlinear_arith)
                requires 0 <= x1 < w, 0 <= x2 < w, y1 < y2;
        } else if y2 < y1 {
            assert(y2 * w + x2 < y1 * w + x1) by (nonlinear_arith)
                requires 0 <= x1 < w, 0 <= x2 < w, y2 < y1;
        }
    }

    /// A `width` by `height` image with every pixel `fill`.
    pub fn new(width: u32, height: u32, fill: Rgba) -> (img: Image)
        requires
            width as int * height as int <= usize::MAX,
        ensures
            img.wf(),
            img.spec_width() == width,
            img.spec_height() == height,
            forall|x: int, y: int| img.in_bounds(x, y) ==> #[trigger] img.at(x, y) == fill,
    {
        let n: usize = width as usize * height as usize;
        let pixels = vec![fill; n];
        let img = Image { width, height, pixels };
        assert forall|x: int, y: int| img.in_bounds(x, y) implies #[trigger] img.at(x, y) == fill by {
            img.lemma_index(x, y);
        }
        img
    }

    pub fn width(&self) -> (w: u32)
        ensures
            w == self.spec_width(),
    {
        self.width
    }

    pub fn height(&self) -> (h: u32)
        ensures
            h == self.spec_height(),
    {
        self.height
    }

    /// The pixel at (`x`, `y`), or `None` when that position lies outside the image.
    pub fn get_color(&self, x: i64, y: i64) -> (c: Option<Rgba>)
        requires
            self.wf(),
        ensures
            c == (if self.in_bounds(x as int, y as int) {
                Some(self.at(x as int, y as int))
            } else {
                None
            }),
    {
        if 0 <= x && x < self.width as i64 && 0 <= y && y < self.height as i64 {
            proof {
                self.lemma_index(x as int, y as int);
            }
            proof {
                vstd::std_specs::vec::axiom_spec_len(&self.pixels);
            }
            let i = y as usize * self.width as usize + x as usize;
            Some(self.pixels[i])
        } else {
            None
        }
    }

    /// Overwrites the pixel at (`x`, `y`); every other pixel keeps its color.
    pub fn set_pixel(&mut self, x: i64, y: i64, c: Rgba)
        requires
            old(self).wf(),
            old(self).in_bounds(x as int, y as int),
        ensures
            final(self).wf(),
            final(self).spec_width() == old(self).spec_width(),
            final(self).spec_height() == old(self).spec_height(),
            final(self).at(x as int, y as int) == c,
            final(self).view_pixels() == old(self).view_pixels().update(
                old(self).index_of(x as int, y as int),
                c,
            ),
            forall|i: int, j: int|
                final(self).in_bounds(i, j) && !(i == x && j == y) ==> #[trigger] final(self).at(i, j)
                    == old(self).at(i, j),
    {
        proof {
            self.lemma_index(x as int, y as int);
        }
        proof {
            vstd::std_specs::vec::axiom_spec_len(&self.pixels);
        }
        let i = y as usize * self.width as usize + x as usize;
        self.pixels.set(i, c);
        proof {
            assert forall|i: int, j: int|
                self.in_bounds(i, j) && !(i == x && j == y) implies #[trigger] self.at(i, j)
                    == old(self).at(i, j) by {
                self.lemma_index(i, j);
                if self.index_of(i, j) == self.index_of(x as int, y as int) {
                    self.lemma_index_injective(i, j, x as int, y as int);
                }
            }
        }
    }
}

impl Image {
    /// The raw pixel bytes: four per pixel in RGBA order, row by row from the top.
    pub fn pixel_bytes(&self) -> (b: Vec<u8>)
        requires
            self.wf(),
            self.view_pixels().len() * 4 <= usize::MAX,
        ensures
            b@.len() == 4 * self.view_pixels().len(),
            forall|i: int|
                0 <= i < self.view_pixels().len() ==> #[trigger] b@.subrange(4 * i, 4 * i + 4)
                    == rgba_bytes(self.view_pixels()[i]),
    {
        let n = self.pixels.len();
        let mut b: Vec<u8> = Vec::with_capacity(n * BYTES_PER_PIXEL);
        let mut k: usize = 0;
        while k < n
            invariant
                n == self.pixels@.len(),
                k <= n,
                b@.len() == 4 * k,
                forall|i: int|
                    0 <= i < k ==> #[trigger] b@.subrange(4 * i, 4 * i + 4) == rgba_bytes(
                        self.pixels@[i],
                    ),
            decreases n - k,
        {
            let c = self.pixels[k];
            let ghost b0 = b@;
            b.push(c.r);
            b.push(c.g);
            b.push(c.b);
            b.push(c.a);
            proof {
                assert forall|i: int| 0 <= i < k + 1 implies #[trigger] b@.subrange(4 * i, 4 * i + 4)
                    == rgba_bytes(self.pixels@[i]) by {
                    if i < k {
                        assert(b@.subrange(4 * i, 4 * i + 4) =~= b0.subrange(4 * i, 4 * i + 4));
                    } else {
                        assert(b@.subrange(4 * i, 4 * i + 4) =~= rgba_bytes(c));
                    }
                }
            }
            k = k + 1;
        }
        b
    }

    /// A `width` by `height` image from raw RGBA bytes laid out as `pixel_bytes` gives
    /// them; `SizeMismatch` unless there are exactly four bytes per pixel.
    pub fn from_pixel_bytes(width: u32, height: u32, bytes: &Vec<u8>) -> (r: Result<Image, ImportError>)
        ensures
            r is Err <==> bytes@.len() != 4 * (width as int * height as int),
            r is Err ==> r == Err::<Image, ImportError>(ImportError::SizeMismatch),
            r is Ok ==> {
                let img = r->Ok_0;
                &&& img.wf()
                &&& img.spec_width() == width
                &&& img.spec_height() == height
                &&& forall|i: int|
                    0 <= i < img.view_pixels().len() ==> rgba_bytes(#[trigger] img.view_pixels()[i])
                        == bytes@.subrange(4 * i, 4 * i + 4)
            },
    {
        proof {
            assert(0 <= width as int * height as int <= 0xffff_ffff * 0xffff_ffff) by (nonlinear_arith)
                requires
                    0 <= width <= 0xffff_ffff,
                    0 <= height <= 0xffff_ffff,
            ;
        }
        let n: u64 = width as u64 * height as u64;
        let len = bytes.len();
        if n > (usize::MAX / 4) as u64 || len as u64 != n * 4 {
            proof {
                assert(len <= usize::MAX);
            }
            return Err(ImportError::SizeMismatch);
        }
        let n = n as usize;
        let mut pixels: Vec<Rgba> = Vec::with_capacity(n);
        let mut k: usize = 0;
        while k < n
            invariant
                k <= n,
                n <= usize::MAX / 4,
                bytes@.len() == 4 * n,
                pixels@.len() == k,
                forall|i: int|
                    0 <= i < k ==> rgba_bytes(#[trigger] pixels@[i]) == bytes@.subrange(4 * i, 4 * i + 4),
            decreases n - k,
        {
            let c = Rgba { r: bytes[4 * k], g: bytes[4 * k + 1], b: bytes[4 * k + 2], a: bytes[4 * k + 3] };
            proof {
                assert(rgba_bytes(c) =~= bytes@.subrange(4 * k, 4 * k + 4));
            }
            pixels.push(c);
            k = k + 1;
        }
        Ok(Image { width, height, pixels })
    }
}

} // verus!
