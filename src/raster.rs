use vstd::prelude::*;

verus! {

/// The mathematical content of a raster: its dimensions and its bytes,
/// four per pixel (red, green, blue, alpha), row by row from the top.
pub struct RasterView {
    pub width: u32,
    pub height: u32,
    pub pixels: Seq<u8>,
}

/// Number of bytes a `width` by `height` raster occupies.
pub open spec fn byte_len(width: u32, height: u32) -> int {
    4 * (width as int * height as int)
}

impl RasterView {
    /// The single structural invariant: exactly four bytes per pixel.
    pub open spec fn wf(self) -> bool {
        self.pixels.len() == byte_len(self.width, self.height)
    }

    /// The four bytes of the pixel at column `x`, row `y`.
    pub open spec fn pixel_at(self, x: int, y: int) -> Seq<u8> {
        let i = 4 * (y * self.width + x);
        self.pixels.subrange(i, i + 4)
    }
}

/// An RGBA raster held in memory.
#[derive(Clone, Debug, PartialEq, Eq)]
pub struct Raster {
    pub width: u32,
    pub height: u32,
    pub buffer: Vec<u8>,
}

impl View for Raster {
    type V = RasterView;

    open spec fn view(&self) -> RasterView {
        RasterView { width: self.width, height: self.height, pixels: self.buffer@ }
    }
}

impl Raster {
    pub open spec fn wf(&self) -> bool {
        self@.wf()
    }

    /// Builds a raster from interleaved RGBA bytes, or `None` when the buffer
    /// does not hold exactly four bytes for each of `width * height` pixels.
    pub fn from_rgba(width: u32, height: u32, buffer: Vec<u8>) -> (r: Option<Raster>)
        ensures
            match r {
                Some(img) => img@ == (RasterView { width, height, pixels: buffer@ }),
                None => buffer@.len() != byte_len(width, height),
            },
            r is Some <==> buffer@.len() == byte_len(width, height),
    {
        proof {
            assert(width as int * height as int <= u32::MAX as int * u32::MAX as int)
                by (nonlinear_arith)
                requires width <= u32::MAX, height <= u32::MAX;
        }
        let count: u64 = width as u64 * height as u64;
        let len: u64 = buffer.len() as u64;
        if len % 4 == 0 && len / 4 == count {
            Some(Raster { width, height, buffer })
        } else {
            None
        }
    }

    /// The empty raster: no columns, no rows, no bytes.
    pub fn empty() -> (r: Raster)
        ensures
            r@ == (RasterView { width: 0, height: 0, pixels: Seq::<u8>::empty() }),
            r.wf(),
    {
        Raster { width: 0, height: 0, buffer: Vec::new() }
    }

    /// The red, green, blue and alpha bytes of the pixel at column `x`, row `y`,
    /// or `None` outside the raster.
    pub fn pixel(&self, x: u32, y: u32) -> (r: Option<(u8, u8, u8, u8)>)
        requires
            self.wf(),
        ensures
            r is Some <==> x < self.width && y < self.height,
            match r {
                Some(p) => seq![p.0, p.1, p.2, p.3] == self@.pixel_at(x as int, y as int),
                None => true,
            },
    {
        if x >= self.width || y >= self.height {
            return None;
        }
        let w = self.width as u64;
        proof {
            assert(y as int * w + x < w * self.height as int) by (nonlinear_arith)
                requires y < self.height, x < w;
            assert(y as int * w <= w * self.height as int) by (nonlinear_arith)
                requires y < self.height;
            assert(w * self.height as int <= u32::MAX as int * u32::MAX as int) by (nonlinear_arith)
                requires w <= u32::MAX, self.height <= u32::MAX;
        }
        let k: u64 = y as u64 * w + x as u64;
        let len: usize = self.buffer.len();
        assert(4 * k + 3 < len);
        let i: usize = k as usize * 4;
        let p = (self.buffer[i], self.buffer[i + 1], self.buffer[i + 2], self.buffer[i + 3]);
        proof {
            let s = seq![p.0, p.1, p.2, p.3];
            assert(i as int == 4 * (y as int * self.width as int + x as int));
            assert(s =~= self@.pixel_at(x as int, y as int));
        }
        Some(p)
    }
}

} // verus!
