use vstd::prelude::*;

use crate::error::MyError;

verus! {

/// The fixed geometry of every frame a pipeline processes: image dimensions
/// and the byte width of one pixel element. Every buffer and texture the
/// engine allocates derives its size from `width * height * element_size`.
#[derive(Clone, Copy, Debug, PartialEq, Eq, Structural)]
pub struct ImageDescriptor {
    pub width: u32,
    pub height: u32,
    pub element_size: u32,
}

impl ImageDescriptor {
    /// Both dimensions and the element size are positive, and the total byte
    /// size fits the 32-bit sizes the device API takes.
    pub open spec fn wf(self) -> bool {
        &&& 0 < self.width
        &&& 0 < self.height
        &&& 0 < self.element_size
        &&& self.width * self.height * self.element_size <= u32::MAX
    }

    pub open spec fn spec_pixel_count(self) -> int {
        self.width * self.height
    }

    pub open spec fn spec_byte_size(self) -> int {
        self.width * self.height * self.element_size
    }

    /// Validates the construction parameters host-side; violated inputs fail
    /// fast with `InvalidImageData` before any device work would be issued.
    pub fn new(width: u32, height: u32, element_size: u32) -> (r: Result<ImageDescriptor, MyError>)
        ensures
            match r {
                Ok(d) => {
                    &&& d == (ImageDescriptor { width, height, element_size })
                    &&& d.wf()
                },
                Err(e) => {
                    &&& e == MyError::InvalidImageData
                    &&& !(ImageDescriptor { width, height, element_size }).wf()
                },
            },
    {
        if width == 0 || height == 0 || element_size == 0 {
            return Err(MyError::InvalidImageData);
        }
        proof {
            assert((width as int) * (height as int) <= (u32::MAX as int) * (u32::MAX as int))
                by (nonlinear_arith)
                requires
                    width <= u32::MAX && height <= u32::MAX,
            ;
        }
        let pixels: u64 = (width as u64) * (height as u64);
        if pixels > u32::MAX as u64 {
            proof {
                assert(u32::MAX < (width as int) * (height as int) * (element_size as int))
                    by (nonlinear_arith)
                    requires
                        u32::MAX < (width as int) * (height as int) && 0 < element_size,
                ;
            }
            return Err(MyError::InvalidImageData);
        }
        proof {
            assert(pixels * (element_size as int) <= (u32::MAX as int) * (u32::MAX as int))
                by (nonlinear_arith)
                requires
                    pixels <= u32::MAX && element_size <= u32::MAX,
            ;
        }
        let total: u64 = pixels * (element_size as u64);
        if total > u32::MAX as u64 {
            return Err(MyError::InvalidImageData);
        }
        Ok(ImageDescriptor { width, height, element_size })
    }

    /// The number of pixels in one frame.
    pub fn pixel_count(&self) -> (n: u32)
        requires
            self.wf(),
        ensures
            n == self.spec_pixel_count(),
    {
        proof {
            lemma_pixel_count_bounded(*self);
        }
        self.width * self.height
    }

    /// The byte size of one frame's worth of pixel data.
    pub fn byte_size(&self) -> (n: u32)
        requires
            self.wf(),
        ensures
            n == self.spec_byte_size(),
    {
        proof {
            lemma_pixel_count_bounded(*self);
        }
        (self.width * self.height) * self.element_size
    }
}

/// For a well-formed descriptor the pixel count already fits in `u32`,
/// since the byte size does and the element size is at least one.
pub proof fn lemma_pixel_count_bounded(d: ImageDescriptor)
    requires
        d.wf(),
    ensures
        d.spec_pixel_count() <= d.spec_byte_size(),
        d.spec_byte_size() <= u32::MAX,
{
    assert(d.width * d.height <= d.width * d.height * d.element_size) by (nonlinear_arith)
        requires
            0 < d.width && 0 < d.height && 0 < d.element_size,
    ;
}

/// Division rounding up: the number of fixed-size tiles needed to cover
/// `extent` items, so that the last partial tile still covers the remainder.
pub fn ceil_div(extent: u32, tile: u32) -> (r: u32)
    requires
        0 < tile,
    ensures
        r == spec_ceil_div(extent as int, tile as int),
        extent <= r * tile,
        r * tile < extent + tile,
{
    let q: u32 = extent / tile;
    let rem: u32 = extent % tile;
    proof {
        lemma_ceil_div_properties(extent as int, tile as int);
        vstd::arithmetic::div_mod::lemma_fundamental_div_mod(extent as int, tile as int);
        assert(q * tile + rem == extent) by (nonlinear_arith)
            requires
                0 < tile
                    && q == extent as int / tile as int
                    && rem == extent as int % tile as int
                    && extent == tile as int * (extent as int / tile as int) + extent as int
                    % tile as int,
        ;
    }
    if rem == 0 {
        q
    } else {
        proof {
            assert(q < extent) by (nonlinear_arith)
                requires
                    0 < tile && 0 < rem && q * tile + rem == extent,
            ;
        }
        q + 1
    }
}

pub open spec fn spec_ceil_div(extent: int, tile: int) -> int
    recommends
        0 < tile,
{
    if extent % tile == 0 {
        extent / tile
    } else {
        extent / tile + 1
    }
}

/// Rounding up covers the extent, and never overshoots by a full tile.
pub proof fn lemma_ceil_div_properties(extent: int, tile: int)
    requires
        0 <= extent,
        0 < tile,
    ensures
        extent <= spec_ceil_div(extent, tile) * tile,
        spec_ceil_div(extent, tile) * tile < extent + tile,
        0 <= spec_ceil_div(extent, tile),
{
    let q = extent / tile;
    let rem = extent % tile;
    vstd::arithmetic::div_mod::lemma_fundamental_div_mod(extent, tile);
    vstd::arithmetic::div_mod::lemma_mod_division_less_than_divisor(extent, tile);
    vstd::arithmetic::div_mod::lemma_div_pos_is_pos(extent, tile);
    assert(extent == tile * q + rem);
    if rem == 0 {
        assert(spec_ceil_div(extent, tile) * tile == q * tile);
        assert(q * tile == tile * q) by (nonlinear_arith);
    } else {
        assert(spec_ceil_div(extent, tile) * tile == (q + 1) * tile);
        assert((q + 1) * tile == tile * q + tile) by (nonlinear_arith);
    }
}

} // verus!
