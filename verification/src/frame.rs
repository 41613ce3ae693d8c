//! Frame buffers handed across the embedding bridge.

use vstd::prelude::*;

verus! {

/// A frame of RGBA8 pixels in the copy path.
#[derive(Debug, PartialEq)]
pub struct ExternalFrame {
    /// Pixel buffer, four bytes per pixel.
    pub pixels: Vec<u8>,
    /// Width and height in pixels.
    pub size: (u32, u32),
    /// Bytes per row.
    pub stride: u32,
}

impl ExternalFrame {
    /// A zeroed frame of the given size. The stride saturates at
    /// `u32::MAX` bytes; the buffer holds `stride * height` bytes
    /// whenever that product fits a `usize`.
    pub fn new(size: (u32, u32)) -> (r: ExternalFrame)
        ensures
            r.size == size,
            4 * (size.0 as nat) <= u32::MAX ==> r.stride == 4 * size.0,
            4 * (size.0 as nat) > u32::MAX ==> r.stride == u32::MAX,
            (r.stride as nat) * (size.1 as nat) <= usize::MAX ==> r.pixels@.len() == (
            r.stride as nat) * (size.1 as nat),
            forall|i: int| 0 <= i < r.pixels@.len() ==> r.pixels@[i] == 0,
    {
        let (w, h) = size;
        let stride: u32 = match w.checked_mul(4) {
            Some(v) => v,
            None => u32::MAX,
        };
        proof {
            assert((stride as nat) * (h as nat) < 0x1_0000_0000_0000_0000) by (nonlinear_arith)
                requires
                    stride <= 0xffff_ffff,
                    h <= 0xffff_ffff,
            ;
        }
        let len64: u64 = (stride as u64) * (h as u64);
        #[verifier::truncate]
        let len: usize = len64 as usize;
        let pixels = vec![0u8; len];
        ExternalFrame { pixels, size, stride }
    }
}

} // verus!
