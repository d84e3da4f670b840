//! Static presentation configuration for the framebuffer: the logical
//! CHIP-8 grid size, the window size, and the byte encoding of an "on"
//! and an "off" pixel. The embedding layer chooses the concrete colors
//! (it owns the pixel format); the core only needs the two byte patterns
//! to differ so that pixel state can be read back from the buffer.

use vstd::prelude::*;

verus! {

/// The logical CHIP-8 framebuffer is canonically 64 pixels wide.
pub const SCREEN_WIDTH: usize = 64;

/// The logical CHIP-8 framebuffer is canonically 32 pixels tall.
pub const SCREEN_HEIGHT: usize = 32;

/// Lateral margin, in unscaled pixels, left around text panels.
pub const MARGIN: usize = 16;

/// Each logical pixel is stored as 32 bits of color data.
pub const BYTES_PER_PIXEL: usize = 4;

#[derive(Debug, Clone, Copy, PartialEq, Eq, Structural)]
pub struct Dimensions {
    pub width: usize,
    pub height: usize,
}

impl Dimensions {
    pub fn new(width: usize, height: usize) -> (d: Self)
        ensures
            d == (Dimensions { width, height }),
    {
        Self { width, height }
    }
}

pub struct ScreenConfig {
    pub window_dimensions: Dimensions,
    pub screen_dimensions: Dimensions,
    pub bytes_per_pixel: usize,
    pub on_color: Vec<u8>,
    pub off_color: Vec<u8>,
}

impl ScreenConfig {
    pub open spec fn wf(&self) -> bool {
        &&& self.screen_dimensions.width >= 1
        &&& self.screen_dimensions.height >= 1
        &&& self.bytes_per_pixel >= 1
        &&& self.on_color@.len() == self.bytes_per_pixel
        &&& self.off_color@.len() == self.bytes_per_pixel
        &&& self.on_color@ != self.off_color@
        &&& self.screen_dimensions.width * self.screen_dimensions.height
            * self.bytes_per_pixel <= usize::MAX
    }

    /// A configuration for the canonical 64x32 grid at 4 bytes per pixel.
    pub fn new(window_dimensions: Dimensions, on_color: Vec<u8>, off_color: Vec<u8>) -> (c: Self)
        requires
            on_color@.len() == BYTES_PER_PIXEL,
            off_color@.len() == BYTES_PER_PIXEL,
            on_color@ != off_color@,
        ensures
            c.wf(),
            c.window_dimensions == window_dimensions,
            c.screen_dimensions == (Dimensions { width: SCREEN_WIDTH, height: SCREEN_HEIGHT }),
            c.bytes_per_pixel == BYTES_PER_PIXEL,
            c.on_color@ == on_color@,
            c.off_color@ == off_color@,
    {
        ScreenConfig {
            window_dimensions,
            screen_dimensions: Dimensions::new(SCREEN_WIDTH, SCREEN_HEIGHT),
            bytes_per_pixel: BYTES_PER_PIXEL,
            on_color,
            off_color,
        }
    }

    /// Bytes per framebuffer row, as handed to the presentation layer.
    pub fn pitch(&self) -> (p: usize)
        requires
            self.wf(),
        ensures
            p == self.screen_dimensions.width * self.bytes_per_pixel,
    {
        proof {
            let w = self.screen_dimensions.width as int;
            let h = self.screen_dimensions.height as int;
            let b = self.bytes_per_pixel as int;
            assert(w * b <= w * h * b) by (nonlinear_arith)
                requires
                    h >= 1,
                    w >= 0,
                    b >= 0,
            ;
        }
        self.screen_dimensions.width * self.bytes_per_pixel
    }

    /// A copy of the byte pattern of an "off" pixel.
    pub fn off_color_u8(&self) -> (r: Vec<u8>)
        ensures
            r@ == self.off_color@,
    {
        copy_bytes(&self.off_color)
    }

    /// A copy of the byte pattern of an "on" pixel.
    pub fn on_color_u8(&self) -> (r: Vec<u8>)
        ensures
            r@ == self.on_color@,
    {
        copy_bytes(&self.on_color)
    }

    pub fn margin(&self) -> (m: usize)
        ensures
            m == MARGIN,
    {
        MARGIN
    }
}

fn copy_bytes(src: &Vec<u8>) -> (r: Vec<u8>)
    ensures
        r@ == src@,
{
    let mut r: Vec<u8> = Vec::new();
    let mut i: usize = 0;
    while i < src.len()
        invariant
            i <= src@.len(),
            r@ == src@.take(i as int),
        decreases src@.len() - i,
    {
        r.push(src[i]);
        i = i + 1;
        proof {
            assert(r@ =~= src@.take(i as int));
        }
    }
    proof {
        assert(src@.take(src@.len() as int) =~= src@);
    }
    r
}

} // verus!
