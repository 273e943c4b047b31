use vstd::prelude::*;

use crate::frame::{ColorFrame, ColorImageFormat};

verus! {

/// What the color publisher does with a frame.
#[derive(Clone, Copy, Debug, PartialEq, Eq, Structural)]
pub enum ColorFrameCheck {
    /// No pixel data: skip it.
    Empty,
    /// Packed 4:2:2 of the stated size: forward it as it is.
    Forward,
    /// The frame breaks what the capture side guarantees; fatal.
    Mismatch,
}

/// Bytes of a packed 4:2:2 image: two per pixel.
pub open spec fn yuy2_len(width: u32, height: u32) -> int {
    2 * ((width as int) * (height as int))
}

/// Sorts a captured color frame: empty frames are skipped, packed 4:2:2
/// frames whose length matches their dimensions are forwarded, and anything
/// else is a mismatch.
pub fn check_color_frame(frame: &ColorFrame) -> (r: ColorFrameCheck)
    ensures
        frame.data@.len() == 0 ==> r == ColorFrameCheck::Empty,
        frame.data@.len() > 0 ==> (r == ColorFrameCheck::Forward <==> (frame.image_format
            == ColorImageFormat::Yuy2 && frame.data@.len() == yuy2_len(frame.width, frame.height))),
        frame.data@.len() > 0 ==> r != ColorFrameCheck::Empty,
{
    let n = frame.data.len();
    if n == 0 {
        return ColorFrameCheck::Empty;
    }
    if frame.image_format != ColorImageFormat::Yuy2 {
        return ColorFrameCheck::Mismatch;
    }
    proof {
        assert((frame.width as int) * (frame.height as int) <= 0xffff_ffff * 0xffff_ffff) by (
        nonlinear_arith)
            requires
                frame.width <= 0xffff_ffff,
                frame.height <= 0xffff_ffff,
        ;
    }
    let expected: u128 = 2 * ((frame.width as u128) * (frame.height as u128));
    if n as u128 == expected {
        ColorFrameCheck::Forward
    } else {
        ColorFrameCheck::Mismatch
    }
}

} // verus!
