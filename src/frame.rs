use vstd::prelude::*;

verus! {

/// Pixel layouts the color camera can deliver.
#[derive(Clone, Copy, Debug, PartialEq, Eq, Structural)]
pub enum ColorImageFormat {
    Unspecified,
    Rgba,
    Yuv,
    Bgra,
    Bayer,
    Yuy2,
}

/// A color image as the capture side hands it over.
pub struct ColorFrame {
    pub width: u32,
    pub height: u32,
    pub image_format: ColorImageFormat,
    pub data: Vec<u8>,
}

/// An infrared image: one 16-bit intensity per pixel, row by row.
pub struct InfraredFrame {
    pub width: u32,
    pub height: u32,
    pub data: Vec<u16>,
}

/// A chunk of audio: little-endian 32-bit float samples, mono.
pub struct AudioFrame {
    pub data: Vec<u8>,
}

/// One captured item of any of the three modalities.
pub enum RawFrame {
    Color(ColorFrame),
    Infrared(InfraredFrame),
    Audio(AudioFrame),
}

} // verus!
