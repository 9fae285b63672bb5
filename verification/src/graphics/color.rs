use vstd::prelude::*;

verus! {

/// A 32-bit color: red, green, blue and alpha.
#[derive(Debug, Clone, Copy, PartialEq, Eq, Structural)]
pub struct ColorCode {
    pub r: u8,
    pub g: u8,
    pub b: u8,
    pub a: u8,
}

impl ColorCode {
    /// Transparent black.
    pub fn default() -> (res: Self)
        ensures
            res == (ColorCode { r: 0, g: 0, b: 0, a: 0 }),
    {
        ColorCode { r: 0, g: 0, b: 0, a: 0 }
    }

    pub fn new_rgb(r: u8, g: u8, b: u8) -> (res: Self)
        ensures
            res == (ColorCode { r, g, b, a: 0 }),
    {
        ColorCode { r, g, b, a: 0 }
    }

    pub fn new_rgba(r: u8, g: u8, b: u8, a: u8) -> (res: Self)
        ensures
            res == (ColorCode { r, g, b, a }),
    {
        ColorCode { r, g, b, a }
    }
}

/// The order of the color channels in a pixel of the frame buffer.
#[derive(Debug, Clone, Copy, PartialEq, Eq, Structural)]
pub enum PixelFormat {
    Rgb,
    Bgr,
    Bgra,
}

impl ColorCode {
    /// The color of a pixel stored in `data` in the given format.
    pub fn from_pixel_data(data: &[u8], pixel_format: PixelFormat) -> (res: Self)
        requires
            data@.len() >= 3,
            pixel_format == PixelFormat::Bgra ==> data@.len() >= 4,
        ensures
            res == (match pixel_format {
                PixelFormat::Bgr => ColorCode { r: data@[2], g: data@[1], b: data@[0], a: 0 },
                PixelFormat::Rgb => ColorCode { r: data@[0], g: data@[1], b: data@[2], a: 0 },
                PixelFormat::Bgra => ColorCode { r: data@[2], g: data@[1], b: data@[0], a: data@[3] },
            }),
    {
        match pixel_format {
            PixelFormat::Bgr => ColorCode { r: data[2], g: data[1], b: data[0], a: 0 },
            PixelFormat::Rgb => ColorCode { r: data[0], g: data[1], b: data[2], a: 0 },
            PixelFormat::Bgra => ColorCode { r: data[2], g: data[1], b: data[0], a: data[3] },
        }
    }

    /// The 32-bit pixel value of this color in the given format.
    pub fn to_color_code(&self, pixel_format: PixelFormat) -> (res: u32)
        ensures
            res == (match pixel_format {
                PixelFormat::Bgr => self.r as nat * 0x1_0000 + self.g as nat * 0x100 + self.b as nat,
                PixelFormat::Rgb => self.b as nat * 0x1_0000 + self.g as nat * 0x100 + self.r as nat,
                PixelFormat::Bgra => self.a as nat * 0x100_0000 + self.r as nat * 0x1_0000 + self.g as nat
                    * 0x100 + self.b as nat,
            }),
    {
        match pixel_format {
            PixelFormat::Bgr => (self.r as u32) * 0x1_0000 + (self.g as u32) * 0x100 + (self.b as u32),
            PixelFormat::Rgb => (self.b as u32) * 0x1_0000 + (self.g as u32) * 0x100 + (self.r as u32),
            PixelFormat::Bgra => (self.a as u32) * 0x100_0000 + (self.r as u32) * 0x1_0000 + (self.g as u32)
                * 0x100 + (self.b as u32),
        }
    }
}

/// A 24-bit color as stored in image color tables.
#[derive(Debug, Clone, Copy, PartialEq, Eq, Structural)]
pub struct RgbColorCode {
    pub r: u8,
    pub g: u8,
    pub b: u8,
}

impl RgbColorCode {
    pub fn new(r: u8, g: u8, b: u8) -> (res: Self)
        ensures
            res == (RgbColorCode { r, g, b }),
    {
        RgbColorCode { r, g, b }
    }
}

} // verus!
