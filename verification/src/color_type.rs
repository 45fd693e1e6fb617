use vstd::prelude::*;

verus! {

/// An enumeration over supported color types and bit depths.
#[derive(Copy, PartialEq, Eq, Structural, Debug, Clone, Hash)]
#[non_exhaustive]
pub enum ColorType {
    /// Pixel is 8-bit luminance
    L8,
    /// Pixel is 8-bit luminance with an alpha channel
    La8,
    /// Pixel contains 8-bit R, G and B channels
    Rgb8,
    /// Pixel is 8-bit RGB with an alpha channel
    Rgba8,
    /// Pixel is 16-bit luminance
    L16,
    /// Pixel is 16-bit luminance with an alpha channel
    La16,
    /// Pixel is 16-bit RGB
    Rgb16,
    /// Pixel is 16-bit RGBA
    Rgba16,
    /// Pixel is 32-bit float RGB
    Rgb32F,
    /// Pixel is 32-bit float RGBA
    Rgba32F,
}

/// The number of bytes in one pixel of a color type.
pub open spec fn spec_bytes_per_pixel(c: ColorType) -> int {
    match c {
        ColorType::L8 => 1,
        ColorType::L16 => 2,
        ColorType::La8 => 2,
        ColorType::Rgb8 => 3,
        ColorType::Rgba8 => 4,
        ColorType::La16 => 4,
        ColorType::Rgb16 => 6,
        ColorType::Rgba16 => 8,
        ColorType::Rgb32F => 12,
        ColorType::Rgba32F => 16,
    }
}

impl ColorType {
    /// Returns the number of bytes contained in a pixel of this type.
    pub fn bytes_per_pixel(self) -> (r: u8)
        ensures
            r == spec_bytes_per_pixel(self),
    {
        match self {
            ColorType::L8 => 1,
            ColorType::L16 | ColorType::La8 => 2,
            ColorType::Rgb8 => 3,
            ColorType::Rgba8 | ColorType::La16 => 4,
            ColorType::Rgb16 => 6,
            ColorType::Rgba16 => 8,
            ColorType::Rgb32F => 3 * 4,
            ColorType::Rgba32F => 4 * 4,
        }
    }

    /// Returns if there is an alpha channel.
    pub fn has_alpha(self) -> (r: bool)
        ensures
            r == (self is La8 || self is Rgba8 || self is La16 || self is Rgba16
                || self is Rgba32F),
    {
        match self {
            ColorType::L8 | ColorType::L16 | ColorType::Rgb8 | ColorType::Rgb16
                | ColorType::Rgb32F => false,
            ColorType::La8 | ColorType::Rgba8 | ColorType::La16 | ColorType::Rgba16
                | ColorType::Rgba32F => true,
        }
    }

    /// Returns false if the color scheme is grayscale, true otherwise.
    pub fn has_color(self) -> (r: bool)
        ensures
            r == !(self is L8 || self is L16 || self is La8 || self is La16),
    {
        match self {
            ColorType::L8 | ColorType::L16 | ColorType::La8 | ColorType::La16 => false,
            ColorType::Rgb8 | ColorType::Rgb16 | ColorType::Rgba8 | ColorType::Rgba16
                | ColorType::Rgb32F | ColorType::Rgba32F => true,
        }
    }

    /// Returns the number of bits contained in a pixel of this type,
    /// which is always a multiple of 8.
    pub fn bits_per_pixel(self) -> (r: u16)
        ensures
            r == 8 * spec_bytes_per_pixel(self),
    {
        (self.bytes_per_pixel() as u16) * 8
    }

    /// Returns the number of color channels that make up this pixel.
    pub fn channel_count(self) -> (r: u8)
        ensures
            r == spec_channel_count(spec_extended_of(self)),
    {
        let e: ExtendedColorType = self.into_extended();
        e.channel_count()
    }

    /// The matching extended color type.
    pub fn into_extended(self) -> (r: ExtendedColorType)
        ensures
            r == spec_extended_of(self),
    {
        match self {
            ColorType::L8 => ExtendedColorType::L8,
            ColorType::La8 => ExtendedColorType::La8,
            ColorType::Rgb8 => ExtendedColorType::Rgb8,
            ColorType::Rgba8 => ExtendedColorType::Rgba8,
            ColorType::L16 => ExtendedColorType::L16,
            ColorType::La16 => ExtendedColorType::La16,
            ColorType::Rgb16 => ExtendedColorType::Rgb16,
            ColorType::Rgba16 => ExtendedColorType::Rgba16,
            ColorType::Rgb32F => ExtendedColorType::Rgb32F,
            ColorType::Rgba32F => ExtendedColorType::Rgba32F,
        }
    }
}

/// The extended color type that stands for a plain color type.
pub open spec fn spec_extended_of(c: ColorType) -> ExtendedColorType {
    match c {
        ColorType::L8 => ExtendedColorType::L8,
        ColorType::La8 => ExtendedColorType::La8,
        ColorType::Rgb8 => ExtendedColorType::Rgb8,
        ColorType::Rgba8 => ExtendedColorType::Rgba8,
        ColorType::L16 => ExtendedColorType::L16,
        ColorType::La16 => ExtendedColorType::La16,
        ColorType::Rgb16 => ExtendedColorType::Rgb16,
        ColorType::Rgba16 => ExtendedColorType::Rgba16,
        ColorType::Rgb32F => ExtendedColorType::Rgb32F,
        ColorType::Rgba32F => ExtendedColorType::Rgba32F,
    }
}

/// An enumeration of color types encountered in image formats, granular
/// enough to allow round tripping of decoding and encoding.
#[derive(Copy, PartialEq, Eq, Structural, Debug, Clone, Hash)]
#[non_exhaustive]
pub enum ExtendedColorType {
    A8,
    L1,
    La1,
    Rgb1,
    Rgba1,
    L2,
    La2,
    Rgb2,
    Rgba2,
    L4,
    La4,
    Rgb4,
    Rgba4,
    L8,
    La8,
    Rgb8,
    Rgba8,
    L16,
    La16,
    Rgb16,
    Rgba16,
    Bgr8,
    Bgra8,
    Rgb32F,
    Rgba32F,
    Cmyk8,
    /// Pixel is of unknown color type with the specified bits per pixel.
    Unknown(u8),
}

/// The number of channels in one pixel of an extended color type; an
/// unknown pixel counts as one opaque channel.
pub open spec fn spec_channel_count(e: ExtendedColorType) -> int {
    match e {
        ExtendedColorType::A8 => 1,
        ExtendedColorType::L1 => 1,
        ExtendedColorType::L2 => 1,
        ExtendedColorType::L4 => 1,
        ExtendedColorType::L8 => 1,
        ExtendedColorType::L16 => 1,
        ExtendedColorType::Unknown(_) => 1,
        ExtendedColorType::La1 => 2,
        ExtendedColorType::La2 => 2,
        ExtendedColorType::La4 => 2,
        ExtendedColorType::La8 => 2,
        ExtendedColorType::La16 => 2,
        ExtendedColorType::Rgb1 => 3,
        ExtendedColorType::Rgb2 => 3,
        ExtendedColorType::Rgb4 => 3,
        ExtendedColorType::Rgb8 => 3,
        ExtendedColorType::Rgb16 => 3,
        ExtendedColorType::Rgb32F => 3,
        ExtendedColorType::Bgr8 => 3,
        ExtendedColorType::Rgba1 => 4,
        ExtendedColorType::Rgba2 => 4,
        ExtendedColorType::Rgba4 => 4,
        ExtendedColorType::Rgba8 => 4,
        ExtendedColorType::Rgba16 => 4,
        ExtendedColorType::Rgba32F => 4,
        ExtendedColorType::Bgra8 => 4,
        ExtendedColorType::Cmyk8 => 4,
    }
}

/// The number of bits in one pixel of an extended color type.
pub open spec fn spec_ext_bits_per_pixel(e: ExtendedColorType) -> int {
    match e {
        ExtendedColorType::A8 => 8,
        ExtendedColorType::L1 => 1,
        ExtendedColorType::La1 => 2,
        ExtendedColorType::Rgb1 => 3,
        ExtendedColorType::Rgba1 => 4,
        ExtendedColorType::L2 => 2,
        ExtendedColorType::La2 => 4,
        ExtendedColorType::Rgb2 => 6,
        ExtendedColorType::Rgba2 => 8,
        ExtendedColorType::L4 => 4,
        ExtendedColorType::La4 => 8,
        ExtendedColorType::Rgb4 => 12,
        ExtendedColorType::Rgba4 => 16,
        ExtendedColorType::L8 => 8,
        ExtendedColorType::La8 => 16,
        ExtendedColorType::Rgb8 => 24,
        ExtendedColorType::Rgba8 => 32,
        ExtendedColorType::L16 => 16,
        ExtendedColorType::La16 => 32,
        ExtendedColorType::Rgb16 => 48,
        ExtendedColorType::Rgba16 => 64,
        ExtendedColorType::Rgb32F => 96,
        ExtendedColorType::Rgba32F => 128,
        ExtendedColorType::Bgr8 => 24,
        ExtendedColorType::Bgra8 => 32,
        ExtendedColorType::Cmyk8 => 32,
        ExtendedColorType::Unknown(bpp) => bpp as int,
    }
}

impl ExtendedColorType {
    /// Get the number of channels for colors of this type.
    pub fn channel_count(self) -> (r: u8)
        ensures
            r == spec_channel_count(self),
    {
        match self {
            ExtendedColorType::A8
            | ExtendedColorType::L1
            | ExtendedColorType::L2
            | ExtendedColorType::L4
            | ExtendedColorType::L8
            | ExtendedColorType::L16
            | ExtendedColorType::Unknown(_) => 1,
            ExtendedColorType::La1
            | ExtendedColorType::La2
            | ExtendedColorType::La4
            | ExtendedColorType::La8
            | ExtendedColorType::La16 => 2,
            ExtendedColorType::Rgb1
            | ExtendedColorType::Rgb2
            | ExtendedColorType::Rgb4
            | ExtendedColorType::Rgb8
            | ExtendedColorType::Rgb16
            | ExtendedColorType::Rgb32F
            | ExtendedColorType::Bgr8 => 3,
            ExtendedColorType::Rgba1
            | ExtendedColorType::Rgba2
            | ExtendedColorType::Rgba4
            | ExtendedColorType::Rgba8
            | ExtendedColorType::Rgba16
            | ExtendedColorType::Rgba32F
            | ExtendedColorType::Bgra8
            | ExtendedColorType::Cmyk8 => 4,
        }
    }

    /// Returns the number of bits per pixel for this color type.
    pub fn bits_per_pixel(&self) -> (r: u16)
        ensures
            r == spec_ext_bits_per_pixel(*self),
    {
        match *self {
            ExtendedColorType::A8 => 8,
            ExtendedColorType::L1 => 1,
            ExtendedColorType::La1 => 2,
            ExtendedColorType::Rgb1 => 3,
            ExtendedColorType::Rgba1 => 4,
            ExtendedColorType::L2 => 2,
            ExtendedColorType::La2 => 4,
            ExtendedColorType::Rgb2 => 6,
            ExtendedColorType::Rgba2 => 8,
            ExtendedColorType::L4 => 4,
            ExtendedColorType::La4 => 8,
            ExtendedColorType::Rgb4 => 12,
            ExtendedColorType::Rgba4 => 16,
            ExtendedColorType::L8 => 8,
            ExtendedColorType::La8 => 16,
            ExtendedColorType::Rgb8 => 24,
            ExtendedColorType::Rgba8 => 32,
            ExtendedColorType::L16 => 16,
            ExtendedColorType::La16 => 32,
            ExtendedColorType::Rgb16 => 48,
            ExtendedColorType::Rgba16 => 64,
            ExtendedColorType::Rgb32F => 96,
            ExtendedColorType::Rgba32F => 128,
            ExtendedColorType::Bgr8 => 24,
            ExtendedColorType::Bgra8 => 32,
            ExtendedColorType::Cmyk8 => 32,
            ExtendedColorType::Unknown(bpp) => bpp as u16,
        }
    }

    /// Returns the number of bytes required to hold a width x height
    /// image of this color type: the row pitch rounded up to whole bytes,
    /// times the height, saturating at the u64 range.
    pub fn buffer_size(self, width: u32, height: u32) -> (r: u64)
        ensures
            ({
                let row_pitch = ((width * spec_ext_bits_per_pixel(self)) + 7) / 8;
                r == if row_pitch * height <= u64::MAX {
                    row_pitch * height
                } else {
                    u64::MAX as int
                }
            }),
    {
        let bpp = self.bits_per_pixel() as u64;
        proof {
            assert(width as u64 * bpp + 7 <= 0xffffffffu64 * 255 + 7) by (nonlinear_arith)
                requires
                    width <= 0xffffffffu64,
                    bpp <= 255,
            ;
        }
        let row_pitch = (width as u64 * bpp + 7) / 8;
        match row_pitch.checked_mul(height as u64) {
            Some(v) => v,
            None => u64::MAX,
        }
    }
}

} // verus!
