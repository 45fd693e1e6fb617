use crate::color_type::ColorType;
use crate::format::Format;
use vstd::prelude::*;

verus! {

/// Why an image could not be recoded.
#[derive(Clone, Debug, PartialEq)]
pub enum Error {
    LoadError,
    ImageError(String),
    UnsupportedFormat,
}

impl Error {
    /// A short description of this error.
    pub fn message(&self) -> String {
        match self {
            Error::LoadError => "load error".to_owned(),
            Error::ImageError(_) => "image error".to_owned(),
            Error::UnsupportedFormat => "unsupported format".to_owned(),
        }
    }
}

/// The descriptive header of an image: its format and dimensions.
#[derive(Clone, Copy, Debug, PartialEq, Eq, Structural)]
pub struct Meta {
    pub format: Format,
    pub width: u32,
    pub height: u32,
}

impl Meta {
    /// Bundles a format with image dimensions.
    pub fn new(format: Format, width: u32, height: u32) -> (r: Self)
        ensures
            r == (Meta { format, width, height }),
    {
        Meta { format, width, height }
    }
}

/// The result of one recoding step: the source and destination formats,
/// the dimensions, and the encoded bytes.
#[derive(Clone, Debug, PartialEq)]
pub struct Outcome {
    pub src: Format,
    pub dest: Format,
    pub width: u32,
    pub height: u32,
    pub data: Vec<u8>,
}

impl Outcome {
    /// Bundles the parts of a recoding result.
    pub fn new(src: Format, dest: Format, width: u32, height: u32, data: Vec<u8>) -> (r: Self)
        ensures
            r.src == src,
            r.dest == dest,
            r.width == width,
            r.height == height,
            r.data == data,
    {
        Outcome { src, dest, width, height, data }
    }
}

/// A decoded image held as raw samples, ready to be encoded into another
/// container format. Decoding itself happens outside this crate; the
/// decoded header and samples are handed in as plain values.
#[derive(Clone, Debug)]
pub struct Recoder {
    format: Format,
    width: u32,
    height: u32,
    color: ColorType,
    data: Vec<u8>,
}

impl Recoder {
    /// The sniffed container format, as a specification value.
    pub closed spec fn spec_format(self) -> Format {
        self.format
    }

    /// The width in pixels, as a specification value.
    pub closed spec fn spec_width(self) -> u32 {
        self.width
    }

    /// The height in pixels, as a specification value.
    pub closed spec fn spec_height(self) -> u32 {
        self.height
    }

    /// The sample layout, as a specification value.
    pub closed spec fn spec_color(self) -> ColorType {
        self.color
    }

    /// The raw samples, as a specification value.
    pub closed spec fn spec_data(self) -> Seq<u8> {
        self.data@
    }

    /// A recoder over an already decoded image: its sniffed container
    /// format, its dimensions, its sample layout, and its raw samples.
    pub fn from_parts(format: Format, width: u32, height: u32, color: ColorType, data: Vec<u8>)
        -> (r: Self)
        ensures
            r.spec_format() == format,
            r.spec_width() == width,
            r.spec_height() == height,
            r.spec_color() == color,
            r.spec_data() == data@,
    {
        Recoder { format, width, height, color, data }
    }

    /// The sniffed container format of the source image.
    pub fn format(&self) -> (r: Format)
        ensures
            r == self.spec_format(),
    {
        self.format
    }

    /// The width of the image in pixels.
    pub fn width(&self) -> (r: u32)
        ensures
            r == self.spec_width(),
    {
        self.width
    }

    /// The height of the image in pixels.
    pub fn height(&self) -> (r: u32)
        ensures
            r == self.spec_height(),
    {
        self.height
    }

    /// The sample layout of the raw data.
    pub fn color(&self) -> (r: ColorType)
        ensures
            r == self.spec_color(),
    {
        self.color
    }

    /// The raw samples of the decoded image.
    pub fn data(&self) -> (r: &Vec<u8>)
        ensures
            r@ == self.spec_data(),
    {
        &self.data
    }

    /// Wraps freshly encoded bytes together with this image's header into
    /// a recoding outcome.
    pub fn to_outcome(&self, new_format: Format, new_data: Vec<u8>) -> (r: Outcome)
        ensures
            r.src == self.spec_format(),
            r.dest == new_format,
            r.width == self.spec_width(),
            r.height == self.spec_height(),
            r.data == new_data,
    {
        Outcome {
            src: self.format,
            width: self.width,
            height: self.height,
            dest: new_format,
            data: new_data,
        }
    }
}

} // verus!
