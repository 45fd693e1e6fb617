use vstd::prelude::*;

verus! {

/// The image container formats the recoder can describe.
#[derive(Clone, Copy, Debug, PartialEq, Eq, Structural)]
pub enum Format {
    Avif,
    Bmp,
    Dds,
    Farbfeld,
    Gif,
    Hdr,
    Ico,
    Jpeg,
    OpenExr,
    Png,
    Pnm,
    Qoi,
    Tga,
    Tiff,
    WebP,
}

impl Format {
    /// The conventional file extension of the format.
    pub fn to_string(&self) -> (r: String)
        ensures
            *self is Png ==> r@ == "png"@,
            *self is WebP ==> r@ == "webp"@,
            *self is Jpeg ==> r@ == "jpeg"@,
            *self is Gif ==> r@ == "gif"@,
            *self is Avif ==> r@ == "avif"@,
            *self is Bmp ==> r@ == "bmp"@,
            *self is Dds ==> r@ == "dds"@,
            *self is Farbfeld ==> r@ == "ff"@,
            *self is Hdr ==> r@ == "hdr"@,
            *self is Ico ==> r@ == "ico"@,
            *self is OpenExr ==> r@ == "exr"@,
            *self is Pnm ==> r@ == "pnm"@,
            *self is Qoi ==> r@ == "qoi"@,
            *self is Tga ==> r@ == "tga"@,
            *self is Tiff ==> r@ == "tiff"@,
    {
        match self {
            Format::Avif => "avif".to_owned(),
            Format::Bmp => "bmp".to_owned(),
            Format::Dds => "dds".to_owned(),
            Format::Farbfeld => "ff".to_owned(),
            Format::Gif => "gif".to_owned(),
            Format::Hdr => "hdr".to_owned(),
            Format::Ico => "ico".to_owned(),
            Format::Jpeg => "jpeg".to_owned(),
            Format::OpenExr => "exr".to_owned(),
            Format::Png => "png".to_owned(),
            Format::Pnm => "pnm".to_owned(),
            Format::Qoi => "qoi".to_owned(),
            Format::Tga => "tga".to_owned(),
            Format::Tiff => "tiff".to_owned(),
            Format::WebP => "webp".to_owned(),
        }
    }
}

} // verus!
