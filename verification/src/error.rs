use vstd::prelude::*;

verus! {

/// The error type when the supplied data does not fit any QR Code version,
/// or when a numeric parameter lies outside its documented range.
///
/// Ways to handle a capacity failure include lowering the error correction
/// level, raising the maximum version, splitting the data, or shortening it.
#[derive(Debug, Clone, PartialEq, Eq, Structural)]
#[non_exhaustive]
pub enum QrError {
    /// A segment's character count does not fit the count field's bit width
    /// at any allowed version.
    SegmentTooLong,
    /// The required number of data bits and the available capacity in bits.
    DataOverCapacity(usize, usize),
    /// A version number outside the range [1, 40].
    InvalidVersion(u8),
    /// An error correction ordinal outside the range [0, 3].
    InvalidEcc(u8),
    /// A mask number outside the range [0, 7].
    InvalidMask(u8),
}

impl QrError {
    /// A short description of this error.
    pub fn message(&self) -> String {
        match self {
            QrError::SegmentTooLong => "Segment too long".to_owned(),
            QrError::DataOverCapacity(_, _) => "Data over capacity".to_owned(),
            QrError::InvalidVersion(_) => "Invalid version".to_owned(),
            QrError::InvalidEcc(_) => "Invalid error correction level".to_owned(),
            QrError::InvalidMask(_) => "Invalid mask".to_owned(),
        }
    }
}

} // verus!
