use crate::version::Version;
use vstd::prelude::*;

verus! {

/// Describes how a segment's data bits are interpreted.
#[derive(Debug, Clone, Copy, PartialEq, Eq, Structural)]
pub enum SegmentMode {
    Numeric,
    Alphanumeric,
    Byte,
    Kanji,
    Eci,
}

/// The 4-bit mode indicator for a segment mode.
pub open spec fn spec_mode_bits(mode: SegmentMode) -> int {
    match mode {
        SegmentMode::Numeric => 0x1,
        SegmentMode::Alphanumeric => 0x2,
        SegmentMode::Byte => 0x4,
        SegmentMode::Kanji => 0x8,
        SegmentMode::Eci => 0x7,
    }
}

/// The version tier used by the character count field width:
/// 0 for versions 1-9, 1 for versions 10-26, 2 for versions 27-40.
pub open spec fn spec_version_tier(ver: int) -> int {
    (ver + 7) / 17
}

/// The bit width of the character count field for the given mode at the
/// given version tier.
pub open spec fn spec_char_count_bits(mode: SegmentMode, ver: int) -> int {
    let tier = spec_version_tier(ver);
    match mode {
        SegmentMode::Numeric => if tier == 0 { 10 } else if tier == 1 { 12 } else { 14 },
        SegmentMode::Alphanumeric => if tier == 0 { 9 } else if tier == 1 { 11 } else { 13 },
        SegmentMode::Byte => if tier == 0 { 8 } else { 16 },
        SegmentMode::Kanji => if tier == 0 { 8 } else if tier == 1 { 10 } else { 12 },
        SegmentMode::Eci => 0,
    }
}

impl SegmentMode {
    /// Returns an unsigned 4-bit integer value (range 0 to 15)
    /// representing the mode indicator bits for this mode object.
    pub fn mode_bits(&self) -> (r: u32)
        ensures
            r == spec_mode_bits(*self),
    {
        match self {
            SegmentMode::Numeric => 0x1,
            SegmentMode::Alphanumeric => 0x2,
            SegmentMode::Byte => 0x4,
            SegmentMode::Kanji => 0x8,
            SegmentMode::Eci => 0x7,
        }
    }

    /// Returns the bit width of the character count field for a segment in
    /// this mode in a QR Code at the given version number.
    /// The result is in the range [0, 16].
    pub fn num_char_count_bits(&self, ver: Version) -> (r: u8)
        requires
            ver.valid(),
        ensures
            r == spec_char_count_bits(*self, ver.spec_value()),
            r <= 16,
    {
        let tier = (ver.value() + 7) / 17;
        match self {
            SegmentMode::Numeric => if tier == 0 { 10 } else if tier == 1 { 12 } else { 14 },
            SegmentMode::Alphanumeric => if tier == 0 { 9 } else if tier == 1 { 11 } else { 13 },
            SegmentMode::Byte => if tier == 0 { 8 } else { 16 },
            SegmentMode::Kanji => if tier == 0 { 8 } else if tier == 1 { 10 } else { 12 },
            SegmentMode::Eci => 0,
        }
    }
}

} // verus!
