use vstd::prelude::*;

verus! {

/// The error correction level in a QR Code symbol.
#[derive(Clone, Copy, PartialEq, Eq, Structural, Debug)]
pub enum CodeEcc {
    /// The QR Code can tolerate about  7% erroneous codewords.
    Low,
    /// The QR Code can tolerate about 15% erroneous codewords.
    Medium,
    /// The QR Code can tolerate about 25% erroneous codewords.
    Quartile,
    /// The QR Code can tolerate about 30% erroneous codewords.
    High,
}

/// The table-row index of an error correction level, in the range [0, 3].
pub open spec fn spec_ordinal(ecl: CodeEcc) -> int {
    match ecl {
        CodeEcc::Low => 0,
        CodeEcc::Medium => 1,
        CodeEcc::Quartile => 2,
        CodeEcc::High => 3,
    }
}

/// The 2-bit code that represents an error correction level inside the
/// format information. Distinct from the ordinal by design of the standard.
pub open spec fn spec_format_bits(ecl: CodeEcc) -> int {
    match ecl {
        CodeEcc::Low => 1,
        CodeEcc::Medium => 0,
        CodeEcc::Quartile => 3,
        CodeEcc::High => 2,
    }
}

impl CodeEcc {
    /// Returns an unsigned 2-bit integer (in the range 0 to 3),
    /// used as a table row index.
    pub fn ordinal(self) -> (r: usize)
        ensures
            r == spec_ordinal(self),
    {
        match self {
            CodeEcc::Low => 0,
            CodeEcc::Medium => 1,
            CodeEcc::Quartile => 2,
            CodeEcc::High => 3,
        }
    }

    /// Returns an unsigned 2-bit integer (in the range 0 to 3),
    /// used inside the format information.
    pub fn format_bits(self) -> (r: u8)
        ensures
            r == spec_format_bits(self),
    {
        match self {
            CodeEcc::Low => 1,
            CodeEcc::Medium => 0,
            CodeEcc::Quartile => 3,
            CodeEcc::High => 2,
        }
    }
}

} // verus!
