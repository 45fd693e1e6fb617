use crate::error::QrError;
use vstd::prelude::*;

verus! {

/// A number between 0 and 7 (inclusive), selecting one of the eight
/// fixed mask predicates.
#[derive(Copy, Clone, PartialEq, Eq, Structural, Debug)]
pub struct Mask(u8);

impl Mask {
    /// The value as a spec-level integer.
    pub closed spec fn spec_value(self) -> int {
        self.0 as int
    }

    /// True when this mask number lies in the range [0, 7].
    pub open spec fn valid(self) -> bool {
        0 <= self.spec_value() <= 7
    }

    /// Creates a mask object from the given number,
    /// which must be in the range [0, 7].
    pub fn new(mask: u8) -> (r: Self)
        requires
            mask <= 7,
        ensures
            r.spec_value() == mask,
    {
        Mask(mask)
    }

    /// Creates a mask object from the given number, or reports the
    /// number when it lies outside the range [0, 7].
    pub fn try_new(mask: u8) -> (r: Result<Self, QrError>)
        ensures
            mask <= 7 <==> r is Ok,
            r is Ok ==> r->Ok_0.spec_value() == mask,
            mask > 7 ==> r == Err::<Self, QrError>(QrError::InvalidMask(mask)),
    {
        if mask <= 7 {
            Ok(Mask(mask))
        } else {
            Err(QrError::InvalidMask(mask))
        }
    }

    /// Returns the value, which is in the range [0, 7].
    pub fn value(self) -> (r: u8)
        ensures
            r == self.spec_value(),
    {
        self.0
    }
}

} // verus!
