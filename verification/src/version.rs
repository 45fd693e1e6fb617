use crate::error::QrError;
use vstd::prelude::*;

verus! {

/// A number between 1 and 40 (inclusive).
#[derive(Copy, Clone, PartialEq, Eq, Structural, Debug)]
pub struct Version(u8);

impl Version {
    /// The value as a spec-level integer.
    pub closed spec fn spec_value(self) -> int {
        self.0 as int
    }

    /// True when this version lies in the standard's range [1, 40].
    pub open spec fn valid(self) -> bool {
        1 <= self.spec_value() <= 40
    }

    /// The minimum version number supported in the QR Code Model 2 standard.
    pub fn min() -> (r: Self)
        ensures
            r.spec_value() == 1,
    {
        Version(1)
    }

    /// The maximum version number supported in the QR Code Model 2 standard.
    pub fn max() -> (r: Self)
        ensures
            r.spec_value() == 40,
    {
        Version(40)
    }

    /// Creates a version object from the given number,
    /// which must be in the range [1, 40].
    pub fn new(ver: u8) -> (r: Self)
        requires
            1 <= ver <= 40,
        ensures
            r.spec_value() == ver,
    {
        Version(ver)
    }

    /// Creates a version object from the given number, or reports the
    /// number when it lies outside the range [1, 40].
    pub fn try_new(ver: u8) -> (r: Result<Self, QrError>)
        ensures
            1 <= ver <= 40 <==> r is Ok,
            r is Ok ==> r->Ok_0.spec_value() == ver,
            !(1 <= ver <= 40) ==> r == Err::<Self, QrError>(QrError::InvalidVersion(ver)),
    {
        if 1 <= ver && ver <= 40 {
            Ok(Version(ver))
        } else {
            Err(QrError::InvalidVersion(ver))
        }
    }

    /// Returns the value, which is in the range [1, 40].
    pub fn value(self) -> (r: u8)
        ensures
            r == self.spec_value(),
    {
        self.0
    }
}

} // verus!
