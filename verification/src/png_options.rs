use crate::code_ecc::CodeEcc;
use crate::error::QrError;
use crate::mask::Mask;
use crate::qr_code::{
    lemma_alnum_bits_len, lemma_byte_bits_len, lemma_numeric_bits_len, lemma_singleton_fits,
    spec_fits, spec_text_fits, QrCode,
};
use crate::segment::Segment;
use crate::version::Version;
use vstd::prelude::*;
use vstd::string::StringSliceAdditionalSpecFns;

verus! {

/// What went wrong with a rendering payload before any encoding started.
#[derive(Debug, Clone, PartialEq)]
pub enum ErrorPayload {
    PayloadTooLarge { size: usize, max: usize },
    InvalidDimensions { width: u32, height: u32 },
    InvalidPayload,
    MissingMetadata,
    VerificationFailed(String),
}

/// The foreground and background colors a rendered symbol should use.
#[derive(Debug, Clone, PartialEq, Eq, Structural)]
pub enum ColorTemplate {
    BlackOnWhite,
    BlackOnTransparant,
    WhiteOnTransparant,
    CustomGrayOnTransparant { gray: u8, alpha: u8 },
}

impl Default for ColorTemplate {
    /// Black modules on a white background.
    fn default() -> (r: Self)
        ensures
            r is BlackOnWhite,
    {
        ColorTemplate::BlackOnWhite
    }
}

/// A requested symbol version, before validation against the standard's
/// range.
#[derive(Debug, Clone, Copy, PartialEq, Eq, Structural)]
pub struct DensityVersion(pub u8);

impl DensityVersion {
    /// Wraps a requested version number without validating it.
    pub fn new(value: u8) -> (r: Self)
        ensures
            r.0 == value,
    {
        DensityVersion(value)
    }

    /// The validated symbol version, or the offending number.
    pub fn to_version(self) -> (r: Result<Version, QrError>)
        ensures
            1 <= self.0 <= 40 <==> r is Ok,
            r is Ok ==> r->Ok_0.spec_value() == self.0,
            !(1 <= self.0 <= 40) ==> r == Err::<Version, QrError>(
                QrError::InvalidVersion(self.0),
            ),
    {
        Version::try_new(self.0)
    }
}

impl Default for DensityVersion {
    /// The smallest symbol version.
    fn default() -> (r: Self)
        ensures
            r.0 == 1,
    {
        DensityVersion(1)
    }
}

/// The requested redundancy tier of a rendered symbol.
#[derive(Debug, Clone, Copy, PartialEq, Eq, Structural)]
pub enum ErrorCorrection {
    /// The QR Code can tolerate about  7% erroneous codewords.
    Low,
    /// The QR Code can tolerate about 15% erroneous codewords.
    Medium,
    /// The QR Code can tolerate about 25% erroneous codewords.
    Quartile,
    /// The QR Code can tolerate about 30% erroneous codewords.
    High,
}

impl Default for ErrorCorrection {
    /// The medium redundancy tier.
    fn default() -> (r: Self)
        ensures
            r is Medium,
    {
        ErrorCorrection::Medium
    }
}

/// The core error correction level an option value stands for.
pub open spec fn spec_ecc_of(e: ErrorCorrection) -> CodeEcc {
    match e {
        ErrorCorrection::Low => CodeEcc::Low,
        ErrorCorrection::Medium => CodeEcc::Medium,
        ErrorCorrection::Quartile => CodeEcc::Quartile,
        ErrorCorrection::High => CodeEcc::High,
    }
}

impl From<ErrorCorrection> for CodeEcc {
    fn from(value: ErrorCorrection) -> (r: Self) {
        match value {
            ErrorCorrection::Low => CodeEcc::Low,
            ErrorCorrection::Medium => CodeEcc::Medium,
            ErrorCorrection::Quartile => CodeEcc::Quartile,
            ErrorCorrection::High => CodeEcc::High,
        }
    }
}

impl vstd::std_specs::convert::FromSpecImpl<ErrorCorrection> for CodeEcc {
    open spec fn obeys_from_spec() -> bool {
        true
    }

    open spec fn from_spec(v: ErrorCorrection) -> Self {
        spec_ecc_of(v)
    }
}

/// The knobs of a rendered symbol: colors, version range, redundancy,
/// scale, an optional forced mask, and whether the redundancy may be
/// boosted for free.
#[derive(Debug, Clone, PartialEq, Eq, Structural)]
pub struct QROptions {
    /// Sets the colors used for the foreground and background
    pub color_template: Option<ColorTemplate>,
    /// Sets the minimum block density of the QR
    pub min_version: Option<DensityVersion>,
    /// Sets the maximum density of the QR
    pub max_version: Option<DensityVersion>,
    /// Determines the number of failing blocks for error correction
    pub error_correction: Option<ErrorCorrection>,
    /// Defines the default size of each block in the QR
    pub scale: Option<u8>,
    /// Specify the mask if desired
    pub mask: Option<u8>,
    /// True automatically optimizes the error correction within version
    /// bounds if possible
    pub boost_ecl: bool,
}

impl Default for QROptions {
    /// No explicit choices, with redundancy boosting on.
    fn default() -> (r: Self)
        ensures
            r.color_template is None,
            r.min_version is None,
            r.max_version is None,
            r.error_correction is None,
            r.scale is None,
            r.mask is None,
            r.boost_ecl == true,
    {
        QROptions {
            color_template: None,
            min_version: None,
            max_version: None,
            error_correction: None,
            scale: None,
            mask: None,
            boost_ecl: true,
        }
    }
}

/// The error correction level an option set asks for, after defaulting:
/// medium when unset.
pub open spec fn spec_option_ecl(options: QROptions) -> CodeEcc {
    match options.error_correction {
        Some(e) => spec_ecc_of(e),
        None => CodeEcc::Medium,
    }
}

/// The version range an option set asks for, after defaulting: minimum 1
/// and maximum 10 when unset.
pub open spec fn spec_option_versions(options: QROptions) -> (int, int) {
    (
        match options.min_version {
            Some(v) => v.0 as int,
            None => 1,
        },
        match options.max_version {
            Some(v) => v.0 as int,
            None => 10,
        },
    )
}

/// Encodes the given text into a symbol under the given options: the
/// requested version range (defaults 1 to 10), error correction level
/// (default medium), forced mask, and boosting flag. The requested
/// numbers must lie in their documented ranges.
#[verifier::rlimit(100)]
#[verifier::spinoff_prover]
pub fn encode_with_options(data: &str, options: &QROptions) -> (r: Result<QrCode, QrError>)
    requires
        ({
            let (minv, maxv) = spec_option_versions(*options);
            &&& 1 <= minv <= 40
            &&& 1 <= maxv <= 40
            &&& minv <= maxv
            &&& (options.mask matches Some(m) ==> m <= 7)
        }),
    ensures
        r is Ok <==> exists|v: int|
            spec_option_versions(*options).0 <= v <= spec_option_versions(*options).1
                && #[trigger] spec_text_fits(
                data@,
                vstd::utf8::encode_utf8(data@),
                v,
                spec_option_ecl(*options),
            ),
        r matches Ok(q) ==> {
            &&& q.wf()
            &&& spec_option_versions(*options).0 <= q.version.spec_value()
                <= spec_option_versions(*options).1
            &&& spec_text_fits(
                data@,
                vstd::utf8::encode_utf8(data@),
                q.version.spec_value(),
                spec_option_ecl(*options),
            )
            &&& forall|w: int|
                spec_option_versions(*options).0 <= w < q.version.spec_value()
                    ==> !#[trigger] spec_text_fits(
                    data@,
                    vstd::utf8::encode_utf8(data@),
                    w,
                    spec_option_ecl(*options),
                )
            &&& (options.mask matches Some(m) ==> q.mask.spec_value() == m)
        },
        r matches Err(e) ==> (e is SegmentTooLong || e matches QrError::DataOverCapacity(_, _)),
{
    let segments: Vec<Segment> = Segment::make_segments(data);
    let ghost eff = spec_option_ecl(*options);
    proof {
        if data@.len() == 0 {
            assert(segments@ =~= Seq::<Segment>::empty());
            assert forall|v: int| 1 <= v <= 40 implies #[trigger] spec_fits(segments@, v, eff)
                == spec_text_fits(data@, data.spec_bytes(), v, eff) by {
                crate::tables::lemma_table_facts(crate::code_ecc::spec_ordinal(eff), v);
            }
        } else {
            let seg = segments@[0];
            assert(segments@ =~= seq![seg]);
            if crate::segment::spec_all_numeric(data@) {
                lemma_numeric_bits_len(data@);
            } else if crate::segment::spec_all_alnum(data@) {
                lemma_alnum_bits_len(data@);
            } else {
                lemma_byte_bits_len(data.spec_bytes());
            }
            assert forall|v: int| 1 <= v <= 40 implies #[trigger] spec_fits(segments@, v, eff)
                == spec_text_fits(data@, data.spec_bytes(), v, eff) by {
                lemma_singleton_fits(seg, v, eff);
            }
        }
    }
    let min_version = match options.min_version {
        Some(v) => v,
        None => DensityVersion(1),
    };
    let max_version = match options.max_version {
        Some(v) => v,
        None => DensityVersion(10),
    };
    let error_correction = match options.error_correction {
        Some(e) => e,
        None => ErrorCorrection::Medium,
    };
    let mask = match options.mask {
        Some(m) => Some(Mask::new(m)),
        None => None,
    };
    let minv = match min_version.to_version() {
        Ok(v) => v,
        Err(e) => {
            return Err(e);
        },
    };
    let maxv = match max_version.to_version() {
        Ok(v) => v,
        Err(e) => {
            return Err(e);
        },
    };
    let ecc: CodeEcc = error_correction.into();
    proof {
        assert(ecc == eff);
    }
    let r = QrCode::encode_segments_advanced(
        segments.as_slice(),
        ecc,
        minv,
        maxv,
        mask,
        options.boost_ecl,
    );
    proof {
        let minv_i = spec_option_versions(*options).0;
        let maxv_i = spec_option_versions(*options).1;
        if exists|v: int| minv_i <= v <= maxv_i && #[trigger] spec_fits(segments@, v, eff) {
            let v0 = choose|v: int|
                minv_i <= v <= maxv_i && #[trigger] spec_fits(segments@, v, eff);
            assert(spec_text_fits(data@, data.spec_bytes(), v0, eff));
        }
        if exists|v: int|
            minv_i <= v <= maxv_i && #[trigger] spec_text_fits(
                data@,
                data.spec_bytes(),
                v,
                eff,
            ) {
            let v0 = choose|v: int|
                minv_i <= v <= maxv_i && #[trigger] spec_text_fits(
                    data@,
                    data.spec_bytes(),
                    v,
                    eff,
                );
            assert(spec_fits(segments@, v0, eff));
        }
        if r is Ok {
            let q = r->Ok_0;
            assert(spec_text_fits(data@, data.spec_bytes(), q.version.spec_value(), eff));
            assert forall|w: int| minv_i <= w < q.version.spec_value() implies !#[trigger]
                spec_text_fits(data@, data.spec_bytes(), w, eff) by {
                assert(!spec_fits(segments@, w, eff));
            }
        }
        assert(vstd::utf8::encode_utf8(data@) == data.spec_bytes());
        if exists|v: int|
            minv_i <= v <= maxv_i && #[trigger] spec_text_fits(
                data@,
                vstd::utf8::encode_utf8(data@),
                v,
                spec_option_ecl(*options),
            ) {
            let v0 = choose|v: int|
                minv_i <= v <= maxv_i && #[trigger] spec_text_fits(
                    data@,
                    vstd::utf8::encode_utf8(data@),
                    v,
                    spec_option_ecl(*options),
                );
            assert(spec_text_fits(data@, data.spec_bytes(), v0, eff));
            assert(spec_fits(segments@, v0, eff));
            assert(r is Ok);
        }
        if r is Ok {
            let v0 = choose|v: int|
                minv_i <= v <= maxv_i && #[trigger] spec_fits(segments@, v, eff);
            assert(spec_text_fits(data@, vstd::utf8::encode_utf8(data@), v0, eff));
        }
    }
    r
}

} // verus!
