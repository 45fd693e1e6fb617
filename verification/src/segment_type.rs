use vstd::prelude::*;
use vstd::string::StringSliceAdditionalSpecFns;

verus! {

broadcast use
    vstd::utf8::encode_utf8_valid_utf8,
    vstd::utf8::encode_utf8_decode_utf8,
    vstd::utf8::is_char_boundary_start_end_of_seq;

/// Compares two string slices by contents.
pub fn str_eq(a: &str, b: &str) -> (r: bool)
    ensures
        r == (a@ == b@),
{
    let ab = a.as_bytes();
    let bb = b.as_bytes();
    if ab.len() != bb.len() {
        return false;
    }
    let mut i: usize = 0;
    while i < ab.len()
        invariant
            ab@ == a.spec_bytes(),
            bb@ == b.spec_bytes(),
            ab@.len() == bb@.len(),
            i <= ab@.len(),
            forall|j: int| 0 <= j < i ==> ab@[j] == bb@[j],
        decreases ab@.len() - i,
    {
        if ab[i] != bb[i] {
            return false;
        }
        i = i + 1;
    }
    proof {
        assert(a.spec_bytes() =~= b.spec_bytes());
        assert(vstd::utf8::decode_utf8(vstd::utf8::encode_utf8(a@)) =~= a@);
        assert(vstd::utf8::decode_utf8(vstd::utf8::encode_utf8(b@)) =~= b@);
    }
    true
}

/// How one path segment participates in route matching.
#[derive(Clone, Copy, Debug)]
pub enum SegmentType<'a> {
    /// Exactly matched
    Static { path: &'a str },
    /// Convert single segment value into a param with provided key
    Param { key: &'a str },
    /// Convert remaining path value into a param with provided key
    Consume { key: &'a str },
    /// Match but discard remaining segments beyond this one
    Wildcard,
}

/// True when the two segment descriptions are the same by contents.
pub open spec fn spec_same_segment<'a>(a: SegmentType<'a>, b: SegmentType<'a>) -> bool {
    match (a, b) {
        (SegmentType::Static { path: p1 }, SegmentType::Static { path: p2 }) => p1@ == p2@,
        (SegmentType::Param { key: k1 }, SegmentType::Param { key: k2 }) => k1@ == k2@,
        (SegmentType::Consume { key: k1 }, SegmentType::Consume { key: k2 }) => k1@ == k2@,
        (SegmentType::Wildcard, SegmentType::Wildcard) => true,
        _ => false,
    }
}

impl<'a> PartialEq for SegmentType<'a> {
    fn eq(&self, other: &Self) -> (r: bool) {
        match (self, other) {
            (SegmentType::Static { path: p1 }, SegmentType::Static { path: p2 }) => str_eq(
                p1,
                p2,
            ),
            (SegmentType::Param { key: k1 }, SegmentType::Param { key: k2 }) => str_eq(k1, k2),
            (SegmentType::Consume { key: k1 }, SegmentType::Consume { key: k2 }) => str_eq(
                k1,
                k2,
            ),
            (SegmentType::Wildcard, SegmentType::Wildcard) => true,
            _ => false,
        }
    }
}

impl<'a> vstd::std_specs::cmp::PartialEqSpecImpl for SegmentType<'a> {
    open spec fn obeys_eq_spec() -> bool {
        true
    }

    open spec fn eq_spec(&self, other: &Self) -> bool {
        spec_same_segment(*self, *other)
    }
}

impl<'a> From<&'a str> for SegmentType<'a> {
    fn from(src: &'a str) -> (r: Self) {
        let bytes = src.as_bytes();
        if bytes.len() == 1 && bytes[0] == 42 {
            return SegmentType::Wildcard;
        }
        if bytes.len() >= 1 && bytes[0] == 58 {
            proof {
                crate::lexer::lemma_ascii_boundary_next(src.spec_bytes(), 0);
            }
            let (_, key) = src.split_at(1);
            return SegmentType::Param { key };
        }
        if bytes.len() >= 1 && bytes[0] == 42 {
            proof {
                crate::lexer::lemma_ascii_boundary_next(src.spec_bytes(), 0);
            }
            let (_, key) = src.split_at(1);
            return SegmentType::Consume { key };
        }
        SegmentType::Static { path: src }
    }
}

impl<'a> vstd::std_specs::convert::FromSpecImpl<&'a str> for SegmentType<'a> {
    // The converted value borrows slices out of the source, and a borrowed
    // slice cannot be written down at the specification level, so the
    // conversion promises nothing about its result.
    open spec fn obeys_from_spec() -> bool {
        false
    }

    open spec fn from_spec(v: &'a str) -> Self {
        SegmentType::Wildcard
    }
}

} // verus!
