use crate::bit_buffer::{spec_bits, BitBuffer};
use crate::segment_mode::{spec_char_count_bits, SegmentMode};
use crate::version::Version;
use vstd::prelude::*;
use vstd::std_specs::iter::IteratorSpec;
use vstd::string::StringSliceAdditionalSpecFns;

verus! {

broadcast use vstd::string::axiom_spec_iter, vstd::string::next_postcondition;

/// The set of all legal characters in alphanumeric mode, where each
/// character value maps to the index in the string.
pub const ALPHANUMERIC_CHARSET: &'static str = "0123456789ABCDEFGHIJKLMNOPQRSTUVWXYZ $%*+-./:";

/// True when `c` is a decimal digit.
pub open spec fn spec_is_digit(c: char) -> bool {
    48 <= c as int <= 57
}

/// True when every character of `s` is a decimal digit.
pub open spec fn spec_all_numeric(s: Seq<char>) -> bool {
    forall|i: int| 0 <= i < s.len() ==> spec_is_digit(#[trigger] s[i])
}

/// The index of `c` in the 45-character alphanumeric charset, or -1 when
/// `c` is not in the set.
pub open spec fn spec_alnum_index(c: char) -> int {
    if spec_is_digit(c) {
        c as int - 48
    } else if 65 <= c as int <= 90 {
        c as int - 55
    } else if c == ' ' {
        36
    } else if c == '$' {
        37
    } else if c == '%' {
        38
    } else if c == '*' {
        39
    } else if c == '+' {
        40
    } else if c == '-' {
        41
    } else if c == '.' {
        42
    } else if c == '/' {
        43
    } else if c == ':' {
        44
    } else {
        -1
    }
}

/// True when `c` belongs to the alphanumeric mode charset.
pub open spec fn spec_is_alnum(c: char) -> bool {
    spec_alnum_index(c) >= 0
}

/// True when every character of `s` belongs to the alphanumeric charset.
pub open spec fn spec_all_alnum(s: Seq<char>) -> bool {
    forall|i: int| 0 <= i < s.len() ==> spec_is_alnum(#[trigger] s[i])
}

/// The decimal value of a digit string, most significant digit first.
pub open spec fn spec_digits_value(s: Seq<char>) -> int
    decreases s.len(),
{
    if s.len() == 0 {
        0
    } else {
        spec_digits_value(s.drop_last()) * 10 + (s.last() as int - 48)
    }
}

/// The base-45 value of an alphanumeric string, most significant first.
pub open spec fn spec_alnum_value(s: Seq<char>) -> int
    decreases s.len(),
{
    if s.len() == 0 {
        0
    } else {
        spec_alnum_value(s.drop_last()) * 45 + spec_alnum_index(s.last())
    }
}

/// The numeric mode encoding: groups of three digits yield 10 bits each,
/// a trailing group of two digits 7 bits, a trailing single digit 4 bits.
pub open spec fn spec_numeric_bits(s: Seq<char>) -> Seq<bool>
    decreases s.len(),
{
    if s.len() >= 3 {
        spec_bits(spec_digits_value(s.take(3)) as u32, 10) + spec_numeric_bits(s.skip(3))
    } else if s.len() == 2 {
        spec_bits(spec_digits_value(s) as u32, 7)
    } else if s.len() == 1 {
        spec_bits(spec_digits_value(s) as u32, 4)
    } else {
        Seq::empty()
    }
}

/// The alphanumeric mode encoding: pairs combine as first*45+second into
/// 11 bits, a trailing single character yields 6 bits.
pub open spec fn spec_alnum_bits(s: Seq<char>) -> Seq<bool>
    decreases s.len(),
{
    if s.len() >= 2 {
        spec_bits(spec_alnum_value(s.take(2)) as u32, 11) + spec_alnum_bits(s.skip(2))
    } else if s.len() == 1 {
        spec_bits(spec_alnum_value(s) as u32, 6)
    } else {
        Seq::empty()
    }
}

/// The byte mode encoding: 8 bits per byte, verbatim.
pub open spec fn spec_byte_bits(bytes: Seq<u8>) -> Seq<bool>
    decreases bytes.len(),
{
    if bytes.len() == 0 {
        Seq::empty()
    } else {
        spec_bits(bytes.first() as u32, 8) + spec_byte_bits(bytes.drop_first())
    }
}

/// The Extended Channel Interpretation encoding: a variable-length prefix
/// code over three ranges of assignment values.
pub open spec fn spec_eci_bits(v: int) -> Seq<bool>
    recommends
        0 <= v < 1000000,
{
    if v < 128 {
        spec_bits(v as u32, 8)
    } else if v < 16384 {
        spec_bits(2, 2) + spec_bits(v as u32, 14)
    } else {
        spec_bits(6, 3) + spec_bits(v as u32, 21)
    }
}

/// The largest character count that fits a count field of the given bit
/// width, plus one; the widths that occur are 0 and 8 through 16.
pub open spec fn spec_count_limit(ccbits: int) -> int {
    if ccbits == 0 {
        1
    } else if ccbits == 8 {
        256
    } else if ccbits == 9 {
        512
    } else if ccbits == 10 {
        1024
    } else if ccbits == 11 {
        2048
    } else if ccbits == 12 {
        4096
    } else if ccbits == 13 {
        8192
    } else if ccbits == 14 {
        16384
    } else {
        65536
    }
}

/// The number of bits needed to encode the given segments at the given
/// version: per segment 4 mode bits, the count field, and the data bits.
/// None when a segment's character count does not fit its count field or
/// the total exceeds the addressable range.
pub open spec fn spec_total_bits(segs: Seq<Segment>, ver: int) -> Option<int>
    decreases segs.len(),
{
    if segs.len() == 0 {
        Some(0int)
    } else {
        match spec_total_bits(segs.drop_last(), ver) {
            None => None,
            Some(t) => {
                let seg = segs.last();
                let ccbits = spec_char_count_bits(seg.mode, ver);
                if seg.numchars >= spec_count_limit(ccbits) {
                    None
                } else if t + 4 + ccbits + seg.data@.len() > usize::MAX {
                    None
                } else {
                    Some(t + 4 + ccbits + seg.data@.len())
                }
            },
        }
    }
}

/// A segment of character/binary/control data in a QR Code symbol.
///
/// Instances of this struct are immutable. The mid-level way to create a
/// segment is one of the factory functions; the low-level way is the
/// `Segment::new()` constructor.
#[derive(Clone, PartialEq, Eq, Debug)]
pub struct Segment {
    /// The mode indicator of this segment. Accessed through mode().
    pub mode: SegmentMode,
    /// The length of this segment's unencoded data. Measured in characters
    /// for numeric/alphanumeric/kanji mode, bytes for byte mode, and 0 for
    /// ECI mode. Not the same as the data's bit length.
    pub numchars: usize,
    /// The data bits of this segment. Accessed through data().
    pub data: Vec<bool>,
}

proof fn lemma_numeric_append_group(s: Seq<char>, g: Seq<char>)
    requires
        s.len() % 3 == 0,
        1 <= g.len() <= 3,
    ensures
        spec_numeric_bits(s + g) == spec_numeric_bits(s) + spec_numeric_bits(g),
    decreases s.len(),
{
    if s.len() == 0 {
        assert(s + g =~= g);
        assert(spec_numeric_bits(s) =~= Seq::empty());
        assert(spec_numeric_bits(s) + spec_numeric_bits(g) =~= spec_numeric_bits(g));
    } else {
        assert((s + g).take(3) =~= s.take(3));
        assert((s + g).skip(3) =~= s.skip(3) + g);
        lemma_numeric_append_group(s.skip(3), g);
        assert(spec_numeric_bits(s + g) =~= spec_numeric_bits(s) + spec_numeric_bits(g));
    }
}

proof fn lemma_alnum_append_group(s: Seq<char>, g: Seq<char>)
    requires
        s.len() % 2 == 0,
        1 <= g.len() <= 2,
    ensures
        spec_alnum_bits(s + g) == spec_alnum_bits(s) + spec_alnum_bits(g),
    decreases s.len(),
{
    if s.len() == 0 {
        assert(s + g =~= g);
        assert(spec_alnum_bits(s) =~= Seq::empty());
        assert(spec_alnum_bits(s) + spec_alnum_bits(g) =~= spec_alnum_bits(g));
    } else {
        assert((s + g).take(2) =~= s.take(2));
        assert((s + g).skip(2) =~= s.skip(2) + g);
        lemma_alnum_append_group(s.skip(2), g);
        assert(spec_alnum_bits(s + g) =~= spec_alnum_bits(s) + spec_alnum_bits(g));
    }
}

proof fn lemma_total_bits_none_extends(segs: Seq<Segment>, j: int, ver: int)
    requires
        0 <= j <= segs.len(),
        spec_total_bits(segs.take(j), ver) is None,
    ensures
        spec_total_bits(segs, ver) is None,
    decreases segs.len() - j,
{
    if j < segs.len() {
        assert(segs.take(j + 1).drop_last() =~= segs.take(j));
        lemma_total_bits_none_extends(segs, j + 1, ver);
    } else {
        assert(segs.take(j) =~= segs);
    }
}

proof fn lemma_byte_bits_snoc(s: Seq<u8>, b: u8)
    ensures
        spec_byte_bits(s.push(b)) == spec_byte_bits(s) + spec_bits(b as u32, 8),
    decreases s.len(),
{
    if s.len() == 0 {
        assert(s.push(b).drop_first() =~= Seq::<u8>::empty());
        assert(s.push(b).first() == b);
        assert(spec_byte_bits(s.push(b).drop_first()) =~= Seq::<bool>::empty());
        assert(spec_byte_bits(s.push(b)) =~= spec_byte_bits(s) + spec_bits(b as u32, 8));
    } else {
        assert(s.push(b).drop_first() =~= s.drop_first().push(b));
        lemma_byte_bits_snoc(s.drop_first(), b);
        assert(spec_byte_bits(s.push(b)) =~= spec_byte_bits(s) + spec_bits(b as u32, 8));
    }
}

impl Segment {
    /// Returns a segment representing the given binary data encoded in
    /// byte mode, 8 bits per byte. All input byte slices are acceptable.
    pub fn make_bytes(data: &[u8]) -> (seg: Segment)
        ensures
            seg.mode == SegmentMode::Byte,
            seg.numchars == data@.len(),
            seg.data@ == spec_byte_bits(data@),
    {
        let mut bb = BitBuffer(Vec::new());
        let mut i: usize = 0;
        while i < data.len()
            invariant
                i <= data@.len(),
                bb.0@ == spec_byte_bits(data@.take(i as int)),
            decreases data@.len() - i,
        {
            let b = data[i];
            proof {
                assert(b as u32 >> 8u32 == 0) by (bit_vector)
                    requires
                        b as u32 <= 255,
                ;
            }
            bb.append_bits(b as u32, 8);
            proof {
                assert(data@.take(i + 1) =~= data@.take(i as int).push(b));
                lemma_byte_bits_snoc(data@.take(i as int), b);
            }
            i = i + 1;
        }
        proof {
            assert(data@.take(data@.len() as int) =~= data@);
        }
        Segment::new(SegmentMode::Byte, data.len(), bb.0)
    }

    /// Returns a segment representing the given string of decimal digits
    /// encoded in numeric mode. Requires every character to be a digit.
    pub fn make_numeric(text: &str) -> (seg: Segment)
        requires
            spec_all_numeric(text@),
        ensures
            seg.mode == SegmentMode::Numeric,
            seg.numchars == text@.len(),
            seg.data@ == spec_numeric_bits(text@),
    {
        broadcast use vstd::utf8::is_ascii_chars_encode_utf8;

        let ghost s = text@;
        proof {
            assert(vstd::utf8::is_ascii_chars(s));
            assert(s.skip(0) =~= s);
        }
        let mut bb = BitBuffer(Vec::new());
        let mut accumdata: u32 = 0;
        let mut accumcount: u8 = 0;
        let mut it = text.chars();
        let ghost mut i: int = 0;
        loop
            invariant
                s == text@,
                spec_all_numeric(s),
                0 <= i <= s.len(),
                it.obeys_prophetic_iter_laws(),
                it.remaining() == s.skip(i),
                accumcount <= 2,
                accumcount == 0 ==> accumdata == 0,
                accumcount <= 1 ==> accumdata <= 9,
                (i - accumcount) % 3 == 0,
                accumdata == spec_digits_value(s.subrange(i - accumcount, i)),
                accumdata <= 99,
                bb.0@ == spec_numeric_bits(s.take(i - accumcount)),
            ensures
                i == s.len(),
                accumcount <= 2,
                accumcount <= 1 ==> accumdata <= 9,
                (i - accumcount) % 3 == 0,
                accumdata == spec_digits_value(s.subrange(i - accumcount, i)),
                accumdata <= 99,
                bb.0@ == spec_numeric_bits(s.take(i - accumcount)),
            decreases s.len() - i,
        {
            let c = match it.next() {
                Some(c) => c,
                None => {
                    proof {
                        assert(s.skip(i).len() == 0);
                    }
                    break ;
                },
            };
            proof {
                assert(c == s.skip(i)[0]);
                assert(c == s[i]);
                assert(spec_is_digit(c));
                assert(s.skip(i).drop_first() =~= s.skip(i + 1));
            }
            let d = char_code(c) - 48;
            let ghost gs = i - accumcount;
            accumdata = accumdata * 10 + d;
            accumcount = accumcount + 1;
            proof {
                i = i + 1;
                assert(s.subrange(gs, i) =~= s.subrange(gs, i - 1).push(c));
                assert(s.subrange(gs, i).drop_last() =~= s.subrange(gs, i - 1));
                assert(accumdata == spec_digits_value(s.subrange(gs, i)));
            }
            if accumcount == 3 {
                proof {
                    assert(accumdata >> 10u32 == 0) by (bit_vector)
                        requires
                            accumdata <= 999,
                    ;
                }
                bb.append_bits(accumdata, 10);
                proof {
                    let pre = s.take(i - 3);
                    let g = s.subrange(i - 3, i);
                    lemma_numeric_append_group(pre, g);
                    assert(pre + g =~= s.take(i));
                    assert(g.take(3) =~= g);
                    assert(g.skip(3) =~= Seq::<char>::empty());
                    assert(spec_numeric_bits(g.skip(3)) =~= Seq::<bool>::empty());
                    assert(spec_numeric_bits(g) =~= spec_bits(spec_digits_value(g) as u32, 10));
                }
                accumdata = 0;
                accumcount = 0;
                proof {
                    assert(s.subrange(i, i) =~= Seq::<char>::empty());
                }
            }
        }
        if accumcount > 0 {
            proof {
                assert(accumdata >> 7u32 == 0) by (bit_vector)
                    requires
                        accumdata <= 99,
                ;
                assert(accumcount == 1 ==> accumdata >> 4u32 == 0) by (bit_vector)
                    requires
                        accumcount == 1 ==> accumdata <= 9,
                ;
                assert(accumcount == 1 ==> accumdata <= 9);
            }
            bb.append_bits(accumdata, accumcount * 3 + 1);
            proof {
                let pre = s.take(i - accumcount);
                let g = s.subrange(i - accumcount, i);
                lemma_numeric_append_group(pre, g);
                assert(pre + g =~= s);
                assert(spec_numeric_bits(g) =~= spec_bits(
                    spec_digits_value(g) as u32,
                    (accumcount * 3 + 1) as nat,
                ));
            }
        } else {
            proof {
                assert(s.take(i) =~= s);
            }
        }
        proof {
            assert(text.spec_bytes() =~= Seq::new(s.len(), |i: int| s[i] as u8));
            assert(text.spec_bytes().len() == s.len());
        }
        Segment::new(SegmentMode::Numeric, text.as_bytes().len(), bb.0)
    }

    /// Returns a segment representing the given text string encoded in
    /// alphanumeric mode. The characters allowed are: 0 to 9, A to Z
    /// (uppercase only), space, dollar, percent, asterisk, plus, hyphen,
    /// period, slash, colon.
    pub fn make_alphanumeric(text: &str) -> (seg: Segment)
        requires
            spec_all_alnum(text@),
        ensures
            seg.mode == SegmentMode::Alphanumeric,
            seg.numchars == text@.len(),
            seg.data@ == spec_alnum_bits(text@),
    {
        broadcast use vstd::utf8::is_ascii_chars_encode_utf8;

        let ghost s = text@;
        proof {
            assert(vstd::utf8::is_ascii_chars(s));
            assert(s.skip(0) =~= s);
        }
        let mut bb = BitBuffer(Vec::new());
        let mut accumdata: u32 = 0;
        let mut accumcount: u8 = 0;
        let mut it = text.chars();
        let ghost mut i: int = 0;
        loop
            invariant
                s == text@,
                spec_all_alnum(s),
                0 <= i <= s.len(),
                it.obeys_prophetic_iter_laws(),
                it.remaining() == s.skip(i),
                accumcount <= 1,
                accumcount == 0 ==> accumdata == 0,
                (i - accumcount) % 2 == 0,
                accumdata == spec_alnum_value(s.subrange(i - accumcount, i)),
                accumdata <= 44,
                bb.0@ == spec_alnum_bits(s.take(i - accumcount)),
            ensures
                i == s.len(),
                accumcount <= 1,
                (i - accumcount) % 2 == 0,
                accumdata == spec_alnum_value(s.subrange(i - accumcount, i)),
                accumdata <= 44,
                bb.0@ == spec_alnum_bits(s.take(i - accumcount)),
            decreases s.len() - i,
        {
            let c = match it.next() {
                Some(c) => c,
                None => {
                    proof {
                        assert(s.skip(i).len() == 0);
                    }
                    break ;
                },
            };
            proof {
                assert(c == s.skip(i)[0]);
                assert(c == s[i]);
                assert(spec_is_alnum(c));
                assert(s.skip(i).drop_first() =~= s.skip(i + 1));
            }
            let idx = alphanumeric_index(c);
            let ghost gs = i - accumcount;
            accumdata = accumdata * 45 + (idx as u32);
            accumcount = accumcount + 1;
            proof {
                i = i + 1;
                assert(s.subrange(gs, i) =~= s.subrange(gs, i - 1).push(c));
                assert(s.subrange(gs, i).drop_last() =~= s.subrange(gs, i - 1));
                assert(accumdata == spec_alnum_value(s.subrange(gs, i)));
            }
            if accumcount == 2 {
                proof {
                    assert(accumdata >> 11u32 == 0) by (bit_vector)
                        requires
                            accumdata <= 2024,
                    ;
                }
                bb.append_bits(accumdata, 11);
                proof {
                    let pre = s.take(i - 2);
                    let g = s.subrange(i - 2, i);
                    lemma_alnum_append_group(pre, g);
                    assert(pre + g =~= s.take(i));
                    assert(g.take(2) =~= g);
                    assert(g.skip(2) =~= Seq::<char>::empty());
                    assert(spec_alnum_bits(g.skip(2)) =~= Seq::<bool>::empty());
                    assert(spec_alnum_bits(g) =~= spec_bits(spec_alnum_value(g) as u32, 11));
                }
                accumdata = 0;
                accumcount = 0;
                proof {
                    assert(s.subrange(i, i) =~= Seq::<char>::empty());
                }
            }
        }
        if accumcount > 0 {
            proof {
                assert(accumdata >> 6u32 == 0) by (bit_vector)
                    requires
                        accumdata <= 44,
                ;
            }
            bb.append_bits(accumdata, 6);
            proof {
                let pre = s.take(i - 1);
                let g = s.subrange(i - 1, i);
                lemma_alnum_append_group(pre, g);
                assert(pre + g =~= s);
                assert(spec_alnum_bits(g) =~= spec_bits(spec_alnum_value(g) as u32, 6));
            }
        } else {
            proof {
                assert(s.take(i) =~= s);
            }
        }
        proof {
            assert(text.spec_bytes() =~= Seq::new(s.len(), |i: int| s[i] as u8));
            assert(text.spec_bytes().len() == s.len());
        }
        Segment::new(SegmentMode::Alphanumeric, text.as_bytes().len(), bb.0)
    }

    /// Returns a list of zero or more segments to represent the given text:
    /// one numeric segment when every character is a digit, else one
    /// alphanumeric segment when every character is in that charset, else
    /// one byte segment of the UTF-8 bytes. Empty input yields no segments.
    pub fn make_segments(text: &str) -> (segs: Vec<Segment>)
        ensures
            text@.len() == 0 ==> segs@.len() == 0,
            text@.len() > 0 ==> segs@.len() == 1,
            text@.len() > 0 && spec_all_numeric(text@) ==> segs@[0].mode == SegmentMode::Numeric
                && segs@[0].numchars == text@.len() && segs@[0].data@ == spec_numeric_bits(text@),
            text@.len() > 0 && !spec_all_numeric(text@) && spec_all_alnum(text@) ==> segs@[0].mode
                == SegmentMode::Alphanumeric && segs@[0].numchars == text@.len()
                && segs@[0].data@ == spec_alnum_bits(text@),
            text@.len() > 0 && !spec_all_numeric(text@) && !spec_all_alnum(text@)
                ==> segs@[0].mode == SegmentMode::Byte && segs@[0].numchars
                == text.spec_bytes().len() && segs@[0].data@ == spec_byte_bits(text.spec_bytes()),
    {
        let mut segs: Vec<Segment> = Vec::new();
        if text.is_empty() {
            return segs;
        }
        if Segment::is_numeric(text) {
            segs.push(Segment::make_numeric(text));
        } else if Segment::is_alphanumeric(text) {
            segs.push(Segment::make_alphanumeric(text));
        } else {
            segs.push(Segment::make_bytes(text.as_bytes()));
        }
        segs
    }

    /// Returns a segment representing an Extended Channel Interpretation
    /// (ECI) designator with the given assignment value, which must be
    /// below 1000000.
    pub fn make_eci(assignval: u32) -> (seg: Segment)
        requires
            assignval < 1000000,
        ensures
            seg.mode == SegmentMode::Eci,
            seg.numchars == 0,
            seg.data@ == spec_eci_bits(assignval as int),
    {
        let mut bb = BitBuffer(Vec::new());
        if assignval < 128 {
            proof {
                assert(assignval >> 8u32 == 0) by (bit_vector)
                    requires
                        assignval < 128,
                ;
            }
            bb.append_bits(assignval, 8);
        } else if assignval < 16384 {
            proof {
                assert(2u32 >> 2u32 == 0) by (bit_vector);
            }
            bb.append_bits(0b10, 2);
            proof {
                assert(assignval >> 14u32 == 0) by (bit_vector)
                    requires
                        assignval < 16384,
                ;
            }
            bb.append_bits(assignval, 14);
        } else {
            proof {
                assert(6u32 >> 3u32 == 0) by (bit_vector);
            }
            bb.append_bits(0b110, 3);
            proof {
                assert(assignval >> 21u32 == 0) by (bit_vector)
                    requires
                        assignval < 1000000,
                ;
            }
            bb.append_bits(assignval, 21);
        }
        Segment::new(SegmentMode::Eci, 0, bb.0)
    }

    /// Creates a new QR Code segment with the given attributes and data.
    ///
    /// The character count (numchars) must agree with the mode and the bit
    /// buffer length, but the constraint isn't checked.
    pub fn new(mode: SegmentMode, numchars: usize, data: Vec<bool>) -> (seg: Self)
        ensures
            seg.mode == mode,
            seg.numchars == numchars,
            seg.data == data,
    {
        Self { mode, numchars, data }
    }

    /// Returns the mode indicator of this segment.
    pub fn mode(&self) -> (r: SegmentMode)
        ensures
            r == self.mode,
    {
        self.mode
    }

    /// Returns the character count field of this segment.
    pub fn num_chars(&self) -> (r: usize)
        ensures
            r == self.numchars,
    {
        self.numchars
    }

    /// Returns the data bits of this segment.
    pub fn data(&self) -> (r: &Vec<bool>)
        ensures
            r == self.data,
    {
        &self.data
    }

    /// Calculates and returns the number of bits needed to encode the given
    /// segments at the given version. The result is None if a segment has
    /// too many characters to fit its length field, or the total bits
    /// exceeds the addressable range.
    pub fn get_total_bits(segs: &[Segment], version: Version) -> (r: Option<usize>)
        requires
            version.valid(),
        ensures
            r is Some <==> spec_total_bits(segs@, version.spec_value()) is Some,
            r is Some ==> r->0 == spec_total_bits(segs@, version.spec_value())->0,
    {
        let ghost ver = version.spec_value();
        let mut result: usize = 0;
        let mut k: usize = 0;
        while k < segs.len()
            invariant
                version.valid(),
                ver == version.spec_value(),
                k <= segs@.len(),
                spec_total_bits(segs@.take(k as int), ver) == Some(result as int),
            decreases segs@.len() - k,
        {
            let seg = &segs[k];
            let ccbits: u8 = seg.mode.num_char_count_bits(version);
            let limit: usize = count_limit(ccbits);
            proof {
                assert(segs@.take(k + 1).drop_last() =~= segs@.take(k as int));
                assert(segs@.take(k + 1).last() == segs@[k as int]);
            }
            if seg.numchars >= limit {
                proof {
                    lemma_total_bits_none_extends(segs@, k + 1, ver);
                }
                return None;
            }
            result = match result.checked_add(4 + ccbits as usize) {
                Some(t) => t,
                None => {
                    proof {
                        lemma_total_bits_none_extends(segs@, k + 1, ver);
                    }
                    return None;
                },
            };
            result = match result.checked_add(seg.data.len()) {
                Some(t) => t,
                None => {
                    proof {
                        lemma_total_bits_none_extends(segs@, k + 1, ver);
                    }
                    return None;
                },
            };
            k = k + 1;
        }
        proof {
            assert(segs@.take(segs@.len() as int) =~= segs@);
        }
        Some(result)
    }

    /// Tests whether the given string can be encoded as a segment in
    /// numeric mode: true iff each character is in the range 0 to 9.
    pub fn is_numeric(text: &str) -> (r: bool)
        ensures
            r == spec_all_numeric(text@),
    {
        let ghost s = text@;
        proof {
            assert(s.skip(0) =~= s);
        }
        let mut it = text.chars();
        let ghost mut i: int = 0;
        loop
            invariant
                s == text@,
                0 <= i <= s.len(),
                it.obeys_prophetic_iter_laws(),
                it.remaining() == s.skip(i),
                forall|j: int| 0 <= j < i ==> spec_is_digit(#[trigger] s[j]),
            ensures
                forall|j: int| 0 <= j < s.len() ==> spec_is_digit(#[trigger] s[j]),
            decreases s.len() - i,
        {
            let c = match it.next() {
                Some(c) => c,
                None => {
                    proof {
                        assert(s.skip(i).len() == 0);
                        assert(i == s.len());
                    }
                    break ;
                },
            };
            proof {
                assert(c == s.skip(i)[0]);
                assert(c == s[i]);
            }
            let u = char_code(c);
            if !(48 <= u && u <= 57) {
                return false;
            }
            proof {
                assert(s.skip(i).drop_first() =~= s.skip(i + 1));
                i = i + 1;
            }
        }
        true
    }

    /// Tests whether the given string can be encoded as a segment in
    /// alphanumeric mode: true iff each character is in the 45-character
    /// set 0-9, A-Z, space, dollar, percent, asterisk, plus, hyphen,
    /// period, slash, colon.
    pub fn is_alphanumeric(text: &str) -> (r: bool)
        ensures
            r == spec_all_alnum(text@),
    {
        let ghost s = text@;
        proof {
            assert(s.skip(0) =~= s);
        }
        let mut it = text.chars();
        let ghost mut i: int = 0;
        loop
            invariant
                s == text@,
                0 <= i <= s.len(),
                it.obeys_prophetic_iter_laws(),
                it.remaining() == s.skip(i),
                forall|j: int| 0 <= j < i ==> spec_is_alnum(#[trigger] s[j]),
            ensures
                forall|j: int| 0 <= j < s.len() ==> spec_is_alnum(#[trigger] s[j]),
            decreases s.len() - i,
        {
            let c = match it.next() {
                Some(c) => c,
                None => {
                    proof {
                        assert(s.skip(i).len() == 0);
                        assert(i == s.len());
                    }
                    break ;
                },
            };
            proof {
                assert(c == s.skip(i)[0]);
                assert(c == s[i]);
            }
            if !is_alphanumeric_char(c) {
                return false;
            }
            proof {
                assert(s.skip(i).drop_first() =~= s.skip(i + 1));
                i = i + 1;
            }
        }
        true
    }
}

/// The Unicode scalar value of `c`.
fn char_code(c: char) -> (r: u32)
    ensures
        r as int == c as int,
{
    c as u32
}

/// True when `c` belongs to the alphanumeric mode charset.
fn is_alphanumeric_char(c: char) -> (r: bool)
    ensures
        r == spec_is_alnum(c),
{
    let u = c as u32;
    (48 <= u && u <= 57) || (65 <= u && u <= 90) || c == ' ' || c == '$' || c == '%' || c == '*'
        || c == '+' || c == '-' || c == '.' || c == '/' || c == ':'
}

/// The index of `c` in the alphanumeric charset; `c` must belong to it.
fn alphanumeric_index(c: char) -> (r: u8)
    requires
        spec_is_alnum(c),
    ensures
        r == spec_alnum_index(c),
        r <= 44,
{
    let u = c as u32;
    if 48 <= u && u <= 57 {
        (u - 48) as u8
    } else if 65 <= u && u <= 90 {
        (u - 55) as u8
    } else if c == ' ' {
        36
    } else if c == '$' {
        37
    } else if c == '%' {
        38
    } else if c == '*' {
        39
    } else if c == '+' {
        40
    } else if c == '-' {
        41
    } else if c == '.' {
        42
    } else if c == '/' {
        43
    } else {
        44
    }
}

/// The smallest character count that does not fit a count field of the
/// given bit width; the widths that occur are 0 and 8 through 16.
fn count_limit(ccbits: u8) -> (r: usize)
    requires
        ccbits <= 16,
    ensures
        r == spec_count_limit(ccbits as int),
{
    if ccbits == 0 {
        1
    } else if ccbits == 8 {
        256
    } else if ccbits == 9 {
        512
    } else if ccbits == 10 {
        1024
    } else if ccbits == 11 {
        2048
    } else if ccbits == 12 {
        4096
    } else if ccbits == 13 {
        8192
    } else if ccbits == 14 {
        16384
    } else {
        65536
    }
}

} // verus!
