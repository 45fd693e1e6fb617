use vstd::prelude::*;

verus! {

/// True iff bit `i` of `x` is set to 1.
pub open spec fn spec_get_bit(x: u32, i: u32) -> bool
    recommends
        i < 32,
{
    (x >> i) & 1 != 0
}

/// The lowest `len` bits of `val`, most significant bit first.
pub open spec fn spec_bits(val: u32, len: nat) -> Seq<bool>
    recommends
        len <= 32,
{
    Seq::new(len, |i: int| spec_get_bit(val, (len - 1 - i) as u32))
}

/// Returns true iff the i'th bit of x is set to 1.
pub fn get_bit(x: u32, i: i32) -> (r: bool)
    requires
        0 <= i < 32,
    ensures
        r == spec_get_bit(x, i as u32),
{
    (x >> (i as u32)) & 1 != 0
}

/// An appendable sequence of bits (0s and 1s).
///
/// Mainly used by Segment.
pub struct BitBuffer(pub Vec<bool>);

impl BitBuffer {
    /// Appends the given number of low-order bits of the given value to this
    /// buffer, most significant bit first.
    ///
    /// Requires len <= 31 and val < 2^len.
    pub fn append_bits(&mut self, val: u32, len: u8)
        requires
            len <= 31,
            val >> (len as u32) == 0,
        ensures
            final(self).0@ == old(self).0@ + spec_bits(val, len as nat),
    {
        let ghost prefix = self.0@;
        let mut i: u8 = 0;
        while i < len
            invariant
                i <= len,
                len <= 31,
                self.0@ == prefix + spec_bits(val, len as nat).take(i as int),
            decreases len - i,
        {
            let bit = get_bit(val, (len - 1 - i) as i32);
            self.0.push(bit);
            proof {
                assert(spec_bits(val, len as nat).take(i + 1) =~= spec_bits(
                    val,
                    len as nat,
                ).take(i as int).push(bit));
            }
            i = i + 1;
        }
        proof {
            assert(spec_bits(val, len as nat).take(len as int) =~= spec_bits(val, len as nat));
        }
    }
}

} // verus!
