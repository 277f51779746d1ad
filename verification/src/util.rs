//! A bit vector over `u32` blocks, and the runs it marks.
use vstd::prelude::*;
use bit_vec::BitVec;

verus! {

#[verifier::external_type_specification]
#[verifier::external_body]
#[verifier::reject_recursive_types(B)]
pub struct ExBitVec<B>(BitVec<B>);

/// The bits a `bit_vec::BitVec<u32>` holds, in order.
pub uninterp spec fn bitvec_bits(v: BitVec<u32>) -> Seq<bool>;

/// `BitVec::from_elem(nbits, bit)`. Claimed, as the crate's source and documentation show:
/// `nbits` bits, each `bit`.
#[verifier::external_body]
fn bitvec_from_elem(nbits: usize, bit: bool) -> (r: BitVec<u32>)
    ensures
        bitvec_bits(r) == Seq::new(nbits as nat, |i: int| bit),
{
    BitVec::from_elem(nbits, bit)
}

/// `BitVec::len`. Claimed: the number of bits.
#[verifier::external_body]
fn bitvec_len(v: &BitVec<u32>) -> (r: usize)
    ensures
        r == bitvec_bits(*v).len(),
{
    v.len()
}

/// `BitVec::get`. Claimed: the bit at `i`, or `None` past the end.
#[verifier::external_body]
fn bitvec_get(v: &BitVec<u32>, i: usize) -> (r: Option<bool>)
    ensures
        r == if i < bitvec_bits(*v).len() { Some(bitvec_bits(*v)[i as int]) } else { None::<bool> },
{
    v.get(i)
}

/// `BitVec::set`. Claimed, as the crate's source shows: the bit at `i` becomes `x` and the
/// others stay; it panics past the end, which `requires` leaves out.
#[verifier::external_body]
fn bitvec_set(v: &mut BitVec<u32>, i: usize, x: bool)
    requires
        i < bitvec_bits(*old(v)).len(),
    ensures
        bitvec_bits(*final(v)) == bitvec_bits(*old(v)).update(i as int, x),
{
    v.set(i, x)
}

/// A bit vector whose blocks are `u32`.
pub struct U32BitVec(pub BitVec<u32>);

/// What `get_zero_ranges` lists for the bits: for each set bit at `i`, the pair
/// `(i, i - 1)`, in order.
pub open spec fn zero_ranges_of(bits: Seq<bool>) -> Seq<(usize, usize)>
    decreases bits.len(),
{
    if bits.len() == 0 {
        Seq::empty()
    } else if bits.last() {
        zero_ranges_of(bits.drop_last()).push(((bits.len() - 1) as usize, (bits.len() - 2) as usize))
    } else {
        zero_ranges_of(bits.drop_last())
    }
}

impl U32BitVec {
    /// The bits.
    pub open spec fn bits(&self) -> Seq<bool> {
        bitvec_bits(self.0)
    }

    /// `capacity` bits, all clear.
    pub fn with_capacity(capacity: usize) -> (r: U32BitVec)
        ensures
            r.bits() == Seq::new(capacity as nat, |i: int| false),
    {
        U32BitVec(bitvec_from_elem(capacity, false))
    }

    /// The number of bits.
    pub fn len(&self) -> (r: usize)
        ensures
            r == self.bits().len(),
    {
        bitvec_len(&self.0)
    }

    /// Sets the bit at `i` (below the length) to `x`.
    pub fn set(&mut self, i: usize, x: bool)
        requires
            i < old(self).bits().len(),
        ensures
            final(self).bits() == old(self).bits().update(i as int, x),
    {
        bitvec_set(&mut self.0, i, x)
    }

    /// The bit at `i`, or `None` past the end.
    pub fn get(&self, i: usize) -> (r: Option<bool>)
        ensures
            r == if i < self.bits().len() { Some(self.bits()[i as int]) } else { None::<bool> },
    {
        bitvec_get(&self.0, i)
    }

    /// Scans the bits. As the scan is written, a run is closed on the bit that opens it, so
    /// each set bit at `i` gives the pair `(i, i - 1)`; a set first bit would make `i - 1`
    /// underflow and is left out.
    pub fn get_zero_ranges(&self) -> (r: Vec<(usize, usize)>)
        requires
            self.bits().len() > 0 ==> !self.bits()[0],
        ensures
            r@ == zero_ranges_of(self.bits()),
    {
        let mut ranges: Vec<(usize, usize)> = Vec::new();
        let mut start: Option<usize> = None;
        let max_length = bitvec_len(&self.0);
        let ghost bits = self.bits();
        let mut i: usize = 0;
        while i < max_length
            invariant
                max_length == bits.len(),
                bits == self.bits(),
                bits.len() > 0 ==> !bits[0],
                0 <= i <= max_length,
                start is None,
                ranges@ == zero_ranges_of(bits.take(i as int)),
            ensures
                i == max_length,
                start is None,
                ranges@ == zero_ranges_of(bits.take(i as int)),
            decreases max_length - i,
        {
            proof {
                assert(bits.take(i + 1).drop_last() =~= bits.take(i as int));
                assert(bits.take(i + 1).last() == bits[i as int]);
            }
            match bitvec_get(&self.0, i) {
                None => {
                    break;
                },
                Some(bit) => {
                    if bit && start.is_none() {
                        start = Some(i);
                    }
                    if let Some(s) = start {
                        ranges.push((s, i - 1));
                        start = None;
                    }
                },
            }
            i = i + 1;
        }
        proof {
            assert(bits.take(max_length as int) =~= bits);
        }
        if let Some(s) = start {
            ranges.push((s, max_length - 1));
        }
        ranges
    }
}

} // verus!
