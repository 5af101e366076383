//! Bit vectors of the `bit_vec` crate.
use bit_vec::BitVec;
use vstd::prelude::*;

verus! {

/// `bit_vec::BitVec`, a list of bits. What it holds is [`bits`].
#[verifier::external_type_specification]
#[verifier::external_body]
#[verifier::reject_recursive_types(B)]
pub struct ExBitVec<B>(BitVec<B>);

/// The bits that a `bit_vec::BitVec` holds, from index 0 on.
pub uninterp spec fn bits(v: BitVec<u32>) -> Seq<bool>;

/// Every bit is set.
pub open spec fn all_set(b: Seq<bool>) -> bool {
    forall|i: int| 0 <= i < b.len() ==> b[i]
}

/// `bit_vec::BitVec::from_elem`: `nbits` bits, each of them `bit`.
#[verifier::external_body]
pub(crate) fn bits_from_elem(nbits: usize, bit: bool) -> (r: BitVec<u32>)
    requires
        nbits <= i32::MAX,
    ensures
        bits(r) == Seq::new(nbits as nat, |i: int| bit),
{
    BitVec::from_elem(nbits, bit)
}

/// `bit_vec::BitVec::set`: the bit at `i` becomes `x`, the others stay. It panics where `i` is
/// out of bounds.
#[verifier::external_body]
pub(crate) fn bits_set(v: &mut BitVec<u32>, i: usize, x: bool)
    requires
        i < bits(*old(v)).len(),
    ensures
        bits(*final(v)) == bits(*old(v)).update(i as int, x),
{
    v.set(i, x)
}

/// `bit_vec::BitVec::all`: whether every bit is set.
#[verifier::external_body]
pub(crate) fn bits_all(v: &BitVec<u32>) -> (r: bool)
    ensures
        r == all_set(bits(*v)),
{
    v.all()
}

/// `bit_vec::BitVec::len`: how many bits there are.
#[verifier::external_body]
pub(crate) fn bits_len(v: &BitVec<u32>) -> (r: usize)
    ensures
        r == bits(*v).len(),
{
    v.len()
}

/// `clone` of `bit_vec::BitVec`: the same bits.
#[verifier::external_body]
pub(crate) fn bits_clone(v: &BitVec<u32>) -> (r: BitVec<u32>)
    ensures
        bits(r) == bits(*v),
{
    v.clone()
}

} // verus!
