//! The fixed-length bit store that holds a generation of cells: the
//! `bit_vec::BitVec` type and the few operations on it that the engine
//! uses, each stated over the sequence of booleans the vector holds.

use vstd::prelude::*;

verus! {

#[verifier::external_type_specification]
#[verifier::external_body]
#[verifier::reject_recursive_types(B)]
pub struct ExBitVec<B>(bit_vec::BitVec<B>);

/// The bits a `bit_vec::BitVec` holds, in index order.
pub uninterp spec fn bit_seq(bv: bit_vec::BitVec) -> Seq<bool>;

/// Relies on `bit_vec::BitVec::from_elem`: a vector of `len` bits, each
/// equal to `bit`.
#[verifier::external_body]
pub(crate) fn bv_from_elem(len: usize, bit: bool) -> (r: bit_vec::BitVec)
    ensures
        bit_seq(r) == Seq::new(len as nat, |_i: int| bit),
{
    bit_vec::BitVec::from_elem(len, bit)
}

/// Relies on `bit_vec::BitVec::len`: the number of bits in the vector.
#[verifier::external_body]
pub(crate) fn bv_len(bv: &bit_vec::BitVec) -> (r: usize)
    ensures
        r == bit_seq(*bv).len(),
{
    bv.len()
}

/// Relies on `bit_vec::BitVec::get`: `Some` of bit `i` when `i` is in
/// bounds, `None` otherwise.
#[verifier::external_body]
pub(crate) fn bv_get(bv: &bit_vec::BitVec, i: usize) -> (r: Option<bool>)
    ensures
        i < bit_seq(*bv).len() ==> r == Some(bit_seq(*bv)[i as int]),
        i >= bit_seq(*bv).len() ==> r == None::<bool>,
{
    bv.get(i)
}

/// Relies on `bit_vec::BitVec::set`: overwrites bit `i`; the call panics
/// when `i` is out of bounds, so that is required away.
#[verifier::external_body]
pub(crate) fn bv_set(bv: &mut bit_vec::BitVec, i: usize, x: bool)
    requires
        i < bit_seq(*old(bv)).len(),
    ensures
        bit_seq(*final(bv)) == bit_seq(*old(bv)).update(i as int, x),
{
    bv.set(i, x)
}

} // verus!
