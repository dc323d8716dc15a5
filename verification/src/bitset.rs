//! Trusted boundary around `fixedbitset::FixedBitSet`, the packed bit buffer
//! that backs the grid. Each wrapper states, over the abstract contents
//! `bits_of`, what the crate's own source shows of the method it calls.

use vstd::prelude::*;
use fixedbitset::FixedBitSet;

verus! {

#[verifier::external_type_specification]
#[verifier::external_body]
pub struct ExFixedBitSet(FixedBitSet);

/// The sequence of booleans a `FixedBitSet` holds, one per bit, in bit order.
pub uninterp spec fn bits_of(s: FixedBitSet) -> Seq<bool>;

/// Relies on `FixedBitSet::with_capacity`: a set of `bits` bits, all zero.
#[verifier::external_body]
pub(crate) fn bits_new(bits: usize) -> (r: FixedBitSet)
    ensures
        bits_of(r) == Seq::new(bits as nat, |i: int| false),
{
    FixedBitSet::with_capacity(bits)
}

/// Relies on `FixedBitSet::contains`: whether bit `bit` is enabled.
#[verifier::external_body]
pub(crate) fn bits_get(s: &FixedBitSet, bit: usize) -> (r: bool)
    requires
        bit < bits_of(*s).len(),
    ensures
        r == bits_of(*s)[bit as int],
{
    s.contains(bit)
}

/// Relies on `FixedBitSet::set`: writes bit `bit`; panics out of range,
/// which the precondition rules out.
#[verifier::external_body]
pub(crate) fn bits_set(s: &mut FixedBitSet, bit: usize, enabled: bool)
    requires
        bit < bits_of(*old(s)).len(),
    ensures
        bits_of(*final(s)) == bits_of(*old(s)).update(bit as int, enabled),
{
    s.set(bit, enabled)
}

/// Relies on `FixedBitSet::clone`: an equal copy of the data and length.
#[verifier::external_body]
pub(crate) fn bits_clone(s: &FixedBitSet) -> (r: FixedBitSet)
    ensures
        bits_of(r) == bits_of(*s),
{
    s.clone()
}

} // verus!
