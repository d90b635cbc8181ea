//! Sets of nodes, held in a bit set of the `bit-set` crate.
//!
//! Everything in this module that touches a set is taken on trust from that crate.
use bit_set::BitSet;
use vstd::prelude::*;

verus! {

/// `bit_set::BitSet`: a set of numbers.
#[verifier::external_type_specification]
#[verifier::external_body]
#[verifier::reject_recursive_types(B)]
pub struct ExBitSet<B>(BitSet<B>);

/// The numbers that a set holds.
pub uninterp spec fn members(set: BitSet) -> Set<usize>;

/// Whether a sequence lists the members of a set once each, in ascending order.
pub open spec fn lists(s: Seq<usize>, members: Set<usize>) -> bool {
    &&& forall|i: int, j: int| 0 <= i < j < s.len() ==> s[i] < s[j]
    &&& forall|n: usize| members.contains(n) <==> s.contains(n)
}

/// `bit_set::BitSet::new`: the empty set.
#[verifier::external_body]
pub(crate) fn empty() -> (set: BitSet)
    ensures
        members(set) == Set::<usize>::empty(),
{
    BitSet::new()
}

/// `bit_set::BitSet::insert`: adds a number, and tells whether it was new. The set takes a bit
/// for every number up to the largest it holds: it panics on the largest `usize`, and numbers of
/// more than 32 bits are left out, for which no machine has the memory.
#[verifier::external_body]
pub(crate) fn insert(set: &mut BitSet, value: usize) -> (new: bool)
    requires
        value < usize::MAX,
        value <= u32::MAX,
    ensures
        new == !members(*old(set)).contains(value),
        members(*final(set)) == members(*old(set)).insert(value),
{
    set.insert(value)
}

/// `bit_set::BitSet::contains`: whether a number is in the set.
#[verifier::external_body]
pub(crate) fn contains(set: &BitSet, value: usize) -> (b: bool)
    ensures
        b == members(*set).contains(value),
{
    set.contains(value)
}

/// `<bit_set::BitSet as PartialEq>::eq`: whether two sets hold the same numbers.
#[verifier::external_body]
pub(crate) fn same(a: &BitSet, b: &BitSet) -> (r: bool)
    ensures
        r == (members(*a) == members(*b)),
{
    a == b
}

/// `<bit_set::BitSet as Clone>::clone`: another set with the same numbers.
#[verifier::external_body]
pub(crate) fn clone(set: &BitSet) -> (copy: BitSet)
    ensures
        members(copy) == members(*set),
{
    set.clone()
}

/// `bit_set::BitSet::iter`: the numbers in the set, once each, in ascending order.
#[verifier::external_body]
pub(crate) fn to_vec(set: &BitSet) -> (v: Vec<usize>)
    ensures
        lists(v@, members(*set)),
{
    set.iter().collect()
}

} // verus!
