//! Sets of the values of one enumeration, each kept in a single integer.

use vstd::prelude::*;
use crate::bits::{
    bit_set, count_bits, lemma_bit_inserted, lemma_bit_removed, lemma_bit_set_determines,
    lemma_bit_set_of_and, lemma_bit_set_of_and_not, lemma_bit_set_of_or, lemma_bit_set_of_single,
    lemma_bit_set_of_xor, lemma_bit_set_of_zero, lemma_zero_iff_no_bits, test_bit,
};
use crate::descriptor::{EnumDescriptor, EnumValue};

verus! {

/// A set of values of one enumeration: bit `i` of one integer tells whether the value
/// with bit index `i` is a member.
///
/// The set does not know its enumeration. It is in normal form for a descriptor when
/// every set bit stands for a value of that descriptor.
#[derive(Clone, Copy, Debug, PartialEq, Eq, Structural, Hash)]
pub struct BigEnumSet {
    pub(crate) raw: u128,
}

impl View for BigEnumSet {
    type V = Set<nat>;

    /// The bit indices of the members.
    open(crate) spec fn view(&self) -> Set<nat> {
        bit_set(self.raw)
    }
}

impl BigEnumSet {
    pub open(crate) spec fn spec_bits(self) -> u128 {
        self.raw
    }

    /// The integer that holds the set.
    #[verifier::when_used_as_spec(spec_bits)]
    pub fn bits(self) -> (r: u128)
        ensures
            r == self.spec_bits(),
            bit_set(r) == self@,
    {
        self.raw
    }

    pub open(crate) spec fn spec_from_bits_unchecked(bits: u128) -> BigEnumSet {
        BigEnumSet { raw: bits }
    }

    /// The set that `bits` holds, taken as it is: it may not be in normal form.
    #[verifier::when_used_as_spec(spec_from_bits_unchecked)]
    pub fn from_bits_unchecked(bits: u128) -> (r: BigEnumSet)
        ensures
            r == BigEnumSet::spec_from_bits_unchecked(bits),
            r@ == bit_set(bits),
            r.bits() == bits,
    {
        BigEnumSet { raw: bits }
    }

    /// Every member is a value of `desc`.
    pub open spec fn spec_is_normal(self, desc: &EnumDescriptor) -> bool {
        self@.subset_of(desc@.universe())
    }

    /// Whether every member is a value of `desc`.
    #[verifier::when_used_as_spec(spec_is_normal)]
    pub fn is_normal(self, desc: &EnumDescriptor) -> (r: bool)
        ensures
            r == self.spec_is_normal(desc),
    {
        let outside = self.raw & !desc.all_bits();
        proof {
            lemma_bit_set_of_and_not(self.raw, desc@.all_bits);
            lemma_zero_iff_no_bits(outside);
            if self@.subset_of(desc@.universe()) {
                assert(bit_set(outside) =~= Set::<nat>::empty());
            }
            if outside == 0 {
                assert forall|i: nat| self@.contains(i) implies desc@.universe().contains(i) by {
                    assert(!bit_set(outside).contains(i));
                }
            }
        }
        outside == 0
    }

    /// The set that `bits` holds, if it is in normal form for `desc`.
    pub fn try_from_bits(desc: &EnumDescriptor, bits: u128) -> (r: Option<BigEnumSet>)
        ensures
            r == if bit_set(bits).subset_of(desc@.universe()) {
                Some(BigEnumSet::from_bits_unchecked(bits))
            } else {
                None
            },
    {
        let set = BigEnumSet { raw: bits };
        if set.is_normal(desc) {
            Some(set)
        } else {
            None
        }
    }

    pub open(crate) spec fn spec_from_bits_truncated(desc: &EnumDescriptor, bits: u128) -> BigEnumSet {
        BigEnumSet { raw: bits & desc@.all_bits }
    }

    /// The set that `bits` holds, without the bits that stand for no value of `desc`.
    #[verifier::when_used_as_spec(spec_from_bits_truncated)]
    pub fn from_bits_truncated(desc: &EnumDescriptor, bits: u128) -> (r: BigEnumSet)
        ensures
            r == BigEnumSet::spec_from_bits_truncated(desc, bits),
            r@ == bit_set(bits).intersect(desc@.universe()),
            r.is_normal(desc),
    {
        proof {
            lemma_bit_set_of_and(bits, desc@.all_bits);
        }
        BigEnumSet { raw: bits & desc.all_bits() }
    }

    pub open(crate) spec fn spec_empty() -> BigEnumSet {
        BigEnumSet { raw: 0 }
    }

    /// The set without members.
    #[verifier::when_used_as_spec(spec_empty)]
    pub fn empty() -> (r: BigEnumSet)
        ensures
            r == BigEnumSet::spec_empty(),
            r@ == Set::<nat>::empty(),
    {
        proof {
            lemma_bit_set_of_zero();
        }
        BigEnumSet { raw: 0 }
    }

    pub open(crate) spec fn spec_all(desc: &EnumDescriptor) -> BigEnumSet {
        BigEnumSet { raw: desc@.all_bits }
    }

    /// The set of all values of `desc`.
    #[verifier::when_used_as_spec(spec_all)]
    pub fn all(desc: &EnumDescriptor) -> (r: BigEnumSet)
        ensures
            r == BigEnumSet::spec_all(desc),
            r@ == desc@.universe(),
    {
        BigEnumSet { raw: desc.all_bits() }
    }

    pub open(crate) spec fn spec_only(value: EnumValue) -> BigEnumSet {
        BigEnumSet { raw: 1u128 << (value.index() as u128) }
    }

    /// The set whose one member is `value`.
    #[verifier::when_used_as_spec(spec_only)]
    pub fn only(value: EnumValue) -> (r: BigEnumSet)
        ensures
            r == BigEnumSet::spec_only(value),
            r@ == Set::<nat>::empty().insert(value.index()),
    {
        let bit = value.bit_index();
        proof {
            lemma_bit_set_of_single(bit as nat);
        }
        BigEnumSet { raw: 1u128 << (bit as u128) }
    }

    pub open(crate) spec fn spec_insert(self, value: EnumValue) -> BigEnumSet {
        BigEnumSet { raw: self.raw | (1u128 << (value.index() as u128)) }
    }

    /// This set and `value`.
    #[verifier::when_used_as_spec(spec_insert)]
    pub fn insert(self, value: EnumValue) -> (r: BigEnumSet)
        ensures
            r == self.spec_insert(value),
            r@ == self@.insert(value.index()),
    {
        let bit = value.bit_index();
        proof {
            lemma_bit_inserted(self.raw, bit as nat);
        }
        BigEnumSet { raw: self.raw | (1u128 << (bit as u128)) }
    }

    pub open(crate) spec fn spec_remove(self, value: EnumValue) -> BigEnumSet {
        BigEnumSet { raw: self.raw & !(1u128 << (value.index() as u128)) }
    }

    /// This set without `value`.
    #[verifier::when_used_as_spec(spec_remove)]
    pub fn remove(self, value: EnumValue) -> (r: BigEnumSet)
        ensures
            r == self.spec_remove(value),
            r@ == self@.remove(value.index()),
    {
        let bit = value.bit_index();
        proof {
            lemma_bit_removed(self.raw, bit as nat);
        }
        BigEnumSet { raw: self.raw & !(1u128 << (bit as u128)) }
    }

    /// Whether `value` is a member.
    pub fn contains(self, value: EnumValue) -> (r: bool)
        ensures
            r == self@.contains(value.index()),
    {
        test_bit(self.raw, value.bit_index())
    }

    pub open(crate) spec fn spec_union(self, other: BigEnumSet) -> BigEnumSet {
        BigEnumSet { raw: self.raw | other.raw }
    }

    /// The values that are in this set or in `other`.
    #[verifier::when_used_as_spec(spec_union)]
    pub fn union(self, other: BigEnumSet) -> (r: BigEnumSet)
        ensures
            r == self.spec_union(other),
            r@ == self@.union(other@),
    {
        proof {
            lemma_bit_set_of_or(self.raw, other.raw);
        }
        BigEnumSet { raw: self.raw | other.raw }
    }

    pub open(crate) spec fn spec_intersect(self, other: BigEnumSet) -> BigEnumSet {
        BigEnumSet { raw: self.raw & other.raw }
    }

    /// The values that are in this set and in `other`.
    #[verifier::when_used_as_spec(spec_intersect)]
    pub fn intersect(self, other: BigEnumSet) -> (r: BigEnumSet)
        ensures
            r == self.spec_intersect(other),
            r@ == self@.intersect(other@),
    {
        proof {
            lemma_bit_set_of_and(self.raw, other.raw);
        }
        BigEnumSet { raw: self.raw & other.raw }
    }

    pub open(crate) spec fn spec_difference(self, other: BigEnumSet) -> BigEnumSet {
        BigEnumSet { raw: self.raw & !other.raw }
    }

    /// The values that are in this set and not in `other`.
    #[verifier::when_used_as_spec(spec_difference)]
    pub fn difference(self, other: BigEnumSet) -> (r: BigEnumSet)
        ensures
            r == self.spec_difference(other),
            r@ == self@.difference(other@),
    {
        proof {
            lemma_bit_set_of_and_not(self.raw, other.raw);
        }
        BigEnumSet { raw: self.raw & !other.raw }
    }

    pub open(crate) spec fn spec_symmetric_difference(self, other: BigEnumSet) -> BigEnumSet {
        BigEnumSet { raw: self.raw ^ other.raw }
    }

    /// The values that are in exactly one of this set and `other`.
    #[verifier::when_used_as_spec(spec_symmetric_difference)]
    pub fn symmetric_difference(self, other: BigEnumSet) -> (r: BigEnumSet)
        ensures
            r == self.spec_symmetric_difference(other),
            r@ == self@.difference(other@).union(other@.difference(self@)),
    {
        proof {
            lemma_bit_set_of_xor(self.raw, other.raw);
        }
        BigEnumSet { raw: self.raw ^ other.raw }
    }

    pub open(crate) spec fn spec_complement(self, desc: &EnumDescriptor) -> BigEnumSet {
        BigEnumSet { raw: desc@.all_bits & !self.raw }
    }

    /// The values of `desc` that are not in this set.
    #[verifier::when_used_as_spec(spec_complement)]
    pub fn complement(self, desc: &EnumDescriptor) -> (r: BigEnumSet)
        ensures
            r == self.spec_complement(desc),
            r@ == desc@.universe().difference(self@),
            r.is_normal(desc),
    {
        proof {
            lemma_bit_set_of_and_not(desc@.all_bits, self.raw);
        }
        BigEnumSet { raw: desc.all_bits() & !self.raw }
    }

    /// The number of members.
    pub fn len(self) -> (r: usize)
        ensures
            r == self@.len(),
    {
        count_bits(self.raw)
    }

    /// Whether the set has no member.
    pub fn is_empty(self) -> (r: bool)
        ensures
            r == (self@ == Set::<nat>::empty()),
            r == (self == BigEnumSet::empty()),
    {
        proof {
            lemma_zero_iff_no_bits(self.raw);
        }
        self.raw == 0
    }

    /// Whether the members are exactly the values of `desc`.
    pub fn is_all(self, desc: &EnumDescriptor) -> (r: bool)
        ensures
            r == (self@ == desc@.universe()),
            r == (self == BigEnumSet::all(desc)),
    {
        proof {
            if self@ == desc@.universe() {
                lemma_bit_set_determines(self.raw, desc@.all_bits);
            }
        }
        self.raw == desc.all_bits()
    }

    /// Whether `value` is the one member.
    pub fn is_only(self, value: EnumValue) -> (r: bool)
        ensures
            r == (self@ == Set::<nat>::empty().insert(value.index())),
            r == (self == BigEnumSet::only(value)),
    {
        let single = BigEnumSet::only(value);
        proof {
            if self@ == single@ {
                lemma_bit_set_determines(self.raw, single.raw);
            }
        }
        self.raw == single.raw
    }
}

} // verus!
