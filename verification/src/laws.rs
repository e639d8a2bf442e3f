//! What holds of the set operations, whatever the sets.

use vstd::prelude::*;
use crate::bits::{
    lemma_bit_inserted, lemma_bit_removed, lemma_bit_set_determines, lemma_bit_set_of_and,
    lemma_bit_set_of_and_not, lemma_bit_set_of_or, lemma_bit_set_of_single, lemma_bit_set_of_xor,
    lemma_bit_set_of_zero, lemma_low_part_of_small,
};
use crate::descriptor::{EnumDescriptor, EnumValue};
use crate::set::BigEnumSet;

verus! {

/// Two sets with the same members are the same set.
pub proof fn law_members_determine_set(a: BigEnumSet, b: BigEnumSet)
    requires
        a@ == b@,
    ensures
        a == b,
{
    lemma_bit_set_determines(a.bits(), b.bits());
}

/// The members of what each operation on two sets gives.
pub proof fn law_members_of_combinations(a: BigEnumSet, b: BigEnumSet)
    ensures
        BigEnumSet::empty()@ == Set::<nat>::empty(),
        a.union(b)@ == a@.union(b@),
        a.intersect(b)@ == a@.intersect(b@),
        a.difference(b)@ == a@.difference(b@),
        a.symmetric_difference(b)@ == a@.difference(b@).union(b@.difference(a@)),
{
    lemma_bit_set_of_zero();
    lemma_bit_set_of_or(a.bits(), b.bits());
    lemma_bit_set_of_and(a.bits(), b.bits());
    lemma_bit_set_of_and_not(a.bits(), b.bits());
    lemma_bit_set_of_xor(a.bits(), b.bits());
}

/// The members of what each operation with one value gives.
pub proof fn law_members_with_value(a: BigEnumSet, value: EnumValue)
    requires
        value.in_range(),
    ensures
        BigEnumSet::only(value)@ == Set::<nat>::empty().insert(value.index()),
        a.insert(value)@ == a@.insert(value.index()),
        a.remove(value)@ == a@.remove(value.index()),
{
    lemma_bit_set_of_single(value.index());
    lemma_bit_inserted(a.bits(), value.index());
    lemma_bit_removed(a.bits(), value.index());
}

/// The members of the complement, and of the set of all values.
pub proof fn law_members_of_complement(desc: &EnumDescriptor, a: BigEnumSet)
    ensures
        BigEnumSet::all(desc)@ == desc@.universe(),
        a.complement(desc)@ == desc@.universe().difference(a@),
{
    lemma_bit_set_of_and_not(desc@.all_bits, a.bits());
}

/// Union does not depend on the order of its operands.
pub proof fn law_union_commutative(a: BigEnumSet, b: BigEnumSet)
    ensures
        a.union(b) == b.union(a),
{
    law_members_of_combinations(a, b);
    law_members_of_combinations(b, a);
    assert(a.union(b)@ =~= b.union(a)@);
    law_members_determine_set(a.union(b), b.union(a));
}

/// Union does not depend on how its operands are grouped.
pub proof fn law_union_associative(a: BigEnumSet, b: BigEnumSet, c: BigEnumSet)
    ensures
        a.union(b).union(c) == a.union(b.union(c)),
{
    law_members_of_combinations(a, b);
    law_members_of_combinations(a.union(b), c);
    law_members_of_combinations(b, c);
    law_members_of_combinations(a, b.union(c));
    assert(a.union(b).union(c)@ =~= a.union(b.union(c))@);
    law_members_determine_set(a.union(b).union(c), a.union(b.union(c)));
}

/// Intersection does not depend on the order of its operands.
pub proof fn law_intersect_commutative(a: BigEnumSet, b: BigEnumSet)
    ensures
        a.intersect(b) == b.intersect(a),
{
    law_members_of_combinations(a, b);
    law_members_of_combinations(b, a);
    assert(a.intersect(b)@ =~= b.intersect(a)@);
    law_members_determine_set(a.intersect(b), b.intersect(a));
}

/// Intersection does not depend on how its operands are grouped.
pub proof fn law_intersect_associative(a: BigEnumSet, b: BigEnumSet, c: BigEnumSet)
    ensures
        a.intersect(b).intersect(c) == a.intersect(b.intersect(c)),
{
    law_members_of_combinations(a, b);
    law_members_of_combinations(a.intersect(b), c);
    law_members_of_combinations(b, c);
    law_members_of_combinations(a, b.intersect(c));
    assert(a.intersect(b).intersect(c)@ =~= a.intersect(b.intersect(c))@);
    law_members_determine_set(a.intersect(b).intersect(c), a.intersect(b.intersect(c)));
}

/// The complement of a union is the intersection of the complements.
pub proof fn law_de_morgan(desc: &EnumDescriptor, a: BigEnumSet, b: BigEnumSet)
    ensures
        a.union(b).complement(desc) == a.complement(desc).intersect(b.complement(desc)),
{
    let left = a.union(b).complement(desc);
    let right = a.complement(desc).intersect(b.complement(desc));
    law_members_of_combinations(a, b);
    law_members_of_complement(desc, a.union(b));
    law_members_of_complement(desc, a);
    law_members_of_complement(desc, b);
    law_members_of_combinations(a.complement(desc), b.complement(desc));
    assert(left@ =~= right@);
    law_members_determine_set(left, right);
}

/// A set in normal form and its complement make up all values.
pub proof fn law_union_with_complement(desc: &EnumDescriptor, a: BigEnumSet)
    requires
        a.is_normal(desc),
    ensures
        a.union(a.complement(desc)) == BigEnumSet::all(desc),
{
    let whole = a.union(a.complement(desc));
    law_members_of_complement(desc, a);
    law_members_of_combinations(a, a.complement(desc));
    assert(whole@ =~= BigEnumSet::all(desc)@);
    law_members_determine_set(whole, BigEnumSet::all(desc));
}

/// A set and its complement share no value.
pub proof fn law_intersect_with_complement(desc: &EnumDescriptor, a: BigEnumSet)
    ensures
        a.intersect(a.complement(desc)) == BigEnumSet::empty(),
{
    let shared = a.intersect(a.complement(desc));
    law_members_of_complement(desc, a);
    law_members_of_combinations(a, a.complement(desc));
    assert(shared@ =~= BigEnumSet::empty()@);
    law_members_determine_set(shared, BigEnumSet::empty());
}

/// The complement of the complement of a set in normal form is the set.
pub proof fn law_complement_involution(desc: &EnumDescriptor, a: BigEnumSet)
    requires
        a.is_normal(desc),
    ensures
        a.complement(desc).complement(desc) == a,
{
    let twice = a.complement(desc).complement(desc);
    law_members_of_complement(desc, a);
    law_members_of_complement(desc, a.complement(desc));
    assert(twice@ =~= a@);
    law_members_determine_set(twice, a);
}

/// Putting a value into a set that lacks it and taking it out again gives the set back.
pub proof fn law_insert_then_remove(a: BigEnumSet, value: EnumValue)
    requires
        value.in_range(),
        !a@.contains(value.index()),
    ensures
        a.insert(value).remove(value) == a,
{
    law_members_with_value(a, value);
    law_members_with_value(a.insert(value), value);
    assert(a.insert(value).remove(value)@ =~= a@);
    law_members_determine_set(a.insert(value).remove(value), a);
}

/// Taking a member out of a set and putting it in again gives the set back.
pub proof fn law_remove_then_insert(a: BigEnumSet, value: EnumValue)
    requires
        value.in_range(),
        a@.contains(value.index()),
    ensures
        a.remove(value).insert(value) == a,
{
    law_members_with_value(a, value);
    law_members_with_value(a.remove(value), value);
    assert(a.remove(value).insert(value)@ =~= a@);
    law_members_determine_set(a.remove(value).insert(value), a);
}

/// Putting a value in twice is putting it in once, and likewise for taking it out.
pub proof fn law_insert_remove_idempotent(a: BigEnumSet, value: EnumValue)
    requires
        value.in_range(),
    ensures
        a.insert(value).insert(value) == a.insert(value),
        a.remove(value).remove(value) == a.remove(value),
{
    law_members_with_value(a, value);
    law_members_with_value(a.insert(value), value);
    law_members_with_value(a.remove(value), value);
    assert(a.insert(value).insert(value)@ =~= a.insert(value)@);
    assert(a.remove(value).remove(value)@ =~= a.remove(value)@);
    law_members_determine_set(a.insert(value).insert(value), a.insert(value));
    law_members_determine_set(a.remove(value).remove(value), a.remove(value));
}

/// The operations on sets in normal form give sets in normal form.
pub proof fn law_normal_form_closed(desc: &EnumDescriptor, a: BigEnumSet, b: BigEnumSet)
    requires
        a.is_normal(desc),
        b.is_normal(desc),
    ensures
        BigEnumSet::empty().is_normal(desc),
        BigEnumSet::all(desc).is_normal(desc),
        a.union(b).is_normal(desc),
        a.intersect(b).is_normal(desc),
        a.difference(b).is_normal(desc),
        a.symmetric_difference(b).is_normal(desc),
        a.complement(desc).is_normal(desc),
{
    law_members_of_combinations(a, b);
    law_members_of_complement(desc, a);
}

/// A set in normal form fits an integer of the descriptor's width.
pub proof fn law_normal_set_fits_width(desc: &EnumDescriptor, a: BigEnumSet)
    requires
        desc.valid(),
        a.is_normal(desc),
    ensures
        a.bits() < desc@.width_class.limit(),
{
    lemma_low_part_of_small(a.bits(), desc@.width_class.bits() as nat);
    desc@.width_class.lemma_low_mask_is_largest();
}

/// Putting in a value of the descriptor, or taking out any value, keeps a set in
/// normal form; the set of one value of the descriptor is in normal form.
pub proof fn law_normal_form_kept_by_value(desc: &EnumDescriptor, a: BigEnumSet, value: EnumValue)
    requires
        a.is_normal(desc),
        value.in_range(),
    ensures
        a.remove(value).is_normal(desc),
        desc@.universe().contains(value.index()) ==> a.insert(value).is_normal(desc),
        desc@.universe().contains(value.index()) ==> BigEnumSet::only(value).is_normal(desc),
{
    law_members_with_value(a, value);
}

} // verus!
