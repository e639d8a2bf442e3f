//! The two forms in which a set leaves and enters the program: the list of its
//! members, and the integer that holds it.

use vstd::prelude::*;
use crate::bits::{
    bit_set, bits_below, lemma_bit_inserted, lemma_bit_set_determines, lemma_bit_set_of_and,
    lemma_bit_set_of_and_not, lemma_bit_set_of_low_part, lemma_bit_set_of_zero,
    lemma_low_part_of_small, lemma_zero_iff_no_bits, low_mask,
};
use crate::descriptor::{EnumDescriptor, EnumValue};
use crate::error::DecodeError;
use crate::iter::{ascending, indices, lemma_indices_of_push};
use crate::options::{SerializationPolicy, Strategy};
use crate::set::BigEnumSet;

verus! {

/// A set in one of its two serialized forms.
#[derive(Clone, Debug, PartialEq, Eq, Hash)]
pub enum Encoded {
    /// The members.
    List(Vec<EnumValue>),
    /// The integer that holds the set.
    Repr(u128),
}

impl Encoded {
    /// The strategy that this form belongs to.
    pub open spec fn strategy(self) -> Strategy {
        match self {
            Encoded::List(_) => Strategy::List,
            Encoded::Repr(_) => Strategy::Repr,
        }
    }
}

/// The set that a list of values is read as: each value is put into the set that the
/// values before it make, starting from the empty set.
pub open spec fn decoded_list(values: Seq<EnumValue>) -> BigEnumSet
    decreases values.len(),
{
    if values.len() == 0 {
        BigEnumSet::empty()
    } else {
        decoded_list(values.drop_last()).insert(values.last())
    }
}

/// The integer that a set is written as: the set's own integer, cut to the width of
/// the policy.
pub open spec fn repr_encoding(
    policy: SerializationPolicy,
    desc: &EnumDescriptor,
    set: BigEnumSet,
) -> u128 {
    set.bits() & low_mask(policy.width_for(desc).bits() as nat)
}

/// What an integer is read as: where the policy denies unknown bits and the integer
/// has a bit that stands for no value, an error; else the set of the values whose bits
/// are set.
pub open spec fn repr_decoding(
    policy: SerializationPolicy,
    desc: &EnumDescriptor,
    value: u128,
) -> Result<BigEnumSet, DecodeError> {
    if policy.deny_unknown_bits && !bit_set(value).subset_of(desc@.universe()) {
        Err(DecodeError::UnknownBitsOnDecode)
    } else {
        Ok(BigEnumSet::from_bits_truncated(desc, value))
    }
}

/// The members of the set that a list is read as are the values in the list, in
/// whatever order and however often they occur.
pub proof fn lemma_decoded_list_members(values: Seq<EnumValue>)
    requires
        forall|i: int| 0 <= i < values.len() ==> (#[trigger] values[i]).index() < 128,
    ensures
        decoded_list(values)@ == indices(values),
    decreases values.len(),
{
    if values.len() == 0 {
        lemma_bit_set_of_zero();
        assert(indices(values) =~= Set::<nat>::empty());
    } else {
        let front = values.drop_last();
        let last = values.last();
        lemma_decoded_list_members(front);
        lemma_bit_inserted(decoded_list(front).bits(), last.index());
        assert(values =~= front.push(last));
        lemma_indices_of_push(front, last);
        assert(indices(values) =~= indices(front).insert(last.index()));
    }
}

/// A set in normal form that is written as a list and read again is the same set.
pub proof fn law_list_round_trip(desc: &EnumDescriptor, set: BigEnumSet, encoded: Seq<EnumValue>)
    requires
        set.is_normal(desc),
        forall|i: int| 0 <= i < encoded.len() ==> (#[trigger] encoded[i]).in_range(),
        indices(encoded) == set@.intersect(desc@.universe()),
    ensures
        decoded_list(encoded) == set,
{
    lemma_decoded_list_members(encoded);
    assert(set@.intersect(desc@.universe()) =~= set@);
    lemma_bit_set_determines(decoded_list(encoded).bits(), set.bits());
}

/// What a list is read as depends on which values occur in it, not on their order
/// or on how often they occur.
pub proof fn law_list_order_free(first: Seq<EnumValue>, second: Seq<EnumValue>)
    requires
        forall|i: int| 0 <= i < first.len() ==> (#[trigger] first[i]).in_range(),
        forall|i: int| 0 <= i < second.len() ==> (#[trigger] second[i]).in_range(),
        indices(first) == indices(second),
    ensures
        decoded_list(first) == decoded_list(second),
{
    lemma_decoded_list_members(first);
    lemma_decoded_list_members(second);
    lemma_bit_set_determines(decoded_list(first).bits(), decoded_list(second).bits());
}

/// A set in normal form that is written as an integer and read again is the same
/// set, where the policy's width has a bit for every value.
pub proof fn law_repr_round_trip(policy: SerializationPolicy, desc: &EnumDescriptor, set: BigEnumSet)
    requires
        desc.valid(),
        policy.suits(desc),
        set.is_normal(desc),
    ensures
        repr_decoding(policy, desc, repr_encoding(policy, desc, set)) == Ok::<
            BigEnumSet,
            DecodeError,
        >(set),
{
    let written = repr_encoding(policy, desc, set);
    lemma_low_part_of_small(set.bits(), policy.width_for(desc).bits() as nat);
    assert(written == set.bits());
    lemma_bit_set_of_and(written, desc@.all_bits);
    assert(bit_set(written & desc@.all_bits) =~= bit_set(set.bits()));
    lemma_bit_set_determines(written & desc@.all_bits, set.bits());
}

/// With a policy that denies unknown bits, an integer is turned down if and only if
/// it has a bit that stands for no value; with one that does not, none is turned down.
pub proof fn law_unknown_bits(policy: SerializationPolicy, desc: &EnumDescriptor, value: u128)
    ensures
        repr_decoding(policy, desc, value) is Err <==> policy.deny_unknown_bits && (value
            & !desc@.all_bits) != 0,
        repr_decoding(policy, desc, value) is Err ==> repr_decoding(policy, desc, value) == Err::<
            BigEnumSet,
            DecodeError,
        >(DecodeError::UnknownBitsOnDecode),
{
    let unknown = value & !desc@.all_bits;
    lemma_bit_set_of_and_not(value, desc@.all_bits);
    lemma_zero_iff_no_bits(unknown);
    if bit_set(value).subset_of(desc@.universe()) {
        assert(bit_set(unknown) =~= Set::<nat>::empty());
    } else {
        let bit = choose|bit: nat| bit_set(value).contains(bit) && !desc@.universe().contains(bit);
        assert(bit_set(unknown).contains(bit));
    }
}

/// Writes a set as the list of its members that are values of `desc`, from the lowest
/// bit index up.
pub fn encode_list(desc: &EnumDescriptor, set: BigEnumSet) -> (r: Vec<EnumValue>)
    ensures
        ascending(r@),
        indices(r@) == set@.intersect(desc@.universe()),
        set.is_normal(desc) ==> indices(r@) == set@,
        r@.len() == set@.intersect(desc@.universe()).len(),
{
    set.to_vec(desc)
}

/// Reads a set from a list of values. The values may come in any order, and a value
/// that comes again changes nothing.
pub fn decode_list(values: &Vec<EnumValue>) -> (r: BigEnumSet)
    ensures
        r == decoded_list(values@),
        r@ == indices(values@),
{
    let mut set = BigEnumSet::empty();
    let mut i: usize = 0;
    proof {
        assert(indices(values@.take(0)) =~= Set::<nat>::empty());
    }
    while i < values.len()
        invariant
            i <= values.len(),
            set == decoded_list(values@.take(i as int)),
            set@ == indices(values@.take(i as int)),
        decreases values.len() - i,
    {
        let value = values[i];
        proof {
            let read = values@.take(i as int);
            assert(values@.take(i + 1) =~= read.push(value));
            assert(read.push(value).drop_last() =~= read);
            lemma_indices_of_push(read, value);
        }
        set = set.insert(value);
        i = i + 1;
    }
    proof {
        assert(values@.take(i as int) =~= values@);
    }
    set
}

/// Writes a set as an integer of the policy's width. A bit at or above that width is
/// cut off; a set in normal form has none where the policy suits the descriptor.
pub fn encode_repr(policy: SerializationPolicy, desc: &EnumDescriptor, set: BigEnumSet) -> (r: u128)
    ensures
        r == repr_encoding(policy, desc, set),
        bit_set(r) == bits_below(set.bits(), policy.width_for(desc).bits() as nat),
        r < policy.width_for(desc).limit(),
        policy.suits(desc) && set.is_normal(desc) ==> r == set.bits(),
{
    let width = policy.width_for(desc);
    proof {
        use_type_invariant(desc);
        lemma_bit_set_of_low_part(set.bits(), width.bits() as nat);
        if policy.suits(desc) && set.is_normal(desc) {
            lemma_low_part_of_small(set.bits(), width.bits() as nat);
        }
    }
    set.bits() & width.mask()
}

/// Reads a set from an integer.
///
/// Where the policy denies unknown bits, an integer with a bit that stands for no
/// value of `desc` is turned down. Where it does not, such bits are dropped.
pub fn decode_repr(policy: SerializationPolicy, desc: &EnumDescriptor, value: u128) -> (r: Result<
    BigEnumSet,
    DecodeError,
>)
    ensures
        r == repr_decoding(policy, desc, value),
        r is Err <==> policy.deny_unknown_bits && exists|bit: nat|
            bit_set(value).contains(bit) && !desc@.universe().contains(bit),
        r matches Ok(set) ==> set@ == bit_set(value).intersect(desc@.universe()) && set.is_normal(
            desc,
        ),
{
    let unknown = value & !desc.all_bits();
    proof {
        law_unknown_bits(policy, desc, value);
    }
    if policy.deny_unknown_bits && unknown != 0 {
        Err(DecodeError::UnknownBitsOnDecode)
    } else {
        Ok(BigEnumSet::from_bits_truncated(desc, value))
    }
}

impl SerializationPolicy {
    /// Writes a set in the form of this policy's strategy.
    pub fn encode(self, desc: &EnumDescriptor, set: BigEnumSet) -> (r: Encoded)
        ensures
            r.strategy() == self.strategy,
            match r {
                Encoded::List(values) => ascending(values@) && indices(values@) == set@.intersect(
                    desc@.universe(),
                ),
                Encoded::Repr(value) => value == repr_encoding(self, desc, set),
            },
    {
        match self.strategy {
            Strategy::List => Encoded::List(encode_list(desc, set)),
            Strategy::Repr => Encoded::Repr(encode_repr(self, desc, set)),
        }
    }

    /// Reads a set from the form of this policy's strategy.
    pub fn decode(self, desc: &EnumDescriptor, encoded: &Encoded) -> (r: Result<
        BigEnumSet,
        DecodeError,
    >)
        requires
            encoded.strategy() == self.strategy,
        ensures
            r == match *encoded {
                Encoded::List(values) => Ok(decoded_list(values@)),
                Encoded::Repr(value) => repr_decoding(self, desc, value),
            },
    {
        match encoded {
            Encoded::List(values) => Ok(decode_list(values)),
            Encoded::Repr(value) => decode_repr(self, desc, *value),
        }
    }
}

} // verus!
