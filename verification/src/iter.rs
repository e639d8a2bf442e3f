//! Walking through the members of a set.

use vstd::prelude::*;
use crate::bits::{
    bit_set, has_bit, lemma_bit_removed, lemma_bit_set_finite, lemma_bit_set_of_and, test_bit,
};
use crate::descriptor::{EnumDescriptor, EnumValue};
use crate::set::BigEnumSet;

verus! {

/// The bit indices of the values in `values`.
pub open spec fn indices(values: Seq<EnumValue>) -> Set<nat> {
    Set::new(|bit: nat| exists|i: int| 0 <= i < values.len() && #[trigger] values[i].index() == bit)
}

/// The bit indices in `values` go up from each value to the next.
pub open spec fn ascending(values: Seq<EnumValue>) -> bool {
    forall|i: int, j: int|
        0 <= i < j < values.len() ==> (#[trigger] values[i]).index() < (#[trigger] values[j]).index()
}

/// A value added at the end of a sequence adds its bit index to the sequence's.
pub proof fn lemma_indices_of_push(values: Seq<EnumValue>, value: EnumValue)
    ensures
        indices(values.push(value)) == indices(values).insert(value.index()),
{
    let longer = values.push(value);
    assert forall|bit: nat| indices(longer).contains(bit) <==> indices(values).contains(bit) || bit
        == value.index() by {
        if indices(longer).contains(bit) {
            let i = choose|i: int| 0 <= i < longer.len() && #[trigger] longer[i].index() == bit;
            if i < values.len() {
                assert(values[i].index() == bit);
            }
        }
        if indices(values).contains(bit) {
            let i = choose|i: int| 0 <= i < values.len() && #[trigger] values[i].index() == bit;
            assert(longer[i].index() == bit);
        }
        if bit == value.index() {
            assert(longer[values.len() as int].index() == bit);
        }
    }
    assert(indices(longer) =~= indices(values).insert(value.index()));
}

/// Without its last value, an ascending sequence is ascending, and its bit indices are
/// the same without the last one, which is the largest.
proof fn lemma_ascending_front(values: Seq<EnumValue>)
    requires
        ascending(values),
        values.len() > 0,
    ensures
        ascending(values.drop_last()),
        indices(values.drop_last()) == indices(values).remove(values.last().index()),
        forall|bit: nat| indices(values).contains(bit) ==> bit <= values.last().index(),
        indices(values).contains(values.last().index()),
{
    let front = values.drop_last();
    let last = values.last();
    assert(values =~= front.push(last));
    lemma_indices_of_push(front, last);
    assert forall|bit: nat| indices(front).contains(bit) implies bit < last.index() by {
        let i = choose|i: int| 0 <= i < front.len() && #[trigger] front[i].index() == bit;
        assert(values[i].index() < values[values.len() - 1].index());
    }
    assert(indices(front) =~= indices(values).remove(last.index()));
}

/// An ascending sequence has as many values as bit indices.
pub proof fn lemma_ascending_len(values: Seq<EnumValue>)
    requires
        ascending(values),
    ensures
        indices(values).finite(),
        indices(values).len() == values.len(),
    decreases values.len(),
{
    if values.len() == 0 {
        assert(indices(values) =~= Set::<nat>::empty());
    } else {
        lemma_ascending_front(values);
        lemma_ascending_len(values.drop_last());
        assert(indices(values) =~= indices(values.drop_last()).insert(values.last().index()));
    }
}

/// There is one way to list given values in ascending order: two ascending sequences
/// with the same bit indices are the same sequence.
pub proof fn law_ascending_order_is_unique(first: Seq<EnumValue>, second: Seq<EnumValue>)
    requires
        ascending(first),
        ascending(second),
        indices(first) == indices(second),
    ensures
        first == second,
    decreases first.len(),
{
    if first.len() == 0 {
        if second.len() > 0 {
            assert(indices(second).contains(second[0].index()));
            let i = choose|i: int|
                0 <= i < first.len() && #[trigger] first[i].index() == second[0].index();
        }
        assert(first =~= second);
    } else {
        assert(indices(first).contains(first[0].index()));
        if second.len() == 0 {
            let i = choose|i: int|
                0 <= i < second.len() && #[trigger] second[i].index() == first[0].index();
        }
        lemma_ascending_front(first);
        lemma_ascending_front(second);
        first.last().lemma_index_determines(second.last());
        law_ascending_order_is_unique(first.drop_last(), second.drop_last());
        assert(first =~= first.drop_last().push(first.last()));
        assert(second =~= second.drop_last().push(second.last()));
    }
}

/// The members of a set that are still to come, from the lowest bit index up.
///
/// It holds its own copy of the set's integer, so walking through it leaves the set
/// as it is, and a new walk can start at any time.
#[derive(Clone, Copy, Debug)]
pub struct Members {
    rest: u128,
    from: u8,
}

impl View for Members {
    type V = Set<nat>;

    /// The bit indices of the members still to come.
    closed spec fn view(&self) -> Set<nat> {
        bit_set(self.rest)
    }
}

impl Members {
    #[verifier::type_invariant]
    spec fn passed_bits_are_clear(&self) -> bool {
        &&& self.from <= 128
        &&& forall|i: nat| i < self.from ==> !has_bit(self.rest, i)
    }

    /// The member with the lowest bit index among those still to come, which then
    /// is no longer to come; `None` when none is left.
    pub fn next(&mut self) -> (r: Option<EnumValue>)
        ensures
            match r {
                Some(value) => {
                    &&& old(self)@.contains(value.index())
                    &&& forall|i: nat| old(self)@.contains(i) ==> value.index() <= i
                    &&& final(self)@ == old(self)@.remove(value.index())
                },
                None => old(self)@ == Set::<nat>::empty() && final(self)@ == Set::<nat>::empty(),
            },
    {
        proof {
            use_type_invariant(&*self);
        }
        while self.from < 128
            invariant
                self.from <= 128,
                self.rest == old(self).rest,
                forall|i: nat| i < self.from ==> !has_bit(self.rest, i),
            decreases 128 - self.from,
        {
            let bit = self.from;
            if test_bit(self.rest, bit) {
                proof {
                    lemma_bit_removed(self.rest, bit as nat);
                    assert forall|i: nat| bit_set(self.rest).contains(i) implies bit <= i by {
                        assert(has_bit(self.rest, i));
                    }
                    let cleared = self.rest & !(1u128 << (bit as u128));
                    assert forall|i: nat| i < bit + 1 implies !#[trigger] has_bit(cleared, i) by {
                        assert(bit_set(cleared).contains(i) == bit_set(self.rest).remove(
                            bit as nat,
                        ).contains(i));
                    }
                }
                self.rest = self.rest & !(1u128 << (bit as u128));
                self.from = bit + 1;
                return Some(EnumValue::from_bit(bit));
            }
            self.from = bit + 1;
        }
        proof {
            assert(bit_set(self.rest) =~= Set::<nat>::empty());
        }
        None
    }
}

impl BigEnumSet {
    /// The members that are values of `desc`, to be walked through from the lowest
    /// bit index up. A bit that stands for no value of `desc` is passed over.
    pub fn iterate(self, desc: &EnumDescriptor) -> (r: Members)
        ensures
            r@ == self@.intersect(desc@.universe()),
            self.is_normal(desc) ==> r@ == self@,
    {
        let rest = self.bits() & desc.all_bits();
        proof {
            lemma_bit_set_of_and(self.bits(), desc@.all_bits);
            if self.is_normal(desc) {
                assert(self@.intersect(desc@.universe()) =~= self@);
            }
        }
        Members { rest, from: 0 }
    }

    /// The members that are values of `desc`, from the lowest bit index up.
    pub fn to_vec(self, desc: &EnumDescriptor) -> (r: Vec<EnumValue>)
        ensures
            ascending(r@),
            indices(r@) == self@.intersect(desc@.universe()),
            self.is_normal(desc) ==> indices(r@) == self@,
            r@.len() == self@.intersect(desc@.universe()).len(),
    {
        let mut walk = self.iterate(desc);
        let mut out: Vec<EnumValue> = Vec::new();
        let ghost target = walk@;
        proof {
            lemma_bit_set_finite(walk.rest);
            assert(indices(out@) =~= Set::<nat>::empty());
        }
        loop
            invariant_except_break
                walk@.finite(),
                ascending(out@),
                indices(out@).disjoint(walk@),
                indices(out@).union(walk@) == target,
                forall|i: nat, j: nat| indices(out@).contains(i) && walk@.contains(j) ==> i < j,
            ensures
                ascending(out@),
                indices(out@) == target,
            decreases walk@.len(),
        {
            let ghost gathered = out@;
            match walk.next() {
                Some(value) => {
                    out.push(value);
                    proof {
                        assert(out@ == gathered.push(value));
                        lemma_indices_of_push(gathered, value);
                        assert(indices(out@).union(walk@) =~= target);
                        assert forall|i: int, j: int| 0 <= i < j < out@.len() implies (#[trigger] out@[i]).index()
                            < (#[trigger] out@[j]).index() by {
                            if j == gathered.len() {
                                assert(indices(gathered).contains(gathered[i].index()));
                            }
                        }
                    }
                },
                None => {
                    proof {
                        assert(indices(out@).union(walk@) =~= indices(out@));
                    }
                    break ;
                },
            }
        }
        proof {
            if self.is_normal(desc) {
                assert(self@.intersect(desc@.universe()) =~= self@);
            }
            lemma_ascending_len(out@);
        }
        out
    }
}

} // verus!
