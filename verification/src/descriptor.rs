//! The bit layout of one enumeration.

use vstd::prelude::*;
use crate::bits::{bit_set, has_bit, lemma_bit_set_determines, lemma_low_part_of_small, test_bit};
use crate::width::WidthClass;

verus! {

/// One value of an enumeration, as declared: its name and the bit that stands for it.
#[derive(Clone, Debug, PartialEq, Eq, Hash)]
pub struct Variant {
    pub name: String,
    pub bit_index: u8,
}

/// What a [`Variant`] says.
pub struct VariantModel {
    pub name: Seq<char>,
    pub bit_index: nat,
}

impl View for Variant {
    type V = VariantModel;

    open spec fn view(&self) -> VariantModel {
        VariantModel { name: self.name@, bit_index: self.bit_index as nat }
    }
}

/// A value of an enumeration, known by its bit.
#[derive(Clone, Copy, Debug, PartialEq, Eq, Structural, Hash)]
pub struct EnumValue {
    bit: u8,
}

impl EnumValue {
    /// A value's bit is one of the 128.
    #[verifier::type_invariant]
    pub open spec fn in_range(self) -> bool {
        self.index() < 128
    }

    /// The value that the bit `bit` stands for.
    pub(crate) fn from_bit(bit: u8) -> (r: EnumValue)
        requires
            bit < 128,
        ensures
            r.index() == bit,
    {
        EnumValue { bit }
    }

    /// The position of the bit that stands for this value.
    pub closed spec fn index(self) -> nat {
        self.bit as nat
    }

    /// A value is known by its bit.
    pub proof fn lemma_index_determines(self, other: EnumValue)
        requires
            self.index() == other.index(),
        ensures
            self == other,
    {
    }

    /// The position of the bit that stands for this value.
    pub fn bit_index(self) -> (r: u8)
        ensures
            r == self.index(),
            r < 128,
    {
        proof {
            use_type_invariant(&self);
        }
        self.bit
    }
}

/// What an [`EnumDescriptor`] says.
pub struct DescriptorModel {
    /// The variants in the order of their declaration.
    pub variants: Seq<VariantModel>,
    /// The largest bit index of a variant; zero without variants.
    pub max_variant: nat,
    /// The integer in which exactly the variants' bits are set.
    pub all_bits: u128,
    /// The narrowest width that has bit `max_variant`.
    pub width_class: WidthClass,
}

impl DescriptorModel {
    /// The bit indices of the enumeration's values.
    pub open spec fn universe(self) -> Set<nat> {
        bit_set(self.all_bits)
    }

    /// Some variant has the bit `bit`.
    pub open spec fn assigns(self, bit: nat) -> bool {
        exists|i: int| 0 <= i < self.variants.len() && #[trigger] self.variants[i].bit_index == bit
    }

    /// The invariant of a descriptor.
    pub open spec fn wf(self) -> bool {
        &&& forall|i: int| 0 <= i < self.variants.len() ==> #[trigger] self.variants[i].bit_index < 128
        &&& forall|i: int, j: int|
            0 <= i < j < self.variants.len() ==> #[trigger] self.variants[i].bit_index
                != #[trigger] self.variants[j].bit_index
        &&& forall|bit: nat| #[trigger] has_bit(self.all_bits, bit) <==> self.assigns(bit)
        &&& self.variants.len() == 0 ==> self.max_variant == 0
        &&& self.variants.len() > 0 ==> has_bit(self.all_bits, self.max_variant)
        &&& forall|bit: nat| #[trigger] has_bit(self.all_bits, bit) ==> bit <= self.max_variant
        &&& self.width_class.is_smallest_holding(self.max_variant)
    }

    /// The integer that holds all values fits the descriptor's width, and every width
    /// that has a bit for the largest variant.
    pub proof fn law_all_bits_fit(self, width: WidthClass)
        requires
            self.wf(),
            width.holds(self.max_variant),
        ensures
            self.all_bits < width.limit(),
            self.all_bits < self.width_class.limit(),
    {
        lemma_low_part_of_small(self.all_bits, width.bits() as nat);
        width.lemma_low_mask_is_largest();
        lemma_low_part_of_small(self.all_bits, self.width_class.bits() as nat);
        self.width_class.lemma_low_mask_is_largest();
    }

    /// A layout is settled by its variants: the other parts follow from them.
    pub proof fn lemma_variants_settle_layout(self, other: DescriptorModel)
        requires
            self.wf(),
            other.wf(),
            self.variants == other.variants,
        ensures
            self == other,
    {
        assert forall|bit: nat| has_bit(self.all_bits, bit) == has_bit(other.all_bits, bit) by {
            assert(self.assigns(bit) == other.assigns(bit));
        }
        assert(bit_set(self.all_bits) =~= bit_set(other.all_bits));
        lemma_bit_set_determines(self.all_bits, other.all_bits);
        if self.variants.len() > 0 {
            assert(self.max_variant <= other.max_variant);
            assert(other.max_variant <= self.max_variant);
        }
        assert(self.width_class.bits() <= other.width_class.bits());
        assert(other.width_class.bits() <= self.width_class.bits());
    }
}

/// The bit layout of one enumeration: which bit stands for which value, and the
/// integer width that holds them all.
#[derive(Debug, PartialEq, Eq, Hash)]
pub struct EnumDescriptor {
    variants: Vec<Variant>,
    max_variant: u8,
    all_bits: u128,
    width_class: WidthClass,
}

impl View for EnumDescriptor {
    type V = DescriptorModel;

    closed spec fn view(&self) -> DescriptorModel {
        DescriptorModel {
            variants: Seq::new(self.variants@.len(), |i: int| self.variants@[i]@),
            max_variant: self.max_variant as nat,
            all_bits: self.all_bits,
            width_class: self.width_class,
        }
    }
}

impl Clone for EnumDescriptor {
    fn clone(&self) -> (r: EnumDescriptor)
        ensures
            r@ == self@,
    {
        proof {
            use_type_invariant(self);
        }
        let mut variants: Vec<Variant> = Vec::new();
        let mut i: usize = 0;
        while i < self.variants.len()
            invariant
                i <= self.variants@.len(),
                variants@.len() == i,
                forall|j: int| 0 <= j < i ==> (#[trigger] variants@[j])@ == self.variants@[j]@,
            decreases self.variants@.len() - i,
        {
            let variant = &self.variants[i];
            variants.push(Variant { name: variant.name.clone(), bit_index: variant.bit_index });
            i = i + 1;
        }
        proof {
            assert(Seq::new(variants@.len(), |j: int| variants@[j]@) =~= self@.variants);
        }
        EnumDescriptor {
            variants,
            max_variant: self.max_variant,
            all_bits: self.all_bits,
            width_class: self.width_class,
        }
    }
}

impl EnumDescriptor {
    /// A descriptor keeps its invariant.
    #[verifier::type_invariant]
    pub open spec fn valid(&self) -> bool {
        self@.wf()
    }

    /// Puts a layout together.
    pub(crate) fn new(
        variants: Vec<Variant>,
        max_variant: u8,
        all_bits: u128,
        width_class: WidthClass,
    ) -> (r: EnumDescriptor)
        requires
            (DescriptorModel {
                variants: Seq::new(variants@.len(), |i: int| variants@[i]@),
                max_variant: max_variant as nat,
                all_bits,
                width_class,
            }).wf(),
        ensures
            r@.wf(),
            r@.variants == Seq::new(variants@.len(), |i: int| variants@[i]@),
            r@.max_variant == max_variant,
            r@.all_bits == all_bits,
            r@.width_class == width_class,
    {
        EnumDescriptor { variants, max_variant, all_bits, width_class }
    }

    /// The number of variants.
    pub fn variant_count(&self) -> (r: usize)
        ensures
            r == self@.variants.len(),
    {
        self.variants.len()
    }

    /// The variant declared at `position`, counting from zero.
    pub fn variant(&self, position: usize) -> (r: Option<&Variant>)
        ensures
            match r {
                Some(v) => position < self@.variants.len() && v@ == self@.variants[position as int],
                None => position >= self@.variants.len(),
            },
    {
        if position < self.variants.len() {
            Some(&self.variants[position])
        } else {
            None
        }
    }

    /// The largest bit index of a variant; zero without variants.
    pub fn max_variant(&self) -> (r: u8)
        ensures
            r == self@.max_variant,
            self@.wf(),
    {
        proof {
            use_type_invariant(self);
        }
        self.max_variant
    }

    /// The integer in which exactly the variants' bits are set.
    pub fn all_bits(&self) -> (r: u128)
        ensures
            r == self@.all_bits,
            self@.wf(),
    {
        proof {
            use_type_invariant(self);
        }
        self.all_bits
    }

    /// The narrowest width that holds every variant's bit.
    pub fn width_class(&self) -> (r: WidthClass)
        ensures
            r == self@.width_class,
            self@.wf(),
    {
        proof {
            use_type_invariant(self);
        }
        self.width_class
    }

    /// The variant whose bit is `bit`, if the enumeration has one.
    pub fn variant_at(&self, bit: u8) -> (r: Option<&Variant>)
        ensures
            match r {
                Some(v) => {
                    &&& v@.bit_index == bit
                    &&& self@.universe().contains(bit as nat)
                    &&& exists|i: int| 0 <= i < self@.variants.len() && self@.variants[i] == v@
                },
                None => !self@.universe().contains(bit as nat),
            },
    {
        proof {
            use_type_invariant(self);
        }
        let mut i: usize = 0;
        while i < self.variants.len()
            invariant
                i <= self.variants@.len(),
                self@.wf(),
                forall|j: int| 0 <= j < i ==> (#[trigger] self@.variants[j]).bit_index != bit,
            decreases self.variants@.len() - i,
        {
            if self.variants[i].bit_index == bit {
                proof {
                    assert(self@.variants[i as int] == self.variants@[i as int]@);
                    assert(self@.variants[i as int].bit_index == bit as nat);
                    assert(self@.assigns(bit as nat));
                    assert(has_bit(self@.all_bits, bit as nat));
                }
                return Some(&self.variants[i]);
            }
            i = i + 1;
        }
        proof {
            if has_bit(self@.all_bits, bit as nat) {
                assert(self@.assigns(bit as nat));
                let j = choose|j: int|
                    0 <= j < self@.variants.len() && #[trigger] self@.variants[j].bit_index
                        == bit as nat;
                assert(self@.variants[j].bit_index != bit);
            }
        }
        None
    }

    /// The value whose bit is `bit`, if the enumeration has one.
    pub fn value_at(&self, bit: u8) -> (r: Option<EnumValue>)
        ensures
            match r {
                Some(v) => v.index() == bit && self@.universe().contains(bit as nat),
                None => !self@.universe().contains(bit as nat),
            },
    {
        if bit < 128 && test_bit(self.all_bits, bit) {
            Some(EnumValue { bit })
        } else {
            None
        }
    }
}

} // verus!
