//! From the declaration of an enumeration to its bit layout.

use vstd::prelude::*;
use crate::bits::{bit_set, has_bit, lemma_bit_inserted, lemma_bit_set_of_zero, test_bit};
use crate::descriptor::{DescriptorModel, EnumDescriptor, Variant, VariantModel};
use crate::error::AnalysisError;
use crate::width::WidthClass;

verus! {

/// One variant as it was declared.
#[derive(Clone, Debug, PartialEq, Eq, Hash)]
pub struct VariantDecl {
    pub name: String,
    /// The discriminant, where one was written out.
    pub discriminant: Option<u64>,
    /// Whether the variant carries data.
    pub has_payload: bool,
}

/// An enumeration as it was declared.
#[derive(Clone, Debug, PartialEq, Eq, Hash)]
pub struct EnumDecl {
    pub has_type_params: bool,
    /// The variants in the order of their declaration.
    pub variants: Vec<VariantDecl>,
}

/// The bit that the variant at position `i` is given: its discriminant where one
/// is written out, else one more than its predecessor's bit, and zero for the first.
pub open spec fn assigned_bit(variants: Seq<VariantDecl>, i: int) -> nat
    decreases i,
{
    match variants[i].discriminant {
        Some(d) => d as nat,
        None => if i <= 0 {
            0
        } else {
            assigned_bit(variants, i - 1) + 1
        },
    }
}

/// A variant before position `i` is given the bit `bit`.
pub open spec fn assigned_before(variants: Seq<VariantDecl>, i: int, bit: nat) -> bool {
    exists|j: int| 0 <= j < i && #[trigger] assigned_bit(variants, j) == bit
}

/// A discriminant is written out at or before position `i`.
pub open spec fn explicit_up_to(variants: Seq<VariantDecl>, i: int) -> bool {
    exists|j: int| 0 <= j <= i && (#[trigger] variants[j]).discriminant is Some
}

/// What is wrong with the variant at position `i`, given that its predecessors are
/// in order.
pub open spec fn fault_at(variants: Seq<VariantDecl>, i: int) -> Option<AnalysisError> {
    let bit = assigned_bit(variants, i);
    if variants[i].has_payload {
        Some(AnalysisError::NonUnitVariant { variant: i as usize })
    } else if bit >= 128 {
        Some(
            AnalysisError::TooManyVariants {
                variant: i as usize,
                explicit: explicit_up_to(variants, i),
            },
        )
    } else if assigned_before(variants, i, bit) {
        Some(AnalysisError::DuplicateDiscriminant { variant: i as usize, bit: bit as u8 })
    } else {
        None
    }
}

/// The fault of the first variant from position `i` on that has one.
pub open spec fn first_fault_from(variants: Seq<VariantDecl>, i: int) -> Option<AnalysisError>
    decreases variants.len() - i,
{
    if i >= variants.len() {
        None
    } else if fault_at(variants, i) is Some {
        fault_at(variants, i)
    } else {
        first_fault_from(variants, i + 1)
    }
}

/// Why the declaration has no layout, if it has none.
pub open spec fn first_fault(decl: EnumDecl) -> Option<AnalysisError> {
    if decl.has_type_params {
        Some(AnalysisError::UnsupportedGenerics)
    } else {
        first_fault_from(decl.variants@, 0)
    }
}

/// The variants of the layout: the declared names, each with the bit it is given.
pub open spec fn assigned_variants(variants: Seq<VariantDecl>) -> Seq<VariantModel> {
    Seq::new(
        variants.len(),
        |i: int| VariantModel { name: variants[i].name@, bit_index: assigned_bit(variants, i) },
    )
}

/// The layout of a declaration that is in order: the one layout with the declared
/// names and the bits they are given.
pub open spec fn layout_of(decl: EnumDecl) -> DescriptorModel {
    choose|layout: DescriptorModel|
        layout.wf() && layout.variants == assigned_variants(decl.variants@)
}

/// What [`analyze`] makes of a declaration.
pub open spec fn analysis(decl: EnumDecl) -> Result<DescriptorModel, AnalysisError> {
    match first_fault(decl) {
        Some(fault) => Err(fault),
        None => Ok(layout_of(decl)),
    }
}

/// The declaration has no type parameters, no variant carries data, and a
/// discriminant that is written out is the position of its variant: the variants
/// count up from zero.
pub open spec fn counts_up(decl: EnumDecl) -> bool {
    &&& !decl.has_type_params
    &&& forall|i: int|
        0 <= i < decl.variants@.len() ==> {
            &&& !(#[trigger] decl.variants@[i]).has_payload
            &&& decl.variants@[i].discriminant matches Some(d) ==> d == i
        }
}

/// Where the variants count up from zero, each gets its position as its bit.
proof fn lemma_counted_bits(decl: EnumDecl, i: int)
    requires
        counts_up(decl),
        0 <= i < decl.variants@.len(),
    ensures
        assigned_bit(decl.variants@, i) == i,
    decreases i,
{
    assert(!decl.variants@[i].has_payload);
    if i > 0 {
        lemma_counted_bits(decl, i - 1);
    }
}

/// Where the variants count up from zero, the first 128 of them are in order.
proof fn lemma_counted_faults(decl: EnumDecl, i: int)
    requires
        counts_up(decl),
        0 <= i < decl.variants@.len(),
    ensures
        i < 128 ==> fault_at(decl.variants@, i) is None,
        i >= 128 ==> fault_at(decl.variants@, i) == Some(
            AnalysisError::TooManyVariants {
                variant: i as usize,
                explicit: explicit_up_to(decl.variants@, i),
            },
        ),
{
    let variants = decl.variants@;
    lemma_counted_bits(decl, i);
    assert(!variants[i].has_payload);
    if assigned_before(variants, i, i as nat) {
        let j = choose|j: int| 0 <= j < i && #[trigger] assigned_bit(variants, j) == i as nat;
        lemma_counted_bits(decl, j);
    }
}

/// The scan from `from` on finds the fault at `at`, where no variant between them
/// has one; it finds none where no variant from `from` on has one.
proof fn lemma_scan(variants: Seq<VariantDecl>, from: int, at: int)
    requires
        0 <= from <= at <= variants.len(),
        forall|i: int| from <= i < at ==> fault_at(variants, i) is None,
        at < variants.len() ==> fault_at(variants, at) is Some,
    ensures
        first_fault_from(variants, from) == if at < variants.len() {
            fault_at(variants, at)
        } else {
            None
        },
    decreases at - from,
{
    if from < at {
        lemma_scan(variants, from + 1, at);
    }
}

/// Up to 128 variants that count up from zero have a layout, and its width is the
/// narrowest with more bits than the largest bit index, which is one less than the
/// number of variants.
pub proof fn law_width_of_counted_variants(decl: EnumDecl, layout: DescriptorModel)
    requires
        counts_up(decl),
        decl.variants@.len() <= 128,
        layout.wf(),
        layout.variants == assigned_variants(decl.variants@),
    ensures
        first_fault(decl) is None,
        layout.width_class.bits() > decl.variants@.len() - 1,
        forall|other: WidthClass|
            (#[trigger] other.bits()) > decl.variants@.len() - 1 ==> layout.width_class.bits()
                <= other.bits(),
{
    let variants = decl.variants@;
    let n = variants.len() as int;
    assert forall|i: int| 0 <= i < n implies fault_at(variants, i) is None by {
        lemma_counted_faults(decl, i);
    }
    lemma_scan(variants, 0, n);
    if n > 0 {
        assert(layout.assigns(layout.max_variant));
        let i = choose|i: int|
            0 <= i < layout.variants.len() && #[trigger] layout.variants[i].bit_index
                == layout.max_variant;
        lemma_counted_bits(decl, i);
        lemma_counted_bits(decl, n - 1);
        assert(layout.variants[n - 1].bit_index == n - 1);
        assert(layout.assigns((n - 1) as nat));
        assert(has_bit(layout.all_bits, (n - 1) as nat));
        assert(layout.max_variant == n - 1);
    }
    assert forall|other: WidthClass| (#[trigger] other.bits()) > n - 1 implies layout.width_class.bits()
        <= other.bits() by {
        assert(other.holds(layout.max_variant));
    }
}

/// More than 128 variants that count up from zero have no layout: the 129th would
/// get a bit beyond the 128th.
pub proof fn law_counted_variants_beyond_limit(decl: EnumDecl)
    requires
        counts_up(decl),
        decl.variants@.len() > 128,
    ensures
        first_fault(decl) == Some(
            AnalysisError::TooManyVariants {
                variant: 128,
                explicit: explicit_up_to(decl.variants@, 128),
            },
        ),
{
    let variants = decl.variants@;
    assert forall|i: int| 0 <= i < 128 implies fault_at(variants, i) is None by {
        lemma_counted_faults(decl, i);
    }
    lemma_counted_faults(decl, 128);
    lemma_scan(variants, 0, 128);
}

/// Two variants with the same discriminant written out have no layout: where the
/// variants before the second are in order and the second carries no data, the fault
/// is the second one's, and it is a duplicate.
pub proof fn law_repeated_discriminant(decl: EnumDecl, first: int, second: int)
    requires
        !decl.has_type_params,
        0 <= first < second < decl.variants@.len(),
        decl.variants@[first].discriminant is Some,
        decl.variants@[first].discriminant == decl.variants@[second].discriminant,
        forall|i: int| 0 <= i < second ==> fault_at(decl.variants@, i) is None,
        !decl.variants@[second].has_payload,
    ensures
        first_fault(decl) == Some(
            AnalysisError::DuplicateDiscriminant {
                variant: second as usize,
                bit: assigned_bit(decl.variants@, second) as u8,
            },
        ),
{
    let variants = decl.variants@;
    assert(assigned_bit(variants, first) == assigned_bit(variants, second));
    assert(fault_at(variants, first) is None);
    assert(assigned_before(variants, second, assigned_bit(variants, second)));
    lemma_scan(variants, 0, second);
}

/// Checks a declaration and lays out its variants.
///
/// Fails on type parameters; else on the first variant that carries data, that would
/// get a bit beyond the 128th, or whose bit an earlier variant has. A declaration
/// without variants is in order.
pub fn analyze(decl: &EnumDecl) -> (r: Result<EnumDescriptor, AnalysisError>)
    ensures
        match r {
            Ok(d) => {
                &&& first_fault(*decl) is None
                &&& d@.variants == assigned_variants(decl.variants@)
                &&& d@.wf()
                &&& analysis(*decl) == Ok::<DescriptorModel, AnalysisError>(d@)
            },
            Err(e) => first_fault(*decl) == Some(e) && analysis(*decl) == Err::<
                DescriptorModel,
                AnalysisError,
            >(e),
        },
{
    if decl.has_type_params {
        return Err(AnalysisError::UnsupportedGenerics);
    }
    let ghost declared = decl.variants@;
    let mut variants: Vec<Variant> = Vec::new();
    let mut all_bits: u128 = 0;
    let mut max_variant: u8 = 0;
    let mut next: u64 = 0;
    let mut explicit = false;
    let mut i: usize = 0;
    proof {
        lemma_bit_set_of_zero();
        assert forall|bit: nat| !#[trigger] has_bit(all_bits, bit) by {
            assert(!bit_set(0).contains(bit));
        }
    }
    while i < decl.variants.len()
        invariant
            !decl.has_type_params,
            declared == decl.variants@,
            i <= declared.len(),
            first_fault_from(declared, 0) == first_fault_from(declared, i as int),
            variants@.len() == i,
            forall|j: int|
                0 <= j < i ==> (#[trigger] variants@[j])@ == (VariantModel {
                    name: declared[j].name@,
                    bit_index: assigned_bit(declared, j),
                }),
            forall|j: int| 0 <= j < i ==> #[trigger] assigned_bit(declared, j) < 128,
            forall|j: int, k: int|
                0 <= j < k < i ==> #[trigger] assigned_bit(declared, j) != #[trigger] assigned_bit(
                    declared,
                    k,
                ),
            i == 0 ==> next == 0,
            i > 0 ==> next == assigned_bit(declared, i - 1) + 1,
            explicit <==> explicit_up_to(declared, i - 1),
            forall|bit: nat| #[trigger] has_bit(all_bits, bit) <==> assigned_before(declared, i as int, bit),
            i == 0 ==> max_variant == 0,
            i > 0 ==> has_bit(all_bits, max_variant as nat),
            forall|bit: nat| #[trigger] has_bit(all_bits, bit) ==> bit <= max_variant,
        decreases declared.len() - i,
    {
        let variant = &decl.variants[i];
        assert(*variant == declared[i as int]);
        assert(first_fault_from(declared, i as int) == if fault_at(declared, i as int) is Some {
            fault_at(declared, i as int)
        } else {
            first_fault_from(declared, i + 1)
        });
        if variant.has_payload {
            return Err(AnalysisError::NonUnitVariant { variant: i });
        }
        match variant.discriminant {
            Some(d) => {
                next = d;
                explicit = true;
            },
            None => {},
        }
        assert(next == assigned_bit(declared, i as int));
        assert(explicit <==> explicit_up_to(declared, i as int)) by {
            if explicit_up_to(declared, i as int) {
                let j = choose|j: int| 0 <= j <= i && (#[trigger] declared[j]).discriminant is Some;
                if j < i {
                    assert(explicit_up_to(declared, i - 1));
                }
            }
            if explicit_up_to(declared, i - 1) {
                let j = choose|j: int| 0 <= j <= i - 1 && (#[trigger] declared[j]).discriminant is Some;
                assert(0 <= j <= i && declared[j].discriminant is Some);
            }
            if variant.discriminant is Some {
                assert(declared[i as int].discriminant is Some);
            }
        }
        if next >= 128 {
            return Err(AnalysisError::TooManyVariants { variant: i, explicit });
        }
        let bit: u8 = next as u8;
        if test_bit(all_bits, bit) {
            return Err(AnalysisError::DuplicateDiscriminant { variant: i, bit });
        }
        assert(fault_at(declared, i as int) is None);
        proof {
            lemma_bit_inserted(all_bits, bit as nat);
        }
        let ghost before = all_bits;
        all_bits = all_bits | (1u128 << (bit as u128));
        if bit > max_variant {
            max_variant = bit;
        }
        variants.push(Variant { name: variant.name.clone(), bit_index: bit });
        next = next + 1;
        i = i + 1;
        proof {
            assert forall|b: nat| #[trigger] has_bit(all_bits, b) <==> assigned_before(
                declared,
                i as int,
                b,
            ) by {
                assert(bit_set(all_bits).contains(b) <==> bit_set(before).contains(b) || b == bit);
                if assigned_before(declared, i as int, b) {
                    let j = choose|j: int| 0 <= j < i && #[trigger] assigned_bit(declared, j) == b;
                    if j < i - 1 {
                        assert(assigned_before(declared, i - 1, b));
                    }
                }
                if has_bit(before, b) {
                    let j = choose|j: int| 0 <= j < i - 1 && #[trigger] assigned_bit(declared, j) == b;
                    assert(0 <= j < i && assigned_bit(declared, j) == b);
                }
                if b == bit {
                    assert(assigned_bit(declared, i - 1) == b);
                }
            }
            assert forall|j: int, k: int| 0 <= j < k < i implies #[trigger] assigned_bit(declared, j)
                != #[trigger] assigned_bit(declared, k) by {
                if k == i - 1 {
                    assert(!assigned_before(declared, i - 1, bit as nat));
                }
            }
            assert(bit_set(all_bits).contains(max_variant as nat));
            assert forall|b: nat| #[trigger] has_bit(all_bits, b) implies b <= max_variant by {
                assert(bit_set(all_bits).contains(b) <==> bit_set(before).contains(b) || b == bit);
            }
        }
    }
    let width_class = WidthClass::smallest_holding(max_variant);
    proof {
        let model = DescriptorModel {
            variants: Seq::new(variants@.len(), |j: int| variants@[j]@),
            max_variant: max_variant as nat,
            all_bits,
            width_class,
        };
        assert(model.variants =~= assigned_variants(declared));
        assert forall|b: nat| #[trigger] has_bit(model.all_bits, b) <==> model.assigns(b) by {
            if has_bit(all_bits, b) {
                let j = choose|j: int| 0 <= j < i && #[trigger] assigned_bit(declared, j) == b;
                assert(model.variants[j].bit_index == b);
            }
            if model.assigns(b) {
                let j = choose|j: int|
                    0 <= j < model.variants.len() && #[trigger] model.variants[j].bit_index == b;
                assert(assigned_bit(declared, j) == b);
            }
        }
        assert(model.wf());
    }
    let descriptor = EnumDescriptor::new(variants, max_variant, all_bits, width_class);
    proof {
        descriptor@.lemma_variants_settle_layout(layout_of(*decl));
    }
    Ok(descriptor)
}

} // verus!
