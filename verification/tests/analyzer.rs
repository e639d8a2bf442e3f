use big_enum_set_derive::analyzer::{analyze, EnumDecl, VariantDecl};
use big_enum_set_derive::error::AnalysisError;
use big_enum_set_derive::width::WidthClass;

fn unit(name: &str, discriminant: Option<u64>) -> VariantDecl {
    VariantDecl { name: name.to_string(), discriminant, has_payload: false }
}

fn counted(n: usize) -> EnumDecl {
    let mut variants = Vec::new();
    for i in 0..n {
        variants.push(unit(&format!("V{}", i), None));
    }
    EnumDecl { has_type_params: false, variants }
}

fn smallest_width_above(max: i64) -> WidthClass {
    if max < 8 {
        WidthClass::W8
    } else if max < 16 {
        WidthClass::W16
    } else if max < 32 {
        WidthClass::W32
    } else if max < 64 {
        WidthClass::W64
    } else {
        WidthClass::W128
    }
}

#[test]
fn width_is_smallest_for_every_count_up_to_128() {
    for n in 0..=128usize {
        let desc = analyze(&counted(n)).unwrap();
        assert_eq!(desc.width_class(), smallest_width_above(n as i64 - 1), "n = {}", n);
        assert_eq!(desc.variant_count(), n);
        let expected_bits = if n == 128 { u128::MAX } else { (1u128 << n) - 1 };
        assert_eq!(desc.all_bits(), expected_bits);
        assert_eq!(desc.max_variant() as usize, if n == 0 { 0 } else { n - 1 });
    }
}

#[test]
fn explicit_discriminants_that_count_up_give_the_same_layout() {
    let mut variants = Vec::new();
    for i in 0..40u64 {
        variants.push(unit(&format!("V{}", i), Some(i)));
    }
    let explicit = analyze(&EnumDecl { has_type_params: false, variants }).unwrap();
    let implicit = analyze(&counted(40)).unwrap();
    assert_eq!(explicit, implicit);
    assert_eq!(explicit.width_class(), WidthClass::W64);
}

#[test]
fn width_changes_at_the_boundaries() {
    let at = |max: u64| {
        let decl = EnumDecl { has_type_params: false, variants: vec![unit("X", Some(max))] };
        analyze(&decl).unwrap().width_class()
    };
    assert_eq!(at(0), WidthClass::W8);
    assert_eq!(at(7), WidthClass::W8);
    assert_eq!(at(8), WidthClass::W16);
    assert_eq!(at(15), WidthClass::W16);
    assert_eq!(at(16), WidthClass::W32);
    assert_eq!(at(31), WidthClass::W32);
    assert_eq!(at(32), WidthClass::W64);
    assert_eq!(at(63), WidthClass::W64);
    assert_eq!(at(64), WidthClass::W128);
    assert_eq!(at(127), WidthClass::W128);
}

#[test]
fn no_variants_is_in_order() {
    let desc = analyze(&counted(0)).unwrap();
    assert_eq!(desc.variant_count(), 0);
    assert_eq!(desc.all_bits(), 0);
    assert_eq!(desc.max_variant(), 0);
    assert_eq!(desc.width_class(), WidthClass::W8);
    assert!(desc.variant(0).is_none());
    assert!(desc.value_at(0).is_none());
}

#[test]
fn type_parameters_are_turned_down_first() {
    let decl = EnumDecl {
        has_type_params: true,
        variants: vec![VariantDecl {
            name: "A".to_string(),
            discriminant: Some(500),
            has_payload: true,
        }],
    };
    assert_eq!(analyze(&decl), Err(AnalysisError::UnsupportedGenerics));
}

#[test]
fn variant_with_payload_is_turned_down() {
    let decl = EnumDecl {
        has_type_params: false,
        variants: vec![
            unit("A", None),
            VariantDecl { name: "B".to_string(), discriminant: None, has_payload: true },
            unit("C", None),
        ],
    };
    assert_eq!(analyze(&decl), Err(AnalysisError::NonUnitVariant { variant: 1 }));
}

#[test]
fn payload_is_seen_before_the_discriminant() {
    let decl = EnumDecl {
        has_type_params: false,
        variants: vec![
            unit("A", Some(3)),
            VariantDecl { name: "B".to_string(), discriminant: Some(3), has_payload: true },
        ],
    };
    assert_eq!(analyze(&decl), Err(AnalysisError::NonUnitVariant { variant: 1 }));
}

#[test]
fn two_variants_with_discriminant_zero_are_a_duplicate() {
    let decl = EnumDecl {
        has_type_params: false,
        variants: vec![unit("A", Some(0)), unit("B", Some(0))],
    };
    assert_eq!(
        analyze(&decl),
        Err(AnalysisError::DuplicateDiscriminant { variant: 1, bit: 0 })
    );
}

#[test]
fn counting_on_into_a_taken_bit_is_a_duplicate() {
    let decl = EnumDecl {
        has_type_params: false,
        variants: vec![unit("A", Some(4)), unit("B", Some(3)), unit("C", None)],
    };
    assert_eq!(
        analyze(&decl),
        Err(AnalysisError::DuplicateDiscriminant { variant: 2, bit: 4 })
    );
}

#[test]
fn one_hundred_and_twenty_nine_variants_are_too_many() {
    assert_eq!(
        analyze(&counted(129)),
        Err(AnalysisError::TooManyVariants { variant: 128, explicit: false })
    );
}

#[test]
fn discriminant_128_is_too_large() {
    let decl = EnumDecl { has_type_params: false, variants: vec![unit("A", Some(128))] };
    assert_eq!(
        analyze(&decl),
        Err(AnalysisError::TooManyVariants { variant: 0, explicit: true })
    );
}

#[test]
fn largest_discriminant_of_the_machine_is_too_large() {
    let decl = EnumDecl {
        has_type_params: false,
        variants: vec![unit("A", None), unit("B", Some(u64::MAX))],
    };
    assert_eq!(
        analyze(&decl),
        Err(AnalysisError::TooManyVariants { variant: 1, explicit: true })
    );
}

#[test]
fn counting_on_from_127_is_too_many_and_counts_as_explicit() {
    let decl = EnumDecl {
        has_type_params: false,
        variants: vec![unit("A", Some(127)), unit("B", None)],
    };
    assert_eq!(
        analyze(&decl),
        Err(AnalysisError::TooManyVariants { variant: 1, explicit: true })
    );
}

#[test]
fn first_fault_in_declaration_order_wins() {
    let decl = EnumDecl {
        has_type_params: false,
        variants: vec![
            unit("A", Some(1)),
            unit("B", Some(1)),
            VariantDecl { name: "C".to_string(), discriminant: None, has_payload: true },
            unit("D", Some(200)),
        ],
    };
    assert_eq!(
        analyze(&decl),
        Err(AnalysisError::DuplicateDiscriminant { variant: 1, bit: 1 })
    );
}

#[test]
fn counter_goes_on_from_an_explicit_discriminant() {
    let decl = EnumDecl {
        has_type_params: false,
        variants: vec![unit("A", None), unit("B", Some(5)), unit("C", None), unit("D", Some(2))],
    };
    let desc = analyze(&decl).unwrap();
    let bits: Vec<u8> = (0..4).map(|i| desc.variant(i).unwrap().bit_index).collect();
    assert_eq!(bits, vec![0, 5, 6, 2]);
    let names: Vec<String> = (0..4).map(|i| desc.variant(i).unwrap().name.clone()).collect();
    assert_eq!(names, vec!["A", "B", "C", "D"]);
    assert_eq!(desc.all_bits(), 0b1100101);
    assert_eq!(desc.max_variant(), 6);
    assert_eq!(desc.width_class(), WidthClass::W8);
    assert!(desc.variant(4).is_none());
}

#[test]
fn lookup_by_bit_finds_the_variant_or_fails() {
    let decl = EnumDecl {
        has_type_params: false,
        variants: vec![unit("A", Some(0)), unit("B", Some(1)), unit("C", Some(5))],
    };
    let desc = analyze(&decl).unwrap();
    assert_eq!(desc.variant_at(5).unwrap().name, "C");
    assert_eq!(desc.variant_at(1).unwrap().name, "B");
    assert!(desc.variant_at(2).is_none());
    assert!(desc.variant_at(200).is_none());
    assert_eq!(desc.value_at(5).unwrap().bit_index(), 5);
    assert!(desc.value_at(2).is_none());
    assert!(desc.value_at(128).is_none());
    assert!(desc.value_at(255).is_none());
}

#[test]
fn bit_127_is_the_last_one() {
    let decl = EnumDecl {
        has_type_params: false,
        variants: vec![unit("Low", None), unit("High", Some(127))],
    };
    let desc = analyze(&decl).unwrap();
    assert_eq!(desc.all_bits(), (1u128 << 127) | 1);
    assert_eq!(desc.max_variant(), 127);
    assert_eq!(desc.width_class(), WidthClass::W128);
}
