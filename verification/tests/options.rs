use big_enum_set_derive::analyzer::{analyze, EnumDecl, VariantDecl};
use big_enum_set_derive::derive::{derive_enum_set_type, DeriveError};
use big_enum_set_derive::descriptor::EnumDescriptor;
use big_enum_set_derive::error::{AnalysisError, DecodeError, OptionsError};
use big_enum_set_derive::options::{resolve, EnumsetAttrs, SerializationPolicy, Strategy};
use big_enum_set_derive::width::WidthClass;

fn decl(bits: &[u64]) -> EnumDecl {
    let variants = bits
        .iter()
        .map(|b| VariantDecl { name: format!("V{}", b), discriminant: Some(*b), has_payload: false })
        .collect();
    EnumDecl { has_type_params: false, variants }
}

fn descriptor(bits: &[u64]) -> EnumDescriptor {
    analyze(&decl(bits)).unwrap()
}

fn repr(name: &str) -> EnumsetAttrs {
    EnumsetAttrs { serialize_repr: Some(name.to_string()), ..EnumsetAttrs::default() }
}

#[test]
fn default_attrs_are_all_off() {
    let attrs = EnumsetAttrs::default();
    assert!(!attrs.no_ops);
    assert!(!attrs.serialize_as_list);
    assert!(!attrs.serialize_deny_unknown);
    assert_eq!(attrs.serialize_repr, None);
}

#[test]
fn default_attrs_give_the_integer_form_at_the_descriptors_width() {
    let desc = descriptor(&[0, 1, 20]);
    let policy = resolve(&EnumsetAttrs::default(), &desc).unwrap();
    assert_eq!(
        policy,
        SerializationPolicy { strategy: Strategy::Repr, repr_width: None, deny_unknown_bits: false }
    );
    assert_eq!(policy.width_for(&desc), WidthClass::W32);
}

#[test]
fn named_width_is_taken_where_it_is_wide_enough() {
    let desc = descriptor(&[0, 1, 5]);
    for (name, width) in [
        ("u8", WidthClass::W8),
        ("u16", WidthClass::W16),
        ("u32", WidthClass::W32),
        ("u64", WidthClass::W64),
        ("u128", WidthClass::W128),
    ] {
        let policy = resolve(&repr(name), &desc).unwrap();
        assert_eq!(policy.strategy, Strategy::Repr);
        assert_eq!(policy.repr_width, Some(width));
        assert_eq!(policy.width_for(&desc), width);
    }
}

#[test]
fn named_width_must_have_a_bit_for_the_largest_variant() {
    let cases: [(u64, &str, bool, WidthClass); 10] = [
        (7, "u8", true, WidthClass::W8),
        (8, "u8", false, WidthClass::W8),
        (15, "u16", true, WidthClass::W16),
        (16, "u16", false, WidthClass::W16),
        (31, "u32", true, WidthClass::W32),
        (32, "u32", false, WidthClass::W32),
        (63, "u64", true, WidthClass::W64),
        (64, "u64", false, WidthClass::W64),
        (127, "u128", true, WidthClass::W128),
        (127, "u64", false, WidthClass::W64),
    ];
    for (max, name, fits, width) in cases {
        let desc = descriptor(&[0, max]);
        let got = resolve(&repr(name), &desc);
        if fits {
            assert_eq!(got.unwrap().repr_width, Some(width));
        } else {
            assert_eq!(got, Err(OptionsError::InsufficientReprWidth { width }));
        }
    }
}

#[test]
fn unknown_width_name_is_turned_down() {
    let desc = descriptor(&[0]);
    for name in ["i8", "usize", "u7", "", "U8"] {
        assert_eq!(
            resolve(&repr(name), &desc),
            Err(OptionsError::InvalidReprName { name: name.to_string() })
        );
    }
}

#[test]
fn list_strategy_is_chosen_by_its_flag_and_carries_the_rest_along() {
    let desc = descriptor(&[0, 1, 5]);
    let attrs = EnumsetAttrs {
        no_ops: true,
        serialize_as_list: true,
        serialize_deny_unknown: true,
        serialize_repr: Some("u16".to_string()),
    };
    assert_eq!(
        resolve(&attrs, &desc),
        Ok(SerializationPolicy {
            strategy: Strategy::List,
            repr_width: Some(WidthClass::W16),
            deny_unknown_bits: true,
        })
    );
}

#[test]
fn width_is_checked_with_the_list_strategy_too() {
    let desc = descriptor(&[0, 9]);
    let attrs = EnumsetAttrs {
        serialize_as_list: true,
        serialize_repr: Some("u8".to_string()),
        ..EnumsetAttrs::default()
    };
    assert_eq!(
        resolve(&attrs, &desc),
        Err(OptionsError::InsufficientReprWidth { width: WidthClass::W8 })
    );
}

#[test]
fn no_ops_does_not_change_the_policy() {
    let desc = descriptor(&[0, 1, 5]);
    let with = EnumsetAttrs { no_ops: true, serialize_deny_unknown: true, ..EnumsetAttrs::default() };
    let without = EnumsetAttrs { no_ops: false, ..with.clone() };
    assert_eq!(resolve(&with, &desc), resolve(&without, &desc));
    assert!(resolve(&with, &desc).unwrap().deny_unknown_bits);
}

#[test]
fn empty_enumeration_takes_any_width() {
    let desc = descriptor(&[]);
    assert_eq!(resolve(&repr("u8"), &desc).unwrap().repr_width, Some(WidthClass::W8));
}

#[test]
fn derive_gives_layout_policy_and_no_ops() {
    let attrs = EnumsetAttrs {
        no_ops: true,
        serialize_deny_unknown: true,
        serialize_repr: Some("u16".to_string()),
        ..EnumsetAttrs::default()
    };
    let derived = derive_enum_set_type(&decl(&[0, 1, 5]), &attrs).unwrap();
    assert_eq!(derived.descriptor, descriptor(&[0, 1, 5]));
    assert_eq!(derived.descriptor.all_bits(), 35);
    assert_eq!(derived.descriptor.width_class(), WidthClass::W8);
    assert!(derived.no_ops);
    assert_eq!(
        derived.policy,
        SerializationPolicy {
            strategy: Strategy::Repr,
            repr_width: Some(WidthClass::W16),
            deny_unknown_bits: true,
        }
    );
    let plain = derive_enum_set_type(&decl(&[0, 1, 5]), &EnumsetAttrs::default()).unwrap();
    assert!(!plain.no_ops);
    assert_eq!(plain.descriptor, derived.descriptor);
}

#[test]
fn derive_looks_at_the_declaration_before_the_configuration() {
    let got = derive_enum_set_type(&decl(&[3, 3]), &repr("nonsense"));
    assert_eq!(
        got,
        Err(DeriveError::Analysis(AnalysisError::DuplicateDiscriminant { variant: 1, bit: 3 }))
    );
    let got = derive_enum_set_type(&decl(&[3, 4]), &repr("nonsense"));
    assert_eq!(
        got,
        Err(DeriveError::Options(OptionsError::InvalidReprName { name: "nonsense".to_string() }))
    );
    let got = derive_enum_set_type(&decl(&[3, 40]), &repr("u32"));
    assert_eq!(
        got,
        Err(DeriveError::Options(OptionsError::InsufficientReprWidth { width: WidthClass::W32 }))
    );
}

#[test]
fn messages_of_the_errors() {
    assert_eq!(
        AnalysisError::UnsupportedGenerics.message(),
        "`#[derive(BigEnumSetType)]` cannot be used on enums with type parameters."
    );
    assert_eq!(
        AnalysisError::NonUnitVariant { variant: 2 }.message(),
        "`#[derive(BigEnumSetType)]` can only be used on C-like enums."
    );
    assert_eq!(
        AnalysisError::TooManyVariants { variant: 128, explicit: false }.message(),
        "`#[derive(BigEnumSetType)]` only supports enums up to 128 variants."
    );
    assert_eq!(
        AnalysisError::TooManyVariants { variant: 0, explicit: true }.message(),
        "`#[derive(BigEnumSetType)]` only supports enum discriminants up to 127."
    );
    assert_eq!(
        AnalysisError::DuplicateDiscriminant { variant: 1, bit: 0 }.message(),
        "Duplicate enum discriminant: 0"
    );
    assert_eq!(
        AnalysisError::DuplicateDiscriminant { variant: 9, bit: 127 }.message(),
        "Duplicate enum discriminant: 127"
    );
    assert_eq!(
        OptionsError::InvalidReprName { name: "i8".to_string() }.message(),
        "i8 is not a valid serialization repr."
    );
    assert_eq!(
        OptionsError::InsufficientReprWidth { width: WidthClass::W16 }.message(),
        "Too many variants for u16 serialization repr."
    );
    assert_eq!(DecodeError::UnknownBitsOnDecode.message(), "big_enum_set contains unknown bits");
    assert_eq!(
        DeriveError::Options(OptionsError::InsufficientReprWidth { width: WidthClass::W8 })
            .message(),
        "Too many variants for u8 serialization repr."
    );
    assert_eq!(
        DeriveError::Analysis(AnalysisError::DuplicateDiscriminant { variant: 3, bit: 42 })
            .message(),
        "Duplicate enum discriminant: 42"
    );
}
