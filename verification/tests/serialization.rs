use big_enum_set_derive::analyzer::{analyze, EnumDecl, VariantDecl};
use big_enum_set_derive::descriptor::{EnumDescriptor, EnumValue};
use big_enum_set_derive::error::DecodeError;
use big_enum_set_derive::options::{resolve, EnumsetAttrs, SerializationPolicy, Strategy};
use big_enum_set_derive::serialization::{
    decode_list, decode_repr, encode_list, encode_repr, Encoded,
};
use big_enum_set_derive::set::BigEnumSet;
use big_enum_set_derive::width::WidthClass;

fn descriptor(bits: &[u64]) -> EnumDescriptor {
    let variants = bits
        .iter()
        .map(|b| VariantDecl { name: format!("V{}", b), discriminant: Some(*b), has_payload: false })
        .collect();
    analyze(&EnumDecl { has_type_params: false, variants }).unwrap()
}

fn values(desc: &EnumDescriptor, bits: &[u8]) -> Vec<EnumValue> {
    bits.iter().map(|b| desc.value_at(*b).unwrap()).collect()
}

fn policy(strategy: Strategy, repr_width: Option<WidthClass>, deny: bool) -> SerializationPolicy {
    SerializationPolicy { strategy, repr_width, deny_unknown_bits: deny }
}

fn every_subset(desc: &EnumDescriptor) -> Vec<BigEnumSet> {
    let all = BigEnumSet::all(desc).to_vec(desc);
    let mut out = Vec::new();
    for pick in 0..(1u32 << all.len()) {
        let mut set = BigEnumSet::empty();
        for (i, v) in all.iter().enumerate() {
            if pick & (1 << i) != 0 {
                set = set.insert(*v);
            }
        }
        out.push(set);
    }
    out
}

#[test]
fn list_form_is_the_members_in_ascending_order() {
    let desc = descriptor(&[5, 1, 0]);
    let set = decode_list(&values(&desc, &[5, 0]));
    assert_eq!(encode_list(&desc, set), values(&desc, &[0, 5]));
    assert_eq!(encode_list(&desc, BigEnumSet::empty()), Vec::new());
}

#[test]
fn list_is_read_in_any_order_and_with_repeats() {
    let desc = descriptor(&[0, 1, 5]);
    let expected = BigEnumSet::from_bits_unchecked(0b100001);
    assert_eq!(decode_list(&values(&desc, &[0, 5])), expected);
    assert_eq!(decode_list(&values(&desc, &[5, 0])), expected);
    assert_eq!(decode_list(&values(&desc, &[5, 0, 5, 5, 0])), expected);
    assert_eq!(decode_list(&Vec::new()), BigEnumSet::empty());
}

#[test]
fn integer_form_is_the_sets_integer() {
    let desc = descriptor(&[0, 1, 5]);
    let set = decode_list(&values(&desc, &[0, 5]));
    for width in [None, Some(WidthClass::W8), Some(WidthClass::W64), Some(WidthClass::W128)] {
        assert_eq!(encode_repr(policy(Strategy::Repr, width, false), &desc, set), 33);
    }
}

#[test]
fn integer_form_is_cut_to_a_width_that_is_too_narrow() {
    let desc = descriptor(&[0, 9, 40]);
    let set = BigEnumSet::all(&desc);
    assert_eq!(encode_repr(policy(Strategy::Repr, Some(WidthClass::W8), false), &desc, set), 1);
    assert_eq!(
        encode_repr(policy(Strategy::Repr, Some(WidthClass::W16), false), &desc, set),
        (1 << 9) | 1
    );
    assert_eq!(
        encode_repr(policy(Strategy::Repr, None, false), &desc, set),
        (1 << 40) | (1 << 9) | 1
    );
    let stray = BigEnumSet::from_bits_unchecked(u128::MAX);
    assert_eq!(
        encode_repr(policy(Strategy::Repr, None, false), &desc, stray),
        u64::MAX as u128
    );
}

#[test]
fn unknown_bits_are_denied_exactly_when_there_is_one() {
    let desc = descriptor(&[0, 1, 5]);
    let deny = policy(Strategy::Repr, None, true);
    for value in 0..256u128 {
        let got = decode_repr(deny, &desc, value);
        if value & !0b100011 != 0 {
            assert_eq!(got, Err(DecodeError::UnknownBitsOnDecode), "value {}", value);
        } else {
            assert_eq!(got, Ok(BigEnumSet::from_bits_unchecked(value)), "value {}", value);
        }
    }
    assert_eq!(decode_repr(deny, &desc, 1u128 << 100), Err(DecodeError::UnknownBitsOnDecode));
    assert_eq!(decode_repr(deny, &desc, 35 | (1u128 << 127)), Err(DecodeError::UnknownBitsOnDecode));
}

#[test]
fn unknown_bits_are_dropped_where_they_are_not_denied() {
    let desc = descriptor(&[0, 1, 5]);
    let lenient = policy(Strategy::Repr, None, false);
    for value in 0..256u128 {
        let got = decode_repr(lenient, &desc, value).unwrap();
        assert_eq!(got.bits(), value & 0b100011);
        assert!(got.is_normal(&desc));
    }
    assert_eq!(decode_repr(lenient, &desc, u128::MAX).unwrap().bits(), 35);
}

#[test]
fn every_set_comes_back_from_both_forms() {
    let desc = descriptor(&[0, 3, 9, 64, 127]);
    let attrs = [
        EnumsetAttrs::default(),
        EnumsetAttrs { serialize_deny_unknown: true, ..EnumsetAttrs::default() },
        EnumsetAttrs { serialize_repr: Some("u128".to_string()), ..EnumsetAttrs::default() },
        EnumsetAttrs { serialize_as_list: true, ..EnumsetAttrs::default() },
        EnumsetAttrs {
            serialize_as_list: true,
            serialize_deny_unknown: true,
            ..EnumsetAttrs::default()
        },
    ];
    for a in attrs {
        let policy = resolve(&a, &desc).unwrap();
        for set in every_subset(&desc) {
            assert_eq!(decode_repr(policy, &desc, encode_repr(policy, &desc, set)), Ok(set));
            assert_eq!(decode_list(&encode_list(&desc, set)), set);
            let encoded = policy.encode(&desc, set);
            assert_eq!(policy.decode(&desc, &encoded), Ok(set));
        }
    }
}

#[test]
fn policy_writes_the_form_of_its_strategy() {
    let desc = descriptor(&[0, 1, 5]);
    let set = decode_list(&values(&desc, &[5, 0]));
    let list = policy(Strategy::List, None, true);
    let repr = policy(Strategy::Repr, None, true);
    assert_eq!(list.encode(&desc, set), Encoded::List(values(&desc, &[0, 5])));
    assert_eq!(repr.encode(&desc, set), Encoded::Repr(33));
    assert_eq!(list.decode(&desc, &Encoded::List(values(&desc, &[5, 5, 1]))).unwrap().bits(), 34);
    assert_eq!(
        repr.decode(&desc, &Encoded::Repr(39)),
        Err(DecodeError::UnknownBitsOnDecode)
    );
    let lenient = policy(Strategy::Repr, None, false);
    assert_eq!(lenient.decode(&desc, &Encoded::Repr(39)).unwrap().bits(), 35);
}

#[test]
fn list_form_leaves_out_what_is_no_value() {
    let desc = descriptor(&[0, 1, 5]);
    let stray = BigEnumSet::from_bits_unchecked(0b1111111);
    assert_eq!(encode_list(&desc, stray), values(&desc, &[0, 1, 5]));
}
