//! From the configuration of an enumeration to the way its sets are serialized.

use vstd::prelude::*;
use crate::descriptor::{DescriptorModel, EnumDescriptor};
use crate::error::OptionsError;
use crate::width::WidthClass;

verus! {

/// The configuration as it was written on the enumeration.
#[derive(Clone, Debug, PartialEq, Eq, Hash)]
pub struct EnumsetAttrs {
    /// Leave out the operators between values. The set type and its operations are
    /// there either way.
    pub no_ops: bool,
    /// Serialize a set as the list of its members.
    pub serialize_as_list: bool,
    /// In reading a set from an integer, turn down bits that stand for no value.
    pub serialize_deny_unknown: bool,
    /// The name of the integer type to serialize a set as.
    pub serialize_repr: Option<String>,
}

impl Default for EnumsetAttrs {
    fn default() -> (r: EnumsetAttrs)
        ensures
            !r.no_ops,
            !r.serialize_as_list,
            !r.serialize_deny_unknown,
            r.serialize_repr is None,
    {
        EnumsetAttrs {
            no_ops: false,
            serialize_as_list: false,
            serialize_deny_unknown: false,
            serialize_repr: None,
        }
    }
}

/// The two ways to serialize a set.
#[derive(Clone, Copy, Debug, PartialEq, Eq, Structural, Hash)]
pub enum Strategy {
    /// As the list of its members, from the lowest bit index up.
    List,
    /// As the integer that holds it.
    Repr,
}

/// How the sets of one enumeration are serialized.
///
/// `repr_width` and `deny_unknown_bits` bear on the integer form only; with
/// [`Strategy::List`] they are carried along and not looked at.
#[derive(Clone, Copy, Debug, PartialEq, Eq, Structural, Hash)]
pub struct SerializationPolicy {
    pub strategy: Strategy,
    /// The width of the integer; where it is not set, the descriptor's own width.
    pub repr_width: Option<WidthClass>,
    /// Whether reading turns down an integer with a bit that stands for no value.
    pub deny_unknown_bits: bool,
}

impl SerializationPolicy {
    pub open spec fn spec_width_for(self, desc: &EnumDescriptor) -> WidthClass {
        match self.repr_width {
            Some(width) => width,
            None => desc@.width_class,
        }
    }

    /// The width of the integer that a set of `desc` is serialized as.
    #[verifier::when_used_as_spec(spec_width_for)]
    pub fn width_for(self, desc: &EnumDescriptor) -> (r: WidthClass)
        ensures
            r == self.spec_width_for(desc),
    {
        match self.repr_width {
            Some(width) => width,
            None => desc.width_class(),
        }
    }

    /// The integer has a bit for every value of `desc`.
    pub open spec fn suits(self, desc: &EnumDescriptor) -> bool {
        self.width_for(desc).holds(desc@.max_variant)
    }
}

/// What [`resolve`] makes of `attrs` for a layout.
pub open spec fn resolution(attrs: EnumsetAttrs, desc: DescriptorModel) -> Result<
    SerializationPolicy,
    OptionsError,
> {
    let strategy = if attrs.serialize_as_list {
        Strategy::List
    } else {
        Strategy::Repr
    };
    match attrs.serialize_repr {
        None => Ok(
            SerializationPolicy {
                strategy,
                repr_width: None,
                deny_unknown_bits: attrs.serialize_deny_unknown,
            },
        ),
        Some(name) => match WidthClass::named(name@) {
            None => Err(OptionsError::InvalidReprName { name }),
            Some(width) => if width.holds(desc.max_variant) {
                Ok(
                    SerializationPolicy {
                        strategy,
                        repr_width: Some(width),
                        deny_unknown_bits: attrs.serialize_deny_unknown,
                    },
                )
            } else {
                Err(OptionsError::InsufficientReprWidth { width })
            },
        },
    }
}

/// Checks the configuration against the layout and settles how sets are serialized.
///
/// A named width must be one of `u8`, `u16`, `u32`, `u64` and `u128`, and have a bit
/// for the largest variant; this is asked with either strategy. With
/// `serialize_as_list` the width and `serialize_deny_unknown` are accepted and have no
/// effect. `no_ops` has no part in the outcome.
pub fn resolve(attrs: &EnumsetAttrs, desc: &EnumDescriptor) -> (r: Result<
    SerializationPolicy,
    OptionsError,
>)
    ensures
        r == resolution(*attrs, desc@),
        r matches Ok(policy) ==> policy.suits(desc),
{
    let strategy = if attrs.serialize_as_list {
        Strategy::List
    } else {
        Strategy::Repr
    };
    let max_variant = desc.max_variant();
    let own_width = desc.width_class();
    match &attrs.serialize_repr {
        None => Ok(
            SerializationPolicy {
                strategy,
                repr_width: None,
                deny_unknown_bits: attrs.serialize_deny_unknown,
            },
        ),
        Some(name) => match WidthClass::from_name(name.as_str()) {
            None => Err(OptionsError::InvalidReprName { name: name.clone() }),
            Some(width) => if max_variant < width.bits() {
                Ok(
                    SerializationPolicy {
                        strategy,
                        repr_width: Some(width),
                        deny_unknown_bits: attrs.serialize_deny_unknown,
                    },
                )
            } else {
                Err(OptionsError::InsufficientReprWidth { width })
            },
        },
    }
}

} // verus!
