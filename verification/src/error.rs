//! What can go wrong, and what is said about it.

use vstd::prelude::*;
use crate::text::{decimal, decimal_text};
use crate::width::WidthClass;

verus! {

/// Why a declaration has no layout.
#[derive(Clone, Copy, Debug, PartialEq, Eq, Structural, Hash)]
pub enum AnalysisError {
    /// The enumeration has type parameters.
    UnsupportedGenerics,
    /// The variant at position `variant` carries data.
    NonUnitVariant { variant: usize },
    /// The variant at position `variant` would get a bit beyond the 128th.
    /// `explicit` tells whether a discriminant was written out at or before it.
    TooManyVariants { variant: usize, explicit: bool },
    /// The variant at position `variant` would get the bit `bit`, which an earlier
    /// variant has.
    DuplicateDiscriminant { variant: usize, bit: u8 },
}

/// Why a configuration was turned down.
#[derive(Clone, Debug, PartialEq, Eq, Hash)]
pub enum OptionsError {
    /// The serialization width `name` names none of the five widths.
    InvalidReprName { name: String },
    /// The serialization width `width` has no bit for the largest variant.
    InsufficientReprWidth { width: WidthClass },
}

/// Why an encoded set was turned down.
#[derive(Clone, Copy, Debug, PartialEq, Eq, Structural, Hash)]
pub enum DecodeError {
    /// The integer has a bit that stands for no value.
    UnknownBitsOnDecode,
}

impl AnalysisError {
    /// What is said about this error.
    pub open spec fn text(self) -> Seq<char> {
        match self {
            AnalysisError::UnsupportedGenerics => "`#[derive(BigEnumSetType)]` cannot be used on enums with type parameters."@,
            AnalysisError::NonUnitVariant { .. } => "`#[derive(BigEnumSetType)]` can only be used on C-like enums."@,
            AnalysisError::TooManyVariants { explicit, .. } => if explicit {
                "`#[derive(BigEnumSetType)]` only supports enum discriminants up to 127."@
            } else {
                "`#[derive(BigEnumSetType)]` only supports enums up to 128 variants."@
            },
            AnalysisError::DuplicateDiscriminant { bit, .. } => "Duplicate enum discriminant: "@
                + decimal_text(bit as nat),
        }
    }

    /// What is said about this error.
    pub fn message(&self) -> (r: String)
        ensures
            r@ == self.text(),
    {
        match self {
            AnalysisError::UnsupportedGenerics => String::from_str(
                "`#[derive(BigEnumSetType)]` cannot be used on enums with type parameters.",
            ),
            AnalysisError::NonUnitVariant { .. } => String::from_str(
                "`#[derive(BigEnumSetType)]` can only be used on C-like enums.",
            ),
            AnalysisError::TooManyVariants { explicit, .. } => if *explicit {
                String::from_str(
                    "`#[derive(BigEnumSetType)]` only supports enum discriminants up to 127.",
                )
            } else {
                String::from_str(
                    "`#[derive(BigEnumSetType)]` only supports enums up to 128 variants.",
                )
            },
            AnalysisError::DuplicateDiscriminant { bit, .. } => {
                let number = decimal(*bit);
                String::from_str("Duplicate enum discriminant: ").concat(number.as_str())
            },
        }
    }
}

impl OptionsError {
    /// What is said about this error.
    pub open spec fn text(self) -> Seq<char> {
        match self {
            OptionsError::InvalidReprName { name } => name@ + " is not a valid serialization repr."@,
            OptionsError::InsufficientReprWidth { width } => "Too many variants for "@
                + width.name_text() + " serialization repr."@,
        }
    }

    /// What is said about this error.
    pub fn message(&self) -> (r: String)
        ensures
            r@ == self.text(),
    {
        match self {
            OptionsError::InvalidReprName { name } => name.clone().concat(
                " is not a valid serialization repr.",
            ),
            OptionsError::InsufficientReprWidth { width } => String::from_str(
                "Too many variants for ",
            ).concat(width.name()).concat(" serialization repr."),
        }
    }
}

impl DecodeError {
    /// What is said about this error.
    pub open spec fn text(self) -> Seq<char> {
        "big_enum_set contains unknown bits"@
    }

    /// What is said about this error.
    pub fn message(&self) -> (r: String)
        ensures
            r@ == self.text(),
    {
        String::from_str("big_enum_set contains unknown bits")
    }
}

} // verus!
