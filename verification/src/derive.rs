//! From a declaration and its configuration to all that the set type of an
//! enumeration is built from.

use vstd::prelude::*;
use crate::analyzer::{analysis, analyze, EnumDecl};
use crate::descriptor::{DescriptorModel, EnumDescriptor};
use crate::error::{AnalysisError, OptionsError};
use crate::options::{resolution, resolve, EnumsetAttrs, SerializationPolicy};

verus! {

/// Why an enumeration gets no set type.
#[derive(Clone, Debug, PartialEq, Eq, Hash)]
pub enum DeriveError {
    /// The declaration is not in order.
    Analysis(AnalysisError),
    /// The configuration does not go with the declaration.
    Options(OptionsError),
}

impl DeriveError {
    /// What is said about this error.
    pub open spec fn text(self) -> Seq<char> {
        match self {
            DeriveError::Analysis(e) => e.text(),
            DeriveError::Options(e) => e.text(),
        }
    }

    /// What is said about this error.
    pub fn message(&self) -> (r: String)
        ensures
            r@ == self.text(),
    {
        match self {
            DeriveError::Analysis(e) => e.message(),
            DeriveError::Options(e) => e.message(),
        }
    }
}

/// All that the set type of one enumeration is built from.
#[derive(Clone, Debug, PartialEq, Eq, Hash)]
pub struct Derivation {
    /// The bit layout.
    pub descriptor: EnumDescriptor,
    /// How sets are serialized.
    pub policy: SerializationPolicy,
    /// Whether the operators between values are left out. The set type and its
    /// operations are there either way.
    pub no_ops: bool,
}

/// What [`derive_enum_set_type`] gives: the layout, the policy and `no_ops`, or the
/// error. The declaration is looked at first, then the configuration.
pub open spec fn derivation(decl: EnumDecl, attrs: EnumsetAttrs) -> Result<
    (DescriptorModel, SerializationPolicy, bool),
    DeriveError,
> {
    match analysis(decl) {
        Err(e) => Err(DeriveError::Analysis(e)),
        Ok(layout) => match resolution(attrs, layout) {
            Err(e) => Err(DeriveError::Options(e)),
            Ok(policy) => Ok((layout, policy, attrs.no_ops)),
        },
    }
}

/// Lays out the variants of a declaration and settles, by its configuration, how
/// its sets are serialized.
pub fn derive_enum_set_type(decl: &EnumDecl, attrs: &EnumsetAttrs) -> (r: Result<
    Derivation,
    DeriveError,
>)
    ensures
        match r {
            Ok(d) => {
                &&& derivation(*decl, *attrs) == Ok::<
                    (DescriptorModel, SerializationPolicy, bool),
                    DeriveError,
                >((d.descriptor@, d.policy, d.no_ops))
                &&& d.descriptor@.wf()
                &&& d.policy.suits(&d.descriptor)
            },
            Err(e) => derivation(*decl, *attrs) == Err::<
                (DescriptorModel, SerializationPolicy, bool),
                DeriveError,
            >(e),
        },
{
    match analyze(decl) {
        Err(e) => Err(DeriveError::Analysis(e)),
        Ok(descriptor) => match resolve(attrs, &descriptor) {
            Err(e) => Err(DeriveError::Options(e)),
            Ok(policy) => Ok(Derivation { descriptor, policy, no_ops: attrs.no_ops }),
        },
    }
}

} // verus!
