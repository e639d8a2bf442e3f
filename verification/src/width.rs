//! The five integer widths a set can be stored or transmitted in.

use vstd::prelude::*;
use crate::bits::low_mask;

verus! {

/// An unsigned integer width: 8, 16, 32, 64 or 128 bits.
#[derive(Clone, Copy, Debug, PartialEq, Eq, Structural, Hash)]
pub enum WidthClass {
    W8,
    W16,
    W32,
    W64,
    W128,
}

impl WidthClass {
    pub open spec fn spec_bits(self) -> u8 {
        match self {
            WidthClass::W8 => 8,
            WidthClass::W16 => 16,
            WidthClass::W32 => 32,
            WidthClass::W64 => 64,
            WidthClass::W128 => 128,
        }
    }

    /// The number of bits of this width.
    #[verifier::when_used_as_spec(spec_bits)]
    pub fn bits(self) -> (r: u8)
        ensures
            r == self.spec_bits(),
    {
        match self {
            WidthClass::W8 => 8,
            WidthClass::W16 => 16,
            WidthClass::W32 => 32,
            WidthClass::W64 => 64,
            WidthClass::W128 => 128,
        }
    }

    /// An integer of this width has a bit at `position`.
    pub open spec fn holds(self, position: nat) -> bool {
        position < self.bits()
    }

    /// This is the narrowest width that has a bit at `position`.
    pub open spec fn is_smallest_holding(self, position: nat) -> bool {
        &&& self.holds(position)
        &&& forall|other: WidthClass| other.holds(position) ==> self.bits() <= other.bits()
    }

    /// One more than the largest integer of this width.
    pub open spec fn limit(self) -> int {
        match self {
            WidthClass::W8 => 0x100,
            WidthClass::W16 => 0x1_0000,
            WidthClass::W32 => 0x1_0000_0000,
            WidthClass::W64 => 0x1_0000_0000_0000_0000,
            WidthClass::W128 => u128::MAX + 1,
        }
    }

    /// The integer in which the lowest bits are set, as many as the width has, is the
    /// largest integer of the width.
    pub proof fn lemma_low_mask_is_largest(self)
        ensures
            low_mask(self.bits() as nat) == self.limit() - 1,
    {
        assert(!(u128::MAX << 8u128) == 0xffu128) by (bit_vector);
        assert(!(u128::MAX << 16u128) == 0xffffu128) by (bit_vector);
        assert(!(u128::MAX << 32u128) == 0xffff_ffffu128) by (bit_vector);
        assert(!(u128::MAX << 64u128) == 0xffff_ffff_ffff_ffffu128) by (bit_vector);
    }

    /// The largest integer of this width: all of its bits are set.
    pub fn mask(self) -> (r: u128)
        ensures
            r == low_mask(self.bits() as nat),
            r == self.limit() - 1,
    {
        proof {
            self.lemma_low_mask_is_largest();
        }
        match self {
            WidthClass::W8 => 0xff,
            WidthClass::W16 => 0xffff,
            WidthClass::W32 => 0xffff_ffff,
            WidthClass::W64 => 0xffff_ffff_ffff_ffff,
            WidthClass::W128 => u128::MAX,
        }
    }

    /// The width that the type name `name` denotes.
    pub open spec fn named(name: Seq<char>) -> Option<WidthClass> {
        if name == "u8"@ {
            Some(WidthClass::W8)
        } else if name == "u16"@ {
            Some(WidthClass::W16)
        } else if name == "u32"@ {
            Some(WidthClass::W32)
        } else if name == "u64"@ {
            Some(WidthClass::W64)
        } else if name == "u128"@ {
            Some(WidthClass::W128)
        } else {
            None
        }
    }

    /// The narrowest width that has a bit at `position`.
    pub fn smallest_holding(position: u8) -> (r: WidthClass)
        requires
            position < 128,
        ensures
            r.is_smallest_holding(position as nat),
    {
        if position < 8 {
            WidthClass::W8
        } else if position < 16 {
            WidthClass::W16
        } else if position < 32 {
            WidthClass::W32
        } else if position < 64 {
            WidthClass::W64
        } else {
            WidthClass::W128
        }
    }

    /// Reads the name of an unsigned integer type: `u8`, `u16`, `u32`, `u64` or `u128`.
    pub fn from_name(name: &str) -> (r: Option<WidthClass>)
        ensures
            r == WidthClass::named(name@),
    {
        let owned = String::from_str(name);
        if owned == String::from_str("u8") {
            Some(WidthClass::W8)
        } else if owned == String::from_str("u16") {
            Some(WidthClass::W16)
        } else if owned == String::from_str("u32") {
            Some(WidthClass::W32)
        } else if owned == String::from_str("u64") {
            Some(WidthClass::W64)
        } else if owned == String::from_str("u128") {
            Some(WidthClass::W128)
        } else {
            None
        }
    }

    /// The name of the unsigned integer type of this width.
    pub open spec fn name_text(self) -> Seq<char> {
        match self {
            WidthClass::W8 => "u8"@,
            WidthClass::W16 => "u16"@,
            WidthClass::W32 => "u32"@,
            WidthClass::W64 => "u64"@,
            WidthClass::W128 => "u128"@,
        }
    }

    /// The name of the unsigned integer type of this width.
    pub fn name(self) -> (r: &'static str)
        ensures
            r@ == self.name_text(),
            WidthClass::named(r@) == Some(self),
    {
        proof {
            reveal_strlit("u8");
            reveal_strlit("u16");
            reveal_strlit("u32");
            reveal_strlit("u64");
            reveal_strlit("u128");
            assert("u8"@.len() == 2 && "u16"@.len() == 3 && "u128"@.len() == 4);
            assert("u16"@[1] == '1' && "u32"@[1] == '3' && "u64"@[1] == '6');
        }
        match self {
            WidthClass::W8 => "u8",
            WidthClass::W16 => "u16",
            WidthClass::W32 => "u32",
            WidthClass::W64 => "u64",
            WidthClass::W128 => "u128",
        }
    }
}

} // verus!
