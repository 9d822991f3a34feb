use vstd::prelude::*;

verus! {

/// A set of up to eight flags, one per bit of a byte.
#[derive(Clone, Copy, PartialEq, Eq, Structural, Debug)]
pub struct BitFlags(pub u8);

impl BitFlags {
    /// The set with no flag.
    pub fn empty() -> (r: Self)
        ensures
            r.0 == 0,
    {
        BitFlags(0)
    }

    /// Whether no flag is set.
    pub fn is_empty(self) -> (r: bool)
        ensures
            r == (self.0 == 0),
    {
        self.0 == 0
    }

    /// Whether every flag of `other` is set in `self`.
    pub fn contains(self, other: Self) -> (r: bool)
        ensures
            r == ((self.0 & other.0) == other.0),
    {
        (self.0 & other.0) == other.0
    }

    /// The raw bits.
    pub fn bits(self) -> (r: u8)
        ensures
            r == self.0,
    {
        self.0
    }
}

impl core::ops::BitOr for BitFlags {
    type Output = BitFlags;

    fn bitor(self, rhs: BitFlags) -> BitFlags {
        BitFlags(self.0 | rhs.0)
    }
}

impl vstd::std_specs::ops::BitOrSpecImpl for BitFlags {
    open spec fn obeys_bitor_spec() -> bool {
        true
    }

    open spec fn bitor_req(self, rhs: BitFlags) -> bool {
        true
    }

    open spec fn bitor_spec(self, rhs: BitFlags) -> BitFlags {
        BitFlags(self.0 | rhs.0)
    }
}

impl core::ops::BitAnd for BitFlags {
    type Output = BitFlags;

    fn bitand(self, rhs: BitFlags) -> BitFlags {
        BitFlags(self.0 & rhs.0)
    }
}

impl vstd::std_specs::ops::BitAndSpecImpl for BitFlags {
    open spec fn obeys_bitand_spec() -> bool {
        true
    }

    open spec fn bitand_req(self, rhs: BitFlags) -> bool {
        true
    }

    open spec fn bitand_spec(self, rhs: BitFlags) -> BitFlags {
        BitFlags(self.0 & rhs.0)
    }
}

impl core::ops::BitXor for BitFlags {
    type Output = BitFlags;

    fn bitxor(self, rhs: BitFlags) -> BitFlags {
        BitFlags(self.0 ^ rhs.0)
    }
}

impl vstd::std_specs::ops::BitXorSpecImpl for BitFlags {
    open spec fn obeys_bitxor_spec() -> bool {
        true
    }

    open spec fn bitxor_req(self, rhs: BitFlags) -> bool {
        true
    }

    open spec fn bitxor_spec(self, rhs: BitFlags) -> BitFlags {
        BitFlags(self.0 ^ rhs.0)
    }
}

} // verus!
