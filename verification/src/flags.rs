//! The status flags of the 8086.

use vstd::prelude::*;

verus! {

/// The status flags that arithmetic sets.
#[derive(Debug, Copy, Clone, PartialEq, Eq, Structural)]
pub enum EFlags {
    Carry,
    Parity,
    Auxillary,
    Zero,
    Sign,
    Overflow,
}

impl EFlags {
    /// The position of the flag's bit in the flags word.
    pub open spec fn spec_bit(self) -> nat {
        match self {
            EFlags::Carry => 0,
            EFlags::Parity => 2,
            EFlags::Auxillary => 4,
            EFlags::Zero => 6,
            EFlags::Sign => 7,
            EFlags::Overflow => 11,
        }
    }

    /// The flags word in which only this flag is set.
    pub open spec fn spec_mask(self) -> u16 {
        match self {
            EFlags::Carry => 0x0001,
            EFlags::Parity => 0x0004,
            EFlags::Auxillary => 0x0010,
            EFlags::Zero => 0x0040,
            EFlags::Sign => 0x0080,
            EFlags::Overflow => 0x0800,
        }
    }

    /// The position of the flag's bit in the flags word.
    pub fn bit(self) -> (res: u8)
        ensures
            res == self.spec_bit(),
    {
        match self {
            EFlags::Carry => 0,
            EFlags::Parity => 2,
            EFlags::Auxillary => 4,
            EFlags::Zero => 6,
            EFlags::Sign => 7,
            EFlags::Overflow => 11,
        }
    }

    /// The flags word in which only this flag is set.
    pub fn mask(self) -> (res: u16)
        ensures
            res == self.spec_mask(),
            res > 0,
    {
        match self {
            EFlags::Carry => 0x0001,
            EFlags::Parity => 0x0004,
            EFlags::Auxillary => 0x0010,
            EFlags::Zero => 0x0040,
            EFlags::Sign => 0x0080,
            EFlags::Overflow => 0x0800,
        }
    }
}

/// The mask of the zero flag or of the sign flag as an immediate
pub fn low_flag_value(flag: EFlags) -> (res: i16)
    requires
        flag == EFlags::Zero || flag == EFlags::Sign,
    ensures
        res == flag.spec_mask() as i16,
        res == flag.spec_mask(),
{
    match flag {
        EFlags::Zero => 0x0040,
        _ => 0x0080,
    }
}

/// Whether a flags word has the given flag set.
pub open spec fn flag_set(flags: u16, flag: EFlags) -> bool {
    (flags / flag.spec_mask()) % 2 == 1
}

/// The mask of a flag is the power of two of the position of its bit.
pub proof fn lemma_mask_is_bit(flag: EFlags)
    ensures
        flag.spec_mask() as nat == vstd::arithmetic::power2::pow2(flag.spec_bit()),
{
    vstd::arithmetic::power2::lemma2_to64();
}

} // verus!
