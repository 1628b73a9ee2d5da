//! A memory operand

use crate::register::{Mod, Register, Rm, SegmentRegister, Wide};
use vstd::prelude::*;

verus! {

/// Possible errors while handling memory operands
#[derive(Debug, Copy, Clone, PartialEq, Eq, Structural)]
pub enum MemoryError {
    /// 0b11 mod value is not used with memory encoding
    AttemptedThreeModInMemory,
    /// Invalid rm value found while creating memory operand
    InvalidRMValue(u8),
}

/// Size of a memory read
#[derive(Debug, Copy, Clone, PartialEq, Eq, Structural)]
pub enum MemorySize {
    Byte,
    Word,
}

impl MemorySize {
    /// The printed name of the size.
    pub open spec fn text(self) -> Seq<char> {
        match self {
            MemorySize::Byte => "byte"@,
            MemorySize::Word => "word"@,
        }
    }

    /// The number of bytes that an access of this size covers.
    pub open spec fn spec_bytes(self) -> nat {
        match self {
            MemorySize::Byte => 1,
            MemorySize::Word => 2,
        }
    }

    /// The name of the size as it is printed.
    pub fn name(self) -> (res: &'static str)
        ensures
            res@ == self.text(),
    {
        match self {
            MemorySize::Byte => "byte",
            MemorySize::Word => "word",
        }
    }
}

/// The size that the width bit selects.
pub open spec fn size_from_wide(w: int) -> MemorySize {
    if w == 1 {
        MemorySize::Word
    } else {
        MemorySize::Byte
    }
}

/// A memory operand
#[derive(Debug, Copy, Clone, PartialEq, Eq)]
pub struct MemoryOperand {
    /// First register involved with this memory operand
    pub base1: Option<Register>,
    /// Second register involved with this memory operand
    pub base2: Option<Register>,
    /// Displacement value for this memory operand
    pub displacement: Option<i16>,
    /// Size of memory read
    pub size: Option<MemorySize>,
    /// Direct address for this memory operand
    pub address: Option<u16>,
    /// Overridden segment
    pub segment: Option<SegmentRegister>,
}

/// The first base register that an R/M field selects.
pub open spec fn rm_base1(mod_: int, rm: int) -> Option<Register> {
    if rm == 0 || rm == 1 || rm == 7 {
        Some(Register::Bx)
    } else if rm == 2 || rm == 3 {
        Some(Register::Bp)
    } else if rm == 4 {
        Some(Register::Si)
    } else if rm == 5 {
        Some(Register::Di)
    } else if mod_ != 0 {
        Some(Register::Bp)
    } else {
        None
    }
}

/// The second base register that an R/M field selects.
pub open spec fn rm_base2(rm: int) -> Option<Register> {
    if rm == 0 || rm == 2 {
        Some(Register::Si)
    } else if rm == 1 || rm == 3 {
        Some(Register::Di)
    } else {
        None
    }
}

/// The operand that addresses memory through the registers of an R/M field.
pub open spec fn operand_from_mod_rm(mod_: int, rm: int, w: int) -> MemoryOperand {
    MemoryOperand {
        base1: rm_base1(mod_, rm),
        base2: rm_base2(rm),
        displacement: None,
        size: Some(size_from_wide(w)),
        address: None,
        segment: None,
    }
}

/// The operand that names one fixed address.
pub open spec fn operand_direct(addr: u16, w: int) -> MemoryOperand {
    MemoryOperand {
        base1: None,
        base2: None,
        displacement: None,
        size: Some(size_from_wide(w)),
        address: Some(addr),
        segment: None,
    }
}

impl MemoryOperand {
    /// An operand with a direct address has no base registers, and a second
    /// base register comes only with a first one.
    pub open spec fn wf(self) -> bool {
        &&& self.address.is_some() ==> self.base1.is_none() && self.base2.is_none()
        &&& self.base2.is_some() ==> self.base1.is_some()
    }

    /// Set the overridden segment of this memory operand
    pub fn with_segment(self, segment: Option<SegmentRegister>) -> (res: MemoryOperand)
        ensures
            res == (MemoryOperand { segment: segment, ..self }),
            self.wf() ==> res.wf(),
    {
        MemoryOperand {
            base1: self.base1,
            base2: self.base2,
            displacement: self.displacement,
            size: self.size,
            address: self.address,
            segment,
        }
    }

    /// Create a direct address memory operand
    pub fn direct_address(addr: u16, wide: Wide) -> (res: MemoryOperand)
        requires
            wide.0 < 2,
        ensures
            res == operand_direct(addr, wide.0 as int),
            res.wf(),
    {
        let size = if wide.0 == 1 {
            MemorySize::Word
        } else {
            MemorySize::Byte
        };
        MemoryOperand {
            base1: None,
            base2: None,
            displacement: None,
            size: Some(size),
            address: Some(addr),
            segment: None,
        }
    }

    /// Create the memory operand whose base registers the R/M field selects
    pub fn from_mod_rm(mod_: Mod, rm: Rm, wide: Wide) -> (res: Result<MemoryOperand, MemoryError>)
        requires
            wide.0 < 2,
        ensures
            mod_.0 == 3 ==> res == Err::<MemoryOperand, MemoryError>(
                MemoryError::AttemptedThreeModInMemory,
            ),
            mod_.0 != 3 && rm.0 >= 8 ==> res == Err::<MemoryOperand, MemoryError>(
                MemoryError::InvalidRMValue(rm.0),
            ),
            mod_.0 != 3 && rm.0 < 8 ==> res == Ok::<MemoryOperand, MemoryError>(
                operand_from_mod_rm(mod_.0 as int, rm.0 as int, wide.0 as int),
            ),
            res is Ok ==> res->Ok_0.wf(),
    {
        if mod_.0 == 3 {
            return Err(MemoryError::AttemptedThreeModInMemory);
        }
        let (base1, base2) = match rm.0 {
            0 => (Some(Register::Bx), Some(Register::Si)),
            1 => (Some(Register::Bx), Some(Register::Di)),
            2 => (Some(Register::Bp), Some(Register::Si)),
            3 => (Some(Register::Bp), Some(Register::Di)),
            4 => (Some(Register::Si), None),
            5 => (Some(Register::Di), None),
            6 => {
                if mod_.0 != 0 {
                    (Some(Register::Bp), None)
                } else {
                    // No registers set. RM b110 is Direct Address
                    (None, None)
                }
            },
            7 => (Some(Register::Bx), None),
            _ => {
                return Err(MemoryError::InvalidRMValue(rm.0));
            },
        };
        let size = if wide.0 == 1 {
            MemorySize::Word
        } else {
            MemorySize::Byte
        };
        Ok(
            MemoryOperand {
                base1,
                base2,
                displacement: None,
                size: Some(size),
                address: None,
                segment: None,
            },
        )
    }

    /// Set the displacement for this memory operand
    pub fn with_displacement(self, displacement: i16) -> (res: MemoryOperand)
        ensures
            res == (MemoryOperand { displacement: Some(displacement), ..self }),
            self.wf() ==> res.wf(),
    {
        MemoryOperand {
            base1: self.base1,
            base2: self.base2,
            displacement: Some(displacement),
            size: self.size,
            address: self.address,
            segment: self.segment,
        }
    }

    /// Remove the size of the access, as for an operand of which only the address is used
    pub fn without_size(self) -> (res: MemoryOperand)
        ensures
            res == (MemoryOperand { size: None, ..self }),
            self.wf() ==> res.wf(),
    {
        MemoryOperand {
            base1: self.base1,
            base2: self.base2,
            displacement: self.displacement,
            size: None,
            address: self.address,
            segment: self.segment,
        }
    }
}

} // verus!
