//! The registers of the 8086.

use vstd::prelude::*;

verus! {

/// REG field parsed from an instruction stream
#[derive(Debug, Copy, Clone)]
pub struct Reg(pub u8);

/// W field parsed from an instruction stream
#[derive(Debug, Copy, Clone)]
pub struct Wide(pub u8);

/// RM field parsed from an instruction stream
#[derive(Debug, Copy, Clone)]
pub struct Rm(pub u8);

/// MOD field parsed from an instruction stream
#[derive(Debug, Copy, Clone)]
pub struct Mod(pub u8);

/// Number of 16-bit words in the register file.
pub const REGISTER_COUNT: usize = 10;

/// Register 8086 bank: the ten 16-bit registers, in the order in which the
/// register file holds them, then the eight 8-bit halves of AX, BX, CX and DX.
#[derive(Debug, Copy, Clone, PartialEq, Eq, Structural)]
pub enum Register {
    Ax,
    Bx,
    Cx,
    Dx,
    Si,
    Di,
    Bp,
    Sp,
    Ip,
    Flags,
    Al,
    Ah,
    Bl,
    Bh,
    Cl,
    Ch,
    Dl,
    Dh,
}

/// The sub register that this register represents
///
/// Example:
/// Ax -> SubRegister::Full
/// Al -> SubRegister::Low
/// Ah -> SubRegister::High
#[derive(Debug, Copy, Clone, PartialEq, Eq, Structural)]
pub enum SubRegister {
    /// This is the full 16 bit register
    Full,
    /// This is only the high 8 bits of the register
    High,
    /// This is only the low 8 bits of the register
    Low,
}

/// The 16-bit registers in the order of the REG field.
pub open spec fn word_registers() -> Seq<Register> {
    seq![
        Register::Ax,
        Register::Cx,
        Register::Dx,
        Register::Bx,
        Register::Sp,
        Register::Bp,
        Register::Si,
        Register::Di,
    ]
}

/// The 8-bit registers in the order of the REG field.
pub open spec fn byte_registers() -> Seq<Register> {
    seq![
        Register::Al,
        Register::Cl,
        Register::Dl,
        Register::Bl,
        Register::Ah,
        Register::Ch,
        Register::Dh,
        Register::Bh,
    ]
}

/// The register that a three-bit field names, for the given width bit.
pub open spec fn register_from_bits(reg: int, w: int) -> Register
    recommends
        0 <= reg < 8,
        0 <= w < 2,
{
    if w == 1 {
        word_registers()[reg]
    } else {
        byte_registers()[reg]
    }
}

impl Register {
    /// Whether this is one of the ten 16-bit registers.
    pub open spec fn is_main(self) -> bool {
        self.parts().1 == SubRegister::Full
    }

    /// The 16-bit register that holds this register, and the part of it that
    /// this register names.
    pub open spec fn parts(self) -> (Register, SubRegister) {
        match self {
            Register::Al => (Register::Ax, SubRegister::Low),
            Register::Ah => (Register::Ax, SubRegister::High),
            Register::Bl => (Register::Bx, SubRegister::Low),
            Register::Bh => (Register::Bx, SubRegister::High),
            Register::Cl => (Register::Cx, SubRegister::Low),
            Register::Ch => (Register::Cx, SubRegister::High),
            Register::Dl => (Register::Dx, SubRegister::Low),
            Register::Dh => (Register::Dx, SubRegister::High),
            _ => (self, SubRegister::Full),
        }
    }

    /// Position in the register file of the 16-bit register that holds this register.
    pub open spec fn slot(self) -> int {
        match self.parts().0 {
            Register::Ax => 0,
            Register::Bx => 1,
            Register::Cx => 2,
            Register::Dx => 3,
            Register::Si => 4,
            Register::Di => 5,
            Register::Bp => 6,
            Register::Sp => 7,
            Register::Ip => 8,
            _ => 9,
        }
    }

    /// The printed name of the register.
    pub open spec fn text(self) -> Seq<char> {
        match self {
            Register::Ax => "ax"@,
            Register::Al => "al"@,
            Register::Ah => "ah"@,
            Register::Bx => "bx"@,
            Register::Bl => "bl"@,
            Register::Bh => "bh"@,
            Register::Cx => "cx"@,
            Register::Cl => "cl"@,
            Register::Ch => "ch"@,
            Register::Dx => "dx"@,
            Register::Dl => "dl"@,
            Register::Dh => "dh"@,
            Register::Si => "si"@,
            Register::Di => "di"@,
            Register::Sp => "sp"@,
            Register::Bp => "bp"@,
            Register::Ip => "ip"@,
            Register::Flags => "flags"@,
        }
    }

    /// Get a register from a decoded `reg` or `rm` value and `w`
    pub fn from_reg_w(reg: Reg, w: Wide) -> (res: Register)
        requires
            reg.0 < 8,
            w.0 < 2,
        ensures
            res == register_from_bits(reg.0 as int, w.0 as int),
    {
        if w.0 == 1 {
            match reg.0 {
                0 => Register::Ax,
                1 => Register::Cx,
                2 => Register::Dx,
                3 => Register::Bx,
                4 => Register::Sp,
                5 => Register::Bp,
                6 => Register::Si,
                _ => Register::Di,
            }
        } else {
            match reg.0 {
                0 => Register::Al,
                1 => Register::Cl,
                2 => Register::Dl,
                3 => Register::Bl,
                4 => Register::Ah,
                5 => Register::Ch,
                6 => Register::Dh,
                _ => Register::Bh,
            }
        }
    }

    /// Position of a 16-bit register in the register file, and of an 8-bit
    /// register the position of the register that holds it.
    pub fn index(self) -> (res: usize)
        ensures
            res == self.slot(),
            res < REGISTER_COUNT,
    {
        match self {
            Register::Ax | Register::Al | Register::Ah => 0,
            Register::Bx | Register::Bl | Register::Bh => 1,
            Register::Cx | Register::Cl | Register::Ch => 2,
            Register::Dx | Register::Dl | Register::Dh => 3,
            Register::Si => 4,
            Register::Di => 5,
            Register::Bp => 6,
            Register::Sp => 7,
            Register::Ip => 8,
            Register::Flags => 9,
        }
    }

    /// Number of the host vector register that holds this 16-bit register in
    /// translated code.
    pub fn as_zmm(self) -> (res: u8)
        requires
            self.is_main(),
        ensures
            res == self.slot() + 1,
    {
        let slot: usize = self.index();
        match slot {
            0 => 1,
            1 => 2,
            2 => 3,
            3 => 4,
            4 => 5,
            5 => 6,
            6 => 7,
            7 => 8,
            8 => 9,
            _ => 10,
        }
    }

    /// Splits the current register as the main register and the sub register it represents
    ///
    /// Example:
    /// Ax -> (Ax, Full)
    /// Al -> (Ax, Low)
    /// Ah -> (Ax, High)
    pub fn as_sub_register(&self) -> (res: (Register, SubRegister))
        ensures
            res == self.parts(),
    {
        match self {
            Register::Al => (Register::Ax, SubRegister::Low),
            Register::Ah => (Register::Ax, SubRegister::High),
            Register::Bl => (Register::Bx, SubRegister::Low),
            Register::Bh => (Register::Bx, SubRegister::High),
            Register::Cl => (Register::Cx, SubRegister::Low),
            Register::Ch => (Register::Cx, SubRegister::High),
            Register::Dl => (Register::Dx, SubRegister::Low),
            Register::Dh => (Register::Dx, SubRegister::High),
            Register::Ax => (Register::Ax, SubRegister::Full),
            Register::Bx => (Register::Bx, SubRegister::Full),
            Register::Cx => (Register::Cx, SubRegister::Full),
            Register::Dx => (Register::Dx, SubRegister::Full),
            Register::Si => (Register::Si, SubRegister::Full),
            Register::Di => (Register::Di, SubRegister::Full),
            Register::Bp => (Register::Bp, SubRegister::Full),
            Register::Sp => (Register::Sp, SubRegister::Full),
            Register::Ip => (Register::Ip, SubRegister::Full),
            Register::Flags => (Register::Flags, SubRegister::Full),
        }
    }

    /// The name of the register as it is printed, in lower case.
    pub fn name(self) -> (res: &'static str)
        ensures
            res@ == self.text(),
    {
        match self {
            Register::Ax => "ax",
            Register::Al => "al",
            Register::Ah => "ah",
            Register::Bx => "bx",
            Register::Bl => "bl",
            Register::Bh => "bh",
            Register::Cx => "cx",
            Register::Cl => "cl",
            Register::Ch => "ch",
            Register::Dx => "dx",
            Register::Dl => "dl",
            Register::Dh => "dh",
            Register::Si => "si",
            Register::Di => "di",
            Register::Sp => "sp",
            Register::Bp => "bp",
            Register::Ip => "ip",
            Register::Flags => "flags",
        }
    }
}

/// The sixteen pairs of a three-bit field and a width bit name sixteen
/// different registers.
pub proof fn lemma_register_from_bits_injective(reg1: int, w1: int, reg2: int, w2: int)
    requires
        0 <= reg1 < 8,
        0 <= reg2 < 8,
        0 <= w1 < 2,
        0 <= w2 < 2,
        register_from_bits(reg1, w1) == register_from_bits(reg2, w2),
    ensures
        reg1 == reg2,
        w1 == w2,
{
}

/// An 8086 segment register
#[derive(Debug, Copy, Clone, PartialEq, Eq, Structural)]
pub enum SegmentRegister {
    Es,
    Cs,
    Ss,
    Ds,
}

/// Number of segment registers.
pub const SEGMENT_COUNT: usize = 4;

/// Error while parsing a segment register
#[derive(Debug, Copy, Clone, PartialEq, Eq, Structural)]
pub enum SegmentRegisterError {
    /// Attempted to parse an unknown segment register
    UnknownSegmentRegister(u8),
}

/// The segment register that a two-bit field names.
pub open spec fn segment_from_bits(value: int) -> SegmentRegister
    recommends
        0 <= value < 4,
{
    seq![SegmentRegister::Es, SegmentRegister::Cs, SegmentRegister::Ss, SegmentRegister::Ds][value]
}

impl SegmentRegister {
    /// Position of the register among the segment registers.
    pub open spec fn slot(self) -> int {
        match self {
            SegmentRegister::Es => 0,
            SegmentRegister::Cs => 1,
            SegmentRegister::Ss => 2,
            SegmentRegister::Ds => 3,
        }
    }

    /// The printed name of the register.
    pub open spec fn text(self) -> Seq<char> {
        match self {
            SegmentRegister::Es => "es"@,
            SegmentRegister::Cs => "cs"@,
            SegmentRegister::Ss => "ss"@,
            SegmentRegister::Ds => "ds"@,
        }
    }

    /// The segment register with the given two-bit encoding.
    pub fn try_from(value: u8) -> (res: Result<SegmentRegister, SegmentRegisterError>)
        ensures
            value < 4 ==> res == Ok::<SegmentRegister, SegmentRegisterError>(
                segment_from_bits(value as int),
            ),
            value >= 4 ==> res == Err::<SegmentRegister, SegmentRegisterError>(
                SegmentRegisterError::UnknownSegmentRegister(value),
            ),
    {
        match value {
            0 => Ok(SegmentRegister::Es),
            1 => Ok(SegmentRegister::Cs),
            2 => Ok(SegmentRegister::Ss),
            3 => Ok(SegmentRegister::Ds),
            _ => Err(SegmentRegisterError::UnknownSegmentRegister(value)),
        }
    }

    /// Position of the register among the segment registers.
    pub fn index(self) -> (res: usize)
        ensures
            res == self.slot(),
            res < SEGMENT_COUNT,
    {
        match self {
            SegmentRegister::Es => 0,
            SegmentRegister::Cs => 1,
            SegmentRegister::Ss => 2,
            SegmentRegister::Ds => 3,
        }
    }

    /// The name of the register as it is printed, in lower case.
    pub fn name(self) -> (res: &'static str)
        ensures
            res@ == self.text(),
    {
        match self {
            SegmentRegister::Es => "es",
            SegmentRegister::Cs => "cs",
            SegmentRegister::Ss => "ss",
            SegmentRegister::Ds => "ds",
        }
    }
}

} // verus!
