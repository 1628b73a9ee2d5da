//! 8086 Instruction

use crate::memory_operand::MemoryOperand;
use crate::register::{Register, SegmentRegister};
use vstd::prelude::*;

verus! {

/// An operand of an instruction
#[derive(Debug, Copy, Clone, PartialEq, Eq)]
pub enum Operand {
    /// A register operand
    Register(Register),
    /// A memory operand
    Memory(MemoryOperand),
    /// An immediate operand
    Immediate(i16),
    /// A segment register
    SegmentRegister(SegmentRegister),
}

/// Repeat prefix for string manipulation instructions
#[derive(Debug, Copy, Clone, PartialEq, Eq, Structural)]
pub enum Repeat {
    /// Repeat/loop while zero flag is clear
    WhileClearZeroFlag,
    /// Repeat/loop while zero flag is set
    WhileSetZeroFlag,
}

/// An 8086 decoded instruction
///
/// A jump or loop holds its offset counted from the first byte of the
/// instruction: the offset byte of the encoding plus the two bytes of the
/// instruction itself.
#[derive(Debug, Copy, Clone, PartialEq, Eq)]
#[allow(inconsistent_fields)]
pub enum Instruction {
    /// A mov instruction
    Mov { dest: Operand, src: Operand },
    /// A push instruction
    Push { src: Operand },
    /// A pop instruction
    Pop { src: Operand },
    /// An exchange (xchg) instruction
    Xchg { left: Operand, right: Operand },
    /// A no-operation
    Nop,
    /// Read from port (IN operation)
    In { dest: Register, src: Operand },
    /// Write to port (OUT operation)
    Out { dest: Operand, src: Register },
    /// Table Look-up Translation
    Xlat,
    /// Load effective address
    Lea { dest: Operand, src: Operand },
    /// Load pointer to DS
    Lds { dest: Operand, src: Operand },
    /// Load pointer to ES
    Les { dest: Operand, src: Operand },
    /// Load AH with flags
    Lahf,
    /// Store AH into flags
    Sahf,
    /// Push flags
    Pushf,
    /// Pop flags
    Popf,
    /// An add instruction
    Add { dest: Operand, src: Operand },
    /// An add with carry instruction
    Adc { dest: Operand, src: Operand },
    /// An and instruction
    And { dest: Operand, src: Operand },
    /// A test instruction
    Test { dest: Operand, src: Operand },
    /// An or instruction
    Or { dest: Operand, src: Operand },
    /// A xor instruction
    Xor { dest: Operand, src: Operand },
    /// An increment instruction
    Inc { src: Operand },
    /// An decrement instruction
    Dec { src: Operand },
    /// ASCII adjust for add
    Aaa,
    /// Decimal adjust for add
    Daa,
    /// ASCII adjust after subtraction
    Aas,
    /// Decimal adjust after subtraction
    Das,
    /// ASCII adjust after multiplication
    Aam,
    /// Decimal adjust after division
    Aad,
    /// A subtraction operation
    Sub { dest: Operand, src: Operand },
    /// A subtraction operation with borrow
    Sbb { dest: Operand, src: Operand },
    /// A multiplication operation
    Mul { src: Operand },
    /// A signed multiplication operation
    Imul { src: Operand },
    /// A divide operation
    Div { src: Operand },
    /// A signed divide operation
    Idiv { src: Operand },
    /// A change sign operation
    Neg { src: Operand },
    /// A comparison operation
    Cmp { left: Operand, right: Operand },
    /// Convert byte to word
    Cbw,
    /// Convert word to double word
    Cwd,
    /// An inversion operation
    Not { src: Operand },
    /// Shift logical left
    Shl { src: Operand, count: Operand },
    /// Shift arithmetic right
    Sar { src: Operand, count: Operand },
    /// Shift logical right
    Shr { src: Operand, count: Operand },
    /// Rotate left
    Rol { src: Operand, count: Operand },
    /// Rotate right
    Ror { src: Operand, count: Operand },
    /// Rotate through carry flag left
    Rcl { src: Operand, count: Operand },
    /// Rotate through carry flag right
    Rcr { src: Operand, count: Operand },
    /// Move byte
    MoveByte { repeat: Option<Repeat> },
    /// Move word
    MoveWord { repeat: Option<Repeat> },
    /// Compare byte
    CmpByte { repeat: Option<Repeat> },
    /// Compare word
    CmpWord { repeat: Option<Repeat> },
    /// Scan byte
    ScanByte { repeat: Option<Repeat> },
    /// Scan word
    ScanWord { repeat: Option<Repeat> },
    /// Load byte to AL
    LoadByte { repeat: Option<Repeat> },
    /// Load word to AX
    LoadWord { repeat: Option<Repeat> },
    /// Store byte to AL
    StoreByte { repeat: Option<Repeat> },
    /// Store word to AX
    StoreWord { repeat: Option<Repeat> },
    /// Call
    Call { dest: Operand },
    /// Jump
    Jump { dest: Operand },
    /// Return and adjust the stack based on offset
    ReturnWithOffset { offset: i16 },
    /// Return
    Return,
    /// Jump on equal/zero
    JumpEqual { offset: i16 },
    /// Jump on less/not greater or equal
    JumpLessThan { offset: i16 },
    /// Jump on lessor or equal/not greater
    JumpLessThanEqual { offset: i16 },
    /// Jump on below/not above or equal
    JumpBelow { offset: i16 },
    /// Jump on below or equal/not above
    JumpBelowEqual { offset: i16 },
    /// Jump on parity/parity even
    JumpParityEven { offset: i16 },
    /// Jump on overflow
    JumpOverflow { offset: i16 },
    /// Jump on sign
    JumpSign { offset: i16 },
    /// Jump on not parity/parity odd
    JumpParityOdd { offset: i16 },
    /// Jump on not equal/not zero
    JumpNotEqual { offset: i16 },
    /// Jump on not less/greater or equal
    JumpNotLessThan { offset: i16 },
    /// Jump on not less or equal/greater
    JumpNotLessThanEqual { offset: i16 },
    /// Jump on not below/above or equal
    JumpNotBelow { offset: i16 },
    /// Jump on not below or equal/above
    JumpNotBelowEqual { offset: i16 },
    /// Jump on not overflow
    JumpNotOverflow { offset: i16 },
    /// Jump on not sign
    JumpNotSign { offset: i16 },
    /// Loop CX times
    Loop { offset: i16 },
    /// Loop while zero
    LoopWhileZero { offset: i16 },
    /// Loop while not zero
    LoopWhileNotZero { offset: i16 },
    /// Jump on CX zero
    JumpCxZero { offset: i16 },
    /// Interrupt on vector
    Interrupt { vector: u8 },
    /// Interrupt on overflow
    InterruptOnOverflow,
    /// Return from interrupt
    InterruptReturn,
    /// Clear the carry bit
    ClearCarry,
    /// Complement carry
    ComplementCarry,
    /// Set carry
    SetCarry,
    /// Clear direction
    ClearDirection,
    /// Set direction bit
    SetDirection,
    /// Clear interrupt bit
    ClearInterrupt,
    /// Set interrupt bit
    SetInterrupt,
    /// Halt
    Halt,
    /// Wait
    Wait,
    /// Lock prefix
    Lock,
}

} // verus!
