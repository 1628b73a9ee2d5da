//! The instruction decoder.
//!
//! An instruction is decoded from the bytes that start at its first byte.
//! The decoder reads as if zeros followed the last byte, and counts the bytes
//! that it has examined: an instruction of which a byte lies behind the end
//! is reported as a read out of bounds.

use crate::bits::{make_word, sign_extend, sign_extend_byte, to_signed, word_of, word_to_signed};
use crate::instruction::{Instruction, Operand, Repeat};
use crate::emu::RegisterState;
use crate::memory::{Address, Memory};
use crate::memory_operand::{operand_direct, operand_from_mod_rm, MemoryOperand};
use crate::register::{
    register_from_bits, segment_from_bits, Mod, Reg, Register, Rm, SegmentRegister, Wide,
};
use vstd::prelude::*;
use vstd::slice::slice_subrange;

verus! {

/// Errors of the decoder
#[derive(Debug, Copy, Clone, PartialEq, Eq, Structural)]
pub enum Error {
    /// Attempted to parse an unknown instruction: the byte at the address
    /// where decoding began, and that address
    UnknownInstruction(u8, Address),
    /// Attempted to parse an unknown opcode after a repeat prefix: the opcode,
    /// and the address where decoding began
    UnknownRepeatOpcode(u8, Address),
    /// The instruction that begins at the address does not end within the bytes
    OutOfBoundsRead(Address),
}

/// Why bytes are no instruction.
#[derive(Debug, Copy, Clone, PartialEq, Eq, Structural)]
pub enum Fault {
    /// No instruction begins with these bytes
    Unknown,
    /// A repeat prefix stands before the given byte, which is no string operation
    UnknownRepeat(u8),
}

/// What the bytes at the start of a sequence decode to, and how many of them
/// were examined to tell.
pub struct Parsed {
    pub outcome: Result<Instruction, Fault>,
    pub examined: usize,
}

/// The byte at a position, zero behind the end.
pub open spec fn byte_or_zero(input: Seq<u8>, i: int) -> u8 {
    if 0 <= i < input.len() {
        input[i]
    } else {
        0
    }
}

/// The MOD field of a second byte.
pub open spec fn mod_field(m: u8) -> int {
    m as int / 64
}

/// The REG field of a second byte, which in some encodings extends the opcode.
pub open spec fn reg_field(m: u8) -> int {
    (m as int / 8) % 8
}

/// The R/M field of a second byte.
pub open spec fn rm_field(m: u8) -> int {
    m as int % 8
}

/// The width bit of an opcode: its lowest bit.
pub open spec fn w_bit(op: u8) -> int {
    op as int % 2
}

/// The direction bit of an opcode, which is also the sign-extension bit and
/// the bit that selects CL as a shift count: its second bit.
pub open spec fn d_bit(op: u8) -> int {
    (op as int / 2) % 2
}

/// Number of bytes that the opcode, the second byte and the displacement take.
pub open spec fn modrm_len(m: u8) -> usize {
    if mod_field(m) == 1 {
        3
    } else if mod_field(m) == 2 || (mod_field(m) == 0 && rm_field(m) == 6) {
        4
    } else {
        2
    }
}

/// The displacement that follows the second byte.
pub open spec fn modrm_displacement(input: Seq<u8>) -> Option<i16> {
    let m = byte_or_zero(input, 1);
    if mod_field(m) == 1 {
        Some(sign_extend(byte_or_zero(input, 2)))
    } else if mod_field(m) == 2 {
        Some(to_signed(word_of(byte_or_zero(input, 2), byte_or_zero(input, 3))))
    } else {
        None
    }
}

/// The operand that the MOD and R/M fields of the second byte select.
pub open spec fn modrm_rm(input: Seq<u8>, w: int, segment: Option<SegmentRegister>) -> Operand {
    let m = byte_or_zero(input, 1);
    if mod_field(m) == 3 {
        Operand::Register(register_from_bits(rm_field(m), w))
    } else if mod_field(m) == 0 && rm_field(m) == 6 {
        Operand::Memory(
            MemoryOperand {
                segment: segment,
                ..operand_direct(word_of(byte_or_zero(input, 2), byte_or_zero(input, 3)), w)
            },
        )
    } else {
        Operand::Memory(
            MemoryOperand {
                displacement: modrm_displacement(input),
                segment: segment,
                ..operand_from_mod_rm(mod_field(m), rm_field(m), w)
            },
        )
    }
}

/// The register that the REG field of the second byte selects.
pub open spec fn modrm_reg(input: Seq<u8>, w: int) -> Operand {
    Operand::Register(register_from_bits(reg_field(byte_or_zero(input, 1)), w))
}

/// The operand without the size of its access, where it is in memory.
pub open spec fn unsized_operand(operand: Operand) -> Operand {
    match operand {
        Operand::Memory(memory) => Operand::Memory(MemoryOperand { size: None, ..memory }),
        _ => operand,
    }
}

/// The arithmetic or logic instruction with the given number in the opcode
/// map: add, or, adc, sbb, and, sub, xor, cmp.
pub open spec fn alu(kind: int, dest: Operand, src: Operand) -> Instruction {
    if kind == 0 {
        Instruction::Add { dest, src }
    } else if kind == 1 {
        Instruction::Or { dest, src }
    } else if kind == 2 {
        Instruction::Adc { dest, src }
    } else if kind == 3 {
        Instruction::Sbb { dest, src }
    } else if kind == 4 {
        Instruction::And { dest, src }
    } else if kind == 5 {
        Instruction::Sub { dest, src }
    } else if kind == 6 {
        Instruction::Xor { dest, src }
    } else {
        Instruction::Cmp { left: dest, right: src }
    }
}

/// The conditional jump with the given low four bits of the opcode.
pub open spec fn conditional_jump(kind: int, offset: i16) -> Instruction {
    if kind == 0 {
        Instruction::JumpOverflow { offset }
    } else if kind == 1 {
        Instruction::JumpNotOverflow { offset }
    } else if kind == 2 {
        Instruction::JumpBelow { offset }
    } else if kind == 3 {
        Instruction::JumpNotBelow { offset }
    } else if kind == 4 {
        Instruction::JumpEqual { offset }
    } else if kind == 5 {
        Instruction::JumpNotEqual { offset }
    } else if kind == 6 {
        Instruction::JumpBelowEqual { offset }
    } else if kind == 7 {
        Instruction::JumpNotBelowEqual { offset }
    } else if kind == 8 {
        Instruction::JumpSign { offset }
    } else if kind == 9 {
        Instruction::JumpNotSign { offset }
    } else if kind == 10 {
        Instruction::JumpParityEven { offset }
    } else if kind == 11 {
        Instruction::JumpParityOdd { offset }
    } else if kind == 12 {
        Instruction::JumpLessThan { offset }
    } else if kind == 13 {
        Instruction::JumpNotLessThan { offset }
    } else if kind == 14 {
        Instruction::JumpLessThanEqual { offset }
    } else {
        Instruction::JumpNotLessThanEqual { offset }
    }
}

/// The loop instruction with the given low two bits of the opcode.
pub open spec fn loop_jump(kind: int, offset: i16) -> Instruction {
    if kind == 0 {
        Instruction::LoopWhileNotZero { offset }
    } else if kind == 1 {
        Instruction::LoopWhileZero { offset }
    } else if kind == 2 {
        Instruction::Loop { offset }
    } else {
        Instruction::JumpCxZero { offset }
    }
}

/// The string instruction with the given opcode, if it is one.
pub open spec fn string_instruction(op: u8, repeat: Option<Repeat>) -> Option<Instruction> {
    if op == 0xA4 {
        Some(Instruction::MoveByte { repeat })
    } else if op == 0xA5 {
        Some(Instruction::MoveWord { repeat })
    } else if op == 0xA6 {
        Some(Instruction::CmpByte { repeat })
    } else if op == 0xA7 {
        Some(Instruction::CmpWord { repeat })
    } else if op == 0xAA {
        Some(Instruction::StoreByte { repeat })
    } else if op == 0xAB {
        Some(Instruction::StoreWord { repeat })
    } else if op == 0xAC {
        Some(Instruction::LoadByte { repeat })
    } else if op == 0xAD {
        Some(Instruction::LoadWord { repeat })
    } else if op == 0xAE {
        Some(Instruction::ScanByte { repeat })
    } else if op == 0xAF {
        Some(Instruction::ScanWord { repeat })
    } else {
        None
    }
}

/// The instruction of one byte without operands that has the given opcode, if
/// there is one.
pub open spec fn plain_instruction(op: u8) -> Option<Instruction> {
    if op == 0x27 {
        Some(Instruction::Daa)
    } else if op == 0x2F {
        Some(Instruction::Das)
    } else if op == 0x37 {
        Some(Instruction::Aaa)
    } else if op == 0x3F {
        Some(Instruction::Aas)
    } else if op == 0x90 {
        Some(Instruction::Nop)
    } else if op == 0x98 {
        Some(Instruction::Cbw)
    } else if op == 0x99 {
        Some(Instruction::Cwd)
    } else if op == 0x9B {
        Some(Instruction::Wait)
    } else if op == 0x9C {
        Some(Instruction::Pushf)
    } else if op == 0x9D {
        Some(Instruction::Popf)
    } else if op == 0x9E {
        Some(Instruction::Sahf)
    } else if op == 0x9F {
        Some(Instruction::Lahf)
    } else if op == 0xC3 {
        Some(Instruction::Return)
    } else if op == 0xCC {
        Some(Instruction::Interrupt { vector: 3 })
    } else if op == 0xCE {
        Some(Instruction::InterruptOnOverflow)
    } else if op == 0xCF {
        Some(Instruction::InterruptReturn)
    } else if op == 0xD7 {
        Some(Instruction::Xlat)
    } else if op == 0xF0 {
        Some(Instruction::Lock)
    } else if op == 0xF4 {
        Some(Instruction::Halt)
    } else if op == 0xF5 {
        Some(Instruction::ComplementCarry)
    } else if op == 0xF8 {
        Some(Instruction::ClearCarry)
    } else if op == 0xF9 {
        Some(Instruction::SetCarry)
    } else if op == 0xFA {
        Some(Instruction::ClearInterrupt)
    } else if op == 0xFB {
        Some(Instruction::SetInterrupt)
    } else if op == 0xFC {
        Some(Instruction::ClearDirection)
    } else if op == 0xFD {
        Some(Instruction::SetDirection)
    } else {
        string_instruction(op, None)
    }
}

/// The accumulator of the given width.
pub open spec fn accumulator(w: int) -> Register {
    if w == 1 {
        Register::Ax
    } else {
        Register::Al
    }
}

/// The immediate of one byte, or of two where `w` is 1, that starts at the
/// given position. One byte alone is not sign-extended.
pub open spec fn immediate(input: Seq<u8>, at: int, w: int) -> i16 {
    if w == 1 {
        to_signed(word_of(byte_or_zero(input, at), byte_or_zero(input, at + 1)))
    } else {
        byte_or_zero(input, at) as i16
    }
}

/// The immediate of an arithmetic or logic instruction or of a test: two
/// bytes where `w` is 1, else one byte that is sign-extended.
pub open spec fn arithmetic_immediate(input: Seq<u8>, at: int, w: int) -> i16 {
    if w == 1 {
        to_signed(word_of(byte_or_zero(input, at), byte_or_zero(input, at + 1)))
    } else {
        sign_extend(byte_or_zero(input, at))
    }
}

/// An instruction that was decoded from the given number of bytes.
pub open spec fn found(instruction: Instruction, examined: int) -> Parsed {
    Parsed { outcome: Ok(instruction), examined: examined as usize }
}

/// No instruction: the given number of bytes told so.
pub open spec fn unknown(examined: int) -> Parsed {
    Parsed { outcome: Err(Fault::Unknown), examined: examined as usize }
}

/// Opcodes below 0x40: eight arithmetic and logic operations, each with a
/// register or memory form and an accumulator form, and between them the
/// pushes and pops of segment registers and four adjust instructions.
pub open spec fn parse_low(input: Seq<u8>, segment: Option<SegmentRegister>) -> Parsed {
    let op = byte_or_zero(input, 0);
    let kind = op as int / 8;
    let w = w_bit(op);
    if op % 8 < 4 {
        let reg = modrm_reg(input, w);
        let rm = modrm_rm(input, w, segment);
        let len = modrm_len(byte_or_zero(input, 1));
        if d_bit(op) == 1 {
            found(alu(kind, reg, rm), len as int)
        } else {
            found(alu(kind, rm, reg), len as int)
        }
    } else if op % 8 < 6 {
        found(
            alu(
                kind,
                Operand::Register(accumulator(w)),
                Operand::Immediate(arithmetic_immediate(input, 1, w)),
            ),
            2 + w,
        )
    } else if op >= 0x20 {
        match plain_instruction(op) {
            Some(instruction) => found(instruction, 1),
            None => unknown(1),
        }
    } else if op % 8 == 6 {
        found(Instruction::Push { src: Operand::SegmentRegister(segment_from_bits(kind)) }, 1)
    } else {
        found(Instruction::Pop { src: Operand::SegmentRegister(segment_from_bits(kind)) }, 1)
    }
}

/// Opcodes 0x40 to 0x5F: inc, dec, push and pop of a 16-bit register.
pub open spec fn parse_register(input: Seq<u8>) -> Parsed {
    let op = byte_or_zero(input, 0);
    let src = Operand::Register(register_from_bits(op as int % 8, 1));
    if op < 0x48 {
        found(Instruction::Inc { src }, 1)
    } else if op < 0x50 {
        found(Instruction::Dec { src }, 1)
    } else if op < 0x58 {
        found(Instruction::Push { src }, 1)
    } else {
        found(Instruction::Pop { src }, 1)
    }
}

/// Opcodes 0x80 to 0x83: an arithmetic or logic operation with an immediate.
/// The immediate has two bytes where the opcode is 0x81, else one byte that
/// is sign-extended.
pub open spec fn parse_alu_immediate(input: Seq<u8>, segment: Option<SegmentRegister>) -> Parsed {
    let op = byte_or_zero(input, 0);
    let m = byte_or_zero(input, 1);
    let len = modrm_len(m) as int;
    let rm = modrm_rm(input, w_bit(op), segment);
    if op == 0x81 {
        found(alu(reg_field(m), rm, Operand::Immediate(immediate(input, len, 1))), len + 2)
    } else {
        found(
            alu(reg_field(m), rm, Operand::Immediate(sign_extend(byte_or_zero(input, len)))),
            len + 1,
        )
    }
}

/// Opcodes 0xC6 and 0xC7: mov of an immediate of the operand's width. With
/// a second byte that extends the opcode, the arithmetic or logic operation
/// of that number takes the place of the mov.
pub open spec fn parse_mov_immediate(input: Seq<u8>, segment: Option<SegmentRegister>) -> Parsed {
    let op = byte_or_zero(input, 0);
    let m = byte_or_zero(input, 1);
    let len = modrm_len(m) as int;
    let w = w_bit(op);
    let dest = modrm_rm(input, w, segment);
    if reg_field(m) == 0 {
        found(
            Instruction::Mov { dest, src: Operand::Immediate(immediate(input, len, w)) },
            len + 1 + w,
        )
    } else {
        found(
            alu(reg_field(m), dest, Operand::Immediate(arithmetic_immediate(input, len, w))),
            len + 1 + w,
        )
    }
}

/// Opcodes 0xF6 and 0xF7: test with an immediate, not, neg, mul, imul, div, idiv.
pub open spec fn parse_unary(input: Seq<u8>, segment: Option<SegmentRegister>) -> Parsed {
    let op = byte_or_zero(input, 0);
    let m = byte_or_zero(input, 1);
    let len = modrm_len(m) as int;
    let w = w_bit(op);
    let src = modrm_rm(input, w, segment);
    let ext = reg_field(m);
    if ext == 0 {
        found(
            Instruction::Test {
                dest: src,
                src: Operand::Immediate(arithmetic_immediate(input, len, w)),
            },
            len + 1 + w,
        )
    } else if ext == 1 {
        unknown(2)
    } else if ext == 2 {
        found(Instruction::Not { src }, len)
    } else if ext == 3 {
        found(Instruction::Neg { src }, len)
    } else if ext == 4 {
        found(Instruction::Mul { src }, len)
    } else if ext == 5 {
        found(Instruction::Imul { src }, len)
    } else if ext == 6 {
        found(Instruction::Div { src }, len)
    } else {
        found(Instruction::Idiv { src }, len)
    }
}

/// Opcodes 0xD0 to 0xD3: shifts and rotates, by one or by CL.
pub open spec fn parse_shift(input: Seq<u8>, segment: Option<SegmentRegister>) -> Parsed {
    let op = byte_or_zero(input, 0);
    let m = byte_or_zero(input, 1);
    let len = modrm_len(m) as int;
    let src = modrm_rm(input, w_bit(op), segment);
    let count = if d_bit(op) == 1 {
        Operand::Register(Register::Cl)
    } else {
        Operand::Immediate(1)
    };
    let ext = reg_field(m);
    if ext == 0 {
        found(Instruction::Rol { src, count }, len)
    } else if ext == 1 {
        found(Instruction::Ror { src, count }, len)
    } else if ext == 2 {
        found(Instruction::Rcl { src, count }, len)
    } else if ext == 3 {
        found(Instruction::Rcr { src, count }, len)
    } else if ext == 4 {
        found(Instruction::Shl { src, count }, len)
    } else if ext == 5 {
        found(Instruction::Shr { src, count }, len)
    } else if ext == 7 {
        found(Instruction::Sar { src, count }, len)
    } else {
        unknown(2)
    }
}

/// Opcodes 0xFE and 0xFF: inc and dec, and for words also call, jmp and push.
pub open spec fn parse_inc_group(input: Seq<u8>, segment: Option<SegmentRegister>) -> Parsed {
    let op = byte_or_zero(input, 0);
    let m = byte_or_zero(input, 1);
    let len = modrm_len(m) as int;
    let rm = modrm_rm(input, w_bit(op), segment);
    let ext = reg_field(m);
    if ext == 0 {
        found(Instruction::Inc { src: rm }, len)
    } else if ext == 1 {
        found(Instruction::Dec { src: rm }, len)
    } else if op == 0xFF && ext == 2 {
        found(Instruction::Call { dest: rm }, len)
    } else if op == 0xFF && ext == 4 {
        found(Instruction::Jump { dest: rm }, len)
    } else if op == 0xFF && ext == 6 {
        found(Instruction::Push { src: rm }, len)
    } else {
        unknown(2)
    }
}

/// Opcodes 0x84 to 0x8F: test, xchg, mov, lea and pop with a second byte.
pub open spec fn parse_transfer(input: Seq<u8>, segment: Option<SegmentRegister>) -> Parsed {
    let op = byte_or_zero(input, 0);
    let m = byte_or_zero(input, 1);
    let len = modrm_len(m) as int;
    let w = if op < 0x8C {
        w_bit(op)
    } else {
        1
    };
    let reg = modrm_reg(input, w);
    let rm = modrm_rm(input, w, segment);
    let segment_register = Operand::SegmentRegister(segment_from_bits(reg_field(m) % 4));
    if op < 0x86 {
        found(Instruction::Test { dest: rm, src: reg }, len)
    } else if op < 0x88 {
        found(Instruction::Xchg { left: reg, right: rm }, len)
    } else if op < 0x8A {
        found(Instruction::Mov { dest: rm, src: reg }, len)
    } else if op < 0x8C {
        found(Instruction::Mov { dest: reg, src: rm }, len)
    } else if op == 0x8C {
        found(Instruction::Mov { dest: rm, src: segment_register }, len)
    } else if op == 0x8D {
        found(Instruction::Lea { dest: reg, src: unsized_operand(rm) }, len)
    } else if op == 0x8E {
        found(Instruction::Mov { dest: segment_register, src: rm }, len)
    } else {
        found(Instruction::Pop { src: rm }, len)
    }
}

/// Opcodes 0xA0 to 0xA3: mov between AX and a direct address, of one byte
/// for a byte and of two for a word.
pub open spec fn parse_mov_direct(input: Seq<u8>, segment: Option<SegmentRegister>) -> Parsed {
    let op = byte_or_zero(input, 0);
    let w = w_bit(op);
    let address = if w == 1 {
        word_of(byte_or_zero(input, 1), byte_or_zero(input, 2))
    } else {
        byte_or_zero(input, 1) as u16
    };
    let memory = Operand::Memory(MemoryOperand { segment: segment, ..operand_direct(address, w) });
    if op < 0xA2 {
        found(Instruction::Mov { dest: Operand::Register(Register::Ax), src: memory }, 2 + w)
    } else {
        found(Instruction::Mov { dest: memory, src: Operand::Register(Register::Ax) }, 2 + w)
    }
}

/// Opcodes 0xE4 to 0xE7 and 0xEC to 0xEF: in and out, with the port in the
/// second byte or in DX.
pub open spec fn parse_port(input: Seq<u8>) -> Parsed {
    let op = byte_or_zero(input, 0);
    let acc = accumulator(w_bit(op));
    let port = Operand::Immediate(byte_or_zero(input, 1) as i16);
    if op < 0xE6 {
        found(Instruction::In { dest: acc, src: port }, 2)
    } else if op < 0xE8 {
        found(Instruction::Out { dest: port, src: acc }, 2)
    } else if op < 0xEE {
        found(Instruction::In { dest: acc, src: Operand::Register(Register::Dx) }, 1)
    } else {
        found(Instruction::Out { dest: Operand::Register(Register::Dx), src: acc }, 1)
    }
}

/// Opcodes 0xF2 and 0xF3: a repeat prefix and the string instruction behind it.
pub open spec fn parse_repeat(input: Seq<u8>) -> Parsed {
    let op = byte_or_zero(input, 0);
    let next = byte_or_zero(input, 1);
    let repeat = if op == 0xF3 {
        Repeat::WhileSetZeroFlag
    } else {
        Repeat::WhileClearZeroFlag
    };
    match string_instruction(next, Some(repeat)) {
        Some(instruction) => found(instruction, 2),
        None => Parsed { outcome: Err(Fault::UnknownRepeat(next)), examined: 2 },
    }
}

/// The instruction at the start of the bytes, which begin with an opcode
/// and not with a segment prefix. `segment` is the override in force.
#[verifier::opaque]
pub open spec fn parse_one(input: Seq<u8>, segment: Option<SegmentRegister>) -> Parsed {
    let op = byte_or_zero(input, 0);
    if op < 0x40 {
        parse_low(input, segment)
    } else if op < 0x60 {
        parse_register(input)
    } else if op < 0x70 {
        unknown(1)
    } else if op < 0x80 {
        found(conditional_jump(op as int % 16, (sign_extend(byte_or_zero(input, 1)) + 2) as i16), 2)
    } else if op < 0x84 {
        parse_alu_immediate(input, segment)
    } else if op < 0x90 {
        parse_transfer(input, segment)
    } else if 0x91 <= op < 0x98 {
        found(
            Instruction::Xchg {
                left: Operand::Register(register_from_bits(op as int % 8, 1)),
                right: Operand::Register(Register::Ax),
            },
            1,
        )
    } else if 0xA0 <= op < 0xA4 {
        parse_mov_direct(input, segment)
    } else if op == 0xA8 || op == 0xA9 {
        found(
            Instruction::Test {
                dest: Operand::Register(accumulator(w_bit(op))),
                src: Operand::Immediate(arithmetic_immediate(input, 1, w_bit(op))),
            },
            2 + w_bit(op),
        )
    } else if 0xB0 <= op < 0xC0 {
        let w = (op as int / 8) % 2;
        found(
            Instruction::Mov {
                dest: Operand::Register(register_from_bits(op as int % 8, w)),
                src: Operand::Immediate(immediate(input, 1, w)),
            },
            2 + w,
        )
    } else if op == 0xC2 {
        found(Instruction::ReturnWithOffset { offset: immediate(input, 1, 1) }, 3)
    } else if op == 0xC4 {
        found(
            Instruction::Les {
                dest: modrm_reg(input, 1),
                src: unsized_operand(modrm_rm(input, 1, segment)),
            },
            modrm_len(byte_or_zero(input, 1)) as int,
        )
    } else if op == 0xC5 {
        found(
            Instruction::Lds {
                dest: modrm_reg(input, 1),
                src: unsized_operand(modrm_rm(input, 1, segment)),
            },
            modrm_len(byte_or_zero(input, 1)) as int,
        )
    } else if op == 0xC6 || op == 0xC7 {
        parse_mov_immediate(input, segment)
    } else if op == 0xCD {
        found(Instruction::Interrupt { vector: byte_or_zero(input, 1) }, 2)
    } else if 0xD0 <= op < 0xD4 {
        parse_shift(input, segment)
    } else if op == 0xD4 {
        found(Instruction::Aam, 2)
    } else if op == 0xD5 {
        found(Instruction::Aad, 2)
    } else if 0xE0 <= op < 0xE4 {
        found(loop_jump(op as int % 4, (sign_extend(byte_or_zero(input, 1)) + 2) as i16), 2)
    } else if 0xE4 <= op < 0xE8 || 0xEC <= op < 0xF0 {
        parse_port(input)
    } else if op == 0xF2 || op == 0xF3 {
        parse_repeat(input)
    } else if op == 0xF6 || op == 0xF7 {
        parse_unary(input, segment)
    } else if op == 0xFE || op == 0xFF {
        parse_inc_group(input, segment)
    } else {
        match plain_instruction(op) {
            Some(instruction) => found(instruction, 1),
            None => unknown(1),
        }
    }
}

/// Whether the byte is a segment override prefix.
pub open spec fn is_segment_prefix(byte: u8) -> bool {
    byte == 0x26 || byte == 0x2E || byte == 0x36 || byte == 0x3E
}

/// Number of segment override prefixes that stand at the given position.
pub open spec fn prefix_count(input: Seq<u8>, at: int) -> nat
    decreases input.len() - at,
{
    if 0 <= at < input.len() && is_segment_prefix(input[at]) {
        1 + prefix_count(input, at + 1)
    } else {
        0
    }
}

/// The segment override in force behind the prefixes: that of the last one.
pub open spec fn prefix_segment(input: Seq<u8>, at: int) -> Option<SegmentRegister> {
    let count = prefix_count(input, at);
    if count == 0 {
        None
    } else {
        Some(segment_from_bits((input[at + count - 1] as int / 8) % 4))
    }
}

/// What decoding at a position gives: the instruction and the number of
/// bytes that it takes with its segment prefixes, or the error.
pub open spec fn decode(input: Seq<u8>, at: int) -> Result<(Instruction, nat), Error> {
    let prefixes = prefix_count(input, at);
    let parsed = parse_one(
        input.subrange(at + prefixes, input.len() as int),
        prefix_segment(input, at),
    );
    if at < 0 || at >= input.len() || at + prefixes + parsed.examined > input.len() {
        Err(Error::OutOfBoundsRead(Address(at as usize)))
    } else {
        match parsed.outcome {
            Ok(instruction) => Ok((instruction, prefixes + parsed.examined as nat)),
            Err(Fault::Unknown) => Err(Error::UnknownInstruction(input[at], Address(at as usize))),
            Err(Fault::UnknownRepeat(byte)) => Err(
                Error::UnknownRepeatOpcode(byte, Address(at as usize)),
            ),
        }
    }
}

/// Every instruction, and every failure to find one, is told from at least
/// one byte and at most six.
pub proof fn lemma_examined_bounds(input: Seq<u8>, segment: Option<SegmentRegister>)
    ensures
        1 <= parse_one(input, segment).examined <= 6,
{
    reveal(parse_one);
}

/// A decoded instruction takes at least one byte and ends within the bytes.
pub proof fn lemma_decode_length(input: Seq<u8>, at: int)
    requires
        decode(input, at) is Ok,
    ensures
        1 <= decode(input, at)->Ok_0.1,
        0 <= at,
        at + decode(input, at)->Ok_0.1 <= input.len(),
{
    lemma_examined_bounds(
        input.subrange(at + prefix_count(input, at), input.len() as int),
        prefix_segment(input, at),
    );
}

/// What decoding one instruction after the other gives, from a position to
/// the end of the bytes: the instructions, or the first error.
pub open spec fn decode_all(input: Seq<u8>, at: int) -> Result<Seq<Instruction>, Error>
    decreases input.len() - at,
{
    if at < 0 || at >= input.len() {
        Ok(Seq::empty())
    } else {
        match decode(input, at) {
            Ok((instruction, len)) => {
                proof {
                    lemma_decode_length(input, at);
                }
                match decode_all(input, at + len) {
                    Ok(rest) => Ok(seq![instruction] + rest),
                    Err(e) => Err(e),
                }
            },
            Err(e) => Err(e),
        }
    }
}

/// The byte at a position, zero behind the end
fn byte_at(input: &[u8], i: usize) -> (res: u8)
    ensures
        res == byte_or_zero(input@, i as int),
{
    if i < input.len() {
        input[i]
    } else {
        0
    }
}

/// The register operand and the register or memory operand that the second
/// byte selects, and the number of bytes up to the end of the displacement
fn modrm_operands(input: &[u8], w: u8, segment: Option<SegmentRegister>) -> (res: (
    Operand,
    Operand,
    usize,
))
    requires
        w < 2,
    ensures
        res.0 == modrm_reg(input@, w as int),
        res.1 == modrm_rm(input@, w as int, segment),
        res.2 == modrm_len(byte_or_zero(input@, 1)),
        2 <= res.2 <= 4,
{
    let m = byte_at(input, 1);
    let mod_ = m / 64;
    let rm = m % 8;
    let reg = Operand::Register(Register::from_reg_w(Reg((m / 8) % 8), Wide(w)));
    if mod_ == 3 {
        (reg, Operand::Register(Register::from_reg_w(Reg(rm), Wide(w))), 2)
    } else if mod_ == 0 && rm == 6 {
        let address = make_word(byte_at(input, 2), byte_at(input, 3));
        let memory = MemoryOperand::direct_address(address, Wide(w)).with_segment(segment);
        (reg, Operand::Memory(memory), 4)
    } else {
        let base = MemoryOperand::from_mod_rm(Mod(mod_), Rm(rm), Wide(w)).unwrap();
        if mod_ == 1 {
            let displacement = sign_extend_byte(byte_at(input, 2));
            let memory = base.with_displacement(displacement).with_segment(segment);
            (reg, Operand::Memory(memory), 3)
        } else if mod_ == 2 {
            let displacement = word_to_signed(make_word(byte_at(input, 2), byte_at(input, 3)));
            let memory = base.with_displacement(displacement).with_segment(segment);
            (reg, Operand::Memory(memory), 4)
        } else {
            (reg, Operand::Memory(base.with_segment(segment)), 2)
        }
    }
}

/// The operand without the size of its access, where it is in memory
fn drop_size(operand: Operand) -> (res: Operand)
    ensures
        res == unsized_operand(operand),
{
    match operand {
        Operand::Memory(memory) => Operand::Memory(memory.without_size()),
        Operand::Register(register) => Operand::Register(register),
        Operand::Immediate(value) => Operand::Immediate(value),
        Operand::SegmentRegister(register) => Operand::SegmentRegister(register),
    }
}

/// The immediate of one byte, or of two where `w` is 1, at the given position
fn read_immediate(input: &[u8], at: usize, w: u8) -> (res: i16)
    requires
        at < 8,
        w < 2,
    ensures
        res == immediate(input@, at as int, w as int),
{
    if w == 1 {
        word_to_signed(make_word(byte_at(input, at), byte_at(input, at + 1)))
    } else {
        byte_at(input, at) as i16
    }
}

/// The immediate of an arithmetic or logic instruction or of a test
fn read_arithmetic_immediate(input: &[u8], at: usize, w: u8) -> (res: i16)
    requires
        at < 8,
        w < 2,
    ensures
        res == arithmetic_immediate(input@, at as int, w as int),
{
    if w == 1 {
        word_to_signed(make_word(byte_at(input, at), byte_at(input, at + 1)))
    } else {
        sign_extend_byte(byte_at(input, at))
    }
}

/// The arithmetic or logic instruction with the given number
fn alu_instruction(kind: u8, dest: Operand, src: Operand) -> (res: Instruction)
    requires
        kind < 8,
    ensures
        res == alu(kind as int, dest, src),
{
    match kind {
        0 => Instruction::Add { dest, src },
        1 => Instruction::Or { dest, src },
        2 => Instruction::Adc { dest, src },
        3 => Instruction::Sbb { dest, src },
        4 => Instruction::And { dest, src },
        5 => Instruction::Sub { dest, src },
        6 => Instruction::Xor { dest, src },
        _ => Instruction::Cmp { left: dest, right: src },
    }
}

/// The conditional jump with the given low four bits of the opcode
fn conditional_jump_instruction(kind: u8, offset: i16) -> (res: Instruction)
    requires
        kind < 16,
    ensures
        res == conditional_jump(kind as int, offset),
{
    match kind {
        0 => Instruction::JumpOverflow { offset },
        1 => Instruction::JumpNotOverflow { offset },
        2 => Instruction::JumpBelow { offset },
        3 => Instruction::JumpNotBelow { offset },
        4 => Instruction::JumpEqual { offset },
        5 => Instruction::JumpNotEqual { offset },
        6 => Instruction::JumpBelowEqual { offset },
        7 => Instruction::JumpNotBelowEqual { offset },
        8 => Instruction::JumpSign { offset },
        9 => Instruction::JumpNotSign { offset },
        10 => Instruction::JumpParityEven { offset },
        11 => Instruction::JumpParityOdd { offset },
        12 => Instruction::JumpLessThan { offset },
        13 => Instruction::JumpNotLessThan { offset },
        14 => Instruction::JumpLessThanEqual { offset },
        _ => Instruction::JumpNotLessThanEqual { offset },
    }
}

/// The loop instruction with the given low two bits of the opcode
fn loop_instruction(kind: u8, offset: i16) -> (res: Instruction)
    requires
        kind < 4,
    ensures
        res == loop_jump(kind as int, offset),
{
    match kind {
        0 => Instruction::LoopWhileNotZero { offset },
        1 => Instruction::LoopWhileZero { offset },
        2 => Instruction::Loop { offset },
        _ => Instruction::JumpCxZero { offset },
    }
}

/// The string instruction with the given opcode, if it is one
fn string_op(op: u8, repeat: Option<Repeat>) -> (res: Option<Instruction>)
    ensures
        res == string_instruction(op, repeat),
{
    match op {
        0xA4 => Some(Instruction::MoveByte { repeat }),
        0xA5 => Some(Instruction::MoveWord { repeat }),
        0xA6 => Some(Instruction::CmpByte { repeat }),
        0xA7 => Some(Instruction::CmpWord { repeat }),
        0xAA => Some(Instruction::StoreByte { repeat }),
        0xAB => Some(Instruction::StoreWord { repeat }),
        0xAC => Some(Instruction::LoadByte { repeat }),
        0xAD => Some(Instruction::LoadWord { repeat }),
        0xAE => Some(Instruction::ScanByte { repeat }),
        0xAF => Some(Instruction::ScanWord { repeat }),
        _ => None,
    }
}

/// The instruction of one byte without operands with the given opcode, if
/// there is one
fn plain_op(op: u8) -> (res: Option<Instruction>)
    ensures
        res == plain_instruction(op),
{
    match op {
        0x27 => Some(Instruction::Daa),
        0x2F => Some(Instruction::Das),
        0x37 => Some(Instruction::Aaa),
        0x3F => Some(Instruction::Aas),
        0x90 => Some(Instruction::Nop),
        0x98 => Some(Instruction::Cbw),
        0x99 => Some(Instruction::Cwd),
        0x9B => Some(Instruction::Wait),
        0x9C => Some(Instruction::Pushf),
        0x9D => Some(Instruction::Popf),
        0x9E => Some(Instruction::Sahf),
        0x9F => Some(Instruction::Lahf),
        0xC3 => Some(Instruction::Return),
        0xCC => Some(Instruction::Interrupt { vector: 3 }),
        0xCE => Some(Instruction::InterruptOnOverflow),
        0xCF => Some(Instruction::InterruptReturn),
        0xD7 => Some(Instruction::Xlat),
        0xF0 => Some(Instruction::Lock),
        0xF4 => Some(Instruction::Halt),
        0xF5 => Some(Instruction::ComplementCarry),
        0xF8 => Some(Instruction::ClearCarry),
        0xF9 => Some(Instruction::SetCarry),
        0xFA => Some(Instruction::ClearInterrupt),
        0xFB => Some(Instruction::SetInterrupt),
        0xFC => Some(Instruction::ClearDirection),
        0xFD => Some(Instruction::SetDirection),
        _ => string_op(op, None),
    }
}

/// The accumulator of the given width
fn accumulator_register(w: u8) -> (res: Register)
    ensures
        res == accumulator(w as int),
{
    if w == 1 {
        Register::Ax
    } else {
        Register::Al
    }
}

/// An instruction that was decoded from the given number of bytes
fn decoded(instruction: Instruction, examined: usize) -> (res: Parsed)
    ensures
        res == found(instruction, examined as int),
{
    Parsed { outcome: Ok(instruction), examined }
}

/// No instruction, told by the given number of bytes
fn undecoded(examined: usize) -> (res: Parsed)
    ensures
        res == unknown(examined as int),
{
    Parsed { outcome: Err(Fault::Unknown), examined }
}

/// The plain instruction with the opcode, or none
fn decode_plain(op: u8) -> (res: Parsed)
    ensures
        res == match plain_instruction(op) {
            Some(instruction) => found(instruction, 1),
            None => unknown(1),
        },
{
    match plain_op(op) {
        Some(instruction) => decoded(instruction, 1),
        None => undecoded(1),
    }
}

/// Decode an opcode below 0x40
fn decode_low(input: &[u8], segment: Option<SegmentRegister>) -> (res: Parsed)
    requires
        byte_or_zero(input@, 0) < 0x40,
    ensures
        res == parse_low(input@, segment),
{
    let op = byte_at(input, 0);
    let kind = op / 8;
    let w = op % 2;
    if op % 8 < 4 {
        let (reg, rm, len) = modrm_operands(input, w, segment);
        if (op / 2) % 2 == 1 {
            decoded(alu_instruction(kind, reg, rm), len)
        } else {
            decoded(alu_instruction(kind, rm, reg), len)
        }
    } else if op % 8 < 6 {
        let dest = Operand::Register(accumulator_register(w));
        let src = Operand::Immediate(read_arithmetic_immediate(input, 1, w));
        decoded(alu_instruction(kind, dest, src), 2 + w as usize)
    } else if op >= 0x20 {
        decode_plain(op)
    } else {
        let register = SegmentRegister::try_from(kind).unwrap();
        if op % 8 == 6 {
            decoded(Instruction::Push { src: Operand::SegmentRegister(register) }, 1)
        } else {
            decoded(Instruction::Pop { src: Operand::SegmentRegister(register) }, 1)
        }
    }
}

/// Decode an inc, dec, push or pop of a 16-bit register
fn decode_register(input: &[u8]) -> (res: Parsed)
    requires
        0x40 <= byte_or_zero(input@, 0) < 0x60,
    ensures
        res == parse_register(input@),
{
    let op = byte_at(input, 0);
    let src = Operand::Register(Register::from_reg_w(Reg(op % 8), Wide(1)));
    if op < 0x48 {
        decoded(Instruction::Inc { src }, 1)
    } else if op < 0x50 {
        decoded(Instruction::Dec { src }, 1)
    } else if op < 0x58 {
        decoded(Instruction::Push { src }, 1)
    } else {
        decoded(Instruction::Pop { src }, 1)
    }
}

/// Decode an arithmetic or logic operation with an immediate
fn decode_alu_immediate(input: &[u8], segment: Option<SegmentRegister>) -> (res: Parsed)
    ensures
        res == parse_alu_immediate(input@, segment),
{
    let op = byte_at(input, 0);
    let m = byte_at(input, 1);
    let (_, rm, len) = modrm_operands(input, op % 2, segment);
    let kind = (m / 8) % 8;
    if op == 0x81 {
        let src = Operand::Immediate(read_immediate(input, len, 1));
        decoded(alu_instruction(kind, rm, src), len + 2)
    } else {
        let src = Operand::Immediate(sign_extend_byte(byte_at(input, len)));
        decoded(alu_instruction(kind, rm, src), len + 1)
    }
}

/// Decode a mov of an immediate to a register or memory operand
fn decode_mov_immediate(input: &[u8], segment: Option<SegmentRegister>) -> (res: Parsed)
    ensures
        res == parse_mov_immediate(input@, segment),
{
    let op = byte_at(input, 0);
    let m = byte_at(input, 1);
    let w = op % 2;
    let (_, dest, len) = modrm_operands(input, w, segment);
    let kind = (m / 8) % 8;
    if kind == 0 {
        let src = Operand::Immediate(read_immediate(input, len, w));
        decoded(Instruction::Mov { dest, src }, len + 1 + w as usize)
    } else {
        let src = Operand::Immediate(read_arithmetic_immediate(input, len, w));
        decoded(alu_instruction(kind, dest, src), len + 1 + w as usize)
    }
}

/// Decode a test with an immediate, not, neg, mul, imul, div or idiv
fn decode_unary(input: &[u8], segment: Option<SegmentRegister>) -> (res: Parsed)
    ensures
        res == parse_unary(input@, segment),
{
    let op = byte_at(input, 0);
    let m = byte_at(input, 1);
    let w = op % 2;
    let (_, src, len) = modrm_operands(input, w, segment);
    match (m / 8) % 8 {
        0 => {
            let immediate = Operand::Immediate(read_arithmetic_immediate(input, len, w));
            decoded(Instruction::Test { dest: src, src: immediate }, len + 1 + w as usize)
        },
        1 => undecoded(2),
        2 => decoded(Instruction::Not { src }, len),
        3 => decoded(Instruction::Neg { src }, len),
        4 => decoded(Instruction::Mul { src }, len),
        5 => decoded(Instruction::Imul { src }, len),
        6 => decoded(Instruction::Div { src }, len),
        _ => decoded(Instruction::Idiv { src }, len),
    }
}

/// Decode a shift or rotate
fn decode_shift(input: &[u8], segment: Option<SegmentRegister>) -> (res: Parsed)
    ensures
        res == parse_shift(input@, segment),
{
    let op = byte_at(input, 0);
    let m = byte_at(input, 1);
    let (_, src, len) = modrm_operands(input, op % 2, segment);
    let count = if (op / 2) % 2 == 1 {
        Operand::Register(Register::Cl)
    } else {
        Operand::Immediate(1)
    };
    match (m / 8) % 8 {
        0 => decoded(Instruction::Rol { src, count }, len),
        1 => decoded(Instruction::Ror { src, count }, len),
        2 => decoded(Instruction::Rcl { src, count }, len),
        3 => decoded(Instruction::Rcr { src, count }, len),
        4 => decoded(Instruction::Shl { src, count }, len),
        5 => decoded(Instruction::Shr { src, count }, len),
        7 => decoded(Instruction::Sar { src, count }, len),
        _ => undecoded(2),
    }
}

/// Decode an inc or dec, or a call, jmp or push of a word
fn decode_inc_group(input: &[u8], segment: Option<SegmentRegister>) -> (res: Parsed)
    ensures
        res == parse_inc_group(input@, segment),
{
    let op = byte_at(input, 0);
    let m = byte_at(input, 1);
    let (_, rm, len) = modrm_operands(input, op % 2, segment);
    let ext = (m / 8) % 8;
    if ext == 0 {
        decoded(Instruction::Inc { src: rm }, len)
    } else if ext == 1 {
        decoded(Instruction::Dec { src: rm }, len)
    } else if op == 0xFF && ext == 2 {
        decoded(Instruction::Call { dest: rm }, len)
    } else if op == 0xFF && ext == 4 {
        decoded(Instruction::Jump { dest: rm }, len)
    } else if op == 0xFF && ext == 6 {
        decoded(Instruction::Push { src: rm }, len)
    } else {
        undecoded(2)
    }
}

/// Decode a test, xchg, mov, lea or pop with a second byte
fn decode_transfer(input: &[u8], segment: Option<SegmentRegister>) -> (res: Parsed)
    requires
        0x84 <= byte_or_zero(input@, 0) < 0x90,
    ensures
        res == parse_transfer(input@, segment),
{
    let op = byte_at(input, 0);
    let m = byte_at(input, 1);
    let w = if op < 0x8C {
        op % 2
    } else {
        1
    };
    let (reg, rm, len) = modrm_operands(input, w, segment);
    let segment_register = Operand::SegmentRegister(
        SegmentRegister::try_from(((m / 8) % 8) % 4).unwrap(),
    );
    if op < 0x86 {
        decoded(Instruction::Test { dest: rm, src: reg }, len)
    } else if op < 0x88 {
        decoded(Instruction::Xchg { left: reg, right: rm }, len)
    } else if op < 0x8A {
        decoded(Instruction::Mov { dest: rm, src: reg }, len)
    } else if op < 0x8C {
        decoded(Instruction::Mov { dest: reg, src: rm }, len)
    } else if op == 0x8C {
        decoded(Instruction::Mov { dest: rm, src: segment_register }, len)
    } else if op == 0x8D {
        decoded(Instruction::Lea { dest: reg, src: drop_size(rm) }, len)
    } else if op == 0x8E {
        decoded(Instruction::Mov { dest: segment_register, src: rm }, len)
    } else {
        decoded(Instruction::Pop { src: rm }, len)
    }
}

/// Decode a mov between AX and a direct address
fn decode_mov_direct(input: &[u8], segment: Option<SegmentRegister>) -> (res: Parsed)
    ensures
        res == parse_mov_direct(input@, segment),
{
    let op = byte_at(input, 0);
    let w = op % 2;
    let address = if w == 1 {
        make_word(byte_at(input, 1), byte_at(input, 2))
    } else {
        byte_at(input, 1) as u16
    };
    let memory = Operand::Memory(
        MemoryOperand::direct_address(address, Wide(w)).with_segment(segment),
    );
    if op < 0xA2 {
        decoded(
            Instruction::Mov { dest: Operand::Register(Register::Ax), src: memory },
            2 + w as usize,
        )
    } else {
        decoded(
            Instruction::Mov { dest: memory, src: Operand::Register(Register::Ax) },
            2 + w as usize,
        )
    }
}

/// Decode an in or out
fn decode_port(input: &[u8]) -> (res: Parsed)
    ensures
        res == parse_port(input@),
{
    let op = byte_at(input, 0);
    let acc = accumulator_register(op % 2);
    let port = Operand::Immediate(byte_at(input, 1) as i16);
    if op < 0xE6 {
        decoded(Instruction::In { dest: acc, src: port }, 2)
    } else if op < 0xE8 {
        decoded(Instruction::Out { dest: port, src: acc }, 2)
    } else if op < 0xEE {
        decoded(Instruction::In { dest: acc, src: Operand::Register(Register::Dx) }, 1)
    } else {
        decoded(Instruction::Out { dest: Operand::Register(Register::Dx), src: acc }, 1)
    }
}

/// Decode a repeat prefix and the string instruction behind it
fn decode_repeat(input: &[u8]) -> (res: Parsed)
    ensures
        res == parse_repeat(input@),
{
    let op = byte_at(input, 0);
    let next = byte_at(input, 1);
    let repeat = if op == 0xF3 {
        Repeat::WhileSetZeroFlag
    } else {
        Repeat::WhileClearZeroFlag
    };
    match string_op(next, Some(repeat)) {
        Some(instruction) => decoded(instruction, 2),
        None => Parsed { outcome: Err(Fault::UnknownRepeat(next)), examined: 2 },
    }
}

/// Decode the instruction at the start of the bytes, which begin with an
/// opcode and not with a segment prefix
fn decode_one(input: &[u8], segment: Option<SegmentRegister>) -> (res: Parsed)
    ensures
        res == parse_one(input@, segment),
        1 <= res.examined <= 6,
{
    proof {
        reveal(parse_one);
    }
    let op = byte_at(input, 0);
    if op < 0x40 {
        decode_low(input, segment)
    } else if op < 0x60 {
        decode_register(input)
    } else if op < 0x70 {
        undecoded(1)
    } else if op < 0x80 {
        let offset = sign_extend_byte(byte_at(input, 1)) + 2;
        decoded(conditional_jump_instruction(op % 16, offset), 2)
    } else if op < 0x84 {
        decode_alu_immediate(input, segment)
    } else if op < 0x90 {
        decode_transfer(input, segment)
    } else if 0x91 <= op && op < 0x98 {
        let left = Operand::Register(Register::from_reg_w(Reg(op % 8), Wide(1)));
        decoded(Instruction::Xchg { left, right: Operand::Register(Register::Ax) }, 1)
    } else if 0xA0 <= op && op < 0xA4 {
        decode_mov_direct(input, segment)
    } else if op == 0xA8 || op == 0xA9 {
        let w = op % 2;
        let dest = Operand::Register(accumulator_register(w));
        let src = Operand::Immediate(read_arithmetic_immediate(input, 1, w));
        decoded(Instruction::Test { dest, src }, 2 + w as usize)
    } else if 0xB0 <= op && op < 0xC0 {
        let w = (op / 8) % 2;
        let dest = Operand::Register(Register::from_reg_w(Reg(op % 8), Wide(w)));
        let src = Operand::Immediate(read_immediate(input, 1, w));
        decoded(Instruction::Mov { dest, src }, 2 + w as usize)
    } else if op == 0xC2 {
        decoded(Instruction::ReturnWithOffset { offset: read_immediate(input, 1, 1) }, 3)
    } else if op == 0xC4 {
        let (dest, rm, len) = modrm_operands(input, 1, segment);
        decoded(Instruction::Les { dest, src: drop_size(rm) }, len)
    } else if op == 0xC5 {
        let (dest, rm, len) = modrm_operands(input, 1, segment);
        decoded(Instruction::Lds { dest, src: drop_size(rm) }, len)
    } else if op == 0xC6 || op == 0xC7 {
        decode_mov_immediate(input, segment)
    } else if op == 0xCD {
        decoded(Instruction::Interrupt { vector: byte_at(input, 1) }, 2)
    } else if 0xD0 <= op && op < 0xD4 {
        decode_shift(input, segment)
    } else if op == 0xD4 {
        decoded(Instruction::Aam, 2)
    } else if op == 0xD5 {
        decoded(Instruction::Aad, 2)
    } else if 0xE0 <= op && op < 0xE4 {
        let offset = sign_extend_byte(byte_at(input, 1)) + 2;
        decoded(loop_instruction(op % 4, offset), 2)
    } else if (0xE4 <= op && op < 0xE8) || (0xEC <= op && op < 0xF0) {
        decode_port(input)
    } else if op == 0xF2 || op == 0xF3 {
        decode_repeat(input)
    } else if op == 0xF6 || op == 0xF7 {
        decode_unary(input, segment)
    } else if op == 0xFE || op == 0xFF {
        decode_inc_group(input, segment)
    } else {
        decode_plain(op)
    }
}

/// Parse an instruction with the "mod|reg|r/m" bit pattern: the register
/// operand, the register or memory operand, and the number of bytes up to the
/// end of the displacement. The bytes start with the opcode.
pub fn parse_mod_reg_rm_instr(
    input: &[u8],
    wide: Wide,
    segment: Option<SegmentRegister>,
) -> (res: Result<(Operand, Operand, usize), Error>)
    requires
        wide.0 < 2,
    ensures
        input@.len() < modrm_len(byte_or_zero(input@, 1)) ==> res == Err::<
            (Operand, Operand, usize),
            Error,
        >(Error::OutOfBoundsRead(Address(0))),
        input@.len() >= modrm_len(byte_or_zero(input@, 1)) ==> res == Ok::<
            (Operand, Operand, usize),
            Error,
        >(
            (
                modrm_reg(input@, wide.0 as int),
                modrm_rm(input@, wide.0 as int, segment),
                modrm_len(byte_or_zero(input@, 1)),
            ),
        ),
{
    let (reg, rm, len) = modrm_operands(input, wide.0, segment);
    if input.len() < len {
        Err(Error::OutOfBoundsRead(Address(0)))
    } else {
        Ok((reg, rm, len))
    }
}

/// Parse an instruction with the "mod|segreg|r/m" bit pattern: the segment
/// register, the register or memory operand, and the number of bytes up to
/// the end of the displacement. The bytes start with the opcode.
pub fn parse_mod_segreg_rm_instr(input: &[u8], segment: Option<SegmentRegister>) -> (res: Result<
    (SegmentRegister, Operand, usize),
    Error,
>)
    ensures
        input@.len() < modrm_len(byte_or_zero(input@, 1)) ==> res == Err::<
            (SegmentRegister, Operand, usize),
            Error,
        >(Error::OutOfBoundsRead(Address(0))),
        input@.len() >= modrm_len(byte_or_zero(input@, 1)) ==> res == Ok::<
            (SegmentRegister, Operand, usize),
            Error,
        >(
            (
                segment_from_bits(reg_field(byte_or_zero(input@, 1)) % 4),
                modrm_rm(input@, 1, segment),
                modrm_len(byte_or_zero(input@, 1)),
            ),
        ),
{
    let m = byte_at(input, 1);
    let (_, rm, len) = modrm_operands(input, 1, segment);
    let register = SegmentRegister::try_from(((m / 8) % 8) % 4).unwrap();
    if input.len() < len {
        Err(Error::OutOfBoundsRead(Address(0)))
    } else {
        Ok((register, rm, len))
    }
}

/// Whether the byte is a segment override prefix
fn is_prefix(byte: u8) -> (res: bool)
    ensures
        res == is_segment_prefix(byte),
{
    byte == 0x26 || byte == 0x2E || byte == 0x36 || byte == 0x3E
}

/// Decode the instruction at the given position, and count the segment
/// prefixes that stand there
fn decode_prefixed(input: &[u8], at: usize) -> (res: (Result<(Instruction, usize), Error>, usize))
    ensures
        match decode(input@, at as int) {
            Ok((instruction, len)) => res.0 == Ok::<(Instruction, usize), Error>(
                (instruction, len as usize),
            ) && at + len <= input@.len(),
            Err(e) => res.0 == Err::<(Instruction, usize), Error>(e),
        },
        res.1 == prefix_count(input@, at as int),
        at + res.1 <= input@.len() || res.1 == 0,
{
    if at >= input.len() {
        return (Err(Error::OutOfBoundsRead(Address(at))), 0);
    }
    let mut pos: usize = at;
    let mut segment: Option<SegmentRegister> = None;
    while pos < input.len() && is_prefix(input[pos])
        invariant
            at <= pos <= input@.len(),
            prefix_count(input@, at as int) == (pos - at) + prefix_count(input@, pos as int),
            pos == at ==> segment.is_none(),
            pos > at ==> segment == Some(segment_from_bits((input@[pos - 1] as int / 8) % 4)),
        decreases input@.len() - pos,
    {
        let register = SegmentRegister::try_from((input[pos] / 8) % 4).unwrap();
        segment = Some(register);
        pos += 1;
    }
    let prefixes: usize = pos - at;
    let rest = slice_subrange(input, pos, input.len());
    let parsed = decode_one(rest, segment);
    if parsed.examined > input.len() - pos {
        return (Err(Error::OutOfBoundsRead(Address(at))), prefixes);
    }
    let result = match parsed.outcome {
        Ok(instruction) => Ok((instruction, prefixes + parsed.examined)),
        Err(Fault::Unknown) => Err(Error::UnknownInstruction(input[at], Address(at))),
        Err(Fault::UnknownRepeat(byte)) => Err(Error::UnknownRepeatOpcode(byte, Address(at))),
    };
    (result, prefixes)
}

/// Decode the instruction that starts at the given position of the bytes:
/// the instruction, and the number of bytes that it takes
pub fn decode_at(input: &[u8], at: usize) -> (res: Result<(Instruction, usize), Error>)
    ensures
        match decode(input@, at as int) {
            Ok((instruction, len)) => res == Ok::<(Instruction, usize), Error>(
                (instruction, len as usize),
            ) && at + len <= input@.len(),
            Err(e) => res == Err::<(Instruction, usize), Error>(e),
        },
{
    decode_prefixed(input, at).0
}

/// Decode the instruction at the instruction pointer and move the pointer
/// behind it: behind the last byte of a memory of 65536 bytes the pointer is
/// zero again. On an error the pointer has only passed the segment prefixes.
pub fn decode_instruction<const SIZE: usize>(cpu: &mut RegisterState, memory: &Memory<SIZE>) -> (res:
    Result<Instruction, Error>)
    requires
        memory.wf(),
    ensures
        match decode(memory.memory@, old(cpu).word(Register::Ip) as int) {
            Ok((instruction, len)) => res == Ok::<Instruction, Error>(instruction) && final(cpu)@
                == old(cpu)@.update(
                Register::Ip.slot(),
                ((old(cpu).word(Register::Ip) + len) % 0x10000) as u16,
            ) && old(cpu).word(Register::Ip) + len <= SIZE,
            Err(e) => res == Err::<Instruction, Error>(e) && final(cpu)@ == old(cpu)@.update(
                Register::Ip.slot(),
                ((old(cpu).word(Register::Ip) + prefix_count(
                    memory.memory@,
                    old(cpu).word(Register::Ip) as int,
                )) % 0x10000) as u16,
            ),
        },
{
    let ip = cpu.ip();
    let (result, prefixes) = decode_prefixed(memory.memory.as_slice(), ip as usize);
    proof {
        if result is Ok {
            lemma_decode_length(memory.memory@, ip as int);
        }
    }
    match result {
        Ok((instruction, len)) => {
            cpu.set_ip((((ip as u32) + (len as u32)) % 0x10000) as u16);
            Ok(instruction)
        },
        Err(e) => {
            cpu.set_ip((((ip as u32) + (prefixes as u32)) % 0x10000) as u16);
            Err(e)
        },
    }
}

/// Decode a stream of bytes and return the decoded instructions
pub fn decode_stream(input: &[u8]) -> (res: Result<Vec<Instruction>, Error>)
    ensures
        match decode_all(input@, 0) {
            Ok(instructions) => res is Ok && res->Ok_0@ == instructions,
            Err(e) => res == Err::<Vec<Instruction>, Error>(e),
        },
{
    let mut instructions: Vec<Instruction> = Vec::new();
    let mut at: usize = 0;
    while at < input.len()
        invariant
            at <= input@.len(),
            decode_all(input@, 0) == match decode_all(input@, at as int) {
                Ok(rest) => Ok::<Seq<Instruction>, Error>(instructions@ + rest),
                Err(e) => Err::<Seq<Instruction>, Error>(e),
            },
        decreases input@.len() - at,
    {
        match decode_at(input, at) {
            Ok((instruction, len)) => {
                proof {
                    lemma_decode_length(input@, at as int);
                    let rest = decode_all(input@, at + len);
                    if rest is Ok {
                        assert(instructions@.push(instruction) + rest->Ok_0 =~= instructions@ + (
                        seq![instruction] + rest->Ok_0));
                    }
                }
                instructions.push(instruction);
                at += len;
            },
            Err(e) => {
                return Err(e);
            },
        }
    }
    assert(instructions@ + Seq::<Instruction>::empty() =~= instructions@);
    Ok(instructions)
}

} // verus!
