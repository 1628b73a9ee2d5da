//! The bytes of an instruction, and the proof that the decoder finds the
//! instruction in them.
//!
//! Where an instruction has several encodings, one of them is chosen: the
//! shortest displacement, and the general form rather than the short forms for
//! the accumulator. Instructions that the decoder never gives have no encoding.

use crate::bits::{sign_extend, to_unsigned, word_of};
use crate::decoder::{
    byte_or_zero, decode, found, immediate, is_segment_prefix, modrm_len, modrm_reg, modrm_rm,
    parse_alu_immediate, parse_inc_group, parse_low, parse_mov_direct, parse_mov_immediate,
    parse_one, parse_port, parse_register, parse_repeat, parse_shift, parse_transfer, parse_unary,
    plain_instruction, prefix_count, prefix_segment, reg_field, string_instruction,
    unsized_operand, Error,
};
use crate::instruction::{Instruction, Operand, Repeat};
use crate::memory_operand::{MemoryOperand, MemorySize};
use crate::register::{register_from_bits, Register, SegmentRegister};
use vstd::prelude::*;

verus! {

/// The number of a register in a three-bit field, and its width bit.
pub open spec fn register_bits(reg: Register) -> Option<(int, int)> {
    match reg {
        Register::Ax => Some((0, 1)),
        Register::Cx => Some((1, 1)),
        Register::Dx => Some((2, 1)),
        Register::Bx => Some((3, 1)),
        Register::Sp => Some((4, 1)),
        Register::Bp => Some((5, 1)),
        Register::Si => Some((6, 1)),
        Register::Di => Some((7, 1)),
        Register::Al => Some((0, 0)),
        Register::Cl => Some((1, 0)),
        Register::Dl => Some((2, 0)),
        Register::Bl => Some((3, 0)),
        Register::Ah => Some((4, 0)),
        Register::Ch => Some((5, 0)),
        Register::Dh => Some((6, 0)),
        Register::Bh => Some((7, 0)),
        _ => None,
    }
}

/// The R/M field that selects the given base registers.
pub open spec fn bases_rm(base1: Option<Register>, base2: Option<Register>) -> Option<int> {
    match (base1, base2) {
        (Some(Register::Bx), Some(Register::Si)) => Some(0),
        (Some(Register::Bx), Some(Register::Di)) => Some(1),
        (Some(Register::Bp), Some(Register::Si)) => Some(2),
        (Some(Register::Bp), Some(Register::Di)) => Some(3),
        (Some(Register::Si), None) => Some(4),
        (Some(Register::Di), None) => Some(5),
        (Some(Register::Bp), None) => Some(6),
        (Some(Register::Bx), None) => Some(7),
        _ => None,
    }
}

/// The two bytes of a word, low byte first.
pub open spec fn word_bytes(word: u16) -> Seq<u8> {
    seq![(word % 256) as u8, (word / 256) as u8]
}

/// How a register or memory operand stands in a second byte and behind it.
pub struct RmCode {
    /// The MOD field
    pub mode: int,
    /// The R/M field
    pub rm: int,
    /// The bytes of the displacement or of the direct address
    pub tail: Seq<u8>,
    /// The width bit that the operand asks for: that of a register, or of
    /// the size of a memory operand that has one
    pub w: Option<int>,
    /// The segment override of a memory operand
    pub segment: Option<SegmentRegister>,
}

/// The width bit of a size.
pub open spec fn wide_of(size: Option<MemorySize>) -> Option<int> {
    match size {
        Some(MemorySize::Word) => Some(1),
        Some(MemorySize::Byte) => Some(0),
        None => None,
    }
}

/// How a memory operand stands in a second byte and behind it, if it is one
/// that the decoder gives: a direct address alone, or base registers that an
/// R/M field can select, with the shortest displacement that holds the
/// operand's.
pub open spec fn memory_code(memory: MemoryOperand) -> Option<RmCode> {
    match memory.address {
        Some(address) => if memory.base1.is_none() && memory.base2.is_none()
            && memory.displacement.is_none() {
            Some(
                RmCode {
                    mode: 0,
                    rm: 6,
                    tail: word_bytes(address),
                    w: wide_of(memory.size),
                    segment: memory.segment,
                },
            )
        } else {
            None
        },
        None => match bases_rm(memory.base1, memory.base2) {
            Some(rm) => match memory.displacement {
                None => if rm != 6 {
                    Some(
                        RmCode {
                            mode: 0,
                            rm,
                            tail: Seq::empty(),
                            w: wide_of(memory.size),
                            segment: memory.segment,
                        },
                    )
                } else {
                    None
                },
                Some(d) => if -128 <= d < 128 {
                    Some(
                        RmCode {
                            mode: 1,
                            rm,
                            tail: seq![(to_unsigned(d) % 256) as u8],
                            w: wide_of(memory.size),
                            segment: memory.segment,
                        },
                    )
                } else {
                    Some(
                        RmCode {
                            mode: 2,
                            rm,
                            tail: word_bytes(to_unsigned(d)),
                            w: wide_of(memory.size),
                            segment: memory.segment,
                        },
                    )
                },
            },
            None => None,
        },
    }
}

/// How a register or memory operand stands in a second byte and behind it.
pub open spec fn rm_code(operand: Operand) -> Option<RmCode> {
    match operand {
        Operand::Register(reg) => match register_bits(reg) {
            Some((n, w)) => Some(
                RmCode { mode: 3, rm: n, tail: Seq::empty(), w: Some(w), segment: None },
            ),
            None => None,
        },
        Operand::Memory(memory) => memory_code(memory),
        _ => None,
    }
}

/// The second byte with the given REG field, and the bytes behind it.
pub open spec fn modrm_bytes(code: RmCode, reg: int) -> Seq<u8> {
    seq![(64 * code.mode + 8 * reg + code.rm) as u8] + code.tail
}

/// The opcode, the second byte for a register or memory operand of the given
/// width, and the bytes behind it.
pub open spec fn rm_form(opcode: int, operand: Operand, reg: int, w: int) -> Option<Seq<u8>> {
    match rm_code(operand) {
        Some(code) => if code.w == Some(w) {
            Some(seq![opcode as u8] + modrm_bytes(code, reg))
        } else {
            None
        },
        None => None,
    }
}

/// The same for an operand of which only the address is used: a memory
/// operand without size, or a 16-bit register.
pub open spec fn rm_form_unsized(opcode: int, operand: Operand, reg: int) -> Option<Seq<u8>> {
    match rm_code(operand) {
        Some(code) => if (operand is Memory && code.w.is_none()) || (operand is Register && code.w
            == Some(1int)) {
            Some(seq![opcode as u8] + modrm_bytes(code, reg))
        } else {
            None
        },
        None => None,
    }
}

/// The segment override of an operand.
pub open spec fn operand_segment(operand: Operand) -> Option<SegmentRegister> {
    match operand {
        Operand::Memory(memory) => memory.segment,
        _ => None,
    }
}

/// The fields of a second byte that is put together from them.
proof fn lemma_modrm_fields(mode: int, reg: int, rm: int)
    by (nonlinear_arith)
    requires
        0 <= mode <= 3,
        0 <= reg <= 7,
        0 <= rm <= 7,
    ensures
        0 <= 64 * mode + 8 * reg + rm < 256,
        (64 * mode + 8 * reg + rm) / 64 == mode,
        ((64 * mode + 8 * reg + rm) / 8) % 8 == reg,
        (64 * mode + 8 * reg + rm) % 8 == rm,
{
}

/// The word that is read from the two bytes of a word is the word.
proof fn lemma_word_bytes(word: u16)
    ensures
        word_of((word % 256) as u8, (word / 256) as u8) == word,
{
}

/// The decoder finds a register or memory operand in its bytes. Where the
/// bytes of the form stand at the start of a sequence, the second byte has the
/// fields of the form, the operand is the one that was encoded, and the
/// displacement ends where the form ends.
pub proof fn lemma_rm_form(
    input: Seq<u8>,
    opcode: int,
    operand: Operand,
    reg: int,
    w: int,
    form: Seq<u8>,
)
    requires
        0 <= opcode < 256,
        0 <= reg < 8,
        0 <= w <= 1,
        rm_form(opcode, operand, reg, w) == Some(form) || (rm_form_unsized(opcode, operand, reg)
            == Some(form) && w == 1),
        form.len() <= input.len(),
        input.subrange(0, form.len() as int) == form,
    ensures
        byte_or_zero(input, 0) == opcode,
        reg_field(byte_or_zero(input, 1)) == reg,
        modrm_len(byte_or_zero(input, 1)) == form.len(),
        2 <= form.len() <= 4,
        rm_form(opcode, operand, reg, w) == Some(form) ==> modrm_rm(
            input,
            w,
            operand_segment(operand),
        ) == operand,
        rm_form_unsized(opcode, operand, reg) == Some(form) && w == 1 ==> unsized_operand(
            modrm_rm(input, w, operand_segment(operand)),
        ) == operand,
        modrm_reg(input, w) == Operand::Register(register_from_bits(reg, w)),
{
    let code = rm_code(operand)->Some_0;
    lemma_modrm_fields(code.mode, reg, code.rm);
    assert forall|k: int| 0 <= k < form.len() implies input[k] == form[k] by {
        assert(input.subrange(0, form.len() as int)[k] == input[k]);
    }
    assert(form[0] == opcode as u8);
    assert(form[1] == (64 * code.mode + 8 * reg + code.rm) as u8);
    assert(input[0] == form[0]);
    assert(input[1] == form[1]);
    match operand {
        Operand::Memory(memory) => {
            if code.tail.len() >= 1 {
                assert(input[2] == form[2]);
                assert(form[2] == code.tail[0]);
            }
            if code.tail.len() >= 2 {
                assert(input[3] == form[3]);
                assert(form[3] == code.tail[1]);
            }
            match memory.address {
                Some(address) => {
                    lemma_word_bytes(address);
                },
                None => {
                    match memory.displacement {
                        Some(d) => {
                            lemma_word_bytes(to_unsigned(d));
                            crate::bits::lemma_unsigned_round_trip(d);
                        },
                        None => {},
                    }
                },
            }
        },
        _ => {},
    }
}

/// The bytes of an immediate of the given width. An immediate of one byte
/// is a number below 256.
pub open spec fn imm_bytes(value: i16, w: int) -> Option<Seq<u8>> {
    if w == 1 {
        Some(word_bytes(to_unsigned(value)))
    } else if 0 <= value < 256 {
        Some(seq![value as u8])
    } else {
        None
    }
}

/// The byte of a number from -128 to 127.
pub open spec fn signed_byte(value: i16) -> Option<Seq<u8>> {
    if -128 <= value < 128 {
        Some(seq![(to_unsigned(value) % 256) as u8])
    } else {
        None
    }
}

/// Two sequences of bytes, one behind the other, where there are both.
pub open spec fn join(first: Option<Seq<u8>>, second: Option<Seq<u8>>) -> Option<Seq<u8>> {
    match (first, second) {
        (Some(a), Some(b)) => Some(a + b),
        _ => None,
    }
}

/// The form of an instruction with a register or memory operand and a
/// register, in either direction: the opcode of the form with the register as
/// source, for bytes, is given.
pub open spec fn pair_body(base: int, dest: Operand, src: Operand) -> Option<Seq<u8>> {
    match (dest, src) {
        (_, Operand::Register(reg)) => match register_bits(reg) {
            Some((n, w)) => rm_form(base + w, dest, n, w),
            None => None,
        },
        (Operand::Register(reg), Operand::Memory(_)) => match register_bits(reg) {
            Some((n, w)) => rm_form(base + 2 + w, src, n, w),
            None => None,
        },
        _ => None,
    }
}

/// The width bit that a register or memory operand asks for.
pub open spec fn operand_wide(operand: Operand) -> Option<int> {
    match rm_code(operand) {
        Some(code) => code.w,
        None => None,
    }
}

/// The number of an arithmetic or logic instruction in the opcode map.
pub open spec fn alu_kind(instruction: Instruction) -> Option<int> {
    match instruction {
        Instruction::Add { .. } => Some(0),
        Instruction::Or { .. } => Some(1),
        Instruction::Adc { .. } => Some(2),
        Instruction::Sbb { .. } => Some(3),
        Instruction::And { .. } => Some(4),
        Instruction::Sub { .. } => Some(5),
        Instruction::Xor { .. } => Some(6),
        Instruction::Cmp { .. } => Some(7),
        _ => None,
    }
}

/// The bytes of the immediate of an arithmetic or logic instruction or of
/// a test: a word, or for a byte a number from -128 to 127.
pub open spec fn arithmetic_bytes(value: i16, w: int) -> Option<Seq<u8>> {
    if w == 1 {
        Some(word_bytes(to_unsigned(value)))
    } else {
        signed_byte(value)
    }
}

/// The bytes of an arithmetic or logic instruction.
pub open spec fn alu_body(kind: int, dest: Operand, src: Operand) -> Option<Seq<u8>> {
    match src {
        Operand::Immediate(value) => match operand_wide(dest) {
            Some(w) => join(rm_form(0x80 + w, dest, kind, w), arithmetic_bytes(value, w)),
            None => None,
        },
        _ => pair_body(8 * kind, dest, src),
    }
}

/// The bytes of a mov.
pub open spec fn mov_body(dest: Operand, src: Operand) -> Option<Seq<u8>> {
    match (dest, src) {
        (Operand::SegmentRegister(segment), _) => rm_form(0x8E, src, segment.slot(), 1),
        (_, Operand::SegmentRegister(segment)) => rm_form(0x8C, dest, segment.slot(), 1),
        (Operand::Register(reg), Operand::Immediate(value)) => match register_bits(reg) {
            Some((n, w)) => join(Some(seq![(0xB0 + 8 * w + n) as u8]), imm_bytes(value, w)),
            None => None,
        },
        (Operand::Memory(memory), Operand::Immediate(value)) => match wide_of(memory.size) {
            Some(w) => join(rm_form(0xC6 + w, dest, 0, w), imm_bytes(value, w)),
            None => None,
        },
        (Operand::Register(Register::Ax), Operand::Memory(memory)) => if wide_of(memory.size)
            == Some(0int) {
            short_address_body(0xA0, memory)
        } else {
            pair_body(0x88, dest, src)
        },
        (Operand::Memory(memory), Operand::Register(Register::Ax)) => if wide_of(memory.size)
            == Some(0int) {
            short_address_body(0xA2, memory)
        } else {
            pair_body(0x88, dest, src)
        },
        _ => pair_body(0x88, dest, src),
    }
}

/// The bytes of a mov between AX and a byte at a direct address below 256:
/// the form for the accumulator, with the address in one byte.
pub open spec fn short_address_body(opcode: int, memory: MemoryOperand) -> Option<Seq<u8>> {
    match memory.address {
        Some(address) => if address < 256 && memory.base1.is_none() && memory.base2.is_none()
            && memory.displacement.is_none() {
            Some(seq![opcode as u8, address as u8])
        } else {
            None
        },
        None => None,
    }
}

/// The bytes of an instruction with one register or memory operand, whose
/// second byte extends the opcode.
pub open spec fn group_body(opcode: int, ext: int, operand: Operand) -> Option<Seq<u8>> {
    match operand_wide(operand) {
        Some(w) => rm_form(opcode + w, operand, ext, w),
        None => None,
    }
}

/// The bytes of a shift or rotate, by one or by CL.
pub open spec fn shift_body(ext: int, src: Operand, count: Operand) -> Option<Seq<u8>> {
    if count == Operand::Immediate(1) {
        group_body(0xD0, ext, src)
    } else if count == Operand::Register(Register::Cl) {
        group_body(0xD2, ext, src)
    } else {
        None
    }
}

/// The bytes of an instruction on a 16-bit register that has an opcode of
/// its own for each register.
pub open spec fn short_body(opcode: int, reg: Register) -> Option<Seq<u8>> {
    match register_bits(reg) {
        Some((n, w)) => if w == 1 {
            Some(seq![(opcode + n) as u8])
        } else {
            None
        },
        None => None,
    }
}

/// The width bit of the accumulator, if the register is one.
pub open spec fn accumulator_wide(reg: Register) -> Option<int> {
    match reg {
        Register::Al => Some(0),
        Register::Ax => Some(1),
        _ => None,
    }
}

/// The bytes of an in or an out: the opcode for a port in the second byte
/// is given.
pub open spec fn port_body(opcode: int, acc: Register, port: Operand) -> Option<Seq<u8>> {
    match accumulator_wide(acc) {
        Some(w) => match port {
            Operand::Immediate(value) => join(Some(seq![(opcode + w) as u8]), imm_bytes(value, 0)),
            Operand::Register(Register::Dx) => Some(seq![(opcode + 8 + w) as u8]),
            _ => None,
        },
        None => None,
    }
}

/// The bytes of a jump or loop with an offset in one byte.
pub open spec fn jump_body(opcode: int, offset: i16) -> Option<Seq<u8>> {
    if -126 <= offset <= 129 {
        Some(seq![opcode as u8, (to_unsigned((offset - 2) as i16) % 256) as u8])
    } else {
        None
    }
}

/// The bytes of a string instruction with its repeat prefix.
pub open spec fn string_body(opcode: int, repeat: Option<Repeat>) -> Option<Seq<u8>> {
    match repeat {
        None => Some(seq![opcode as u8]),
        Some(Repeat::WhileSetZeroFlag) => Some(seq![0xF3u8, opcode as u8]),
        Some(Repeat::WhileClearZeroFlag) => Some(seq![0xF2u8, opcode as u8]),
    }
}

/// The bytes of an instruction behind its segment prefix, if the decoder
/// gives the instruction.
pub open spec fn body(instruction: Instruction) -> Option<Seq<u8>> {
    match instruction {
        Instruction::Mov { dest, src } => mov_body(dest, src),
        Instruction::Add { dest, src }
        | Instruction::Or { dest, src }
        | Instruction::Adc { dest, src }
        | Instruction::Sbb { dest, src }
        | Instruction::And { dest, src }
        | Instruction::Sub { dest, src }
        | Instruction::Xor { dest, src }
        | Instruction::Cmp { left: dest, right: src } => alu_body(
            alu_kind(instruction)->Some_0,
            dest,
            src,
        ),
        Instruction::Test { dest, src } => match src {
            Operand::Register(reg) => match register_bits(reg) {
                Some((n, w)) => rm_form(0x84 + w, dest, n, w),
                None => None,
            },
            Operand::Immediate(value) => match operand_wide(dest) {
                Some(w) => join(rm_form(0xF6 + w, dest, 0, w), arithmetic_bytes(value, w)),
                None => None,
            },
            _ => None,
        },
        Instruction::Xchg { left, right } => match left {
            Operand::Register(reg) => match register_bits(reg) {
                Some((n, w)) => rm_form(0x86 + w, right, n, w),
                None => None,
            },
            _ => None,
        },
        Instruction::Lea { dest: Operand::Register(reg), src } => match register_bits(reg) {
            Some((n, w)) => if w == 1 {
                rm_form_unsized(0x8D, src, n)
            } else {
                None
            },
            None => None,
        },
        Instruction::Lds { dest: Operand::Register(reg), src } => match register_bits(reg) {
            Some((n, w)) => if w == 1 {
                rm_form_unsized(0xC5, src, n)
            } else {
                None
            },
            None => None,
        },
        Instruction::Les { dest: Operand::Register(reg), src } => match register_bits(reg) {
            Some((n, w)) => if w == 1 {
                rm_form_unsized(0xC4, src, n)
            } else {
                None
            },
            None => None,
        },
        Instruction::Push { src } => match src {
            Operand::Register(reg) => short_body(0x50, reg),
            Operand::SegmentRegister(segment) => Some(seq![(0x06 + 8 * segment.slot()) as u8]),
            Operand::Memory(_) => rm_form(0xFF, src, 6, 1),
            _ => None,
        },
        Instruction::Pop { src } => match src {
            Operand::Register(reg) => short_body(0x58, reg),
            Operand::SegmentRegister(segment) => Some(seq![(0x07 + 8 * segment.slot()) as u8]),
            Operand::Memory(_) => rm_form(0x8F, src, 0, 1),
            _ => None,
        },
        Instruction::Inc { src } => match src {
            Operand::Register(reg) => if short_body(0x40, reg).is_some() {
                short_body(0x40, reg)
            } else {
                group_body(0xFE, 0, src)
            },
            _ => group_body(0xFE, 0, src),
        },
        Instruction::Dec { src } => match src {
            Operand::Register(reg) => if short_body(0x48, reg).is_some() {
                short_body(0x48, reg)
            } else {
                group_body(0xFE, 1, src)
            },
            _ => group_body(0xFE, 1, src),
        },
        Instruction::Not { src } => group_body(0xF6, 2, src),
        Instruction::Neg { src } => group_body(0xF6, 3, src),
        Instruction::Mul { src } => group_body(0xF6, 4, src),
        Instruction::Imul { src } => group_body(0xF6, 5, src),
        Instruction::Div { src } => group_body(0xF6, 6, src),
        Instruction::Idiv { src } => group_body(0xF6, 7, src),
        Instruction::Rol { src, count } => shift_body(0, src, count),
        Instruction::Ror { src, count } => shift_body(1, src, count),
        Instruction::Rcl { src, count } => shift_body(2, src, count),
        Instruction::Rcr { src, count } => shift_body(3, src, count),
        Instruction::Shl { src, count } => shift_body(4, src, count),
        Instruction::Shr { src, count } => shift_body(5, src, count),
        Instruction::Sar { src, count } => shift_body(7, src, count),
        Instruction::Call { dest } => rm_form(0xFF, dest, 2, 1),
        Instruction::Jump { dest } => rm_form(0xFF, dest, 4, 1),
        Instruction::In { dest, src } => port_body(0xE4, dest, src),
        Instruction::Out { dest, src } => port_body(0xE6, src, dest),
        Instruction::ReturnWithOffset { offset } => join(Some(seq![0xC2u8]), imm_bytes(offset, 1)),
        Instruction::Interrupt { vector } => Some(seq![0xCDu8, vector]),
        Instruction::Aam => Some(seq![0xD4u8, 0x0Au8]),
        Instruction::Aad => Some(seq![0xD5u8, 0x0Au8]),
        Instruction::JumpOverflow { offset } => jump_body(0x70, offset),
        Instruction::JumpNotOverflow { offset } => jump_body(0x71, offset),
        Instruction::JumpBelow { offset } => jump_body(0x72, offset),
        Instruction::JumpNotBelow { offset } => jump_body(0x73, offset),
        Instruction::JumpEqual { offset } => jump_body(0x74, offset),
        Instruction::JumpNotEqual { offset } => jump_body(0x75, offset),
        Instruction::JumpBelowEqual { offset } => jump_body(0x76, offset),
        Instruction::JumpNotBelowEqual { offset } => jump_body(0x77, offset),
        Instruction::JumpSign { offset } => jump_body(0x78, offset),
        Instruction::JumpNotSign { offset } => jump_body(0x79, offset),
        Instruction::JumpParityEven { offset } => jump_body(0x7A, offset),
        Instruction::JumpParityOdd { offset } => jump_body(0x7B, offset),
        Instruction::JumpLessThan { offset } => jump_body(0x7C, offset),
        Instruction::JumpNotLessThan { offset } => jump_body(0x7D, offset),
        Instruction::JumpLessThanEqual { offset } => jump_body(0x7E, offset),
        Instruction::JumpNotLessThanEqual { offset } => jump_body(0x7F, offset),
        Instruction::LoopWhileNotZero { offset } => jump_body(0xE0, offset),
        Instruction::LoopWhileZero { offset } => jump_body(0xE1, offset),
        Instruction::Loop { offset } => jump_body(0xE2, offset),
        Instruction::JumpCxZero { offset } => jump_body(0xE3, offset),
        Instruction::MoveByte { repeat } => string_body(0xA4, repeat),
        Instruction::MoveWord { repeat } => string_body(0xA5, repeat),
        Instruction::CmpByte { repeat } => string_body(0xA6, repeat),
        Instruction::CmpWord { repeat } => string_body(0xA7, repeat),
        Instruction::StoreByte { repeat } => string_body(0xAA, repeat),
        Instruction::StoreWord { repeat } => string_body(0xAB, repeat),
        Instruction::LoadByte { repeat } => string_body(0xAC, repeat),
        Instruction::LoadWord { repeat } => string_body(0xAD, repeat),
        Instruction::ScanByte { repeat } => string_body(0xAE, repeat),
        Instruction::ScanWord { repeat } => string_body(0xAF, repeat),
        Instruction::Daa => Some(seq![0x27u8]),
        Instruction::Das => Some(seq![0x2Fu8]),
        Instruction::Aaa => Some(seq![0x37u8]),
        Instruction::Aas => Some(seq![0x3Fu8]),
        Instruction::Nop => Some(seq![0x90u8]),
        Instruction::Cbw => Some(seq![0x98u8]),
        Instruction::Cwd => Some(seq![0x99u8]),
        Instruction::Wait => Some(seq![0x9Bu8]),
        Instruction::Pushf => Some(seq![0x9Cu8]),
        Instruction::Popf => Some(seq![0x9Du8]),
        Instruction::Sahf => Some(seq![0x9Eu8]),
        Instruction::Lahf => Some(seq![0x9Fu8]),
        Instruction::Return => Some(seq![0xC3u8]),
        Instruction::InterruptOnOverflow => Some(seq![0xCEu8]),
        Instruction::InterruptReturn => Some(seq![0xCFu8]),
        Instruction::Xlat => Some(seq![0xD7u8]),
        Instruction::Lock => Some(seq![0xF0u8]),
        Instruction::Halt => Some(seq![0xF4u8]),
        Instruction::ComplementCarry => Some(seq![0xF5u8]),
        Instruction::ClearCarry => Some(seq![0xF8u8]),
        Instruction::SetCarry => Some(seq![0xF9u8]),
        Instruction::ClearInterrupt => Some(seq![0xFAu8]),
        Instruction::SetInterrupt => Some(seq![0xFBu8]),
        Instruction::ClearDirection => Some(seq![0xFCu8]),
        Instruction::SetDirection => Some(seq![0xFDu8]),
        _ => None,
    }
}

/// The segment override that an instruction carries: that of its memory operand.
pub open spec fn instruction_segment(instruction: Instruction) -> Option<SegmentRegister> {
    match instruction.operands() {
        (Some(Operand::Memory(memory)), _) => memory.segment,
        (_, Some(Operand::Memory(memory))) => memory.segment,
        _ => None,
    }
}

/// The byte of the prefix that overrides the segment, or nothing.
pub open spec fn prefix_bytes(segment: Option<SegmentRegister>) -> Seq<u8> {
    match segment {
        Some(segment) => seq![(0x26 + 8 * segment.slot()) as u8],
        None => Seq::empty(),
    }
}

/// The bytes of an instruction: its segment prefix, where its memory operand
/// has a segment override, and behind it the opcode with what follows it.
pub open spec fn encoding(instruction: Instruction) -> Option<Seq<u8>> {
    match body(instruction) {
        Some(bytes) => Some(prefix_bytes(instruction_segment(instruction)) + bytes),
        None => None,
    }
}

/// Whether a sequence starts with the given bytes.
pub open spec fn starts_with(input: Seq<u8>, bytes: Seq<u8>) -> bool {
    bytes.len() <= input.len() && input.subrange(0, bytes.len() as int) == bytes
}

/// A sequence that starts with two runs of bytes starts with the first, and
/// holds the second behind it.
proof fn lemma_starts_with_both(input: Seq<u8>, first: Seq<u8>, second: Seq<u8>)
    requires
        starts_with(input, first + second),
    ensures
        starts_with(input, first),
        forall|k: int| 0 <= k < second.len() ==> input[first.len() + k] == second[k],
{
    let both = first + second;
    assert(input.subrange(0, first.len() as int) =~= first) by {
        assert forall|k: int| 0 <= k < first.len() implies input[k] == first[k] by {
            assert(input.subrange(0, both.len() as int)[k] == input[k]);
        }
    }
    assert forall|k: int| 0 <= k < second.len() implies input[first.len() + k] == second[k] by {
        assert(input.subrange(0, both.len() as int)[first.len() + k] == input[first.len() + k]);
    }
}

/// The bytes of a sequence that starts with given bytes.
proof fn lemma_starts_with_bytes(input: Seq<u8>, bytes: Seq<u8>)
    requires
        starts_with(input, bytes),
    ensures
        forall|k: int| 0 <= k < bytes.len() ==> byte_or_zero(input, k) == bytes[k],
{
    assert forall|k: int| 0 <= k < bytes.len() implies byte_or_zero(input, k) == bytes[k] by {
        assert(input.subrange(0, bytes.len() as int)[k] == input[k]);
    }
}

/// The decoder reads an immediate from its bytes.
proof fn lemma_imm_bytes(input: Seq<u8>, at: int, value: i16, w: int, bytes: Seq<u8>)
    requires
        0 <= at,
        0 <= w <= 1,
        imm_bytes(value, w) == Some(bytes),
        at + bytes.len() <= input.len(),
        forall|k: int| 0 <= k < bytes.len() ==> input[at + k] == bytes[k],
    ensures
        immediate(input, at, w) == value,
        bytes.len() == 1 + w,
{
    assert(input[at + 0] == bytes[0]);
    if w == 1 {
        assert(input[at + 1] == bytes[1]);
        lemma_word_bytes(to_unsigned(value));
        crate::bits::lemma_unsigned_round_trip(value);
    }
}

/// The decoder reads a number from -128 to 127 from its byte.
proof fn lemma_signed_byte(input: Seq<u8>, at: int, value: i16, bytes: Seq<u8>)
    requires
        0 <= at,
        signed_byte(value) == Some(bytes),
        at + bytes.len() <= input.len(),
        forall|k: int| 0 <= k < bytes.len() ==> input[at + k] == bytes[k],
    ensures
        sign_extend(byte_or_zero(input, at)) == value,
        bytes.len() == 1,
{
    assert(input[at + 0] == bytes[0]);
}

/// The decoder reads the immediate of an arithmetic or logic instruction
/// from its bytes.
proof fn lemma_arithmetic_bytes(input: Seq<u8>, at: int, value: i16, w: int, bytes: Seq<u8>)
    requires
        0 <= at,
        0 <= w <= 1,
        arithmetic_bytes(value, w) == Some(bytes),
        at + bytes.len() <= input.len(),
        forall|k: int| 0 <= k < bytes.len() ==> input[at + k] == bytes[k],
    ensures
        crate::decoder::arithmetic_immediate(input, at, w) == value,
        w == 1 ==> immediate(input, at, 1) == value,
        w == 0 ==> sign_extend(byte_or_zero(input, at)) == value,
        bytes.len() == 1 + w,
{
    if w == 1 {
        lemma_imm_bytes(input, at, value, 1, bytes);
    } else {
        lemma_signed_byte(input, at, value, bytes);
    }
}

/// The decoder finds the operands of the form of a register or memory
/// operand and a register, in either direction.
proof fn lemma_pair_body(input: Seq<u8>, base: int, dest: Operand, src: Operand, form: Seq<u8>)
    requires
        0 <= base < 252,
        base % 4 == 0,
        pair_body(base, dest, src) == Some(form),
        starts_with(input, form),
    ensures
        ({
            let op = byte_or_zero(input, 0);
            let w = op as int % 2;
            let segment = if src is Memory {
                operand_segment(src)
            } else {
                operand_segment(dest)
            };
            &&& base <= op < base + 4
            &&& modrm_len(byte_or_zero(input, 1)) == form.len()
            &&& 2 <= form.len() <= 4
            &&& src is Register ==> (op as int / 2) % 2 == 0 && modrm_rm(input, w, segment) == dest
                && modrm_reg(input, w) == src
            &&& !(src is Register) ==> (op as int / 2) % 2 == 1 && modrm_rm(input, w, segment)
                == src && modrm_reg(input, w) == dest
        }),
{
    match (dest, src) {
        (_, Operand::Register(reg)) => {
            let n = register_bits(reg)->Some_0.0;
            let w = register_bits(reg)->Some_0.1;
            lemma_rm_form(input, base + w, dest, n, w, form);
        },
        (Operand::Register(reg), Operand::Memory(_)) => {
            let n = register_bits(reg)->Some_0.0;
            let w = register_bits(reg)->Some_0.1;
            lemma_rm_form(input, base + 2 + w, src, n, w, form);
        },
        _ => {},
    }
}

/// The decoder finds an arithmetic or logic instruction in its bytes.
proof fn lemma_alu_body(input: Seq<u8>, instruction: Instruction, dest: Operand, src: Operand)
    requires
        alu_kind(instruction).is_some(),
        instruction == crate::decoder::alu(alu_kind(instruction)->Some_0, dest, src),
        alu_body(alu_kind(instruction)->Some_0, dest, src).is_some(),
        starts_with(input, alu_body(alu_kind(instruction)->Some_0, dest, src)->Some_0),
    ensures
        parse_one(input, instruction_segment(instruction)) == found(
            instruction,
            alu_body(alu_kind(instruction)->Some_0, dest, src)->Some_0.len() as int,
        ),
        alu_body(alu_kind(instruction)->Some_0, dest, src)->Some_0.len() <= 6,
        !is_segment_prefix(byte_or_zero(input, 0)),
{
    reveal(parse_one);
    let kind = alu_kind(instruction)->Some_0;
    let bytes = alu_body(kind, dest, src)->Some_0;
    match src {
        Operand::Immediate(value) => {
            let w = operand_wide(dest)->Some_0;
            let form = rm_form(0x80 + w, dest, kind, w)->Some_0;
            let imm = arithmetic_bytes(value, w)->Some_0;
            lemma_starts_with_both(input, form, imm);
            lemma_rm_form(input, 0x80 + w, dest, kind, w, form);
            lemma_arithmetic_bytes(input, form.len() as int, value, w, imm);
        },
        _ => {
            lemma_pair_body(input, 8 * kind, dest, src, bytes);
        },
    }
}

/// The decoder finds a mov to a segment register in its bytes.
proof fn lemma_mov_to_segment(input: Seq<u8>, segment_register: SegmentRegister, src: Operand)
    requires
        rm_form(0x8E, src, segment_register.slot(), 1).is_some(),
        starts_with(input, rm_form(0x8E, src, segment_register.slot(), 1)->Some_0),
    ensures
        parse_one(input, instruction_segment(Instruction::Mov { dest: Operand::SegmentRegister(segment_register), src })) == found(Instruction::Mov { dest: Operand::SegmentRegister(segment_register), src }, rm_form(0x8E, src, segment_register.slot(), 1)->Some_0.len() as int),
        rm_form(0x8E, src, segment_register.slot(), 1)->Some_0.len() <= 6,
        !is_segment_prefix(byte_or_zero(input, 0)),
{
    reveal(parse_one);
    let bytes = rm_form(0x8E, src, segment_register.slot(), 1)->Some_0;
    let segment = instruction_segment(Instruction::Mov { dest: Operand::SegmentRegister(segment_register), src });
    lemma_rm_form(input, 0x8E, src, segment_register.slot(), 1, bytes);
    let op = byte_or_zero(input, 0);
    assert(op == 0x8E);
    assert(segment == operand_segment(src));
    assert(parse_one(input, segment) == parse_transfer(input, segment));
}

/// The decoder finds a mov from a segment register in its bytes.
proof fn lemma_mov_from_segment(input: Seq<u8>, dest: Operand, segment_register: SegmentRegister)
    requires
        !(dest is SegmentRegister),
        rm_form(0x8C, dest, segment_register.slot(), 1).is_some(),
        starts_with(input, rm_form(0x8C, dest, segment_register.slot(), 1)->Some_0),
    ensures
        parse_one(input, instruction_segment(Instruction::Mov { dest, src: Operand::SegmentRegister(segment_register) })) == found(Instruction::Mov { dest, src: Operand::SegmentRegister(segment_register) }, rm_form(0x8C, dest, segment_register.slot(), 1)->Some_0.len() as int),
        rm_form(0x8C, dest, segment_register.slot(), 1)->Some_0.len() <= 6,
        !is_segment_prefix(byte_or_zero(input, 0)),
{
    reveal(parse_one);
    let bytes = rm_form(0x8C, dest, segment_register.slot(), 1)->Some_0;
    let segment = instruction_segment(Instruction::Mov { dest, src: Operand::SegmentRegister(segment_register) });
    lemma_rm_form(input, 0x8C, dest, segment_register.slot(), 1, bytes);
    let op = byte_or_zero(input, 0);
    assert(op == 0x8C);
    assert(segment == operand_segment(dest));
    assert(parse_one(input, segment) == parse_transfer(input, segment));
}

/// The decoder finds a not in its bytes.
proof fn lemma_not(input: Seq<u8>, src: Operand)
    requires
        group_body(0xF6, 2, src).is_some(),
        starts_with(input, group_body(0xF6, 2, src)->Some_0),
    ensures
        parse_one(input, instruction_segment(Instruction::Not { src })) == found(Instruction::Not { src }, group_body(0xF6, 2, src)->Some_0.len() as int),
        group_body(0xF6, 2, src)->Some_0.len() <= 6,
        !is_segment_prefix(byte_or_zero(input, 0)),
{
    reveal(parse_one);
    let bytes = group_body(0xF6, 2, src)->Some_0;
    let segment = instruction_segment(Instruction::Not { src });
    lemma_rm_form(input, 0xF6 + operand_wide(src)->Some_0, src, 2, operand_wide(src)->Some_0, bytes);
    let op = byte_or_zero(input, 0);
    assert(op == 0xF6 + operand_wide(src)->Some_0);
    assert(segment == operand_segment(src));
    assert(parse_one(input, segment) == parse_unary(input, segment));
}

/// The decoder finds a neg in its bytes.
proof fn lemma_neg(input: Seq<u8>, src: Operand)
    requires
        group_body(0xF6, 3, src).is_some(),
        starts_with(input, group_body(0xF6, 3, src)->Some_0),
    ensures
        parse_one(input, instruction_segment(Instruction::Neg { src })) == found(Instruction::Neg { src }, group_body(0xF6, 3, src)->Some_0.len() as int),
        group_body(0xF6, 3, src)->Some_0.len() <= 6,
        !is_segment_prefix(byte_or_zero(input, 0)),
{
    reveal(parse_one);
    let bytes = group_body(0xF6, 3, src)->Some_0;
    let segment = instruction_segment(Instruction::Neg { src });
    lemma_rm_form(input, 0xF6 + operand_wide(src)->Some_0, src, 3, operand_wide(src)->Some_0, bytes);
    let op = byte_or_zero(input, 0);
    assert(op == 0xF6 + operand_wide(src)->Some_0);
    assert(segment == operand_segment(src));
    assert(parse_one(input, segment) == parse_unary(input, segment));
}

/// The decoder finds a mul in its bytes.
proof fn lemma_mul(input: Seq<u8>, src: Operand)
    requires
        group_body(0xF6, 4, src).is_some(),
        starts_with(input, group_body(0xF6, 4, src)->Some_0),
    ensures
        parse_one(input, instruction_segment(Instruction::Mul { src })) == found(Instruction::Mul { src }, group_body(0xF6, 4, src)->Some_0.len() as int),
        group_body(0xF6, 4, src)->Some_0.len() <= 6,
        !is_segment_prefix(byte_or_zero(input, 0)),
{
    reveal(parse_one);
    let bytes = group_body(0xF6, 4, src)->Some_0;
    let segment = instruction_segment(Instruction::Mul { src });
    lemma_rm_form(input, 0xF6 + operand_wide(src)->Some_0, src, 4, operand_wide(src)->Some_0, bytes);
    let op = byte_or_zero(input, 0);
    assert(op == 0xF6 + operand_wide(src)->Some_0);
    assert(segment == operand_segment(src));
    assert(parse_one(input, segment) == parse_unary(input, segment));
}

/// The decoder finds a imul in its bytes.
proof fn lemma_imul(input: Seq<u8>, src: Operand)
    requires
        group_body(0xF6, 5, src).is_some(),
        starts_with(input, group_body(0xF6, 5, src)->Some_0),
    ensures
        parse_one(input, instruction_segment(Instruction::Imul { src })) == found(Instruction::Imul { src }, group_body(0xF6, 5, src)->Some_0.len() as int),
        group_body(0xF6, 5, src)->Some_0.len() <= 6,
        !is_segment_prefix(byte_or_zero(input, 0)),
{
    reveal(parse_one);
    let bytes = group_body(0xF6, 5, src)->Some_0;
    let segment = instruction_segment(Instruction::Imul { src });
    lemma_rm_form(input, 0xF6 + operand_wide(src)->Some_0, src, 5, operand_wide(src)->Some_0, bytes);
    let op = byte_or_zero(input, 0);
    assert(op == 0xF6 + operand_wide(src)->Some_0);
    assert(segment == operand_segment(src));
    assert(parse_one(input, segment) == parse_unary(input, segment));
}

/// The decoder finds a div in its bytes.
proof fn lemma_div(input: Seq<u8>, src: Operand)
    requires
        group_body(0xF6, 6, src).is_some(),
        starts_with(input, group_body(0xF6, 6, src)->Some_0),
    ensures
        parse_one(input, instruction_segment(Instruction::Div { src })) == found(Instruction::Div { src }, group_body(0xF6, 6, src)->Some_0.len() as int),
        group_body(0xF6, 6, src)->Some_0.len() <= 6,
        !is_segment_prefix(byte_or_zero(input, 0)),
{
    reveal(parse_one);
    let bytes = group_body(0xF6, 6, src)->Some_0;
    let segment = instruction_segment(Instruction::Div { src });
    lemma_rm_form(input, 0xF6 + operand_wide(src)->Some_0, src, 6, operand_wide(src)->Some_0, bytes);
    let op = byte_or_zero(input, 0);
    assert(op == 0xF6 + operand_wide(src)->Some_0);
    assert(segment == operand_segment(src));
    assert(parse_one(input, segment) == parse_unary(input, segment));
}

/// The decoder finds a idiv in its bytes.
proof fn lemma_idiv(input: Seq<u8>, src: Operand)
    requires
        group_body(0xF6, 7, src).is_some(),
        starts_with(input, group_body(0xF6, 7, src)->Some_0),
    ensures
        parse_one(input, instruction_segment(Instruction::Idiv { src })) == found(Instruction::Idiv { src }, group_body(0xF6, 7, src)->Some_0.len() as int),
        group_body(0xF6, 7, src)->Some_0.len() <= 6,
        !is_segment_prefix(byte_or_zero(input, 0)),
{
    reveal(parse_one);
    let bytes = group_body(0xF6, 7, src)->Some_0;
    let segment = instruction_segment(Instruction::Idiv { src });
    lemma_rm_form(input, 0xF6 + operand_wide(src)->Some_0, src, 7, operand_wide(src)->Some_0, bytes);
    let op = byte_or_zero(input, 0);
    assert(op == 0xF6 + operand_wide(src)->Some_0);
    assert(segment == operand_segment(src));
    assert(parse_one(input, segment) == parse_unary(input, segment));
}

/// The decoder finds a call in its bytes.
proof fn lemma_call(input: Seq<u8>, dest: Operand)
    requires
        rm_form(0xFF, dest, 2, 1).is_some(),
        starts_with(input, rm_form(0xFF, dest, 2, 1)->Some_0),
    ensures
        parse_one(input, instruction_segment(Instruction::Call { dest })) == found(Instruction::Call { dest }, rm_form(0xFF, dest, 2, 1)->Some_0.len() as int),
        rm_form(0xFF, dest, 2, 1)->Some_0.len() <= 6,
        !is_segment_prefix(byte_or_zero(input, 0)),
{
    reveal(parse_one);
    let bytes = rm_form(0xFF, dest, 2, 1)->Some_0;
    let segment = instruction_segment(Instruction::Call { dest });
    lemma_rm_form(input, 0xFF, dest, 2, 1, bytes);
    let op = byte_or_zero(input, 0);
    assert(op == 0xFF);
    assert(segment == operand_segment(dest));
    assert(parse_one(input, segment) == parse_inc_group(input, segment));
}

/// The decoder finds a jmp in its bytes.
proof fn lemma_jump(input: Seq<u8>, dest: Operand)
    requires
        rm_form(0xFF, dest, 4, 1).is_some(),
        starts_with(input, rm_form(0xFF, dest, 4, 1)->Some_0),
    ensures
        parse_one(input, instruction_segment(Instruction::Jump { dest })) == found(Instruction::Jump { dest }, rm_form(0xFF, dest, 4, 1)->Some_0.len() as int),
        rm_form(0xFF, dest, 4, 1)->Some_0.len() <= 6,
        !is_segment_prefix(byte_or_zero(input, 0)),
{
    reveal(parse_one);
    let bytes = rm_form(0xFF, dest, 4, 1)->Some_0;
    let segment = instruction_segment(Instruction::Jump { dest });
    lemma_rm_form(input, 0xFF, dest, 4, 1, bytes);
    let op = byte_or_zero(input, 0);
    assert(op == 0xFF);
    assert(segment == operand_segment(dest));
    assert(parse_one(input, segment) == parse_inc_group(input, segment));
}

/// The decoder finds a push of a value in memory in its bytes.
proof fn lemma_push_memory(input: Seq<u8>, src: Operand)
    requires
        src is Memory,
        rm_form(0xFF, src, 6, 1).is_some(),
        starts_with(input, rm_form(0xFF, src, 6, 1)->Some_0),
    ensures
        parse_one(input, instruction_segment(Instruction::Push { src })) == found(Instruction::Push { src }, rm_form(0xFF, src, 6, 1)->Some_0.len() as int),
        rm_form(0xFF, src, 6, 1)->Some_0.len() <= 6,
        !is_segment_prefix(byte_or_zero(input, 0)),
{
    reveal(parse_one);
    let bytes = rm_form(0xFF, src, 6, 1)->Some_0;
    let segment = instruction_segment(Instruction::Push { src });
    lemma_rm_form(input, 0xFF, src, 6, 1, bytes);
    let op = byte_or_zero(input, 0);
    assert(op == 0xFF);
    assert(segment == operand_segment(src));
    assert(parse_one(input, segment) == parse_inc_group(input, segment));
}

/// The decoder finds a pop to memory in its bytes.
proof fn lemma_pop_memory(input: Seq<u8>, src: Operand)
    requires
        src is Memory,
        rm_form(0x8F, src, 0, 1).is_some(),
        starts_with(input, rm_form(0x8F, src, 0, 1)->Some_0),
    ensures
        parse_one(input, instruction_segment(Instruction::Pop { src })) == found(Instruction::Pop { src }, rm_form(0x8F, src, 0, 1)->Some_0.len() as int),
        rm_form(0x8F, src, 0, 1)->Some_0.len() <= 6,
        !is_segment_prefix(byte_or_zero(input, 0)),
{
    reveal(parse_one);
    let bytes = rm_form(0x8F, src, 0, 1)->Some_0;
    let segment = instruction_segment(Instruction::Pop { src });
    lemma_rm_form(input, 0x8F, src, 0, 1, bytes);
    let op = byte_or_zero(input, 0);
    assert(op == 0x8F);
    assert(segment == operand_segment(src));
    assert(parse_one(input, segment) == parse_transfer(input, segment));
}

/// The decoder finds an inc of a byte register or of a value in memory in its bytes.
proof fn lemma_inc_group(input: Seq<u8>, src: Operand)
    requires
        group_body(0xFE, 0, src).is_some(),
        starts_with(input, group_body(0xFE, 0, src)->Some_0),
    ensures
        parse_one(input, instruction_segment(Instruction::Inc { src })) == found(Instruction::Inc { src }, group_body(0xFE, 0, src)->Some_0.len() as int),
        group_body(0xFE, 0, src)->Some_0.len() <= 6,
        !is_segment_prefix(byte_or_zero(input, 0)),
{
    reveal(parse_one);
    let bytes = group_body(0xFE, 0, src)->Some_0;
    let segment = instruction_segment(Instruction::Inc { src });
    lemma_rm_form(input, 0xFE + operand_wide(src)->Some_0, src, 0, operand_wide(src)->Some_0, bytes);
    let op = byte_or_zero(input, 0);
    assert(op == 0xFE + operand_wide(src)->Some_0);
    assert(segment == operand_segment(src));
    assert(parse_one(input, segment) == parse_inc_group(input, segment));
}

/// The decoder finds a dec of a byte register or of a value in memory in its bytes.
proof fn lemma_dec_group(input: Seq<u8>, src: Operand)
    requires
        group_body(0xFE, 1, src).is_some(),
        starts_with(input, group_body(0xFE, 1, src)->Some_0),
    ensures
        parse_one(input, instruction_segment(Instruction::Dec { src })) == found(Instruction::Dec { src }, group_body(0xFE, 1, src)->Some_0.len() as int),
        group_body(0xFE, 1, src)->Some_0.len() <= 6,
        !is_segment_prefix(byte_or_zero(input, 0)),
{
    reveal(parse_one);
    let bytes = group_body(0xFE, 1, src)->Some_0;
    let segment = instruction_segment(Instruction::Dec { src });
    lemma_rm_form(input, 0xFE + operand_wide(src)->Some_0, src, 1, operand_wide(src)->Some_0, bytes);
    let op = byte_or_zero(input, 0);
    assert(op == 0xFE + operand_wide(src)->Some_0);
    assert(segment == operand_segment(src));
    assert(parse_one(input, segment) == parse_inc_group(input, segment));
}

/// The decoder finds an xchg in its bytes.
proof fn lemma_xchg(input: Seq<u8>, reg: Register, right: Operand)
    requires
        register_bits(reg).is_some(),
        rm_form(0x86 + register_bits(reg)->Some_0.1, right, register_bits(reg)->Some_0.0, register_bits(reg)->Some_0.1).is_some(),
        starts_with(input, rm_form(0x86 + register_bits(reg)->Some_0.1, right, register_bits(reg)->Some_0.0, register_bits(reg)->Some_0.1)->Some_0),
    ensures
        parse_one(input, instruction_segment(Instruction::Xchg { left: Operand::Register(reg), right })) == found(Instruction::Xchg { left: Operand::Register(reg), right }, rm_form(0x86 + register_bits(reg)->Some_0.1, right, register_bits(reg)->Some_0.0, register_bits(reg)->Some_0.1)->Some_0.len() as int),
        rm_form(0x86 + register_bits(reg)->Some_0.1, right, register_bits(reg)->Some_0.0, register_bits(reg)->Some_0.1)->Some_0.len() <= 6,
        !is_segment_prefix(byte_or_zero(input, 0)),
{
    reveal(parse_one);
    let bytes = rm_form(0x86 + register_bits(reg)->Some_0.1, right, register_bits(reg)->Some_0.0, register_bits(reg)->Some_0.1)->Some_0;
    let segment = instruction_segment(Instruction::Xchg { left: Operand::Register(reg), right });
    lemma_rm_form(input, 0x86 + register_bits(reg)->Some_0.1, right, register_bits(reg)->Some_0.0, register_bits(reg)->Some_0.1, bytes);
    let op = byte_or_zero(input, 0);
    assert(op == 0x86 + register_bits(reg)->Some_0.1);
    assert(segment == operand_segment(right));
    assert(parse_one(input, segment) == parse_transfer(input, segment));
}

/// The decoder finds a test with a register in its bytes.
proof fn lemma_test_register(input: Seq<u8>, dest: Operand, reg: Register)
    requires
        register_bits(reg).is_some(),
        rm_form(0x84 + register_bits(reg)->Some_0.1, dest, register_bits(reg)->Some_0.0, register_bits(reg)->Some_0.1).is_some(),
        starts_with(input, rm_form(0x84 + register_bits(reg)->Some_0.1, dest, register_bits(reg)->Some_0.0, register_bits(reg)->Some_0.1)->Some_0),
    ensures
        parse_one(input, instruction_segment(Instruction::Test { dest, src: Operand::Register(reg) })) == found(Instruction::Test { dest, src: Operand::Register(reg) }, rm_form(0x84 + register_bits(reg)->Some_0.1, dest, register_bits(reg)->Some_0.0, register_bits(reg)->Some_0.1)->Some_0.len() as int),
        rm_form(0x84 + register_bits(reg)->Some_0.1, dest, register_bits(reg)->Some_0.0, register_bits(reg)->Some_0.1)->Some_0.len() <= 6,
        !is_segment_prefix(byte_or_zero(input, 0)),
{
    reveal(parse_one);
    let bytes = rm_form(0x84 + register_bits(reg)->Some_0.1, dest, register_bits(reg)->Some_0.0, register_bits(reg)->Some_0.1)->Some_0;
    let segment = instruction_segment(Instruction::Test { dest, src: Operand::Register(reg) });
    lemma_rm_form(input, 0x84 + register_bits(reg)->Some_0.1, dest, register_bits(reg)->Some_0.0, register_bits(reg)->Some_0.1, bytes);
    let op = byte_or_zero(input, 0);
    assert(op == 0x84 + register_bits(reg)->Some_0.1);
    assert(segment == operand_segment(dest));
    assert(parse_one(input, segment) == parse_transfer(input, segment));
}

/// The decoder finds a test with an immediate in its bytes.
proof fn lemma_test_immediate(input: Seq<u8>, dest: Operand, value: i16)
    requires
        operand_wide(dest).is_some(),
        join(rm_form(0xF6 + operand_wide(dest)->Some_0, dest, 0, operand_wide(dest)->Some_0), arithmetic_bytes(value, operand_wide(dest)->Some_0)).is_some(),
        starts_with(input, join(rm_form(0xF6 + operand_wide(dest)->Some_0, dest, 0, operand_wide(dest)->Some_0), arithmetic_bytes(value, operand_wide(dest)->Some_0))->Some_0),
    ensures
        parse_one(input, instruction_segment(Instruction::Test { dest, src: Operand::Immediate(value) })) == found(Instruction::Test { dest, src: Operand::Immediate(value) }, join(rm_form(0xF6 + operand_wide(dest)->Some_0, dest, 0, operand_wide(dest)->Some_0), arithmetic_bytes(value, operand_wide(dest)->Some_0))->Some_0.len() as int),
        join(rm_form(0xF6 + operand_wide(dest)->Some_0, dest, 0, operand_wide(dest)->Some_0), arithmetic_bytes(value, operand_wide(dest)->Some_0))->Some_0.len() <= 6,
        !is_segment_prefix(byte_or_zero(input, 0)),
{
    reveal(parse_one);
    let w = operand_wide(dest)->Some_0;
    let form = rm_form(0xF6 + w, dest, 0, w)->Some_0;
    let imm = arithmetic_bytes(value, w)->Some_0;
    let segment = instruction_segment(Instruction::Test { dest, src: Operand::Immediate(value) });
    lemma_starts_with_both(input, form, imm);
    lemma_rm_form(input, 0xF6 + w, dest, 0, w, form);
    lemma_arithmetic_bytes(input, form.len() as int, value, w, imm);
    assert(byte_or_zero(input, 0) == 0xF6 + w);
    assert(segment == operand_segment(dest));
    assert(parse_one(input, segment) == parse_unary(input, segment));
}

/// The decoder finds a mov of an immediate to memory in its bytes.
proof fn lemma_mov_memory_immediate(input: Seq<u8>, memory: MemoryOperand, value: i16)
    requires
        wide_of(memory.size).is_some(),
        join(rm_form(0xC6 + wide_of(memory.size)->Some_0, Operand::Memory(memory), 0, wide_of(memory.size)->Some_0), imm_bytes(value, wide_of(memory.size)->Some_0)).is_some(),
        starts_with(input, join(rm_form(0xC6 + wide_of(memory.size)->Some_0, Operand::Memory(memory), 0, wide_of(memory.size)->Some_0), imm_bytes(value, wide_of(memory.size)->Some_0))->Some_0),
    ensures
        parse_one(input, instruction_segment(Instruction::Mov { dest: Operand::Memory(memory), src: Operand::Immediate(value) })) == found(Instruction::Mov { dest: Operand::Memory(memory), src: Operand::Immediate(value) }, join(rm_form(0xC6 + wide_of(memory.size)->Some_0, Operand::Memory(memory), 0, wide_of(memory.size)->Some_0), imm_bytes(value, wide_of(memory.size)->Some_0))->Some_0.len() as int),
        join(rm_form(0xC6 + wide_of(memory.size)->Some_0, Operand::Memory(memory), 0, wide_of(memory.size)->Some_0), imm_bytes(value, wide_of(memory.size)->Some_0))->Some_0.len() <= 6,
        !is_segment_prefix(byte_or_zero(input, 0)),
{
    reveal(parse_one);
    let dest = Operand::Memory(memory);
    let w = wide_of(memory.size)->Some_0;
    let form = rm_form(0xC6 + w, dest, 0, w)->Some_0;
    let imm = imm_bytes(value, w)->Some_0;
    lemma_starts_with_both(input, form, imm);
    lemma_rm_form(input, 0xC6 + w, dest, 0, w, form);
    lemma_imm_bytes(input, form.len() as int, value, w, imm);
    assert(byte_or_zero(input, 0) == 0xC6 + w);
    assert(parse_one(input, memory.segment) == parse_mov_immediate(input, memory.segment));
}

/// The decoder finds a mov of an immediate to a register in its bytes.
proof fn lemma_mov_register_immediate(input: Seq<u8>, reg: Register, value: i16)
    requires
        register_bits(reg).is_some(),
        join(Some(seq![(0xB0 + 8 * register_bits(reg)->Some_0.1 + register_bits(reg)->Some_0.0) as u8]), imm_bytes(value, register_bits(reg)->Some_0.1)).is_some(),
        starts_with(input, join(Some(seq![(0xB0 + 8 * register_bits(reg)->Some_0.1 + register_bits(reg)->Some_0.0) as u8]), imm_bytes(value, register_bits(reg)->Some_0.1))->Some_0),
    ensures
        parse_one(input, instruction_segment(Instruction::Mov { dest: Operand::Register(reg), src: Operand::Immediate(value) })) == found(Instruction::Mov { dest: Operand::Register(reg), src: Operand::Immediate(value) }, join(Some(seq![(0xB0 + 8 * register_bits(reg)->Some_0.1 + register_bits(reg)->Some_0.0) as u8]), imm_bytes(value, register_bits(reg)->Some_0.1))->Some_0.len() as int),
        join(Some(seq![(0xB0 + 8 * register_bits(reg)->Some_0.1 + register_bits(reg)->Some_0.0) as u8]), imm_bytes(value, register_bits(reg)->Some_0.1))->Some_0.len() <= 6,
        !is_segment_prefix(byte_or_zero(input, 0)),
{
    reveal(parse_one);
    let n = register_bits(reg)->Some_0.0;
    let w = register_bits(reg)->Some_0.1;
    let imm = imm_bytes(value, w)->Some_0;
    lemma_starts_with_both(input, seq![(0xB0 + 8 * w + n) as u8], imm);
    lemma_starts_with_bytes(input, seq![(0xB0 + 8 * w + n) as u8]);
    lemma_imm_bytes(input, 1, value, w, imm);
    let op = byte_or_zero(input, 0);
    assert(op == 0xB0 + 8 * w + n);
    assert((op as int / 8) % 2 == w && op as int % 8 == n);
}

/// The decoder finds a mov between a register and a register or memory operand in its bytes.
proof fn lemma_mov_pair(input: Seq<u8>, dest: Operand, src: Operand)
    requires
        !(dest is SegmentRegister),
        !(src is SegmentRegister),
        !(src is Immediate),
        pair_body(0x88, dest, src).is_some(),
        starts_with(input, pair_body(0x88, dest, src)->Some_0),
    ensures
        parse_one(input, instruction_segment(Instruction::Mov { dest, src })) == found(Instruction::Mov { dest, src }, pair_body(0x88, dest, src)->Some_0.len() as int),
        pair_body(0x88, dest, src)->Some_0.len() <= 6,
        !is_segment_prefix(byte_or_zero(input, 0)),
{
    reveal(parse_one);
    let bytes = pair_body(0x88, dest, src)->Some_0;
    let segment = instruction_segment(Instruction::Mov { dest, src });
    lemma_pair_body(input, 0x88, dest, src, bytes);
    assert(parse_one(input, segment) == parse_transfer(input, segment));
}

/// The decoder finds a mov between AX and a byte at a direct address below
/// 256 in the two bytes of its short form.
proof fn lemma_mov_short_address(input: Seq<u8>, opcode: int, memory: MemoryOperand)
    requires
        opcode == 0xA0 || opcode == 0xA2,
        wide_of(memory.size) == Some(0int),
        short_address_body(opcode, memory).is_some(),
        starts_with(input, short_address_body(opcode, memory)->Some_0),
    ensures
        opcode == 0xA0 ==> parse_one(input, memory.segment) == found(
            Instruction::Mov {
                dest: Operand::Register(Register::Ax),
                src: Operand::Memory(memory),
            },
            2,
        ),
        opcode == 0xA2 ==> parse_one(input, memory.segment) == found(
            Instruction::Mov {
                dest: Operand::Memory(memory),
                src: Operand::Register(Register::Ax),
            },
            2,
        ),
        short_address_body(opcode, memory)->Some_0.len() == 2,
        !is_segment_prefix(byte_or_zero(input, 0)),
{
    reveal(parse_one);
    let bytes = short_address_body(opcode, memory)->Some_0;
    lemma_starts_with_bytes(input, bytes);
    assert(byte_or_zero(input, 0) == bytes[0]);
    assert(byte_or_zero(input, 1) == bytes[1]);
    assert(parse_one(input, memory.segment) == crate::decoder::parse_mov_direct(
        input,
        memory.segment,
    ));
}

/// The decoder finds a mov in its bytes.
proof fn lemma_mov_body(input: Seq<u8>, dest: Operand, src: Operand)
    requires
        mov_body(dest, src).is_some(),
        starts_with(input, mov_body(dest, src)->Some_0),
    ensures
        parse_one(input, instruction_segment(Instruction::Mov { dest, src })) == found(
            Instruction::Mov { dest, src },
            mov_body(dest, src)->Some_0.len() as int,
        ),
        mov_body(dest, src)->Some_0.len() <= 6,
        !is_segment_prefix(byte_or_zero(input, 0)),
{
    match (dest, src) {
        (Operand::SegmentRegister(segment), _) => lemma_mov_to_segment(input, segment, src),
        (_, Operand::SegmentRegister(segment)) => lemma_mov_from_segment(input, dest, segment),
        (Operand::Register(reg), Operand::Immediate(value)) => lemma_mov_register_immediate(
            input,
            reg,
            value,
        ),
        (Operand::Memory(memory), Operand::Immediate(value)) => lemma_mov_memory_immediate(
            input,
            memory,
            value,
        ),
        (Operand::Register(Register::Ax), Operand::Memory(memory)) => {
            if wide_of(memory.size) == Some(0int) {
                lemma_mov_short_address(input, 0xA0, memory);
            } else {
                lemma_mov_pair(input, dest, src);
            }
        },
        (Operand::Memory(memory), Operand::Register(Register::Ax)) => {
            if wide_of(memory.size) == Some(0int) {
                lemma_mov_short_address(input, 0xA2, memory);
            } else {
                lemma_mov_pair(input, dest, src);
            }
        },
        _ => lemma_mov_pair(input, dest, src),
    }
}

/// The decoder finds a test or an xchg in its bytes.
proof fn lemma_test_xchg_body(input: Seq<u8>, instruction: Instruction)
    requires
        instruction is Test || instruction is Xchg,
        body(instruction).is_some(),
        starts_with(input, body(instruction)->Some_0),
    ensures
        parse_one(input, instruction_segment(instruction)) == found(
            instruction,
            body(instruction)->Some_0.len() as int,
        ),
        body(instruction)->Some_0.len() <= 6,
        !is_segment_prefix(byte_or_zero(input, 0)),
{
    match instruction {
        Instruction::Test { dest, src: Operand::Register(reg) } => lemma_test_register(
            input,
            dest,
            reg,
        ),
        Instruction::Test { dest, src: Operand::Immediate(value) } => lemma_test_immediate(
            input,
            dest,
            value,
        ),
        Instruction::Xchg { left: Operand::Register(reg), right } => lemma_xchg(input, reg, right),
        _ => {},
    }
}

/// The decoder finds a lea in its bytes.
proof fn lemma_lea(input: Seq<u8>, reg: Register, src: Operand)
    requires
        register_bits(reg) matches Some((n, w)) && w == 1,
        rm_form_unsized(0x8D, src, register_bits(reg)->Some_0.0).is_some(),
        starts_with(input, rm_form_unsized(0x8D, src, register_bits(reg)->Some_0.0)->Some_0),
    ensures
        parse_one(
            input,
            instruction_segment(Instruction::Lea { dest: Operand::Register(reg), src }),
        ) == found(
            Instruction::Lea { dest: Operand::Register(reg), src },
            rm_form_unsized(0x8D, src, register_bits(reg)->Some_0.0)->Some_0.len() as int,
        ),
        rm_form_unsized(0x8D, src, register_bits(reg)->Some_0.0)->Some_0.len() <= 6,
        !is_segment_prefix(byte_or_zero(input, 0)),
{
    reveal(parse_one);
    let bytes = rm_form_unsized(0x8D, src, register_bits(reg)->Some_0.0)->Some_0;
    let segment = instruction_segment(Instruction::Lea { dest: Operand::Register(reg), src });
    lemma_rm_form(input, 0x8D, src, register_bits(reg)->Some_0.0, 1, bytes);
    assert(byte_or_zero(input, 0) == 0x8D);
    assert(segment == operand_segment(src));
}

/// The decoder finds a lds in its bytes.
proof fn lemma_lds(input: Seq<u8>, reg: Register, src: Operand)
    requires
        register_bits(reg) matches Some((n, w)) && w == 1,
        rm_form_unsized(0xC5, src, register_bits(reg)->Some_0.0).is_some(),
        starts_with(input, rm_form_unsized(0xC5, src, register_bits(reg)->Some_0.0)->Some_0),
    ensures
        parse_one(
            input,
            instruction_segment(Instruction::Lds { dest: Operand::Register(reg), src }),
        ) == found(
            Instruction::Lds { dest: Operand::Register(reg), src },
            rm_form_unsized(0xC5, src, register_bits(reg)->Some_0.0)->Some_0.len() as int,
        ),
        rm_form_unsized(0xC5, src, register_bits(reg)->Some_0.0)->Some_0.len() <= 6,
        !is_segment_prefix(byte_or_zero(input, 0)),
{
    reveal(parse_one);
    let bytes = rm_form_unsized(0xC5, src, register_bits(reg)->Some_0.0)->Some_0;
    let segment = instruction_segment(Instruction::Lds { dest: Operand::Register(reg), src });
    lemma_rm_form(input, 0xC5, src, register_bits(reg)->Some_0.0, 1, bytes);
    assert(byte_or_zero(input, 0) == 0xC5);
    assert(segment == operand_segment(src));
}

/// The decoder finds a les in its bytes.
proof fn lemma_les(input: Seq<u8>, reg: Register, src: Operand)
    requires
        register_bits(reg) matches Some((n, w)) && w == 1,
        rm_form_unsized(0xC4, src, register_bits(reg)->Some_0.0).is_some(),
        starts_with(input, rm_form_unsized(0xC4, src, register_bits(reg)->Some_0.0)->Some_0),
    ensures
        parse_one(
            input,
            instruction_segment(Instruction::Les { dest: Operand::Register(reg), src }),
        ) == found(
            Instruction::Les { dest: Operand::Register(reg), src },
            rm_form_unsized(0xC4, src, register_bits(reg)->Some_0.0)->Some_0.len() as int,
        ),
        rm_form_unsized(0xC4, src, register_bits(reg)->Some_0.0)->Some_0.len() <= 6,
        !is_segment_prefix(byte_or_zero(input, 0)),
{
    reveal(parse_one);
    let bytes = rm_form_unsized(0xC4, src, register_bits(reg)->Some_0.0)->Some_0;
    let segment = instruction_segment(Instruction::Les { dest: Operand::Register(reg), src });
    lemma_rm_form(input, 0xC4, src, register_bits(reg)->Some_0.0, 1, bytes);
    assert(byte_or_zero(input, 0) == 0xC4);
    assert(segment == operand_segment(src));
}

/// The decoder finds a lea, lds or les in its bytes.
proof fn lemma_load_address_body(input: Seq<u8>, instruction: Instruction)
    requires
        instruction is Lea || instruction is Lds || instruction is Les,
        body(instruction).is_some(),
        starts_with(input, body(instruction)->Some_0),
    ensures
        parse_one(input, instruction_segment(instruction)) == found(
            instruction,
            body(instruction)->Some_0.len() as int,
        ),
        body(instruction)->Some_0.len() <= 6,
        !is_segment_prefix(byte_or_zero(input, 0)),
{
    match instruction {
        Instruction::Lea { dest: Operand::Register(reg), src } => lemma_lea(input, reg, src),
        Instruction::Lds { dest: Operand::Register(reg), src } => lemma_lds(input, reg, src),
        Instruction::Les { dest: Operand::Register(reg), src } => lemma_les(input, reg, src),
        _ => {},
    }
}

/// The instruction on a 16-bit register that has an opcode of its own for
/// each register.
pub open spec fn short_instruction(opcode: int, reg: Register) -> Instruction {
    let src = Operand::Register(reg);
    if opcode == 0x40 {
        Instruction::Inc { src }
    } else if opcode == 0x48 {
        Instruction::Dec { src }
    } else if opcode == 0x50 {
        Instruction::Push { src }
    } else {
        Instruction::Pop { src }
    }
}

/// The decoder finds an inc, dec, push or pop of a 16-bit register in its byte.
proof fn lemma_short_register(input: Seq<u8>, opcode: int, reg: Register)
    requires
        opcode == 0x40 || opcode == 0x48 || opcode == 0x50 || opcode == 0x58,
        short_body(opcode, reg).is_some(),
        starts_with(input, short_body(opcode, reg)->Some_0),
    ensures
        parse_one(input, None) == found(short_instruction(opcode, reg), 1),
        short_body(opcode, reg)->Some_0.len() == 1,
        !is_segment_prefix(byte_or_zero(input, 0)),
{
    reveal(parse_one);
    let bytes = short_body(opcode, reg)->Some_0;
    lemma_starts_with_bytes(input, bytes);
    let op = byte_or_zero(input, 0);
    let n = register_bits(reg)->Some_0.0;
    assert(op == bytes[0]);
    assert(op == opcode + n);
    assert(0x40 <= op < 0x60 && op as int % 8 == n);
    assert(parse_one(input, None) == parse_register(input));
}

/// The decoder finds a push or pop of a segment register in its byte.
proof fn lemma_segment_stack(input: Seq<u8>, opcode: int, segment: SegmentRegister)
    requires
        opcode == 0x06 || opcode == 0x07,
        starts_with(input, seq![(opcode + 8 * segment.slot()) as u8]),
    ensures
        opcode == 0x06 ==> parse_one(input, None) == found(
            Instruction::Push { src: Operand::SegmentRegister(segment) },
            1,
        ),
        opcode == 0x07 ==> parse_one(input, None) == found(
            Instruction::Pop { src: Operand::SegmentRegister(segment) },
            1,
        ),
        !is_segment_prefix(byte_or_zero(input, 0)),
{
    reveal(parse_one);
    let bytes = seq![(opcode + 8 * segment.slot()) as u8];
    lemma_starts_with_bytes(input, bytes);
    let op = byte_or_zero(input, 0);
    assert(op == bytes[0]);
    assert(op == opcode + 8 * segment.slot());
    assert(op < 0x20 && op as int / 8 == segment.slot() && op as int % 8 == opcode);
    assert(crate::register::segment_from_bits(segment.slot()) == segment);
    assert(parse_one(input, None) == parse_low(input, None));
}

/// The decoder finds a push, pop, inc or dec in its bytes.
proof fn lemma_stack_count_body(input: Seq<u8>, instruction: Instruction)
    requires
        instruction is Push || instruction is Pop || instruction is Inc || instruction is Dec,
        body(instruction).is_some(),
        starts_with(input, body(instruction)->Some_0),
    ensures
        parse_one(input, instruction_segment(instruction)) == found(
            instruction,
            body(instruction)->Some_0.len() as int,
        ),
        body(instruction)->Some_0.len() <= 6,
        !is_segment_prefix(byte_or_zero(input, 0)),
{
    match instruction {
        Instruction::Push { src } => {
            match src {
                Operand::Memory(_) => lemma_push_memory(input, src),
                Operand::Register(reg) => lemma_short_register(input, 0x50, reg),
                Operand::SegmentRegister(segment) => lemma_segment_stack(input, 0x06, segment),
                _ => {},
            }
        },
        Instruction::Pop { src } => {
            match src {
                Operand::Memory(_) => lemma_pop_memory(input, src),
                Operand::Register(reg) => lemma_short_register(input, 0x58, reg),
                Operand::SegmentRegister(segment) => lemma_segment_stack(input, 0x07, segment),
                _ => {},
            }
        },
        Instruction::Inc { src } => {
            if src is Register && short_body(0x40, src->Register_0).is_some() {
                lemma_short_register(input, 0x40, src->Register_0);
            } else {
                lemma_inc_group(input, src);
            }
        },
        Instruction::Dec { src } => {
            if src is Register && short_body(0x48, src->Register_0).is_some() {
                lemma_short_register(input, 0x48, src->Register_0);
            } else {
                lemma_dec_group(input, src);
            }
        },
        _ => {},
    }
}

/// The decoder finds an instruction of a group with one operand in its bytes.
proof fn lemma_group_body(input: Seq<u8>, instruction: Instruction)
    requires
        instruction is Not || instruction is Neg || instruction is Mul || instruction is Imul
            || instruction is Div || instruction is Idiv || instruction is Call
            || instruction is Jump,
        body(instruction).is_some(),
        starts_with(input, body(instruction)->Some_0),
    ensures
        parse_one(input, instruction_segment(instruction)) == found(
            instruction,
            body(instruction)->Some_0.len() as int,
        ),
        body(instruction)->Some_0.len() <= 6,
        !is_segment_prefix(byte_or_zero(input, 0)),
{
    match instruction {
        Instruction::Not { src } => lemma_not(input, src),
        Instruction::Neg { src } => lemma_neg(input, src),
        Instruction::Mul { src } => lemma_mul(input, src),
        Instruction::Imul { src } => lemma_imul(input, src),
        Instruction::Div { src } => lemma_div(input, src),
        Instruction::Idiv { src } => lemma_idiv(input, src),
        Instruction::Call { dest } => lemma_call(input, dest),
        Instruction::Jump { dest } => lemma_jump(input, dest),
        _ => {},
    }
}

/// The number of a shift or rotate in the second byte.
pub open spec fn shift_kind(instruction: Instruction) -> Option<int> {
    match instruction {
        Instruction::Rol { .. } => Some(0),
        Instruction::Ror { .. } => Some(1),
        Instruction::Rcl { .. } => Some(2),
        Instruction::Rcr { .. } => Some(3),
        Instruction::Shl { .. } => Some(4),
        Instruction::Shr { .. } => Some(5),
        Instruction::Sar { .. } => Some(7),
        _ => None,
    }
}

/// The decoder finds a shift or rotate in its bytes.
proof fn lemma_shift_body(input: Seq<u8>, instruction: Instruction)
    requires
        shift_kind(instruction).is_some(),
        body(instruction).is_some(),
        starts_with(input, body(instruction)->Some_0),
    ensures
        parse_one(input, instruction_segment(instruction)) == found(
            instruction,
            body(instruction)->Some_0.len() as int,
        ),
        body(instruction)->Some_0.len() <= 6,
        !is_segment_prefix(byte_or_zero(input, 0)),
{
    reveal(parse_one);
    let bytes = body(instruction)->Some_0;
    let (src, count) = match instruction {
        Instruction::Rol { src, count }
        | Instruction::Ror { src, count }
        | Instruction::Rcl { src, count }
        | Instruction::Rcr { src, count }
        | Instruction::Shl { src, count }
        | Instruction::Shr { src, count }
        | Instruction::Sar { src, count } => (src, count),
        _ => arbitrary(),
    };
    let w = operand_wide(src)->Some_0;
    let ext = shift_kind(instruction)->Some_0;
    if count == Operand::Immediate(1) {
        lemma_rm_form(input, 0xD0 + w, src, ext, w, bytes);
    } else {
        lemma_rm_form(input, 0xD2 + w, src, ext, w, bytes);
    }
}

/// The decoder finds an in or an out in its bytes.
proof fn lemma_port_body(input: Seq<u8>, instruction: Instruction)
    requires
        instruction is In || instruction is Out,
        body(instruction).is_some(),
        starts_with(input, body(instruction)->Some_0),
    ensures
        parse_one(input, instruction_segment(instruction)) == found(
            instruction,
            body(instruction)->Some_0.len() as int,
        ),
        body(instruction)->Some_0.len() <= 6,
        !is_segment_prefix(byte_or_zero(input, 0)),
{
    reveal(parse_one);
    let bytes = body(instruction)->Some_0;
    lemma_starts_with_bytes(input, bytes);
    let op = byte_or_zero(input, 0);
    assert(op == bytes[0]);
    match instruction {
        Instruction::In { dest, src } => {
            let w = accumulator_wide(dest)->Some_0;
            if src is Immediate {
                assert(bytes =~= seq![(0xE4 + w) as u8, src->Immediate_0 as u8]);
                assert(byte_or_zero(input, 1) == bytes[1]);
            }
        },
        Instruction::Out { dest, src } => {
            let w = accumulator_wide(src)->Some_0;
            if dest is Immediate {
                assert(bytes =~= seq![(0xE6 + w) as u8, dest->Immediate_0 as u8]);
                assert(byte_or_zero(input, 1) == bytes[1]);
            }
        },
        _ => {},
    }
    assert(parse_one(input, None) == parse_port(input));
}

/// The jump or loop with the given opcode.
pub open spec fn jump_of(opcode: int, offset: i16) -> Instruction {
    if opcode < 0x80 {
        crate::decoder::conditional_jump(opcode - 0x70, offset)
    } else {
        crate::decoder::loop_jump(opcode - 0xE0, offset)
    }
}

/// The decoder finds a jump or loop with an offset in one byte in its bytes.
proof fn lemma_jump_body(input: Seq<u8>, opcode: int, offset: i16)
    requires
        0x70 <= opcode < 0x80 || 0xE0 <= opcode < 0xE4,
        jump_body(opcode, offset).is_some(),
        starts_with(input, jump_body(opcode, offset)->Some_0),
    ensures
        parse_one(input, None) == found(jump_of(opcode, offset), 2),
        jump_body(opcode, offset)->Some_0.len() == 2,
        !is_segment_prefix(byte_or_zero(input, 0)),
{
    reveal(parse_one);
    let bytes = jump_body(opcode, offset)->Some_0;
    lemma_starts_with_bytes(input, bytes);
    assert(byte_or_zero(input, 0) == bytes[0]);
    assert(byte_or_zero(input, 1) == bytes[1]);
    let short = (offset - 2) as i16;
    assert(sign_extend((to_unsigned(short) % 256) as u8) == short);
    assert(byte_or_zero(input, 0) == opcode);
    assert((sign_extend(byte_or_zero(input, 1)) + 2) as i16 == offset);
}

/// The decoder finds a string instruction in its bytes.
proof fn lemma_string_body(input: Seq<u8>, instruction: Instruction, opcode: u8, repeat: Option<Repeat>)
    requires
        string_instruction(opcode, repeat) == Some(instruction),
        body(instruction) == string_body(opcode as int, repeat),
        starts_with(input, body(instruction)->Some_0),
    ensures
        parse_one(input, instruction_segment(instruction)) == found(
            instruction,
            body(instruction)->Some_0.len() as int,
        ),
        body(instruction)->Some_0.len() <= 6,
        !is_segment_prefix(byte_or_zero(input, 0)),
{
    reveal(parse_one);
    let bytes = body(instruction)->Some_0;
    lemma_starts_with_bytes(input, bytes);
    assert(byte_or_zero(input, 0) == bytes[0]);
    match repeat {
        Some(_) => {
            assert(byte_or_zero(input, 1) == bytes[1]);
            assert(parse_one(input, None) == parse_repeat(input));
        },
        None => {
            assert(plain_instruction(opcode) == Some(instruction));
        },
    }
}

/// The decoder finds an instruction of one or two fixed bytes, or a return
/// with an offset, in its bytes.
proof fn lemma_fixed_body(input: Seq<u8>, instruction: Instruction)
    requires
        instruction.operands().0 is None,
        crate::emu::jump_offset(instruction) is None,
        string_instruction(0xA4, None) != Some(instruction),
        !(instruction is MoveByte || instruction is MoveWord || instruction is CmpByte
            || instruction is CmpWord || instruction is StoreByte || instruction is StoreWord
            || instruction is LoadByte || instruction is LoadWord || instruction is ScanByte
            || instruction is ScanWord),
        body(instruction).is_some(),
        starts_with(input, body(instruction)->Some_0),
    ensures
        parse_one(input, instruction_segment(instruction)) == found(
            instruction,
            body(instruction)->Some_0.len() as int,
        ),
        body(instruction)->Some_0.len() <= 6,
        !is_segment_prefix(byte_or_zero(input, 0)),
{
    reveal(parse_one);
    let bytes = body(instruction)->Some_0;
    lemma_starts_with_bytes(input, bytes);
    assert(byte_or_zero(input, 0) == bytes[0]);
    match instruction {
        Instruction::ReturnWithOffset { offset } => {
            let imm = imm_bytes(offset, 1)->Some_0;
            lemma_starts_with_both(input, seq![0xC2u8], imm);
            lemma_imm_bytes(input, 1, offset, 1, imm);
        },
        Instruction::Interrupt { vector } => {
            assert(byte_or_zero(input, 1) == bytes[1]);
        },
        _ => {
            assert(bytes.len() <= 2);
        },
    }
}

/// The decoder finds an instruction in its bytes behind the segment prefix:
/// where a sequence starts with them, decoding it with the segment override of
/// the instruction in force gives the instruction and the number of the bytes.
pub proof fn lemma_body(input: Seq<u8>, instruction: Instruction)
    requires
        body(instruction).is_some(),
        starts_with(input, body(instruction)->Some_0),
    ensures
        parse_one(input, instruction_segment(instruction)) == found(
            instruction,
            body(instruction)->Some_0.len() as int,
        ),
        1 <= body(instruction)->Some_0.len() <= 6,
        !is_segment_prefix(byte_or_zero(input, 0)),
{
    crate::decoder::lemma_examined_bounds(input, instruction_segment(instruction));
    match instruction {
        Instruction::Mov { dest, src } => lemma_mov_body(input, dest, src),
        Instruction::Add { dest, src }
        | Instruction::Or { dest, src }
        | Instruction::Adc { dest, src }
        | Instruction::Sbb { dest, src }
        | Instruction::And { dest, src }
        | Instruction::Sub { dest, src }
        | Instruction::Xor { dest, src }
        | Instruction::Cmp { left: dest, right: src } => lemma_alu_body(
            input,
            instruction,
            dest,
            src,
        ),
        Instruction::Test { .. } | Instruction::Xchg { .. } => lemma_test_xchg_body(
            input,
            instruction,
        ),
        Instruction::Lea { .. } | Instruction::Lds { .. } | Instruction::Les { .. } => {
            lemma_load_address_body(input, instruction)
        },
        Instruction::Push { .. }
        | Instruction::Pop { .. }
        | Instruction::Inc { .. }
        | Instruction::Dec { .. } => lemma_stack_count_body(input, instruction),
        Instruction::Not { .. }
        | Instruction::Neg { .. }
        | Instruction::Mul { .. }
        | Instruction::Imul { .. }
        | Instruction::Div { .. }
        | Instruction::Idiv { .. }
        | Instruction::Call { .. }
        | Instruction::Jump { .. } => lemma_group_body(input, instruction),
        Instruction::Rol { .. }
        | Instruction::Ror { .. }
        | Instruction::Rcl { .. }
        | Instruction::Rcr { .. }
        | Instruction::Shl { .. }
        | Instruction::Shr { .. }
        | Instruction::Sar { .. } => lemma_shift_body(input, instruction),
        Instruction::In { .. } | Instruction::Out { .. } => lemma_port_body(input, instruction),
        Instruction::JumpOverflow { offset } => lemma_jump_body(input, 0x70, offset),
        Instruction::JumpNotOverflow { offset } => lemma_jump_body(input, 0x71, offset),
        Instruction::JumpBelow { offset } => lemma_jump_body(input, 0x72, offset),
        Instruction::JumpNotBelow { offset } => lemma_jump_body(input, 0x73, offset),
        Instruction::JumpEqual { offset } => lemma_jump_body(input, 0x74, offset),
        Instruction::JumpNotEqual { offset } => lemma_jump_body(input, 0x75, offset),
        Instruction::JumpBelowEqual { offset } => lemma_jump_body(input, 0x76, offset),
        Instruction::JumpNotBelowEqual { offset } => lemma_jump_body(input, 0x77, offset),
        Instruction::JumpSign { offset } => lemma_jump_body(input, 0x78, offset),
        Instruction::JumpNotSign { offset } => lemma_jump_body(input, 0x79, offset),
        Instruction::JumpParityEven { offset } => lemma_jump_body(input, 0x7a, offset),
        Instruction::JumpParityOdd { offset } => lemma_jump_body(input, 0x7b, offset),
        Instruction::JumpLessThan { offset } => lemma_jump_body(input, 0x7c, offset),
        Instruction::JumpNotLessThan { offset } => lemma_jump_body(input, 0x7d, offset),
        Instruction::JumpLessThanEqual { offset } => lemma_jump_body(input, 0x7e, offset),
        Instruction::JumpNotLessThanEqual { offset } => lemma_jump_body(input, 0x7f, offset),
        Instruction::LoopWhileNotZero { offset } => lemma_jump_body(input, 0xe0, offset),
        Instruction::LoopWhileZero { offset } => lemma_jump_body(input, 0xe1, offset),
        Instruction::Loop { offset } => lemma_jump_body(input, 0xe2, offset),
        Instruction::JumpCxZero { offset } => lemma_jump_body(input, 0xe3, offset),
        Instruction::MoveByte { repeat } => lemma_string_body(input, instruction, 0xa4, repeat),
        Instruction::MoveWord { repeat } => lemma_string_body(input, instruction, 0xa5, repeat),
        Instruction::CmpByte { repeat } => lemma_string_body(input, instruction, 0xa6, repeat),
        Instruction::CmpWord { repeat } => lemma_string_body(input, instruction, 0xa7, repeat),
        Instruction::StoreByte { repeat } => lemma_string_body(input, instruction, 0xaa, repeat),
        Instruction::StoreWord { repeat } => lemma_string_body(input, instruction, 0xab, repeat),
        Instruction::LoadByte { repeat } => lemma_string_body(input, instruction, 0xac, repeat),
        Instruction::LoadWord { repeat } => lemma_string_body(input, instruction, 0xad, repeat),
        Instruction::ScanByte { repeat } => lemma_string_body(input, instruction, 0xae, repeat),
        Instruction::ScanWord { repeat } => lemma_string_body(input, instruction, 0xaf, repeat),
        _ => lemma_fixed_body(input, instruction),
    }
}

/// Decoding at a position where a segment prefix and the bytes of an
/// instruction stand gives what decoding the bytes behind the prefix gives, with
/// the segment of the prefix in force.
proof fn lemma_decode_prefixed(
    input: Seq<u8>,
    at: int,
    segment: Option<SegmentRegister>,
    instruction: Instruction,
    length: int,
)
    requires
        0 <= at,
        1 <= length <= 6,
        at + prefix_bytes(segment).len() + length <= input.len(),
        segment matches Some(register) ==> input[at] == (0x26 + 8 * register.slot()) as u8,
        !is_segment_prefix(input[at + prefix_bytes(segment).len()]),
        parse_one(
            input.subrange(at + prefix_bytes(segment).len(), input.len() as int),
            segment,
        ) == found(instruction, length),
    ensures
        decode(input, at) == Ok::<(Instruction, nat), Error>(
            (instruction, (prefix_bytes(segment).len() + length) as nat),
        ),
{
    match segment {
        Some(register) => {
            assert(is_segment_prefix(input[at]));
            assert(prefix_count(input, at + 1) == 0);
            assert(prefix_count(input, at) == 1);
            assert((input[at] as int / 8) % 4 == register.slot());
            assert(crate::register::segment_from_bits(register.slot()) == register);
            assert(prefix_segment(input, at) == segment);
        },
        None => {
            assert(prefix_count(input, at) == 0);
        },
    }
}

/// The bytes behind a position of a sequence that holds two runs of bytes
/// there, behind the first run, start with the second.
proof fn lemma_rest_starts_with(input: Seq<u8>, at: int, first: Seq<u8>, second: Seq<u8>)
    requires
        0 <= at,
        at + first.len() + second.len() <= input.len(),
        input.subrange(at, at + first.len() + second.len()) == first + second,
    ensures
        starts_with(input.subrange(at + first.len(), input.len() as int), second),
        forall|k: int| 0 <= k < first.len() ==> input[at + k] == first[k],
        second.len() > 0 ==> input[at + first.len()] == byte_or_zero(
            input.subrange(at + first.len(), input.len() as int),
            0,
        ),
{
    let both = first + second;
    let rest = input.subrange(at + first.len(), input.len() as int);
    assert forall|k: int| 0 <= k < both.len() implies input[at + k] == both[k] by {
        assert(input.subrange(at, at + both.len())[k] == input[at + k]);
    }
    assert(rest.subrange(0, second.len() as int) =~= second) by {
        assert forall|k: int| 0 <= k < second.len() implies rest[k] == second[k] by {
            assert(input[at + (first.len() + k)] == both[first.len() + k]);
        }
    }
    assert forall|k: int| 0 <= k < first.len() implies input[at + k] == first[k] by {
        assert(both[k] == first[k]);
    }
}

/// The decoder finds an instruction in its bytes: where the bytes of an
/// instruction stand at a position of a sequence, decoding there gives the
/// instruction, and as its length the number of the bytes.
#[verifier::spinoff_prover]
#[verifier::rlimit(60)]
pub proof fn lemma_decode_encoding(instruction: Instruction, input: Seq<u8>, at: int)
    requires
        encoding(instruction).is_some(),
        0 <= at,
        at + encoding(instruction)->Some_0.len() <= input.len(),
        input.subrange(at, at + encoding(instruction)->Some_0.len()) == encoding(
            instruction,
        )->Some_0,
    ensures
        decode(input, at) == Ok::<(Instruction, nat), Error>(
            (instruction, encoding(instruction)->Some_0.len()),
        ),
{
    let segment = instruction_segment(instruction);
    let prefix = prefix_bytes(segment);
    let bytes = body(instruction)->Some_0;
    let rest = input.subrange(at + prefix.len(), input.len() as int);
    assert(encoding(instruction)->Some_0 == prefix + bytes);
    lemma_rest_starts_with(input, at, prefix, bytes);
    lemma_body(rest, instruction);
    if segment is Some {
        assert(input[at + 0] == prefix[0]);
    }
    lemma_decode_prefixed(input, at, segment, instruction, bytes.len() as int);
}

/// Decoding the bytes of an instruction gives the instruction, and with it
/// its text.
pub proof fn lemma_round_trip(instruction: Instruction)
    requires
        encoding(instruction).is_some(),
    ensures
        decode(encoding(instruction)->Some_0, 0) == Ok::<(Instruction, nat), Error>(
            (instruction, encoding(instruction)->Some_0.len()),
        ),
        decode(encoding(instruction)->Some_0, 0)->Ok_0.0.text() == instruction.text(),
{
    let code = encoding(instruction)->Some_0;
    assert(code.subrange(0, code.len() as int) =~= code);
    lemma_decode_encoding(instruction, code, 0);
}

/// The operands that the decoder reads from a second byte have encodings
/// of the width that they were read with.
proof fn lemma_modrm_encodable(input: Seq<u8>, w: int, segment: Option<SegmentRegister>)
    requires
        0 <= w <= 1,
    ensures
        ({
            let rm = modrm_rm(input, w, segment);
            let plain = unsized_operand(rm);
            &&& rm is Register || rm is Memory
            &&& rm_code(rm) is Some
            &&& rm_code(rm)->Some_0.w == Some(w)
            &&& operand_wide(rm) == Some(w)
            &&& rm_code(plain) is Some
            &&& rm is Register ==> plain == rm
            &&& rm is Memory ==> plain is Memory && rm_code(plain)->Some_0.w.is_none()
            &&& modrm_reg(input, w) is Register
            &&& register_bits(modrm_reg(input, w)->Register_0) == Some(
                (reg_field(byte_or_zero(input, 1)), w),
            )
            &&& forall|opcode: int, reg: int| #[trigger] rm_form(opcode, rm, reg, w).is_some()
            &&& w == 1 ==> forall|opcode: int, reg: int| #[trigger]
                rm_form_unsized(opcode, plain, reg).is_some()
        }),
{
}

/// An immediate of one byte is a number below 256.
proof fn lemma_immediate_range(input: Seq<u8>, at: int)
    ensures
        0 <= immediate(input, at, 0) < 256,
        imm_bytes(immediate(input, at, 0), 0).is_some(),
        -128 <= sign_extend(byte_or_zero(input, at)) < 128,
        arithmetic_bytes(crate::decoder::arithmetic_immediate(input, at, 0), 0).is_some(),
        arithmetic_bytes(crate::decoder::arithmetic_immediate(input, at, 1), 1).is_some(),
{
}

/// What the decoder gives for this group of opcodes has an encoding.
proof fn lemma_parse_low_encodable(input: Seq<u8>, segment: Option<SegmentRegister>)
    requires
        byte_or_zero(input, 0) < 0x40,
        parse_low(input, segment).outcome is Ok,
    ensures
        body(parse_low(input, segment).outcome->Ok_0).is_some(),
{
    let op = byte_or_zero(input, 0);
    let w = crate::decoder::w_bit(op);
    lemma_modrm_encodable(input, w, segment);
    lemma_immediate_range(input, 1);
}

/// What the decoder gives for this group of opcodes has an encoding.
proof fn lemma_parse_register_encodable(input: Seq<u8>)
    requires
        0x40 <= byte_or_zero(input, 0) < 0x60,
        parse_register(input).outcome is Ok,
    ensures
        body(parse_register(input).outcome->Ok_0).is_some(),
{
}

/// What the decoder gives for this group of opcodes has an encoding.
proof fn lemma_parse_alu_immediate_encodable(input: Seq<u8>, segment: Option<SegmentRegister>)
    requires
        0x80 <= byte_or_zero(input, 0) < 0x84,
        parse_alu_immediate(input, segment).outcome is Ok,
    ensures
        body(parse_alu_immediate(input, segment).outcome->Ok_0).is_some(),
{
    let op = byte_or_zero(input, 0);
    let w = crate::decoder::w_bit(op);
    lemma_modrm_encodable(input, w, segment);
    lemma_immediate_range(input, modrm_len(byte_or_zero(input, 1)) as int);
}

/// What the decoder gives for this group of opcodes has an encoding.
proof fn lemma_parse_mov_immediate_encodable(input: Seq<u8>, segment: Option<SegmentRegister>)
    requires
        byte_or_zero(input, 0) == 0xC6 || byte_or_zero(input, 0) == 0xC7,
        parse_mov_immediate(input, segment).outcome is Ok,
    ensures
        body(parse_mov_immediate(input, segment).outcome->Ok_0).is_some(),
{
    let op = byte_or_zero(input, 0);
    let w = crate::decoder::w_bit(op);
    lemma_modrm_encodable(input, w, segment);
    lemma_immediate_range(input, modrm_len(byte_or_zero(input, 1)) as int);
}

/// What the decoder gives for this group of opcodes has an encoding.
proof fn lemma_parse_unary_encodable(input: Seq<u8>, segment: Option<SegmentRegister>)
    requires
        byte_or_zero(input, 0) == 0xF6 || byte_or_zero(input, 0) == 0xF7,
        parse_unary(input, segment).outcome is Ok,
    ensures
        body(parse_unary(input, segment).outcome->Ok_0).is_some(),
{
    let op = byte_or_zero(input, 0);
    let w = crate::decoder::w_bit(op);
    lemma_modrm_encodable(input, w, segment);
    lemma_immediate_range(input, modrm_len(byte_or_zero(input, 1)) as int);
}

/// What the decoder gives for this group of opcodes has an encoding.
proof fn lemma_parse_shift_encodable(input: Seq<u8>, segment: Option<SegmentRegister>)
    requires
        0xD0 <= byte_or_zero(input, 0) < 0xD4,
        parse_shift(input, segment).outcome is Ok,
    ensures
        body(parse_shift(input, segment).outcome->Ok_0).is_some(),
{
    let op = byte_or_zero(input, 0);
    let w = crate::decoder::w_bit(op);
    lemma_modrm_encodable(input, w, segment);
}

/// What the decoder gives for this group of opcodes has an encoding.
proof fn lemma_parse_inc_group_encodable(input: Seq<u8>, segment: Option<SegmentRegister>)
    requires
        byte_or_zero(input, 0) == 0xFE || byte_or_zero(input, 0) == 0xFF,
        parse_inc_group(input, segment).outcome is Ok,
    ensures
        body(parse_inc_group(input, segment).outcome->Ok_0).is_some(),
{
    let op = byte_or_zero(input, 0);
    let w = crate::decoder::w_bit(op);
    lemma_modrm_encodable(input, w, segment);
}

/// What the decoder gives for this group of opcodes has an encoding.
proof fn lemma_parse_transfer_encodable(input: Seq<u8>, segment: Option<SegmentRegister>)
    requires
        0x84 <= byte_or_zero(input, 0) < 0x90,
        parse_transfer(input, segment).outcome is Ok,
    ensures
        body(parse_transfer(input, segment).outcome->Ok_0).is_some(),
{
    let op = byte_or_zero(input, 0);
    lemma_modrm_encodable(input, crate::decoder::w_bit(op), segment);
    lemma_modrm_encodable(input, 1, segment);
}

/// What the decoder gives for this group of opcodes has an encoding.
proof fn lemma_parse_mov_direct_encodable(input: Seq<u8>, segment: Option<SegmentRegister>)
    requires
        0xA0 <= byte_or_zero(input, 0) < 0xA4,
        parse_mov_direct(input, segment).outcome is Ok,
    ensures
        body(parse_mov_direct(input, segment).outcome->Ok_0).is_some(),
{
}

/// What the decoder gives for this group of opcodes has an encoding.
proof fn lemma_parse_port_encodable(input: Seq<u8>)
    requires
        0xE4 <= byte_or_zero(input, 0) < 0xE8 || 0xEC <= byte_or_zero(input, 0) < 0xF0,
        parse_port(input).outcome is Ok,
    ensures
        body(parse_port(input).outcome->Ok_0).is_some(),
{
    lemma_immediate_range(input, 1);
}

/// What the decoder gives for this group of opcodes has an encoding.
proof fn lemma_parse_repeat_encodable(input: Seq<u8>)
    requires
        byte_or_zero(input, 0) == 0xF2 || byte_or_zero(input, 0) == 0xF3,
        parse_repeat(input).outcome is Ok,
    ensures
        body(parse_repeat(input).outcome->Ok_0).is_some(),
{
}

/// Every instruction that the decoder gives has an encoding.
pub proof fn lemma_parsed_has_body(input: Seq<u8>, segment: Option<SegmentRegister>)
    requires
        parse_one(input, segment).outcome is Ok,
    ensures
        body(parse_one(input, segment).outcome->Ok_0).is_some(),
{
    reveal(parse_one);
    let op = byte_or_zero(input, 0);
    if op < 0x40 {
        lemma_parse_low_encodable(input, segment);
    } else if op < 0x60 {
        lemma_parse_register_encodable(input);
    } else if op < 0x70 {
    } else if op < 0x80 {
        lemma_jump_encodable(input);
    } else if op < 0x84 {
        lemma_parse_alu_immediate_encodable(input, segment);
    } else if op < 0x90 {
        lemma_parse_transfer_encodable(input, segment);
    } else if 0x91 <= op < 0x98 {
        lemma_xchg_accumulator_encodable(input);
    } else if 0xA0 <= op < 0xA4 {
        lemma_parse_mov_direct_encodable(input, segment);
    } else if op == 0xA8 || op == 0xA9 {
        lemma_test_accumulator_encodable(input);
    } else if 0xB0 <= op < 0xC0 {
        lemma_mov_register_encodable(input);
    } else if op == 0xC2 {
    } else if op == 0xC4 || op == 0xC5 {
        lemma_modrm_encodable(input, 1, segment);
    } else if op == 0xC6 || op == 0xC7 {
        lemma_parse_mov_immediate_encodable(input, segment);
    } else if op == 0xCD {
    } else if 0xD0 <= op < 0xD4 {
        lemma_parse_shift_encodable(input, segment);
    } else if op == 0xD4 || op == 0xD5 {
    } else if 0xE0 <= op < 0xE4 {
        lemma_jump_encodable(input);
    } else if 0xE4 <= op < 0xE8 || 0xEC <= op < 0xF0 {
        lemma_parse_port_encodable(input);
    } else if op == 0xF2 || op == 0xF3 {
        lemma_parse_repeat_encodable(input);
    } else if op == 0xF6 || op == 0xF7 {
        lemma_parse_unary_encodable(input, segment);
    } else if op == 0xFE || op == 0xFF {
        lemma_parse_inc_group_encodable(input, segment);
    } else {
    }
}

/// A jump or loop that the decoder gives has an encoding.
proof fn lemma_jump_encodable(input: Seq<u8>)
    requires
        0x70 <= byte_or_zero(input, 0) < 0x80 || 0xE0 <= byte_or_zero(input, 0) < 0xE4,
    ensures
        body(
            jump_of(
                byte_or_zero(input, 0) as int,
                (sign_extend(byte_or_zero(input, 1)) + 2) as i16,
            ),
        ).is_some(),
{
}

/// An xchg with the accumulator that the decoder gives has an encoding.
proof fn lemma_xchg_accumulator_encodable(input: Seq<u8>)
    requires
        0x91 <= byte_or_zero(input, 0) < 0x98,
    ensures
        body(
            Instruction::Xchg {
                left: Operand::Register(register_from_bits(byte_or_zero(input, 0) as int % 8, 1)),
                right: Operand::Register(Register::Ax),
            },
        ).is_some(),
{
}

/// A test of the accumulator that the decoder gives has an encoding.
proof fn lemma_test_accumulator_encodable(input: Seq<u8>)
    requires
        byte_or_zero(input, 0) == 0xA8 || byte_or_zero(input, 0) == 0xA9,
    ensures
        body(
            Instruction::Test {
                dest: Operand::Register(
                    crate::decoder::accumulator(crate::decoder::w_bit(byte_or_zero(input, 0))),
                ),
                src: Operand::Immediate(
                    crate::decoder::arithmetic_immediate(
                        input,
                        1,
                        crate::decoder::w_bit(byte_or_zero(input, 0)),
                    ),
                ),
            },
        ).is_some(),
{
    lemma_immediate_range(input, 1);
}

/// A mov of an immediate to a register that the decoder gives has an encoding.
proof fn lemma_mov_register_encodable(input: Seq<u8>)
    requires
        0xB0 <= byte_or_zero(input, 0) < 0xC0,
    ensures
        body(
            Instruction::Mov {
                dest: Operand::Register(
                    register_from_bits(
                        byte_or_zero(input, 0) as int % 8,
                        (byte_or_zero(input, 0) as int / 8) % 2,
                    ),
                ),
                src: Operand::Immediate(
                    immediate(input, 1, (byte_or_zero(input, 0) as int / 8) % 2),
                ),
            },
        ).is_some(),
{
    lemma_immediate_range(input, 1);
}

/// For every decodable instruction, decoding its bytes gives the
/// instruction again, and with it its text: an instruction that the decoder
/// gives at some position of some bytes has an encoding, and the decoder finds
/// the instruction in it.
pub proof fn lemma_decodable_round_trip(input: Seq<u8>, at: int)
    requires
        decode(input, at) is Ok,
    ensures
        encoding(decode(input, at)->Ok_0.0).is_some(),
        decode(encoding(decode(input, at)->Ok_0.0)->Some_0, 0) == Ok::<(Instruction, nat), Error>(
            (decode(input, at)->Ok_0.0, encoding(decode(input, at)->Ok_0.0)->Some_0.len()),
        ),
        decode(encoding(decode(input, at)->Ok_0.0)->Some_0, 0)->Ok_0.0.text() == decode(
            input,
            at,
        )->Ok_0.0.text(),
{
    let rest = input.subrange(at + prefix_count(input, at), input.len() as int);
    lemma_parsed_has_body(rest, prefix_segment(input, at));
    lemma_round_trip(decode(input, at)->Ok_0.0);
}

} // verus!
