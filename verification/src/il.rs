//! The intermediate language for executing avx512 instructions, and the
//! host instructions that it is lowered to

use crate::bits::to_unsigned;
use crate::evex::{evex_bytes, Avx512Instruction, AvxOpcode, AvxOperand, Zmm, K};
use crate::flags::EFlags;
use crate::instruction::{Instruction, Operand};
use crate::register::Register;
use vstd::prelude::*;

verus! {

/// The comparison that a vpcmpw makes, by the low three bits of its last byte
#[derive(Debug, Copy, Clone, PartialEq, Eq, Structural)]
pub enum CmpOp {
    Equal,
    LessThan,
    LessThanEqual,
    False,
    NotEqual,
    GreaterThanEqual,
    GreaterThan,
    True,
}

impl CmpOp {
    /// The number of the comparison in the last byte of a vpcmpw.
    pub open spec fn spec_code(self) -> u8 {
        match self {
            CmpOp::Equal => 0,
            CmpOp::LessThan => 1,
            CmpOp::LessThanEqual => 2,
            CmpOp::False => 3,
            CmpOp::NotEqual => 4,
            CmpOp::GreaterThanEqual => 5,
            CmpOp::GreaterThan => 6,
            CmpOp::True => 7,
        }
    }

    /// The number of the comparison in the last byte of a vpcmpw
    pub fn code(self) -> (res: u8)
        ensures
            res == self.spec_code(),
    {
        match self {
            CmpOp::Equal => 0,
            CmpOp::LessThan => 1,
            CmpOp::LessThanEqual => 2,
            CmpOp::False => 3,
            CmpOp::NotEqual => 4,
            CmpOp::GreaterThanEqual => 5,
            CmpOp::GreaterThan => 6,
            CmpOp::True => 7,
        }
    }
}

/// An operation on two values that sets the flags
#[derive(Debug, Copy, Clone, PartialEq, Eq, Structural)]
pub enum Binary {
    Add,
    Sub,
    And,
    Or,
    Xor,
}

/// An instruction of the intermediate language
#[derive(Debug, Copy, Clone, PartialEq, Eq)]
#[allow(inconsistent_fields)]
pub enum JitIL {
    /// Copy a register or an immediate to a register
    Mov { dest: Zmm, src: AvxOperand },
    /// dest = op1 - op2, and the flags of the difference
    Sub { dest: Zmm, op1: Zmm, op2: AvxOperand },
    /// dest = op1 + op2, and the flags of the sum
    Add { dest: Zmm, op1: Zmm, op2: AvxOperand },
    /// vpcmpw k, zmm, zmm, imm8
    Cmp { k: Zmm, left: AvxOperand, right: AvxOperand, op: CmpOp },
    /// The flags of left - right
    Compare { left: Zmm, right: AvxOperand },
    /// dest = op1 ^ op2, and the flags of the result
    Xor { dest: Zmm, op1: Zmm, op2: AvxOperand },
    /// dest = op1 | op2, and the flags of the result
    Or { dest: Zmm, op1: Zmm, op2: AvxOperand },
    /// dest = op1 & op2, and the flags of the result
    And { dest: Zmm, op1: Zmm, op2: AvxOperand },
}

/// The number of the general-purpose register ESI, through which an
/// immediate reaches a vector register.
pub const ESI: u8 = 6;

/// The number of the opmask register that flag synthesis uses.
pub const FLAG_MASK: u8 = 3;

/// The number of the vector register that holds the flags.
pub const FLAGS_ZMM: u8 = 10;

/// The number that extends the opcode of a shift to the left.
pub const SHIFT_LEFT: u8 = 6;

/// An instruction of the host, as the translator emits it.
#[derive(Debug, Copy, Clone, PartialEq, Eq)]
#[allow(inconsistent_fields)]
pub enum HostOp {
    /// mov esi, imm32: the immediate is the value widened with its sign
    LoadEsi { value: i16 },
    /// vpbroadcastw dest {mask}, esi
    Broadcast { dest: Zmm, mask: Option<K> },
    /// vmovdqa64 dest, src
    Move { dest: Zmm, src: Zmm },
    /// vpsubw dest, left, right
    Sub { dest: Zmm, left: Zmm, right: Zmm },
    /// vpaddw dest, left, right
    Add { dest: Zmm, left: Zmm, right: Zmm },
    /// vporw dest {mask}, left, right: the opmask selects lanes of 16 bits
    Or { dest: Zmm, left: Zmm, right: Zmm, mask: Option<K> },
    /// vpxorq dest, left, right
    Xor { dest: Zmm, left: Zmm, right: Zmm },
    /// vpandq dest, left, right
    And { dest: Zmm, left: Zmm, right: Zmm },
    /// vpsllw dest, src, count
    ShiftLeft { dest: Zmm, src: Zmm, count: u8 },
    /// vpcmpw k {mask}, left, right, op
    Compare { k: Zmm, left: Zmm, right: Zmm, op: CmpOp, mask: Option<K> },
    /// ret
    Ret,
}

/// The four bytes of the 32-bit number that a 16-bit value widens to with
/// its sign, low byte first.
pub open spec fn widened_bytes(value: i16) -> Seq<u8> {
    let word = to_unsigned(value);
    let fill = if value < 0 {
        0xffu8
    } else {
        0u8
    };
    seq![(word % 256) as u8, (word / 256) as u8, fill, fill]
}

/// The bytes of a host instruction.
pub open spec fn encode(op: HostOp) -> Seq<u8> {
    match op {
        HostOp::LoadEsi { value } => seq![0xbeu8] + widened_bytes(value),
        HostOp::Broadcast { dest, mask } => evex_bytes(
            AvxOpcode::Broadcast,
            dest,
            Zmm(ESI),
            None,
            None,
            mask,
        ),
        HostOp::Move { dest, src } => evex_bytes(AvxOpcode::Mov, dest, src, None, None, None),
        HostOp::Sub { dest, left, right } => evex_bytes(
            AvxOpcode::Sub,
            dest,
            left,
            Some(right),
            None,
            None,
        ),
        HostOp::Add { dest, left, right } => evex_bytes(
            AvxOpcode::Add,
            dest,
            left,
            Some(right),
            None,
            None,
        ),
        HostOp::Or { dest, left, right, mask } => evex_bytes(
            AvxOpcode::Or,
            dest,
            left,
            Some(right),
            None,
            mask,
        ),
        HostOp::Xor { dest, left, right } => evex_bytes(
            AvxOpcode::Xor,
            dest,
            left,
            Some(right),
            None,
            None,
        ),
        HostOp::And { dest, left, right } => evex_bytes(
            AvxOpcode::And,
            dest,
            left,
            Some(right),
            None,
            None,
        ),
        HostOp::ShiftLeft { dest, src, count } => evex_bytes(
            AvxOpcode::ShiftLeft,
            Zmm(SHIFT_LEFT),
            dest,
            Some(src),
            Some(count),
            None,
        ),
        HostOp::Compare { k, left, right, op, mask } => evex_bytes(
            AvxOpcode::Cmp,
            k,
            left,
            Some(right),
            Some(op.spec_code()),
            mask,
        ),
        HostOp::Ret => seq![0xc3u8],
    }
}

/// Number of bytes of a host instruction.
pub open spec fn encode_len(op: HostOp) -> nat {
    match op {
        HostOp::LoadEsi { .. } => 5,
        HostOp::Compare { .. } | HostOp::ShiftLeft { .. } => 7,
        HostOp::Ret => 1,
        _ => 6,
    }
}

/// A host instruction has as many bytes as its kind says.
pub proof fn lemma_encode_len(op: HostOp)
    ensures
        encode(op).len() == encode_len(op),
{
}

/// The bytes of a sequence of host instructions.
pub open spec fn encode_all(ops: Seq<HostOp>) -> Seq<u8>
    decreases ops.len(),
{
    if ops.len() == 0 {
        Seq::empty()
    } else {
        encode_all(ops.drop_last()) + encode(ops.last())
    }
}

/// The bytes of a sequence with one more instruction are those of the
/// sequence and those of the instruction.
pub proof fn lemma_encode_push(ops: Seq<HostOp>, op: HostOp)
    ensures
        encode_all(ops.push(op)) == encode_all(ops) + encode(op),
{
    assert(ops.push(op).drop_last() =~= ops);
}

/// The bytes of two sequences, one behind the other.
pub proof fn lemma_encode_concat(first: Seq<HostOp>, second: Seq<HostOp>)
    ensures
        encode_all(first + second) == encode_all(first) + encode_all(second),
    decreases second.len(),
{
    if second.len() == 0 {
        assert(first + second =~= first);
        assert(encode_all(first) + Seq::<u8>::empty() =~= encode_all(first));
    } else {
        lemma_encode_concat(first, second.drop_last());
        assert((first + second).drop_last() =~= first + second.drop_last());
        assert((first + second).last() == second.last());
        assert(encode_all(first + second) =~= encode_all(first) + encode_all(second));
    }
}

/// vpsubw op1, op2, op3
pub fn vpsubw(op1: Zmm, op2: Zmm, op3: Zmm) -> (res: Avx512Instruction)
    ensures
        res.complete(),
        res.bytes() == encode(HostOp::Sub { dest: op1, left: op2, right: op3 }),
{
    Avx512Instruction::new().opcode(AvxOpcode::Sub).op1(op1).op2(op2).op3(op3)
}

/// vpaddw op1, op2, op3
pub fn vpaddw(op1: Zmm, op2: Zmm, op3: Zmm) -> (res: Avx512Instruction)
    ensures
        res.complete(),
        res.bytes() == encode(HostOp::Add { dest: op1, left: op2, right: op3 }),
{
    Avx512Instruction::new().opcode(AvxOpcode::Add).op1(op1).op2(op2).op3(op3)
}

/// vporw op1 {kmask}, op2, op3
pub fn vporw(op1: Zmm, op2: Zmm, op3: Zmm, kmask: Option<K>) -> (res: Avx512Instruction)
    ensures
        res.complete(),
        res.bytes() == encode(HostOp::Or { dest: op1, left: op2, right: op3, mask: kmask }),
{
    let instr = Avx512Instruction::new().opcode(AvxOpcode::Or).op1(op1).op2(op2).op3(op3);
    match kmask {
        Some(k) => instr.kmask(k),
        None => instr,
    }
}

/// vpxorq op1, op2, op3
pub fn vpxorq(op1: Zmm, op2: Zmm, op3: Zmm) -> (res: Avx512Instruction)
    ensures
        res.complete(),
        res.bytes() == encode(HostOp::Xor { dest: op1, left: op2, right: op3 }),
{
    Avx512Instruction::new().opcode(AvxOpcode::Xor).op1(op1).op2(op2).op3(op3)
}

/// vpcmpw op1, op2, op3, op: the first operand names the opmask register
pub fn vpcmpw(op1: Zmm, op2: Zmm, op3: Zmm, op: CmpOp) -> (res: Avx512Instruction)
    ensures
        res.complete(),
        res.bytes() == encode(HostOp::Compare { k: op1, left: op2, right: op3, op, mask: None }),
{
    Avx512Instruction::new().opcode(AvxOpcode::Cmp).op1(op1).op2(op2).op3(op3).imm(op.code())
}

/// vpcmpw op1 {kmask}, op2, op3, op: in the lanes that the opmask does not
/// select the outcome is false
pub fn vpcmpw_masked(op1: Zmm, op2: Zmm, op3: Zmm, op: CmpOp, kmask: K) -> (res:
    Avx512Instruction)
    ensures
        res.complete(),
        res.bytes() == encode(
            HostOp::Compare { k: op1, left: op2, right: op3, op, mask: Some(kmask) },
        ),
{
    Avx512Instruction::new().opcode(AvxOpcode::Cmp).op1(op1).op2(op2).op3(op3).imm(
        op.code(),
    ).kmask(kmask)
}

/// vpandq op1, op2, op3
pub fn vpandq(op1: Zmm, op2: Zmm, op3: Zmm) -> (res: Avx512Instruction)
    ensures
        res.complete(),
        res.bytes() == encode(HostOp::And { dest: op1, left: op2, right: op3 }),
{
    Avx512Instruction::new().opcode(AvxOpcode::And).op1(op1).op2(op2).op3(op3)
}

/// vpsllw op1, op2, count
pub fn vpsllw(op1: Zmm, op2: Zmm, count: u8) -> (res: Avx512Instruction)
    ensures
        res.complete(),
        res.bytes() == encode(HostOp::ShiftLeft { dest: op1, src: op2, count }),
{
    Avx512Instruction::new().opcode(AvxOpcode::ShiftLeft).op1(Zmm(SHIFT_LEFT)).op2(op1).op3(
        op2,
    ).imm(count)
}

/// vpbroadcastw op1 {kmask}, reg, from the general-purpose register with
/// the given number
pub fn vpbroadcastw(op1: Zmm, reg: Zmm, kmask: Option<K>) -> (res: Avx512Instruction)
    ensures
        res.complete(),
        res.bytes() == evex_bytes(AvxOpcode::Broadcast, op1, reg, None, None, kmask),
{
    let instr = Avx512Instruction::new().opcode(AvxOpcode::Broadcast).op1(op1).op2(reg);
    match kmask {
        Some(k) => instr.kmask(k),
        None => instr,
    }
}

/// vmovdqa64 op1, op2
pub fn vpmovdqa64(op1: Zmm, op2: Zmm) -> (res: Avx512Instruction)
    ensures
        res.complete(),
        res.bytes() == encode(HostOp::Move { dest: op1, src: op2 }),
{
    Avx512Instruction::new().opcode(AvxOpcode::Mov).op1(op1).op2(op2)
}

/// The vector register that holds a 16-bit register of the 8086.
pub open spec fn zmm_of(reg: Register) -> Zmm {
    Zmm((reg.slot() + 1) as u8)
}

/// The vector register of an operand that is a 16-bit register.
pub open spec fn operand_zmm(operand: Operand) -> Option<Zmm> {
    match operand {
        Operand::Register(reg) => if reg.is_main() {
            Some(zmm_of(reg))
        } else {
            None
        },
        _ => None,
    }
}

/// The operand of the intermediate language for a 16-bit register or an immediate.
pub open spec fn operand_avx(operand: Operand) -> Option<AvxOperand> {
    match operand {
        Operand::Immediate(value) => Some(AvxOperand::Immediate(value)),
        _ => match operand_zmm(operand) {
            Some(zmm) => Some(AvxOperand::Zmm(zmm)),
            None => None,
        },
    }
}

/// The instruction of the intermediate language for a destination and a source.
pub open spec fn binary_il(instruction: Instruction, dest: Zmm, src: AvxOperand) -> Option<JitIL> {
    match instruction {
        Instruction::Mov { .. } => Some(JitIL::Mov { dest, src }),
        Instruction::Sub { .. } => Some(JitIL::Sub { dest, op1: dest, op2: src }),
        Instruction::Add { .. } => Some(JitIL::Add { dest, op1: dest, op2: src }),
        Instruction::Cmp { .. } => Some(JitIL::Compare { left: dest, right: src }),
        Instruction::Xor { .. } => Some(JitIL::Xor { dest, op1: dest, op2: src }),
        Instruction::Or { .. } => Some(JitIL::Or { dest, op1: dest, op2: src }),
        Instruction::And { .. } => Some(JitIL::And { dest, op1: dest, op2: src }),
        _ => None,
    }
}

/// Whether the instruction computes flags from an operand that is the
/// flags register itself: the flags that it leaves would not be those of the
/// value that it started with.
pub open spec fn flags_of_flags(instruction: Instruction, first: Operand) -> bool {
    !(instruction is Mov) && first == Operand::Register(Register::Flags)
}

/// The instruction of the intermediate language for an instruction of the
/// 8086: for a mov, sub, add, cmp, xor, or or and whose first operand is a
/// 16-bit register and whose second is such a register or an immediate. Of
/// these only a mov may have the flags register for its first operand.
pub open spec fn il_of(instruction: Instruction) -> Option<JitIL> {
    match instruction {
        Instruction::Mov { dest, src }
        | Instruction::Sub { dest, src }
        | Instruction::Add { dest, src }
        | Instruction::Xor { dest, src }
        | Instruction::Or { dest, src }
        | Instruction::And { dest, src }
        | Instruction::Cmp { left: dest, right: src } => match (
            operand_zmm(dest),
            operand_avx(src),
        ) {
            (Some(zmm), Some(src)) => if flags_of_flags(instruction, dest) {
                None
            } else {
                binary_il(instruction, zmm, src)
            },
            _ => None,
        },
        _ => None,
    }
}

impl JitIL {
    /// The vector register of an operand that is a 16-bit register
    pub fn zmm_from(operand: &Operand) -> (res: Option<Zmm>)
        ensures
            res == operand_zmm(*operand),
    {
        match operand {
            Operand::Register(reg) => {
                let (main, part) = reg.as_sub_register();
                match part {
                    crate::register::SubRegister::Full => Some(Zmm(reg.as_zmm())),
                    _ => None,
                }
            },
            _ => None,
        }
    }

    /// The operand for a 16-bit register or an immediate
    pub fn operand_from(operand: &Operand) -> (res: Option<AvxOperand>)
        ensures
            res == operand_avx(*operand),
    {
        match operand {
            Operand::Immediate(value) => Some(AvxOperand::Immediate(*value)),
            _ => match JitIL::zmm_from(operand) {
                Some(zmm) => Some(AvxOperand::Zmm(zmm)),
                None => None,
            },
        }
    }

    /// The instruction of the intermediate language for an instruction of
    /// the 8086, where there is one
    pub fn from_instruction(instruction: &Instruction) -> (res: Option<JitIL>)
        ensures
            res == il_of(*instruction),
    {
        match instruction {
            Instruction::Mov { dest, src }
            | Instruction::Sub { dest, src }
            | Instruction::Add { dest, src }
            | Instruction::Xor { dest, src }
            | Instruction::Or { dest, src }
            | Instruction::And { dest, src }
            | Instruction::Cmp { left: dest, right: src } => {
                let of_flags = match (instruction, dest) {
                    (Instruction::Mov { .. }, _) => false,
                    (_, Operand::Register(Register::Flags)) => true,
                    _ => false,
                };
                if of_flags {
                    return None;
                }
                match (JitIL::zmm_from(dest), JitIL::operand_from(src)) {
                    (Some(dest), Some(src)) => match instruction {
                        Instruction::Mov { .. } => Some(JitIL::Mov { dest, src }),
                        Instruction::Sub { .. } => Some(JitIL::Sub { dest, op1: dest, op2: src }),
                        Instruction::Add { .. } => Some(JitIL::Add { dest, op1: dest, op2: src }),
                        Instruction::Cmp { .. } => Some(JitIL::Compare { left: dest, right: src }),
                        Instruction::Xor { .. } => Some(JitIL::Xor { dest, op1: dest, op2: src }),
                        Instruction::Or { .. } => Some(JitIL::Or { dest, op1: dest, op2: src }),
                        Instruction::And { .. } => Some(JitIL::And { dest, op1: dest, op2: src }),
                        _ => None,
                    },
                    _ => None,
                }
            },
            _ => None,
        }
    }

    /// The operation and the operands of an instruction that computes a
    /// value from two and sets the flags.
    pub open spec fn binary(self) -> Option<(Binary, Zmm, Zmm, AvxOperand)> {
        match self {
            JitIL::Add { dest, op1, op2 } => Some((Binary::Add, dest, op1, op2)),
            JitIL::Sub { dest, op1, op2 } => Some((Binary::Sub, dest, op1, op2)),
            JitIL::And { dest, op1, op2 } => Some((Binary::And, dest, op1, op2)),
            JitIL::Or { dest, op1, op2 } => Some((Binary::Or, dest, op1, op2)),
            JitIL::Xor { dest, op1, op2 } => Some((Binary::Xor, dest, op1, op2)),
            _ => None,
        }
    }

    /// The operation and the operands of an instruction that computes a
    /// value from two and sets the flags
    pub fn as_binary(&self) -> (res: Option<(Binary, Zmm, Zmm, AvxOperand)>)
        ensures
            res == self.binary(),
    {
        match self {
            JitIL::Add { dest, op1, op2 } => Some((Binary::Add, *dest, *op1, *op2)),
            JitIL::Sub { dest, op1, op2 } => Some((Binary::Sub, *dest, *op1, *op2)),
            JitIL::And { dest, op1, op2 } => Some((Binary::And, *dest, *op1, *op2)),
            JitIL::Or { dest, op1, op2 } => Some((Binary::Or, *dest, *op1, *op2)),
            JitIL::Xor { dest, op1, op2 } => Some((Binary::Xor, *dest, *op1, *op2)),
            _ => None,
        }
    }
}

/// The scratch register with the given position in the ring of four.
pub open spec fn scratch(index: int) -> Zmm {
    Zmm((28 + index % 4) as u8)
}

/// The scratch register with the given position in the ring of four
pub fn scratch_reg(index: usize) -> (res: Zmm)
    ensures
        res == scratch(index as int),
{
    Zmm(28 + (index % 4) as u8)
}

/// The host instruction of an operation on two registers.
pub open spec fn binary_op(kind: Binary, dest: Zmm, left: Zmm, right: Zmm) -> HostOp {
    match kind {
        Binary::Add => HostOp::Add { dest, left, right },
        Binary::Sub => HostOp::Sub { dest, left, right },
        Binary::And => HostOp::And { dest, left, right },
        Binary::Or => HostOp::Or { dest, left, right, mask: None },
        Binary::Xor => HostOp::Xor { dest, left, right },
    }
}

/// The host instructions that copy an operand to a register: a move, or
/// for an immediate its broadcast.
pub open spec fn copy_ops(operand: AvxOperand, dest: Zmm) -> Seq<HostOp> {
    match operand {
        AvxOperand::Zmm(src) => seq![HostOp::Move { dest, src }],
        AvxOperand::Immediate(value) => seq![
            HostOp::LoadEsi { value },
            HostOp::Broadcast { dest, mask: None },
        ],
    }
}

/// The host instructions that set one flag in the lanes where a register
/// compares with zero as given: a scratch register is cleared, the compare
/// writes the opmask, and under it the flag's mask is broadcast to a second
/// scratch register and merged into the flags.
pub open spec fn flag_ops(value: Zmm, flag: EFlags, op: CmpOp, index: int) -> Seq<HostOp> {
    let zero = scratch(index);
    let tmp = scratch(index + 1);
    seq![
        HostOp::Xor { dest: zero, left: zero, right: zero },
        HostOp::Compare { k: Zmm(FLAG_MASK), left: value, right: zero, op, mask: None },
        HostOp::LoadEsi { value: flag.spec_mask() as i16 },
        HostOp::Broadcast { dest: tmp, mask: Some(K(FLAG_MASK)) },
        HostOp::Or {
            dest: Zmm(FLAGS_ZMM),
            left: Zmm(FLAGS_ZMM),
            right: tmp,
            mask: Some(K(FLAG_MASK)),
        },
    ]
}

/// The compare of a register with the zero register into the opmask of
/// flag synthesis. The first of a run of compares writes the opmask as it
/// finds; each further one leaves set only what was set and holds too.
pub open spec fn test_op(value: Zmm, zero: Zmm, op: CmpOp, first: bool) -> HostOp {
    HostOp::Compare {
        k: Zmm(FLAG_MASK),
        left: value,
        right: zero,
        op,
        mask: if first {
            None
        } else {
            Some(K(FLAG_MASK))
        },
    }
}

/// The host instructions that set a flag in the lanes that the opmask
/// selects: a scratch register is cleared, the flag's mask is broadcast to it
/// under the opmask, and the register is merged into the flags. The merge
/// itself is written without an opmask, so that it does not rest on how the
/// host parts a register under the opmask of an or.
pub open spec fn mark_ops(flag: EFlags, tmp: Zmm) -> Seq<HostOp> {
    seq![
        HostOp::Xor { dest: tmp, left: tmp, right: tmp },
        HostOp::LoadEsi { value: flag.spec_mask() as i16 },
        HostOp::Broadcast { dest: tmp, mask: Some(K(FLAG_MASK)) },
        HostOp::Or { dest: Zmm(FLAGS_ZMM), left: Zmm(FLAGS_ZMM), right: tmp, mask: None },
    ]
}

/// Zero: the result equals zero.
pub open spec fn zero_ops(result: Zmm, zero: Zmm, tmp: Zmm) -> Seq<HostOp> {
    seq![test_op(result, zero, CmpOp::Equal, true)] + mark_ops(EFlags::Zero, tmp)
}

/// Sign: the result is below zero.
pub open spec fn sign_ops(result: Zmm, zero: Zmm, tmp: Zmm) -> Seq<HostOp> {
    seq![test_op(result, zero, CmpOp::LessThan, true)] + mark_ops(EFlags::Sign, tmp)
}

/// Carry: neither argument is below zero, and the result is.
pub open spec fn carry_ops(result: Zmm, arg1: Zmm, arg2: Zmm, zero: Zmm, tmp: Zmm) -> Seq<HostOp> {
    seq![
        test_op(arg1, zero, CmpOp::GreaterThanEqual, true),
        test_op(arg2, zero, CmpOp::GreaterThanEqual, false),
        test_op(result, zero, CmpOp::LessThan, false),
    ] + mark_ops(EFlags::Carry, tmp)
}

/// Overflow: both arguments are below zero, and the result is not.
pub open spec fn overflow_ops(result: Zmm, arg1: Zmm, arg2: Zmm, zero: Zmm, tmp: Zmm) -> Seq<
    HostOp,
> {
    seq![
        test_op(arg1, zero, CmpOp::LessThan, true),
        test_op(arg2, zero, CmpOp::LessThan, false),
        test_op(result, zero, CmpOp::GreaterThanEqual, false),
    ] + mark_ops(EFlags::Overflow, tmp)
}

/// Auxiliary carry: bit 7 is clear in both arguments and set in the
/// result. A shift by eight brings bit 7 to the place of the sign.
pub open spec fn auxiliary_ops(result: Zmm, arg1: Zmm, arg2: Zmm, zero: Zmm, tmp: Zmm) -> Seq<
    HostOp,
> {
    seq![
        HostOp::ShiftLeft { dest: tmp, src: arg1, count: 8 },
        test_op(tmp, zero, CmpOp::GreaterThanEqual, true),
        HostOp::ShiftLeft { dest: tmp, src: arg2, count: 8 },
        test_op(tmp, zero, CmpOp::GreaterThanEqual, false),
        HostOp::ShiftLeft { dest: tmp, src: result, count: 8 },
        test_op(tmp, zero, CmpOp::LessThan, false),
    ] + mark_ops(EFlags::Auxillary, tmp)
}

/// Parity: the low byte of the result has an even number of bits set. The
/// low byte is shifted to the high byte and folded onto its top bit, which is
/// then set where the number is odd; the zero register serves the folding and
/// is cleared again.
pub open spec fn parity_ops(result: Zmm, zero: Zmm, tmp: Zmm) -> Seq<HostOp> {
    seq![
        HostOp::ShiftLeft { dest: tmp, src: result, count: 8 },
        HostOp::ShiftLeft { dest: zero, src: tmp, count: 4 },
        HostOp::Xor { dest: tmp, left: tmp, right: zero },
        HostOp::ShiftLeft { dest: zero, src: tmp, count: 2 },
        HostOp::Xor { dest: tmp, left: tmp, right: zero },
        HostOp::ShiftLeft { dest: zero, src: tmp, count: 1 },
        HostOp::Xor { dest: tmp, left: tmp, right: zero },
        HostOp::Xor { dest: zero, left: zero, right: zero },
        test_op(tmp, zero, CmpOp::GreaterThanEqual, true),
    ] + mark_ops(EFlags::Parity, tmp)
}

/// The host instructions that clear the flags and a zero register.
pub open spec fn clear_ops(zero: Zmm) -> Seq<HostOp> {
    seq![
        HostOp::Xor { dest: Zmm(FLAGS_ZMM), left: Zmm(FLAGS_ZMM), right: Zmm(FLAGS_ZMM) },
        HostOp::Xor { dest: zero, left: zero, right: zero },
    ]
}

/// The host instructions that set the flags from a result and the two
/// arguments that it was computed from: the flags are cleared, then each of
/// the six flags is set in the lanes where it holds. Two scratch registers
/// serve as the zero register and for the masks.
pub open spec fn status_ops(result: Zmm, arg1: Zmm, arg2: Zmm, zero: Zmm, tmp: Zmm) -> Seq<
    HostOp,
> {
    clear_ops(zero) + zero_ops(result, zero, tmp) + sign_ops(result, zero, tmp) + carry_ops(
        result,
        arg1,
        arg2,
        zero,
        tmp,
    ) + overflow_ops(result, arg1, arg2, zero, tmp) + auxiliary_ops(
        result,
        arg1,
        arg2,
        zero,
        tmp,
    ) + parity_ops(result, zero, tmp)
}

/// The host instructions that an instruction of the intermediate language
/// is lowered to, with the ring of scratch registers at the given position.
/// An instruction that sets the flags takes all four scratch registers, in the
/// order of the ring from that position on, so that the ring is where it was
/// once the instruction is lowered. It copies its second operand to the first
/// of them and its first operand to the second, so that both outlast the
/// operation; the third and fourth serve the flags. A comparison keeps the
/// difference in the second scratch register.
pub open spec fn lowering(il: JitIL, index: int) -> Seq<HostOp> {
    let s0 = scratch(index);
    let s1 = scratch(index + 1);
    let s2 = scratch(index + 2);
    let s3 = scratch(index + 3);
    match il {
        JitIL::Mov { dest, src } => copy_ops(src, dest),
        JitIL::Cmp { k, left, right, op } => copy_ops(left, s0) + copy_ops(right, s1) + seq![
            HostOp::Compare { k, left: s0, right: s1, op, mask: None },
        ],
        JitIL::Compare { left, right } => copy_ops(right, s0) + seq![
            HostOp::Sub { dest: s1, left, right: s0 },
        ] + status_ops(s1, left, s0, s2, s3),
        _ => {
            let (kind, dest, op1, op2) = il.binary()->Some_0;
            copy_ops(op2, s0) + seq![
                HostOp::Move { dest: s1, src: op1 },
                binary_op(kind, dest, s1, s0),
            ] + status_ops(dest, s1, s0, s2, s3)
        },
    }
}

/// Number of bytes of a sequence of host instructions.
pub open spec fn size_all(ops: Seq<HostOp>) -> nat
    decreases ops.len(),
{
    if ops.len() == 0 {
        0
    } else {
        size_all(ops.drop_last()) + encode_len(ops.last())
    }
}

/// The bytes of a sequence of host instructions are as many as `size_all` says.
pub proof fn lemma_size_all(ops: Seq<HostOp>)
    ensures
        encode_all(ops).len() == size_all(ops),
    decreases ops.len(),
{
    if ops.len() > 0 {
        lemma_size_all(ops.drop_last());
        lemma_encode_len(ops.last());
    }
}

/// A sequence with one more instruction has the bytes of the instruction more.
proof fn lemma_size_push(ops: Seq<HostOp>, op: HostOp)
    ensures
        size_all(ops.push(op)) == size_all(ops) + encode_len(op),
{
    assert(ops.push(op).drop_last() =~= ops);
}

/// Two sequences, one behind the other, have the bytes of both.
proof fn lemma_size_concat(first: Seq<HostOp>, second: Seq<HostOp>)
    ensures
        size_all(first + second) == size_all(first) + size_all(second),
    decreases second.len(),
{
    if second.len() == 0 {
        assert(first + second =~= first);
    } else {
        lemma_size_concat(first, second.drop_last());
        assert((first + second).drop_last() =~= first + second.drop_last());
        assert((first + second).last() == second.last());
    }
}

/// The bytes of up to three instructions.
proof fn lemma_size_few(a: HostOp, b: HostOp, c: HostOp)
    ensures
        size_all(seq![a]) == encode_len(a),
        size_all(seq![a, b]) == encode_len(a) + encode_len(b),
        size_all(seq![a, b, c]) == encode_len(a) + encode_len(b) + encode_len(c),
{
    let none = Seq::<HostOp>::empty();
    lemma_size_push(none, a);
    lemma_size_push(none.push(a), b);
    lemma_size_push(none.push(a).push(b), c);
    assert(none.push(a) =~= seq![a]);
    assert(none.push(a).push(b) =~= seq![a, b]);
    assert(none.push(a).push(b).push(c) =~= seq![a, b, c]);
}

/// Number of bytes of the host instructions that copy an operand.
pub open spec fn copy_size(operand: AvxOperand) -> nat {
    match operand {
        AvxOperand::Zmm(_) => 6,
        AvxOperand::Immediate(_) => 11,
    }
}

/// Number of bytes of the host instructions that set the flags.
pub const STATUS_SIZE: usize = 307;

/// Number of bytes of the host instructions that an instruction of the
/// intermediate language is lowered to.
pub open spec fn lowering_size(il: JitIL) -> nat {
    match il {
        JitIL::Mov { dest, src } => copy_size(src),
        JitIL::Cmp { k, left, right, op } => copy_size(left) + copy_size(right) + 7,
        JitIL::Compare { left, right } => copy_size(right) + 6 + STATUS_SIZE as nat,
        _ => copy_size(il.binary()->Some_0.3) + 12 + STATUS_SIZE as nat,
    }
}

/// The host instructions that set a flag under the opmask take 23 bytes.
proof fn lemma_mark_size(flag: EFlags, tmp: Zmm)
    ensures
        size_all(mark_ops(flag, tmp)) == 23,
{
    let ops = mark_ops(flag, tmp);
    lemma_size_few(ops[0], ops[1], ops[2]);
    lemma_size_push(seq![ops[0], ops[1], ops[2]], ops[3]);
    assert(ops =~= seq![ops[0], ops[1], ops[2]].push(ops[3]));
}

/// The host instructions that copy an operand take as many bytes as
/// `copy_size` says.
proof fn lemma_copy_size(operand: AvxOperand, dest: Zmm)
    ensures
        size_all(copy_ops(operand, dest)) == copy_size(operand),
{
    let ops = copy_ops(operand, dest);
    lemma_size_few(ops[0], ops[0], ops[0]);
    if operand is Immediate {
        lemma_size_few(ops[0], ops[1], ops[1]);
        assert(ops =~= seq![ops[0], ops[1]]);
    } else {
        assert(ops =~= seq![ops[0]]);
    }
}

/// The host instructions of the auxiliary carry take 65 bytes.
proof fn lemma_auxiliary_size(result: Zmm, arg1: Zmm, arg2: Zmm, zero: Zmm, tmp: Zmm)
    ensures
        size_all(auxiliary_ops(result, arg1, arg2, zero, tmp)) == 65,
{
    let aux = auxiliary_ops(result, arg1, arg2, zero, tmp);
    let a3 = seq![aux[0], aux[1], aux[2]];
    let a6 = a3.push(aux[3]).push(aux[4]).push(aux[5]);
    lemma_size_few(aux[0], aux[1], aux[2]);
    lemma_size_push(a3, aux[3]);
    lemma_size_push(a3.push(aux[3]), aux[4]);
    lemma_size_push(a3.push(aux[3]).push(aux[4]), aux[5]);
    lemma_mark_size(EFlags::Auxillary, tmp);
    lemma_size_concat(a6, mark_ops(EFlags::Auxillary, tmp));
    assert(aux =~= a6 + mark_ops(EFlags::Auxillary, tmp));
}

/// The host instructions of the parity take 82 bytes.
proof fn lemma_parity_size(result: Zmm, zero: Zmm, tmp: Zmm)
    ensures
        size_all(parity_ops(result, zero, tmp)) == 82,
{
    let par = parity_ops(result, zero, tmp);
    let p3 = seq![par[0], par[1], par[2]];
    let p6 = p3.push(par[3]).push(par[4]).push(par[5]);
    let p9 = p6.push(par[6]).push(par[7]).push(par[8]);
    lemma_size_few(par[0], par[1], par[2]);
    lemma_size_push(p3, par[3]);
    lemma_size_push(p3.push(par[3]), par[4]);
    lemma_size_push(p3.push(par[3]).push(par[4]), par[5]);
    lemma_size_push(p6, par[6]);
    lemma_size_push(p6.push(par[6]), par[7]);
    lemma_size_push(p6.push(par[6]).push(par[7]), par[8]);
    lemma_mark_size(EFlags::Parity, tmp);
    lemma_size_concat(p9, mark_ops(EFlags::Parity, tmp));
    assert(par =~= p9 + mark_ops(EFlags::Parity, tmp));
}

/// The host instructions of the zero, sign, carry and overflow flags take
/// 30, 30, 44 and 44 bytes, and those that clear the flags 12.
proof fn lemma_test_sizes(result: Zmm, arg1: Zmm, arg2: Zmm, zero: Zmm, tmp: Zmm)
    ensures
        size_all(clear_ops(zero)) == 12,
        size_all(zero_ops(result, zero, tmp)) == 30,
        size_all(sign_ops(result, zero, tmp)) == 30,
        size_all(carry_ops(result, arg1, arg2, zero, tmp)) == 44,
        size_all(overflow_ops(result, arg1, arg2, zero, tmp)) == 44,
{
    let p0 = clear_ops(zero);
    let p1 = zero_ops(result, zero, tmp);
    let p2 = sign_ops(result, zero, tmp);
    let p3 = carry_ops(result, arg1, arg2, zero, tmp);
    let p4 = overflow_ops(result, arg1, arg2, zero, tmp);
    lemma_size_few(p0[0], p0[1], p0[1]);
    assert(p0 =~= seq![p0[0], p0[1]]);
    lemma_size_few(p1[0], p1[0], p1[0]);
    lemma_size_few(p2[0], p2[0], p2[0]);
    lemma_size_few(p3[0], p3[1], p3[2]);
    lemma_size_few(p4[0], p4[1], p4[2]);
    lemma_mark_size(EFlags::Zero, tmp);
    lemma_mark_size(EFlags::Sign, tmp);
    lemma_mark_size(EFlags::Carry, tmp);
    lemma_mark_size(EFlags::Overflow, tmp);
    lemma_size_concat(seq![p1[0]], mark_ops(EFlags::Zero, tmp));
    lemma_size_concat(seq![p2[0]], mark_ops(EFlags::Sign, tmp));
    lemma_size_concat(seq![p3[0], p3[1], p3[2]], mark_ops(EFlags::Carry, tmp));
    lemma_size_concat(seq![p4[0], p4[1], p4[2]], mark_ops(EFlags::Overflow, tmp));
    assert(p1 =~= seq![p1[0]] + mark_ops(EFlags::Zero, tmp));
    assert(p2 =~= seq![p2[0]] + mark_ops(EFlags::Sign, tmp));
    assert(p3 =~= seq![p3[0], p3[1], p3[2]] + mark_ops(EFlags::Carry, tmp));
    assert(p4 =~= seq![p4[0], p4[1], p4[2]] + mark_ops(EFlags::Overflow, tmp));
}

/// The host instructions that set the flags take 307 bytes.
proof fn lemma_status_size(result: Zmm, arg1: Zmm, arg2: Zmm, zero: Zmm, tmp: Zmm)
    ensures
        size_all(status_ops(result, arg1, arg2, zero, tmp)) == STATUS_SIZE,
{
    let p0 = clear_ops(zero);
    let p1 = zero_ops(result, zero, tmp);
    let p2 = sign_ops(result, zero, tmp);
    let p3 = carry_ops(result, arg1, arg2, zero, tmp);
    let p4 = overflow_ops(result, arg1, arg2, zero, tmp);
    let p5 = auxiliary_ops(result, arg1, arg2, zero, tmp);
    let p6 = parity_ops(result, zero, tmp);
    lemma_test_sizes(result, arg1, arg2, zero, tmp);
    lemma_auxiliary_size(result, arg1, arg2, zero, tmp);
    lemma_parity_size(result, zero, tmp);
    lemma_size_concat(p0, p1);
    lemma_size_concat(p0 + p1, p2);
    lemma_size_concat(p0 + p1 + p2, p3);
    lemma_size_concat(p0 + p1 + p2 + p3, p4);
    lemma_size_concat(p0 + p1 + p2 + p3 + p4, p5);
    lemma_size_concat(p0 + p1 + p2 + p3 + p4 + p5, p6);
}

/// The host instructions of a lowering take as many bytes as
/// `lowering_size` says, wherever the ring of scratch registers stands: never
/// more than 330.
pub proof fn lemma_lowering_size(il: JitIL, index: int)
    ensures
        encode_all(lowering(il, index)).len() == lowering_size(il),
        lowering_size(il) <= 330,
{
    let s0 = scratch(index);
    let s1 = scratch(index + 1);
    let s2 = scratch(index + 2);
    let s3 = scratch(index + 3);
    lemma_size_all(lowering(il, index));
    match il {
        JitIL::Mov { dest, src } => {
            lemma_copy_size(src, dest);
        },
        JitIL::Cmp { k, left, right, op } => {
            let last = HostOp::Compare { k, left: s0, right: s1, op, mask: None };
            lemma_copy_size(left, s0);
            lemma_copy_size(right, s1);
            lemma_size_few(last, last, last);
            lemma_size_concat(copy_ops(left, s0), copy_ops(right, s1));
            lemma_size_concat(copy_ops(left, s0) + copy_ops(right, s1), seq![last]);
        },
        JitIL::Compare { left, right } => {
            let op = HostOp::Sub { dest: s1, left, right: s0 };
            lemma_copy_size(right, s0);
            lemma_size_few(op, op, op);
            lemma_status_size(s1, left, s0, s2, s3);
            lemma_size_concat(copy_ops(right, s0), seq![op]);
            lemma_size_concat(copy_ops(right, s0) + seq![op], status_ops(s1, left, s0, s2, s3));
        },
        _ => {
            let (kind, dest, op1, op2) = il.binary()->Some_0;
            let save = HostOp::Move { dest: s1, src: op1 };
            let op = binary_op(kind, dest, s1, s0);
            lemma_copy_size(op2, s0);
            lemma_size_few(save, op, op);
            lemma_status_size(dest, s1, s0, s2, s3);
            lemma_size_concat(copy_ops(op2, s0), seq![save, op]);
            lemma_size_concat(
                copy_ops(op2, s0) + seq![save, op],
                status_ops(dest, s1, s0, s2, s3),
            );
        },
    }
}

/// Append host instructions
fn append(ops: &mut Vec<HostOp>, more: Vec<HostOp>)
    ensures
        final(ops)@ == old(ops)@ + more@,
{
    let mut i: usize = 0;
    assert(ops@ + more@.subrange(0, 0) =~= ops@);
    while i < more.len()
        invariant
            i <= more@.len(),
            ops@ == old(ops)@ + more@.subrange(0, i as int),
        decreases more@.len() - i,
    {
        ops.push(more[i]);
        i += 1;
        assert(ops@ =~= old(ops)@ + more@.subrange(0, i as int));
    }
    assert(more@.subrange(0, i as int) =~= more@);
}

/// The host instructions that copy an operand to a register
fn copy(operand: AvxOperand, dest: Zmm) -> (res: Vec<HostOp>)
    ensures
        res@ == copy_ops(operand, dest),
{
    match operand {
        AvxOperand::Zmm(src) => vec![HostOp::Move { dest, src }],
        AvxOperand::Immediate(value) => vec![
            HostOp::LoadEsi { value },
            HostOp::Broadcast { dest, mask: None },
        ],
    }
}

/// The compare of a register with the zero register into the opmask
fn test(value: Zmm, zero: Zmm, op: CmpOp, first: bool) -> (res: HostOp)
    ensures
        res == test_op(value, zero, op, first),
{
    let mask = if first {
        None
    } else {
        Some(K(FLAG_MASK))
    };
    HostOp::Compare { k: Zmm(FLAG_MASK), left: value, right: zero, op, mask }
}

/// The immediate that holds the mask of a flag
fn flag_value(flag: EFlags) -> (res: i16)
    ensures
        res == flag.spec_mask() as i16,
        res == flag.spec_mask(),
{
    match flag {
        EFlags::Carry => 0x0001,
        EFlags::Parity => 0x0004,
        EFlags::Auxillary => 0x0010,
        EFlags::Zero => 0x0040,
        EFlags::Sign => 0x0080,
        EFlags::Overflow => 0x0800,
    }
}

/// Append the host instructions that set a flag under the opmask
fn mark(ops: &mut Vec<HostOp>, flag: EFlags, tmp: Zmm)
    ensures
        final(ops)@ == old(ops)@ + mark_ops(flag, tmp),
{
    let flags = Zmm(FLAGS_ZMM);
    append(
        ops,
        vec![
            HostOp::Xor { dest: tmp, left: tmp, right: tmp },
            HostOp::LoadEsi { value: flag_value(flag) },
            HostOp::Broadcast { dest: tmp, mask: Some(K(FLAG_MASK)) },
            HostOp::Or { dest: flags, left: flags, right: tmp, mask: None },
        ],
    );
}

/// The host instructions that set the flags from a result and its arguments
pub fn status(result: Zmm, arg1: Zmm, arg2: Zmm, zero: Zmm, tmp: Zmm) -> (res: Vec<HostOp>)
    ensures
        res@ == status_ops(result, arg1, arg2, zero, tmp),
        res@.len() == 49,
{
    let flags = Zmm(FLAGS_ZMM);
    let ge = CmpOp::GreaterThanEqual;
    let lt = CmpOp::LessThan;
    let mut ops: Vec<HostOp> = vec![
        HostOp::Xor { dest: flags, left: flags, right: flags },
        HostOp::Xor { dest: zero, left: zero, right: zero },
    ];
    assert(ops@ =~= clear_ops(zero));
    let ghost done = ops@;
    append(&mut ops, vec![test(result, zero, CmpOp::Equal, true)]);
    mark(&mut ops, EFlags::Zero, tmp);
    assert(ops@ =~= done + zero_ops(result, zero, tmp));
    let ghost done = ops@;
    append(&mut ops, vec![test(result, zero, lt, true)]);
    mark(&mut ops, EFlags::Sign, tmp);
    assert(ops@ =~= done + sign_ops(result, zero, tmp));
    let ghost done = ops@;
    append(
        &mut ops,
        vec![test(arg1, zero, ge, true), test(arg2, zero, ge, false), test(result, zero, lt, false)],
    );
    mark(&mut ops, EFlags::Carry, tmp);
    assert(ops@ =~= done + carry_ops(result, arg1, arg2, zero, tmp));
    let ghost done = ops@;
    append(
        &mut ops,
        vec![test(arg1, zero, lt, true), test(arg2, zero, lt, false), test(result, zero, ge, false)],
    );
    mark(&mut ops, EFlags::Overflow, tmp);
    assert(ops@ =~= done + overflow_ops(result, arg1, arg2, zero, tmp));
    let ghost done = ops@;
    append(
        &mut ops,
        vec![
            HostOp::ShiftLeft { dest: tmp, src: arg1, count: 8 },
            test(tmp, zero, ge, true),
            HostOp::ShiftLeft { dest: tmp, src: arg2, count: 8 },
            test(tmp, zero, ge, false),
            HostOp::ShiftLeft { dest: tmp, src: result, count: 8 },
            test(tmp, zero, lt, false),
        ],
    );
    mark(&mut ops, EFlags::Auxillary, tmp);
    assert(ops@ =~= done + auxiliary_ops(result, arg1, arg2, zero, tmp));
    let ghost done = ops@;
    append(
        &mut ops,
        vec![
            HostOp::ShiftLeft { dest: tmp, src: result, count: 8 },
            HostOp::ShiftLeft { dest: zero, src: tmp, count: 4 },
            HostOp::Xor { dest: tmp, left: tmp, right: zero },
            HostOp::ShiftLeft { dest: zero, src: tmp, count: 2 },
            HostOp::Xor { dest: tmp, left: tmp, right: zero },
            HostOp::ShiftLeft { dest: zero, src: tmp, count: 1 },
            HostOp::Xor { dest: tmp, left: tmp, right: zero },
            HostOp::Xor { dest: zero, left: zero, right: zero },
            test(tmp, zero, ge, true),
        ],
    );
    mark(&mut ops, EFlags::Parity, tmp);
    assert(ops@ =~= done + parity_ops(result, zero, tmp));
    ops
}

/// The host instruction of an operation on two registers
fn binary_host(kind: Binary, dest: Zmm, left: Zmm, right: Zmm) -> (res: HostOp)
    ensures
        res == binary_op(kind, dest, left, right),
{
    match kind {
        Binary::Add => HostOp::Add { dest, left, right },
        Binary::Sub => HostOp::Sub { dest, left, right },
        Binary::And => HostOp::And { dest, left, right },
        Binary::Or => HostOp::Or { dest, left, right, mask: None },
        Binary::Xor => HostOp::Xor { dest, left, right },
    }
}

/// The host instructions that an instruction of the intermediate language
/// is lowered to, with the ring of scratch registers at the given position
pub fn lower(il: &JitIL, index: usize) -> (res: Vec<HostOp>)
    requires
        index < 4,
    ensures
        res@ == lowering(*il, index as int),
        res@.len() <= 56,
{
    let s0 = scratch_reg(index);
    let s1 = scratch_reg(index + 1);
    let s2 = scratch_reg(index + 2);
    let s3 = scratch_reg(index + 3);
    match il {
        JitIL::Mov { dest, src } => copy(*src, *dest),
        JitIL::Cmp { k, left, right, op } => {
            let mut ops = copy(*left, s0);
            append(&mut ops, copy(*right, s1));
            append(
                &mut ops,
                vec![HostOp::Compare { k: *k, left: s0, right: s1, op: *op, mask: None }],
            );
            ops
        },
        JitIL::Compare { left, right } => {
            let mut ops = copy(*right, s0);
            append(&mut ops, vec![HostOp::Sub { dest: s1, left: *left, right: s0 }]);
            append(&mut ops, status(s1, *left, s0, s2, s3));
            ops
        },
        _ => {
            match il.as_binary() {
                Some((kind, dest, op1, op2)) => {
                    let mut ops = copy(op2, s0);
                    append(
                        &mut ops,
                        vec![HostOp::Move { dest: s1, src: op1 }, binary_host(kind, dest, s1, s0)],
                    );
                    append(&mut ops, status(dest, s1, s0, s2, s3));
                    ops
                },
                None => Vec::new(),
            }
        },
    }
}

} // verus!
