//! What the host instructions of the translator do to one lane of the vector
//! registers, and how that compares with the executor.
//!
//! A lane is one of the 32 positions of 16 bits in the vector registers: it
//! holds the registers of one emulated core. The host instructions treat
//! every lane alike and no lane reads another, so one lane describes them all.

use crate::bits::to_unsigned;
use crate::emu::{
    arithmetic, auxiliary_of, carry_of, ones, overflow_of, parity_of, plain_value, read_register,
    status_flags, step, wrapped_difference, wrapped_sum, write_register, Machine,
};
use crate::evex::{AvxOperand, Zmm, K};
use crate::flags::EFlags;
use crate::il::{
    auxiliary_ops, binary_op, carry_ops, clear_ops, copy_ops, flag_ops, il_of, lowering, mark_ops,
    operand_avx, overflow_ops, parity_ops, scratch, sign_ops, status_ops, test_op, zero_ops,
    zmm_of, Binary, CmpOp, HostOp, JitIL, FLAGS_ZMM, FLAG_MASK,
};
use crate::instruction::{Instruction, Operand};
use crate::register::Register;
use vstd::prelude::*;

verus! {

/// One lane of the host's registers.
pub struct Lane {
    /// The lane's 16 bits of each of the 32 vector registers
    pub zmm: Seq<u16>,
    /// The lane's bit of each of the 8 opmask registers
    pub k: Seq<bool>,
    /// The low 16 bits of the general-purpose register ESI, which all lanes share
    pub esi: u16,
}

impl Lane {
    /// The lane has 32 vector registers and 8 opmask registers.
    pub open spec fn wf(self) -> bool {
        self.zmm.len() == 32 && self.k.len() == 8
    }

    /// The lane's 16 bits of a vector register.
    pub open spec fn get(self, reg: Zmm) -> u16 {
        self.zmm[position(reg)]
    }

    /// The lane with the 16 bits of a vector register replaced.
    pub open spec fn set(self, reg: Zmm, value: u16) -> Lane {
        Lane { zmm: self.zmm.update(position(reg), value), ..self }
    }

    /// The registers of the emulated core that the lane holds: the ten
    /// registers stand in the vector registers 1 to 10.
    pub open spec fn regs(self) -> Seq<u16> {
        self.zmm.subrange(1, 11)
    }
}

/// The vector register that an operand of a host instruction names: the
/// encoding holds the low five bits of its number.
pub open spec fn position(reg: Zmm) -> int {
    reg.0 as int % 32
}

/// Whether an instruction writes to the lane under the given opmask. The
/// opmask register 0 stands for no mask.
pub open spec fn selected(lane: Lane, mask: Option<K>) -> bool {
    match mask {
        None => true,
        Some(k) => k.0 % 8 == 0 || lane.k[k.0 as int % 8],
    }
}

/// The value of a word read as a signed number.
pub open spec fn signed(value: u16) -> int {
    if value < 0x8000 {
        value as int
    } else {
        value - 0x10000
    }
}

/// The outcome of a comparison of two words as signed numbers.
pub open spec fn compare(op: CmpOp, left: u16, right: u16) -> bool {
    match op {
        CmpOp::Equal => left == right,
        CmpOp::LessThan => signed(left) < signed(right),
        CmpOp::LessThanEqual => signed(left) <= signed(right),
        CmpOp::False => false,
        CmpOp::NotEqual => left != right,
        CmpOp::GreaterThanEqual => signed(left) >= signed(right),
        CmpOp::GreaterThan => signed(left) > signed(right),
        CmpOp::True => true,
    }
}

/// A word shifted to the left by a number of bits: the bits that leave
/// the word are lost, and a shift by sixteen or more leaves nothing.
pub open spec fn shifted(value: u16, count: u8) -> u16 {
    if count < 16 {
        value << (count as u16)
    } else {
        0
    }
}

/// The lane behind one host instruction.
pub open spec fn lane_step(lane: Lane, op: HostOp) -> Lane {
    match op {
        HostOp::LoadEsi { value } => Lane { esi: to_unsigned(value), ..lane },
        HostOp::Broadcast { dest, mask } => if selected(lane, mask) {
            lane.set(dest, lane.esi)
        } else {
            lane
        },
        HostOp::Move { dest, src } => lane.set(dest, lane.get(src)),
        HostOp::Sub { dest, left, right } => lane.set(
            dest,
            wrapped_difference(lane.get(left), lane.get(right)),
        ),
        HostOp::Add { dest, left, right } => lane.set(
            dest,
            wrapped_sum(lane.get(left), lane.get(right)),
        ),
        HostOp::Or { dest, left, right, mask } => if selected(lane, mask) {
            lane.set(dest, lane.get(left) | lane.get(right))
        } else {
            lane
        },
        HostOp::Xor { dest, left, right } => lane.set(dest, lane.get(left) ^ lane.get(right)),
        HostOp::And { dest, left, right } => lane.set(dest, lane.get(left) & lane.get(right)),
        HostOp::ShiftLeft { dest, src, count } => lane.set(dest, shifted(lane.get(src), count)),
        HostOp::Compare { k, left, right, op, mask } => Lane {
            k: lane.k.update(
                k.0 as int % 8,
                selected(lane, mask) && compare(op, lane.get(left), lane.get(right)),
            ),
            ..lane
        },
        HostOp::Ret => lane,
    }
}

/// The lane behind a sequence of host instructions.
pub open spec fn lane_run(lane: Lane, ops: Seq<HostOp>) -> Lane
    decreases ops.len(),
{
    if ops.len() == 0 {
        lane
    } else {
        lane_step(lane_run(lane, ops.drop_last()), ops.last())
    }
}

/// A run of two sequences, one behind the other, is a run of the second
/// from where the first ends.
pub proof fn lemma_run_concat(lane: Lane, first: Seq<HostOp>, second: Seq<HostOp>)
    ensures
        lane_run(lane, first + second) == lane_run(lane_run(lane, first), second),
    decreases second.len(),
{
    if second.len() == 0 {
        assert(first + second =~= first);
    } else {
        lemma_run_concat(lane, first, second.drop_last());
        assert((first + second).drop_last() =~= first + second.drop_last());
        assert((first + second).last() == second.last());
    }
}

/// A run with one instruction more is a step from where the run ends.
pub proof fn lemma_run_push(lane: Lane, ops: Seq<HostOp>, op: HostOp)
    ensures
        lane_run(lane, ops.push(op)) == lane_step(lane_run(lane, ops), op),
{
    assert(ops.push(op).drop_last() =~= ops);
}

/// A run of one instruction is its step.
pub proof fn lemma_run_one(lane: Lane, op: HostOp)
    ensures
        lane_run(lane, seq![op]) == lane_step(lane, op),
{
    assert(seq![op].drop_last() =~= Seq::<HostOp>::empty());
    assert(lane_run(lane, Seq::<HostOp>::empty()) == lane);
}

/// A run of two instructions is their steps in turn.
pub proof fn lemma_run_two(lane: Lane, first: HostOp, second: HostOp)
    ensures
        lane_run(lane, seq![first, second]) == lane_step(lane_step(lane, first), second),
{
    lemma_run_one(lane, first);
    assert(seq![first, second].drop_last() =~= seq![first]);
}

/// A run of three instructions is their steps in turn.
pub proof fn lemma_run_three(lane: Lane, first: HostOp, second: HostOp, third: HostOp)
    ensures
        lane_run(lane, seq![first, second, third]) == lane_step(
            lane_step(lane_step(lane, first), second),
            third,
        ),
{
    lemma_run_two(lane, first, second);
    assert(seq![first, second, third].drop_last() =~= seq![first, second]);
}

/// The value of an operand of the intermediate language in a lane.
pub open spec fn operand_value(lane: Lane, operand: AvxOperand) -> u16 {
    match operand {
        AvxOperand::Zmm(zmm) => lane.get(zmm),
        AvxOperand::Immediate(value) => to_unsigned(value),
    }
}

/// The copy of an operand to a register leaves the operand's value there,
/// and changes no other vector register and no opmask.
pub proof fn lemma_copy(lane: Lane, operand: AvxOperand, dest: Zmm)
    requires
        lane.wf(),
    ensures
        lane_run(lane, copy_ops(operand, dest)).zmm == lane.zmm.update(
            position(dest),
            operand_value(lane, operand),
        ),
        lane_run(lane, copy_ops(operand, dest)).k == lane.k,
        lane_run(lane, copy_ops(operand, dest)).wf(),
{
    match operand {
        AvxOperand::Zmm(src) => {
            lemma_run_one(lane, HostOp::Move { dest, src });
        },
        AvxOperand::Immediate(value) => {
            lemma_run_two(lane, HostOp::LoadEsi { value }, HostOp::Broadcast { dest, mask: None });
        },
    }
}

/// The bits of a word and of itself cancel, and a clear word adds nothing.
proof fn lemma_bits(x: u16)
    ensures
        x ^ x == 0,
        0u16 | x == x,
        x | 0u16 == x,
{
    assert(x ^ x == 0) by (bit_vector);
    assert(0u16 | x == x) by (bit_vector);
    assert(x | 0u16 == x) by (bit_vector);
}

/// The instructions that set one flag merge the flag's mask into the flags
/// where the register compares with zero as given. They clear one scratch
/// register and write the opmask, ESI and in the selected lanes a second
/// scratch register.
pub proof fn lemma_flag_ops(lane: Lane, value: Zmm, flag: EFlags, op: CmpOp, index: int)
    requires
        lane.wf(),
        0 <= index < 4,
        flag == EFlags::Zero || flag == EFlags::Sign,
        position(value) != position(scratch(index)),
    ensures
        ({
            let after = lane_run(lane, flag_ops(value, flag, op, index));
            let holds = compare(op, lane.get(value), 0);
            &&& after.wf()
            &&& after.zmm[FLAGS_ZMM as int] == (if holds {
                lane.zmm[FLAGS_ZMM as int] | flag.spec_mask()
            } else {
                lane.zmm[FLAGS_ZMM as int]
            })
            &&& forall|i: int|
                0 <= i < 32 && i != FLAGS_ZMM && i != position(scratch(index)) && i != position(
                    scratch(index + 1),
                ) ==> after.zmm[i] == lane.zmm[i]
        }),
{
    let ops = flag_ops(value, flag, op, index);
    let lane1 = lane_step(lane, ops[0]);
    let lane2 = lane_step(lane1, ops[1]);
    let lane3 = lane_step(lane2, ops[2]);
    let lane4 = lane_step(lane3, ops[3]);
    let lane5 = lane_step(lane4, ops[4]);
    lemma_bits(lane.get(scratch(index)));
    lemma_run_three(lane, ops[0], ops[1], ops[2]);
    lemma_run_push(lane, seq![ops[0], ops[1], ops[2]], ops[3]);
    lemma_run_push(lane, seq![ops[0], ops[1], ops[2]].push(ops[3]), ops[4]);
    assert(ops =~= seq![ops[0], ops[1], ops[2]].push(ops[3]).push(ops[4]));
    assert(lane_run(lane, ops) == lane5);
    assert(lane1.get(scratch(index)) == 0);
    assert(lane2.k[FLAG_MASK as int] == compare(op, lane.get(value), 0));
}

/// Whether the two scratch registers of flag synthesis are two, and
/// neither is the flags register.
pub open spec fn temps(zero: Zmm, tmp: Zmm) -> bool {
    position(zero) != position(tmp) && position(zero) != FLAGS_ZMM && position(tmp) != FLAGS_ZMM
}

/// Whether a register is none of the flags register and the two scratch
/// registers of flag synthesis.
pub open spec fn apart(value: Zmm, zero: Zmm, tmp: Zmm) -> bool {
    position(value) != FLAGS_ZMM && position(value) != position(zero) && position(value)
        != position(tmp)
}

/// What a part of flag synthesis leaves alone: the zero register is zero
/// again, and every vector register but the flags and the two scratch
/// registers is as it was.
pub open spec fn framed(before: Lane, after: Lane, zero: Zmm, tmp: Zmm) -> bool {
    &&& after.wf()
    &&& after.get(zero) == 0
    &&& forall|i: int|
        0 <= i < 32 && i != FLAGS_ZMM && i != position(zero) && i != position(tmp)
            ==> after.zmm[i] == before.zmm[i]
}

/// What a part of flag synthesis does to the flags: where the condition
/// holds the flag is merged into them.
pub open spec fn marked(before: Lane, after: Lane, holds: bool, flag: EFlags) -> bool {
    after.zmm[FLAGS_ZMM as int] == (if holds {
        before.zmm[FLAGS_ZMM as int] | flag.spec_mask()
    } else {
        before.zmm[FLAGS_ZMM as int]
    })
}

/// The instructions that set a flag under the opmask merge the flag into
/// the flags where the opmask is set, and nothing where it is not.
proof fn lemma_mark(lane: Lane, flag: EFlags, zero: Zmm, tmp: Zmm)
    requires
        lane.wf(),
        temps(zero, tmp),
        lane.get(zero) == 0,
    ensures
        framed(lane, lane_run(lane, mark_ops(flag, tmp)), zero, tmp),
        marked(lane, lane_run(lane, mark_ops(flag, tmp)), lane.k[FLAG_MASK as int], flag),
{
    let ops = mark_ops(flag, tmp);
    lemma_run_three(lane, ops[0], ops[1], ops[2]);
    lemma_run_push(lane, seq![ops[0], ops[1], ops[2]], ops[3]);
    assert(ops =~= seq![ops[0], ops[1], ops[2]].push(ops[3]));
    lemma_bits(lane.get(tmp));
    lemma_bits(lane.zmm[FLAGS_ZMM as int]);
    let cleared = lane_step(lane, ops[0]);
    assert(cleared.get(tmp) == 0);
}

/// A sign compare with zero: a word is below zero where its top bit is set.
proof fn lemma_compare_zero(value: u16)
    ensures
        compare(CmpOp::LessThan, value, 0) == (value >= 0x8000),
        compare(CmpOp::GreaterThanEqual, value, 0) == (value < 0x8000),
        compare(CmpOp::Equal, value, 0) == (value == 0),
{
}

/// One compare with the zero register and the instructions that set a flag
/// merge the flag where the compare holds.
proof fn lemma_one_test(lane: Lane, value: Zmm, op: CmpOp, flag: EFlags, zero: Zmm, tmp: Zmm)
    requires
        lane.wf(),
        temps(zero, tmp),
        apart(value, zero, tmp),
        lane.get(zero) == 0,
    ensures
        framed(
            lane,
            lane_run(lane, seq![test_op(value, zero, op, true)] + mark_ops(flag, tmp)),
            zero,
            tmp,
        ),
        marked(
            lane,
            lane_run(lane, seq![test_op(value, zero, op, true)] + mark_ops(flag, tmp)),
            compare(op, lane.get(value), 0),
            flag,
        ),
{
    let test = test_op(value, zero, op, true);
    lemma_run_concat(lane, seq![test], mark_ops(flag, tmp));
    lemma_run_one(lane, test);
    lemma_mark(lane_step(lane, test), flag, zero, tmp);
}

/// Three compares with the zero register, each under the opmask of the one
/// before, and the instructions that set a flag merge the flag where all
/// three hold.
proof fn lemma_three_tests(
    lane: Lane,
    values: (Zmm, Zmm, Zmm),
    ops: (CmpOp, CmpOp, CmpOp),
    flag: EFlags,
    zero: Zmm,
    tmp: Zmm,
)
    requires
        lane.wf(),
        temps(zero, tmp),
        apart(values.0, zero, tmp),
        apart(values.1, zero, tmp),
        apart(values.2, zero, tmp),
        lane.get(zero) == 0,
    ensures
        ({
            let tests = seq![
                test_op(values.0, zero, ops.0, true),
                test_op(values.1, zero, ops.1, false),
                test_op(values.2, zero, ops.2, false),
            ];
            let after = lane_run(lane, tests + mark_ops(flag, tmp));
            &&& framed(lane, after, zero, tmp)
            &&& marked(
                lane,
                after,
                compare(ops.0, lane.get(values.0), 0) && compare(ops.1, lane.get(values.1), 0)
                    && compare(ops.2, lane.get(values.2), 0),
                flag,
            )
        }),
{
    let t0 = test_op(values.0, zero, ops.0, true);
    let t1 = test_op(values.1, zero, ops.1, false);
    let t2 = test_op(values.2, zero, ops.2, false);
    lemma_run_concat(lane, seq![t0, t1, t2], mark_ops(flag, tmp));
    lemma_run_three(lane, t0, t1, t2);
    let lane1 = lane_step(lane, t0);
    let lane2 = lane_step(lane1, t1);
    let lane3 = lane_step(lane2, t2);
    assert(lane1.k[FLAG_MASK as int] == compare(ops.0, lane.get(values.0), 0));
    assert(lane2.k[FLAG_MASK as int] == (lane1.k[FLAG_MASK as int] && compare(
        ops.1,
        lane.get(values.1),
        0,
    )));
    lemma_mark(lane3, flag, zero, tmp);
}

/// A shift by eight brings bit 7 of a word to the place of the sign.
proof fn lemma_bit7(x: u16)
    by (bit_vector)
    ensures
        ((x << 8u16) < 0x8000u16) <==> ((x / 128u16) % 2u16 == 0u16),
{
}

/// The instructions of the auxiliary carry merge the flag where bit 7 is
/// clear in both arguments and set in the result.
proof fn lemma_auxiliary(lane: Lane, result: Zmm, arg1: Zmm, arg2: Zmm, zero: Zmm, tmp: Zmm)
    requires
        lane.wf(),
        temps(zero, tmp),
        apart(result, zero, tmp),
        apart(arg1, zero, tmp),
        apart(arg2, zero, tmp),
        lane.get(zero) == 0,
    ensures
        framed(lane, lane_run(lane, auxiliary_ops(result, arg1, arg2, zero, tmp)), zero, tmp),
        marked(
            lane,
            lane_run(lane, auxiliary_ops(result, arg1, arg2, zero, tmp)),
            auxiliary_of(lane.get(result), lane.get(arg1), lane.get(arg2)),
            EFlags::Auxillary,
        ),
{
    let ge = CmpOp::GreaterThanEqual;
    let o0 = HostOp::ShiftLeft { dest: tmp, src: arg1, count: 8 };
    let o1 = test_op(tmp, zero, ge, true);
    let o2 = HostOp::ShiftLeft { dest: tmp, src: arg2, count: 8 };
    let o3 = test_op(tmp, zero, ge, false);
    let o4 = HostOp::ShiftLeft { dest: tmp, src: result, count: 8 };
    let o5 = test_op(tmp, zero, CmpOp::LessThan, false);
    let tests = seq![o0, o1, o2].push(o3).push(o4).push(o5);
    assert(auxiliary_ops(result, arg1, arg2, zero, tmp) =~= tests + mark_ops(
        EFlags::Auxillary,
        tmp,
    ));
    lemma_run_concat(lane, tests, mark_ops(EFlags::Auxillary, tmp));
    lemma_run_three(lane, o0, o1, o2);
    lemma_run_push(lane, seq![o0, o1, o2], o3);
    lemma_run_push(lane, seq![o0, o1, o2].push(o3), o4);
    lemma_run_push(lane, seq![o0, o1, o2].push(o3).push(o4), o5);
    let lane1 = lane_step(lane, o0);
    let lane2 = lane_step(lane1, o1);
    let lane3 = lane_step(lane2, o2);
    let lane4 = lane_step(lane3, o3);
    let lane5 = lane_step(lane4, o4);
    let lane6 = lane_step(lane5, o5);
    let a = lane.get(arg1);
    let b = lane.get(arg2);
    let r = lane.get(result);
    lemma_bit7(a);
    lemma_bit7(b);
    lemma_bit7(r);
    assert(lane1.get(tmp) == a << 8u16);
    assert(lane2.k[FLAG_MASK as int] == ((a / 128) % 2 == 0));
    assert(lane3.get(tmp) == b << 8u16);
    assert(lane4.k[FLAG_MASK as int] == ((a / 128) % 2 == 0 && (b / 128) % 2 == 0));
    assert(lane5.get(tmp) == r << 8u16);
    assert(lane6.k[FLAG_MASK as int] == auxiliary_of(r, a, b));
    lemma_mark(lane6, EFlags::Auxillary, zero, tmp);
}

/// The low byte of a word, shifted to the high byte and folded onto the
/// top bit by three shifts.
pub open spec fn folded(value: u16) -> u16 {
    let m0 = value << 8u16;
    let m1 = m0 ^ (m0 << 4u16);
    let m2 = m1 ^ (m1 << 2u16);
    m2 ^ (m2 << 1u16)
}

/// The top bit of the folded low byte is clear where the sum of the bits
/// of the low byte is even.
proof fn lemma_fold(r: u16, m0: u16, m1: u16, m2: u16, m3: u16)
    by (bit_vector)
    requires
        m0 == r << 8u16,
        m1 == m0 ^ (m0 << 4u16),
        m2 == m1 ^ (m1 << 2u16),
        m3 == m2 ^ (m2 << 1u16),
    ensures
        (m3 < 0x8000u16) <==> ((r % 2u16 + (r / 2u16) % 2u16 + (r / 4u16) % 2u16 + (r / 8u16)
            % 2u16 + (r / 16u16) % 2u16 + (r / 32u16) % 2u16 + (r / 64u16) % 2u16 + (r / 128u16)
            % 2u16) % 2 == 0),
{
}

/// The number of bits that are set in a byte is the sum of its bits.
proof fn lemma_ones_byte(n: nat)
    requires
        n < 256,
    ensures
        ones(n) == n % 2 + (n / 2) % 2 + (n / 4) % 2 + (n / 8) % 2 + (n / 16) % 2 + (n / 32) % 2 + (
        n / 64) % 2 + (n / 128) % 2,
{
    reveal_with_fuel(ones, 10);
    assert(n / 2 / 2 == n / 4);
    assert(n / 4 / 2 == n / 8);
    assert(n / 8 / 2 == n / 16);
    assert(n / 16 / 2 == n / 32);
    assert(n / 32 / 2 == n / 64);
    assert(n / 64 / 2 == n / 128);
    assert(n / 128 / 2 == 0);
}

/// The bits of the low byte of a word are the low bits of the word.
proof fn lemma_low_bits(r: u16, n: u16)
    by (bit_vector)
    requires
        n == r % 256u16,
    ensures
        n < 256u16,
        n % 2u16 == r % 2u16,
        (n / 2u16) % 2u16 == (r / 2u16) % 2u16,
        (n / 4u16) % 2u16 == (r / 4u16) % 2u16,
        (n / 8u16) % 2u16 == (r / 8u16) % 2u16,
        (n / 16u16) % 2u16 == (r / 16u16) % 2u16,
        (n / 32u16) % 2u16 == (r / 32u16) % 2u16,
        (n / 64u16) % 2u16 == (r / 64u16) % 2u16,
        (n / 128u16) % 2u16 == (r / 128u16) % 2u16,
{
}

/// The folded low byte of a word has its top bit clear where the parity
/// flag holds of the word.
proof fn lemma_folded_parity(r: u16)
    ensures
        (folded(r) < 0x8000) == parity_of(r),
{
    let m0 = r << 8u16;
    let m1 = m0 ^ (m0 << 4u16);
    let m2 = m1 ^ (m1 << 2u16);
    let m3 = m2 ^ (m2 << 1u16);
    lemma_fold(r, m0, m1, m2, m3);
    let n = r % 256u16;
    lemma_low_bits(r, n);
    lemma_ones_byte(n as nat);
}

/// The instructions of the parity merge the flag where the low byte of the
/// result has an even number of bits set.
proof fn lemma_parity(lane: Lane, result: Zmm, zero: Zmm, tmp: Zmm)
    requires
        lane.wf(),
        temps(zero, tmp),
        apart(result, zero, tmp),
    ensures
        framed(lane, lane_run(lane, parity_ops(result, zero, tmp)), zero, tmp),
        marked(
            lane,
            lane_run(lane, parity_ops(result, zero, tmp)),
            parity_of(lane.get(result)),
            EFlags::Parity,
        ),
{
    let o0 = HostOp::ShiftLeft { dest: tmp, src: result, count: 8 };
    let o1 = HostOp::ShiftLeft { dest: zero, src: tmp, count: 4 };
    let o2 = HostOp::Xor { dest: tmp, left: tmp, right: zero };
    let o3 = HostOp::ShiftLeft { dest: zero, src: tmp, count: 2 };
    let o4 = HostOp::Xor { dest: tmp, left: tmp, right: zero };
    let o5 = HostOp::ShiftLeft { dest: zero, src: tmp, count: 1 };
    let o6 = HostOp::Xor { dest: tmp, left: tmp, right: zero };
    let o7 = HostOp::Xor { dest: zero, left: zero, right: zero };
    let o8 = test_op(tmp, zero, CmpOp::GreaterThanEqual, true);
    let s3 = seq![o0, o1, o2];
    let tests = s3.push(o3).push(o4).push(o5).push(o6).push(o7).push(o8);
    assert(parity_ops(result, zero, tmp) =~= tests + mark_ops(EFlags::Parity, tmp));
    lemma_run_concat(lane, tests, mark_ops(EFlags::Parity, tmp));
    lemma_run_three(lane, o0, o1, o2);
    lemma_run_push(lane, s3, o3);
    lemma_run_push(lane, s3.push(o3), o4);
    lemma_run_push(lane, s3.push(o3).push(o4), o5);
    lemma_run_push(lane, s3.push(o3).push(o4).push(o5), o6);
    lemma_run_push(lane, s3.push(o3).push(o4).push(o5).push(o6), o7);
    lemma_run_push(lane, s3.push(o3).push(o4).push(o5).push(o6).push(o7), o8);
    let lane1 = lane_step(lane, o0);
    let lane2 = lane_step(lane1, o1);
    let lane3 = lane_step(lane2, o2);
    let lane4 = lane_step(lane3, o3);
    let lane5 = lane_step(lane4, o4);
    let lane6 = lane_step(lane5, o5);
    let lane7 = lane_step(lane6, o6);
    let lane8 = lane_step(lane7, o7);
    let lane9 = lane_step(lane8, o8);
    let r = lane.get(result);
    let m0 = r << 8u16;
    let m1 = m0 ^ (m0 << 4u16);
    let m2 = m1 ^ (m1 << 2u16);
    assert(lane1.get(tmp) == m0);
    assert(lane2.get(zero) == m0 << 4u16 && lane2.get(tmp) == m0);
    assert(lane3.get(tmp) == m1);
    assert(lane4.get(zero) == m1 << 2u16 && lane4.get(tmp) == m1);
    assert(lane5.get(tmp) == m2);
    assert(lane6.get(zero) == m2 << 1u16 && lane6.get(tmp) == m2);
    assert(lane7.get(tmp) == folded(r));
    lemma_bits(lane7.get(zero));
    assert(lane8.get(zero) == 0 && lane8.get(tmp) == folded(r));
    lemma_folded_parity(r);
    assert(lane9.k[FLAG_MASK as int] == parity_of(r));
    lemma_mark(lane9, EFlags::Parity, zero, tmp);
}

/// The masks of the six flags, merged one after the other into a clear
/// word, add up.
proof fn lemma_merged(z: u16, s: u16, c: u16, o: u16, a: u16, p: u16)
    by (bit_vector)
    requires
        z == 0 || z == 0x40,
        s == 0 || s == 0x80,
        c == 0 || c == 1,
        o == 0 || o == 0x800,
        a == 0 || a == 0x10,
        p == 0 || p == 4,
    ensures
        ((((((0u16 | z) | s) | c) | o) | a) | p) == z + s + c + o + a + p,
{
}

/// The mask of a flag where a condition holds, else nothing.
pub open spec fn mask_if(holds: bool, flag: EFlags) -> u16 {
    if holds {
        flag.spec_mask()
    } else {
        0
    }
}

/// The instructions that set the flags from a result and its arguments
/// leave in the flags what the executor computes from the three values. They
/// change no other vector register but the two scratch registers.
pub proof fn lemma_status_ops(lane: Lane, result: Zmm, arg1: Zmm, arg2: Zmm, zero: Zmm, tmp: Zmm)
    requires
        lane.wf(),
        temps(zero, tmp),
        apart(result, zero, tmp),
        apart(arg1, zero, tmp),
        apart(arg2, zero, tmp),
    ensures
        lane_run(lane, status_ops(result, arg1, arg2, zero, tmp)).wf(),
        lane_run(lane, status_ops(result, arg1, arg2, zero, tmp)).zmm[FLAGS_ZMM as int]
            == status_flags(lane.get(result), lane.get(arg1), lane.get(arg2)),
        forall|i: int|
            0 <= i < 32 && i != FLAGS_ZMM && i != position(zero) && i != position(tmp) ==> lane_run(
                lane,
                status_ops(result, arg1, arg2, zero, tmp),
            ).zmm[i] == lane.zmm[i],
{
    let r = lane.get(result);
    let a = lane.get(arg1);
    let b = lane.get(arg2);
    let p0 = clear_ops(zero);
    let p1 = zero_ops(result, zero, tmp);
    let p2 = sign_ops(result, zero, tmp);
    let p3 = carry_ops(result, arg1, arg2, zero, tmp);
    let p4 = overflow_ops(result, arg1, arg2, zero, tmp);
    let p5 = auxiliary_ops(result, arg1, arg2, zero, tmp);
    let p6 = parity_ops(result, zero, tmp);
    let lane0 = lane_run(lane, p0);
    let lane1 = lane_run(lane0, p1);
    let lane2 = lane_run(lane1, p2);
    let lane3 = lane_run(lane2, p3);
    let lane4 = lane_run(lane3, p4);
    let lane5 = lane_run(lane4, p5);
    let lane6 = lane_run(lane5, p6);
    lemma_run_concat(lane, p0, p1);
    lemma_run_concat(lane, p0 + p1, p2);
    lemma_run_concat(lane, p0 + p1 + p2, p3);
    lemma_run_concat(lane, p0 + p1 + p2 + p3, p4);
    lemma_run_concat(lane, p0 + p1 + p2 + p3 + p4, p5);
    lemma_run_concat(lane, p0 + p1 + p2 + p3 + p4 + p5, p6);
    assert(lane_run(lane, status_ops(result, arg1, arg2, zero, tmp)) == lane6);
    lemma_run_two(lane, p0[0], p0[1]);
    assert(p0 =~= seq![p0[0], p0[1]]);
    lemma_bits(lane.zmm[FLAGS_ZMM as int]);
    lemma_bits(lane.get(zero));
    assert(framed(lane, lane0, zero, tmp) && lane0.zmm[FLAGS_ZMM as int] == 0);
    lemma_compare_zero(r);
    lemma_compare_zero(a);
    lemma_compare_zero(b);
    lemma_one_test(lane0, result, CmpOp::Equal, EFlags::Zero, zero, tmp);
    lemma_one_test(lane1, result, CmpOp::LessThan, EFlags::Sign, zero, tmp);
    lemma_three_tests(
        lane2,
        (arg1, arg2, result),
        (CmpOp::GreaterThanEqual, CmpOp::GreaterThanEqual, CmpOp::LessThan),
        EFlags::Carry,
        zero,
        tmp,
    );
    lemma_three_tests(
        lane3,
        (arg1, arg2, result),
        (CmpOp::LessThan, CmpOp::LessThan, CmpOp::GreaterThanEqual),
        EFlags::Overflow,
        zero,
        tmp,
    );
    lemma_auxiliary(lane4, result, arg1, arg2, zero, tmp);
    lemma_parity(lane5, result, zero, tmp);
    let z = mask_if(r == 0, EFlags::Zero);
    let s = mask_if(r >= 0x8000, EFlags::Sign);
    let c = mask_if(carry_of(r, a, b), EFlags::Carry);
    let o = mask_if(overflow_of(r, a, b), EFlags::Overflow);
    let x = mask_if(auxiliary_of(r, a, b), EFlags::Auxillary);
    let p = mask_if(parity_of(r), EFlags::Parity);
    let f1 = lane1.zmm[FLAGS_ZMM as int];
    let f2 = lane2.zmm[FLAGS_ZMM as int];
    let f3 = lane3.zmm[FLAGS_ZMM as int];
    let f4 = lane4.zmm[FLAGS_ZMM as int];
    let f5 = lane5.zmm[FLAGS_ZMM as int];
    let f6 = lane6.zmm[FLAGS_ZMM as int];
    lemma_bits(0u16);
    lemma_bits(f1);
    lemma_bits(f2);
    lemma_bits(f3);
    lemma_bits(f4);
    lemma_bits(f5);
    assert(f1 == 0u16 | z);
    assert(f2 == f1 | s);
    assert(f3 == f2 | c);
    assert(f4 == f3 | o);
    assert(f5 == f4 | x);
    assert(f6 == f5 | p);
    lemma_merged(z, s, c, o, x, p);
    assert(f6 == z + s + c + o + x + p);
}

/// What an operation computes from two values.
pub open spec fn binary_value(kind: Binary, a: u16, b: u16) -> u16 {
    match kind {
        Binary::Add => wrapped_sum(a, b),
        Binary::Sub => wrapped_difference(a, b),
        Binary::And => a & b,
        Binary::Or => a | b,
        Binary::Xor => a ^ b,
    }
}

/// Whether the instruction is one that the translator lowers: a mov, add,
/// sub, cmp, and, or or xor of a 16-bit register with such a register or an
/// immediate, but for those that compute flags from the flags register.
pub open spec fn vectorized(instruction: Instruction) -> bool {
    il_of(instruction).is_some()
}

/// The value of an operand of the executor is the value of its operand of
/// the intermediate language in a lane that holds the same registers.
proof fn lemma_operand_value(lane: Lane, regs: Seq<u16>, operand: Operand)
    requires
        lane.wf(),
        regs == lane.regs(),
        operand_avx(operand).is_some(),
    ensures
        plain_value(regs, operand) == Some(operand_value(lane, operand_avx(operand)->Some_0)),
{
}

/// The registers of the core in a lane of which one vector register was
/// written: the register that stands there has the value.
proof fn lemma_regs_of_set(lane: Lane, reg: Register, value: u16)
    requires
        lane.wf(),
        reg.is_main(),
    ensures
        lane.set(zmm_of(reg), value).regs() == write_register(lane.regs(), reg, value),
{
    assert(lane.set(zmm_of(reg), value).regs() =~= write_register(lane.regs(), reg, value));
}

/// What the executor makes of an instruction that the translator lowers.
pub open spec fn executed(regs: Seq<u16>, instruction: Instruction) -> Seq<u16> {
    match instruction {
        Instruction::Mov { dest, src } => write_register(
            regs,
            dest->Register_0,
            plain_value(regs, src)->Some_0,
        ),
        Instruction::Cmp { left, right } => {
            let a = read_register(regs, left->Register_0);
            let b = plain_value(regs, right)->Some_0;
            regs.update(Register::Flags.slot(), status_flags(wrapped_difference(a, b), a, b))
        },
        Instruction::Add { dest, src }
        | Instruction::Sub { dest, src }
        | Instruction::And { dest, src }
        | Instruction::Or { dest, src }
        | Instruction::Xor { dest, src } => {
            let a = read_register(regs, dest->Register_0);
            let b = plain_value(regs, src)->Some_0;
            let kind = il_of(instruction)->Some_0.binary()->Some_0.0;
            arithmetic(regs, dest->Register_0, binary_value(kind, a, b), a, b)
        },
        _ => regs,
    }
}

/// The executor succeeds on an instruction that the translator lowers,
/// changes neither memory nor segment registers, and leaves the registers
/// that `executed` gives.
proof fn lemma_executor(machine: Machine, instruction: Instruction)
    requires
        machine.regs.len() == 10,
        vectorized(instruction),
    ensures
        step(machine, instruction) == Ok::<Machine, crate::emu::Error>(
            Machine { regs: executed(machine.regs, instruction), ..machine },
        ),
{
    match instruction {
        Instruction::Sub { dest, src } => {
            let d = dest->Register_0;
            let a = read_register(machine.regs, d);
            let b = plain_value(machine.regs, src)->Some_0;
            let r = wrapped_difference(a, b);
            assert(write_register(
                machine.regs.update(Register::Flags.slot(), status_flags(r, a, b)),
                d,
                r,
            ) =~= arithmetic(machine.regs, d, r, a, b));
        },
        _ => {},
    }
}

/// What the lowering of an operation on two values makes of a lane: the
/// register takes the result and the flags are those of the result.
proof fn lemma_lane_binary(lane: Lane, index: int, kind: Binary, d: Register, operand: AvxOperand)
    requires
        lane.wf(),
        0 <= index < 4,
        d.is_main(),
        d != Register::Flags,
    ensures
        ({
            let il = match kind {
                Binary::Add => JitIL::Add { dest: zmm_of(d), op1: zmm_of(d), op2: operand },
                Binary::Sub => JitIL::Sub { dest: zmm_of(d), op1: zmm_of(d), op2: operand },
                Binary::And => JitIL::And { dest: zmm_of(d), op1: zmm_of(d), op2: operand },
                Binary::Or => JitIL::Or { dest: zmm_of(d), op1: zmm_of(d), op2: operand },
                Binary::Xor => JitIL::Xor { dest: zmm_of(d), op1: zmm_of(d), op2: operand },
            };
            let a = lane.get(zmm_of(d));
            let b = operand_value(lane, operand);
            lane_run(lane, lowering(il, index)).regs() == arithmetic(
                lane.regs(),
                d,
                binary_value(kind, a, b),
                a,
                b,
            )
        }),
{
    let il = match kind {
        Binary::Add => JitIL::Add { dest: zmm_of(d), op1: zmm_of(d), op2: operand },
        Binary::Sub => JitIL::Sub { dest: zmm_of(d), op1: zmm_of(d), op2: operand },
        Binary::And => JitIL::And { dest: zmm_of(d), op1: zmm_of(d), op2: operand },
        Binary::Or => JitIL::Or { dest: zmm_of(d), op1: zmm_of(d), op2: operand },
        Binary::Xor => JitIL::Xor { dest: zmm_of(d), op1: zmm_of(d), op2: operand },
    };
    let s0 = scratch(index);
    let s1 = scratch(index + 1);
    let s2 = scratch(index + 2);
    let s3 = scratch(index + 3);
    let dest = zmm_of(d);
    let a = lane.get(dest);
    let b = operand_value(lane, operand);
    let r = binary_value(kind, a, b);
    let copy = copy_ops(operand, s0);
    let save = HostOp::Move { dest: s1, src: dest };
    let op = binary_op(kind, dest, s1, s0);
    let flags = status_ops(dest, s1, s0, s2, s3);
    assert(lowering(il, index) == copy + seq![save, op] + flags);
    let lane1 = lane_run(lane, copy);
    let lane2 = lane_step(lane1, save);
    let lane3 = lane_step(lane2, op);
    let after = lane_run(lane3, flags);
    lemma_copy(lane, operand, s0);
    lemma_run_concat(lane, copy, seq![save, op]);
    lemma_run_concat(lane, copy + seq![save, op], flags);
    lemma_run_two(lane1, save, op);
    assert(lane3.get(dest) == r && lane3.get(s1) == a && lane3.get(s0) == b);
    lemma_status_ops(lane3, dest, s1, s0, s2, s3);
    assert(after.regs() =~= arithmetic(lane.regs(), d, r, a, b)) by {
        assert forall|i: int| 0 <= i < 10 implies after.regs()[i] == arithmetic(
            lane.regs(),
            d,
            r,
            a,
            b,
        )[i] by {
            assert(after.regs()[i] == after.zmm[i + 1]);
            assert(lane.regs()[i] == lane.zmm[i + 1]);
            assert(lane3.zmm[i + 1] == (if i + 1 == position(dest) {
                r
            } else {
                lane.zmm[i + 1]
            }));
        }
    }
}

/// What the lowering of a cmp makes of a lane: the flags are those of the
/// difference, and the other registers stay.
proof fn lemma_lane_compare(lane: Lane, index: int, l: Register, operand: AvxOperand)
    requires
        lane.wf(),
        0 <= index < 4,
        l.is_main(),
        l != Register::Flags,
    ensures
        ({
            let il = JitIL::Compare { left: zmm_of(l), right: operand };
            let a = lane.get(zmm_of(l));
            let b = operand_value(lane, operand);
            lane_run(lane, lowering(il, index)).regs() == lane.regs().update(
                Register::Flags.slot(),
                status_flags(wrapped_difference(a, b), a, b),
            )
        }),
{
    let il = JitIL::Compare { left: zmm_of(l), right: operand };
    let s0 = scratch(index);
    let s1 = scratch(index + 1);
    let s2 = scratch(index + 2);
    let s3 = scratch(index + 3);
    let left = zmm_of(l);
    let a = lane.get(left);
    let b = operand_value(lane, operand);
    let r = wrapped_difference(a, b);
    let copy = copy_ops(operand, s0);
    let op = HostOp::Sub { dest: s1, left, right: s0 };
    let flags = status_ops(s1, left, s0, s2, s3);
    assert(lowering(il, index) == copy + seq![op] + flags);
    let lane1 = lane_run(lane, copy);
    let lane2 = lane_step(lane1, op);
    let after = lane_run(lane2, flags);
    lemma_copy(lane, operand, s0);
    lemma_run_concat(lane, copy, seq![op]);
    lemma_run_concat(lane, copy + seq![op], flags);
    lemma_run_one(lane1, op);
    assert(lane2.get(s1) == r && lane2.get(left) == a && lane2.get(s0) == b);
    lemma_status_ops(lane2, s1, left, s0, s2, s3);
    let expected = lane.regs().update(Register::Flags.slot(), status_flags(r, a, b));
    assert(after.regs() =~= expected) by {
        assert forall|i: int| 0 <= i < 10 implies after.regs()[i] == expected[i] by {
            assert(after.regs()[i] == after.zmm[i + 1]);
            assert(lane.regs()[i] == lane.zmm[i + 1]);
            assert(lane2.zmm[i + 1] == lane.zmm[i + 1]);
        }
    }
}

/// The lowering of a mov leaves in a lane the registers that the
/// executor leaves.
proof fn lemma_lane_mov(instruction: Instruction, lane: Lane, index: int)
    requires
        lane.wf(),
        0 <= index < 4,
        vectorized(instruction),
        instruction is Mov,
    ensures
        lane_run(lane, lowering(il_of(instruction)->Some_0, index)).regs() == executed(
            lane.regs(),
            instruction,
        ),
{
    let d = instruction->Mov_dest->Register_0;
    let src = instruction->Mov_src;
    let operand = operand_avx(src)->Some_0;
    lemma_operand_value(lane, lane.regs(), src);
    lemma_copy(lane, operand, zmm_of(d));
    lemma_regs_of_set(lane, d, operand_value(lane, operand));
    assert(lane_run(lane, copy_ops(operand, zmm_of(d))).regs() =~= lane.set(
        zmm_of(d),
        operand_value(lane, operand),
    ).regs());
}

/// The lowering of a cmp leaves in a lane the registers that the
/// executor leaves.
proof fn lemma_lane_cmp(instruction: Instruction, lane: Lane, index: int)
    requires
        lane.wf(),
        0 <= index < 4,
        vectorized(instruction),
        instruction is Cmp,
    ensures
        lane_run(lane, lowering(il_of(instruction)->Some_0, index)).regs() == executed(
            lane.regs(),
            instruction,
        ),
{
    let l = instruction->Cmp_left->Register_0;
    let right = instruction->Cmp_right;
    lemma_operand_value(lane, lane.regs(), right);
    lemma_lane_compare(lane, index, l, operand_avx(right)->Some_0);
}

/// The lowering of an add leaves in a lane the registers that the
/// executor leaves.
proof fn lemma_lane_add(instruction: Instruction, lane: Lane, index: int)
    requires
        lane.wf(),
        0 <= index < 4,
        vectorized(instruction),
        instruction is Add,
    ensures
        lane_run(lane, lowering(il_of(instruction)->Some_0, index)).regs() == executed(
            lane.regs(),
            instruction,
        ),
{
    let d = instruction->Add_dest->Register_0;
    let src = instruction->Add_src;
    lemma_operand_value(lane, lane.regs(), src);
    lemma_lane_binary(lane, index, Binary::Add, d, operand_avx(src)->Some_0);
}

/// The lowering of a sub leaves in a lane the registers that the
/// executor leaves.
proof fn lemma_lane_sub(instruction: Instruction, lane: Lane, index: int)
    requires
        lane.wf(),
        0 <= index < 4,
        vectorized(instruction),
        instruction is Sub,
    ensures
        lane_run(lane, lowering(il_of(instruction)->Some_0, index)).regs() == executed(
            lane.regs(),
            instruction,
        ),
{
    let d = instruction->Sub_dest->Register_0;
    let src = instruction->Sub_src;
    lemma_operand_value(lane, lane.regs(), src);
    lemma_lane_binary(lane, index, Binary::Sub, d, operand_avx(src)->Some_0);
}

/// The lowering of an and leaves in a lane the registers that the
/// executor leaves.
proof fn lemma_lane_and(instruction: Instruction, lane: Lane, index: int)
    requires
        lane.wf(),
        0 <= index < 4,
        vectorized(instruction),
        instruction is And,
    ensures
        lane_run(lane, lowering(il_of(instruction)->Some_0, index)).regs() == executed(
            lane.regs(),
            instruction,
        ),
{
    let d = instruction->And_dest->Register_0;
    let src = instruction->And_src;
    lemma_operand_value(lane, lane.regs(), src);
    lemma_lane_binary(lane, index, Binary::And, d, operand_avx(src)->Some_0);
}

/// The lowering of an or leaves in a lane the registers that the
/// executor leaves.
proof fn lemma_lane_or(instruction: Instruction, lane: Lane, index: int)
    requires
        lane.wf(),
        0 <= index < 4,
        vectorized(instruction),
        instruction is Or,
    ensures
        lane_run(lane, lowering(il_of(instruction)->Some_0, index)).regs() == executed(
            lane.regs(),
            instruction,
        ),
{
    let d = instruction->Or_dest->Register_0;
    let src = instruction->Or_src;
    lemma_operand_value(lane, lane.regs(), src);
    lemma_lane_binary(lane, index, Binary::Or, d, operand_avx(src)->Some_0);
}

/// The lowering of a xor leaves in a lane the registers that the
/// executor leaves.
proof fn lemma_lane_xor(instruction: Instruction, lane: Lane, index: int)
    requires
        lane.wf(),
        0 <= index < 4,
        vectorized(instruction),
        instruction is Xor,
    ensures
        lane_run(lane, lowering(il_of(instruction)->Some_0, index)).regs() == executed(
            lane.regs(),
            instruction,
        ),
{
    let d = instruction->Xor_dest->Register_0;
    let src = instruction->Xor_src;
    lemma_operand_value(lane, lane.regs(), src);
    lemma_lane_binary(lane, index, Binary::Xor, d, operand_avx(src)->Some_0);
}

/// For every instruction that the translator lowers, the host
/// instructions of its lowering leave in a lane the registers that the executor
/// leaves, all ten of them: the executor succeeds and changes neither memory
/// nor segment registers, and the registers of the core in the lane are the
/// registers of the executor, whatever the scratch registers, the opmasks and
/// ESI held and wherever the ring of scratch registers stands.
pub proof fn lemma_lane_matches_executor(
    instruction: Instruction,
    lane: Lane,
    index: int,
    machine: Machine,
)
    requires
        lane.wf(),
        0 <= index < 4,
        machine.regs == lane.regs(),
        vectorized(instruction),
    ensures
        step(machine, instruction) is Ok,
        step(machine, instruction)->Ok_0.memory == machine.memory,
        step(machine, instruction)->Ok_0.segments == machine.segments,
        lane_run(lane, lowering(il_of(instruction)->Some_0, index)).regs() == step(
            machine,
            instruction,
        )->Ok_0.regs,
{
    lemma_executor(machine, instruction);
    if instruction is Mov {
        lemma_lane_mov(instruction, lane, index);
    } else if instruction is Cmp {
        lemma_lane_cmp(instruction, lane, index);
    } else if instruction is Add {
        lemma_lane_add(instruction, lane, index);
    } else if instruction is Sub {
        lemma_lane_sub(instruction, lane, index);
    } else if instruction is And {
        lemma_lane_and(instruction, lane, index);
    } else if instruction is Or {
        lemma_lane_or(instruction, lane, index);
    } else if instruction is Xor {
        lemma_lane_xor(instruction, lane, index);
    }
}

} // verus!
