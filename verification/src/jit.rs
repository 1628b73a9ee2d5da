//! The translator from 8086 instructions to host code that runs 32 emulated
//! cores at once, one in each 16-bit lane of the vector registers

use crate::emu::{step, Machine};
use crate::evex::{AvxOperand, Zmm, K};
use crate::flags::EFlags;
use crate::host::{entry_lane, host_run, lemma_code_matches_executor};
use crate::il::{
    encode, encode_all, encode_len, flag_ops, il_of, lemma_encode_concat, lemma_encode_len,
    lemma_encode_push, lemma_lowering_size, lower, lowering, lowering_size, scratch, vpaddw,
    vpandq, vpbroadcastw, vpcmpw, vpcmpw_masked, vpmovdqa64, vporw, vpsllw, vpsubw, vpxorq, CmpOp,
    HostOp, JitIL, FLAGS_ZMM, FLAG_MASK,
};
use crate::instruction::Instruction;
use crate::lanes::vectorized;
use vstd::prelude::*;

verus! {

/// Enum used to identify the zmm register for each 8086 register
#[derive(Debug, Copy, Clone, PartialEq, Eq, Structural)]
#[allow(non_camel_case_types)]
pub enum JitRegister {
    zero,
    ax,
    bx,
    cx,
    dx,
    si,
    di,
    bp,
    sp,
    ip,
    flags,
}

impl JitRegister {
    /// The number of the vector register that holds this register.
    pub open spec fn number(self) -> u8 {
        match self {
            JitRegister::zero => 0,
            JitRegister::ax => 1,
            JitRegister::bx => 2,
            JitRegister::cx => 3,
            JitRegister::dx => 4,
            JitRegister::si => 5,
            JitRegister::di => 6,
            JitRegister::bp => 7,
            JitRegister::sp => 8,
            JitRegister::ip => 9,
            JitRegister::flags => FLAGS_ZMM,
        }
    }

    /// Get the zmm register number this register uses in the JIT
    pub fn as_zmm(self) -> (res: Zmm)
        ensures
            res == Zmm(self.number()),
    {
        match self {
            JitRegister::zero => Zmm(0),
            JitRegister::ax => Zmm(1),
            JitRegister::bx => Zmm(2),
            JitRegister::cx => Zmm(3),
            JitRegister::dx => Zmm(4),
            JitRegister::si => Zmm(5),
            JitRegister::di => Zmm(6),
            JitRegister::bp => Zmm(7),
            JitRegister::sp => Zmm(8),
            JitRegister::ip => Zmm(9),
            JitRegister::flags => Zmm(10),
        }
    }
}

/// The general-purpose registers of the host, in the order of their numbers
#[derive(Debug, Copy, Clone, PartialEq, Eq, Structural)]
#[allow(non_camel_case_types)]
pub enum HostRegister {
    rax,
    rcx,
    rdx,
    rbx,
    rsp,
    rbp,
    rsi,
    rdi,
    r8,
    r9,
    r10,
    r11,
    r12,
    r13,
    r14,
    r15,
}

impl HostRegister {
    /// The number of the register.
    pub open spec fn number(self) -> u8 {
        match self {
            HostRegister::rax => 0,
            HostRegister::rcx => 1,
            HostRegister::rdx => 2,
            HostRegister::rbx => 3,
            HostRegister::rsp => 4,
            HostRegister::rbp => 5,
            HostRegister::rsi => 6,
            HostRegister::rdi => 7,
            HostRegister::r8 => 8,
            HostRegister::r9 => 9,
            HostRegister::r10 => 10,
            HostRegister::r11 => 11,
            HostRegister::r12 => 12,
            HostRegister::r13 => 13,
            HostRegister::r14 => 14,
            HostRegister::r15 => 15,
        }
    }

    /// The number of the register, as the operand of an instruction that
    /// reads it
    pub fn as_zmm(self) -> (res: Zmm)
        ensures
            res == Zmm(self.number()),
    {
        match self {
            HostRegister::rax => Zmm(0),
            HostRegister::rcx => Zmm(1),
            HostRegister::rdx => Zmm(2),
            HostRegister::rbx => Zmm(3),
            HostRegister::rsp => Zmm(4),
            HostRegister::rbp => Zmm(5),
            HostRegister::rsi => Zmm(6),
            HostRegister::rdi => Zmm(7),
            HostRegister::r8 => Zmm(8),
            HostRegister::r9 => Zmm(9),
            HostRegister::r10 => Zmm(10),
            HostRegister::r11 => Zmm(11),
            HostRegister::r12 => Zmm(12),
            HostRegister::r13 => Zmm(13),
            HostRegister::r14 => Zmm(14),
            HostRegister::r15 => Zmm(15),
        }
    }
}

/// Errors of the translator
#[derive(Debug, Copy, Clone, PartialEq, Eq)]
pub enum Error {
    /// The translator does not implement this instruction
    Unimplemented(Instruction),
    /// The host code of the instruction does not fit into the rest of the buffer
    JitBufferOverflow,
}

/// The byte of the host's `ret` instruction, which fills the buffer behind
/// what was written.
pub const RET: u8 = 0xc3;

/// A buffer of `N` bytes of host code. The buffer only grows: what was written
/// stays where it is.
pub struct JitBuffer<const N: usize> {
    /// The host code, and behind it `ret` bytes up to the size of the buffer
    pub buffer: Vec<u8>,
    /// Current offset in `buffer` where new instructions are written
    pub offset: usize,
    /// Scratch registers available to be allocated during the JIT
    pub scratch_registers: [Zmm; 4],
    /// The current index for allocating a new scratch register
    pub scratch_registers_index: usize,
}

impl<const N: usize> JitBuffer<N> {
    /// The buffer has `N` bytes, which behind the offset are `ret`, and the
    /// scratch registers are zmm28 to zmm31.
    pub open spec fn wf(&self) -> bool {
        &&& self.buffer@.len() == N
        &&& self.offset <= N
        &&& self.scratch_registers_index < 4
        &&& forall|i: int| 0 <= i < 4 ==> self.scratch_registers@[i] == scratch(i)
        &&& forall|i: int| self.offset <= i < N ==> self.buffer@[i] == RET
    }

    /// The host code that was written.
    pub open spec fn emitted(&self) -> Seq<u8> {
        self.buffer@.subrange(0, self.offset as int)
    }

    /// The position in the ring of scratch registers.
    pub open spec fn index(&self) -> int {
        self.scratch_registers_index as int
    }

    /// Whether the buffer has room for the given number of bytes.
    pub open spec fn room(&self, size: nat) -> bool {
        self.offset + size <= N
    }

    /// What a write of host instructions leaves: the instructions stand
    /// behind what was there, and the ring of scratch registers is at the
    /// given position.
    pub open spec fn wrote(&self, before: &Self, ops: Seq<HostOp>, next: int) -> bool {
        &&& self.wf()
        &&& self.emitted() == before.emitted() + encode_all(ops)
        &&& self.offset == before.offset + encode_all(ops).len()
        &&& self.index() == next
    }

    /// Create a new JIT buffer of size `N`, filled with `ret`
    pub fn new() -> (res: JitBuffer<N>)
        ensures
            res.wf(),
            res.offset == 0,
            res.index() == 0,
    {
        let mut buffer: Vec<u8> = Vec::new();
        let mut i: usize = 0;
        while i < N
            invariant
                i <= N,
                buffer@.len() == i,
                forall|k: int| 0 <= k < i ==> buffer@[k] == RET,
            decreases N - i,
        {
            buffer.push(RET);
            i += 1;
        }
        JitBuffer {
            buffer,
            offset: 0,
            scratch_registers: [Zmm(28), Zmm(29), Zmm(30), Zmm(31)],
            scratch_registers_index: 0,
        }
    }

    /// Get the JIT buffer: the host code and the `ret` bytes behind it
    pub fn buffer(&self) -> (res: &[u8])
        ensures
            res@ == self.buffer@,
    {
        self.buffer.as_slice()
    }

    /// Get the next available scratch register
    pub fn next_scratch_reg(&mut self) -> (res: Zmm)
        requires
            old(self).wf(),
        ensures
            final(self).wf(),
            res == scratch(old(self).index()),
            final(self).index() == (old(self).index() + 1) % 4,
            final(self).buffer == old(self).buffer,
            final(self).offset == old(self).offset,
    {
        let reg = self.scratch_registers[self.scratch_registers_index];
        self.scratch_registers_index = (self.scratch_registers_index + 1) % 4;
        reg
    }

    /// Write the given bytes into the JIT stream at the current byte offset
    pub fn write_bytes(&mut self, bytes: &[u8])
        requires
            old(self).wf(),
            old(self).room(bytes@.len()),
        ensures
            final(self).wf(),
            final(self).emitted() == old(self).emitted() + bytes@,
            final(self).offset == old(self).offset + bytes@.len(),
            final(self).index() == old(self).index(),
    {
        let mut i: usize = 0;
        while i < bytes.len()
            invariant
                i <= bytes@.len(),
                self.offset == old(self).offset,
                self.offset + bytes@.len() <= N,
                self.buffer@.len() == N,
                self.scratch_registers == old(self).scratch_registers,
                self.scratch_registers_index == old(self).scratch_registers_index,
                forall|k: int| 0 <= k < self.offset ==> self.buffer@[k] == old(self).buffer@[k],
                forall|k: int| 0 <= k < i ==> self.buffer@[self.offset + k] == bytes@[k],
                forall|k: int| self.offset + i <= k < N ==> self.buffer@[k] == RET,
            decreases bytes@.len() - i,
        {
            self.buffer.set(self.offset + i, bytes[i]);
            i += 1;
        }
        self.offset = self.offset + bytes.len();
        assert(self.emitted() =~= old(self).emitted() + bytes@);
    }
}

/// The bytes of one host instruction are those of the sequence that holds it alone.
pub proof fn lemma_encode_one(op: HostOp)
    ensures
        encode_all(seq![op]) == encode(op),
{
    lemma_encode_push(Seq::empty(), op);
    assert(Seq::<HostOp>::empty().push(op) =~= seq![op]);
    assert(Seq::<u8>::empty() + encode(op) =~= encode(op));
}

/// The bytes of two host instructions.
pub proof fn lemma_encode_two(first: HostOp, second: HostOp)
    ensures
        encode_all(seq![first, second]) == encode(first) + encode(second),
{
    lemma_encode_one(first);
    lemma_encode_push(seq![first], second);
    assert(seq![first].push(second) =~= seq![first, second]);
}

/// Two writes, one behind the other, are a write of both sequences.
pub proof fn lemma_wrote_both<const N: usize>(
    start: JitBuffer<N>,
    middle: JitBuffer<N>,
    end: JitBuffer<N>,
    first: Seq<HostOp>,
    second: Seq<HostOp>,
    next: int,
)
    requires
        middle.wrote(&start, first, middle.index()),
        end.wrote(&middle, second, next),
    ensures
        end.wrote(&start, first + second, next),
{
    lemma_encode_concat(first, second);
    assert(start.emitted() + encode_all(first) + encode_all(second) =~= start.emitted() + (
    encode_all(first) + encode_all(second)));
}

/// What was written stands in the buffer from the old offset on, and behind
/// it a `ret`, unless the buffer is full.
pub proof fn lemma_wrote_window<const N: usize>(
    before: JitBuffer<N>,
    after: JitBuffer<N>,
    ops: Seq<HostOp>,
    next: int,
)
    requires
        before.wf(),
        after.wrote(&before, ops, next),
    ensures
        after.buffer@.subrange(before.offset as int, after.offset as int) == encode_all(ops),
        after.buffer@.subrange(0, before.offset as int) == before.emitted(),
        after.offset < N ==> after.buffer@[after.offset as int] == RET,
{
    let bytes = encode_all(ops);
    assert(after.buffer@.subrange(before.offset as int, after.offset as int) =~= bytes) by {
        assert forall|k: int| 0 <= k < bytes.len() implies after.buffer@[before.offset + k]
            == bytes[k] by {
            assert(after.emitted()[before.offset + k] == after.buffer@[before.offset + k]);
        }
    }
    assert(after.buffer@.subrange(0, before.offset as int) =~= before.emitted()) by {
        assert forall|k: int| 0 <= k < before.offset implies after.buffer@[k]
            == before.emitted()[k] by {
            assert(after.emitted()[k] == after.buffer@[k]);
        }
    }
}

impl<const N: usize> JitBuffer<N> {
    /// Write one encoded host instruction
    fn emit(&mut self, bytes: &[u8], Ghost(op): Ghost<HostOp>)
        requires
            old(self).wf(),
            old(self).room(bytes@.len()),
            bytes@ == encode(op),
        ensures
            final(self).wrote(old(self), seq![op], old(self).index()),
            final(self).offset == old(self).offset + encode_len(op),
    {
        proof {
            lemma_encode_one(op);
            lemma_encode_len(op);
        }
        self.write_bytes(bytes);
    }

    /// mov esi, imm
    fn load_esi(&mut self, imm: i16)
        requires
            old(self).wf(),
            old(self).room(5),
        ensures
            final(self).wrote(old(self), seq![HostOp::LoadEsi { value: imm }], old(self).index()),
            final(self).offset == old(self).offset + 5,
    {
        let word = crate::bits::signed_to_word(imm);
        let fill: u8 = if imm < 0 {
            0xff
        } else {
            0
        };
        let bytes: [u8; 5] = [0xbe, (word % 256) as u8, (word / 256) as u8, fill, fill];
        assert(bytes@ =~= encode(HostOp::LoadEsi { value: imm }));
        self.emit(&bytes, Ghost(HostOp::LoadEsi { value: imm }));
    }

    /// Broadcast the immediate to every lane of the register
    pub fn mov_imm(&mut self, dest: Zmm, imm: i16)
        requires
            old(self).wf(),
            old(self).room(11),
        ensures
            final(self).wrote(
                old(self),
                seq![HostOp::LoadEsi { value: imm }, HostOp::Broadcast { dest, mask: None }],
                old(self).index(),
            ),
            final(self).offset == old(self).offset + 11,
    {
        // Assemble: mov esi, VAL
        self.load_esi(imm);
        let ghost loaded = *self;
        let bytes = vpbroadcastw(dest, HostRegister::rsi.as_zmm(), None).assemble();
        proof {
            lemma_encode_len(HostOp::Broadcast { dest, mask: None });
        }
        self.emit(bytes.as_slice(), Ghost(HostOp::Broadcast { dest, mask: None }));
        proof {
            lemma_wrote_both(
                *old(self),
                loaded,
                *self,
                seq![HostOp::LoadEsi { value: imm }],
                seq![HostOp::Broadcast { dest, mask: None }],
                old(self).index(),
            );
            assert(seq![HostOp::LoadEsi { value: imm }] + seq![
                HostOp::Broadcast { dest, mask: None },
            ] =~= seq![HostOp::LoadEsi { value: imm }, HostOp::Broadcast { dest, mask: None }]);
            lemma_encode_two(
                HostOp::LoadEsi { value: imm },
                HostOp::Broadcast { dest, mask: None },
            );
        }
    }
}

impl<const N: usize> JitBuffer<N> {
    /// vpbroadcastw dest {kmask}, esi
    fn broadcast_esi(&mut self, dest: Zmm, kmask: Option<K>)
        requires
            old(self).wf(),
            old(self).room(6),
        ensures
            final(self).wrote(old(self), seq![HostOp::Broadcast { dest, mask: kmask }], old(self).index()),
            final(self).offset == old(self).offset + 6,
    {
        let bytes = vpbroadcastw(dest, HostRegister::rsi.as_zmm(), kmask).assemble();
        proof {
            lemma_encode_len(HostOp::Broadcast { dest, mask: kmask });
        }
        self.emit(bytes.as_slice(), Ghost(HostOp::Broadcast { dest, mask: kmask }));
    }

    /// dest = src
    pub fn mov(&mut self, dest: Zmm, src: Zmm)
        requires
            old(self).wf(),
            old(self).room(6),
        ensures
            final(self).wrote(old(self), seq![HostOp::Move { dest, src }], old(self).index()),
            final(self).offset == old(self).offset + 6,
    {
        let bytes = vpmovdqa64(dest, src).assemble();
        proof {
            lemma_encode_len(HostOp::Move { dest, src });
        }
        self.emit(bytes.as_slice(), Ghost(HostOp::Move { dest, src }));
    }

    /// dest = op1 - op2
    pub fn sub(&mut self, dest: Zmm, op1: Zmm, op2: Zmm)
        requires
            old(self).wf(),
            old(self).room(6),
        ensures
            final(self).wrote(old(self), seq![HostOp::Sub { dest, left: op1, right: op2 }], old(self).index()),
            final(self).offset == old(self).offset + 6,
    {
        let bytes = vpsubw(dest, op1, op2).assemble();
        proof {
            lemma_encode_len(HostOp::Sub { dest, left: op1, right: op2 });
        }
        self.emit(bytes.as_slice(), Ghost(HostOp::Sub { dest, left: op1, right: op2 }));
    }

    /// dest = op1 + op2
    pub fn add(&mut self, dest: Zmm, op1: Zmm, op2: Zmm)
        requires
            old(self).wf(),
            old(self).room(6),
        ensures
            final(self).wrote(old(self), seq![HostOp::Add { dest, left: op1, right: op2 }], old(self).index()),
            final(self).offset == old(self).offset + 6,
    {
        let bytes = vpaddw(dest, op1, op2).assemble();
        proof {
            lemma_encode_len(HostOp::Add { dest, left: op1, right: op2 });
        }
        self.emit(bytes.as_slice(), Ghost(HostOp::Add { dest, left: op1, right: op2 }));
    }

    /// dest = op1 | op2
    pub fn or(&mut self, dest: Zmm, op1: Zmm, op2: Zmm)
        requires
            old(self).wf(),
            old(self).room(6),
        ensures
            final(self).wrote(old(self), seq![HostOp::Or { dest, left: op1, right: op2, mask: None }], old(self).index()),
            final(self).offset == old(self).offset + 6,
    {
        let bytes = vporw(dest, op1, op2, None).assemble();
        proof {
            lemma_encode_len(HostOp::Or { dest, left: op1, right: op2, mask: None });
        }
        self.emit(bytes.as_slice(), Ghost(HostOp::Or { dest, left: op1, right: op2, mask: None }));
    }

    /// dest = op1 | op2 in the lanes that the opmask selects
    pub fn or_with_kmask(&mut self, dest: Zmm, op1: Zmm, op2: Zmm, kmask: K)
        requires
            old(self).wf(),
            old(self).room(6),
        ensures
            final(self).wrote(old(self), seq![HostOp::Or { dest, left: op1, right: op2, mask: Some(kmask) }], old(self).index()),
            final(self).offset == old(self).offset + 6,
    {
        let bytes = vporw(dest, op1, op2, Some(kmask)).assemble();
        proof {
            lemma_encode_len(HostOp::Or { dest, left: op1, right: op2, mask: Some(kmask) });
        }
        self.emit(bytes.as_slice(), Ghost(HostOp::Or { dest, left: op1, right: op2, mask: Some(kmask) }));
    }

    /// dest = op1 ^ op2
    pub fn xor(&mut self, dest: Zmm, op1: Zmm, op2: Zmm)
        requires
            old(self).wf(),
            old(self).room(6),
        ensures
            final(self).wrote(old(self), seq![HostOp::Xor { dest, left: op1, right: op2 }], old(self).index()),
            final(self).offset == old(self).offset + 6,
    {
        let bytes = vpxorq(dest, op1, op2).assemble();
        proof {
            lemma_encode_len(HostOp::Xor { dest, left: op1, right: op2 });
        }
        self.emit(bytes.as_slice(), Ghost(HostOp::Xor { dest, left: op1, right: op2 }));
    }

    /// dest = op1 & op2
    pub fn and(&mut self, dest: Zmm, op1: Zmm, op2: Zmm)
        requires
            old(self).wf(),
            old(self).room(6),
        ensures
            final(self).wrote(old(self), seq![HostOp::And { dest, left: op1, right: op2 }], old(self).index()),
            final(self).offset == old(self).offset + 6,
    {
        let bytes = vpandq(dest, op1, op2).assemble();
        proof {
            lemma_encode_len(HostOp::And { dest, left: op1, right: op2 });
        }
        self.emit(bytes.as_slice(), Ghost(HostOp::And { dest, left: op1, right: op2 }));
    }

    /// dest = src << count
    pub fn shl(&mut self, dest: Zmm, src: Zmm, count: u8)
        requires
            old(self).wf(),
            old(self).room(7),
        ensures
            final(self).wrote(old(self), seq![HostOp::ShiftLeft { dest, src, count }], old(self).index()),
            final(self).offset == old(self).offset + 7,
    {
        let bytes = vpsllw(dest, src, count).assemble();
        proof {
            lemma_encode_len(HostOp::ShiftLeft { dest, src, count });
        }
        self.emit(bytes.as_slice(), Ghost(HostOp::ShiftLeft { dest, src, count }));
    }

    /// dest = 0
    pub fn clear_zmm(&mut self, dest: Zmm)
        requires
            old(self).wf(),
            old(self).room(6),
        ensures
            final(self).wrote(old(self), seq![HostOp::Xor { dest, left: dest, right: dest }], old(self).index()),
            final(self).offset == old(self).offset + 6,
    {
        let bytes = vpxorq(dest, dest, dest).assemble();
        proof {
            lemma_encode_len(HostOp::Xor { dest, left: dest, right: dest });
        }
        self.emit(bytes.as_slice(), Ghost(HostOp::Xor { dest, left: dest, right: dest }));
    }

    /// k = left [`CmpOp`] right
    pub fn cmp(&mut self, k: Zmm, left: Zmm, right: Zmm, op: CmpOp)
        requires
            old(self).wf(),
            old(self).room(7),
        ensures
            final(self).wrote(
                old(self),
                seq![HostOp::Compare { k, left, right, op, mask: None }],
                old(self).index(),
            ),
            final(self).offset == old(self).offset + 7,
    {
        let bytes = vpcmpw(k, left, right, op).assemble();
        proof {
            lemma_encode_len(HostOp::Compare { k, left, right, op, mask: None });
        }
        self.emit(bytes.as_slice(), Ghost(HostOp::Compare { k, left, right, op, mask: None }));
    }

    /// k = left [`CmpOp`] right in the lanes that the opmask selects, and
    /// false in the others
    pub fn cmp_with_kmask(&mut self, k: Zmm, left: Zmm, right: Zmm, op: CmpOp, kmask: K)
        requires
            old(self).wf(),
            old(self).room(7),
        ensures
            final(self).wrote(
                old(self),
                seq![HostOp::Compare { k, left, right, op, mask: Some(kmask) }],
                old(self).index(),
            ),
            final(self).offset == old(self).offset + 7,
    {
        let bytes = vpcmpw_masked(k, left, right, op, kmask).assemble();
        proof {
            lemma_encode_len(HostOp::Compare { k, left, right, op, mask: Some(kmask) });
        }
        self.emit(
            bytes.as_slice(),
            Ghost(HostOp::Compare { k, left, right, op, mask: Some(kmask) }),
        );
    }

    /// Write a `ret` instruction
    pub fn ret(&mut self)
        requires
            old(self).wf(),
            old(self).room(1),
        ensures
            final(self).wrote(old(self), seq![HostOp::Ret], old(self).index()),
            final(self).offset == old(self).offset + 1,
    {
        let bytes: [u8; 1] = [RET];
        assert(bytes@ =~= encode(HostOp::Ret));
        self.emit(&bytes, Ghost(HostOp::Ret));
    }

    /// Move immediate using the k opmask
    pub fn mov_imm_with_kmask(&mut self, dest: Zmm, imm: i16, kmask: K)
        requires
            old(self).wf(),
            old(self).room(11),
        ensures
            final(self).wrote(
                old(self),
                seq![HostOp::LoadEsi { value: imm }, HostOp::Broadcast { dest, mask: Some(kmask) }],
                old(self).index(),
            ),
            final(self).offset == old(self).offset + 11,
    {
        self.load_esi(imm);
        let ghost loaded = *self;
        self.broadcast_esi(dest, Some(kmask));
        proof {
            lemma_wrote_both(
                *old(self),
                loaded,
                *self,
                seq![HostOp::LoadEsi { value: imm }],
                seq![HostOp::Broadcast { dest, mask: Some(kmask) }],
                old(self).index(),
            );
            assert(seq![HostOp::LoadEsi { value: imm }] + seq![
                HostOp::Broadcast { dest, mask: Some(kmask) },
            ] =~= seq![
                HostOp::LoadEsi { value: imm },
                HostOp::Broadcast { dest, mask: Some(kmask) },
            ]);
        }
    }

    /// Set one flag in the lanes where the register compares with zero as given
    fn set_flag(&mut self, value: Zmm, flag: EFlags, op: CmpOp)
        requires
            old(self).wf(),
            old(self).room(30),
            flag == EFlags::Zero || flag == EFlags::Sign,
        ensures
            final(self).wrote(
                old(self),
                flag_ops(value, flag, op, old(self).index()),
                (old(self).index() + 2) % 4,
            ),
            final(self).offset == old(self).offset + 30,
    {
        // Fill a ZMM with zero
        let zero_zmm = self.next_scratch_reg();
        let ghost start = *self;
        self.clear_zmm(zero_zmm);
        let ghost cleared = *self;
        let kmask = K(FLAG_MASK);
        let tmp_flag_zmm = self.next_scratch_reg();
        let ghost second = *self;
        self.cmp(Zmm(FLAG_MASK), value, zero_zmm, op);
        let ghost compared = *self;
        self.mov_imm_with_kmask(tmp_flag_zmm, crate::flags::low_flag_value(flag), kmask);
        let ghost loaded = *self;
        let flags = JitRegister::flags.as_zmm();
        self.or_with_kmask(flags, flags, tmp_flag_zmm, kmask);
        proof {
            let ghost ops = flag_ops(value, flag, op, old(self).index());
            assert(cleared.wrote(old(self), seq![ops[0]], start.index()));
            assert(compared.wrote(&cleared, seq![ops[1]], second.index()));
            lemma_wrote_both(*old(self), cleared, compared, seq![ops[0]], seq![ops[1]], second.index());
            assert(loaded.wrote(&compared, seq![ops[2], ops[3]], second.index()));
            lemma_wrote_both(
                *old(self),
                compared,
                loaded,
                seq![ops[0]] + seq![ops[1]],
                seq![ops[2], ops[3]],
                second.index(),
            );
            assert(self.wrote(&loaded, seq![ops[4]], second.index()));
            lemma_wrote_both(
                *old(self),
                loaded,
                *self,
                seq![ops[0]] + seq![ops[1]] + seq![ops[2], ops[3]],
                seq![ops[4]],
                second.index(),
            );
            assert(seq![ops[0]] + seq![ops[1]] + seq![ops[2], ops[3]] + seq![ops[4]] =~= ops);
        }
    }

    /// Set the Zero Flag in the EFLAGS register if `dest` is zero
    pub fn set_zero_flag(&mut self, dest: Zmm)
        requires
            old(self).wf(),
            old(self).room(30),
        ensures
            final(self).wrote(
                old(self),
                flag_ops(dest, EFlags::Zero, CmpOp::Equal, old(self).index()),
                (old(self).index() + 2) % 4,
            ),
            final(self).offset == old(self).offset + 30,
    {
        self.set_flag(dest, EFlags::Zero, CmpOp::Equal);
    }

    /// Set the Sign Flag in the EFLAGS register if `dest` is less than zero
    pub fn set_sign_flag(&mut self, dest: Zmm)
        requires
            old(self).wf(),
            old(self).room(30),
        ensures
            final(self).wrote(
                old(self),
                flag_ops(dest, EFlags::Sign, CmpOp::LessThan, old(self).index()),
                (old(self).index() + 2) % 4,
            ),
            final(self).offset == old(self).offset + 30,
    {
        self.set_flag(dest, EFlags::Sign, CmpOp::LessThan);
    }

    /// Get the register holding the value in the operand
    /// AvxOperand::Zmm(zmm) -> Return the given register
    /// AvxOperand::Immediate(imm) ->
    ///    Broadcast this immediate to a scratch register and return this register
    pub fn operand_to_register(&mut self, operand: AvxOperand) -> (res: Zmm)
        requires
            old(self).wf(),
            old(self).room(lift_size(operand)),
        ensures
            res == lift_reg(operand, old(self).index()),
            final(self).wrote(
                old(self),
                lift_ops(operand, old(self).index()),
                lift_next(operand, old(self).index()),
            ),
            final(self).offset == old(self).offset + lift_size(operand),
    {
        match operand {
            AvxOperand::Zmm(zmm) => {
                assert(self.emitted() + Seq::<u8>::empty() =~= self.emitted());
                zmm
            },
            AvxOperand::Immediate(imm) => {
                // If there is an immediate operand, broadcast it to the scratch register
                // and use the scratch register to do this operation
                let new_src = self.next_scratch_reg();
                self.mov_imm(new_src, imm);
                new_src
            },
        }
    }

    /// Write one host instruction
    pub fn write_op(&mut self, op: &HostOp)
        requires
            old(self).wf(),
            old(self).room(encode_len(*op)),
        ensures
            final(self).wrote(old(self), seq![*op], old(self).index()),
            final(self).offset == old(self).offset + encode_len(*op),
    {
        match op {
            HostOp::LoadEsi { value } => self.load_esi(*value),
            HostOp::Broadcast { dest, mask } => self.broadcast_esi(*dest, *mask),
            HostOp::Move { dest, src } => self.mov(*dest, *src),
            HostOp::Sub { dest, left, right } => self.sub(*dest, *left, *right),
            HostOp::Add { dest, left, right } => self.add(*dest, *left, *right),
            HostOp::Or { dest, left, right, mask } => match mask {
                None => self.or(*dest, *left, *right),
                Some(k) => self.or_with_kmask(*dest, *left, *right, *k),
            },
            HostOp::Xor { dest, left, right } => self.xor(*dest, *left, *right),
            HostOp::And { dest, left, right } => self.and(*dest, *left, *right),
            HostOp::ShiftLeft { dest, src, count } => self.shl(*dest, *src, *count),
            HostOp::Compare { k, left, right, op, mask } => match mask {
                None => self.cmp(*k, *left, *right, *op),
                Some(kmask) => self.cmp_with_kmask(*k, *left, *right, *op, *kmask),
            },
            HostOp::Ret => self.ret(),
        }
    }

    /// Write host instructions, one behind the other
    pub fn write_ops(&mut self, ops: &[HostOp])
        requires
            old(self).wf(),
            old(self).room(encode_all(ops@).len()),
        ensures
            final(self).wrote(old(self), ops@, old(self).index()),
            final(self).offset == old(self).offset + encode_all(ops@).len(),
    {
        let mut i: usize = 0;
        assert(ops@.subrange(0, 0) =~= Seq::<HostOp>::empty());
        assert(self.emitted() + Seq::<u8>::empty() =~= self.emitted());
        while i < ops.len()
            invariant
                i <= ops@.len(),
                old(self).wf(),
                old(self).room(encode_all(ops@).len()),
                self.wrote(old(self), ops@.subrange(0, i as int), old(self).index()),
            decreases ops@.len() - i,
        {
            proof {
                lemma_encode_prefix(ops@, i as int);
            }
            let ghost before = *self;
            self.write_op(&ops[i]);
            proof {
                lemma_wrote_both(
                    *old(self),
                    before,
                    *self,
                    ops@.subrange(0, i as int),
                    seq![ops@[i as int]],
                    old(self).index(),
                );
                assert(ops@.subrange(0, i as int) + seq![ops@[i as int]] =~= ops@.subrange(
                    0,
                    i + 1,
                ));
            }
            i += 1;
        }
        assert(ops@.subrange(0, i as int) =~= ops@);
    }

    /// Write the host instructions of the given [`JitIL`] instruction into the JIT stream
    pub fn write_il(&mut self, instr: &JitIL)
        requires
            old(self).wf(),
            old(self).room(lowering_size(*instr)),
        ensures
            final(self).wrote(
                old(self),
                lowering(*instr, old(self).index()),
                old(self).index(),
            ),
            final(self).offset == old(self).offset + lowering_size(*instr),
    {
        proof {
            lemma_lowering_size(*instr, self.index());
        }
        let ops = lower(instr, self.scratch_registers_index);
        self.write_ops(ops.as_slice());
    }

    /// Translate the instruction and write its host instructions into the JIT
    /// stream: at most 330 bytes. On an error nothing is written. What was written, run from the
    /// old offset while a `ret` stands behind it, does to the registers of
    /// every core what the executor does with the instruction.
    pub fn write_instr(&mut self, instr: &Instruction) -> (res: Result<(), Error>)
        requires
            old(self).wf(),
        ensures
            final(self).wf(),
            res is Ok && final(self).offset < N ==> forall|machine: Machine|
                machine.regs.len() == 10 ==> #[trigger] runs_as_executor(
                    final(self).buffer@,
                    old(self).offset as int,
                    *instr,
                    machine,
                ),
            match il_of(*instr) {
                None => res == Err::<(), Error>(Error::Unimplemented(*instr)) && *final(self)
                    == *old(self),
                Some(il) => if old(self).room(lowering_size(il)) {
                    res is Ok && final(self).wrote(
                        old(self),
                        lowering(il, old(self).index()),
                        old(self).index(),
                    ) && final(self).offset == old(self).offset + lowering_size(il)
                } else {
                    res == Err::<(), Error>(Error::JitBufferOverflow) && *final(self) == *old(self)
                },
            },
    {
        match JitIL::from_instruction(instr) {
            None => Err(Error::Unimplemented(*instr)),
            Some(il) => {
                proof {
                    lemma_lowering_size(il, self.index());
                }
                let ops = lower(&il, self.scratch_registers_index);
                if size_of(ops.as_slice()) > N - self.offset {
                    Err(Error::JitBufferOverflow)
                } else {
                    self.write_ops(ops.as_slice());
                    proof {
                        if self.offset < N {
                            assert forall|machine: Machine|
                                machine.regs.len() == 10 implies #[trigger] runs_as_executor(
                                self.buffer@,
                                old(self).offset as int,
                                *instr,
                                machine,
                            ) by {
                                lemma_translated_matches_executor(
                                    *instr,
                                    *old(self),
                                    *self,
                                    machine,
                                );
                            }
                        }
                    }
                    Ok(())
                }
            },
        }
    }
}

/// Whether the code that starts at a position does to the registers of a
/// core what the executor does with the instruction: the executor succeeds and
/// changes neither memory nor segment registers; the code, run on a lane that
/// was loaded with the ten registers of the core, reaches its `ret`; and the
/// ten registers of the lane are then those that the executor leaves.
pub open spec fn runs_as_executor(
    code: Seq<u8>,
    at: int,
    instruction: Instruction,
    machine: Machine,
) -> bool {
    &&& step(machine, instruction) is Ok
    &&& step(machine, instruction)->Ok_0.memory == machine.memory
    &&& step(machine, instruction)->Ok_0.segments == machine.segments
    &&& host_run(entry_lane(machine.regs), code, at) is Some
    &&& host_run(entry_lane(machine.regs), code, at)->Some_0.regs() == step(
        machine,
        instruction,
    )->Ok_0.regs
}

/// One instruction, translated and run, does to a core what the executor
/// does. Where the translator has written the lowering of an instruction to a
/// buffer that is not full behind it, running the buffer from where the
/// lowering starts, on a lane that was loaded with the ten registers of a
/// core, reaches the `ret` behind the lowering; the executor succeeds on the
/// instruction and changes neither memory nor segment registers; and the ten
/// registers that are stored back are those that the executor leaves.
pub proof fn lemma_translated_matches_executor<const N: usize>(
    instruction: Instruction,
    before: JitBuffer<N>,
    after: JitBuffer<N>,
    machine: Machine,
)
    requires
        vectorized(instruction),
        before.wf(),
        after.wrote(&before, lowering(il_of(instruction)->Some_0, before.index()), before.index()),
        after.offset < N,
        machine.regs.len() == 10,
    ensures
        runs_as_executor(after.buffer@, before.offset as int, instruction, machine),
{
    let ops = lowering(il_of(instruction)->Some_0, before.index());
    let lane = entry_lane(machine.regs);
    lemma_wrote_window(before, after, ops, before.index());
    assert(lane.regs() =~= machine.regs);
    lemma_code_matches_executor(
        instruction,
        before.index(),
        after.buffer@,
        before.offset as int,
        lane,
        machine,
    );
}

/// The bytes of the first instructions of a sequence: one instruction more
/// adds its bytes, and there are never more than the bytes of all.
pub proof fn lemma_encode_prefix(ops: Seq<HostOp>, i: int)
    requires
        0 <= i < ops.len(),
    ensures
        encode_all(ops.subrange(0, i + 1)).len() == encode_all(ops.subrange(0, i)).len()
            + encode_len(ops[i]),
        encode_all(ops.subrange(0, i + 1)).len() <= encode_all(ops).len(),
        1 <= encode_len(ops[i]) <= 7,
{
    lemma_encode_push(ops.subrange(0, i), ops[i]);
    lemma_encode_len(ops[i]);
    assert(ops.subrange(0, i).push(ops[i]) =~= ops.subrange(0, i + 1));
    lemma_encode_concat(ops.subrange(0, i + 1), ops.subrange(i + 1, ops.len() as int));
    assert(ops.subrange(0, i + 1) + ops.subrange(i + 1, ops.len() as int) =~= ops);
}

/// Number of bytes that host instructions take
pub fn size_of(ops: &[HostOp]) -> (res: usize)
    requires
        ops@.len() <= 0x1000,
    ensures
        res == encode_all(ops@).len(),
{
    let mut size: usize = 0;
    let mut i: usize = 0;
    assert(ops@.subrange(0, 0) =~= Seq::<HostOp>::empty());
    while i < ops.len()
        invariant
            i <= ops@.len() <= 0x1000,
            size == encode_all(ops@.subrange(0, i as int)).len(),
            size <= 7 * i,
        decreases ops@.len() - i,
    {
        proof {
            lemma_encode_prefix(ops@, i as int);
        }
        size += match ops[i] {
            HostOp::LoadEsi { .. } => 5,
            HostOp::Compare { .. } | HostOp::ShiftLeft { .. } => 7,
            HostOp::Ret => 1,
            _ => 6,
        };
        i += 1;
    }
    assert(ops@.subrange(0, i as int) =~= ops@);
    size
}

/// The host instructions that bring an operand into a register: none for
/// a register, and for an immediate its broadcast into the next scratch register.
pub open spec fn lift_ops(operand: AvxOperand, index: int) -> Seq<HostOp> {
    match operand {
        AvxOperand::Zmm(_) => Seq::empty(),
        AvxOperand::Immediate(value) => seq![
            HostOp::LoadEsi { value },
            HostOp::Broadcast { dest: scratch(index), mask: None },
        ],
    }
}

/// The register that holds an operand once it is lifted.
pub open spec fn lift_reg(operand: AvxOperand, index: int) -> Zmm {
    match operand {
        AvxOperand::Zmm(zmm) => zmm,
        AvxOperand::Immediate(_) => scratch(index),
    }
}

/// The position in the ring of scratch registers behind the lift of an operand.
pub open spec fn lift_next(operand: AvxOperand, index: int) -> int {
    match operand {
        AvxOperand::Zmm(_) => index,
        AvxOperand::Immediate(_) => (index + 1) % 4,
    }
}

/// Number of bytes that the lift of an operand takes.
pub open spec fn lift_size(operand: AvxOperand) -> nat {
    match operand {
        AvxOperand::Zmm(_) => 0,
        AvxOperand::Immediate(_) => 11,
    }
}

} // verus!
