//! A model of the host for the instructions that the translator emits: the
//! vector registers, the opmask registers and ESI, and what each instruction
//! does to all 32 lanes. It runs translated code where the host itself
//! cannot be used. Every instruction is taken to part its registers into
//! lanes of 16 bits, an or under an opmask too.

use crate::bits::{make_word, signed_to_word, to_signed, word_of, word_to_signed};
use crate::emu::{
    step, wrapped_difference, wrapped_sum, wrapping_difference, wrapping_sum, Machine,
};
use crate::evex::{evex_bytes, AvxOpcode, Zmm, K};
use crate::il::{
    binary_op, copy_ops, encode, encode_all, encode_len, il_of, lemma_encode_len, lowering,
    scratch, status_ops, CmpOp, HostOp, JitIL, ESI, SHIFT_LEFT,
};
use crate::instruction::Instruction;
use crate::lanes::{
    compare, lane_run, lane_step, lemma_lane_matches_executor, selected, shifted, vectorized,
    Lane,
};
use vstd::prelude::*;

verus! {

/// The registers of the host that translated code uses
#[derive(Debug, Clone, Copy, PartialEq, Eq)]
pub struct HostState {
    /// The 32 vector registers, each with its 32 lanes of 16 bits
    pub zmm: [[u16; 32]; 32],
    /// The 8 opmask registers, each with its bits for the 32 lanes
    pub k: [[bool; 32]; 8],
    /// The low 16 bits of ESI
    pub esi: u16,
}

/// The lane of a host that holds the given registers of an emulated core, as
/// far as there are any, in the vector registers from 1 on, and zero in every
/// other register.
pub open spec fn entry_lane(regs: Seq<u16>) -> Lane {
    Lane {
        zmm: Seq::new(
            32,
            |r: int|
                if 1 <= r <= regs.len() {
                    regs[r - 1]
                } else {
                    0u16
                },
        ),
        k: Seq::new(8, |m: int| false),
        esi: 0,
    }
}

impl HostState {
    /// One lane of the registers.
    pub open spec fn lane(&self, j: int) -> Lane {
        Lane {
            zmm: Seq::new(32, |r: int| self.zmm@[r]@[j]),
            k: Seq::new(8, |m: int| self.k@[m]@[j]),
            esi: self.esi,
        }
    }

    /// A host of which every register is zero
    pub fn new() -> (res: Self)
        ensures
            forall|j: int| 0 <= j < 32 ==> #[trigger] res.lane(j) == entry_lane(Seq::empty()),
    {
        let res = HostState { zmm: [[0u16; 32]; 32], k: [[false; 32]; 8], esi: 0 };
        assert forall|j: int| 0 <= j < 32 implies #[trigger] res.lane(j) == entry_lane(
            Seq::empty(),
        ) by {
            assert(res.lane(j).zmm =~= entry_lane(Seq::empty()).zmm);
            assert(res.lane(j).k =~= entry_lane(Seq::empty()).k);
        }
        res
    }

    /// Set the lanes of a vector register
    pub fn load(&mut self, reg: Zmm, values: [u16; 32])
        ensures
            forall|j: int|
                0 <= j < 32 ==> #[trigger] final(self).lane(j) == old(self).lane(j).set(
                    reg,
                    values@[j],
                ),
    {
        self.store(reg, values, [true; 32]);
    }

    /// The lanes of a vector register
    pub fn read(&self, reg: Zmm) -> (res: [u16; 32])
        ensures
            forall|j: int| 0 <= j < 32 ==> res@[j] == #[trigger] self.lane(j).get(reg),
    {
        self.vector(reg)
    }
}

/// The outcome of a comparison of two words as signed numbers
pub fn compare_words(op: CmpOp, left: u16, right: u16) -> (res: bool)
    ensures
        res == compare(op, left, right),
{
    let a = word_to_signed(left);
    let b = word_to_signed(right);
    match op {
        CmpOp::Equal => left == right,
        CmpOp::LessThan => a < b,
        CmpOp::LessThanEqual => a <= b,
        CmpOp::False => false,
        CmpOp::NotEqual => left != right,
        CmpOp::GreaterThanEqual => a >= b,
        CmpOp::GreaterThan => a > b,
        CmpOp::True => true,
    }
}

/// What an instruction computes from the values of its two sources in a lane.
pub open spec fn combined(op: HostOp, left: u16, right: u16) -> u16 {
    match op {
        HostOp::Sub { .. } => wrapped_difference(left, right),
        HostOp::Add { .. } => wrapped_sum(left, right),
        HostOp::Or { .. } => left | right,
        HostOp::Xor { .. } => left ^ right,
        HostOp::And { .. } => left & right,
        HostOp::ShiftLeft { count, .. } => shifted(right, count),
        _ => right,
    }
}

/// A word shifted to the left by a number of bits
fn shift_word(value: u16, count: u8) -> (res: u16)
    ensures
        res == shifted(value, count),
{
    if count < 16 {
        value << (count as u16)
    } else {
        0
    }
}

/// What an instruction computes from the values of its two sources in a lane
fn combine(op: &HostOp, left: u16, right: u16) -> (res: u16)
    ensures
        res == combined(*op, left, right),
{
    match op {
        HostOp::Sub { .. } => wrapping_difference(left, right),
        HostOp::Add { .. } => wrapping_sum(left, right),
        HostOp::Or { .. } => left | right,
        HostOp::Xor { .. } => left ^ right,
        HostOp::And { .. } => left & right,
        HostOp::ShiftLeft { count, .. } => shift_word(right, *count),
        _ => right,
    }
}

impl HostState {
    /// The lanes of a vector register
    fn vector(&self, reg: Zmm) -> (res: [u16; 32])
        ensures
            forall|j: int| 0 <= j < 32 ==> res@[j] == self.lane(j).get(reg),
    {
        self.zmm[(reg.0 % 32) as usize]
    }

    /// The lanes that an instruction writes under the given opmask
    fn enabled(&self, mask: Option<K>) -> (res: [bool; 32])
        ensures
            forall|j: int| 0 <= j < 32 ==> res@[j] == selected(self.lane(j), mask),
    {
        match mask {
            None => [true; 32],
            Some(k) => {
                if k.0 % 8 == 0 {
                    [true; 32]
                } else {
                    self.k[(k.0 % 8) as usize]
                }
            },
        }
    }

    /// Write the values to the enabled lanes of a vector register
    fn store(&mut self, dest: Zmm, values: [u16; 32], enabled: [bool; 32])
        ensures
            forall|j: int|
                0 <= j < 32 ==> final(self).lane(j) == (if enabled@[j] {
                    old(self).lane(j).set(dest, values@[j])
                } else {
                    old(self).lane(j)
                }),
    {
        let at = (dest.0 % 32) as usize;
        let mut merged = self.zmm[at];
        let mut j: usize = 0;
        while j < 32
            invariant
                j <= 32,
                forall|i: int|
                    0 <= i < j ==> merged@[i] == (if enabled@[i] {
                        values@[i]
                    } else {
                        self.zmm@[at as int]@[i]
                    }),
                forall|i: int| j <= i < 32 ==> merged@[i] == self.zmm@[at as int]@[i],
            decreases 32 - j,
        {
            if enabled[j] {
                merged[j] = values[j];
            }
            j += 1;
        }
        self.zmm[at] = merged;
        assert forall|j: int| 0 <= j < 32 implies final(self).lane(j) == (if enabled@[j] {
            old(self).lane(j).set(dest, values@[j])
        } else {
            old(self).lane(j)
        }) by {
            if enabled@[j] {
                assert(self.lane(j).zmm =~= old(self).lane(j).set(dest, values@[j]).zmm);
            } else {
                assert(self.lane(j).zmm =~= old(self).lane(j).zmm);
            }
            assert(self.lane(j).k =~= old(self).lane(j).k);
        }
    }

    /// Execute one host instruction in all lanes
    pub fn step(&mut self, op: &HostOp)
        ensures
            forall|j: int| 0 <= j < 32 ==> final(self).lane(j) == lane_step(old(self).lane(j), *op),
    {
        match op {
            HostOp::LoadEsi { value } => {
                self.esi = signed_to_word(*value);
                assert forall|j: int| 0 <= j < 32 implies self.lane(j) == lane_step(
                    old(self).lane(j),
                    *op,
                ) by {
                    assert(self.lane(j).zmm =~= old(self).lane(j).zmm);
                    assert(self.lane(j).k =~= old(self).lane(j).k);
                }
            },
            HostOp::Broadcast { dest, mask } => {
                let values = [self.esi; 32];
                let enabled = self.enabled(*mask);
                self.store(*dest, values, enabled);
            },
            HostOp::Move { dest, src } => {
                let values = self.vector(*src);
                self.store(*dest, values, [true; 32]);
            },
            HostOp::Sub { dest, left, right }
            | HostOp::Add { dest, left, right }
            | HostOp::Xor { dest, left, right }
            | HostOp::And { dest, left, right } => {
                let values = self.combine_vectors(op, *left, *right);
                self.store(*dest, values, [true; 32]);
            },
            HostOp::ShiftLeft { dest, src, count: _ } => {
                let values = self.combine_vectors(op, *src, *src);
                self.store(*dest, values, [true; 32]);
            },
            HostOp::Or { dest, left, right, mask } => {
                let values = self.combine_vectors(op, *left, *right);
                let enabled = self.enabled(*mask);
                self.store(*dest, values, enabled);
            },
            HostOp::Compare { k, left, right, op: kind, mask } => {
                let a = self.vector(*left);
                let b = self.vector(*right);
                let enabled = self.enabled(*mask);
                let at = (k.0 % 8) as usize;
                let mut bits = self.k[at];
                let mut j: usize = 0;
                while j < 32
                    invariant
                        j <= 32,
                        forall|i: int|
                            0 <= i < j ==> bits@[i] == (enabled@[i] && compare(
                                *kind,
                                a@[i],
                                b@[i],
                            )),
                    decreases 32 - j,
                {
                    bits[j] = enabled[j] && compare_words(*kind, a[j], b[j]);
                    j += 1;
                }
                self.k[at] = bits;
                assert forall|j: int| 0 <= j < 32 implies self.lane(j) == lane_step(
                    old(self).lane(j),
                    *op,
                ) by {
                    assert(self.lane(j).zmm =~= old(self).lane(j).zmm);
                    assert(self.lane(j).k =~= lane_step(old(self).lane(j), *op).k);
                }
            },
            HostOp::Ret => {},
        }
    }

    /// What an instruction computes from its two sources, lane by lane
    fn combine_vectors(&self, op: &HostOp, left: Zmm, right: Zmm) -> (res: [u16; 32])
        ensures
            forall|j: int|
                0 <= j < 32 ==> res@[j] == combined(
                    *op,
                    self.lane(j).get(left),
                    self.lane(j).get(right),
                ),
    {
        let a = self.vector(left);
        let b = self.vector(right);
        let mut values = [0u16; 32];
        let mut j: usize = 0;
        while j < 32
            invariant
                j <= 32,
                forall|i: int| 0 <= i < j ==> values@[i] == combined(*op, a@[i], b@[i]),
            decreases 32 - j,
        {
            values[j] = combine(op, a[j], b[j]);
            j += 1;
        }
        values
    }
}

/// The comparison with the given number, below eight.
pub open spec fn comparison(code: int) -> CmpOp {
    if code == 0 {
        CmpOp::Equal
    } else if code == 1 {
        CmpOp::LessThan
    } else if code == 2 {
        CmpOp::LessThanEqual
    } else if code == 3 {
        CmpOp::False
    } else if code == 4 {
        CmpOp::NotEqual
    } else if code == 5 {
        CmpOp::GreaterThanEqual
    } else if code == 6 {
        CmpOp::GreaterThan
    } else {
        CmpOp::True
    }
}

/// The fields of the six bytes of an instruction with an EVEX prefix.
pub struct Fields {
    /// The opcode map
    pub map: int,
    /// The W bit
    pub wide: int,
    /// The opcode byte
    pub opcode: int,
    /// The register of the REG field, with its high bits from the prefix
    pub first: int,
    /// The register that the prefix names: register 0 where it names none
    pub second: int,
    /// The register of the R/M field, with its high bits from the prefix
    pub last: int,
    /// The number of the opmask, zero for none
    pub mask: int,
}

/// The fields of six bytes, if they have the fixed bits of an instruction
/// with an EVEX prefix, 512 bits wide and with two register operands in its
/// last byte.
pub open spec fn fields_of(pa: int, pb: int, pc: int, opcode: int, modrm: int) -> Option<Fields> {
    if (pa / 4) % 4 == 0 && 1 <= pa % 4 <= 3 && pb % 8 == 5 && pc / 16 == 4 && modrm / 64 == 3 {
        Some(
            Fields {
                map: pa % 4,
                wide: pb / 128,
                opcode,
                first: (modrm / 8) % 8 + 8 * (1 - pa / 128) + 16 * (1 - (pa / 16) % 2),
                second: 15 - (pb / 8) % 16 + 16 * (1 - (pc / 8) % 2),
                last: modrm % 8 + 8 * (1 - (pa / 32) % 2) + 16 * (1 - (pa / 64) % 2),
                mask: pc % 8,
            },
        )
    } else {
        None
    }
}

/// The opmask with the given number, none for zero.
pub open spec fn mask_of(number: int) -> Option<K> {
    if number == 0 {
        None
    } else {
        Some(K(number as u8))
    }
}

/// The host instruction with the given fields, but for a compare.
pub open spec fn op_of(f: Fields) -> Option<HostOp> {
    let dest = Zmm(f.first as u8);
    let left = Zmm(f.second as u8);
    let right = Zmm(f.last as u8);
    if f.map == 1 && f.opcode == 0x6f && f.wide == 1 && f.second == 0 && f.mask == 0 {
        Some(HostOp::Move { dest, src: right })
    } else if f.map == 2 && f.opcode == 0x7b && f.wide == 0 && f.second == 0 && f.last == ESI {
        Some(HostOp::Broadcast { dest, mask: mask_of(f.mask) })
    } else if f.map == 1 && f.opcode == 0xf9 && f.wide == 0 && f.mask == 0 {
        Some(HostOp::Sub { dest, left, right })
    } else if f.map == 1 && f.opcode == 0xfd && f.wide == 0 && f.mask == 0 {
        Some(HostOp::Add { dest, left, right })
    } else if f.map == 1 && f.opcode == 0xef && f.wide == 1 && f.mask == 0 {
        Some(HostOp::Xor { dest, left, right })
    } else if f.map == 1 && f.opcode == 0xeb && f.wide == 0 {
        Some(HostOp::Or { dest, left, right, mask: mask_of(f.mask) })
    } else if f.map == 1 && f.opcode == 0xdb && f.wide == 1 && f.mask == 0 {
        Some(HostOp::And { dest, left, right })
    } else {
        None
    }
}

/// Whether the fields are those of a compare.
pub open spec fn is_compare(f: Fields) -> bool {
    f.map == 3 && f.opcode == 0x3f && f.wide == 1
}

/// Whether the fields are those of a shift to the left by an immediate:
/// the first register field holds the number that extends the opcode.
pub open spec fn is_shift(f: Fields) -> bool {
    f.map == 1 && f.opcode == 0x71 && f.wide == 0 && f.first == SHIFT_LEFT && f.mask == 0
}

/// The host instruction that starts at a position of the code, and its
/// length, if it is one that the translator emits.
pub open spec fn host_decode(code: Seq<u8>, at: int) -> Option<(HostOp, nat)> {
    if at < 0 || at >= code.len() {
        None
    } else if code[at] == 0xc3 {
        Some((HostOp::Ret, 1))
    } else if code[at] == 0xbe {
        if at + 5 <= code.len() {
            let value = to_signed(word_of(code[at + 1], code[at + 2]));
            let fill = if value < 0 {
                0xffu8
            } else {
                0u8
            };
            if code[at + 3] == fill && code[at + 4] == fill {
                Some((HostOp::LoadEsi { value }, 5))
            } else {
                None
            }
        } else {
            None
        }
    } else if code[at] == 0x62 && at + 6 <= code.len() {
        match fields_of(
            code[at + 1] as int,
            code[at + 2] as int,
            code[at + 3] as int,
            code[at + 4] as int,
            code[at + 5] as int,
        ) {
            Some(f) => if is_compare(f) {
                if at + 7 <= code.len() && code[at + 6] < 8 {
                    Some(
                        (
                            HostOp::Compare {
                                k: Zmm(f.first as u8),
                                left: Zmm(f.second as u8),
                                right: Zmm(f.last as u8),
                                op: comparison(code[at + 6] as int),
                                mask: mask_of(f.mask),
                            },
                            7,
                        ),
                    )
                } else {
                    None
                }
            } else if is_shift(f) {
                if at + 7 <= code.len() {
                    Some(
                        (
                            HostOp::ShiftLeft {
                                dest: Zmm(f.second as u8),
                                src: Zmm(f.last as u8),
                                count: code[at + 6],
                            },
                            7,
                        ),
                    )
                } else {
                    None
                }
            } else {
                match op_of(f) {
                    Some(op) => Some((op, 6)),
                    None => None,
                }
            },
            None => None,
        }
    } else {
        None
    }
}

/// Whether the opmask is none or one of the registers 1 to 7.
pub open spec fn plain_mask(mask: Option<K>) -> bool {
    match mask {
        None => true,
        Some(k) => 1 <= k.0 < 8,
    }
}

/// Whether a host instruction names vector registers below 32 only, and for
/// its opmask none or one of the registers 1 to 7: the encoding has no room
/// for more.
pub open spec fn plain(op: HostOp) -> bool {
    match op {
        HostOp::LoadEsi { .. } => true,
        HostOp::Broadcast { dest, mask } => dest.0 < 32 && plain_mask(mask),
        HostOp::Move { dest, src } => dest.0 < 32 && src.0 < 32,
        HostOp::Sub { dest, left, right }
        | HostOp::Add { dest, left, right }
        | HostOp::Xor { dest, left, right }
        | HostOp::And { dest, left, right } => dest.0 < 32 && left.0 < 32 && right.0 < 32,
        HostOp::Or { dest, left, right, mask } => dest.0 < 32 && left.0 < 32 && right.0 < 32
            && plain_mask(mask),
        HostOp::ShiftLeft { dest, src, count } => dest.0 < 32 && src.0 < 32,
        HostOp::Compare { k, left, right, op, mask } => k.0 < 32 && left.0 < 32 && right.0 < 32
            && plain_mask(mask),
        HostOp::Ret => true,
    }
}

/// The fields that the bytes of an instruction hold.
pub open spec fn fields_for(
    opcode: AvxOpcode,
    op1: Zmm,
    op2: Zmm,
    op3: Option<Zmm>,
    kmask: Option<K>,
) -> Fields {
    Fields {
        map: opcode.spec_mmm().spec_bits(),
        wide: if opcode.spec_is_wide() {
            1
        } else {
            0
        },
        opcode: opcode.spec_code() as int,
        first: op1.0 as int,
        second: match crate::evex::second_source(opcode, op1, op2, op3) {
            Some(r) => r.0 as int,
            None => 0,
        },
        last: crate::evex::last_source(op2, op3).0 as int,
        mask: match kmask {
            Some(k) => k.0 as int,
            None => 0,
        },
    }
}

/// The bits of the first payload byte.
proof fn lemma_payload0(r: int, x: int, b: int, rr: int, mm: int, pa: int)
    by (nonlinear_arith)
    requires
        0 <= r <= 1,
        0 <= x <= 1,
        0 <= b <= 1,
        0 <= rr <= 1,
        1 <= mm <= 3,
        pa == 128 * r + 64 * x + 32 * b + 16 * rr + mm,
    ensures
        pa / 128 == r,
        (pa / 64) % 2 == x,
        (pa / 32) % 2 == b,
        (pa / 16) % 2 == rr,
        (pa / 4) % 4 == 0,
        pa % 4 == mm,
        0 <= pa < 256,
{
}

/// The bits of the second payload byte.
proof fn lemma_payload1(w: int, v: int, pb: int)
    by (nonlinear_arith)
    requires
        0 <= w <= 1,
        0 <= v <= 15,
        pb == 128 * w + 8 * v + 4 + 1,
    ensures
        pb / 128 == w,
        (pb / 8) % 16 == v,
        pb % 8 == 5,
        0 <= pb < 256,
{
}

/// The bits of the third payload byte.
proof fn lemma_payload2(vp: int, aaa: int, pc: int)
    by (nonlinear_arith)
    requires
        0 <= vp <= 1,
        0 <= aaa <= 7,
        pc == 64 + 8 * vp + aaa,
    ensures
        pc / 16 == 4,
        (pc / 8) % 2 == vp,
        pc % 8 == aaa,
        0 <= pc < 256,
{
}

/// The bits of the last byte.
proof fn lemma_modrm(reg: int, rm: int, m: int)
    by (nonlinear_arith)
    requires
        0 <= reg <= 7,
        0 <= rm <= 7,
        m == 192 + 8 * reg + rm,
    ensures
        m / 64 == 3,
        (m / 8) % 8 == reg,
        m % 8 == rm,
        0 <= m < 256,
{
}

/// The number of a register below 32 is made of its low bits and its two high bits.
proof fn lemma_register_bits(r: int)
    by (nonlinear_arith)
    requires
        0 <= r < 32,
    ensures
        r == r % 8 + 8 * ((r / 8) % 2) + 16 * ((r / 16) % 2),
        r == r % 16 + 16 * ((r / 16) % 2),
        0 <= r % 8 <= 7,
        0 <= r % 16 <= 15,
        0 <= (r / 8) % 2 <= 1,
        0 <= (r / 16) % 2 <= 1,
{
}

/// The fields of the bytes of an instruction are its operands.
proof fn lemma_fields_of_bytes(
    opcode: AvxOpcode,
    op1: Zmm,
    op2: Zmm,
    op3: Option<Zmm>,
    imm: Option<u8>,
    kmask: Option<K>,
)
    requires
        op1.0 < 32,
        op2.0 < 32,
        op3 matches Some(r) ==> r.0 < 32,
        plain_mask(kmask),
    ensures
        ({
            let bytes = evex_bytes(opcode, op1, op2, op3, imm, kmask);
            &&& bytes[0] == 0x62
            &&& bytes.len() == (if imm.is_some() {
                7int
            } else {
                6int
            })
            &&& imm matches Some(i) ==> bytes[6] == i
            &&& fields_of(
                bytes[1] as int,
                bytes[2] as int,
                bytes[3] as int,
                bytes[4] as int,
                bytes[5] as int,
            ) == Some(fields_for(opcode, op1, op2, op3, kmask))
        }),
{
    let second = crate::evex::second_source(opcode, op1, op2, op3);
    let last = crate::evex::last_source(op2, op3);
    let pa = crate::evex::payload0(opcode, op1, last);
    let pb = crate::evex::payload1(opcode, second);
    let pc = crate::evex::payload2(second, kmask);
    let m = crate::evex::modrm(op1, last);
    lemma_register_bits(op1.0 as int);
    lemma_register_bits(last.0 as int);
    lemma_payload0(
        1 - op1.bit3(),
        1 - last.bit4(),
        1 - last.bit3(),
        1 - op1.bit4(),
        opcode.spec_mmm().spec_bits(),
        pa,
    );
    let w: int = if opcode.spec_is_wide() {
        1
    } else {
        0
    };
    let aaa: int = match kmask {
        Some(k) => k.0 as int,
        None => 0,
    };
    match second {
        Some(reg) => {
            lemma_register_bits(reg.0 as int);
            lemma_payload1(w, 15 - reg.0 as int % 16, pb);
            lemma_payload2(1 - reg.bit4(), aaa, pc);
        },
        None => {
            lemma_payload1(w, 15, pb);
            lemma_payload2(1, aaa, pc);
        },
    }
    lemma_modrm(op1.0 as int % 8, last.0 as int % 8, m);
    let bytes = evex_bytes(opcode, op1, op2, op3, imm, kmask);
    assert(bytes[1] as int == pa);
    assert(bytes[2] as int == pb);
    assert(bytes[3] as int == pc);
    assert(bytes[5] as int == m);
    let f = fields_of(pa, pb, pc, opcode.spec_code() as int, m)->Some_0;
    let g = fields_for(opcode, op1, op2, op3, kmask);
    assert(f.first == g.first);
    assert(f.last == g.last);
    assert(f.second == g.second);
    assert(f.mask == g.mask);
}

/// The decoder of host instructions inverts their encoding, for an
/// instruction with an EVEX prefix.
proof fn lemma_host_decode_evex(
    code: Seq<u8>,
    at: int,
    op: HostOp,
    opcode: AvxOpcode,
    op1: Zmm,
    op2: Zmm,
    op3: Option<Zmm>,
    imm: Option<u8>,
    kmask: Option<K>,
)
    requires
        op1.0 < 32,
        op2.0 < 32,
        op3 matches Some(r) ==> r.0 < 32,
        plain_mask(kmask),
        0 <= at,
        encode(op) == evex_bytes(opcode, op1, op2, op3, imm, kmask),
        at + encode(op).len() <= code.len(),
        code.subrange(at, at + encode(op).len()) == encode(op),
    ensures
        code[at] == 0x62,
        at + 6 <= code.len(),
        imm.is_some() ==> at + 7 <= code.len() && code[at + 6] == imm->Some_0,
        fields_of(
            code[at + 1] as int,
            code[at + 2] as int,
            code[at + 3] as int,
            code[at + 4] as int,
            code[at + 5] as int,
        ) == Some(fields_for(opcode, op1, op2, op3, kmask)),
{
    let bytes = encode(op);
    lemma_fields_of_bytes(opcode, op1, op2, op3, imm, kmask);
    lemma_six(code, at, bytes);
    if imm.is_some() {
        assert(code.subrange(at, at + bytes.len())[6] == code[at + 6]);
    }
}

/// The decoder of host instructions inverts their encoding: where the
/// bytes of an instruction stand at a position of the code, the instruction is
/// decoded there, with the length of its bytes.
pub proof fn lemma_host_decode_encode(code: Seq<u8>, at: int, op: HostOp)
    requires
        plain(op),
        0 <= at,
        at + encode(op).len() <= code.len(),
        code.subrange(at, at + encode(op).len()) == encode(op),
    ensures
        host_decode(code, at) == Some((op, encode_len(op))),
{
    let bytes = encode(op);
    lemma_encode_len(op);
    assert(code.subrange(at, at + bytes.len())[0] == code[at + 0]);
    match op {
        HostOp::LoadEsi { value } => {
            assert(code.subrange(at, at + bytes.len())[1] == code[at + 1]);
            assert(code.subrange(at, at + bytes.len())[2] == code[at + 2]);
            assert(code.subrange(at, at + bytes.len())[3] == code[at + 3]);
            assert(code.subrange(at, at + bytes.len())[4] == code[at + 4]);
            crate::bits::lemma_unsigned_round_trip(value);
            assert(bytes[1] == (crate::bits::to_unsigned(value) % 256) as u8);
            assert(bytes[2] == (crate::bits::to_unsigned(value) / 256) as u8);
            assert(word_of(code[at + 1], code[at + 2]) == crate::bits::to_unsigned(value));
        },
        HostOp::Ret => {},
        HostOp::Broadcast { dest, mask } => {
            lemma_host_decode_evex(
                code,
                at,
                op,
                AvxOpcode::Broadcast,
                dest,
                Zmm(ESI),
                None,
                None,
                mask,
            );
        },
        HostOp::Move { dest, src } => {
            lemma_host_decode_evex(code, at, op, AvxOpcode::Mov, dest, src, None, None, None);
        },
        HostOp::Sub { dest, left, right } => {
            lemma_host_decode_evex(
                code,
                at,
                op,
                AvxOpcode::Sub,
                dest,
                left,
                Some(right),
                None,
                None,
            );
        },
        HostOp::Add { dest, left, right } => {
            lemma_host_decode_evex(
                code,
                at,
                op,
                AvxOpcode::Add,
                dest,
                left,
                Some(right),
                None,
                None,
            );
        },
        HostOp::Xor { dest, left, right } => {
            lemma_host_decode_evex(
                code,
                at,
                op,
                AvxOpcode::Xor,
                dest,
                left,
                Some(right),
                None,
                None,
            );
        },
        HostOp::Or { dest, left, right, mask } => {
            lemma_host_decode_evex(
                code,
                at,
                op,
                AvxOpcode::Or,
                dest,
                left,
                Some(right),
                None,
                mask,
            );
        },
        HostOp::And { dest, left, right } => {
            lemma_host_decode_evex(
                code,
                at,
                op,
                AvxOpcode::And,
                dest,
                left,
                Some(right),
                None,
                None,
            );
        },
        HostOp::ShiftLeft { dest, src, count } => {
            lemma_host_decode_evex(
                code,
                at,
                op,
                AvxOpcode::ShiftLeft,
                Zmm(SHIFT_LEFT),
                dest,
                Some(src),
                Some(count),
                None,
            );
        },
        HostOp::Compare { k, left, right, op: kind, mask } => {
            lemma_host_decode_evex(
                code,
                at,
                op,
                AvxOpcode::Cmp,
                k,
                left,
                Some(right),
                Some(kind.spec_code()),
                mask,
            );
        },
    }
}

/// The first six bytes of a window of the code.
proof fn lemma_six(code: Seq<u8>, at: int, bytes: Seq<u8>)
    requires
        0 <= at,
        bytes.len() >= 6,
        at + bytes.len() <= code.len(),
        code.subrange(at, at + bytes.len()) == bytes,
    ensures
        code[at] == bytes[0],
        code[at + 1] == bytes[1],
        code[at + 2] == bytes[2],
        code[at + 3] == bytes[3],
        code[at + 4] == bytes[4],
        code[at + 5] == bytes[5],
{
    assert(code.subrange(at, at + bytes.len())[0] == code[at + 0]);
    assert(code.subrange(at, at + bytes.len())[1] == code[at + 1]);
    assert(code.subrange(at, at + bytes.len())[2] == code[at + 2]);
    assert(code.subrange(at, at + bytes.len())[3] == code[at + 3]);
    assert(code.subrange(at, at + bytes.len())[4] == code[at + 4]);
    assert(code.subrange(at, at + bytes.len())[5] == code[at + 5]);
}

/// The comparison with the given number
fn comparison_of(code: u8) -> (res: CmpOp)
    ensures
        res == comparison(code as int),
{
    match code {
        0 => CmpOp::Equal,
        1 => CmpOp::LessThan,
        2 => CmpOp::LessThanEqual,
        3 => CmpOp::False,
        4 => CmpOp::NotEqual,
        5 => CmpOp::GreaterThanEqual,
        6 => CmpOp::GreaterThan,
        _ => CmpOp::True,
    }
}

/// The opmask with the given number, none for zero
fn mask_from(number: u8) -> (res: Option<K>)
    ensures
        res == mask_of(number as int),
{
    if number == 0 {
        None
    } else {
        Some(K(number))
    }
}

/// The instruction with an EVEX prefix in the six bytes behind a position,
/// and whether it is a compare or a shift, which have a seventh byte that
/// is not read here
fn decode_evex(code: &[u8], at: usize) -> (res: Option<(HostOp, bool)>)
    requires
        at + 6 <= code@.len(),
    ensures
        match fields_of(
            code@[at + 1] as int,
            code@[at + 2] as int,
            code@[at + 3] as int,
            code@[at + 4] as int,
            code@[at + 5] as int,
        ) {
            Some(f) => if is_compare(f) {
                res matches Some((op, true)) && op == (HostOp::Compare {
                    k: Zmm(f.first as u8),
                    left: Zmm(f.second as u8),
                    right: Zmm(f.last as u8),
                    op: CmpOp::Equal,
                    mask: mask_of(f.mask),
                })
            } else if is_shift(f) {
                res matches Some((op, true)) && op == (HostOp::ShiftLeft {
                    dest: Zmm(f.second as u8),
                    src: Zmm(f.last as u8),
                    count: 0,
                })
            } else {
                match op_of(f) {
                    Some(op) => res == Some((op, false)),
                    None => res.is_none(),
                }
            },
            None => res.is_none(),
        },
{
    let size = code.len();
    let pa = code[at + 1];
    let pb = code[at + 2];
    let pc = code[at + 3];
    let opcode = code[at + 4];
    let modrm = code[at + 5];
    if !((pa / 4) % 4 == 0 && 1 <= pa % 4 && pa % 4 <= 3 && pb % 8 == 5 && pc / 16 == 4 && modrm
        / 64 == 3) {
        return None;
    }
    let map = pa % 4;
    let wide = pb / 128;
    let first = (modrm / 8) % 8 + 8 * (1 - pa / 128) + 16 * (1 - (pa / 16) % 2);
    let second = 15 - (pb / 8) % 16 + 16 * (1 - (pc / 8) % 2);
    let last = modrm % 8 + 8 * (1 - (pa / 32) % 2) + 16 * (1 - (pa / 64) % 2);
    let mask = pc % 8;
    let dest = Zmm(first);
    let left = Zmm(second);
    let right = Zmm(last);
    if map == 3 && opcode == 0x3f && wide == 1 {
        Some(
            (
                HostOp::Compare { k: dest, left, right, op: CmpOp::Equal, mask: mask_from(mask) },
                true,
            ),
        )
    } else if map == 1 && opcode == 0x71 && wide == 0 && first == SHIFT_LEFT && mask == 0 {
        Some((HostOp::ShiftLeft { dest: left, src: right, count: 0 }, true))
    } else if map == 1 && opcode == 0x6f && wide == 1 && second == 0 && mask == 0 {
        Some((HostOp::Move { dest, src: right }, false))
    } else if map == 2 && opcode == 0x7b && wide == 0 && second == 0 && last == ESI {
        Some((HostOp::Broadcast { dest, mask: mask_from(mask) }, false))
    } else if map == 1 && opcode == 0xf9 && wide == 0 && mask == 0 {
        Some((HostOp::Sub { dest, left, right }, false))
    } else if map == 1 && opcode == 0xfd && wide == 0 && mask == 0 {
        Some((HostOp::Add { dest, left, right }, false))
    } else if map == 1 && opcode == 0xef && wide == 1 && mask == 0 {
        Some((HostOp::Xor { dest, left, right }, false))
    } else if map == 1 && opcode == 0xeb && wide == 0 {
        Some((HostOp::Or { dest, left, right, mask: mask_from(mask) }, false))
    } else if map == 1 && opcode == 0xdb && wide == 1 && mask == 0 {
        Some((HostOp::And { dest, left, right }, false))
    } else {
        None
    }
}

/// Decode the host instruction that starts at a position of the code, if it
/// is one that the translator emits: the instruction and its length
pub fn decode_host(code: &[u8], at: usize) -> (res: Option<(HostOp, usize)>)
    ensures
        match host_decode(code@, at as int) {
            Some((op, len)) => res == Some((op, len as usize)) && 1 <= len && at + len
                <= code@.len(),
            None => res.is_none(),
        },
{
    if at >= code.len() {
        return None;
    }
    let first = code[at];
    let left = code.len() - at;
    if first == 0xc3 {
        Some((HostOp::Ret, 1))
    } else if first == 0xbe {
        if left < 5 {
            return None;
        }
        let value = word_to_signed(make_word(code[at + 1], code[at + 2]));
        let fill: u8 = if value < 0 {
            0xff
        } else {
            0
        };
        if code[at + 3] == fill && code[at + 4] == fill {
            Some((HostOp::LoadEsi { value }, 5))
        } else {
            None
        }
    } else if first == 0x62 && left >= 6 {
        match decode_evex(code, at) {
            Some((op, true)) => {
                if left < 7 {
                    return None;
                }
                let last = code[at + 6];
                match op {
                    HostOp::Compare { k, left, right, op: _, mask } => if last < 8 {
                        Some(
                            (HostOp::Compare { k, left, right, op: comparison_of(last), mask }, 7),
                        )
                    } else {
                        None
                    },
                    HostOp::ShiftLeft { dest, src, count: _ } => Some(
                        (HostOp::ShiftLeft { dest, src, count: last }, 7),
                    ),
                    _ => None,
                }
            },
            Some((op, false)) => Some((op, 6)),
            None => None,
        }
    } else {
        None
    }
}

/// The lane behind the code that starts at a position and runs up to its
/// first `ret`, or nothing where the code holds a byte that starts no
/// instruction of the translator, or ends without a `ret`.
pub open spec fn host_run(lane: Lane, code: Seq<u8>, at: int) -> Option<Lane>
    decreases code.len() - at,
{
    match host_decode(code, at) {
        Some((op, len)) => if op is Ret {
            Some(lane)
        } else if len >= 1 && at + len <= code.len() {
            host_run(lane_step(lane, op), code, at + len)
        } else {
            None
        },
        None => None,
    }
}

/// Whether each instruction of a sequence is plain and none is a `ret`.
pub open spec fn straight(ops: Seq<HostOp>) -> bool {
    forall|i: int| 0 <= i < ops.len() ==> plain(#[trigger] ops[i]) && !(ops[i] is Ret)
}

/// Code that holds the bytes of a sequence of host instructions and a
/// `ret` behind them does to a lane what the instructions do in turn.
pub proof fn lemma_host_run(lane: Lane, code: Seq<u8>, at: int, ops: Seq<HostOp>)
    requires
        straight(ops),
        0 <= at,
        at + encode_all(ops).len() < code.len(),
        code.subrange(at, at + encode_all(ops).len()) == encode_all(ops),
        code[at + encode_all(ops).len()] == 0xc3,
    ensures
        host_run(lane, code, at) == Some(lane_run(lane, ops)),
    decreases ops.len(),
{
    if ops.len() == 0 {
        assert(encode_all(ops).len() == 0);
    } else {
        let op = ops[0];
        let rest = ops.subrange(1, ops.len() as int);
        let bytes = encode_all(ops);
        assert(ops =~= seq![op] + rest);
        crate::il::lemma_encode_concat(seq![op], rest);
        crate::jit::lemma_encode_one(op);
        lemma_encode_len(op);
        let len = encode(op).len() as int;
        assert(bytes == encode(op) + encode_all(rest));
        assert(code.subrange(at, at + len) =~= bytes.subrange(0, len));
        assert(bytes.subrange(0, len) =~= encode(op));
        lemma_host_decode_encode(code, at, op);
        assert(code.subrange(at + len, at + len + encode_all(rest).len()) =~= bytes.subrange(
            len,
            bytes.len() as int,
        ));
        assert(bytes.subrange(len, bytes.len() as int) =~= encode_all(rest));
        assert(straight(rest)) by {
            assert forall|i: int| 0 <= i < rest.len() implies plain(#[trigger] rest[i]) && !(
            rest[i] is Ret) by {
                assert(rest[i] == ops[i + 1]);
            }
        }
        lemma_host_run(lane_step(lane, op), code, at + len, rest);
        crate::lanes::lemma_run_concat(lane, seq![op], rest);
        crate::lanes::lemma_run_one(lane, op);
    }
}

impl HostState {
    /// Run the code from a position up to its first `ret`. Returns whether
    /// the `ret` was reached: the code may hold a byte that starts no
    /// instruction of the translator, or end without a `ret`.
    pub fn run(&mut self, code: &[u8], start: usize) -> (res: bool)
        ensures
            forall|j: int|
                #![trigger old(self).lane(j)]
                0 <= j < 32 ==> match host_run(old(self).lane(j), code@, start as int) {
                    Some(lane) => res && final(self).lane(j) == lane,
                    None => !res,
                },
    {
        let mut at: usize = start;
        let size = code.len();
        loop
            invariant
                size == code@.len(),
                forall|j: int|
                    #![trigger old(self).lane(j)]
                    0 <= j < 32 ==> host_run(old(self).lane(j), code@, start as int) == host_run(
                        self.lane(j),
                        code@,
                        at as int,
                    ),
            decreases code@.len() - at,
        {
            match decode_host(code, at) {
                None => {
                    return false;
                },
                Some((op, len)) => {
                    match op {
                        HostOp::Ret => {
                            return true;
                        },
                        _ => {
                            self.step(&op);
                            at += len;
                        },
                    }
                },
            }
        }
    }
}

/// Two straight sequences, one behind the other, are straight.
proof fn lemma_straight_concat(first: Seq<HostOp>, second: Seq<HostOp>)
    requires
        straight(first),
        straight(second),
    ensures
        straight(first + second),
{
    assert forall|i: int| 0 <= i < (first + second).len() implies plain(
        #[trigger] (first + second)[i],
    ) && !((first + second)[i] is Ret) by {
        if i < first.len() {
            assert((first + second)[i] == first[i]);
        } else {
            assert((first + second)[i] == second[i - first.len()]);
        }
    }
}

/// The host instructions that set the flags from registers below 32 are
/// plain, and none is a `ret`.
proof fn lemma_status_straight(result: Zmm, arg1: Zmm, arg2: Zmm, zero: Zmm, tmp: Zmm)
    requires
        result.0 < 32,
        arg1.0 < 32,
        arg2.0 < 32,
        zero.0 < 32,
        tmp.0 < 32,
    ensures
        straight(status_ops(result, arg1, arg2, zero, tmp)),
{
    let p0 = crate::il::clear_ops(zero);
    let p1 = crate::il::zero_ops(result, zero, tmp);
    let p2 = crate::il::sign_ops(result, zero, tmp);
    let p3 = crate::il::carry_ops(result, arg1, arg2, zero, tmp);
    let p4 = crate::il::overflow_ops(result, arg1, arg2, zero, tmp);
    let p5 = crate::il::auxiliary_ops(result, arg1, arg2, zero, tmp);
    let p6 = crate::il::parity_ops(result, zero, tmp);
    assert(straight(p0));
    assert(straight(p1));
    assert(straight(p2));
    assert(straight(p3));
    assert(straight(p4));
    assert(straight(p5));
    assert(straight(p6));
    lemma_straight_concat(p0, p1);
    lemma_straight_concat(p0 + p1, p2);
    lemma_straight_concat(p0 + p1 + p2, p3);
    lemma_straight_concat(p0 + p1 + p2 + p3, p4);
    lemma_straight_concat(p0 + p1 + p2 + p3 + p4, p5);
    lemma_straight_concat(p0 + p1 + p2 + p3 + p4 + p5, p6);
}

/// The host instructions of the lowering of an instruction of the 8086 are
/// plain, and none is a `ret`.
pub proof fn lemma_lowering_straight(instruction: Instruction, index: int)
    requires
        vectorized(instruction),
        0 <= index < 4,
    ensures
        straight(lowering(il_of(instruction)->Some_0, index)),
{
    let il = il_of(instruction)->Some_0;
    let s0 = scratch(index);
    let s1 = scratch(index + 1);
    let s2 = scratch(index + 2);
    let s3 = scratch(index + 3);
    match il {
        JitIL::Mov { dest, src } => {},
        JitIL::Cmp { .. } => {},
        JitIL::Compare { left, right } => {
            let copy = copy_ops(right, s0);
            let op = seq![HostOp::Sub { dest: s1, left, right: s0 }];
            lemma_status_straight(s1, left, s0, s2, s3);
            lemma_straight_concat(copy, op);
            lemma_straight_concat(copy + op, status_ops(s1, left, s0, s2, s3));
        },
        _ => {
            let (kind, dest, op1, op2) = il.binary()->Some_0;
            let copy = copy_ops(op2, s0);
            let op = seq![HostOp::Move { dest: s1, src: op1 }, binary_op(kind, dest, s1, s0)];
            lemma_status_straight(dest, s1, s0, s2, s3);
            lemma_straight_concat(copy, op);
            lemma_straight_concat(copy + op, status_ops(dest, s1, s0, s2, s3));
        },
    }
}

/// Translated code does to the registers of an emulated core what the
/// executor does. Where the code holds at a position the bytes of the lowering
/// of an instruction that the translator lowers, and a `ret` behind them,
/// running it on a lane that holds the registers of the core succeeds, the
/// executor succeeds and changes neither memory nor segment registers, and all
/// ten registers are the same behind both, the flags among them.
pub proof fn lemma_code_matches_executor(
    instruction: Instruction,
    index: int,
    code: Seq<u8>,
    at: int,
    lane: Lane,
    machine: Machine,
)
    requires
        vectorized(instruction),
        0 <= index < 4,
        lane.wf(),
        machine.regs == lane.regs(),
        0 <= at,
        at + encode_all(lowering(il_of(instruction)->Some_0, index)).len() < code.len(),
        code.subrange(at, at + encode_all(lowering(il_of(instruction)->Some_0, index)).len())
            == encode_all(lowering(il_of(instruction)->Some_0, index)),
        code[at + encode_all(lowering(il_of(instruction)->Some_0, index)).len()] == 0xc3,
    ensures
        host_run(lane, code, at) is Some,
        step(machine, instruction) is Ok,
        step(machine, instruction)->Ok_0.memory == machine.memory,
        step(machine, instruction)->Ok_0.segments == machine.segments,
        host_run(lane, code, at)->Some_0.regs() == step(machine, instruction)->Ok_0.regs,
{
    let ops = lowering(il_of(instruction)->Some_0, index);
    lemma_lowering_straight(instruction, index);
    lemma_host_run(lane, code, at, ops);
    lemma_lane_matches_executor(instruction, lane, index, machine);
}

} // verus!
