//! Provides a minimal EVEX assembler for AVX512 instructions

use vstd::prelude::*;

verus! {

/// A 512-bit vector register, by its number
#[derive(Debug, Copy, Clone, PartialEq, Eq, Structural)]
pub struct Zmm(pub u8);

impl Zmm {
    /// Whether the fourth bit of the register's number is set.
    pub open spec fn bit3(self) -> int {
        (self.0 as int / 8) % 2
    }

    /// Whether the fifth bit of the register's number is set.
    pub open spec fn bit4(self) -> int {
        (self.0 as int / 16) % 2
    }

    /// Check if the zmm register needs a 4th bit set
    pub fn needs_4_bits(&self) -> (res: bool)
        ensures
            res == (self.bit3() == 1),
    {
        (self.0 / 8) % 2 == 1
    }

    /// Check if the zmm register needs a 5th bit set
    pub fn needs_5_bits(&self) -> (res: bool)
        ensures
            res == (self.bit4() == 1),
    {
        (self.0 / 16) % 2 == 1
    }
}

/// A K opmask register
#[derive(Debug, Copy, Clone, PartialEq, Eq, Structural)]
pub struct K(pub u8);

/// An AVX512 operand
#[derive(Debug, Copy, Clone, PartialEq, Eq)]
pub enum AvxOperand {
    Zmm(Zmm),
    Immediate(i16),
}

/// Opcodes for the avx512 instructions we are using
#[derive(Debug, Copy, Clone, PartialEq, Eq, Structural)]
pub enum AvxOpcode {
    /// vpsubw
    Sub,
    /// vmovdqa64
    Mov,
    /// vpbroadcastw from a general-purpose register
    Broadcast,
    /// vpcmpw
    Cmp,
    /// vpaddw
    Add,
    /// vpxorq
    Xor,
    /// vporw
    Or,
    /// vpandq
    And,
    /// vpsllw by an immediate: the first operand is the number 6 that extends
    /// the opcode, the second the destination, the third the source
    ShiftLeft,
}

/// From section 2.3.5 - The VEX prefix
/// Compaction of two-byte and three-byte opcode
#[derive(Debug, Copy, Clone, PartialEq, Eq, Structural)]
pub enum PrefixMmm {
    F,
    F38,
    F3A,
}

impl PrefixMmm {
    /// The value of the field in the prefix.
    pub open spec fn spec_bits(self) -> int {
        match self {
            PrefixMmm::F => 1,
            PrefixMmm::F38 => 2,
            PrefixMmm::F3A => 3,
        }
    }

    /// The value of the field in the prefix
    pub fn bits(self) -> (res: u8)
        ensures
            res == self.spec_bits(),
    {
        match self {
            PrefixMmm::F => 1,
            PrefixMmm::F38 => 2,
            PrefixMmm::F3A => 3,
        }
    }
}

impl AvxOpcode {
    /// The opcode byte.
    pub open spec fn spec_code(self) -> u8 {
        match self {
            AvxOpcode::Sub => 0xf9,
            AvxOpcode::Mov => 0x6f,
            AvxOpcode::Broadcast => 0x7b,
            AvxOpcode::Cmp => 0x3f,
            AvxOpcode::Add => 0xfd,
            AvxOpcode::Xor => 0xef,
            AvxOpcode::Or => 0xeb,
            AvxOpcode::And => 0xdb,
            AvxOpcode::ShiftLeft => 0x71,
        }
    }

    /// The opcode map of the instruction.
    pub open spec fn spec_mmm(self) -> PrefixMmm {
        match self {
            AvxOpcode::Broadcast => PrefixMmm::F38,
            AvxOpcode::Cmp => PrefixMmm::F3A,
            _ => PrefixMmm::F,
        }
    }

    /// Whether the instruction has the W bit set.
    pub open spec fn spec_is_wide(self) -> bool {
        self == AvxOpcode::Cmp || self == AvxOpcode::Mov || self == AvxOpcode::Xor || self
            == AvxOpcode::And
    }

    /// Whether the encoding of the instruction names a second source
    /// register beside the two of its last byte.
    pub open spec fn spec_has_second_source(self) -> bool {
        self != AvxOpcode::Mov && self != AvxOpcode::Broadcast
    }

    /// The opcode byte
    pub fn code(&self) -> (res: u8)
        ensures
            res == self.spec_code(),
    {
        match self {
            AvxOpcode::Sub => 0xf9,
            AvxOpcode::Mov => 0x6f,
            AvxOpcode::Broadcast => 0x7b,
            AvxOpcode::Cmp => 0x3f,
            AvxOpcode::Add => 0xfd,
            AvxOpcode::Xor => 0xef,
            AvxOpcode::Or => 0xeb,
            AvxOpcode::And => 0xdb,
            AvxOpcode::ShiftLeft => 0x71,
        }
    }

    /// Returns the `mmm` field type for the opcode
    pub fn mmm(&self) -> (res: PrefixMmm)
        ensures
            res == self.spec_mmm(),
    {
        match self {
            AvxOpcode::Broadcast => PrefixMmm::F38,
            AvxOpcode::Cmp => PrefixMmm::F3A,
            _ => PrefixMmm::F,
        }
    }

    /// Returns `true` if the opcode is a wide instruction (W1 prefix)
    pub fn is_wide(&self) -> (res: bool)
        ensures
            res == self.spec_is_wide(),
    {
        match self {
            AvxOpcode::Cmp | AvxOpcode::Mov | AvxOpcode::Xor | AvxOpcode::And => true,
            _ => false,
        }
    }

    /// Whether the encoding names a second source register
    pub fn has_second_source(&self) -> (res: bool)
        ensures
            res == self.spec_has_second_source(),
    {
        match self {
            AvxOpcode::Mov | AvxOpcode::Broadcast => false,
            _ => true,
        }
    }
}

/// The return type from an assembly of an AVX512 instruction
#[derive(Debug, Copy, Clone, PartialEq, Eq)]
pub enum EvexResult {
    Bytes6([u8; 6]),
    Bytes7([u8; 7]),
}

impl View for EvexResult {
    type V = Seq<u8>;

    open spec fn view(&self) -> Seq<u8> {
        match self {
            EvexResult::Bytes6(bytes) => bytes@,
            EvexResult::Bytes7(bytes) => bytes@,
        }
    }
}

impl EvexResult {
    /// The bytes of the instruction
    pub fn as_slice(&self) -> (res: &[u8])
        ensures
            res@ == self@,
    {
        match self {
            EvexResult::Bytes6(bytes) => bytes,
            EvexResult::Bytes7(bytes) => bytes,
        }
    }
}

/// The second source of an instruction: the middle operand of three. Where
/// only two operands are given, and the encoding names a second source, the
/// destination is also the second source.
pub open spec fn second_source(opcode: AvxOpcode, op1: Zmm, op2: Zmm, op3: Option<Zmm>) -> Option<
    Zmm,
> {
    match op3 {
        Some(_) => Some(op2),
        None => if opcode.spec_has_second_source() {
            Some(op1)
        } else {
            None
        },
    }
}

/// The last operand of an instruction.
pub open spec fn last_source(op2: Zmm, op3: Option<Zmm>) -> Zmm {
    match op3 {
        Some(op3) => op3,
        None => op2,
    }
}

/// The first payload byte of the prefix: the inverted high bits of the
/// destination and of the last operand, and the opcode map.
pub open spec fn payload0(opcode: AvxOpcode, op1: Zmm, last: Zmm) -> int {
    128 * (1 - op1.bit3()) + 64 * (1 - last.bit4()) + 32 * (1 - last.bit3()) + 16 * (1
        - op1.bit4()) + opcode.spec_mmm().spec_bits()
}

/// The second payload byte of the prefix: the W bit, the inverted low four
/// bits of the second source, a set bit, and the prefix 66.
pub open spec fn payload1(opcode: AvxOpcode, second: Option<Zmm>) -> int {
    128 * (if opcode.spec_is_wide() {
        1int
    } else {
        0
    }) + 8 * (match second {
        Some(reg) => 15 - reg.0 as int % 16,
        None => 15,
    }) + 4 + 1
}

/// The third payload byte of the prefix: the vector length of 512 bits, the
/// inverted fifth bit of the second source, and the number of the opmask.
pub open spec fn payload2(second: Option<Zmm>, kmask: Option<K>) -> int {
    64 + 8 * (match second {
        Some(reg) => 1 - reg.bit4(),
        None => 1,
    }) + (match kmask {
        Some(k) => k.0 as int % 8,
        None => 0,
    })
}

/// The last byte before the immediate: both operands are registers.
pub open spec fn modrm(op1: Zmm, last: Zmm) -> int {
    192 + 8 * (op1.0 as int % 8) + last.0 as int % 8
}

/// The bytes of an instruction.
pub open spec fn evex_bytes(
    opcode: AvxOpcode,
    op1: Zmm,
    op2: Zmm,
    op3: Option<Zmm>,
    imm: Option<u8>,
    kmask: Option<K>,
) -> Seq<u8> {
    let second = second_source(opcode, op1, op2, op3);
    let last = last_source(op2, op3);
    let head = seq![
        0x62u8,
        payload0(opcode, op1, last) as u8,
        payload1(opcode, second) as u8,
        payload2(second, kmask) as u8,
        opcode.spec_code(),
        modrm(op1, last) as u8,
    ];
    match imm {
        Some(imm) => head.push(imm),
        None => head,
    }
}

/// Reference: Section 2.7.1 in Intel® 64 and IA-32 Architectures Software Developer’s Manual
/// Volume 2 (2A, 2B, 2C, & 2D): Instruction Set Reference, A-Z
pub fn evex(
    opcode: AvxOpcode,
    op1: Zmm,
    op2: Zmm,
    op3: Option<Zmm>,
    imm: Option<u8>,
    kmask: Option<K>,
) -> (res: EvexResult)
    ensures
        res@ == evex_bytes(opcode, op1, op2, op3, imm, kmask),
{
    // Always 0x62 evex prefix
    let evex_prefix: u8 = 0x62;

    // (dst, src) => (dst, dst, src)
    let (second, last) = match op3 {
        Some(op3) => (Some(op2), op3),
        None => if opcode.has_second_source() {
            (Some(op1), op2)
        } else {
            (None, op2)
        },
    };

    // Construct the first evex payload byte
    // 7 6 5 4 3 2 1 0
    // R X B R'0 0 m m
    let r: u8 = if op1.needs_4_bits() { 0 } else { 1 };
    let x: u8 = if last.needs_5_bits() { 0 } else { 1 };
    let b: u8 = if last.needs_4_bits() { 0 } else { 1 };
    let rprime: u8 = if op1.needs_5_bits() { 0 } else { 1 };
    let pa: u8 = 128 * r + 64 * x + 32 * b + 16 * rprime + opcode.mmm().bits();

    // Construct the second evex payload byte
    // 7 6 5 4 3 2 1 0
    // W v v v v 1 p p
    let w: u8 = if opcode.is_wide() { 1 } else { 0 };
    let vvvv: u8 = match second {
        Some(reg) => 15 - reg.0 % 16,
        None => 15,
    };
    let pb: u8 = 128 * w + 8 * vvvv + 4 + 1;

    // Construct the third evex payload byte
    // 7 6 5 4 3 2 1 0
    // z L'L b V'a a a
    let vprime: u8 = match second {
        Some(reg) => if reg.needs_5_bits() { 0 } else { 1 },
        None => 1,
    };
    let aaa: u8 = match kmask {
        Some(k) => k.0 % 8,
        None => 0,
    };
    let pc: u8 = 64 + 8 * vprime + aaa;

    // Construct the modrm for this instruction
    let modrm: u8 = 192 + 8 * (op1.0 % 8) + last.0 % 8;

    // Return the result of this assembly
    match imm {
        Some(imm) => {
            let res = EvexResult::Bytes7([evex_prefix, pa, pb, pc, opcode.code(), modrm, imm]);
            assert(res@ =~= evex_bytes(opcode, op1, op2, op3, Some(imm), kmask));
            res
        },
        None => {
            let res = EvexResult::Bytes6([evex_prefix, pa, pb, pc, opcode.code(), modrm]);
            assert(res@ =~= evex_bytes(opcode, op1, op2, op3, None, kmask));
            res
        },
    }
}

/// An AVX512 instruction that is put together part by part
#[derive(Debug, Copy, Clone, PartialEq, Eq)]
pub struct Avx512Instruction {
    pub op1: Option<Zmm>,
    pub op2: Option<Zmm>,
    pub op3: Option<Zmm>,
    pub opcode: Option<AvxOpcode>,
    pub imm: Option<u8>,
    pub kmask: Option<K>,
}

impl Avx512Instruction {
    /// An instruction without any part
    pub fn new() -> (res: Self)
        ensures
            res == (Avx512Instruction {
                op1: None,
                op2: None,
                op3: None,
                opcode: None,
                imm: None,
                kmask: None,
            }),
    {
        Avx512Instruction { op1: None, op2: None, op3: None, opcode: None, imm: None, kmask: None }
    }

    /// Set the first operand, the destination
    pub fn op1(self, op1: Zmm) -> (res: Self)
        ensures
            res == (Avx512Instruction { op1: Some(op1), ..self }),
    {
        let mut res = self;
        res.op1 = Some(op1);
        res
    }

    /// Set the second operand
    pub fn op2(self, op2: Zmm) -> (res: Self)
        ensures
            res == (Avx512Instruction { op2: Some(op2), ..self }),
    {
        let mut res = self;
        res.op2 = Some(op2);
        res
    }

    /// Set the third operand
    pub fn op3(self, op3: Zmm) -> (res: Self)
        ensures
            res == (Avx512Instruction { op3: Some(op3), ..self }),
    {
        let mut res = self;
        res.op3 = Some(op3);
        res
    }

    /// Set the opcode
    pub fn opcode(self, opcode: AvxOpcode) -> (res: Self)
        ensures
            res == (Avx512Instruction { opcode: Some(opcode), ..self }),
    {
        let mut res = self;
        res.opcode = Some(opcode);
        res
    }

    /// Set the immediate byte
    pub fn imm(self, imm: u8) -> (res: Self)
        ensures
            res == (Avx512Instruction { imm: Some(imm), ..self }),
    {
        let mut res = self;
        res.imm = Some(imm);
        res
    }

    /// Set the opmask under which the instruction writes
    pub fn kmask(self, kmask: K) -> (res: Self)
        ensures
            res == (Avx512Instruction { kmask: Some(kmask), ..self }),
    {
        let mut res = self;
        res.kmask = Some(kmask);
        res
    }

    /// Whether the instruction has the parts without which it cannot be assembled.
    pub open spec fn complete(self) -> bool {
        self.op1.is_some() && self.op2.is_some() && self.opcode.is_some()
    }

    /// The bytes of the instruction.
    pub open spec fn bytes(self) -> Seq<u8> {
        evex_bytes(
            self.opcode->Some_0,
            self.op1->Some_0,
            self.op2->Some_0,
            self.op3,
            self.imm,
            self.kmask,
        )
    }

    /// Assemble the instruction, which has an opcode and its first two operands
    pub fn assemble(self) -> (res: EvexResult)
        requires
            self.complete(),
        ensures
            res@ == self.bytes(),
    {
        evex(
            self.opcode.unwrap(),
            self.op1.unwrap(),
            self.op2.unwrap(),
            self.op3,
            self.imm,
            self.kmask,
        )
    }
}

impl Default for Avx512Instruction {
    fn default() -> (res: Self)
        ensures
            res == (Avx512Instruction {
                op1: None,
                op2: None,
                op3: None,
                opcode: None,
                imm: None,
                kmask: None,
            }),
    {
        Avx512Instruction::new()
    }
}

} // verus!
