//! An 8086 emulator

use crate::bits::{sign_extend, sign_extend_byte, signed_to_word, to_unsigned};
use crate::const_checks::valid_address_size;
use crate::flags::{flag_set, EFlags};
use crate::instruction::{Instruction, Operand};
use crate::memory::{low_byte, read_byte, read_word, write_byte, write_word, Address, Memory};
use crate::memory_operand::{MemoryOperand, MemorySize};
use crate::register::{Register, SegmentRegister, SubRegister};
use vstd::prelude::*;

verus! {

/// Errors of the executor
#[derive(Debug, Copy, Clone, PartialEq, Eq)]
pub enum Error {
    /// The executor does not implement this instruction
    Unimplemented(Instruction),
    /// The operand cannot be read or written as a value in memory
    UnsupportedOperand,
    /// Attempted to read an out of bounds address
    OutOfBoundsRead(Address),
    /// Attempted to write an out of bounds address
    OutOfBoundsWrite(Address),
}

/// The register state of the emulator: the ten 16-bit registers, each at
/// the position that `Register::index` gives.
#[derive(Debug, Clone, Copy, PartialEq, Eq)]
pub struct RegisterState {
    pub regs: [u16; 10],
}

impl View for RegisterState {
    type V = Seq<u16>;

    open spec fn view(&self) -> Seq<u16> {
        self.regs@
    }
}

impl Default for RegisterState {
    fn default() -> (res: Self)
        ensures
            res@ == Seq::new(10, |i: int| 0u16),
    {
        RegisterState::new()
    }
}

/// The value of a register: of a 16-bit register the word, of a low half
/// the word's low byte, of a high half its high byte.
pub open spec fn read_register(regs: Seq<u16>, reg: Register) -> u16 {
    let word = regs[reg.slot()];
    match reg.parts().1 {
        SubRegister::Full => word,
        SubRegister::Low => (word % 256) as u16,
        SubRegister::High => (word / 256) as u16,
    }
}

/// The registers after a register was written: a 16-bit register takes the
/// value, a half takes the value's low byte and leaves the other half alone.
pub open spec fn write_register(regs: Seq<u16>, reg: Register, value: u16) -> Seq<u16> {
    let word = regs[reg.slot()];
    match reg.parts().1 {
        SubRegister::Full => regs.update(reg.slot(), value),
        SubRegister::Low => regs.update(reg.slot(), ((word / 256) * 256 + value % 256) as u16),
        SubRegister::High => regs.update(reg.slot(), (word % 256 + 256 * (value % 256)) as u16),
    }
}

/// Number of bits that are set in a number.
pub open spec fn ones(n: nat) -> nat
    decreases n,
{
    if n == 0 {
        0
    } else {
        n % 2 + ones(n / 2)
    }
}

/// Carry as the executor computes it: neither argument has its top bit
/// set, and the result has.
pub open spec fn carry_of(result: u16, arg1: u16, arg2: u16) -> bool {
    arg1 < 0x8000 && arg2 < 0x8000 && result >= 0x8000
}

/// Overflow as the executor computes it: both arguments have their top bit
/// set, and the result has not.
pub open spec fn overflow_of(result: u16, arg1: u16, arg2: u16) -> bool {
    arg1 >= 0x8000 && arg2 >= 0x8000 && result < 0x8000
}

/// Auxiliary carry as the executor computes it: bit 7 is clear in both
/// arguments and set in the result.
pub open spec fn auxiliary_of(result: u16, arg1: u16, arg2: u16) -> bool {
    (arg1 / 128) % 2 == 0 && (arg2 / 128) % 2 == 0 && (result / 128) % 2 == 1
}

/// Parity: the low byte of the result has an even number of bits set.
pub open spec fn parity_of(result: u16) -> bool {
    ones((result % 256) as nat) % 2 == 0
}

/// The flags word after an arithmetic instruction with the given result and
/// arguments.
pub open spec fn status_flags(result: u16, arg1: u16, arg2: u16) -> u16 {
    ((if carry_of(result, arg1, arg2) {
        0x0001int
    } else {
        0
    }) + (if parity_of(result) {
        0x0004int
    } else {
        0
    }) + (if auxiliary_of(result, arg1, arg2) {
        0x0010int
    } else {
        0
    }) + (if result == 0 {
        0x0040int
    } else {
        0
    }) + (if result >= 0x8000 {
        0x0080int
    } else {
        0
    }) + (if overflow_of(result, arg1, arg2) {
        0x0800int
    } else {
        0
    })) as u16
}

/// The linear address of a memory operand: its direct address, or else the
/// sum of its base registers and its displacement, wrapped to 16 bits.
pub open spec fn effective_address(regs: Seq<u16>, memory: MemoryOperand) -> u16 {
    match memory.address {
        Some(address) => address,
        None => {
            let base1 = match memory.base1 {
                Some(reg) => read_register(regs, reg) as int,
                None => 0,
            };
            let base2 = match memory.base2 {
                Some(reg) => read_register(regs, reg) as int,
                None => 0,
            };
            let displacement = match memory.displacement {
                Some(d) => d as int,
                None => 0,
            };
            ((base1 + base2 + displacement) % 0x10000) as u16
        },
    }
}

impl RegisterState {
    /// The value of the 16-bit register that holds the given register.
    pub open spec fn word(&self, reg: Register) -> u16 {
        self@[reg.slot()]
    }

    /// A register state with every register zero
    pub fn new() -> (res: RegisterState)
        ensures
            res@ == Seq::new(10, |i: int| 0u16),
    {
        let res = RegisterState { regs: [0, 0, 0, 0, 0, 0, 0, 0, 0, 0] };
        assert(res@ =~= Seq::new(10, |i: int| 0u16));
        res
    }

    /// The value of the given register
    pub fn get(&self, reg: Register) -> (res: u16)
        ensures
            res == read_register(self@, reg),
    {
        let (main, part) = reg.as_sub_register();
        let word = self.regs[reg.index()];
        match part {
            SubRegister::Full => word,
            SubRegister::Low => word % 256,
            SubRegister::High => word / 256,
        }
    }

    /// Set the given register to the low bits of the value that fit into it
    pub fn set(&mut self, reg: Register, value: u16)
        ensures
            final(self)@ == write_register(old(self)@, reg, value),
    {
        let (main, part) = reg.as_sub_register();
        let slot = reg.index();
        let word = self.regs[slot];
        let stored: u16 = match part {
            SubRegister::Full => value,
            SubRegister::Low => (word / 256) * 256 + value % 256,
            SubRegister::High => word % 256 + 256 * (value % 256),
        };
        self.regs[slot] = stored;
    }

    /// The instruction pointer
    pub fn ip(&self) -> (res: u16)
        ensures
            res == self.word(Register::Ip),
    {
        self.regs[8]
    }

    /// Set the instruction pointer
    pub fn set_ip(&mut self, value: u16)
        ensures
            final(self)@ == old(self)@.update(Register::Ip.slot(), value),
    {
        self.regs[8] = value;
    }

    /// The flags word
    pub fn flags(&self) -> (res: u16)
        ensures
            res == self.word(Register::Flags),
    {
        self.regs[9]
    }

    /// Whether the given flag is set
    pub fn flag(&self, flag: EFlags) -> (res: bool)
        ensures
            res == flag_set(self.word(Register::Flags), flag),
    {
        (self.regs[9] / flag.mask()) % 2 == 1
    }
}

impl RegisterState {
    /// Get this register from the register file
    pub fn ax(&self) -> (res: u16)
        ensures
            res == self.word(Register::Ax),
    {
        self.regs[0]
    }

    /// Get this register from the register file
    pub fn bx(&self) -> (res: u16)
        ensures
            res == self.word(Register::Bx),
    {
        self.regs[1]
    }

    /// Get this register from the register file
    pub fn cx(&self) -> (res: u16)
        ensures
            res == self.word(Register::Cx),
    {
        self.regs[2]
    }

    /// Get this register from the register file
    pub fn dx(&self) -> (res: u16)
        ensures
            res == self.word(Register::Dx),
    {
        self.regs[3]
    }

    /// Get this register from the register file
    pub fn si(&self) -> (res: u16)
        ensures
            res == self.word(Register::Si),
    {
        self.regs[4]
    }

    /// Get this register from the register file
    pub fn di(&self) -> (res: u16)
        ensures
            res == self.word(Register::Di),
    {
        self.regs[5]
    }

    /// Get this register from the register file
    pub fn bp(&self) -> (res: u16)
        ensures
            res == self.word(Register::Bp),
    {
        self.regs[6]
    }

    /// Get this register from the register file
    pub fn sp(&self) -> (res: u16)
        ensures
            res == self.word(Register::Sp),
    {
        self.regs[7]
    }

    /// Whether this flag is set in the flags register
    pub fn zero_flag(&self) -> (res: bool)
        ensures
            res == flag_set(self.word(Register::Flags), EFlags::Zero),
    {
        self.flag(EFlags::Zero)
    }

    /// Whether this flag is set in the flags register
    pub fn sign_flag(&self) -> (res: bool)
        ensures
            res == flag_set(self.word(Register::Flags), EFlags::Sign),
    {
        self.flag(EFlags::Sign)
    }

    /// Whether this flag is set in the flags register
    pub fn carry_flag(&self) -> (res: bool)
        ensures
            res == flag_set(self.word(Register::Flags), EFlags::Carry),
    {
        self.flag(EFlags::Carry)
    }

    /// Whether this flag is set in the flags register
    pub fn parity_flag(&self) -> (res: bool)
        ensures
            res == flag_set(self.word(Register::Flags), EFlags::Parity),
    {
        self.flag(EFlags::Parity)
    }

    /// Whether this flag is set in the flags register
    pub fn overflow_flag(&self) -> (res: bool)
        ensures
            res == flag_set(self.word(Register::Flags), EFlags::Overflow),
    {
        self.flag(EFlags::Overflow)
    }

    /// Whether this flag is set in the flags register
    pub fn auxillary_carry_flag(&self) -> (res: bool)
        ensures
            res == flag_set(self.word(Register::Flags), EFlags::Auxillary),
    {
        self.flag(EFlags::Auxillary)
    }
}

/// The state of the emulated machine.
pub struct Machine {
    /// The ten 16-bit registers
    pub regs: Seq<u16>,
    /// The four segment registers
    pub segments: Seq<u16>,
    /// The memory
    pub memory: Seq<u8>,
}

/// The emulated machine
pub struct Emulator<const MEMORY_SIZE: usize> {
    /// The memory in this emulator
    pub memory: Memory<MEMORY_SIZE>,
    /// Register state of the emulator
    pub registers: RegisterState,
    /// Segment registers
    pub segments: [u16; 4],
}

impl<const MEMORY_SIZE: usize> View for Emulator<MEMORY_SIZE> {
    type V = Machine;

    open spec fn view(&self) -> Machine {
        Machine { regs: self.registers@, segments: self.segments@, memory: self.memory.memory@ }
    }
}

/// Number of bits that are set in a byte
pub fn count_ones(value: u8) -> (res: u8)
    ensures
        res == ones(value as nat),
{
    let mut rest: u8 = value;
    let mut count: u8 = 0;
    while rest > 0
        invariant
            ones(value as nat) == count + ones(rest as nat),
            count + rest <= 255,
        decreases rest,
    {
        count += rest % 2;
        rest = rest / 2;
    }
    count
}

/// The flags word after an arithmetic instruction with the given result and
/// arguments
pub fn compute_status_flags(val: u16, arg1: u16, arg2: u16) -> (res: u16)
    ensures
        res == status_flags(val, arg1, arg2),
{
    let mut new_flags: u16 = 0;
    if val == 0 {
        new_flags += 0x0040;
    }
    if val >= 0x8000 {
        new_flags += 0x0080;
    }
    if arg1 >= 0x8000 && arg2 >= 0x8000 && val < 0x8000 {
        new_flags += 0x0800;
    }
    if arg1 < 0x8000 && arg2 < 0x8000 && val >= 0x8000 {
        new_flags += 0x0001;
    }
    if count_ones((val % 256) as u8) % 2 == 0 {
        new_flags += 0x0004;
    }
    if (arg1 / 128) % 2 == 0 && (arg2 / 128) % 2 == 0 && (val / 128) % 2 == 1 {
        new_flags += 0x0010;
    }
    new_flags
}

/// The bits of a word that is a sum of the masks of the status flags.
proof fn lemma_flag_bits(word: int, c: int, p: int, a: int, z: int, s: int, o: int)
    by (nonlinear_arith)
    requires
        0 <= c <= 1,
        0 <= p <= 1,
        0 <= a <= 1,
        0 <= z <= 1,
        0 <= s <= 1,
        0 <= o <= 1,
        word == c + 4 * p + 16 * a + 64 * z + 128 * s + 2048 * o,
    ensures
        word % 2 == c,
        (word / 4) % 2 == p,
        (word / 16) % 2 == a,
        (word / 64) % 2 == z,
        (word / 128) % 2 == s,
        (word / 2048) % 2 == o,
        0 <= word <= 0x08d5,
{
}

/// Each status flag of the computed word is set exactly when its condition holds,
/// and no other bit is set.
pub proof fn lemma_status_flags(result: u16, arg1: u16, arg2: u16)
    ensures
        flag_set(status_flags(result, arg1, arg2), EFlags::Carry) == carry_of(result, arg1, arg2),
        flag_set(status_flags(result, arg1, arg2), EFlags::Parity) == parity_of(result),
        flag_set(status_flags(result, arg1, arg2), EFlags::Auxillary) == auxiliary_of(
            result,
            arg1,
            arg2,
        ),
        flag_set(status_flags(result, arg1, arg2), EFlags::Zero) == (result == 0),
        flag_set(status_flags(result, arg1, arg2), EFlags::Sign) == (result >= 0x8000),
        flag_set(status_flags(result, arg1, arg2), EFlags::Overflow) == overflow_of(
            result,
            arg1,
            arg2,
        ),
        status_flags(result, arg1, arg2) <= 0x08d5,
{
    let c: int = if carry_of(result, arg1, arg2) { 1 } else { 0 };
    let p: int = if parity_of(result) { 1 } else { 0 };
    let a: int = if auxiliary_of(result, arg1, arg2) { 1 } else { 0 };
    let z: int = if result == 0 { 1 } else { 0 };
    let s: int = if result >= 0x8000 { 1 } else { 0 };
    let o: int = if overflow_of(result, arg1, arg2) { 1 } else { 0 };
    let word = c + 4 * p + 16 * a + 64 * z + 128 * s + 2048 * o;
    lemma_flag_bits(word, c, p, a, z, s, o);
    assert(status_flags(result, arg1, arg2) == word);
    assert(status_flags(result, arg1, arg2) / 1 == word);
}

/// Writing to a register the value that was read from it changes nothing.
pub proof fn lemma_write_read_register(regs: Seq<u16>, reg: Register)
    requires
        regs.len() == 10,
    ensures
        write_register(regs, reg, read_register(regs, reg)) == regs,
{
    assert(write_register(regs, reg, read_register(regs, reg)) =~= regs);
}

/// A register that was written holds the value, as far as it fits: a
/// 16-bit register all of it, a half its low byte.
pub proof fn lemma_read_written_register(regs: Seq<u16>, reg: Register, value: u16)
    requires
        regs.len() == 10,
    ensures
        reg.is_main() ==> read_register(write_register(regs, reg, value), reg) == value,
        !reg.is_main() ==> read_register(write_register(regs, reg, value), reg) == value % 256,
{
}

/// A write to one half of a register leaves the other half as it was.
pub proof fn lemma_halves_independent(regs: Seq<u16>, reg: Register, value: u16)
    requires
        regs.len() == 10,
    ensures
        reg.parts().1 == SubRegister::Low ==> write_register(regs, reg, value)[reg.slot()] / 256
            == regs[reg.slot()] / 256,
        reg.parts().1 == SubRegister::High ==> write_register(regs, reg, value)[reg.slot()] % 256
            == regs[reg.slot()] % 256,
        forall|i: int| 0 <= i < 10 && i != reg.slot() ==> write_register(regs, reg, value)[i] == regs[i],
{
}

/// The value of an operand that is a register or an immediate.
pub open spec fn plain_value(regs: Seq<u16>, operand: Operand) -> Option<u16> {
    match operand {
        Operand::Register(reg) => Some(read_register(regs, reg)),
        Operand::Immediate(value) => Some(to_unsigned(value)),
        _ => None,
    }
}

/// The value in memory that a memory operand names: a word, or a byte
/// that is widened with zeros.
pub open spec fn load(machine: Machine, memory: MemoryOperand) -> Result<u16, Error> {
    let address = Address(effective_address(machine.regs, memory) as usize);
    match memory.size {
        Some(MemorySize::Word) => match read_word(machine.memory, address) {
            Ok(value) => Ok(value),
            Err(_) => Err(Error::OutOfBoundsRead(address)),
        },
        Some(MemorySize::Byte) => match read_byte(machine.memory, address) {
            Ok(value) => Ok(value as u16),
            Err(_) => Err(Error::OutOfBoundsRead(address)),
        },
        None => Err(Error::UnsupportedOperand),
    }
}

/// The value that a mov loads from memory: a word, or a byte that is
/// widened with its sign.
pub open spec fn load_signed(machine: Machine, memory: MemoryOperand) -> Result<u16, Error> {
    match load(machine, memory) {
        Ok(value) => if memory.size == Some(MemorySize::Byte) {
            Ok(to_unsigned(sign_extend(value as u8)))
        } else {
            Ok(value)
        },
        Err(e) => Err(e),
    }
}

/// The memory after a value was stored where a memory operand names: the
/// word, or its low byte.
pub open spec fn store(machine: Machine, memory: MemoryOperand, value: u16) -> Result<
    Seq<u8>,
    Error,
> {
    let address = Address(effective_address(machine.regs, memory) as usize);
    match memory.size {
        Some(MemorySize::Word) => match write_word(machine.memory, address, value) {
            Ok(bytes) => Ok(bytes),
            Err(_) => Err(Error::OutOfBoundsWrite(address)),
        },
        Some(MemorySize::Byte) => match write_byte(machine.memory, address, low_byte(value)) {
            Ok(bytes) => Ok(bytes),
            Err(_) => Err(Error::OutOfBoundsWrite(address)),
        },
        None => Err(Error::UnsupportedOperand),
    }
}

/// Whether a conditional jump is taken with the given flags word, for the
/// sixteen conditional jumps.
pub open spec fn jump_condition(instruction: Instruction, flags: u16) -> Option<bool> {
    let carry = flag_set(flags, EFlags::Carry);
    let zero = flag_set(flags, EFlags::Zero);
    let sign = flag_set(flags, EFlags::Sign);
    let overflow = flag_set(flags, EFlags::Overflow);
    let parity = flag_set(flags, EFlags::Parity);
    match instruction {
        Instruction::JumpOverflow { .. } => Some(overflow),
        Instruction::JumpNotOverflow { .. } => Some(!overflow),
        Instruction::JumpBelow { .. } => Some(carry),
        Instruction::JumpNotBelow { .. } => Some(!carry),
        Instruction::JumpEqual { .. } => Some(zero),
        Instruction::JumpNotEqual { .. } => Some(!zero),
        Instruction::JumpBelowEqual { .. } => Some(carry || zero),
        Instruction::JumpNotBelowEqual { .. } => Some(!carry && !zero),
        Instruction::JumpSign { .. } => Some(sign),
        Instruction::JumpNotSign { .. } => Some(!sign),
        Instruction::JumpParityEven { .. } => Some(parity),
        Instruction::JumpParityOdd { .. } => Some(!parity),
        Instruction::JumpLessThan { .. } => Some(sign != overflow),
        Instruction::JumpNotLessThan { .. } => Some(sign == overflow),
        Instruction::JumpLessThanEqual { .. } => Some(zero || sign != overflow),
        Instruction::JumpNotLessThanEqual { .. } => Some(!zero && sign == overflow),
        _ => None,
    }
}

/// The offset that a jump or loop instruction holds.
pub open spec fn jump_offset(instruction: Instruction) -> Option<i16> {
    match instruction {
        Instruction::JumpOverflow { offset }
        | Instruction::JumpNotOverflow { offset }
        | Instruction::JumpBelow { offset }
        | Instruction::JumpNotBelow { offset }
        | Instruction::JumpEqual { offset }
        | Instruction::JumpNotEqual { offset }
        | Instruction::JumpBelowEqual { offset }
        | Instruction::JumpNotBelowEqual { offset }
        | Instruction::JumpSign { offset }
        | Instruction::JumpNotSign { offset }
        | Instruction::JumpParityEven { offset }
        | Instruction::JumpParityOdd { offset }
        | Instruction::JumpLessThan { offset }
        | Instruction::JumpNotLessThan { offset }
        | Instruction::JumpLessThanEqual { offset }
        | Instruction::JumpNotLessThanEqual { offset }
        | Instruction::Loop { offset }
        | Instruction::LoopWhileZero { offset }
        | Instruction::LoopWhileNotZero { offset }
        | Instruction::JumpCxZero { offset } => Some(offset),
        _ => None,
    }
}

/// Where a taken jump leads: the decoder has moved the instruction pointer
/// behind the two bytes of the jump, from whose first byte the offset counts.
pub open spec fn jump_target(ip: u16, offset: i16) -> u16 {
    ((ip + offset - 2) % 0x10000) as u16
}

/// The registers after a jump that is taken or not.
pub open spec fn jump_if(regs: Seq<u16>, taken: bool, offset: i16) -> Seq<u16> {
    if taken {
        regs.update(Register::Ip.slot(), jump_target(regs[Register::Ip.slot()], offset))
    } else {
        regs
    }
}

/// The registers after a loop instruction: CX is one less, unless it was
/// zero, and the jump is taken where CX has not reached zero and `go` holds.
pub open spec fn loop_step(regs: Seq<u16>, go: bool, offset: i16) -> Seq<u16> {
    let count = regs[Register::Cx.slot()];
    let left = if count == 0 {
        0u16
    } else {
        (count - 1) as u16
    };
    jump_if(regs.update(Register::Cx.slot(), left), left != 0 && go, offset)
}

/// The registers after an arithmetic instruction that writes its result to
/// a register and sets the flags from it behind that.
pub open spec fn arithmetic(regs: Seq<u16>, dest: Register, result: u16, arg1: u16, arg2: u16) -> Seq<
    u16,
> {
    write_register(regs, dest, result).update(
        Register::Flags.slot(),
        status_flags(result, arg1, arg2),
    )
}

/// The difference of two words, wrapped to 16 bits.
pub open spec fn wrapped_difference(a: u16, b: u16) -> u16 {
    ((a - b) % 0x10000) as u16
}

/// The sum of two words, wrapped to 16 bits.
pub open spec fn wrapped_sum(a: u16, b: u16) -> u16 {
    ((a + b) % 0x10000) as u16
}

/// What a mov does to the machine.
pub open spec fn step_mov(machine: Machine, instruction: Instruction, dest: Operand, src: Operand)
    -> Result<Machine, Error> {
    match (dest, src) {
        (Operand::Register(d), Operand::Immediate(_)) | (
            Operand::Register(d),
            Operand::Register(_),
        ) => Ok(
            Machine {
                regs: write_register(machine.regs, d, plain_value(machine.regs, src)->Some_0),
                ..machine
            },
        ),
        (Operand::SegmentRegister(d), Operand::Register(s)) => if s.is_main() {
            Ok(
                Machine {
                    segments: machine.segments.update(d.slot(), machine.regs[s.slot()]),
                    ..machine
                },
            )
        } else {
            Err(Error::Unimplemented(instruction))
        },
        (Operand::Register(d), Operand::SegmentRegister(s)) => if d.is_main() {
            Ok(Machine { regs: machine.regs.update(d.slot(), machine.segments[s.slot()]), ..machine })
        } else {
            Err(Error::Unimplemented(instruction))
        },
        (Operand::Register(d), Operand::Memory(memory)) => match load_signed(machine, memory) {
            Ok(value) => Ok(Machine { regs: write_register(machine.regs, d, value), ..machine }),
            Err(Error::UnsupportedOperand) => Err(Error::Unimplemented(instruction)),
            Err(e) => Err(e),
        },
        (Operand::Memory(memory), _) => match plain_value(machine.regs, src) {
            Some(value) => match store(machine, memory, value) {
                Ok(bytes) => Ok(Machine { memory: bytes, ..machine }),
                Err(Error::UnsupportedOperand) => Err(Error::Unimplemented(instruction)),
                Err(e) => Err(e),
            },
            None => Err(Error::Unimplemented(instruction)),
        },
        _ => Err(Error::Unimplemented(instruction)),
    }
}

/// What an instruction does to the machine: the machine behind it, or the
/// error, with which the machine stays as it is.
pub open spec fn step(machine: Machine, instruction: Instruction) -> Result<Machine, Error> {
    let regs = machine.regs;
    let flags = regs[Register::Flags.slot()];
    match instruction {
        Instruction::Mov { dest, src } => step_mov(machine, instruction, dest, src),
        Instruction::Sub { dest: Operand::Register(d), src } => match plain_value(regs, src) {
            Some(b) => {
                let a = read_register(regs, d);
                let result = wrapped_difference(a, b);
                if src is Register {
                    Ok(
                        Machine {
                            regs: write_register(
                                regs.update(Register::Flags.slot(), status_flags(result, a, b)),
                                d,
                                result,
                            ),
                            ..machine
                        },
                    )
                } else {
                    Ok(Machine { regs: arithmetic(regs, d, result, a, b), ..machine })
                }
            },
            None => Err(Error::Unimplemented(instruction)),
        },
        Instruction::Add { dest: Operand::Register(d), src } => {
            let a = read_register(regs, d);
            let value = match src {
                Operand::Memory(memory) => load(machine, memory),
                _ => match plain_value(regs, src) {
                    Some(b) => Ok(b),
                    None => Err(Error::UnsupportedOperand),
                },
            };
            match value {
                Ok(b) => Ok(Machine { regs: arithmetic(regs, d, wrapped_sum(a, b), a, b), ..machine }),
                Err(Error::UnsupportedOperand) => Err(Error::Unimplemented(instruction)),
                Err(e) => Err(e),
            }
        },
        Instruction::And { dest: Operand::Register(d), src } => match plain_value(regs, src) {
            Some(b) => {
                let a = read_register(regs, d);
                Ok(Machine { regs: arithmetic(regs, d, a & b, a, b), ..machine })
            },
            None => Err(Error::Unimplemented(instruction)),
        },
        Instruction::Or { dest: Operand::Register(d), src } => match plain_value(regs, src) {
            Some(b) => {
                let a = read_register(regs, d);
                Ok(Machine { regs: arithmetic(regs, d, a | b, a, b), ..machine })
            },
            None => Err(Error::Unimplemented(instruction)),
        },
        Instruction::Xor { dest: Operand::Register(d), src } => match plain_value(regs, src) {
            Some(b) => {
                let a = read_register(regs, d);
                Ok(Machine { regs: arithmetic(regs, d, a ^ b, a, b), ..machine })
            },
            None => Err(Error::Unimplemented(instruction)),
        },
        Instruction::Cmp { left: Operand::Register(l), right } => match plain_value(regs, right) {
            Some(b) => {
                let a = read_register(regs, l);
                Ok(
                    Machine {
                        regs: regs.update(
                            Register::Flags.slot(),
                            status_flags(wrapped_difference(a, b), a, b),
                        ),
                        ..machine
                    },
                )
            },
            None => Err(Error::Unimplemented(instruction)),
        },
        Instruction::Loop { offset } => Ok(Machine { regs: loop_step(regs, true, offset), ..machine }),
        Instruction::LoopWhileNotZero { offset } => Ok(
            Machine { regs: loop_step(regs, !flag_set(flags, EFlags::Zero), offset), ..machine },
        ),
        Instruction::LoopWhileZero { offset } => Ok(
            Machine { regs: loop_step(regs, flag_set(flags, EFlags::Zero), offset), ..machine },
        ),
        Instruction::JumpCxZero { offset } => Ok(
            Machine { regs: jump_if(regs, regs[Register::Cx.slot()] == 0, offset), ..machine },
        ),
        _ => match jump_condition(instruction, flags) {
            Some(taken) => Ok(
                Machine { regs: jump_if(regs, taken, jump_offset(instruction)->Some_0), ..machine },
            ),
            None => Err(Error::Unimplemented(instruction)),
        },
    }
}

/// The difference of two words, wrapped to 16 bits
pub fn wrapping_difference(a: u16, b: u16) -> (res: u16)
    ensures
        res == wrapped_difference(a, b),
{
    wrap_to_word((a as i32) - (b as i32))
}

/// The sum of two words, wrapped to 16 bits
pub fn wrapping_sum(a: u16, b: u16) -> (res: u16)
    ensures
        res == wrapped_sum(a, b),
{
    wrap_to_word((a as i32) + (b as i32))
}

/// The word that a number lies in, counted modulo 65536
fn wrap_to_word(value: i32) -> (res: u16)
    requires
        -0x10000 <= value <= 0x30000,
    ensures
        res == value as int % 0x10000,
{
    proof {
        vstd::arithmetic::div_mod::lemma_mod_add_multiples_vanish(value as int, 0x10000);
    }
    (((value + 0x10000) as u32) % 0x10000) as u16
}

/// Where a taken jump leads
fn target_of(ip: u16, offset: i16) -> (res: u16)
    ensures
        res == jump_target(ip, offset),
{
    wrap_to_word((ip as i32) + (offset as i32) - 2)
}

impl<const MEMORY_SIZE: usize> Emulator<MEMORY_SIZE> {
    /// The memory has its size, which is a valid one.
    pub open spec fn wf(&self) -> bool {
        self.memory.wf()
    }

    /// Create an emulator with blank memory
    pub fn new() -> (res: Self)
        requires
            valid_address_size(MEMORY_SIZE),
        ensures
            res.wf(),
            res@.regs == Seq::new(10, |i: int| 0u16),
            res@.segments == Seq::new(4, |i: int| 0u16),
            res@.memory == crate::memory::loaded(Seq::<u8>::empty(), MEMORY_SIZE as nat),
            res.memory.length == 0,
    {
        let res = Self { memory: Memory::new(), registers: RegisterState::new(), segments: [0, 0, 0, 0] };
        assert(res@.segments =~= Seq::new(4, |i: int| 0u16));
        res
    }

    /// Create an emulator whose memory holds the given image at its start
    pub fn with_image(data: &[u8]) -> (res: Result<Self, crate::memory::Error>)
        requires
            valid_address_size(MEMORY_SIZE),
        ensures
            data@.len() > MEMORY_SIZE ==> res is Err && res->Err_0
                == crate::memory::Error::ImageTooLarge(data@.len() as usize),
            data@.len() <= MEMORY_SIZE ==> res is Ok && res->Ok_0.wf() && res->Ok_0@.regs
                == Seq::new(10, |i: int| 0u16) && res->Ok_0@.segments == Seq::new(4, |i: int| 0u16)
                && res->Ok_0@.memory == crate::memory::loaded(data@, MEMORY_SIZE as nat)
                && res->Ok_0.memory.length == data@.len(),
    {
        match Memory::from_bytes(data) {
            Ok(memory) => {
                let res = Self { memory, registers: RegisterState::new(), segments: [0, 0, 0, 0] };
                assert(res@.segments =~= Seq::new(4, |i: int| 0u16));
                Ok(res)
            },
            Err(e) => Err(e),
        }
    }

    /// Get the register value in the given [`Register`]
    pub fn get_register_value(&self, reg: &Register) -> (res: u16)
        ensures
            res == read_register(self@.regs, *reg),
    {
        self.registers.get(*reg)
    }

    /// Get the address corresponding to the given [`MemoryOperand`]
    pub fn get_memory_address(&self, mem: &MemoryOperand) -> (res: Address)
        ensures
            res == Address(effective_address(self@.regs, *mem) as usize),
    {
        match mem.address {
            Some(address) => Address(address as usize),
            None => {
                let base1: i32 = match mem.base1 {
                    Some(reg) => self.registers.get(reg) as i32,
                    None => 0,
                };
                let base2: i32 = match mem.base2 {
                    Some(reg) => self.registers.get(reg) as i32,
                    None => 0,
                };
                let displacement: i32 = match mem.displacement {
                    Some(d) => d as i32,
                    None => 0,
                };
                Address(wrap_to_word(base1 + base2 + displacement) as usize)
            },
        }
    }

    /// Write the value of the source operand to the memory in [`MemoryOperand`]
    pub fn write_memory(&mut self, mem: &MemoryOperand, src: &Operand) -> (res: Result<(), Error>)
        requires
            old(self).wf(),
        ensures
            final(self).wf(),
            final(self).memory.length == old(self).memory.length,
            match plain_value(old(self)@.regs, *src) {
                Some(value) => match store(old(self)@, *mem, value) {
                    Ok(bytes) => res is Ok && final(self)@ == (Machine {
                        memory: bytes,
                        ..old(self)@
                    }),
                    Err(e) => res == Err::<(), Error>(e) && final(self)@ == old(self)@,
                },
                None => res == Err::<(), Error>(Error::UnsupportedOperand) && final(self)@ == old(
                    self,
                )@,
            },
    {
        let value: u16 = match src {
            Operand::Immediate(imm) => signed_to_word(*imm),
            Operand::Register(reg) => self.registers.get(*reg),
            _ => {
                return Err(Error::UnsupportedOperand);
            },
        };
        let address = self.get_memory_address(mem);
        match mem.size {
            Some(MemorySize::Word) => match self.memory.write_u16(address, value) {
                Ok(()) => Ok(()),
                Err(_) => Err(Error::OutOfBoundsWrite(address)),
            },
            Some(MemorySize::Byte) => match self.memory.write_u8(address, (value % 256) as u8) {
                Ok(()) => Ok(()),
                Err(_) => Err(Error::OutOfBoundsWrite(address)),
            },
            None => Err(Error::UnsupportedOperand),
        }
    }

    /// Read the value in the memory in [`MemoryOperand`]
    pub fn read_memory(&self, mem: &MemoryOperand) -> (res: Result<u16, Error>)
        requires
            self.wf(),
        ensures
            res == load(self@, *mem),
    {
        let address = self.get_memory_address(mem);
        match mem.size {
            Some(MemorySize::Word) => match self.memory.read_u16(address) {
                Ok(value) => Ok(value),
                Err(_) => Err(Error::OutOfBoundsRead(address)),
            },
            Some(MemorySize::Byte) => match self.memory.read_u8(address) {
                Ok(value) => Ok(value as u16),
                Err(_) => Err(Error::OutOfBoundsRead(address)),
            },
            None => Err(Error::UnsupportedOperand),
        }
    }

    /// Set the given [`Register`] to the given value
    pub fn set_register_value(&mut self, dest: &Register, imm: u16)
        requires
            dest.parts().1 == SubRegister::Low ==> imm <= 0xff,
        ensures
            final(self)@ == (Machine {
                regs: write_register(old(self)@.regs, *dest, imm),
                ..old(self)@
            }),
            final(self).memory == old(self).memory,
    {
        self.registers.set(*dest, imm);
    }

    /// Set the status flags based on the given result and arguments
    pub fn set_status_flags(&mut self, val: u16, arg1: u16, arg2: u16)
        ensures
            final(self)@ == (Machine {
                regs: old(self)@.regs.update(
                    Register::Flags.slot(),
                    status_flags(val, arg1, arg2),
                ),
                ..old(self)@
            }),
            final(self).memory == old(self).memory,
    {
        self.registers.regs[9] = compute_status_flags(val, arg1, arg2);
    }
}

impl<const MEMORY_SIZE: usize> Emulator<MEMORY_SIZE> {
    /// The value of an operand that is a register or an immediate
    fn value_of(&self, operand: &Operand) -> (res: Option<u16>)
        ensures
            res == plain_value(self@.regs, *operand),
    {
        match operand {
            Operand::Register(reg) => Some(self.registers.get(*reg)),
            Operand::Immediate(value) => Some(signed_to_word(*value)),
            _ => None,
        }
    }

    /// Whether the conditional jump is taken, for the sixteen conditional jumps
    fn condition(&self, instr: &Instruction) -> (res: Option<bool>)
        ensures
            res == jump_condition(*instr, self@.regs[Register::Flags.slot()]),
    {
        let carry = self.registers.flag(EFlags::Carry);
        let zero = self.registers.flag(EFlags::Zero);
        let sign = self.registers.flag(EFlags::Sign);
        let overflow = self.registers.flag(EFlags::Overflow);
        let parity = self.registers.flag(EFlags::Parity);
        match instr {
            Instruction::JumpOverflow { .. } => Some(overflow),
            Instruction::JumpNotOverflow { .. } => Some(!overflow),
            Instruction::JumpBelow { .. } => Some(carry),
            Instruction::JumpNotBelow { .. } => Some(!carry),
            Instruction::JumpEqual { .. } => Some(zero),
            Instruction::JumpNotEqual { .. } => Some(!zero),
            Instruction::JumpBelowEqual { .. } => Some(carry || zero),
            Instruction::JumpNotBelowEqual { .. } => Some(!carry && !zero),
            Instruction::JumpSign { .. } => Some(sign),
            Instruction::JumpNotSign { .. } => Some(!sign),
            Instruction::JumpParityEven { .. } => Some(parity),
            Instruction::JumpParityOdd { .. } => Some(!parity),
            Instruction::JumpLessThan { .. } => Some(sign != overflow),
            Instruction::JumpNotLessThan { .. } => Some(sign == overflow),
            Instruction::JumpLessThanEqual { .. } => Some(zero || sign != overflow),
            Instruction::JumpNotLessThanEqual { .. } => Some(!zero && sign == overflow),
            _ => None,
        }
    }

    /// Move the instruction pointer to the target of a jump, if it is taken
    fn jump(&mut self, taken: bool, offset: i16)
        ensures
            final(self)@ == (Machine {
                regs: jump_if(old(self)@.regs, taken, offset),
                ..old(self)@
            }),
            final(self).memory == old(self).memory,
    {
        if taken {
            let ip = self.registers.ip();
            self.registers.set_ip(target_of(ip, offset));
        }
    }

    /// Count CX down, and jump where it has not reached zero and `go` holds
    fn loop_once(&mut self, go: bool, offset: i16)
        ensures
            final(self)@ == (Machine {
                regs: loop_step(old(self)@.regs, go, offset),
                ..old(self)@
            }),
            final(self).memory == old(self).memory,
    {
        let count = self.registers.regs[2];
        let left: u16 = if count == 0 {
            0
        } else {
            count - 1
        };
        self.registers.regs[2] = left;
        self.jump(left != 0 && go, offset);
    }

    /// Write the result of an arithmetic instruction to a register and set
    /// the flags from it
    fn finish_arithmetic(&mut self, dest: Register, result: u16, arg1: u16, arg2: u16)
        ensures
            final(self)@ == (Machine {
                regs: arithmetic(old(self)@.regs, dest, result, arg1, arg2),
                ..old(self)@
            }),
            final(self).memory == old(self).memory,
    {
        self.registers.set(dest, result);
        self.set_status_flags(result, arg1, arg2);
    }

    /// Execute a mov
    fn execute_mov(&mut self, instr: &Instruction, dest: &Operand, src: &Operand) -> (res: Result<
        (),
        Error,
    >)
        requires
            old(self).wf(),
        ensures
            final(self).wf(),
            final(self).memory.length == old(self).memory.length,
            match step_mov(old(self)@, *instr, *dest, *src) {
                Ok(machine) => res is Ok && final(self)@ == machine,
                Err(e) => res == Err::<(), Error>(e) && final(self)@ == old(self)@,
            },
    {
        match (dest, src) {
            (Operand::Register(d), Operand::Immediate(imm)) => {
                self.registers.set(*d, signed_to_word(*imm));
                Ok(())
            },
            (Operand::Register(d), Operand::Register(s)) => {
                let value = self.registers.get(*s);
                self.registers.set(*d, value);
                Ok(())
            },
            (Operand::SegmentRegister(d), Operand::Register(s)) => {
                let (main, piece) = s.as_sub_register();
                match piece {
                    SubRegister::Full => {
                        self.segments[d.index()] = self.registers.regs[s.index()];
                        Ok(())
                    },
                    _ => Err(Error::Unimplemented(*instr)),
                }
            },
            (Operand::Register(d), Operand::SegmentRegister(s)) => {
                let (main, piece) = d.as_sub_register();
                match piece {
                    SubRegister::Full => {
                        self.registers.regs[d.index()] = self.segments[s.index()];
                        Ok(())
                    },
                    _ => Err(Error::Unimplemented(*instr)),
                }
            },
            (Operand::Register(d), Operand::Memory(memory)) => {
                match self.read_memory(memory) {
                    Ok(value) => {
                        let widened: u16 = match memory.size {
                            Some(MemorySize::Byte) => signed_to_word(
                                sign_extend_byte((value % 256) as u8),
                            ),
                            _ => value,
                        };
                        self.registers.set(*d, widened);
                        Ok(())
                    },
                    Err(Error::UnsupportedOperand) => Err(Error::Unimplemented(*instr)),
                    Err(e) => Err(e),
                }
            },
            (Operand::Memory(memory), _) => {
                match self.write_memory(memory, src) {
                    Ok(()) => Ok(()),
                    Err(Error::UnsupportedOperand) => Err(Error::Unimplemented(*instr)),
                    Err(e) => Err(e),
                }
            },
            _ => Err(Error::Unimplemented(*instr)),
        }
    }

    /// Execute the instruction: the registers and the memory change as the
    /// instruction says. On an error nothing has changed.
    pub fn execute(&mut self, instr: &Instruction) -> (res: Result<(), Error>)
        requires
            old(self).wf(),
        ensures
            final(self).wf(),
            final(self).memory.length == old(self).memory.length,
            match step(old(self)@, *instr) {
                Ok(machine) => res is Ok && final(self)@ == machine,
                Err(e) => res == Err::<(), Error>(e) && final(self)@ == old(self)@,
            },
    {
        match instr {
            Instruction::Mov { dest, src } => self.execute_mov(instr, dest, src),
            Instruction::Sub { dest: Operand::Register(d), src } => {
                match self.value_of(src) {
                    Some(b) => {
                        let a = self.registers.get(*d);
                        let result = wrapping_difference(a, b);
                        match src {
                            Operand::Register(_) => {
                                self.set_status_flags(result, a, b);
                                self.registers.set(*d, result);
                            },
                            _ => {
                                self.finish_arithmetic(*d, result, a, b);
                            },
                        }
                        Ok(())
                    },
                    None => Err(Error::Unimplemented(*instr)),
                }
            },
            Instruction::Add { dest: Operand::Register(d), src } => {
                let a = self.registers.get(*d);
                let value = match src {
                    Operand::Memory(memory) => self.read_memory(memory),
                    _ => match self.value_of(src) {
                        Some(b) => Ok(b),
                        None => Err(Error::UnsupportedOperand),
                    },
                };
                match value {
                    Ok(b) => {
                        self.finish_arithmetic(*d, wrapping_sum(a, b), a, b);
                        Ok(())
                    },
                    Err(Error::UnsupportedOperand) => Err(Error::Unimplemented(*instr)),
                    Err(e) => Err(e),
                }
            },
            Instruction::And { dest: Operand::Register(d), src } => {
                match self.value_of(src) {
                    Some(b) => {
                        let a = self.registers.get(*d);
                        self.finish_arithmetic(*d, a & b, a, b);
                        Ok(())
                    },
                    None => Err(Error::Unimplemented(*instr)),
                }
            },
            Instruction::Or { dest: Operand::Register(d), src } => {
                match self.value_of(src) {
                    Some(b) => {
                        let a = self.registers.get(*d);
                        self.finish_arithmetic(*d, a | b, a, b);
                        Ok(())
                    },
                    None => Err(Error::Unimplemented(*instr)),
                }
            },
            Instruction::Xor { dest: Operand::Register(d), src } => {
                match self.value_of(src) {
                    Some(b) => {
                        let a = self.registers.get(*d);
                        self.finish_arithmetic(*d, a ^ b, a, b);
                        Ok(())
                    },
                    None => Err(Error::Unimplemented(*instr)),
                }
            },
            Instruction::Cmp { left: Operand::Register(l), right } => {
                match self.value_of(right) {
                    Some(b) => {
                        let a = self.registers.get(*l);
                        self.set_status_flags(wrapping_difference(a, b), a, b);
                        Ok(())
                    },
                    None => Err(Error::Unimplemented(*instr)),
                }
            },
            Instruction::Loop { offset } => {
                self.loop_once(true, *offset);
                Ok(())
            },
            Instruction::LoopWhileNotZero { offset } => {
                let zero = self.registers.flag(EFlags::Zero);
                self.loop_once(!zero, *offset);
                Ok(())
            },
            Instruction::LoopWhileZero { offset } => {
                let zero = self.registers.flag(EFlags::Zero);
                self.loop_once(zero, *offset);
                Ok(())
            },
            Instruction::JumpCxZero { offset } => {
                let count = self.registers.regs[2];
                self.jump(count == 0, *offset);
                Ok(())
            },
            Instruction::JumpOverflow { offset }
            | Instruction::JumpNotOverflow { offset }
            | Instruction::JumpBelow { offset }
            | Instruction::JumpNotBelow { offset }
            | Instruction::JumpEqual { offset }
            | Instruction::JumpNotEqual { offset }
            | Instruction::JumpBelowEqual { offset }
            | Instruction::JumpNotBelowEqual { offset }
            | Instruction::JumpSign { offset }
            | Instruction::JumpNotSign { offset }
            | Instruction::JumpParityEven { offset }
            | Instruction::JumpParityOdd { offset }
            | Instruction::JumpLessThan { offset }
            | Instruction::JumpNotLessThan { offset }
            | Instruction::JumpLessThanEqual { offset }
            | Instruction::JumpNotLessThanEqual { offset } => {
                match self.condition(instr) {
                    Some(taken) => {
                        self.jump(taken, *offset);
                        Ok(())
                    },
                    None => Err(Error::Unimplemented(*instr)),
                }
            },
            _ => Err(Error::Unimplemented(*instr)),
        }
    }
}

} // verus!
