//! The assembly text of instructions and operands.
//!
//! Registers are printed in lower case and numbers in hexadecimal. A memory
//! operand is printed in brackets, behind the size of its access where it has
//! one, and with its segment override first inside the brackets.

use crate::bits::{signed_to_word, to_unsigned};
use crate::instruction::{Instruction, Operand, Repeat};
use crate::memory_operand::{MemoryOperand, MemorySize};
use crate::register::{Register, SegmentRegister};
use vstd::prelude::*;

verus! {

/// The digit with the given value, below sixteen.
pub open spec fn digit_text(d: int) -> Seq<char> {
    if d == 0 {
        "0"@
    } else if d == 1 {
        "1"@
    } else if d == 2 {
        "2"@
    } else if d == 3 {
        "3"@
    } else if d == 4 {
        "4"@
    } else if d == 5 {
        "5"@
    } else if d == 6 {
        "6"@
    } else if d == 7 {
        "7"@
    } else if d == 8 {
        "8"@
    } else if d == 9 {
        "9"@
    } else if d == 10 {
        "a"@
    } else if d == 11 {
        "b"@
    } else if d == 12 {
        "c"@
    } else if d == 13 {
        "d"@
    } else if d == 14 {
        "e"@
    } else {
        "f"@
    }
}

/// The digit at the given place of a number, or nothing where the number
/// does not reach that place.
pub open spec fn place_text(n: int, place: int, base: int) -> Seq<char> {
    if n >= place {
        digit_text((n / place) % base)
    } else {
        Seq::empty()
    }
}

/// The hexadecimal digits of a 16-bit number, without leading zeros.
pub open spec fn hex_digits(n: int) -> Seq<char> {
    place_text(n, 0x1000, 16) + place_text(n, 0x100, 16) + place_text(n, 0x10, 16) + digit_text(
        n % 16,
    )
}

/// A 16-bit number in hexadecimal, behind `0x`.
pub open spec fn hex_text(n: int) -> Seq<char> {
    "0x"@ + hex_digits(n)
}

/// The four hexadecimal digits of a 16-bit number.
pub open spec fn hex4_text(n: int) -> Seq<char> {
    digit_text((n / 0x1000) % 16) + digit_text((n / 0x100) % 16) + digit_text((n / 0x10) % 16)
        + digit_text(n % 16)
}

/// The decimal digits of a number below 100000, without leading zeros.
pub open spec fn decimal_digits(n: int) -> Seq<char> {
    place_text(n, 10000, 10) + place_text(n, 1000, 10) + place_text(n, 100, 10) + place_text(
        n,
        10,
        10,
    ) + digit_text(n % 10)
}

/// The target of a jump: `$`, the sign, and the offset in decimal.
pub open spec fn jump_target_text(offset: i16) -> Seq<char> {
    if offset >= 0 {
        "$+"@ + decimal_digits(offset as int)
    } else {
        "$-"@ + decimal_digits(-(offset as int))
    }
}

/// The size of an access and a space, or nothing.
pub open spec fn size_text(size: Option<MemorySize>) -> Seq<char> {
    match size {
        Some(size) => size.text() + " "@,
        None => Seq::empty(),
    }
}

/// The segment override and a colon, or nothing.
pub open spec fn segment_text(segment: Option<SegmentRegister>) -> Seq<char> {
    match segment {
        Some(segment) => segment.text() + ":"@,
        None => Seq::empty(),
    }
}

/// The base registers of a memory operand, joined by a plus sign.
pub open spec fn bases_text(memory: MemoryOperand) -> Seq<char> {
    match memory.base1 {
        Some(base1) => match memory.base2 {
            Some(base2) => base1.text() + " + "@ + base2.text(),
            None => base1.text(),
        },
        None => Seq::empty(),
    }
}

/// The displacement of a memory operand with its sign, or nothing where it is zero.
pub open spec fn displacement_text(displacement: Option<i16>) -> Seq<char> {
    match displacement {
        Some(d) => if d > 0 {
            " + "@ + hex_text(d as int)
        } else if d < 0 {
            " - "@ + hex_text(-(d as int))
        } else {
            Seq::empty()
        },
        None => Seq::empty(),
    }
}

/// What stands between the brackets of a memory operand, behind the segment.
pub open spec fn address_text(memory: MemoryOperand) -> Seq<char> {
    match memory.address {
        Some(address) => hex_text(address as int),
        None => bases_text(memory) + displacement_text(memory.displacement),
    }
}

/// The text of a memory operand.
pub open spec fn memory_text(memory: MemoryOperand) -> Seq<char> {
    size_text(memory.size) + "["@ + segment_text(memory.segment) + address_text(memory) + "]"@
}

/// The text of an operand.
pub open spec fn operand_text(operand: Operand) -> Seq<char> {
    match operand {
        Operand::Register(register) => register.text(),
        Operand::SegmentRegister(register) => register.text(),
        Operand::Immediate(value) => hex_text(to_unsigned(value) as int),
        Operand::Memory(memory) => memory_text(memory),
    }
}

/// The text of the operands of an instruction, behind its mnemonic.
pub open spec fn operands_text(operands: (Option<Operand>, Option<Operand>)) -> Seq<char> {
    match operands.0 {
        Some(first) => match operands.1 {
            Some(second) => " "@ + operand_text(first) + ", "@ + operand_text(second),
            None => " "@ + operand_text(first),
        },
        None => Seq::empty(),
    }
}

/// The repeat prefix of a string instruction and a space, or nothing.
pub open spec fn repeat_text(repeat: Option<Repeat>) -> Seq<char> {
    match repeat {
        Some(Repeat::WhileClearZeroFlag) => "repne "@,
        Some(Repeat::WhileSetZeroFlag) => "repe "@,
        None => Seq::empty(),
    }
}

/// The digit with the given value
pub fn digit_str(d: u16) -> (res: &'static str)
    requires
        d < 16,
    ensures
        res@ == digit_text(d as int),
{
    match d {
        0 => "0",
        1 => "1",
        2 => "2",
        3 => "3",
        4 => "4",
        5 => "5",
        6 => "6",
        7 => "7",
        8 => "8",
        9 => "9",
        10 => "a",
        11 => "b",
        12 => "c",
        13 => "d",
        14 => "e",
        _ => "f",
    }
}

/// Append the digit at the given place, where the number reaches it
fn push_place(out: &mut String, n: u16, place: u16, base: u16)
    requires
        place > 0,
        2 <= base <= 16,
    ensures
        final(out)@ == old(out)@ + place_text(n as int, place as int, base as int),
{
    if n >= place {
        out.append(digit_str((n / place) % base));
    } else {
        assert(out@ + Seq::<char>::empty() =~= out@);
    }
}

/// Append the hexadecimal digits of a number, without leading zeros
fn push_hex_digits(out: &mut String, n: u16)
    ensures
        final(out)@ == old(out)@ + hex_digits(n as int),
{
    push_place(out, n, 0x1000, 16);
    push_place(out, n, 0x100, 16);
    push_place(out, n, 0x10, 16);
    out.append(digit_str(n % 16));
    assert(out@ =~= old(out)@ + hex_digits(n as int));
}

/// Append a number in hexadecimal, behind `0x`
pub fn push_hex(out: &mut String, n: u16)
    ensures
        final(out)@ == old(out)@ + hex_text(n as int),
{
    out.append("0x");
    push_hex_digits(out, n);
    assert(out@ =~= old(out)@ + hex_text(n as int));
}

/// Append the four hexadecimal digits of a number
pub fn push_hex4(out: &mut String, n: u16)
    ensures
        final(out)@ == old(out)@ + hex4_text(n as int),
{
    out.append(digit_str((n / 0x1000) % 16));
    out.append(digit_str((n / 0x100) % 16));
    out.append(digit_str((n / 0x10) % 16));
    out.append(digit_str(n % 16));
    assert(out@ =~= old(out)@ + hex4_text(n as int));
}

/// Append the decimal digits of a number, without leading zeros
fn push_decimal(out: &mut String, n: u16)
    ensures
        final(out)@ == old(out)@ + decimal_digits(n as int),
{
    push_place(out, n, 10000, 10);
    push_place(out, n, 1000, 10);
    push_place(out, n, 100, 10);
    push_place(out, n, 10, 10);
    out.append(digit_str(n % 10));
    assert(out@ =~= old(out)@ + decimal_digits(n as int));
}

/// The size of a number without its sign
fn magnitude(value: i16) -> (res: u16)
    ensures
        value >= 0 ==> res == value,
        value < 0 ==> res == -(value as int),
{
    if value >= 0 {
        value as u16
    } else {
        (-(value as i32)) as u16
    }
}

/// Append the target of a jump
fn push_jump_target(out: &mut String, offset: i16)
    ensures
        final(out)@ == old(out)@ + jump_target_text(offset),
{
    if offset >= 0 {
        out.append("$+");
    } else {
        out.append("$-");
    }
    push_decimal(out, magnitude(offset));
    assert(out@ =~= old(out)@ + jump_target_text(offset));
}

/// Append the size of an access and a space, where there is a size
fn push_size(out: &mut String, size: Option<MemorySize>)
    ensures
        final(out)@ == old(out)@ + size_text(size),
{
    match size {
        Some(size) => {
            out.append(size.name());
            out.append(" ");
        },
        None => {},
    }
    assert(out@ =~= old(out)@ + size_text(size));
}

/// Append the segment override and a colon, where there is an override
fn push_segment(out: &mut String, segment: Option<SegmentRegister>)
    ensures
        final(out)@ == old(out)@ + segment_text(segment),
{
    match segment {
        Some(segment) => {
            out.append(segment.name());
            out.append(":");
        },
        None => {},
    }
    assert(out@ =~= old(out)@ + segment_text(segment));
}

/// Append the base registers of a memory operand
fn push_bases(out: &mut String, memory: &MemoryOperand)
    ensures
        final(out)@ == old(out)@ + bases_text(*memory),
{
    match memory.base1 {
        Some(base1) => {
            out.append(base1.name());
            match memory.base2 {
                Some(base2) => {
                    out.append(" + ");
                    out.append(base2.name());
                },
                None => {},
            }
        },
        None => {},
    }
    assert(out@ =~= old(out)@ + bases_text(*memory));
}

/// Append the displacement of a memory operand with its sign, unless it is zero
fn push_displacement(out: &mut String, displacement: Option<i16>)
    ensures
        final(out)@ == old(out)@ + displacement_text(displacement),
{
    match displacement {
        Some(d) => {
            if d > 0 {
                out.append(" + ");
                push_hex(out, magnitude(d));
            } else if d < 0 {
                out.append(" - ");
                push_hex(out, magnitude(d));
            }
        },
        None => {},
    }
    assert(out@ =~= old(out)@ + displacement_text(displacement));
}

/// Append what stands between the brackets of a memory operand, behind the segment
fn push_address(out: &mut String, memory: &MemoryOperand)
    ensures
        final(out)@ == old(out)@ + address_text(*memory),
{
    match memory.address {
        Some(address) => {
            push_hex(out, address);
        },
        None => {
            push_bases(out, memory);
            push_displacement(out, memory.displacement);
            assert(out@ =~= old(out)@ + address_text(*memory));
        },
    }
}

/// Append the text of a memory operand
fn push_memory(out: &mut String, memory: &MemoryOperand)
    ensures
        final(out)@ == old(out)@ + memory_text(*memory),
{
    push_size(out, memory.size);
    out.append("[");
    push_segment(out, memory.segment);
    push_address(out, memory);
    out.append("]");
    assert(out@ =~= old(out)@ + memory_text(*memory));
}

/// Append the text of an operand
pub fn push_operand(out: &mut String, operand: &Operand)
    ensures
        final(out)@ == old(out)@ + operand_text(*operand),
{
    match operand {
        Operand::Register(register) => out.append(register.name()),
        Operand::SegmentRegister(register) => out.append(register.name()),
        Operand::Immediate(value) => push_hex(out, signed_to_word(*value)),
        Operand::Memory(memory) => push_memory(out, memory),
    }
}

impl Operand {
    /// The text of the operand.
    pub open spec fn text(self) -> Seq<char> {
        operand_text(self)
    }

    /// The operand as assembly text
    pub fn to_string(&self) -> (res: String)
        ensures
            res@ == self.text(),
    {
        let mut out = String::new();
        push_operand(&mut out, self);
        assert(out@ =~= self.text());
        out
    }
}

/// Append the operands of an instruction, behind its mnemonic
fn push_operands(out: &mut String, operands: (Option<Operand>, Option<Operand>))
    ensures
        final(out)@ == old(out)@ + operands_text(operands),
{
    match operands.0 {
        Some(first) => {
            out.append(" ");
            push_operand(out, &first);
            match operands.1 {
                Some(second) => {
                    out.append(", ");
                    push_operand(out, &second);
                },
                None => {},
            }
        },
        None => {},
    }
    assert(out@ =~= old(out)@ + operands_text(operands));
}

impl Instruction {
    /// The name of the operation.
    pub open spec fn mnemonic(self) -> Seq<char> {
        match self {
            Instruction::Mov { .. } => "mov"@,
            Instruction::Push { .. } => "push"@,
            Instruction::Pop { .. } => "pop"@,
            Instruction::Xchg { .. } => "xchg"@,
            Instruction::Nop => "nop"@,
            Instruction::In { .. } => "in"@,
            Instruction::Out { .. } => "out"@,
            Instruction::Xlat => "xlat"@,
            Instruction::Lea { .. } => "lea"@,
            Instruction::Lds { .. } => "lds"@,
            Instruction::Les { .. } => "les"@,
            Instruction::Lahf => "lahf"@,
            Instruction::Sahf => "sahf"@,
            Instruction::Pushf => "pushf"@,
            Instruction::Popf => "popf"@,
            Instruction::Add { .. } => "add"@,
            Instruction::Adc { .. } => "adc"@,
            Instruction::And { .. } => "and"@,
            Instruction::Test { .. } => "test"@,
            Instruction::Or { .. } => "or"@,
            Instruction::Xor { .. } => "xor"@,
            Instruction::Inc { .. } => "inc"@,
            Instruction::Dec { .. } => "dec"@,
            Instruction::Aaa => "aaa"@,
            Instruction::Daa => "daa"@,
            Instruction::Aas => "aas"@,
            Instruction::Das => "das"@,
            Instruction::Aam => "aam"@,
            Instruction::Aad => "aad"@,
            Instruction::Sub { .. } => "sub"@,
            Instruction::Sbb { .. } => "sbb"@,
            Instruction::Mul { .. } => "mul"@,
            Instruction::Imul { .. } => "imul"@,
            Instruction::Div { .. } => "div"@,
            Instruction::Idiv { .. } => "idiv"@,
            Instruction::Neg { .. } => "neg"@,
            Instruction::Cmp { .. } => "cmp"@,
            Instruction::Cbw => "cbw"@,
            Instruction::Cwd => "cwd"@,
            Instruction::Not { .. } => "not"@,
            Instruction::Shl { .. } => "shl"@,
            Instruction::Sar { .. } => "sar"@,
            Instruction::Shr { .. } => "shr"@,
            Instruction::Rol { .. } => "rol"@,
            Instruction::Ror { .. } => "ror"@,
            Instruction::Rcl { .. } => "rcl"@,
            Instruction::Rcr { .. } => "rcr"@,
            Instruction::MoveByte { .. } => "movsb"@,
            Instruction::MoveWord { .. } => "movsw"@,
            Instruction::CmpByte { .. } => "cmpsb"@,
            Instruction::CmpWord { .. } => "cmpsw"@,
            Instruction::ScanByte { .. } => "scasb"@,
            Instruction::ScanWord { .. } => "scasw"@,
            Instruction::LoadByte { .. } => "lodsb"@,
            Instruction::LoadWord { .. } => "lodsw"@,
            Instruction::StoreByte { .. } => "stosb"@,
            Instruction::StoreWord { .. } => "stosw"@,
            Instruction::Call { .. } => "call"@,
            Instruction::Jump { .. } => "jmp"@,
            Instruction::ReturnWithOffset { .. } => "ret"@,
            Instruction::Return => "ret"@,
            Instruction::JumpEqual { .. } => "je"@,
            Instruction::JumpLessThan { .. } => "jl"@,
            Instruction::JumpLessThanEqual { .. } => "jle"@,
            Instruction::JumpBelow { .. } => "jb"@,
            Instruction::JumpBelowEqual { .. } => "jbe"@,
            Instruction::JumpParityEven { .. } => "jp"@,
            Instruction::JumpOverflow { .. } => "jo"@,
            Instruction::JumpSign { .. } => "js"@,
            Instruction::JumpParityOdd { .. } => "jnp"@,
            Instruction::JumpNotEqual { .. } => "jne"@,
            Instruction::JumpNotLessThan { .. } => "jnl"@,
            Instruction::JumpNotLessThanEqual { .. } => "jnle"@,
            Instruction::JumpNotBelow { .. } => "jnb"@,
            Instruction::JumpNotBelowEqual { .. } => "jnbe"@,
            Instruction::JumpNotOverflow { .. } => "jno"@,
            Instruction::JumpNotSign { .. } => "jns"@,
            Instruction::Loop { .. } => "loop"@,
            Instruction::LoopWhileZero { .. } => "loope"@,
            Instruction::LoopWhileNotZero { .. } => "loopne"@,
            Instruction::JumpCxZero { .. } => "jcxz"@,
            Instruction::Interrupt { .. } => "int"@,
            Instruction::InterruptOnOverflow => "into"@,
            Instruction::InterruptReturn => "iret"@,
            Instruction::ClearCarry => "clc"@,
            Instruction::ComplementCarry => "cmc"@,
            Instruction::SetCarry => "stc"@,
            Instruction::ClearDirection => "cld"@,
            Instruction::SetDirection => "std"@,
            Instruction::ClearInterrupt => "cli"@,
            Instruction::SetInterrupt => "sti"@,
            Instruction::Halt => "hlt"@,
            Instruction::Wait => "wait"@,
            Instruction::Lock => "lock"@,
        }
    }

    /// The operands in the order in which they are printed.
    pub open spec fn operands(self) -> (Option<Operand>, Option<Operand>) {
        match self {
            Instruction::Mov { dest, src } => (Some(dest), Some(src)),
            Instruction::Push { src } => (Some(src), None),
            Instruction::Pop { src } => (Some(src), None),
            Instruction::Xchg { left, right } => (Some(left), Some(right)),
            Instruction::In { dest, src } => (Some(Operand::Register(dest)), Some(src)),
            Instruction::Out { dest, src } => (Some(dest), Some(Operand::Register(src))),
            Instruction::Lea { dest, src } => (Some(dest), Some(src)),
            Instruction::Lds { dest, src } => (Some(dest), Some(src)),
            Instruction::Les { dest, src } => (Some(dest), Some(src)),
            Instruction::Add { dest, src } => (Some(dest), Some(src)),
            Instruction::Adc { dest, src } => (Some(dest), Some(src)),
            Instruction::And { dest, src } => (Some(dest), Some(src)),
            Instruction::Test { dest, src } => (Some(dest), Some(src)),
            Instruction::Or { dest, src } => (Some(dest), Some(src)),
            Instruction::Xor { dest, src } => (Some(dest), Some(src)),
            Instruction::Inc { src } => (Some(src), None),
            Instruction::Dec { src } => (Some(src), None),
            Instruction::Sub { dest, src } => (Some(dest), Some(src)),
            Instruction::Sbb { dest, src } => (Some(dest), Some(src)),
            Instruction::Mul { src } => (Some(src), None),
            Instruction::Imul { src } => (Some(src), None),
            Instruction::Div { src } => (Some(src), None),
            Instruction::Idiv { src } => (Some(src), None),
            Instruction::Neg { src } => (Some(src), None),
            Instruction::Cmp { left, right } => (Some(left), Some(right)),
            Instruction::Not { src } => (Some(src), None),
            Instruction::Shl { src, count } => (Some(src), Some(count)),
            Instruction::Sar { src, count } => (Some(src), Some(count)),
            Instruction::Shr { src, count } => (Some(src), Some(count)),
            Instruction::Rol { src, count } => (Some(src), Some(count)),
            Instruction::Ror { src, count } => (Some(src), Some(count)),
            Instruction::Rcl { src, count } => (Some(src), Some(count)),
            Instruction::Rcr { src, count } => (Some(src), Some(count)),
            Instruction::Call { dest } => (Some(dest), None),
            Instruction::Jump { dest } => (Some(dest), None),
            _ => (None, None),
        }
    }

    /// What is printed before the name: the repeat prefix of a string instruction.
    pub open spec fn prefix(self) -> Seq<char> {
        match self {
            Instruction::MoveByte { repeat }
            | Instruction::MoveWord { repeat }
            | Instruction::CmpByte { repeat }
            | Instruction::CmpWord { repeat }
            | Instruction::ScanByte { repeat }
            | Instruction::ScanWord { repeat }
            | Instruction::LoadByte { repeat }
            | Instruction::LoadWord { repeat }
            | Instruction::StoreByte { repeat }
            | Instruction::StoreWord { repeat } => repeat_text(repeat),
            _ => Seq::empty(),
        }
    }

    /// What is printed behind the name: the operands, the target of a jump,
    /// the number of an interrupt or of the bytes that a return frees, and the
    /// space behind a lock prefix.
    pub open spec fn tail(self) -> Seq<char> {
        match self {
            Instruction::JumpEqual { offset }
            | Instruction::JumpLessThan { offset }
            | Instruction::JumpLessThanEqual { offset }
            | Instruction::JumpBelow { offset }
            | Instruction::JumpBelowEqual { offset }
            | Instruction::JumpParityEven { offset }
            | Instruction::JumpOverflow { offset }
            | Instruction::JumpSign { offset }
            | Instruction::JumpParityOdd { offset }
            | Instruction::JumpNotEqual { offset }
            | Instruction::JumpNotLessThan { offset }
            | Instruction::JumpNotLessThanEqual { offset }
            | Instruction::JumpNotBelow { offset }
            | Instruction::JumpNotBelowEqual { offset }
            | Instruction::JumpNotOverflow { offset }
            | Instruction::JumpNotSign { offset }
            | Instruction::Loop { offset }
            | Instruction::LoopWhileZero { offset }
            | Instruction::LoopWhileNotZero { offset }
            | Instruction::JumpCxZero { offset } => " "@ + jump_target_text(offset),
            Instruction::ReturnWithOffset { offset } => " "@ + hex_text(to_unsigned(offset) as int),
            Instruction::Interrupt { vector } => " "@ + hex_text(vector as int),
            Instruction::Lock => " "@,
            _ => operands_text(self.operands()),
        }
    }

    /// The text of the instruction.
    pub open spec fn text(self) -> Seq<char> {
        self.prefix() + self.mnemonic() + self.tail()
    }

    /// The name of the operation
    pub fn name(&self) -> (res: &'static str)
        ensures
            res@ == self.mnemonic(),
    {
        match self {
            Instruction::Mov { .. } => "mov",
            Instruction::Push { .. } => "push",
            Instruction::Pop { .. } => "pop",
            Instruction::Xchg { .. } => "xchg",
            Instruction::Nop => "nop",
            Instruction::In { .. } => "in",
            Instruction::Out { .. } => "out",
            Instruction::Xlat => "xlat",
            Instruction::Lea { .. } => "lea",
            Instruction::Lds { .. } => "lds",
            Instruction::Les { .. } => "les",
            Instruction::Lahf => "lahf",
            Instruction::Sahf => "sahf",
            Instruction::Pushf => "pushf",
            Instruction::Popf => "popf",
            Instruction::Add { .. } => "add",
            Instruction::Adc { .. } => "adc",
            Instruction::And { .. } => "and",
            Instruction::Test { .. } => "test",
            Instruction::Or { .. } => "or",
            Instruction::Xor { .. } => "xor",
            Instruction::Inc { .. } => "inc",
            Instruction::Dec { .. } => "dec",
            Instruction::Aaa => "aaa",
            Instruction::Daa => "daa",
            Instruction::Aas => "aas",
            Instruction::Das => "das",
            Instruction::Aam => "aam",
            Instruction::Aad => "aad",
            Instruction::Sub { .. } => "sub",
            Instruction::Sbb { .. } => "sbb",
            Instruction::Mul { .. } => "mul",
            Instruction::Imul { .. } => "imul",
            Instruction::Div { .. } => "div",
            Instruction::Idiv { .. } => "idiv",
            Instruction::Neg { .. } => "neg",
            Instruction::Cmp { .. } => "cmp",
            Instruction::Cbw => "cbw",
            Instruction::Cwd => "cwd",
            Instruction::Not { .. } => "not",
            Instruction::Shl { .. } => "shl",
            Instruction::Sar { .. } => "sar",
            Instruction::Shr { .. } => "shr",
            Instruction::Rol { .. } => "rol",
            Instruction::Ror { .. } => "ror",
            Instruction::Rcl { .. } => "rcl",
            Instruction::Rcr { .. } => "rcr",
            Instruction::MoveByte { .. } => "movsb",
            Instruction::MoveWord { .. } => "movsw",
            Instruction::CmpByte { .. } => "cmpsb",
            Instruction::CmpWord { .. } => "cmpsw",
            Instruction::ScanByte { .. } => "scasb",
            Instruction::ScanWord { .. } => "scasw",
            Instruction::LoadByte { .. } => "lodsb",
            Instruction::LoadWord { .. } => "lodsw",
            Instruction::StoreByte { .. } => "stosb",
            Instruction::StoreWord { .. } => "stosw",
            Instruction::Call { .. } => "call",
            Instruction::Jump { .. } => "jmp",
            Instruction::ReturnWithOffset { .. } => "ret",
            Instruction::Return => "ret",
            Instruction::JumpEqual { .. } => "je",
            Instruction::JumpLessThan { .. } => "jl",
            Instruction::JumpLessThanEqual { .. } => "jle",
            Instruction::JumpBelow { .. } => "jb",
            Instruction::JumpBelowEqual { .. } => "jbe",
            Instruction::JumpParityEven { .. } => "jp",
            Instruction::JumpOverflow { .. } => "jo",
            Instruction::JumpSign { .. } => "js",
            Instruction::JumpParityOdd { .. } => "jnp",
            Instruction::JumpNotEqual { .. } => "jne",
            Instruction::JumpNotLessThan { .. } => "jnl",
            Instruction::JumpNotLessThanEqual { .. } => "jnle",
            Instruction::JumpNotBelow { .. } => "jnb",
            Instruction::JumpNotBelowEqual { .. } => "jnbe",
            Instruction::JumpNotOverflow { .. } => "jno",
            Instruction::JumpNotSign { .. } => "jns",
            Instruction::Loop { .. } => "loop",
            Instruction::LoopWhileZero { .. } => "loope",
            Instruction::LoopWhileNotZero { .. } => "loopne",
            Instruction::JumpCxZero { .. } => "jcxz",
            Instruction::Interrupt { .. } => "int",
            Instruction::InterruptOnOverflow => "into",
            Instruction::InterruptReturn => "iret",
            Instruction::ClearCarry => "clc",
            Instruction::ComplementCarry => "cmc",
            Instruction::SetCarry => "stc",
            Instruction::ClearDirection => "cld",
            Instruction::SetDirection => "std",
            Instruction::ClearInterrupt => "cli",
            Instruction::SetInterrupt => "sti",
            Instruction::Halt => "hlt",
            Instruction::Wait => "wait",
            Instruction::Lock => "lock",
        }
    }

    /// The operands in the order in which they are printed
    pub fn operand_pair(&self) -> (res: (Option<Operand>, Option<Operand>))
        ensures
            res == self.operands(),
    {
        match self {
            Instruction::Mov { dest, src } => (Some(*dest), Some(*src)),
            Instruction::Push { src } => (Some(*src), None),
            Instruction::Pop { src } => (Some(*src), None),
            Instruction::Xchg { left, right } => (Some(*left), Some(*right)),
            Instruction::In { dest, src } => (Some(Operand::Register(*dest)), Some(*src)),
            Instruction::Out { dest, src } => (Some(*dest), Some(Operand::Register(*src))),
            Instruction::Lea { dest, src } => (Some(*dest), Some(*src)),
            Instruction::Lds { dest, src } => (Some(*dest), Some(*src)),
            Instruction::Les { dest, src } => (Some(*dest), Some(*src)),
            Instruction::Add { dest, src } => (Some(*dest), Some(*src)),
            Instruction::Adc { dest, src } => (Some(*dest), Some(*src)),
            Instruction::And { dest, src } => (Some(*dest), Some(*src)),
            Instruction::Test { dest, src } => (Some(*dest), Some(*src)),
            Instruction::Or { dest, src } => (Some(*dest), Some(*src)),
            Instruction::Xor { dest, src } => (Some(*dest), Some(*src)),
            Instruction::Inc { src } => (Some(*src), None),
            Instruction::Dec { src } => (Some(*src), None),
            Instruction::Sub { dest, src } => (Some(*dest), Some(*src)),
            Instruction::Sbb { dest, src } => (Some(*dest), Some(*src)),
            Instruction::Mul { src } => (Some(*src), None),
            Instruction::Imul { src } => (Some(*src), None),
            Instruction::Div { src } => (Some(*src), None),
            Instruction::Idiv { src } => (Some(*src), None),
            Instruction::Neg { src } => (Some(*src), None),
            Instruction::Cmp { left, right } => (Some(*left), Some(*right)),
            Instruction::Not { src } => (Some(*src), None),
            Instruction::Shl { src, count } => (Some(*src), Some(*count)),
            Instruction::Sar { src, count } => (Some(*src), Some(*count)),
            Instruction::Shr { src, count } => (Some(*src), Some(*count)),
            Instruction::Rol { src, count } => (Some(*src), Some(*count)),
            Instruction::Ror { src, count } => (Some(*src), Some(*count)),
            Instruction::Rcl { src, count } => (Some(*src), Some(*count)),
            Instruction::Rcr { src, count } => (Some(*src), Some(*count)),
            Instruction::Call { dest } => (Some(*dest), None),
            Instruction::Jump { dest } => (Some(*dest), None),
            _ => (None, None),
        }
    }

    /// Append what is printed before the name
    fn push_prefix(&self, out: &mut String)
        ensures
            final(out)@ == old(out)@ + self.prefix(),
    {
        match self {
            Instruction::MoveByte { repeat }
            | Instruction::MoveWord { repeat }
            | Instruction::CmpByte { repeat }
            | Instruction::CmpWord { repeat }
            | Instruction::ScanByte { repeat }
            | Instruction::ScanWord { repeat }
            | Instruction::LoadByte { repeat }
            | Instruction::LoadWord { repeat }
            | Instruction::StoreByte { repeat }
            | Instruction::StoreWord { repeat } => {
                match repeat {
                    Some(Repeat::WhileClearZeroFlag) => out.append("repne "),
                    Some(Repeat::WhileSetZeroFlag) => out.append("repe "),
                    None => {},
                }
            },
            _ => {},
        }
        assert(out@ =~= old(out)@ + self.prefix());
    }

    /// Append what is printed behind the name
    fn push_tail(&self, out: &mut String)
        ensures
            final(out)@ == old(out)@ + self.tail(),
    {
        match self {
            Instruction::JumpEqual { offset }
            | Instruction::JumpLessThan { offset }
            | Instruction::JumpLessThanEqual { offset }
            | Instruction::JumpBelow { offset }
            | Instruction::JumpBelowEqual { offset }
            | Instruction::JumpParityEven { offset }
            | Instruction::JumpOverflow { offset }
            | Instruction::JumpSign { offset }
            | Instruction::JumpParityOdd { offset }
            | Instruction::JumpNotEqual { offset }
            | Instruction::JumpNotLessThan { offset }
            | Instruction::JumpNotLessThanEqual { offset }
            | Instruction::JumpNotBelow { offset }
            | Instruction::JumpNotBelowEqual { offset }
            | Instruction::JumpNotOverflow { offset }
            | Instruction::JumpNotSign { offset }
            | Instruction::Loop { offset }
            | Instruction::LoopWhileZero { offset }
            | Instruction::LoopWhileNotZero { offset }
            | Instruction::JumpCxZero { offset } => {
                out.append(" ");
                push_jump_target(out, *offset);
            },
            Instruction::ReturnWithOffset { offset } => {
                out.append(" ");
                push_hex(out, signed_to_word(*offset));
            },
            Instruction::Interrupt { vector } => {
                out.append(" ");
                push_hex(out, *vector as u16);
            },
            Instruction::Lock => {
                out.append(" ");
            },
            _ => {
                push_operands(out, self.operand_pair());
            },
        }
        assert(out@ =~= old(out)@ + self.tail());
    }

    /// The instruction as assembly text
    pub fn to_string(&self) -> (res: String)
        ensures
            res@ == self.text(),
    {
        let mut out = String::new();
        self.push_prefix(&mut out);
        out.append(self.name());
        self.push_tail(&mut out);
        assert(out@ =~= self.text());
        out
    }
}

/// The line of an instruction in a listing: its text and a newline, but
/// no newline behind a lock prefix, which stands before the next instruction.
pub open spec fn line_text(instruction: Instruction) -> Seq<char> {
    if instruction is Lock {
        instruction.text()
    } else {
        instruction.text() + "\n"@
    }
}

/// The two lines that begin a listing: a comment that names where the
/// code comes from, and the directive for 16-bit code.
pub open spec fn header_text(path: Seq<char>) -> Seq<char> {
    "; Decoded from "@ + path + "\n"@ + "bits 16\n"@
}

/// The lines of the instructions of a listing, one behind the other.
pub open spec fn lines_text(instructions: Seq<Instruction>) -> Seq<char>
    decreases instructions.len(),
{
    if instructions.len() == 0 {
        Seq::empty()
    } else {
        lines_text(instructions.drop_last()) + line_text(instructions.last())
    }
}

/// The two lines that begin a listing of the code at the given path
pub fn listing_header(path: &str) -> (res: String)
    ensures
        res@ == header_text(path@),
{
    let mut out = String::new();
    out.append("; Decoded from ");
    out.append(path);
    out.append("\n");
    out.append("bits 16\n");
    assert(out@ =~= header_text(path@));
    out
}

/// Append the line of an instruction in a listing
pub fn push_line(out: &mut String, instruction: &Instruction)
    ensures
        final(out)@ == old(out)@ + line_text(*instruction),
{
    let text = instruction.to_string();
    out.append(text.as_str());
    match instruction {
        Instruction::Lock => {},
        _ => {
            out.append("\n");
            assert(out@ =~= old(out)@ + line_text(*instruction));
        },
    }
}

/// The listing of the instructions of the code at the given path
pub fn listing(path: &str, instructions: &[Instruction]) -> (res: String)
    ensures
        res@ == header_text(path@) + lines_text(instructions@),
{
    let mut out = listing_header(path);
    let mut i: usize = 0;
    assert(instructions@.subrange(0, 0) =~= Seq::<Instruction>::empty());
    assert(out@ + Seq::<char>::empty() =~= out@);
    while i < instructions.len()
        invariant
            i <= instructions@.len(),
            out@ == header_text(path@) + lines_text(instructions@.subrange(0, i as int)),
        decreases instructions@.len() - i,
    {
        push_line(&mut out, &instructions[i]);
        proof {
            let done = instructions@.subrange(0, i + 1);
            assert(done.drop_last() =~= instructions@.subrange(0, i as int));
            assert(done.last() == instructions@[i as int]);
            assert(out@ =~= header_text(path@) + lines_text(done));
        }
        i += 1;
    }
    assert(instructions@.subrange(0, i as int) =~= instructions@);
    out
}

} // verus!
