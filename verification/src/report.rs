//! The registers of the scalar emulator and of an emulated core as text

use crate::emu::Emulator;
use crate::flags::{flag_set, EFlags};
use crate::jit_emu::{Core, JitEmulatorState, LANES};
use crate::text::{digit_text, hex4_text, push_hex4};
use vstd::prelude::*;

verus! {

/// The letter of a flag if the flag is set in a flags word, else nothing.
pub open spec fn letter_text(flags: u16, flag: EFlags, letter: Seq<char>) -> Seq<char> {
    if flag_set(flags, flag) {
        letter
    } else {
        Seq::empty()
    }
}

/// The letters of the flags that are set in a flags word, in the order C, P, A, Z, S, O.
pub open spec fn flag_letters(flags: u16) -> Seq<char> {
    letter_text(flags, EFlags::Carry, "C"@) + letter_text(flags, EFlags::Parity, "P"@)
        + letter_text(flags, EFlags::Auxillary, "A"@) + letter_text(flags, EFlags::Zero, "Z"@)
        + letter_text(flags, EFlags::Sign, "S"@) + letter_text(flags, EFlags::Overflow, "O"@)
}

/// A name and a value in four hexadecimal digits.
pub open spec fn field_text(name: Seq<char>, value: u16) -> Seq<char> {
    name + hex4_text(value as int)
}

/// The line of the instruction pointer and the flags.
pub open spec fn flags_line(indent: Seq<char>, regs: Seq<u16>) -> Seq<char> {
    indent + field_text("IP: "@, regs[8]) + field_text(" FLAGS: "@, regs[9]) + " "@
        + flag_letters(regs[9]) + "\n"@
}

/// A line of four names with their values.
pub open spec fn four_line(
    indent: Seq<char>,
    names: (Seq<char>, Seq<char>, Seq<char>, Seq<char>),
    values: (u16, u16, u16, u16),
) -> Seq<char> {
    indent + field_text(names.0, values.0) + field_text(names.1, values.1) + field_text(
        names.2,
        values.2,
    ) + field_text(names.3, values.3) + "\n"@
}

/// The three lines of the ten registers.
pub open spec fn registers_text(indent: Seq<char>, regs: Seq<u16>) -> Seq<char> {
    flags_line(indent, regs) + four_line(
        indent,
        ("AX: "@, " BX: "@, " CX: "@, " DX: "@),
        (regs[0], regs[1], regs[2], regs[3]),
    ) + four_line(
        indent,
        ("SP: "@, " BP: "@, " SI: "@, " DI: "@),
        (regs[7], regs[6], regs[4], regs[5]),
    )
}

/// The line of the four segment registers.
pub open spec fn segments_text(segments: Seq<u16>) -> Seq<char> {
    four_line(
        Seq::empty(),
        ("CS: "@, " DS: "@, " ES: "@, " SS: "@),
        (segments[1], segments[3], segments[0], segments[2]),
    )
}

/// The line that names a core, by its number in two digits.
pub open spec fn core_line(core: int) -> Seq<char> {
    "Core "@ + digit_text(core / 10) + digit_text(core % 10) + "\n"@
}

/// Append the letter of a flag if the flag is set
fn push_letter(out: &mut String, flags: u16, flag: EFlags, letter: &str)
    ensures
        final(out)@ == old(out)@ + letter_text(flags, flag, letter@),
{
    if (flags / flag.mask()) % 2 == 1 {
        out.append(letter);
    } else {
        assert(out@ + Seq::<char>::empty() =~= out@);
    }
}

/// Append the letters of the flags that are set
pub fn push_flag_letters(out: &mut String, flags: u16)
    ensures
        final(out)@ == old(out)@ + flag_letters(flags),
{
    push_letter(out, flags, EFlags::Carry, "C");
    push_letter(out, flags, EFlags::Parity, "P");
    push_letter(out, flags, EFlags::Auxillary, "A");
    push_letter(out, flags, EFlags::Zero, "Z");
    push_letter(out, flags, EFlags::Sign, "S");
    push_letter(out, flags, EFlags::Overflow, "O");
    assert(out@ =~= old(out)@ + flag_letters(flags));
}

/// Append a name and a value in four hexadecimal digits
fn push_field(out: &mut String, name: &str, value: u16)
    ensures
        final(out)@ == old(out)@ + field_text(name@, value),
{
    out.append(name);
    push_hex4(out, value);
    assert(out@ =~= old(out)@ + field_text(name@, value));
}

/// Append the line of the instruction pointer and the flags
fn push_flags_line(out: &mut String, indent: &str, regs: &[u16; 10])
    ensures
        final(out)@ == old(out)@ + flags_line(indent@, regs@),
{
    out.append(indent);
    push_field(out, "IP: ", regs[8]);
    push_field(out, " FLAGS: ", regs[9]);
    out.append(" ");
    push_flag_letters(out, regs[9]);
    out.append("\n");
    assert(out@ =~= old(out)@ + flags_line(indent@, regs@));
}

/// Append a line of four names with their values
fn push_four(out: &mut String, indent: &str, names: (&str, &str, &str, &str), values: (
    u16,
    u16,
    u16,
    u16,
))
    ensures
        final(out)@ == old(out)@ + four_line(
            indent@,
            (names.0@, names.1@, names.2@, names.3@),
            values,
        ),
{
    out.append(indent);
    push_field(out, names.0, values.0);
    push_field(out, names.1, values.1);
    push_field(out, names.2, values.2);
    push_field(out, names.3, values.3);
    out.append("\n");
    assert(out@ =~= old(out)@ + four_line(
        indent@,
        (names.0@, names.1@, names.2@, names.3@),
        values,
    ));
}

/// Append the three lines of the ten registers
pub fn push_registers(out: &mut String, indent: &str, regs: &[u16; 10])
    ensures
        final(out)@ == old(out)@ + registers_text(indent@, regs@),
{
    push_flags_line(out, indent, regs);
    push_four(
        out,
        indent,
        ("AX: ", " BX: ", " CX: ", " DX: "),
        (regs[0], regs[1], regs[2], regs[3]),
    );
    push_four(
        out,
        indent,
        ("SP: ", " BP: ", " SI: ", " DI: "),
        (regs[7], regs[6], regs[4], regs[5]),
    );
    assert(out@ =~= old(out)@ + registers_text(indent@, regs@));
}

/// Where the dump of the memory begins.
pub const DUMP_START: usize = 1000;

/// Number of bytes that the dump of the memory shows, where the memory has
/// as many behind the start.
pub const DUMP_SIZE: usize = 0x60;

/// Number of bytes in a line of the dump.
pub const DUMP_LINE: usize = 0x10;

/// A byte in two hexadecimal digits and a space.
pub open spec fn byte_text(byte: u8) -> Seq<char> {
    digit_text(byte as int / 16) + digit_text(byte as int % 16) + " "@
}

/// The bytes of a range of the memory, each in two hexadecimal digits and
/// with a space behind it.
pub open spec fn bytes_text(memory: Seq<u8>, from: int, to: int) -> Seq<char>
    decreases to - from,
{
    if from >= to {
        Seq::empty()
    } else {
        bytes_text(memory, from, to - 1) + byte_text(memory[to - 1])
    }
}

/// The end of the line of the dump that begins at an address: sixteen
/// bytes behind it, or the end of the dump.
pub open spec fn line_end(from: int, end: int) -> int {
    if from + DUMP_LINE < end {
        from + DUMP_LINE
    } else {
        end
    }
}

/// A line of the dump: the address of its first byte in hexadecimal, and
/// its bytes.
pub open spec fn dump_line(memory: Seq<u8>, from: int, end: int) -> Seq<char> {
    crate::text::hex_text(from) + " "@ + bytes_text(memory, from, line_end(from, end)) + "\n"@
}

/// The lines of the dump of a range of the memory, sixteen bytes to a line.
pub open spec fn dump_text(memory: Seq<u8>, from: int, end: int) -> Seq<char>
    decreases end - from,
{
    if from >= end {
        Seq::empty()
    } else {
        dump_line(memory, from, end) + dump_text(memory, line_end(from, end), end)
    }
}

/// The end of the dump in a memory of the given size.
pub open spec fn dump_end(size: int) -> int {
    if size < DUMP_START + DUMP_SIZE {
        size
    } else {
        (DUMP_START + DUMP_SIZE) as int
    }
}

/// Append the bytes of a range of the memory
fn push_bytes(out: &mut String, memory: &[u8], from: usize, to: usize)
    requires
        from <= to <= memory@.len(),
    ensures
        final(out)@ == old(out)@ + bytes_text(memory@, from as int, to as int),
{
    let mut at: usize = from;
    assert(out@ + Seq::<char>::empty() =~= out@);
    while at < to
        invariant
            from <= at <= to <= memory@.len(),
            out@ == old(out)@ + bytes_text(memory@, from as int, at as int),
        decreases to - at,
    {
        let byte = memory[at];
        let ghost before = out@;
        out.append(crate::text::digit_str((byte / 16) as u16));
        out.append(crate::text::digit_str((byte % 16) as u16));
        out.append(" ");
        at += 1;
        assert(out@ =~= before + byte_text(byte));
        assert(out@ =~= old(out)@ + bytes_text(memory@, from as int, at as int));
    }
}

/// Append the lines of the dump of a range of the memory
pub fn push_dump(out: &mut String, memory: &[u8], from: usize, end: usize)
    requires
        end <= memory@.len(),
        end <= 0x10000,
    ensures
        final(out)@ == old(out)@ + dump_text(memory@, from as int, end as int),
{
    let mut at: usize = from;
    assert(out@ + Seq::<char>::empty() =~= out@);
    while at < end
        invariant
            end <= memory@.len(),
            end <= 0x10000,
            old(out)@ + dump_text(memory@, from as int, end as int) == out@ + dump_text(
                memory@,
                at as int,
                end as int,
            ),
        decreases end - at,
    {
        let stop: usize = if DUMP_LINE < end - at {
            at + DUMP_LINE
        } else {
            end
        };
        let ghost before = out@;
        let ghost rest = dump_text(memory@, at as int, end as int);
        crate::text::push_hex(out, at as u16);
        out.append(" ");
        push_bytes(out, memory, at, stop);
        out.append("\n");
        assert(out@ =~= before + dump_line(memory@, at as int, end as int));
        assert(before + rest =~= out@ + dump_text(memory@, stop as int, end as int));
        at = stop;
    }
    assert(out@ + Seq::<char>::empty() =~= out@);
}

impl<const MEMORY_SIZE: usize> Emulator<MEMORY_SIZE> {
    /// The state of the emulator as text: the registers, the segment
    /// registers, and the bytes of the memory from address 1000 on, as far as
    /// the memory reaches and 96 of them at most
    pub fn context_text(&self) -> (res: String)
        requires
            self.wf(),
        ensures
            res@ == registers_text(Seq::empty(), self@.regs) + segments_text(self@.segments)
                + dump_text(self@.memory, DUMP_START as int, dump_end(MEMORY_SIZE as int)),
    {
        let mut out = String::new();
        push_registers(&mut out, "", &self.registers.regs);
        proof {
            reveal_strlit("");
            assert(""@ =~= Seq::<char>::empty());
        }
        push_four(
            &mut out,
            "",
            ("CS: ", " DS: ", " ES: ", " SS: "),
            (self.segments[1], self.segments[3], self.segments[0], self.segments[2]),
        );
        let end: usize = if self.memory.memory.len() < DUMP_START + DUMP_SIZE {
            self.memory.memory.len()
        } else {
            DUMP_START + DUMP_SIZE
        };
        push_dump(&mut out, self.memory.memory.as_slice(), DUMP_START, end);
        assert(out@ =~= registers_text(Seq::empty(), self@.regs) + segments_text(self@.segments)
            + dump_text(self@.memory, DUMP_START as int, dump_end(MEMORY_SIZE as int)));
        out
    }
}

impl JitEmulatorState {
    /// The registers of one core as text: the line that names the core, and
    /// three indented lines
    pub fn cpu_state_text(&self, core: Core) -> (res: String)
        requires
            core.0 < LANES,
        ensures
            res@ == core_line(core.0 as int) + registers_text("    "@, self.lane(core.0 as int)),
    {
        let state = self.get_cpu_state(core);
        let regs: [u16; 10] = [
            state.ax,
            state.bx,
            state.cx,
            state.dx,
            state.si,
            state.di,
            state.bp,
            state.sp,
            state.ip,
            state.flags,
        ];
        assert(regs@ =~= self.lane(core.0 as int));
        let mut out = String::new();
        out.append("Core ");
        out.append(crate::text::digit_str((core.0 / 10) as u16));
        out.append(crate::text::digit_str((core.0 % 10) as u16));
        out.append("\n");
        push_registers(&mut out, "    ", &regs);
        assert(out@ =~= core_line(core.0 as int) + registers_text(
            "    "@,
            self.lane(core.0 as int),
        ));
        out
    }

    /// The registers of all cores as text, one string for each core
    pub fn states_text(&self) -> (res: Vec<String>)
        ensures
            res@.len() == 32,
            forall|core: int|
                0 <= core < 32 ==> (#[trigger] res@[core])@ == core_line(core) + registers_text(
                    "    "@,
                    self.lane(core),
                ),
    {
        let mut res: Vec<String> = Vec::new();
        let mut i: u8 = 0;
        while i < 32
            invariant
                i <= 32,
                res@.len() == i,
                forall|core: int|
                    0 <= core < i ==> (#[trigger] res@[core])@ == core_line(core) + registers_text(
                        "    "@,
                        self.lane(core),
                    ),
            decreases 32 - i,
        {
            res.push(self.cpu_state_text(Core(i)));
            i += 1;
        }
        res
    }
}

} // verus!
