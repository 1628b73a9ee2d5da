//! The assembly text of the host code in a JIT buffer

use crate::jit::JitBuffer;
use vstd::prelude::*;
use vstd::slice::slice_subrange;

verus! {

/// The text and the length of the host instruction that the bytes start
/// with, as `iced_x86` decodes it in 64-bit mode and formats it.
pub uninterp spec fn disassembled(code: Seq<u8>) -> (Seq<char>, int);

/// `iced_x86::Decoder::decode_out` on the bytes, in 64-bit mode and without
/// options, then `iced_x86::FastFormatter::format` with lower-case hexadecimal
/// numbers behind `0x`, the memory size always shown and a space behind the
/// operand separator. Returns the text and `Instruction::len`. The contract
/// claims only that both are told by the bytes.
#[verifier::external_body]
fn disassemble(code: &[u8]) -> (res: (String, usize))
    ensures
        (res.0@, res.1 as int) == disassembled(code@),
{
    let mut instr = iced_x86::Instruction::default();
    iced_x86::Decoder::new(64, code, iced_x86::DecoderOptions::NONE).decode_out(&mut instr);
    let mut formatter = iced_x86::FastFormatter::new();
    let options = formatter.options_mut();
    options.set_uppercase_hex(false);
    options.set_use_hex_prefix(true);
    options.set_always_show_memory_size(true);
    options.set_space_after_operand_separator(true);
    let mut output = String::new();
    formatter.format(&instr, &mut output);
    (output, instr.len())
}

/// The texts of the host instructions that begin in a range of a buffer,
/// each decoded from the bytes between its position and the end of the buffer.
/// An instruction without length ends the listing.
pub open spec fn disassembly_between(buffer: Seq<u8>, start: int, end: int) -> Seq<Seq<char>>
    decreases end - start,
{
    if start < 0 || start >= end || start >= buffer.len() {
        Seq::empty()
    } else {
        let first = disassembled(buffer.subrange(start, buffer.len() as int));
        match following(start, first.1, end) {
            Some(next) => seq![first.0] + disassembly_between(buffer, next, end),
            None => seq![first.0],
        }
    }
}

/// The texts of the first host instructions of a buffer, up to the given
/// number of them. An instruction of no length ends the listing.
pub open spec fn disassembly_of(buffer: Seq<u8>, start: int, count: nat) -> Seq<Seq<char>>
    decreases count,
{
    if count == 0 || start < 0 || start >= buffer.len() {
        Seq::empty()
    } else {
        let first = disassembled(buffer.subrange(start, buffer.len() as int));
        match following(start, first.1, buffer.len() as int) {
            Some(next) => seq![first.0] + disassembly_of(buffer, next, (count - 1) as nat),
            None => seq![first.0],
        }
    }
}

/// Where the next instruction begins behind one of the given length that
/// begins at an offset, if it begins before the end: an instruction without
/// length has none behind it.
pub open spec fn following(offset: int, len: int, end: int) -> Option<int> {
    if len <= 0 || offset + len >= end {
        None
    } else {
        Some(offset + len)
    }
}

/// Where the next instruction begins behind one of the given length that
/// begins at an offset, if it begins before the end
pub fn next_offset(offset: usize, len: usize, end: usize) -> (res: Option<usize>)
    ensures
        match following(offset as int, len as int, end as int) {
            Some(next) => res == Some(next as usize) && offset < next < end,
            None => res.is_none(),
        },
{
    if len == 0 || offset >= end || len >= end - offset {
        None
    } else {
        Some(offset + len)
    }
}

/// The texts that the strings hold.
pub open spec fn texts(lines: Seq<String>) -> Seq<Seq<char>> {
    Seq::new(lines.len(), |i: int| lines[i]@)
}

impl<const N: usize> JitBuffer<N> {
    /// Get the disassembly of the instructions that begin between the two
    /// offsets in the JIT buffer
    pub fn get_disassembly_between(&self, start: usize, end: usize) -> (res: Vec<String>)
        ensures
            texts(res@) == disassembly_between(self.buffer@, start as int, end as int),
    {
        let mut offset: usize = start;
        let mut result: Vec<String> = Vec::new();
        assert(texts(result@) =~= Seq::<Seq<char>>::empty());
        while offset < end && offset < self.buffer.len()
            invariant
                disassembly_between(self.buffer@, start as int, end as int) == texts(result@)
                    + disassembly_between(self.buffer@, offset as int, end as int),
            decreases end - offset,
        {
            let data = slice_subrange(self.buffer.as_slice(), offset, self.buffer.len());
            let (output, len) = disassemble(data);
            let ghost before = texts(result@);
            let ghost rest = disassembly_between(self.buffer@, offset as int, end as int);
            result.push(output);
            assert(texts(result@) =~= before + seq![output@]);
            match next_offset(offset, len, end) {
                None => {
                    assert(rest =~= seq![output@]);
                    assert(before + rest =~= texts(result@));
                    return result;
                },
                Some(next) => {
                    // Move the offset past the decoded instruction
                    offset = next;
                },
            }
            assert(before + rest =~= texts(result@) + disassembly_between(
                self.buffer@,
                offset as int,
                end as int,
            ));
        }
        assert(texts(result@) + Seq::<Seq<char>>::empty() =~= texts(result@));
        result
    }

    /// Get the disassembly of the first instructions of the JIT buffer, up to
    /// the given number of them
    pub fn get_disassembly(&self, n: usize) -> (res: Vec<String>)
        ensures
            texts(res@) == disassembly_of(self.buffer@, 0, n as nat),
    {
        let mut offset: usize = 0;
        let mut result: Vec<String> = Vec::new();
        let mut left: usize = n;
        assert(texts(result@) =~= Seq::<Seq<char>>::empty());
        while left > 0 && offset < self.buffer.len()
            invariant
                disassembly_of(self.buffer@, 0, n as nat) == texts(result@) + disassembly_of(
                    self.buffer@,
                    offset as int,
                    left as nat,
                ),
            decreases left,
        {
            let data = slice_subrange(self.buffer.as_slice(), offset, self.buffer.len());
            let (output, len) = disassemble(data);
            let ghost before = texts(result@);
            let ghost rest = disassembly_of(self.buffer@, offset as int, left as nat);
            result.push(output);
            assert(texts(result@) =~= before + seq![output@]);
            match next_offset(offset, len, self.buffer.len()) {
                None => {
                    assert(rest =~= seq![output@]);
                    assert(before + rest =~= texts(result@));
                    return result;
                },
                Some(next) => {
                    // Move the offset past the decoded instruction
                    offset = next;
                },
            }
            left -= 1;
            assert(before + rest =~= texts(result@) + disassembly_of(
                self.buffer@,
                offset as int,
                left as nat,
            ));
        }
        assert(texts(result@) + Seq::<Seq<char>>::empty() =~= texts(result@));
        result
    }
}

} // verus!
