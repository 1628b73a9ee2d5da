//! What holds of the decoder for all bytes: an instruction is told from its
//! own bytes alone.

use crate::decoder::{
    byte_or_zero, decode, immediate, is_segment_prefix, lemma_examined_bounds, modrm_len,
    modrm_reg, modrm_rm, parse_alu_immediate, parse_inc_group, parse_low, parse_mov_direct,
    parse_mov_immediate, parse_one, parse_port, parse_register, parse_repeat, parse_shift,
    parse_transfer, parse_unary, prefix_count, prefix_segment, Error,
};
use crate::instruction::Instruction;
use crate::register::SegmentRegister;
use vstd::prelude::*;

verus! {

/// Whether two sequences hold the same bytes at their first positions, read
/// with zeros behind the end.
pub open spec fn same_start(first: Seq<u8>, second: Seq<u8>, count: int) -> bool {
    forall|k: int| 0 <= k < count ==> byte_or_zero(first, k) == byte_or_zero(second, k)
}

/// The first bytes are the same where more bytes are.
proof fn lemma_same_start(first: Seq<u8>, second: Seq<u8>, count: int, fewer: int)
    requires
        same_start(first, second, count),
        fewer <= count,
    ensures
        same_start(first, second, fewer),
        forall|k: int| 0 <= k < fewer ==> byte_or_zero(first, k) == byte_or_zero(second, k),
{
}

/// The operands of a second byte are told from the bytes up to the end of
/// the displacement.
proof fn lemma_modrm_local(
    first: Seq<u8>,
    second: Seq<u8>,
    w: int,
    segment: Option<SegmentRegister>,
)
    requires
        same_start(first, second, modrm_len(byte_or_zero(first, 1)) as int),
    ensures
        byte_or_zero(second, 0) == byte_or_zero(first, 0),
        byte_or_zero(second, 1) == byte_or_zero(first, 1),
        modrm_rm(second, w, segment) == modrm_rm(first, w, segment),
        modrm_reg(second, w) == modrm_reg(first, w),
{
    let len = modrm_len(byte_or_zero(first, 1));
    assert(byte_or_zero(first, 0) == byte_or_zero(second, 0));
    assert(byte_or_zero(first, 1) == byte_or_zero(second, 1));
    if len >= 3 {
        assert(byte_or_zero(first, 2) == byte_or_zero(second, 2));
    }
    if len >= 4 {
        assert(byte_or_zero(first, 3) == byte_or_zero(second, 3));
    }
}

/// An immediate is told from its own bytes.
proof fn lemma_immediate_local(first: Seq<u8>, second: Seq<u8>, at: int, w: int)
    requires
        0 <= at,
        0 <= w <= 1,
        same_start(first, second, at + 1 + w),
    ensures
        immediate(second, at, w) == immediate(first, at, w),
        crate::decoder::arithmetic_immediate(second, at, w)
            == crate::decoder::arithmetic_immediate(first, at, w),
        byte_or_zero(second, at) == byte_or_zero(first, at),
{
    assert(byte_or_zero(first, at) == byte_or_zero(second, at));
    if w == 1 {
        assert(byte_or_zero(first, at + 1) == byte_or_zero(second, at + 1));
    }
}

/// The group is told from the bytes that were examined.
proof fn lemma_parse_low_local(first: Seq<u8>, second: Seq<u8>, segment: Option<SegmentRegister>)
    requires
        same_start(first, second, parse_low(first, segment).examined as int),
    ensures
        parse_low(second, segment) == parse_low(first, segment),
{
    assert(byte_or_zero(first, 0) == byte_or_zero(second, 0));
    let op = byte_or_zero(first, 0);
    if op % 8 < 4 {
        lemma_modrm_local(first, second, crate::decoder::w_bit(op), segment);
    } else if op % 8 < 6 {
        lemma_immediate_local(first, second, 1, crate::decoder::w_bit(op));
    }
}

/// The group is told from the bytes that were examined.
proof fn lemma_parse_register_local(first: Seq<u8>, second: Seq<u8>)
    requires
        same_start(first, second, parse_register(first).examined as int),
    ensures
        parse_register(second) == parse_register(first),
{
    assert(byte_or_zero(first, 0) == byte_or_zero(second, 0));
}

/// The group is told from the bytes that were examined.
proof fn lemma_parse_alu_immediate_local(first: Seq<u8>, second: Seq<u8>, segment: Option<SegmentRegister>)
    requires
        same_start(first, second, parse_alu_immediate(first, segment).examined as int),
    ensures
        parse_alu_immediate(second, segment) == parse_alu_immediate(first, segment),
{
    assert(byte_or_zero(first, 0) == byte_or_zero(second, 0));
    let op = byte_or_zero(first, 0);
    let w = crate::decoder::w_bit(op);
    let len = modrm_len(byte_or_zero(first, 1)) as int;
    assert(byte_or_zero(first, 1) == byte_or_zero(second, 1));
    let parsed = parse_alu_immediate(first, segment);
    if parsed.examined >= len {
        lemma_same_start(first, second, parsed.examined as int, len);
        lemma_modrm_local(first, second, w, segment);
        lemma_modrm_local(first, second, 1, segment);
        if parsed.examined == len + 1 {
            assert(byte_or_zero(first, len) == byte_or_zero(second, len));
            lemma_immediate_local(first, second, len, 0);
        }
        if parsed.examined == len + 2 {
            lemma_immediate_local(first, second, len, 1);
        }
    }
}

/// The group is told from the bytes that were examined.
proof fn lemma_parse_mov_immediate_local(first: Seq<u8>, second: Seq<u8>, segment: Option<SegmentRegister>)
    requires
        same_start(first, second, parse_mov_immediate(first, segment).examined as int),
    ensures
        parse_mov_immediate(second, segment) == parse_mov_immediate(first, segment),
{
    assert(byte_or_zero(first, 0) == byte_or_zero(second, 0));
    let op = byte_or_zero(first, 0);
    let w = crate::decoder::w_bit(op);
    let len = modrm_len(byte_or_zero(first, 1)) as int;
    assert(byte_or_zero(first, 1) == byte_or_zero(second, 1));
    let parsed = parse_mov_immediate(first, segment);
    if parsed.examined >= len {
        lemma_same_start(first, second, parsed.examined as int, len);
        lemma_modrm_local(first, second, w, segment);
        lemma_modrm_local(first, second, 1, segment);
        if parsed.examined == len + 1 {
            assert(byte_or_zero(first, len) == byte_or_zero(second, len));
            lemma_immediate_local(first, second, len, 0);
        }
        if parsed.examined == len + 2 {
            lemma_immediate_local(first, second, len, 1);
        }
    }
}

/// The group is told from the bytes that were examined.
proof fn lemma_parse_unary_local(first: Seq<u8>, second: Seq<u8>, segment: Option<SegmentRegister>)
    requires
        same_start(first, second, parse_unary(first, segment).examined as int),
    ensures
        parse_unary(second, segment) == parse_unary(first, segment),
{
    assert(byte_or_zero(first, 0) == byte_or_zero(second, 0));
    let op = byte_or_zero(first, 0);
    let w = crate::decoder::w_bit(op);
    let len = modrm_len(byte_or_zero(first, 1)) as int;
    assert(byte_or_zero(first, 1) == byte_or_zero(second, 1));
    let parsed = parse_unary(first, segment);
    if parsed.examined >= len {
        lemma_same_start(first, second, parsed.examined as int, len);
        lemma_modrm_local(first, second, w, segment);
        lemma_modrm_local(first, second, 1, segment);
        if parsed.examined == len + 1 {
            assert(byte_or_zero(first, len) == byte_or_zero(second, len));
            lemma_immediate_local(first, second, len, 0);
        }
        if parsed.examined == len + 2 {
            lemma_immediate_local(first, second, len, 1);
        }
    }
}

/// The group is told from the bytes that were examined.
proof fn lemma_parse_shift_local(first: Seq<u8>, second: Seq<u8>, segment: Option<SegmentRegister>)
    requires
        same_start(first, second, parse_shift(first, segment).examined as int),
    ensures
        parse_shift(second, segment) == parse_shift(first, segment),
{
    assert(byte_or_zero(first, 0) == byte_or_zero(second, 0));
    let op = byte_or_zero(first, 0);
    let w = crate::decoder::w_bit(op);
    let len = modrm_len(byte_or_zero(first, 1)) as int;
    assert(byte_or_zero(first, 1) == byte_or_zero(second, 1));
    let parsed = parse_shift(first, segment);
    if parsed.examined >= len {
        lemma_same_start(first, second, parsed.examined as int, len);
        lemma_modrm_local(first, second, w, segment);
        lemma_modrm_local(first, second, 1, segment);
        if parsed.examined == len + 1 {
            assert(byte_or_zero(first, len) == byte_or_zero(second, len));
            lemma_immediate_local(first, second, len, 0);
        }
        if parsed.examined == len + 2 {
            lemma_immediate_local(first, second, len, 1);
        }
    }
}

/// The group is told from the bytes that were examined.
proof fn lemma_parse_inc_group_local(first: Seq<u8>, second: Seq<u8>, segment: Option<SegmentRegister>)
    requires
        same_start(first, second, parse_inc_group(first, segment).examined as int),
    ensures
        parse_inc_group(second, segment) == parse_inc_group(first, segment),
{
    assert(byte_or_zero(first, 0) == byte_or_zero(second, 0));
    let op = byte_or_zero(first, 0);
    let w = crate::decoder::w_bit(op);
    let len = modrm_len(byte_or_zero(first, 1)) as int;
    assert(byte_or_zero(first, 1) == byte_or_zero(second, 1));
    let parsed = parse_inc_group(first, segment);
    if parsed.examined >= len {
        lemma_same_start(first, second, parsed.examined as int, len);
        lemma_modrm_local(first, second, w, segment);
        lemma_modrm_local(first, second, 1, segment);
        if parsed.examined == len + 1 {
            assert(byte_or_zero(first, len) == byte_or_zero(second, len));
            lemma_immediate_local(first, second, len, 0);
        }
        if parsed.examined == len + 2 {
            lemma_immediate_local(first, second, len, 1);
        }
    }
}

/// The group is told from the bytes that were examined.
proof fn lemma_parse_transfer_local(first: Seq<u8>, second: Seq<u8>, segment: Option<SegmentRegister>)
    requires
        same_start(first, second, parse_transfer(first, segment).examined as int),
    ensures
        parse_transfer(second, segment) == parse_transfer(first, segment),
{
    assert(byte_or_zero(first, 0) == byte_or_zero(second, 0));
    let op = byte_or_zero(first, 0);
    let w = crate::decoder::w_bit(op);
    let len = modrm_len(byte_or_zero(first, 1)) as int;
    assert(byte_or_zero(first, 1) == byte_or_zero(second, 1));
    let parsed = parse_transfer(first, segment);
    if parsed.examined >= len {
        lemma_same_start(first, second, parsed.examined as int, len);
        lemma_modrm_local(first, second, w, segment);
        lemma_modrm_local(first, second, 1, segment);
        if parsed.examined == len + 1 {
            assert(byte_or_zero(first, len) == byte_or_zero(second, len));
            lemma_immediate_local(first, second, len, 0);
        }
        if parsed.examined == len + 2 {
            lemma_immediate_local(first, second, len, 1);
        }
    }
}

/// The group is told from the bytes that were examined.
proof fn lemma_parse_mov_direct_local(first: Seq<u8>, second: Seq<u8>, segment: Option<SegmentRegister>)
    requires
        same_start(first, second, parse_mov_direct(first, segment).examined as int),
    ensures
        parse_mov_direct(second, segment) == parse_mov_direct(first, segment),
{
    assert(byte_or_zero(first, 0) == byte_or_zero(second, 0));
    lemma_immediate_local(first, second, 1, crate::decoder::w_bit(byte_or_zero(first, 0)));
}

/// The group is told from the bytes that were examined.
proof fn lemma_parse_port_local(first: Seq<u8>, second: Seq<u8>)
    requires
        same_start(first, second, parse_port(first).examined as int),
    ensures
        parse_port(second) == parse_port(first),
{
    assert(byte_or_zero(first, 0) == byte_or_zero(second, 0));
    if parse_port(first).examined >= 2 {
        assert(byte_or_zero(first, 1) == byte_or_zero(second, 1));
    }
}

/// The group is told from the bytes that were examined.
proof fn lemma_parse_repeat_local(first: Seq<u8>, second: Seq<u8>)
    requires
        same_start(first, second, parse_repeat(first).examined as int),
    ensures
        parse_repeat(second) == parse_repeat(first),
{
    assert(byte_or_zero(first, 0) == byte_or_zero(second, 0));
    assert(byte_or_zero(first, 1) == byte_or_zero(second, 1));
}

/// What the decoder tells from bytes, it tells from every sequence that
/// starts with the bytes that it examined.
pub proof fn lemma_parse_local(first: Seq<u8>, second: Seq<u8>, segment: Option<SegmentRegister>)
    requires
        same_start(first, second, parse_one(first, segment).examined as int),
    ensures
        parse_one(second, segment) == parse_one(first, segment),
{
    reveal(parse_one);
    lemma_examined_bounds(first, segment);
    assert(byte_or_zero(first, 0) == byte_or_zero(second, 0));
    let op = byte_or_zero(first, 0);
    let n = parse_one(first, segment).examined as int;
    if op < 0x40 {
        lemma_parse_low_local(first, second, segment);
    } else if op < 0x60 {
        lemma_parse_register_local(first, second);
    } else if op < 0x70 {
    } else if op < 0x80 {
        assert(byte_or_zero(first, 1) == byte_or_zero(second, 1));
    } else if op < 0x84 {
        lemma_parse_alu_immediate_local(first, second, segment);
    } else if op < 0x90 {
        lemma_parse_transfer_local(first, second, segment);
    } else if 0x91 <= op < 0x98 {
    } else if 0xA0 <= op < 0xA4 {
        lemma_parse_mov_direct_local(first, second, segment);
    } else if op == 0xA8 || op == 0xA9 {
        lemma_immediate_local(first, second, 1, crate::decoder::w_bit(op));
    } else if 0xB0 <= op < 0xC0 {
        lemma_immediate_local(first, second, 1, (op as int / 8) % 2);
    } else if op == 0xC2 {
        lemma_immediate_local(first, second, 1, 1);
    } else if op == 0xC4 || op == 0xC5 {
        lemma_modrm_local(first, second, 1, segment);
    } else if op == 0xC6 || op == 0xC7 {
        lemma_parse_mov_immediate_local(first, second, segment);
    } else if op == 0xCD {
        assert(byte_or_zero(first, 1) == byte_or_zero(second, 1));
    } else if 0xD0 <= op < 0xD4 {
        lemma_parse_shift_local(first, second, segment);
    } else if op == 0xD4 || op == 0xD5 {
    } else if 0xE0 <= op < 0xE4 {
        assert(byte_or_zero(first, 1) == byte_or_zero(second, 1));
    } else if 0xE4 <= op < 0xE8 || 0xEC <= op < 0xF0 {
        lemma_parse_port_local(first, second);
    } else if op == 0xF2 || op == 0xF3 {
        lemma_parse_repeat_local(first, second);
    } else if op == 0xF6 || op == 0xF7 {
        lemma_parse_unary_local(first, second, segment);
    } else if op == 0xFE || op == 0xFF {
        lemma_parse_inc_group_local(first, second, segment);
    } else {
    }
}

/// Whether two sequences hold the same bytes in a window of each.
pub open spec fn same_window(
    first: Seq<u8>,
    first_at: int,
    second: Seq<u8>,
    second_at: int,
    count: int,
) -> bool {
    &&& 0 <= first_at
    &&& 0 <= second_at
    &&& 0 <= count
    &&& first_at + count <= first.len()
    &&& second_at + count <= second.len()
    &&& first.subrange(first_at, first_at + count) == second.subrange(second_at, second_at + count)
}

/// The bytes of two equal windows are equal.
proof fn lemma_window_byte(
    first: Seq<u8>,
    first_at: int,
    second: Seq<u8>,
    second_at: int,
    count: int,
    k: int,
)
    requires
        same_window(first, first_at, second, second_at, count),
        0 <= k < count,
    ensures
        first[first_at + k] == second[second_at + k],
{
    assert(first.subrange(first_at, first_at + count)[k] == first[first_at + k]);
    assert(second.subrange(second_at, second_at + count)[k] == second[second_at + k]);
}

/// The segment prefixes at a position are told from a window that holds
/// them and one byte more.
proof fn lemma_prefix_local(
    first: Seq<u8>,
    first_at: int,
    second: Seq<u8>,
    second_at: int,
    count: int,
)
    requires
        same_window(first, first_at, second, second_at, count),
        prefix_count(first, first_at) < count,
    ensures
        prefix_count(second, second_at) == prefix_count(first, first_at),
        prefix_segment(second, second_at) == prefix_segment(first, first_at),
    decreases count,
{
    lemma_window_byte(first, first_at, second, second_at, count, 0);
    if is_segment_prefix(first[first_at]) {
        assert(first.subrange(first_at + 1, first_at + 1 + (count - 1)) =~= first.subrange(
            first_at,
            first_at + count,
        ).subrange(1, count));
        assert(second.subrange(second_at + 1, second_at + 1 + (count - 1)) =~= second.subrange(
            second_at,
            second_at + count,
        ).subrange(1, count));
        lemma_prefix_local(first, first_at + 1, second, second_at + 1, count - 1);
        let p = prefix_count(first, first_at);
        lemma_window_byte(first, first_at, second, second_at, count, p - 1);
    }
}

/// An instruction is told from its own bytes alone: where decoding at a
/// position of one sequence gives an instruction of some length, decoding gives
/// the same at every position of every sequence that holds the same bytes
/// there. So decoding again at the old position gives the same instruction,
/// whatever else has changed, and the bytes of an instruction are an encoding
/// of it wherever they stand.
pub proof fn lemma_decode_local(
    first: Seq<u8>,
    first_at: int,
    second: Seq<u8>,
    second_at: int,
)
    requires
        decode(first, first_at) is Ok,
        same_window(first, first_at, second, second_at, decode(first, first_at)->Ok_0.1 as int),
    ensures
        decode(second, second_at) == Ok::<(Instruction, nat), Error>(
            decode(first, first_at)->Ok_0,
        ),
{
    let len = decode(first, first_at)->Ok_0.1 as int;
    let p = prefix_count(first, first_at) as int;
    let segment = prefix_segment(first, first_at);
    let rest1 = first.subrange(first_at + p, first.len() as int);
    let rest2 = second.subrange(second_at + p, second.len() as int);
    lemma_examined_bounds(rest1, segment);
    lemma_prefix_local(first, first_at, second, second_at, len);
    let n = parse_one(rest1, segment).examined as int;
    assert(same_start(rest1, rest2, n)) by {
        assert forall|k: int| 0 <= k < n implies byte_or_zero(rest1, k) == byte_or_zero(
            rest2,
            k,
        ) by {
            lemma_window_byte(first, first_at, second, second_at, len, p + k);
        }
    }
    lemma_parse_local(rest1, rest2, segment);
    lemma_window_byte(first, first_at, second, second_at, len, 0);
}

/// The bytes from which an instruction was decoded give the same
/// instruction when they are decoded alone.
pub proof fn lemma_decode_window(input: Seq<u8>, at: int)
    requires
        decode(input, at) is Ok,
    ensures
        decode(input.subrange(at, at + decode(input, at)->Ok_0.1), 0) == Ok::<
            (Instruction, nat),
            Error,
        >(decode(input, at)->Ok_0),
{
    crate::decoder::lemma_decode_length(input, at);
    let len = decode(input, at)->Ok_0.1 as int;
    let window = input.subrange(at, at + len);
    assert(window.subrange(0, len) =~= window);
    lemma_decode_local(input, at, window, 0);
}

} // verus!
