use emu8086::decoder::{
    decode_at, decode_instruction, decode_stream, parse_mod_reg_rm_instr,
    parse_mod_segreg_rm_instr, Error,
};
use emu8086::emu::{Emulator, RegisterState};
use emu8086::instruction::{Instruction, Operand, Repeat};
use emu8086::memory::{Address, Memory};
use emu8086::memory_operand::{MemoryOperand, MemorySize};
use emu8086::register::{Register, SegmentRegister, Wide};

fn memory_operand(
    base1: Option<Register>,
    base2: Option<Register>,
    displacement: Option<i16>,
    size: Option<MemorySize>,
    address: Option<u16>,
    segment: Option<SegmentRegister>,
) -> Operand {
    Operand::Memory(MemoryOperand { base1, base2, displacement, size, address, segment })
}

#[test]
fn decode_short_jump_stores_offset_from_start() {
    let mut emu = Emulator::<1024>::with_image(&[0x74, 0x05]).unwrap();
    let instr = decode_instruction(&mut emu.registers, &emu.memory).unwrap();
    assert_eq!(instr, Instruction::JumpEqual { offset: 7 });
    assert_eq!(instr.to_string(), "je $+7");
    assert_eq!(emu.registers.ip(), 2);

    // zero flag clear: not taken
    emu.execute(&instr).unwrap();
    assert_eq!(emu.registers.ip(), 2);

    // zero flag set: taken
    emu.registers.regs[9] = 0x40;
    emu.execute(&instr).unwrap();
    assert_eq!(emu.registers.ip(), 7);
}

#[test]
fn decode_repeat_prefix() {
    let (instr, len) = decode_at(&[0xF3, 0xA4], 0).unwrap();
    assert_eq!(instr, Instruction::MoveByte { repeat: Some(Repeat::WhileSetZeroFlag) });
    assert_eq!(len, 2);
    assert_eq!(instr.to_string(), "repe movsb");

    let (instr, len) = decode_at(&[0xF2, 0xA4], 0).unwrap();
    assert_eq!(instr, Instruction::MoveByte { repeat: Some(Repeat::WhileClearZeroFlag) });
    assert_eq!(len, 2);
    assert_eq!(instr.to_string(), "repne movsb");

    let (instr, _) = decode_at(&[0xF3, 0xAF], 0).unwrap();
    assert_eq!(instr.to_string(), "repe scasw");
    let (instr, len) = decode_at(&[0xA4], 0).unwrap();
    assert_eq!((instr.to_string().as_str(), len), ("movsb", 1));
}

#[test]
fn decode_repeat_prefix_before_other_opcode_is_an_error() {
    assert_eq!(decode_at(&[0xF3, 0x90], 0), Err(Error::UnknownRepeatOpcode(0x90, Address(0))));
    assert_eq!(
        decode_at(&[0x00, 0x00, 0xF2, 0x26, 0xA4], 2),
        Err(Error::UnknownRepeatOpcode(0x26, Address(2)))
    );
}

#[test]
fn decode_unknown_opcode() {
    for byte in [0x60u8, 0x6F, 0x9A, 0xC0, 0xC8, 0xD6, 0xD8, 0xE8, 0xEB, 0xF1] {
        assert_eq!(decode_at(&[byte, 0, 0], 0), Err(Error::UnknownInstruction(byte, Address(0))));
    }
    // extension opcodes that name nothing
    assert_eq!(decode_at(&[0xF6, 0x08], 0), Err(Error::UnknownInstruction(0xF6, Address(0))));
    assert_eq!(decode_at(&[0xD0, 0x30], 0), Err(Error::UnknownInstruction(0xD0, Address(0))));
    assert_eq!(decode_at(&[0xFE, 0x10], 0), Err(Error::UnknownInstruction(0xFE, Address(0))));
    assert_eq!(decode_at(&[0xFF, 0x38], 0), Err(Error::UnknownInstruction(0xFF, Address(0))));
    // the reported byte is the one where decoding began, also behind a prefix
    assert_eq!(decode_at(&[0x26, 0x60], 0), Err(Error::UnknownInstruction(0x26, Address(0))));
}

#[test]
fn decode_past_the_end_is_out_of_bounds() {
    assert_eq!(decode_at(&[], 0), Err(Error::OutOfBoundsRead(Address(0))));
    assert_eq!(decode_at(&[0x90], 1), Err(Error::OutOfBoundsRead(Address(1))));
    assert_eq!(decode_at(&[0x90], 7), Err(Error::OutOfBoundsRead(Address(7))));
    assert_eq!(decode_at(&[0xB8, 0x34], 0), Err(Error::OutOfBoundsRead(Address(0))));
    assert_eq!(decode_at(&[0x8B], 0), Err(Error::OutOfBoundsRead(Address(0))));
    assert_eq!(decode_at(&[0x8B, 0x86, 0x01], 0), Err(Error::OutOfBoundsRead(Address(0))));
    assert_eq!(decode_at(&[0x26], 0), Err(Error::OutOfBoundsRead(Address(0))));
    assert_eq!(decode_at(&[0xF3], 0), Err(Error::OutOfBoundsRead(Address(0))));
    assert_eq!(decode_at(&[0x90, 0x74], 1), Err(Error::OutOfBoundsRead(Address(1))));
}

#[test]
fn decode_mov_forms() {
    let reg = Operand::Register;
    // mov cx, bx
    assert_eq!(
        decode_at(&[0x89, 0xD9], 0),
        Ok((Instruction::Mov { dest: reg(Register::Cx), src: reg(Register::Bx) }, 2))
    );
    // mov ch, ah
    assert_eq!(
        decode_at(&[0x88, 0xE5], 0),
        Ok((Instruction::Mov { dest: reg(Register::Ch), src: reg(Register::Ah) }, 2))
    );
    // mov bp, 0x1234
    assert_eq!(
        decode_at(&[0xBD, 0x34, 0x12], 0),
        Ok((Instruction::Mov { dest: reg(Register::Bp), src: Operand::Immediate(0x1234) }, 3))
    );
    // mov al, 0xf4: a byte is not sign-extended
    assert_eq!(
        decode_at(&[0xB0, 0xF4], 0),
        Ok((Instruction::Mov { dest: reg(Register::Al), src: Operand::Immediate(0xF4) }, 2))
    );
    // mov dx, 0xf06c
    assert_eq!(
        decode_at(&[0xBA, 0x6C, 0xF0], 0),
        Ok((Instruction::Mov { dest: reg(Register::Dx), src: Operand::Immediate(-3988) }, 3))
    );
    // mov al, [bx + si]
    assert_eq!(
        decode_at(&[0x8A, 0x00], 0),
        Ok((
            Instruction::Mov {
                dest: reg(Register::Al),
                src: memory_operand(
                    Some(Register::Bx),
                    Some(Register::Si),
                    None,
                    Some(MemorySize::Byte),
                    None,
                    None
                ),
            },
            2
        ))
    );
    // mov dx, [bp]: bp alone has a displacement of zero
    assert_eq!(
        decode_at(&[0x8B, 0x56, 0x00], 0),
        Ok((
            Instruction::Mov {
                dest: reg(Register::Dx),
                src: memory_operand(
                    Some(Register::Bp),
                    None,
                    Some(0),
                    Some(MemorySize::Word),
                    None,
                    None
                ),
            },
            3
        ))
    );
    // mov ax, [bx + di - 37]
    assert_eq!(
        decode_at(&[0x8B, 0x41, 0xDB], 0),
        Ok((
            Instruction::Mov {
                dest: reg(Register::Ax),
                src: memory_operand(
                    Some(Register::Bx),
                    Some(Register::Di),
                    Some(-37),
                    Some(MemorySize::Word),
                    None,
                    None
                ),
            },
            3
        ))
    );
    // mov [si - 300], cx
    assert_eq!(
        decode_at(&[0x89, 0x8C, 0xD4, 0xFE], 0),
        Ok((
            Instruction::Mov {
                dest: memory_operand(
                    Some(Register::Si),
                    None,
                    Some(-300),
                    Some(MemorySize::Word),
                    None,
                    None
                ),
                src: reg(Register::Cx),
            },
            4
        ))
    );
    // mov bp, [5]: a direct address
    assert_eq!(
        decode_at(&[0x8B, 0x2E, 0x05, 0x00], 0),
        Ok((
            Instruction::Mov {
                dest: reg(Register::Bp),
                src: memory_operand(None, None, None, Some(MemorySize::Word), Some(5), None),
            },
            4
        ))
    );
    // mov byte [bx], 7 and mov word [bp + di + 4], 0x1234
    assert_eq!(
        decode_at(&[0xC6, 0x07, 0x07], 0),
        Ok((
            Instruction::Mov {
                dest: memory_operand(
                    Some(Register::Bx),
                    None,
                    None,
                    Some(MemorySize::Byte),
                    None,
                    None
                ),
                src: Operand::Immediate(7),
            },
            3
        ))
    );
    assert_eq!(
        decode_at(&[0xC7, 0x43, 0x04, 0x34, 0x12], 0),
        Ok((
            Instruction::Mov {
                dest: memory_operand(
                    Some(Register::Bp),
                    Some(Register::Di),
                    Some(4),
                    Some(MemorySize::Word),
                    None,
                    None
                ),
                src: Operand::Immediate(0x1234),
            },
            5
        ))
    );
    // mov ax, [0x1234] and mov [0x1234], ax through the accumulator
    assert_eq!(
        decode_at(&[0xA1, 0x34, 0x12], 0),
        Ok((
            Instruction::Mov {
                dest: reg(Register::Ax),
                src: memory_operand(None, None, None, Some(MemorySize::Word), Some(0x1234), None),
            },
            3
        ))
    );
    assert_eq!(
        decode_at(&[0xA3, 0x34, 0x12], 0),
        Ok((
            Instruction::Mov {
                dest: memory_operand(None, None, None, Some(MemorySize::Word), Some(0x1234), None),
                src: reg(Register::Ax),
            },
            3
        ))
    );
    // mov ds, ax and mov ax, es
    assert_eq!(
        decode_at(&[0x8E, 0xD8], 0),
        Ok((
            Instruction::Mov {
                dest: Operand::SegmentRegister(SegmentRegister::Ds),
                src: reg(Register::Ax),
            },
            2
        ))
    );
    assert_eq!(
        decode_at(&[0x8C, 0xC0], 0),
        Ok((
            Instruction::Mov {
                dest: reg(Register::Ax),
                src: Operand::SegmentRegister(SegmentRegister::Es),
            },
            2
        ))
    );
}

#[test]
fn decode_arithmetic_immediates() {
    let reg = Operand::Register;
    // add ax, -1: one byte, sign-extended
    assert_eq!(
        decode_at(&[0x83, 0xC0, 0xFF], 0),
        Ok((Instruction::Add { dest: reg(Register::Ax), src: Operand::Immediate(-1) }, 3))
    );
    // sub cx, 0x1234: two bytes
    assert_eq!(
        decode_at(&[0x81, 0xE9, 0x34, 0x12], 0),
        Ok((Instruction::Sub { dest: reg(Register::Cx), src: Operand::Immediate(0x1234) }, 4))
    );
    // cmp bl, -128: one byte, sign-extended
    assert_eq!(
        decode_at(&[0x80, 0xFB, 0x80], 0),
        Ok((Instruction::Cmp { left: reg(Register::Bl), right: Operand::Immediate(-128) }, 3))
    );
    // add al, 0x90 and add ax, 0x9000 through the accumulator: the byte is sign-extended
    assert_eq!(
        decode_at(&[0x04, 0x90], 0),
        Ok((Instruction::Add { dest: reg(Register::Al), src: Operand::Immediate(-112) }, 2))
    );
    assert_eq!(
        decode_at(&[0x04, 0xFF], 0),
        Ok((Instruction::Add { dest: reg(Register::Al), src: Operand::Immediate(-1) }, 2))
    );
    assert_eq!(
        decode_at(&[0x3C, 0x7F], 0),
        Ok((Instruction::Cmp { left: reg(Register::Al), right: Operand::Immediate(127) }, 2))
    );
    assert_eq!(
        decode_at(&[0x05, 0x00, 0x90], 0),
        Ok((Instruction::Add { dest: reg(Register::Ax), src: Operand::Immediate(-28672) }, 3))
    );
    // each of the eight operations, register to register
    for (opcode, text) in [
        (0x01u8, "add bx, cx"),
        (0x09, "or bx, cx"),
        (0x11, "adc bx, cx"),
        (0x19, "sbb bx, cx"),
        (0x21, "and bx, cx"),
        (0x29, "sub bx, cx"),
        (0x31, "xor bx, cx"),
        (0x39, "cmp bx, cx"),
    ] {
        let (instr, len) = decode_at(&[opcode, 0xCB], 0).unwrap();
        assert_eq!((instr.to_string().as_str(), len), (text, 2));
    }
    // and with the direction bit set
    let (instr, _) = decode_at(&[0x2B, 0xCB], 0).unwrap();
    assert_eq!(instr.to_string(), "sub cx, bx");
    // test ax, 0x1234 and test byte [bx], 1
    let (instr, len) = decode_at(&[0xA9, 0x34, 0x12], 0).unwrap();
    assert_eq!((instr.to_string().as_str(), len), ("test ax, 0x1234", 3));
    let (instr, len) = decode_at(&[0xF6, 0x07, 0x01], 0).unwrap();
    assert_eq!((instr.to_string().as_str(), len), ("test byte [bx], 0x1", 3));
    // the byte of a test is sign-extended too
    assert_eq!(
        decode_at(&[0xF6, 0xC0, 0xFF], 0),
        Ok((Instruction::Test { dest: reg(Register::Al), src: Operand::Immediate(-1) }, 3))
    );
    assert_eq!(
        decode_at(&[0xA8, 0xFF], 0),
        Ok((Instruction::Test { dest: reg(Register::Al), src: Operand::Immediate(-1) }, 2))
    );
    assert_eq!(
        decode_at(&[0xF7, 0xC3, 0xFF, 0x00], 0),
        Ok((Instruction::Test { dest: reg(Register::Bx), src: Operand::Immediate(0xff) }, 4))
    );
    // the byte of a mov is not
    assert_eq!(
        decode_at(&[0xB0, 0xFF], 0),
        Ok((Instruction::Mov { dest: reg(Register::Al), src: Operand::Immediate(0xff) }, 2))
    );
    assert_eq!(
        decode_at(&[0xC6, 0xC0, 0xFF], 0),
        Ok((Instruction::Mov { dest: reg(Register::Al), src: Operand::Immediate(0xff) }, 3))
    );
}

#[test]
fn decode_segment_prefix() {
    // mov ax, [es:bx]
    let (instr, len) = decode_at(&[0x26, 0x8B, 0x07], 0).unwrap();
    assert_eq!(
        instr,
        Instruction::Mov {
            dest: Operand::Register(Register::Ax),
            src: memory_operand(
                Some(Register::Bx),
                None,
                None,
                Some(MemorySize::Word),
                None,
                Some(SegmentRegister::Es)
            ),
        }
    );
    assert_eq!(len, 3);
    assert_eq!(instr.to_string(), "mov ax, word [es:bx]");
    // the last of several prefixes counts
    let (instr, len) = decode_at(&[0x26, 0x3E, 0x2E, 0xA1, 0x10, 0x00], 0).unwrap();
    assert_eq!((instr.to_string().as_str(), len), ("mov ax, word [cs:0x10]", 6));
    // a prefix before an instruction without memory operand is counted and dropped
    assert_eq!(decode_at(&[0x36, 0x90], 0), Ok((Instruction::Nop, 2)));
}

#[test]
fn decode_moves_the_instruction_pointer() {
    let image = [0x26, 0x8B, 0x07, 0xBD, 0x34, 0x12, 0x90, 0x60];
    let memory = Memory::<16>::from_bytes(&image).unwrap();
    let mut cpu = RegisterState::new();
    for (text, ip) in [("mov ax, word [es:bx]", 3), ("mov bp, 0x1234", 6), ("nop", 7)] {
        let before = cpu.ip();
        let instr = decode_instruction(&mut cpu, &memory).unwrap();
        assert_eq!(instr.to_string(), text);
        assert_eq!(cpu.ip(), ip);
        // decoding again from the old pointer gives the same instruction
        let mut again = RegisterState::new();
        again.set_ip(before);
        assert_eq!(decode_instruction(&mut again, &memory), Ok(instr));
        assert_eq!(again.ip(), ip);
    }
    assert_eq!(
        decode_instruction(&mut cpu, &memory),
        Err(Error::UnknownInstruction(0x60, Address(7)))
    );
    assert_eq!(cpu.ip(), 7);

    // on an error the pointer has passed the segment prefixes only
    let memory = Memory::<16>::from_bytes(&[0x26, 0x2E, 0x60]).unwrap();
    let mut cpu = RegisterState::new();
    assert_eq!(
        decode_instruction(&mut cpu, &memory),
        Err(Error::UnknownInstruction(0x26, Address(0)))
    );
    assert_eq!(cpu.ip(), 2);

    // at the end of the memory
    let mut cpu = RegisterState::new();
    cpu.set_ip(16);
    assert_eq!(decode_instruction(&mut cpu, &memory), Err(Error::OutOfBoundsRead(Address(16))));
    assert_eq!(cpu.ip(), 16);
    cpu.set_ip(15);
    assert_eq!(
        decode_instruction(&mut cpu, &memory).map(|instr| instr.to_string()),
        Err(Error::OutOfBoundsRead(Address(15)))
    );
}

#[test]
fn decode_wraps_the_instruction_pointer() {
    let mut image = vec![0u8; 0x10000];
    image[0xFFFC] = 0x26;
    image[0xFFFD] = 0xB8;
    image[0xFFFE] = 0x34;
    image[0xFFFF] = 0x90;
    let memory = Memory::<0x10000>::from_bytes(&image).unwrap();
    let mut cpu = RegisterState::new();
    // the last byte of the memory: the pointer is zero again
    cpu.set_ip(0xFFFF);
    assert_eq!(decode_instruction(&mut cpu, &memory), Ok(Instruction::Nop));
    assert_eq!(cpu.ip(), 0);
    // an instruction of three bytes that ends with the memory
    cpu.set_ip(0xFFFD);
    assert_eq!(
        decode_instruction(&mut cpu, &memory),
        Ok(Instruction::Mov {
            dest: Operand::Register(Register::Ax),
            src: Operand::Immediate(-28620)
        })
    );
    assert_eq!(cpu.ip(), 0);
    // and with its prefix before it
    cpu.set_ip(0xFFFC);
    assert!(decode_instruction(&mut cpu, &memory).is_ok());
    assert_eq!(cpu.ip(), 0);
    // one that would run on behind the memory is refused
    image[0xFFFF] = 0xB8;
    let memory = Memory::<0x10000>::from_bytes(&image).unwrap();
    cpu.set_ip(0xFFFF);
    assert_eq!(
        decode_instruction(&mut cpu, &memory),
        Err(Error::OutOfBoundsRead(Address(0xFFFF)))
    );
    assert_eq!(cpu.ip(), 0xFFFF);
    // a memory of 65536 bytes is the largest
    assert_eq!(memory.memory.len(), 0x10000);
    assert_eq!(memory.read_u8(Address(0xFFFF)), Ok(0xB8));
}

#[test]
fn decode_every_first_byte() {
    // every opcode decodes or is refused, and what was decoded is decoded
    // again from its own bytes alone and from its bytes at another place
    for first in 0..=255u8 {
        for second in [0x00u8, 0x06, 0x46, 0x86, 0xC1, 0x38, 0xA4, 0xFF] {
            let bytes = [first, second, 0x12, 0x34, 0x56, 0x78, 0x9A];
            if let Ok((instr, len)) = decode_at(&bytes, 0) {
                assert!(1 <= len && len <= 6, "{first:#x} {second:#x}");
                assert_eq!(decode_at(&bytes[..len], 0), Ok((instr, len)));
                let mut moved = vec![0x90, 0x90, 0x90];
                moved.extend_from_slice(&bytes[..len]);
                moved.push(0xC3);
                assert_eq!(decode_at(&moved, 3), Ok((instr, len)));
                assert!(!instr.to_string().is_empty());
            }
        }
    }
}

#[test]
fn decode_stream_of_instructions() {
    let image = [0x89, 0xD9, 0xF0, 0x83, 0xC0, 0xFF, 0xE2, 0xFA, 0xC3];
    let instructions = decode_stream(&image).unwrap();
    let texts: Vec<String> = instructions.iter().map(|i| i.to_string()).collect();
    assert_eq!(texts, ["mov cx, bx", "lock ", "add ax, 0xffff", "loop $-4", "ret"]);
    assert_eq!(decode_stream(&[]), Ok(vec![]));
    assert_eq!(
        decode_stream(&[0x90, 0x0F, 0x60]),
        Err(Error::UnknownInstruction(0x60, Address(2)))
    );
    assert_eq!(decode_stream(&[0x90, 0xB8]), Err(Error::OutOfBoundsRead(Address(1))));
}

#[test]
fn decode_second_byte_parsers() {
    let reg = Operand::Register;
    assert_eq!(
        parse_mod_reg_rm_instr(&[0x89, 0xD9], Wide(1), None),
        Ok((reg(Register::Bx), reg(Register::Cx), 2))
    );
    assert_eq!(
        parse_mod_reg_rm_instr(&[0x88, 0x46, 0x80], Wide(0), Some(SegmentRegister::Ss)),
        Ok((
            reg(Register::Al),
            memory_operand(
                Some(Register::Bp),
                None,
                Some(-128),
                Some(MemorySize::Byte),
                None,
                Some(SegmentRegister::Ss)
            ),
            3
        ))
    );
    assert_eq!(
        parse_mod_reg_rm_instr(&[0x89, 0x86, 0x01], Wide(1), None),
        Err(Error::OutOfBoundsRead(Address(0)))
    );
    assert_eq!(
        parse_mod_segreg_rm_instr(&[0x8E, 0x1E, 0x34, 0x12], None),
        Ok((
            SegmentRegister::Ds,
            memory_operand(None, None, None, Some(MemorySize::Word), Some(0x1234), None),
            4
        ))
    );
    assert_eq!(
        parse_mod_segreg_rm_instr(&[0x8E], None),
        Err(Error::OutOfBoundsRead(Address(0)))
    );
}

#[test]
fn decode_other_instructions() {
    for (bytes, text) in [
        (vec![0x50u8], "push ax"),
        (vec![0x5F], "pop di"),
        (vec![0x06], "push es"),
        (vec![0x1E], "push ds"),
        (vec![0x1F], "pop ds"),
        (vec![0x0F], "pop cs"),
        (vec![0xFF, 0x36, 0x34, 0x12], "push word [0x1234]"),
        (vec![0x8F, 0x06, 0x34, 0x12], "pop word [0x1234]"),
        (vec![0x87, 0xD9], "xchg bx, cx"),
        (vec![0x93], "xchg bx, ax"),
        (vec![0x90], "nop"),
        (vec![0xE4, 0xC8], "in al, 0xc8"),
        (vec![0xED], "in ax, dx"),
        (vec![0xE7, 0x2C], "out 0x2c, ax"),
        (vec![0xEE], "out dx, al"),
        (vec![0xD7], "xlat"),
        (vec![0x8D, 0x41, 0x04], "lea ax, [bx + di + 0x4]"),
        (vec![0xC5, 0x07], "lds ax, [bx]"),
        (vec![0xC4, 0x07], "les ax, [bx]"),
        (vec![0x9F], "lahf"),
        (vec![0x9E], "sahf"),
        (vec![0x9C], "pushf"),
        (vec![0x9D], "popf"),
        (vec![0x40], "inc ax"),
        (vec![0x4B], "dec bx"),
        (vec![0xFE, 0x06, 0x02, 0x00], "inc byte [0x2]"),
        (vec![0xFF, 0x0F], "dec word [bx]"),
        (vec![0x37], "aaa"),
        (vec![0x27], "daa"),
        (vec![0x3F], "aas"),
        (vec![0x2F], "das"),
        (vec![0xD4, 0x0A], "aam"),
        (vec![0xD5, 0x0A], "aad"),
        (vec![0x98], "cbw"),
        (vec![0x99], "cwd"),
        (vec![0xF7, 0xD8], "neg ax"),
        (vec![0xF6, 0xD3], "not bl"),
        (vec![0xF7, 0xE1], "mul cx"),
        (vec![0xF7, 0xE9], "imul cx"),
        (vec![0xF6, 0xF3], "div bl"),
        (vec![0xF6, 0xFB], "idiv bl"),
        (vec![0xD1, 0xE0], "shl ax, 0x1"),
        (vec![0xD3, 0xE8], "shr ax, cl"),
        (vec![0xD0, 0xFB], "sar bl, 0x1"),
        (vec![0xD1, 0xC0], "rol ax, 0x1"),
        (vec![0xD1, 0xC8], "ror ax, 0x1"),
        (vec![0xD1, 0xD0], "rcl ax, 0x1"),
        (vec![0xD2, 0x1F], "rcr byte [bx], cl"),
        (vec![0xFF, 0x17], "call word [bx]"),
        (vec![0xFF, 0xE0], "jmp ax"),
        (vec![0xC2, 0xF9, 0xFF], "ret 0xfff9"),
        (vec![0xC3], "ret"),
        (vec![0xCD, 0x0D], "int 0xd"),
        (vec![0xCC], "int 0x3"),
        (vec![0xCE], "into"),
        (vec![0xCF], "iret"),
        (vec![0xF8], "clc"),
        (vec![0xF5], "cmc"),
        (vec![0xF9], "stc"),
        (vec![0xFC], "cld"),
        (vec![0xFD], "std"),
        (vec![0xFA], "cli"),
        (vec![0xFB], "sti"),
        (vec![0xF4], "hlt"),
        (vec![0x9B], "wait"),
        (vec![0xF0], "lock "),
        (vec![0x75, 0xFE], "jne $+0"),
        (vec![0x7C, 0xFC], "jl $-2"),
        (vec![0x7E, 0x7F], "jle $+129"),
        (vec![0x72, 0x80], "jb $-126"),
        (vec![0x76, 0x00], "jbe $+2"),
        (vec![0x7A, 0x00], "jp $+2"),
        (vec![0x70, 0x00], "jo $+2"),
        (vec![0x78, 0x00], "js $+2"),
        (vec![0x7D, 0x00], "jnl $+2"),
        (vec![0x7F, 0x00], "jnle $+2"),
        (vec![0x73, 0x00], "jnb $+2"),
        (vec![0x77, 0x00], "jnbe $+2"),
        (vec![0x7B, 0x00], "jnp $+2"),
        (vec![0x71, 0x00], "jno $+2"),
        (vec![0x79, 0x00], "jns $+2"),
        (vec![0xE2, 0xFA], "loop $-4"),
        (vec![0xE1, 0x00], "loope $+2"),
        (vec![0xE0, 0x00], "loopne $+2"),
        (vec![0xE3, 0x00], "jcxz $+2"),
        (vec![0xA6], "cmpsb"),
        (vec![0xA7], "cmpsw"),
        (vec![0xAA], "stosb"),
        (vec![0xAB], "stosw"),
        (vec![0xAC], "lodsb"),
        (vec![0xAD], "lodsw"),
        (vec![0xAE], "scasb"),
        (vec![0xA5], "movsw"),
    ] {
        let (instr, len) = decode_at(&bytes, 0).unwrap();
        assert_eq!(instr.to_string(), text, "{bytes:x?}");
        assert_eq!(len, bytes.len(), "{bytes:x?}");
    }
}
