use emu8086::instruction::{Instruction, Operand, Repeat};
use emu8086::memory_operand::{MemoryError, MemoryOperand, MemorySize};
use emu8086::register::{Mod, Register, Rm, SegmentRegister, Wide};
use emu8086::text::{listing, listing_header};

fn empty() -> MemoryOperand {
    MemoryOperand {
        base1: None,
        base2: None,
        displacement: None,
        size: None,
        address: None,
        segment: None,
    }
}

#[test]
fn operand_texts() {
    assert_eq!(Operand::Register(Register::Ax).to_string(), "ax");
    assert_eq!(Operand::Register(Register::Dh).to_string(), "dh");
    assert_eq!(Operand::SegmentRegister(SegmentRegister::Ss).to_string(), "ss");
    assert_eq!(Operand::Immediate(0).to_string(), "0x0");
    assert_eq!(Operand::Immediate(0x1f).to_string(), "0x1f");
    assert_eq!(Operand::Immediate(0x1234).to_string(), "0x1234");
    assert_eq!(Operand::Immediate(-1).to_string(), "0xffff");
    assert_eq!(Operand::Immediate(i16::MIN).to_string(), "0x8000");
    assert_eq!(Operand::Immediate(0x0a0).to_string(), "0xa0");

    let direct = MemoryOperand::direct_address(0x1234, Wide(1));
    assert_eq!(Operand::Memory(direct).to_string(), "word [0x1234]");
    assert_eq!(
        Operand::Memory(direct.with_segment(Some(SegmentRegister::Ds))).to_string(),
        "word [ds:0x1234]"
    );
    assert_eq!(
        Operand::Memory(MemoryOperand::direct_address(0, Wide(0))).to_string(),
        "byte [0x0]"
    );
    for (rm, text) in [
        (0u8, "byte [bx + si + 0x7f]"),
        (1, "byte [bx + di + 0x7f]"),
        (2, "byte [bp + si + 0x7f]"),
        (3, "byte [bp + di + 0x7f]"),
        (4, "byte [si + 0x7f]"),
        (5, "byte [di + 0x7f]"),
        (6, "byte [bp + 0x7f]"),
        (7, "byte [bx + 0x7f]"),
    ] {
        let memory = MemoryOperand::from_mod_rm(Mod(1), Rm(rm), Wide(0)).unwrap();
        assert_eq!(Operand::Memory(memory.with_displacement(0x7f)).to_string(), text);
    }
    let memory = MemoryOperand::from_mod_rm(Mod(2), Rm(0), Wide(1)).unwrap();
    assert_eq!(Operand::Memory(memory).to_string(), "word [bx + si]");
    assert_eq!(Operand::Memory(memory.with_displacement(0)).to_string(), "word [bx + si]");
    assert_eq!(
        Operand::Memory(memory.with_displacement(-1)).to_string(),
        "word [bx + si - 0x1]"
    );
    assert_eq!(
        Operand::Memory(memory.with_displacement(i16::MIN)).to_string(),
        "word [bx + si - 0x8000]"
    );
    assert_eq!(
        Operand::Memory(
            memory.with_displacement(0x100).with_segment(Some(SegmentRegister::Cs)).without_size()
        )
        .to_string(),
        "[cs:bx + si + 0x100]"
    );
    assert_eq!(Operand::Memory(empty()).to_string(), "[]");
    // no registers where the field names a direct address
    let memory = MemoryOperand::from_mod_rm(Mod(0), Rm(6), Wide(1)).unwrap();
    assert_eq!((memory.base1, memory.base2, memory.address), (None, None, None));
    assert_eq!(
        MemoryOperand::from_mod_rm(Mod(3), Rm(0), Wide(1)),
        Err(MemoryError::AttemptedThreeModInMemory)
    );
    assert_eq!(
        MemoryOperand::from_mod_rm(Mod(0), Rm(8), Wide(1)),
        Err(MemoryError::InvalidRMValue(8))
    );
    assert_eq!(MemorySize::Byte.name(), "byte");
    assert_eq!(MemorySize::Word.name(), "word");
}

#[test]
fn instruction_texts() {
    let ax = Operand::Register(Register::Ax);
    let memory = Operand::Memory(MemoryOperand::direct_address(0x10, Wide(0)));
    for (instr, text) in [
        (Instruction::Mov { dest: ax, src: memory }, "mov ax, byte [0x10]"),
        (Instruction::Cmp { left: memory, right: Operand::Immediate(-2) }, "cmp byte [0x10], 0xfffe"),
        (Instruction::In { dest: Register::Al, src: Operand::Immediate(200) }, "in al, 0xc8"),
        (Instruction::Out { dest: Operand::Register(Register::Dx), src: Register::Ax }, "out dx, ax"),
        (Instruction::Push { src: Operand::SegmentRegister(SegmentRegister::Cs) }, "push cs"),
        (Instruction::Shl { src: ax, count: Operand::Register(Register::Cl) }, "shl ax, cl"),
        (Instruction::Call { dest: memory }, "call byte [0x10]"),
        (Instruction::ReturnWithOffset { offset: 4 }, "ret 0x4"),
        (Instruction::ReturnWithOffset { offset: -4 }, "ret 0xfffc"),
        (Instruction::Interrupt { vector: 0xff }, "int 0xff"),
        (Instruction::Interrupt { vector: 0 }, "int 0x0"),
        (Instruction::JumpEqual { offset: 0 }, "je $+0"),
        (Instruction::JumpNotEqual { offset: 9 }, "jne $+9"),
        (Instruction::JumpSign { offset: 10 }, "js $+10"),
        (Instruction::JumpCxZero { offset: 129 }, "jcxz $+129"),
        (Instruction::Loop { offset: -126 }, "loop $-126"),
        (Instruction::LoopWhileZero { offset: 32767 }, "loope $+32767"),
        (Instruction::LoopWhileNotZero { offset: i16::MIN }, "loopne $-32768"),
        (Instruction::JumpBelow { offset: -10000 }, "jb $-10000"),
        (Instruction::JumpBelow { offset: 1001 }, "jb $+1001"),
        (Instruction::StoreWord { repeat: Some(Repeat::WhileClearZeroFlag) }, "repne stosw"),
        (Instruction::LoadByte { repeat: Some(Repeat::WhileSetZeroFlag) }, "repe lodsb"),
        (Instruction::CmpWord { repeat: None }, "cmpsw"),
        (Instruction::Lock, "lock "),
        (Instruction::Return, "ret"),
    ] {
        assert_eq!(instr.to_string(), text);
        assert!(text.contains(instr.name()));
    }
    let instr = Instruction::Xchg { left: ax, right: memory };
    assert_eq!(instr.operand_pair(), (Some(ax), Some(memory)));
    assert_eq!(Instruction::Nop.operand_pair(), (None, None));
}

#[test]
fn listing_lines() {
    assert_eq!(listing_header("a/b.bin"), "; Decoded from a/b.bin\nbits 16\n");
    let instructions = [
        Instruction::Lock,
        Instruction::Inc { src: Operand::Register(Register::Bx) },
        Instruction::Return,
    ];
    assert_eq!(
        listing("x", &instructions),
        "; Decoded from x\nbits 16\nlock inc bx\nret\n"
    );
    assert_eq!(listing("", &[]), "; Decoded from \nbits 16\n");
}
