use emu8086::emu::{compute_status_flags, count_ones, Emulator, Error, RegisterState};
use emu8086::flags::EFlags;
use emu8086::instruction::{Instruction, Operand};
use emu8086::memory::Address;
use emu8086::memory_operand::{MemoryOperand, MemorySize};
use emu8086::register::{Register, SegmentRegister};

fn machine() -> Emulator<1024> {
    let mut emu = Emulator::<1024>::new();
    emu.set_register_value(&Register::Ax, 0x4);
    emu.set_register_value(&Register::Bx, 0x3);
    emu.set_register_value(&Register::Cx, 0x2);
    emu.set_register_value(&Register::Dx, 0x1);
    emu.set_register_value(&Register::Si, 0x5);
    emu.set_register_value(&Register::Di, 0x6);
    emu.set_register_value(&Register::Bp, 0x8);
    emu.set_register_value(&Register::Sp, 0x1);
    emu
}

fn reg(register: Register) -> Operand {
    Operand::Register(register)
}

fn at(base1: Option<Register>, displacement: Option<i16>, size: MemorySize) -> MemoryOperand {
    MemoryOperand {
        base1,
        base2: None,
        displacement,
        size: Some(size),
        address: None,
        segment: None,
    }
}

#[test]
fn mov_immediate_leaves_flags() {
    let mut emu = machine();
    emu.registers.regs[9] = 0x0085;
    emu.execute(&Instruction::Mov { dest: reg(Register::Bp), src: Operand::Immediate(0x1234) })
        .unwrap();
    assert_eq!(emu.get_register_value(&Register::Bp), 0x1234);
    assert_eq!(emu.registers.flags(), 0x0085);
    assert_eq!(emu.get_register_value(&Register::Ax), 4);
}

#[test]
fn sub_registers() {
    let mut emu = machine();
    emu.execute(&Instruction::Sub { dest: reg(Register::Ax), src: reg(Register::Bx) }).unwrap();
    assert_eq!(emu.get_register_value(&Register::Ax), 1);
    assert!(!emu.registers.carry_flag());
    assert!(!emu.registers.zero_flag());
    assert!(!emu.registers.sign_flag());
    assert_eq!(emu.get_register_value(&Register::Bx), 3);
}

#[test]
fn sub_register_from_itself() {
    let mut emu = machine();
    emu.execute(&Instruction::Sub { dest: reg(Register::Ax), src: reg(Register::Ax) }).unwrap();
    assert_eq!(emu.get_register_value(&Register::Ax), 0);
    assert!(emu.registers.zero_flag());
    assert!(emu.registers.parity_flag());
    assert_eq!(emu.registers.flags(), EFlags::Zero.mask() | EFlags::Parity.mask());
}

#[test]
fn cmp_sets_flags_only() {
    let mut emu = machine();
    emu.execute(&Instruction::Cmp { left: reg(Register::Bx), right: reg(Register::Ax) }).unwrap();
    assert_eq!(emu.get_register_value(&Register::Bx), 3);
    assert_eq!(emu.get_register_value(&Register::Ax), 4);
    assert!(emu.registers.sign_flag());
    // the difference is 0xffff: sign, parity, and carry as the executor computes it
    assert_eq!(
        emu.registers.flags(),
        EFlags::Sign.mask() | EFlags::Parity.mask() | EFlags::Carry.mask()
            | EFlags::Auxillary.mask()
    );
}

#[test]
fn status_flags_formulas() {
    assert_eq!(compute_status_flags(0, 0, 0), 0x0044);
    assert_eq!(compute_status_flags(1, 4, 3), 0x0000);
    assert_eq!(compute_status_flags(3, 4, 0xffff), 0x0004);
    assert_eq!(compute_status_flags(0x8000, 0x4000, 0x4000), 0x0085);
    assert_eq!(compute_status_flags(0x0000, 0x8000, 0x8000), 0x0844);
    assert_eq!(compute_status_flags(0x0080, 0x0040, 0x0040), 0x0010);
    assert_eq!(compute_status_flags(0x0107, 0, 0), 0x0000);
    assert_eq!(compute_status_flags(0xffff, 3, 4), 0x0095);
    for value in 0..=255u8 {
        assert_eq!(u32::from(count_ones(value)), value.count_ones());
    }
}

#[test]
fn sub_register_halves() {
    let mut emu = Emulator::<1024>::new();
    emu.set_register_value(&Register::Bx, 0x1234);
    assert_eq!(emu.get_register_value(&Register::Bl), 0x34);
    assert_eq!(emu.get_register_value(&Register::Bh), 0x12);
    emu.set_register_value(&Register::Bl, 0xff);
    assert_eq!(emu.get_register_value(&Register::Bx), 0x12ff);
    emu.set_register_value(&Register::Bh, 0xab);
    assert_eq!(emu.get_register_value(&Register::Bx), 0xabff);
    // a high half takes the low byte of the value
    emu.set_register_value(&Register::Bh, 0x1234);
    assert_eq!(emu.get_register_value(&Register::Bx), 0x34ff);
    // writing back what was read changes nothing
    for register in [
        Register::Ax,
        Register::Bx,
        Register::Cx,
        Register::Dx,
        Register::Si,
        Register::Di,
        Register::Bp,
        Register::Sp,
        Register::Ip,
        Register::Flags,
        Register::Al,
        Register::Ah,
        Register::Bl,
        Register::Bh,
        Register::Cl,
        Register::Ch,
        Register::Dl,
        Register::Dh,
    ] {
        let before = emu.registers;
        let value = emu.get_register_value(&register);
        emu.set_register_value(&register, value);
        assert_eq!(emu.registers, before);
    }
    // execute stores the low byte of a result in a half
    emu.set_register_value(&Register::Ax, 0x0003);
    emu.execute(&Instruction::Sub { dest: reg(Register::Al), src: Operand::Immediate(4) }).unwrap();
    assert_eq!(emu.get_register_value(&Register::Ax), 0x00ff);
    emu.execute(&Instruction::Mov { dest: reg(Register::Ah), src: reg(Register::Al) }).unwrap();
    assert_eq!(emu.get_register_value(&Register::Ax), 0xffff);
}

#[test]
fn add_with_each_source() {
    let mut emu = machine();
    emu.execute(&Instruction::Add { dest: reg(Register::Ax), src: Operand::Immediate(-1) })
        .unwrap();
    assert_eq!(emu.get_register_value(&Register::Ax), 3);
    assert_eq!(emu.registers.flags(), EFlags::Parity.mask());
    emu.execute(&Instruction::Add { dest: reg(Register::Ax), src: reg(Register::Bp) }).unwrap();
    assert_eq!(emu.get_register_value(&Register::Ax), 11);

    let word = at(Some(Register::Bp), Some(2), MemorySize::Word);
    emu.execute(&Instruction::Mov {
        dest: Operand::Memory(word),
        src: Operand::Immediate(0x7000),
    })
    .unwrap();
    assert_eq!(&emu.memory.memory[10..12], &[0x00, 0x70]);
    emu.execute(&Instruction::Add { dest: reg(Register::Ax), src: Operand::Memory(word) })
        .unwrap();
    assert_eq!(emu.get_register_value(&Register::Ax), 0x700b);
    emu.execute(&Instruction::Add { dest: reg(Register::Ax), src: Operand::Memory(word) })
        .unwrap();
    assert_eq!(emu.get_register_value(&Register::Ax), 0xe00b);
    assert_eq!(emu.registers.flags(), EFlags::Sign.mask() | EFlags::Carry.mask());
    // a byte from memory is widened with zeros
    let byte = at(Some(Register::Bp), Some(3), MemorySize::Byte);
    emu.set_register_value(&Register::Cx, 0);
    emu.memory.memory[11] = 0x90;
    emu.execute(&Instruction::Add { dest: reg(Register::Cx), src: Operand::Memory(byte) })
        .unwrap();
    assert_eq!(emu.get_register_value(&Register::Cx), 0x0090);
}

#[test]
fn mov_between_registers_memory_and_segments() {
    let mut emu = machine();
    let byte = at(Some(Register::Bx), Some(-1), MemorySize::Byte);
    let word = MemoryOperand {
        base1: None,
        base2: None,
        displacement: None,
        size: Some(MemorySize::Word),
        address: Some(0x10),
        segment: Some(SegmentRegister::Es),
    };
    emu.set_register_value(&Register::Dx, 0xabcd);
    emu.execute(&Instruction::Mov { dest: Operand::Memory(byte), src: reg(Register::Dx) })
        .unwrap();
    emu.execute(&Instruction::Mov { dest: Operand::Memory(word), src: reg(Register::Dx) })
        .unwrap();
    assert_eq!(emu.memory.memory[2], 0xcd);
    assert_eq!(emu.memory.memory[3], 0);
    assert_eq!(&emu.memory.memory[0x10..0x12], &[0xcd, 0xab]);
    assert_eq!(emu.get_memory_address(&byte), Address(2));
    assert_eq!(emu.get_memory_address(&word), Address(0x10));
    assert_eq!(emu.read_memory(&byte), Ok(0xcd));
    assert_eq!(emu.read_memory(&word), Ok(0xabcd));

    emu.execute(&Instruction::Mov { dest: reg(Register::Si), src: Operand::Memory(word) })
        .unwrap();
    assert_eq!(emu.get_register_value(&Register::Si), 0xabcd);
    // a mov widens a byte from memory with its sign
    emu.execute(&Instruction::Mov { dest: reg(Register::Di), src: Operand::Memory(byte) })
        .unwrap();
    assert_eq!(emu.get_register_value(&Register::Di), 0xffcd);
    emu.execute(&Instruction::Mov { dest: reg(Register::Cl), src: Operand::Memory(byte) })
        .unwrap();
    assert_eq!(emu.get_register_value(&Register::Cx), 0x00cd);

    emu.execute(&Instruction::Mov {
        dest: Operand::SegmentRegister(SegmentRegister::Ds),
        src: reg(Register::Dx),
    })
    .unwrap();
    assert_eq!(emu.segments, [0, 0, 0, 0xabcd]);
    emu.execute(&Instruction::Mov {
        dest: reg(Register::Bp),
        src: Operand::SegmentRegister(SegmentRegister::Ds),
    })
    .unwrap();
    assert_eq!(emu.get_register_value(&Register::Bp), 0xabcd);
    // the effective address wraps at 16 bits
    emu.set_register_value(&Register::Bx, 0xfff0);
    emu.set_register_value(&Register::Si, 0x0020);
    let wrapped = MemoryOperand {
        base1: Some(Register::Bx),
        base2: Some(Register::Si),
        displacement: Some(-15),
        size: Some(MemorySize::Byte),
        address: None,
        segment: None,
    };
    assert_eq!(emu.get_memory_address(&wrapped), Address(1));
}

#[test]
fn logic_with_each_source() {
    // and ax, bx: 4 & 3
    let mut emu = machine();
    let and = Instruction::And { dest: reg(Register::Ax), src: reg(Register::Bx) };
    assert_eq!(emu.execute(&and), Ok(()));
    assert_eq!(emu.registers.ax(), 0);
    assert_eq!(emu.registers.bx(), 3);
    assert_eq!(emu.registers.flags(), 0x0044);
    // or ax, bx: 4 | 3 has three bits set
    let mut emu = machine();
    let or = Instruction::Or { dest: reg(Register::Ax), src: reg(Register::Bx) };
    assert_eq!(emu.execute(&or), Ok(()));
    assert_eq!(emu.registers.ax(), 7);
    assert_eq!(emu.registers.flags(), 0);
    // or ax, 0x8000
    let or = Instruction::Or { dest: reg(Register::Ax), src: Operand::Immediate(i16::MIN) };
    assert_eq!(emu.execute(&or), Ok(()));
    assert_eq!(emu.registers.ax(), 0x8007);
    assert_eq!(emu.registers.flags(), 0x0080);
    // xor ax, ax: both arguments have their top bit set and the result has not,
    // which the formula of the flags counts as an overflow
    let xor = Instruction::Xor { dest: reg(Register::Ax), src: reg(Register::Ax) };
    assert_eq!(emu.execute(&xor), Ok(()));
    assert_eq!(emu.registers.ax(), 0);
    assert_eq!(emu.registers.flags(), 0x0844);
    // xor bx, bx with 3 in it
    let xor = Instruction::Xor { dest: reg(Register::Bx), src: reg(Register::Bx) };
    assert_eq!(emu.execute(&xor), Ok(()));
    assert_eq!(emu.registers.bx(), 0);
    assert_eq!(emu.registers.flags(), 0x0044);
    // xor dx, 0x00ff: 0x00fe has seven bits set
    let xor = Instruction::Xor { dest: reg(Register::Dx), src: Operand::Immediate(0xff) };
    assert_eq!(emu.execute(&xor), Ok(()));
    assert_eq!(emu.registers.dx(), 0x00fe);
    assert_eq!(emu.registers.flags(), 0);
    // and cl, 0x0f leaves the high half
    emu.set_register_value(&Register::Cx, 0x12f3);
    let and = Instruction::And { dest: reg(Register::Cl), src: Operand::Immediate(0x0f) };
    assert_eq!(emu.execute(&and), Ok(()));
    assert_eq!(emu.registers.cx(), 0x1203);
    assert_eq!(emu.registers.flags(), 0x0004);
    assert_eq!(emu.registers.ip(), 0);
}

#[test]
fn execute_errors_change_nothing() {
    let mut emu = machine();
    let before = emu.registers;
    let far = at(Some(Register::Bp), Some(1014), MemorySize::Word);
    let store = Instruction::Mov { dest: Operand::Memory(far), src: reg(Register::Ax) };
    assert_eq!(emu.execute(&store), Ok(()));
    let beyond = at(Some(Register::Bp), Some(1015), MemorySize::Word);
    let store = Instruction::Mov { dest: Operand::Memory(beyond), src: reg(Register::Ax) };
    assert_eq!(emu.execute(&store), Err(Error::OutOfBoundsWrite(Address(1023))));
    let load = Instruction::Add { dest: reg(Register::Ax), src: Operand::Memory(beyond) };
    assert_eq!(emu.execute(&load), Err(Error::OutOfBoundsRead(Address(1023))));
    let load = Instruction::Mov { dest: reg(Register::Ax), src: Operand::Memory(beyond) };
    assert_eq!(emu.execute(&load), Err(Error::OutOfBoundsRead(Address(1023))));
    assert_eq!(emu.memory.memory[1023], 0);

    for instr in [
        Instruction::Nop,
        Instruction::Halt,
        Instruction::Xor { dest: Operand::Memory(far), src: reg(Register::Ax) },
        Instruction::And { dest: reg(Register::Ax), src: Operand::Memory(far) },
        Instruction::Or { dest: reg(Register::Ax), src: Operand::SegmentRegister(SegmentRegister::Es) },
        Instruction::Test { dest: reg(Register::Ax), src: reg(Register::Ax) },
        Instruction::Sub { dest: reg(Register::Ax), src: Operand::Memory(far) },
        Instruction::Sub { dest: Operand::Memory(far), src: reg(Register::Ax) },
        Instruction::Add { dest: Operand::Memory(far), src: reg(Register::Ax) },
        Instruction::Cmp { left: Operand::Immediate(1), right: reg(Register::Ax) },
        Instruction::Mov {
            dest: Operand::SegmentRegister(SegmentRegister::Es),
            src: Operand::Immediate(1),
        },
        Instruction::Mov {
            dest: Operand::SegmentRegister(SegmentRegister::Es),
            src: reg(Register::Al),
        },
        Instruction::Mov { dest: Operand::Memory(far), src: Operand::Memory(far) },
        Instruction::Mov {
            dest: reg(Register::Ax),
            src: Operand::Memory(MemoryOperand { size: None, ..far }),
        },
        Instruction::Push { src: reg(Register::Ax) },
    ] {
        assert_eq!(emu.execute(&instr), Err(Error::Unimplemented(instr)));
    }
    assert_eq!(emu.registers, before);

    // an operand that is no value in memory, and a source that is no register or immediate
    let unsized_operand = MemoryOperand { size: None, ..far };
    assert_eq!(emu.read_memory(&unsized_operand), Err(Error::UnsupportedOperand));
    assert_eq!(
        emu.write_memory(&unsized_operand, &reg(Register::Ax)),
        Err(Error::UnsupportedOperand)
    );
    assert_eq!(
        emu.write_memory(&far, &Operand::Memory(far)),
        Err(Error::UnsupportedOperand)
    );
    assert_eq!(
        emu.write_memory(&far, &Operand::SegmentRegister(SegmentRegister::Es)),
        Err(Error::UnsupportedOperand)
    );
    assert_eq!(emu.write_memory(&far, &Operand::Immediate(-2)), Ok(()));
    assert_eq!(emu.read_memory(&far), Ok(0xfffe));
}

#[test]
fn conditional_jumps() {
    let c = EFlags::Carry.mask();
    let p = EFlags::Parity.mask();
    let z = EFlags::Zero.mask();
    let s = EFlags::Sign.mask();
    let o = EFlags::Overflow.mask();
    let jump = |instr: Instruction, flags: u16| -> bool {
        let mut emu = Emulator::<1024>::new();
        emu.registers.regs[9] = flags;
        emu.registers.set_ip(0x102);
        emu.execute(&instr).unwrap();
        assert_eq!(emu.registers.flags(), flags);
        match emu.registers.ip() {
            0x102 => false,
            0xf0 => true,
            other => panic!("{instr:?} led to {other:#x}"),
        }
    };
    let offset = -16;
    for flags in [0, c, p, z, s, o, c | z, s | o, z | s, z | o, c | p | z | s | o] {
        let carry = flags & c != 0;
        let parity = flags & p != 0;
        let zero = flags & z != 0;
        let sign = flags & s != 0;
        let overflow = flags & o != 0;
        assert_eq!(jump(Instruction::JumpOverflow { offset }, flags), overflow);
        assert_eq!(jump(Instruction::JumpNotOverflow { offset }, flags), !overflow);
        assert_eq!(jump(Instruction::JumpBelow { offset }, flags), carry);
        assert_eq!(jump(Instruction::JumpNotBelow { offset }, flags), !carry);
        assert_eq!(jump(Instruction::JumpEqual { offset }, flags), zero);
        assert_eq!(jump(Instruction::JumpNotEqual { offset }, flags), !zero);
        assert_eq!(jump(Instruction::JumpBelowEqual { offset }, flags), carry || zero);
        assert_eq!(jump(Instruction::JumpNotBelowEqual { offset }, flags), !carry && !zero);
        assert_eq!(jump(Instruction::JumpSign { offset }, flags), sign);
        assert_eq!(jump(Instruction::JumpNotSign { offset }, flags), !sign);
        assert_eq!(jump(Instruction::JumpParityEven { offset }, flags), parity);
        assert_eq!(jump(Instruction::JumpParityOdd { offset }, flags), !parity);
        assert_eq!(jump(Instruction::JumpLessThan { offset }, flags), sign != overflow);
        assert_eq!(jump(Instruction::JumpNotLessThan { offset }, flags), sign == overflow);
        assert_eq!(
            jump(Instruction::JumpLessThanEqual { offset }, flags),
            zero || sign != overflow
        );
        assert_eq!(
            jump(Instruction::JumpNotLessThanEqual { offset }, flags),
            !zero && sign == overflow
        );
    }
}

#[test]
fn jump_target_wraps() {
    let mut emu = Emulator::<1024>::new();
    emu.registers.set_ip(1);
    emu.registers.regs[9] = EFlags::Zero.mask();
    emu.execute(&Instruction::JumpEqual { offset: -2 }).unwrap();
    assert_eq!(emu.registers.ip(), 0xfffd);
    emu.execute(&Instruction::JumpEqual { offset: 5 }).unwrap();
    assert_eq!(emu.registers.ip(), 0);
    emu.registers.set_ip(0xffff);
    emu.execute(&Instruction::JumpEqual { offset: i16::MIN }).unwrap();
    assert_eq!(emu.registers.ip(), 0x7ffd);
}

#[test]
fn loops_count_cx_down() {
    let mut emu = Emulator::<1024>::new();
    emu.set_register_value(&Register::Cx, 2);
    emu.registers.set_ip(10);
    emu.execute(&Instruction::Loop { offset: -4 }).unwrap();
    assert_eq!((emu.registers.cx(), emu.registers.ip()), (1, 4));
    emu.execute(&Instruction::Loop { offset: -4 }).unwrap();
    assert_eq!((emu.registers.cx(), emu.registers.ip()), (0, 4));
    // the count stays at zero
    emu.execute(&Instruction::Loop { offset: -4 }).unwrap();
    assert_eq!((emu.registers.cx(), emu.registers.ip()), (0, 4));

    // loopne also wants the zero flag clear, loope wants it set
    emu.set_register_value(&Register::Cx, 5);
    emu.registers.regs[9] = EFlags::Zero.mask();
    emu.execute(&Instruction::LoopWhileNotZero { offset: 10 }).unwrap();
    assert_eq!((emu.registers.cx(), emu.registers.ip()), (4, 4));
    emu.execute(&Instruction::LoopWhileZero { offset: 10 }).unwrap();
    assert_eq!((emu.registers.cx(), emu.registers.ip()), (3, 12));
    emu.registers.regs[9] = 0;
    emu.execute(&Instruction::LoopWhileZero { offset: 10 }).unwrap();
    assert_eq!((emu.registers.cx(), emu.registers.ip()), (2, 12));
    emu.execute(&Instruction::LoopWhileNotZero { offset: 10 }).unwrap();
    assert_eq!((emu.registers.cx(), emu.registers.ip()), (1, 20));

    emu.execute(&Instruction::JumpCxZero { offset: 10 }).unwrap();
    assert_eq!((emu.registers.cx(), emu.registers.ip()), (1, 20));
    emu.set_register_value(&Register::Cx, 0);
    emu.execute(&Instruction::JumpCxZero { offset: 10 }).unwrap();
    assert_eq!((emu.registers.cx(), emu.registers.ip()), (0, 28));
}

#[test]
fn register_state_accessors() {
    let mut state = RegisterState::new();
    assert_eq!(state.regs, [0; 10]);
    for (i, register) in [
        Register::Ax,
        Register::Bx,
        Register::Cx,
        Register::Dx,
        Register::Si,
        Register::Di,
        Register::Bp,
        Register::Sp,
        Register::Ip,
        Register::Flags,
    ]
    .into_iter()
    .enumerate()
    {
        state.set(register, 0x100 + i as u16);
        assert_eq!(register.index(), i);
    }
    assert_eq!(
        [
            state.ax(),
            state.bx(),
            state.cx(),
            state.dx(),
            state.si(),
            state.di(),
            state.bp(),
            state.sp(),
            state.ip(),
            state.flags()
        ],
        [0x100, 0x101, 0x102, 0x103, 0x104, 0x105, 0x106, 0x107, 0x108, 0x109]
    );
    state.regs[9] = 0x0811;
    assert!(state.carry_flag() && state.auxillary_carry_flag() && state.overflow_flag());
    assert!(!state.zero_flag() && !state.sign_flag() && !state.parity_flag());
    assert!(state.flag(EFlags::Overflow));
}

#[test]
fn emulator_from_image() {
    let emu = Emulator::<16>::with_image(&[1, 2, 3]).unwrap();
    assert_eq!(emu.memory.length, 3);
    assert_eq!(emu.memory.memory, [1, 2, 3, 0, 0, 0, 0, 0, 0, 0, 0, 0, 0, 0, 0, 0]);
    assert_eq!(emu.registers.regs, [0; 10]);
    assert_eq!(emu.segments, [0; 4]);
    assert!(Emulator::<16>::with_image(&[0; 17]).is_err());
    assert_eq!(
        emu.context_text(),
        "IP: 0000 FLAGS: 0000 \nAX: 0000 BX: 0000 CX: 0000 DX: 0000\n\
         SP: 0000 BP: 0000 SI: 0000 DI: 0000\nCS: 0000 DS: 0000 ES: 0000 SS: 0000\n"
    );
}

#[test]
fn context_text_dumps_memory() {
    let mut emu = Emulator::<1024>::new();
    emu.memory.memory[1000] = 0xab;
    emu.memory.memory[1023] = 0x0f;
    emu.registers.regs[9] = 0x08d5;
    emu.segments = [1, 2, 3, 4];
    let text = emu.context_text();
    assert!(text.starts_with(
        "IP: 0000 FLAGS: 08d5 CPAZSO\nAX: 0000 BX: 0000 CX: 0000 DX: 0000\n\
         SP: 0000 BP: 0000 SI: 0000 DI: 0000\nCS: 0002 DS: 0004 ES: 0001 SS: 0003\n"
    ));
    assert!(text.ends_with(
        "SS: 0003\n0x3e8 ab 00 00 00 00 00 00 00 00 00 00 00 00 00 00 00 \n\
         0x3f8 00 00 00 00 00 00 00 0f \n"
    ));
    let emu = Emulator::<2048>::new();
    let lines: Vec<String> = emu.context_text().lines().skip(4).map(String::from).collect();
    assert_eq!(lines.len(), 6);
    for (i, line) in lines.iter().enumerate() {
        assert_eq!(*line, format!("{:#x} {}", 1000 + 16 * i, "00 ".repeat(16)));
    }
}

#[test]
fn emulator_of_the_largest_memory() {
    let mut emu = Emulator::<0x10000>::new();
    assert_eq!(emu.memory.memory.len(), 0x10000);
    emu.set_register_value(&Register::Bx, 0xffff);
    emu.set_register_value(&Register::Ax, 0x12ab);
    // mov byte [bx], al reaches the last byte
    let top = at(Some(Register::Bx), None, MemorySize::Byte);
    let store = Instruction::Mov { dest: Operand::Memory(top), src: reg(Register::Al) };
    assert_eq!(emu.execute(&store), Ok(()));
    assert_eq!(emu.memory.memory[0xffff], 0xab);
    // a word there runs on behind the end
    let word = at(Some(Register::Bx), None, MemorySize::Word);
    let store = Instruction::Mov { dest: Operand::Memory(word), src: reg(Register::Ax) };
    assert_eq!(emu.execute(&store), Err(Error::OutOfBoundsWrite(Address(0xffff))));
    let load = Instruction::Mov { dest: reg(Register::Cx), src: Operand::Memory(word) };
    assert_eq!(emu.execute(&load), Err(Error::OutOfBoundsRead(Address(0xffff))));
    // a mov widens the byte that it loads with its sign
    let load = Instruction::Mov { dest: reg(Register::Cx), src: Operand::Memory(top) };
    assert_eq!(emu.execute(&load), Ok(()));
    assert_eq!(emu.registers.cx(), 0xffab);
}
