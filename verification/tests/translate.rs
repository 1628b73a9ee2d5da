use emu8086::emu::Emulator;
use emu8086::evex::{evex, AvxOpcode, AvxOperand, Zmm, K};
use emu8086::host::{decode_host, HostState};
use emu8086::il::{lower, vpandq, vpbroadcastw, vpcmpw_masked, vporw, vpsllw, vpxorq, CmpOp, HostOp, JitIL};
use emu8086::instruction::{Instruction, Operand};
use emu8086::jit::{size_of, Error, HostRegister, JitBuffer, JitRegister};
use emu8086::jit_emu::{Core, JitEmulatorState};
use emu8086::memory_operand::MemoryOperand;
use emu8086::register::{Register, Wide};

#[test]
fn evex_masked_and_high_registers() {
    // vpbroadcastw zmm1 {k1}, esi
    assert_eq!(
        vpbroadcastw(Zmm(1), HostRegister::rsi.as_zmm(), Some(K(1))).assemble().as_slice(),
        [0x62, 0xf2, 0x7d, 0x49, 0x7b, 0xce]
    );
    // vporw zmm10 {k3}, zmm10, zmm29
    assert_eq!(
        vporw(Zmm(10), Zmm(10), Zmm(29), Some(K(3))).assemble().as_slice(),
        [0x62, 0x11, 0x2d, 0x4b, 0xeb, 0xd5]
    );
    // vpxorq zmm28, zmm28, zmm28
    assert_eq!(
        vpxorq(Zmm(28), Zmm(28), Zmm(28)).assemble().as_slice(),
        [0x62, 0x01, 0x9d, 0x40, 0xef, 0xe4]
    );
    // vpandq zmm1, zmm2, zmm3
    assert_eq!(
        vpandq(Zmm(1), Zmm(2), Zmm(3)).assemble().as_slice(),
        [0x62, 0xf1, 0xed, 0x48, 0xdb, 0xcb]
    );
    // vpsllw zmm31, zmm1, 8
    assert_eq!(
        vpsllw(Zmm(31), Zmm(1), 8).assemble().as_slice(),
        [0x62, 0xf1, 0x05, 0x40, 0x71, 0xf1, 0x08]
    );
    // vpcmpw k3 {k3}, zmm29, zmm30, 5
    assert_eq!(
        vpcmpw_masked(Zmm(3), Zmm(29), Zmm(30), CmpOp::GreaterThanEqual, K(3))
            .assemble()
            .as_slice(),
        [0x62, 0x93, 0x95, 0x43, 0x3f, 0xde, 0x05]
    );
    // vpaddw zmm8, zmm24, zmm28
    assert_eq!(
        evex(AvxOpcode::Add, Zmm(8), Zmm(24), Some(Zmm(28)), None, None).as_slice(),
        [0x62, 0x11, 0x3d, 0x40, 0xfd, 0xc4]
    );
    // two operands of an instruction with three: the destination is the second source
    assert_eq!(
        evex(AvxOpcode::Sub, Zmm(1), Zmm(2), None, None, None).as_slice(),
        evex(AvxOpcode::Sub, Zmm(1), Zmm(1), Some(Zmm(2)), None, None).as_slice()
    );
    assert_eq!(JitRegister::flags.as_zmm(), Zmm(10));
    assert_eq!(JitRegister::zero.as_zmm(), Zmm(0));
    assert_eq!(HostRegister::r15.as_zmm(), Zmm(15));
}

/// The host instructions in the code between two positions
fn decoded(code: &[u8], start: usize, end: usize) -> Vec<HostOp> {
    let mut ops = Vec::new();
    let mut at = start;
    while at < end {
        let (op, len) = decode_host(code, at).unwrap();
        ops.push(op);
        at += len;
    }
    assert_eq!(at, end);
    ops
}

#[test]
fn lowering_bytes() {
    let mut jit = JitBuffer::<512>::new();
    assert!(jit.buffer().iter().all(|b| *b == 0xc3));
    // mov si, di
    jit.write_instr(&Instruction::Mov {
        dest: Operand::Register(Register::Si),
        src: Operand::Register(Register::Di),
    })
    .unwrap();
    assert_eq!(jit.offset, 6);
    assert_eq!(&jit.buffer()[..6], &[0x62, 0xf1, 0xfd, 0x48, 0x6f, 0xee]);
    // mov bp, -2: mov esi, imm32 and a broadcast
    jit.write_instr(&Instruction::Mov {
        dest: Operand::Register(Register::Bp),
        src: Operand::Immediate(-2),
    })
    .unwrap();
    assert_eq!(jit.offset, 17);
    assert_eq!(
        &jit.buffer()[6..17],
        &[0xbe, 0xfe, 0xff, 0xff, 0xff, 0x62, 0xf2, 0x7d, 0x48, 0x7b, 0xfe]
    );
    // add ax, 0x1234: the immediate goes to zmm28, ax to zmm29, the sum to ax
    jit.write_instr(&Instruction::Add {
        dest: Operand::Register(Register::Ax),
        src: Operand::Immediate(0x1234),
    })
    .unwrap();
    assert_eq!(
        &jit.buffer()[17..40],
        &[
            0xbe, 0x34, 0x12, 0x00, 0x00, 0x62, 0x62, 0x7d, 0x48, 0x7b, 0xe6, 0x62, 0x61, 0xfd,
            0x48, 0x6f, 0xe9, 0x62, 0x91, 0x15, 0x40, 0xfd, 0xcc
        ]
    );
    // the flags are cleared first, and the zero register with them
    assert_eq!(
        &jit.buffer()[40..52],
        &[0x62, 0x51, 0xad, 0x48, 0xef, 0xd2, 0x62, 0x01, 0x8d, 0x40, 0xef, 0xf6]
    );
    assert_eq!(jit.offset, 17 + 330);
    let ops = decoded(jit.buffer(), 17, jit.offset);
    assert_eq!(ops.len(), 53);
    assert_eq!(
        ops,
        lower(
            &JitIL::Add { dest: Zmm(1), op1: Zmm(1), op2: AvxOperand::Immediate(0x1234) },
            0
        )
    );
    assert_eq!(
        ops[4..11],
        [
            HostOp::Xor { dest: Zmm(10), left: Zmm(10), right: Zmm(10) },
            HostOp::Xor { dest: Zmm(30), left: Zmm(30), right: Zmm(30) },
            HostOp::Compare {
                k: Zmm(3),
                left: Zmm(1),
                right: Zmm(30),
                op: CmpOp::Equal,
                mask: None
            },
            HostOp::Xor { dest: Zmm(31), left: Zmm(31), right: Zmm(31) },
            HostOp::LoadEsi { value: 0x40 },
            HostOp::Broadcast { dest: Zmm(31), mask: Some(K(3)) },
            HostOp::Or { dest: Zmm(10), left: Zmm(10), right: Zmm(31), mask: None },
        ]
    );
    // carry: neither argument is below zero, and the sum is
    assert_eq!(
        ops[16..19],
        [
            HostOp::Compare {
                k: Zmm(3),
                left: Zmm(29),
                right: Zmm(30),
                op: CmpOp::GreaterThanEqual,
                mask: None
            },
            HostOp::Compare {
                k: Zmm(3),
                left: Zmm(28),
                right: Zmm(30),
                op: CmpOp::GreaterThanEqual,
                mask: Some(K(3))
            },
            HostOp::Compare {
                k: Zmm(3),
                left: Zmm(1),
                right: Zmm(30),
                op: CmpOp::LessThan,
                mask: Some(K(3))
            },
        ]
    );
    assert_eq!(ops[52], HostOp::Or { dest: Zmm(10), left: Zmm(10), right: Zmm(31), mask: None });
    assert_eq!(jit.scratch_registers_index, 0);
    assert!(jit.buffer()[347..].iter().all(|b| *b == 0xc3));
    assert_eq!(jit.next_scratch_reg(), Zmm(28));
    assert_eq!(jit.next_scratch_reg(), Zmm(29));
    assert_eq!(jit.next_scratch_reg(), Zmm(30));
    assert_eq!(jit.next_scratch_reg(), Zmm(31));
    assert_eq!(jit.next_scratch_reg(), Zmm(28));
    jit.ret();
    assert_eq!(jit.offset, 348);
}

#[test]
fn lowering_sizes() {
    let mut jit = JitBuffer::<4096>::new();
    let ax = Zmm(1);
    let ils = [
        JitIL::Mov { dest: ax, src: AvxOperand::Zmm(Zmm(2)) },
        JitIL::Mov { dest: ax, src: AvxOperand::Immediate(7) },
        JitIL::Sub { dest: ax, op1: ax, op2: AvxOperand::Zmm(Zmm(2)) },
        JitIL::Sub { dest: ax, op1: ax, op2: AvxOperand::Immediate(7) },
        JitIL::Add { dest: ax, op1: ax, op2: AvxOperand::Immediate(7) },
        JitIL::Xor { dest: ax, op1: ax, op2: AvxOperand::Zmm(ax) },
        JitIL::Or { dest: ax, op1: ax, op2: AvxOperand::Immediate(7) },
        JitIL::And { dest: ax, op1: ax, op2: AvxOperand::Zmm(Zmm(2)) },
        JitIL::Compare { left: ax, right: AvxOperand::Immediate(7) },
        JitIL::Cmp {
            k: Zmm(2),
            left: AvxOperand::Immediate(1),
            right: AvxOperand::Zmm(ax),
            op: CmpOp::NotEqual,
        },
    ];
    let sizes = [6usize, 11, 325, 330, 330, 325, 330, 325, 324, 24];
    for (il, size) in ils.iter().zip(sizes) {
        let before = jit.offset;
        let ops = lower(il, jit.scratch_registers_index);
        assert_eq!(size_of(&ops), size, "{il:?}");
        jit.write_il(il);
        assert_eq!(jit.offset - before, size, "{il:?}");
        assert_eq!(decoded(jit.buffer(), before, jit.offset), ops, "{il:?}");
    }
    assert_eq!(sizes.iter().sum::<usize>(), jit.offset);
    // with the ring at another position the scratch registers are others
    jit.next_scratch_reg();
    jit.next_scratch_reg();
    jit.next_scratch_reg();
    let before = jit.offset;
    jit.write_il(&ils[2]);
    assert_eq!(
        decoded(jit.buffer(), before, jit.offset)[..3],
        [
            HostOp::Move { dest: Zmm(31), src: Zmm(2) },
            HostOp::Move { dest: Zmm(28), src: ax },
            HostOp::Sub { dest: ax, left: Zmm(28), right: Zmm(31) },
        ]
    );
    assert_eq!(jit.scratch_registers_index, 3);
}

#[test]
fn lowering_errors_write_nothing() {
    let mut jit = JitBuffer::<16>::new();
    let mov = Instruction::Mov {
        dest: Operand::Register(Register::Ax),
        src: Operand::Immediate(1),
    };
    assert_eq!(jit.write_instr(&mov), Ok(()));
    assert_eq!(jit.offset, 11);
    let before = jit.buffer().to_vec();
    assert_eq!(jit.write_instr(&mov), Err(Error::JitBufferOverflow));
    let sub = Instruction::Sub {
        dest: Operand::Register(Register::Ax),
        src: Operand::Register(Register::Bx),
    };
    assert_eq!(jit.write_instr(&sub), Err(Error::JitBufferOverflow));
    for instr in [
        Instruction::Nop,
        Instruction::Test {
            dest: Operand::Register(Register::Ax),
            src: Operand::Register(Register::Bx),
        },
        Instruction::Mov {
            dest: Operand::Register(Register::Al),
            src: Operand::Immediate(1),
        },
        Instruction::Mov {
            dest: Operand::Register(Register::Ax),
            src: Operand::Register(Register::Bh),
        },
        // flags of the flags register
        Instruction::Add {
            dest: Operand::Register(Register::Flags),
            src: Operand::Immediate(1),
        },
        Instruction::Cmp {
            left: Operand::Register(Register::Flags),
            right: Operand::Register(Register::Ax),
        },
        Instruction::Add {
            dest: Operand::Register(Register::Ax),
            src: Operand::Memory(MemoryOperand::direct_address(0, Wide(1))),
        },
        Instruction::Cmp {
            left: Operand::Immediate(1),
            right: Operand::Register(Register::Ax),
        },
    ] {
        assert_eq!(jit.write_instr(&instr), Err(Error::Unimplemented(instr)));
        assert_eq!(JitIL::from_instruction(&instr), None);
    }
    assert_eq!((jit.offset, jit.scratch_registers_index), (11, 0));
    assert_eq!(jit.buffer(), before);
    // what fits exactly is written
    let mut jit = JitBuffer::<6>::new();
    let mov = Instruction::Mov {
        dest: Operand::Register(Register::Ax),
        src: Operand::Register(Register::Bx),
    };
    assert_eq!(jit.write_instr(&mov), Ok(()));
    assert_eq!(jit.write_instr(&mov), Err(Error::JitBufferOverflow));
    // a full buffer has no `ret` behind its code
    let mut state = JitEmulatorState::new();
    assert!(!state.call(jit.buffer(), 0));
    let and = Instruction::And {
        dest: Operand::Register(Register::Ax),
        src: Operand::Register(Register::Bx),
    };
    let mut jit = JitBuffer::<325>::new();
    assert_eq!(jit.write_instr(&and), Ok(()));
    assert_eq!(jit.offset, 325);
    let mut jit = JitBuffer::<324>::new();
    assert_eq!(jit.write_instr(&and), Err(Error::JitBufferOverflow));
    assert_eq!(jit.offset, 0);
    assert!(jit.buffer().iter().all(|b| *b == 0xc3));
}

#[test]
fn host_decodes_what_was_assembled() {
    for op in [
        HostOp::LoadEsi { value: -2 },
        HostOp::LoadEsi { value: 0x1234 },
        HostOp::Broadcast { dest: Zmm(31), mask: None },
        HostOp::Broadcast { dest: Zmm(9), mask: Some(K(7)) },
        HostOp::Move { dest: Zmm(17), src: Zmm(8) },
        HostOp::Sub { dest: Zmm(0), left: Zmm(15), right: Zmm(16) },
        HostOp::Add { dest: Zmm(24), left: Zmm(0), right: Zmm(31) },
        HostOp::Xor { dest: Zmm(28), left: Zmm(28), right: Zmm(28) },
        HostOp::Or { dest: Zmm(10), left: Zmm(10), right: Zmm(29), mask: Some(K(3)) },
        HostOp::Or { dest: Zmm(1), left: Zmm(2), right: Zmm(3), mask: None },
        HostOp::And { dest: Zmm(1), left: Zmm(2), right: Zmm(3) },
        HostOp::And { dest: Zmm(31), left: Zmm(16), right: Zmm(8) },
        HostOp::ShiftLeft { dest: Zmm(31), src: Zmm(1), count: 8 },
        HostOp::ShiftLeft { dest: Zmm(6), src: Zmm(30), count: 0xff },
        HostOp::Compare { k: Zmm(3), left: Zmm(1), right: Zmm(28), op: CmpOp::LessThan, mask: None },
        HostOp::Compare { k: Zmm(7), left: Zmm(30), right: Zmm(2), op: CmpOp::True, mask: None },
        HostOp::Compare {
            k: Zmm(3),
            left: Zmm(29),
            right: Zmm(30),
            op: CmpOp::GreaterThanEqual,
            mask: Some(K(3)),
        },
    ] {
        let mut jit = JitBuffer::<16>::new();
        match op {
            HostOp::LoadEsi { value } => jit.mov_imm(Zmm(4), value),
            HostOp::Broadcast { dest, mask: None } => jit.mov_imm(dest, 0),
            HostOp::Broadcast { dest, mask: Some(k) } => jit.mov_imm_with_kmask(dest, 0, k),
            HostOp::Move { dest, src } => jit.mov(dest, src),
            HostOp::Add { dest, left, right } => jit.add(dest, left, right),
            HostOp::Xor { dest, left, right } if left == right && dest == left => {
                jit.clear_zmm(dest)
            }
            HostOp::Xor { dest, left, right } => jit.xor(dest, left, right),
            HostOp::Or { dest, left, right, mask: None } => jit.or(dest, left, right),
            HostOp::Or { dest, left, right, mask: Some(k) } => {
                jit.or_with_kmask(dest, left, right, k)
            }
            HostOp::Compare { k, left, right, op, mask: None } => jit.cmp(k, left, right, op),
            HostOp::Compare { k, left, right, op, mask: Some(kmask) } => {
                jit.cmp_with_kmask(k, left, right, op, kmask)
            }
            HostOp::Sub { dest, left, right } => jit.sub(dest, left, right),
            HostOp::And { dest, left, right } => jit.and(dest, left, right),
            HostOp::ShiftLeft { dest, src, count } => jit.shl(dest, src, count),
            HostOp::Ret => jit.ret(),
        }
        let (at, len) = match op {
            HostOp::LoadEsi { .. } => (0, 5),
            HostOp::Broadcast { .. } => (5, 6),
            HostOp::Compare { .. } | HostOp::ShiftLeft { .. } => (0, 7),
            _ => (0, 6),
        };
        assert_eq!(decode_host(jit.buffer(), at), Some((op, len)));
        let mut jit = JitBuffer::<16>::new();
        jit.write_op(&op);
        assert_eq!(decode_host(jit.buffer(), 0), Some((op, len)));
        assert_eq!(size_of(&[op]), len);
    }
    assert_eq!(decode_host(&[0xc3], 0), Some((HostOp::Ret, 1)));
    for code in [
        vec![],
        vec![0x90],
        vec![0xbe, 1, 2, 3, 4],
        vec![0xbe, 0xff, 0xff, 0xff],
        vec![0x62, 0xf1, 0xfd, 0x48, 0x6f],
        vec![0x62, 0xf1, 0xfd, 0x48, 0x6f, 0x0a],
        vec![0x62, 0xf1, 0xfd, 0x28, 0x6f, 0xca],
        vec![0x62, 0xf1, 0xfd, 0x48, 0x70, 0xca],
        vec![0x62, 0xf3, 0xbd, 0x48, 0x3f, 0xcf],
        vec![0x62, 0xf3, 0xbd, 0x48, 0x3f, 0xcf, 0x08],
        vec![0x62, 0xf2, 0x7d, 0x48, 0x7b, 0xc8],
        // a shift without its count, and one to the right
        vec![0x62, 0xf1, 0x05, 0x40, 0x71, 0xf1],
        vec![0x62, 0xf1, 0x05, 0x40, 0x71, 0xe1, 0x08],
        // and with an opmask
        vec![0x62, 0xf1, 0xed, 0x49, 0xdb, 0xcb],
    ] {
        assert!(decode_host(&code, 0).is_none(), "{code:x?}");
    }
}

#[test]
fn host_runs_lanes_apart() {
    let mut state = JitEmulatorState::new();
    for core in 0..32u8 {
        state.set_in(Register::Ax, Core(core), u16::from(core));
        state.set_in(Register::Bx, Core(core), 16);
    }
    state.set(Register::Flags, 0x0fff);
    let mut jit = JitBuffer::<1024>::new();
    // cmp ax, bx; add bx, ax
    jit.write_instr(&Instruction::Cmp {
        left: Operand::Register(Register::Ax),
        right: Operand::Register(Register::Bx),
    })
    .unwrap();
    jit.write_instr(&Instruction::Add {
        dest: Operand::Register(Register::Bx),
        src: Operand::Register(Register::Ax),
    })
    .unwrap();
    assert!(state.call(jit.buffer(), 0));
    for core in 0..32u8 {
        let cpu = state.get_cpu_state(Core(core));
        assert_eq!(cpu.ax, u16::from(core));
        assert_eq!(cpu.bx, 16 + u16::from(core));
        // the flags are those of the sum: its parity, and nothing of the comparison
        let expected = if (16 + u16::from(core)).count_ones() % 2 == 0 { 0x0004 } else { 0 };
        assert_eq!(cpu.flags, expected, "core {core}");
        assert_eq!((cpu.cx, cpu.dx, cpu.si, cpu.di, cpu.bp, cpu.sp, cpu.ip), (0, 0, 0, 0, 0, 0, 0));
    }
    assert_eq!(state.get(Register::Bx)[31], 47);
    // code that is none of the translator's is refused, and nothing is stored
    let before = state;
    assert!(!state.call(&[0x90, 0xc3], 0));
    assert!(!state.call(&[0xc3], 1));
    assert_eq!(state, before);
    assert!(state.call(&[0x90, 0xc3], 1));
    assert_eq!(state, before);
    let mut host = HostState::new();
    host.load(Zmm(33), [7; 32]);
    assert_eq!(host.read(Zmm(1)), [7; 32]);
    host.step(&HostOp::Compare {
        k: Zmm(9),
        left: Zmm(1),
        right: Zmm(0),
        op: CmpOp::GreaterThan,
        mask: None,
    });
    assert_eq!(host.k[1], [true; 32]);
    // a compare under an opmask leaves set only what was set and holds too
    let mut lanes = [0u16; 32];
    for (i, lane) in lanes.iter_mut().enumerate() {
        *lane = u16::try_from(i).unwrap();
    }
    host.load(Zmm(2), lanes);
    host.step(&HostOp::Compare {
        k: Zmm(2),
        left: Zmm(2),
        right: Zmm(1),
        op: CmpOp::LessThan,
        mask: None,
    });
    host.step(&HostOp::Compare {
        k: Zmm(2),
        left: Zmm(2),
        right: Zmm(0),
        op: CmpOp::NotEqual,
        mask: Some(K(2)),
    });
    for i in 0..32 {
        assert_eq!(host.k[2][i], (1..7).contains(&i), "lane {i}");
    }
    host.step(&HostOp::ShiftLeft { dest: Zmm(3), src: Zmm(2), count: 12 });
    host.step(&HostOp::And { dest: Zmm(4), left: Zmm(2), right: Zmm(1) });
    host.step(&HostOp::ShiftLeft { dest: Zmm(5), src: Zmm(2), count: 16 });
    for i in 0..32u16 {
        assert_eq!(host.read(Zmm(3))[usize::from(i)], i << 12);
        assert_eq!(host.read(Zmm(4))[usize::from(i)], i & 7);
        assert_eq!(host.read(Zmm(5))[usize::from(i)], 0);
    }
}

#[test]
fn register_text_of_cores() {
    let mut state = JitEmulatorState::new();
    state.set(Register::Ax, 0x12ab);
    state.set(Register::Sp, 0x0007);
    state.set_in(Register::Flags, Core(31), 0x08d5);
    state.set_in(Register::Ip, Core(31), 0xffff);
    assert_eq!(
        state.cpu_state_text(Core(7)),
        "Core 07\n    IP: 0000 FLAGS: 0000 \n    AX: 12ab BX: 0000 CX: 0000 DX: 0000\n    \
         SP: 0007 BP: 0000 SI: 0000 DI: 0000\n"
    );
    let texts = state.states_text();
    assert_eq!(texts.len(), 32);
    assert_eq!(texts[7], state.cpu_state_text(Core(7)));
    assert!(texts[31].starts_with("Core 31\n    IP: ffff FLAGS: 08d5 CPAZSO\n"));
    assert_eq!(JitEmulatorState::context_offset(Register::Ax), 0);
    assert_eq!(JitEmulatorState::context_offset(Register::Bp), 6 * 64);
    assert_eq!(JitEmulatorState::context_offset(Register::Flags), 9 * 64);
}

#[test]
fn disassembly_of_the_buffer() {
    let mut jit = JitBuffer::<32>::new();
    // mov si, di; mov bp, 0x1234
    jit.mov(Zmm(5), Zmm(6));
    jit.mov_imm(Zmm(7), 0x1234);
    assert_eq!(
        jit.get_disassembly_between(0, jit.offset),
        ["vmovdqa64 zmm5, zmm6", "mov esi, 0x1234", "vpbroadcastw zmm7, esi"]
    );
    assert_eq!(jit.get_disassembly_between(6, 11), ["mov esi, 0x1234"]);
    assert_eq!(jit.get_disassembly_between(6, 7), ["mov esi, 0x1234"]);
    assert!(jit.get_disassembly_between(6, 6).is_empty());
    assert!(jit.get_disassembly_between(9, 3).is_empty());
    assert!(jit.get_disassembly_between(32, 40).is_empty());
    assert_eq!(jit.get_disassembly_between(31, 40), ["ret"]);
    assert_eq!(jit.get_disassembly(2), ["vmovdqa64 zmm5, zmm6", "mov esi, 0x1234"]);
    assert_eq!(jit.get_disassembly(5)[3..], ["ret", "ret"]);
    assert_eq!(jit.get_disassembly(100).len(), 3 + 15);
    assert!(jit.get_disassembly(0).is_empty());
}

#[test]
fn lanes_agree_with_executor() {
    let registers = [
        Register::Ax,
        Register::Bx,
        Register::Cx,
        Register::Dx,
        Register::Si,
        Register::Di,
        Register::Bp,
        Register::Sp,
        Register::Ip,
        Register::Flags,
    ];
    let values = [0u16, 1, 3, 4, 0x7fff, 0x8000, 0x8001, 0xffff, 0x1234, 0xff00];
    let mut instructions = Vec::new();
    for (dest, src) in [
        (Register::Ax, Operand::Register(Register::Bx)),
        (Register::Ax, Operand::Register(Register::Ax)),
        (Register::Ax, Operand::Immediate(-1)),
        (Register::Dx, Operand::Immediate(4)),
        (Register::Sp, Operand::Immediate(i16::MIN)),
        (Register::Si, Operand::Register(Register::Bp)),
        (Register::Bx, Operand::Immediate(0x80)),
        (Register::Ip, Operand::Register(Register::Flags)),
        (Register::Bp, Operand::Register(Register::Ip)),
    ] {
        let dest = Operand::Register(dest);
        instructions.push(Instruction::Mov { dest, src });
        instructions.push(Instruction::Add { dest, src });
        instructions.push(Instruction::Sub { dest, src });
        instructions.push(Instruction::Cmp { left: dest, right: src });
        instructions.push(Instruction::And { dest, src });
        instructions.push(Instruction::Or { dest, src });
        instructions.push(Instruction::Xor { dest, src });
    }
    instructions.push(Instruction::Mov {
        dest: Operand::Register(Register::Flags),
        src: Operand::Register(Register::Sp),
    });
    instructions.push(Instruction::Mov {
        dest: Operand::Register(Register::Flags),
        src: Operand::Immediate(0x0fff),
    });
    for instr in instructions {
        // each lane holds other values, and the flags hold bits of an earlier instruction
        let mut state = JitEmulatorState::new();
        for core in 0..32u8 {
            let lane = usize::from(core);
            for (i, register) in registers.iter().enumerate() {
                state.set_in(*register, Core(core), values[(lane + 3 * i) % values.len()]);
            }
        }
        let before = state;
        let mut jit = JitBuffer::<512>::new();
        jit.write_instr(&instr).unwrap();
        assert!(state.call(jit.buffer(), 0));

        for core in 0..32u8 {
            let mut emu = Emulator::<16>::new();
            emu.registers.regs = [
                before.ax[usize::from(core)],
                before.bx[usize::from(core)],
                before.cx[usize::from(core)],
                before.dx[usize::from(core)],
                before.si[usize::from(core)],
                before.di[usize::from(core)],
                before.bp[usize::from(core)],
                before.sp[usize::from(core)],
                before.ip[usize::from(core)],
                before.flags[usize::from(core)],
            ];
            emu.execute(&instr).unwrap();
            let cpu = state.get_cpu_state(Core(core));
            let lane = [
                cpu.ax, cpu.bx, cpu.cx, cpu.dx, cpu.si, cpu.di, cpu.bp, cpu.sp, cpu.ip, cpu.flags,
            ];
            assert_eq!(lane, emu.registers.regs, "{instr:?} core {core}");
        }
    }
}

#[test]
fn disassembly_of_flag_synthesis() {
    let mut jit = JitBuffer::<512>::new();
    // and ax, bx
    jit.write_instr(&Instruction::And {
        dest: Operand::Register(Register::Ax),
        src: Operand::Register(Register::Bx),
    })
    .unwrap();
    let text = jit.get_disassembly_between(0, jit.offset);
    assert_eq!(text.len(), 52);
    assert_eq!(
        text[..5],
        [
            "vmovdqa64 zmm28, zmm2",
            "vmovdqa64 zmm29, zmm1",
            "vpandq zmm1, zmm29, zmm28",
            "vpxorq zmm10, zmm10, zmm10",
            "vpxorq zmm30, zmm30, zmm30"
        ]
    );
    // zero: the merge into the flags has no opmask
    assert_eq!(
        text[5..10],
        [
            "vpcmpeqw k3, zmm1, zmm30",
            "vpxorq zmm31, zmm31, zmm31",
            "mov esi, 0x40",
            "vpbroadcastw zmm31{k3}, esi",
            "vpord zmm10, zmm10, zmm31"
        ]
    );
    // carry
    assert_eq!(
        text[15..20],
        [
            "vpcmpnltw k3, zmm29, zmm30",
            "vpcmpnltw k3{k3}, zmm28, zmm30",
            "vpcmpltw k3{k3}, zmm1, zmm30",
            "vpxorq zmm31, zmm31, zmm31",
            "mov esi, 0x1"
        ]
    );
    // auxiliary carry
    assert_eq!(text[29..31], ["vpsllw zmm31, zmm29, 0x8", "vpcmpnltw k3, zmm31, zmm30"]);
    // parity
    assert_eq!(
        text[39..48],
        [
            "vpsllw zmm31, zmm1, 0x8",
            "vpsllw zmm30, zmm31, 0x4",
            "vpxorq zmm31, zmm31, zmm30",
            "vpsllw zmm30, zmm31, 0x2",
            "vpxorq zmm31, zmm31, zmm30",
            "vpsllw zmm30, zmm31, 0x1",
            "vpxorq zmm31, zmm31, zmm30",
            "vpxorq zmm30, zmm30, zmm30",
            "vpcmpnltw k3, zmm31, zmm30"
        ]
    );
    assert_eq!(text[49], "mov esi, 0x4");
    assert!(text.iter().all(|line| !line.starts_with("vpord zmm10{")));
}
