use emu8086::evex::Zmm;
use emu8086::il::{vpaddw, vpbroadcastw, vpcmpw, vpmovdqa64, vpsubw, CmpOp};
use emu8086::jit::HostRegister;

#[test]
fn test_evex() {
    for (instr, needed) in [
        (vpsubw(Zmm(1), Zmm(2), Zmm(1)), vec![0x62, 0xf1, 0x6d, 0x48, 0xf9, 0xc9]),
        (vpaddw(Zmm(1), Zmm(2), Zmm(1)), vec![0x62, 0xf1, 0x6d, 0x48, 0xfd, 0xc9]),
        (
            vpcmpw(Zmm(1), Zmm(8), Zmm(7), CmpOp::Equal),
            vec![0x62, 0xf3, 0xbd, 0x48, 0x3f, 0xcf, 0x00],
        ),
        (
            vpbroadcastw(Zmm(1), HostRegister::rsi.as_zmm(), None),
            vec![0x62, 0xf2, 0x7d, 0x48, 0x7b, 0xce],
        ),
        (
            vpbroadcastw(Zmm(1), HostRegister::rax.as_zmm(), None),
            vec![0x62, 0xf2, 0x7d, 0x48, 0x7b, 0xc8],
        ),
        (
            vpbroadcastw(Zmm(1), HostRegister::rcx.as_zmm(), None),
            vec![0x62, 0xf2, 0x7d, 0x48, 0x7b, 0xc9],
        ),
        (vpmovdqa64(Zmm(1), Zmm(2)), vec![0x62, 0xf1, 0xfd, 0x48, 0x6f, 0xca]),
        (vpmovdqa64(Zmm(2), Zmm(1)), vec![0x62, 0xf1, 0xfd, 0x48, 0x6f, 0xd1]),
    ] {
        let bytes = instr.assemble();
        let instr2 = instr.clone();
        assert!(
            bytes.as_slice() == needed,
            "{instr2:?} | {:x?} {needed:x?}",
            bytes.as_slice(),
        );
    }
}
