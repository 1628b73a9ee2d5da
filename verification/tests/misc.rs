use emu8086::bits::{make_word, sign_extend_byte, signed_to_word, word_to_signed};
use emu8086::const_checks::{is_power_of_two, is_valid_address_size};
use emu8086::flags::EFlags;
use emu8086::json::{parse_bool, parse_string, scan_string, JsonError, ParseInput};
use emu8086::memory::{Address, Error, Memory};
use emu8086::register::{
    Reg, Register, SegmentRegister, SegmentRegisterError, SubRegister, Wide,
};

#[test]
fn powers_of_two() {
    assert!(!is_power_of_two(0));
    for shift in 0..usize::BITS {
        let value = 1usize << shift;
        assert!(is_power_of_two(value));
        assert_eq!(is_power_of_two(value + 1), shift == 0);
        assert_eq!(is_power_of_two(value - 1), shift == 1);
        assert_eq!(is_valid_address_size(value), shift <= 16);
    }
    assert!(!is_power_of_two(usize::MAX));
    assert!(!is_power_of_two(6));
    assert!(is_valid_address_size(1024));
    assert!(is_valid_address_size(0x8000));
    assert!(is_valid_address_size(0x10000));
    assert!(!is_valid_address_size(0x10001));
    assert!(!is_valid_address_size(0x20000));
    assert!(!is_valid_address_size(0xffff));
    assert!(!is_valid_address_size(0));
}

#[test]
fn words_and_signs() {
    assert_eq!(make_word(0x34, 0x12), 0x1234);
    assert_eq!(make_word(0xff, 0xff), 0xffff);
    assert_eq!(sign_extend_byte(0x7f), 127);
    assert_eq!(sign_extend_byte(0x80), -128);
    assert_eq!(sign_extend_byte(0xff), -1);
    assert_eq!(word_to_signed(0x7fff), i16::MAX);
    assert_eq!(word_to_signed(0x8000), i16::MIN);
    assert_eq!(signed_to_word(-1), 0xffff);
    for word in [0u16, 1, 0x7fff, 0x8000, 0xffff, 0x1234, 0xfedc] {
        assert_eq!(signed_to_word(word_to_signed(word)), word);
        assert_eq!(word_to_signed(word), word as i16);
    }
}

#[test]
fn registers_from_fields() {
    let mut seen = Vec::new();
    for w in 0..2u8 {
        for reg in 0..8u8 {
            let register = Register::from_reg_w(Reg(reg), Wide(w));
            assert!(!seen.contains(&register));
            seen.push(register);
        }
    }
    assert_eq!(
        seen,
        [
            Register::Al,
            Register::Cl,
            Register::Dl,
            Register::Bl,
            Register::Ah,
            Register::Ch,
            Register::Dh,
            Register::Bh,
            Register::Ax,
            Register::Cx,
            Register::Dx,
            Register::Bx,
            Register::Sp,
            Register::Bp,
            Register::Si,
            Register::Di,
        ]
    );
    assert_eq!(Register::Ax.as_sub_register(), (Register::Ax, SubRegister::Full));
    assert_eq!(Register::Al.as_sub_register(), (Register::Ax, SubRegister::Low));
    assert_eq!(Register::Ah.as_sub_register(), (Register::Ax, SubRegister::High));
    assert_eq!(Register::Dh.as_sub_register(), (Register::Dx, SubRegister::High));
    assert_eq!(Register::Flags.as_sub_register(), (Register::Flags, SubRegister::Full));
    let names: Vec<&str> = seen.iter().map(|r| r.name()).collect();
    assert_eq!(
        names,
        [
            "al", "cl", "dl", "bl", "ah", "ch", "dh", "bh", "ax", "cx", "dx", "bx", "sp", "bp",
            "si", "di"
        ]
    );
    assert_eq!((Register::Ip.name(), Register::Flags.name()), ("ip", "flags"));
    // the vector registers 1 to 10 hold the registers in the order of the register file
    let zmm: Vec<u8> = [
        Register::Ax,
        Register::Bx,
        Register::Cx,
        Register::Dx,
        Register::Si,
        Register::Di,
        Register::Bp,
        Register::Sp,
        Register::Ip,
        Register::Flags,
    ]
    .iter()
    .map(|r| r.as_zmm())
    .collect();
    assert_eq!(zmm, [1, 2, 3, 4, 5, 6, 7, 8, 9, 10]);
    assert_eq!(Register::Ch.index(), 2);
}

#[test]
fn segment_registers() {
    assert_eq!(SegmentRegister::try_from(0), Ok(SegmentRegister::Es));
    assert_eq!(SegmentRegister::try_from(1), Ok(SegmentRegister::Cs));
    assert_eq!(SegmentRegister::try_from(2), Ok(SegmentRegister::Ss));
    assert_eq!(SegmentRegister::try_from(3), Ok(SegmentRegister::Ds));
    assert_eq!(
        SegmentRegister::try_from(4),
        Err(SegmentRegisterError::UnknownSegmentRegister(4))
    );
    assert_eq!(SegmentRegister::Ss.index(), 2);
    assert_eq!(SegmentRegister::Ds.name(), "ds");
}

#[test]
fn flag_bits() {
    for (flag, bit) in [
        (EFlags::Carry, 0),
        (EFlags::Parity, 2),
        (EFlags::Auxillary, 4),
        (EFlags::Zero, 6),
        (EFlags::Sign, 7),
        (EFlags::Overflow, 11),
    ] {
        assert_eq!(flag.bit(), bit);
        assert_eq!(flag.mask(), 1 << bit);
    }
}

#[test]
fn memory_reads_and_writes() {
    let mut memory = Memory::<16>::new();
    assert_eq!((memory.memory.len(), memory.length), (16, 0));
    assert_eq!(memory.write_u16(Address(14), 0x1234), Ok(()));
    assert_eq!(memory.write_u8(Address(0), 0xab), Ok(()));
    assert_eq!(memory.read_u8(Address(14)), Ok(0x34));
    assert_eq!(memory.read_u8(Address(15)), Ok(0x12));
    assert_eq!(memory.read_u16(Address(14)), Ok(0x1234));
    assert_eq!(memory.read_u16(Address(0)), Ok(0x00ab));
    assert_eq!(memory.read_u16(Address(15)), Err(Error::OutOfBoundsRead(Address(15))));
    assert_eq!(memory.read_u8(Address(16)), Err(Error::OutOfBoundsRead(Address(16))));
    assert_eq!(memory.read_u16(Address(usize::MAX)), Err(Error::OutOfBoundsRead(Address(usize::MAX))));
    assert_eq!(memory.write_u16(Address(15), 1), Err(Error::OutOfBoundsWrite(Address(15))));
    assert_eq!(memory.write_u8(Address(16), 1), Err(Error::OutOfBoundsWrite(Address(16))));
    assert_eq!(memory.memory[15], 0x12);
    assert_eq!(Address(3).offset(4), Address(7));

    let loaded = Memory::<4>::from_bytes(&[9, 8]).unwrap();
    assert_eq!((loaded.memory.as_slice(), loaded.length), (&[9u8, 8, 0, 0][..], 2));
    assert_eq!(Memory::<4>::from_bytes(&[0; 5]).err(), Some(Error::ImageTooLarge(5)));
}

#[test]
fn json_input_positions() {
    let mut input = ParseInput::from_str("a  \n b  ");
    assert_eq!(input.len(), 8);
    assert_eq!(input.peek(), Some('a'));
    assert_eq!(input.next(), Some('a'));
    assert_eq!(input.position, 1);
    input.consume_all_whitespace();
    assert_eq!(input.position, 5);
    assert_eq!(input.peek(), Some('b'));
    input.consume_all_whitespace();
    assert_eq!(input.position, 5);
    // where only whitespace follows, the position stays
    assert_eq!(input.increment_position(1), Ok(()));
    assert_eq!(input.position, 6);
    assert_eq!(input.increment_position(2), Ok(()));
    assert_eq!((input.position, input.len()), (8, 0));
    assert_eq!((input.peek(), input.next()), (None, None));
    assert_eq!(input.increment_position(1), Err(JsonError::PositionOverflow(8)));
    assert_eq!(input.increment_position(usize::MAX), Err(JsonError::PositionOverflow(8)));
    input.set_position(1);
    assert_eq!(input.position, 5);
}

#[test]
fn json_strings_and_bools() {
    let mut input = ParseInput::from_str("\"a b\"  : \"\"x");
    assert_eq!(parse_string(&mut input), Ok("a b".to_string()));
    assert_eq!(input.position, 7);
    assert_eq!(parse_string(&mut input), Err(JsonError::InvalidStartOfString(8, ':')));
    input.set_position(8);
    assert_eq!(scan_string(&mut input), Ok((10, 10)));
    assert_eq!(input.position, 11);
    input.set_position(9);
    assert_eq!(parse_string(&mut input), Ok(String::new()));
    input.set_position(10);
    assert_eq!(parse_string(&mut input), Err(JsonError::UnclosedString(10)));
    input.set_position(12);
    assert_eq!(parse_string(&mut input), Err(JsonError::EndOfFileFound));
    // what is not UTF-8 gives the replacement character
    let mut input = ParseInput::from_bytes(&[0x22, 0x61, 0xff, 0x22]);
    assert_eq!(parse_string(&mut input), Ok("a\u{fffd}".to_string()));

    let mut input = ParseInput::from_str("true  false, true");
    assert_eq!(parse_bool(&mut input), Ok(true));
    assert_eq!(input.position, 6);
    assert_eq!(parse_bool(&mut input), Ok(false));
    assert_eq!(input.position, 11);
    assert_eq!(parse_bool(&mut input), Err(JsonError::InvalidDataForBool(11)));
    input.set_position(12);
    // fewer than five bytes are left
    assert_eq!(input.position, 13);
    assert_eq!(parse_bool(&mut input), Err(JsonError::InvalidDataForBool(13)));
    let mut input = ParseInput::from_str("truth");
    assert_eq!(parse_bool(&mut input), Err(JsonError::InvalidDataForBool(0)));
    assert_eq!(input.position, 0);
}
