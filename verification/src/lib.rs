//! A 16-bit 8086 emulator: instruction decoder, scalar executor and a
//! translator to 32-lane AVX-512 host code.

pub mod bits;
pub mod const_checks;
pub mod flags;
pub mod register;
pub mod instruction;
pub mod memory_operand;
pub mod memory;
pub mod decoder;
pub mod emu;
pub mod text;
pub mod evex;
pub mod il;
pub mod jit;
pub mod json;
pub mod lanes;
pub mod decode_laws;
pub mod jit_emu;
pub mod disasm;
pub mod host;
pub mod report;
pub mod encoding;
