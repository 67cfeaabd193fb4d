//! A register-machine bytecode interpreter over a fixed 20-byte memory image,
//! with a disassembler that renders the same bytes as mnemonics.
pub mod vm;
