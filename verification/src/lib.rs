//! A cycle-level emulator of a twelve-bit minicomputer: its word, its core
//! memory with the addressing unit, its instruction decoder, the memory
//! reference instructions and the cycle state machine.

pub mod consts;
pub mod hex_dump;
pub mod instruction;
pub mod machine;
pub mod memory;
pub mod registers;
pub mod rim_format_reader;
pub mod unsigned_integer_12;
