//! A register-based virtual CPU: an instruction set with a fixed binary
//! encoding, a permission-gated register bank and memory, and the
//! fetch-decode-execute loop that ties them together.

pub mod cpu;
pub mod instructions;
pub mod memory;
pub mod registers;
pub mod security_context;
pub mod virtual_machine;
