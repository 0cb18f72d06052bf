//! The instruction set: instruction values, opcode tags, their binary
//! encoding and the handlers that execute them.

pub mod codec;
pub mod enums;
pub mod implementations;
pub mod instruction_impl;
