//! A disassembler for 8086 machine code restricted to the fixed two-byte,
//! register-to-register instruction encoding.
//!
//! The crate has two parts: a register-naming table that maps a 3-bit
//! selector and an operand-width flag to the canonical 8086 register name,
//! and a decoder that partitions a byte buffer into two-byte units and
//! renders one assembly line per unit, preceded by a `bits 16` header.

pub mod decoder;
pub mod registers;
