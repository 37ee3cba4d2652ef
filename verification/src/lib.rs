//! Cycle-accurate emulator of a small 8-bit computer: a fixed-width bit-vector
//! type, a carry-chain ALU, a dual-bank register file, a call stack, data
//! memory with memory-mapped devices, a control decoder, and the single-step
//! clock that drives one instruction per call, together with the two-pass
//! assembler that turns assembly text into machine words.

pub mod alu;
pub mod bits;
pub mod bitseq;
pub mod control_rom;
pub mod error;
pub mod instruction_memory;
pub mod io_devices;
pub mod parser;
pub mod program_counter;
pub mod registers;
pub mod vm;

pub use crate::bits::Bits;
pub use crate::bits::BitsParseError;
pub use crate::error::VmError;
pub use crate::parser::ParserError;
pub use crate::vm::VM;
