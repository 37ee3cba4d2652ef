//! The machine's clocked storage: the dual-bank register file, the call
//! stack's shift register, and the byte-addressable data memory. Each stages
//! at most one write per tick and commits it in its own `clock` step.

pub mod call_stack;
pub mod data_memory;
pub mod register_file;

pub use register_file::RegisterFile;
pub use register_file::RegisterBank;
