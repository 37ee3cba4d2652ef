//! Control decoder: a pure table from the 4-bit opcode to the bundle of
//! control signals that steers every mux and enable line of the datapath for
//! one instruction.

use vstd::prelude::*;
use vstd::arithmetic::power2::lemma2_to64;
use crate::alu::AluSettings;
use crate::bits::Bits;
use crate::bitseq::lemma_bits_value_bound;

verus! {

/// Where the next program-counter value comes from.
#[derive(Debug, Clone, Copy, PartialEq, Eq, Structural, Default)]
pub enum AddrMux {
    #[default]
    Increment,
    Jump,
    Return,
}

/// What feeds the data bus that is written back to a register.
#[derive(Debug, Clone, Copy, PartialEq, Eq, Structural, Default)]
pub enum DataMux {
    #[default]
    Alu,
    Immediate,
    Memory,
}

/// Which instruction field selects the write-back destination register.
#[derive(Debug, Clone, Copy, PartialEq, Eq, Structural, Default)]
pub enum DestMux {
    First,
    Second,
    #[default]
    Third,
}

/// How the data memory takes part in the instruction.
#[derive(Debug, Clone, Copy, PartialEq, Eq, Structural, Default)]
pub enum MemoryAccess {
    #[default]
    Disabled,
    Read,
    Write,
}

/// What feeds the ALU's second operand.
#[derive(Debug, Clone, Copy, PartialEq, Eq, Structural, Default)]
pub enum AluMux {
    #[default]
    R2,
    BypassRegisterFile,
}

/// What the call stack does this instruction.
#[derive(Debug, Clone, Copy, PartialEq, Eq, Structural, Default)]
pub enum CallStackState {
    #[default]
    Disabled,
    Push,
    Pop,
}

/// Whether the low instruction bits are a full 8-bit immediate or a narrow
/// 4-bit offset.
#[derive(Debug, Clone, Copy, PartialEq, Eq, Structural, Default)]
pub enum ImmediateMux {
    #[default]
    Immediate,
    Offset,
}

/// One instruction's worth of control lines, the sole output of decoding an
/// opcode.
#[derive(Debug, Clone, Copy, PartialEq, Eq, Structural, Default)]
pub struct ControlSignals {
    pub alu_settings: AluSettings,
    pub reg_file_enable: bool,
    pub data_mux: DataMux,
    pub dest_mux: DestMux,
    pub alu_mux: AluMux,
    pub addr_mux: AddrMux,
    pub is_branch: bool,
    pub set_flags: bool,
    pub call_stack_state: CallStackState,
    pub immediate_mux: ImmediateMux,
    pub memory_access: MemoryAccess,
}

/// The signals with every line at rest: ALU on Add, register file disabled,
/// data from the ALU, write-back selected by the third field, second operand
/// from the register file, next address the increment, no branch, no flag
/// capture, call stack idle, full immediate, memory disabled.
pub open spec fn spec_base_signals() -> ControlSignals {
    ControlSignals {
        alu_settings: AluSettings::Add,
        reg_file_enable: false,
        data_mux: DataMux::Alu,
        dest_mux: DestMux::Third,
        alu_mux: AluMux::R2,
        addr_mux: AddrMux::Increment,
        is_branch: false,
        set_flags: false,
        call_stack_state: CallStackState::Disabled,
        immediate_mux: ImmediateMux::Immediate,
        memory_access: MemoryAccess::Disabled,
    }
}

/// The control table: the signal bundle for each opcode value. The opcodes
/// are NOP 0, HLT 1, ADD 2, SUB 3, NOR 4, AND 5, XOR 6, RSH 7, LDI 8, ADI 9,
/// JMP 10, BRH 11, CAL 12, RET 13, LOD 14, STR 15.
pub open spec fn spec_decode(v: nat) -> ControlSignals {
    if v == 2 {
        ControlSignals {
            alu_settings: AluSettings::Add,
            reg_file_enable: true,
            set_flags: true,
            ..spec_base_signals()
        }
    } else if v == 3 {
        ControlSignals {
            alu_settings: AluSettings::Sub,
            reg_file_enable: true,
            set_flags: true,
            ..spec_base_signals()
        }
    } else if v == 4 {
        ControlSignals {
            alu_settings: AluSettings::Nor,
            reg_file_enable: true,
            set_flags: true,
            ..spec_base_signals()
        }
    } else if v == 5 {
        ControlSignals {
            alu_settings: AluSettings::And,
            reg_file_enable: true,
            set_flags: true,
            ..spec_base_signals()
        }
    } else if v == 6 {
        ControlSignals {
            alu_settings: AluSettings::Xor,
            reg_file_enable: true,
            set_flags: true,
            ..spec_base_signals()
        }
    } else if v == 7 {
        ControlSignals {
            alu_settings: AluSettings::Rshift,
            reg_file_enable: true,
            set_flags: true,
            ..spec_base_signals()
        }
    } else if v == 8 {
        ControlSignals {
            reg_file_enable: true,
            data_mux: DataMux::Immediate,
            dest_mux: DestMux::First,
            immediate_mux: ImmediateMux::Immediate,
            ..spec_base_signals()
        }
    } else if v == 9 {
        ControlSignals {
            alu_settings: AluSettings::Add,
            reg_file_enable: true,
            dest_mux: DestMux::First,
            alu_mux: AluMux::BypassRegisterFile,
            immediate_mux: ImmediateMux::Immediate,
            data_mux: DataMux::Alu,
            set_flags: true,
            ..spec_base_signals()
        }
    } else if v == 10 {
        ControlSignals { addr_mux: AddrMux::Jump, ..spec_base_signals() }
    } else if v == 11 {
        ControlSignals { is_branch: true, ..spec_base_signals() }
    } else if v == 12 {
        ControlSignals {
            call_stack_state: CallStackState::Push,
            addr_mux: AddrMux::Jump,
            ..spec_base_signals()
        }
    } else if v == 13 {
        ControlSignals {
            addr_mux: AddrMux::Return,
            call_stack_state: CallStackState::Pop,
            ..spec_base_signals()
        }
    } else if v == 14 {
        ControlSignals {
            immediate_mux: ImmediateMux::Offset,
            alu_settings: AluSettings::Add,
            reg_file_enable: true,
            data_mux: DataMux::Memory,
            dest_mux: DestMux::Second,
            alu_mux: AluMux::BypassRegisterFile,
            memory_access: MemoryAccess::Read,
            ..spec_base_signals()
        }
    } else if v == 15 {
        ControlSignals {
            alu_settings: AluSettings::Add,
            reg_file_enable: true,
            alu_mux: AluMux::BypassRegisterFile,
            immediate_mux: ImmediateMux::Offset,
            memory_access: MemoryAccess::Write,
            ..spec_base_signals()
        }
    } else {
        spec_base_signals()
    }
}

/// The control decoder; it holds no state, decoding is a pure table lookup.
#[derive(Debug, Clone, Copy, PartialEq, Eq, Structural, Default)]
pub struct ControlRom {

}

impl ControlRom {
    /// The signals with every line at rest.
    fn base_signals(&self) -> (r: ControlSignals)
        ensures
            r == spec_base_signals(),
    {
        ControlSignals {
            alu_settings: AluSettings::Add,
            reg_file_enable: false,
            data_mux: DataMux::Alu,
            dest_mux: DestMux::Third,
            alu_mux: AluMux::R2,
            addr_mux: AddrMux::Increment,
            is_branch: false,
            set_flags: false,
            call_stack_state: CallStackState::Disabled,
            immediate_mux: ImmediateMux::Immediate,
            memory_access: MemoryAccess::Disabled,
        }
    }

    /// Decodes an opcode into its control signals; total over the 4-bit
    /// opcode space.
    pub fn get_control_signals(&self, opcode: Bits<4>) -> (r: ControlSignals)
        ensures
            r == spec_decode(opcode.value()),
    {
        proof {
            lemma2_to64();
            lemma_bits_value_bound(opcode@);
        }
        let v = opcode.to_usize();
        let base = self.base_signals();
        if v == 2 {
            ControlSignals { alu_settings: AluSettings::Add, reg_file_enable: true, set_flags: true, ..base }
        } else if v == 3 {
            ControlSignals { alu_settings: AluSettings::Sub, reg_file_enable: true, set_flags: true, ..base }
        } else if v == 4 {
            ControlSignals { alu_settings: AluSettings::Nor, reg_file_enable: true, set_flags: true, ..base }
        } else if v == 5 {
            ControlSignals { alu_settings: AluSettings::And, reg_file_enable: true, set_flags: true, ..base }
        } else if v == 6 {
            ControlSignals { alu_settings: AluSettings::Xor, reg_file_enable: true, set_flags: true, ..base }
        } else if v == 7 {
            ControlSignals { alu_settings: AluSettings::Rshift, reg_file_enable: true, set_flags: true, ..base }
        } else if v == 8 {
            ControlSignals {
                reg_file_enable: true,
                data_mux: DataMux::Immediate,
                dest_mux: DestMux::First,
                immediate_mux: ImmediateMux::Immediate,
                ..base
            }
        } else if v == 9 {
            ControlSignals {
                alu_settings: AluSettings::Add,
                reg_file_enable: true,
                dest_mux: DestMux::First,
                alu_mux: AluMux::BypassRegisterFile,
                immediate_mux: ImmediateMux::Immediate,
                data_mux: DataMux::Alu,
                set_flags: true,
                ..base
            }
        } else if v == 10 {
            ControlSignals { addr_mux: AddrMux::Jump, ..base }
        } else if v == 11 {
            ControlSignals { is_branch: true, ..base }
        } else if v == 12 {
            ControlSignals { call_stack_state: CallStackState::Push, addr_mux: AddrMux::Jump, ..base }
        } else if v == 13 {
            ControlSignals { addr_mux: AddrMux::Return, call_stack_state: CallStackState::Pop, ..base }
        } else if v == 14 {
            ControlSignals {
                immediate_mux: ImmediateMux::Offset,
                alu_settings: AluSettings::Add,
                reg_file_enable: true,
                data_mux: DataMux::Memory,
                dest_mux: DestMux::Second,
                alu_mux: AluMux::BypassRegisterFile,
                memory_access: MemoryAccess::Read,
                ..base
            }
        } else if v == 15 {
            ControlSignals {
                alu_settings: AluSettings::Add,
                reg_file_enable: true,
                alu_mux: AluMux::BypassRegisterFile,
                immediate_mux: ImmediateMux::Offset,
                memory_access: MemoryAccess::Write,
                ..base
            }
        } else {
            base
        }
    }
}

} // verus!
