//! The machine: one `clock` call fetches the instruction at the program
//! counter, decodes it, wires the datapath, and commits every staged write.
//! All writes of a tick are staged while the tick computes and land in the
//! register file, call stack and data memory in their own commit steps at the
//! tick's end; the branch check therefore still sees the flags of the previous
//! flag-setting instruction.

use vstd::prelude::*;
use vstd::arithmetic::power2::lemma2_to64;
use vstd::arithmetic::power2::pow2;
use crate::alu::Alu;
use crate::alu::spec_alu_flags;
use crate::alu::spec_alu_result;
use crate::bits::Bits;
use crate::bitseq::bits_value;
use crate::bitseq::lemma_bits_value_bound;
use crate::bitseq::lemma_bits_value_nonzero;
use crate::control_rom::AddrMux;
use crate::control_rom::AluMux;
use crate::control_rom::CallStackState;
use crate::control_rom::ControlRom;
use crate::control_rom::DataMux;
use crate::control_rom::DestMux;
use crate::control_rom::ImmediateMux;
use crate::control_rom::MemoryAccess;
use crate::control_rom::spec_decode;
use crate::error::VmError;
use crate::instruction_memory::InstructionMemory;
use crate::io_devices::IoDevices;
use crate::io_devices::character_display::CharacterDisplay;
use crate::io_devices::number_display::NumberDisplay;
use crate::io_devices::rng::lfsr_next;
use crate::io_devices::screen::Screen;
use crate::program_counter::PC;
use crate::registers::RegisterFile;
use crate::registers::call_stack::CallStack;
use crate::registers::data_memory::DataMemory;
use crate::registers::data_memory::MemoryState;

verus! {

/// An 8-bit all-zero sequence, what a disabled register port reads.
pub open spec fn zero8() -> Seq<bool> {
    Seq::new(8, |i: int| false)
}

/// The whole machine.
#[derive(Debug)]
pub struct VM {
    pub alu: Alu,
    pub reg_file: RegisterFile,
    pub control_rom: ControlRom,
    pub instruction_memory: InstructionMemory,
    pub pc: PC,
    pub call_stack: CallStack,
    pub data_memory: DataMemory,
    pub io_devices: IoDevices,
}

/// The ghost reading of one instruction word against a machine state: the
/// decoded signals and every intermediate datapath value of the tick.
pub ghost struct TickValues {
    pub d: crate::control_rom::ControlSignals,
    pub pc_inc_v: nat,
    pub jump_v: nat,
    pub branch_taken: bool,
    pub r1v: int,
    pub r2v: int,
    pub a: Seq<bool>,
    pub breg: Seq<bool>,
    pub alu_b: Seq<bool>,
    pub result: Seq<bool>,
    pub addr_v: nat,
    pub device_read: bool,
    pub data: Seq<bool>,
    pub destv: int,
}

impl VM {
    /// The machine's invariant between ticks: each component is well formed
    /// and no commit is left pending in the call stack or the data memory.
    pub open spec fn wf(&self) -> bool {
        &&& self.alu.wf()
        &&& self.reg_file.wf()
        &&& self.call_stack.wf()
        &&& self.io_devices.wf()
        &&& self.call_stack.write_buffer is None
        &&& self.data_memory.write_buffer is None
    }

    /// A fresh machine: cleared registers, memory, stack and devices, the
    /// program counter at zero, nothing loaded.
    pub fn new() -> (r: VM)
        ensures
            r.wf(),
            r.call_stack.write_buffer is None,
            r.pc.value.value() == 0,
            forall|rb: int, i: int|
                0 <= rb < 2 && 0 <= i < 16 ==> r.reg_file.register_banks@[rb]@[i].value() == 0,
            forall|i: int| 0 <= i < 256 ==> r.data_memory.memory@[i].value() == 0,
            forall|i: int| 0 <= i < 1024 ==> r.instruction_memory.instructions@[i].value() == 0,
            r.call_stack.stack_top is None,
            r.reg_file.enabled,
            r.reg_file.write_buffer is None,
            !r.alu.flags.zero && !r.alu.flags.carry,
            r.data_memory.enabled,
            r.data_memory.state == MemoryState::Read,
            r.io_devices.character_display.active@.len() == 0,
            r.io_devices.character_display.buffer@.len() == 0,
            r.io_devices.number_display == NumberDisplay::spec_new(),
            r.io_devices.rng.state.value() > 0,
            r.io_devices.controller.value.value() == 0,
            !r.io_devices.controller.left && !r.io_devices.controller.down
                && !r.io_devices.controller.right && !r.io_devices.controller.up
                && !r.io_devices.controller.b && !r.io_devices.controller.a
                && !r.io_devices.controller.select && !r.io_devices.controller.start,
            r.io_devices.screen.current_x == 0,
            r.io_devices.screen.current_y == 0,
            forall|y: int, x: int|
                0 <= y < 32 && 0 <= x < 32 ==> !r.io_devices.screen.buffer@[y]@[x],
            forall|y: int, x: int|
                0 <= y < 32 && 0 <= x < 32 ==> !r.io_devices.screen.active@[y]@[x],
    {
        VM {
            alu: Alu::new(crate::alu::AluSettings::Add),
            reg_file: RegisterFile::default(),
            control_rom: ControlRom {  },
            instruction_memory: InstructionMemory::default(),
            pc: PC::default(),
            call_stack: CallStack::new(),
            data_memory: DataMemory::default(),
            io_devices: IoDevices::default(),
        }
    }

    /// The intermediate datapath values a machine state `pre` and an
    /// instruction word `w` determine.
    pub open spec fn tick_values(pre: VM, w: Seq<bool>) -> TickValues {
        let d = spec_decode(bits_value(w.subrange(12, 16)));
        let r1v = bits_value(w.subrange(8, 12)) as int;
        let r2v = bits_value(w.subrange(4, 8)) as int;
        let a = if d.reg_file_enable {
            pre.reg_file.register_banks@[0]@[r1v]@
        } else {
            zero8()
        };
        let breg = if d.reg_file_enable {
            pre.reg_file.register_banks@[1]@[r2v]@
        } else {
            zero8()
        };
        let imm = if d.immediate_mux == ImmediateMux::Immediate {
            w.subrange(0, 8)
        } else {
            w.subrange(0, 4) + Seq::new(4, |i: int| false)
        };
        let alu_b = if d.alu_mux == AluMux::BypassRegisterFile {
            imm
        } else {
            breg
        };
        let result = spec_alu_result(d.alu_settings, a, alu_b);
        let addr_v = bits_value(result);
        let device_read = d.data_mux == DataMux::Memory && addr_v >= 240;
        let data = if d.data_mux == DataMux::Alu {
            result
        } else if d.data_mux == DataMux::Immediate {
            w.subrange(0, 8)
        } else if addr_v >= 240 {
            VM::device_read_result(pre.io_devices, addr_v)
        } else {
            pre.data_memory.memory@[addr_v as int]@
        };
        TickValues {
            d,
            pc_inc_v: (pre.pc.value.value() + 1) % pow2(10),
            jump_v: bits_value(w.subrange(0, 10)),
            branch_taken: d.is_branch && pre.alu.flags.spec_cond_true(
                bits_value(w.subrange(10, 12)),
            ),
            r1v,
            r2v,
            a,
            breg,
            alu_b,
            result,
            addr_v,
            device_read,
            data,
            destv: (if d.dest_mux == DestMux::First {
                r1v
            } else if d.dest_mux == DestMux::Second {
                r2v
            } else {
                bits_value(w.subrange(0, 4)) as int
            }),
        }
    }

    /// What a device read at `addr` returns: the selected pixel, the stepped
    /// generator state, the controller byte, or zero.
    pub open spec fn device_read_result(pre: IoDevices, addr: nat) -> Seq<bool> {
        if addr == 244 {
            Screen::read_result(pre.screen)@
        } else if addr == 254 {
            lfsr_next(pre.rng.state@)
        } else if addr == 255 {
            pre.controller.value@
        } else {
            zero8()
        }
    }

    /// The parts of a tick that take effect while it computes: the ALU's new
    /// wiring and flags, the next program counter, a return's pop, the
    /// latched register reads, the writes into the device window, and every
    /// staged write.
    pub open spec fn stage_rel(pre: VM, mid: VM, w: Seq<bool>) -> bool {
        let t = VM::tick_values(pre, w);
        let d = t.d;
        {
            &&& mid.alu.setting == d.alu_settings
            &&& mid.alu.set_flags == d.set_flags
            &&& mid.alu.flags == spec_alu_flags(d.alu_settings, d.set_flags, pre.alu.flags, t.a, t.alu_b)
            &&& mid.pc.value.value() == (if t.branch_taken {
                t.jump_v
            } else if d.addr_mux == AddrMux::Jump {
                t.jump_v
            } else if d.addr_mux == AddrMux::Return {
                match pre.call_stack.stack_top {
                    Some(top) => top.value(),
                    None => t.pc_inc_v,
                }
            } else {
                t.pc_inc_v
            })
            &&& mid.call_stack.state == d.call_stack_state
            &&& (if d.call_stack_state == CallStackState::Push {
                mid.call_stack.write_buffer matches Some(p) && p.value() == t.pc_inc_v
            } else {
                mid.call_stack.write_buffer is None
            })
            &&& (if d.addr_mux == AddrMux::Return && pre.call_stack.stack_top is Some {
                &&& forall|i: int|
                    0 <= i < 15 ==> mid.call_stack.entries@[i] == pre.call_stack.entries@[i + 1]
                &&& mid.call_stack.entries@[15].value() == 0
            } else {
                mid.call_stack.entries == pre.call_stack.entries && mid.call_stack.stack_top
                    == pre.call_stack.stack_top
            })
            &&& mid.data_memory.enabled == (d.memory_access != MemoryAccess::Disabled)
            &&& mid.data_memory.memory == pre.data_memory.memory
            &&& (if d.memory_access == MemoryAccess::Write && t.addr_v < 240 {
                mid.data_memory.write_buffer matches Some((ad, vb)) && ad@ == t.result && vb@
                    == t.breg
            } else {
                mid.data_memory.write_buffer is None
            })
            &&& VM::device_rel(pre, mid, t)
            &&& mid.reg_file.enabled == d.reg_file_enable
            &&& mid.reg_file.register_banks == pre.reg_file.register_banks
            &&& (if d.reg_file_enable {
                &&& mid.reg_file.read_addresses@[0]@ == w.subrange(8, 12)
                &&& mid.reg_file.read_addresses@[1]@ == w.subrange(4, 8)
                &&& (if t.destv != 0 {
                    mid.reg_file.write_buffer matches Some((ci, cv)) && ci.value() == t.destv
                        && cv@ == t.data
                } else {
                    mid.reg_file.write_buffer == pre.reg_file.write_buffer
                })
            } else {
                &&& mid.reg_file.read_addresses == pre.reg_file.read_addresses
                &&& (if t.destv != 0 {
                    mid.reg_file.write_buffer matches Some((ci, cv)) && ci.value() == t.destv
                        && cv@ == t.data
                } else {
                    mid.reg_file.write_buffer is None
                })
            })
            &&& mid.instruction_memory == pre.instruction_memory
        }
    }

    /// The device window's part of a tick: an address of 240 or above reaches
    /// the owning device, and the pseudo-random generator steps exactly for a
    /// device read of its port.
    pub open spec fn device_rel(pre: VM, post: VM, t: TickValues) -> bool {
        &&& (if t.addr_v >= 240 {
            &&& (if 240 <= t.addr_v <= 246 {
                Screen::write_rel(pre.io_devices.screen, post.io_devices.screen, t.addr_v, t.breg)
            } else {
                post.io_devices.screen == pre.io_devices.screen
            })
            &&& (if 247 <= t.addr_v <= 249 {
                CharacterDisplay::write_rel(
                    pre.io_devices.character_display,
                    post.io_devices.character_display,
                    t.addr_v,
                    bits_value(t.breg),
                )
            } else {
                post.io_devices.character_display == pre.io_devices.character_display
            })
            &&& (if 250 <= t.addr_v <= 253 {
                NumberDisplay::write_rel(
                    pre.io_devices.number_display,
                    post.io_devices.number_display,
                    t.addr_v,
                    t.breg,
                )
            } else {
                post.io_devices.number_display == pre.io_devices.number_display
            })
        } else {
            &&& post.io_devices.screen == pre.io_devices.screen
            &&& post.io_devices.character_display == pre.io_devices.character_display
            &&& post.io_devices.number_display == pre.io_devices.number_display
        })
        &&& (if t.device_read && t.addr_v == 254 {
            post.io_devices.rng.state@ == lfsr_next(pre.io_devices.rng.state@)
                && post.io_devices.rng.seed == pre.io_devices.rng.seed
        } else {
            post.io_devices.rng == pre.io_devices.rng
        })
        &&& post.io_devices.controller == pre.io_devices.controller
    }

    /// How one committed tick on instruction word `w` relates the machine
    /// after the tick to the machine before it, and the opcode it reports.
    pub open spec fn step_rel(pre: VM, post: VM, w: Seq<bool>, r: Bits<4>) -> bool {
        let t = VM::tick_values(pre, w);
        let d = t.d;
        {
            &&& r@ == w.subrange(12, 16)
            &&& post.alu.setting == d.alu_settings
            &&& post.alu.set_flags == d.set_flags
            &&& post.alu.flags == spec_alu_flags(
                d.alu_settings,
                d.set_flags,
                pre.alu.flags,
                t.a,
                t.alu_b,
            )
            &&& post.pc.value.value() == (if t.branch_taken {
                t.jump_v
            } else if d.addr_mux == AddrMux::Jump {
                t.jump_v
            } else if d.addr_mux == AddrMux::Return {
                match pre.call_stack.stack_top {
                    Some(top) => top.value(),
                    None => t.pc_inc_v,
                }
            } else {
                t.pc_inc_v
            })
            &&& post.call_stack.state == d.call_stack_state
            &&& post.call_stack.write_buffer is None
            &&& (if d.call_stack_state == CallStackState::Push {
                &&& post.call_stack.entries@[0].value() == t.pc_inc_v
                &&& post.call_stack.stack_top matches Some(p) && p.value() == t.pc_inc_v
                &&& forall|i: int|
                    1 <= i < 16 ==> post.call_stack.entries@[i] == pre.call_stack.entries@[i - 1]
            } else if d.addr_mux == AddrMux::Return && pre.call_stack.stack_top is Some {
                &&& forall|i: int|
                    0 <= i < 15 ==> post.call_stack.entries@[i] == pre.call_stack.entries@[i + 1]
                &&& post.call_stack.entries@[15].value() == 0
            } else {
                post.call_stack.entries == pre.call_stack.entries && post.call_stack.stack_top
                    == pre.call_stack.stack_top
            })
            &&& post.data_memory.enabled == (d.memory_access != MemoryAccess::Disabled)
            &&& post.data_memory.write_buffer is None
            &&& (forall|i: int|
                0 <= i < 256 ==> post.data_memory.memory@[i]@ == (if d.memory_access
                    == MemoryAccess::Write && t.addr_v < 240 && i == t.addr_v {
                    t.breg
                } else {
                    pre.data_memory.memory@[i]@
                }))
            &&& VM::device_rel(pre, post, t)
            &&& post.reg_file.enabled == d.reg_file_enable
            &&& (if d.reg_file_enable {
                &&& post.reg_file.read_addresses@[0]@ == w.subrange(8, 12)
                &&& post.reg_file.read_addresses@[1]@ == w.subrange(4, 8)
                &&& post.reg_file.write_buffer is None
                &&& (if t.destv != 0 {
                    forall|rb: int, i: int|
                        0 <= rb < 2 && 0 <= i < 16 ==> post.reg_file.register_banks@[rb]@[i]@ == (
                        if i == t.destv {
                            t.data
                        } else {
                            pre.reg_file.register_banks@[rb]@[i]@
                        })
                } else {
                    match pre.reg_file.write_buffer {
                        Some((si, sv)) => forall|rb: int, i: int|
                            0 <= rb < 2 && 0 <= i < 16
                                ==> post.reg_file.register_banks@[rb]@[i]@ == (if i == si.value() {
                                sv@
                            } else {
                                pre.reg_file.register_banks@[rb]@[i]@
                            }),
                        None => post.reg_file.register_banks == pre.reg_file.register_banks,
                    }
                })
            } else {
                &&& post.reg_file.register_banks == pre.reg_file.register_banks
                &&& post.reg_file.read_addresses == pre.reg_file.read_addresses
                &&& post.reg_file.read_outputs@[0].value() == 0
                &&& post.reg_file.read_outputs@[1].value() == 0
                &&& (if t.destv != 0 {
                    post.reg_file.write_buffer matches Some((ci, cv)) && ci.value() == t.destv
                        && cv@ == t.data
                } else {
                    post.reg_file.write_buffer is None
                })
            })
            &&& post.instruction_memory == pre.instruction_memory
        }
    }

    /// Decodes and executes one fetched instruction, staging every write.
    #[verifier::rlimit(100)]
    #[verifier::spinoff_prover]
    fn process_instruction(&mut self, instruction: Bits<16>)
        requires
            old(self).wf(),
        ensures
            final(self).alu.wf(),
            final(self).reg_file.wf(),
            final(self).call_stack.wf(),
            final(self).io_devices.wf(),
            VM::stage_rel(*old(self), *final(self), instruction@),
    {
        let ghost w = instruction@;
        let ghost t = VM::tick_values(*old(self), w);
        let opcode: Bits<4> = instruction.slice(12);
        proof {
            assert(opcode@ =~= w.subrange(12, 16));
        }
        let control_signals = self.control_rom.get_control_signals(opcode);
        self.call_stack.state = control_signals.call_stack_state;
        self.reg_file.enable(control_signals.reg_file_enable);
        self.alu.set_setting(control_signals.alu_settings);
        match control_signals.memory_access {
            MemoryAccess::Read => {
                self.data_memory.enable(true);
                self.data_memory.set_state(MemoryState::Read);
            },
            MemoryAccess::Write => {
                self.data_memory.enable(true);
                self.data_memory.set_state(MemoryState::Write);
            },
            MemoryAccess::Disabled => {
                self.data_memory.set_state(MemoryState::Disabled);
                self.data_memory.enable(false);
            },
        }
        self.alu.enable_flags(control_signals.set_flags);
        let current_pc = self.pc.value;
        proof {
            lemma2_to64();
        }
        let one = Bits::<10>::from_unsigned_truncated(1);
        let pc_inc = current_pc.wrapping_add(one);
        self.call_stack.push(pc_inc);
        let mut next_pc = match control_signals.addr_mux {
            AddrMux::Increment => pc_inc,
            AddrMux::Jump => instruction.slice::<10>(0),
            AddrMux::Return => {
                match self.call_stack.pop() {
                    Some(addr) => addr,
                    None => pc_inc,
                }
            },
        };
        if control_signals.is_branch {
            let condition: Bits<2> = instruction.slice(10);
            proof {
                assert(condition@ =~= w.subrange(10, 12));
            }
            if self.alu.flags.cond_true(condition) {
                next_pc = instruction.slice::<10>(0);
            }
        }
        let r1: Bits<4> = instruction.slice(8);
        let r2: Bits<4> = instruction.slice(4);
        proof {
            assert(r1@ =~= w.subrange(8, 12));
            assert(r2@ =~= w.subrange(4, 8));
            lemma_bits_value_bound(r1@);
            lemma_bits_value_bound(r2@);
        }
        self.reg_file.set_read_addresses([r1, r2]);
        let a = self.reg_file.read_outputs[0];
        let b = self.reg_file.read_outputs[1];
        proof {
            if control_signals.reg_file_enable {
                assert(a@ == t.a);
                assert(b@ == t.breg);
            } else {
                lemma_bits_value_nonzero(a@);
                lemma_bits_value_nonzero(b@);
                assert(a@ =~= zero8());
                assert(b@ =~= zero8());
            }
        }
        let immediate: Bits<8> = match control_signals.immediate_mux {
            ImmediateMux::Immediate => instruction.slice::<8>(0),
            ImmediateMux::Offset => instruction.slice::<4>(0).resize::<8>(),
        };
        proof {
            if control_signals.immediate_mux == ImmediateMux::Immediate {
                assert(immediate@ =~= w.subrange(0, 8));
            } else {
                assert(immediate@ =~= w.subrange(0, 4) + Seq::new(4, |i: int| false));
            }
        }
        let alu_input_b = match control_signals.alu_mux {
            AluMux::R2 => b,
            AluMux::BypassRegisterFile => immediate,
        };
        proof {
            assert(alu_input_b@ == t.alu_b);
        }
        let alu_result = self.alu.compute(a, alu_input_b);
        proof {
            assert(alu_result@ == t.result);
            lemma_bits_value_bound(alu_result@);
        }
        let is_device = alu_result.to_usize() >= 240;
        let data = match control_signals.data_mux {
            DataMux::Alu => alu_result,
            DataMux::Immediate => instruction.slice::<8>(0),
            DataMux::Memory => {
                if is_device {
                    self.io_devices.on_read(alu_result)
                } else {
                    self.data_memory.read(alu_result)
                }
            },
        };
        proof {
            if control_signals.data_mux == DataMux::Immediate {
                assert(data@ =~= w.subrange(0, 8));
            }
            if control_signals.data_mux == DataMux::Memory && t.addr_v >= 240 && !(t.addr_v == 244
                || t.addr_v == 254 || t.addr_v == 255) {
                lemma_bits_value_nonzero(data@);
                assert(data@ =~= zero8());
            }
            assert(data@ == t.data);
        }
        if is_device {
            self.io_devices.on_write(alu_result, b);
        } else {
            self.data_memory.schedule_write((alu_result, b));
        }
        let write_address: Bits<4> = match control_signals.dest_mux {
            DestMux::First => instruction.slice(8),
            DestMux::Second => instruction.slice(4),
            DestMux::Third => instruction.slice(0),
        };
        proof {
            if control_signals.dest_mux == DestMux::Third {
                assert(write_address@ =~= w.subrange(0, 4));
            }
            assert(write_address.value() == t.destv);
        }
        self.reg_file.schedule_write((write_address, data));
        self.pc.value = next_pc;
    }

    /// Runs one instruction: fetch at the program counter, decode, execute,
    /// commit, and report the fetched opcode so the caller can stop at HLT.
    #[verifier::rlimit(100)]
    #[verifier::spinoff_prover]
    pub fn clock(&mut self) -> (r: Bits<4>)
        requires
            old(self).wf(),
        ensures
            final(self).wf(),
            VM::step_rel(
                *old(self),
                *final(self),
                old(self).instruction_memory.instructions@[old(self).pc.value.value() as int]@,
                r,
            ),
    {
        proof {
            lemma2_to64();
            lemma_bits_value_bound(self.pc.value@);
        }
        let instr_adr = self.pc.clock().to_usize();
        let instruction = self.instruction_memory.instructions[instr_adr];
        self.process_instruction(instruction);
        self.reg_file.clock();
        self.call_stack.clock();
        self.data_memory.clock();
        let r = instruction.slice::<4>(12);
        proof {
            assert(r@ =~= instruction@.subrange(12, 16));
        }
        r
    }

    /// The word fetched at a machine's current program counter.
    pub open spec fn fetched(s: VM) -> Seq<bool> {
        s.instruction_memory.instructions@[s.pc.value.value() as int]@
    }

    /// How loading a program relates the loaded machine to the machine
    /// before it: the counter is reset to zero, the program's words stand
    /// from word 0 on with the rest of the instruction memory kept, and no
    /// other component moves.
    pub open spec fn loaded_rel(pre: VM, loaded: VM, program: Seq<Bits<16>>) -> bool {
        &&& loaded.pc.value.value() == 0
        &&& forall|i: int|
            0 <= i < program.len() ==> loaded.instruction_memory.instructions@[i] == program[i]
        &&& forall|i: int|
            program.len() <= i < 1024 ==> loaded.instruction_memory.instructions@[i]
                == pre.instruction_memory.instructions@[i]
        &&& loaded.alu == pre.alu
        &&& loaded.reg_file == pre.reg_file
        &&& loaded.call_stack == pre.call_stack
        &&& loaded.data_memory == pre.data_memory
        &&& loaded.io_devices == pre.io_devices
    }

    /// A run: consecutive machine states, each next one reached by one tick
    /// of `step_rel` on the word fetched at its predecessor's counter, with
    /// the fetched opcodes alongside. The run stops at the first HLT opcode
    /// or once `max_cycles` ticks have run; only the last fetch may be HLT,
    /// and a run shorter than the budget ended at HLT.
    pub open spec fn run_rel(end: VM, states: Seq<VM>, ops: Seq<Bits<4>>, max_cycles: nat) -> bool {
        &&& states.len() == ops.len() + 1
        &&& states.last() == end
        &&& ops.len() <= max_cycles
        &&& forall|i: int|
            0 <= i < ops.len() ==> #[trigger] VM::step_rel(
                states[i],
                states[i + 1],
                VM::fetched(states[i]),
                ops[i],
            )
        &&& forall|i: int| 0 <= i < ops.len() - 1 ==> ops[i].value() != 1
        &&& (ops.len() < max_cycles ==> ops.len() > 0 && ops.last().value() == 1)
    }

    /// Loads a program and runs it until the HLT opcode is fetched or
    /// `max_cycles` instructions have run: the final machine is reached from
    /// the loaded machine by a chain of ticks. A program over the
    /// instruction memory's capacity is reported and nothing but the counter
    /// moves.
    pub fn execute_program(&mut self, program: Vec<Bits<16>>, max_cycles: usize) -> (r: Result<
        (),
        VmError,
    >)
        requires
            old(self).wf(),
        ensures
            final(self).wf(),
            program@.len() > 1024 ==> {
                &&& r == Err::<(), VmError>(VmError::InstructionMemoryOverflow)
                &&& final(self).pc.value.value() == 0
                &&& *final(self) == (VM { pc: final(self).pc, ..*old(self) })
            },
            program@.len() <= 1024 ==> r is Ok && (exists|states: Seq<VM>, ops: Seq<Bits<4>>|
                VM::loaded_rel(*old(self), states[0], program@) && #[trigger] VM::run_rel(
                    *final(self),
                    states,
                    ops,
                    max_cycles as nat,
                )),
    {
        self.pc.value = Bits::<10>::zero();
        let ghost pre = *old(self);
        let loaded = self.instruction_memory.load_instructions(program);
        match loaded {
            Err(e) => {
                return Err(e);
            },
            Ok(()) => {},
        }
        let ghost s0 = *self;
        let ghost mut states: Seq<VM> = seq![*self];
        let ghost mut ops: Seq<Bits<4>> = Seq::empty();
        proof {
            assert(VM::loaded_rel(pre, s0, program@));
        }
        let mut cycles: usize = 0;
        while cycles < max_cycles
            invariant
                self.wf(),
                program@.len() <= 1024,
                pre == *old(self),
                VM::loaded_rel(pre, s0, program@),
                states.len() == cycles + 1,
                ops.len() == cycles,
                cycles <= max_cycles,
                states[0] == s0,
                states.last() == *self,
                forall|i: int|
                    0 <= i < ops.len() ==> #[trigger] VM::step_rel(
                        states[i],
                        states[i + 1],
                        VM::fetched(states[i]),
                        ops[i],
                    ),
                forall|i: int| 0 <= i < ops.len() ==> ops[i].value() != 1,
            decreases max_cycles - cycles,
        {
            let ghost prev = *self;
            let op = self.clock();
            proof {
                assert(VM::step_rel(prev, *self, VM::fetched(prev), op));
                states = states.push(*self);
                ops = ops.push(op);
                lemma2_to64();
                lemma_bits_value_bound(op@);
            }
            if op.to_usize() == 1 {
                proof {
                    assert(states[0] == s0);
                    assert(exists|st: Seq<VM>, o: Seq<Bits<4>>|
                        VM::loaded_rel(*old(self), st[0], program@) && #[trigger] VM::run_rel(
                            *self,
                            st,
                            o,
                            max_cycles as nat,
                        )) by {
                        assert(VM::loaded_rel(*old(self), states[0], program@));
                        assert(VM::run_rel(*self, states, ops, max_cycles as nat));
                    }
                }
                return Ok(());
            }
            cycles += 1;
        }
        proof {
            assert(states[0] == s0);
            assert(exists|st: Seq<VM>, o: Seq<Bits<4>>|
                VM::loaded_rel(*old(self), st[0], program@) && #[trigger] VM::run_rel(
                    *self,
                    st,
                    o,
                    max_cycles as nat,
                )) by {
                assert(VM::loaded_rel(*old(self), states[0], program@));
                assert(VM::run_rel(*self, states, ops, max_cycles as nat));
            }
        }
        Ok(())
    }
}

impl Default for VM {
    /// A fresh machine.
    fn default() -> (r: VM)
        ensures
            r.wf(),
            r.pc.value.value() == 0,
            forall|rb: int, i: int|
                0 <= rb < 2 && 0 <= i < 16 ==> r.reg_file.register_banks@[rb]@[i].value() == 0,
            forall|i: int| 0 <= i < 256 ==> r.data_memory.memory@[i].value() == 0,
            forall|i: int| 0 <= i < 1024 ==> r.instruction_memory.instructions@[i].value() == 0,
            r.call_stack.stack_top is None,
            !r.alu.flags.zero && !r.alu.flags.carry,
            r.data_memory.enabled,
            r.data_memory.state == MemoryState::Read,
            r.io_devices.character_display.active@.len() == 0,
            r.io_devices.character_display.buffer@.len() == 0,
            r.io_devices.number_display == NumberDisplay::spec_new(),
            r.io_devices.controller.value.value() == 0,
            r.io_devices.screen.current_x == 0,
            r.io_devices.screen.current_y == 0,
            forall|y: int, x: int|
                0 <= y < 32 && 0 <= x < 32 ==> !r.io_devices.screen.buffer@[y]@[x],
            forall|y: int, x: int|
                0 <= y < 32 && 0 <= x < 32 ==> !r.io_devices.screen.active@[y]@[x],
    {
        VM::new()
    }
}

} // verus!
