use rust_vm::Bits;
use rust_vm::alu::AluSettings;
use rust_vm::control_rom::AddrMux;
use rust_vm::control_rom::CallStackState;
use rust_vm::control_rom::ControlRom;
use rust_vm::control_rom::ControlSignals;
use rust_vm::control_rom::DataMux;
use rust_vm::control_rom::MemoryAccess;

#[test]
fn control_rom_add() {
    let set = ControlRom {}.get_control_signals(Bits::<8>::from(2u8).resize());
    assert_eq!(
        set,
        ControlSignals {
            alu_settings: AluSettings::Add,
            reg_file_enable: true,
            set_flags: true,
            ..Default::default()
        }
    );
}

#[test]
fn control_rom_sub() {
    let set = ControlRom {}.get_control_signals(Bits::<8>::from(3u8).resize());
    assert_eq!(
        set,
        ControlSignals {
            alu_settings: AluSettings::Sub,
            reg_file_enable: true,
            set_flags: true,
            ..Default::default()
        }
    );
}

#[test]
fn control_rom_and() {
    let set = ControlRom {}.get_control_signals(Bits::<8>::from(5u8).resize());
    assert_eq!(
        set,
        ControlSignals {
            alu_settings: AluSettings::And,
            reg_file_enable: true,
            set_flags: true,
            ..Default::default()
        }
    );
}

#[test]
fn control_rom_nor() {
    let set = ControlRom {}.get_control_signals(Bits::<8>::from(4u8).resize());
    assert_eq!(
        set,
        ControlSignals {
            alu_settings: AluSettings::Nor,
            reg_file_enable: true,
            set_flags: true,
            ..Default::default()
        }
    );
}

#[test]
fn control_rom_xor() {
    let set = ControlRom {}.get_control_signals(Bits::<8>::from(6u8).resize());
    assert_eq!(
        set,
        ControlSignals {
            alu_settings: AluSettings::Xor,
            reg_file_enable: true,
            set_flags: true,
            ..Default::default()
        }
    );
}

#[test]
fn control_rom_rshift() {
    let set = ControlRom {}.get_control_signals(Bits::<8>::from(7u8).resize());
    assert_eq!(
        set,
        ControlSignals {
            alu_settings: AluSettings::Rshift,
            reg_file_enable: true,
            set_flags: true,
            ..Default::default()
        }
    );
}

#[test]
fn tests_add() {
    let set = ControlRom {}.get_control_signals(Bits::<8>::from(2u8).resize());
    assert_eq!(
        set,
        ControlSignals {
            alu_settings: AluSettings::Add,
            reg_file_enable: true,
            set_flags: true,
            ..Default::default()
        }
    );
}

#[test]
fn tests_sub() {
    let set = ControlRom {}.get_control_signals(Bits::<8>::from(3u8).resize());
    assert_eq!(
        set,
        ControlSignals {
            alu_settings: AluSettings::Sub,
            reg_file_enable: true,
            set_flags: true,
            ..Default::default()
        }
    );
}

#[test]
fn tests_nor() {
    let set = ControlRom {}.get_control_signals(Bits::<8>::from(4u8).resize());
    assert_eq!(
        set,
        ControlSignals {
            alu_settings: AluSettings::Nor,
            reg_file_enable: true,
            set_flags: true,
            ..Default::default()
        }
    );
}

#[test]
fn tests_and() {
    let set = ControlRom {}.get_control_signals(Bits::<8>::from(5u8).resize());
    assert_eq!(
        set,
        ControlSignals {
            alu_settings: AluSettings::And,
            reg_file_enable: true,
            set_flags: true,
            ..Default::default()
        }
    );
}

#[test]
fn tests_xor() {
    let set = ControlRom {}.get_control_signals(Bits::<8>::from(6u8).resize());
    assert_eq!(
        set,
        ControlSignals {
            alu_settings: AluSettings::Xor,
            reg_file_enable: true,
            set_flags: true,
            ..Default::default()
        }
    );
}

#[test]
fn tests_rshift() {
    let set = ControlRom {}.get_control_signals(Bits::<8>::from(7u8).resize());
    assert_eq!(
        set,
        ControlSignals {
            alu_settings: AluSettings::Rshift,
            reg_file_enable: true,
            set_flags: true,
            ..Default::default()
        }
    );
}

#[test]
fn decoding_covers_all_sixteen_opcodes() {
    let rom = ControlRom {};
    let nop = rom.get_control_signals(Bits::<8>::from(0u8).resize());
    assert_eq!(nop, ControlSignals::default());
    let hlt = rom.get_control_signals(Bits::<8>::from(1u8).resize());
    assert_eq!(hlt, ControlSignals::default());
    let ldi = rom.get_control_signals(Bits::<8>::from(8u8).resize());
    assert_eq!(ldi.data_mux, DataMux::Immediate);
    assert!(ldi.reg_file_enable);
    let jmp = rom.get_control_signals(Bits::<8>::from(10u8).resize());
    assert_eq!(jmp.addr_mux, AddrMux::Jump);
    let brh = rom.get_control_signals(Bits::<8>::from(11u8).resize());
    assert!(brh.is_branch);
    let cal = rom.get_control_signals(Bits::<8>::from(12u8).resize());
    assert_eq!(cal.call_stack_state, CallStackState::Push);
    assert_eq!(cal.addr_mux, AddrMux::Jump);
    let ret = rom.get_control_signals(Bits::<8>::from(13u8).resize());
    assert_eq!(ret.call_stack_state, CallStackState::Pop);
    assert_eq!(ret.addr_mux, AddrMux::Return);
    let lod = rom.get_control_signals(Bits::<8>::from(14u8).resize());
    assert_eq!(lod.memory_access, MemoryAccess::Read);
    assert_eq!(lod.data_mux, DataMux::Memory);
    let str_signals = rom.get_control_signals(Bits::<8>::from(15u8).resize());
    assert_eq!(str_signals.memory_access, MemoryAccess::Write);
}
