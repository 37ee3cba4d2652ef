use rust_vm::Bits;
use rust_vm::VmError;
use rust_vm::control_rom::CallStackState;
use rust_vm::instruction_memory::InstructionMemory;
use rust_vm::io_devices::character_display::CharacterDisplay;
use rust_vm::io_devices::number_display::DisplayState;
use rust_vm::io_devices::number_display::NumberDisplay;
use rust_vm::io_devices::rng::RNG;
use rust_vm::io_devices::screen::Screen;
use rust_vm::registers::RegisterFile;
use rust_vm::registers::call_stack::CallStack;
use rust_vm::registers::data_memory::DataMemory;
use rust_vm::registers::data_memory::MemoryState;

#[test]
fn load_instructions_overflow_panics() {
    let mut mem = InstructionMemory::default();
    let instructions = vec![Bits::<16>::from(0u16); 1025];
    let err = mem.load_instructions(instructions);
    match err {
        Err(VmError::InstructionMemoryOverflow) => {},
        _ => panic!("Expected InstructionMemoryOverflow error"),
    }
}

#[test]
fn next_rng() {
    let seed = Bits::<8>::from(0xACu8);
    let mut rng = RNG::new(seed);
    let mut i: usize = 0;
    while i < 10 {
        let next = rng.generate_next();
        assert!(next > Bits::<8>::from(0u8), "RNG output should be greater than 0");
        println!("RNG output {i}: {}", next.to_usize());
        i += 1;
    }
}

#[test]
fn number_display() {
    let mut display = NumberDisplay {
        display: Bits::<8>::from(0u8),
        state: DisplayState::default(),
        active: true,
    };

    display.on_write(Bits::<8>::from(250u8), Bits::<8>::from(42u8));
    assert_eq!(display.display, Bits::<8>::from(42u8));

    display.on_write(Bits::<8>::from(251u8), Bits::<8>::from(0u8));
    assert!(!display.active);

    display.on_write(Bits::<8>::from(252u8), Bits::<8>::from(0u8));
    assert_eq!(display.state, DisplayState::SignedMode);

    display.on_write(Bits::<8>::from(253u8), Bits::<8>::from(0u8));
    assert_eq!(display.state, DisplayState::UnsignedMode);
}

#[test]
fn character_display() {
    let mut display = CharacterDisplay::new();

    display.on_write(Bits::<8>::from(247u8), Bits::<8>::from(1u8));
    assert_eq!(display.buffer, "a");

    display.on_write(Bits::<8>::from(248u8), Bits::<8>::from(0u8));
    assert_eq!(display.active, "a");

    display.on_write(Bits::<8>::from(249u8), Bits::<8>::from(0u8));
    assert!(display.buffer.is_empty());
}

#[test]
fn number_display_signed_rendering() {
    let mut display = NumberDisplay::new();
    display.on_write(Bits::<8>::from(250u8), Bits::<8>::from(201u8));
    assert_eq!(display.get_display_val(), "201");
    display.on_write(Bits::<8>::from(252u8), Bits::<8>::from(0u8));
    assert_eq!(display.get_display_val(), "-55");
    display.on_write(Bits::<8>::from(251u8), Bits::<8>::from(0u8));
    assert_eq!(display.get_display_val(), "0");
}

#[test]
fn write_and_clock_propagates_to_both_banks() {
    let mut reg_file = RegisterFile::default();
    reg_file.enable(true);

    let data: Bits<8> = Bits::try_from_unsigned_number(7u64).unwrap();
    let address: Bits<4> = Bits::try_from_unsigned_number(1u64).unwrap();

    reg_file.schedule_write((address, data));
    reg_file.clock();

    assert_eq!(&reg_file.register_banks[0][address.to_usize()], &data);
    assert_eq!(&reg_file.register_banks[1][address.to_usize()], &data);
}

#[test]
fn update_read_reads_correct_value() {
    let mut reg_file = RegisterFile::default();
    reg_file.enable(true);

    let data: Bits<8> = Bits::try_from_unsigned_number(7u64).unwrap();
    let address: Bits<4> = Bits::try_from_unsigned_number(1u64).unwrap();

    reg_file.schedule_write((address, data));
    reg_file.clock();
    reg_file.set_read_addresses([address, Bits::<4>::from_str("0").unwrap()]);

    let read_value = reg_file.read_outputs[0];
    assert_eq!(read_value.to_string(), "00000111");
}

#[test]
fn sequential_write_and_read() {
    let mut reg_file = RegisterFile::default();
    reg_file.enable(true);

    let data: Bits<8> = Bits::try_from_unsigned_number(4u64).unwrap();
    let address: Bits<4> = Bits::try_from_unsigned_number(2u64).unwrap();

    reg_file.schedule_write((address, data));
    reg_file.clock();

    reg_file.set_read_addresses(
        [Bits::<4>::from_str("2").unwrap(), Bits::<4>::from_str("1").unwrap()],
    );

    assert_eq!(&reg_file.register_banks[0][address.to_usize()], &data);
    assert_eq!(&reg_file.read_outputs[0], &data);
}

#[test]
fn dual_read_same_value() {
    let mut reg_file = RegisterFile::default();
    reg_file.enable(true);

    let data: Bits<8> = Bits::<8>::from(4u8);
    let address: Bits<4> = Bits::try_from_unsigned_number(2u64).unwrap();

    reg_file.schedule_write((address, data));
    reg_file.clock();

    reg_file.set_read_addresses(
        [
            Bits::try_from_unsigned_number(2u64).unwrap(),
            Bits::try_from_unsigned_number(2u64).unwrap(),
        ],
    );
    assert_eq!(&reg_file.read_outputs[1], &data);
}

#[test]
fn test_disable_resets_read_values() {
    let mut reg_file = RegisterFile::default();
    reg_file.enable(true);

    reg_file.schedule_write((Bits::<8>::from(2u8).resize(), Bits::<8>::from(4u8)));
    reg_file.clock();
    reg_file.set_read_addresses([Bits::<8>::from(2u8).resize(), Bits::<8>::from(2u8).resize()]);

    reg_file.enable(false);

    assert_eq!(&reg_file.read_outputs[0], &Bits::<8>::from(0u8));
    assert_eq!(&reg_file.read_outputs[1], &Bits::<8>::from(0u8));
}

#[test]
fn test_enable_restores_read_values() {
    let mut reg_file = RegisterFile::default();
    reg_file.enable(true);

    reg_file.schedule_write((Bits::<8>::from(2u8).resize(), Bits::<8>::from(4u8)));
    reg_file.clock();
    reg_file.set_read_addresses([Bits::<8>::from(2u8).resize(), Bits::<8>::from(2u8).resize()]);
    reg_file.enable(false);

    reg_file.enable(true);

    assert_eq!(&reg_file.read_outputs[0], &Bits::<8>::from(4u8));
    assert_eq!(&reg_file.read_outputs[1], &Bits::<8>::from(4u8));
}

#[test]
fn test_zero_index_is_ignored() {
    let mut reg_file = RegisterFile::default();
    reg_file.enable(true);

    reg_file.schedule_write((Bits::<8>::from(0u8).resize(), Bits::<8>::from(123u8)));
    reg_file.clock();

    assert_eq!(reg_file.register_banks[0][0], Bits::<8>::from(0u8));
    assert_eq!(reg_file.register_banks[1][0], Bits::<8>::from(0u8));
}

#[test]
fn disable_resets_read_values() {
    let mut reg_file = RegisterFile::default();

    reg_file.schedule_write((Bits::<8>::from(2u8).resize(), Bits::<8>::from(4u8)));
    reg_file.clock();
    reg_file.set_read_addresses([Bits::<8>::from(2u8).resize(), Bits::<8>::from(2u8).resize()]);

    reg_file.enable(false);

    assert_eq!(&reg_file.read_outputs[0], &Bits::<8>::from(0u8));
    assert_eq!(&reg_file.read_outputs[1], &Bits::<8>::from(0u8));
}

#[test]
fn enable_restores_read_values() {
    let mut reg_file = RegisterFile::default();

    reg_file.schedule_write((Bits::<8>::from(2u8).resize(), Bits::<8>::from(4u8)));
    reg_file.clock();
    reg_file.set_read_addresses([Bits::<8>::from(2u8).resize(), Bits::<8>::from(2u8).resize()]);
    reg_file.enable(false);

    reg_file.enable(true);

    assert_eq!(&reg_file.read_outputs[0], &Bits::<8>::from(4u8));
    assert_eq!(&reg_file.read_outputs[1], &Bits::<8>::from(4u8));
}

#[test]
fn zero_index_is_ignored() {
    let mut reg_file = RegisterFile::default();

    reg_file.schedule_write(
        (Bits::<4>::from_str("0").unwrap(), Bits::<8>::from_str("15").unwrap()),
    );
    reg_file.clock();

    assert_eq!(reg_file.register_banks[0][0], Bits::<8>::from(0u8));
    assert_eq!(reg_file.register_banks[1][0], Bits::<8>::from(0u8));
}

#[test]
fn read_zero_address_no_update() {
    let mut reg_file = RegisterFile::default();

    reg_file.set_read_addresses(
        [Bits::<4>::from_str("0").unwrap(), Bits::<4>::from_str("0").unwrap()],
    );

    assert_eq!(reg_file.read_outputs[0], Bits::<8>::from(0u8));
    assert_eq!(reg_file.read_outputs[1], Bits::<8>::from(0u8));
}

#[test]
fn read_from_0() {
    let mut reg_file = RegisterFile::default();

    reg_file.schedule_write(
        (Bits::<4>::from_str("0").unwrap(), Bits::<8>::from_str("15").unwrap()),
    );
    reg_file.clock();

    assert_eq!(reg_file.read_outputs[0], Bits::<8>::from(0u8));
    assert_eq!(reg_file.read_outputs[0], Bits::<8>::from(0u8));
}

#[test]
fn banks_agree_after_every_clock() {
    let mut reg_file = RegisterFile::default();
    let mut i: usize = 1;
    while i < 16 {
        reg_file.schedule_write(
            (
                Bits::<4>::from_unsigned_truncated(i as u64),
                Bits::<8>::from_unsigned_truncated((i * 7) as u64),
            ),
        );
        reg_file.clock();
        let mut j: usize = 0;
        while j < 16 {
            assert_eq!(reg_file.register_banks[0][j], reg_file.register_banks[1][j]);
            j += 1;
        }
        i += 1;
    }
}

#[test]
fn call_stack_push_then_pop_returns_the_address() {
    let mut stack = CallStack::new();
    stack.state = CallStackState::Push;
    let addr = Bits::<10>::from_unsigned_truncated(273);
    stack.push(addr);
    stack.clock();
    let popped = stack.pop();
    assert_eq!(popped, Some(addr));
}

#[test]
fn call_stack_underflow_reports_none_and_keeps_entries() {
    let mut stack = CallStack::new();
    let before = stack.entries;
    assert_eq!(stack.pop(), None);
    assert_eq!(stack.entries, before);
    assert_eq!(stack.stack_top, None);
}

#[test]
fn call_stack_overflow_discards_the_oldest() {
    let mut stack = CallStack::new();
    stack.state = CallStackState::Push;
    let mut i: u64 = 1;
    while i <= 17 {
        stack.push(Bits::<10>::from_unsigned_truncated(i));
        stack.clock();
        i += 1;
    }
    // the first pushed address, 1, fell off the bottom; 17 down to 2 remain
    let mut expect: u64 = 17;
    while expect >= 2 {
        assert_eq!(stack.pop(), Some(Bits::<10>::from_unsigned_truncated(expect)));
        expect -= 1;
    }
}

#[test]
fn data_memory_gates_reads_and_writes_by_state() {
    let mut mem = DataMemory::default();
    let addr = Bits::<8>::from(17u8);
    let value = Bits::<8>::from(99u8);
    // in read mode a write is dropped
    mem.set_state(MemoryState::Read);
    mem.schedule_write((addr, value));
    mem.clock();
    assert_eq!(mem.read(addr), Bits::<8>::from(0u8));
    // in write mode it lands, and reads come back in read mode
    mem.set_state(MemoryState::Write);
    mem.schedule_write((addr, value));
    mem.clock();
    mem.set_state(MemoryState::Read);
    assert_eq!(mem.read(addr), value);
    // a disabled memory reads zero
    mem.enable(false);
    assert_eq!(mem.read(addr), Bits::<8>::from(0u8));
}

#[test]
fn screen_draws_into_the_buffer_and_publishes() {
    let mut screen = Screen::new();
    screen.on_write(Bits::<8>::from(240u8), Bits::<8>::from(5u8));
    screen.on_write(Bits::<8>::from(241u8), Bits::<8>::from(7u8));
    screen.on_write(Bits::<8>::from(242u8), Bits::<8>::from(0u8));
    assert!(screen.buffer[7][5]);
    assert!(!screen.active[7][5]);
    assert_eq!(screen.on_read(Bits::<8>::from(244u8)), Bits::<8>::from(0u8));
    screen.on_write(Bits::<8>::from(245u8), Bits::<8>::from(0u8));
    assert!(screen.active[7][5]);
    assert_eq!(screen.on_read(Bits::<8>::from(244u8)), Bits::<8>::from(1u8));
}

#[test]
fn overlong_program_leaves_instruction_memory_untouched() {
    let mut mem = InstructionMemory::default();
    let instructions = vec![Bits::<16>::from(0xFFFFu16); 1025];
    let err = mem.load_instructions(instructions);
    assert!(matches!(err, Err(VmError::InstructionMemoryOverflow)));
    let mut i: usize = 0;
    while i < 1024 {
        assert_eq!(mem.instructions[i].to_usize(), 0);
        i += 1;
    }
}
