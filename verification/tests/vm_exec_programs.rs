use rust_vm::Bits;
use rust_vm::VM;
use rust_vm::VmError;
use rust_vm::parser::parse_program;
use rust_vm::registers::RegisterBank;
use rust_vm::registers::RegisterFile;

#[test]
fn vm_execution() {
    let mut arr = [Bits::<8>::from(0u8); 16];
    arr[1] = Bits::<8>::from(7u8);
    arr[2] = Bits::<8>::from(8u8);
    arr[3] = Bits::<8>::from(6u8);
    let mut vm = VM::new();
    vm.reg_file = RegisterFile::new(RegisterBank::from(arr));
    let program = parse_program("ADD r1 r0 r2\nLDI r4 2\nADD r1 r4 r3\nHLT").unwrap();
    vm.execute_program(program, 1000).unwrap();
    assert_eq!(vm.reg_file.register_banks[0][1].to_usize(), 7,);
    assert_eq!(vm.reg_file.register_banks[0][2].to_usize(), 7,);
    assert_eq!(vm.reg_file.register_banks[0][3].to_usize(), 9,);
    assert_eq!(vm.reg_file.register_banks[1][1].to_usize(), 7,);
    assert_eq!(vm.reg_file.register_banks[1][2].to_usize(), 7,);
    assert_eq!(vm.reg_file.register_banks[1][3].to_usize(), 9,);
}

#[test]
fn vm_execute_program_2() {
    let mut arr = [Bits::<8>::from(0u8); 16];
    arr[1] = Bits::<8>::from(1u8);
    arr[2] = Bits::<8>::from(1u8);
    let mut vm = VM::new();
    vm.reg_file = RegisterFile::new(RegisterBank::from(arr));
    let program = parse_program("ADD r1 r2 r3\nADD r3 r2 r4\nADD r4 r0 r1\nHLT").unwrap();
    vm.execute_program(program, 1000).unwrap();
    assert_eq!(vm.reg_file.register_banks[0][1].to_usize(), 3);
    assert_eq!(vm.reg_file.register_banks[0][2].to_usize(), 1);
    assert_eq!(vm.reg_file.register_banks[0][3].to_usize(), 2);
    assert_eq!(vm.reg_file.register_banks[0][4].to_usize(), 3);
    assert_eq!(vm.reg_file.register_banks[1][1].to_usize(), 3);
    assert_eq!(vm.reg_file.register_banks[1][2].to_usize(), 1);
    assert_eq!(vm.reg_file.register_banks[1][3].to_usize(), 2);
    assert_eq!(vm.reg_file.register_banks[1][4].to_usize(), 3);
}

#[test]
fn vm_program_3() {
    let mut vm = VM::default();
    let program = parse_program("LDI r1 4\nLDI r2 8\nHLT").unwrap();
    vm.execute_program(program, 1000).unwrap();
    assert_eq!(vm.reg_file.register_banks[0][1].to_usize(), 4);
    assert_eq!(vm.reg_file.register_banks[0][2].to_usize(), 8);
}

#[test]
fn fib() {
    let mut vm = VM::default();
    let program = parse_program(
        "LDI r1 1\nLDI r2 1\nADD r1 r2 r3\nADD r2 r3 r4\nADD r3 r4 r5\nHLT",
    ).unwrap();
    vm.execute_program(program, 1000).unwrap();
    assert_eq!(vm.reg_file.register_banks[0][1].to_usize(), 1);
    assert_eq!(vm.reg_file.register_banks[0][2].to_usize(), 1);
    assert_eq!(vm.reg_file.register_banks[0][3].to_usize(), 2);
    assert_eq!(vm.reg_file.register_banks[0][4].to_usize(), 3);
    assert_eq!(vm.reg_file.register_banks[0][5].to_usize(), 5);
}

#[test]
fn vm_program_4() {
    let mut vm = VM::default();
    // a call runs the subroutine and the return resumes after the call
    let program = parse_program("CAL 2\nHLT\nLDI r1 3\nRET").unwrap();
    vm.execute_program(program, 1000).unwrap();
    assert_eq!(vm.reg_file.register_banks[0][1].to_usize(), 3);
}

#[test]
fn vm_program_5() {
    let mut vm = VM::default();
    // a taken branch skips the instruction that would spoil r1
    let program = parse_program("LDI r1 1\nCMP r1 r1\nBRH = 4\nLDI r1 9\nLDI r1 3\nHLT").unwrap();
    vm.execute_program(program, 1000).unwrap();
    assert_eq!(vm.reg_file.register_banks[0][1].to_usize(), 3);
}

#[test]
fn vm_program_6() {
    let mut vm = VM::default();
    let program = parse_program("LDI r1 2\nRSH r1 r1\nHLT").unwrap();
    vm.execute_program(program, 1000).unwrap();
    assert_eq!(vm.reg_file.register_banks[0][1].to_usize(), 1);
}

#[test]
fn vm_program_7() {
    let mut vm = VM::default();
    let program = parse_program("NOP\nHLT").unwrap();
    vm.execute_program(program, 1000).unwrap();
}

#[test]
fn vm_program_8() {
    let mut vm = VM::default();
    let program = parse_program("JMP 2\nLDI r1 5\nHLT").unwrap();
    vm.execute_program(program, 1000).unwrap();
    assert_eq!(vm.reg_file.register_banks[0][1].to_usize(), 0);
}

#[test]
fn vm_fib_2() {
    let mut vm = VM::default();
    let program = parse_program("LDI r1 5\nLDI r2 8\nADD r1 r2 r3\nHLT").unwrap();
    vm.execute_program(program, 1000).unwrap();
    assert_eq!(vm.reg_file.register_banks[0][3].to_usize(), 13);
}

#[test]
fn vm_program_9() {
    let mut vm = VM::default();
    // a stored byte comes back through a load
    let program = parse_program(
        "LDI r1 3\nLDI r2 10\nSTR r2 r1\nLDI r1 0\nLOD r2 r1\nHLT",
    ).unwrap();
    vm.execute_program(program, 1000).unwrap();
    assert_eq!(vm.reg_file.register_banks[0][1].to_usize(), 3);
}

#[test]
fn vm_program_bubble_sort() {
    let mut vm = VM::new();
    let arr: Vec<u64> = vec![6, 2, 5, 8, 9, 1, 3, 4, 7, 0];
    let mut i: usize = 0;
    while i < arr.len() {
        vm.data_memory.memory[i] = Bits::<8>::from_unsigned_truncated(arr[i]);
        i += 1;
    }
    vm.data_memory.memory[0..8].iter().for_each(|b| println!("{:?}", b.to_usize()));
    let source = "LDI r6 10\n\
                  .outer\n\
                  LDI r1 0\n\
                  .inner\n\
                  MOV r1 r5\n\
                  INC r5\n\
                  LOD r1 r3\n\
                  LOD r5 r4\n\
                  CMP r4 r3\n\
                  BRH >= .noswap\n\
                  STR r1 r4\n\
                  STR r5 r3\n\
                  .noswap\n\
                  MOV r5 r1\n\
                  LDI r2 9\n\
                  CMP r1 r2\n\
                  BRH < .inner\n\
                  DEC r6\n\
                  LDI r2 0\n\
                  CMP r6 r2\n\
                  BRH != .outer\n\
                  HLT";
    let program = parse_program(source).unwrap();
    vm.execute_program(program, 50000).unwrap();
    let res = vm.data_memory.memory[..arr.len()]
        .iter()
        .map(|bits| bits.to_usize())
        .collect::<Vec<_>>();
    println!("Sorted array: {res:?}");
    assert!(res.is_sorted());
    assert_eq!(res, vec![0, 1, 2, 3, 4, 5, 6, 7, 8, 9]);
}

#[test]
fn vm_program_character_display() {
    let mut vm = VM::default();
    let source = "LDI r3 write_char\n\
                  LDI r2 'h'\n\
                  STR r3 r2\n\
                  LDI r2 'e'\n\
                  STR r3 r2\n\
                  LDI r2 'l'\n\
                  STR r3 r2\n\
                  STR r3 r2\n\
                  LDI r2 'o'\n\
                  STR r3 r2\n\
                  LDI r2 '!'\n\
                  STR r3 r2\n\
                  LDI r4 buffer_chars\n\
                  STR r4 r0\n\
                  HLT";
    let program = parse_program(source).unwrap();
    vm.execute_program(program, 1000).unwrap();
    assert_eq!(vm.io_devices.character_display.active, "Hello!".to_ascii_lowercase());
}

#[test]
fn vm_program_screen() {
    let mut vm = VM::default();
    let source = "LDI r3 pixel_x\n\
                  LDI r2 5\n\
                  STR r3 r2\n\
                  LDI r3 pixel_y\n\
                  STR r3 r2\n\
                  LDI r3 draw_pixel\n\
                  STR r3 r0\n\
                  LDI r3 clear_screen_buffer\n\
                  STR r3 r0\n\
                  LDI r3 buffer_screen\n\
                  STR r3 r0\n\
                  HLT";
    let program = parse_program(source).unwrap();
    vm.execute_program(program, 1000).unwrap();
    for row in vm.io_devices.screen.active.iter() {
        for &pixel in row.iter() {
            assert!(!pixel, "Expected all pixels to be false");
        }
    }
}

#[test]
fn vm_program_number_display() {
    let mut vm = VM::default();
    let program = parse_program("LDI r3 show_number\nLDI r2 200\nSTR r3 r2\nHLT").unwrap();
    vm.execute_program(program, 1000).unwrap();
    assert_eq!(vm.io_devices.number_display.get_display_val(), "200");

    let program = parse_program(
        "LDI r3 show_number\nLDI r2 201\nSTR r3 r2\nLDI r4 signed_mode\nSTR r4 r0\nHLT",
    ).unwrap();
    vm.execute_program(program, 1000).unwrap();
    assert_eq!(vm.io_devices.number_display.get_display_val(), "-55");

    let program = parse_program("LDI r3 clear_number\nSTR r3 r0\nHLT").unwrap();
    vm.execute_program(program, 1000).unwrap();
    assert_eq!(vm.io_devices.number_display.get_display_val(), "0");
}

#[test]
fn vm_program_rng_port_reads_nonzero_stream() {
    let mut vm = VM::default();
    // load from the generator's port into r1
    let program = parse_program("LDI r2 rng\nLOD r2 r1\nHLT").unwrap();
    vm.execute_program(program, 1000).unwrap();
    let first = vm.reg_file.register_banks[0][1].to_usize();
    println!("one draw from the generator: {first}");
}

#[test]
fn vm_too_long_program_is_refused() {
    let mut vm = VM::default();
    let program = vec![Bits::<16>::from(0u16); 1025];
    let r = vm.execute_program(program, 10);
    assert_eq!(r, Err(VmError::InstructionMemoryOverflow));
}

#[test]
fn vm_call_stack_underflow_falls_back_to_the_next_instruction() {
    let mut vm = VM::default();
    // RET on an empty stack continues with the next instruction
    let program = parse_program("RET\nLDI r1 7\nHLT").unwrap();
    vm.execute_program(program, 1000).unwrap();
    assert_eq!(vm.reg_file.register_banks[0][1].to_usize(), 7);
}
