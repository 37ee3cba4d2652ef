use rust_vm::BitsParseError;
use rust_vm::ParserError;
use rust_vm::VmError;
use rust_vm::parser::parse_as_instruction;
use rust_vm::parser::parse_program;
use rust_vm::parser::utils::parse_cond;
use rust_vm::parser::utils::parse_instruction;
use rust_vm::parser::utils::parse_register_string;

#[test]
fn parse_instruction_valid() {
    assert_eq!(parse_instruction("ADD").unwrap().to_string(), "0010");
    assert_eq!(parse_instruction("SUB").unwrap().to_string(), "0011");
    assert_eq!(parse_instruction("NOR").unwrap().to_string(), "0100");
    assert_eq!(parse_instruction("AND").unwrap().to_string(), "0101");
    assert_eq!(parse_instruction("XOR").unwrap().to_string(), "0110");
    assert_eq!(parse_instruction("RSH").unwrap().to_string(), "0111");
}

#[test]
fn parse_instruction_invalid() {
    let result = parse_instruction("FOO");
    assert!(result.is_err());
    let err = result.unwrap_err().message();
    assert!(err.contains("Invalid instruction"));
}

#[test]
fn test_parse_register_string_invalid_prefix() {
    let result = parse_register_string("x1");
    match result {
        Err(VmError::Parser(ParserError::InvalidInstruction(_))) => {},
        _ => panic!("Expected InvalidInstruction error"),
    }
}

#[test]
fn test_parse_register_string_too_short() {
    let result = parse_register_string("r");
    match result {
        Err(VmError::Parser(ParserError::InvalidInstruction(_))) => {},
        _ => panic!("Expected InvalidInstruction error"),
    }
}

#[test]
fn parse_register_string_value_too_large() {
    let result = parse_register_string("r16");
    match result {
        Err(VmError::Bits(BitsParseError::OutOfBounds { value: 16, max: 15 })) => {},
        _ => panic!("Expected OutOfBounds error"),
    }
}

#[test]
fn parse_register_string_negative_value() {
    let result = parse_register_string("r-1");
    match result {
        Err(VmError::Parser(ParserError::InvalidInstruction(s))) => {
            assert_eq!(s, "r-1");
        },
        _ => panic!("Expected InvalidInstruction error"),
    }
}

#[test]
fn parse_register_string_non_numeric_value() {
    let result = parse_register_string("rX");
    match result {
        Err(VmError::Bits(BitsParseError::Number { .. })) => {},
        _ => panic!("Expected Number error"),
    }
}

#[test]
fn parse_conditions_cover_the_four_codes() {
    assert_eq!(parse_cond("=").unwrap().to_usize(), 0);
    assert_eq!(parse_cond("zero").unwrap().to_usize(), 0);
    assert_eq!(parse_cond("!=").unwrap().to_usize(), 1);
    assert_eq!(parse_cond("NZ").unwrap().to_usize(), 1);
    assert_eq!(parse_cond(">=").unwrap().to_usize(), 2);
    assert_eq!(parse_cond("carry").unwrap().to_usize(), 2);
    assert_eq!(parse_cond("<").unwrap().to_usize(), 3);
    assert_eq!(parse_cond("notcarry").unwrap().to_usize(), 3);
    assert!(parse_cond("sometimes").is_err());
}

#[test]
fn parse_program_nop_with_extra_operands() {
    let result = parse_program("NOP r1");
    match result {
        Err(VmError::Parser(ParserError::MissingOperand(_))) => {},
        _ => panic!("Expected MissingOperand error"),
    }
}

#[test]
fn parse_program_missing_operand() {
    let result = parse_program("ADD r1");
    match result {
        Err(VmError::Parser(ParserError::MissingOperand(_))) => {},
        _ => panic!("Expected MissingOperand error"),
    }
}

#[test]
fn parse_program_missing_write_operand() {
    let result = parse_program("ADD r1 r2");
    match result {
        Err(VmError::Parser(ParserError::MissingOperand(_))) => {},
        _ => panic!("Expected MissingOperand error"),
    }
}

#[test]
fn parse_program_too_many_operands() {
    let result = parse_program("ADD r1 r2 r3 r4");
    match result {
        Err(VmError::Parser(ParserError::TooManyOperands(_))) => {},
        _ => panic!("Expected TooManyOperands error"),
    }
}

#[test]
fn parse_program_rsh_missing_operand() {
    let result = parse_program("RSH r1");
    match result {
        Err(VmError::Parser(ParserError::MissingOperand(_))) => {},
        _ => panic!("Expected MissingOperand error"),
    }
}

#[test]
fn parse_program_rsh_three_operands() {
    let result = parse_program("RSH r1 r2 r3");
    match result {
        Err(VmError::Parser(ParserError::TooManyOperands(_))) => {},
        _ => panic!("Expected TooManyOperands error"),
    }
}

#[test]
fn ldi_missing_value_operand() {
    let result = parse_program("LDI r1");
    match result {
        Err(VmError::Parser(ParserError::MissingOperand(_))) => {},
        _ => panic!("Expected MissingOperand error"),
    }
}

#[test]
fn ldi_only_instruction() {
    let result = parse_program("LDI");
    match result {
        Err(VmError::Parser(ParserError::MissingOperand(_))) => {},
        _ => panic!("Expected MissingOperand error"),
    }
}

#[test]
fn ldi_invalid_value_operand() {
    let result = parse_program("LDI r1 na");
    match result {
        Err(VmError::Bits(BitsParseError::Number { .. })) => {},
        _ => panic!("Expected Number error"),
    }
}

#[test]
fn ldi_value_too_large() {
    let result = parse_program("LDI r1 300");
    match result {
        Err(VmError::Bits(BitsParseError::OutOfBounds { value: 300, max: 255 })) => {},
        _ => panic!("Expected OutOfBounds error"),
    }
}

#[test]
fn ldi_register_parse_fail() {
    let result = parse_program("LDI r16 8");
    match result {
        Err(VmError::Bits(BitsParseError::OutOfBounds { value: 16, max: 15 })) => {},
        _ => panic!("Expected OutOfBounds error"),
    }
}

#[test]
fn rsh_invalid_first_operand() {
    let result = parse_program("RSH rX r1");
    match result {
        Err(VmError::Bits(BitsParseError::Number { .. })) => {},
        _ => panic!("Expected Number error"),
    }
}

#[test]
fn unknown_operand() {
    let result = parse_program("FOO r1 r2 r3");
    match result {
        Err(VmError::Parser(ParserError::InvalidInstruction(s))) => {
            assert_eq!(s, "FOO");
        },
        _ => panic!("Expected InvalidInstruction error"),
    }
}

#[test]
fn parse_program_with_empty_lines_and_short_lines() {
    let program = "ADD r1 r2 r3\n   \n\nRSH r1 r2";
    let words = parse_program(program).unwrap();
    assert_eq!(words.len(), 2);
    let bad = parse_program("ADD r1 r2 r3\nAND r1");
    match bad {
        Err(VmError::Parser(ParserError::MissingOperand(_))) => {},
        _ => panic!("Missing operand"),
    }
}

#[test]
fn parse_program_emits_the_word_format() {
    let words = parse_program("ADD r1 r2 r3").unwrap();
    assert_eq!(words.len(), 1);
    assert_eq!(words[0].to_string(), "0010000100100011");
    let words = parse_program("LDI r1 42").unwrap();
    assert_eq!(words[0].to_string(), "1000000100101010");
    let words = parse_program("JMP 5").unwrap();
    assert_eq!(words[0].to_string(), "1010000000000101");
    let words = parse_program("BRH nz 3").unwrap();
    assert_eq!(words[0].to_string(), "1011010000000011");
}

#[test]
fn parse_program_resolves_labels_and_defines() {
    let source = "define answer 42\nLDI r1 answer\n.loop\nINC r1\nJMP .loop";
    let words = parse_program(source).unwrap();
    assert_eq!(words.len(), 3);
    // the label points at the INC line, which is instruction 1
    assert_eq!(words[2].to_string(), "1010000000000001");
    assert_eq!(words[0].to_string(), "1000000100101010");
}

#[test]
fn parse_as_instruction_ignores_spacing() {
    let word = parse_as_instruction("0010 0001 0010 0011").unwrap();
    assert_eq!(word.to_string(), "0010000100100011");
}

#[test]
fn parse_program_reads_quoted_characters_and_ports() {
    let words = parse_program("LDI r1 'h'\nLDI r2 write_char").unwrap();
    assert_eq!(words[0].to_string(), "1000000100001000");
    assert_eq!(words[1].to_string(), "1000001011110111");
}

#[test]
fn define_with_trailing_comment_is_accepted() {
    let words = parse_program("define answer 42 // meaning\nLDI r1 answer").unwrap();
    assert_eq!(words.len(), 1);
    assert_eq!(words[0].to_string(), "1000000100101010");
}

#[test]
fn unknown_mnemonic_is_reported_uppercased() {
    let result = parse_program("foo r1 r2 r3");
    match result {
        Err(VmError::Parser(ParserError::InvalidInstruction(s))) => {
            assert_eq!(s, "FOO");
        },
        _ => panic!("Expected InvalidInstruction error"),
    }
}
