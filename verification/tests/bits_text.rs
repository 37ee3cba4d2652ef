use rust_vm::Bits;
use rust_vm::BitsParseError;
use rust_vm::VmError;

#[test]
fn display_outputs_big_endian_string() {
    let bits = Bits { bit_array: [false, false, false, true] };
    let display = bits.to_string();
    assert_eq!(display, "1000");
}

#[test]
fn display_and_parse_roundtrip() {
    let original = Bits::<4>::from_str("1010").unwrap();
    let rendered = original.to_string();
    let reparsed = Bits::<4>::from_str(&rendered).unwrap();
    assert_eq!(original, reparsed);
}

#[test]
fn bits_parse_error_display() {
    let error = BitsParseError::Length { expected: 4, found: 5, string: String::from("10101") };
    assert_eq!(error.message(), "Invalid length: expected 4, found 5 (input: 10101)");

    let error = BitsParseError::Character { character: 'x' };
    assert_eq!(error.message(), "Invalid character: 'x'");

    let error = BitsParseError::Number { num: String::from("invalid") };
    assert_eq!(error.message(), "Invalid number: invalid digit found in string (input: invalid)");

    let error = BitsParseError::OutOfBounds { value: 16, max: 15 };
    assert_eq!(error.message(), "Value 16 is out of bounds (max: 15)");
}

#[test]
fn parse_invalid_binary_string() {
    let out = Bits::<8>::from_str("10a01001").unwrap_err();
    assert_eq!(out, VmError::Bits(BitsParseError::Character { character: 'a' }));
}

#[test]
fn parse_too_long_string() {
    let out = Bits::<8>::from_str("101010101");
    assert_eq!(
        out,
        Err(
            VmError::Bits(
                BitsParseError::Length {
                    expected: 8,
                    found: 9,
                    string: "101010101".to_string(),
                },
            ),
        )
    );
}

#[test]
fn parse_too_large_number() {
    let out = Bits::<8>::from_str("256");
    assert_eq!(out, Err(VmError::Bits(BitsParseError::OutOfBounds { value: 256, max: 255 })));
}

#[test]
fn parse_empty_string_is_a_number_error() {
    let out = Bits::<8>::from_str("");
    assert!(matches!(out, Err(VmError::Bits(BitsParseError::Number { .. }))));
}

#[test]
fn roundtrip_holds_at_every_width_up_to_sixteen() {
    let one_bit = Bits::<1>::from([true]);
    assert_eq!(Bits::<1>::from_str(&one_bit.to_string()).unwrap(), one_bit);
    let two = Bits::<2>::from_unsigned_truncated(2);
    assert_eq!(Bits::<2>::from_str(&two.to_string()).unwrap(), two);
    let four = Bits::<4>::from_unsigned_truncated(11);
    assert_eq!(Bits::<4>::from_str(&four.to_string()).unwrap(), four);
    let five = Bits::<5>::from_unsigned_truncated(19);
    assert_eq!(Bits::<5>::from_str(&five.to_string()).unwrap(), five);
    let eight = Bits::<8>::from_unsigned_truncated(173);
    assert_eq!(Bits::<8>::from_str(&eight.to_string()).unwrap(), eight);
    let ten = Bits::<10>::from_unsigned_truncated(777);
    assert_eq!(Bits::<10>::from_str(&ten.to_string()).unwrap(), ten);
    let sixteen = Bits::<16>::from_unsigned_truncated(54321);
    assert_eq!(Bits::<16>::from_str(&sixteen.to_string()).unwrap(), sixteen);
}

#[test]
fn roundtrip_holds_for_every_byte() {
    let mut v: usize = 0;
    while v < 256 {
        let b = Bits::<8>::from(v as u8);
        let again = Bits::<8>::from_str(&b.to_string()).unwrap();
        assert_eq!(again, b);
        assert_eq!(again.to_usize(), v);
        v += 1;
    }
}

#[test]
fn vm_error_messages() {
    let e = VmError::Parser(rust_vm::ParserError::InvalidInstruction("FOO".to_string()));
    assert_eq!(e.message(), "Parser error: Invalid instruction: FOO");
    let e = VmError::InstructionMemoryOverflow;
    assert!(e.message().contains("Instruction memory overflow"));
}
