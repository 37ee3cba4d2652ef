use rust_vm::Bits;
use rust_vm::BitsParseError;
use rust_vm::VmError;

#[test]
fn test_to_usize() {
    let a = Bits::<16>::from(164u16);
    let b = 164usize;
    assert_eq!(a.to_usize(), b);
}

#[test]
fn test_u8_conversion() {
    let bits = Bits::<8>::from(0b1010_1010u8);
    assert_eq!(bits.bit_array, [false, true, false, true, false, true, false, true]);
    let back = bits.to_usize() as u8;
    assert_eq!(back, 0b1010_1010);
}

#[test]
fn test_u16_conversion() {
    let bits = Bits::<16>::from(0b1100_1010_0101_1010u16);
    assert_eq!(bits.bit_array[0], false);
    assert_eq!(bits.bit_array[1], true);
    assert_eq!(bits.bit_array[15], true);
}

#[test]
fn test_signed_conversion() {
    let bits = Bits::<8>::from(-5i8);
    let back = bits.to_signed();
    assert_eq!(back, -5);
}

#[test]
fn test_array_conversion() {
    let arr = [true, false, true, false];
    let bits = Bits::<4>::from(arr);
    assert_eq!(bits.bit_array, arr);
}

#[test]
fn test_parse_binary_string_big_endian() {
    let bits = Bits::<4>::from_str("1100").unwrap();
    let expected = Bits { bit_array: [false, false, true, true] };
    assert_eq!(bits, expected);
}

#[test]
fn test_parse_decimal_string_little_endian() {
    let bits = Bits::<4>::from_str("9").unwrap();
    let expected = Bits { bit_array: [true, false, false, true] };
    assert_eq!(bits, expected);
}

#[test]
fn test_from_str_decimal_vs_binary_equivalence() {
    let from_binary = Bits::<4>::from_str("0101").unwrap();
    let from_decimal = Bits::<4>::from_str("5").unwrap();
    assert_eq!(from_binary, from_decimal);
}

#[test]
fn test_try_from_unsigned() {
    let bits: Bits<8> = Bits::try_from_unsigned_number(255u64).unwrap();
    assert_eq!(bits.bit_array, [true, true, true, true, true, true, true, true]);
    let bits: Bits<4> = Bits::try_from_unsigned_number(15u64).unwrap();
    assert_eq!(bits.bit_array, [true, true, true, true]);
    let out_of_bounds = Bits::<4>::try_from_unsigned_number(16u64);
    assert_eq!(out_of_bounds, Err(BitsParseError::OutOfBounds { value: 16, max: (1 << 4) - 1 }));
}

#[test]
fn test_from_ref_bits() {
    let bits = Bits::<8>::from(0b10101010u8);
    let ref_bits: &Bits<8> = &bits;
    assert_eq!(ref_bits.to_string(), "10101010");
    assert_eq!(ref_bits.to_usize(), 0b10101010);
    assert_eq!(ref_bits.to_string(), "10101010");
    assert_eq!(ref_bits.to_string(), bits.to_string());
}

#[test]
fn test_from_bool_slice() {
    let bools: [bool; 4] = [true, false, true, false];
    let bits: Bits<4> = Bits::from(bools);
    assert_eq!(bits.bit_array, bools);
    let slice: &[bool] = &bits.bit_array;
    assert_eq!(slice, &bools);
}

#[test]
fn test_bool_slice_from_bits() {
    let bits: Bits<4> = Bits::<8>::from(10u8).resize();
    let bools: [bool; 4] = bits.bit_array;
    let expected: [bool; 4] = [false, true, false, true];
    assert_eq!(bools, expected);
    let bits_from_slice: Bits<4> = Bits::from(bools);
    assert_eq!(bits_from_slice, bits);
}

#[test]
fn from_array() {
    let arr = [true, false, true, false, true, false, true, false];
    let bits = Bits::<8>::from(arr);
    assert_eq!(bits.bit_array, arr);
}

#[test]
fn into_array() {
    let bits = Bits::<8>::from(0b1010_1010u8);
    let arr: [bool; 8] = bits.bit_array;
    assert_eq!(arr, [false, true, false, true, false, true, false, true]);
}

#[test]
fn bits_from_binary() {
    let b_str = "0b11";
    let b: Bits<8> = Bits::<8>::from_str(b_str).unwrap();
    assert_eq!(b.to_string(), "00000011");
}

#[test]
fn i8_conversion() {
    let bits = Bits::<8>::from(-42i8);
    assert_eq!(bits.bit_array, [false, true, true, false, true, false, true, true]);
    let back = bits.to_signed();
    assert_eq!(back, -42);
}

#[test]
fn i16_conversion() {
    let bits = Bits::<16>::from(-12345i16);
    let back = bits.to_signed();
    assert_eq!(back, -12345);
}

#[test]
fn from_bool_slice() {
    let bools: [bool; 4] = [true, false, true, false];
    let bits: Bits<4> = Bits::from(bools);
    assert_eq!(bits.bit_array, bools);
    let slice: &[bool] = &bits.bit_array;
    assert_eq!(slice, &bools);
}

#[test]
fn bool_slice_from_bits() {
    let bits: Bits<4> = Bits::<8>::from(10u8).resize();
    let bools: [bool; 4] = bits.bit_array;
    let expected: [bool; 4] = [false, true, false, true];
    assert_eq!(bools, expected);
    let bits_from_slice: Bits<4> = Bits::from(bools);
    assert_eq!(bits_from_slice, bits);
}

#[test]
fn from_str() {
    let bits = Bits::<8>::from_str("10101010").unwrap();
    assert_eq!(bits.bit_array, [false, true, false, true, false, true, false, true]);
}

#[test]
fn to_string() {
    let bits = Bits::<8>::from(0b1010_1010u8);
    assert_eq!(bits.to_string(), "10101010");
}

#[test]
fn parse_binary_string_big_endian() {
    let bits = Bits::<4>::from_str("1100").unwrap();
    let expected = Bits { bit_array: [false, false, true, true] };
    assert_eq!(bits, expected);
}

#[test]
fn parse_decimal_string_little_endian() {
    let bits = Bits::<4>::from_str("9").unwrap();
    let expected = Bits { bit_array: [true, false, false, true] };
    assert_eq!(bits, expected);
}

#[test]
fn from_str_decimal_vs_binary_equivalence() {
    let from_binary = Bits::<4>::from_str("0101").unwrap();
    let from_decimal = Bits::<4>::from_str("5").unwrap();
    assert_eq!(from_binary, from_decimal);
}

#[test]
fn try_from_unsigned() {
    let bits: Bits<8> = Bits::try_from_unsigned_number(255u64).unwrap();
    assert_eq!(bits.bit_array, [true, true, true, true, true, true, true, true]);
    let bits: Bits<4> = Bits::try_from_unsigned_number(15u64).unwrap();
    assert_eq!(bits.bit_array, [true, true, true, true]);
    let out_of_bounds = Bits::<4>::try_from_unsigned_number(16u64);
    assert_eq!(out_of_bounds, Err(BitsParseError::OutOfBounds { value: 16, max: (1 << 4) - 1 }));
}

#[test]
fn to_usize() {
    let a = Bits::<16>::from(164u16);
    let b = 164usize;
    assert_eq!(a.to_usize(), b);
}

#[test]
fn to_usize_0() {
    let bits = Bits::<8>::from(0u8);
    assert_eq!(bits.to_usize(), 0);
}

#[test]
fn u8_conversion() {
    let bits = Bits::<8>::from(0b1010_1010u8);
    assert_eq!(bits.bit_array, [false, true, false, true, false, true, false, true]);
    let back = bits.to_usize() as u8;
    assert_eq!(back, 0b1010_1010);
}

#[test]
fn u16_conversion() {
    let bits = Bits::<16>::from(0b1100_1010_0101_1010u16);
    assert_eq!(bits.bit_array[0], false);
    assert_eq!(bits.bit_array[1], true);
    assert_eq!(bits.bit_array[15], true);
}

#[test]
fn try_from_signed_covers_both_ends() {
    let low: Bits<8> = Bits::try_from_signed_number(-128).unwrap();
    assert_eq!(low.to_usize(), 128);
    let high: Bits<8> = Bits::try_from_signed_number(127).unwrap();
    assert_eq!(high.to_usize(), 127);
    let too_low = Bits::<8>::try_from_signed_number(-129);
    assert!(matches!(too_low, Err(BitsParseError::OutOfBounds { .. })));
    let too_high = Bits::<8>::try_from_signed_number(128);
    assert!(matches!(too_high, Err(BitsParseError::OutOfBounds { .. })));
}

#[test]
fn negative_from_str_is_twos_complement() {
    let bits = Bits::<8>::from_str("-1").unwrap();
    assert_eq!(bits.to_usize(), 255);
    let bits = Bits::<8>::from_str("-128").unwrap();
    assert_eq!(bits.to_usize(), 128);
    let err = Bits::<8>::from_str("-129");
    assert!(matches!(err, Err(VmError::Bits(BitsParseError::OutOfBounds { .. }))));
}
