use rust_vm::Bits;
use rust_vm::alu::Alu;
use rust_vm::alu::AluSettings;

#[test]
fn test_xor() {
    let mut alu = Alu::new(AluSettings::Xor);
    assert_eq!(
        alu.compute(Bits::<8>::from(0b00000000u8), Bits::<8>::from(0b00000000u8)).to_string(),
        "00000000"
    );
    assert_eq!(
        alu.compute(Bits::<8>::from(0b00000001u8), Bits::<8>::from(0b00000001u8)).to_string(),
        "00000000"
    );
    assert_eq!(
        alu.compute(Bits::<8>::from(0b00000010u8), Bits::<8>::from(0b00000011u8)).to_string(),
        "00000001"
    );
    assert_eq!(
        alu.compute(Bits::<8>::from(0b00001111u8), Bits::<8>::from(0b00010000u8)).to_string(),
        "00011111"
    );
    assert_eq!(
        alu.compute(Bits::<8>::from(0b11111111u8), Bits::<8>::from(0b00000000u8)).to_string(),
        "11111111"
    );
    assert_eq!(
        alu.compute(Bits::<8>::from(0b10101010u8), Bits::<8>::from(0b01010101u8)).to_string(),
        "11111111"
    );
}

#[test]
fn test_xnor() {
    let mut alu = Alu::new(AluSettings::Xnor);
    assert_eq!(
        alu.compute(Bits::<8>::from(0b00000000u8), Bits::<8>::from(0b00000000u8)).to_string(),
        "11111111"
    );
    assert_eq!(
        alu.compute(Bits::<8>::from(0b00000001u8), Bits::<8>::from(0b00000001u8)).to_string(),
        "11111111"
    );
    assert_eq!(
        alu.compute(Bits::<8>::from(0b00000010u8), Bits::<8>::from(0b00000011u8)).to_string(),
        "11111110"
    );
    assert_eq!(
        alu.compute(Bits::<8>::from(0b00001111u8), Bits::<8>::from(0b00010000u8)).to_string(),
        "11100000"
    );
    assert_eq!(
        alu.compute(Bits::<8>::from(0b11111111u8), Bits::<8>::from(0b00000000u8)).to_string(),
        "00000000"
    );
    assert_eq!(
        alu.compute(Bits::<8>::from(0b10101010u8), Bits::<8>::from(0b01010101u8)).to_string(),
        "00000000"
    );
}

#[test]
fn test_addition() {
    let mut alu = Alu::new(AluSettings::Add);
    assert_eq!(alu.compute(Bits::<8>::from(0u8), Bits::<8>::from(0u8)).to_string(), "00000000");
    assert_eq!(alu.compute(Bits::<8>::from(1u8), Bits::<8>::from(1u8)).to_string(), "00000010");
    assert_eq!(alu.compute(Bits::<8>::from(2u8), Bits::<8>::from(3u8)).to_string(), "00000101");
    assert_eq!(alu.compute(Bits::<8>::from(15u8), Bits::<8>::from(16u8)).to_string(), "00011111");
}

#[test]
fn test_subtraction() {
    let mut alu = Alu::new(AluSettings::Sub);
    assert_eq!(alu.compute(Bits::<8>::from(0u8), Bits::<8>::from(0u8)).to_string(), "00000000");
    assert_eq!(alu.compute(Bits::<8>::from(5u8), Bits::<8>::from(3u8)).to_string(), "00000010");
    assert_eq!(alu.compute(Bits::<8>::from(10u8), Bits::<8>::from(5u8)).to_string(), "00000101");
    assert_eq!(
        alu.compute(Bits::<8>::from(128u8), Bits::<8>::from(128u8)).to_string(),
        "00000000"
    );
    assert_eq!(alu.compute(Bits::<8>::from(255u8), Bits::<8>::from(1u8)).to_string(), "11111110");
}

#[test]
fn test_addition_edge_cases() {
    let mut alu = Alu::new(AluSettings::Add);
    assert_eq!(alu.compute(Bits::<8>::from(0u8), Bits::<8>::from(255u8)).to_string(), "11111111");
    assert_eq!(alu.compute(Bits::<8>::from(255u8), Bits::<8>::from(0u8)).to_string(), "11111111");
    assert_eq!(alu.compute(Bits::<8>::from(127u8), Bits::<8>::from(1u8)).to_string(), "10000000");
    assert_eq!(
        alu.compute(Bits::<8>::from(200u8), Bits::<8>::from(55u8)).to_string(),
        "11111111"
    );
}

#[test]
fn test_subtraction_edge_cases() {
    let mut alu = Alu::new(AluSettings::Sub);
    assert_eq!(
        alu.compute(Bits::<8>::from(255u8), Bits::<8>::from(255u8)).to_string(),
        "00000000"
    );
    assert_eq!(alu.compute(Bits::<8>::from(1u8), Bits::<8>::from(255u8)).to_string(), "00000010");
    assert_eq!(
        alu.compute(Bits::<8>::from(98u8), Bits::<8>::from(100u8)).to_string(),
        "11111110"
    );
    assert_eq!(alu.compute(Bits::<8>::from(0u8), Bits::<8>::from(255u8)).to_string(), "00000001");
}

#[test]
fn rshift_rshift() {
    let mut alu = Alu::new(AluSettings::Rshift);
    let a = Bits::<8>::from(4u8);
    let b = Bits::<8>::from(0u8);
    assert_eq!(alu.compute(a, b).to_string(), "00000010");
    assert_eq!(alu.compute(a, b).to_usize(), 2);
}

#[test]
fn setting_from_bits_add() {
    let set = AluSettings::from_bits(Bits::<8>::from(2u8).resize());
    assert_eq!(set, AluSettings::Add);
}

#[test]
fn setting_from_bits_sub() {
    let set = AluSettings::from_bits(Bits::<8>::from(3u8).resize());
    assert_eq!(set, AluSettings::Sub);
}

#[test]
fn setting_from_bits_and() {
    let set = AluSettings::from_bits(Bits::<8>::from(5u8).resize());
    assert_eq!(set, AluSettings::And);
}

#[test]
fn setting_from_bits_nor() {
    let set = AluSettings::from_bits(Bits::<8>::from(4u8).resize());
    assert_eq!(set, AluSettings::Nor);
}

#[test]
fn setting_from_bits_xor() {
    let set = AluSettings::from_bits(Bits::<8>::from(6u8).resize());
    assert_eq!(set, AluSettings::Xor);
}

#[test]
fn setting_from_bits_rshift() {
    let set = AluSettings::from_bits(Bits::<8>::from(7u8).resize());
    assert_eq!(set, AluSettings::Rshift);
}

#[test]
fn or() {
    let mut alu = Alu::new(AluSettings::Or);
    assert_eq!(
        alu.compute(Bits::<8>::from(0b00000010u8), Bits::<8>::from(0b00000011u8)).to_string(),
        "00000011"
    );
    assert_eq!(
        alu.compute(Bits::<8>::from(0b10101010u8), Bits::<8>::from(0b01010101u8)).to_string(),
        "11111111"
    );
    assert_eq!(
        alu.compute(Bits::<8>::from(0b11110000u8), Bits::<8>::from(0b00001111u8)).to_string(),
        "11111111"
    );
}

#[test]
fn xor_to_or_nor() {
    let mut alu = Alu::new(AluSettings::Nor);
    assert_eq!(
        alu.compute(Bits::<8>::from(0b00000010u8), Bits::<8>::from(0b00000011u8)).to_string(),
        "11111100"
    );
    assert_eq!(
        alu.compute(Bits::<8>::from(0b10101010u8), Bits::<8>::from(0b01010101u8)).to_string(),
        "00000000"
    );
    assert_eq!(
        alu.compute(Bits::<8>::from(0b11110000u8), Bits::<8>::from(0b00001111u8)).to_string(),
        "00000000"
    );
}

#[test]
fn xor_to_or_and() {
    let mut alu = Alu::new(AluSettings::And);
    assert_eq!(
        alu.compute(Bits::<8>::from(0b00000010u8), Bits::<8>::from(0b00000011u8)).to_string(),
        "00000010"
    );
    assert_eq!(
        alu.compute(Bits::<8>::from(0b10101010u8), Bits::<8>::from(0b01010101u8)).to_string(),
        "00000000"
    );
    assert_eq!(
        alu.compute(Bits::<8>::from(0b11110000u8), Bits::<8>::from(0b00001111u8)).to_string(),
        "00000000"
    );
}

#[test]
fn nand() {
    let mut alu = Alu::new(AluSettings::Nand);
    assert_eq!(
        alu.compute(Bits::<8>::from(0b00000010u8), Bits::<8>::from(0b00000011u8)).to_string(),
        "11111101"
    );
    assert_eq!(
        alu.compute(Bits::<8>::from(0b10101010u8), Bits::<8>::from(0b01010101u8)).to_string(),
        "11111111"
    );
    assert_eq!(
        alu.compute(Bits::<8>::from(0b11110000u8), Bits::<8>::from(0b00001111u8)).to_string(),
        "11111111"
    );
}

#[test]
fn implies() {
    let mut alu = Alu::new(AluSettings::Implies);
    assert_eq!(
        alu.compute(Bits::<8>::from(0b00000010u8), Bits::<8>::from(0b00000011u8)).to_string(),
        "11111111"
    );
    assert_eq!(
        alu.compute(Bits::<8>::from(0b10101010u8), Bits::<8>::from(0b01010101u8)).to_string(),
        "01010101"
    );
    assert_eq!(
        alu.compute(Bits::<8>::from(0b11110000u8), Bits::<8>::from(0b00001111u8)).to_string(),
        "00001111"
    );
}

#[test]
fn nimplies() {
    let mut alu = Alu::new(AluSettings::Nimplies);
    assert_eq!(
        alu.compute(Bits::<8>::from(0b00000010u8), Bits::<8>::from(0b00000011u8)).to_string(),
        "00000000"
    );
    assert_eq!(
        alu.compute(Bits::<8>::from(0b10101010u8), Bits::<8>::from(0b01010101u8)).to_string(),
        "10101010"
    );
    assert_eq!(
        alu.compute(Bits::<8>::from(0b11110000u8), Bits::<8>::from(0b00001111u8)).to_string(),
        "11110000"
    );
}

#[test]
fn add_wraps_at_the_top() {
    let mut alu = Alu::new(AluSettings::Add);
    alu.set_flags = true;
    let r = alu.compute(Bits::<8>::from(255u8), Bits::<8>::from(1u8));
    assert_eq!(r.to_usize(), 0);
    assert!(alu.flags.zero);
    assert!(alu.flags.carry);
}

#[test]
fn sub_wraps_below_zero() {
    let mut alu = Alu::new(AluSettings::Sub);
    alu.set_flags = true;
    let r = alu.compute(Bits::<8>::from(0u8), Bits::<8>::from(1u8));
    assert_eq!(r.to_usize(), 255);
    assert!(!alu.flags.zero);
    assert!(!alu.flags.carry);
}

#[test]
fn flags_follow_result_and_carry() {
    let mut alu = Alu::new(AluSettings::Sub);
    alu.set_flags = true;
    let r = alu.compute(Bits::<8>::from(9u8), Bits::<8>::from(9u8));
    assert_eq!(r.to_usize(), 0);
    assert!(alu.flags.zero);
    assert!(alu.flags.carry);
    let r2 = alu.compute(Bits::<8>::from(9u8), Bits::<8>::from(4u8));
    assert_eq!(r2.to_usize(), 5);
    assert!(!alu.flags.zero);
    assert!(alu.flags.carry);
}

#[test]
fn rshift_halves_every_value() {
    let mut alu = Alu::new(AluSettings::Rshift);
    let mut v: usize = 0;
    while v < 256 {
        let r = alu.compute(Bits::<8>::from(v as u8), Bits::<8>::from(0u8));
        assert_eq!(r.to_usize(), v >> 1);
        assert!(!r.bit_array[7]);
        v += 1;
    }
}

#[test]
fn xor_of_equal_operands_is_zero() {
    let mut alu = Alu::new(AluSettings::Xor);
    let mut v: usize = 0;
    while v < 256 {
        let r = alu.compute(Bits::<8>::from(v as u8), Bits::<8>::from(v as u8));
        assert_eq!(r.to_usize(), 0);
        v += 1;
    }
}

#[test]
fn and_with_zero_and_or_with_ones() {
    let mut and_alu = Alu::new(AluSettings::And);
    let mut or_alu = Alu::new(AluSettings::Or);
    let mut v: usize = 0;
    while v < 256 {
        assert_eq!(and_alu.compute(Bits::<8>::from(v as u8), Bits::<8>::from(0u8)).to_usize(), 0);
        assert_eq!(
            or_alu.compute(Bits::<8>::from(v as u8), Bits::<8>::from(0xFFu8)).to_usize(),
            0xFF
        );
        v += 1;
    }
}
