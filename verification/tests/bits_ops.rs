use rust_vm::Bits;

#[test]
fn min_u8_value() {
    let bits = Bits::<8>::from(0u8);
    assert_eq!(bits.bit_array, [false; 8]);
}

#[test]
fn max_u8_value() {
    let bits = Bits::<8>::from(255u8);
    assert_eq!(bits.bit_array, [true; 8]);
}

#[test]
fn signed_edge_cases() {
    let bits = Bits::<8>::from(127i8);
    assert_eq!(bits.bit_array[7], false);
    let bits = Bits::<8>::from(-128i8);
    assert_eq!(bits.bit_array[7], true);
}

#[test]
fn iteration() {
    let bits = Bits::<4>::from([true, false, true, false]);
    let mut iter = bits.bit_array.iter();
    assert_eq!(iter.next(), Some(&true));
    assert_eq!(iter.next(), Some(&false));
}

#[test]
fn mutable_iteration() {
    let mut bits = Bits::<4>::from([false; 4]);
    for bit in bits.bit_array.iter_mut() {
        *bit = true;
    }
    assert_eq!(bits.bit_array, [true; 4]);
}

#[test]
fn into_iter() {
    let bits = Bits::<3>::from([true, false, true]);
    let collected: Vec<bool> = bits.bit_array.into_iter().collect();
    assert_eq!(collected, vec![true, false, true]);
}

#[test]
fn indexing() {
    let bits = Bits::<8>::from(0b0000_0100u8);
    assert_eq!(bits.bit_array[0], false);
    assert_eq!(bits.bit_array[2], true);
}

#[test]
fn partial_eq_and_copy() {
    let bits1 = Bits::<4>::from([true, false, true, false]);
    let bits2 = bits1;
    assert_eq!(bits1, bits2);
}

#[test]
fn clone() {
    let bits1 = Bits::<4>::from([true, false, true, false]);
    let bits2 = bits1.clone();
    assert_eq!(bits1.bit_array, bits2.bit_array);
}

#[test]
fn display() {
    let bits = Bits::<8>::from(13u8);
    assert_eq!(format!("{:0>8b}", 13), bits.to_string())
}

#[test]
fn split_into_chunks() {
    let bits = Bits::<16>::from(0b0000_0000_0000_1111u16);
    let chunks = bits.split_into_chunks::<4>();
    assert_eq!(chunks.len(), 4);
    assert_eq!(chunks[0].to_string(), "0000");
    assert_eq!(chunks[1].to_string(), "0000");
    assert_eq!(chunks[2].to_string(), "0000");
    assert_eq!(chunks[3].to_string(), "1111");
}

#[test]
fn operations_add() {
    let bits1 = Bits::<8>::from(0b0000_0011u8);
    let bits2 = Bits::<8>::from(0b0000_0101u8);
    let result = bits1.wrapping_add(bits2);
    assert_eq!(result, Bits::<8>::from(0b0000_1000u8));
}

#[test]
fn operations_sub() {
    let bits1 = Bits::<8>::from(0b0000_0110u8);
    let bits2 = Bits::<8>::from(0b0000_0011u8);
    let result = bits1.wrapping_sub(bits2);
    assert_eq!(result, Bits::<8>::from(0b0000_0011u8));
}

#[test]
fn subassign() {
    let mut bits1 = Bits::<8>::from(0b0000_0110u8);
    let bits2 = Bits::<8>::from(0b0000_0011u8);
    bits1 = bits1.wrapping_sub(bits2);
    assert_eq!(bits1, Bits::<8>::from(0b0000_0011u8));
}

#[test]
fn addassign() {
    let mut bits1 = Bits::<8>::from(0b0000_0011u8);
    let bits2 = Bits::<8>::from(0b0000_0101u8);
    bits1 = bits1.wrapping_add(bits2);
    assert_eq!(bits1, Bits::<8>::from(0b0000_1000u8));
}

#[test]
fn addition_wraps_for_every_pair_of_nibbles() {
    let mut a: usize = 0;
    while a < 16 {
        let mut b: usize = 0;
        while b < 16 {
            let x = Bits::<4>::from_unsigned_truncated(a as u64);
            let y = Bits::<4>::from_unsigned_truncated(b as u64);
            assert_eq!(x.wrapping_add(y).to_usize(), (a + b) % 16);
            assert_eq!(x.wrapping_sub(y).to_usize(), (16 + a - b) % 16);
            b += 1;
        }
        a += 1;
    }
}

#[test]
fn overflowing_results_report_the_carry() {
    let a = Bits::<8>::from(200u8);
    let b = Bits::<8>::from(100u8);
    let (sum, carried) = a.overflowing_add(b);
    assert_eq!(sum.to_usize(), 44);
    assert!(carried);
    let (diff, no_borrow) = a.overflowing_sub(b);
    assert_eq!(diff.to_usize(), 100);
    assert!(no_borrow);
    let (diff2, no_borrow2) = b.overflowing_sub(a);
    assert_eq!(diff2.to_usize(), 156);
    assert!(!no_borrow2);
}

#[test]
fn bitwise_helpers_act_pointwise() {
    let a = Bits::<8>::from(0b1100_1010u8);
    let b = Bits::<8>::from(0b1010_0110u8);
    assert_eq!(a.bitand(b).to_usize(), 0b1000_0010);
    assert_eq!(a.bitor(b).to_usize(), 0b1110_1110);
    assert_eq!(a.bitxor(b).to_usize(), 0b0110_1100);
    assert_eq!(a.bitnot().to_usize(), 0b0011_0101);
}

#[test]
fn shifts_move_bits_and_fill_with_zeros() {
    let a = Bits::<8>::from(0b0000_1100u8);
    assert_eq!(a.shr(Bits::<8>::from(2u8)).to_usize(), 0b0000_0011);
    assert_eq!(a.shl(Bits::<8>::from(3u8)).to_usize(), 0b0110_0000);
}

#[test]
fn resize_truncates_or_zero_extends() {
    let a = Bits::<8>::from(0b1010_1011u8);
    let small: Bits<4> = a.resize();
    assert_eq!(small.to_usize(), 0b1011);
    let big: Bits<10> = a.resize();
    assert_eq!(big.to_usize(), 0b1010_1011);
}

#[test]
fn slice_reads_a_window_of_bits() {
    let a = Bits::<16>::from(0b0010_0001_0010_0011u16);
    let op: Bits<4> = a.slice(12);
    assert_eq!(op.to_usize(), 0b0010);
    let f1: Bits<4> = a.slice(8);
    assert_eq!(f1.to_usize(), 0b0001);
    let imm: Bits<8> = a.slice(0);
    assert_eq!(imm.to_usize(), 0b0010_0011);
}

#[test]
fn ordering_follows_the_numeric_value() {
    let small = Bits::<8>::from(3u8);
    let big = Bits::<8>::from(240u8);
    assert!(small < big);
    assert!(big >= small);
    assert!(big > small);
    assert!(small <= small);
}
