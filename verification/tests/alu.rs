use chip8::alu::{add_with_carry, shift_left, shift_right, subtract_with_borrow, to_decimal};

#[test]
fn sum_carries_when_it_does_not_fit() {
    assert_eq!(add_with_carry(0xFF, 0x01), (0x00, 1));
    assert_eq!(add_with_carry(0xFF, 0xFF), (0xFE, 1));
    assert_eq!(add_with_carry(0x80, 0x80), (0x00, 1));
    assert_eq!(add_with_carry(0x01, 0x02), (0x03, 0));
    assert_eq!(add_with_carry(0xFE, 0x01), (0xFF, 0));
    assert_eq!(add_with_carry(0, 0), (0, 0));
}

#[test]
fn sum_of_every_pair() {
    for x in 0..=255u8 {
        for y in 0..=255u8 {
            let (byte, carry) = add_with_carry(x, y);
            assert_eq!(byte as u16 + 256 * carry as u16, x as u16 + y as u16);
            assert!(carry <= 1);
        }
    }
}

#[test]
fn difference_flags_no_borrow() {
    assert_eq!(subtract_with_borrow(0x05, 0x0A), (0xFB, 0));
    assert_eq!(subtract_with_borrow(0x0A, 0x05), (0x05, 1));
    assert_eq!(subtract_with_borrow(0x00, 0x01), (0xFF, 0));
    assert_eq!(subtract_with_borrow(0xFF, 0x00), (0xFF, 1));
}

#[test]
fn difference_of_equal_bytes_borrows_nothing() {
    assert_eq!(subtract_with_borrow(0x07, 0x07), (0x00, 1));
    assert_eq!(subtract_with_borrow(0x00, 0x00), (0x00, 1));
}

#[test]
fn difference_of_every_pair() {
    for x in 0..=255u8 {
        for y in 0..=255u8 {
            let (byte, flag) = subtract_with_borrow(x, y);
            assert_eq!(byte, x.wrapping_sub(y));
            assert_eq!(flag, if x >= y { 1 } else { 0 });
        }
    }
}

#[test]
fn shifts_keep_the_bit_pushed_out() {
    assert_eq!(shift_right(0b0000_0101), (0b0000_0010, 1));
    assert_eq!(shift_right(0b0000_0100), (0b0000_0010, 0));
    assert_eq!(shift_right(0xFF), (0x7F, 1));
    assert_eq!(shift_right(0), (0, 0));
    assert_eq!(shift_left(0b1000_0001), (0b0000_0010, 1));
    assert_eq!(shift_left(0b0100_0001), (0b1000_0010, 0));
    assert_eq!(shift_left(0xFF), (0xFE, 1));
    assert_eq!(shift_left(0), (0, 0));
    for x in 0..=255u8 {
        assert_eq!(shift_right(x), (x >> 1, x & 1));
        assert_eq!(shift_left(x), (x << 1, x >> 7));
    }
}

#[test]
fn decimal_digits_of_a_byte() {
    assert_eq!(to_decimal(0), (0, 0, 0));
    assert_eq!(to_decimal(7), (0, 0, 7));
    assert_eq!(to_decimal(42), (0, 4, 2));
    assert_eq!(to_decimal(100), (1, 0, 0));
    assert_eq!(to_decimal(199), (1, 9, 9));
    assert_eq!(to_decimal(255), (2, 5, 5));
    for x in 0..=255u8 {
        let (hundreds, tens, ones) = to_decimal(x);
        assert!(tens < 10 && ones < 10);
        assert_eq!(hundreds as u16 * 100 + tens as u16 * 10 + ones as u16, x as u16);
    }
}
