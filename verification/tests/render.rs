use chip8::guest_graphics::{get_fonts, ChipDisplay, Sprite};
use chip8::instruction::Instruction;

#[test]
fn sprite_text_has_a_line_of_digits_for_each_row() {
    let font = get_fonts();
    assert_eq!(
        font[0].render(),
        "Debug drawing for sprite: \n11110000\n10010000\n10010000\n10010000\n11110000\n"
    );
    assert_eq!(
        font[1].render(),
        "Debug drawing for sprite: \n00100000\n01100000\n00100000\n00100000\n01110000\n"
    );
}

#[test]
fn sprite_text_stops_at_the_height() {
    assert_eq!(Sprite::new([0xFF; 15], 0).render(), "Debug drawing for sprite: \n");
    assert_eq!(
        Sprite::new([0xA5; 15], 2).render(),
        "Debug drawing for sprite: \n10100101\n10100101\n"
    );
    let tall = Sprite::new([0x01; 15], 99).render();
    assert_eq!(tall.lines().count(), 16);
    assert!(tall.lines().skip(1).all(|line| line == "00000001"));
}

#[test]
fn display_text_shows_the_front_buffer() {
    let mut display = ChipDisplay::new();
    display.set_pixel(1, 0, true);
    display.set_pixel(63, 31, true);
    let blank_line = "\u{2B1C} ".repeat(64) + "\n\r";
    assert_eq!(display.render(), blank_line.repeat(32));
    display.debuff();
    let first = String::from("\u{2B1C} \u{2B1B} ") + &"\u{2B1C} ".repeat(62) + "\n\r";
    let last = "\u{2B1C} ".repeat(63) + "\u{2B1B} \n\r";
    assert_eq!(display.render(), first + &blank_line.repeat(30) + &last);
}

#[test]
fn instruction_text_gives_both_bytes_in_hex() {
    assert_eq!(
        Instruction::new([0xF1, 0x2B]).render(),
        "\r\n Instruction display:\r\n f1\r\n 2b"
    );
    assert_eq!(
        Instruction::new([0x05, 0x00]).render(),
        "\r\n Instruction display:\r\n 5\r\n 0"
    );
    assert_eq!(
        Instruction::new([0x10, 0xFF]).render(),
        "\r\n Instruction display:\r\n 10\r\n ff"
    );
    for byte in 0..=255u8 {
        assert_eq!(
            Instruction::new([byte, byte]).render(),
            format!("\r\n Instruction display:\r\n {:x?}\r\n {:x?}", byte, byte)
        );
    }
}
