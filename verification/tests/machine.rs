use chip8::guest_graphics::get_fonts;
use chip8::machine::{
    load_fonts, load_program, new_memory, read_memory, write_memory, ChipError, ChipRegisters,
    FONT_START, MAX_PROGRAM_SIZE, MEMORY_SIZE, PROGRAM_START, STACK_DEPTH,
};

#[test]
fn registers_start_at_zero_with_pc_at_the_program() {
    let registers = ChipRegisters::new();
    assert_eq!(registers.registers(), [0; 16]);
    for x in 0..16 {
        assert_eq!(registers.register(x), 0);
    }
    assert_eq!(registers.index(), 0);
    assert_eq!(registers.delay_timer(), 0);
    assert_eq!(registers.sound_timer(), 0);
    assert_eq!(registers.program_counter(), 0x200);
    assert_eq!(registers.stack_depth(), 0);
    assert_eq!(PROGRAM_START, 0x200);
    let other = ChipRegisters::default();
    assert_eq!(other.program_counter(), 0x200);
    assert_eq!(other.registers(), [0; 16]);
    assert_eq!(other.stack_depth(), 0);
}

#[test]
fn setters_change_one_thing() {
    let mut registers = ChipRegisters::new();
    registers.set_register(3, 0xAB);
    registers.set_register(15, 0x01);
    registers.set_index(0x0FED);
    registers.set_program_counter(0x0456);
    registers.set_delay_timer(9);
    registers.set_sound_timer(8);
    let mut expected = [0u8; 16];
    expected[3] = 0xAB;
    expected[15] = 0x01;
    assert_eq!(registers.registers(), expected);
    assert_eq!(registers.register(3), 0xAB);
    assert_eq!(registers.index(), 0x0FED);
    assert_eq!(registers.program_counter(), 0x0456);
    assert_eq!(registers.delay_timer(), 9);
    assert_eq!(registers.sound_timer(), 8);
    assert_eq!(registers.stack_depth(), 0);
}

#[test]
fn stack_returns_the_latest_address_first() {
    let mut registers = ChipRegisters::new();
    assert_eq!(registers.push_return_address(0x202), Ok(()));
    assert_eq!(registers.push_return_address(0x304), Ok(()));
    assert_eq!(registers.stack_depth(), 2);
    assert_eq!(registers.pop_return_address(), Ok(0x304));
    assert_eq!(registers.pop_return_address(), Ok(0x202));
    assert_eq!(registers.stack_depth(), 0);
}

#[test]
fn stack_overflows_at_the_seventeenth_call() {
    let mut registers = ChipRegisters::new();
    assert_eq!(STACK_DEPTH, 16);
    for call in 0..16u16 {
        assert_eq!(registers.push_return_address(0x200 + call), Ok(()));
    }
    assert_eq!(registers.stack_depth(), 16);
    assert_eq!(registers.push_return_address(0x999), Err(ChipError::StackOverflow));
    assert_eq!(registers.stack_depth(), 16);
    for call in (0..16u16).rev() {
        assert_eq!(registers.pop_return_address(), Ok(0x200 + call));
    }
}

#[test]
fn stack_underflows_when_empty() {
    let mut registers = ChipRegisters::new();
    assert_eq!(registers.pop_return_address(), Err(ChipError::StackUnderflow));
    assert_eq!(registers.stack_depth(), 0);
    assert_eq!(registers.push_return_address(0x222), Ok(()));
    assert_eq!(registers.pop_return_address(), Ok(0x222));
    assert_eq!(registers.pop_return_address(), Err(ChipError::StackUnderflow));
}

#[test]
fn timers_count_down_to_zero_and_stay() {
    let mut registers = ChipRegisters::new();
    registers.set_delay_timer(2);
    registers.set_sound_timer(1);
    registers.tick_timers();
    assert_eq!((registers.delay_timer(), registers.sound_timer()), (1, 0));
    registers.tick_timers();
    assert_eq!((registers.delay_timer(), registers.sound_timer()), (0, 0));
    registers.tick_timers();
    assert_eq!((registers.delay_timer(), registers.sound_timer()), (0, 0));
    registers.set_delay_timer(255);
    registers.tick_timers();
    assert_eq!(registers.delay_timer(), 254);
}

#[test]
fn timers_leave_the_rest_alone() {
    let mut registers = ChipRegisters::new();
    registers.set_register(2, 5);
    registers.set_index(77);
    registers.set_delay_timer(3);
    registers.push_return_address(0x300).unwrap();
    registers.tick_timers();
    assert_eq!(registers.register(2), 5);
    assert_eq!(registers.index(), 77);
    assert_eq!(registers.program_counter(), 0x200);
    assert_eq!(registers.stack_depth(), 1);
}

#[test]
fn memory_wraps_around() {
    let mut ram = [0u8; 4096];
    assert_eq!(MEMORY_SIZE, 4096);
    write_memory(&mut ram, 4096 + 5, 0xAA);
    assert_eq!(ram[5], 0xAA);
    assert_eq!(read_memory(&ram, 5), 0xAA);
    assert_eq!(read_memory(&ram, 5 + 2 * 4096), 0xAA);
    write_memory(&mut ram, 4095, 0xBB);
    assert_eq!(ram[4095], 0xBB);
    assert_eq!(read_memory(&ram, 8191), 0xBB);
    assert_eq!(ram.iter().filter(|byte| **byte != 0).count(), 2);
}

#[test]
fn program_is_loaded_at_its_start() {
    let mut ram = [0x11u8; 4096];
    load_program(&mut ram, &[0x00, 0xE0, 0x12, 0x02]);
    assert_eq!(&ram[0x200..0x204], &[0x00, 0xE0, 0x12, 0x02]);
    assert!(ram[..0x200].iter().all(|byte| *byte == 0x11));
    assert!(ram[0x204..].iter().all(|byte| *byte == 0x11));
}

#[test]
fn program_may_fill_the_memory() {
    let mut ram = [0u8; 4096];
    assert_eq!(MAX_PROGRAM_SIZE, 4096 - 0x200);
    let program: Vec<u8> = (0..MAX_PROGRAM_SIZE).map(|k| (k % 251) as u8 + 1).collect();
    load_program(&mut ram, &program);
    assert_eq!(&ram[0x200..], &program[..]);
    assert!(ram[..0x200].iter().all(|byte| *byte == 0));
    let mut untouched = [7u8; 4096];
    load_program(&mut untouched, &[]);
    assert_eq!(untouched, [7u8; 4096]);
}

#[test]
fn font_is_loaded_below_the_program() {
    let mut ram = [0xEEu8; 4096];
    load_fonts(&mut ram);
    assert_eq!(FONT_START, 0x50);
    let font = get_fonts();
    for digit in 0..16 {
        let at = 0x50 + 5 * digit;
        assert_eq!(&ram[at..at + 5], &font[digit].sprite_data[..5]);
    }
    assert_eq!(&ram[0x50..0x55], &[0xF0, 0x90, 0x90, 0x90, 0xF0]);
    assert_eq!(&ram[0x9B..0xA0], &[0xF0, 0x80, 0xF0, 0x80, 0x80]);
    assert!(ram[..0x50].iter().all(|byte| *byte == 0xEE));
    assert!(ram[0xA0..].iter().all(|byte| *byte == 0xEE));
}

#[test]
fn new_memory_holds_the_font_and_the_program() {
    let ram = new_memory(&[0x00, 0xE0, 0x12, 0x02]);
    let mut expected = [0u8; 4096];
    load_fonts(&mut expected);
    expected[0x200..0x204].copy_from_slice(&[0x00, 0xE0, 0x12, 0x02]);
    assert_eq!(ram, expected);
    assert_eq!(ram.iter().filter(|byte| **byte != 0).count(), 80 + 3);
    let empty = new_memory(&[]);
    assert!(empty[0x200..].iter().all(|byte| *byte == 0));
    assert_eq!(&empty[0x50..0x55], &[0xF0, 0x90, 0x90, 0x90, 0xF0]);
}
