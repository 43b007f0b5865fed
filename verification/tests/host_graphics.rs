use chip8::host_graphics::{Input, KeyEvent, Terminal, MIN_MILLISEC_KEY_CONSIDERED_PRESSED, QUIT_KEY};

#[test]
fn key_is_down_right_after_its_press() {
    let mut input = Input::new();
    input.record_press(3, 1_000);
    assert!(input.key_is_down(3, 1_000));
    assert!(input.key_is_down(3, 1_001));
}

#[test]
fn key_is_up_once_the_window_has_passed() {
    let mut input = Input::new();
    input.record_press(3, 1_000);
    assert_eq!(MIN_MILLISEC_KEY_CONSIDERED_PRESSED, 100);
    assert!(input.key_is_down(3, 1_099));
    assert!(input.key_is_down(3, 1_100));
    assert!(!input.key_is_down(3, 1_101));
    assert!(!input.key_is_down(3, u64::MAX));
}

#[test]
fn key_never_pressed_is_up() {
    let input = Input::new();
    for key in 0..16 {
        assert!(!input.key_is_down(key, 0));
        assert!(!input.key_is_down(key, 50));
        assert!(!input.key_is_down(key, u64::MAX));
    }
}

#[test]
fn key_that_does_not_exist_is_up() {
    let mut input = Input::new();
    for key in 0..16 {
        input.record_press(key, 10);
    }
    assert!(!input.key_is_down(16, 10));
    assert!(!input.key_is_down(255, 10));
    assert!(!input.key_is_down(usize::MAX, 10));
}

#[test]
fn press_of_one_key_leaves_the_others() {
    let mut input = Input::new();
    input.record_press(0, 500);
    input.record_press(15, 700);
    assert!(input.key_is_down(0, 600));
    assert!(!input.key_is_down(15, 801));
    assert!(input.key_is_down(15, 800));
    assert!(!input.key_is_down(0, 601));
    for key in 1..15 {
        assert!(!input.key_is_down(key, 600));
    }
}

#[test]
fn later_press_restarts_the_window() {
    let mut input = Input::new();
    input.record_press(7, 100);
    assert!(!input.key_is_down(7, 250));
    input.record_press(7, 200);
    assert!(input.key_is_down(7, 250));
    assert!(input.key_is_down(7, 300));
    assert!(!input.key_is_down(7, 301));
}

#[test]
fn press_in_the_future_counts_as_just_made() {
    let mut input = Input::new();
    input.record_press(1, 5_000);
    assert!(input.key_is_down(1, 4_000));
    assert!(input.key_is_down(1, 0));
}

#[test]
fn press_at_the_end_of_time() {
    let mut input = Input::new();
    input.record_press(1, u64::MAX);
    assert!(input.key_is_down(1, u64::MAX));
    input.record_press(2, u64::MAX - 100);
    assert!(input.key_is_down(2, u64::MAX));
    input.record_press(3, u64::MAX - 101);
    assert!(!input.key_is_down(3, u64::MAX));
}

#[test]
fn terminal_starts_with_no_key_pressed() {
    let terminal = Terminal::new();
    assert_eq!(terminal.key_pressed, [false; 16]);
}

#[test]
fn host_keys_stand_for_the_sixteen_keys() {
    let bindings = [
        'x', '1', '2', '3', 'q', 'w', 'e', 'a', 's', 'd', 'z', 'c', '4', 'r', 'f', 'v',
    ];
    for (key, c) in bindings.iter().enumerate() {
        assert_eq!(Terminal::key_for(*c), Some(key));
    }
    assert_eq!(Terminal::key_for('m'), None);
    assert_eq!(Terminal::key_for('X'), None);
    assert_eq!(Terminal::key_for('5'), None);
    assert_eq!(Terminal::key_for(' '), None);
    assert_eq!(Terminal::key_for('\u{2B1B}'), None);
}

#[test]
fn bound_key_is_pressed_and_recorded() {
    let mut terminal = Terminal::new();
    let mut input = Input::new();
    assert_eq!(terminal.handle_key(&mut input, 'q', 1_000), KeyEvent::Pressed(4));
    let mut expected = [false; 16];
    expected[4] = true;
    assert_eq!(terminal.key_pressed, expected);
    assert!(input.key_is_down(4, 1_050));
    assert!(!input.key_is_down(4, 1_101));
    assert!(!input.key_is_down(5, 1_050));
    assert_eq!(terminal.handle_key(&mut input, 'v', 2_000), KeyEvent::Pressed(15));
    expected[15] = true;
    assert_eq!(terminal.key_pressed, expected);
    assert!(input.key_is_down(15, 2_000));
}

#[test]
fn quit_key_ends_the_run_and_changes_nothing() {
    let mut terminal = Terminal::new();
    let mut input = Input::new();
    assert_eq!(QUIT_KEY, 'm');
    assert_eq!(terminal.handle_key(&mut input, 'm', 1_000), KeyEvent::Quit);
    assert_eq!(terminal.key_pressed, [false; 16]);
    for key in 0..16 {
        assert!(!input.key_is_down(key, 1_000));
    }
}

#[test]
fn unbound_key_is_ignored() {
    let mut terminal = Terminal::new();
    let mut input = Input::new();
    assert_eq!(terminal.handle_key(&mut input, 'p', 1_000), KeyEvent::Ignored);
    assert_eq!(terminal.handle_key(&mut input, '\n', 1_000), KeyEvent::Ignored);
    assert_eq!(terminal.key_pressed, [false; 16]);
    for key in 0..16 {
        assert!(!input.key_is_down(key, 1_000));
    }
}
