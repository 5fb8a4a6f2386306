use chip8::{Key, KeyEvent, Keypad};

#[test]
fn new_keypad_has_every_key_up() {
    let keypad = Keypad::new();
    assert_eq!(keypad.keys, [0; 16]);
    for key in 0..16 {
        assert!(!keypad.pressed(key));
    }
}

#[test]
fn held_keys_follow_the_host_keys() {
    let cases = [
        (Key::Return, 0usize),
        (Key::Right, 1),
        (Key::Left, 4),
        (Key::Up, 12),
        (Key::Down, 13),
    ];
    for (key, index) in cases {
        let mut keypad = Keypad::new();
        keypad.on_key_event(KeyEvent::KeyDown(key));
        let mut expected = [0u8; 16];
        expected[index] = 1;
        assert_eq!(keypad.keys, expected);
        assert!(keypad.pressed(index as u8));
        keypad.on_key_event(KeyEvent::KeyDown(key));
        assert_eq!(keypad.keys, expected);
        keypad.on_key_event(KeyEvent::KeyUp(key));
        assert_eq!(keypad.keys, [0; 16]);
    }
}

#[test]
fn space_toggles_the_pause_key_when_it_goes_down() {
    let mut keypad = Keypad::new();
    keypad.on_key_event(KeyEvent::KeyDown(Key::Space));
    assert_eq!(keypad.keys[15], 1);
    keypad.on_key_event(KeyEvent::KeyUp(Key::Space));
    assert_eq!(keypad.keys[15], 1);
    keypad.on_key_event(KeyEvent::KeyDown(Key::Space));
    assert_eq!(keypad.keys[15], 0);
}

#[test]
fn unknown_keys_and_events_change_nothing() {
    let mut keypad = Keypad::new();
    keypad.on_key_event(KeyEvent::KeyDown(Key::Left));
    let before = keypad.keys;
    keypad.on_key_event(KeyEvent::KeyDown(Key::Other));
    keypad.on_key_event(KeyEvent::KeyUp(Key::Other));
    keypad.on_key_event(KeyEvent::Other);
    assert_eq!(keypad.keys, before);
}

#[test]
fn a_number_that_names_no_key_is_never_down() {
    let mut keypad = Keypad::new();
    keypad.keys = [1; 16];
    assert!(keypad.pressed(15));
    assert!(!keypad.pressed(16));
    assert!(!keypad.pressed(255));
}

#[test]
fn only_the_value_one_counts_as_down() {
    let mut keypad = Keypad::new();
    keypad.keys[3] = 2;
    assert!(!keypad.pressed(3));
}

#[test]
fn escape_and_quit_leave_the_keypad_alone() {
    let mut keypad = Keypad::new();
    keypad.on_key_event(KeyEvent::KeyDown(Key::Up));
    let before = keypad.keys;
    keypad.on_key_event(KeyEvent::KeyDown(Key::Escape));
    keypad.on_key_event(KeyEvent::KeyUp(Key::Escape));
    keypad.on_key_event(KeyEvent::Quit);
    assert_eq!(keypad.keys, before);
}
