use chip8::host::{cycle_due, frame_due, on_event};
use chip8::{Key, KeyEvent, Keypad};

#[test]
fn quit_and_escape_end_the_run() {
    let mut keypad = Keypad::new();
    assert!(on_event(&mut keypad, KeyEvent::Quit));
    assert!(on_event(&mut keypad, KeyEvent::KeyDown(Key::Escape)));
    assert_eq!(keypad.keys, [0; 16]);
}

#[test]
fn other_events_go_to_the_keypad() {
    let mut keypad = Keypad::new();
    assert!(!on_event(&mut keypad, KeyEvent::KeyUp(Key::Escape)));
    assert!(!on_event(&mut keypad, KeyEvent::Other));
    assert_eq!(keypad.keys, [0; 16]);
    assert!(!on_event(&mut keypad, KeyEvent::KeyDown(Key::Left)));
    assert_eq!(keypad.keys[4], 1);
    assert!(!on_event(&mut keypad, KeyEvent::KeyDown(Key::Space)));
    assert_eq!(keypad.keys[15], 1);
    assert!(!on_event(&mut keypad, KeyEvent::KeyUp(Key::Left)));
    assert_eq!(keypad.keys[4], 0);
}

#[test]
fn a_cycle_is_due_every_other_millisecond() {
    let keypad = Keypad::new();
    assert!(!cycle_due(&keypad, 0));
    assert!(!cycle_due(&keypad, 1));
    assert!(cycle_due(&keypad, 2));
    assert!(cycle_due(&keypad, 1000));
}

#[test]
fn no_cycle_is_due_while_paused() {
    let mut keypad = Keypad::new();
    on_event(&mut keypad, KeyEvent::KeyDown(Key::Space));
    assert!(!cycle_due(&keypad, 2));
    assert!(!cycle_due(&keypad, u128::MAX));
    on_event(&mut keypad, KeyEvent::KeyDown(Key::Space));
    assert!(cycle_due(&keypad, 2));
}

#[test]
fn a_frame_is_due_every_sixteen_milliseconds() {
    assert!(!frame_due(0));
    assert!(!frame_due(15));
    assert!(frame_due(16));
    assert!(frame_due(17));
}
