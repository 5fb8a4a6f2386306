//! The keypad: sixteen logical keys and the keymap that drives them.
//!
//! A key is down when its entry is 1. One host key flips the entry of the
//! pause key each time it goes down; five others hold a logical key down
//! for as long as they are down themselves.

use vstd::prelude::*;

verus! {

/// Number of logical keys.
pub const KEY_COUNT: usize = 16;

/// Index of the logical key that pauses the machine.
pub const PAUSE_KEY: usize = 15;

/// A key of the host keyboard, as far as the keymap tells keys apart.
#[derive(Debug, Clone, Copy, PartialEq, Eq, Structural)]
pub enum Key {
    Space,
    Left,
    Right,
    Up,
    Down,
    Return,
    Escape,
    /// Any key that neither the keymap nor the host loop knows.
    Other,
}

/// A change on the host keyboard.
#[derive(Debug, Clone, Copy, PartialEq, Eq, Structural)]
pub enum KeyEvent {
    /// The key went down.
    KeyDown(Key),
    /// The key went up.
    KeyUp(Key),
    /// The host asks the machine to stop.
    Quit,
    /// Anything else that the host reports.
    Other,
}

/// The logical key that follows the state of the host key `key`, if any.
pub open spec fn held_key(key: Key) -> Option<int> {
    match key {
        Key::Return => Some(0),
        Key::Right => Some(1),
        Key::Left => Some(4),
        Key::Up => Some(12),
        Key::Down => Some(13),
        Key::Space | Key::Escape | Key::Other => None,
    }
}

/// A key state with its lowest bit flipped: 0 becomes 1 and 1 becomes 0.
pub open spec fn toggled(state: u8) -> u8 {
    if state % 2 == 0 {
        (state + 1) as u8
    } else {
        (state - 1) as u8
    }
}

/// The key states `keys` after `event`.
pub open spec fn after_event(keys: Seq<u8>, event: KeyEvent) -> Seq<u8> {
    match event {
        KeyEvent::KeyDown(Key::Space) => keys.update(PAUSE_KEY as int, toggled(keys[PAUSE_KEY as int])),
        KeyEvent::KeyDown(key) => match held_key(key) {
            Some(k) => keys.update(k, 1),
            None => keys,
        },
        KeyEvent::KeyUp(key) => match held_key(key) {
            Some(k) => keys.update(k, 0),
            None => keys,
        },
        KeyEvent::Quit | KeyEvent::Other => keys,
    }
}

/// Whether the logical key `key` is down in `keys`. A number that names no
/// key is never down.
pub open spec fn is_pressed(keys: Seq<u8>, key: int) -> bool {
    0 <= key < keys.len() && keys[key] == 1
}

/// The state of the sixteen logical keys.
pub struct Keypad {
    pub keys: [u8; 16],
}

impl Keypad {
    /// A keypad with every key up.
    pub fn new() -> (keypad: Keypad)
        ensures
            forall|k: int| 0 <= k < KEY_COUNT ==> keypad.keys@[k] == 0,
    {
        Keypad { keys: [0; 16] }
    }

    /// Whether the logical key `key` is down.
    pub fn pressed(&self, key: u8) -> (down: bool)
        ensures
            down == is_pressed(self.keys@, key as int),
    {
        (key as usize) < KEY_COUNT && self.keys[key as usize] == 1
    }

    /// Applies one change of the host keyboard.
    pub fn on_key_event(&mut self, event: KeyEvent)
        ensures
            final(self).keys@ == after_event(old(self).keys@, event),
    {
        match event {
            KeyEvent::KeyDown(Key::Space) => {
                let paused = self.keys[15];
                assert(paused ^ 1 == if paused % 2 == 0 {
                    (paused + 1) as u8
                } else {
                    (paused - 1) as u8
                }) by (bit_vector);
                self.keys[15] = paused ^ 1;
            },
            KeyEvent::KeyDown(Key::Left) => {
                self.keys[4] = 1;
            },
            KeyEvent::KeyUp(Key::Left) => {
                self.keys[4] = 0;
            },
            KeyEvent::KeyDown(Key::Right) => {
                self.keys[1] = 1;
            },
            KeyEvent::KeyUp(Key::Right) => {
                self.keys[1] = 0;
            },
            KeyEvent::KeyDown(Key::Up) => {
                self.keys[12] = 1;
            },
            KeyEvent::KeyUp(Key::Up) => {
                self.keys[12] = 0;
            },
            KeyEvent::KeyDown(Key::Down) => {
                self.keys[13] = 1;
            },
            KeyEvent::KeyUp(Key::Down) => {
                self.keys[13] = 0;
            },
            KeyEvent::KeyDown(Key::Return) => {
                self.keys[0] = 1;
            },
            KeyEvent::KeyUp(Key::Return) => {
                self.keys[0] = 0;
            },
            _ => {},
        }
    }
}

/// The pause key flips between up and down each time [`Key::Space`] goes
/// down, and no other event touches it.
pub proof fn lemma_pause_toggles(keys: Seq<u8>, event: KeyEvent)
    requires
        keys.len() == KEY_COUNT,
        keys[PAUSE_KEY as int] <= 1,
    ensures
        event == KeyEvent::KeyDown(Key::Space) ==> after_event(keys, event)[PAUSE_KEY as int] == 1
            - keys[PAUSE_KEY as int],
        event != KeyEvent::KeyDown(Key::Space) ==> after_event(keys, event)[PAUSE_KEY as int]
            == keys[PAUSE_KEY as int],
{
}

} // verus!
