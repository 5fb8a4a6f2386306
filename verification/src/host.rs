//! What the host loop decides between two cycles: which events end the
//! run, when a cycle is due and when a frame is.
//!
//! The host owns the clock and the window. It asks here, with the time that
//! has passed, and acts on the answer.

use crate::keypad::{after_event, Key, KeyEvent, Keypad, PAUSE_KEY};
use vstd::prelude::*;

verus! {

/// Milliseconds between two cycles.
pub const CPU_TICK: u128 = 2;

/// Milliseconds between two frames.
pub const FRAME_TICK: u128 = 16;

/// Whether `event` ends the run: the host asks to stop, or the escape key
/// went down.
pub open spec fn ends_run(event: KeyEvent) -> bool {
    event == KeyEvent::Quit || event == KeyEvent::KeyDown(Key::Escape)
}

/// Whether the pause key holds the machine in `keys`.
pub open spec fn is_paused(keys: Seq<u8>) -> bool {
    keys[PAUSE_KEY as int] == 1
}

/// Takes one event of the host: says whether it ends the run, and hands
/// every other event to the keypad.
pub fn on_event(keypad: &mut Keypad, event: KeyEvent) -> (quit: bool)
    ensures
        quit == ends_run(event),
        final(keypad).keys@ == after_event(old(keypad).keys@, event),
{
    match event {
        KeyEvent::Quit | KeyEvent::KeyDown(Key::Escape) => true,
        _ => {
            keypad.on_key_event(event);
            false
        },
    }
}

/// Whether the machine is to run a cycle now, `elapsed` milliseconds after
/// the last one: it is unless it is paused or the last cycle is less than a
/// tick ago.
pub fn cycle_due(keypad: &Keypad, elapsed: u128) -> (due: bool)
    ensures
        due == (!is_paused(keypad.keys@) && elapsed >= CPU_TICK),
{
    keypad.keys[15] != 1 && elapsed >= CPU_TICK
}

/// Whether the display is to be shown now, `elapsed` milliseconds after the
/// last frame.
pub fn frame_due(elapsed: u128) -> (due: bool)
    ensures
        due == (elapsed >= FRAME_TICK),
{
    elapsed >= FRAME_TICK
}

} // verus!
