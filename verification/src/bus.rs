//! The peripherals that the engine reaches: the display and the keypad.

use crate::display::Display;
use crate::keypad::Keypad;
use vstd::prelude::*;

verus! {

/// The display and the keypad of one machine.
pub struct Bus {
    pub display: Display,
    pub keypad: Keypad,
}

impl Bus {
    /// A bus that holds `display` and `keypad`.
    pub fn new(display: Display, keypad: Keypad) -> (bus: Bus)
        ensures
            bus.display == display,
            bus.keypad == keypad,
    {
        Bus { display, keypad }
    }
}

} // verus!
