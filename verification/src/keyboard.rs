//! The sixteen keys of the hexadecimal keypad.

use vstd::prelude::*;

verus! {

pub const KEY_COUNT: usize = 16;

/// Which keys are held down: `keys[k]` is true while key `k` is.
pub struct Keyboard {
    pub keys: [bool; KEY_COUNT],
}

impl Keyboard {
    /// A keypad with no key held down.
    pub fn new() -> (keyboard: Keyboard)
        ensures
            keyboard.keys@ == Seq::new(KEY_COUNT as nat, |k: int| false),
    {
        let keyboard = Keyboard { keys: [false; KEY_COUNT] };
        assert(keyboard.keys@ =~= Seq::new(KEY_COUNT as nat, |k: int| false));
        keyboard
    }
}

} // verus!
