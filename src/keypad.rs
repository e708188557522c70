use vstd::prelude::*;

verus! {

/// Number of keys on the keypad.
pub const KEY_COUNT: usize = 16;

/// The state of the 16 keys on this tick and on the tick before.
#[derive(Debug, Clone, Copy)]
pub struct Chip8Keypad {
    pub pressed: [bool; 16],
    pub pressed_last: [bool; 16],
}

/// Key `j` was down on the previous tick and is up now.
pub open spec fn released(k: Chip8Keypad, j: int) -> bool {
    k.pressed_last@[j] && !k.pressed@[j]
}

/// The lowest released key at or above `j`, or 16 where there is none.
pub open spec fn first_released_from(k: Chip8Keypad, j: int) -> int
    decreases KEY_COUNT - j,
{
    if j >= KEY_COUNT || j < 0 {
        KEY_COUNT as int
    } else if released(k, j) {
        j
    } else {
        first_released_from(k, j + 1)
    }
}

/// The lowest released key, or 16 where no key was released.
pub open spec fn first_released(k: Chip8Keypad) -> int {
    first_released_from(k, 0)
}

proof fn lemma_first_released_from(k: Chip8Keypad, j: int)
    requires
        0 <= j <= KEY_COUNT,
    ensures
        j <= first_released_from(k, j) <= KEY_COUNT,
        first_released_from(k, j) < KEY_COUNT ==> released(k, first_released_from(k, j)),
        forall|m: int| j <= m < first_released_from(k, j) ==> !released(k, m),
    decreases KEY_COUNT - j,
{
    if j < KEY_COUNT && !released(k, j) {
        lemma_first_released_from(k, j + 1);
    }
}

/// The lowest released key, when there is one, is released, and no lower key is.
pub proof fn lemma_first_released(k: Chip8Keypad)
    ensures
        0 <= first_released(k) <= KEY_COUNT,
        first_released(k) < KEY_COUNT ==> released(k, first_released(k)),
        forall|m: int| 0 <= m < first_released(k) ==> !released(k, m),
{
    lemma_first_released_from(k, 0);
}

impl Chip8Keypad {
    /// A keypad on which no key is, or was, pressed.
    pub fn new() -> (r: Chip8Keypad)
        ensures
            forall|j: int| 0 <= j < KEY_COUNT ==> !r.pressed@[j] && !r.pressed_last@[j],
    {
        Chip8Keypad { pressed: [false; 16], pressed_last: [false; 16] }
    }

    /// Moves to the next tick: what was pressed becomes what was pressed last.
    pub fn advance(&mut self, pressed: [bool; 16])
        ensures
            final(self).pressed == pressed,
            final(self).pressed_last == old(self).pressed,
    {
        self.pressed_last = self.pressed;
        self.pressed = pressed;
    }

    /// The lowest key that went from pressed to released, or 16 where none did.
    pub fn find_released(&self) -> (r: u8)
        ensures
            r == first_released(*self),
    {
        let mut j: u8 = 0;
        while j < 16
            invariant
                j <= KEY_COUNT,
                first_released(*self) == first_released_from(*self, j as int),
            decreases KEY_COUNT - j,
        {
            if self.pressed_last[j as usize] && !self.pressed[j as usize] {
                return j;
            }
            j = j + 1;
        }
        j
    }
}

} // verus!
