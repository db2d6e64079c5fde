//! The hexadecimal keypad and the keyboard keys that stand for it:
//!
//! ```text
//! keypad        keyboard
//! 1 2 3 C       U I O P
//! 4 5 6 D       Q W E R
//! 7 8 9 E       A S D F
//! A 0 B F       Z X C V
//! ```

use vstd::prelude::*;

verus! {

/// A keyboard key, as far as the keypad is concerned.
#[derive(Clone, Copy, Debug, PartialEq, Eq, Structural)]
pub enum KeyName {
    U,
    I,
    O,
    P,
    Q,
    W,
    E,
    R,
    A,
    S,
    D,
    F,
    Z,
    X,
    C,
    V,
    /// Any key that stands for no keypad key.
    Other,
}

/// The keypad key that a keyboard key stands for, if any.
pub open spec fn key_slot(key: KeyName) -> Option<int> {
    match key {
        KeyName::U => Some(0x1),
        KeyName::I => Some(0x2),
        KeyName::O => Some(0x3),
        KeyName::P => Some(0xc),
        KeyName::Q => Some(0x4),
        KeyName::W => Some(0x5),
        KeyName::E => Some(0x6),
        KeyName::R => Some(0xd),
        KeyName::A => Some(0x7),
        KeyName::S => Some(0x8),
        KeyName::D => Some(0x9),
        KeyName::F => Some(0xe),
        KeyName::Z => Some(0xa),
        KeyName::X => Some(0x0),
        KeyName::C => Some(0xb),
        KeyName::V => Some(0xf),
        KeyName::Other => None,
    }
}

/// The keypad key that a keyboard key stands for, if any.
pub fn keypad_index(key: KeyName) -> (r: Option<usize>)
    ensures
        match r {
            Some(i) => key_slot(key) == Some(i as int),
            None => key_slot(key) is None,
        },
{
    match key {
        KeyName::U => Some(0x1),
        KeyName::I => Some(0x2),
        KeyName::O => Some(0x3),
        KeyName::P => Some(0xc),
        KeyName::Q => Some(0x4),
        KeyName::W => Some(0x5),
        KeyName::E => Some(0x6),
        KeyName::R => Some(0xd),
        KeyName::A => Some(0x7),
        KeyName::S => Some(0x8),
        KeyName::D => Some(0x9),
        KeyName::F => Some(0xe),
        KeyName::Z => Some(0xa),
        KeyName::X => Some(0x0),
        KeyName::C => Some(0xb),
        KeyName::V => Some(0xf),
        KeyName::Other => None,
    }
}

/// Whether some key of `keys` stands for keypad key `i`.
pub open spec fn pressed(keys: Seq<KeyName>, i: int) -> bool {
    exists|j: int| 0 <= j < keys.len() && key_slot(#[trigger] keys[j]) == Some(i)
}

/// The keypad state for the keyboard keys that are held down: keypad key `i`
/// is down exactly when one of `keys` stands for it.
pub fn keypad_from_keys(keys: &Vec<KeyName>) -> (keypad: [bool; 16])
    ensures
        forall|i: int| 0 <= i < 16 ==> #[trigger] keypad@[i] == pressed(keys@, i),
{
    let mut keypad: [bool; 16] = [false; 16];
    let mut j: usize = 0;
    while j < keys.len()
        invariant
            j <= keys@.len(),
            forall|i: int|
                0 <= i < 16 ==> #[trigger] keypad@[i] == exists|m: int|
                    0 <= m < j && key_slot(#[trigger] keys@[m]) == Some(i),
        decreases keys@.len() - j,
    {
        let index = keypad_index(keys[j]);
        if let Some(i) = index {
            assert(i < 16);
            keypad[i] = true;
        }
        proof {
            assert forall|i: int| 0 <= i < 16 implies #[trigger] keypad@[i] == exists|m: int|
                0 <= m < j + 1 && key_slot(#[trigger] keys@[m]) == Some(i) by {
                if key_slot(keys@[j as int]) == Some(i) {
                    assert(keypad@[i]);
                }
            }
        }
        j = j + 1;
    }
    keypad
}

} // verus!
