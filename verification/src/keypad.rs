//! The 16-key hexadecimal keypad: one boolean press state per key
//! 0x0..=0xF, set on key-down, cleared on key-up, and read by the
//! skip-if-key and get-key instructions.

use vstd::prelude::*;

verus! {

/// The number of logical keys on the keypad.
pub const KEY_COUNT: usize = 16;

pub struct Keypad {
    keys: Vec<bool>,
}

impl View for Keypad {
    type V = Seq<bool>;

    /// The press state of each of the 16 keys, indexed by key code.
    closed spec fn view(&self) -> Seq<bool> {
        self.keys@
    }
}

impl Keypad {
    pub open spec fn wf(&self) -> bool {
        self@.len() == KEY_COUNT
    }

    pub fn new() -> (k: Self)
        ensures
            k.wf(),
            forall|i: int| 0 <= i < KEY_COUNT ==> !k@[i],
    {
        let keys: Vec<bool> = vec![false; KEY_COUNT];
        Self { keys }
    }

    /// Whether `key` is currently held down; any code outside the 16 keys
    /// reads as released.
    pub fn is_pressed(&self, key: u8) -> (r: bool)
        requires
            self.wf(),
        ensures
            r == (key < KEY_COUNT && self@[key as int]),
    {
        if key < KEY_COUNT as u8 {
            self.keys[key as usize]
        } else {
            false
        }
    }

    /// Records a key-down event; a code outside the 16 keys is ignored.
    pub fn press_key(&mut self, key: u8)
        requires
            old(self).wf(),
        ensures
            final(self).wf(),
            key < KEY_COUNT ==> final(self)@ == old(self)@.update(key as int, true),
            key >= KEY_COUNT ==> final(self)@ == old(self)@,
    {
        if key < KEY_COUNT as u8 {
            self.keys[key as usize] = true;
        }
    }

    /// Records a key-up event; a code outside the 16 keys is ignored.
    pub fn release_key(&mut self, key: u8)
        requires
            old(self).wf(),
        ensures
            final(self).wf(),
            key < KEY_COUNT ==> final(self)@ == old(self)@.update(key as int, false),
            key >= KEY_COUNT ==> final(self)@ == old(self)@,
    {
        if key < KEY_COUNT as u8 {
            self.keys[key as usize] = false;
        }
    }
}

} // verus!
