//! Keypad state: 16 boolean key flags indexed `0x0`-`0xF`.
//!
//! The flags are written by the input adapter and read by the CPU
//! core. An out-of-domain key index is a programming error in the
//! caller, excluded by precondition rather than handled at run time.

use vstd::prelude::*;

verus! {

/// Number of keys on the keypad.
pub const KEY_COUNT: usize = 16;

/// The CHIP-8 keypad.
pub struct Keyboard {
    /// One pressed-state flag per key, indexed `0x0`-`0xF`.
    pub keys: Vec<bool>,
}

impl Keyboard {
    /// The keypad is well formed when it holds exactly 16 key flags.
    pub open spec fn wf(self) -> bool {
        self.keys@.len() == KEY_COUNT
    }

    /// Creates a keypad with every key released.
    pub fn new() -> (r: Self)
        ensures
            r.wf(),
            forall|k: int| 0 <= k < KEY_COUNT ==> !r.keys@[k],
    {
        let mut keys: Vec<bool> = Vec::new();
        let mut i: usize = 0;
        while i < KEY_COUNT
            invariant
                i <= KEY_COUNT,
                keys@.len() == i,
                forall|k: int| 0 <= k < i ==> !keys@[k],
            decreases KEY_COUNT - i,
        {
            keys.push(false);
            i = i + 1;
        }
        Keyboard { keys }
    }

    /// Records key `index` as pressed or released; no other key
    /// changes.
    pub fn set_key(&mut self, index: u8, pressed: bool)
        requires
            old(self).wf(),
            index < KEY_COUNT,
        ensures
            final(self).wf(),
            final(self).keys@ == old(self).keys@.update(index as int, pressed),
    {
        self.keys.set(index as usize, pressed);
    }

    /// Whether key `index` is currently pressed.
    pub fn is_pressed(&self, index: u8) -> (r: bool)
        requires
            self.wf(),
            index < KEY_COUNT,
        ensures
            r == self.keys@[index as int],
    {
        self.keys[index as usize]
    }

    /// The lowest-numbered pressed key, if any key is pressed. The
    /// blocking key-wait is driven from outside: the instruction loop
    /// polls this until it returns a key.
    pub fn first_pressed(&self) -> (r: Option<u8>)
        requires
            self.wf(),
        ensures
            match r {
                Some(k) => k < KEY_COUNT && self.keys@[k as int] && forall|j: int|
                    0 <= j < k ==> !self.keys@[j],
                None => forall|j: int| 0 <= j < KEY_COUNT ==> !self.keys@[j],
            },
    {
        let mut i: usize = 0;
        while i < KEY_COUNT
            invariant
                self.wf(),
                i <= KEY_COUNT,
                forall|j: int| 0 <= j < i ==> !self.keys@[j],
            decreases KEY_COUNT - i,
        {
            if self.keys[i] {
                return Some(i as u8);
            }
            i = i + 1;
        }
        None
    }
}

} // verus!
