//! The sixteen-key input pad.
//!
//! The pad is a snapshot of "is logical key k currently held" flags, indexed
//! 0x0 through 0xF. Mapping physical input events to these indices is the
//! embedding program's concern; the core only reads and sets the flags.

use vstd::prelude::*;

verus! {

/// Snapshot of the sixteen logical key states.
pub struct Keypad {
    keys: Vec<bool>,
}

impl View for Keypad {
    type V = Seq<bool>;

    closed spec fn view(&self) -> Seq<bool> {
        self.keys@
    }
}

impl Keypad {
    /// There is one flag per logical key.
    pub open spec fn wf(&self) -> bool {
        self@.len() == 16
    }

    /// A fresh pad with no key held.
    pub fn new() -> (r: Keypad)
        ensures
            r.wf(),
            forall|k: int| 0 <= k < 16 ==> !r@[k],
    {
        let mut keys: Vec<bool> = Vec::new();
        let mut k: usize = 0;
        while k < 16
            invariant
                k <= 16,
                keys@.len() == k,
                forall|j: int| 0 <= j < k ==> !keys@[j],
            decreases 16 - k,
        {
            keys.push(false);
            k = k + 1;
        }
        Keypad { keys }
    }

    /// Whether the key with the given index is currently held.
    pub fn pressed(&self, index: usize) -> (r: bool)
        requires
            self.wf(),
            index < 16,
        ensures
            r == self@[index as int],
    {
        self.keys[index]
    }

    /// Records the key with the given index as held.
    pub fn press_key(&mut self, index: usize)
        requires
            old(self).wf(),
            index < 16,
        ensures
            final(self).wf(),
            final(self)@ == old(self)@.update(index as int, true),
    {
        self.keys[index] = true;
    }
}

} // verus!
