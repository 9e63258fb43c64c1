//! The logical key state: a sixteen-entry "key currently down" vector, one
//! entry per key value. The platform layer translates its own key events
//! into `set_key` calls and feeds the snapshot to the engine each step.

use vstd::prelude::*;

verus! {

/// Which of the sixteen logical keys are currently held down.
pub struct Input {
    keys_pressed: [bool; 16],
}

impl Input {
    /// No key down.
    pub fn new() -> (r: Input)
        ensures
            r@ == Seq::new(16, |k: int| false),
    {
        let r = Input { keys_pressed: [false; 16] };
        proof {
            assert(r@ =~= Seq::new(16, |k: int| false));
        }
        r
    }

    /// The current snapshot, ready to hand to the engine's step.
    pub fn keys_pressed(&self) -> (r: &[bool; 16])
        ensures
            r@ == self@,
    {
        &self.keys_pressed
    }

    /// Records one key going down or up.
    pub fn set_key(&mut self, key: usize, down: bool)
        requires
            key < 16,
        ensures
            final(self)@ == old(self)@.update(key as int, down),
    {
        self.keys_pressed[key] = down;
    }
}

impl View for Input {
    type V = Seq<bool>;

    closed spec fn view(&self) -> Seq<bool> {
        self.keys_pressed@
    }
}

} // verus!
