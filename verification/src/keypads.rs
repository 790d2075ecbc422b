use vstd::prelude::*;

verus! {

broadcast use vstd::array::group_array_axioms;

/// One snapshot of the sixteen-key hexadecimal keypad: which keys are held
/// down right now, and the key most recently pressed, if any.
pub struct Keypad {
    pub keypad: [bool; 16],
    pub last_pressed: Option<u8>,
}

impl Keypad {
    /// A snapshot only ever reports key indices in `0..16`.
    pub open spec fn wf(&self) -> bool {
        match self.last_pressed {
            Some(k) => k < 16,
            None => true,
        }
    }

    pub fn new() -> (k: Keypad)
        ensures
            k.wf(),
            forall|i: int| 0 <= i < 16 ==> !k.keypad@[i],
            k.last_pressed is None,
    {
        Keypad { keypad: [false; 16], last_pressed: None }
    }
}

} // verus!
