use vstd::prelude::*;

verus! {

/// A countdown timer capability: the engine reads and writes the current
/// value, and the host decrements it at a fixed external cadence.
///
/// `time()` is the abstract current value an implementation must expose;
/// every method is specified against it.
pub trait TimerActions {
    spec fn time(&self) -> u8;

    fn set(&mut self, value: u8)
        ensures
            final(self).time() == value,
    ;

    fn get(&self) -> (value: u8)
        ensures
            value == self.time(),
    ;

    /// Counts down one step, saturating at zero.
    fn decrement(&mut self)
        ensures
            final(self).time() == if old(self).time() > 0 {
                (old(self).time() - 1) as u8
            } else {
                0u8
            },
    ;
}

/// The delay timer: a bare 8-bit countdown value.
pub struct DelayTimer {
    pub value: u8,
}

impl TimerActions for DelayTimer {
    open spec fn time(&self) -> u8 {
        self.value
    }

    fn set(&mut self, value: u8) {
        self.value = value;
    }

    fn get(&self) -> u8 {
        self.value
    }

    fn decrement(&mut self) {
        if self.value > 0 {
            self.value = self.value - 1;
        }
    }
}

} // verus!
