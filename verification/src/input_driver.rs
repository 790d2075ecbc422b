use vstd::prelude::*;

use crate::keypads::Keypad;

verus! {

/// A source of keypad snapshots, polled once per engine cycle.
///
/// Nothing can be promised about which keys a host reports; the contract
/// only asks that a snapshot is well-formed.  `Err(())` is the terminate
/// signal: the host is shutting down and the run loop must stop cleanly.
pub trait EventPollable {
    fn poll(&mut self) -> (r: Result<Keypad, ()>)
        ensures
            r matches Ok(k) ==> k.wf(),
    ;
}

} // verus!
