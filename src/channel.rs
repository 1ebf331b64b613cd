//! A single-slot mailbox with overwrite semantics: the latest value sent is
//! the one a receiver sees, and receiving empties the slot.

use vstd::prelude::*;

verus! {

/// The slot after sending `value`: whatever it held is overwritten.
pub open spec fn sent<T>(slot: Option<T>, value: T) -> Option<T> {
    Some(value)
}

/// Single-slot channel.
pub struct Channel<T> {
    slot: Option<T>,
}

impl<T> View for Channel<T> {
    type V = Option<T>;

    closed spec fn view(&self) -> Option<T> {
        self.slot
    }
}

impl<T> Channel<T> {
    /// An empty channel.
    pub fn new() -> (r: Channel<T>)
        ensures
            r@ is None,
    {
        Channel { slot: None }
    }

    /// Puts `value` in the slot, replacing what it held. Never blocks.
    pub fn send(&mut self, value: T)
        ensures
            final(self)@ == sent(old(self)@, value),
    {
        self.slot = Some(value);
    }

    /// Takes the value in the slot, if any, and leaves the slot empty.
    pub fn receive(&mut self) -> (r: Option<T>)
        ensures
            r == old(self)@,
            final(self)@ is None,
    {
        self.slot.take()
    }
}

/// Of two sends with no receive between them only the second is seen: the
/// next receive yields it, and the first value is gone.
pub proof fn lemma_last_send_wins<T>(slot: Option<T>, first: T, second: T)
    ensures
        sent(sent(slot, first), second) == Some(second),
{
}

} // verus!
