//! A mailbox with one slot. What is sent replaces what was waiting, so that
//! of the messages of one tick only the last is read.

use vstd::prelude::*;

verus! {

pub struct Mailbox<T> {
    pub slot: Option<T>,
}

impl<T> Mailbox<T> {
    /// The mailbox after `message` was sent to it.
    pub open spec fn sent(self, message: T) -> Mailbox<T> {
        Mailbox { slot: Some(message) }
    }

    /// The mailbox after it was drained.
    pub open spec fn drained(self) -> Mailbox<T> {
        Mailbox { slot: None }
    }

    /// The mailbox after all of `messages` were sent to it, one after the other.
    pub open spec fn sent_all(self, messages: Seq<T>) -> Mailbox<T>
        decreases messages.len(),
    {
        if messages.len() == 0 {
            self
        } else {
            self.sent_all(messages.drop_last()).sent(messages.last())
        }
    }

    pub fn new() -> (r: Mailbox<T>)
        ensures
            r.slot is None,
    {
        Mailbox { slot: None }
    }

    /// Puts `message` in the slot, in place of what was there.
    pub fn send(&mut self, message: T)
        ensures
            *final(self) == old(self).sent(message),
    {
        self.slot = Some(message);
    }

    /// Takes out what is waiting and leaves the slot empty.
    pub fn drain(&mut self) -> (r: Option<T>)
        ensures
            r == old(self).slot,
            *final(self) == old(self).drained(),
    {
        self.slot.take()
    }

    pub fn is_empty(&self) -> (r: bool)
        ensures
            r == (self.slot is None),
    {
        self.slot.is_none()
    }

    /// Of the messages sent since the mailbox was last drained, the last one
    /// is the one that is read: the others are dropped.
    pub proof fn lemma_last_write_wins(self, messages: Seq<T>)
        requires
            messages.len() > 0,
        ensures
            self.sent_all(messages).slot == Some(messages.last()),
            self.sent_all(messages).drained().slot is None,
    {
    }
}

} // verus!
