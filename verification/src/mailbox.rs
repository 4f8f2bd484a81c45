//! A mailbox of depth one: how one task asks for another to run.
//!
//! A task is activated by posting its argument.  While an activation is
//! pending, a second one does not fit: it is handed back to the sender,
//! who decides what to do about it.  Nothing is dropped silently and
//! nothing aborts.

use vstd::prelude::*;

verus! {

/// A slot for one pending activation with its argument.
#[derive(Debug)]
pub struct Mailbox<T> {
    pub slot: Option<T>,
}

impl<T> View for Mailbox<T> {
    type V = Option<T>;

    open spec fn view(&self) -> Option<T> {
        self.slot
    }
}

/// The content of a mailbox after a post.
pub open spec fn posted<T>(content: Option<T>, item: T) -> Option<T> {
    match content {
        None => Some(item),
        Some(_) => content,
    }
}

impl<T> Mailbox<T> {
    /// An empty mailbox.
    pub fn new() -> (m: Self)
        ensures
            m@ is None,
    {
        Mailbox { slot: None }
    }

    /// Whether an activation is pending.
    pub fn is_pending(&self) -> (r: bool)
        ensures
            r == self@ is Some,
    {
        self.slot.is_some()
    }

    /// Posts an activation.  Into an empty mailbox it goes; from a full
    /// one it comes back as the error, and what is pending stays.
    pub fn post(&mut self, item: T) -> (r: Result<(), T>)
        ensures
            final(self)@ == posted(old(self)@, item),
            r == (if old(self)@ is None {
                Ok::<(), T>(())
            } else {
                Err::<(), T>(item)
            }),
    {
        if self.slot.is_some() {
            return Err(item);
        }
        self.slot = Some(item);
        Ok(())
    }

    /// Takes the pending activation out, if there is one, and leaves the
    /// mailbox empty.
    pub fn take(&mut self) -> (r: Option<T>)
        ensures
            r == old(self)@,
            final(self)@ is None,
    {
        self.slot.take()
    }
}

} // verus!
