//! The life of the multishot receive on the hot-plug socket.
use vstd::prelude::*;

verus! {

/// Where the hot-plug receive stands.
#[derive(Debug, PartialEq, Eq, Clone, Copy, Structural)]
pub enum Listener {
    /// The receive is armed; the kernel feeds it.
    Armed,
    /// A receive failed and is being submitted again.
    Draining,
    /// Submitting it again failed; the context has to be rebuilt.
    Broken,
}

impl Listener {
    /// A receive completed without data. Unless the listener is broken, it
    /// goes to draining, and the receive is to be submitted again.
    pub fn receive_failed(&mut self) -> (rearm: bool)
        ensures
            rearm == (*old(self) != Listener::Broken),
            *final(self) == (if *old(self) == Listener::Broken {
                Listener::Broken
            } else {
                Listener::Draining
            }),
    {
        match *self {
            Listener::Broken => false,
            _ => {
                *self = Listener::Draining;
                true
            },
        }
    }

    /// The receive was submitted again, successfully or not. A draining
    /// listener is armed again after a success and broken after a failure.
    pub fn rearmed(&mut self, ok: bool)
        ensures
            *old(self) == Listener::Draining ==> *final(self) == (if ok {
                Listener::Armed
            } else {
                Listener::Broken
            }),
            *old(self) != Listener::Draining ==> *final(self) == *old(self),
    {
        if *self == Listener::Draining {
            *self = if ok {
                Listener::Armed
            } else {
                Listener::Broken
            };
        }
    }

    /// Whether the context can no longer receive hot-plug frames.
    pub fn is_broken(&self) -> (r: bool)
        ensures
            r == (*self == Listener::Broken),
    {
        *self == Listener::Broken
    }
}

} // verus!
