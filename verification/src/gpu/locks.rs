//! The rule of precedence between processes that share the accelerator.
//!
//! Two named locks are shared by all processes of a machine: the device
//! lock, held while the accelerator is used, and the priority lock, held by
//! a process that claims precedence. Taking and probing the locks is the
//! caller's work; what is decided from the answers is decided here.

use vstd::prelude::*;

verus! {

/// The claim of one thread to precedence. The thread that holds the
/// priority lock knows that it does, so that it does not take its own lock
/// for the claim of another.
#[derive(Debug)]
pub struct PriorityLock {
    is_me: bool,
}

impl PriorityLock {
    /// Whether this thread has claimed precedence.
    pub closed spec fn claimed(&self) -> bool {
        self.is_me
    }

    /// No claim yet.
    pub fn new() -> (lock: PriorityLock)
        ensures
            !lock.claimed(),
    {
        PriorityLock { is_me: false }
    }

    /// Claims precedence. The caller then takes the priority lock, waiting
    /// for it as long as it takes.
    pub fn lock(&mut self)
        ensures
            final(self).claimed(),
    {
        self.is_me = true;
    }

    /// Gives the claim up. The caller has released the priority lock.
    pub fn unlock(&mut self)
        ensures
            !final(self).claimed(),
    {
        self.is_me = false;
    }

    /// Whether this thread may use the device: it may if it has claimed
    /// precedence itself, and else if nobody has, which is what a probe of
    /// the priority lock says. `probe_free` is true where the probe could
    /// take the lock, and false where the lock is held elsewhere or could
    /// not be probed at all.
    pub fn can_lock(&self, probe_free: bool) -> (may: bool)
        ensures
            may == (self.claimed() || probe_free),
    {
        self.is_me || probe_free
    }
}

} // verus!
