//! A coalescing change signal, modeled as a version counter.
//!
//! Producers bump the version on every change; a consumer remembers the
//! version it last observed and only suspends while the current version
//! still matches it. Several notifications between two observations
//! collapse into one version change, which is safe because every consumer
//! re-examines the shared state before deciding to wait again.

use vstd::prelude::*;

verus! {

/// A single-slot, level-triggered notification: a bare version counter.
///
/// The blocking itself (parking a task until the version moves) is left to
/// the surrounding runtime; this type carries the state that makes the
/// protocol correct: a notification never decreases the version, and a
/// waiter that recorded version `v` observes `changed_since(v)` after any
/// later notification.
pub struct ChangeSignal {
    version: u64,
}

impl View for ChangeSignal {
    type V = u64;

    closed spec fn view(&self) -> u64 {
        self.version
    }
}

impl ChangeSignal {
    /// A fresh signal with no change recorded yet.
    pub fn new() -> (r: ChangeSignal)
        ensures
            r@ == 0,
    {
        ChangeSignal { version: 0 }
    }

    /// Publish "something changed": move to a version different from the
    /// current one. Wraps around at the top of the counter's range.
    pub fn notify(&mut self)
        ensures
            final(self)@ != old(self)@,
            old(self)@ < u64::MAX ==> final(self)@ == old(self)@ + 1,
            old(self)@ == u64::MAX ==> final(self)@ == 0,
    {
        if self.version == u64::MAX {
            self.version = 0;
        } else {
            self.version = self.version + 1;
        }
    }

    /// The version a consumer should record before it re-examines state.
    pub fn current(&self) -> (r: u64)
        ensures
            r == self@,
    {
        self.version
    }

    /// Whether a change was published since the consumer observed `seen`.
    /// A consumer may only suspend while this is false, and must re-check
    /// the shared state itself once woken.
    pub fn changed_since(&self, seen: u64) -> (r: bool)
        ensures
            r == (self@ != seen),
    {
        self.version != seen
    }
}

impl Default for ChangeSignal {
    fn default() -> (r: ChangeSignal)
        ensures
            r@ == 0,
    {
        ChangeSignal::new()
    }
}

} // verus!
