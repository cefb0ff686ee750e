//! The change-notification channel.
//!
//! A single subscription slot owned by the store handle: at most one
//! registered callback, replaceable by re-registration, with no queuing.
//! The channel itself decides when the callback is owed an invocation and
//! counts the invocations it has ordered; the caller performs the foreign
//! call whenever a mutating entry point reports that the channel fired.

use vstd::prelude::*;

verus! {

/// The single subscription slot. `notified` counts the invocations the
/// channel has ordered so far, the registration confirmations included.
#[derive(Debug)]
pub struct ChangeChannel {
    pub registered: bool,
    pub notified: u64,
}

impl ChangeChannel {
    /// A fresh channel: no callback registered, nothing invoked yet.
    pub fn new() -> (r: ChangeChannel)
        ensures
            !r.registered,
            r.notified == 0,
    {
        ChangeChannel { registered: false, notified: 0 }
    }

    /// Registers a callback, replacing and discarding any earlier one, and
    /// orders one immediate invocation as the confirmation signal.
    pub fn register(&mut self) -> (fire: bool)
        requires
            old(self).notified < u64::MAX,
        ensures
            fire,
            final(self).registered,
            final(self).notified == old(self).notified + 1,
    {
        self.registered = true;
        self.notified = self.notified + 1;
        true
    }

    /// Reports a successful mutation: orders one invocation of the
    /// registered callback, if any; fire-and-forget otherwise.
    pub fn on_mutation(&mut self) -> (fire: bool)
        requires
            old(self).notified < u64::MAX,
        ensures
            fire == old(self).registered,
            final(self).registered == old(self).registered,
            final(self).notified == old(self).notified + (if old(self).registered {
                1int
            } else {
                0int
            }),
    {
        if self.registered {
            self.notified = self.notified + 1;
            true
        } else {
            false
        }
    }
}

} // verus!
