//! Wakeup of the worker and of the control window.

use vstd::prelude::*;

verus! {

/// Whether a wakeup is due. A notification that comes before the wait is not lost, and one wait
/// takes all that came.
#[derive(Debug)]
pub struct Signal {
    signaled: bool,
}

impl Signal {
    /// A wakeup is due.
    pub closed spec fn due(self) -> bool {
        self.signaled
    }

    /// No wakeup due.
    pub fn new() -> (r: Signal)
        ensures
            !r.due(),
    {
        Signal { signaled: false }
    }

    /// Ask for a wakeup.
    pub fn notify(&mut self)
        ensures
            final(self).due(),
    {
        self.signaled = true;
    }

    /// Take a due wakeup: true means that the waiter need not block.
    pub fn take(&mut self) -> (r: bool)
        ensures
            r == old(self).due(),
            !final(self).due(),
    {
        let due: bool = self.signaled;
        self.signaled = false;
        due
    }
}

/// Keep the way to wake the control window. The first call wins; later calls change nothing.
pub fn install_ui_ping<T>(slot: &mut Option<T>, tx: T)
    ensures
        *final(slot) == match *old(slot) {
            Some(first) => Some(first),
            None => Some(tx),
        },
{
    if slot.is_none() {
        *slot = Some(tx);
    }
}

/// The way to wake the control window; none until [`install_ui_ping`].
pub fn ping_ui<T>(slot: &Option<T>) -> (r: Option<&T>)
    ensures
        match r {
            Some(tx) => *slot == Some(*tx),
            None => slot is None,
        },
{
    match slot {
        Some(tx) => Some(tx),
        None => None,
    }
}

} // verus!
