//! Cancellation by the user: the first request asks the running exchange to
//! stop, a second one while the first is pending ends the process at once.

use std::sync::atomic::{AtomicBool, Ordering};
use std::sync::Arc;
use vstd::prelude::*;

verus! {

/// What to do on a cancellation request.
#[derive(Clone, Copy, Debug, PartialEq, Eq, Structural)]
pub enum SignalAction {
    /// Mark the exchange as cancelled and let it unwind.
    RequestStop,
    /// A stop was already requested: terminate now.
    ForceExit,
}

/// The policy for a cancellation request, given whether one came before.
pub open spec fn signal_action_spec(already_requested: bool) -> SignalAction {
    if already_requested {
        SignalAction::ForceExit
    } else {
        SignalAction::RequestStop
    }
}

pub fn signal_action(already_requested: bool) -> (r: SignalAction)
    ensures
        r == signal_action_spec(already_requested),
{
    if already_requested {
        SignalAction::ForceExit
    } else {
        SignalAction::RequestStop
    }
}

/// A cancellation flag shared between the signal handler and the exchange.
#[derive(Clone, Debug)]
pub struct Interruptor(Arc<AtomicBool>);

impl Interruptor {
    pub fn new() -> (r: Self) {
        Interruptor(Arc::new(AtomicBool::new(false)))
    }

    pub fn set(&self) {
        self.0.store(true, Ordering::SeqCst)
    }

    pub fn is_set(&self) -> (r: bool) {
        self.0.load(Ordering::SeqCst)
    }

    /// Handles one cancellation request: reads the flag, decides by
    /// `signal_action` on the value read, and raises the flag when asking to
    /// stop.  Returns the value read and the decision.
    pub fn on_signal(&self) -> (r: (bool, SignalAction))
        ensures
            r.1 == signal_action_spec(r.0),
    {
        let was_set = self.is_set();
        let action = signal_action(was_set);
        if action == SignalAction::RequestStop {
            self.set();
        }
        (was_set, action)
    }
}

} // verus!
