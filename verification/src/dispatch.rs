//! Single-flight serialization of command batches.
//!
//! At most one send against the haptic sink is in progress at any time.
//! The dispatcher decides; the embedding performs the send it is handed
//! and reports back when it finishes.  While a send is in flight a newly
//! submitted batch waits as the single pending batch, a newer one
//! replacing an older one (drop-oldest), so a slow sink never queues
//! unbounded work and never interleaves two sends.

use vstd::prelude::*;
use crate::bands::{ActuatorCommand, CommandModel};

verus! {

/// Mathematical image of the dispatcher.
pub struct DispatcherModel {
    pub in_flight: bool,
    pub pending: Option<Seq<CommandModel>>,
}

/// A pending batch only waits while a send is in flight.
pub open spec fn dispatcher_wf(d: DispatcherModel) -> bool {
    d.pending is Some ==> d.in_flight
}

/// Decides which command batch may go to the haptic sink next.
pub struct CommandDispatcher {
    in_flight: bool,
    pending: Option<Vec<ActuatorCommand>>,
}

impl View for CommandDispatcher {
    type V = DispatcherModel;

    closed spec fn view(&self) -> DispatcherModel {
        DispatcherModel {
            in_flight: self.in_flight,
            pending: match self.pending {
                Some(v) => Some(v@.map_values(|c: ActuatorCommand| c@)),
                None => None,
            },
        }
    }
}

impl CommandDispatcher {
    pub fn new() -> (d: Self)
        ensures
            !d@.in_flight,
            d@.pending is None,
            dispatcher_wf(d@),
    {
        CommandDispatcher { in_flight: false, pending: None }
    }

    /// Whether a send is in progress.
    pub fn is_in_flight(&self) -> (r: bool)
        ensures
            r == self@.in_flight,
    {
        self.in_flight
    }

    /// Offer one cycle's batch.  An empty batch is a no-op.  When no send
    /// is in flight the batch is returned for the caller to send and the
    /// dispatcher records it as in flight; otherwise the batch becomes
    /// the pending one, replacing any older pending batch, and nothing
    /// is handed out — never two sends at once.
    pub fn submit(&mut self, batch: Vec<ActuatorCommand>) -> (to_send: Option<
        Vec<ActuatorCommand>,
    >)
        requires
            dispatcher_wf(old(self)@),
        ensures
            dispatcher_wf(final(self)@),
            old(self)@.in_flight ==> to_send is None,
            batch@.len() == 0 ==> to_send is None && final(self)@ == old(self)@,
            batch@.len() > 0 && !old(self)@.in_flight ==> (match to_send {
                Some(s) => s@.map_values(|c: ActuatorCommand| c@) == batch@.map_values(
                    |c: ActuatorCommand| c@,
                ),
                None => false,
            }) && final(self)@.in_flight && final(self)@.pending is None,
            batch@.len() > 0 && old(self)@.in_flight ==> final(self)@.in_flight
                && final(self)@.pending == Some(batch@.map_values(|c: ActuatorCommand| c@)),
    {
        if batch.is_empty() {
            return None;
        }
        if !self.in_flight {
            self.in_flight = true;
            Some(batch)
        } else {
            self.pending = Some(batch);
            None
        }
    }

    /// Report that the in-flight send finished.  A waiting batch is
    /// handed out to be sent next and stays the only one in flight;
    /// with nothing pending the dispatcher goes idle.
    pub fn complete(&mut self) -> (next: Option<Vec<ActuatorCommand>>)
        requires
            dispatcher_wf(old(self)@),
        ensures
            dispatcher_wf(final(self)@),
            !old(self)@.in_flight ==> next is None && final(self)@ == old(self)@,
            old(self)@.in_flight && old(self)@.pending is None ==> next is None
                && !final(self)@.in_flight && final(self)@.pending is None,
            old(self)@.in_flight && old(self)@.pending is Some ==> (match next {
                Some(s) => Some(s@.map_values(|c: ActuatorCommand| c@)) == old(self)@.pending,
                None => false,
            }) && final(self)@.in_flight && final(self)@.pending is None,
    {
        if !self.in_flight {
            return None;
        }
        let mut taken: Option<Vec<ActuatorCommand>> = None;
        core::mem::swap(&mut self.pending, &mut taken);
        match taken {
            Some(batch) => Some(batch),
            None => {
                self.in_flight = false;
                None
            },
        }
    }
}

} // verus!
