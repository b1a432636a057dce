//! Observations: what an actor last reported of itself, and how its life
//! stands.
use vstd::prelude::*;

verus! {

/// Why an actor stopped.
#[derive(Debug, Clone, Copy, PartialEq, Eq, Structural)]
pub enum ActorTermination {
    /// The actor's own logic asked to stop.
    Finished,
    /// Its mailbox was closed and empty.
    Disconnect,
    /// Its kill switch was found dead.
    KillSwitch,
    /// Its logic failed while processing a message.
    Failure,
}

/// The outcome an observation is tagged with.
#[derive(Debug, Clone, Copy, PartialEq, Eq, Structural)]
pub enum ObservationType {
    Running,
    Terminated(ActorTermination),
    /// Killed by the watchdog for making no progress within a heartbeat.
    Timeout,
}

/// The lifecycle stage a driver reports.
#[derive(Debug, Clone, Copy, PartialEq, Eq, Structural)]
pub enum ActorState {
    /// Inside the actor's logic.
    Processing,
    /// Waiting for the next message.
    Idle,
    /// Stopping: the final observation is being published.
    Terminating,
    Terminated,
}

/// A snapshot of an actor's observable state, with its outcome and the time
/// it was taken.
#[derive(Debug, Clone, Copy, PartialEq, Eq)]
pub struct Observation<S> {
    pub obs_type: ObservationType,
    pub state: S,
    pub timestamp: u64,
}

/// Where a driver publishes its actor's latest observation, and where
/// handles read it.
pub struct ObservationCell<S> {
    latest: Observation<S>,
}

impl<S> ObservationCell<S> {
    pub closed spec fn latest_view(&self) -> Observation<S> {
        self.latest
    }

    /// A cell whose first observation shows `state`, running, at `now`.
    pub fn new(state: S, now: u64) -> (r: ObservationCell<S>)
        ensures
            r.latest_view() == (Observation { obs_type: ObservationType::Running, state, timestamp: now }),
    {
        ObservationCell { latest: Observation { obs_type: ObservationType::Running, state, timestamp: now } }
    }

    /// Publishes a new snapshot, replacing the previous one.
    pub fn publish(&mut self, obs_type: ObservationType, state: S, now: u64)
        ensures
            final(self).latest_view() == (Observation { obs_type, state, timestamp: now }),
    {
        self.latest = Observation { obs_type, state, timestamp: now };
    }

    /// The latest snapshot.
    pub fn observe(&self) -> (r: &Observation<S>)
        ensures
            *r == self.latest_view(),
    {
        &self.latest
    }
}

} // verus!
