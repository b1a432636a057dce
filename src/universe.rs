//! The universe: the kill-switch tree, the record of every spawned actor,
//! the driver's lifecycle decisions and the heartbeat watchdog.
use vstd::prelude::*;

use crate::kill_switch::{descends, KillSwitch, KillSwitchTree};
use crate::observation::{ActorState, ActorTermination, ObservationType};
use crate::mailbox::Mailbox;
use crate::scheduler::{spec_deadline, ScheduledEntry, Scheduler};
use crate::HEARTBEAT_MILLIS;

verus! {

/// What the universe keeps of one actor.
#[derive(Debug, Clone, Copy, PartialEq, Eq, Structural)]
pub struct ActorRecord {
    /// The actor's branch of the kill-switch tree.
    pub switch: KillSwitch,
    /// When the actor last recorded progress, in milliseconds.
    pub last_progress: u64,
    pub state: ActorState,
    pub obs_type: ObservationType,
}

/// Something that happened to a driver.
#[derive(Debug, Clone, Copy, PartialEq, Eq, Structural)]
pub enum DriverEvent {
    /// A message was taken out of the mailbox.
    Received,
    /// No message came within the receive timeout.
    ReceiveTimeout,
    /// The mailbox is closed and empty.
    Disconnected,
    /// The actor's logic finished processing a message and goes on.
    Processed,
    /// The actor's logic finished processing a message and ends, with this
    /// reason (`Finished`, or `Failure` when it failed).
    Stop(ActorTermination),
    /// The final observation was published.
    FinalPublished,
}

/// What the driver does next.
#[derive(Debug, Clone, Copy, PartialEq, Eq, Structural)]
pub enum DriverAction {
    /// Hand the received message to the actor's logic.
    Process,
    /// Wait for the next message.
    Receive,
    /// Publish the final observation, then report `FinalPublished`.
    PublishFinal,
    /// Leave the loop.
    Exit,
}

/// The actor is still running: idle or processing.
pub open spec fn is_running(r: ActorRecord) -> bool {
    r.state is Idle || r.state is Processing
}

/// A running actor that recorded no progress for more than a heartbeat.
pub open spec fn is_stalled(r: ActorRecord, now: u64) -> bool {
    is_running(r) && r.last_progress <= now && now - r.last_progress > HEARTBEAT_MILLIS
}

/// The outcome tag an actor stops with: a watchdog timeout is kept, any
/// other stop takes `reason`.
pub open spec fn final_obs(r: ActorRecord, reason: ActorTermination) -> ObservationType {
    if r.obs_type is Timeout {
        ObservationType::Timeout
    } else {
        ObservationType::Terminated(reason)
    }
}

/// The record entering `Terminating` for `reason`.
pub open spec fn terminating(r: ActorRecord, reason: ActorTermination) -> ActorRecord {
    ActorRecord { state: ActorState::Terminating, obs_type: final_obs(r, reason), ..r }
}

/// The driver's decision: the actor's next record, and what to do.
/// `alive` is whether the actor's kill switch is alive; `now` the time.
///
/// A dead switch is seen at every poll point (a message taken, a receive
/// timeout, the end of a message) and stops the actor. A taken message
/// counts as progress. Events that do not fit the current stage change
/// nothing.
pub open spec fn step(r: ActorRecord, alive: bool, event: DriverEvent, now: u64) -> (
    ActorRecord,
    DriverAction,
) {
    match r.state {
        ActorState::Idle => match event {
            DriverEvent::Received => if alive {
                (
                    ActorRecord { state: ActorState::Processing, last_progress: now, ..r },
                    DriverAction::Process,
                )
            } else {
                (terminating(r, ActorTermination::KillSwitch), DriverAction::PublishFinal)
            },
            DriverEvent::ReceiveTimeout => if alive {
                (r, DriverAction::Receive)
            } else {
                (terminating(r, ActorTermination::KillSwitch), DriverAction::PublishFinal)
            },
            DriverEvent::Disconnected => (
                terminating(r, ActorTermination::Disconnect),
                DriverAction::PublishFinal,
            ),
            _ => (r, DriverAction::Receive),
        },
        ActorState::Processing => match event {
            DriverEvent::Processed => if alive {
                (ActorRecord { state: ActorState::Idle, ..r }, DriverAction::Receive)
            } else {
                (terminating(r, ActorTermination::KillSwitch), DriverAction::PublishFinal)
            },
            DriverEvent::Stop(reason) => (terminating(r, reason), DriverAction::PublishFinal),
            _ => (r, DriverAction::Process),
        },
        ActorState::Terminating => match event {
            DriverEvent::FinalPublished => (
                ActorRecord { state: ActorState::Terminated, ..r },
                DriverAction::Exit,
            ),
            _ => (r, DriverAction::PublishFinal),
        },
        ActorState::Terminated => (r, DriverAction::Exit),
    }
}

/// The universe: one kill-switch tree whose root is the universe's own
/// switch, and the record of every spawned actor, indexed by actor id.
pub struct Universe {
    switches: KillSwitchTree,
    actors: Vec<ActorRecord>,
}

impl Universe {
    pub closed spec fn tree(&self) -> KillSwitchTree {
        self.switches
    }

    pub closed spec fn actors_view(&self) -> Seq<ActorRecord> {
        self.actors@
    }

    /// The tree is well formed and every actor's switch belongs to it.
    pub open spec fn wf(&self) -> bool {
        &&& self.tree().wf()
        &&& forall|a: int|
            0 <= a < self.actors_view().len() ==> self.tree().holds(
                #[trigger] self.actors_view()[a].switch,
            )
    }

    /// Whether actor `a`'s switch is alive.
    pub open spec fn spec_actor_alive(&self, a: int) -> bool {
        self.tree().alive_view()[self.actors_view()[a].switch.id as int]
    }

    /// The switch flags after the watchdog ran at `now`: every switch in the
    /// branch of a stalled actor is dead.
    pub open spec fn watchdog_alive(&self, now: u64) -> Seq<bool> {
        Seq::new(
            self.tree().len(),
            |i: int|
                self.tree().alive_view()[i] && !exists|a: int|
                    0 <= a < self.actors_view().len() && is_stalled(
                        #[trigger] self.actors_view()[a],
                        now,
                    ) && descends(self.tree().parents_view(), i, self.actors_view()[a].switch.id as int),
        )
    }

    /// The records after the watchdog ran at `now`: stalled actors are
    /// tagged `Timeout`.
    pub open spec fn watchdog_actors(&self, now: u64) -> Seq<ActorRecord> {
        Seq::new(
            self.actors_view().len(),
            |a: int|
                if is_stalled(self.actors_view()[a], now) {
                    ActorRecord { obs_type: ObservationType::Timeout, ..self.actors_view()[a] }
                } else {
                    self.actors_view()[a]
                },
        )
    }

    /// A universe with its root switch alive and no actor.
    pub fn new() -> (r: Universe)
        ensures
            r.wf(),
            r.tree().alive_view() == seq![true],
            r.actors_view() == Seq::<ActorRecord>::empty(),
    {
        Universe { switches: KillSwitchTree::new(), actors: Vec::new() }
    }

    pub fn num_actors(&self) -> (r: usize)
        ensures
            r == self.actors_view().len(),
    {
        self.actors.len()
    }

    pub fn actor(&self, a: usize) -> (r: ActorRecord)
        requires
            a < self.actors_view().len(),
        ensures
            r == self.actors_view()[a as int],
    {
        self.actors[a]
    }

    pub fn is_actor_alive(&self, a: usize) -> (r: bool)
        requires
            self.wf(),
            a < self.actors_view().len(),
        ensures
            r == self.spec_actor_alive(a as int),
    {
        self.switches.is_alive(self.actors[a].switch)
    }

    /// Whether every actor's driver has reached `Terminated`: joining the
    /// universe is then over.
    pub fn all_terminated(&self) -> (r: bool)
        ensures
            r == forall|a: int|
                0 <= a < self.actors_view().len() ==> (#[trigger] self.actors_view()[a]).state is Terminated,
    {
        let mut i: usize = 0;
        while i < self.actors.len()
            invariant
                i <= self.actors@.len(),
                forall|a: int| 0 <= a < i ==> (#[trigger] self.actors@[a]).state is Terminated,
            decreases self.actors@.len() - i,
        {
            if !matches!(self.actors[i].state, ActorState::Terminated) {
                return false;
            }
            i = i + 1;
        }
        true
    }

    /// The outcome tag of every actor, by actor id.
    pub fn outcomes(&self) -> (r: Vec<ObservationType>)
        ensures
            r@.len() == self.actors_view().len(),
            forall|a: int| 0 <= a < r@.len() ==> #[trigger] r@[a] == self.actors_view()[a].obs_type,
    {
        let mut out: Vec<ObservationType> = Vec::new();
        let mut i: usize = 0;
        while i < self.actors.len()
            invariant
                i <= self.actors@.len(),
                out@.len() == i,
                forall|a: int| 0 <= a < i ==> #[trigger] out@[a] == self.actors@[a].obs_type,
            decreases self.actors@.len() - i,
        {
            out.push(self.actors[i].obs_type);
            i = i + 1;
        }
        out
    }

    /// Spawns an actor at `now`, on a new switch forked from the actor
    /// `parent`'s switch, or from the root when there is none. It starts idle
    /// and running, with its progress recorded at `now`. Returns its id.
    pub fn spawn(&mut self, parent: Option<usize>, now: u64) -> (r: usize)
        requires
            old(self).wf(),
            parent matches Some(p) ==> p < old(self).actors_view().len(),
            old(self).tree().len() < usize::MAX,
        ensures
            final(self).wf(),
            r == old(self).actors_view().len(),
            final(self).tree().parents_view() == old(self).tree().parents_view().push(
                Some(
                    match parent {
                        Some(p) => old(self).actors_view()[p as int].switch.id,
                        None => 0,
                    },
                ),
            ),
            final(self).tree().alive_view() == old(self).tree().alive_view().push(
                old(self).tree().alive_view()[match parent {
                    Some(p) => old(self).actors_view()[p as int].switch.id as int,
                    None => 0,
                }],
            ),
            final(self).actors_view() == old(self).actors_view().push(
                ActorRecord {
                    switch: KillSwitch { id: old(self).tree().len() as usize },
                    last_progress: now,
                    state: ActorState::Idle,
                    obs_type: ObservationType::Running,
                },
            ),
    {
        let from = match parent {
            Some(p) => self.actors[p].switch,
            None => self.switches.root(),
        };
        let switch = self.switches.fork_child(from);
        let id = self.actors.len();
        self.actors.push(
            ActorRecord {
                switch,
                last_progress: now,
                state: ActorState::Idle,
                obs_type: ObservationType::Running,
            },
        );
        proof {
            assert forall|a: int| 0 <= a < self.actors@.len() implies self.switches.holds(
                #[trigger] self.actors@[a].switch,
            ) by {
                if a < id {
                    assert(self.actors@[a] == old(self).actors@[a]);
                }
            }
        }
        id
    }

    /// Records progress of actor `a` at `now`.
    pub fn record_progress(&mut self, a: usize, now: u64)
        requires
            old(self).wf(),
            a < old(self).actors_view().len(),
        ensures
            final(self).wf(),
            final(self).tree() == old(self).tree(),
            final(self).actors_view() == old(self).actors_view().update(
                a as int,
                ActorRecord { last_progress: now, ..old(self).actors_view()[a as int] },
            ),
    {
        let mut rec = self.actors[a];
        rec.last_progress = now;
        self.actors.set(a, rec);
        proof {
            assert forall|b: int| 0 <= b < self.actors@.len() implies self.switches.holds(
                #[trigger] self.actors@[b].switch,
            ) by {
                assert(self.actors@[b].switch == old(self).actors@[b].switch);
            }
        }
    }

    /// Kills actor `a`'s branch: the actor and every actor forked under it.
    pub fn kill(&mut self, a: usize)
        requires
            old(self).wf(),
            a < old(self).actors_view().len(),
        ensures
            final(self).wf(),
            final(self).actors_view() == old(self).actors_view(),
            final(self).tree().parents_view() == old(self).tree().parents_view(),
            final(self).tree().alive_view() == old(self).tree().killed_view(
                old(self).actors_view()[a as int].switch.id as int,
            ),
    {
        let s = self.actors[a].switch;
        self.switches.kill(s);
    }

    /// Kills the root switch, and with it every actor of the universe.
    pub fn kill_all(&mut self)
        requires
            old(self).wf(),
        ensures
            final(self).wf(),
            final(self).actors_view() == old(self).actors_view(),
            final(self).tree().parents_view() == old(self).tree().parents_view(),
            final(self).tree().alive_view() == old(self).tree().killed_view(0),
    {
        let root = self.switches.root();
        self.switches.kill(root);
    }

    /// Runs the driver of actor `a` one step on `event` at `now`, and
    /// returns what the driver does next. A failure kills the actor's own
    /// branch, as a kill would.
    pub fn on_event(&mut self, a: usize, event: DriverEvent, now: u64) -> (r: DriverAction)
        requires
            old(self).wf(),
            a < old(self).actors_view().len(),
        ensures
            final(self).wf(),
            final(self).tree().parents_view() == old(self).tree().parents_view(),
            ({
                let (rec, act) = step(
                    old(self).actors_view()[a as int],
                    old(self).spec_actor_alive(a as int),
                    event,
                    now,
                );
                &&& r == act
                &&& final(self).actors_view() == old(self).actors_view().update(a as int, rec)
                &&& final(self).tree().alive_view() == if rec.state is Terminating
                    && rec.obs_type == ObservationType::Terminated(ActorTermination::Failure)
                    && !(old(self).actors_view()[a as int].state is Terminating) {
                    old(self).tree().killed_view(rec.switch.id as int)
                } else {
                    old(self).tree().alive_view()
                }
            }),
    {
        let rec = self.actors[a];
        let alive = self.switches.is_alive(rec.switch);
        let (next, action) = match rec.state {
            ActorState::Idle => match event {
                DriverEvent::Received => if alive {
                    (
                        ActorRecord { state: ActorState::Processing, last_progress: now, ..rec },
                        DriverAction::Process,
                    )
                } else {
                    (stop_record(rec, ActorTermination::KillSwitch), DriverAction::PublishFinal)
                },
                DriverEvent::ReceiveTimeout => if alive {
                    (rec, DriverAction::Receive)
                } else {
                    (stop_record(rec, ActorTermination::KillSwitch), DriverAction::PublishFinal)
                },
                DriverEvent::Disconnected => (
                    stop_record(rec, ActorTermination::Disconnect),
                    DriverAction::PublishFinal,
                ),
                _ => (rec, DriverAction::Receive),
            },
            ActorState::Processing => match event {
                DriverEvent::Processed => if alive {
                    (ActorRecord { state: ActorState::Idle, ..rec }, DriverAction::Receive)
                } else {
                    (stop_record(rec, ActorTermination::KillSwitch), DriverAction::PublishFinal)
                },
                DriverEvent::Stop(reason) => (stop_record(rec, reason), DriverAction::PublishFinal),
                _ => (rec, DriverAction::Process),
            },
            ActorState::Terminating => match event {
                DriverEvent::FinalPublished => (
                    ActorRecord { state: ActorState::Terminated, ..rec },
                    DriverAction::Exit,
                ),
                _ => (rec, DriverAction::PublishFinal),
            },
            ActorState::Terminated => (rec, DriverAction::Exit),
        };
        self.actors.set(a, next);
        let failed = match (rec.state, next.state, next.obs_type) {
            (
                ActorState::Idle,
                ActorState::Terminating,
                ObservationType::Terminated(ActorTermination::Failure),
            ) => true,
            (
                ActorState::Processing,
                ActorState::Terminating,
                ObservationType::Terminated(ActorTermination::Failure),
            ) => true,
            _ => false,
        };
        if failed {
            self.switches.kill(next.switch);
        }
        proof {
            assert forall|b: int| 0 <= b < self.actors@.len() implies self.switches.holds(
                #[trigger] self.actors@[b].switch,
            ) by {
                assert(self.actors@[b].switch == old(self).actors@[b].switch);
            }
        }
        action
    }

    /// Closes the mailbox of every actor whose switch is dead; mailbox `j`
    /// belongs to actor `j`. Senders to a killed actor then fail.
    pub fn close_dead_mailboxes<M>(&self, mailboxes: &mut Vec<Mailbox<M>>)
        requires
            self.wf(),
            forall|j: int| 0 <= j < old(mailboxes)@.len() ==> (#[trigger] old(mailboxes)@[j]).wf(),
        ensures
            final(mailboxes)@.len() == old(mailboxes)@.len(),
            forall|j: int|
                0 <= j < old(mailboxes)@.len() ==> {
                    let before = #[trigger] old(mailboxes)@[j];
                    let after = final(mailboxes)@[j];
                    &&& after.wf()
                    &&& if j < self.actors_view().len() && !self.spec_actor_alive(j) {
                        &&& after.capacity_view() == before.capacity_view()
                        &&& !after.is_open_view()
                        &&& !after.receiver_waiting_view()
                        &&& after.queue_view() == Seq::<M>::empty()
                    } else {
                        after == before
                    }
                },
    {
        let ghost start = mailboxes@;
        let n = mailboxes.len();
        let mut j: usize = 0;
        while j < n
            invariant
                self.wf(),
                n == start.len(),
                mailboxes@.len() == n,
                j <= n,
                forall|i: int| j <= i < n ==> #[trigger] mailboxes@[i] == start[i],
                forall|i: int|
                    0 <= i < j ==> {
                        let before = #[trigger] start[i];
                        let after = mailboxes@[i];
                        &&& after.wf()
                        &&& if i < self.actors_view().len() && !self.spec_actor_alive(i) {
                            &&& after.capacity_view() == before.capacity_view()
                            &&& !after.is_open_view()
                            &&& !after.receiver_waiting_view()
                            &&& after.queue_view() == Seq::<M>::empty()
                        } else {
                            after == before
                        }
                    },
                forall|i: int| 0 <= i < n ==> (#[trigger] start[i]).wf(),
            decreases n - j,
        {
            if j < self.actors.len() && !self.is_actor_alive(j) {
                let mut mb = mailboxes.remove(j);
                mb.close();
                mailboxes.insert(j, mb);
            }
            proof {
                let _ = start[j as int];
            }
            j = j + 1;
        }
    }

    /// One beat of the universe at `now`: the watchdog runs first, then
    /// the mailboxes of actors with a dead switch are closed, then the
    /// scheduler offers what is due. So a message scheduled for an actor that
    /// this very beat kills is dropped, never delivered.
    pub fn tick<M>(&mut self, now: u64, scheduler: &mut Scheduler<M>, mailboxes: &mut Vec<Mailbox<M>>) -> (r: usize)
        requires
            old(self).wf(),
            old(scheduler).wf(),
            forall|j: int| 0 <= j < old(mailboxes)@.len() ==> (#[trigger] old(mailboxes)@[j]).wf(),
        ensures
            final(self).wf(),
            final(self).tree().parents_view() == old(self).tree().parents_view(),
            final(self).tree().alive_view() == old(self).watchdog_alive(now),
            final(self).actors_view() == old(self).watchdog_actors(now),
            final(scheduler).wf(),
            r <= old(scheduler).entries_view().len(),
            final(scheduler).entries_view() == old(scheduler).entries_view().skip(r as int),
            forall|i: int| 0 <= i < r ==> #[trigger] old(scheduler).entries_view()[i].deadline <= now,
            forall|i: int|
                0 <= i < final(scheduler).entries_view().len() ==> now
                    < #[trigger] final(scheduler).entries_view()[i].deadline,
            final(mailboxes)@.len() == old(mailboxes)@.len(),
            forall|j: int| 0 <= j < final(mailboxes)@.len() ==> (#[trigger] final(mailboxes)@[j]).wf(),
            forall|j: int|
                0 <= j < old(mailboxes)@.len() && j < old(self).actors_view().len()
                    && !old(self).watchdog_alive(now)[old(self).actors_view()[j].switch.id as int]
                    ==> !(#[trigger] final(mailboxes)@[j]).is_open_view()
                    && final(mailboxes)@[j].queue_view() == Seq::<M>::empty(),
            forall|j: int|
                0 <= j < old(mailboxes)@.len() && (j >= old(self).actors_view().len()
                    || old(self).watchdog_alive(now)[old(self).actors_view()[j].switch.id as int])
                    ==> (#[trigger] final(mailboxes)@[j]).queue_view() == crate::scheduler::queue_after_delivery(
                    old(mailboxes)@[j].queue_view(),
                    old(mailboxes)@[j].capacity_view(),
                    old(mailboxes)@[j].is_open_view(),
                    old(mailboxes)@[j].receiver_waiting_view(),
                    old(scheduler).entries_view().take(r as int),
                    j,
                ),
    {
        self.watchdog_tick(now);
        let ghost mid = mailboxes@;
        self.close_dead_mailboxes(mailboxes);
        let ghost closed = mailboxes@;
        proof {
            assert forall|j: int| 0 <= j < closed.len() implies (#[trigger] closed[j]).wf() by {
                let _ = mid[j];
            }
        }
        let r = scheduler.deliver_due(now, mailboxes);
        proof {
            assert forall|j: int|
                0 <= j < old(mailboxes)@.len() && j < old(self).actors_view().len()
                    && !old(self).watchdog_alive(now)[old(self).actors_view()[j].switch.id as int]
                    implies !(#[trigger] mailboxes@[j]).is_open_view()
                    && mailboxes@[j].queue_view() == Seq::<M>::empty() by {
                let _ = mid[j];
                let _ = closed[j];
                lemma_closed_gets_nothing(
                    closed[j].queue_view(),
                    closed[j].capacity_view(),
                    closed[j].receiver_waiting_view(),
                    old(scheduler).entries_view().take(r as int),
                    j,
                );
            }
            assert forall|j: int|
                0 <= j < old(mailboxes)@.len() && (j >= old(self).actors_view().len()
                    || old(self).watchdog_alive(now)[old(self).actors_view()[j].switch.id as int])
                    implies (#[trigger] mailboxes@[j]).queue_view() == crate::scheduler::queue_after_delivery(
                    old(mailboxes)@[j].queue_view(),
                    old(mailboxes)@[j].capacity_view(),
                    old(mailboxes)@[j].is_open_view(),
                    old(mailboxes)@[j].receiver_waiting_view(),
                    old(scheduler).entries_view().take(r as int),
                    j,
                ) by {
                let _ = mid[j];
                let _ = closed[j];
            }
        }
        r
    }

    /// The heartbeat watchdog, run at `now`: every running actor that
    /// recorded no progress for more than a heartbeat has its branch killed
    /// and is tagged `Timeout`. Other actors keep their records.
    pub fn watchdog_tick(&mut self, now: u64)
        requires
            old(self).wf(),
        ensures
            final(self).wf(),
            final(self).tree().parents_view() == old(self).tree().parents_view(),
            final(self).tree().alive_view() == old(self).watchdog_alive(now),
            final(self).actors_view() == old(self).watchdog_actors(now),
    {
        let ghost start = *self;
        let ghost parents = self.switches.parents_view();
        let n = self.actors.len();
        let mut a: usize = 0;
        while a < n
            invariant
                self.wf(),
                n == self.actors@.len(),
                n == start.actors@.len(),
                a <= n,
                start.wf(),
                self.switches.parents_view() == parents,
                start.switches.parents_view() == parents,
                forall|b: int|
                    #![trigger self.actors@[b]]
                    0 <= b < n ==> self.actors@[b].switch == start.actors@[b].switch,
                forall|b: int|
                    0 <= b < a ==> #[trigger] self.actors@[b] == start.watchdog_actors(now)[b],
                forall|b: int| a <= b < n ==> #[trigger] self.actors@[b] == start.actors@[b],
                self.switches.alive_view() == Seq::new(
                    parents.len(),
                    |i: int|
                        start.switches.alive_view()[i] && !exists|b: int|
                            0 <= b < a && is_stalled(#[trigger] start.actors@[b], now) && descends(
                                parents,
                                i,
                                start.actors@[b].switch.id as int,
                            ),
                ),
            decreases n - a,
        {
            let rec = self.actors[a];
            let ghost alive_before = self.switches.alive_view();
            let stalled = match rec.state {
                ActorState::Idle => rec.last_progress <= now && now - rec.last_progress
                    > HEARTBEAT_MILLIS,
                ActorState::Processing => rec.last_progress <= now && now - rec.last_progress
                    > HEARTBEAT_MILLIS,
                _ => false,
            };
            assert(self.actors@[a as int] == start.actors@[a as int]);
            if stalled {
                self.switches.kill(rec.switch);
                self.actors.set(a, ActorRecord { obs_type: ObservationType::Timeout, ..rec });
            }
            proof {
                let next = a + 1;
                let target = Seq::new(
                    parents.len(),
                    |i: int|
                        start.switches.alive_view()[i] && !exists|b: int|
                            0 <= b < next && is_stalled(#[trigger] start.actors@[b], now)
                                && descends(parents, i, start.actors@[b].switch.id as int),
                );
                assert forall|i: int| 0 <= i < parents.len() implies self.switches.alive_view()[i]
                    == target[i] by {
                    if stalled && descends(parents, i, rec.switch.id as int) {
                        assert(is_stalled(start.actors@[a as int], now));
                    }
                    if !stalled {
                        assert(!is_stalled(start.actors@[a as int], now));
                    }
                }
                assert(self.switches.alive_view() =~= target);
                assert forall|b: int| 0 <= b < n implies self.switches.holds(
                    #[trigger] self.actors@[b].switch,
                ) by {
                    assert(self.actors@[b].switch == start.actors@[b].switch);
                }
            }
            a = a + 1;
        }
        proof {
            assert(self.actors@ =~= start.watchdog_actors(now));
            assert(self.switches.alive_view() =~= start.watchdog_alive(now));
        }
    }
}

/// What an actor's logic is handed with each message: the actor's id and
/// its branch of the kill-switch tree.
pub struct ActorContext {
    actor: usize,
    switch: KillSwitch,
}

impl ActorContext {
    pub closed spec fn actor_view(&self) -> usize {
        self.actor
    }

    pub closed spec fn switch_view(&self) -> KillSwitch {
        self.switch
    }

    /// The context names an actor of `u`, with that actor's switch.
    pub open spec fn belongs_to(&self, u: &Universe) -> bool {
        &&& self.actor_view() < u.actors_view().len()
        &&& u.actors_view()[self.actor_view() as int].switch == self.switch_view()
    }

    /// The context of actor `a`.
    pub fn new(u: &Universe, a: usize) -> (r: ActorContext)
        requires
            a < u.actors_view().len(),
        ensures
            r.actor_view() == a,
            r.belongs_to(u),
    {
        ActorContext { actor: a, switch: u.actor(a).switch }
    }

    pub fn actor_id(&self) -> (r: usize)
        ensures
            r == self.actor_view(),
    {
        self.actor
    }

    pub fn kill_switch(&self) -> (r: KillSwitch)
        ensures
            r == self.switch_view(),
    {
        self.switch
    }

    /// Whether the actor's switch is still alive.
    pub fn is_alive(&self, u: &Universe) -> (r: bool)
        requires
            u.wf(),
            self.belongs_to(u),
        ensures
            r == u.spec_actor_alive(self.actor_view() as int),
    {
        u.is_actor_alive(self.actor)
    }

    /// Records progress at `now`, for long work on a single message.
    pub fn record_progress(&self, u: &mut Universe, now: u64)
        requires
            old(u).wf(),
            self.belongs_to(old(u)),
        ensures
            final(u).wf(),
            self.belongs_to(final(u)),
            final(u).tree() == old(u).tree(),
            final(u).actors_view() == old(u).actors_view().update(
                self.actor_view() as int,
                ActorRecord { last_progress: now, ..old(u).actors_view()[self.actor_view() as int] },
            ),
    {
        u.record_progress(self.actor, now);
    }

    /// Spawns a child actor at `now`, on a new switch forked from this
    /// actor's switch, and returns the child's context.
    pub fn spawn_child(&self, u: &mut Universe, now: u64) -> (r: ActorContext)
        requires
            old(u).wf(),
            self.belongs_to(old(u)),
            old(u).tree().len() < usize::MAX,
        ensures
            final(u).wf(),
            r.belongs_to(final(u)),
            self.belongs_to(final(u)),
            r.actor_view() == old(u).actors_view().len(),
            final(u).tree().parents_view() == old(u).tree().parents_view().push(
                Some(self.switch_view().id),
            ),
            final(u).tree().alive_view() == old(u).tree().alive_view().push(
                old(u).tree().alive_view()[self.switch_view().id as int],
            ),
            final(u).actors_view() == old(u).actors_view().push(
                ActorRecord {
                    switch: KillSwitch { id: old(u).tree().len() as usize },
                    last_progress: now,
                    state: ActorState::Idle,
                    obs_type: ObservationType::Running,
                },
            ),
    {
        let child = u.spawn(Some(self.actor), now);
        ActorContext { actor: child, switch: u.actor(child).switch }
    }

    /// Schedules `message` for the actor `target`, `delay` after `now`
    /// (saturating). The entry goes after every entry due no later and
    /// before every entry due later. Returns its position in the queue.
    pub fn schedule<M>(
        &self,
        scheduler: &mut Scheduler<M>,
        now: u64,
        delay: u64,
        target: usize,
        message: M,
    ) -> (r: usize)
        requires
            old(scheduler).wf(),
        ensures
            final(scheduler).wf(),
            r <= old(scheduler).entries_view().len(),
            final(scheduler).entries_view() == old(scheduler).entries_view().insert(
                r as int,
                ScheduledEntry { deadline: spec_deadline(now, delay), target, message },
            ),
            forall|j: int|
                0 <= j < r ==> #[trigger] old(scheduler).entries_view()[j].deadline
                    <= spec_deadline(now, delay),
            forall|j: int|
                r <= j < old(scheduler).entries_view().len() ==> spec_deadline(now, delay)
                    < #[trigger] old(scheduler).entries_view()[j].deadline,
    {
        scheduler.schedule_after(now, delay, target, message)
    }

    /// Schedules `message` for this very actor, `delay` after `now`, in
    /// the same order as `schedule`.
    pub fn schedule_self<M>(&self, scheduler: &mut Scheduler<M>, now: u64, delay: u64, message: M) -> (r: usize)
        requires
            old(scheduler).wf(),
        ensures
            final(scheduler).wf(),
            r <= old(scheduler).entries_view().len(),
            final(scheduler).entries_view() == old(scheduler).entries_view().insert(
                r as int,
                ScheduledEntry { deadline: spec_deadline(now, delay), target: self.actor_view(), message },
            ),
            forall|j: int|
                0 <= j < r ==> #[trigger] old(scheduler).entries_view()[j].deadline
                    <= spec_deadline(now, delay),
            forall|j: int|
                r <= j < old(scheduler).entries_view().len() ==> spec_deadline(now, delay)
                    < #[trigger] old(scheduler).entries_view()[j].deadline,
    {
        scheduler.schedule_after(now, delay, self.actor, message)
    }
}

/// The record entering `Terminating` for `reason`.
fn stop_record(r: ActorRecord, reason: ActorTermination) -> (s: ActorRecord)
    ensures
        s == terminating(r, reason),
{
    let obs_type = match r.obs_type {
        ObservationType::Timeout => ObservationType::Timeout,
        _ => ObservationType::Terminated(reason),
    };
    ActorRecord { state: ActorState::Terminating, obs_type, ..r }
}

/// Nothing is ever queued into a closed, empty mailbox.
pub proof fn lemma_closed_gets_nothing<M>(
    q: Seq<M>,
    capacity: crate::mailbox::QueueCapacity,
    receiver_waiting: bool,
    due: Seq<ScheduledEntry<M>>,
    j: int,
)
    requires
        q.len() == 0,
    ensures
        crate::scheduler::queue_after_delivery(q, capacity, false, receiver_waiting, due, j) == q,
    decreases due.len(),
{
    if due.len() > 0 {
        lemma_closed_gets_nothing(q, capacity, receiver_waiting, due.drop_last(), j);
    }
}

/// Killing the universe's root switch leaves every switch dead, so every
/// actor's switch among them, and the drivers then stop: see
/// `law_dead_switch_stops_driver`.
pub proof fn law_kill_all_kills_every_actor(u: &Universe)
    requires
        u.wf(),
    ensures
        forall|i: int| 0 <= i < u.tree().len() ==> !(#[trigger] u.tree().killed_view(0)[i]),
        forall|a: int|
            0 <= a < u.actors_view().len() ==> !u.tree().killed_view(0)[(
            #[trigger] u.actors_view()[a]).switch.id as int],
{
    crate::kill_switch::law_kill_root_kills_all(&u.tree());
    assert forall|a: int| 0 <= a < u.actors_view().len() implies !u.tree().killed_view(0)[(
    #[trigger] u.actors_view()[a]).switch.id as int] by {
        assert(u.tree().holds(u.actors_view()[a].switch));
    }
}

/// A driver whose switch is dead stops at its next poll point: a taken
/// message, a receive timeout or the end of the current message all lead
/// to `Terminating`, and the final publication to `Terminated`, which is
/// never left. No event brings a stopping driver back to running.
pub proof fn law_dead_switch_stops_driver(r: ActorRecord, event: DriverEvent, now: u64)
    ensures
        r.state is Idle ==> step(r, false, DriverEvent::Received, now).0.state is Terminating
            && step(r, false, DriverEvent::ReceiveTimeout, now).0.state is Terminating,
        r.state is Processing ==> step(r, false, DriverEvent::Processed, now).0.state is Terminating,
        r.state is Terminating ==> step(r, false, DriverEvent::FinalPublished, now).0.state is Terminated,
        !is_running(r) ==> !is_running(step(r, false, event, now).0),
        r.state is Terminated ==> step(r, false, event, now).0 == r,
{
}

/// A running actor that recorded no progress for more than a heartbeat is
/// killed by the watchdog, with its whole branch, and tagged `Timeout`;
/// when its driver then stops, the final observation keeps `Timeout`.
pub proof fn law_stalled_actor_is_killed(
    u: &Universe,
    a: int,
    now: u64,
    event: DriverEvent,
    later: u64,
)
    requires
        u.wf(),
        0 <= a < u.actors_view().len(),
        is_stalled(u.actors_view()[a], now),
    ensures
        !u.watchdog_alive(now)[u.actors_view()[a].switch.id as int],
        forall|i: int|
            0 <= i < u.tree().len() && descends(
                u.tree().parents_view(),
                i,
                u.actors_view()[a].switch.id as int,
            ) ==> !(#[trigger] u.watchdog_alive(now)[i]),
        u.watchdog_actors(now)[a].obs_type is Timeout,
        step(u.watchdog_actors(now)[a], false, event, later).0.obs_type is Timeout,
{
    assert(u.tree().holds(u.actors_view()[a].switch));
    assert forall|i: int|
        0 <= i < u.tree().len() && descends(
            u.tree().parents_view(),
            i,
            u.actors_view()[a].switch.id as int,
        ) implies !(#[trigger] u.watchdog_alive(now)[i]) by {
        assert(is_stalled(u.actors_view()[a], now));
    }
    assert(descends(u.tree().parents_view(), u.actors_view()[a].switch.id as int, u.actors_view()[a].switch.id as int));
}

/// With beats one heartbeat apart, the first at `w0` no later than one
/// heartbeat after `t0`, some beat falls after `t0 + HEARTBEAT` and no later
/// than `t0 + 2 * HEARTBEAT`. An actor running since its last progress at
/// `t0` is killed by the watchdog at that beat, so `tick` closes and empties
/// its mailbox there, no later than the deadline of a message it scheduled
/// for itself two heartbeats after `t0`: that message is never delivered.
pub proof fn law_stalled_actor_killed_before_delayed_message(
    u: &Universe,
    a: int,
    w0: u64,
    t0: u64,
)
    requires
        u.wf(),
        0 <= a < u.actors_view().len(),
        is_running(u.actors_view()[a]),
        u.actors_view()[a].last_progress == t0,
        w0 <= t0 + HEARTBEAT_MILLIS,
        t0 + 2 * HEARTBEAT_MILLIS <= u64::MAX,
    ensures
        exists|k: nat|
            {
                let w = w0 + k * HEARTBEAT_MILLIS;
                &&& t0 + HEARTBEAT_MILLIS < w <= t0 + 2 * HEARTBEAT_MILLIS
                &&& !(#[trigger] u.watchdog_alive((w0 + k * HEARTBEAT_MILLIS) as u64))[u.actors_view()[a].switch.id as int]
            },
{
    let k: nat = ((t0 + HEARTBEAT_MILLIS - w0) / (HEARTBEAT_MILLIS as int) + 1) as nat;
    let w = w0 + k * HEARTBEAT_MILLIS;
    assert(t0 + HEARTBEAT_MILLIS < w <= t0 + 2 * HEARTBEAT_MILLIS);
    law_stalled_actor_is_killed(u, a, w as u64, DriverEvent::ReceiveTimeout, w as u64);
}

} // verus!
