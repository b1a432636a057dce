//! The scheduler: messages waiting for their delivery time, ordered by
//! deadline, with entries of equal deadline kept in the order they came.
use vstd::prelude::*;

use crate::mailbox::{accepts, Mailbox, QueueCapacity};

verus! {

/// A message to deliver to the actor `target` once `deadline` is reached.
pub struct ScheduledEntry<M> {
    pub deadline: u64,
    pub target: usize,
    pub message: M,
}

/// `now + delay`, or the largest time when that does not fit.
pub open spec fn spec_deadline(now: u64, delay: u64) -> u64 {
    if now + delay > u64::MAX {
        u64::MAX
    } else {
        (now + delay) as u64
    }
}

/// Deadlines never go down along the queue.
pub open spec fn sorted<M>(s: Seq<ScheduledEntry<M>>) -> bool {
    forall|i: int, j: int| 0 <= i <= j < s.len() ==> s[i].deadline <= s[j].deadline
}

/// The queue of the mailbox with id `j` (of capacity `capacity`, open or
/// not, holding `q` before, with its receiver waiting or not) once each
/// entry of `due` was offered, in order, to the mailbox it targets. An entry
/// the mailbox cannot take is dropped. A waiting receiver stays waiting
/// until a message is queued.
pub open spec fn queue_after_delivery<M>(
    q: Seq<M>,
    capacity: QueueCapacity,
    open: bool,
    receiver_waiting: bool,
    due: Seq<ScheduledEntry<M>>,
    j: int,
) -> Seq<M>
    decreases due.len(),
{
    if due.len() == 0 {
        q
    } else {
        let prev = queue_after_delivery(q, capacity, open, receiver_waiting, due.drop_last(), j);
        let e = due.last();
        if e.target == j && accepts(capacity, open, receiver_waiting && prev.len() == 0, prev.len()) {
            prev.push(e.message)
        } else {
            prev
        }
    }
}

pub struct Scheduler<M> {
    entries: Vec<ScheduledEntry<M>>,
}

impl<M> Scheduler<M> {
    pub closed spec fn entries_view(&self) -> Seq<ScheduledEntry<M>> {
        self.entries@
    }

    pub open spec fn wf(&self) -> bool {
        sorted(self.entries_view())
    }

    pub fn new() -> (r: Scheduler<M>)
        ensures
            r.wf(),
            r.entries_view() == Seq::<ScheduledEntry<M>>::empty(),
    {
        Scheduler { entries: Vec::new() }
    }

    pub fn len(&self) -> (r: usize)
        ensures
            r == self.entries_view().len(),
    {
        self.entries.len()
    }

    /// The earliest deadline waiting, if any.
    pub fn next_deadline(&self) -> (r: Option<u64>)
        requires
            self.wf(),
        ensures
            self.entries_view().len() == 0 ==> r is None,
            self.entries_view().len() > 0 ==> r == Some(self.entries_view()[0].deadline),
    {
        if self.entries.len() == 0 {
            None
        } else {
            Some(self.entries[0].deadline)
        }
    }

    /// Schedules `message` for `target` at `now + delay` (saturating). The
    /// entry goes after every entry due no later, and before every entry due
    /// later: equal deadlines are delivered in the order they were scheduled.
    /// Returns the entry's position in the queue.
    pub fn schedule_after(&mut self, now: u64, delay: u64, target: usize, message: M) -> (r:
        usize)
        requires
            old(self).wf(),
        ensures
            final(self).wf(),
            r <= old(self).entries_view().len(),
            final(self).entries_view() == old(self).entries_view().insert(
                r as int,
                ScheduledEntry { deadline: spec_deadline(now, delay), target, message },
            ),
            forall|j: int|
                0 <= j < r ==> #[trigger] old(self).entries_view()[j].deadline <= spec_deadline(
                    now,
                    delay,
                ),
            forall|j: int|
                r <= j < old(self).entries_view().len() ==> spec_deadline(now, delay)
                    < #[trigger] old(self).entries_view()[j].deadline,
    {
        let deadline = if delay > u64::MAX - now {
            u64::MAX
        } else {
            now + delay
        };
        let mut k: usize = 0;
        while k < self.entries.len() && self.entries[k].deadline <= deadline
            invariant
                k <= self.entries@.len(),
                self.entries@ == old(self).entries@,
                sorted(self.entries@),
                forall|j: int| 0 <= j < k ==> #[trigger] self.entries@[j].deadline <= deadline,
            decreases self.entries@.len() - k,
        {
            k = k + 1;
        }
        let ghost before = self.entries@;
        self.entries.insert(k, ScheduledEntry { deadline, target, message });
        proof {
            let after = self.entries@;
            assert forall|i: int, j: int| 0 <= i <= j < after.len() implies after[i].deadline
                <= after[j].deadline by {
                if k < before.len() {
                    assert(deadline < before[k as int].deadline);
                }
                if i < k && j > k {
                    assert(after[j] == before[j - 1]);
                } else if i > k {
                    assert(after[i] == before[i - 1]);
                    assert(after[j] == before[j - 1]);
                }
            }
        }
        k
    }

    /// Takes out every entry whose deadline is reached, in delivery order.
    /// Those are a prefix of the queue; what stays is all due later.
    pub fn pop_due(&mut self, now: u64) -> (r: Vec<ScheduledEntry<M>>)
        requires
            old(self).wf(),
        ensures
            final(self).wf(),
            r@ + final(self).entries_view() == old(self).entries_view(),
            forall|j: int| 0 <= j < r@.len() ==> #[trigger] r@[j].deadline <= now,
            forall|j: int|
                0 <= j < final(self).entries_view().len() ==> now
                    < #[trigger] final(self).entries_view()[j].deadline,
    {
        let mut due: Vec<ScheduledEntry<M>> = Vec::new();
        while self.entries.len() > 0 && self.entries[0].deadline <= now
            invariant
                sorted(self.entries@),
                due@ + self.entries@ == old(self).entries@,
                forall|j: int| 0 <= j < due@.len() ==> #[trigger] due@[j].deadline <= now,
            decreases self.entries@.len(),
        {
            let ghost before = self.entries@;
            let e = self.entries.remove(0);
            let ghost prev_due = due@;
            due.push(e);
            proof {
                assert(self.entries@ =~= before.subrange(1, before.len() as int));
                assert(due@ + self.entries@ =~= prev_due + before);
                assert(sorted(self.entries@)) by {
                    assert forall|i: int, j: int|
                        0 <= i <= j < self.entries@.len() implies self.entries@[i].deadline
                        <= self.entries@[j].deadline by {
                        assert(self.entries@[i] == before[i + 1]);
                        assert(self.entries@[j] == before[j + 1]);
                    }
                }
            }
        }
        proof {
            if self.entries@.len() > 0 {
                assert forall|j: int| 0 <= j < self.entries@.len() implies now
                    < #[trigger] self.entries@[j].deadline by {
                    assert(self.entries@[0].deadline <= self.entries@[j].deadline);
                }
            }
        }
        due
    }

    /// Takes out every entry due at `now` and offers each, in delivery
    /// order, to the mailbox whose index is its target, without waiting.
    /// Entries that their mailbox refuses, or whose target is no mailbox,
    /// are dropped. Returns how many entries were due.
    pub fn deliver_due(&mut self, now: u64, mailboxes: &mut Vec<Mailbox<M>>) -> (r: usize)
        requires
            old(self).wf(),
            forall|j: int| 0 <= j < old(mailboxes)@.len() ==> (#[trigger] old(mailboxes)@[j]).wf(),
        ensures
            final(self).wf(),
            r <= old(self).entries_view().len(),
            final(self).entries_view() == old(self).entries_view().skip(r as int),
            forall|i: int| 0 <= i < r ==> #[trigger] old(self).entries_view()[i].deadline <= now,
            forall|i: int|
                0 <= i < final(self).entries_view().len() ==> now
                    < #[trigger] final(self).entries_view()[i].deadline,
            final(mailboxes)@.len() == old(mailboxes)@.len(),
            forall|j: int|
                0 <= j < old(mailboxes)@.len() ==> {
                    let before = #[trigger] old(mailboxes)@[j];
                    let after = final(mailboxes)@[j];
                    &&& after.wf()
                    &&& after.capacity_view() == before.capacity_view()
                    &&& after.is_open_view() == before.is_open_view()
                    &&& after.receiver_waiting_view() == (before.receiver_waiting_view()
                        && after.queue_view().len() == 0)
                    &&& after.queue_view() == queue_after_delivery(
                        before.queue_view(),
                        before.capacity_view(),
                        before.is_open_view(),
                        before.receiver_waiting_view(),
                        old(self).entries_view().take(r as int),
                        j,
                    )
                },
    {
        let mut due = self.pop_due(now);
        let ghost all = due@;
        let ghost start = mailboxes@;
        proof {
            assert(all =~= old(self).entries_view().take(all.len() as int));
            assert(self.entries_view() =~= old(self).entries_view().skip(all.len() as int));
        }
        let n = due.len();
        let mut k: usize = 0;
        while k < n
            invariant
                n == all.len(),
                k <= n,
                due@ == all.skip(k as int),
                mailboxes@.len() == start.len(),
                forall|j: int|
                    0 <= j < start.len() ==> {
                        let before = #[trigger] start[j];
                        let cur = mailboxes@[j];
                        &&& cur.wf()
                        &&& cur.capacity_view() == before.capacity_view()
                        &&& cur.is_open_view() == before.is_open_view()
                        &&& cur.receiver_waiting_view() == (before.receiver_waiting_view()
                            && cur.queue_view().len() == 0)
                        &&& cur.queue_view() == queue_after_delivery(
                            before.queue_view(),
                            before.capacity_view(),
                            before.is_open_view(),
                            before.receiver_waiting_view(),
                            all.take(k as int),
                            j,
                        )
                    },
            decreases n - k,
        {
            let ghost prev = mailboxes@;
            let e = due.remove(0);
            proof {
                assert(due@ =~= all.skip(k + 1));
                assert(e == all[k as int]);
                assert(all.take(k + 1).drop_last() =~= all.take(k as int));
                assert(all.take(k + 1).last() == all[k as int]);
            }
            if e.target < mailboxes.len() {
                let t = e.target;
                let mut mb = mailboxes.remove(t);
                proof {
                    let _ = start[t as int];
                    assert(mb == prev[t as int]);
                }
                let _ = mb.try_send(e.message);
                mailboxes.insert(t, mb);
                proof {
                    assert forall|j: int| 0 <= j < start.len() && j != t implies #[trigger] mailboxes@[j]
                        == prev[j] by {
                        if j < t {
                            assert(mailboxes@[j] == prev[j]);
                        } else {
                            assert(mailboxes@[j] == prev[j]);
                        }
                    }
                }
            }
            k = k + 1;
        }
        proof {
            assert(all.take(n as int) =~= all);
            assert(old(self).entries_view().take(n as int) =~= all);
        }
        n
    }
}

} // verus!
