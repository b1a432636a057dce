//! Mailboxes: a FIFO queue of messages with a capacity policy, filled through
//! handles and drained by the one driver that owns it.
use vstd::prelude::*;

use crate::{message_timeout, SendError, HEARTBEAT_MILLIS};

verus! {

/// How many messages a mailbox holds before senders have to wait.
#[derive(Debug, Clone, Copy, PartialEq, Eq, Structural)]
pub enum QueueCapacity {
    /// Sends never wait.
    Unbounded,
    /// At most that many queued messages. `Bounded(0)` is a strict hand-off:
    /// a send goes through only to a receiver that is waiting.
    Bounded(usize),
}

/// What a driver gets when it asks its mailbox for the next message.
#[derive(Debug, Clone, Copy, PartialEq, Eq)]
pub enum ReceptionResult<M> {
    /// The oldest queued message.
    Message(M),
    /// Nothing queued within the wait; the mailbox stays open.
    Timeout,
    /// Nothing queued, and the mailbox is closed: no message will ever come.
    Disconnect,
}

/// What became of one attempt to send.
#[derive(Debug, Clone, Copy, PartialEq, Eq)]
pub enum SendAttempt<M> {
    /// The message was queued.
    Sent,
    /// The mailbox is full: the sender waits and tries again with the
    /// message handed back.
    Blocked(M),
    /// The send failed; the message is dropped.
    Failed(SendError),
}

/// The messages of `q` after each message of `ms` was queued, in order.
pub open spec fn after_sends<M>(q: Seq<M>, ms: Seq<M>) -> Seq<M>
    decreases ms.len(),
{
    if ms.len() == 0 {
        q
    } else {
        after_sends(q.push(ms[0]), ms.subrange(1, ms.len() as int))
    }
}

/// The messages that `n` receptions take out of a queue holding `q`.
pub open spec fn received<M>(q: Seq<M>, n: nat) -> Seq<M>
    decreases n,
{
    if n == 0 || q.len() == 0 {
        Seq::empty()
    } else {
        seq![q[0]] + received(q.subrange(1, q.len() as int), (n - 1) as nat)
    }
}

/// A mailbox of capacity `capacity` holding `len` messages has room for one
/// more. A `Bounded(0)` mailbox has room only for a hand-off: when it is
/// empty and its receiver is waiting.
pub open spec fn has_room(capacity: QueueCapacity, receiver_waiting: bool, len: nat) -> bool {
    match capacity {
        QueueCapacity::Unbounded => true,
        QueueCapacity::Bounded(n) => len < n || (n == 0 && receiver_waiting && len == 0),
    }
}

/// A mailbox, open or not, takes one more message without waiting.
pub open spec fn accepts(
    capacity: QueueCapacity,
    open: bool,
    receiver_waiting: bool,
    len: nat,
) -> bool {
    open && has_room(capacity, receiver_waiting, len)
}

/// A mailbox: the queue, its capacity, whether its receiver still exists,
/// and whether that receiver found the queue empty and waits for a message.
pub struct Mailbox<M> {
    queue: Vec<M>,
    capacity: QueueCapacity,
    open: bool,
    receiver_waiting: bool,
}

impl<M> Mailbox<M> {
    pub closed spec fn queue_view(&self) -> Seq<M> {
        self.queue@
    }

    pub closed spec fn capacity_view(&self) -> QueueCapacity {
        self.capacity
    }

    pub closed spec fn is_open_view(&self) -> bool {
        self.open
    }

    pub closed spec fn receiver_waiting_view(&self) -> bool {
        self.receiver_waiting
    }

    /// A bounded queue holds at most its bound, or the one handed-off
    /// message when the bound is 0; a waiting receiver means an empty queue;
    /// a closed mailbox holds nothing and has no waiting receiver.
    pub open spec fn wf(&self) -> bool {
        &&& match self.capacity_view() {
            QueueCapacity::Unbounded => true,
            QueueCapacity::Bounded(n) => self.queue_view().len() <= n || (n == 0
                && self.queue_view().len() <= 1),
        }
        &&& self.receiver_waiting_view() ==> self.queue_view().len() == 0
        &&& !self.is_open_view() ==> self.queue_view().len() == 0
            && !self.receiver_waiting_view()
    }

    /// No room for one more message.
    pub open spec fn spec_is_full(&self) -> bool {
        !has_room(self.capacity_view(), self.receiver_waiting_view(), self.queue_view().len())
    }

    /// An open mailbox with nothing queued and no receiver waiting yet.
    pub fn new(capacity: QueueCapacity) -> (r: Mailbox<M>)
        ensures
            r.wf(),
            r.queue_view() == Seq::<M>::empty(),
            r.capacity_view() == capacity,
            r.is_open_view(),
            !r.receiver_waiting_view(),
    {
        Mailbox { queue: Vec::new(), capacity, open: true, receiver_waiting: false }
    }

    pub fn capacity(&self) -> (r: QueueCapacity)
        ensures
            r == self.capacity_view(),
    {
        self.capacity
    }

    pub fn is_open(&self) -> (r: bool)
        ensures
            r == self.is_open_view(),
    {
        self.open
    }

    pub fn is_receiver_waiting(&self) -> (r: bool)
        ensures
            r == self.receiver_waiting_view(),
    {
        self.receiver_waiting
    }

    pub fn len(&self) -> (r: usize)
        ensures
            r == self.queue_view().len(),
    {
        self.queue.len()
    }

    pub fn is_full(&self) -> (r: bool)
        ensures
            r == self.spec_is_full(),
    {
        match self.capacity {
            QueueCapacity::Unbounded => false,
            QueueCapacity::Bounded(n) => !(self.queue.len() < n || (n == 0 && self.receiver_waiting
                && self.queue.len() == 0)),
        }
    }

    /// Sends without ever waiting: a closed or a full mailbox refuses the
    /// message with `ChannelClosed`.
    pub fn try_send(&mut self, msg: M) -> (r: Result<(), SendError>)
        requires
            old(self).wf(),
        ensures
            final(self).wf(),
            final(self).capacity_view() == old(self).capacity_view(),
            final(self).is_open_view() == old(self).is_open_view(),
            r is Ok <==> old(self).is_open_view() && !old(self).spec_is_full(),
            r is Ok <==> accepts(
                old(self).capacity_view(),
                old(self).is_open_view(),
                old(self).receiver_waiting_view(),
                old(self).queue_view().len(),
            ),
            r is Ok ==> final(self).queue_view() == old(self).queue_view().push(msg)
                && !final(self).receiver_waiting_view(),
            r is Err ==> r == Err::<(), SendError>(SendError::ChannelClosed)
                && final(self).queue_view() == old(self).queue_view()
                && final(self).receiver_waiting_view() == old(self).receiver_waiting_view(),
    {
        if !self.open || self.is_full() {
            Err(SendError::ChannelClosed)
        } else {
            self.queue.push(msg);
            self.receiver_waiting = false;
            Ok(())
        }
    }

    /// One attempt of a send that may wait. `from_owner` tells whether the
    /// sender is the actor that owns this mailbox; `waited_millis` is how
    /// long the sender has been waiting on this message so far.
    ///
    /// A closed mailbox fails with `ChannelClosed`. A full one makes its own
    /// actor fail at once with `WouldDeadlock`, and makes any other sender
    /// wait, up to the message timeout, after which it fails with
    /// `SendTimeout`. Otherwise the message is queued; in particular an open
    /// `Bounded(0)` mailbox whose receiver waits takes it as a hand-off.
    pub fn send(&mut self, msg: M, from_owner: bool, waited_millis: u64) -> (r: SendAttempt<M>)
        requires
            old(self).wf(),
        ensures
            final(self).wf(),
            final(self).capacity_view() == old(self).capacity_view(),
            final(self).is_open_view() == old(self).is_open_view(),
            r is Sent ==> final(self).queue_view() == old(self).queue_view().push(msg)
                && !final(self).receiver_waiting_view(),
            !(r is Sent) ==> final(self).queue_view() == old(self).queue_view()
                && final(self).receiver_waiting_view() == old(self).receiver_waiting_view(),
            !old(self).is_open_view() ==> r == SendAttempt::<M>::Failed(SendError::ChannelClosed),
            old(self).is_open_view() && !old(self).spec_is_full() ==> r is Sent,
            old(self).is_open_view() && old(self).capacity_view() == QueueCapacity::Bounded(0)
                && old(self).receiver_waiting_view() ==> r is Sent,
            old(self).is_open_view() && old(self).spec_is_full() && from_owner ==> r
                == SendAttempt::<M>::Failed(SendError::WouldDeadlock),
            old(self).is_open_view() && old(self).spec_is_full() && !from_owner
                && waited_millis >= HEARTBEAT_MILLIS / 5 ==> r == SendAttempt::<M>::Failed(
                SendError::SendTimeout,
            ),
            old(self).is_open_view() && old(self).spec_is_full() && !from_owner
                && waited_millis < HEARTBEAT_MILLIS / 5 ==> r == SendAttempt::<M>::Blocked(msg),
    {
        if !self.open {
            SendAttempt::Failed(SendError::ChannelClosed)
        } else if !self.is_full() {
            self.queue.push(msg);
            self.receiver_waiting = false;
            SendAttempt::Sent
        } else if from_owner {
            SendAttempt::Failed(SendError::WouldDeadlock)
        } else if waited_millis >= message_timeout() {
            SendAttempt::Failed(SendError::SendTimeout)
        } else {
            SendAttempt::Blocked(msg)
        }
    }

    /// Takes the oldest queued message out. On an empty open mailbox the
    /// receiver is left waiting, which lets a `Bounded(0)` mailbox take a
    /// hand-off.
    pub fn recv(&mut self) -> (r: ReceptionResult<M>)
        requires
            old(self).wf(),
        ensures
            final(self).wf(),
            final(self).capacity_view() == old(self).capacity_view(),
            final(self).is_open_view() == old(self).is_open_view(),
            old(self).queue_view().len() > 0 ==> r == ReceptionResult::Message(
                old(self).queue_view()[0],
            ) && final(self).queue_view() == old(self).queue_view().subrange(
                1,
                old(self).queue_view().len() as int,
            ) && !final(self).receiver_waiting_view(),
            old(self).queue_view().len() == 0 ==> final(self).queue_view() == old(
                self,
            ).queue_view() && final(self).receiver_waiting_view() == old(self).is_open_view()
                && r == if old(self).is_open_view() {
                ReceptionResult::<M>::Timeout
            } else {
                ReceptionResult::<M>::Disconnect
            },
    {
        if self.queue.len() > 0 {
            self.receiver_waiting = false;
            ReceptionResult::Message(self.queue.remove(0))
        } else if self.open {
            self.receiver_waiting = true;
            ReceptionResult::Timeout
        } else {
            ReceptionResult::Disconnect
        }
    }

    /// The receiver goes away: queued messages are dropped and every later
    /// send fails.
    pub fn close(&mut self)
        ensures
            final(self).wf(),
            final(self).capacity_view() == old(self).capacity_view(),
            !final(self).is_open_view(),
            !final(self).receiver_waiting_view(),
            final(self).queue_view() == Seq::<M>::empty(),
    {
        self.open = false;
        self.receiver_waiting = false;
        self.queue = Vec::new();
    }
}

/// Queuing `ms` appends them, in order.
pub proof fn lemma_after_sends<M>(q: Seq<M>, ms: Seq<M>)
    ensures
        after_sends(q, ms) == q + ms,
    decreases ms.len(),
{
    if ms.len() > 0 {
        lemma_after_sends(q.push(ms[0]), ms.subrange(1, ms.len() as int));
        assert(q.push(ms[0]) + ms.subrange(1, ms.len() as int) =~= q + ms);
    }
}

/// Draining a queue hands out its messages from the oldest on.
pub proof fn lemma_received_all<M>(q: Seq<M>)
    ensures
        received(q, q.len()) == q,
    decreases q.len(),
{
    if q.len() > 0 {
        let rest = q.subrange(1, q.len() as int);
        lemma_received_all(rest);
        assert(seq![q[0]] + rest =~= q);
    }
}

/// Messages come out of a mailbox in the order they were sent: after the
/// messages `ms` are queued behind `q`, draining hands out `q` and then `ms`.
pub proof fn law_fifo<M>(q: Seq<M>, ms: Seq<M>)
    ensures
        received(after_sends(q, ms), q.len() + ms.len()) == q + ms,
{
    lemma_after_sends(q, ms);
    lemma_received_all(q + ms);
}

} // verus!
