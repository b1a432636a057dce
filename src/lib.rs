//! A small actor runtime, modelled as verified state: a hierarchy of kill
//! switches, FIFO mailboxes with a capacity policy, a deadline-ordered
//! scheduler, a progress registry watched by a heartbeat watchdog, and the
//! per-actor lifecycle that ties them together.
//!
//! Durations are counted in milliseconds.
use flume::SendError as DisconnectedError;
use vstd::prelude::*;

pub mod kill_switch;
pub mod mailbox;
pub mod observation;
pub mod scheduler;
pub mod universe;

verus! {

/// Heartbeat used to verify that actors are progressing, in milliseconds.
///
/// An actor that advertises no progress within one heartbeat is killed,
/// together with every actor under its kill switch.
pub const HEARTBEAT_MILLIS: u64 = 1000;

/// Timeout of a send that waits for room in a bounded mailbox: one fifth of
/// the heartbeat.
pub fn message_timeout() -> (r: u64)
    ensures
        r == HEARTBEAT_MILLIS / 5,
        5 * r == HEARTBEAT_MILLIS,
{
    HEARTBEAT_MILLIS / 5
}

/// Declares flume's send error, which carries back the message that could not
/// be delivered.
#[verifier::external_type_specification]
#[verifier::external_body]
#[verifier::reject_recursive_types(T)]
pub struct ExFlumeSendError<T>(DisconnectedError<T>);

/// Error returned when a message is sent to an actor that cannot take it.
#[derive(Debug, Clone, Copy, PartialEq, Eq, Structural)]
pub enum SendError {
    /// The receiving side of the mailbox no longer exists.
    ChannelClosed,
    /// The sender is the mailbox's own actor and the mailbox is full: waiting
    /// would never end, since only the sender itself could drain it.
    WouldDeadlock,
    /// The receiver did not make room within the send timeout.
    SendTimeout,
}

impl SendError {
    /// Whether the error means, for propagation, that the receiver is gone.
    /// A timed-out send counts as a closed channel.
    pub open spec fn spec_is_channel_closed(&self) -> bool {
        !(*self is WouldDeadlock)
    }

    pub fn is_channel_closed(&self) -> (r: bool)
        ensures
            r == self.spec_is_channel_closed(),
    {
        match self {
            SendError::WouldDeadlock => false,
            _ => true,
        }
    }

    /// The name of the variant, as its `Debug` form writes it.
    pub open spec fn spec_describe(&self) -> Seq<char> {
        match *self {
            SendError::ChannelClosed => "ChannelClosed"@,
            SendError::WouldDeadlock => "WouldDeadlock"@,
            SendError::SendTimeout => "SendTimeout"@,
        }
    }

    /// Text form of the error: the name of its variant.
    pub fn to_string(&self) -> (r: String)
        ensures
            r@ == self.spec_describe(),
    {
        match self {
            SendError::ChannelClosed => "ChannelClosed".to_string(),
            SendError::WouldDeadlock => "WouldDeadlock".to_string(),
            SendError::SendTimeout => "SendTimeout".to_string(),
        }
    }
}

/// A failed flume send means that every receiver was dropped.
impl<T> From<DisconnectedError<T>> for SendError {
    fn from(_send_error: DisconnectedError<T>) -> (r: SendError)
        ensures
            r == SendError::ChannelClosed,
    {
        SendError::ChannelClosed
    }
}

impl<T> vstd::std_specs::convert::FromSpecImpl<DisconnectedError<T>> for SendError {
    open spec fn obeys_from_spec() -> bool {
        true
    }

    open spec fn from_spec(v: DisconnectedError<T>) -> SendError {
        SendError::ChannelClosed
    }
}

} // verus!
