use quickwit_actors::mailbox::{Mailbox, QueueCapacity, ReceptionResult, SendAttempt};
use quickwit_actors::SendError;

fn drain(mailbox: &mut Mailbox<u32>) -> Vec<u32> {
    let mut out = Vec::new();
    while let ReceptionResult::Message(m) = mailbox.recv() {
        out.push(m);
    }
    out
}

#[test]
fn messages_come_out_in_send_order() {
    let mut mailbox = Mailbox::new(QueueCapacity::Unbounded);
    for m in [5u32, 1, 4, 1, 3] {
        assert_eq!(mailbox.send(m, false, 0), SendAttempt::Sent);
    }
    assert_eq!(drain(&mut mailbox), vec![5, 1, 4, 1, 3]);
    assert_eq!(mailbox.recv(), ReceptionResult::Timeout);
}

#[test]
fn interleaved_sends_and_receives_keep_order() {
    let mut mailbox = Mailbox::new(QueueCapacity::Bounded(3));
    assert_eq!(mailbox.try_send(1u32), Ok(()));
    assert_eq!(mailbox.try_send(2), Ok(()));
    assert_eq!(mailbox.recv(), ReceptionResult::Message(1));
    assert_eq!(mailbox.try_send(3), Ok(()));
    assert_eq!(drain(&mut mailbox), vec![2, 3]);
}

#[test]
fn self_send_to_full_bounded_one_would_deadlock() {
    let mut mailbox = Mailbox::new(QueueCapacity::Bounded(1));
    assert_eq!(mailbox.send(10u32, false, 0), SendAttempt::Sent);
    assert_eq!(
        mailbox.send(11, true, 0),
        SendAttempt::Failed(SendError::WouldDeadlock)
    );
    assert_eq!(mailbox.send(12, false, 0), SendAttempt::Blocked(12));
    assert_eq!(mailbox.recv(), ReceptionResult::Message(10));
    assert_eq!(mailbox.send(12, false, 50), SendAttempt::Sent);
    assert_eq!(mailbox.len(), 1);
}

#[test]
fn self_send_with_room_is_queued() {
    let mut mailbox = Mailbox::new(QueueCapacity::Bounded(1));
    assert_eq!(mailbox.send(7u32, true, 0), SendAttempt::Sent);
    assert_eq!(mailbox.recv(), ReceptionResult::Message(7));
}

#[test]
fn third_send_to_bounded_two_waits_until_consumed() {
    let mut a = Mailbox::new(QueueCapacity::Bounded(2));
    assert_eq!(a.send(1u32, false, 0), SendAttempt::Sent);
    assert_eq!(a.send(2, false, 0), SendAttempt::Sent);
    assert_eq!(a.send(3, false, 0), SendAttempt::Blocked(3));
    assert_eq!(a.send(3, false, 100), SendAttempt::Blocked(3));
    assert_eq!(a.recv(), ReceptionResult::Message(1));
    assert_eq!(a.send(3, false, 150), SendAttempt::Sent);
    assert_eq!(drain(&mut a), vec![2, 3]);
}

#[test]
fn blocked_send_fails_when_receiver_is_killed() {
    let mut a = Mailbox::new(QueueCapacity::Bounded(2));
    assert_eq!(a.send(1u32, false, 0), SendAttempt::Sent);
    assert_eq!(a.send(2, false, 0), SendAttempt::Sent);
    assert_eq!(a.send(3, false, 0), SendAttempt::Blocked(3));
    a.close();
    assert_eq!(
        a.send(3, false, 10),
        SendAttempt::Failed(SendError::ChannelClosed)
    );
    assert_eq!(a.recv(), ReceptionResult::Disconnect);
}

#[test]
fn zero_capacity_hands_off_to_a_waiting_receiver() {
    let mut a = Mailbox::new(QueueCapacity::Bounded(0));
    assert!(a.is_full());
    assert_eq!(a.try_send(1u32), Err(SendError::ChannelClosed));
    assert_eq!(a.send(1, false, 0), SendAttempt::Blocked(1));
    assert_eq!(a.recv(), ReceptionResult::Timeout);
    assert!(a.is_receiver_waiting());
    assert!(!a.is_full());
    assert_eq!(a.send(1, false, 10), SendAttempt::Sent);
    assert!(!a.is_receiver_waiting());
    assert_eq!(a.send(2, false, 10), SendAttempt::Blocked(2));
    assert_eq!(a.send(2, true, 10), SendAttempt::Failed(SendError::WouldDeadlock));
    assert_eq!(a.recv(), ReceptionResult::Message(1));
    assert_eq!(a.recv(), ReceptionResult::Timeout);
    assert_eq!(a.try_send(2), Ok(()));
    assert_eq!(a.recv(), ReceptionResult::Message(2));
}

#[test]
fn blocked_send_times_out_after_a_fifth_of_heartbeat() {
    let mut a = Mailbox::new(QueueCapacity::Bounded(0));
    assert_eq!(a.send(1u32, false, 199), SendAttempt::Blocked(1));
    assert_eq!(
        a.send(1, false, 200),
        SendAttempt::Failed(SendError::SendTimeout)
    );
    assert!(a.is_full());
}

#[test]
fn try_send_refuses_full_and_closed() {
    let mut a = Mailbox::new(QueueCapacity::Bounded(1));
    assert_eq!(a.try_send(1u32), Ok(()));
    assert_eq!(a.try_send(2), Err(SendError::ChannelClosed));
    a.close();
    assert!(!a.is_open());
    assert_eq!(a.try_send(3), Err(SendError::ChannelClosed));
    assert_eq!(a.len(), 0);
}

#[test]
fn unbounded_mailbox_never_full() {
    let mut a = Mailbox::new(QueueCapacity::Unbounded);
    for i in 0..1000u32 {
        assert_eq!(a.try_send(i), Ok(()));
    }
    assert!(!a.is_full());
    assert_eq!(a.capacity(), QueueCapacity::Unbounded);
    assert_eq!(a.len(), 1000);
}
