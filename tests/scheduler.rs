use quickwit_actors::mailbox::{Mailbox, QueueCapacity, ReceptionResult};
use quickwit_actors::scheduler::Scheduler;

#[test]
fn entries_come_out_by_deadline_then_insertion() {
    let mut s: Scheduler<&str> = Scheduler::new();
    assert_eq!(s.schedule_after(0, 30, 1, "c"), 0);
    assert_eq!(s.schedule_after(0, 10, 1, "a"), 0);
    assert_eq!(s.schedule_after(5, 5, 2, "b"), 1);
    assert_eq!(s.schedule_after(0, 30, 3, "d"), 3);
    assert_eq!(s.next_deadline(), Some(10));
    let due = s.pop_due(10);
    let got: Vec<(&str, usize)> = due.iter().map(|e| (e.message, e.target)).collect();
    assert_eq!(got, vec![("a", 1), ("b", 2)]);
    assert_eq!(s.len(), 2);
    assert!(s.pop_due(29).is_empty());
    let rest: Vec<&str> = s.pop_due(30).iter().map(|e| e.message).collect();
    assert_eq!(rest, vec!["c", "d"]);
    assert_eq!(s.next_deadline(), None);
}

#[test]
fn deadline_saturates() {
    let mut s: Scheduler<u8> = Scheduler::new();
    s.schedule_after(u64::MAX - 1, 10, 0, 1);
    assert_eq!(s.next_deadline(), Some(u64::MAX));
    assert_eq!(s.pop_due(u64::MAX).len(), 1);
}

#[test]
fn due_entries_are_offered_to_their_mailboxes() {
    let mut s: Scheduler<u32> = Scheduler::new();
    let mut mailboxes = vec![
        Mailbox::new(QueueCapacity::Unbounded),
        Mailbox::new(QueueCapacity::Bounded(1)),
        Mailbox::new(QueueCapacity::Unbounded),
    ];
    mailboxes[2].close();
    s.schedule_after(0, 10, 0, 1);
    s.schedule_after(0, 10, 1, 2);
    s.schedule_after(0, 20, 1, 3);
    s.schedule_after(0, 20, 2, 4);
    s.schedule_after(0, 20, 7, 5);
    s.schedule_after(0, 20, 0, 6);
    s.schedule_after(0, 50, 0, 7);
    assert_eq!(s.deliver_due(5, &mut mailboxes), 0);
    assert_eq!(s.deliver_due(20, &mut mailboxes), 6);
    assert_eq!(s.len(), 1);
    assert_eq!(mailboxes[0].recv(), ReceptionResult::Message(1));
    assert_eq!(mailboxes[0].recv(), ReceptionResult::Message(6));
    assert_eq!(mailboxes[0].recv(), ReceptionResult::Timeout);
    assert_eq!(mailboxes[1].recv(), ReceptionResult::Message(2));
    assert_eq!(mailboxes[1].recv(), ReceptionResult::Timeout);
    assert_eq!(mailboxes[2].recv(), ReceptionResult::Disconnect);
    assert_eq!(s.deliver_due(60, &mut mailboxes), 1);
    assert_eq!(mailboxes[0].recv(), ReceptionResult::Message(7));
}
