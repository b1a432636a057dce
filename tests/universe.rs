use quickwit_actors::observation::{
    ActorState, ActorTermination, ObservationCell, ObservationType,
};
use quickwit_actors::scheduler::Scheduler;
use quickwit_actors::mailbox::{Mailbox, QueueCapacity};
use quickwit_actors::universe::{ActorContext, DriverAction, DriverEvent, Universe};
use quickwit_actors::{message_timeout, SendError, HEARTBEAT_MILLIS};

#[test]
fn kill_all_stops_every_actor_and_child() {
    let mut u = Universe::new();
    let mut ids = Vec::new();
    for _ in 0..4 {
        let a = u.spawn(None, 0);
        ids.push(a);
        for _ in 0..2 {
            ids.push(u.spawn(Some(a), 0));
        }
    }
    assert_eq!(u.num_actors(), 12);
    assert!(!u.all_terminated());
    u.kill_all();
    for &a in &ids {
        assert!(!u.is_actor_alive(a));
        assert_eq!(u.on_event(a, DriverEvent::ReceiveTimeout, 10), DriverAction::PublishFinal);
        assert_eq!(u.actor(a).state, ActorState::Terminating);
        assert_eq!(u.on_event(a, DriverEvent::FinalPublished, 11), DriverAction::Exit);
        assert_eq!(u.actor(a).state, ActorState::Terminated);
        assert_eq!(
            u.actor(a).obs_type,
            ObservationType::Terminated(ActorTermination::KillSwitch)
        );
    }
    assert!(u.all_terminated());
    assert_eq!(
        u.outcomes(),
        vec![ObservationType::Terminated(ActorTermination::KillSwitch); 12]
    );
}

#[test]
fn stalled_actor_is_killed_with_timeout() {
    let mut u = Universe::new();
    let stuck = u.spawn(None, 0);
    let child = u.spawn(Some(stuck), 0);
    let busy = u.spawn(None, 0);
    assert_eq!(u.on_event(stuck, DriverEvent::Received, 100), DriverAction::Process);
    u.record_progress(busy, 900);
    u.record_progress(child, 900);
    u.watchdog_tick(1000);
    assert!(u.is_actor_alive(stuck));
    u.watchdog_tick(1101);
    assert!(!u.is_actor_alive(stuck));
    assert!(!u.is_actor_alive(child));
    assert!(u.is_actor_alive(busy));
    assert_eq!(u.actor(stuck).obs_type, ObservationType::Timeout);
    assert_eq!(u.actor(child).obs_type, ObservationType::Running);
    assert_eq!(u.on_event(stuck, DriverEvent::Processed, 1200), DriverAction::PublishFinal);
    assert_eq!(u.actor(stuck).obs_type, ObservationType::Timeout);
    assert_eq!(u.on_event(child, DriverEvent::Received, 1200), DriverAction::PublishFinal);
    assert_eq!(
        u.actor(child).obs_type,
        ObservationType::Terminated(ActorTermination::KillSwitch)
    );
}

#[test]
fn received_message_counts_as_progress() {
    let mut u = Universe::new();
    let a = u.spawn(None, 0);
    assert_eq!(u.on_event(a, DriverEvent::Received, 800), DriverAction::Process);
    assert_eq!(u.actor(a).last_progress, 800);
    assert_eq!(u.on_event(a, DriverEvent::Processed, 850), DriverAction::Receive);
    u.watchdog_tick(1700);
    assert!(u.is_actor_alive(a));
    assert_eq!(u.actor(a).state, ActorState::Idle);
}

#[test]
fn delayed_self_message_is_never_delivered_to_stalled_actor() {
    let mut u = Universe::new();
    let mut sched: Scheduler<u32> = Scheduler::new();
    let a = u.spawn(None, 0);
    let ctx = ActorContext::new(&u, a);
    let mut mailboxes = vec![Mailbox::new(QueueCapacity::Unbounded)];
    ctx.schedule_self(&mut sched, 0, 2 * HEARTBEAT_MILLIS, 42);
    let mut now = 0u64;
    let mut killed_at = None;
    while now <= 2 * HEARTBEAT_MILLIS {
        u.watchdog_tick(now);
        if killed_at.is_none() && !ctx.is_alive(&u) {
            killed_at = Some(now);
            mailboxes[a].close();
        }
        sched.deliver_due(now, &mut mailboxes);
        now += HEARTBEAT_MILLIS / 2;
    }
    let t = killed_at.expect("the watchdog kills the actor");
    assert!(t < 2 * HEARTBEAT_MILLIS);
    assert_eq!(sched.len(), 0);
    assert_eq!(mailboxes[a].len(), 0);
    assert_eq!(u.actor(a).obs_type, ObservationType::Timeout);
}

#[test]
fn context_spawns_children_under_its_switch() {
    let mut u = Universe::new();
    let a = u.spawn(None, 0);
    let ctx = ActorContext::new(&u, a);
    assert_eq!(ctx.actor_id(), a);
    let child = ctx.spawn_child(&mut u, 10);
    let grandchild = child.spawn_child(&mut u, 20);
    let sibling = u.spawn(None, 0);
    assert_eq!(u.actor(grandchild.actor_id()).last_progress, 20);
    ctx.record_progress(&mut u, 1500);
    assert_eq!(u.actor(a).last_progress, 1500);
    u.kill(child.actor_id());
    assert!(ctx.is_alive(&u));
    assert!(!child.is_alive(&u));
    assert!(!grandchild.is_alive(&u));
    assert!(u.is_actor_alive(sibling));
    assert_ne!(child.kill_switch(), ctx.kill_switch());
}

#[test]
fn beat_kills_stalled_actor_then_drops_its_delayed_message() {
    let mut u = Universe::new();
    let mut sched: Scheduler<u32> = Scheduler::new();
    let a = u.spawn(None, 0);
    let b = u.spawn(None, 0);
    let mut mailboxes = vec![
        Mailbox::new(QueueCapacity::Unbounded),
        Mailbox::new(QueueCapacity::Unbounded),
    ];
    ActorContext::new(&u, a).schedule_self(&mut sched, 0, 2 * HEARTBEAT_MILLIS, 42);
    ActorContext::new(&u, a).schedule(&mut sched, 0, 2 * HEARTBEAT_MILLIS, b, 43);
    let mut now = 0u64;
    while now <= 2 * HEARTBEAT_MILLIS {
        u.record_progress(b, now);
        u.tick(now, &mut sched, &mut mailboxes);
        now += HEARTBEAT_MILLIS;
    }
    assert!(!u.is_actor_alive(a));
    assert!(u.is_actor_alive(b));
    assert!(!mailboxes[a].is_open());
    assert_eq!(mailboxes[a].len(), 0);
    assert_eq!(mailboxes[b].len(), 1);
    assert_eq!(sched.len(), 0);
    assert_eq!(u.actor(a).obs_type, ObservationType::Timeout);
}

#[test]
fn failure_kills_own_branch() {
    let mut u = Universe::new();
    let a = u.spawn(None, 0);
    let child = u.spawn(Some(a), 0);
    let other = u.spawn(None, 0);
    u.on_event(a, DriverEvent::Received, 5);
    assert_eq!(
        u.on_event(a, DriverEvent::Stop(ActorTermination::Failure), 6),
        DriverAction::PublishFinal
    );
    assert!(!u.is_actor_alive(a));
    assert!(!u.is_actor_alive(child));
    assert!(u.is_actor_alive(other));
}

#[test]
fn graceful_stop_and_disconnect() {
    let mut u = Universe::new();
    let a = u.spawn(None, 0);
    let b = u.spawn(None, 0);
    u.on_event(a, DriverEvent::Received, 5);
    u.on_event(a, DriverEvent::Stop(ActorTermination::Finished), 6);
    assert!(u.is_actor_alive(a));
    assert_eq!(u.actor(a).obs_type, ObservationType::Terminated(ActorTermination::Finished));
    assert_eq!(u.on_event(b, DriverEvent::Disconnected, 7), DriverAction::PublishFinal);
    assert_eq!(u.actor(b).obs_type, ObservationType::Terminated(ActorTermination::Disconnect));
    u.watchdog_tick(5000);
    assert!(u.is_actor_alive(b));
}

#[test]
fn observe_reflects_last_processed_message() {
    let mut cell = ObservationCell::new(0u64, 0);
    for (i, m) in [3u64, 4, 5].iter().enumerate() {
        let state = cell.observe().state + m;
        cell.publish(ObservationType::Running, state, i as u64);
        assert_eq!(cell.observe().state, state);
        assert_eq!(cell.observe().timestamp, i as u64);
    }
    assert_eq!(cell.observe().state, 12);
}

#[test]
fn message_timeout_is_a_fifth_of_heartbeat() {
    assert_eq!(HEARTBEAT_MILLIS, 1000);
    assert_eq!(message_timeout(), 200);
}

#[test]
fn send_error_text_and_conversion() {
    assert_eq!(SendError::ChannelClosed.to_string(), "ChannelClosed");
    assert_eq!(SendError::WouldDeadlock.to_string(), "WouldDeadlock");
    assert_eq!(SendError::SendTimeout.to_string(), "SendTimeout");
    assert!(SendError::SendTimeout.is_channel_closed());
    assert!(!SendError::WouldDeadlock.is_channel_closed());
    let (tx, rx) = flume::bounded::<u32>(1);
    drop(rx);
    let err = tx.send(3).unwrap_err();
    assert_eq!(SendError::from(err), SendError::ChannelClosed);
}
