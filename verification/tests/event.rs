use litebox::event::PollEvents;
use litebox::event::Pollee;
use litebox::event::Poller;
use litebox::event::WaitError;
use litebox::event::WakeSignal;
use litebox::event::ALWAYS_POLLED;
use litebox::event::POLL_ERR;
use litebox::event::POLL_HUP;
use litebox::event::POLL_IN;
use litebox::event::POLL_NVAL;
use litebox::event::POLL_OUT;

#[test]
fn flag_constants_match_native_abi() {
    assert_eq!(POLL_IN, 0x0001);
    assert_eq!(litebox::event::POLL_PRI, 0x0002);
    assert_eq!(POLL_OUT, 0x0004);
    assert_eq!(POLL_ERR, 0x0008);
    assert_eq!(POLL_HUP, 0x0010);
    assert_eq!(POLL_NVAL, 0x0020);
    assert_eq!(litebox::event::POLL_RDHUP, 0x2000);
    assert_eq!(ALWAYS_POLLED, 0x0038);
}

#[test]
fn flag_set_operations() {
    let mut f = PollEvents::empty();
    assert!(f.is_empty());
    f.insert(PollEvents::from_bits(POLL_IN | POLL_OUT));
    assert_eq!(f.bits(), POLL_IN | POLL_OUT);
    assert!(f.intersects(PollEvents::from_bits(POLL_IN)));
    assert!(f.contains(PollEvents::from_bits(POLL_IN)));
    assert!(!f.contains(PollEvents::from_bits(POLL_IN | POLL_ERR)));
    f.remove(PollEvents::from_bits(POLL_IN));
    assert_eq!(f.bits(), POLL_OUT);
    let u = f.union(PollEvents::from_bits(POLL_ERR));
    assert_eq!(u.bits(), POLL_OUT | POLL_ERR);
    assert_eq!(f.effective().bits(), POLL_OUT | ALWAYS_POLLED);
}

#[test]
fn unrecognized_bits_are_preserved() {
    let host_extension = 0x8000_0000;
    let mut f = PollEvents::from_bits(host_extension | POLL_IN);
    assert_eq!(f.bits(), host_extension | POLL_IN);
    f.remove(PollEvents::from_bits(POLL_IN));
    assert_eq!(f.bits(), host_extension);
}

#[test]
fn events_equal_fold_of_call_history() {
    let mut p = Pollee::new();
    assert_eq!(p.events().bits(), 0);
    p.add_events(PollEvents::from_bits(POLL_IN | POLL_OUT));
    assert_eq!(p.events().bits(), POLL_IN | POLL_OUT);
    p.remove_events(PollEvents::from_bits(POLL_OUT));
    assert_eq!(p.events().bits(), POLL_IN);
    p.add_events(PollEvents::from_bits(POLL_ERR));
    assert_eq!(p.events().bits(), POLL_IN | POLL_ERR);
    p.reset_events();
    assert_eq!(p.events().bits(), 0);
    p.add_events(PollEvents::from_bits(POLL_HUP));
    assert_eq!(p.events().bits(), POLL_HUP);
}

#[test]
fn matching_add_notifies_registered_waiter() {
    let mut p = Pollee::new();
    p.register_observer(1, PollEvents::from_bits(POLL_IN));
    assert!(!p.take_notification(1));
    p.add_events(PollEvents::from_bits(POLL_IN));
    assert!(p.take_notification(1));
    // the notification was consumed; no new readiness, no new notification
    assert!(!p.take_notification(1));
}

#[test]
fn nonmatching_add_does_not_notify() {
    let mut p = Pollee::new();
    p.register_observer(1, PollEvents::from_bits(POLL_IN));
    p.add_events(PollEvents::from_bits(POLL_OUT));
    assert!(!p.take_notification(1));
}

#[test]
fn always_reported_conditions_cannot_be_masked_out() {
    let mut p = Pollee::new();
    p.register_observer(1, PollEvents::empty());
    p.add_events(PollEvents::from_bits(POLL_ERR));
    assert!(p.take_notification(1));
}

#[test]
fn registering_after_the_event_still_notifies() {
    let mut p = Pollee::new();
    p.add_events(PollEvents::from_bits(POLL_IN));
    p.register_observer(7, PollEvents::from_bits(POLL_IN));
    assert!(p.take_notification(7));
}

#[test]
fn removal_does_not_notify() {
    let mut p = Pollee::new();
    p.register_observer(1, PollEvents::from_bits(POLL_IN));
    p.add_events(PollEvents::from_bits(POLL_IN));
    assert!(p.take_notification(1));
    p.remove_events(PollEvents::from_bits(POLL_IN));
    assert!(!p.take_notification(1));
    p.reset_events();
    assert!(!p.take_notification(1));
}

#[test]
fn deregistered_waiter_is_never_notified() {
    let mut p = Pollee::new();
    p.register_observer(1, PollEvents::from_bits(POLL_IN));
    p.register_observer(2, PollEvents::from_bits(POLL_IN));
    p.deregister_observer(1);
    p.add_events(PollEvents::from_bits(POLL_IN));
    assert!(!p.take_notification(1));
    assert!(p.take_notification(2));
}

#[test]
fn deregistering_unknown_waiter_is_a_no_op() {
    let mut p = Pollee::new();
    p.register_observer(1, PollEvents::from_bits(POLL_IN));
    p.deregister_observer(99);
    p.add_events(PollEvents::from_bits(POLL_IN));
    assert!(p.take_notification(1));
}

#[test]
fn reregistration_replaces_the_mask() {
    let mut p = Pollee::new();
    p.register_observer(1, PollEvents::from_bits(POLL_IN));
    p.register_observer(1, PollEvents::from_bits(POLL_OUT));
    p.add_events(PollEvents::from_bits(POLL_IN));
    assert!(!p.take_notification(1));
    p.add_events(PollEvents::from_bits(POLL_OUT));
    assert!(p.take_notification(1));
}

#[test]
fn close_notifies_every_observer_and_raises_hangup() {
    let mut p = Pollee::new();
    p.register_observer(1, PollEvents::empty());
    p.register_observer(2, PollEvents::from_bits(POLL_OUT));
    p.close();
    assert!(p.take_notification(1));
    assert!(p.take_notification(2));
    assert!(p.events().contains(PollEvents::from_bits(POLL_HUP)));
}

#[test]
fn pending_notification_wins_over_any_signal() {
    let mut w = Poller::new();
    w.notify();
    // interruption report arrives, but a notification was already pending
    assert_eq!(w.wait(WakeSignal::Interrupt), Ok(()));
    w.notify();
    w.notify();
    // deliveries coalesce: one wait consumes them all
    assert_eq!(w.wait_timeout(WakeSignal::DeadlineExpired), Ok(()));
    assert_eq!(w.wait_timeout(WakeSignal::DeadlineExpired), Err(WaitError::TimeOut));
}

#[test]
fn wait_outcomes_follow_the_signal() {
    let mut w = Poller::new();
    assert_eq!(w.wait(WakeSignal::Wake), Ok(()));
    assert_eq!(w.wait(WakeSignal::Interrupt), Err(WaitError::Interrupted));
    // an untimed wait has no deadline: a stray report counts as spurious
    assert_eq!(w.wait(WakeSignal::DeadlineExpired), Ok(()));
}

#[test]
fn wait_timeout_distinguishes_timeout_from_interruption() {
    let mut w = Poller::new();
    assert_eq!(w.wait_timeout(WakeSignal::DeadlineExpired), Err(WaitError::TimeOut));
    assert_eq!(w.wait_timeout(WakeSignal::Interrupt), Err(WaitError::Interrupted));
    assert_eq!(w.wait_timeout(WakeSignal::Wake), Ok(()));
    assert_ne!(WaitError::TimeOut, WaitError::Interrupted);
}
