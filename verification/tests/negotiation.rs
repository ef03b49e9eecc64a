use chat_rs::negotiation::{NegState, WatchdogStep};

#[test]
fn queued_requests_collapse_into_one_round() {
    let mut s = NegState::joining();
    assert_eq!(s.try_begin(), None);
    assert_eq!(s.try_begin(), None);
    assert!(s.pending);
    assert!(s.finish());
    assert_eq!(s.try_begin(), Some(1));
    assert!(!s.finish());
}

#[test]
fn stale_watchdog_does_nothing() {
    let mut s = NegState::default();
    let g = s.try_begin().unwrap();
    assert_eq!(s.watchdog_tick(g), WatchdogStep::Resend(g + 1));
    let before = s;
    assert_eq!(s.watchdog_tick(g), WatchdogStep::Stop);
    assert_eq!(s, before);
    s.watchdog_give_up(g);
    assert_eq!(s, before);
    s.watchdog_give_up(g + 1);
    assert!(!s.in_flight);
}
