use chat_rs::connection::{pong_latency, ConnectionNotice, ConnectionWatch};

#[test]
fn notice_escalates_while_down() {
    let mut w = ConnectionWatch::new();
    assert_eq!(w.notice(true, 0), ConnectionNotice::Nothing);
    w.disconnected(1_000);
    assert_eq!(w.notice(true, 1_000), ConnectionNotice::Nothing);
    assert_eq!(w.notice(true, 2_999), ConnectionNotice::Nothing);
    assert_eq!(w.notice(true, 3_000), ConnectionNotice::ReconnectingBanner);
    assert_eq!(w.notice(true, 10_999), ConnectionNotice::ReconnectingBanner);
    assert_eq!(w.notice(true, 11_000), ConnectionNotice::NoConnectionOverlay);
    // signed out: nothing is shown
    assert_eq!(w.notice(false, 11_000), ConnectionNotice::Nothing);
    // a clock reading before the drop counts as no time down
    assert_eq!(w.notice(true, 500), ConnectionNotice::Nothing);
}

#[test]
fn second_drop_keeps_first_time() {
    let mut w = ConnectionWatch::new();
    w.disconnected(1_000);
    w.disconnected(9_000);
    assert_eq!(w.down_since, Some(1_000));
    w.connected();
    assert_eq!(w.down_since, None);
    assert_eq!(w.notice(true, 100_000), ConnectionNotice::Nothing);
}

#[test]
fn pong_latency_in_whole_milliseconds() {
    assert_eq!(pong_latency(1_000_000, 1_042_500), Some(42));
    assert_eq!(pong_latency(1_000_000, 1_000_999), None);
    assert_eq!(pong_latency(2_000_000, 1_000_000), None);
}
