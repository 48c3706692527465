use zbench::aggregator::{Aggregator, Report};
use zbench::keepalive::{KeepAliveAction, KeepAliveScheduler, KEEP_ALIVE_PERIOD_MS};

#[test]
fn one_second_window_rate_and_mean() {
    let mut a = Aggregator::new();
    assert!(a.record_rtt(100));
    assert!(a.record_rtt(200));
    assert!(a.record_rtt(300));
    let r = a.take_report(1_000_000).unwrap();
    assert_eq!(
        r,
        Report { messages: 3, bytes: 0, message_rate: 3, byte_rate: 0, mean_rtt_us: Some(200) }
    );
    assert_eq!(a.take_report(1_000_000), None);
}

#[test]
fn thousand_events_in_one_second() {
    let mut a = Aggregator::new();
    for _ in 0..1000 {
        assert!(a.record_message());
    }
    let r = a.take_report(1_000_000).unwrap();
    assert_eq!(r.message_rate, 1000);
    assert_eq!(r.mean_rtt_us, None);
}

#[test]
fn rate_scales_with_window() {
    let mut a = Aggregator::new();
    assert!(a.record_bytes(1_000));
    let r = a.take_report(500_000).unwrap();
    assert_eq!(r.byte_rate, 2_000);
    assert_eq!(r.bytes, 1_000);
    assert_eq!(r.messages, 0);
    assert_eq!(r.message_rate, 0);
}

#[test]
fn empty_window_reports_nothing() {
    let mut a = Aggregator::new();
    assert_eq!(a.take_report(1_000_000), None);
}

#[test]
fn counters_refuse_overflow() {
    let mut a = Aggregator::new();
    assert!(a.record_bytes(u64::MAX));
    assert!(!a.record_bytes(1));
    assert!(a.record_rtt(u64::MAX));
    assert!(!a.record_rtt(1));
    let r = a.take_report(1_000_000).unwrap();
    assert_eq!(r.bytes, u64::MAX);
    assert_eq!(r.byte_rate, u64::MAX as u128 * 1_000_000 / 1_000_000);
    assert_eq!(r.mean_rtt_us, Some(u64::MAX));
}

#[test]
fn keep_alive_until_inactive() {
    let mut k = KeepAliveScheduler::new(KEEP_ALIVE_PERIOD_MS);
    assert_eq!(k.period_ms(), 1000);
    assert_eq!(k.on_tick(true), KeepAliveAction::Send);
    k.on_sent(true);
    assert_eq!(k.on_tick(true), KeepAliveAction::Send);
    assert_eq!(k.on_tick(false), KeepAliveAction::Stop);
    assert_eq!(k.on_tick(true), KeepAliveAction::Stop);
    assert!(k.is_stopped());
}

#[test]
fn keep_alive_stops_after_failed_send() {
    let mut k = KeepAliveScheduler::new(1000);
    assert_eq!(k.on_tick(true), KeepAliveAction::Send);
    k.on_sent(false);
    assert_eq!(k.on_tick(true), KeepAliveAction::Stop);
}
