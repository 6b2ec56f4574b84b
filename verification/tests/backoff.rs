use nuts_tunnel::backoff::{Backoff, TunnelEnd};

fn waits(reconnect_delay: u64, ends: &[TunnelEnd]) -> Vec<u64> {
    let mut backoff = Backoff::new(reconnect_delay);
    ends.iter().map(|end| backoff.wait(*end)).collect()
}

#[test]
fn waits_double_up_to_a_minute() {
    assert_eq!(waits(5, &[TunnelEnd::Failed; 6]), [5, 10, 20, 40, 60, 60]);
    assert_eq!(waits(1, &[TunnelEnd::Failed; 8]), [1, 2, 4, 8, 16, 32, 60, 60]);
    assert_eq!(waits(0, &[TunnelEnd::Failed; 3]), [0, 0, 0]);
}

#[test]
fn no_wait_is_longer_than_a_minute() {
    assert_eq!(waits(61, &[TunnelEnd::Failed; 2]), [60, 60]);
    assert_eq!(waits(u64::MAX, &[TunnelEnd::Failed; 2]), [60, 60]);
}

#[test]
fn orderly_close_redials_at_once() {
    let ends = [
        TunnelEnd::Failed,
        TunnelEnd::Failed,
        TunnelEnd::Closed,
        TunnelEnd::Closed,
        TunnelEnd::Failed,
        TunnelEnd::Failed,
    ];
    assert_eq!(waits(5, &ends), [5, 10, 0, 0, 5, 10]);
}
