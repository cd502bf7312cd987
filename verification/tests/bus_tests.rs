use pitchline::bus::DistributionBus;
use pitchline::bus::RecvOutcome;
use pitchline::frame::PitchEstimate;

fn est(t: u64) -> PitchEstimate {
    PitchEstimate { timestamp: t, frequency: 100 * t, voiced: true, strength: 1 }
}

#[test]
fn publish_then_receive_in_order() {
    let mut bus: DistributionBus<PitchEstimate> = DistributionBus::new(8).unwrap();
    let mut r = bus.subscribe();
    bus.publish(est(1));
    bus.publish(est(2));
    bus.publish(est(3));
    for want in 1..4u64 {
        match bus.receive(&mut r) {
            RecvOutcome::Delivered(m) => assert_eq!(m.timestamp, want),
            _ => panic!("expected a delivery"),
        }
    }
    assert!(matches!(bus.receive(&mut r), RecvOutcome::Pending));
}

#[test]
fn subscriber_sees_no_prior_history() {
    let mut bus: DistributionBus<PitchEstimate> = DistributionBus::new(8).unwrap();
    bus.publish(est(1));
    bus.publish(est(2));
    let mut r = bus.subscribe();
    bus.publish(est(3));
    match bus.receive(&mut r) {
        RecvOutcome::Delivered(m) => assert_eq!(m.timestamp, 3),
        _ => panic!("expected a delivery"),
    }
    assert!(matches!(bus.receive(&mut r), RecvOutcome::Pending));
}

#[test]
fn slow_consumer_observes_monotonic_subsequence() {
    // One consumer reads at half the publish rate on a small ring: it
    // skips messages but what it observes is strictly increasing and the
    // producer never has to wait.
    let mut bus: DistributionBus<PitchEstimate> = DistributionBus::new(4).unwrap();
    let mut slow = bus.subscribe();
    let mut fast = bus.subscribe();
    let mut slow_seen: Vec<u64> = Vec::new();
    let mut fast_seen: Vec<u64> = Vec::new();
    for t in 0..24u64 {
        bus.publish(est(t + 1));
        match bus.receive(&mut fast) {
            RecvOutcome::Delivered(m) => fast_seen.push(m.timestamp),
            _ => panic!("fast reader should always have a message"),
        }
        if t % 2 == 1 {
            match bus.receive(&mut slow) {
                RecvOutcome::Delivered(m) => slow_seen.push(m.timestamp),
                _ => panic!("slow reader should always have a message"),
            }
        }
    }
    for w in slow_seen.windows(2) {
        assert!(w[0] < w[1], "out of order delivery");
    }
    assert_eq!(fast_seen, (1..25u64).collect::<Vec<u64>>());
    assert_eq!(slow_seen.len(), 12);
}

#[test]
fn lagged_reader_gets_oldest_buffered() {
    let mut bus: DistributionBus<PitchEstimate> = DistributionBus::new(2).unwrap();
    let mut r = bus.subscribe();
    for t in 1..6u64 {
        bus.publish(est(t));
    }
    // Five published, two kept: the lagged reader is served message 4.
    match bus.receive(&mut r) {
        RecvOutcome::Delivered(m) => assert_eq!(m.timestamp, 4),
        _ => panic!("expected a delivery"),
    }
    match bus.receive(&mut r) {
        RecvOutcome::Delivered(m) => assert_eq!(m.timestamp, 5),
        _ => panic!("expected a delivery"),
    }
    assert!(matches!(bus.receive(&mut r), RecvOutcome::Pending));
}

#[test]
fn closed_bus_is_terminal_after_drain() {
    let mut bus: DistributionBus<PitchEstimate> = DistributionBus::new(4).unwrap();
    let mut r = bus.subscribe();
    bus.publish(est(1));
    bus.close();
    match bus.receive(&mut r) {
        RecvOutcome::Delivered(m) => assert_eq!(m.timestamp, 1),
        _ => panic!("expected the buffered message before closure"),
    }
    assert!(matches!(bus.receive(&mut r), RecvOutcome::Closed));
    assert!(matches!(bus.receive(&mut r), RecvOutcome::Closed));
}

#[test]
fn zero_capacity_bus_is_refused() {
    match DistributionBus::<PitchEstimate>::new(0) {
        Err(e) => assert_eq!(e, pitchline::ConfigError::ZeroCapacity),
        Ok(_) => panic!("capacity zero must be refused"),
    }
}
