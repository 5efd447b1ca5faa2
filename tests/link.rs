use telemetry::link::{ConnectOutcome, LinkState, Solver};
use telemetry::message::{Channel, Driver, Ds18b20, Max3010x, Message, Payload, Route};
use telemetry::outbox::OutboxEntry;

fn temperature(ts: i64, millidegrees: i32) -> Message {
    Message::at(ts, Payload::Temperature(Ds18b20 { millidegrees }))
}

fn connect(s: &mut Solver) {
    assert!(s.start_connect());
    assert_eq!(s.connect_finished(true), ConnectOutcome::Connected);
    assert_eq!(s.link_state(), LinkState::Connected);
}

/// Drains with every publish succeeding; returns what was published.
fn drain(s: &mut Solver, now: i64) -> Vec<(Route, i64, i32)> {
    let mut out = Vec::new();
    while s.next_to_publish(now) {
        let e: &OutboxEntry = s.current().expect("entry ready");
        let v = match &e.message.payload {
            Payload::Temperature(t) => t.millidegrees,
            _ => panic!("unexpected payload"),
        };
        out.push((e.route, e.message.headers.timestamp, v));
        s.published();
    }
    out
}

#[test]
fn end_to_end_buffered_then_replayed() {
    let mut s = Solver::new(3000, 7);
    assert_eq!(s.link_state(), LinkState::Disconnected);
    let t = 1_700_000_000;
    let drain_now = s.send_to_database(temperature(t, 21500));
    assert!(!drain_now);
    assert_eq!(s.buffered(), 1);
    assert!(s.current().is_none());
    connect(&mut s);
    let now = t + 120;
    assert!(s.next_to_publish(now));
    {
        let e = s.current().unwrap();
        assert_eq!(e.route, Route { channel: Channel::Durable, driver: Driver::Temperature });
        assert_eq!(e.route.topic(), "durable/temperature");
        assert_eq!(e.message.headers.timestamp, now);
        match &e.message.payload {
            Payload::Temperature(d) => assert_eq!(d.millidegrees, 21500),
            _ => panic!("wrong payload"),
        }
    }
    s.published();
    assert_eq!(s.buffered(), 0);
    assert!(!s.next_to_publish(now));
    assert!(s.current().is_none());
}

#[test]
fn drop_oldest_keeps_most_recent() {
    let mut s = Solver::new(3, 7);
    for i in 0..5 {
        assert!(!s.send_to_database(temperature(100 + i, i as i32)));
    }
    assert_eq!(s.buffered(), 3);
    connect(&mut s);
    let out = drain(&mut s, 500);
    let values: Vec<i32> = out.iter().map(|p| p.2).collect();
    assert_eq!(values, vec![2, 3, 4]);
    assert!(out.iter().all(|p| p.1 == 500));
    assert_eq!(s.buffered(), 0);
}

#[test]
fn replay_precedes_new_submission() {
    let mut s = Solver::new(10, 7);
    for i in 0..4 {
        s.send_to_database(temperature(10 + i, i as i32));
    }
    connect(&mut s);
    assert!(s.send_to_database(temperature(99, 42)));
    let out = drain(&mut s, 1000);
    let values: Vec<i32> = out.iter().map(|p| p.2).collect();
    assert_eq!(values, vec![0, 1, 2, 3, 42]);
    let stamps: Vec<i64> = out.iter().map(|p| p.1).collect();
    assert_eq!(stamps, vec![1000, 1000, 1000, 1000, 99]);
}

#[test]
fn publish_failure_stops_drain_and_buffers_current() {
    let mut s = Solver::new(10, 7);
    s.send_to_database(temperature(1, 1));
    s.send_to_database(temperature(2, 2));
    connect(&mut s);
    assert!(s.send_to_database(temperature(3, 3)));
    assert!(s.next_to_publish(50));
    s.published();
    assert!(s.next_to_publish(50));
    s.disconnected();
    assert_eq!(s.link_state(), LinkState::Disconnected);
    assert_eq!(s.buffered(), 2);
    assert!(!s.next_to_publish(60));
    connect(&mut s);
    let values: Vec<i32> = drain(&mut s, 70).iter().map(|p| p.2).collect();
    assert_eq!(values, vec![2, 3]);
}

#[test]
fn live_sink_only_when_connected() {
    let mut s = Solver::new(4, 7);
    let m = Message::at(5, Payload::HeartRate(Max3010x { heart_rate: 70 }));
    assert_eq!(s.send_to_socket(&m), None);
    connect(&mut s);
    let r = s.send_to_socket(&m).unwrap();
    assert_eq!(r, Route { channel: Channel::Live, driver: Driver::Optical });
    assert_eq!(r.topic(), "live/optical");
    assert_eq!(s.buffered(), 0);
}

#[test]
fn restart_after_consecutive_connect_failures() {
    let mut s = Solver::new(4, 7);
    for _ in 0..6 {
        assert!(s.start_connect());
        assert_eq!(s.link_state(), LinkState::Connecting);
        assert_eq!(s.connect_finished(false), ConnectOutcome::Retry);
        assert_eq!(s.link_state(), LinkState::Disconnected);
    }
    assert!(s.start_connect());
    assert_eq!(s.connect_finished(false), ConnectOutcome::FatalRestart);
}

#[test]
fn success_clears_failure_count() {
    let mut s = Solver::new(4, 2);
    assert!(s.start_connect());
    assert_eq!(s.connect_finished(false), ConnectOutcome::Retry);
    connect(&mut s);
    assert!(!s.start_connect());
    s.disconnected();
    assert!(s.start_connect());
    assert_eq!(s.connect_finished(false), ConnectOutcome::Retry);
    assert!(s.start_connect());
    assert_eq!(s.connect_finished(false), ConnectOutcome::FatalRestart);
}

#[test]
fn message_new_keeps_payload_and_reads_clock() {
    let m = Message::new(Payload::Temperature(Ds18b20 { millidegrees: -500 }));
    match m.payload {
        Payload::Temperature(d) => assert_eq!(d.millidegrees, -500),
        _ => panic!("wrong payload"),
    }
    assert!(m.headers.timestamp > 1_600_000_000);
}

#[test]
fn full_size_outbox_drops_oldest() {
    let mut s = Solver::new(3000, 7);
    for i in 0..3005 {
        s.send_to_database(temperature(i, i as i32));
    }
    assert_eq!(s.buffered(), 3000);
    connect(&mut s);
    let values: Vec<i32> = drain(&mut s, 9999).iter().map(|p| p.2).collect();
    assert_eq!(values.len(), 3000);
    assert_eq!(values[0], 5);
    assert_eq!(values[2999], 3004);
    assert!(values.windows(2).all(|w| w[0] + 1 == w[1]));
}

#[test]
fn nothing_to_drain_when_empty() {
    let mut s = Solver::new(2, 7);
    connect(&mut s);
    assert!(!s.next_to_publish(10));
    assert!(s.current().is_none());
    s.published();
    assert_eq!(s.buffered(), 0);
    assert_eq!(s.link_state(), LinkState::Connected);
}

#[test]
fn drain_on_device_clock_rebases_to_now() {
    let mut s = Solver::new(4, 7);
    s.send_to_database(temperature(5, 1));
    connect(&mut s);
    assert!(s.next_to_publish_now());
    let ts = s.current().unwrap().message.headers.timestamp;
    assert!(ts > 1_600_000_000);
    s.published();
    assert!(!s.next_to_publish_now());
}
