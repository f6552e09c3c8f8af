use gamepad_relay::bus::{Agent, BUS_DEPTH};

fn payload(k: usize) -> Vec<u8> {
    format!("msg-{k}").into_bytes()
}

#[test]
fn subscribers_each_see_all_messages() {
    let mut bus = Agent::new();
    let a = bus.subscribe();
    let b = bus.subscribe();
    let c = bus.subscribe();
    for k in 0..5 {
        assert!(bus.send(&payload(k)));
    }
    for id in [a, b, c] {
        for k in 0..5 {
            assert_eq!(bus.recv(id), Some(payload(k)), "subscriber {id}");
        }
        assert_eq!(bus.recv(id), None);
    }
}

#[test]
fn late_subscriber_misses_earlier_messages() {
    let mut bus = Agent::new();
    let early = bus.subscribe();
    for k in 0..3 {
        bus.send(&payload(k));
    }
    let late = bus.subscribe();
    for k in 3..6 {
        bus.send(&payload(k));
    }
    assert_eq!(bus.recv(late), Some(payload(3)));
    assert_eq!(bus.recv(early), Some(payload(0)));
}

#[test]
fn overflow_evicts_oldest_first() {
    let mut bus = Agent::new();
    let id = bus.subscribe();
    let extra = 4;
    for k in 0..BUS_DEPTH + extra {
        assert!(bus.send(&payload(k)));
    }
    for k in extra..BUS_DEPTH + extra {
        assert_eq!(bus.recv(id), Some(payload(k)));
    }
    assert_eq!(bus.recv(id), None);
}

#[test]
fn send_without_subscribers_reports_nobody() {
    let mut bus = Agent::new();
    assert!(!bus.send(&payload(0)));
    let id = bus.subscribe();
    assert!(bus.send(&payload(1)));
    assert_eq!(bus.recv(id), Some(payload(1)));
}
