use appack::broker::{parse_port_payload, port_payload, Broker};

fn cycle(broker: &mut Broker) -> bool {
    assert!(broker.attach());
    broker.detach()
}

#[test]
fn one_client_cycle_fires_once() {
    let mut b = Broker::new();
    assert_eq!(b.client_count(), 0);
    assert!(b.attach());
    assert_eq!(b.client_count(), 1);
    let fired = b.detach();
    assert!(fired);
    assert_eq!(b.client_count(), 0);
}

#[test]
fn five_overlapping_cycles_fire_once() {
    // five clients attach before any leaves; the signal fires at the last
    // detach only
    let mut b = Broker::new();
    for _ in 0..5 {
        assert!(b.attach());
    }
    assert_eq!(b.client_count(), 5);
    let mut fires = 0;
    for _ in 0..5 {
        if b.detach() {
            fires += 1;
        }
    }
    assert_eq!(b.client_count(), 0);
    assert_eq!(fires, 1);
}

#[test]
fn fifty_interleaved_cycles_fire_once() {
    // fifty clients, interleaved: each client is followed by its neighbour's
    // attach before it leaves, so the session never empties until the end
    let mut b = Broker::new();
    let mut fires = 0;
    assert!(b.attach());
    for _ in 0..49 {
        assert!(b.attach());
        if b.detach() {
            fires += 1;
        }
    }
    if b.detach() {
        fires += 1;
    }
    assert_eq!(b.client_count(), 0);
    assert_eq!(fires, 1);
}

#[test]
fn no_signal_while_clients_remain() {
    let mut b = Broker::new();
    assert!(b.attach());
    assert!(b.attach());
    assert!(b.attach());
    // counter is 3: the next two detaches leave clients behind and fire
    // nothing
    assert!(!b.detach());
    assert!(!b.detach());
    assert_eq!(b.client_count(), 1);
    // only the transition from one to zero fires
    assert!(b.detach());
}

#[test]
fn no_attach_after_the_signal() {
    let mut b = Broker::new();
    assert!(cycle(&mut b));
    // the session is over: a late connection attempt is rejected and the
    // signal never fires again
    assert!(!b.attach());
    assert_eq!(b.client_count(), 0);
}

#[test]
fn port_payload_is_two_bytes_little_endian() {
    let payload = port_payload(3389);
    assert_eq!(payload, vec![0x3d, 0x0d]);
    let payload = port_payload(0x1234);
    assert_eq!(payload, vec![0x34, 0x12]);
}

#[test]
fn port_payload_round_trip() {
    for port in [0u16, 1, 80, 3389, 40000, 65535] {
        let payload = port_payload(port);
        assert_eq!(payload.len(), 2);
        assert_eq!(parse_port_payload(payload.as_slice()), port);
    }
}
