use aquarium::channel::{Broadcast, RecvResult, Subscription, CHANNEL_CAPACITY};
use aquarium::pipeline::{capture_step, session_step, SessionAction};

fn expect_event(ch: &Broadcast, sub: &mut Subscription) -> String {
    match ch.try_recv(sub) {
        RecvResult::Event(s) => s,
        RecvResult::Lagged(n) => panic!("unexpected lag of {n}"),
        RecvResult::Empty => panic!("unexpected empty"),
        RecvResult::Closed => panic!("unexpected closure"),
    }
}

#[test]
fn default_capacity_is_1024() {
    assert_eq!(CHANNEL_CAPACITY, 1024);
}

#[test]
fn subscription_sees_no_history() {
    let mut ch = Broadcast::new(8);
    ch.publish("before".to_string());
    let mut sub = ch.subscribe();
    assert!(matches!(ch.try_recv(&mut sub), RecvResult::Empty));
    ch.publish("after".to_string());
    assert_eq!(expect_event(&ch, &mut sub), "after");
}

#[test]
fn publishing_twice_delivers_twice_in_order() {
    let mut ch = Broadcast::new(8);
    let mut sub = ch.subscribe();
    let msg = "{\"protocol\":\"dns\",\"bytes\":64,\"src\":\"a\",\"dst\":\"b\"}";
    ch.publish(msg.to_string());
    ch.publish(msg.to_string());
    assert_eq!(expect_event(&ch, &mut sub), msg);
    assert_eq!(expect_event(&ch, &mut sub), msg);
    assert!(matches!(ch.try_recv(&mut sub), RecvResult::Empty));
}

#[test]
fn stalled_subscriber_blocks_neither_producer_nor_readers() {
    let mut ch = Broadcast::new(4);
    let mut stalled = ch.subscribe();
    let mut active = ch.subscribe();
    for i in 0..8 {
        // the producer publishes without regard to the stalled reader
        ch.publish(format!("e{i}"));
        // the active reader gets each event promptly
        assert_eq!(expect_event(&ch, &mut active), format!("e{i}"));
    }
    // only the stalled reader itself pays: it lost the evicted events
    // and resumes from the oldest retained one
    assert!(matches!(ch.try_recv(&mut stalled), RecvResult::Lagged(4)));
    for i in 4..8 {
        assert_eq!(expect_event(&ch, &mut stalled), format!("e{i}"));
    }
    assert!(matches!(ch.try_recv(&mut stalled), RecvResult::Empty));
}

#[test]
fn two_clients_read_the_same_three_events_in_the_same_order() {
    let mut ch = Broadcast::new(CHANNEL_CAPACITY);
    let mut a = ch.subscribe();
    let mut b = ch.subscribe();
    ch.publish("one".to_string());
    ch.publish("two".to_string());
    ch.publish("three".to_string());
    for sub in [&mut a, &mut b] {
        assert_eq!(expect_event(&ch, sub), "one");
        assert_eq!(expect_event(&ch, sub), "two");
        assert_eq!(expect_event(&ch, sub), "three");
        assert!(matches!(ch.try_recv(sub), RecvResult::Empty));
    }
}

#[test]
fn overrun_reports_loss_once_then_resumes() {
    let mut ch = Broadcast::new(2);
    let mut sub = ch.subscribe();
    for m in ["a", "b", "c", "d"] {
        ch.publish(m.to_string());
    }
    assert!(matches!(ch.try_recv(&mut sub), RecvResult::Lagged(2)));
    assert_eq!(expect_event(&ch, &mut sub), "c");
    assert_eq!(expect_event(&ch, &mut sub), "d");
    assert!(matches!(ch.try_recv(&mut sub), RecvResult::Empty));
}

#[test]
fn closure_is_observed_after_draining() {
    let mut ch = Broadcast::new(8);
    let mut sub = ch.subscribe();
    ch.publish("last".to_string());
    ch.close();
    assert_eq!(expect_event(&ch, &mut sub), "last");
    assert!(matches!(ch.try_recv(&mut sub), RecvResult::Closed));
}

#[test]
fn capture_step_publishes_only_parsed_frames() {
    // an IPv4/TCP frame toward port 443 and a frame too short to parse
    let mut frame = vec![0u8; 12];
    frame.extend_from_slice(&[0x08, 0x00]);
    let mut ip = vec![0u8; 20];
    ip[0] = 0x45;
    ip[2] = 0x05;
    ip[3] = 0xdc;
    ip[9] = 6;
    ip[12..16].copy_from_slice(&[10, 0, 0, 1]);
    ip[16..20].copy_from_slice(&[10, 0, 0, 2]);
    let mut tcp = vec![0u8; 20];
    tcp[0] = (51000u16 >> 8) as u8;
    tcp[1] = (51000u16 & 0xff) as u8;
    tcp[2] = (443u16 >> 8) as u8;
    tcp[3] = (443u16 & 0xff) as u8;
    frame.extend_from_slice(&ip);
    frame.extend_from_slice(&tcp);

    let mut ch = Broadcast::new(8);
    let mut sub = ch.subscribe();
    capture_step(&mut ch, &frame);
    capture_step(&mut ch, &[0u8; 13]);
    assert_eq!(
        expect_event(&ch, &mut sub),
        "{\"protocol\":\"tls\",\"bytes\":1500,\"src\":\"10.0.0.1\",\"dst\":\"10.0.0.2\"}"
    );
    assert!(matches!(ch.try_recv(&mut sub), RecvResult::Empty));
}

#[test]
fn session_decisions() {
    match session_step(RecvResult::Event("m".to_string())) {
        SessionAction::Forward(s) => assert_eq!(s, "m"),
        _ => panic!("an event is forwarded"),
    }
    assert!(matches!(session_step(RecvResult::Lagged(7)), SessionAction::Continue));
    assert!(matches!(session_step(RecvResult::Empty), SessionAction::Continue));
    assert!(matches!(session_step(RecvResult::Closed), SessionAction::Stop));
}
