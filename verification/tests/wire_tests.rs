use aquarium::event::FlowEvent;
use aquarium::label::FlowKind;
use aquarium::wire::{decode_event, encode_event};

fn ev(protocol: FlowKind, bytes: u32, src: &str, dst: &str) -> FlowEvent {
    FlowEvent { protocol, bytes, src: src.to_string(), dst: dst.to_string() }
}

#[test]
fn canonical_wire_text() {
    let e = ev(FlowKind::Tls, 1500, "10.0.0.1", "10.0.0.2");
    assert_eq!(
        encode_event(&e),
        "{\"protocol\":\"tls\",\"bytes\":1500,\"src\":\"10.0.0.1\",\"dst\":\"10.0.0.2\"}"
    );
    let z = ev(FlowKind::Icmp, 0, "0.0.0.0", "255.255.255.255");
    assert_eq!(
        encode_event(&z),
        "{\"protocol\":\"icmp\",\"bytes\":0,\"src\":\"0.0.0.0\",\"dst\":\"255.255.255.255\"}"
    );
}

#[test]
fn round_trip_reconstructs_the_tuple() {
    let cases = [
        ev(FlowKind::Tls, 1500, "10.0.0.1", "10.0.0.2"),
        ev(FlowKind::Dns, 64, "fe80::1234:abcd:ff:1", "ff02::fb"),
        ev(FlowKind::Icmp, 84, "192.168.1.1", "8.8.8.8"),
        ev(FlowKind::Udp, u32::MAX, "1.2.3.4", "5.6.7.8"),
        ev(FlowKind::Tcp, 0, "", ""),
    ];
    for e in cases {
        let text = encode_event(&e);
        let back = decode_event(&text).expect("canonical text must decode");
        assert_eq!(back.protocol, e.protocol);
        assert_eq!(back.bytes, e.bytes);
        assert_eq!(back.src, e.src);
        assert_eq!(back.dst, e.dst);
    }
}

#[test]
fn wire_text_is_plain_json() {
    let e = ev(FlowKind::Dns, 64, "1.2.3.4", "5.6.7.8");
    let text = encode_event(&e);
    let v: serde_json::Value = serde_json::from_str(&text).expect("must be valid JSON");
    assert_eq!(v["protocol"].as_str(), Some("dns"));
    assert_eq!(v["bytes"].as_u64(), Some(64));
    assert_eq!(v["src"].as_str(), Some("1.2.3.4"));
    assert_eq!(v["dst"].as_str(), Some("5.6.7.8"));
    assert_eq!(v.as_object().map(|o| o.len()), Some(4));
}

#[test]
fn decoder_rejects_what_the_encoder_never_writes() {
    assert!(decode_event("").is_none());
    assert!(decode_event("{}").is_none());
    assert!(decode_event("{\"protocol\":\"tls\"}").is_none());
    // unknown label
    assert!(decode_event("{\"protocol\":\"quic\",\"bytes\":1,\"src\":\"a\",\"dst\":\"b\"}").is_none());
    // missing number
    assert!(decode_event("{\"protocol\":\"tls\",\"bytes\":,\"src\":\"a\",\"dst\":\"b\"}").is_none());
    // number too large for 32 bits
    assert!(
        decode_event("{\"protocol\":\"tls\",\"bytes\":4294967296,\"src\":\"a\",\"dst\":\"b\"}")
            .is_none()
    );
    // trailing garbage
    assert!(
        decode_event("{\"protocol\":\"tls\",\"bytes\":1,\"src\":\"a\",\"dst\":\"b\"}x").is_none()
    );
    // truncated
    assert!(decode_event("{\"protocol\":\"tls\",\"bytes\":1,\"src\":\"a\",\"dst\":\"b\"").is_none());
}

#[test]
fn decoder_accepts_the_largest_size() {
    let text = "{\"protocol\":\"udp\",\"bytes\":4294967295,\"src\":\"a\",\"dst\":\"b\"}";
    let e = decode_event(text).expect("u32::MAX fits");
    assert_eq!(e.bytes, u32::MAX);
}
