use aquarium::label::FlowKind;
use aquarium::parse::parse_packet;
use aquarium::pipeline::process_frame;

fn eth_frame(ethertype: u16, payload: &[u8]) -> Vec<u8> {
    let mut f = vec![0u8; 12];
    f.push((ethertype >> 8) as u8);
    f.push((ethertype & 0xff) as u8);
    f.extend_from_slice(payload);
    f
}

fn ipv4_packet(
    ihl_words: u8,
    total_len: u16,
    proto: u8,
    src: [u8; 4],
    dst: [u8; 4],
    rest: &[u8],
) -> Vec<u8> {
    let hdr_len = ihl_words as usize * 4;
    let mut p = vec![0u8; hdr_len];
    p[0] = 0x40 | ihl_words;
    p[2] = (total_len >> 8) as u8;
    p[3] = (total_len & 0xff) as u8;
    p[9] = proto;
    p[12..16].copy_from_slice(&src);
    p[16..20].copy_from_slice(&dst);
    p.extend_from_slice(rest);
    p
}

fn ipv6_packet(payload_len: u16, next_header: u8, src: [u8; 16], dst: [u8; 16], rest: &[u8]) -> Vec<u8> {
    let mut p = vec![0u8; 40];
    p[0] = 0x60;
    p[4] = (payload_len >> 8) as u8;
    p[5] = (payload_len & 0xff) as u8;
    p[6] = next_header;
    p[7] = 64;
    p[8..24].copy_from_slice(&src);
    p[24..40].copy_from_slice(&dst);
    p.extend_from_slice(rest);
    p
}

fn tcp_header(sport: u16, dport: u16) -> Vec<u8> {
    let mut t = vec![0u8; 20];
    t[0] = (sport >> 8) as u8;
    t[1] = (sport & 0xff) as u8;
    t[2] = (dport >> 8) as u8;
    t[3] = (dport & 0xff) as u8;
    t
}

fn udp_header(sport: u16, dport: u16) -> Vec<u8> {
    let mut t = vec![0u8; 8];
    t[0] = (sport >> 8) as u8;
    t[1] = (sport & 0xff) as u8;
    t[2] = (dport >> 8) as u8;
    t[3] = (dport & 0xff) as u8;
    t
}

#[test]
fn ipv4_tcp_toward_443_yields_tls_with_declared_length() {
    let frame = eth_frame(
        0x0800,
        &ipv4_packet(5, 1500, 6, [10, 0, 0, 1], [10, 0, 0, 2], &tcp_header(51000, 443)),
    );
    let ev = parse_packet(&frame).expect("valid frame");
    assert_eq!(ev.protocol, FlowKind::Tls);
    assert_eq!(ev.bytes, 1500);
    assert_eq!(ev.src, "10.0.0.1");
    assert_eq!(ev.dst, "10.0.0.2");
}

#[test]
fn ipv6_udp_5353_yields_dns_with_payload_length() {
    let mut src = [0u8; 16];
    src[0] = 0xfe;
    src[1] = 0x80;
    src[15] = 1;
    let mut dst = [0u8; 16];
    dst[0] = 0xff;
    dst[1] = 0x02;
    dst[15] = 0xfb;
    let frame = eth_frame(0x86DD, &ipv6_packet(64, 17, src, dst, &udp_header(5353, 5353)));
    let ev = parse_packet(&frame).expect("valid frame");
    assert_eq!(ev.protocol, FlowKind::Dns);
    assert_eq!(ev.bytes, 64);
    assert_eq!(ev.src, "fe80::1");
    assert_eq!(ev.dst, "ff02::fb");
}

#[test]
fn ipv4_icmp_yields_icmp_event() {
    let frame = eth_frame(0x0800, &ipv4_packet(5, 84, 1, [192, 168, 1, 1], [8, 8, 8, 8], &[]));
    let ev = parse_packet(&frame).expect("valid frame");
    assert_eq!(ev.protocol, FlowKind::Icmp);
    assert_eq!(ev.bytes, 84);
    assert_eq!(ev.src, "192.168.1.1");
    assert_eq!(ev.dst, "8.8.8.8");
}

#[test]
fn ipv6_icmpv6_yields_icmp_event() {
    let frame = eth_frame(0x86DD, &ipv6_packet(32, 58, [0u8; 16], [0u8; 16], &[]));
    let ev = parse_packet(&frame).expect("valid frame");
    assert_eq!(ev.protocol, FlowKind::Icmp);
    assert_eq!(ev.bytes, 32);
}

#[test]
fn short_frames_yield_nothing() {
    assert!(parse_packet(&[]).is_none());
    assert!(parse_packet(&[0u8; 13]).is_none());
    // declared IPv4 but fewer than 20 network-layer bytes
    assert!(parse_packet(&eth_frame(0x0800, &[0u8; 19])).is_none());
    // declared IPv6 but fewer than 40 network-layer bytes
    assert!(parse_packet(&eth_frame(0x86DD, &[0u8; 39])).is_none());
}

#[test]
fn unknown_ethertype_or_protocol_yields_nothing() {
    assert!(parse_packet(&eth_frame(0x0806, &[0u8; 64])).is_none());
    let gre = eth_frame(0x0800, &ipv4_packet(5, 100, 47, [1, 2, 3, 4], [5, 6, 7, 8], &[0u8; 40]));
    assert!(parse_packet(&gre).is_none());
    let hop = eth_frame(0x86DD, &ipv6_packet(8, 0, [0u8; 16], [0u8; 16], &[0u8; 8]));
    assert!(parse_packet(&hop).is_none());
}

#[test]
fn transport_header_follows_ipv4_options() {
    // header length 6 words: 24 bytes of IPv4 header, then the TCP ports
    let frame = eth_frame(
        0x0800,
        &ipv4_packet(6, 200, 6, [1, 1, 1, 1], [2, 2, 2, 2], &tcp_header(40000, 22)),
    );
    let ev = parse_packet(&frame).expect("valid frame");
    assert_eq!(ev.protocol, FlowKind::Ssh);
}

#[test]
fn truncated_transport_header_yields_nothing() {
    // TCP needs 20 bytes, only 10 remain
    let frame = eth_frame(
        0x0800,
        &ipv4_packet(5, 1500, 6, [10, 0, 0, 1], [10, 0, 0, 2], &[0u8; 10]),
    );
    assert!(parse_packet(&frame).is_none());
    // UDP needs 8 bytes, only 4 remain
    let frame = eth_frame(
        0x0800,
        &ipv4_packet(5, 1500, 17, [10, 0, 0, 1], [10, 0, 0, 2], &[0u8; 4]),
    );
    assert!(parse_packet(&frame).is_none());
}

#[test]
fn icmp_needs_no_transport_bytes() {
    // the ICMP branch reads no transport header, whatever the IPv4
    // header-length field claims
    let mut p = ipv4_packet(5, 84, 1, [9, 9, 9, 9], [1, 1, 1, 1], &[]);
    p[0] = 0x41;
    let ev = parse_packet(&eth_frame(0x0800, &p)).expect("valid frame");
    assert_eq!(ev.protocol, FlowKind::Icmp);
}

#[test]
fn process_frame_encodes_what_it_parses() {
    let frame = eth_frame(
        0x0800,
        &ipv4_packet(5, 1500, 6, [10, 0, 0, 1], [10, 0, 0, 2], &tcp_header(51000, 443)),
    );
    let text = process_frame(&frame).expect("valid frame");
    assert_eq!(
        text,
        "{\"protocol\":\"tls\",\"bytes\":1500,\"src\":\"10.0.0.1\",\"dst\":\"10.0.0.2\"}"
    );
    assert!(process_frame(&[0u8; 13]).is_none());
}
