use aquarium::classify::{classify_tcp, classify_udp};
use aquarium::label::FlowKind;

#[test]
fn tcp_dst_443_is_tls_for_ephemeral_source() {
    assert_eq!(classify_tcp(51000, 443), FlowKind::Tls);
    assert_eq!(classify_tcp(49152, 443), FlowKind::Tls);
    assert_eq!(classify_tcp(51000, 8443), FlowKind::Tls);
}

#[test]
fn tcp_dst_22_is_ssh_for_any_source() {
    assert_eq!(classify_tcp(51000, 22), FlowKind::Ssh);
    assert_eq!(classify_tcp(443, 22), FlowKind::Ssh);
    assert_eq!(classify_tcp(80, 22), FlowKind::Ssh);
}

#[test]
fn tcp_rule_order_is_fixed_first_match_wins() {
    // source port 22 diverts a frame toward 443 to the earlier ssh rule
    assert_eq!(classify_tcp(22, 443), FlowKind::Ssh);
    // source port 80 diverts it to the earlier http rule
    assert_eq!(classify_tcp(80, 443), FlowKind::Http);
}

#[test]
fn tcp_well_known_port_sets() {
    assert_eq!(classify_tcp(20, 51000), FlowKind::Ftp);
    assert_eq!(classify_tcp(51000, 21), FlowKind::Ftp);
    assert_eq!(classify_tcp(51000, 25), FlowKind::Smtp);
    assert_eq!(classify_tcp(465, 51000), FlowKind::Smtp);
    assert_eq!(classify_tcp(51000, 587), FlowKind::Smtp);
    assert_eq!(classify_tcp(51000, 80), FlowKind::Http);
    assert_eq!(classify_tcp(8080, 51000), FlowKind::Http);
    assert_eq!(classify_tcp(51000, 53), FlowKind::Dns);
    assert_eq!(classify_tcp(51000, 1883), FlowKind::Mqtt);
    assert_eq!(classify_tcp(8883, 51000), FlowKind::Mqtt);
}

#[test]
fn tcp_unrecognized_ports_fall_back_to_tcp() {
    assert_eq!(classify_tcp(51000, 60000), FlowKind::Tcp);
    assert_eq!(classify_tcp(1, 2), FlowKind::Tcp);
}

#[test]
fn udp_port_53_on_either_side_is_dns() {
    assert_eq!(classify_udp(53, 40000), FlowKind::Dns);
    assert_eq!(classify_udp(40000, 53), FlowKind::Dns);
    assert_eq!(classify_udp(5353, 5353), FlowKind::Dns);
}

#[test]
fn udp_other_well_known_ports() {
    assert_eq!(classify_udp(40000, 443), FlowKind::Tls);
    assert_eq!(classify_udp(443, 40000), FlowKind::Tls);
    assert_eq!(classify_udp(40000, 123), FlowKind::Ntp);
    assert_eq!(classify_udp(123, 40000), FlowKind::Ntp);
}

#[test]
fn udp_unrecognized_ports_fall_back_to_udp() {
    assert_eq!(classify_udp(40001, 40002), FlowKind::Udp);
    assert_eq!(classify_udp(0, 65535), FlowKind::Udp);
}
