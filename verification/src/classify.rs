//! Classification of a transport header into a protocol label. Rules are
//! checked in a fixed order, first match wins, and a rule matches when
//! either endpoint carries one of its well-known ports: a heuristic, so an
//! ephemeral port colliding with a well-known number is accepted behavior.

use vstd::prelude::*;
use crate::label::FlowKind;

verus! {

/// Label of a TCP segment between the two given ports.
pub open spec fn spec_classify_tcp(port_src: u16, port_dst: u16) -> FlowKind {
    if port_src == 22 || port_dst == 22 {
        FlowKind::Ssh
    } else if port_src == 20 || port_src == 21 || port_dst == 20 || port_dst == 21 {
        FlowKind::Ftp
    } else if port_src == 25 || port_src == 465 || port_src == 587 || port_dst == 25 || port_dst
        == 465 || port_dst == 587 {
        FlowKind::Smtp
    } else if port_src == 80 || port_src == 8080 || port_dst == 80 || port_dst == 8080 {
        FlowKind::Http
    } else if port_src == 443 || port_src == 8443 || port_dst == 443 || port_dst == 8443 {
        FlowKind::Tls
    } else if port_src == 53 || port_dst == 53 {
        FlowKind::Dns
    } else if port_src == 1883 || port_src == 8883 || port_dst == 1883 || port_dst == 8883 {
        FlowKind::Mqtt
    } else {
        FlowKind::Tcp
    }
}

/// Label of a UDP datagram between the two given ports.
pub open spec fn spec_classify_udp(port_src: u16, port_dst: u16) -> FlowKind {
    if port_src == 53 || port_src == 5353 || port_dst == 53 || port_dst == 5353 {
        FlowKind::Dns
    } else if port_src == 443 || port_dst == 443 {
        // the common case of UDP-based encrypted transport on the HTTPS port
        FlowKind::Tls
    } else if port_src == 123 || port_dst == 123 {
        FlowKind::Ntp
    } else {
        FlowKind::Udp
    }
}

/// True of a TCP port that some rule before the TLS rule matches; such a
/// port diverts classification away from `tls` even when the other
/// endpoint is 443 or 8443.
pub open spec fn tcp_port_before_tls(p: u16) -> bool {
    p == 22 || p == 20 || p == 21 || p == 25 || p == 465 || p == 587 || p == 80 || p == 8080
}

pub fn classify_tcp(port_src: u16, port_dst: u16) -> (r: FlowKind)
    ensures
        r == spec_classify_tcp(port_src, port_dst),
{
    if port_src == 22 || port_dst == 22 {
        FlowKind::Ssh
    } else if port_src == 20 || port_src == 21 || port_dst == 20 || port_dst == 21 {
        FlowKind::Ftp
    } else if port_src == 25 || port_src == 465 || port_src == 587 || port_dst == 25 || port_dst
        == 465 || port_dst == 587 {
        FlowKind::Smtp
    } else if port_src == 80 || port_src == 8080 || port_dst == 80 || port_dst == 8080 {
        FlowKind::Http
    } else if port_src == 443 || port_src == 8443 || port_dst == 443 || port_dst == 8443 {
        FlowKind::Tls
    } else if port_src == 53 || port_dst == 53 {
        FlowKind::Dns
    } else if port_src == 1883 || port_src == 8883 || port_dst == 1883 || port_dst == 8883 {
        FlowKind::Mqtt
    } else {
        FlowKind::Tcp
    }
}

pub fn classify_udp(port_src: u16, port_dst: u16) -> (r: FlowKind)
    ensures
        r == spec_classify_udp(port_src, port_dst),
{
    if port_src == 53 || port_src == 5353 || port_dst == 53 || port_dst == 5353 {
        FlowKind::Dns
    } else if port_src == 443 || port_dst == 443 {
        FlowKind::Tls
    } else if port_src == 123 || port_dst == 123 {
        FlowKind::Ntp
    } else {
        FlowKind::Udp
    }
}

/// TCP traffic toward port 443 is `tls` for every source port that no
/// earlier rule claims, and TCP traffic toward port 22 is `ssh` for every
/// source port whatsoever. (A source port such as 22 combined with
/// destination 443 falls to the earlier `ssh` rule: rule order is fixed.)
pub proof fn lemma_classify_tcp_known_ports(port_src: u16, port_dst: u16)
    ensures
        port_dst == 443 && !tcp_port_before_tls(port_src) ==> spec_classify_tcp(
            port_src,
            port_dst,
        ) == FlowKind::Tls,
        port_dst == 22 ==> spec_classify_tcp(port_src, port_dst) == FlowKind::Ssh,
{
}

/// UDP traffic with either endpoint at port 53 is `dns`, whatever the
/// other port; with neither port in any recognized set it is `udp`.
pub proof fn lemma_classify_udp_known_ports(port_src: u16, port_dst: u16)
    ensures
        port_src == 53 || port_dst == 53 ==> spec_classify_udp(port_src, port_dst)
            == FlowKind::Dns,
        !(port_src == 53 || port_src == 5353 || port_src == 443 || port_src == 123) && !(port_dst
            == 53 || port_dst == 5353 || port_dst == 443 || port_dst == 123)
            ==> spec_classify_udp(port_src, port_dst) == FlowKind::Udp,
{
}

} // verus!
