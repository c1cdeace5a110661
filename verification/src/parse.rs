//! The header parser: a raw link-layer frame interpreted as nested
//! Ethernet / IP / transport headers, reduced to the flow event the
//! classifier and encoder need. Every multi-byte read is length-checked;
//! a frame too short for its declared headers, an unknown ethertype or an
//! unknown next-level protocol yields no result, never a panic.

use vstd::prelude::*;
use crate::addr::{
    format_ipv4, format_ipv6, ipv4_text, ipv6_text, lemma_ipv4_text_quote_free,
    lemma_ipv6_text_quote_free,
};
use crate::classify::{classify_tcp, classify_udp, spec_classify_tcp, spec_classify_udp};
use crate::event::{EventModel, FlowEvent};
use crate::label::FlowKind;

verus! {

/// Ethertype of IPv4 in an Ethernet header.
pub const ETHERTYPE_IPV4: u16 = 0x0800;

/// Ethertype of IPv6 in an Ethernet header.
pub const ETHERTYPE_IPV6: u16 = 0x86DD;

/// IP protocol / next-header numbers.
pub const PROTO_ICMP: u8 = 1;

pub const PROTO_TCP: u8 = 6;

pub const PROTO_UDP: u8 = 17;

pub const PROTO_ICMPV6: u8 = 58;

/// Length of an Ethernet header.
pub const ETH_HEADER_LEN: usize = 14;

/// Minimum length of an IPv4 header.
pub const IPV4_MIN_HEADER_LEN: usize = 20;

/// Length of an IPv6 fixed header.
pub const IPV6_HEADER_LEN: usize = 40;

/// Minimum length of a TCP header.
pub const TCP_MIN_HEADER_LEN: usize = 20;

/// Length of a UDP header.
pub const UDP_HEADER_LEN: usize = 8;

/// Big-endian 16-bit field read from two bytes.
pub open spec fn spec_be16(hi: u8, lo: u8) -> u16 {
    (hi as int * 256 + lo as int) as u16
}

pub fn be16(hi: u8, lo: u8) -> (r: u16)
    ensures
        r == spec_be16(hi, lo),
{
    (hi as u16) * 256 + (lo as u16)
}

/// The eight 16-bit groups of an IPv6 address held big-endian at byte
/// offset `off` of `p`.
pub open spec fn ipv6_groups(p: Seq<u8>, off: int) -> Seq<u16>
    recommends
        0 <= off,
        off + 16 <= p.len(),
{
    seq![
        spec_be16(p[off], p[off + 1]),
        spec_be16(p[off + 2], p[off + 3]),
        spec_be16(p[off + 4], p[off + 5]),
        spec_be16(p[off + 6], p[off + 7]),
        spec_be16(p[off + 8], p[off + 9]),
        spec_be16(p[off + 10], p[off + 11]),
        spec_be16(p[off + 12], p[off + 13]),
        spec_be16(p[off + 14], p[off + 15]),
    ]
}

/// The event parsed from the transport header `t` inside an IP packet
/// whose protocol field is `proto`, declared length `bytes`, and address
/// texts `src` and `dst`. ICMP needs no transport header; TCP and UDP
/// contribute their ports to classification, and any other protocol
/// yields nothing.
pub open spec fn spec_parse_transport(
    t: Seq<u8>,
    proto: u8,
    icmp_proto: u8,
    bytes: u32,
    src: Seq<char>,
    dst: Seq<char>,
) -> Option<EventModel> {
    if proto == PROTO_TCP {
        if t.len() < TCP_MIN_HEADER_LEN {
            None
        } else {
            Some(
                EventModel {
                    protocol: spec_classify_tcp(
                        spec_be16(t[0], t[1]),
                        spec_be16(t[2], t[3]),
                    ),
                    bytes,
                    src,
                    dst,
                },
            )
        }
    } else if proto == PROTO_UDP {
        if t.len() < UDP_HEADER_LEN {
            None
        } else {
            Some(
                EventModel {
                    protocol: spec_classify_udp(
                        spec_be16(t[0], t[1]),
                        spec_be16(t[2], t[3]),
                    ),
                    bytes,
                    src,
                    dst,
                },
            )
        }
    } else if proto == icmp_proto {
        Some(EventModel { protocol: FlowKind::Icmp, bytes, src, dst })
    } else {
        None
    }
}

/// The event parsed from an IPv4 packet `p` (the frame after its Ethernet
/// header). The declared byte length is the header's own total-length
/// field, not the capture length; the transport header begins after the
/// variable-length IPv4 header.
pub open spec fn spec_parse_ipv4(p: Seq<u8>) -> Option<EventModel> {
    if p.len() < IPV4_MIN_HEADER_LEN {
        None
    } else {
        let ihl = (p[0] as int % 16) * 4;
        let proto = p[9];
        let bytes = spec_be16(p[2], p[3]) as u32;
        let src = ipv4_text(p[12], p[13], p[14], p[15]);
        let dst = ipv4_text(p[16], p[17], p[18], p[19]);
        if proto == PROTO_ICMP {
            Some(EventModel { protocol: FlowKind::Icmp, bytes, src, dst })
        } else if ihl < IPV4_MIN_HEADER_LEN || p.len() < ihl {
            None
        } else {
            spec_parse_transport(p.skip(ihl), proto, PROTO_ICMP, bytes, src, dst)
        }
    }
}

/// The event parsed from an IPv6 packet `p` (the frame after its Ethernet
/// header). The declared byte length is the header's payload-length
/// field; extension headers are not walked, so only a transport header
/// directly behind the fixed header is recognized.
pub open spec fn spec_parse_ipv6(p: Seq<u8>) -> Option<EventModel> {
    if p.len() < IPV6_HEADER_LEN {
        None
    } else {
        let proto = p[6];
        let bytes = spec_be16(p[4], p[5]) as u32;
        let src = ipv6_text(ipv6_groups(p, 8));
        let dst = ipv6_text(ipv6_groups(p, 24));
        if proto == PROTO_ICMPV6 {
            Some(EventModel { protocol: FlowKind::Icmp, bytes, src, dst })
        } else {
            spec_parse_transport(
                p.skip(IPV6_HEADER_LEN as int),
                proto,
                PROTO_ICMPV6,
                bytes,
                src,
                dst,
            )
        }
    }
}

/// The event parsed from one raw link-layer frame, or nothing where the
/// frame is too short, of an unknown ethertype, or of an unknown
/// next-level protocol.
pub open spec fn spec_parse(d: Seq<u8>) -> Option<EventModel> {
    if d.len() < ETH_HEADER_LEN {
        None
    } else {
        let ethertype = spec_be16(d[12], d[13]);
        if ethertype == ETHERTYPE_IPV4 {
            spec_parse_ipv4(d.skip(ETH_HEADER_LEN as int))
        } else if ethertype == ETHERTYPE_IPV6 {
            spec_parse_ipv6(d.skip(ETH_HEADER_LEN as int))
        } else {
            None
        }
    }
}

fn parse_transport(
    t: &[u8],
    proto: u8,
    icmp_proto: u8,
    bytes: u32,
    src: String,
    dst: String,
) -> (r: Option<FlowEvent>)
    ensures
        match r {
            Some(ev) => spec_parse_transport(t@, proto, icmp_proto, bytes, src@, dst@) == Some(
                ev@,
            ),
            None => spec_parse_transport(t@, proto, icmp_proto, bytes, src@, dst@)
                == None::<EventModel>,
        },
{
    if proto == PROTO_TCP {
        if t.len() < TCP_MIN_HEADER_LEN {
            None
        } else {
            let port_src = be16(t[0], t[1]);
            let port_dst = be16(t[2], t[3]);
            Some(
                FlowEvent { protocol: classify_tcp(port_src, port_dst), bytes, src, dst },
            )
        }
    } else if proto == PROTO_UDP {
        if t.len() < UDP_HEADER_LEN {
            None
        } else {
            let port_src = be16(t[0], t[1]);
            let port_dst = be16(t[2], t[3]);
            Some(
                FlowEvent { protocol: classify_udp(port_src, port_dst), bytes, src, dst },
            )
        }
    } else if proto == icmp_proto {
        Some(FlowEvent { protocol: FlowKind::Icmp, bytes, src, dst })
    } else {
        None
    }
}

fn parse_ipv4(p: &[u8]) -> (r: Option<FlowEvent>)
    ensures
        match r {
            Some(ev) => spec_parse_ipv4(p@) == Some(ev@),
            None => spec_parse_ipv4(p@) == None::<EventModel>,
        },
{
    if p.len() < IPV4_MIN_HEADER_LEN {
        return None;
    }
    let ihl = ((p[0] % 16) as usize) * 4;
    let proto = p[9];
    let bytes = be16(p[2], p[3]) as u32;
    let src = format_ipv4(p[12], p[13], p[14], p[15]);
    let dst = format_ipv4(p[16], p[17], p[18], p[19]);
    if proto == PROTO_ICMP {
        Some(FlowEvent { protocol: FlowKind::Icmp, bytes, src, dst })
    } else if ihl < IPV4_MIN_HEADER_LEN || p.len() < ihl {
        None
    } else {
        parse_transport(&p[ihl..p.len()], proto, PROTO_ICMP, bytes, src, dst)
    }
}

fn parse_ipv6(p: &[u8]) -> (r: Option<FlowEvent>)
    ensures
        match r {
            Some(ev) => spec_parse_ipv6(p@) == Some(ev@),
            None => spec_parse_ipv6(p@) == None::<EventModel>,
        },
{
    if p.len() < IPV6_HEADER_LEN {
        return None;
    }
    let proto = p[6];
    let bytes = be16(p[4], p[5]) as u32;
    let mut src_groups: Vec<u16> = Vec::new();
    src_groups.push(be16(p[8], p[9]));
    src_groups.push(be16(p[10], p[11]));
    src_groups.push(be16(p[12], p[13]));
    src_groups.push(be16(p[14], p[15]));
    src_groups.push(be16(p[16], p[17]));
    src_groups.push(be16(p[18], p[19]));
    src_groups.push(be16(p[20], p[21]));
    src_groups.push(be16(p[22], p[23]));
    proof {
        assert(src_groups@ =~= ipv6_groups(p@, 8));
    }
    let mut dst_groups: Vec<u16> = Vec::new();
    dst_groups.push(be16(p[24], p[25]));
    dst_groups.push(be16(p[26], p[27]));
    dst_groups.push(be16(p[28], p[29]));
    dst_groups.push(be16(p[30], p[31]));
    dst_groups.push(be16(p[32], p[33]));
    dst_groups.push(be16(p[34], p[35]));
    dst_groups.push(be16(p[36], p[37]));
    dst_groups.push(be16(p[38], p[39]));
    proof {
        assert(dst_groups@ =~= ipv6_groups(p@, 24));
    }
    let src = format_ipv6(&src_groups);
    let dst = format_ipv6(&dst_groups);
    if proto == PROTO_ICMPV6 {
        Some(FlowEvent { protocol: FlowKind::Icmp, bytes, src, dst })
    } else {
        parse_transport(&p[IPV6_HEADER_LEN..p.len()], proto, PROTO_ICMPV6, bytes, src, dst)
    }
}

/// Parse one raw frame into a flow event, or nothing where any header is
/// missing, truncated or unrecognized.
pub fn parse_packet(data: &[u8]) -> (r: Option<FlowEvent>)
    ensures
        match r {
            Some(ev) => spec_parse(data@) == Some(ev@),
            None => spec_parse(data@) == None::<EventModel>,
        },
{
    if data.len() < ETH_HEADER_LEN {
        return None;
    }
    let ethertype = be16(data[12], data[13]);
    if ethertype == ETHERTYPE_IPV4 {
        parse_ipv4(&data[ETH_HEADER_LEN..data.len()])
    } else if ethertype == ETHERTYPE_IPV6 {
        parse_ipv6(&data[ETH_HEADER_LEN..data.len()])
    } else {
        None
    }
}

/// A frame shorter than the minimum header size for its declared
/// ethertype yields no result: the parser never indexes past the buffer
/// end, it answers `None`.
pub proof fn lemma_short_frame_yields_nothing(d: Seq<u8>)
    ensures
        d.len() < ETH_HEADER_LEN ==> spec_parse(d) == None::<EventModel>,
        d.len() >= ETH_HEADER_LEN && spec_be16(d[12], d[13]) == ETHERTYPE_IPV4 && d.len()
            < ETH_HEADER_LEN + IPV4_MIN_HEADER_LEN ==> spec_parse(d) == None::<EventModel>,
        d.len() >= ETH_HEADER_LEN && spec_be16(d[12], d[13]) == ETHERTYPE_IPV6 && d.len()
            < ETH_HEADER_LEN + IPV6_HEADER_LEN ==> spec_parse(d) == None::<EventModel>,
{
}

proof fn lemma_parse_transport_wf(
    t: Seq<u8>,
    proto: u8,
    icmp_proto: u8,
    bytes: u32,
    src: Seq<char>,
    dst: Seq<char>,
)
    requires
        crate::text::quote_free(src),
        crate::text::quote_free(dst),
    ensures
        match spec_parse_transport(t, proto, icmp_proto, bytes, src, dst) {
            Some(e) => e.wf(),
            None => true,
        },
{
}

/// Whatever event the parser yields is well formed: its address texts
/// hold no double quote, so it can be framed as JSON without escaping.
pub proof fn lemma_parse_wf(d: Seq<u8>)
    ensures
        match spec_parse(d) {
            Some(e) => e.wf(),
            None => true,
        },
{
    if d.len() >= ETH_HEADER_LEN {
        let p = d.skip(ETH_HEADER_LEN as int);
        if spec_be16(d[12], d[13]) == ETHERTYPE_IPV4 {
            if p.len() >= IPV4_MIN_HEADER_LEN {
                lemma_ipv4_text_quote_free(p[12], p[13], p[14], p[15]);
                lemma_ipv4_text_quote_free(p[16], p[17], p[18], p[19]);
                let ihl = (p[0] as int % 16) * 4;
                lemma_parse_transport_wf(
                    p.skip(ihl),
                    p[9],
                    PROTO_ICMP,
                    spec_be16(p[2], p[3]) as u32,
                    ipv4_text(p[12], p[13], p[14], p[15]),
                    ipv4_text(p[16], p[17], p[18], p[19]),
                );
            }
        } else if spec_be16(d[12], d[13]) == ETHERTYPE_IPV6 {
            if p.len() >= IPV6_HEADER_LEN {
                lemma_ipv6_text_quote_free(ipv6_groups(p, 8));
                lemma_ipv6_text_quote_free(ipv6_groups(p, 24));
                lemma_parse_transport_wf(
                    p.skip(IPV6_HEADER_LEN as int),
                    p[6],
                    PROTO_ICMPV6,
                    spec_be16(p[4], p[5]) as u32,
                    ipv6_text(ipv6_groups(p, 8)),
                    ipv6_text(ipv6_groups(p, 24)),
                );
            }
        }
    }
}

} // verus!
