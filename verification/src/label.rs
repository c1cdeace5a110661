//! The closed set of protocol labels a frame can be classified into, with
//! the single conversion point between labels and their wire-format names.

use vstd::prelude::*;
use crate::text::str_eq;

verus! {

/// Protocol category of one observed frame. The set is closed: it grows
/// only by adding a case, never dynamically.
#[derive(Clone, Copy, Debug, PartialEq, Eq, Structural)]
pub enum FlowKind {
    Http,
    Dns,
    Ssh,
    Tls,
    Ftp,
    Smtp,
    Ntp,
    Mqtt,
    Icmp,
    /// Unclassified TCP traffic.
    Tcp,
    /// Unclassified UDP traffic.
    Udp,
}

/// Wire-format name of a label.
pub open spec fn label_chars(k: FlowKind) -> Seq<char> {
    match k {
        FlowKind::Http => "http"@,
        FlowKind::Dns => "dns"@,
        FlowKind::Ssh => "ssh"@,
        FlowKind::Tls => "tls"@,
        FlowKind::Ftp => "ftp"@,
        FlowKind::Smtp => "smtp"@,
        FlowKind::Ntp => "ntp"@,
        FlowKind::Mqtt => "mqtt"@,
        FlowKind::Icmp => "icmp"@,
        FlowKind::Tcp => "tcp"@,
        FlowKind::Udp => "udp"@,
    }
}

/// The label whose wire-format name is `s`, if any.
pub open spec fn spec_label_from(s: Seq<char>) -> Option<FlowKind> {
    if s == "http"@ {
        Some(FlowKind::Http)
    } else if s == "dns"@ {
        Some(FlowKind::Dns)
    } else if s == "ssh"@ {
        Some(FlowKind::Ssh)
    } else if s == "tls"@ {
        Some(FlowKind::Tls)
    } else if s == "ftp"@ {
        Some(FlowKind::Ftp)
    } else if s == "smtp"@ {
        Some(FlowKind::Smtp)
    } else if s == "ntp"@ {
        Some(FlowKind::Ntp)
    } else if s == "mqtt"@ {
        Some(FlowKind::Mqtt)
    } else if s == "icmp"@ {
        Some(FlowKind::Icmp)
    } else if s == "tcp"@ {
        Some(FlowKind::Tcp)
    } else if s == "udp"@ {
        Some(FlowKind::Udp)
    } else {
        None
    }
}

impl FlowKind {
    /// Wire-format name of this label.
    pub fn as_str(&self) -> (r: &'static str)
        ensures
            r@ == label_chars(*self),
    {
        match self {
            FlowKind::Http => "http",
            FlowKind::Dns => "dns",
            FlowKind::Ssh => "ssh",
            FlowKind::Tls => "tls",
            FlowKind::Ftp => "ftp",
            FlowKind::Smtp => "smtp",
            FlowKind::Ntp => "ntp",
            FlowKind::Mqtt => "mqtt",
            FlowKind::Icmp => "icmp",
            FlowKind::Tcp => "tcp",
            FlowKind::Udp => "udp",
        }
    }

    /// Label carrying the wire-format name `s`, or `None` for any other
    /// string.
    pub fn from_str(s: &str) -> (r: Option<FlowKind>)
        ensures
            r == spec_label_from(s@),
    {
        if str_eq(s, "http") {
            Some(FlowKind::Http)
        } else if str_eq(s, "dns") {
            Some(FlowKind::Dns)
        } else if str_eq(s, "ssh") {
            Some(FlowKind::Ssh)
        } else if str_eq(s, "tls") {
            Some(FlowKind::Tls)
        } else if str_eq(s, "ftp") {
            Some(FlowKind::Ftp)
        } else if str_eq(s, "smtp") {
            Some(FlowKind::Smtp)
        } else if str_eq(s, "ntp") {
            Some(FlowKind::Ntp)
        } else if str_eq(s, "mqtt") {
            Some(FlowKind::Mqtt)
        } else if str_eq(s, "icmp") {
            Some(FlowKind::Icmp)
        } else if str_eq(s, "tcp") {
            Some(FlowKind::Tcp)
        } else if str_eq(s, "udp") {
            Some(FlowKind::Udp)
        } else {
            None
        }
    }
}

/// Reveal every wire-format label name at once.
proof fn reveal_labels()
    ensures
        "http"@ =~= seq!['h', 't', 't', 'p'],
        "dns"@ =~= seq!['d', 'n', 's'],
        "ssh"@ =~= seq!['s', 's', 'h'],
        "tls"@ =~= seq!['t', 'l', 's'],
        "ftp"@ =~= seq!['f', 't', 'p'],
        "smtp"@ =~= seq!['s', 'm', 't', 'p'],
        "ntp"@ =~= seq!['n', 't', 'p'],
        "mqtt"@ =~= seq!['m', 'q', 't', 't'],
        "icmp"@ =~= seq!['i', 'c', 'm', 'p'],
        "tcp"@ =~= seq!['t', 'c', 'p'],
        "udp"@ =~= seq!['u', 'd', 'p'],
{
    reveal_strlit("http");
    reveal_strlit("dns");
    reveal_strlit("ssh");
    reveal_strlit("tls");
    reveal_strlit("ftp");
    reveal_strlit("smtp");
    reveal_strlit("ntp");
    reveal_strlit("mqtt");
    reveal_strlit("icmp");
    reveal_strlit("tcp");
    reveal_strlit("udp");
}

/// Converting a label to its wire-format name and looking that name up
/// again gives the label back: the conversion point loses nothing.
pub proof fn lemma_label_round_trip(k: FlowKind)
    ensures
        spec_label_from(label_chars(k)) == Some(k),
{
    reveal_labels();
}

/// No wire-format label name holds a double quote, so a label may stand
/// unescaped inside a JSON string.
pub proof fn lemma_label_no_quote(k: FlowKind)
    ensures
        crate::text::quote_free(label_chars(k)),
{
    reveal_labels();
}

} // verus!
