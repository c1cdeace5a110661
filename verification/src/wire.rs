//! The wire format: one flow event as one JSON object with exactly the
//! fields `protocol`, `bytes`, `src` and `dst`, and the decoder a test
//! client uses to read it back. Label names and address texts hold no
//! double quote, so the encoding needs no escaping; the decoder accepts
//! exactly the strings the encoder produces.

use vstd::prelude::*;
use vstd::string::StrSliceExecFns;
use vstd::string::StringExecFns;
use crate::digits::{
    dec_rep, dec_val, digits_end, is_dec_digit, lemma_dec_rep_digits, lemma_dec_rep_val,
    lemma_digits_end_concat, take_u32, u32_to_dec,
};
use crate::event::{EventModel, FlowEvent};
use crate::label::{
    label_chars, spec_label_from, lemma_label_no_quote, lemma_label_round_trip, FlowKind,
};
use crate::text::{
    find_quote, starts_with, quote_free, lemma_find_quote_first, lemma_find_quote_concat,
    lemma_strip_concat, scan_quote, strip_lit, str_eq,
};

verus! {

pub open spec fn lit_protocol() -> Seq<char> {
    "{\"protocol\":\""@
}

pub open spec fn lit_bytes() -> Seq<char> {
    "\",\"bytes\":"@
}

pub open spec fn lit_src() -> Seq<char> {
    ",\"src\":\""@
}

pub open spec fn lit_dst() -> Seq<char> {
    "\",\"dst\":\""@
}

pub open spec fn lit_end() -> Seq<char> {
    "\"}"@
}

/// The canonical text of one event.
pub open spec fn spec_encode(e: EventModel) -> Seq<char> {
    lit_protocol() + label_chars(e.protocol) + lit_bytes() + dec_rep(e.bytes as nat) + lit_src()
        + e.src + lit_dst() + e.dst + lit_end()
}

/// The event whose canonical text is `s`, if `s` is such a text.
pub open spec fn spec_decode(s: Seq<char>) -> Option<EventModel> {
    if !starts_with(s, lit_protocol()) {
        None
    } else {
        let s1 = s.skip(lit_protocol().len() as int);
        match find_quote(s1) {
            None => None,
            Some(i) => match spec_label_from(s1.take(i)) {
                None => None,
                Some(k) => {
                    let s2 = s1.skip(i);
                    if !starts_with(s2, lit_bytes()) {
                        None
                    } else {
                        let s3 = s2.skip(lit_bytes().len() as int);
                        let e = digits_end(s3);
                        if e == 0 || dec_val(s3.take(e)) > u32::MAX {
                            None
                        } else {
                            let s4 = s3.skip(e);
                            if !starts_with(s4, lit_src()) {
                                None
                            } else {
                                let s5 = s4.skip(lit_src().len() as int);
                                match find_quote(s5) {
                                    None => None,
                                    Some(j) => {
                                        let s6 = s5.skip(j);
                                        if !starts_with(s6, lit_dst()) {
                                            None
                                        } else {
                                            let s7 = s6.skip(lit_dst().len() as int);
                                            match find_quote(s7) {
                                                None => None,
                                                Some(m) => {
                                                    if s7.skip(m) == lit_end() {
                                                        Some(
                                                            EventModel {
                                                                protocol: k,
                                                                bytes: dec_val(s3.take(e)) as u32,
                                                                src: s5.take(j),
                                                                dst: s7.take(m),
                                                            },
                                                        )
                                                    } else {
                                                        None
                                                    }
                                                },
                                            }
                                        }
                                    },
                                }
                            }
                        }
                    }
                },
            },
        }
    }
}

/// Serialize one event to its wire text.
pub fn encode_event(e: &FlowEvent) -> (r: String)
    ensures
        r@ == spec_encode(e@),
{
    let mut s = String::from_str("{\"protocol\":\"");
    s.append(e.protocol.as_str());
    s.append("\",\"bytes\":");
    let b = u32_to_dec(e.bytes);
    s.append(b.as_str());
    s.append(",\"src\":\"");
    s.append(e.src.as_str());
    s.append("\",\"dst\":\"");
    s.append(e.dst.as_str());
    s.append("\"}");
    s
}

/// Read one event back from its wire text. Returns `None` on any string
/// that is not the canonical text of an event.
pub fn decode_event(s: &str) -> (r: Option<FlowEvent>)
    ensures
        match r {
            Some(ev) => spec_decode(s@) == Some(ev@),
            None => spec_decode(s@) == None::<EventModel>,
        },
{
    let s1 = match strip_lit(s, "{\"protocol\":\"") {
        Some(t) => t,
        None => {
            return None;
        },
    };
    let i = match scan_quote(s1) {
        Some(i) => i,
        None => {
            return None;
        },
    };
    proof {
        lemma_find_quote_first(s1@);
    }
    let label_str = s1.substring_char(0, i);
    let k = match FlowKind::from_str(label_str) {
        Some(k) => k,
        None => {
            return None;
        },
    };
    let len1 = s1.unicode_len();
    let s2 = s1.substring_char(i, len1);
    let s3 = match strip_lit(s2, "\",\"bytes\":") {
        Some(t) => t,
        None => {
            return None;
        },
    };
    let (bytes, s4) = match take_u32(s3) {
        Some(p) => p,
        None => {
            return None;
        },
    };
    let s5 = match strip_lit(s4, ",\"src\":\"") {
        Some(t) => t,
        None => {
            return None;
        },
    };
    let j = match scan_quote(s5) {
        Some(j) => j,
        None => {
            return None;
        },
    };
    proof {
        lemma_find_quote_first(s5@);
    }
    let src = s5.substring_char(0, j);
    let len5 = s5.unicode_len();
    let s6 = s5.substring_char(j, len5);
    let s7 = match strip_lit(s6, "\",\"dst\":\"") {
        Some(t) => t,
        None => {
            return None;
        },
    };
    let m = match scan_quote(s7) {
        Some(m) => m,
        None => {
            return None;
        },
    };
    proof {
        lemma_find_quote_first(s7@);
    }
    let dst = s7.substring_char(0, m);
    let len7 = s7.unicode_len();
    let s8 = s7.substring_char(m, len7);
    if !str_eq(s8, "\"}") {
        return None;
    }
    Some(
        FlowEvent {
            protocol: k,
            bytes,
            src: String::from_str(src),
            dst: String::from_str(dst),
        },
    )
}

/// Round trip: the wire text of a well-formed event decodes back to the
/// very same (protocol, bytes, src, dst) tuple.
pub proof fn lemma_wire_round_trip(e: EventModel)
    requires
        e.wf(),
    ensures
        spec_decode(spec_encode(e)) == Some(e),
{
    reveal_strlit("{\"protocol\":\"");
    reveal_strlit("\",\"bytes\":");
    reveal_strlit(",\"src\":\"");
    reveal_strlit("\",\"dst\":\"");
    reveal_strlit("\"}");
    let a = label_chars(e.protocol);
    let d = dec_rep(e.bytes as nat);
    let t8 = lit_end();
    let t7 = e.dst + t8;
    let t6 = lit_dst() + t7;
    let t5 = e.src + t6;
    let t4 = lit_src() + t5;
    let t3 = d + t4;
    let t2 = lit_bytes() + t3;
    let t1 = a + t2;
    let s = spec_encode(e);
    assert(s =~= lit_protocol() + t1);
    lemma_strip_concat(lit_protocol(), t1);
    // the label, ended by the quote that opens the bytes literal
    lemma_label_no_quote(e.protocol);
    assert(t2[0] == '"');
    lemma_find_quote_concat(a, t2);
    lemma_strip_concat(a, t2);
    lemma_label_round_trip(e.protocol);
    // the bytes field, ended by the comma that opens the src literal
    lemma_strip_concat(lit_bytes(), t3);
    lemma_dec_rep_digits(e.bytes as nat);
    assert(t4[0] == ',');
    assert(!is_dec_digit(','));
    lemma_digits_end_concat(d, t4);
    lemma_strip_concat(d, t4);
    lemma_dec_rep_val(e.bytes as nat);
    // the src text, ended by the quote that opens the dst literal
    lemma_strip_concat(lit_src(), t5);
    assert(t6[0] == '"');
    lemma_find_quote_concat(e.src, t6);
    lemma_strip_concat(e.src, t6);
    // the dst text, ended by the quote of the closing literal
    lemma_strip_concat(lit_dst(), t7);
    assert(t8[0] == '"');
    lemma_find_quote_concat(e.dst, t8);
    lemma_strip_concat(e.dst, t8);
    assert(spec_decode(s) == Some(e));
}

} // verus!
