//! The flow event: the externally visible unit of information, derived
//! from exactly one raw frame and immutable once constructed.

use vstd::prelude::*;
use crate::label::FlowKind;
use crate::text::quote_free;

verus! {

/// Mathematical model of a flow event.
pub ghost struct EventModel {
    pub protocol: FlowKind,
    pub bytes: u32,
    pub src: Seq<char>,
    pub dst: Seq<char>,
}

impl EventModel {
    /// The address texts hold no double quote, so the event can be framed
    /// as JSON without escaping. Every event the header parser yields is
    /// well formed.
    pub open spec fn wf(self) -> bool {
        quote_free(self.src) && quote_free(self.dst)
    }
}

/// One classified observation: protocol label, declared byte length of the
/// network-layer payload, and the two addresses as text.
#[derive(Clone, Debug)]
pub struct FlowEvent {
    pub protocol: FlowKind,
    pub bytes: u32,
    pub src: String,
    pub dst: String,
}

impl View for FlowEvent {
    type V = EventModel;

    open spec fn view(&self) -> EventModel {
        EventModel {
            protocol: self.protocol,
            bytes: self.bytes,
            src: self.src@,
            dst: self.dst@,
        }
    }
}

} // verus!
