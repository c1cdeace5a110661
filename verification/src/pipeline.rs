//! The pure work of the two loops. One capture iteration is
//! parse → classify → encode → publish, with any stage free to drop the
//! frame silently; one fan-out iteration is a read outcome turned into
//! the session's next action. The blocking capture call and the client
//! I/O around these steps live outside the library.

use vstd::prelude::*;
use crate::channel::{spec_publish, Broadcast, RecvModel, RecvResult};
use crate::parse::{lemma_parse_wf, parse_packet, spec_parse};
use crate::wire::{encode_event, lemma_wire_round_trip, spec_decode, spec_encode};

verus! {

/// Wire text the capture loop would publish for the frame `d`: the
/// encoding of its parsed event, or nothing where parsing yields none.
pub open spec fn spec_process(d: Seq<u8>) -> Option<Seq<char>> {
    match spec_parse(d) {
        Some(e) => Some(spec_encode(e)),
        None => None,
    }
}

/// Header Parser, Classifier and Event Encoder applied to one raw frame:
/// everything one capture iteration does to it short of publishing.
pub fn process_frame(data: &[u8]) -> (r: Option<String>)
    ensures
        match r {
            Some(s) => spec_process(data@) == Some(s@),
            None => spec_process(data@) == None::<Seq<char>>,
        },
{
    match parse_packet(data) {
        Some(ev) => Some(encode_event(&ev)),
        None => None,
    }
}

/// What a test client decodes is exactly what the parser observed: every
/// frame that yields an event yields a published text, and that text
/// decodes back to the very event.
pub proof fn lemma_published_text_decodes(d: Seq<u8>)
    ensures
        match spec_parse(d) {
            Some(e) => spec_process(d) == Some(spec_encode(e)) && spec_decode(spec_encode(e))
                == Some(e),
            None => spec_process(d) == None::<Seq<char>>,
        },
{
    lemma_parse_wf(d);
    match spec_parse(d) {
        Some(e) => lemma_wire_round_trip(e),
        None => (),
    }
}

/// One capture iteration against the channel: the frame's event, if it
/// has one, is encoded and published; a frame any stage rejects leaves
/// the channel untouched. Either way the producer moves on at once.
pub fn capture_step(ch: &mut Broadcast, data: &[u8])
    requires
        old(ch)@.wf(),
        old(ch)@.total() < u64::MAX,
    ensures
        match spec_process(data@) {
            Some(s) => final(ch)@ == spec_publish(old(ch)@, s),
            None => final(ch)@ == old(ch)@,
        },
        final(ch)@.wf(),
{
    match process_frame(data) {
        Some(msg) => ch.publish(msg),
        None => (),
    }
}

/// What a fan-out session does next.
pub enum SessionAction {
    /// Send this event to the client as one text message.
    Forward(String),
    /// Keep reading: nothing to send this time.
    Continue,
    /// The channel is closed and drained: end the session.
    Stop,
}

/// Model of a session action.
pub ghost enum ActionModel {
    Forward(Seq<char>),
    Continue,
    Stop,
}

impl View for SessionAction {
    type V = ActionModel;

    open spec fn view(&self) -> ActionModel {
        match self {
            SessionAction::Forward(s) => ActionModel::Forward(s@),
            SessionAction::Continue => ActionModel::Continue,
            SessionAction::Stop => ActionModel::Stop,
        }
    }
}

/// The session's decision on one read outcome: forward an event, resume
/// silently after an overrun (lost events are accepted, not reported to
/// the client), keep waiting on an empty channel, and stop only on
/// closure. Send failure ends the session in the caller, which performs
/// the send.
pub fn session_step(r: RecvResult) -> (a: SessionAction)
    ensures
        match r@ {
            RecvModel::Event(s) => a@ == ActionModel::Forward(s),
            RecvModel::Lagged(_) => a@ == ActionModel::Continue,
            RecvModel::Empty => a@ == ActionModel::Continue,
            RecvModel::Closed => a@ == ActionModel::Stop,
        },
{
    match r {
        RecvResult::Event(s) => SessionAction::Forward(s),
        RecvResult::Lagged(_) => SessionAction::Continue,
        RecvResult::Empty => SessionAction::Continue,
        RecvResult::Closed => SessionAction::Stop,
    }
}

} // verus!
