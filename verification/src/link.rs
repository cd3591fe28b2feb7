//! One child process's message link.
//!
//! The link owns the request-id counter, the pending-request table and the
//! inbound frame decoder. The surrounding application writes the framed
//! bytes this module produces to the child's standard input, and feeds the
//! bytes read from its standard output into [`ProcessLink::on_bytes`];
//! everything between those two edges is verified.

use vstd::prelude::*;
use crate::json::JsonValue;
use crate::rpc;
use crate::rpc::{spec_field_str, spec_id_of, spec_is_notification};
use crate::pending::{PendingTable, PendingEntry, spec_plookup, spec_resolve};
use crate::framing::{FrameDecoder, encode_frame, spec_frame};
use crate::codec::{parse_json_bytes, json_to_text, spec_parse_json_bytes};
use vstd::string::StringSliceAdditionalSpecFns;

verus! {

/// What one inbound payload meant to the link.
pub enum LinkEvent {
    /// A response that matched a registered request.
    Response { entry: PendingEntry, payload: JsonValue },
    /// A server-initiated notification.
    Notification { payload: JsonValue },
    /// A malformed payload, or a response no request is waiting for.
    Ignored,
}

/// The id counter's successor: ids stay within the signed 64-bit range a
/// JSON number models, starting over at one after the largest.
pub open spec fn spec_advance_id(id: u64) -> u64 {
    if id < 0x7fff_ffff_ffff_fffe {
        (id + 1) as u64
    } else {
        1u64
    }
}

/// Wraps serialized text in a `Content-Length` frame.
pub fn frame_text(text: &str) -> (r: Vec<u8>)
    ensures
        r@ == spec_frame(text.spec_bytes()),
{
    encode_frame(text.as_bytes())
}

/// Serializes an envelope and wraps it in a `Content-Length` frame: the
/// bytes to write to the child's standard input for this message.
pub fn frame_message(v: &JsonValue) -> Vec<u8> {
    let text = json_to_text(v);
    frame_text(text.as_str())
}

/// What one parsed payload does to a pending table: a payload with a
/// method and no id is a notification; anything else resolves the waiter
/// registered under its id, if any.
pub open spec fn spec_payload_event(pending: Seq<(u64, PendingEntry)>, v: JsonValue) -> (
    LinkEvent,
    Seq<(u64, PendingEntry)>,
) {
    if spec_is_notification(v) {
        (LinkEvent::Notification { payload: v }, pending)
    } else {
        match spec_id_of(v) {
            Some(idv) => match idv.spec_as_int() {
                Some(i) => if i >= 1 && spec_plookup(pending, i as u64) is Some {
                    (
                        LinkEvent::Response {
                            entry: spec_plookup(pending, i as u64)->Some_0,
                            payload: v,
                        },
                        spec_resolve(pending, i as u64),
                    )
                } else {
                    (LinkEvent::Ignored, pending)
                },
                None => (LinkEvent::Ignored, pending),
            },
            None => (LinkEvent::Ignored, pending),
        }
    }
}

/// What a buffer of inbound bytes does to a link: every complete frame is
/// taken off the front, parsed, and classified in turn; what remains is
/// the undecoded tail and the pending table the deliveries leave behind.
/// An unparsable payload is an ignored event.
pub open spec fn spec_pump(pending: Seq<(u64, PendingEntry)>, buf: Seq<u8>) -> (
    Seq<LinkEvent>,
    Seq<(u64, PendingEntry)>,
    Seq<u8>,
)
    decreases buf.len(),
{
    match crate::framing::spec_decode(buf, 0) {
        None => (Seq::<LinkEvent>::empty(), pending, buf),
        Some((p, c)) => if 0 < c <= buf.len() {
            let step = match spec_parse_json_bytes(p) {
                Some(v) => spec_payload_event(pending, v),
                None => (LinkEvent::Ignored, pending),
            };
            let rest = spec_pump(step.1, buf.skip(c));
            (seq![step.0] + rest.0, rest.1, rest.2)
        } else {
            (Seq::<LinkEvent>::empty(), pending, buf)
        },
    }
}

/// The link to one child process.
pub struct ProcessLink {
    next_id: u64,
    pending: PendingTable,
    decoder: FrameDecoder,
    alive: bool,
}

impl ProcessLink {
    pub closed spec fn spec_next_id(&self) -> u64 {
        self.next_id
    }

    pub closed spec fn spec_pending(&self) -> Seq<(u64, PendingEntry)> {
        self.pending.spec_entries()
    }

    pub closed spec fn spec_alive(&self) -> bool {
        self.alive
    }

    pub closed spec fn spec_inbuf(&self) -> Seq<u8> {
        self.decoder.spec_buf()
    }

    pub fn new() -> (r: Self)
        ensures
            r.spec_next_id() == 1,
            r.spec_pending() == Seq::<(u64, PendingEntry)>::empty(),
            r.spec_alive(),
    {
        ProcessLink {
            next_id: 1,
            pending: PendingTable::new(),
            decoder: FrameDecoder::new(),
            alive: true,
        }
    }

    pub fn is_alive(&self) -> (r: bool)
        ensures
            r == self.spec_alive(),
    {
        self.alive
    }

    /// Builds the next outbound request envelope: allocates a fresh id,
    /// registers the waiter under it and hands the envelope back. Ids stay
    /// within the signed 64-bit range a JSON number models; after the
    /// 2^63-2nd request the counter starts over at one.
    pub fn next_request(
        &mut self,
        method: String,
        params: Option<JsonValue>,
        client_id: JsonValue,
    ) -> (r: JsonValue)
        ensures
            spec_field_str(r, "jsonrpc"@) == Some("2.0"@),
            spec_id_of(r) == Some(JsonValue::Int(old(self).spec_next_id() as i64)),
            spec_field_str(r, "method"@) == Some(method@),
            match params {
                Some(p) => r.spec_get("params"@) == Some(p),
                None => r.spec_get("params"@) is None,
            },
            final(self).spec_pending() == old(self).spec_pending().push(
                (old(self).spec_next_id(), PendingEntry { client_id, method }),
            ),
            final(self).spec_next_id() == spec_advance_id(old(self).spec_next_id()),
            final(self).spec_alive() == old(self).spec_alive(),
            final(self).spec_inbuf() == old(self).spec_inbuf(),
    {
        let id = self.next_id;
        if self.next_id >= 0x7fff_ffff_ffff_fffe {
            self.next_id = 1;
        } else {
            self.next_id = self.next_id + 1;
        }
        let entry = PendingEntry { client_id, method };
        proof {
            assert(entry.method@ == method@);
        }
        let method_copy = entry.method.clone();
        self.pending.register(id, entry);
        rpc::request_envelope(id as i64, method_copy, params)
    }

    /// Builds an outbound notification envelope; nothing is registered.
    pub fn notification(&self, method: String, params: Option<JsonValue>) -> (r: JsonValue)
        ensures
            spec_field_str(r, "jsonrpc"@) == Some("2.0"@),
            spec_id_of(r) is None,
            spec_field_str(r, "method"@) == Some(method@),
            match params {
                Some(p) => r.spec_get("params"@) == Some(p),
                None => r.spec_get("params"@) is None,
            },
            spec_is_notification(r),
    {
        rpc::notification_envelope(method, params)
    }

    /// Classifies one inbound payload: a payload with a method and no id
    /// is a notification; anything else is a response and resolves the
    /// waiter registered under its id, if any.
    pub fn on_payload(&mut self, v: JsonValue) -> (e: LinkEvent)
        ensures
            final(self).spec_next_id() == old(self).spec_next_id(),
            final(self).spec_alive() == old(self).spec_alive(),
            final(self).spec_inbuf() == old(self).spec_inbuf(),
            (e, final(self).spec_pending()) == spec_payload_event(old(self).spec_pending(), v),
            spec_is_notification(v) ==> {
                &&& e == LinkEvent::Notification { payload: v }
                &&& final(self).spec_pending() == old(self).spec_pending()
            },
            !spec_is_notification(v) ==> match spec_id_of(v) {
                Some(idv) => match idv.spec_as_int() {
                    Some(i) => {
                        if i >= 1 && spec_plookup(old(self).spec_pending(), i as u64) is Some {
                            &&& e == (LinkEvent::Response {
                                entry: spec_plookup(old(self).spec_pending(), i as u64)->Some_0,
                                payload: v,
                            })
                            &&& final(self).spec_pending() == spec_resolve(
                                old(self).spec_pending(),
                                i as u64,
                            )
                        } else {
                            e == LinkEvent::Ignored && final(self).spec_pending() == old(
                                self,
                            ).spec_pending()
                        }
                    },
                    None => e == LinkEvent::Ignored && final(self).spec_pending() == old(
                        self,
                    ).spec_pending(),
                },
                None => e == LinkEvent::Ignored && final(self).spec_pending() == old(
                    self,
                ).spec_pending(),
            },
    {
        let ghost p0 = self.pending.spec_entries();
        if rpc::is_notification(&v) {
            return LinkEvent::Notification { payload: v };
        }
        let id_int: Option<i64> = match v.get("id") {
            Some(idv) => idv.as_int(),
            None => None,
        };
        match id_int {
            Some(i) => {
                if i >= 1 {
                    match self.pending.resolve(i as u64) {
                        Some(entry) => LinkEvent::Response { entry, payload: v },
                        None => {
                            proof {
                                crate::pending::lemma_resolve_absent(p0, i as u64);
                            }
                            LinkEvent::Ignored
                        },
                    }
                } else {
                    LinkEvent::Ignored
                }
            },
            None => LinkEvent::Ignored,
        }
    }

    /// Feeds bytes read from the child's standard output through the frame
    /// decoder and classifies every complete payload: the events, the
    /// remaining pending table and the undecoded tail are exactly what
    /// [`spec_pump`] states for the buffered bytes.
    pub fn on_bytes(&mut self, data: &[u8]) -> (events: Vec<LinkEvent>)
        ensures
            final(self).spec_next_id() == old(self).spec_next_id(),
            final(self).spec_alive() == old(self).spec_alive(),
            ({
                let pump = spec_pump(old(self).spec_pending(), old(self).spec_inbuf() + data@);
                &&& events@ == pump.0
                &&& final(self).spec_pending() == pump.1
                &&& final(self).spec_inbuf() == pump.2
            }),
    {
        self.decoder.push_bytes(data);
        let ghost pend0 = self.pending.spec_entries();
        let ghost buf0 = self.decoder.spec_buf();
        let mut events: Vec<LinkEvent> = Vec::new();
        loop
            invariant_except_break
                self.spec_next_id() == old(self).spec_next_id(),
                self.spec_alive() == old(self).spec_alive(),
                pend0 == old(self).spec_pending(),
                buf0 == old(self).spec_inbuf() + data@,
                spec_pump(pend0, buf0) == (
                    events@ + spec_pump(self.pending.spec_entries(), self.decoder.spec_buf()).0,
                    spec_pump(self.pending.spec_entries(), self.decoder.spec_buf()).1,
                    spec_pump(self.pending.spec_entries(), self.decoder.spec_buf()).2,
                ),
            ensures
                self.spec_next_id() == old(self).spec_next_id(),
                self.spec_alive() == old(self).spec_alive(),
                spec_pump(pend0, buf0) == (
                    events@,
                    self.pending.spec_entries(),
                    self.decoder.spec_buf(),
                ),
            decreases self.decoder.spec_buf().len(),
        {
            let ghost cur_pend = self.pending.spec_entries();
            let ghost cur_buf = self.decoder.spec_buf();
            let frame = self.decoder.next_frame();
            match frame {
                None => {
                    proof {
                        assert(spec_pump(cur_pend, cur_buf) == (
                            Seq::<LinkEvent>::empty(),
                            cur_pend,
                            cur_buf,
                        ));
                        assert(events@ + Seq::<LinkEvent>::empty() =~= events@);
                    }
                    break ;
                },
                Some(payload) => {
                    proof {
                        assert(crate::framing::spec_decode(cur_buf, 0) matches Some(pc)
                            && pc.0 == payload@ && 0 < pc.1 <= cur_buf.len()
                            && self.decoder.spec_buf() == cur_buf.skip(pc.1));
                    }
                    let ghost ev0 = events@;
                    match parse_json_bytes(payload.as_slice()) {
                        Some(v) => {
                            let e = self.on_payload(v);
                            events.push(e);
                        },
                        None => {
                            events.push(LinkEvent::Ignored);
                        },
                    }
                    proof {
                        let step = spec_pump(cur_pend, cur_buf);
                        let rest = spec_pump(
                            self.pending.spec_entries(),
                            self.decoder.spec_buf(),
                        );
                        assert(step.0 =~= seq![events@.last()] + rest.0);
                        assert(events@ =~= ev0.push(events@.last()));
                        assert(ev0 + step.0 =~= events@ + rest.0);
                    }
                },
            }
        }
        events
    }

    /// The end of the child's output stream: the link dies and every
    /// still-pending waiter is handed back as failed.
    pub fn on_eof(&mut self) -> (r: Vec<(u64, PendingEntry)>)
        ensures
            !final(self).spec_alive(),
            final(self).spec_pending() == Seq::<(u64, PendingEntry)>::empty(),
            r@ == old(self).spec_pending(),
            final(self).spec_next_id() == old(self).spec_next_id(),
    {
        self.alive = false;
        self.pending.drain_all()
    }
}

} // verus!
