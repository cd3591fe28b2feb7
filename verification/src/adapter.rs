//! The Language Adapter: one running analyzer process behind a uniform
//! document-lifecycle and request interface.
//!
//! The adapter owns the process link and the document store. Its methods
//! turn gateway calls into outbound JSON-RPC envelopes (the application
//! frames and writes them) and classify everything the child sends back;
//! a `null` or malformed result from the child is handed to the caller as
//! a valid empty answer, never as an error.

use vstd::prelude::*;
use crate::json::{JsonValue, spec_jeq_seq, json_clone, obj_set};
use crate::rpc;
use crate::rpc::{spec_field_str, spec_id_of, spec_is_notification, INTERNAL_ERROR};
use crate::link::{ProcessLink, LinkEvent};
use crate::pending::PendingEntry;
use crate::doctable::{DocTable, DocumentData};
use crate::config::{ServerConfig, spec_env_lookup};
use crate::paths::path_to_uri;
use crate::strutil::str_eq;

verus! {

/// What one inbound child payload means to the gateway.
pub enum AdapterEvent {
    /// A correlated response, already rewritten for the waiting client.
    Reply { reply: JsonValue },
    /// A diagnostics notification to re-publish to the client unchanged.
    Publish { uri: String, params: JsonValue },
    /// Nothing to do: an unhandled notification or an unmatched response.
    Nothing,
}

/// What an adapter shutdown asks the application to do.
pub struct ShutdownPlan {
    /// Farewell notifications to write to the child, in order.
    pub messages: Vec<JsonValue>,
    /// Whether the child process must be killed.
    pub kill: bool,
}

/// The string field of a `textDocument` member.
pub open spec fn spec_td_str(params: JsonValue, field: Seq<char>) -> Option<Seq<char>> {
    match params.spec_get("textDocument"@) {
        Some(td) => spec_field_str(td, field),
        None => None,
    }
}

/// The full text carried by the last entry of `contentChanges`.
pub open spec fn spec_last_change_text(params: JsonValue) -> Option<Seq<char>> {
    match params.spec_get("contentChanges"@) {
        Some(changes) => match changes {
            JsonValue::Arr(items) => if items@.len() > 0 {
                spec_field_str(items@.last(), "text"@)
            } else {
                None
            },
            _ => None,
        },
        None => None,
    }
}

/// One language analyzer process and its state.
pub struct Adapter {
    language: String,
    config: ServerConfig,
    running: bool,
    link: ProcessLink,
    documents: DocTable,
}

impl Adapter {
    pub closed spec fn spec_language(&self) -> Seq<char> {
        self.language@
    }

    pub closed spec fn spec_config(&self) -> ServerConfig {
        self.config
    }

    pub closed spec fn spec_running(&self) -> bool {
        self.running
    }

    pub closed spec fn spec_pending(&self) -> Seq<(u64, PendingEntry)> {
        self.link.spec_pending()
    }

    pub closed spec fn spec_next_id(&self) -> u64 {
        self.link.spec_next_id()
    }

    /// The link's undecoded inbound bytes.
    pub closed spec fn spec_inbuf(&self) -> Seq<u8> {
        self.link.spec_inbuf()
    }

    /// The stored document entry for a URI.
    pub closed spec fn spec_doc(&self, uri: Seq<char>) -> Option<DocumentData> {
        self.documents.spec_doc(uri)
    }

    /// An adapter for one language, rooted at the resolved project
    /// directory, launching the well-known analyzer binary.
    pub fn new(language: String, root_path: &str) -> (r: Result<Adapter, String>)
        ensures
            r matches Ok(a) && {
                &&& a.spec_language() == language@
                &&& a.spec_config().root_path@ == root_path@
                &&& a.spec_config().executable_path matches Some(e) && e@ == "rust-analyzer"@
                &&& spec_env_lookup(a.spec_config().env_vars@, "RUST_BACKTRACE"@) == Some("1"@)
                &&& !a.spec_running()
                &&& a.spec_pending() == Seq::<(u64, PendingEntry)>::empty()
                &&& a.spec_next_id() == 1
                &&& forall|u: Seq<char>| a.spec_doc(u) is None
            },
    {
        let config = match ServerConfig::new(root_path) {
            Ok(c) => c,
            Err(e) => {
                return Err(e);
            },
        };
        let config = config.with_executable("rust-analyzer").with_env_var("RUST_BACKTRACE", "1");
        Ok(
            Adapter {
                language,
                config,
                running: false,
                link: ProcessLink::new(),
                documents: DocTable::new(),
            },
        )
    }

    /// How the child process is to be launched.
    pub fn launch_config(&self) -> (r: &ServerConfig)
        ensures
            *r == self.spec_config(),
    {
        &self.config
    }

    /// Records that the child process has been spawned.
    pub fn begin_session(&mut self)
        ensures
            final(self).spec_running(),
            final(self).spec_language() == old(self).spec_language(),
            final(self).spec_config() == old(self).spec_config(),
            final(self).spec_pending() == old(self).spec_pending(),
            final(self).spec_next_id() == old(self).spec_next_id(),
            forall|u: Seq<char>| final(self).spec_doc(u) == old(self).spec_doc(u),
    {
        self.running = true;
    }

    pub fn is_running(&self) -> (r: bool)
        ensures
            r == self.spec_running(),
    {
        self.running
    }

    /// The `initialize` request for the child: the caller's params with
    /// `rootUri` overwritten by the resolved root, under a fresh link id.
    pub fn initialize_request(&mut self, params: JsonValue, client_id: JsonValue) -> (r: JsonValue)
        ensures
            spec_field_str(r, "method"@) == Some("initialize"@),
            spec_id_of(r) == Some(JsonValue::Int(old(self).spec_next_id() as i64)),
            r.spec_get("params"@) matches Some(p) && {
                &&& params.spec_is_object() ==> {
                    &&& spec_field_str(p, "rootUri"@) == Some(
                        "file://"@ + old(self).spec_config().root_path@,
                    )
                    &&& forall|k: Seq<char>|
                        k != "rootUri"@ ==> p.spec_get(k) == params.spec_get(k)
                }
                &&& !params.spec_is_object() ==> p == params
            },
            final(self).spec_pending().len() == old(self).spec_pending().len() + 1,
            final(self).spec_pending().last().0 == old(self).spec_next_id(),
            final(self).spec_pending().last().1.client_id == client_id,
            final(self).spec_pending().last().1.method@ == "initialize"@,
            final(self).spec_pending().take(old(self).spec_pending().len() as int) == old(
                self,
            ).spec_pending(),
            final(self).spec_next_id() == crate::link::spec_advance_id(old(self).spec_next_id()),
            final(self).spec_running() == old(self).spec_running(),
            final(self).spec_config() == old(self).spec_config(),
            final(self).spec_language() == old(self).spec_language(),
            forall|u: Seq<char>| final(self).spec_doc(u) == old(self).spec_doc(u),
    {
        let uri = path_to_uri(self.config.root_path.as_str());
        let rewritten = obj_set(params, "rootUri".to_owned(), JsonValue::Str(uri));
        let ghost pend0 = self.link.spec_pending();
        let env = self.link.next_request("initialize".to_owned(), Some(rewritten), client_id);
        proof {
            assert(self.link.spec_pending().take(pend0.len() as int) =~= pend0);
        }
        env
    }

    /// An outbound request under a fresh link id, registered against the
    /// client id that asked for it.
    pub fn forward_request(
        &mut self,
        method: String,
        params: Option<JsonValue>,
        client_id: JsonValue,
    ) -> (r: JsonValue)
        ensures
            spec_field_str(r, "method"@) == Some(method@),
            spec_id_of(r) == Some(JsonValue::Int(old(self).spec_next_id() as i64)),
            match params {
                Some(p) => r.spec_get("params"@) == Some(p),
                None => r.spec_get("params"@) is None,
            },
            final(self).spec_pending().len() == old(self).spec_pending().len() + 1,
            final(self).spec_pending().last().0 == old(self).spec_next_id(),
            final(self).spec_pending().last().1.client_id == client_id,
            final(self).spec_pending().last().1.method@ == method@,
            final(self).spec_pending().take(old(self).spec_pending().len() as int) == old(
                self,
            ).spec_pending(),
            final(self).spec_next_id() == crate::link::spec_advance_id(old(self).spec_next_id()),
            final(self).spec_running() == old(self).spec_running(),
            final(self).spec_config() == old(self).spec_config(),
            final(self).spec_language() == old(self).spec_language(),
            forall|u: Seq<char>| final(self).spec_doc(u) == old(self).spec_doc(u),
    {
        let ghost pend0 = self.link.spec_pending();
        let env = self.link.next_request(method, params, client_id);
        proof {
            assert(self.link.spec_pending().take(pend0.len() as int) =~= pend0);
        }
        env
    }

    /// An outbound notification; nothing is registered.
    pub fn notification(&self, method: String, params: Option<JsonValue>) -> (r: JsonValue)
        ensures
            spec_field_str(r, "method"@) == Some(method@),
            spec_is_notification(r),
            match params {
                Some(p) => r.spec_get("params"@) == Some(p),
                None => r.spec_get("params"@) is None,
            },
    {
        self.link.notification(method, params)
    }

    /// A `didOpen`: stores the document's text, then hands back the
    /// notification to forward; a params object without the fields the
    /// protocol requires is neither stored nor forwarded.
    pub fn did_open(&mut self, params: JsonValue) -> (r: Option<JsonValue>)
        ensures
            final(self).spec_running() == old(self).spec_running(),
            final(self).spec_config() == old(self).spec_config(),
            final(self).spec_language() == old(self).spec_language(),
            final(self).spec_pending() == old(self).spec_pending(),
            final(self).spec_next_id() == old(self).spec_next_id(),
            match (spec_td_str(params, "uri"@), spec_td_str(params, "text"@)) {
                (Some(u), Some(t)) => {
                    &&& final(self).spec_doc(u) matches Some(d) && d.content@ == t
                        && d.diagnostics@.len() == 0
                    &&& forall|k: Seq<char>|
                        k != u ==> final(self).spec_doc(k) == old(self).spec_doc(k)
                    &&& r matches Some(env) && spec_field_str(env, "method"@) == Some(
                        "textDocument/didOpen"@,
                    ) && spec_is_notification(env) && env.spec_get("params"@) == Some(params)
                },
                _ => {
                    &&& forall|k: Seq<char>| final(self).spec_doc(k) == old(self).spec_doc(k)
                    &&& r is None
                },
            },
    {
        let fields: Option<(String, String)> = match params.get("textDocument") {
            Some(td) => {
                let u = match td.get("uri") {
                    Some(x) => match x.as_str() {
                        Some(s) => Some(s.clone()),
                        None => None,
                    },
                    None => None,
                };
                let t = match td.get("text") {
                    Some(x) => match x.as_str() {
                        Some(s) => Some(s.clone()),
                        None => None,
                    },
                    None => None,
                };
                match (u, t) {
                    (Some(u), Some(t)) => Some((u, t)),
                    _ => None,
                }
            },
            None => None,
        };
        match fields {
            Some((uri, text)) => {
                self.documents.open_doc(uri, text);
                Some(self.link.notification("textDocument/didOpen".to_owned(), Some(params)))
            },
            None => None,
        }
    }

    /// A full-text `didChange`: replaces the stored content with the last
    /// change's text, then hands back the notification to forward.
    pub fn did_change(&mut self, params: JsonValue) -> (r: Option<JsonValue>)
        ensures
            final(self).spec_running() == old(self).spec_running(),
            final(self).spec_config() == old(self).spec_config(),
            final(self).spec_language() == old(self).spec_language(),
            final(self).spec_pending() == old(self).spec_pending(),
            final(self).spec_next_id() == old(self).spec_next_id(),
            match (spec_td_str(params, "uri"@), spec_last_change_text(params)) {
                (Some(u), Some(t)) => {
                    &&& final(self).spec_doc(u) matches Some(d) && d.content@ == t
                        && d.diagnostics@ == (match old(self).spec_doc(u) {
                        Some(o) => o.diagnostics@,
                        None => Seq::<JsonValue>::empty(),
                    })
                    &&& forall|k: Seq<char>|
                        k != u ==> final(self).spec_doc(k) == old(self).spec_doc(k)
                    &&& r matches Some(env) && spec_field_str(env, "method"@) == Some(
                        "textDocument/didChange"@,
                    ) && spec_is_notification(env) && env.spec_get("params"@) == Some(params)
                },
                _ => {
                    &&& forall|k: Seq<char>| final(self).spec_doc(k) == old(self).spec_doc(k)
                    &&& r is None
                },
            },
    {
        let uri: Option<String> = match params.get("textDocument") {
            Some(td) => match td.get("uri") {
                Some(x) => match x.as_str() {
                    Some(s) => Some(s.clone()),
                    None => None,
                },
                None => None,
            },
            None => None,
        };
        let text: Option<String> = match params.get("contentChanges") {
            Some(changes) => match changes {
                JsonValue::Arr(items) => {
                    if items.len() > 0 {
                        match items[items.len() - 1].get("text") {
                            Some(x) => match x.as_str() {
                                Some(s) => Some(s.clone()),
                                None => None,
                            },
                            None => None,
                        }
                    } else {
                        None
                    }
                },
                _ => None,
            },
            None => None,
        };
        match (uri, text) {
            (Some(u), Some(t)) => {
                self.documents.change_doc(u, t);
                Some(self.link.notification("textDocument/didChange".to_owned(), Some(params)))
            },
            _ => None,
        }
    }

    /// A `didSave` is forwarded as it came; nothing is stored.
    pub fn did_save(&self, params: JsonValue) -> (r: JsonValue)
        ensures
            spec_field_str(r, "method"@) == Some("textDocument/didSave"@),
            spec_is_notification(r),
            r.spec_get("params"@) == Some(params),
    {
        self.link.notification("textDocument/didSave".to_owned(), Some(params))
    }

    /// A `didClose`: removes the document entry, then hands back the
    /// notification to forward.
    pub fn did_close(&mut self, params: JsonValue) -> (r: Option<JsonValue>)
        ensures
            final(self).spec_running() == old(self).spec_running(),
            final(self).spec_config() == old(self).spec_config(),
            final(self).spec_language() == old(self).spec_language(),
            final(self).spec_pending() == old(self).spec_pending(),
            final(self).spec_next_id() == old(self).spec_next_id(),
            match spec_td_str(params, "uri"@) {
                Some(u) => {
                    &&& final(self).spec_doc(u) is None
                    &&& forall|k: Seq<char>|
                        k != u ==> final(self).spec_doc(k) == old(self).spec_doc(k)
                    &&& r matches Some(env) && spec_field_str(env, "method"@) == Some(
                        "textDocument/didClose"@,
                    ) && spec_is_notification(env) && env.spec_get("params"@) == Some(params)
                },
                None => {
                    &&& forall|k: Seq<char>| final(self).spec_doc(k) == old(self).spec_doc(k)
                    &&& r is None
                },
            },
    {
        let uri: Option<String> = match params.get("textDocument") {
            Some(td) => match td.get("uri") {
                Some(x) => match x.as_str() {
                    Some(s) => Some(s.clone()),
                    None => None,
                },
                None => None,
            },
            None => None,
        };
        match uri {
            Some(u) => {
                self.documents.close_doc(u.as_str());
                Some(self.link.notification("textDocument/didClose".to_owned(), Some(params)))
            },
            None => None,
        }
    }

    /// The stored content of an open document.
    pub fn doc_content(&self, uri: &str) -> (r: Option<&String>)
        ensures
            match r {
                Some(c) => self.spec_doc(uri@) matches Some(d) && d.content == *c,
                None => self.spec_doc(uri@) is None,
            },
    {
        self.documents.get_content(uri)
    }

    /// Shuts the adapter down: a running one gets the `shutdown` and
    /// `exit` farewells and its process killed; an already-stopped one is
    /// left alone. Calling this twice is a no-op the second time.
    pub fn shutdown(&mut self) -> (r: ShutdownPlan)
        ensures
            !final(self).spec_running(),
            final(self).spec_config() == old(self).spec_config(),
            final(self).spec_language() == old(self).spec_language(),
            final(self).spec_pending() == old(self).spec_pending(),
            forall|u: Seq<char>| final(self).spec_doc(u) == old(self).spec_doc(u),
            old(self).spec_running() ==> {
                &&& r.kill
                &&& r.messages@.len() == 2
                &&& spec_field_str(r.messages@[0], "method"@) == Some("shutdown"@)
                &&& spec_field_str(r.messages@[1], "method"@) == Some("exit"@)
                &&& spec_is_notification(r.messages@[0])
                &&& spec_is_notification(r.messages@[1])
            },
            !old(self).spec_running() ==> !r.kill && r.messages@.len() == 0,
    {
        if !self.running {
            return ShutdownPlan { messages: Vec::new(), kill: false };
        }
        self.running = false;
        let mut messages: Vec<JsonValue> = Vec::new();
        messages.push(self.link.notification("shutdown".to_owned(), None));
        messages.push(self.link.notification("exit".to_owned(), None));
        ShutdownPlan { messages, kill: true }
    }

    /// Feeds bytes read from the child's standard output through the
    /// link's frame decoder and classifies every complete payload: the
    /// pending table and undecoded tail evolve exactly as the link's
    /// byte pump states, one adapter event comes out per meaningful link
    /// event, and what each means is stated by
    /// [`Adapter::on_child_notification`] and [`interpret_child_response`].
    pub fn on_child_bytes(&mut self, data: &[u8]) -> (r: Vec<AdapterEvent>)
        ensures
            spec_child_bytes_step(*old(self), *final(self), data@, r@),
    {
        let events = self.link.on_bytes(data);
        let ghost all = events@;
        let mut out: Vec<AdapterEvent> = Vec::new();
        let mut evs = events;
        loop
            invariant_except_break
                self.spec_running() == old(self).spec_running(),
                self.spec_config() == old(self).spec_config(),
                self.spec_language() == old(self).spec_language(),
                self.spec_next_id() == old(self).spec_next_id(),
                self.spec_pending() == crate::link::spec_pump(
                    old(self).spec_pending(),
                    old(self).spec_inbuf() + data@,
                ).1,
                self.spec_inbuf() == crate::link::spec_pump(
                    old(self).spec_pending(),
                    old(self).spec_inbuf() + data@,
                ).2,
                spec_meaningful_count(all) == out@.len() + spec_meaningful_count(evs@),
            ensures
                self.spec_running() == old(self).spec_running(),
                self.spec_config() == old(self).spec_config(),
                self.spec_language() == old(self).spec_language(),
                self.spec_next_id() == old(self).spec_next_id(),
                self.spec_pending() == crate::link::spec_pump(
                    old(self).spec_pending(),
                    old(self).spec_inbuf() + data@,
                ).1,
                self.spec_inbuf() == crate::link::spec_pump(
                    old(self).spec_pending(),
                    old(self).spec_inbuf() + data@,
                ).2,
                out@.len() == spec_meaningful_count(all),
            decreases evs.len(),
        {
            if evs.len() == 0 {
                break ;
            }
            let ghost evs0 = evs@;
            let e = evs.remove(0);
            proof {
                assert(evs@ =~= evs0.drop_first());
            }
            match e {
                LinkEvent::Notification { payload } => {
                    let ev = self.on_child_notification(payload);
                    out.push(ev);
                },
                LinkEvent::Response { entry, payload } => {
                    let reply = interpret_child_response(entry, payload);
                    out.push(AdapterEvent::Reply { reply });
                },
                LinkEvent::Ignored => {},
            }
        }
        out
    }

    /// The end of the child's output stream: every still-pending request
    /// fails; their waiting clients are handed back.
    pub fn on_child_eof(&mut self) -> (r: Vec<(u64, PendingEntry)>)
        ensures
            final(self).spec_pending() == Seq::<(u64, PendingEntry)>::empty(),
            r@ == old(self).spec_pending(),
            final(self).spec_running() == old(self).spec_running(),
            final(self).spec_config() == old(self).spec_config(),
            forall|u: Seq<char>| final(self).spec_doc(u) == old(self).spec_doc(u),
    {
        self.link.on_eof()
    }

    /// Classifies one payload read from the child, already parsed: a
    /// diagnostics notification updates the document store and is handed
    /// back for re-publication; a response resolves its waiter and is
    /// rewritten for the waiting client.
    pub fn on_child_payload(&mut self, payload: JsonValue) -> (r: AdapterEvent)
        ensures
            final(self).spec_running() == old(self).spec_running(),
            final(self).spec_config() == old(self).spec_config(),
            final(self).spec_next_id() == old(self).spec_next_id(),
    {
        let e = self.link.on_payload(payload);
        match e {
            LinkEvent::Notification { payload } => self.on_child_notification(payload),
            LinkEvent::Response { entry, payload } => {
                let reply = interpret_child_response(entry, payload);
                AdapterEvent::Reply { reply }
            },
            LinkEvent::Ignored => AdapterEvent::Nothing,
        }
    }

    /// A server-initiated notification: `publishDiagnostics` updates the
    /// document store and is re-published unchanged; anything else is
    /// dropped.
    pub fn on_child_notification(&mut self, payload: JsonValue) -> (r: AdapterEvent)
        ensures
            final(self).spec_running() == old(self).spec_running(),
            final(self).spec_config() == old(self).spec_config(),
            final(self).spec_language() == old(self).spec_language(),
            final(self).spec_pending() == old(self).spec_pending(),
            final(self).spec_next_id() == old(self).spec_next_id(),
            final(self).spec_inbuf() == old(self).spec_inbuf(),
            match diag_fields(payload) {
                Some(u) => {
                    &&& final(self).spec_doc(u) matches Some(d) && spec_jeq_diags(
                        d.diagnostics@,
                        payload,
                    ) && d.content@ == (match old(self).spec_doc(u) {
                        Some(o) => o.content@,
                        None => Seq::<char>::empty(),
                    })
                    &&& forall|k: Seq<char>|
                        k != u ==> final(self).spec_doc(k) == old(self).spec_doc(k)
                    &&& r matches AdapterEvent::Publish { uri, params } && uri@ == u && params
                        == payload
                },
                None => {
                    &&& forall|k: Seq<char>| final(self).spec_doc(k) == old(self).spec_doc(k)
                    &&& r is Nothing
                },
            },
    {
        let is_diag = match payload.get("method") {
            Some(m) => match m.as_str() {
                Some(s) => str_eq(s.as_str(), "textDocument/publishDiagnostics"),
                None => false,
            },
            None => false,
        };
        if !is_diag {
            proof {
                assert(diag_fields(payload) is None);
            }
            return AdapterEvent::Nothing;
        }
        let uri: Option<String> = match payload.get("params") {
            Some(p) => match p.get("uri") {
                Some(x) => match x.as_str() {
                    Some(s) => Some(s.clone()),
                    None => None,
                },
                None => None,
            },
            None => None,
        };
        match uri {
            Some(u) => {
                let diags: Vec<JsonValue> = match payload.get("params") {
                    Some(p) => match p.get("diagnostics") {
                        Some(x) => match json_clone(x) {
                            JsonValue::Arr(d) => d,
                            _ => Vec::new(),
                        },
                        None => Vec::new(),
                    },
                    None => Vec::new(),
                };
                let uri_copy = u.clone();
                self.documents.set_diagnostics(u, diags);
                AdapterEvent::Publish { uri: uri_copy, params: payload }
            },
            None => AdapterEvent::Nothing,
        }
    }
}

/// What every language's adapter offers: its analyzer's identity, its
/// launch configuration and whether its process runs.
pub trait BaseLanguageServer {
    /// The analyzer binary's identifier.
    fn analyzer_id(&self) -> &'static str;

    /// The analyzer's display name.
    fn analyzer_name(&self) -> &'static str;

    /// The launch configuration.
    fn config(&self) -> &ServerConfig;

    /// Whether the analyzer process is running.
    fn running(&self) -> bool;
}

impl BaseLanguageServer for Adapter {
    fn analyzer_id(&self) -> &'static str {
        "rust-analyzer"
    }

    fn analyzer_name(&self) -> &'static str {
        "Rust Analyzer"
    }

    fn config(&self) -> &ServerConfig {
        &self.config
    }

    fn running(&self) -> bool {
        self.running
    }
}

/// How many of a link's events carry meaning: everything but the
/// ignored ones.
pub open spec fn spec_meaningful_count(evs: Seq<LinkEvent>) -> nat
    decreases evs.len(),
{
    if evs.len() == 0 {
        0
    } else {
        (if evs[0] is Ignored {
            0nat
        } else {
            1nat
        }) + spec_meaningful_count(evs.drop_first())
    }
}

/// What feeding child bytes into an adapter does: the link evolves by its
/// byte pump, the rest of the adapter's identity is untouched, and one
/// adapter event is produced per meaningful link event.
pub open spec fn spec_child_bytes_step(
    pre: Adapter,
    post: Adapter,
    data: Seq<u8>,
    r: Seq<AdapterEvent>,
) -> bool {
    let pump = crate::link::spec_pump(pre.spec_pending(), pre.spec_inbuf() + data);
    &&& post.spec_pending() == pump.1
    &&& post.spec_inbuf() == pump.2
    &&& r.len() == spec_meaningful_count(pump.0)
    &&& post.spec_running() == pre.spec_running()
    &&& post.spec_config() == pre.spec_config()
    &&& post.spec_language() == pre.spec_language()
    &&& post.spec_next_id() == pre.spec_next_id()
}

/// The URI of a `publishDiagnostics` notification, when the payload is
/// one.
pub open spec fn diag_fields(payload: JsonValue) -> Option<Seq<char>> {
    if spec_field_str(payload, "method"@) == Some("textDocument/publishDiagnostics"@) {
        match payload.spec_get("params"@) {
            Some(p) => spec_field_str(p, "uri"@),
            None => None,
        }
    } else {
        None
    }
}

/// The stored diagnostics match the ones the notification carried: a
/// structurally equal copy of its `diagnostics` array, or empty where the
/// notification carried none.
pub open spec fn spec_jeq_diags(stored: Seq<JsonValue>, payload: JsonValue) -> bool {
    match payload.spec_get("params"@) {
        Some(p) => match p.spec_get("diagnostics"@) {
            Some(d) => match d {
                JsonValue::Arr(items) => spec_jeq_seq(stored, items@),
                _ => stored.len() == 0,
            },
            None => stored.len() == 0,
        },
        None => stored.len() == 0,
    }
}

/// The degraded `initialize` result: it carries exactly the conservative
/// default capability set — incremental sync, with hover, completion,
/// definition, references, formatting and rename enabled.
pub open spec fn spec_default_caps_result(d: JsonValue) -> bool {
    d.spec_get("capabilities"@) matches Some(c) && {
        &&& c.spec_get("textDocumentSync"@) == Some(JsonValue::Int(2))
        &&& c.spec_get("hoverProvider"@) == Some(JsonValue::Bool(true))
        &&& c.spec_get("completionProvider"@) is Some
        &&& c.spec_get("definitionProvider"@) == Some(JsonValue::Bool(true))
        &&& c.spec_get("referencesProvider"@) == Some(JsonValue::Bool(true))
        &&& c.spec_get("documentFormattingProvider"@) == Some(JsonValue::Bool(true))
        &&& c.spec_get("renameProvider"@) == Some(JsonValue::Bool(true))
    }
}

/// The conservative default capability set: incremental sync, with hover,
/// completion, definition, references, formatting and rename enabled.
pub fn default_capabilities() -> (r: JsonValue)
    ensures
        r.spec_get("textDocumentSync"@) == Some(JsonValue::Int(2)),
        r.spec_get("hoverProvider"@) == Some(JsonValue::Bool(true)),
        r.spec_get("definitionProvider"@) == Some(JsonValue::Bool(true)),
        r.spec_get("referencesProvider"@) == Some(JsonValue::Bool(true)),
        r.spec_get("documentFormattingProvider"@) == Some(JsonValue::Bool(true)),
        r.spec_get("completionProvider"@) is Some,
        r.spec_get("renameProvider"@) == Some(JsonValue::Bool(true)),
{
    let mut completion: Vec<(String, JsonValue)> = Vec::new();
    completion.push(("resolveProvider".to_owned(), JsonValue::Bool(true)));
    let mut pairs: Vec<(String, JsonValue)> = Vec::new();
    pairs.push(("textDocumentSync".to_owned(), JsonValue::Int(2)));
    pairs.push(("hoverProvider".to_owned(), JsonValue::Bool(true)));
    pairs.push(("completionProvider".to_owned(), JsonValue::Obj(completion)));
    pairs.push(("definitionProvider".to_owned(), JsonValue::Bool(true)));
    pairs.push(("referencesProvider".to_owned(), JsonValue::Bool(true)));
    pairs.push(("documentFormattingProvider".to_owned(), JsonValue::Bool(true)));
    pairs.push(("renameProvider".to_owned(), JsonValue::Bool(true)));
    let r = JsonValue::Obj(pairs);
    proof {
        lemma_caps_lookup(pairs@);
        assert(r.spec_get("textDocumentSync"@) == Some(JsonValue::Int(2)));
    }
    r
}

proof fn lemma_caps_lookup(pairs: Seq<(String, JsonValue)>)
    requires
        pairs.len() == 7,
        pairs[0].0@ == "textDocumentSync"@,
        pairs[1].0@ == "hoverProvider"@,
        pairs[2].0@ == "completionProvider"@,
        pairs[3].0@ == "definitionProvider"@,
        pairs[4].0@ == "referencesProvider"@,
        pairs[5].0@ == "documentFormattingProvider"@,
        pairs[6].0@ == "renameProvider"@,
    ensures
        crate::json::spec_lookup(pairs, "textDocumentSync"@) == Some(pairs[0].1),
        crate::json::spec_lookup(pairs, "hoverProvider"@) == Some(pairs[1].1),
        crate::json::spec_lookup(pairs, "completionProvider"@) == Some(pairs[2].1),
        crate::json::spec_lookup(pairs, "definitionProvider"@) == Some(pairs[3].1),
        crate::json::spec_lookup(pairs, "referencesProvider"@) == Some(pairs[4].1),
        crate::json::spec_lookup(pairs, "documentFormattingProvider"@) == Some(pairs[5].1),
        crate::json::spec_lookup(pairs, "renameProvider"@) == Some(pairs[6].1),
{
    lemma_caps_keys_distinct();
    crate::json::lemma_first_match_lookup(pairs, 0);
    crate::json::lemma_first_match_lookup(pairs, 1);
    crate::json::lemma_first_match_lookup(pairs, 2);
    crate::json::lemma_first_match_lookup(pairs, 3);
    crate::json::lemma_first_match_lookup(pairs, 4);
    crate::json::lemma_first_match_lookup(pairs, 5);
    crate::json::lemma_first_match_lookup(pairs, 6);
}

proof fn lemma_caps_keys_distinct()
    ensures
        "textDocumentSync"@.len() == 16,
        "hoverProvider"@.len() == 13,
        "completionProvider"@.len() == 18,
        "definitionProvider"@.len() == 18,
        "referencesProvider"@.len() == 18,
        "documentFormattingProvider"@.len() == 26,
        "renameProvider"@.len() == 14,
        "completionProvider"@[0] == 'c',
        "definitionProvider"@[0] == 'd',
        "referencesProvider"@[0] == 'r',
{
    reveal_strlit("textDocumentSync");
    reveal_strlit("hoverProvider");
    reveal_strlit("completionProvider");
    reveal_strlit("definitionProvider");
    reveal_strlit("referencesProvider");
    reveal_strlit("documentFormattingProvider");
    reveal_strlit("renameProvider");
}

/// The reply a child response earns, under the client's own id: an error
/// on `initialize` is surfaced; a missing or malformed `initialize`
/// capability payload degrades to the default capability set; and a
/// `null` result for the query methods is a valid empty answer, never an
/// error.
pub fn interpret_child_response(entry: PendingEntry, payload: JsonValue) -> (r: JsonValue)
    ensures
        spec_id_of(r) == Some(entry.client_id),
        entry.method@ == "initialize"@ ==> {
            &&& rpc::spec_error_code(payload) is Some ==> rpc::spec_error_code(r) == Some(
                INTERNAL_ERROR,
            )
            &&& rpc::spec_error_code(payload) is None ==> {
                &&& rpc::spec_error_code(r) is None
                &&& match rpc::spec_result_of(payload) {
                    Some(res) => if res.spec_get("capabilities"@) is Some {
                        rpc::spec_result_of(r) == Some(res)
                    } else {
                        rpc::spec_result_of(r) matches Some(d) && spec_default_caps_result(d)
                    },
                    None => rpc::spec_result_of(r) matches Some(d) && spec_default_caps_result(
                        d,
                    ),
                }
            }
        },
        entry.method@ == "textDocument/completion"@ ==> {
            &&& rpc::spec_error_code(r) is None
            &&& match rpc::spec_result_of(payload) {
                Some(res) => if res is Arr || res is Obj {
                    rpc::spec_result_of(r) == Some(res)
                } else {
                    rpc::spec_result_of(r) matches Some(d) && d.spec_get("items"@) matches Some(
                        items,
                    ) && items is Arr
                },
                None => rpc::spec_result_of(r) matches Some(d) && d.spec_get("items"@) matches Some(
                    items,
                ) && items is Arr,
            }
        },
        (entry.method@ == "textDocument/hover"@ || entry.method@ == "textDocument/definition"@
            || entry.method@ == "textDocument/references"@ || entry.method@
            == "textDocument/formatting"@) ==> {
            &&& rpc::spec_error_code(r) is None
            &&& match rpc::spec_result_of(payload) {
                Some(res) => rpc::spec_result_of(r) == Some(res),
                None => rpc::spec_result_of(r) == Some(JsonValue::Null),
            }
        },
{
    proof {
        lemma_method_names_distinct();
    }
    let method = entry.method;
    let client_id = entry.client_id;
    if str_eq(method.as_str(), "initialize") {
        let has_error = match payload.get("error") {
            Some(e) => match e.get("code") {
                Some(c) => c.as_int().is_some(),
                None => false,
            },
            None => false,
        };
        if has_error {
            return rpc::error_response(
                client_id,
                INTERNAL_ERROR,
                "Initialize error reported by the language analyzer".to_owned(),
            );
        }
        let (_rest, result) = crate::json::obj_take(payload, "result");
        match result {
            Some(res) => {
                let ok = match res.get("capabilities") {
                    Some(_) => true,
                    None => false,
                };
                if ok {
                    rpc::success_response(client_id, res)
                } else {
                    rpc::success_response(client_id, default_initialize_result())
                }
            },
            None => rpc::success_response(client_id, default_initialize_result()),
        }
    } else if str_eq(method.as_str(), "textDocument/completion") {
        let (_rest, result) = crate::json::obj_take(payload, "result");
        match result {
            Some(res) => {
                let ok = match &res {
                    JsonValue::Arr(_) => true,
                    JsonValue::Obj(_) => true,
                    _ => false,
                };
                if ok {
                    rpc::success_response(client_id, res)
                } else {
                    rpc::success_response(client_id, empty_completion())
                }
            },
            None => rpc::success_response(client_id, empty_completion()),
        }
    } else {
        let (_rest, result) = crate::json::obj_take(payload, "result");
        match result {
            Some(res) => rpc::success_response(client_id, res),
            None => rpc::success_response(client_id, JsonValue::Null),
        }
    }
}

/// The method names the response interpreter distinguishes are pairwise
/// distinct.
proof fn lemma_method_names_distinct()
    ensures
        "initialize"@.len() == 10,
        "textDocument/completion"@.len() == 23,
        "textDocument/hover"@.len() == 18,
        "textDocument/definition"@.len() == 23,
        "textDocument/references"@.len() == 23,
        "textDocument/formatting"@.len() == 23,
        "textDocument/completion"@[13] == 'c',
        "textDocument/definition"@[13] == 'd',
        "textDocument/references"@[13] == 'r',
        "textDocument/formatting"@[13] == 'f',
{
    reveal_strlit("initialize");
    reveal_strlit("textDocument/completion");
    reveal_strlit("textDocument/hover");
    reveal_strlit("textDocument/definition");
    reveal_strlit("textDocument/references");
    reveal_strlit("textDocument/formatting");
}

/// An empty completion list: not incomplete, no items.
pub fn empty_completion() -> (r: JsonValue)
    ensures
        r.spec_get("isIncomplete"@) == Some(JsonValue::Bool(false)),
        r.spec_get("items"@) matches Some(items) && items is Arr,
{
    let mut pairs: Vec<(String, JsonValue)> = Vec::new();
    pairs.push(("isIncomplete".to_owned(), JsonValue::Bool(false)));
    pairs.push(("items".to_owned(), JsonValue::Arr(Vec::new())));
    let r = JsonValue::Obj(pairs);
    proof {
        reveal_strlit("isIncomplete");
        reveal_strlit("items");
        assert("isIncomplete"@.len() == 12);
        assert("items"@.len() == 5);
        crate::json::lemma_first_match_lookup(pairs@, 0);
        crate::json::lemma_first_match_lookup(pairs@, 1);
    }
    r
}

/// The fallback `initialize` result around the default capability set.
pub fn default_initialize_result() -> (r: JsonValue)
    ensures
        spec_default_caps_result(r),
{
    let mut pairs: Vec<(String, JsonValue)> = Vec::new();
    pairs.push(("capabilities".to_owned(), default_capabilities()));
    let r = JsonValue::Obj(pairs);
    proof {
        crate::json::lemma_first_match_lookup(pairs@, 0);
    }
    r
}

} // verus!
