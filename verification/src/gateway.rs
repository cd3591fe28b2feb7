//! The connection gateway: the per-connection JSON-RPC session machine
//! behind the socket transport.
//!
//! Every inbound frame must be a JSON-RPC 2.0 object; violations are
//! answered with the standard error codes, never by closing the
//! connection. `initialize` runs language detection and root correction
//! before a server is created for the session; `textDocument/didOpen`
//! re-detects a generic language; every other method is forwarded to the
//! session's adapter. Closing the connection tears the session's server
//! down so no child process is orphaned.

use vstd::prelude::*;
use crate::json::{JsonValue, spec_jeq, json_clone, obj_set, obj_take};
use crate::rpc;
use crate::rpc::{
    spec_field_str, spec_id_of, spec_error_code, PARSE_ERROR, INVALID_REQUEST, METHOD_NOT_FOUND,
    INVALID_PARAMS, INTERNAL_ERROR,
};
use crate::registry::{ServerFactory, spec_flookup, spec_req_id};
use crate::adapter::ShutdownPlan;
use crate::config::ServerConfig;
use crate::fsio::FileSystem;
use crate::detect;
use crate::languages;
use crate::languages::{spec_is_supported, spec_supported_list};
use crate::paths::uri_to_path;
use crate::strutil::{str_eq, spec_starts_with};
use crate::codec::parse_json_text;

verus! {

/// What handling one frame asks the application to do.
pub struct GatewayOutcome {
    /// The reply to send back on the socket, when one is due now.
    pub reply: Option<JsonValue>,
    /// A child process to spawn, when `initialize` reached an adapter.
    pub spawn: Option<ServerConfig>,
    /// Envelopes to frame and write to the session's child, in order.
    pub child_messages: Vec<JsonValue>,
}

/// The error message of an unsupported-language reply: it names the
/// language and lists every supported one.
pub open spec fn spec_unsupported_message(lang: Seq<char>) -> Seq<char> {
    "Language '"@ + lang + "' is not supported. Currently supported languages are: "@
        + spec_supported_list()
}

fn unsupported_message(lang: &str) -> (r: String)
    ensures
        r@ == spec_unsupported_message(lang@),
{
    let mut m = "Language '".to_owned();
    m.append(lang);
    m.append("' is not supported. Currently supported languages are: ");
    let list = languages::supported_list();
    m.append(list.as_str());
    m
}

/// The declared language of an `initialize`: the
/// `initializationOptions.language` member, or `unknown`.
pub open spec fn spec_declared_language(params: JsonValue) -> Seq<char> {
    match params.spec_get("initializationOptions"@) {
        Some(opts) => match spec_field_str(opts, "language"@) {
            Some(l) => l,
            None => "unknown"@,
        },
        None => "unknown"@,
    }
}

/// The root path of an `initialize`: its `rootUri` with any `file://`
/// prefix removed, or empty.
pub open spec fn spec_declared_path(params: JsonValue) -> Seq<char> {
    match spec_field_str(params, "rootUri"@) {
        Some(u) => if spec_starts_with(u, "file://"@) {
            u.skip("file://"@.len() as int)
        } else {
            u
        },
        None => Seq::<char>::empty(),
    }
}

/// The language the session will use: the declared one, unless it is
/// `unknown` or empty and detection finds one.
pub open spec fn spec_session_language<F: FileSystem>(fs: &F, params: JsonValue) -> Seq<char> {
    let declared = spec_declared_language(params);
    if declared == "unknown"@ || declared.len() == 0 {
        match detect::spec_detect(fs, spec_declared_path(params)) {
            Some(l) => l,
            None => declared,
        }
    } else {
        declared
    }
}

/// No reply-relevant state moved: the registry and the session are as
/// they were.
pub open spec fn spec_no_effect(
    pre: WebSocketManager,
    post: WebSocketManager,
    prea: Option<String>,
    posta: Option<String>,
) -> bool {
    &&& post.spec_servers() == pre.spec_servers()
    &&& posta == prea
}

/// An immediate error reply under the given id with the given message,
/// with nothing spawned and nothing sent to a child.
pub open spec fn spec_gw_error_reply(
    r: GatewayOutcome,
    code: i64,
    id: JsonValue,
    msg: Seq<char>,
) -> bool {
    &&& r.reply matches Some(rep) && spec_error_code(rep) == Some(code) && (spec_id_of(rep)
        matches Some(i) && spec_jeq(i, id)) && rpc::spec_error_message(rep) == Some(msg)
    &&& r.spawn is None
    &&& r.child_messages@.len() == 0
}

/// A successful `initialize`: the session holds the fresh server id, the
/// registry gained one adapter rooted at the resolved root, the launch
/// configuration is handed out, and the corrected request goes to the
/// child — `rootUri` and `rootPath` naming the root, the language written
/// into `initializationOptions`.
pub open spec fn spec_init_success<F: FileSystem>(
    fs: &F,
    p: JsonValue,
    pre: WebSocketManager,
    post: WebSocketManager,
    posta: Option<String>,
    r: GatewayOutcome,
) -> bool {
    let lang = spec_session_language(fs, p);
    let path = spec_declared_path(p);
    let root = crate::resolver::spec_resolve_root(fs, lang, path);
    let sid = "server_"@ + crate::strutil::spec_udec(pre.spec_factory_next_id() as nat);
    &&& posta matches Some(s) && s@ == sid
    &&& post.spec_servers().len() == pre.spec_servers().len() + 1
    &&& post.spec_servers().take(pre.spec_servers().len() as int) == pre.spec_servers()
    &&& post.spec_servers().last().0@ == sid
    &&& post.spec_servers().last().1.spec_config().root_path@ == root
    &&& post.spec_servers().last().1.spec_running()
    &&& r.reply is None
    &&& (r.spawn matches Some(c) && c.root_path@ == root && (c.executable_path matches Some(e)
        && e@ == "rust-analyzer"@))
    &&& r.child_messages@.len() == 1
    &&& spec_field_str(r.child_messages@[0], "method"@) == Some("initialize"@)
    &&& (r.child_messages@[0].spec_get("params"@) matches Some(cp) && {
        &&& spec_field_str(cp, "rootUri"@) == Some("file://"@ + root)
        &&& spec_field_str(cp, "rootPath"@) == Some(root)
        &&& (match p.spec_get("initializationOptions"@) {
            Some(o0) => o0.spec_is_object(),
            None => true,
        }) ==> (cp.spec_get("initializationOptions"@) matches Some(o) && spec_field_str(
            o,
            "language"@,
        ) == Some(lang))
    })
}

/// The `initialize` path, case by case: missing params, an unsupported
/// language, a path root resolution rejects, and the successful creation
/// and corrected forward.
pub open spec fn spec_init_case<F: FileSystem>(
    fs: &F,
    env: JsonValue,
    pre: WebSocketManager,
    post: WebSocketManager,
    prea: Option<String>,
    posta: Option<String>,
    r: GatewayOutcome,
) -> bool {
    let reqid = spec_req_id(env);
    match env.spec_get("params"@) {
        None => spec_gw_error_reply(
            r,
            INVALID_PARAMS,
            reqid,
            "Invalid params: params is required for initialize"@,
        ) && spec_no_effect(pre, post, prea, posta),
        Some(p) => {
            let lang = spec_session_language(fs, p);
            let path = spec_declared_path(p);
            &&& !spec_is_supported(lang) ==> spec_gw_error_reply(
                r,
                METHOD_NOT_FOUND,
                reqid,
                spec_unsupported_message(lang),
            ) && spec_no_effect(pre, post, prea, posta)
            &&& (spec_is_supported(lang) && !fs.exists_spec(path)) ==> spec_gw_error_reply(
                r,
                INTERNAL_ERROR,
                reqid,
                "LSP server creation error"@,
            ) && spec_no_effect(pre, post, prea, posta)
            &&& (spec_is_supported(lang) && fs.exists_spec(path) && crate::resolver::spec_start_dir(
                fs,
                path,
            ) is None) ==> spec_gw_error_reply(r, INTERNAL_ERROR, reqid, "LSP server creation error"@)
                && spec_no_effect(pre, post, prea, posta)
            &&& (spec_is_supported(lang) && fs.exists_spec(path) && crate::resolver::spec_start_dir(
                fs,
                path,
            ) is Some && p.spec_is_object()) ==> spec_init_success(fs, p, pre, post, posta, r)
        },
    }
}

/// What handling one parsed envelope does: the session state machine of
/// the connection gateway, case by case over the envelope.
pub open spec fn spec_gateway_step<F: FileSystem>(
    fs: &F,
    env: JsonValue,
    pre: WebSocketManager,
    post: WebSocketManager,
    prea: Option<String>,
    posta: Option<String>,
    r: GatewayOutcome,
) -> bool {
    let reqid = spec_req_id(env);
    let m = spec_field_str(env, "method"@);
    if !env.spec_is_object() {
        spec_gw_error_reply(r, INVALID_REQUEST, reqid, "Invalid Request"@) && spec_no_effect(
            pre,
            post,
            prea,
            posta,
        )
    } else if env.spec_get("jsonrpc"@) is None {
        spec_gw_error_reply(r, INVALID_REQUEST, reqid, "Missing JSON-RPC version"@)
            && spec_no_effect(pre, post, prea, posta)
    } else if spec_field_str(env, "jsonrpc"@) != Some("2.0"@) {
        spec_gw_error_reply(r, INVALID_REQUEST, reqid, "Invalid JSON-RPC version. Expected 2.0"@)
            && spec_no_effect(pre, post, prea, posta)
    } else if env.spec_get("method"@) is None {
        spec_gw_error_reply(r, INVALID_REQUEST, reqid, "Invalid Request"@) && spec_no_effect(
            pre,
            post,
            prea,
            posta,
        )
    } else if m == Some("initialize"@) && spec_id_of(env) is Some {
        spec_init_case(fs, env, pre, post, prea, posta, r)
    } else if m == Some("initialized"@) {
        &&& r.reply is None
        &&& posta == prea
        &&& prea is None ==> r.spawn is None && r.child_messages@.len() == 0
            && post.spec_servers() == pre.spec_servers()
    } else if m == Some("textDocument/didOpen"@) {
        r.reply is None
    } else {
        &&& posta == prea
        &&& match prea {
            Some(sid) => match crate::registry::spec_flookup(pre.spec_servers(), sid@) {
                Some(a) => post.spec_server(sid@) matches Some(a2)
                    && crate::registry::spec_dispatch(
                    a,
                    a2,
                    env,
                    (crate::registry::RequestOutcome {
                        reply: r.reply,
                        spawn: r.spawn,
                        child_messages: r.child_messages,
                    }),
                ),
                None => {
                    &&& post.spec_servers() == pre.spec_servers()
                    &&& r.spawn is None
                    &&& r.child_messages@.len() == 0
                    &&& spec_id_of(env) is Some ==> (r.reply matches Some(rep)
                        && spec_error_code(rep) == Some(INTERNAL_ERROR) && (spec_id_of(rep)
                        matches Some(i) && spec_jeq(i, reqid)) && rpc::spec_error_message(rep)
                        == Some("Error forwarding request"@))
                    &&& spec_id_of(env) is None ==> r.reply is None
                },
            },
            None => {
                &&& post.spec_servers() == pre.spec_servers()
                &&& r.spawn is None
                &&& r.child_messages@.len() == 0
                &&& spec_id_of(env) is Some ==> (r.reply matches Some(rep) && spec_error_code(
                    rep,
                ) == Some(INTERNAL_ERROR) && (spec_id_of(rep) matches Some(i) && spec_jeq(
                    i,
                    reqid,
                )) && rpc::spec_error_message(rep) == Some("LSP server not initialized"@))
                &&& spec_id_of(env) is None ==> r.reply is None
            },
        }
    }
}

/// The per-connection gateway: the server registry and the connected
/// clients' handles.
pub struct WebSocketManager {
    factory: ServerFactory,
    clients: Vec<u64>,
}

impl WebSocketManager {
    pub closed spec fn spec_servers(&self) -> Seq<(String, crate::adapter::Adapter)> {
        self.factory.spec_servers()
    }

    pub closed spec fn spec_clients(&self) -> Seq<u64> {
        self.clients@
    }

    /// The registry's id counter, which names the next server.
    pub closed spec fn spec_factory_next_id(&self) -> u64 {
        self.factory.spec_next_id()
    }

    /// The adapter registered under a server id.
    pub open spec fn spec_server(&self, id: Seq<char>) -> Option<crate::adapter::Adapter> {
        spec_flookup(self.spec_servers(), id)
    }

    pub fn new() -> (r: Self)
        ensures
            r.spec_servers() == Seq::<(String, crate::adapter::Adapter)>::empty(),
            r.spec_clients() == Seq::<u64>::empty(),
    {
        WebSocketManager { factory: ServerFactory::new(), clients: Vec::new() }
    }

    /// Registers a newly connected client handle.
    pub fn client_connected(&mut self, client: u64)
        ensures
            final(self).spec_clients() == old(self).spec_clients().push(client),
            final(self).spec_servers() == old(self).spec_servers(),
    {
        self.clients.push(client);
    }

    /// Stops serving: hands back every connected client handle so the
    /// application can send each a close frame, and clears the registry
    /// of clients.
    pub fn stop_server(&mut self) -> (r: Vec<u64>)
        ensures
            final(self).spec_clients() == Seq::<u64>::empty(),
            r@ == old(self).spec_clients(),
            final(self).spec_servers() == old(self).spec_servers(),
    {
        let mut out: Vec<u64> = Vec::new();
        std::mem::swap(&mut out, &mut self.clients);
        out
    }

    /// Feeds bytes from a session child's standard output into its
    /// adapter and hands back what they meant: the adapter evolves
    /// exactly by its byte pump.
    pub fn on_child_bytes(&mut self, server_id: &str, data: &[u8]) -> (r: Result<
        Vec<crate::adapter::AdapterEvent>,
        String,
    >)
        ensures
            final(self).spec_clients() == old(self).spec_clients(),
            r is Ok <==> spec_flookup(old(self).spec_servers(), server_id@) is Some,
            match spec_flookup(old(self).spec_servers(), server_id@) {
                Some(a) => r matches Ok(events) && (final(self).spec_server(server_id@)
                    matches Some(a2) && crate::adapter::spec_child_bytes_step(
                    a,
                    a2,
                    data@,
                    events@,
                )),
                None => final(self).spec_servers() == old(self).spec_servers(),
            },
    {
        self.factory.on_child_bytes(server_id, data)
    }

    /// A session child's stream ended or its spawn failed: every request
    /// still pending on that server fails; the waiting clients are handed
    /// back so the application can answer each with an internal error.
    pub fn on_child_exit(&mut self, server_id: &str) -> (r: Result<
        Vec<(u64, crate::pending::PendingEntry)>,
        String,
    >)
        ensures
            final(self).spec_clients() == old(self).spec_clients(),
            r is Ok <==> spec_flookup(old(self).spec_servers(), server_id@) is Some,
            match spec_flookup(old(self).spec_servers(), server_id@) {
                Some(a) => r matches Ok(failed) && failed@ == a.spec_pending(),
                None => final(self).spec_servers() == old(self).spec_servers(),
            },
    {
        self.factory.on_child_eof(server_id)
    }

    /// A connection closed: the session's server, if one is active, is
    /// torn down, and a running child process is reported for killing.
    pub fn on_disconnect(&mut self, active: &mut Option<String>) -> (r: Option<ShutdownPlan>)
        ensures
            *final(active) is None,
            final(self).spec_clients() == old(self).spec_clients(),
            match *old(active) {
                Some(id) => {
                    &&& final(self).spec_server(id@) is None
                    &&& forall|k: Seq<char>|
                        k != id@ ==> final(self).spec_server(k) == old(self).spec_server(k)
                    &&& match spec_flookup(old(self).spec_servers(), id@) {
                        Some(a) => r matches Some(plan) && plan.kill == a.spec_running(),
                        None => r is None,
                    }
                },
                None => r is None && final(self).spec_servers() == old(self).spec_servers(),
            },
    {
        let ghost f0 = self.factory;
        let taken = active.take();
        match taken {
            Some(id) => {
                let out = match self.factory.stop_server(id.as_str()) {
                    Ok(plan) => Some(plan),
                    Err(_) => None,
                };
                proof {
                    assert forall|k: Seq<char>| k != id@ implies spec_flookup(
                        self.factory.spec_servers(),
                        k,
                    ) == spec_flookup(f0.spec_servers(), k) by {
                        assert(self.factory.spec_server(k) == f0.spec_server(k));
                    }
                }
                out
            },
            None => None,
        }
    }

    /// Handles one text frame end to end: text that is not well-formed
    /// JSON is answered with a parse error; anything else is handled as
    /// [`WebSocketManager::handle_envelope`] states.
    pub fn handle_text<F: FileSystem>(
        &mut self,
        fs: &F,
        active: &mut Option<String>,
        text: &str,
    ) -> (r: GatewayOutcome)
        ensures
            final(self).spec_clients() == old(self).spec_clients(),
            match crate::codec::spec_parse_json(text@) {
                Some(env) => spec_gateway_step(
                    fs,
                    env,
                    *old(self),
                    *final(self),
                    *old(active),
                    *final(active),
                    r,
                ),
                None => spec_gw_error_reply(r, PARSE_ERROR, JsonValue::Null, "Parse error"@)
                    && spec_no_effect(*old(self), *final(self), *old(active), *final(active)),
            },
    {
        match parse_json_text(text) {
            Some(env) => self.handle_envelope(fs, active, env),
            None => {
                GatewayOutcome {
                    reply: Some(
                        rpc::error_response(
                            JsonValue::Null,
                            PARSE_ERROR,
                            "Parse error".to_owned(),
                        ),
                    ),
                    spawn: None,
                    child_messages: Vec::new(),
                }
            },
        }
    }

    /// Runs the session state machine on one parsed envelope, exactly as
    /// [`spec_gateway_step`] states: a non-object, an envelope without
    /// `jsonrpc: "2.0"`, or one without a method is answered with
    /// `-32600`; an `initialize` with an id goes through language
    /// detection, the unsupported-language reply, root correction and
    /// server creation; every other method is forwarded to the active
    /// session, and a request without one is answered with `-32603`.
    pub fn handle_envelope<F: FileSystem>(
        &mut self,
        fs: &F,
        active: &mut Option<String>,
        env: JsonValue,
    ) -> (r: GatewayOutcome)
        ensures
            final(self).spec_clients() == old(self).spec_clients(),
            spec_gateway_step(
                fs,
                env,
                *old(self),
                *final(self),
                *old(active),
                *final(active),
                r,
            ),
    {
        proof {
            lemma_gateway_names_distinct();
            crate::languages::lemma_language_names_distinct();
        }
        if !env.is_object() {
            let id = claim_id(&env);
            return GatewayOutcome {
                reply: Some(
                    rpc::error_response(id, INVALID_REQUEST, "Invalid Request".to_owned()),
                ),
                spawn: None,
                child_messages: Vec::new(),
            };
        }
        match env.get("jsonrpc") {
            None => {
                let id = claim_id(&env);
                return GatewayOutcome {
                    reply: Some(
                        rpc::error_response(
                            id,
                            INVALID_REQUEST,
                            "Missing JSON-RPC version".to_owned(),
                        ),
                    ),
                    spawn: None,
                    child_messages: Vec::new(),
                };
            },
            Some(v) => {
                let ok = match v.as_str() {
                    Some(ver) => str_eq(ver.as_str(), "2.0"),
                    None => false,
                };
                if !ok {
                    let id = claim_id(&env);
                    return GatewayOutcome {
                        reply: Some(
                            rpc::error_response(
                                id,
                                INVALID_REQUEST,
                                "Invalid JSON-RPC version. Expected 2.0".to_owned(),
                            ),
                        ),
                        spawn: None,
                        child_messages: Vec::new(),
                    };
                }
            },
        }
        let method: Option<String> = match env.get("method") {
            Some(m) => match m.as_str() {
                Some(s) => Some(s.clone()),
                None => Some(String::new()),
            },
            None => None,
        };
        let has_id = match env.get("id") {
            Some(_) => true,
            None => false,
        };
        match method {
            None => {
                let id = claim_id(&env);
                GatewayOutcome {
                    reply: Some(
                        rpc::error_response(id, INVALID_REQUEST, "Invalid Request".to_owned()),
                    ),
                    spawn: None,
                    child_messages: Vec::new(),
                }
            },
            Some(m) => {
                if str_eq(m.as_str(), "initialize") && has_id {
                    self.handle_initialize(fs, active, env)
                } else if str_eq(m.as_str(), "initialized") {
                    self.forward_notification(active, env)
                } else if str_eq(m.as_str(), "textDocument/didOpen") {
                    self.handle_did_open(fs, active, env)
                } else {
                    self.forward_other(active, env, has_id)
                }
            },
        }
    }

    /// The `initialize` path, exactly as [`spec_init_case`] states:
    /// detection, the unsupported-language reply, root correction, server
    /// creation and the corrected forward. Root-resolution failure falls
    /// back to creating the server at the original, uncorrected path.
    fn handle_initialize<F: FileSystem>(
        &mut self,
        fs: &F,
        active: &mut Option<String>,
        env: JsonValue,
    ) -> (r: GatewayOutcome)
        requires
            spec_field_str(env, "method"@) == Some("initialize"@),
        ensures
            final(self).spec_clients() == old(self).spec_clients(),
            spec_init_case(fs, env, *old(self), *final(self), *old(active), *final(active), r),
    {
        proof {
            lemma_gateway_names_distinct();
            crate::languages::lemma_language_names_distinct();
        }
        let id = claim_id(&env);
        let (env_rest, params_opt) = obj_take(env, "params");
        let params = match params_opt {
            Some(p) => p,
            None => {
                return GatewayOutcome {
                    reply: Some(
                        rpc::error_response(
                            id,
                            INVALID_PARAMS,
                            "Invalid params: params is required for initialize".to_owned(),
                        ),
                    ),
                    spawn: None,
                    child_messages: Vec::new(),
                };
            },
        };
        let ghost gp = params;
        let file_path: String = match params.get("rootUri") {
            Some(u) => match u.as_str() {
                Some(s) => uri_to_path(s.as_str()),
                None => String::new(),
            },
            None => String::new(),
        };
        let declared: String = match params.get("initializationOptions") {
            Some(opts) => match opts.get("language") {
                Some(l) => match l.as_str() {
                    Some(s) => s.clone(),
                    None => "unknown".to_owned(),
                },
                None => "unknown".to_owned(),
            },
            None => "unknown".to_owned(),
        };
        let final_language: String = if str_eq(declared.as_str(), "unknown")
            || declared.as_str().is_empty() {
            match detect::detect_language_from_file_extension(fs, file_path.as_str()) {
                Some(l) => l,
                None => declared,
            }
        } else {
            declared
        };
        proof {
            if env.spec_is_object() {
                assert(final_language@ == spec_session_language(
                    fs,
                    env.spec_get("params"@)->Some_0,
                ));
            }
        }
        if !languages::is_supported(final_language.as_str()) {
            let msg = unsupported_message(final_language.as_str());
            return GatewayOutcome {
                reply: Some(rpc::error_response(id, METHOD_NOT_FOUND, msg)),
                spawn: None,
                child_messages: Vec::new(),
            };
        }
        match crate::resolver::find_project_root(fs, final_language.as_str(), file_path.as_str()) {
            Ok(root) => {
                let root_uri = crate::paths::path_to_uri(root.as_str());
                let params2 = obj_set(params, "rootUri".to_owned(), JsonValue::Str(root_uri));
                let params3 = obj_set(
                    params2,
                    "rootPath".to_owned(),
                    JsonValue::Str(root.clone()),
                );
                let (params4, opts) = obj_take(params3, "initializationOptions");
                let new_opts = match opts {
                    Some(o) => obj_set(
                        o,
                        "language".to_owned(),
                        JsonValue::Str(final_language.clone()),
                    ),
                    None => {
                        let mut pairs: Vec<(String, JsonValue)> = Vec::new();
                        pairs.push(
                            ("language".to_owned(), JsonValue::Str(final_language.clone())),
                        );
                        proof {
                            crate::json::lemma_first_match_lookup(pairs@, 0);
                        }
                        JsonValue::Obj(pairs)
                    },
                };
                let ghost gopts = new_opts;
                let params5 = obj_set(params4, "initializationOptions".to_owned(), new_opts);
                let ghost g5 = params5;
                let env2 = obj_set(env_rest, "params".to_owned(), params5);
                proof {
                    assert(spec_field_str(env2, "method"@) == Some("initialize"@));
                    assert(env2.spec_get("params"@) == Some(g5));
                    if gp.spec_is_object() {
                        assert(g5.spec_is_object());
                        assert(spec_field_str(g5, "rootPath"@) == Some(root@));
                        assert(g5.spec_get("initializationOptions"@) == Some(gopts));
                    }
                }
                let mut adapter = match crate::adapter::Adapter::new(
                    final_language,
                    root.as_str(),
                ) {
                    Ok(a) => a,
                    Err(_) => {
                        return GatewayOutcome {
                            reply: Some(
                                rpc::error_response(
                                    id,
                                    INTERNAL_ERROR,
                                    "LSP server creation error".to_owned(),
                                ),
                            ),
                            spawn: None,
                            child_messages: Vec::new(),
                        };
                    },
                };
                let outcome = crate::registry::handle_request(&mut adapter, env2);
                let sid = self.factory.register_adapter(adapter);
                *active = Some(sid);
                GatewayOutcome {
                    reply: outcome.reply,
                    spawn: outcome.spawn,
                    child_messages: outcome.child_messages,
                }
            },
            Err(_) => {
                let server_path = file_path;
                let env_fb = obj_set(env_rest, "params".to_owned(), params);
                match self.factory.create_server(fs, final_language.as_str(), server_path.as_str(),
                ) {
                    Ok(server_id) => {
                        let id_copy = server_id.clone();
                        *active = Some(server_id);
                        match self.factory.forward_request(id_copy.as_str(), env_fb) {
                            Ok(outcome) => GatewayOutcome {
                                reply: outcome.reply,
                                spawn: outcome.spawn,
                                child_messages: outcome.child_messages,
                            },
                            Err(_) => GatewayOutcome {
                                reply: Some(
                                    rpc::error_response(
                                        id,
                                        INTERNAL_ERROR,
                                        "LSP server initialization error".to_owned(),
                                    ),
                                ),
                                spawn: None,
                                child_messages: Vec::new(),
                            },
                        }
                    },
                    Err(_) => GatewayOutcome {
                        reply: Some(
                            rpc::error_response(
                                id,
                                INTERNAL_ERROR,
                                "LSP server creation error".to_owned(),
                            ),
                        ),
                        spawn: None,
                        child_messages: Vec::new(),
                    },
                }
            },
        }
    }

    /// A notification for the session: forwarded when one is active,
    /// silently dropped when none is.
    fn forward_notification(&mut self, active: &mut Option<String>, env: JsonValue) -> (r:
        GatewayOutcome)
        ensures
            final(self).spec_clients() == old(self).spec_clients(),
            *final(active) == *old(active),
            r.reply is None,
            *old(active) is None ==> r.spawn is None && r.child_messages@.len() == 0 && final(self).spec_servers()
                == old(self).spec_servers(),
    {
        match active {
            Some(id) => {
                let sid = id.clone();
                match self.factory.forward_request(sid.as_str(), env) {
                    Ok(outcome) => GatewayOutcome {
                        reply: None,
                        spawn: outcome.spawn,
                        child_messages: outcome.child_messages,
                    },
                    Err(_) => GatewayOutcome {
                        reply: None,
                        spawn: None,
                        child_messages: Vec::new(),
                    },
                }
            },
            None => GatewayOutcome { reply: None, spawn: None, child_messages: Vec::new() },
        }
    }

    /// The `didOpen` path: a generic or empty declared language is
    /// re-detected from the document's path; a session is created for the
    /// detected language when none exists; the notification is forwarded
    /// with the corrected language id.
    fn handle_did_open<F: FileSystem>(
        &mut self,
        fs: &F,
        active: &mut Option<String>,
        env: JsonValue,
    ) -> (r: GatewayOutcome)
        ensures
            final(self).spec_clients() == old(self).spec_clients(),
            r.reply is None,
    {
        proof {
            lemma_gateway_names_distinct();
            crate::languages::lemma_language_names_distinct();
        }
        let language_id: String = match env.get("params") {
            Some(p) => match p.get("textDocument") {
                Some(td) => match td.get("languageId") {
                    Some(l) => match l.as_str() {
                        Some(s) => s.clone(),
                        None => "generic".to_owned(),
                    },
                    None => "generic".to_owned(),
                },
                None => "generic".to_owned(),
            },
            None => "generic".to_owned(),
        };
        let file_uri: String = match env.get("params") {
            Some(p) => match p.get("textDocument") {
                Some(td) => match td.get("uri") {
                    Some(u) => match u.as_str() {
                        Some(s) => s.clone(),
                        None => String::new(),
                    },
                    None => String::new(),
                },
                None => String::new(),
            },
            None => String::new(),
        };
        let generic = str_eq(language_id.as_str(), "generic") || str_eq(
            language_id.as_str(),
            "plaintext",
        ) || language_id.as_str().is_empty();
        if generic {
            let file_path = uri_to_path(file_uri.as_str());
            match detect::detect_language_from_file_extension(fs, file_path.as_str()) {
                Some(detected) => {
                    if !languages::is_supported(detected.as_str()) {
                        return GatewayOutcome {
                            reply: None,
                            spawn: None,
                            child_messages: Vec::new(),
                        };
                    }
                    let env2 = rewrite_language_id(env, detected.as_str());
                    match active {
                        Some(id) => {
                            let sid = id.clone();
                            match self.factory.forward_request(sid.as_str(), env2) {
                                Ok(outcome) => GatewayOutcome {
                                    reply: None,
                                    spawn: outcome.spawn,
                                    child_messages: outcome.child_messages,
                                },
                                Err(_) => GatewayOutcome {
                                    reply: None,
                                    spawn: None,
                                    child_messages: Vec::new(),
                                },
                            }
                        },
                        None => {
                            match self.factory.create_server(
                                fs,
                                detected.as_str(),
                                file_path.as_str(),
                            ) {
                                Ok(server_id) => {
                                    let id_copy = server_id.clone();
                                    *active = Some(server_id);
                                    match self.factory.forward_request(id_copy.as_str(), env2) {
                                        Ok(outcome) => GatewayOutcome {
                                            reply: None,
                                            spawn: outcome.spawn,
                                            child_messages: outcome.child_messages,
                                        },
                                        Err(_) => GatewayOutcome {
                                            reply: None,
                                            spawn: None,
                                            child_messages: Vec::new(),
                                        },
                                    }
                                },
                                Err(_) => GatewayOutcome {
                                    reply: None,
                                    spawn: None,
                                    child_messages: Vec::new(),
                                },
                            }
                        },
                    }
                },
                None => self.forward_did_open_as_is(active, env),
            }
        } else {
            self.forward_did_open_as_is(active, env)
        }
    }

    /// Forwards a `didOpen` unchanged to the active session, or drops it.
    fn forward_did_open_as_is(&mut self, active: &mut Option<String>, env: JsonValue) -> (r:
        GatewayOutcome)
        ensures
            final(self).spec_clients() == old(self).spec_clients(),
            *final(active) == *old(active),
            r.reply is None,
            *old(active) is None ==> r.spawn is None && r.child_messages@.len() == 0 && final(self).spec_servers() == old(self).spec_servers(),
    {
        match active {
            Some(id) => {
                let sid = id.clone();
                match self.factory.forward_request(sid.as_str(), env) {
                    Ok(outcome) => GatewayOutcome {
                        reply: None,
                        spawn: outcome.spawn,
                        child_messages: outcome.child_messages,
                    },
                    Err(_) => GatewayOutcome {
                        reply: None,
                        spawn: None,
                        child_messages: Vec::new(),
                    },
                }
            },
            None => GatewayOutcome { reply: None, spawn: None, child_messages: Vec::new() },
        }
    }

    /// Any other method: forwarded to the active session — the outcome is
    /// the dispatcher's for that adapter — while a request without a
    /// session, or whose server is gone, is answered with an internal
    /// error, and a notification is dropped.
    fn forward_other(&mut self, active: &mut Option<String>, env: JsonValue, has_id: bool) -> (r:
        GatewayOutcome)
        requires
            has_id == (spec_id_of(env) is Some),
        ensures
            final(self).spec_clients() == old(self).spec_clients(),
            *final(active) == *old(active),
            match *old(active) {
                Some(sid) => match spec_flookup(old(self).spec_servers(), sid@) {
                    Some(a) => final(self).spec_server(sid@) matches Some(a2)
                        && crate::registry::spec_dispatch(
                        a,
                        a2,
                        env,
                        (crate::registry::RequestOutcome {
                            reply: r.reply,
                            spawn: r.spawn,
                            child_messages: r.child_messages,
                        }),
                    ),
                    None => {
                        &&& final(self).spec_servers() == old(self).spec_servers()
                        &&& r.spawn is None
                        &&& r.child_messages@.len() == 0
                        &&& spec_id_of(env) is Some ==> (r.reply matches Some(rep)
                            && spec_error_code(rep) == Some(INTERNAL_ERROR) && (spec_id_of(rep)
                            matches Some(i) && spec_jeq(i, spec_req_id(env)))
                            && rpc::spec_error_message(rep) == Some("Error forwarding request"@))
                        &&& spec_id_of(env) is None ==> r.reply is None
                    },
                },
                None => {
                    &&& final(self).spec_servers() == old(self).spec_servers()
                    &&& r.spawn is None
                    &&& r.child_messages@.len() == 0
                    &&& spec_id_of(env) is Some ==> (r.reply matches Some(rep)
                        && spec_error_code(rep) == Some(INTERNAL_ERROR) && (spec_id_of(rep)
                        matches Some(i) && spec_jeq(i, spec_req_id(env)))
                        && rpc::spec_error_message(rep) == Some("LSP server not initialized"@))
                    &&& spec_id_of(env) is None ==> r.reply is None
                },
            },
    {
        let id_val0 = claim_id(&env);
        match active {
            Some(id) => {
                let sid = id.clone();
                match self.factory.forward_request(sid.as_str(), env) {
                    Ok(outcome) => GatewayOutcome {
                        reply: outcome.reply,
                        spawn: outcome.spawn,
                        child_messages: outcome.child_messages,
                    },
                    Err(_) => {
                        if has_id {
                            let id_val = id_val0;
                            GatewayOutcome {
                                reply: Some(
                                    rpc::error_response(
                                        id_val,
                                        INTERNAL_ERROR,
                                        "Error forwarding request".to_owned(),
                                    ),
                                ),
                                spawn: None,
                                child_messages: Vec::new(),
                            }
                        } else {
                            GatewayOutcome {
                                reply: None,
                                spawn: None,
                                child_messages: Vec::new(),
                            }
                        }
                    },
                }
            },
            None => {
                if has_id {
                    let id_val = id_val0;
                    GatewayOutcome {
                        reply: Some(
                            rpc::error_response(
                                id_val,
                                INTERNAL_ERROR,
                                "LSP server not initialized".to_owned(),
                            ),
                        ),
                        spawn: None,
                        child_messages: Vec::new(),
                    }
                } else {
                    GatewayOutcome { reply: None, spawn: None, child_messages: Vec::new() }
                }
            },
        }
    }
}

/// The reply id an envelope deserves: a copy of its own id, or null.
fn claim_id(env: &JsonValue) -> (r: JsonValue)
    ensures
        spec_jeq(r, spec_req_id(*env)),
{
    match env.get("id") {
        Some(v) => json_clone(v),
        None => JsonValue::Null,
    }
}

/// Rewrites `params.textDocument.languageId` when the member exists.
fn rewrite_language_id(env: JsonValue, lang: &str) -> JsonValue {
    let (env2, params) = obj_take(env, "params");
    match params {
        Some(p) => {
            let (p2, td) = obj_take(p, "textDocument");
            match td {
                Some(t) => {
                    let has = match t.get("languageId") {
                        Some(_) => true,
                        None => false,
                    };
                    let t2 = if has {
                        obj_set(t, "languageId".to_owned(), JsonValue::Str(lang.to_owned()))
                    } else {
                        t
                    };
                    let p3 = obj_set(p2, "textDocument".to_owned(), t2);
                    obj_set(env2, "params".to_owned(), p3)
                },
                None => obj_set(env2, "params".to_owned(), p2),
            }
        },
        None => env2,
    }
}

/// The field names and methods the gateway distinguishes are pairwise
/// distinct.
proof fn lemma_gateway_names_distinct()
    ensures
        "jsonrpc"@.len() == 7,
        "method"@.len() == 6,
        "id"@.len() == 2,
        "params"@.len() == 6,
        "rootUri"@.len() == 7,
        "rootPath"@.len() == 8,
        "initializationOptions"@.len() == 21,
        "language"@.len() == 8,
        "textDocument"@.len() == 12,
        "languageId"@.len() == 10,
        "uri"@.len() == 3,
        "2.0"@.len() == 3,
        "initialize"@.len() == 10,
        "initialized"@.len() == 11,
        "textDocument/didOpen"@.len() == 20,
        "file://"@.len() == 7,
        "method"@[0] == 'm',
        "params"@[0] == 'p',
        "rootUri"@[4] == 'U',
        "rootPath"@[4] == 'P',
        "uri"@[0] == 'u',
        "2.0"@[0] == '2',
{
    reveal_strlit("jsonrpc");
    reveal_strlit("method");
    reveal_strlit("id");
    reveal_strlit("params");
    reveal_strlit("rootUri");
    reveal_strlit("rootPath");
    reveal_strlit("initializationOptions");
    reveal_strlit("language");
    reveal_strlit("textDocument");
    reveal_strlit("languageId");
    reveal_strlit("uri");
    reveal_strlit("2.0");
    reveal_strlit("initialize");
    reveal_strlit("initialized");
    reveal_strlit("textDocument/didOpen");
    reveal_strlit("file://");
}

} // verus!
