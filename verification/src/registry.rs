//! The server registry: owns the live adapters, dispatches JSON-RPC
//! envelopes to the right one, and performs language normalization.
//!
//! Creating a server only builds and indexes an adapter; the child
//! process is spawned when the `initialize` request reaches it, and the
//! spawn is handed back to the application as part of the outcome.

use vstd::prelude::*;
use crate::json::{JsonValue, spec_jeq, json_clone, obj_take};
use crate::rpc;
use crate::rpc::{spec_field_str, spec_id_of, INVALID_PARAMS};
use crate::adapter::{Adapter, ShutdownPlan, spec_td_str, spec_last_change_text};
use crate::pending::PendingEntry;
use crate::config::ServerConfig;
use crate::fsio::FileSystem;
use crate::resolver;
use crate::resolver::{RootError, spec_resolve_root, spec_start_dir, spec_walk, MAX_WALK_STEPS};
use crate::strutil::{str_eq, ascii_lowercase, spec_lower, spec_udec, u64_to_string};

verus! {

/// Why a server could not be created.
#[derive(Debug)]
pub enum CreateError {
    /// The given path does not exist; nothing was created or spawned.
    PathNotFound,
    /// The given path is a file with no parent directory.
    NoParent,
    /// A recognized language whose adapter does not exist yet.
    NotImplemented(String),
    /// A language the gateway has no server for at all.
    Unsupported(String),
}

/// What handling one envelope asks the application to do.
pub struct RequestOutcome {
    /// An immediate reply for the client, when one is due.
    pub reply: Option<JsonValue>,
    /// A child process to spawn first, when `initialize` was handled.
    pub spawn: Option<ServerConfig>,
    /// Envelopes to frame and write to the child, in order.
    pub child_messages: Vec<JsonValue>,
}

/// The adapter registered under a server id, first binding wins.
pub open spec fn spec_flookup(s: Seq<(String, Adapter)>, id: Seq<char>) -> Option<Adapter>
    decreases s.len(),
{
    if s.len() == 0 {
        None
    } else if s[0].0@ == id {
        Some(s[0].1)
    } else {
        spec_flookup(s.drop_first(), id)
    }
}

proof fn lemma_flookup_absent(s: Seq<(String, Adapter)>, id: Seq<char>)
    requires
        forall|j: int| 0 <= j < s.len() ==> #[trigger] s[j].0@ != id,
    ensures
        spec_flookup(s, id) is None,
    decreases s.len(),
{
    if s.len() > 0 {
        lemma_flookup_absent(s.drop_first(), id);
    }
}

proof fn lemma_flookup_first_match(s: Seq<(String, Adapter)>, i: int)
    requires
        0 <= i < s.len(),
        forall|j: int| 0 <= j < i ==> #[trigger] s[j].0@ != s[i].0@,
    ensures
        spec_flookup(s, s[i].0@) == Some(s[i].1),
    decreases i,
{
    if i > 0 {
        assert(s.drop_first()[i - 1] == s[i]);
        lemma_flookup_first_match(s.drop_first(), i - 1);
    }
}

proof fn lemma_flookup_remove(s: Seq<(String, Adapter)>, i: int, k: Seq<char>)
    requires
        0 <= i < s.len(),
        k != s[i].0@,
    ensures
        spec_flookup(s.remove(i), k) == spec_flookup(s, k),
    decreases i,
{
    let rm = s.remove(i);
    if i == 0 {
        assert(rm =~= s.drop_first());
    } else {
        assert(rm[0] == s[0]);
        assert(rm.drop_first() =~= s.drop_first().remove(i - 1));
        assert(s.drop_first()[i - 1] == s[i]);
        lemma_flookup_remove(s.drop_first(), i - 1, k);
    }
}

proof fn lemma_flookup_insert(s: Seq<(String, Adapter)>, i: int, p: (String, Adapter), k: Seq<
    char,
>)
    requires
        0 <= i <= s.len(),
        forall|j: int| 0 <= j < i ==> #[trigger] s[j].0@ != p.0@,
    ensures
        spec_flookup(s.insert(i, p), p.0@) == Some(p.1),
        k != p.0@ ==> spec_flookup(s.insert(i, p), k) == spec_flookup(s, k),
    decreases i,
{
    let ins = s.insert(i, p);
    if i == 0 {
        assert(ins[0] == p);
        assert(ins.drop_first() =~= s);
    } else {
        assert(ins[0] == s[0]);
        assert(ins.drop_first() =~= s.drop_first().insert(i - 1, p));
        lemma_flookup_insert(s.drop_first(), i - 1, p, k);
    }
}

/// Creates, indexes and tears down adapters, keyed by sequential ids.
pub struct ServerFactory {
    servers: Vec<(String, Adapter)>,
    next_id: u64,
}

impl ServerFactory {
    pub closed spec fn spec_servers(&self) -> Seq<(String, Adapter)> {
        self.servers@
    }

    pub closed spec fn spec_next_id(&self) -> u64 {
        self.next_id
    }

    /// The adapter registered under a server id.
    pub open spec fn spec_server(&self, id: Seq<char>) -> Option<Adapter> {
        spec_flookup(self.spec_servers(), id)
    }

    pub fn new() -> (r: Self)
        ensures
            r.spec_servers() == Seq::<(String, Adapter)>::empty(),
            r.spec_next_id() == 1,
    {
        ServerFactory { servers: Vec::new(), next_id: 1 }
    }

    /// The number of live adapters.
    pub fn server_count(&self) -> (r: usize)
        ensures
            r == self.spec_servers().len(),
    {
        self.servers.len()
    }

    /// The next fresh server id: `server_` followed by a counter.
    fn generate_server_id(&mut self) -> (r: String)
        ensures
            r@ == "server_"@ + spec_udec(old(self).spec_next_id() as nat),
            final(self).spec_next_id() == (if old(self).spec_next_id() < 0xffff_ffff_ffff_ffff {
                (old(self).spec_next_id() + 1) as u64
            } else {
                1u64
            }),
            final(self).spec_servers() == old(self).spec_servers(),
    {
        let mut id = "server_".to_owned();
        let digits = u64_to_string(self.next_id);
        id.append(digits.as_str());
        if self.next_id < 0xffff_ffff_ffff_ffff {
            self.next_id = self.next_id + 1;
        } else {
            self.next_id = 1;
        }
        id
    }

    /// Creates an adapter for a supported language at the resolved project
    /// root and indexes it under a fresh id. Fails with no new entry — and
    /// no spawn — for a path that does not exist or a language without a
    /// server; `typescript`, `javascript` and `python` are recognized but
    /// have no adapter yet.
    pub fn create_server<F: FileSystem>(
        &mut self,
        fs: &F,
        language: &str,
        file_path: &str,
    ) -> (r: Result<String, CreateError>)
        ensures
            r matches Err(CreateError::PathNotFound) <==> !fs.exists_spec(file_path@),
            r matches Err(CreateError::NoParent) <==> (fs.exists_spec(file_path@)
                && spec_start_dir(fs, file_path@) is None),
            r is Err ==> final(self).spec_servers() == old(self).spec_servers()
                && final(self).spec_next_id() == old(self).spec_next_id(),
            r is Ok ==> final(self).spec_next_id() == (if old(self).spec_next_id()
                < 0xffff_ffff_ffff_ffff {
                (old(self).spec_next_id() + 1) as u64
            } else {
                1u64
            }),
            r matches Ok(id) ==> {
                &&& spec_lower(language@) == "rust"@
                &&& fs.exists_spec(file_path@)
                &&& id@ == "server_"@ + spec_udec(old(self).spec_next_id() as nat)
                &&& final(self).spec_servers().len() == old(self).spec_servers().len() + 1
                &&& final(self).spec_servers().take(old(self).spec_servers().len() as int)
                    == old(self).spec_servers()
                &&& final(self).spec_servers().last().0@ == id@
                &&& final(self).spec_servers().last().1.spec_language() == "rust"@
                &&& final(self).spec_servers().last().1.spec_config().root_path@
                    == spec_resolve_root(fs, language@, file_path@)
                &&& !final(self).spec_servers().last().1.spec_running()
            },
            fs.exists_spec(file_path@) && spec_start_dir(fs, file_path@) is Some ==> {
                &&& spec_lower(language@) == "rust"@ ==> r is Ok
                &&& (spec_lower(language@) == "typescript"@ || spec_lower(language@)
                    == "javascript"@ || spec_lower(language@) == "python"@) ==> (r matches Err(
                    CreateError::NotImplemented(l),
                ) && l@ == spec_lower(language@))
                &&& (spec_lower(language@) != "rust"@ && spec_lower(language@) != "typescript"@
                    && spec_lower(language@) != "javascript"@ && spec_lower(language@)
                    != "python"@) ==> (r matches Err(CreateError::Unsupported(l)) && l@
                    == spec_lower(language@))
            },
    {
        proof {
            crate::languages::lemma_language_names_distinct();
        }
        let normalized = ascii_lowercase(language);
        let root = match resolver::find_project_root(fs, normalized.as_str(), file_path) {
            Ok(p) => p,
            Err(RootError::PathNotFound) => {
                return Err(CreateError::PathNotFound);
            },
            Err(RootError::NoParent) => {
                return Err(CreateError::NoParent);
            },
        };
        proof {
            assert(spec_lower(spec_lower(language@)) =~= spec_lower(language@));
        }
        if str_eq(normalized.as_str(), "rust") {
            let adapter = match Adapter::new(normalized, root.as_str()) {
                Ok(a) => a,
                Err(_) => {
                    return Err(CreateError::Unsupported("rust".to_owned()));
                },
            };
            let id = self.generate_server_id();
            let id_copy = id.clone();
            self.servers.push((id, adapter));
            proof {
                assert(final(self).spec_servers().take(old(self).spec_servers().len() as int)
                    =~= old(self).spec_servers());
            }
            Ok(id_copy)
        } else if str_eq(normalized.as_str(), "typescript") || str_eq(
            normalized.as_str(),
            "javascript",
        ) || str_eq(normalized.as_str(), "python") {
            Err(CreateError::NotImplemented(normalized))
        } else {
            Err(CreateError::Unsupported(normalized))
        }
    }

    /// Indexes a ready adapter under a fresh sequential id.
    pub fn register_adapter(&mut self, adapter: Adapter) -> (r: String)
        ensures
            r@ == "server_"@ + spec_udec(old(self).spec_next_id() as nat),
            final(self).spec_servers().len() == old(self).spec_servers().len() + 1,
            final(self).spec_servers().take(old(self).spec_servers().len() as int) == old(
                self,
            ).spec_servers(),
            final(self).spec_servers().last().0@ == r@,
            final(self).spec_servers().last().1 == adapter,
            final(self).spec_next_id() == (if old(self).spec_next_id() < 0xffff_ffff_ffff_ffff {
                (old(self).spec_next_id() + 1) as u64
            } else {
                1u64
            }),
    {
        let id = self.generate_server_id();
        let id_copy = id.clone();
        self.servers.push((id, adapter));
        proof {
            assert(final(self).spec_servers().take(old(self).spec_servers().len() as int)
                =~= old(self).spec_servers());
        }
        id_copy
    }

    /// Removes the adapter under `server_id` and shuts it down; its child
    /// process, if one is running, is reported for killing.
    pub fn stop_server(&mut self, server_id: &str) -> (r: Result<ShutdownPlan, String>)
        ensures
            r is Ok <==> spec_flookup(old(self).spec_servers(), server_id@) is Some,
            final(self).spec_server(server_id@) is None,
            forall|k: Seq<char>|
                k != server_id@ ==> final(self).spec_server(k) == old(self).spec_server(k),
            match spec_flookup(old(self).spec_servers(), server_id@) {
                Some(a) => r matches Ok(plan) && plan.kill == a.spec_running(),
                None => r is Err,
            },
    {
        let ghost orig = self.servers@;
        let mut i: usize = 0;
        while i < self.servers.len()
            invariant
                i <= self.servers.len(),
                orig == old(self).spec_servers(),
                self.servers@ == orig,
                forall|j: int| 0 <= j < i ==> #[trigger] orig[j].0@ != server_id@,
            decreases self.servers.len() - i,
        {
            if str_eq(self.servers[i].0.as_str(), server_id) {
                proof {
                    lemma_flookup_first_match(orig, i as int);
                }
                let (_id, mut adapter) = self.servers.remove(i);
                let plan = adapter.shutdown();
                proof {
                    assert(self.servers@ =~= orig.remove(i as int));
                    assert forall|k: Seq<char>| k != server_id@ implies spec_flookup(
                        self.servers@,
                        k,
                    ) == spec_flookup(orig, k) by {
                        lemma_flookup_remove(orig, i as int, k);
                    }
                    assert(forall|j: int|
                        0 <= j < self.servers@.len() && j < i ==> #[trigger] self.servers@[j].0@
                            != server_id@);
                    assert(forall|j: int|
                        i <= j < self.servers@.len() ==> self.servers@[j] == orig[j + 1]);
                }
                let _ = self.remove_remaining(server_id, i);
                return Ok(plan);
            }
            i += 1;
        }
        proof {
            lemma_flookup_absent(orig, server_id@);
        }
        let mut msg = "Server not found: ".to_owned();
        msg.append(server_id);
        Err(msg)
    }

    /// Removes any further bindings of an id, scanning from `from`.
    fn remove_remaining(&mut self, server_id: &str, from: usize) -> (r: bool)
        requires
            forall|j: int| 0 <= j < from && j < old(self).spec_servers().len() ==> (#[trigger] old(
                self,
            ).spec_servers()[j].0@) != server_id@,
        ensures
            final(self).spec_server(server_id@) is None,
            forall|k: Seq<char>|
                k != server_id@ ==> final(self).spec_server(k) == old(self).spec_server(k),
            final(self).spec_next_id() == old(self).spec_next_id(),
            r,
    {
        let ghost orig = self.servers@;
        let mut i: usize = from;
        if i > self.servers.len() {
            i = self.servers.len();
        }
        while i < self.servers.len()
            invariant
                i <= self.servers.len(),
                forall|j: int| 0 <= j < i ==> #[trigger] self.servers@[j].0@ != server_id@,
                forall|k: Seq<char>|
                    k != server_id@ ==> spec_flookup(self.servers@, k) == spec_flookup(orig, k),
                spec_flookup(orig, server_id@) is None ==> spec_flookup(
                    self.servers@,
                    server_id@,
                ) is None,
                self.next_id == old(self).spec_next_id(),
            decreases self.servers.len() - i,
        {
            if str_eq(self.servers[i].0.as_str(), server_id) {
                let ghost before = self.servers@;
                proof {
                    lemma_flookup_first_match(before, i as int);
                }
                let _ = self.servers.remove(i);
                proof {
                    assert forall|k: Seq<char>| k != server_id@ implies spec_flookup(
                        self.servers@,
                        k,
                    ) == spec_flookup(before, k) by {
                        lemma_flookup_remove(before, i as int, k);
                    }
                }
            } else {
                i += 1;
            }
        }
        proof {
            lemma_flookup_absent(self.servers@, server_id@);
        }
        true
    }

    /// Hands one envelope to the adapter under `server_id`; fails exactly
    /// when no such server exists. On success the outcome and the
    /// adapter's new state are exactly what [`spec_dispatch`] states.
    pub fn forward_request(&mut self, server_id: &str, envelope: JsonValue) -> (r: Result<
        RequestOutcome,
        String,
    >)
        ensures
            r is Ok <==> spec_flookup(old(self).spec_servers(), server_id@) is Some,
            final(self).spec_servers().len() == old(self).spec_servers().len(),
            match spec_flookup(old(self).spec_servers(), server_id@) {
                Some(a) => r matches Ok(out) && (final(self).spec_server(server_id@)
                    matches Some(a2) && spec_dispatch(a, a2, envelope, out)),
                None => final(self).spec_servers() == old(self).spec_servers(),
            },
            forall|k: Seq<char>|
                k != server_id@ ==> final(self).spec_server(k) == old(self).spec_server(k),
            final(self).spec_next_id() == old(self).spec_next_id(),
    {
        let ghost orig = self.servers@;
        let mut i: usize = 0;
        while i < self.servers.len()
            invariant
                i <= self.servers.len(),
                orig == old(self).spec_servers(),
                self.servers@ == orig,
                self.next_id == old(self).spec_next_id(),
                forall|j: int| 0 <= j < i ==> #[trigger] orig[j].0@ != server_id@,
            decreases self.servers.len() - i,
        {
            if str_eq(self.servers[i].0.as_str(), server_id) {
                proof {
                    lemma_flookup_first_match(orig, i as int);
                }
                let (id, mut adapter) = self.servers.remove(i);
                let outcome = handle_request(&mut adapter, envelope);
                let ghost removed = self.servers@;
                let ghost newpair = (id, adapter);
                self.servers.insert(i, (id, adapter));
                proof {
                    assert(removed =~= orig.remove(i as int));
                    assert(self.servers@ =~= removed.insert(i as int, newpair));
                    assert(forall|j: int| 0 <= j < i ==> removed[j] == orig[j]);
                    lemma_flookup_insert(removed, i as int, newpair, server_id@);
                    assert forall|k: Seq<char>| k != server_id@ implies spec_flookup(
                        self.servers@,
                        k,
                    ) == spec_flookup(orig, k) by {
                        lemma_flookup_insert(removed, i as int, newpair, k);
                        lemma_flookup_remove(orig, i as int, k);
                    }
                }
                return Ok(outcome);
            }
            i += 1;
        }
        proof {
            lemma_flookup_absent(orig, server_id@);
        }
        let mut msg = "Server not found: ".to_owned();
        msg.append(server_id);
        Err(msg)
    }
}

/// How capabilities are discovered for a language: a throw-away adapter
/// to handshake with, or an immediate error payload.
pub enum CapabilitiesPlan {
    /// Spawn this probe adapter and send it the handshake; the response
    /// carries the capability set.
    Probe { adapter: Adapter, request: JsonValue },
    /// No adapter exists for the language; the payload says why.
    Immediate { payload: JsonValue },
}

/// An error payload of the capability discovery call.
fn capabilities_error(message: String, source: &str) -> (r: JsonValue)
    ensures
        r.spec_get("error"@) matches Some(m) && m.spec_as_str() == Some(message@),
        r.spec_get("_type"@) matches Some(t) && t.spec_as_str() == Some("capabilities_error"@),
        r.spec_get("source"@) matches Some(s) && s.spec_as_str() == Some(source@),
{
    let ghost gmsg = message@;
    let mut pairs: Vec<(String, JsonValue)> = Vec::new();
    pairs.push(("error".to_owned(), JsonValue::Str(message)));
    pairs.push(("_type".to_owned(), JsonValue::Str("capabilities_error".to_owned())));
    pairs.push(("source".to_owned(), JsonValue::Str(source.to_owned())));
    let r = JsonValue::Obj(pairs);
    proof {
        reveal_strlit("error");
        reveal_strlit("_type");
        reveal_strlit("source");
        assert("error"@.len() == 5);
        assert("_type"@.len() == 5);
        assert("source"@.len() == 6);
        assert("error"@[0] == 'e');
        assert("_type"@[0] == '_');
        assert("source"@[0] == 's');
        crate::json::lemma_first_match_lookup(pairs@, 0);
        crate::json::lemma_first_match_lookup(pairs@, 1);
        crate::json::lemma_first_match_lookup(pairs@, 2);
    }
    r
}

impl ServerFactory {
    /// Capability discovery without a live session: for a supported
    /// language, a throw-away probe adapter rooted at the given working
    /// directory and its handshake request; for anything else, the error
    /// payload the caller shows.
    pub fn get_server_capabilities(&self, language: &str, current_dir: &str) -> (r:
        CapabilitiesPlan)
        ensures
            spec_lower(language@) == "rust"@ ==> (r matches CapabilitiesPlan::Probe {
                adapter,
                request,
            } && adapter.spec_config().root_path@ == current_dir@ && spec_field_str(
                request,
                "method"@,
            ) == Some("initialize"@)),
            spec_lower(language@) != "rust"@ ==> (r matches CapabilitiesPlan::Immediate { payload }
                && payload.spec_get("_type"@) is Some),
    {
        proof {
            crate::languages::lemma_language_names_distinct();
        }
        let normalized = ascii_lowercase(language);
        if str_eq(normalized.as_str(), "rust") {
            let mut adapter = match Adapter::new(normalized, current_dir) {
                Ok(a) => a,
                Err(e) => {
                    // Unreachable: building a configuration cannot fail.
                    return CapabilitiesPlan::Immediate {
                        payload: capabilities_error(e, "rust_lsp_adapter_creation"),
                    };
                },
            };
            let request = adapter.initialize_request(
                JsonValue::Obj(Vec::new()),
                JsonValue::Null,
            );
            adapter.begin_session();
            CapabilitiesPlan::Probe { adapter, request }
        } else if str_eq(normalized.as_str(), "typescript") || str_eq(
            normalized.as_str(),
            "javascript",
        ) || str_eq(normalized.as_str(), "python") {
            let mut msg = "Adapter for language '".to_owned();
            msg.append(normalized.as_str());
            msg.append("' is not yet implemented");
            CapabilitiesPlan::Immediate {
                payload: capabilities_error(msg, "server_factory_planned_language"),
            }
        } else {
            let mut msg = "Language '".to_owned();
            msg.append(normalized.as_str());
            msg.append("' is not supported. No LSP server for this language.");
            CapabilitiesPlan::Immediate {
                payload: capabilities_error(msg, "server_factory_unsupported_language"),
            }
        }
    }

    /// Builds a standalone adapter for the stdio transport: an unknown or
    /// empty language is detected from the path's extension or directory
    /// contents, the project root is resolved, and only a supported
    /// language yields an adapter.
    pub fn create_language_server_instance<F: FileSystem>(
        &self,
        fs: &F,
        language: &str,
        file_path: &str,
    ) -> (r: Result<Adapter, CreateError>)
        ensures
            r matches Ok(a) ==> a.spec_language() == "rust"@ && !a.spec_running(),
    {
        proof {
            crate::languages::lemma_language_names_distinct();
        }
        let normalized = ascii_lowercase(language);
        let final_language: String = if str_eq(normalized.as_str(), "unknown")
            || normalized.as_str().is_empty() {
            match crate::detect::detect_language_from_file_extension(fs, file_path) {
                Some(l) => l,
                None => normalized,
            }
        } else {
            normalized
        };
        let root = match resolver::find_project_root(fs, final_language.as_str(), file_path) {
            Ok(p) => p,
            Err(RootError::PathNotFound) => {
                return Err(CreateError::PathNotFound);
            },
            Err(RootError::NoParent) => {
                return Err(CreateError::NoParent);
            },
        };
        if str_eq(final_language.as_str(), "rust") {
            match Adapter::new("rust".to_owned(), root.as_str()) {
                Ok(a) => Ok(a),
                Err(_) => Err(CreateError::Unsupported("rust".to_owned())),
            }
        } else {
            Err(CreateError::Unsupported(final_language))
        }
    }

    /// The child of the server under `server_id` closed its stream or
    /// could not be started: every request still pending on it fails, and
    /// the waiting clients are handed back.
    pub fn on_child_eof(&mut self, server_id: &str) -> (r: Result<
        Vec<(u64, PendingEntry)>,
        String,
    >)
        ensures
            r is Ok <==> spec_flookup(old(self).spec_servers(), server_id@) is Some,
            match spec_flookup(old(self).spec_servers(), server_id@) {
                Some(a) => r matches Ok(failed) && failed@ == a.spec_pending()
                    && (final(self).spec_server(server_id@) matches Some(a2)
                    && a2.spec_pending() == Seq::<(u64, PendingEntry)>::empty()),
                None => final(self).spec_servers() == old(self).spec_servers(),
            },
            forall|k: Seq<char>|
                k != server_id@ ==> final(self).spec_server(k) == old(self).spec_server(k),
            final(self).spec_next_id() == old(self).spec_next_id(),
    {
        let ghost orig = self.servers@;
        let mut i: usize = 0;
        while i < self.servers.len()
            invariant
                i <= self.servers.len(),
                orig == old(self).spec_servers(),
                self.servers@ == orig,
                self.next_id == old(self).spec_next_id(),
                forall|j: int| 0 <= j < i ==> #[trigger] orig[j].0@ != server_id@,
            decreases self.servers.len() - i,
        {
            if str_eq(self.servers[i].0.as_str(), server_id) {
                proof {
                    lemma_flookup_first_match(orig, i as int);
                }
                let (id, mut adapter) = self.servers.remove(i);
                let failed = adapter.on_child_eof();
                let ghost removed = self.servers@;
                let ghost newpair = (id, adapter);
                self.servers.insert(i, (id, adapter));
                proof {
                    assert(removed =~= orig.remove(i as int));
                    assert(self.servers@ =~= removed.insert(i as int, newpair));
                    assert(forall|j: int| 0 <= j < i ==> removed[j] == orig[j]);
                    lemma_flookup_insert(removed, i as int, newpair, server_id@);
                    assert forall|k: Seq<char>| k != server_id@ implies spec_flookup(
                        self.servers@,
                        k,
                    ) == spec_flookup(orig, k) by {
                        lemma_flookup_insert(removed, i as int, newpair, k);
                        lemma_flookup_remove(orig, i as int, k);
                    }
                }
                return Ok(failed);
            }
            i += 1;
        }
        proof {
            lemma_flookup_absent(orig, server_id@);
        }
        let mut msg = "Server not found: ".to_owned();
        msg.append(server_id);
        Err(msg)
    }

    /// Root resolution, as the registry exposes it; what it returns is
    /// stated by [`resolver::find_project_root`].
    pub fn find_project_root<F: FileSystem>(&self, fs: &F, language: &str, file_path: &str) -> (r:
        Result<String, RootError>)
        ensures
            r == Err::<String, RootError>(RootError::PathNotFound) <==> !fs.exists_spec(
                file_path@,
            ),
            fs.exists_spec(file_path@) ==> match spec_start_dir(fs, file_path@) {
                Some(start) => r matches Ok(root) && root@ == spec_walk(
                    fs,
                    crate::resolver::spec_markers(spec_lower(language@)),
                    start,
                    start,
                    MAX_WALK_STEPS as nat,
                ),
                None => r == Err::<String, RootError>(RootError::NoParent),
            },
    {
        resolver::find_project_root(fs, language, file_path)
    }

    /// The single-directory predicate form of root resolution.
    pub fn is_project_root<F: FileSystem>(&self, fs: &F, language: &str, dir_path: &str) -> (r:
        bool)
        ensures
            r == (fs.exists_spec(dir_path@) && fs.is_dir_spec(dir_path@)
                && crate::resolver::spec_has_marker(
                fs,
                crate::resolver::spec_markers(spec_lower(language@)),
                dir_path@,
            )),
    {
        resolver::is_project_root(fs, language, dir_path)
    }

    /// Feeds bytes from the child of the server under `server_id` into
    /// its adapter; fails exactly when no such server exists. On success
    /// the adapter evolves exactly by its byte pump.
    pub fn on_child_bytes(&mut self, server_id: &str, data: &[u8]) -> (r: Result<
        Vec<crate::adapter::AdapterEvent>,
        String,
    >)
        ensures
            r is Ok <==> spec_flookup(old(self).spec_servers(), server_id@) is Some,
            match spec_flookup(old(self).spec_servers(), server_id@) {
                Some(a) => r matches Ok(events) && (final(self).spec_server(server_id@)
                    matches Some(a2) && crate::adapter::spec_child_bytes_step(
                    a,
                    a2,
                    data@,
                    events@,
                )),
                None => final(self).spec_servers() == old(self).spec_servers(),
            },
            forall|k: Seq<char>|
                k != server_id@ ==> final(self).spec_server(k) == old(self).spec_server(k),
            final(self).spec_next_id() == old(self).spec_next_id(),
    {
        let ghost orig = self.servers@;
        let mut i: usize = 0;
        while i < self.servers.len()
            invariant
                i <= self.servers.len(),
                orig == old(self).spec_servers(),
                self.servers@ == orig,
                self.next_id == old(self).spec_next_id(),
                forall|j: int| 0 <= j < i ==> #[trigger] orig[j].0@ != server_id@,
            decreases self.servers.len() - i,
        {
            if str_eq(self.servers[i].0.as_str(), server_id) {
                proof {
                    lemma_flookup_first_match(orig, i as int);
                }
                let (id, mut adapter) = self.servers.remove(i);
                let events = adapter.on_child_bytes(data);
                let ghost removed = self.servers@;
                let ghost newpair = (id, adapter);
                self.servers.insert(i, (id, adapter));
                proof {
                    assert(removed =~= orig.remove(i as int));
                    assert(self.servers@ =~= removed.insert(i as int, newpair));
                    assert(forall|j: int| 0 <= j < i ==> removed[j] == orig[j]);
                    lemma_flookup_insert(removed, i as int, newpair, server_id@);
                    assert forall|k: Seq<char>| k != server_id@ implies spec_flookup(
                        self.servers@,
                        k,
                    ) == spec_flookup(orig, k) by {
                        lemma_flookup_insert(removed, i as int, newpair, k);
                        lemma_flookup_remove(orig, i as int, k);
                    }
                }
                return Ok(events);
            }
            i += 1;
        }
        proof {
            lemma_flookup_absent(orig, server_id@);
        }
        let mut msg = "Server not found: ".to_owned();
        msg.append(server_id);
        Err(msg)
    }
}

/// The immediate reply an envelope without a method earns: an empty
/// result object, since there is nothing to forward.
fn empty_result_reply(id: JsonValue) -> (r: JsonValue)
    ensures
        rpc::spec_id_of(r) == Some(id),
        rpc::spec_result_of(r) matches Some(res) && res.spec_is_object(),
        rpc::spec_error_code(r) is None,
{
    rpc::success_response(id, JsonValue::Obj(Vec::new()))
}

/// The id a reply must carry: the request's own id, or null.
pub open spec fn spec_req_id(envelope: JsonValue) -> JsonValue {
    match spec_id_of(envelope) {
        Some(i) => i,
        None => JsonValue::Null,
    }
}

/// The adapter's documents are untouched.
pub open spec fn spec_docs_unchanged(pre: Adapter, post: Adapter) -> bool {
    forall|u: Seq<char>| post.spec_doc(u) == pre.spec_doc(u)
}

/// The adapter's whole observable state is untouched.
pub open spec fn spec_adapter_quiet(pre: Adapter, post: Adapter) -> bool {
    &&& post.spec_pending() == pre.spec_pending()
    &&& post.spec_next_id() == pre.spec_next_id()
    &&& post.spec_running() == pre.spec_running()
    &&& spec_docs_unchanged(pre, post)
}

/// One request was registered: a fresh id was allocated, a waiter for
/// this method under the client's own id was appended, and the counter
/// advanced.
pub open spec fn spec_registered(
    pre: Adapter,
    post: Adapter,
    m: Seq<char>,
    reqid: JsonValue,
) -> bool {
    &&& post.spec_pending().len() == pre.spec_pending().len() + 1
    &&& post.spec_pending().take(pre.spec_pending().len() as int) == pre.spec_pending()
    &&& post.spec_pending().last().0 == pre.spec_next_id()
    &&& post.spec_pending().last().1.method@ == m
    &&& spec_jeq(post.spec_pending().last().1.client_id, reqid)
    &&& post.spec_next_id() == crate::link::spec_advance_id(pre.spec_next_id())
}

/// Exactly one envelope goes to the child, with this method and the
/// params carried through.
pub open spec fn spec_child_msg(r: RequestOutcome, m: Seq<char>, params: Option<JsonValue>) -> bool {
    &&& r.child_messages@.len() == 1
    &&& spec_field_str(r.child_messages@[0], "method"@) == Some(m)
    &&& match params {
        Some(p) => r.child_messages@[0].spec_get("params"@) == Some(p),
        None => r.child_messages@[0].spec_get("params"@) is None,
    }
}

/// An immediate error reply under the request's own id, with nothing
/// spawned and nothing sent to the child.
pub open spec fn spec_error_reply(r: RequestOutcome, code: i64, reqid: JsonValue) -> bool {
    &&& r.reply matches Some(rep) && rpc::spec_error_code(rep) == Some(code) && (rpc::spec_id_of(
        rep,
    ) matches Some(i) && spec_jeq(i, reqid))
    &&& r.spawn is None
    &&& r.child_messages@.len() == 0
}

/// What dispatching one envelope does to an adapter: the whole behaviour
/// of [`handle_request`], case by case over the method.
///
/// `initialize` spawns the child and forwards the request with the root
/// corrected; the document-lifecycle notifications update the store and
/// are forwarded; `completion` and `hover` validate their params; and
/// every other method is transparently forwarded to the child — as a
/// registered request when it carries an id, as a notification when not —
/// so its answer is relayed by the response interpreter. Only an envelope
/// without a method is answered immediately, with an empty result.
pub open spec fn spec_dispatch(
    pre: Adapter,
    post: Adapter,
    envelope: JsonValue,
    r: RequestOutcome,
) -> bool {
    let reqid = spec_req_id(envelope);
    let params = envelope.spec_get("params"@);
    &&& post.spec_config() == pre.spec_config()
    &&& post.spec_language() == pre.spec_language()
    &&& match spec_field_str(envelope, "method"@) {
        Some(m) => {
            if m == "initialize"@ {
                match params {
                    Some(p) => if p.spec_is_object() {
                        &&& r.reply is None
                        &&& (r.spawn matches Some(c) && crate::config::spec_config_like(
                            c,
                            pre.spec_config(),
                        ))
                        &&& post.spec_running()
                        &&& r.child_messages@.len() == 1
                        &&& spec_field_str(r.child_messages@[0], "method"@) == Some(
                            "initialize"@,
                        )
                        &&& spec_id_of(r.child_messages@[0]) == Some(
                            JsonValue::Int(pre.spec_next_id() as i64),
                        )
                        &&& (r.child_messages@[0].spec_get("params"@) matches Some(cp) && {
                            &&& spec_field_str(cp, "rootUri"@) == Some(
                                "file://"@ + pre.spec_config().root_path@,
                            )
                            &&& forall|k: Seq<char>|
                                k != "rootUri"@ ==> cp.spec_get(k) == p.spec_get(k)
                        })
                        &&& spec_registered(pre, post, "initialize"@, reqid)
                        &&& spec_docs_unchanged(pre, post)
                    } else {
                        spec_error_reply(r, INVALID_PARAMS, reqid) && spec_adapter_quiet(
                            pre,
                            post,
                        )
                    },
                    None => spec_error_reply(r, INVALID_PARAMS, reqid) && spec_adapter_quiet(
                        pre,
                        post,
                    ),
                }
            } else if m == "initialized"@ {
                &&& r.reply is None
                &&& r.spawn is None
                &&& spec_child_msg(r, m, params)
                &&& rpc::spec_is_notification(r.child_messages@[0])
                &&& spec_adapter_quiet(pre, post)
            } else if m == "textDocument/didOpen"@ {
                &&& r.reply is None
                &&& r.spawn is None
                &&& post.spec_pending() == pre.spec_pending()
                &&& post.spec_next_id() == pre.spec_next_id()
                &&& post.spec_running() == pre.spec_running()
                &&& match params {
                    Some(p) => match (spec_td_str(p, "uri"@), spec_td_str(p, "text"@)) {
                        (Some(u), Some(t)) => {
                            &&& (post.spec_doc(u) matches Some(d) && d.content@ == t
                                && d.diagnostics@.len() == 0)
                            &&& forall|k: Seq<char>|
                                k != u ==> post.spec_doc(k) == pre.spec_doc(k)
                            &&& spec_child_msg(r, m, Some(p))
                            &&& rpc::spec_is_notification(r.child_messages@[0])
                        },
                        _ => r.child_messages@.len() == 0 && spec_docs_unchanged(pre, post),
                    },
                    None => r.child_messages@.len() == 0 && spec_docs_unchanged(pre, post),
                }
            } else if m == "textDocument/didChange"@ {
                &&& r.reply is None
                &&& r.spawn is None
                &&& post.spec_pending() == pre.spec_pending()
                &&& post.spec_next_id() == pre.spec_next_id()
                &&& post.spec_running() == pre.spec_running()
                &&& match params {
                    Some(p) => match (spec_td_str(p, "uri"@), spec_last_change_text(p)) {
                        (Some(u), Some(t)) => {
                            &&& (post.spec_doc(u) matches Some(d) && d.content@ == t
                                && d.diagnostics@ == (match pre.spec_doc(u) {
                                Some(o) => o.diagnostics@,
                                None => Seq::<JsonValue>::empty(),
                            }))
                            &&& forall|k: Seq<char>|
                                k != u ==> post.spec_doc(k) == pre.spec_doc(k)
                            &&& spec_child_msg(r, m, Some(p))
                            &&& rpc::spec_is_notification(r.child_messages@[0])
                        },
                        _ => r.child_messages@.len() == 0 && spec_docs_unchanged(pre, post),
                    },
                    None => r.child_messages@.len() == 0 && spec_docs_unchanged(pre, post),
                }
            } else if m == "textDocument/didSave"@ {
                &&& r.reply is None
                &&& r.spawn is None
                &&& spec_child_msg(r, m, params)
                &&& rpc::spec_is_notification(r.child_messages@[0])
                &&& spec_adapter_quiet(pre, post)
            } else if m == "textDocument/didClose"@ {
                &&& r.reply is None
                &&& r.spawn is None
                &&& post.spec_pending() == pre.spec_pending()
                &&& post.spec_next_id() == pre.spec_next_id()
                &&& post.spec_running() == pre.spec_running()
                &&& match params {
                    Some(p) => match spec_td_str(p, "uri"@) {
                        Some(u) => {
                            &&& post.spec_doc(u) is None
                            &&& forall|k: Seq<char>|
                                k != u ==> post.spec_doc(k) == pre.spec_doc(k)
                            &&& spec_child_msg(r, m, Some(p))
                            &&& rpc::spec_is_notification(r.child_messages@[0])
                        },
                        None => r.child_messages@.len() == 0 && spec_docs_unchanged(pre, post),
                    },
                    None => r.child_messages@.len() == 0 && spec_docs_unchanged(pre, post),
                }
            } else if m == "textDocument/completion"@ || m == "textDocument/hover"@ {
                match params {
                    Some(p) => if p.spec_is_object() {
                        &&& r.reply is None
                        &&& r.spawn is None
                        &&& spec_child_msg(r, m, Some(p))
                        &&& spec_id_of(r.child_messages@[0]) == Some(
                            JsonValue::Int(pre.spec_next_id() as i64),
                        )
                        &&& spec_registered(pre, post, m, reqid)
                        &&& post.spec_running() == pre.spec_running()
                        &&& spec_docs_unchanged(pre, post)
                    } else {
                        spec_error_reply(r, INVALID_PARAMS, reqid) && spec_adapter_quiet(
                            pre,
                            post,
                        )
                    },
                    None => spec_error_reply(r, INVALID_PARAMS, reqid) && spec_adapter_quiet(
                        pre,
                        post,
                    ),
                }
            } else {
                if spec_id_of(envelope) is Some {
                    &&& r.reply is None
                    &&& r.spawn is None
                    &&& spec_child_msg(r, m, params)
                    &&& spec_id_of(r.child_messages@[0]) == Some(
                        JsonValue::Int(pre.spec_next_id() as i64),
                    )
                    &&& spec_registered(pre, post, m, reqid)
                    &&& post.spec_running() == pre.spec_running()
                    &&& spec_docs_unchanged(pre, post)
                } else {
                    &&& r.reply is None
                    &&& r.spawn is None
                    &&& spec_child_msg(r, m, params)
                    &&& rpc::spec_is_notification(r.child_messages@[0])
                    &&& spec_adapter_quiet(pre, post)
                }
            }
        },
        None => {
            &&& (r.reply matches Some(rep) && rpc::spec_error_code(rep) is None
                && rpc::spec_result_of(rep) is Some && (rpc::spec_id_of(rep) matches Some(i)
                && spec_jeq(i, reqid)))
            &&& r.spawn is None
            &&& r.child_messages@.len() == 0
            &&& spec_adapter_quiet(pre, post)
        },
    }
}

/// Dispatches one JSON-RPC envelope on an adapter; the outcome and the
/// adapter's new state are exactly what [`spec_dispatch`] states for the
/// envelope's method.
pub fn handle_request(adapter: &mut Adapter, envelope: JsonValue) -> (r: RequestOutcome)
    ensures
        spec_dispatch(*old(adapter), *final(adapter), envelope, r),
{
    proof {
        lemma_dispatch_names_distinct();
    }
    let id: JsonValue = match envelope.get("id") {
        Some(v) => json_clone(v),
        None => JsonValue::Null,
    };
    let has_id = match envelope.get("id") {
        Some(_) => true,
        None => false,
    };
    let method: Option<String> = match envelope.get("method") {
        Some(m) => match m.as_str() {
            Some(s) => Some(s.clone()),
            None => None,
        },
        None => None,
    };
    let (_rest, params) = obj_take(envelope, "params");
    match method {
        Some(m) => {
            if str_eq(m.as_str(), "initialize") {
                match params {
                    Some(p) => {
                        if p.is_object() {
                            let req = adapter.initialize_request(p, id);
                            adapter.begin_session();
                            let spawn = Some(adapter.launch_config().duplicate());
                            let mut msgs: Vec<JsonValue> = Vec::new();
                            msgs.push(req);
                            RequestOutcome { reply: None, spawn, child_messages: msgs }
                        } else {
                            RequestOutcome {
                                reply: Some(
                                    rpc::error_response(
                                        id,
                                        INVALID_PARAMS,
                                        "Invalid params".to_owned(),
                                    ),
                                ),
                                spawn: None,
                                child_messages: Vec::new(),
                            }
                        }
                    },
                    None => RequestOutcome {
                        reply: Some(
                            rpc::error_response(id, INVALID_PARAMS, "Invalid params".to_owned()),
                        ),
                        spawn: None,
                        child_messages: Vec::new(),
                    },
                }
            } else if str_eq(m.as_str(), "initialized") {
                let note = adapter.notification("initialized".to_owned(), params);
                let mut msgs: Vec<JsonValue> = Vec::new();
                msgs.push(note);
                RequestOutcome { reply: None, spawn: None, child_messages: msgs }
            } else if str_eq(m.as_str(), "textDocument/didOpen") {
                match params {
                    Some(p) => {
                        let note = adapter.did_open(p);
                        let mut msgs: Vec<JsonValue> = Vec::new();
                        match note {
                            Some(n) => {
                                msgs.push(n);
                            },
                            None => {},
                        }
                        RequestOutcome { reply: None, spawn: None, child_messages: msgs }
                    },
                    None => RequestOutcome {
                        reply: None,
                        spawn: None,
                        child_messages: Vec::new(),
                    },
                }
            } else if str_eq(m.as_str(), "textDocument/didChange") {
                match params {
                    Some(p) => {
                        let note = adapter.did_change(p);
                        let mut msgs: Vec<JsonValue> = Vec::new();
                        match note {
                            Some(n) => {
                                msgs.push(n);
                            },
                            None => {},
                        }
                        RequestOutcome { reply: None, spawn: None, child_messages: msgs }
                    },
                    None => RequestOutcome {
                        reply: None,
                        spawn: None,
                        child_messages: Vec::new(),
                    },
                }
            } else if str_eq(m.as_str(), "textDocument/didSave") {
                let note = match params {
                    Some(p) => adapter.did_save(p),
                    None => adapter.notification("textDocument/didSave".to_owned(), None),
                };
                let mut msgs: Vec<JsonValue> = Vec::new();
                msgs.push(note);
                RequestOutcome { reply: None, spawn: None, child_messages: msgs }
            } else if str_eq(m.as_str(), "textDocument/didClose") {
                match params {
                    Some(p) => {
                        let note = adapter.did_close(p);
                        let mut msgs: Vec<JsonValue> = Vec::new();
                        match note {
                            Some(n) => {
                                msgs.push(n);
                            },
                            None => {},
                        }
                        RequestOutcome { reply: None, spawn: None, child_messages: msgs }
                    },
                    None => RequestOutcome {
                        reply: None,
                        spawn: None,
                        child_messages: Vec::new(),
                    },
                }
            } else if str_eq(m.as_str(), "textDocument/completion") || str_eq(
                m.as_str(),
                "textDocument/hover",
            ) {
                match params {
                    Some(p) => {
                        if p.is_object() {
                            let req = adapter.forward_request(m, Some(p), id);
                            let mut msgs: Vec<JsonValue> = Vec::new();
                            msgs.push(req);
                            RequestOutcome { reply: None, spawn: None, child_messages: msgs }
                        } else {
                            RequestOutcome {
                                reply: Some(
                                    rpc::error_response(
                                        id,
                                        INVALID_PARAMS,
                                        "Invalid params for this method".to_owned(),
                                    ),
                                ),
                                spawn: None,
                                child_messages: Vec::new(),
                            }
                        }
                    },
                    None => RequestOutcome {
                        reply: Some(
                            rpc::error_response(
                                id,
                                INVALID_PARAMS,
                                "Invalid params for this method".to_owned(),
                            ),
                        ),
                        spawn: None,
                        child_messages: Vec::new(),
                    },
                }
            } else {
                if has_id {
                    let req = adapter.forward_request(m, params, id);
                    let mut msgs: Vec<JsonValue> = Vec::new();
                    msgs.push(req);
                    RequestOutcome { reply: None, spawn: None, child_messages: msgs }
                } else {
                    let note = adapter.notification(m, params);
                    let mut msgs: Vec<JsonValue> = Vec::new();
                    msgs.push(note);
                    RequestOutcome { reply: None, spawn: None, child_messages: msgs }
                }
            }
        },
        None => RequestOutcome {
            reply: Some(empty_result_reply(id)),
            spawn: None,
            child_messages: Vec::new(),
        },
    }
}

/// The method names the dispatcher distinguishes are pairwise distinct.
proof fn lemma_dispatch_names_distinct()
    ensures
        "initialize"@.len() == 10,
        "initialized"@.len() == 11,
        "textDocument/didOpen"@.len() == 20,
        "textDocument/didChange"@.len() == 22,
        "textDocument/didSave"@.len() == 20,
        "textDocument/didClose"@.len() == 21,
        "textDocument/completion"@.len() == 23,
        "textDocument/hover"@.len() == 18,
        "textDocument/didOpen"@[16] == 'O',
        "textDocument/didSave"@[16] == 'S',
{
    reveal_strlit("initialize");
    reveal_strlit("initialized");
    reveal_strlit("textDocument/didOpen");
    reveal_strlit("textDocument/didChange");
    reveal_strlit("textDocument/didSave");
    reveal_strlit("textDocument/didClose");
    reveal_strlit("textDocument/completion");
    reveal_strlit("textDocument/hover");
}

} // verus!
