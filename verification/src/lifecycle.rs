//! Process-wide lifecycle state, as injectable service objects: the
//! registry of stdio-mode servers already running per language, and the
//! socket listener's start/stop machine with its port-retry policy.
//!
//! The application performs the probes, binds and serves; these machines
//! decide. Starting an already-running listener reports success without a
//! second listener, and stopping a stopped one is a no-op.

use vstd::prelude::*;
use crate::fsio::FileSystem;
use crate::detect::{spec_after_last_dot, spec_last_index};
use crate::languages;
use crate::languages::spec_is_supported;
use crate::strutil::{str_eq, ascii_lowercase, spec_lower};

verus! {

/// Whether some string in the list reads `k`.
pub open spec fn spec_langs_has(s: Seq<String>, k: Seq<char>) -> bool {
    exists|i: int| 0 <= i < s.len() && (#[trigger] s[i])@ == k
}

/// The languages whose stdio-mode server is already running.
pub struct ActiveServers {
    langs: Vec<String>,
}

impl ActiveServers {
    pub closed spec fn spec_langs(&self) -> Seq<String> {
        self.langs@
    }

    /// Whether a server for this language is recorded as running.
    pub open spec fn spec_has(&self, lang: Seq<char>) -> bool {
        spec_langs_has(self.spec_langs(), lang)
    }

    pub fn new() -> (r: Self)
        ensures
            r.spec_langs() == Seq::<String>::empty(),
    {
        ActiveServers { langs: Vec::new() }
    }

    pub fn contains_language(&self, lang: &str) -> (r: bool)
        ensures
            r == self.spec_has(lang@),
    {
        let n = self.langs.len();
        let mut i: usize = 0;
        while i < n
            invariant
                n == self.spec_langs().len(),
                i <= n,
                forall|j: int| 0 <= j < i ==> (#[trigger] self.spec_langs()[j])@ != lang@,
            decreases n - i,
        {
            if str_eq(self.langs[i].as_str(), lang) {
                return true;
            }
            i += 1;
        }
        false
    }

    /// Records a language as running; reports whether it was new.
    pub fn claim(&mut self, lang: String) -> (r: bool)
        ensures
            r == !old(self).spec_has(lang@),
            final(self).spec_has(lang@),
            r ==> final(self).spec_langs() == old(self).spec_langs().push(lang),
            !r ==> final(self).spec_langs() == old(self).spec_langs(),
            forall|k: Seq<char>|
                k != lang@ ==> #[trigger] final(self).spec_has(k) == old(self).spec_has(k),
    {
        if self.contains_language(lang.as_str()) {
            return false;
        }
        let ghost before = self.langs@;
        let ghost glang = lang@;
        self.langs.push(lang);
        proof {
            assert(self.langs@.last()@ == glang);
            assert forall|k: Seq<char>| k != glang implies #[trigger] spec_langs_has(
                self.langs@,
                k,
            ) == spec_langs_has(before, k) by {
                if spec_langs_has(before, k) {
                    let i = choose|i: int| 0 <= i < before.len() && (#[trigger] before[i])@ == k;
                    assert(self.langs@[i]@ == k);
                }
                if spec_langs_has(self.langs@, k) {
                    let i = choose|i: int|
                        0 <= i < self.langs@.len() && (#[trigger] self.langs@[i])@ == k;
                    assert(i < before.len());
                    assert(before[i]@ == k);
                }
            }
        }
        true
    }

    /// Removes a language from the running set.
    pub fn release(&mut self, lang: &str)
        ensures
            !final(self).spec_has(lang@),
            forall|k: Seq<char>|
                k != lang@ ==> #[trigger] final(self).spec_has(k) == old(self).spec_has(k),
    {
        let ghost orig = self.langs@;
        let mut i: usize = 0;
        while i < self.langs.len()
            invariant
                i <= self.langs.len(),
                forall|j: int| 0 <= j < i ==> (#[trigger] self.langs@[j])@ != lang@,
                forall|k: Seq<char>|
                    k != lang@ ==> #[trigger] spec_langs_has(self.langs@, k) == spec_langs_has(
                        orig,
                        k,
                    ),
            decreases self.langs.len() - i,
        {
            if str_eq(self.langs[i].as_str(), lang) {
                let ghost before = self.langs@;
                let _ = self.langs.remove(i);
                proof {
                    assert forall|k: Seq<char>| k != lang@ implies #[trigger] spec_langs_has(
                        self.langs@,
                        k,
                    ) == spec_langs_has(before, k) by {
                        if spec_langs_has(self.langs@, k) {
                            let j = choose|j: int|
                                0 <= j < self.langs@.len() && (#[trigger] self.langs@[j])@ == k;
                            if j < i {
                                assert(before[j]@ == k);
                            } else {
                                assert(before[j + 1]@ == k);
                            }
                        }
                        if spec_langs_has(before, k) {
                            let j = choose|j: int|
                                0 <= j < before.len() && (#[trigger] before[j])@ == k;
                            if j < i {
                                assert(self.langs@[j]@ == k);
                            } else if j > i {
                                assert(self.langs@[j - 1]@ == k);
                            } else {
                                assert(before[i as int]@ == lang@);
                            }
                        }
                    }
                }
            } else {
                i += 1;
            }
        }
        proof {
            assert(!spec_langs_has(self.langs@, lang@));
        }
    }
}

/// The language a stdio-mode start resolves: an unknown or empty declared
/// language is replaced by what the path's extension names, for the four
/// extensions the stdio path knows.
pub open spec fn spec_stdio_language(lang: Seq<char>, path: Seq<char>) -> Seq<char> {
    let norm = spec_lower(lang);
    if (norm == "unknown"@ || norm.len() == 0) && spec_last_index(path, '.') is Some {
        let ext = spec_after_last_dot(path);
        if ext == "rs"@ {
            "rust"@
        } else if ext == "py"@ {
            "python"@
        } else if ext == "js"@ {
            "javascript"@
        } else if ext == "ts"@ {
            "typescript"@
        } else {
            norm
        }
    } else {
        norm
    }
}

/// Why a stdio-mode start was refused.
#[derive(Debug)]
pub enum StdioStartError {
    /// The given path does not exist; nothing is spawned.
    PathNotFound,
    /// The resolved language has no server.
    Unsupported(String),
}

/// What a stdio-mode start request decided.
#[derive(Debug)]
pub enum StdioStartPlan {
    /// A server for this language already runs; nothing is spawned.
    AlreadyRunning(String),
    /// Spawn a server for this language; it is now recorded as running.
    Start(String),
}

/// Decides a stdio-mode server start: the path must exist, the language
/// (detected from the extension when unknown) must be supported, and at
/// most one server per language is ever started.
pub fn plan_stdio_server_start<F: FileSystem>(
    active: &mut ActiveServers,
    fs: &F,
    language: &str,
    file_path: &str,
) -> (r: Result<StdioStartPlan, StdioStartError>)
    ensures
        r matches Err(StdioStartError::PathNotFound) <==> !fs.exists_spec(file_path@),
        fs.exists_spec(file_path@) && !spec_is_supported(
            spec_stdio_language(language@, file_path@),
        ) ==> (r matches Err(StdioStartError::Unsupported(l)) && l@ == spec_stdio_language(
            language@,
            file_path@,
        ) && final(active).spec_langs() == old(active).spec_langs()),
        fs.exists_spec(file_path@) && spec_is_supported(
            spec_stdio_language(language@, file_path@),
        ) ==> {
            &&& old(active).spec_has(spec_stdio_language(language@, file_path@)) ==> (r matches Ok(
                StdioStartPlan::AlreadyRunning(l),
            ) && l@ == spec_stdio_language(language@, file_path@) && final(active).spec_langs()
                == old(active).spec_langs())
            &&& !old(active).spec_has(spec_stdio_language(language@, file_path@)) ==> (r matches Ok(
                StdioStartPlan::Start(l),
            ) && l@ == spec_stdio_language(language@, file_path@) && final(active).spec_has(
                spec_stdio_language(language@, file_path@),
            ))
        },
        r is Err ==> final(active).spec_langs() == old(active).spec_langs(),
{
    proof {
        crate::languages::lemma_language_names_distinct();
    }
    if !fs.path_exists(file_path) {
        return Err(StdioStartError::PathNotFound);
    }
    let norm = ascii_lowercase(language);
    let resolved: String = if (str_eq(norm.as_str(), "unknown") || norm.as_str().is_empty()) {
        let cs = crate::strutil::to_char_vec(file_path);
        match last_dot(&cs) {
            Some(i) => {
                let n = file_path.unicode_len();
                let ext = file_path.substring_char(i + 1, n);
                proof {
                    assert(ext@ =~= file_path@.skip(i + 1));
                }
                if str_eq(ext, "rs") {
                    "rust".to_owned()
                } else if str_eq(ext, "py") {
                    "python".to_owned()
                } else if str_eq(ext, "js") {
                    "javascript".to_owned()
                } else if str_eq(ext, "ts") {
                    "typescript".to_owned()
                } else {
                    norm
                }
            },
            None => norm,
        }
    } else {
        norm
    };
    proof {
        assert(resolved@ == spec_stdio_language(language@, file_path@));
    }
    if !languages::is_supported(resolved.as_str()) {
        return Err(StdioStartError::Unsupported(resolved));
    }
    if active.contains_language(resolved.as_str()) {
        return Ok(StdioStartPlan::AlreadyRunning(resolved));
    }
    let resolved_copy = resolved.clone();
    let _ = active.claim(resolved);
    Ok(StdioStartPlan::Start(resolved_copy))
}

fn last_dot(cs: &Vec<char>) -> (r: Option<usize>)
    ensures
        match r {
            Some(i) => spec_last_index(cs@, '.') == Some(i as int) && i < cs@.len(),
            None => spec_last_index(cs@, '.') is None,
        },
{
    let mut i: usize = cs.len();
    proof {
        assert(cs@.take(cs@.len() as int) =~= cs@);
    }
    while i > 0
        invariant
            i <= cs.len(),
            spec_last_index(cs@, '.') == spec_last_index(cs@.take(i as int), '.'),
        decreases i,
    {
        proof {
            assert(cs@.take(i as int).last() == cs@[i - 1]);
            assert(cs@.take(i as int).drop_last() =~= cs@.take(i - 1));
        }
        if cs[i - 1] == '.' {
            return Some(i - 1);
        }
        i -= 1;
    }
    proof {
        assert(cs@.take(0) =~= Seq::<char>::empty());
    }
    None
}

/// What a start request decided.
#[derive(Debug, PartialEq, Eq, Structural)]
pub enum StartDecision {
    /// The listener already runs; report success and start nothing.
    AlreadyRunning,
    /// Probe whether this port is free.
    Probe(u16),
}

/// What a port probe decided.
#[derive(Debug, PartialEq, Eq, Structural)]
pub enum ProbeOutcome {
    /// The port is occupied: another instance is assumed to own it; the
    /// lifecycle reports running without binding.
    AssumeRunning,
    /// Bind and serve on this port.
    Bind(u16),
}

/// What a failed serve attempt decided.
#[derive(Debug, PartialEq, Eq, Structural)]
pub enum RetryDecision {
    /// Try the next port.
    Retry(u16),
    /// All attempts exhausted: the lifecycle is marked not running.
    GiveUp,
}

/// How many serve attempts are made before giving up.
pub const MAX_BIND_ATTEMPTS: u8 = 5;

/// The socket listener's start/stop state.
pub struct GatewayLifecycle {
    running: bool,
    port: u16,
    attempts: u8,
}

impl GatewayLifecycle {
    pub closed spec fn spec_running(&self) -> bool {
        self.running
    }

    pub closed spec fn spec_port(&self) -> u16 {
        self.port
    }

    pub closed spec fn spec_attempts(&self) -> u8 {
        self.attempts
    }

    pub fn new() -> (r: Self)
        ensures
            !r.spec_running(),
            r.spec_attempts() == 0,
    {
        GatewayLifecycle { running: false, port: 0, attempts: 0 }
    }

    pub fn is_running(&self) -> (r: bool)
        ensures
            r == self.spec_running(),
    {
        self.running
    }

    /// A start request: when the listener already runs this is success
    /// with nothing to do — asking twice never creates a second listener —
    /// otherwise the requested port is to be probed.
    pub fn start_requested(&self, port: u16) -> (r: StartDecision)
        ensures
            self.spec_running() ==> r == StartDecision::AlreadyRunning,
            !self.spec_running() ==> r == StartDecision::Probe(port),
    {
        if self.running {
            StartDecision::AlreadyRunning
        } else {
            StartDecision::Probe(port)
        }
    }

    /// The probe's answer: an occupied port means another instance owns
    /// it, so the lifecycle reports running without binding; a free port
    /// is bound and served.
    pub fn on_probe(&mut self, port: u16, free: bool) -> (r: ProbeOutcome)
        ensures
            final(self).spec_running(),
            !free ==> r == ProbeOutcome::AssumeRunning,
            free ==> r == ProbeOutcome::Bind(port) && final(self).spec_port() == port
                && final(self).spec_attempts() == 1,
    {
        self.running = true;
        if !free {
            ProbeOutcome::AssumeRunning
        } else {
            self.port = port;
            self.attempts = 1;
            ProbeOutcome::Bind(port)
        }
    }

    /// A serve attempt failed: the next port is tried until the attempts
    /// are exhausted, at which point the lifecycle is marked not running.
    pub fn on_serve_failed(&mut self) -> (r: RetryDecision)
        ensures
            old(self).spec_attempts() < MAX_BIND_ATTEMPTS && old(self).spec_port()
                < 0xffff ==> r == RetryDecision::Retry((old(self).spec_port() + 1) as u16)
                && final(self).spec_running() == old(self).spec_running() && final(self).spec_attempts() == old(self).spec_attempts() + 1,
            (old(self).spec_attempts() >= MAX_BIND_ATTEMPTS || old(self).spec_port() == 0xffff)
                ==> r == RetryDecision::GiveUp && !final(self).spec_running(),
    {
        if self.attempts < MAX_BIND_ATTEMPTS && self.port < 0xffff {
            self.attempts = self.attempts + 1;
            self.port = self.port + 1;
            RetryDecision::Retry(self.port)
        } else {
            self.running = false;
            RetryDecision::GiveUp
        }
    }

    /// A stop request: stopping a stopped listener is a no-op; stopping a
    /// running one marks it stopped and reports that the clients must be
    /// closed.
    pub fn stop(&mut self) -> (r: bool)
        ensures
            !final(self).spec_running(),
            r == old(self).spec_running(),
    {
        let was = self.running;
        self.running = false;
        was
    }

    /// The application-exit hook: the same stop sequence, so no listener
    /// or child process survives shutdown.
    pub fn cleanup_on_exit(&mut self) -> (r: bool)
        ensures
            !final(self).spec_running(),
            r == old(self).spec_running(),
    {
        self.stop()
    }
}

} // verus!
