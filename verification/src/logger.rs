//! A buffering logger service.
//!
//! Entries above the configured level are dropped; accepted entries are
//! formatted and buffered, and the surrounding application drains and
//! writes them (prefixing wall-clock timestamps) since the library itself
//! performs no I/O.

use vstd::prelude::*;

verus! {

/// Message severity, most severe first.
#[derive(Debug, Clone, Copy, PartialEq, Eq, PartialOrd, Ord, Structural)]
pub enum LogLevel {
    Error,
    Warn,
    Info,
    Debug,
    Trace,
}

/// A level's position in the severity order: lower is more severe.
pub open spec fn spec_rank(l: LogLevel) -> nat {
    match l {
        LogLevel::Error => 0,
        LogLevel::Warn => 1,
        LogLevel::Info => 2,
        LogLevel::Debug => 3,
        LogLevel::Trace => 4,
    }
}

impl LogLevel {
    /// The fixed-width tag written in front of each entry.
    pub open spec fn spec_as_str(&self) -> Seq<char> {
        match self {
            LogLevel::Error => "ERROR"@,
            LogLevel::Warn => "WARN "@,
            LogLevel::Info => "INFO "@,
            LogLevel::Debug => "DEBUG"@,
            LogLevel::Trace => "TRACE"@,
        }
    }

    pub fn as_str(&self) -> (r: &'static str)
        ensures
            r@ == self.spec_as_str(),
    {
        match self {
            LogLevel::Error => "ERROR",
            LogLevel::Warn => "WARN ",
            LogLevel::Info => "INFO ",
            LogLevel::Debug => "DEBUG",
            LogLevel::Trace => "TRACE",
        }
    }

    fn rank(&self) -> (r: u8)
        ensures
            r as nat == spec_rank(*self),
    {
        match self {
            LogLevel::Error => 0,
            LogLevel::Warn => 1,
            LogLevel::Info => 2,
            LogLevel::Debug => 3,
            LogLevel::Trace => 4,
        }
    }
}

/// The text of one log entry.
pub open spec fn spec_entry(level: LogLevel, component: Seq<char>, message: Seq<char>) -> Seq<
    char,
> {
    "["@ + level.spec_as_str() + "] ["@ + component + "]: "@ + message
}

/// A logger: a level threshold, the file the application writes to, and
/// the buffered entries.
pub struct Logger {
    level: LogLevel,
    file_path: Option<String>,
    entries: Vec<String>,
}

/// The views of the buffered entries.
pub open spec fn spec_entry_views(v: Seq<String>) -> Seq<Seq<char>> {
    v.map_values(|s: String| s@)
}

/// Creates a logger writing to the given file at the given level.
pub fn init(log_file_path: &str, level: LogLevel) -> (r: Logger)
    ensures
        r.spec_level() == level,
        r.spec_file_path() matches Some(p) && p == log_file_path@,
        r.spec_entries().len() == 0,
{
    Logger { level, file_path: Some(log_file_path.to_owned()), entries: Vec::new() }
}

impl Logger {
    pub closed spec fn spec_level(&self) -> LogLevel {
        self.level
    }

    pub closed spec fn spec_file_path(&self) -> Option<Seq<char>> {
        match self.file_path {
            Some(p) => Some(p@),
            None => None,
        }
    }

    pub closed spec fn spec_entries(&self) -> Seq<Seq<char>> {
        spec_entry_views(self.entries@)
    }

    /// Whether the logger accepts entries at all.
    pub fn is_available(&self) -> (r: bool)
        ensures
            r,
    {
        true
    }

    /// Drops the configured file and resets the level.
    pub fn reset(&mut self)
        ensures
            final(self).spec_level() == LogLevel::Info,
            final(self).spec_file_path() is None,
            final(self).spec_entries() == old(self).spec_entries(),
    {
        self.level = LogLevel::Info;
        self.file_path = None;
    }

    /// Buffers one entry when its level passes the threshold.
    pub fn log(&mut self, level: LogLevel, component: &str, message: &str)
        ensures
            final(self).spec_level() == old(self).spec_level(),
            final(self).spec_file_path() == old(self).spec_file_path(),
            spec_rank(level) <= spec_rank(old(self).spec_level()) ==> final(self).spec_entries()
                == old(self).spec_entries().push(spec_entry(level, component@, message@)),
            spec_rank(level) > spec_rank(old(self).spec_level()) ==> final(self).spec_entries()
                == old(self).spec_entries(),
    {
        if level.rank() > self.level.rank() {
            return ;
        }
        let mut entry = "[".to_owned();
        entry.append(level.as_str());
        entry.append("] [");
        entry.append(component);
        entry.append("]: ");
        entry.append(message);
        proof {
            assert(entry@ =~= spec_entry(level, component@, message@));
        }
        let ghost before = self.entries@;
        self.entries.push(entry);
        proof {
            assert(spec_entry_views(self.entries@) =~= spec_entry_views(before).push(
                spec_entry(level, component@, message@),
            ));
        }
    }

    pub fn error(&mut self, component: &str, message: &str)
        ensures
            final(self).spec_level() == old(self).spec_level(),
            final(self).spec_file_path() == old(self).spec_file_path(),
            final(self).spec_entries() == old(self).spec_entries().push(
                spec_entry(LogLevel::Error, component@, message@),
            ),
    {
        self.log(LogLevel::Error, component, message);
    }

    pub fn warn(&mut self, component: &str, message: &str)
        ensures
            final(self).spec_level() == old(self).spec_level(),
            final(self).spec_file_path() == old(self).spec_file_path(),
            spec_rank(LogLevel::Warn) <= spec_rank(old(self).spec_level()) ==> final(self).spec_entries() == old(self).spec_entries().push(
                spec_entry(LogLevel::Warn, component@, message@),
            ),
            spec_rank(LogLevel::Warn) > spec_rank(old(self).spec_level()) ==> final(self).spec_entries() == old(self).spec_entries(),
    {
        self.log(LogLevel::Warn, component, message);
    }

    pub fn info(&mut self, component: &str, message: &str)
        ensures
            final(self).spec_level() == old(self).spec_level(),
            final(self).spec_file_path() == old(self).spec_file_path(),
            spec_rank(LogLevel::Info) <= spec_rank(old(self).spec_level()) ==> final(self).spec_entries() == old(self).spec_entries().push(
                spec_entry(LogLevel::Info, component@, message@),
            ),
            spec_rank(LogLevel::Info) > spec_rank(old(self).spec_level()) ==> final(self).spec_entries() == old(self).spec_entries(),
    {
        self.log(LogLevel::Info, component, message);
    }

    pub fn debug(&mut self, component: &str, message: &str)
        ensures
            final(self).spec_level() == old(self).spec_level(),
            final(self).spec_file_path() == old(self).spec_file_path(),
            spec_rank(LogLevel::Debug) <= spec_rank(old(self).spec_level()) ==> final(self).spec_entries() == old(self).spec_entries().push(
                spec_entry(LogLevel::Debug, component@, message@),
            ),
            spec_rank(LogLevel::Debug) > spec_rank(old(self).spec_level()) ==> final(self).spec_entries() == old(self).spec_entries(),
    {
        self.log(LogLevel::Debug, component, message);
    }

    pub fn trace(&mut self, component: &str, message: &str)
        ensures
            final(self).spec_level() == old(self).spec_level(),
            final(self).spec_file_path() == old(self).spec_file_path(),
            spec_rank(LogLevel::Trace) <= spec_rank(old(self).spec_level()) ==> final(self).spec_entries() == old(self).spec_entries().push(
                spec_entry(LogLevel::Trace, component@, message@),
            ),
            spec_rank(LogLevel::Trace) > spec_rank(old(self).spec_level()) ==> final(self).spec_entries() == old(self).spec_entries(),
    {
        self.log(LogLevel::Trace, component, message);
    }

    /// Hands the buffered entries to the application for writing.
    pub fn drain(&mut self) -> (r: Vec<String>)
        ensures
            final(self).spec_level() == old(self).spec_level(),
            final(self).spec_file_path() == old(self).spec_file_path(),
            final(self).spec_entries().len() == 0,
            spec_entry_views(r@) == old(self).spec_entries(),
    {
        let mut out: Vec<String> = Vec::new();
        std::mem::swap(&mut out, &mut self.entries);
        proof {
            assert(spec_entry_views(Seq::<String>::empty()) =~= Seq::<Seq<char>>::empty());
        }
        out
    }
}

/// Records a gateway event at informational level.
pub fn log(logger: &mut Logger, component: &str, message: &str)
    ensures
        final(logger).spec_level() == old(logger).spec_level(),
        spec_rank(LogLevel::Info) <= spec_rank(old(logger).spec_level()) ==> final(logger).spec_entries() == old(logger).spec_entries().push(
            spec_entry(LogLevel::Info, component@, message@),
        ),
        spec_rank(LogLevel::Info) > spec_rank(old(logger).spec_level()) ==> final(logger).spec_entries() == old(logger).spec_entries(),
{
    logger.info(component, message);
}

/// Records a gateway failure.
pub fn log_error(logger: &mut Logger, component: &str, message: &str)
    ensures
        final(logger).spec_level() == old(logger).spec_level(),
        final(logger).spec_entries() == old(logger).spec_entries().push(
            spec_entry(LogLevel::Error, component@, message@),
        ),
{
    logger.error(component, message);
}

} // verus!
