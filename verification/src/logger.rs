//! Configuration of the process-wide logger.
//!
//! The builder only collects the settings; opening the log file and
//! installing the logger is left to the program that links this library.

use vstd::prelude::*;

verus! {

/// `log::LevelFilter`, carried through as an opaque value.
#[verifier::external_type_specification]
#[verifier::external_body]
pub struct ExLevelFilter(log::LevelFilter);

/// A builder type to easily configure the logger.
pub struct Builder<'a> {
    lvl: log::LevelFilter,
    logfile: Option<&'a str>,
    stdout: bool,
}

/// Returns a builder for a logger that passes records up to `lvl`, writes to
/// stdout and has no log file.
pub fn with_loglevel(lvl: log::LevelFilter) -> (b: Builder<'static>)
    ensures
        b.level() == lvl,
        b.logfile() is None,
        b.stdout(),
{
    Builder { lvl: lvl, logfile: None, stdout: true }
}

impl<'a> Builder<'a> {
    /// The most verbose level that the logger lets through.
    pub closed spec fn level(&self) -> log::LevelFilter {
        self.lvl
    }

    /// The path of the file that records are appended to, if any.
    pub closed spec fn logfile(&self) -> Option<&'a str> {
        self.logfile
    }

    /// Whether records are printed to stdout.
    pub closed spec fn stdout(&self) -> bool {
        self.stdout
    }

    /// Enables logging into the given file; level and stdout setting stay.
    pub fn with_logfile<'b>(self, path: &'b str) -> (b: Builder<'b>)
        ensures
            b.level() == self.level(),
            b.logfile() == Some(path),
            b.stdout() == self.stdout(),
    {
        Builder { lvl: self.lvl, logfile: Some(path), stdout: self.stdout }
    }

    /// Disables logging to stdout (which is enabled by default); level and
    /// log file stay.
    pub fn without_stdout(self) -> (b: Builder<'a>)
        ensures
            b.level() == self.level(),
            b.logfile() == self.logfile(),
            !b.stdout(),
    {
        Builder { lvl: self.lvl, logfile: self.logfile, stdout: false }
    }

    /// The settings collected so far: level, log file, stdout flag.
    pub fn into_parts(self) -> (parts: (log::LevelFilter, Option<&'a str>, bool))
        ensures
            parts.0 == self.level(),
            parts.1 == self.logfile(),
            parts.2 == self.stdout(),
    {
        (self.lvl, self.logfile, self.stdout)
    }
}

/// Whether two colons stand at place `i` of `s`.
pub open spec fn colons_at(s: Seq<u8>, i: int) -> bool {
    0 <= i && i + 1 < s.len() && s[i] == 0x3a && s[i + 1] == 0x3a
}

/// The place in the target of a log record where its module path starts: the
/// first place where two colons stand, which is where the name of the crate
/// ends. A target without them has no module path.
pub fn module_path_start(target: &[u8]) -> (r: Option<usize>)
    ensures
        match r {
            Some(i) => colons_at(target@, i as int) && forall|j: int|
                0 <= j < i ==> !colons_at(target@, j),
            None => forall|j: int| !colons_at(target@, j),
        },
{
    if target.len() < 2 {
        return None;
    }
    let mut i: usize = 0;
    while i < target.len() - 1
        invariant
            target@.len() >= 2,
            i <= target@.len() - 1,
            forall|j: int| 0 <= j < i ==> !colons_at(target@, j),
        decreases target@.len() - i,
    {
        if target[i] == 0x3a && target[i + 1] == 0x3a {
            return Some(i);
        }
        i = i + 1;
    }
    None
}

} // verus!
