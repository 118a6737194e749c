use vstd::prelude::*;

verus! {

/// Severity of a log message; a lower rank is more severe.
#[derive(Clone, Copy, Debug, PartialEq, Eq, Structural)]
pub enum LogLevel {
    Error,
    Warn,
    Info,
    Debug,
}

impl LogLevel {
    pub open spec fn spec_rank(self) -> nat {
        match self {
            LogLevel::Error => 0,
            LogLevel::Warn => 1,
            LogLevel::Info => 2,
            LogLevel::Debug => 3,
        }
    }

    /// Rank of the level: `Error` is 0, `Debug` is 3.
    pub fn rank(self) -> (r: u8)
        ensures
            r as nat == self.spec_rank(),
    {
        match self {
            LogLevel::Error => 0,
            LogLevel::Warn => 1,
            LogLevel::Info => 2,
            LogLevel::Debug => 3,
        }
    }

    pub open spec fn spec_label(self) -> Seq<char> {
        match self {
            LogLevel::Error => "ERROR"@,
            LogLevel::Warn => "WARN"@,
            LogLevel::Info => "INFO"@,
            LogLevel::Debug => "DEBUG"@,
        }
    }

    /// Upper-case label printed in front of a message of this level.
    pub fn label(self) -> (r: &'static str)
        ensures
            r@ == self.spec_label(),
    {
        match self {
            LogLevel::Error => "ERROR",
            LogLevel::Warn => "WARN",
            LogLevel::Info => "INFO",
            LogLevel::Debug => "DEBUG",
        }
    }
}

/// A leveled sink: messages more verbose than the configured level are dropped.
pub struct Logger {
    log_level: LogLevel,
}

impl Logger {
    pub closed spec fn spec_level(&self) -> LogLevel {
        self.log_level
    }

    pub fn new(log_level: LogLevel) -> (r: Logger)
        ensures
            r.spec_level() == log_level,
    {
        Logger { log_level }
    }

    pub fn set_log_level(&mut self, log_level: LogLevel)
        ensures
            final(self).spec_level() == log_level,
    {
        self.log_level = log_level;
    }

    pub fn level(&self) -> (r: LogLevel)
        ensures
            r == self.spec_level(),
    {
        self.log_level
    }

    /// Whether a message of `log_level` passes the configured threshold.
    pub fn accepts(&self, log_level: LogLevel) -> (r: bool)
        ensures
            r == (log_level.spec_rank() <= self.spec_level().spec_rank()),
    {
        log_level.rank() <= self.log_level.rank()
    }

    /// The line to print for `msg` at `log_level` ("[LEVEL] msg"), or `None`
    /// where the level is filtered out.
    pub fn render(&self, msg: &str, log_level: LogLevel) -> (r: Option<String>)
        ensures
            r.is_some() == (log_level.spec_rank() <= self.spec_level().spec_rank()),
            r matches Some(line) ==> line@ == seq!['['] + log_level.spec_label() + "] "@ + msg@,
    {
        if !self.accepts(log_level) {
            return None;
        }
        let mut line = String::from_str("[");
        line.append(log_level.label());
        line.append("] ");
        line.append(msg);
        proof {
            reveal_strlit("[");
        }
        Some(line)
    }
}

} // verus!
