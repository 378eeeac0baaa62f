//! Observability as plain values: a verbosity switch passed explicitly,
//! and a mapping from level names to numeric levels.

use std::io::Write;

use vstd::prelude::*;

use crate::textbuf::str_eq_str;

verus! {

/// A logging context handed to callers explicitly: messages are emitted
/// only while it is verbose.
#[derive(Debug, Clone, Copy, PartialEq, Eq, Structural)]
pub struct LoggerState {
    pub is_verbose: bool,
}

impl LoggerState {
    pub fn new(is_verbose: bool) -> (s: LoggerState)
        ensures
            s.is_verbose == is_verbose,
    {
        LoggerState { is_verbose }
    }

    pub fn set_verbose(&mut self, is_verbose: bool)
        ensures
            final(self).is_verbose == is_verbose,
    {
        self.is_verbose = is_verbose;
    }

    /// Emits the message when verbose; otherwise does nothing.
    pub fn log(&self, message: &str) {
        if self.is_verbose {
            emit_line(message);
        }
    }
}

/// Relies on `writeln!` to standard output: the one observable side
/// effect of logging.
#[verifier::external_body]
fn emit_line(message: &str) {
    let _ = writeln!(std::io::stdout(), "{}", message);
}

/// The numeric level of a log-level name: trace 0 through critical 5,
/// anything unrecognized meaning info.
pub open spec fn spec_level(level: Seq<char>) -> u8 {
    if level == "TRACE"@ || level == "trace"@ || level == "t"@ {
        0
    } else if level == "DEBUG"@ || level == "debug"@ || level == "d"@ {
        1
    } else if level == "INFO"@ || level == "info"@ || level == "i"@ {
        2
    } else if level == "WARNING"@ || level == "warning"@ || level == "w"@ {
        3
    } else if level == "ERROR"@ || level == "error"@ || level == "e"@ {
        4
    } else if level == "CRITICAL"@ || level == "critical"@ || level == "c"@ {
        5
    } else {
        2
    }
}

/// Maps a log-level name to its numeric level.
pub fn set_verbose(level: String) -> (r: u8)
    ensures
        r == spec_level(level@),
{
    let s = level.as_str();
    if str_eq_str(s, "TRACE") || str_eq_str(s, "trace") || str_eq_str(s, "t") {
        0
    } else if str_eq_str(s, "DEBUG") || str_eq_str(s, "debug") || str_eq_str(s, "d") {
        1
    } else if str_eq_str(s, "INFO") || str_eq_str(s, "info") || str_eq_str(s, "i") {
        2
    } else if str_eq_str(s, "WARNING") || str_eq_str(s, "warning") || str_eq_str(s, "w") {
        3
    } else if str_eq_str(s, "ERROR") || str_eq_str(s, "error") || str_eq_str(s, "e") {
        4
    } else if str_eq_str(s, "CRITICAL") || str_eq_str(s, "critical") || str_eq_str(s, "c") {
        5
    } else {
        2
    }
}

} // verus!
