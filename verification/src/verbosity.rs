//! How much the program says: which records of the run are written, and
//! how a record reads.

use vstd::prelude::*;
use vstd::string::StringExecFns;

verus! {

/// The weight of a record, from the gravest to the slightest.
#[derive(Debug, Clone, Copy, PartialEq, Eq)]
pub enum Level {
    Error,
    Warn,
    Info,
    Debug,
    Trace,
}

impl Level {
    /// The rank of the level: the graver, the lower.
    pub open spec fn rank(self) -> nat {
        match self {
            Level::Error => 1,
            Level::Warn => 2,
            Level::Info => 3,
            Level::Debug => 4,
            Level::Trace => 5,
        }
    }

    /// The name of the level, as it stands before a record.
    pub open spec fn name(self) -> Seq<char> {
        match self {
            Level::Error => "ERROR"@,
            Level::Warn => "WARN"@,
            Level::Info => "INFO"@,
            Level::Debug => "DEBUG"@,
            Level::Trace => "TRACE"@,
        }
    }

    /// Whether records of this level are written when records up to
    /// `threshold` are.
    pub open spec fn within(self, threshold: Level) -> bool {
        self.rank() <= threshold.rank()
    }
}

/// The slightest level that is written: warnings only for a silent run,
/// else details for a verbose run, else everything for a debugging run,
/// else what the run did.
pub open spec fn threshold_of(silent: bool, verbose: bool, debug: bool) -> Level {
    if silent {
        Level::Warn
    } else if verbose {
        Level::Debug
    } else if debug {
        Level::Trace
    } else {
        Level::Info
    }
}

/// The slightest level that is written, by the switches given.
pub fn threshold(silent: bool, verbose: bool, debug: bool) -> (level: Level)
    ensures
        level == threshold_of(silent, verbose, debug),
{
    if silent {
        Level::Warn
    } else if verbose {
        Level::Debug
    } else if debug {
        Level::Trace
    } else {
        Level::Info
    }
}

/// Whether what a rule matched is fetched and shown: where details are
/// written.
pub fn shows_matches(threshold: Level) -> (shown: bool)
    ensures
        shown == Level::Debug.within(threshold),
{
    match threshold {
        Level::Debug => true,
        Level::Trace => true,
        _ => false,
    }
}

/// A record as it is written: what the run did and its details stand
/// alone, every other record has its level before it.
pub open spec fn record_text(level: Level, message: Seq<char>) -> Seq<char> {
    if level is Info || level is Debug {
        message
    } else {
        level.name() + ": "@ + message
    }
}

/// A record as it is written.
pub fn format_record(level: Level, message: &str) -> (text: String)
    ensures
        text@ == record_text(level, message@),
{
    match level {
        Level::Info => String::from_str(message),
        Level::Debug => String::from_str(message),
        Level::Error => {
            let mut text = String::from_str("ERROR");
            text.append(": ");
            text.append(message);
            text
        },
        Level::Warn => {
            let mut text = String::from_str("WARN");
            text.append(": ");
            text.append(message);
            text
        },
        Level::Trace => {
            let mut text = String::from_str("TRACE");
            text.append(": ");
            text.append(message);
            text
        },
    }
}

} // verus!
