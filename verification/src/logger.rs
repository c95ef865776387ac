//! Which log records the bot writes, and where.
use vstd::prelude::*;
use crate::text::{chars_of, lemma_affixes, occurs_at_index, starts_with};

verus! {

/// The severity of a log record, from most to least severe.
#[derive(Clone, Copy, PartialEq, Eq, Structural, Debug)]
pub enum LogLevel {
    Error,
    Warn,
    Info,
    Debug,
    Trace,
}

/// The verbosity rank of a level: `Error` is 1, `Trace` is 5.
pub open spec fn rank(level: LogLevel) -> int {
    match level {
        LogLevel::Error => 1,
        LogLevel::Warn => 2,
        LogLevel::Info => 3,
        LogLevel::Debug => 4,
        LogLevel::Trace => 5,
    }
}

/// The most verbose level written for the bot's own modules.
pub const LOG_LEVEL: LogLevel = LogLevel::Debug;

/// Records from the program's own modules (those whose path starts with
/// `program`, the program's crate name) are written up to [`LOG_LEVEL`];
/// from other modules only errors and warnings.
pub open spec fn allowed(program: Seq<char>, module: Seq<char>, level: LogLevel) -> bool {
    if starts_with(module, program) {
        rank(level) <= rank(LOG_LEVEL)
    } else {
        level == LogLevel::Error || level == LogLevel::Warn
    }
}

/// What to do with one log record.
#[derive(PartialEq, Eq, Structural, Debug)]
pub enum LogPlan {
    /// Drop the record.
    Skip,
    /// Write the record; first a date separator if the day changed, and to
    /// standard error for errors and warnings.
    Write { separator: bool, to_stderr: bool },
}

/// The bot's logger.
pub struct Logger;

impl Logger {
    /// Records from the program's own modules (`program` is its crate name)
    /// are written up to `LOG_LEVEL`; from other modules only errors and
    /// warnings.
    pub fn can_log(program: &str, module: &str, level: LogLevel) -> (r: bool)
        ensures
            r == allowed(program@, module@, level),
    {
        let m = chars_of(module);
        let p = chars_of(program);
        if occurs_at_index(&m, &p, 0) {
            return match level {
                LogLevel::Trace => false,
                _ => true,
            };
        }
        level == LogLevel::Error || level == LogLevel::Warn
    }

    /// Decides about one record from `module` at `level` in the program
    /// whose crate name is `program`.
    /// `days_since_marker` is the number of whole days since the last date
    /// separator, or `None` when that date could not be read.
    pub fn plan(program: &str, module: &str, level: LogLevel, days_since_marker: Option<i64>) -> (r:
        LogPlan)
        ensures
            !allowed(program@, module@, level) ==> r == LogPlan::Skip,
            allowed(program@, module@, level) ==> r == (LogPlan::Write {
                separator: days_since_marker != Some(0i64),
                to_stderr: level == LogLevel::Error || level == LogLevel::Warn,
            }),
    {
        if !Self::can_log(program, module, level) {
            return LogPlan::Skip;
        }
        let separator = match days_since_marker {
            Some(d) => d != 0,
            None => true,
        };
        LogPlan::Write {
            separator,
            to_stderr: level == LogLevel::Error || level == LogLevel::Warn,
        }
    }
}

/// Law: trace records are never written, from any module.
pub proof fn lemma_trace_never_written(program: Seq<char>, module: Seq<char>)
    ensures
        !allowed(program, module, LogLevel::Trace),
{
}

/// Law: errors and warnings are written from every module.
pub proof fn lemma_errors_always_written(program: Seq<char>, module: Seq<char>)
    ensures
        allowed(program, module, LogLevel::Error),
        allowed(program, module, LogLevel::Warn),
{
}

/// Law: records at the informational and debug levels are written exactly
/// when they come from the program's own modules, those whose path begins
/// with the program's crate name.
pub proof fn lemma_verbose_levels_only_for_own_modules(program: Seq<char>, module: Seq<char>)
    ensures
        (program.len() <= module.len() && module.take(program.len() as int) == program) ==> (
        allowed(program, module, LogLevel::Info) && allowed(program, module, LogLevel::Debug)),
        !(program.len() <= module.len() && module.take(program.len() as int) == program) ==> (
        !allowed(program, module, LogLevel::Info) && !allowed(program, module, LogLevel::Debug)),
{
    lemma_affixes(module, program);
}

} // verus!
