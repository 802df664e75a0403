//! ffmpeg's log levels.
use vstd::prelude::*;

verus! {

/// The levels of ffmpeg's log, from quietest to most verbose.
#[derive(Debug, Copy, Clone, PartialEq, Eq, Hash, Structural)]
pub enum LogLevel {
    Quiet,
    Panic,
    Fatal,
    Error,
    Warning,
    Info,
    Verbose,
    Debug,
    Trace,
}

/// The number ffmpeg gives a level.
pub open spec fn level_value(l: LogLevel) -> i32 {
    match l {
        LogLevel::Quiet => -8i32,
        LogLevel::Panic => 0,
        LogLevel::Fatal => 8,
        LogLevel::Error => 16,
        LogLevel::Warning => 24,
        LogLevel::Info => 32,
        LogLevel::Verbose => 40,
        LogLevel::Debug => 48,
        LogLevel::Trace => 56,
    }
}

/// Whether `v` is the number of some level.
pub open spec fn is_level_value(v: i32) -> bool {
    v == -8 || v == 0 || v == 8 || v == 16 || v == 24 || v == 32 || v == 40 || v == 48 || v == 56
}

impl LogLevel {
    /// The level with the number `value`; an unknown number is `Info`.
    pub fn from_i32(value: i32) -> (l: LogLevel)
        ensures
            is_level_value(value) ==> level_value(l) == value,
            !is_level_value(value) ==> l == LogLevel::Info,
    {
        match value {
            -8 => LogLevel::Quiet,
            0 => LogLevel::Panic,
            8 => LogLevel::Fatal,
            16 => LogLevel::Error,
            24 => LogLevel::Warning,
            32 => LogLevel::Info,
            40 => LogLevel::Verbose,
            48 => LogLevel::Debug,
            56 => LogLevel::Trace,
            _ => LogLevel::Info,
        }
    }

    /// The number ffmpeg gives the level.
    pub fn to_i32(self) -> (v: i32)
        ensures
            v == level_value(self),
    {
        match self {
            LogLevel::Quiet => -8,
            LogLevel::Panic => 0,
            LogLevel::Fatal => 8,
            LogLevel::Error => 16,
            LogLevel::Warning => 24,
            LogLevel::Info => 32,
            LogLevel::Verbose => 40,
            LogLevel::Debug => 48,
            LogLevel::Trace => 56,
        }
    }

    /// The lower-case name of the level.
    pub fn as_str(self) -> (s: &'static str)
        ensures
            s@ == match self {
                LogLevel::Quiet => "quiet"@,
                LogLevel::Panic => "panic"@,
                LogLevel::Fatal => "fatal"@,
                LogLevel::Error => "error"@,
                LogLevel::Warning => "warning"@,
                LogLevel::Info => "info"@,
                LogLevel::Verbose => "verbose"@,
                LogLevel::Debug => "debug"@,
                LogLevel::Trace => "trace"@,
            },
    {
        match self {
            LogLevel::Quiet => "quiet",
            LogLevel::Panic => "panic",
            LogLevel::Fatal => "fatal",
            LogLevel::Error => "error",
            LogLevel::Warning => "warning",
            LogLevel::Info => "info",
            LogLevel::Verbose => "verbose",
            LogLevel::Debug => "debug",
            LogLevel::Trace => "trace",
        }
    }
}

/// Every level's number is a level number, and it names that level alone,
/// so `from_i32` gives back the level whose number it is given.
pub proof fn lemma_level_roundtrip(l: LogLevel, k: LogLevel)
    ensures
        is_level_value(level_value(l)),
        level_value(l) == level_value(k) ==> l == k,
{
}

} // verus!
