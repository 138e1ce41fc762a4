//! The command-line options that steer a run, and the decisions taken from
//! them.

use vstd::prelude::*;

verus! {

/// Color mode configuration for output.
#[derive(Debug, Clone, Copy, PartialEq, Eq, Structural)]
pub enum ColorMode {
    /// Always use colors.
    Always,
    /// Never use colors.
    Never,
    /// Use colors if the output is a terminal, otherwise don't use colors.
    Auto,
}

/// Log level for diagnostic output.
#[derive(Debug, Clone, Copy, PartialEq, Eq, Structural)]
pub enum LogLevel {
    /// No logging output (`none` on the command line).
    Off,
    /// Only error messages.
    Error,
    /// Warning and error messages.
    Warn,
    /// Info, warning, and error messages.
    Info,
    /// Debug, info, warning, and error messages.
    Debug,
    /// Trace, debug, info, warning, and error messages.
    Trace,
}

/// Individual sections that can be shown in console output.
#[derive(Debug, Clone, Copy, PartialEq, Eq, Structural)]
pub enum ConsoleSection {
    /// Show the appraisal risk level.
    Appraisal,
    /// Show the reasons to justify the appraisal.
    Reasons,
    /// Show individual metrics.
    Metrics,
}

/// The kinds of dependencies that can be appraised.
#[derive(Debug, Clone, Copy, PartialEq, Eq, Structural)]
pub enum DependencyType {
    /// Regular production dependencies.
    Standard,
    /// Development-only dependencies.
    Dev,
    /// Build-only dependencies.
    Build,
}

/// Whether output is colored: always, never, or when it goes to a terminal.
pub fn use_colors(mode: ColorMode, is_terminal: bool) -> (r: bool)
    ensures
        r == match mode {
            ColorMode::Always => true,
            ColorMode::Never => false,
            ColorMode::Auto => is_terminal,
        },
{
    match mode {
        ColorMode::Always => true,
        ColorMode::Never => false,
        ColorMode::Auto => is_terminal,
    }
}

/// The logger filter for a level; no logger at all for `Off`.
pub open spec fn level_filter(level: LogLevel) -> Option<Seq<char>> {
    match level {
        LogLevel::Off => None,
        LogLevel::Error => Some(seq!['e', 'r', 'r', 'o', 'r']),
        LogLevel::Warn => Some(seq!['w', 'a', 'r', 'n']),
        LogLevel::Info => Some(seq!['i', 'n', 'f', 'o']),
        LogLevel::Debug => Some(seq!['d', 'e', 'b', 'u', 'g']),
        LogLevel::Trace => Some(seq!['t', 'r', 'a', 'c', 'e']),
    }
}

/// The logger filter for a level; nothing when nothing is logged.
pub fn log_filter(level: LogLevel) -> (r: Option<&'static str>)
    ensures
        match (r, level_filter(level)) {
            (Some(s), Some(t)) => s@ == t,
            (None, None) => true,
            _ => false,
        },
{
    match level {
        LogLevel::Off => None,
        LogLevel::Error => {
            proof { reveal_strlit("error"); assert("error"@ =~= seq!['e', 'r', 'r', 'o', 'r']); }
            Some("error")
        },
        LogLevel::Warn => {
            proof { reveal_strlit("warn"); assert("warn"@ =~= seq!['w', 'a', 'r', 'n']); }
            Some("warn")
        },
        LogLevel::Info => {
            proof { reveal_strlit("info"); assert("info"@ =~= seq!['i', 'n', 'f', 'o']); }
            Some("info")
        },
        LogLevel::Debug => {
            proof { reveal_strlit("debug"); assert("debug"@ =~= seq!['d', 'e', 'b', 'u', 'g']); }
            Some("debug")
        },
        LogLevel::Trace => {
            proof { reveal_strlit("trace"); assert("trace"@ =~= seq!['t', 'r', 'a', 'c', 'e']); }
            Some("trace")
        },
    }
}

/// Whether log lines show their target: at the debug and trace levels.
pub fn log_shows_target(level: LogLevel) -> (r: bool)
    ensures
        r == (level == LogLevel::Debug || level == LogLevel::Trace),
{
    match level {
        LogLevel::Debug | LogLevel::Trace => true,
        _ => false,
    }
}

/// How long the progress display waits before it shows, in milliseconds:
/// a short moment when nothing is logged, otherwise a year (in effect never,
/// so that it does not mix with log lines).
pub fn progress_delay_millis(level: LogLevel) -> (r: u64)
    ensures
        r == if level == LogLevel::Off { 300 } else { 365 * 24 * 3600 * 1000 },
{
    if level == LogLevel::Off {
        300
    } else {
        365 * 24 * 3600 * 1000
    }
}

/// Which sections the console report shows.
#[derive(Debug, Clone, Copy, PartialEq, Eq, Structural)]
pub struct ConsoleOutputMode {
    pub appraisal: bool,
    pub reasons: bool,
    pub metrics: bool,
}

/// Whether `s` is among `sections`.
fn has_section(sections: &[ConsoleSection], s: ConsoleSection) -> (r: bool)
    ensures
        r == sections@.contains(s),
{
    let mut i: usize = 0;
    while i < sections.len()
        invariant
            i <= sections@.len(),
            forall|k: int| 0 <= k < i ==> sections@[k] != s,
        decreases sections@.len() - i,
    {
        if sections[i] == s {
            assert(sections@[i as int] == s);
            return true;
        }
        i = i + 1;
    }
    false
}

/// The console sections shown: those named.
pub fn console_output_mode(sections: &[ConsoleSection]) -> (r: ConsoleOutputMode)
    ensures
        r.appraisal == sections@.contains(ConsoleSection::Appraisal),
        r.reasons == sections@.contains(ConsoleSection::Reasons),
        r.metrics == sections@.contains(ConsoleSection::Metrics),
{
    ConsoleOutputMode {
        appraisal: has_section(sections, ConsoleSection::Appraisal),
        reasons: has_section(sections, ConsoleSection::Reasons),
        metrics: has_section(sections, ConsoleSection::Metrics),
    }
}

/// Whether dependencies of kind `t` are appraised: when no kinds are given,
/// when the list is empty, or when it names `t`.
pub fn should_process(types: Option<&[DependencyType]>, t: DependencyType) -> (r: bool)
    ensures
        r == match types {
            None => true,
            Some(ts) => ts@.len() == 0 || ts@.contains(t),
        },
{
    match types {
        None => true,
        Some(ts) => {
            let mut i: usize = 0;
            while i < ts.len()
                invariant
                    i <= ts@.len(),
                    types == Some(ts),
                    forall|k: int| 0 <= k < i ==> ts@[k] != t,
                decreases ts@.len() - i,
            {
                if ts[i] == t {
                    assert(ts@[i as int] == t);
                    return true;
                }
                i = i + 1;
            }
            ts.len() == 0
        },
    }
}

} // verus!
