//! Log lines and the rule that decides which of them are shown.
//!
//! A logger holds the least severity that it shows. The severity can be set
//! once; a logger that was asked before anything was set shows `Info` and
//! up from then on.

use vstd::prelude::*;
use vstd::string::*;

verus! {

/// A colour of the terminal.
#[derive(Clone, Copy, Debug, PartialEq, Eq, Structural)]
pub enum LogColor {
    BrightBlue,
    BrightGreen,
    BrightRed,
    BrightYellow,
    Blue,
    Green,
    Red,
    Yellow,
    White,
    Grey,
}

impl LogColor {
    /// The escape sequence that switches the terminal to this colour.
    pub open spec fn code(self) -> Seq<char> {
        match self {
            LogColor::Green => "\x1b[32m"@,
            LogColor::BrightGreen => "\x1b[32;1m"@,
            LogColor::Blue => "\x1b[34m"@,
            LogColor::BrightBlue => "\x1b[34;1m"@,
            LogColor::Yellow => "\x1b[33m"@,
            LogColor::BrightYellow => "\x1b[33;1m"@,
            LogColor::Red => "\x1b[31m"@,
            LogColor::BrightRed => "\x1b[31;1m"@,
            LogColor::White => "\x1b[37;0m"@,
            LogColor::Grey => "\x1b[37;2m"@,
        }
    }

    /// The escape sequence that switches the terminal to this colour.
    pub fn as_str(&self) -> (code: &'static str)
        ensures
            code@ == self.code(),
    {
        match self {
            LogColor::Green => "\x1b[32m",
            LogColor::BrightGreen => "\x1b[32;1m",
            LogColor::Blue => "\x1b[34m",
            LogColor::BrightBlue => "\x1b[34;1m",
            LogColor::Yellow => "\x1b[33m",
            LogColor::BrightYellow => "\x1b[33;1m",
            LogColor::Red => "\x1b[31m",
            LogColor::BrightRed => "\x1b[31;1m",
            LogColor::White => "\x1b[37;0m",
            LogColor::Grey => "\x1b[37;2m",
        }
    }

    /// The escape sequence that switches the terminal to this colour.
    pub fn to_string(&self) -> (code: String)
        ensures
            code@ == self.code(),
    {
        String::from_str(self.as_str())
    }
}

/// How much a log line matters, from the least to the most.
#[derive(Clone, Copy, Debug, PartialEq, Eq, Structural)]
pub enum LogSeverity {
    Debug,
    Info,
    Warning,
    Error,
}

impl LogSeverity {
    /// The place of this severity in the order from `Debug` to `Error`.
    pub open spec fn rank(self) -> nat {
        match self {
            LogSeverity::Debug => 0,
            LogSeverity::Info => 1,
            LogSeverity::Warning => 2,
            LogSeverity::Error => 3,
        }
    }

    /// The colour of this severity.
    pub open spec fn color(self) -> LogColor {
        match self {
            LogSeverity::Debug => LogColor::BrightGreen,
            LogSeverity::Info => LogColor::BrightBlue,
            LogSeverity::Warning => LogColor::BrightYellow,
            LogSeverity::Error => LogColor::BrightRed,
        }
    }

    /// The name of this severity.
    pub open spec fn name(self) -> Seq<char> {
        match self {
            LogSeverity::Debug => "debug"@,
            LogSeverity::Info => "info"@,
            LogSeverity::Warning => "warn"@,
            LogSeverity::Error => "error"@,
        }
    }

    /// The name between square brackets, filled with spaces on the right up
    /// to seven characters.
    pub open spec fn tag(self) -> Seq<char> {
        match self {
            LogSeverity::Debug => "[debug]"@,
            LogSeverity::Info => "[info] "@,
            LogSeverity::Warning => "[warn] "@,
            LogSeverity::Error => "[error]"@,
        }
    }

    /// The place of this severity in the order from `Debug` to `Error`.
    pub fn level(&self) -> (rank: u8)
        ensures
            rank == self.rank(),
    {
        match self {
            LogSeverity::Debug => 0,
            LogSeverity::Info => 1,
            LogSeverity::Warning => 2,
            LogSeverity::Error => 3,
        }
    }

    /// The colour of this severity.
    pub fn get_color(&self) -> (color: LogColor)
        ensures
            color == self.color(),
    {
        match self {
            LogSeverity::Debug => LogColor::BrightGreen,
            LogSeverity::Info => LogColor::BrightBlue,
            LogSeverity::Warning => LogColor::BrightYellow,
            LogSeverity::Error => LogColor::BrightRed,
        }
    }

    /// The name of this severity.
    pub fn to_string(&self) -> (name: String)
        ensures
            name@ == self.name(),
    {
        match self {
            LogSeverity::Debug => String::from_str("debug"),
            LogSeverity::Info => String::from_str("info"),
            LogSeverity::Warning => String::from_str("warn"),
            LogSeverity::Error => String::from_str("error"),
        }
    }

    /// The name between square brackets, seven characters wide.
    fn tag_str(&self) -> (tag: &'static str)
        ensures
            tag@ == self.tag(),
    {
        match self {
            LogSeverity::Debug => "[debug]",
            LogSeverity::Info => "[info] ",
            LogSeverity::Warning => "[warn] ",
            LogSeverity::Error => "[error]",
        }
    }
}

/// The line that is shown for `message` at `severity`: the tag in the
/// severity's colour, the message in grey, and the switch back to white.
pub open spec fn line_text(message: Seq<char>, severity: LogSeverity) -> Seq<char> {
    severity.color().code() + severity.tag() + LogColor::Grey.code() + " "@ + message
        + LogColor::White.code()
}

/// The least severity that a logger shows: `Info` unless another was set.
pub open spec fn threshold(severity: Option<LogSeverity>) -> LogSeverity {
    match severity {
        Some(set) => set,
        None => LogSeverity::Info,
    }
}

/// Which log lines are shown.
#[derive(Clone, Copy, Debug, PartialEq, Eq, Structural)]
pub struct Logger {
    /// The least severity that is shown, once it is fixed.
    pub severity: Option<LogSeverity>,
}

impl Logger {
    /// A logger whose severity is still open.
    pub fn new() -> (logger: Logger)
        ensures
            logger.severity is None,
    {
        Logger { severity: None }
    }
}

/// The least severity that `logger` shows. Asking fixes it: where none was
/// set before, it is `Info` from now on.
pub fn get_logging_severity(logger: &mut Logger) -> (severity: LogSeverity)
    ensures
        severity == threshold(old(logger).severity),
        final(logger).severity == Some(severity),
{
    match logger.severity {
        Some(severity) => severity,
        None => {
            logger.severity = Some(LogSeverity::Info);
            LogSeverity::Info
        },
    }
}

/// Sets the least severity that `logger` shows, and says whether it did: a
/// severity that is fixed already stays.
pub fn set_logging_severity(logger: &mut Logger, severity: LogSeverity) -> (set: bool)
    ensures
        set == (old(logger).severity is None),
        set ==> final(logger).severity == Some(severity),
        !set ==> final(logger).severity == old(logger).severity,
{
    match logger.severity {
        Some(_) => false,
        None => {
            logger.severity = Some(severity);
            true
        },
    }
}

/// The line to show for `message` at `severity`, or nothing where the
/// logger shows only what is more severe. Asking fixes the logger's
/// severity as `get_logging_severity` does.
pub fn log_line(logger: &mut Logger, message: &str, severity: LogSeverity) -> (line: Option<String>)
    ensures
        final(logger).severity == Some(threshold(old(logger).severity)),
        severity.rank() >= threshold(old(logger).severity).rank() ==> line is Some && line->0@
            == line_text(message@, severity),
        severity.rank() < threshold(old(logger).severity).rank() ==> line is None,
{
    let least = get_logging_severity(logger);
    if severity.level() >= least.level() {
        let mut line = String::from_str(severity.get_color().as_str());
        line.append(severity.tag_str());
        line.append(LogColor::Grey.as_str());
        line.append(" ");
        line.append(message);
        line.append(LogColor::White.as_str());
        Some(line)
    } else {
        None
    }
}

} // verus!
