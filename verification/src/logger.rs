//! Log lines: which messages a logger lets through, where each one goes and
//! how it reads. The logger writes nothing itself: it hands out the line,
//! and whoever holds the streams prints it.

use crate::config::Config;
use crate::config::DateFormat;
use crate::config::LogLevel;
use crate::config::TimeFormat;
use vstd::prelude::*;
use vstd::string::StringExecFns;

verus! {

/// How grave a message is.
#[derive(Copy, Clone, Debug, PartialEq, Eq, Structural)]
pub enum MessageType {
    Debug,
    Info,
    Warn,
    Error,
    Critical,
}

/// The stream that a log line is written to.
#[derive(Copy, Clone, Debug, PartialEq, Eq, Structural)]
pub enum LogStream {
    Stdout,
    Stderr,
}

/// A line that is ready to be printed.
#[derive(Debug, PartialEq, Eq)]
pub struct LogLine {
    pub stream: LogStream,
    pub text: String,
}

impl MessageType {
    /// The tag that marks a message of this kind.
    pub open spec fn tag(self) -> Seq<char> {
        match self {
            MessageType::Debug => "[ DBUG ]"@,
            MessageType::Info => "[ INFO ]"@,
            MessageType::Warn => "[ WARN ]"@,
            MessageType::Error => "[ ERRO ]"@,
            MessageType::Critical => "[ CRIT ]"@,
        }
    }

    /// What a line of this kind begins with: a sign, and the colours in
    /// which the tag is shown.
    pub open spec fn opening(self) -> Seq<char> {
        match self {
            MessageType::Critical => "☠️  \x1b[30m\x1b[41m"@,
            MessageType::Error => "💥 \x1b[91m"@,
            MessageType::Warn => "⚠️  \x1b[33m"@,
            MessageType::Debug => "🛠️  \x1b[36m"@,
            MessageType::Info => "🚬 \x1b[35m"@,
        }
    }

    /// The stream that a message of this kind goes to: failures to the
    /// error stream, everything else to the output.
    pub open spec fn stream(self) -> LogStream {
        match self {
            MessageType::Critical | MessageType::Error => LogStream::Stderr,
            _ => LogStream::Stdout,
        }
    }

    pub fn prefix(&self) -> (tag: &str)
        ensures
            tag@ == self.tag(),
    {
        match self {
            MessageType::Debug => "[ DBUG ]",
            MessageType::Info => "[ INFO ]",
            MessageType::Warn => "[ WARN ]",
            MessageType::Error => "[ ERRO ]",
            MessageType::Critical => "[ CRIT ]",
        }
    }

    fn lead(&self) -> (opening: &'static str)
        ensures
            opening@ == self.opening(),
    {
        match self {
            MessageType::Critical => "☠️  \x1b[30m\x1b[41m",
            MessageType::Error => "💥 \x1b[91m",
            MessageType::Warn => "⚠️  \x1b[33m",
            MessageType::Debug => "🛠️  \x1b[36m",
            MessageType::Info => "🚬 \x1b[35m",
        }
    }

    fn target(&self) -> (stream: LogStream)
        ensures
            stream == self.stream(),
    {
        match self {
            MessageType::Critical | MessageType::Error => LogStream::Stderr,
            _ => LogStream::Stdout,
        }
    }
}

/// Whether a logger at `level` lets a message of `kind` through. Failures
/// always pass; a warning passes unless the level is `Error`; a debug
/// message passes at `Dbug` and `Info`; an information passes at `Info`
/// alone.
pub open spec fn lets_through(level: LogLevel, kind: MessageType) -> bool {
    match kind {
        MessageType::Critical | MessageType::Error => true,
        MessageType::Warn => level != LogLevel::Error,
        MessageType::Debug => level == LogLevel::Dbug || level == LogLevel::Info,
        MessageType::Info => level == LogLevel::Info,
    }
}

/// How a log line reads: the sign and the coloured tag of its kind, the
/// date, the time, and the message after two colons.
pub open spec fn line_text(kind: MessageType, date: Seq<char>, time: Seq<char>, msg: Seq<char>) -> Seq<
    char,
> {
    kind.opening() + kind.tag() + "\x1b[0m "@ + date + " "@ + time + " :: "@ + msg
}

/// The pattern by which the time of day is written.
pub open spec fn time_pattern(format: TimeFormat) -> Seq<char> {
    match format {
        TimeFormat::H12Format => "%I:%M:%S %p"@,
        TimeFormat::H24Format => "%H:%M:%S"@,
    }
}

/// The pattern by which the date is written.
pub open spec fn date_pattern(format: DateFormat) -> Seq<char> {
    match format {
        DateFormat::Asian => "%Y/%m/%d"@,
        DateFormat::Europe => "%d.%m.%Y"@,
        DateFormat::ISO8601 => "%Y-%m-%d"@,
        DateFormat::US => "%m/%d/%Y"@,
    }
}

pub fn time_format_pattern(format: TimeFormat) -> (pattern: &'static str)
    ensures
        pattern@ == time_pattern(format),
{
    match format {
        TimeFormat::H12Format => "%I:%M:%S %p",
        TimeFormat::H24Format => "%H:%M:%S",
    }
}

pub fn date_format_pattern(format: DateFormat) -> (pattern: &'static str)
    ensures
        pattern@ == date_pattern(format),
{
    match format {
        DateFormat::Asian => "%Y/%m/%d",
        DateFormat::Europe => "%d.%m.%Y",
        DateFormat::ISO8601 => "%Y-%m-%d",
        DateFormat::US => "%m/%d/%Y",
    }
}

/// `chrono::Local::now`, then `DateTime::date_naive` and `DateTime::time`
/// of what it returned, each read number by number through `Datelike` and
/// `Timelike`.
///
/// What comes back is the local date and the local time of day as the clock
/// and the time zone of the machine give them. It differs from one call to
/// the next and from one machine to another, so nothing is claimed of it:
/// whoever calls this holds for every reading what it says of the result.
/// The nanoseconds are read too, since chrono marks a leap second in them.
/// On a machine whose clock stands before the year 1970 chrono stops the
/// program instead of answering.
#[verifier::external_body]
fn local_now() -> (now: ClockReading) {
    let now = chrono::Local::now();
    let date = now.date_naive();
    let time = now.time();
    ClockReading {
        year: chrono::Datelike::year(&date),
        month: chrono::Datelike::month(&date),
        day: chrono::Datelike::day(&date),
        hour: chrono::Timelike::hour(&time),
        minute: chrono::Timelike::minute(&time),
        second: chrono::Timelike::second(&time),
        nanosecond: chrono::Timelike::nanosecond(&time),
    }
}

/// The time of day as the clock of the machine gives it, written in
/// `time_format`; empty where it cannot be written.
pub fn time_string(time_format: TimeFormat) -> (text: String)
    ensures
        exists|now: ClockReading| text@ == #[trigger] written_time(time_format, now),
{
    time_text(time_format, &local_now())
}

/// The date as the clock of the machine gives it, written in `date_format`;
/// empty where it cannot be written.
pub fn date_string(date_format: DateFormat) -> (text: String)
    ensures
        exists|now: ClockReading| text@ == #[trigger] written_date(date_format, now),
{
    date_text(date_format, &local_now())
}

/// A reading of a clock: a date and a time of day, in plain numbers.
#[derive(Copy, Clone, Debug, PartialEq, Eq)]
pub struct ClockReading {
    pub year: i32,
    pub month: u32,
    pub day: u32,
    pub hour: u32,
    pub minute: u32,
    pub second: u32,
    /// The nanoseconds since the second began. A leap second is the second
    /// 59 with a thousand million nanoseconds or more.
    pub nanosecond: u32,
}

/// What chrono writes for a time of day under a pattern; `None` where the
/// numbers are no time of day or where it refuses the pattern.
pub uninterp spec fn time_written(
    hour: u32,
    minute: u32,
    second: u32,
    nanosecond: u32,
    pattern: Seq<char>,
) -> Option<Seq<char>>;

/// What chrono writes for a date under a pattern; `None` where the numbers
/// are no date or where it refuses the pattern.
pub uninterp spec fn date_written(year: i32, month: u32, day: u32, pattern: Seq<char>) -> Option<
    Seq<char>,
>;

/// `NaiveTime::format` with `pattern`, on the time that
/// `NaiveTime::from_hms_nano_opt` makes of the numbers, written out by
/// `DelayedFormat::write_to` into a fresh string. The text is a function of
/// the numbers and the pattern alone, which `time_written` names; there is
/// none where chrono makes no time of the numbers or fails to write.
#[verifier::external_body]
fn format_time(hour: u32, minute: u32, second: u32, nanosecond: u32, pattern: &str) -> (text:
    Option<String>)
    ensures
        text is Some <==> time_written(hour, minute, second, nanosecond, pattern@) is Some,
        text is Some ==> Some(text->Some_0@) == time_written(
            hour,
            minute,
            second,
            nanosecond,
            pattern@,
        ),
{
    let time = chrono::NaiveTime::from_hms_nano_opt(hour, minute, second, nanosecond)?;
    let mut text = String::new();
    match time.format(pattern).write_to(&mut text) {
        Ok(()) => Some(text),
        Err(_) => None,
    }
}

/// `NaiveDate::format` with `pattern`, on the date that
/// `NaiveDate::from_ymd_opt` makes of the numbers, written out by
/// `DelayedFormat::write_to` into a fresh string. The text is a function of
/// the numbers and the pattern alone, which `date_written` names; there is
/// none where chrono makes no date of the numbers or fails to write.
#[verifier::external_body]
fn format_date(year: i32, month: u32, day: u32, pattern: &str) -> (text: Option<String>)
    ensures
        text is Some <==> date_written(year, month, day, pattern@) is Some,
        text is Some ==> Some(text->Some_0@) == date_written(year, month, day, pattern@),
{
    let date = chrono::NaiveDate::from_ymd_opt(year, month, day)?;
    let mut text = String::new();
    match date.format(pattern).write_to(&mut text) {
        Ok(()) => Some(text),
        Err(_) => None,
    }
}

/// The time of day of a reading, written in a format; empty where it cannot
/// be written.
pub open spec fn written_time(format: TimeFormat, now: ClockReading) -> Seq<char> {
    match time_written(now.hour, now.minute, now.second, now.nanosecond, time_pattern(format)) {
        Some(text) => text,
        None => Seq::empty(),
    }
}

/// The date of a reading, written in a format; empty where it cannot be
/// written.
pub open spec fn written_date(format: DateFormat, now: ClockReading) -> Seq<char> {
    match date_written(now.year, now.month, now.day, date_pattern(format)) {
        Some(text) => text,
        None => Seq::empty(),
    }
}

/// The time of day of `now`, written in `time_format`; empty where it
/// cannot be written.
pub fn time_text(time_format: TimeFormat, now: &ClockReading) -> (text: String)
    ensures
        text@ == written_time(time_format, *now),
{
    match format_time(
        now.hour,
        now.minute,
        now.second,
        now.nanosecond,
        time_format_pattern(time_format),
    ) {
        Some(text) => text,
        None => String::new(),
    }
}

/// The date of `now`, written in `date_format`; empty where it cannot be
/// written.
pub fn date_text(date_format: DateFormat, now: &ClockReading) -> (text: String)
    ensures
        text@ == written_date(date_format, *now),
{
    match format_date(now.year, now.month, now.day, date_format_pattern(date_format)) {
        Some(text) => text,
        None => String::new(),
    }
}

#[derive(Debug)]
pub struct Logger {
    times: TimeFormat,
    dates: DateFormat,
    levels: LogLevel,
}

impl Default for Logger {
    fn default() -> (logger: Self)
        ensures
            logger.time_format() == TimeFormat::H24Format,
            logger.date_format() == DateFormat::ISO8601,
            logger.level() == LogLevel::Info,
    {
        Logger { times: TimeFormat::H24Format, dates: DateFormat::ISO8601, levels: LogLevel::Info }
    }
}

impl Logger {
    pub closed spec fn time_format(&self) -> TimeFormat {
        self.times
    }

    pub closed spec fn date_format(&self) -> DateFormat {
        self.dates
    }

    pub closed spec fn level(&self) -> LogLevel {
        self.levels
    }

    /// A logger that writes dates and times as `config` says and lets
    /// through what its level admits.
    pub fn with_config(config: &Config) -> (logger: Logger)
        ensures
            logger.time_format() == config.time_format,
            logger.date_format() == config.date_format,
            logger.level() == config.log_level,
    {
        Logger { times: config.time_format, dates: config.date_format, levels: config.log_level }
    }

    /// Whether this logger lets a message of kind `msg_type` through.
    pub fn shows(&self, msg_type: MessageType) -> (shown: bool)
        ensures
            shown == lets_through(self.level(), msg_type),
    {
        match msg_type {
            MessageType::Critical | MessageType::Error => true,
            MessageType::Warn => self.levels == LogLevel::Warn || self.levels == LogLevel::Dbug
                || self.levels == LogLevel::Info,
            MessageType::Debug => self.levels == LogLevel::Dbug || self.levels == LogLevel::Info,
            MessageType::Info => self.levels == LogLevel::Info,
        }
    }

    /// The line for a message that was written on `date` at `time`; `None`
    /// where this logger does not let the message through.
    pub fn render(&self, msg_type: MessageType, date: &str, time: &str, msg: &String) -> (line:
        Option<LogLine>)
        ensures
            line is Some <==> lets_through(self.level(), msg_type),
            line is Some ==> line->Some_0.stream == msg_type.stream(),
            line is Some ==> line->Some_0.text@ == line_text(msg_type, date@, time@, msg@),
    {
        if !self.shows(msg_type) {
            return None;
        }
        let mut text = String::from_str(msg_type.lead());
        text.append(msg_type.prefix());
        text.append("\x1b[0m ");
        text.append(date);
        text.append(" ");
        text.append(time);
        text.append(" :: ");
        text.append(msg.as_str());
        Some(LogLine { stream: msg_type.target(), text })
    }

    /// The line for a message that is written now; `None` where this logger
    /// does not let the message through. The date and the time in the line
    /// are those of the machine's clock.
    pub fn message(&self, msg_type: MessageType, msg: &String) -> (line: Option<LogLine>)
        ensures
            line is Some <==> lets_through(self.level(), msg_type),
            line is Some ==> line->Some_0.stream == msg_type.stream(),
            line is Some ==> exists|date: Seq<char>, time: Seq<char>|
                line->Some_0.text@ == #[trigger] line_text(msg_type, date, time, msg@),
    {
        let date = date_string(self.dates);
        let time = time_string(self.times);
        self.render(msg_type, date.as_str(), time.as_str(), msg)
    }

    /// The line for a critical message. It is always let through, and goes
    /// to the error stream.
    pub fn critical(&self, msg: &String) -> (line: Option<LogLine>)
        ensures
            line is Some,
            line->Some_0.stream == LogStream::Stderr,
            exists|date: Seq<char>, time: Seq<char>|
                line->Some_0.text@ == #[trigger] line_text(MessageType::Critical, date, time, msg@),
    {
        self.message(MessageType::Critical, msg)
    }

    /// The line for a debug message, where the level admits it.
    pub fn debug(&self, msg: &String) -> (line: Option<LogLine>)
        ensures
            line is Some <==> self.level() == LogLevel::Dbug || self.level() == LogLevel::Info,
            line is Some ==> line->Some_0.stream == LogStream::Stdout,
            line is Some ==> exists|date: Seq<char>, time: Seq<char>|
                line->Some_0.text@ == #[trigger] line_text(MessageType::Debug, date, time, msg@),
    {
        self.message(MessageType::Debug, msg)
    }

    /// The line for an error. It is always let through, and goes to the
    /// error stream.
    pub fn error(&self, msg: &String) -> (line: Option<LogLine>)
        ensures
            line is Some,
            line->Some_0.stream == LogStream::Stderr,
            exists|date: Seq<char>, time: Seq<char>|
                line->Some_0.text@ == #[trigger] line_text(MessageType::Error, date, time, msg@),
    {
        self.message(MessageType::Error, msg)
    }

    /// The line for an information, where the level admits it.
    pub fn info(&self, msg: &String) -> (line: Option<LogLine>)
        ensures
            line is Some <==> self.level() == LogLevel::Info,
            line is Some ==> line->Some_0.stream == LogStream::Stdout,
            line is Some ==> exists|date: Seq<char>, time: Seq<char>|
                line->Some_0.text@ == #[trigger] line_text(MessageType::Info, date, time, msg@),
    {
        self.message(MessageType::Info, msg)
    }

    /// The line for a warning, where the level admits it.
    pub fn warn(&self, msg: &String) -> (line: Option<LogLine>)
        ensures
            line is Some <==> self.level() != LogLevel::Error,
            line is Some ==> line->Some_0.stream == LogStream::Stdout,
            line is Some ==> exists|date: Seq<char>, time: Seq<char>|
                line->Some_0.text@ == #[trigger] line_text(MessageType::Warn, date, time, msg@),
    {
        self.message(MessageType::Warn, msg)
    }

    /// The greeting that is shown at startup: the banner, then the two
    /// parts of the version, each in its colour.
    pub fn motd(major: &str, minor: &str) -> (greeting: String)
        ensures
            greeting@ == banner() + "\tVersion \x1b[32m"@ + major@ + "\x1b[0m.\x1b[31m"@ + minor@
                + "\x1b[0m \t\x1b[31mA\x1b[34mB\x1b[32mIS\x1b[0m\n\n"@,
    {
        let mut greeting = String::from_str(
            "\n    ____             __            \n   / __ )____  _____/ /_____  _____\n  / __  / __ \\/ ___/ //_/ _ \\/ ___/\n / /_/ / /_/ / /__/ ,< /  __/ /    \n/_____/\\____/\\___/_/|_|\\___/_/\n",
        );
        greeting.append("\tVersion \x1b[32m");
        greeting.append(major);
        greeting.append("\x1b[0m.\x1b[31m");
        greeting.append(minor);
        greeting.append("\x1b[0m \t\x1b[31mA\x1b[34mB\x1b[32mIS\x1b[0m\n\n");
        greeting
    }
}

/// The banner of the greeting.
pub open spec fn banner() -> Seq<char> {
    "\n    ____             __            \n   / __ )____  _____/ /_____  _____\n  / __  / __ \\/ ___/ //_/ _ \\/ ___/\n / /_/ / /_/ / /__/ ,< /  __/ /    \n/_____/\\____/\\___/_/|_|\\___/_/\n"@
}

} // verus!
