//! The settings of a server: the port it listens on and how its log lines
//! look. Each setting has a word by which it is chosen; a word that names
//! no choice selects the default.

use crate::text::str_eq;
use vstd::prelude::*;

verus! {

/// How the time of day is written in a log line.
#[derive(Copy, Clone, Debug, PartialEq, Eq, Structural)]
pub enum TimeFormat {
    /// Twelve hours, with the half of the day after them.
    H12Format,
    /// Twenty-four hours.
    H24Format,
}

/// How the date is written in a log line.
#[derive(Copy, Clone, Debug, PartialEq, Eq, Structural)]
pub enum DateFormat {
    /// Year, month and day, with slashes.
    Asian,
    /// Month, day and year, with slashes.
    US,
    /// Day, month and year, with dots.
    Europe,
    /// Year, month and day, with hyphens.
    ISO8601,
}

/// Which messages a logger lets through.
#[derive(Copy, Clone, Debug, PartialEq, Eq, Structural)]
pub enum LogLevel {
    Info,
    Dbug,
    Warn,
    Error,
}

impl Default for TimeFormat {
    fn default() -> (format: Self)
        ensures
            format == TimeFormat::H24Format,
    {
        TimeFormat::H24Format
    }
}

impl Default for DateFormat {
    fn default() -> (format: Self)
        ensures
            format == DateFormat::ISO8601,
    {
        DateFormat::ISO8601
    }
}

impl Default for LogLevel {
    fn default() -> (level: Self)
        ensures
            level == LogLevel::Info,
    {
        LogLevel::Info
    }
}

impl TimeFormat {
    /// The format that a word chooses.
    pub open spec fn of_word(word: Seq<char>) -> TimeFormat {
        if word == "h12"@ {
            TimeFormat::H12Format
        } else {
            TimeFormat::H24Format
        }
    }

    pub fn from_word(word: &str) -> (format: TimeFormat)
        ensures
            format == TimeFormat::of_word(word@),
    {
        if str_eq(word, "h12") {
            TimeFormat::H12Format
        } else {
            TimeFormat::H24Format
        }
    }
}

impl DateFormat {
    /// The format that a word chooses.
    pub open spec fn of_word(word: Seq<char>) -> DateFormat {
        if word == "asian"@ {
            DateFormat::Asian
        } else if word == "european"@ {
            DateFormat::Europe
        } else if word == "us"@ {
            DateFormat::US
        } else {
            DateFormat::ISO8601
        }
    }

    pub fn from_word(word: &str) -> (format: DateFormat)
        ensures
            format == DateFormat::of_word(word@),
    {
        if str_eq(word, "asian") {
            DateFormat::Asian
        } else if str_eq(word, "european") {
            DateFormat::Europe
        } else if str_eq(word, "us") {
            DateFormat::US
        } else {
            DateFormat::ISO8601
        }
    }
}

impl LogLevel {
    /// The level that a word chooses.
    pub open spec fn of_word(word: Seq<char>) -> LogLevel {
        if word == "debug"@ {
            LogLevel::Dbug
        } else if word == "warn"@ {
            LogLevel::Warn
        } else if word == "error"@ {
            LogLevel::Error
        } else {
            LogLevel::Info
        }
    }

    pub fn from_word(word: &str) -> (level: LogLevel)
        ensures
            level == LogLevel::of_word(word@),
    {
        if str_eq(word, "debug") {
            LogLevel::Dbug
        } else if str_eq(word, "warn") {
            LogLevel::Warn
        } else if str_eq(word, "error") {
            LogLevel::Error
        } else {
            LogLevel::Info
        }
    }
}

#[derive(Debug)]
pub struct Config {
    pub port: String,
    pub time_format: TimeFormat,
    pub date_format: DateFormat,
    pub log_level: LogLevel,
}

impl Default for Config {
    fn default() -> (config: Self)
        ensures
            config.port@ == "8080"@,
            config.time_format == TimeFormat::H24Format,
            config.date_format == DateFormat::ISO8601,
            config.log_level == LogLevel::Info,
    {
        Config {
            port: "8080".to_owned(),
            time_format: TimeFormat::H24Format,
            date_format: DateFormat::ISO8601,
            log_level: LogLevel::Info,
        }
    }
}

impl Config {
    /// The settings that the given words choose. A setting that is not
    /// given is as in `default`.
    pub fn from_settings(
        date_format: Option<String>,
        time_format: Option<String>,
        log_level: Option<String>,
        port: Option<String>,
    ) -> (config: Config)
        ensures
            config.date_format == (match date_format {
                Some(word) => DateFormat::of_word(word@),
                None => DateFormat::ISO8601,
            }),
            config.time_format == (match time_format {
                Some(word) => TimeFormat::of_word(word@),
                None => TimeFormat::H24Format,
            }),
            config.log_level == (match log_level {
                Some(word) => LogLevel::of_word(word@),
                None => LogLevel::Info,
            }),
            config.port@ == (match port {
                Some(text) => text@,
                None => "8080"@,
            }),
    {
        Config {
            date_format: match date_format {
                Some(word) => DateFormat::from_word(word.as_str()),
                None => DateFormat::ISO8601,
            },
            time_format: match time_format {
                Some(word) => TimeFormat::from_word(word.as_str()),
                None => TimeFormat::H24Format,
            },
            log_level: match log_level {
                Some(word) => LogLevel::from_word(word.as_str()),
                None => LogLevel::Info,
            },
            port: match port {
                Some(text) => text,
                None => "8080".to_owned(),
            },
        }
    }
}

} // verus!
