//! The decoded record: the unit that tables, filters and exporters share.

use vstd::prelude::*;
use crate::source::LogSourceKind;
use crate::text::chars::{chars_of, clone_opt, is_word, opt_view, push_text};
use crate::text::class::{ascii_lower, to_ascii_lower, Class};
use crate::text::number::{dec_int, i32_text};
use crate::text::search::{lemma_trim_plain, trim, trim_of};

verus! {

/// Severity of a log record, normalised across sources.
///
/// `Verbose` is least severe. `Unknown` is last, so that a minimum-level rule
/// never hides a line whose severity could not be determined.
#[derive(Debug, Clone, Copy, PartialEq, Eq, PartialOrd, Ord, Hash, Structural)]
pub enum LogLevel {
    /// logcat `V`, the most verbose.
    Verbose,
    /// logcat `D`.
    Debug,
    /// logcat `I`, and the default for unmarked kernel lines.
    Info,
    /// logcat `W`, kernel level 4.
    Warn,
    /// logcat `E`, kernel levels 0 to 3.
    Error,
    /// logcat `F`.
    Fatal,
    /// Severity could not be determined.
    Unknown,
}

impl LogLevel {
    /// The place of the level in the order of severity.
    pub open spec fn rank(self) -> int {
        match self {
            LogLevel::Verbose => 0,
            LogLevel::Debug => 1,
            LogLevel::Info => 2,
            LogLevel::Warn => 3,
            LogLevel::Error => 4,
            LogLevel::Fatal => 5,
            LogLevel::Unknown => 6,
        }
    }

    fn rank_number(self) -> (r: u8)
        ensures
            r == self.rank(),
    {
        match self {
            LogLevel::Verbose => 0,
            LogLevel::Debug => 1,
            LogLevel::Info => 2,
            LogLevel::Warn => 3,
            LogLevel::Error => 4,
            LogLevel::Fatal => 5,
            LogLevel::Unknown => 6,
        }
    }

    /// The level that a logcat severity letter of either case stands for.
    pub open spec fn of_letter(letter: char) -> LogLevel {
        if letter == 'V' || letter == 'v' {
            LogLevel::Verbose
        } else if letter == 'D' || letter == 'd' {
            LogLevel::Debug
        } else if letter == 'I' || letter == 'i' {
            LogLevel::Info
        } else if letter == 'W' || letter == 'w' {
            LogLevel::Warn
        } else if letter == 'E' || letter == 'e' {
            LogLevel::Error
        } else if letter == 'F' || letter == 'f' || letter == 'A' || letter == 'a' {
            LogLevel::Fatal
        } else {
            LogLevel::Unknown
        }
    }

    /// The level of a kernel severity, reduced from a facility-packed number.
    pub open spec fn of_kernel(number: nat) -> LogLevel {
        let severity = number % 8;
        if severity <= 3 {
            LogLevel::Error
        } else if severity == 4 {
            LogLevel::Warn
        } else if severity <= 6 {
            LogLevel::Info
        } else {
            LogLevel::Debug
        }
    }

    /// The single-letter badge.
    pub open spec fn letter(self) -> char {
        match self {
            LogLevel::Verbose => 'V',
            LogLevel::Debug => 'D',
            LogLevel::Info => 'I',
            LogLevel::Warn => 'W',
            LogLevel::Error => 'E',
            LogLevel::Fatal => 'F',
            LogLevel::Unknown => '?',
        }
    }

    /// The lower case name.
    pub open spec fn name(self) -> Seq<char> {
        match self {
            LogLevel::Verbose => "verbose"@,
            LogLevel::Debug => "debug"@,
            LogLevel::Info => "info"@,
            LogLevel::Warn => "warn"@,
            LogLevel::Error => "error"@,
            LogLevel::Fatal => "fatal"@,
            LogLevel::Unknown => "unknown"@,
        }
    }

    /// The level that a name stands for, whatever its case and the space around it.
    pub open spec fn named(name: Seq<char>) -> Option<LogLevel> {
        let word = ascii_lower(trim(name, Class::Space));
        if word == "verbose"@ || word == "v"@ {
            Some(LogLevel::Verbose)
        } else if word == "debug"@ || word == "d"@ {
            Some(LogLevel::Debug)
        } else if word == "info"@ || word == "i"@ {
            Some(LogLevel::Info)
        } else if word == "warn"@ || word == "warning"@ || word == "w"@ {
            Some(LogLevel::Warn)
        } else if word == "error"@ || word == "e"@ {
            Some(LogLevel::Error)
        } else if word == "fatal"@ || word == "f"@ || word == "assert"@ || word == "a"@ {
            Some(LogLevel::Fatal)
        } else if word == "unknown"@ || word == "?"@ || word == ""@ {
            Some(LogLevel::Unknown)
        } else {
            None
        }
    }

    /// A level passes a minimum when it is no less severe; an unknown level always
    /// passes.
    pub open spec fn passes(self, min: LogLevel) -> bool {
        self == LogLevel::Unknown || self.rank() >= min.rank()
    }

    /// Maps a logcat severity character.
    pub fn from_logcat_char(letter: char) -> (r: Self)
        ensures
            r == LogLevel::of_letter(letter),
    {
        match letter {
            'V' | 'v' => LogLevel::Verbose,
            'D' | 'd' => LogLevel::Debug,
            'I' | 'i' => LogLevel::Info,
            'W' | 'w' => LogLevel::Warn,
            'E' | 'e' => LogLevel::Error,
            'F' | 'f' | 'A' | 'a' => LogLevel::Fatal,
            // `S` means "silent": the severity is unknown.
            _ => LogLevel::Unknown,
        }
    }

    /// Maps a kernel `printk` level to a log level.
    ///
    /// A `/dev/kmsg` level is a bare severity, while the `<N>` prefix packs
    /// `facility * 8 + severity`; the remainder by eight is the severity of both.
    pub fn from_kernel_digit(digit: u8) -> (r: Self)
        ensures
            r == LogLevel::of_kernel(digit as nat),
    {
        let severity: u8 = digit % 8;
        if severity <= 3 {
            LogLevel::Error
        } else if severity == 4 {
            LogLevel::Warn
        } else if severity <= 6 {
            LogLevel::Info
        } else {
            LogLevel::Debug
        }
    }

    /// The single-letter badge shown in the log table.
    pub fn badge(self) -> (r: char)
        ensures
            r == self.letter(),
    {
        match self {
            LogLevel::Verbose => 'V',
            LogLevel::Debug => 'D',
            LogLevel::Info => 'I',
            LogLevel::Warn => 'W',
            LogLevel::Error => 'E',
            LogLevel::Fatal => 'F',
            LogLevel::Unknown => '?',
        }
    }

    /// Parses a level name such as `"warn"` or `"W"`.
    pub fn from_name(name: &str) -> (r: Option<Self>)
        ensures
            r == LogLevel::named(name@),
    {
        let cs: Vec<char> = chars_of(name);
        let lowered: Vec<char> = to_ascii_lower(trim_of(cs.as_slice(), Class::Space));
        let word: &[char] = lowered.as_slice();
        if is_word(word, "verbose") || is_word(word, "v") {
            Some(LogLevel::Verbose)
        } else if is_word(word, "debug") || is_word(word, "d") {
            Some(LogLevel::Debug)
        } else if is_word(word, "info") || is_word(word, "i") {
            Some(LogLevel::Info)
        } else if is_word(word, "warn") || is_word(word, "warning") || is_word(word, "w") {
            Some(LogLevel::Warn)
        } else if is_word(word, "error") || is_word(word, "e") {
            Some(LogLevel::Error)
        } else if is_word(word, "fatal") || is_word(word, "f") || is_word(word, "assert") || is_word(word, "a") {
            Some(LogLevel::Fatal)
        } else if is_word(word, "unknown") || is_word(word, "?") || is_word(word, "") {
            Some(LogLevel::Unknown)
        } else {
            None
        }
    }

    /// Whether a record at this level survives a minimum-level rule.
    pub fn passes_min(self, min: Self) -> (r: bool)
        ensures
            r == self.passes(min),
    {
        if self == LogLevel::Unknown {
            return true;
        }
        self.rank_number() >= min.rank_number()
    }

    /// The lower case name of the level.
    pub fn to_string(&self) -> (r: String)
        ensures
            r@ == self.name(),
    {
        let name: &str = match self {
            LogLevel::Verbose => "verbose",
            LogLevel::Debug => "debug",
            LogLevel::Info => "info",
            LogLevel::Warn => "warn",
            LogLevel::Error => "error",
            LogLevel::Fatal => "fatal",
            LogLevel::Unknown => "unknown",
        };
        name.to_owned()
    }
}

/// The name of every level is read back as that level.
pub proof fn law_level_names_read_back(level: LogLevel)
    ensures
        LogLevel::named(level.name()) == Some(level),
{
    reveal_strlit("verbose");
    reveal_strlit("v");
    reveal_strlit("debug");
    reveal_strlit("d");
    reveal_strlit("info");
    reveal_strlit("i");
    reveal_strlit("warn");
    reveal_strlit("warning");
    reveal_strlit("w");
    reveal_strlit("error");
    reveal_strlit("e");
    reveal_strlit("fatal");
    reveal_strlit("f");
    reveal_strlit("assert");
    reveal_strlit("a");
    reveal_strlit("unknown");
    lemma_trim_plain(level.name(), Class::Space);
    assert(ascii_lower(level.name()) =~= level.name());
}

/// The badge of every level but the unknown one is the letter that logcat writes
/// for it.
pub proof fn law_badges_read_back(level: LogLevel)
    ensures
        LogLevel::of_letter(level.letter()) == level,
{
}

/// A line of unknown severity passes every minimum, and what passes a minimum
/// passes every lower one.
pub proof fn law_minimum_levels(level: LogLevel, min: LogLevel, lower: LogLevel)
    ensures
        LogLevel::Unknown.passes(min),
        level.passes(min) && lower.rank() <= min.rank() ==> level.passes(lower),
        level.passes(level),
{
}

/// The unit in which a kernel counted.
#[derive(Debug, Clone, Copy, PartialEq, Eq, Structural)]
pub enum UptimeUnit {
    Seconds,
    Micros,
}

/// Kernel uptime as the source wrote it: the literal of a number, and its unit.
#[derive(Debug, PartialEq)]
pub struct Uptime {
    pub text: String,
    pub unit: UptimeUnit,
}

#[verifier::ext_equal]
pub struct UptimeView {
    pub text: Seq<char>,
    pub unit: UptimeUnit,
}

impl View for Uptime {
    type V = UptimeView;

    open spec fn view(&self) -> UptimeView {
        UptimeView { text: self.text@, unit: self.unit }
    }
}

impl Clone for Uptime {
    fn clone(&self) -> (r: Self)
        ensures
            r@ == self@,
    {
        Uptime { text: self.text.clone(), unit: self.unit }
    }
}

/// One decoded log line.
#[derive(Debug, PartialEq)]
pub struct LogRecord {
    /// Monotonic capture-local sequence number.
    pub seq: u64,
    /// Which collector produced the line.
    pub source: LogSourceKind,
    /// Normalised severity.
    pub level: LogLevel,
    /// Device-supplied timestamp text, kept verbatim.
    pub timestamp: Option<String>,
    /// Kernel uptime, when the source reports one.
    pub uptime: Option<Uptime>,
    /// Originating process id.
    pub pid: Option<i32>,
    /// Originating thread id.
    pub tid: Option<i32>,
    /// Owning uid, when the source reports one.
    pub uid: Option<i32>,
    /// logcat tag or kernel subsystem.
    pub tag: Option<String>,
    /// Package name once a process has been resolved to one.
    pub package: Option<String>,
    /// The message body, without the metadata prefix.
    pub message: String,
    /// The original line.
    pub raw: String,
    /// Host wall-clock time at which this record was decoded, in milliseconds.
    ///
    /// The host clock, because a logcat timestamp has neither year nor timezone and
    /// cannot be compared with a chosen instant.
    pub received_at_ms: u64,
    /// False when the line matched no grammar and was kept verbatim.
    pub parsed: bool,
}

/// What a grammar reads out of a line.
#[verifier::ext_equal]
pub struct Fields {
    pub level: LogLevel,
    pub timestamp: Option<Seq<char>>,
    pub uptime: Option<UptimeView>,
    pub pid: Option<i32>,
    pub tid: Option<i32>,
    pub uid: Option<i32>,
    pub tag: Option<Seq<char>>,
    pub message: Seq<char>,
}

/// A record.
#[verifier::ext_equal]
pub struct RecordView {
    pub seq: u64,
    pub source: LogSourceKind,
    pub parsed: bool,
    pub package: Option<Seq<char>>,
    pub raw: Seq<char>,
    pub received_at_ms: u64,
    pub fields: Fields,
}

impl View for LogRecord {
    type V = RecordView;

    open spec fn view(&self) -> RecordView {
        RecordView {
            seq: self.seq,
            source: self.source,
            parsed: self.parsed,
            package: opt_view(self.package),
            raw: self.raw@,
            received_at_ms: self.received_at_ms,
            fields: Fields {
                level: self.level,
                timestamp: opt_view(self.timestamp),
                uptime: opt_view(self.uptime),
                pid: self.pid,
                tid: self.tid,
                uid: self.uid,
                tag: opt_view(self.tag),
                message: self.message@,
            },
        }
    }
}

/// Fields of which nothing is known but the message.
pub open spec fn bare_fields(message: Seq<char>) -> Fields {
    Fields {
        level: LogLevel::Unknown,
        timestamp: None,
        uptime: None,
        pid: None,
        tid: None,
        uid: None,
        tag: None,
        message,
    }
}

/// The record of a line that matched a grammar.
pub open spec fn decoded(
    source: LogSourceKind,
    seq: u64,
    line: Seq<char>,
    fields: Fields,
    received_at_ms: u64,
) -> RecordView {
    RecordView { seq, source, parsed: true, package: None, raw: line, received_at_ms, fields }
}

/// The record of a line that matched no grammar.
pub open spec fn raw_record(
    source: LogSourceKind,
    seq: u64,
    line: Seq<char>,
    received_at_ms: u64,
) -> RecordView {
    RecordView {
        seq,
        source,
        parsed: false,
        package: None,
        raw: line,
        received_at_ms,
        fields: bare_fields(line),
    }
}

/// A parser's answer: a record where the grammar matched, and nothing where not.
/// When the line was received is up to the clock.
pub open spec fn answers(
    r: Option<LogRecord>,
    source: LogSourceKind,
    seq: u64,
    line: Seq<char>,
    fields: Option<Fields>,
) -> bool {
    match (r, fields) {
        (Some(record), Some(fields)) => record@ == decoded(source, seq, line, fields, record.received_at_ms),
        (None, None) => true,
        _ => false,
    }
}

/// `-` for a missing text.
pub open spec fn or_dash(text: Option<Seq<char>>) -> Seq<char> {
    match text {
        Some(text) => text,
        None => "-"@,
    }
}

/// A number, or `-` for a missing one.
pub open spec fn number_or_dash(number: Option<i32>) -> Seq<char> {
    match number {
        Some(number) => dec_int(number as int),
        None => "-"@,
    }
}

impl RecordView {
    /// The single-line rendering of a record.
    pub open spec fn export_line(self) -> Seq<char> {
        or_dash(self.fields.timestamp) + " "@ + seq![self.fields.level.letter()] + " "@ + number_or_dash(
            self.fields.pid,
        ) + " "@ + number_or_dash(self.fields.tid) + " "@ + or_dash(self.fields.tag) + ": "@
            + self.fields.message
    }
}

fn push_number(out: &mut String, number: Option<i32>)
    ensures
        final(out)@ == old(out)@ + number_or_dash(number),
{
    match number {
        Some(number) => {
            let text: String = i32_text(number);
            push_text(out, text.as_str());
        }
        None => push_text(out, "-"),
    }
}

fn push_opt(out: &mut String, text: &Option<String>)
    ensures
        final(out)@ == old(out)@ + or_dash(opt_view(*text)),
{
    match text {
        Some(text) => push_text(out, text.as_str()),
        None => push_text(out, "-"),
    }
}

impl LogRecord {
    /// A record skeleton for a line that did match a grammar.
    pub fn new(source: LogSourceKind, seq: u64, raw: &str) -> (r: Self)
        ensures
            r@ == decoded(source, seq, raw@, bare_fields(seq![]), r.received_at_ms),
    {
        let r: LogRecord = LogRecord {
            seq,
            source,
            level: LogLevel::Unknown,
            timestamp: None,
            uptime: None,
            pid: None,
            tid: None,
            uid: None,
            tag: None,
            package: None,
            message: String::new(),
            raw: raw.to_owned(),
            received_at_ms: crate::clock::now_ms(),
            parsed: true,
        };
        assert(r@ =~= decoded(source, seq, raw@, bare_fields(seq![]), r.received_at_ms));
        r
    }

    /// A record for a line that no grammar matched.
    ///
    /// The whole line is preserved in both `raw` and `message`.
    pub fn raw_line(source: LogSourceKind, seq: u64, line: &str) -> (r: Self)
        ensures
            r@ == raw_record(source, seq, line@, r.received_at_ms),
    {
        LogRecord {
            seq,
            source,
            level: LogLevel::Unknown,
            timestamp: None,
            uptime: None,
            pid: None,
            tid: None,
            uid: None,
            tag: None,
            package: None,
            message: line.to_owned(),
            raw: line.to_owned(),
            received_at_ms: crate::clock::now_ms(),
            parsed: false,
        }
    }

    /// A single-line rendering for exporters.
    pub fn to_export_line(&self) -> (r: String)
        ensures
            r@ == self@.export_line(),
    {
        let mut r: String = String::new();
        push_opt(&mut r, &self.timestamp);
        push_text(&mut r, " ");
        r.push(self.level.badge());
        assert(r@ =~= or_dash(self@.fields.timestamp) + " "@ + seq![self.level.letter()]);
        push_text(&mut r, " ");
        push_number(&mut r, self.pid);
        push_text(&mut r, " ");
        push_number(&mut r, self.tid);
        push_text(&mut r, " ");
        push_opt(&mut r, &self.tag);
        push_text(&mut r, ": ");
        push_text(&mut r, self.message.as_str());
        r
    }
}

impl Clone for LogRecord {
    fn clone(&self) -> (r: Self)
        ensures
            r@ == self@,
    {
        LogRecord {
            seq: self.seq,
            source: self.source,
            level: self.level,
            timestamp: clone_opt(&self.timestamp),
            uptime: match &self.uptime {
                Some(uptime) => Some(uptime.clone()),
                None => None,
            },
            pid: self.pid,
            tid: self.tid,
            uid: self.uid,
            tag: clone_opt(&self.tag),
            package: clone_opt(&self.package),
            message: self.message.clone(),
            raw: self.raw.clone(),
            received_at_ms: self.received_at_ms,
            parsed: self.parsed,
        }
    }
}

} // verus!
