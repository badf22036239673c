//! Kernel ring-buffer parsers: `dmesg` output and `/dev/kmsg` records.
//!
//! The two grammars are independent of each other; [`parse_kernel`] chooses which
//! is tried first.

use vstd::prelude::*;
use crate::parser::record::{answers, bare_fields, Fields, LogLevel, LogRecord, Uptime, UptimeUnit, UptimeView};
use crate::parser::retag;
use crate::source::LogSourceKind;
use crate::text::chars::{chars_of, string_of, views};
use crate::text::class::Class;
use crate::text::number::{is_real_literal, parse_unsigned, real_literal, unsigned_of};
use crate::text::search::{all_in, all_of, count_in, count_of, skip, trim, trim_of, trim_start, trim_start_of};
use crate::text::split::{split, split_on, split_once, split_once_on};

verus! {

/// Longest subsystem name still treated as a tag rather than message text.
pub const MAX_TAG_LEN: usize = 24;

/// Most spaces allowed inside a subsystem name: `usb 1-1` qualifies, prose does not.
pub const MAX_TAG_SPACES: usize = 1;

/// A leading `<N>` and what follows it; without one, the line itself.
pub open spec fn printk_prefix(line: Seq<char>) -> (Option<nat>, Seq<char>) {
    if line.len() > 0 && line[0] == '<' {
        match split_once(line.skip(1), Class::One('>')) {
            Some((digits, tail)) => match parse_unsigned(digits, 255) {
                Some(level) => (Some(level), tail),
                None => (None, line),
            },
            None => (None, line),
        }
    } else {
        (None, line)
    }
}

/// A leading `[ 1234.567890]`: the number in it, and what follows it.
pub open spec fn uptime_bracket(line: Seq<char>) -> Option<(UptimeView, Seq<char>)> {
    if line.len() > 0 && line[0] == '[' {
        match split_once(line.skip(1), Class::One(']')) {
            Some((inner, tail)) => {
                let text = trim(inner, Class::Space);
                if is_real_literal(text) {
                    Some((UptimeView { text, unit: UptimeUnit::Seconds }, trim_start(tail, Class::Space)))
                } else {
                    None
                }
            },
            None => None,
        }
    } else {
        None
    }
}

/// Text that looks like a subsystem name and not like prose.
pub open spec fn plausible_tag(s: Seq<char>) -> bool {
    0 < s.len() <= MAX_TAG_LEN && count_in(s, Class::One(' ')) <= MAX_TAG_SPACES && all_in(
        s,
        Class::SubsystemChar,
    )
}

/// A leading `subsystem:`, where it looks like one, and the rest.
pub open spec fn subsystem_tag(message: Seq<char>) -> (Option<Seq<char>>, Seq<char>) {
    match split_once(message, Class::One(':')) {
        Some((head, tail)) => {
            let candidate = trim(head, Class::Space);
            if plausible_tag(candidate) {
                (Some(candidate), trim_start(tail, Class::Space))
            } else {
                (None, message)
            }
        },
        None => (None, message),
    }
}

/// What a kernel line says, given its level, its uptime and its body.
pub open spec fn kernel_fields(level: LogLevel, uptime: Option<UptimeView>, body: Seq<char>) -> Fields {
    let (tag, message) = subsystem_tag(body);
    Fields { level, uptime, tag, ..bare_fields(message) }
}

/// The printk text grammar: `[<N>][<uptime>] <body>`, with at least one of the two
/// marks.
pub open spec fn dmesg_fields(line: Seq<char>) -> Option<Fields> {
    let (number, rest) = printk_prefix(line);
    let trimmed = trim_start(rest, Class::Space);
    if trim(line, Class::Space).len() == 0 {
        None
    } else {
        match (uptime_bracket(trimmed), number) {
            (Some((uptime, body)), Some(number)) => Some(
                kernel_fields(LogLevel::of_kernel(number), Some(uptime), body),
            ),
            (Some((uptime, body)), None) => Some(kernel_fields(LogLevel::Info, Some(uptime), body)),
            (None, Some(number)) => Some(kernel_fields(LogLevel::of_kernel(number), None, trimmed)),
            (None, None) => None,
        }
    }
}

/// The record grammar: `<level>,<sequence>,<usec>,<flags>;<body>`, where the first
/// three are numbers.
pub open spec fn kmsg_fields(line: Seq<char>) -> Option<Fields> {
    match split_once(trim(line, Class::Space), Class::One(';')) {
        Some((header, message)) => {
            let parts = split(header, Class::One(','));
            if parts.len() == 4 {
                let level = parse_unsigned(trim(parts[0], Class::Space), 255);
                let sequence = parse_unsigned(trim(parts[1], Class::Space), u64::MAX as nat);
                let usec = trim(parts[2], Class::Space);
                if level is Some && sequence is Some && is_real_literal(usec) {
                    Some(
                        kernel_fields(
                            LogLevel::of_kernel(level->0),
                            Some(UptimeView { text: usec, unit: UptimeUnit::Micros }),
                            trim_start(message, Class::Space),
                        ),
                    )
                } else {
                    None
                }
            } else {
                None
            }
        },
        None => None,
    }
}

/// Either kernel grammar, the native one of the source first.
pub open spec fn either_kernel_fields(line: Seq<char>, source: LogSourceKind) -> Option<Fields> {
    if source == LogSourceKind::Kmsg {
        match kmsg_fields(line) {
            Some(fields) => Some(fields),
            None => dmesg_fields(line),
        }
    } else {
        match dmesg_fields(line) {
            Some(fields) => Some(fields),
            None => kmsg_fields(line),
        }
    }
}

fn split_printk_prefix(cs: &[char]) -> (r: (Option<u8>, &[char]))
    ensures
        r.1@ == printk_prefix(cs@).1,
        match r.0 {
            Some(level) => printk_prefix(cs@).0 == Some(level as nat),
            None => printk_prefix(cs@).0 is None,
        },
{
    if cs.len() == 0 || cs[0] != '<' {
        return (None, cs);
    }
    match split_once_on(skip(cs, 1), Class::One('>')) {
        Some((digits, tail)) => match unsigned_of(digits, 255) {
            Some(level) => (Some(level as u8), tail),
            None => (None, cs),
        },
        None => (None, cs),
    }
}

fn split_uptime_bracket(cs: &[char]) -> (r: Option<(Uptime, &[char])>)
    ensures
        match r {
            Some((uptime, rest)) => uptime_bracket(cs@) == Some((uptime@, rest@)),
            None => uptime_bracket(cs@) is None,
        },
{
    if cs.len() == 0 || cs[0] != '[' {
        return None;
    }
    match split_once_on(skip(cs, 1), Class::One(']')) {
        Some((inner, tail)) => {
            // The bracket holds a single number, but surrounding spaces are common.
            let text: &[char] = trim_of(inner, Class::Space);
            if real_literal(text) {
                Some((Uptime { text: string_of(text), unit: UptimeUnit::Seconds }, trim_start_of(tail, Class::Space)))
            } else {
                None
            }
        }
        None => None,
    }
}

fn is_plausible_tag(cs: &[char]) -> (r: bool)
    ensures
        r == plausible_tag(cs@),
{
    0 < cs.len() && cs.len() <= MAX_TAG_LEN && count_of(cs, Class::One(' ')) <= MAX_TAG_SPACES && all_of(
        cs,
        Class::SubsystemChar,
    )
}

fn split_subsystem_tag(cs: &[char]) -> (r: (Option<&[char]>, &[char]))
    ensures
        r.1@ == subsystem_tag(cs@).1,
        match r.0 {
            Some(tag) => subsystem_tag(cs@).0 == Some(tag@),
            None => subsystem_tag(cs@).0 is None,
        },
{
    match split_once_on(cs, Class::One(':')) {
        Some((head, tail)) => {
            let candidate: &[char] = trim_of(head, Class::Space);
            if is_plausible_tag(candidate) {
                (Some(candidate), trim_start_of(tail, Class::Space))
            } else {
                (None, cs)
            }
        }
        None => (None, cs),
    }
}

/// Builds a record from an already-split body.
fn kernel_record(
    line: &str,
    seq: u64,
    source: LogSourceKind,
    level: LogLevel,
    uptime: Option<Uptime>,
    body: &[char],
) -> (r: LogRecord)
    ensures
        r@ == crate::parser::record::decoded(
            source,
            seq,
            line@,
            kernel_fields(level, crate::text::chars::opt_view(uptime), body@),
            r.received_at_ms,
        ),
{
    let (tag, message): (Option<&[char]>, &[char]) = split_subsystem_tag(body);
    let mut record: LogRecord = LogRecord::new(source, seq, line);
    record.level = level;
    record.uptime = uptime;
    record.tag = match tag {
        Some(tag) => Some(string_of(tag)),
        None => None,
    };
    record.message = string_of(message);
    record
}

/// Parses a kernel line in either of the two text shapes it appears in.
///
/// * `[    1.234567] usb 1-1: new device`, with an uptime bracket;
/// * `<12>healthd: battery l=64`, a packed printk prefix without a timestamp.
///
/// Returns `None` when the line is neither shape, so that ordinary prose is not
/// mistaken for a kernel message.
pub fn parse_dmesg(line: &str, seq: u64) -> (r: Option<LogRecord>)
    ensures
        answers(r, LogSourceKind::Dmesg, seq, line@, dmesg_fields(line@)),
{
    let cs: Vec<char> = chars_of(line);
    let blank: &[char] = trim_of(cs.as_slice(), Class::Space);
    if blank.len() == 0 {
        return None;
    }
    let (number, rest): (Option<u8>, &[char]) = split_printk_prefix(cs.as_slice());
    let trimmed: &[char] = trim_start_of(rest, Class::Space);
    match split_uptime_bracket(trimmed) {
        Some((uptime, body)) => {
            let level: LogLevel = match number {
                Some(number) => LogLevel::from_kernel_digit(number),
                None => LogLevel::Info,
            };
            Some(kernel_record(line, seq, LogSourceKind::Dmesg, level, Some(uptime), body))
        }
        None => match number {
            Some(number) => Some(
                kernel_record(
                    line,
                    seq,
                    LogSourceKind::Dmesg,
                    LogLevel::from_kernel_digit(number),
                    None,
                    trimmed,
                ),
            ),
            None => None,
        },
    }
}

/// Parses the structured form of `/dev/kmsg`:
///
/// ```text
/// 6,1234,567890,-;usb 1-1: new high-speed USB device
/// ```
///
/// The header is `<level>,<sequence>,<usec>,<flags>`; `usec` becomes the uptime.
/// Returns `None` when the header is absent or not numeric.
pub fn parse_kmsg(line: &str, seq: u64) -> (r: Option<LogRecord>)
    ensures
        answers(r, LogSourceKind::Kmsg, seq, line@, kmsg_fields(line@)),
{
    let cs: Vec<char> = chars_of(line);
    let trimmed: &[char] = trim_of(cs.as_slice(), Class::Space);
    let (header, message): (&[char], &[char]) = match split_once_on(trimmed, Class::One(';')) {
        Some(parts) => parts,
        None => return None,
    };
    let parts: Vec<&[char]> = split_on(header, Class::One(','));
    assert(views(parts@).len() == parts@.len());
    if parts.len() != 4 {
        return None;
    }
    assert(views(parts@)[0] == parts@[0]@);
    assert(views(parts@)[1] == parts@[1]@);
    assert(views(parts@)[2] == parts@[2]@);
    let level: u8 = match unsigned_of(trim_of(parts[0], Class::Space), 255) {
        Some(level) => level as u8,
        None => return None,
    };
    let usec: &[char] = trim_of(parts[2], Class::Space);
    if unsigned_of(trim_of(parts[1], Class::Space), u64::MAX).is_none() || !real_literal(usec) {
        return None;
    }
    let uptime: Uptime = Uptime { text: string_of(usec), unit: UptimeUnit::Micros };
    Some(
        kernel_record(
            line,
            seq,
            LogSourceKind::Kmsg,
            LogLevel::from_kernel_digit(level),
            Some(uptime),
            trim_start_of(message, Class::Space),
        ),
    )
}

/// Parses a kernel line for `source`, trying that source's native format first and
/// the other format second.
///
/// The record always carries `source`, whichever grammar matched.
pub fn parse_kernel(line: &str, source: LogSourceKind, seq: u64) -> (r: Option<LogRecord>)
    ensures
        answers(r, source, seq, line@, either_kernel_fields(line@, source)),
{
    let parsed: Option<LogRecord> = if source == LogSourceKind::Kmsg {
        match parse_kmsg(line, seq) {
            Some(record) => Some(record),
            None => parse_dmesg(line, seq),
        }
    } else {
        match parse_dmesg(line, seq) {
            Some(record) => Some(record),
            None => parse_kmsg(line, seq),
        }
    };
    match parsed {
        Some(record) => Some(retag(record, source)),
        None => None,
    }
}

} // verus!
