//! logcat line parsers: `threadtime` first, `brief` as fallback.

use vstd::prelude::*;
use crate::parser::record::{answers, bare_fields, Fields, LogLevel, LogRecord};
use crate::source::LogSourceKind;
use crate::text::chars::{chars_of, concat3, is_word, string_of, views};
use crate::text::class::Class;
use crate::text::number::{i32_of, parse_i32, parse_unsigned, unsigned_of};
use crate::text::search::{
    after_prefix, after_word, all_in, all_of, skip, take, trim, trim_of, trim_start, trim_start_of,
};
use crate::text::split::{
    split, split_on, split_once, split_once_at, split_once_on, split_once_word, tokens, tokens_of,
};

verus! {

/// `MM-DD` or `YYYY-MM-DD`: five or ten digits and dashes.
pub open spec fn date_token(s: Seq<char>) -> bool {
    (s.len() == 5 || s.len() == 10) && all_in(s, Class::DateChar)
}

/// A number below `bound`.
pub open spec fn below(s: Seq<char>, bound: nat) -> bool {
    match parse_unsigned(s, u32::MAX as nat) {
        Some(n) => n < bound,
        None => false,
    }
}

/// `HH:MM:SS`, with anything behind a point after the seconds.
pub open spec fn time_token(s: Seq<char>) -> bool {
    let parts = split(s, Class::One(':'));
    &&& parts.len() == 3
    &&& below(parts[0], 24)
    &&& below(parts[1], 60)
    &&& below(split(parts[2], Class::One('.'))[0], 61)
}

/// The text without one leading space; further indentation stays.
pub open spec fn without_space(s: Seq<char>) -> Seq<char> {
    if s.len() > 0 && s[0] == ' ' {
        s.skip(1)
    } else {
        s
    }
}

/// The nearest 32-bit number.
pub open spec fn clamp_i32(n: int) -> i32 {
    if n < i32::MIN {
        i32::MIN
    } else if n > i32::MAX {
        i32::MAX
    } else {
        n as i32
    }
}

/// The uid of an app of a user: `user * 100000 + 10000 + app`, kept in range.
pub open spec fn app_uid(user: i32, app: i32) -> i32 {
    clamp_i32(clamp_i32(user * 100_000) + 10_000 + app)
}

/// `u<user>_a<app>`.
pub open spec fn app_uid_token(s: Seq<char>) -> Option<i32> {
    if s.len() > 0 && s[0] == 'u' {
        match split_once_at(s.skip(1), "_a"@) {
            Some((user, app)) => match (parse_i32(user), parse_i32(app)) {
                (Some(user), Some(app)) => Some(app_uid(user, app)),
                _ => None,
            },
            None => None,
        }
    } else {
        None
    }
}

/// The uid that a token of `logcat -v uid` stands for.
pub open spec fn uid_token(token: Seq<char>) -> Option<i32> {
    let rest = match after_prefix(token, "uid="@) {
        Some(rest) => rest,
        None => token,
    };
    let bare = trim(rest, Class::Space);
    if bare.len() == 0 {
        None
    } else if parse_i32(bare) is Some {
        parse_i32(bare)
    } else if bare == "root"@ {
        Some(0)
    } else if bare == "system"@ {
        Some(1000)
    } else if bare == "radio"@ {
        Some(1001)
    } else if bare == "shell"@ {
        Some(2000)
    } else {
        app_uid_token(bare)
    }
}

/// The date, the time, and what follows them.
pub open spec fn date_time(line: Seq<char>) -> Option<(Seq<char>, Seq<char>, Seq<char>)> {
    match split_once(line, Class::One(' ')) {
        Some((date, tail)) => match split_once(trim_start(tail, Class::Space), Class::One(' ')) {
            Some((time, rest)) => if date_token(date) && time_token(time) {
                Some((date, time, rest))
            } else {
                None
            },
            None => None,
        },
        None => None,
    }
}

/// A single severity letter.
pub open spec fn level_letter(s: Seq<char>) -> bool {
    s.len() == 1 && Class::LevelLetter.has(s[0])
}

/// The `threadtime` grammar:
/// `<date> <time> [<uid>] <pid> <tid> <level> <tag>: <message>`.
pub open spec fn threadtime_fields(line: Seq<char>) -> Option<Fields> {
    match date_time(line) {
        Some((date, time, rest)) => match split_once(rest, Class::One(':')) {
            Some((meta, message)) => {
                let t = tokens(meta);
                let n = t.len();
                if (n == 4 || n == 5) && level_letter(t[n - 2]) && parse_i32(t[n - 4]) is Some
                    && parse_i32(t[n - 3]) is Some {
                    Some(
                        Fields {
                            level: LogLevel::of_letter(t[n - 2][0]),
                            timestamp: Some(date + " "@ + time),
                            uptime: None,
                            pid: parse_i32(t[n - 4]),
                            tid: parse_i32(t[n - 3]),
                            uid: if n == 5 { uid_token(t[0]) } else { None },
                            tag: Some(t[n - 1]),
                            message: without_space(message),
                        },
                    )
                } else {
                    None
                }
            },
            None => None,
        },
        None => None,
    }
}

/// The process id in the parentheses of a `brief` line.
pub open spec fn brief_pid(tail: Seq<char>) -> Option<i32> {
    if tail.len() > 0 && tail.last() == ')' {
        parse_i32(trim(tail.drop_last(), Class::Space))
    } else {
        None
    }
}

/// The `brief` grammar: `<level>/<tag>[(<pid>)]: <message>`.
pub open spec fn brief_fields(line: Seq<char>) -> Option<Fields> {
    match split_once(line, Class::One(':')) {
        Some((meta, message)) => match split_once(meta, Class::One('/')) {
            Some((level, remainder)) => {
                let (tag, pid) = match split_once(remainder, Class::One('(')) {
                    Some((tag, tail)) => (tag, brief_pid(tail)),
                    None => (remainder, None),
                };
                if level_letter(level) && trim(tag, Class::Space).len() > 0 {
                    Some(
                        Fields {
                            level: LogLevel::of_letter(level[0]),
                            pid,
                            tag: Some(trim(tag, Class::Space)),
                            ..bare_fields(without_space(message))
                        },
                    )
                } else {
                    None
                }
            },
            None => None,
        },
        None => None,
    }
}

/// Either logcat grammar, `threadtime` first.
pub open spec fn logcat_fields(line: Seq<char>) -> Option<Fields> {
    match threadtime_fields(line) {
        Some(fields) => Some(fields),
        None => brief_fields(line),
    }
}

fn is_date_token(cs: &[char]) -> (r: bool)
    ensures
        r == date_token(cs@),
{
    (cs.len() == 5 || cs.len() == 10) && all_of(cs, Class::DateChar)
}

fn is_below(cs: &[char], bound: u64) -> (r: bool)
    ensures
        r == below(cs@, bound as nat),
{
    match unsigned_of(cs, u32::MAX as u64) {
        Some(n) => n < bound,
        None => false,
    }
}

fn is_time_token(cs: &[char]) -> (r: bool)
    ensures
        r == time_token(cs@),
{
    let parts: Vec<&[char]> = split_on(cs, Class::One(':'));
    assert(views(parts@).len() == parts@.len());
    if parts.len() != 3 {
        return false;
    }
    assert(views(parts@)[0] == parts@[0]@ && views(parts@)[1] == parts@[1]@ && views(parts@)[2] == parts@[2]@);
    let seconds: Vec<&[char]> = split_on(parts[2], Class::One('.'));
    assert(views(seconds@)[0] == seconds@[0]@);
    is_below(parts[0], 24) && is_below(parts[1], 60) && is_below(seconds[0], 61)
}

fn strip_one_space(cs: &[char]) -> (r: &[char])
    ensures
        r@ == without_space(cs@),
{
    if cs.len() > 0 && cs[0] == ' ' {
        skip(cs, 1)
    } else {
        cs
    }
}

fn clamp(n: i64) -> (r: i32)
    ensures
        r == clamp_i32(n as int),
{
    if n < i32::MIN as i64 {
        i32::MIN
    } else if n > i32::MAX as i64 {
        i32::MAX
    } else {
        n as i32
    }
}

/// The executable form of [`app_uid_token`].
pub(crate) fn app_uid_of(cs: &[char]) -> (r: Option<i32>)
    ensures
        r == app_uid_token(cs@),
{
    if cs.len() == 0 || cs[0] != 'u' {
        return None;
    }
    match split_once_word(skip(cs, 1), "_a") {
        Some((user, app)) => match (i32_of(user), i32_of(app)) {
            (Some(user), Some(app)) => {
                let base: i32 = clamp(user as i64 * 100_000);
                Some(clamp(base as i64 + 10_000 + app as i64))
            }
            _ => None,
        },
        None => None,
    }
}

fn uid_of(cs: &[char]) -> (r: Option<i32>)
    ensures
        r == uid_token(cs@),
{
    let rest: &[char] = match after_word(cs, "uid=") {
        Some(rest) => rest,
        None => cs,
    };
    let bare: &[char] = trim_of(rest, Class::Space);
    if bare.len() == 0 {
        return None;
    }
    match i32_of(bare) {
        Some(n) => Some(n),
        None => {
            if is_word(bare, "root") {
                Some(0)
            } else if is_word(bare, "system") {
                Some(1000)
            } else if is_word(bare, "radio") {
                Some(1001)
            } else if is_word(bare, "shell") {
                Some(2000)
            } else {
                app_uid_of(bare)
            }
        }
    }
}

/// Decodes the uid field that `logcat -v uid` emits.
///
/// The field is a number for app processes, a name for system ones, and
/// `u<user>_a<app>` on secondary users.
pub fn parse_uid_token(token: &str) -> (r: Option<i32>)
    ensures
        r == uid_token(token@),
{
    let cs: Vec<char> = chars_of(token);
    uid_of(cs.as_slice())
}

fn split_date_time(cs: &[char]) -> (r: Option<(&[char], &[char], &[char])>)
    ensures
        match r {
            Some((date, time, rest)) => date_time(cs@) == Some((date@, time@, rest@)),
            None => date_time(cs@) is None,
        },
{
    match split_once_on(cs, Class::One(' ')) {
        Some((date, tail)) => match split_once_on(trim_start_of(tail, Class::Space), Class::One(' ')) {
            Some((time, rest)) => {
                if is_date_token(date) && is_time_token(time) {
                    Some((date, time, rest))
                } else {
                    None
                }
            }
            None => None,
        },
        None => None,
    }
}

/// Parses the default `logcat -v threadtime` line:
///
/// ```text
/// 09-01 12:34:56.789  1234  5678 I ActivityManager: Start proc
/// ```
///
/// A metadata block of five tokens is accepted too, with the first read as the uid.
pub fn parse_logcat_threadtime(line: &str, seq: u64) -> (r: Option<LogRecord>)
    ensures
        answers(r, LogSourceKind::Logcat, seq, line@, threadtime_fields(line@)),
{
    let cs: Vec<char> = chars_of(line);
    let (date, time, rest): (&[char], &[char], &[char]) = match split_date_time(cs.as_slice()) {
        Some(parts) => parts,
        None => return None,
    };
    // Everything before the first ':' is metadata; the message may contain ':'.
    let (meta, message): (&[char], &[char]) = match split_once_on(rest, Class::One(':')) {
        Some(parts) => parts,
        None => return None,
    };
    let words: Vec<&[char]> = tokens_of(meta);
    let n: usize = words.len();
    let ghost t = tokens(meta@);
    assert(views(words@).len() == n);
    if n != 4 && n != 5 {
        return None;
    }
    assert(forall|i: int| 0 <= i < n ==> t[i] == views(words@)[i]);
    let level: &[char] = words[n - 2];
    if level.len() != 1 || !Class::LevelLetter.holds(level[0]) {
        return None;
    }
    let pid: Option<i32> = i32_of(words[n - 4]);
    let tid: Option<i32> = i32_of(words[n - 3]);
    if pid.is_none() || tid.is_none() {
        return None;
    }
    let mut record: LogRecord = LogRecord::new(LogSourceKind::Logcat, seq, line);
    record.level = LogLevel::from_logcat_char(level[0]);
    record.timestamp = Some(concat3(string_of(date).as_str(), " ", string_of(time).as_str()));
    record.pid = pid;
    record.tid = tid;
    record.uid = if n == 5 { uid_of(words[0]) } else { None };
    record.tag = Some(string_of(words[n - 1]));
    record.message = string_of(strip_one_space(message));
    Some(record)
}

fn brief_pid_of(tail: &[char]) -> (r: Option<i32>)
    ensures
        r == brief_pid(tail@),
{
    if tail.len() > 0 && tail[tail.len() - 1] == ')' {
        assert(tail@.take(tail@.len() - 1) =~= tail@.drop_last());
        i32_of(trim_of(take(tail, tail.len() - 1), Class::Space))
    } else {
        None
    }
}

/// Parses the legacy `logcat -v brief` line:
///
/// ```text
/// I/ActivityManager( 1234): Start proc
/// ```
///
/// The process id may be missing.
pub fn parse_logcat_brief(line: &str, seq: u64) -> (r: Option<LogRecord>)
    ensures
        answers(r, LogSourceKind::Logcat, seq, line@, brief_fields(line@)),
{
    let cs: Vec<char> = chars_of(line);
    let (meta, message): (&[char], &[char]) = match split_once_on(cs.as_slice(), Class::One(':')) {
        Some(parts) => parts,
        None => return None,
    };
    let (level, remainder): (&[char], &[char]) = match split_once_on(meta, Class::One('/')) {
        Some(parts) => parts,
        None => return None,
    };
    if level.len() != 1 || !Class::LevelLetter.holds(level[0]) {
        return None;
    }
    let (tag, pid): (&[char], Option<i32>) = match split_once_on(remainder, Class::One('(')) {
        Some((tag, tail)) => (tag, brief_pid_of(tail)),
        None => (remainder, None),
    };
    let tag: &[char] = trim_of(tag, Class::Space);
    if tag.len() == 0 {
        return None;
    }
    let mut record: LogRecord = LogRecord::new(LogSourceKind::Logcat, seq, line);
    record.level = LogLevel::from_logcat_char(level[0]);
    record.pid = pid;
    record.tag = Some(string_of(tag));
    record.message = string_of(strip_one_space(message));
    Some(record)
}

/// Tries `threadtime`, then `brief`.
///
/// Returns `None` for banner lines such as `--------- beginning of main`.
pub fn parse_logcat(line: &str, seq: u64) -> (r: Option<LogRecord>)
    ensures
        answers(r, LogSourceKind::Logcat, seq, line@, logcat_fields(line@)),
{
    match parse_logcat_threadtime(line, seq) {
        Some(record) => Some(record),
        None => parse_logcat_brief(line, seq),
    }
}

} // verus!
