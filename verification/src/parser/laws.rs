//! What the parsers read back of lines that were written in their grammars.

use vstd::prelude::*;
use crate::parser::auto_fields;
use crate::parser::kernel::{dmesg_fields, either_kernel_fields, kmsg_fields};
use crate::parser::logcat::{date_time, date_token, logcat_fields, threadtime_fields, time_token};
use crate::parser::record::{Fields, LogLevel, RecordView, UptimeUnit, UptimeView};
use crate::source::LogSourceKind;
use crate::text::class::{ascii_lower, is_space, Class};
use crate::text::laws::{
    gaps_for, is_gap, is_solid, lacks, law_ascii_folding, law_numbers_read_back, law_split_once_reads_back, law_split_reads_back,
    law_trim_reads_back, law_words_read_back, lemma_dec_digits, lemma_spread_lacks, lemma_two_digits, same_letters, spread,
    two_digits,
};
use crate::text::number::{dec, dec_int, is_decimal, is_real_literal, parse_i32, parse_unsigned};
use crate::text::search::{all_in, count_in, lemma_span, lemma_span_is, lemma_trim_plain, trim, trim_start};
use crate::text::split::{lemma_no_count, split, split_once, tokens};

verus! {

/// The letter with which logcat marks a level.
pub open spec fn marks(letter: char, level: LogLevel) -> bool {
    ||| letter == 'V' && level == LogLevel::Verbose
    ||| letter == 'D' && level == LogLevel::Debug
    ||| letter == 'I' && level == LogLevel::Info
    ||| letter == 'W' && level == LogLevel::Warn
    ||| letter == 'E' && level == LogLevel::Error
    ||| letter == 'F' && level == LogLevel::Fatal
    ||| letter == 'A' && level == LogLevel::Fatal
    ||| letter == 'S' && level == LogLevel::Unknown
}

pub open spec fn is_number_char(c: char) -> bool {
    '0' <= c <= '9'
}

/// `MM-DD` or `YYYY-MM-DD`.
pub open spec fn is_written_date(s: Seq<char>) -> bool {
    ||| s.len() == 5 && is_number_char(s[0]) && is_number_char(s[1]) && s[2] == '-' && is_number_char(s[3])
        && is_number_char(s[4])
    ||| s.len() == 10 && is_number_char(s[0]) && is_number_char(s[1]) && is_number_char(s[2]) && is_number_char(s[3])
        && s[4] == '-' && is_number_char(s[5]) && is_number_char(s[6]) && s[7] == '-' && is_number_char(s[8])
        && is_number_char(s[9])
}

/// Nothing, or a point and digits.
pub open spec fn is_written_fraction(s: Seq<char>) -> bool {
    s.len() == 0 || (s[0] == '.' && forall|i: int| 1 <= i < s.len() ==> is_number_char(#[trigger] s[i]))
}

/// `HH:MM:SS` and a fraction.
pub open spec fn written_time(hours: nat, minutes: nat, seconds: nat, fraction: Seq<char>) -> Seq<char> {
    two_digits(hours) + seq![':'] + two_digits(minutes) + seq![':'] + two_digits(seconds) + fraction
}

proof fn lemma_written_date(date: Seq<char>)
    requires
        is_written_date(date),
    ensures
        date_token(date),
        lacks(date, ' '),
{
    assert forall|i: int| 0 <= i < date.len() implies Class::DateChar.has(#[trigger] date[i]) && date[i] != ' ' by {}
}

proof fn lemma_written_time(hours: nat, minutes: nat, seconds: nat, fraction: Seq<char>)
    requires
        hours < 24,
        minutes < 60,
        seconds < 61,
        is_written_fraction(fraction),
    ensures
        time_token(written_time(hours, minutes, seconds, fraction)),
        is_solid(written_time(hours, minutes, seconds, fraction)),
        lacks(written_time(hours, minutes, seconds, fraction), ' '),
{
    let h = two_digits(hours);
    let m = two_digits(minutes);
    let s = two_digits(seconds);
    let time = written_time(hours, minutes, seconds, fraction);
    lemma_two_digits(hours, u32::MAX as nat);
    lemma_two_digits(minutes, u32::MAX as nat);
    lemma_two_digits(seconds, u32::MAX as nat);
    let last = s + fraction;
    assert(lacks(h, ':') && lacks(m, ':') && lacks(s, '.'));
    assert(lacks(last, ':')) by {
        assert forall|i: int| 0 <= i < last.len() implies (#[trigger] last[i]) != ':' by {
            if i >= 2 {
                assert(last[i] == fraction[i - 2]);
            }
        }
    }
    law_split_reads_back(h, ':', m + seq![':'] + last);
    law_split_reads_back(m, ':', last);
    law_split_reads_back(last, ':', seq![]);
    assert(time =~= h + seq![':'] + (m + seq![':'] + last));
    let parts = split(time, Class::One(':'));
    assert(parts =~= seq![h, m, last]);
    if fraction.len() == 0 {
        assert(last =~= s);
        law_split_reads_back(s, '.', seq![]);
    } else {
        law_split_reads_back(s, '.', fraction.skip(1));
        assert(last =~= s + seq!['.'] + fraction.skip(1));
    }
    assert(split(last, Class::One('.'))[0] == s);
    assert forall|i: int| 0 <= i < time.len() implies !is_space(#[trigger] time[i]) && time[i] != ' ' by {
        if i >= 8 {
            assert(time[i] == fraction[i - 8]);
        } else if i < 2 {
            assert(time[i] == h[i]);
        } else if 3 <= i < 5 {
            assert(time[i] == m[i - 3]);
        } else if 6 <= i < 8 {
            assert(time[i] == s[i - 6]);
        }
    }
}

proof fn lemma_threadtime(
    date: Seq<char>,
    time: Seq<char>,
    words: Seq<Seq<char>>,
    gaps: Seq<Seq<char>>,
    tail: Seq<char>,
    message: Seq<char>,
)
    requires
        date_token(date),
        lacks(date, ' '),
        time_token(time),
        is_solid(time),
        crate::text::laws::all_solid(words),
        forall|i: int| 0 <= i < words.len() ==> lacks(#[trigger] words[i], ':'),
        gaps_for(words, gaps),
        is_gap(tail),
    ensures
        ({
            let line = date + seq![' '] + time + seq![' '] + spread(words, gaps) + tail + seq![':', ' '] + message;
            let meta = spread(words, gaps) + tail;
            &&& date_time(line) == Some((date, time, meta + seq![':', ' '] + message))
            &&& split_once(meta + seq![':', ' '] + message, Class::One(':')) == Some((meta, seq![' '] + message))
            &&& tokens(meta) == words
        }),
{
    let meta = spread(words, gaps) + tail;
    let rest = meta + seq![':', ' '] + message;
    let line = date + seq![' '] + time + seq![' '] + spread(words, gaps) + tail + seq![':', ' '] + message;
    let after_date = time + seq![' '] + rest;
    assert(line =~= date + seq![' '] + after_date);
    law_split_once_reads_back(date, ' ', after_date);
    assert(!is_space(time[0]));
    assert(after_date[0] == time[0]);
    lemma_span_is(after_date, Class::Space, true, 0);
    assert(trim_start(after_date, Class::Space) =~= after_date);
    assert(lacks(time, ' ')) by {
        assert forall|i: int| 0 <= i < time.len() implies (#[trigger] time[i]) != ' ' by {
            assert(!is_space(time[i]));
        }
    }
    law_split_once_reads_back(time, ' ', rest);
    lemma_spread_lacks(words, gaps, ':');
    assert(lacks(meta, ':')) by {
        assert forall|i: int| 0 <= i < meta.len() implies (#[trigger] meta[i]) != ':' by {
            if i < spread(words, gaps).len() {
                assert(meta[i] == spread(words, gaps)[i]);
            } else {
                assert(meta[i] == tail[i - spread(words, gaps).len()]);
            }
        }
    }
    assert(rest =~= meta + seq![':'] + (seq![' '] + message));
    law_split_once_reads_back(meta, ':', seq![' '] + message);
    law_words_read_back(words, gaps, tail);
}

/// A `threadtime` line is read back as it was written: whatever the date, the time, the
/// processes, the severity, the tag and the message are, and however wide the columns.
pub proof fn law_threadtime_reads_back(
    date: Seq<char>,
    hours: nat,
    minutes: nat,
    seconds: nat,
    fraction: Seq<char>,
    pid: i32,
    tid: i32,
    letter: char,
    level: LogLevel,
    tag: Seq<char>,
    gaps: Seq<Seq<char>>,
    tail: Seq<char>,
    message: Seq<char>,
)
    requires
        is_written_date(date),
        hours < 24,
        minutes < 60,
        seconds < 61,
        is_written_fraction(fraction),
        marks(letter, level),
        is_solid(tag),
        lacks(tag, ':'),
        gaps_for(seq![dec_int(pid as int), dec_int(tid as int), seq![letter], tag], gaps),
        is_gap(tail),
    ensures
        ({
            let time = written_time(hours, minutes, seconds, fraction);
            let words = seq![dec_int(pid as int), dec_int(tid as int), seq![letter], tag];
            let line = date + seq![' '] + time + seq![' '] + spread(words, gaps) + tail + seq![':', ' '] + message;
            logcat_fields(line) == Some(
                Fields {
                    level,
                    timestamp: Some(date + seq![' '] + time),
                    uptime: None,
                    pid: Some(pid),
                    tid: Some(tid),
                    uid: None,
                    tag: Some(tag),
                    message,
                },
            )
        }),
{
    let time = written_time(hours, minutes, seconds, fraction);
    let words = seq![dec_int(pid as int), dec_int(tid as int), seq![letter], tag];
    lemma_written_date(date);
    lemma_written_time(hours, minutes, seconds, fraction);
    law_numbers_read_back(pid);
    law_numbers_read_back(tid);
    lemma_number_lacks(pid, ':');
    lemma_number_lacks(tid, ':');
    assert(crate::text::laws::all_solid(words));
    lemma_threadtime(date, time, words, gaps, tail, message);
    assert((seq![' '] + message).skip(1) =~= message);
    reveal_strlit(" ");
    assert(" "@ =~= seq![' ']);
    assert(words[2] =~= seq![letter] && words[2][0] == letter);
}

/// With `-v uid` the uid stands before the process, as a number or as `uid=` and one.
pub proof fn law_threadtime_with_uid_reads_back(
    date: Seq<char>,
    hours: nat,
    minutes: nat,
    seconds: nat,
    fraction: Seq<char>,
    uid: i32,
    named: bool,
    pid: i32,
    tid: i32,
    letter: char,
    level: LogLevel,
    tag: Seq<char>,
    gaps: Seq<Seq<char>>,
    tail: Seq<char>,
    message: Seq<char>,
)
    requires
        is_written_date(date),
        hours < 24,
        minutes < 60,
        seconds < 61,
        is_written_fraction(fraction),
        marks(letter, level),
        is_solid(tag),
        lacks(tag, ':'),
        gaps.len() == 5,
        gaps_for(seq![tag, tag, tag, tag, tag], gaps),
        is_gap(tail),
    ensures
        ({
            let time = written_time(hours, minutes, seconds, fraction);
            let words = seq![uid_word(uid, named), dec_int(pid as int), dec_int(tid as int), seq![letter], tag];
            let line = date + seq![' '] + time + seq![' '] + spread(words, gaps) + tail + seq![':', ' '] + message;
            logcat_fields(line) == Some(
                Fields {
                    level,
                    timestamp: Some(date + seq![' '] + time),
                    uptime: None,
                    pid: Some(pid),
                    tid: Some(tid),
                    uid: Some(uid),
                    tag: Some(tag),
                    message,
                },
            )
        }),
{
    let time = written_time(hours, minutes, seconds, fraction);
    let owner = uid_word(uid, named);
    let words = seq![owner, dec_int(pid as int), dec_int(tid as int), seq![letter], tag];
    lemma_written_date(date);
    lemma_written_time(hours, minutes, seconds, fraction);
    lemma_uid_word(uid, named);
    law_numbers_read_back(pid);
    law_numbers_read_back(tid);
    lemma_number_lacks(pid, ':');
    lemma_number_lacks(tid, ':');
    assert(crate::text::laws::all_solid(words));
    assert(gaps_for(words, gaps));
    lemma_threadtime(date, time, words, gaps, tail, message);
    assert((seq![' '] + message).skip(1) =~= message);
    reveal_strlit(" ");
    assert(" "@ =~= seq![' ']);
    assert(words[3] =~= seq![letter] && words[3][0] == letter);
}

/// A uid as logcat writes it.
pub open spec fn uid_word(uid: i32, named: bool) -> Seq<char> {
    if named {
        seq!['u', 'i', 'd', '='] + dec_int(uid as int)
    } else {
        dec_int(uid as int)
    }
}

proof fn lemma_uid_word(uid: i32, named: bool)
    ensures
        crate::parser::logcat::uid_token(uid_word(uid, named)) == Some(uid),
        is_solid(uid_word(uid, named)),
        lacks(uid_word(uid, named), ':'),
{
    let number = dec_int(uid as int);
    let owner = uid_word(uid, named);
    law_numbers_read_back(uid);
    lemma_number_lacks(uid, ':');
    lemma_number_lacks(uid, 'u');
    reveal_strlit("uid=");
    assert("uid="@ =~= seq!['u', 'i', 'd', '=']);
    assert forall|i: int| 0 <= i < owner.len() implies !is_space(#[trigger] owner[i]) && owner[i] != ':' by {
        if named && i >= 4 {
            assert(owner[i] == number[i - 4]);
        }
    }
    lemma_trim_plain(number, Class::Space);
    if named {
        assert(owner.take(4) =~= "uid="@);
        assert(owner.skip(4) =~= number);
    } else if number.len() >= 4 {
        assert(number.take(4)[0] == number[0]);
        assert("uid="@[0] == 'u');
    }
}

proof fn lemma_number_lacks(n: i32, c: char)
    requires
        c != '-',
        !('0' <= c <= '9'),
    ensures
        lacks(dec_int(n as int), c),
{
    let magnitude: nat = if n < 0 { (0 - n) as nat } else { n as nat };
    lemma_dec_digits(magnitude);
    let s = dec_int(n as int);
    assert forall|i: int| 0 <= i < s.len() implies (#[trigger] s[i]) != c by {
        if n < 0 {
            if i > 0 {
                assert(s[i] == dec(magnitude)[i - 1]);
            }
        }
    }
}

/// No date begins with a letter of a level.
proof fn lemma_no_date(line: Seq<char>)
    requires
        line.len() > 0,
        'A' <= line[0] <= 'Z',
    ensures
        threadtime_fields(line) is None,
{
    let k = Class::One(' ');
    lemma_span(line, k, false);
    match split_once(line, k) {
        Some((date, tail)) => {
            if date.len() > 0 {
                assert(date[0] == line[0]);
                assert(!Class::DateChar.has(date[0]));
                assert(!all_in(date, Class::DateChar));
            }
        },
        None => {},
    }
}

proof fn lemma_process_lacks_colon(gap: Seq<char>, pid: i32)
    requires
        is_gap(gap),
    ensures
        lacks(seq!['('] + gap + dec_int(pid as int) + seq![')'], ':'),
{
    let number = dec_int(pid as int);
    let process = seq!['('] + gap + number + seq![')'];
    lemma_number_lacks(pid, ':');
    assert forall|j: int| 0 <= j < process.len() implies (#[trigger] process[j]) != ':' by {
        if 0 < j <= gap.len() {
            assert(process[j] == gap[j - 1]);
        } else if gap.len() < j && j < process.len() - 1 {
            assert(process[j] == number[j - 1 - gap.len()]);
        }
    }
}

/// A `brief` line is read back as it was written, with its process or without.
pub proof fn law_brief_reads_back(
    letter: char,
    level: LogLevel,
    tag: Seq<char>,
    gap: Seq<char>,
    pid: Option<i32>,
    message: Seq<char>,
)
    requires
        marks(letter, level),
        is_solid(tag),
        lacks(tag, ':'),
        lacks(tag, '('),
        is_gap(gap),
    ensures
        ({
            let process = match pid {
                Some(pid) => seq!['('] + gap + dec_int(pid as int) + seq![')'],
                None => seq![],
            };
            let line = seq![letter, '/'] + tag + process + seq![':', ' '] + message;
            logcat_fields(line) == Some(
                Fields {
                    level,
                    timestamp: None,
                    uptime: None,
                    pid,
                    tid: None,
                    uid: None,
                    tag: Some(tag),
                    message,
                },
            )
        }),
{
    let process = match pid {
        Some(pid) => seq!['('] + gap + dec_int(pid as int) + seq![')'],
        None => seq![],
    };
    let line = seq![letter, '/'] + tag + process + seq![':', ' '] + message;
    lemma_no_date(line);
    let remainder = tag + process;
    let meta = seq![letter, '/'] + remainder;
    assert(lacks(process, ':')) by {
        if pid is Some {
            lemma_process_lacks_colon(gap, pid->0);
        }
    }
    assert(lacks(meta, ':')) by {
        assert forall|i: int| 0 <= i < meta.len() implies (#[trigger] meta[i]) != ':' by {
            if i >= 2 + tag.len() {
                assert(meta[i] == process[i - 2 - tag.len()]);
            } else if i >= 2 {
                assert(meta[i] == tag[i - 2]);
            }
        }
    }
    assert(line =~= meta + seq![':'] + (seq![' '] + message));
    law_split_once_reads_back(meta, ':', seq![' '] + message);
    assert((seq![' '] + message).skip(1) =~= message);
    assert(lacks(seq![letter], '/'));
    assert(meta =~= seq![letter] + seq!['/'] + remainder);
    law_split_once_reads_back(seq![letter], '/', remainder);
    lemma_trim_plain(tag, Class::Space);
    match pid {
        Some(pid) => {
            let number = dec_int(pid as int);
            let inner = gap + number + seq![')'];
            assert(remainder =~= tag + seq!['('] + inner);
            law_split_once_reads_back(tag, '(', inner);
            assert(inner.drop_last() =~= gap + number + seq![]);
            law_numbers_read_back(pid);
            law_trim_reads_back(gap, number, seq![]);
            assert(inner.last() == ')');
        },
        None => {
            assert(remainder =~= tag);
            law_split_once_reads_back(tag, '(', seq![]);
        },
    }
}

/// The severity of a kernel number: its facility does not matter.
pub open spec fn grades(number: nat, level: LogLevel) -> bool {
    ||| (number % 8 == 0 || number % 8 == 1 || number % 8 == 2 || number % 8 == 3) && level == LogLevel::Error
    ||| number % 8 == 4 && level == LogLevel::Warn
    ||| (number % 8 == 5 || number % 8 == 6) && level == LogLevel::Info
    ||| number % 8 == 7 && level == LogLevel::Debug
}

/// A character of a subsystem name.
pub open spec fn is_name_char(c: char) -> bool {
    ||| 'a' <= c <= 'z'
    ||| 'A' <= c <= 'Z'
    ||| '0' <= c <= '9'
    ||| c == '_'
    ||| c == '-'
    ||| c == '.'
    ||| c == '/'
    ||| c == ' '
}

pub open spec fn one_space_at_most(s: Seq<char>) -> bool {
    forall|i: int, j: int| 0 <= i < s.len() && 0 <= j < s.len() && s[i] == ' ' && s[j] == ' ' ==> i == j
}

/// A subsystem name: up to 24 characters, of which one may be a space inside.
pub open spec fn is_subsystem(s: Seq<char>) -> bool {
    &&& 0 < s.len() <= 24
    &&& s[0] != ' '
    &&& s.last() != ' '
    &&& one_space_at_most(s)
    &&& forall|i: int| 0 <= i < s.len() ==> is_name_char(#[trigger] s[i])
}

/// Text that does not begin with white space.
pub open spec fn begins_solid(s: Seq<char>) -> bool {
    s.len() > 0 ==> !is_space(s[0])
}

proof fn lemma_one_space(s: Seq<char>)
    requires
        one_space_at_most(s),
    ensures
        count_in(s, Class::One(' ')) <= 1,
    decreases s.len(),
{
    if s.len() > 0 {
        let init = s.drop_last();
        assert forall|i: int, j: int| 0 <= i < init.len() && 0 <= j < init.len() && init[i] == ' ' && init[j] == ' '
            implies i == j by {
            assert(s[i] == ' ' && s[j] == ' ');
        }
        lemma_one_space(init);
        if s.last() == ' ' {
            assert forall|i: int| 0 <= i < init.len() implies !Class::One(' ').has(#[trigger] init[i]) by {
                assert(s[i] == init[i]);
            }
            lemma_no_count(init, Class::One(' '));
        }
    }
}

proof fn lemma_many_spaces(s: Seq<char>, i: int, j: int)
    requires
        0 <= i < j < s.len(),
        s[i] == ' ',
        s[j] == ' ',
    ensures
        count_in(s, Class::One(' ')) >= 2,
    decreases s.len(),
{
    let init = s.drop_last();
    if j < init.len() {
        assert(init[i] == ' ' && init[j] == ' ');
        lemma_many_spaces(init, i, j);
    } else {
        lemma_some_space(init, i);
    }
}

proof fn lemma_some_space(s: Seq<char>, i: int)
    requires
        0 <= i < s.len(),
        s[i] == ' ',
    ensures
        count_in(s, Class::One(' ')) >= 1,
    decreases s.len(),
{
    let init = s.drop_last();
    if i < init.len() {
        assert(init[i] == ' ');
        lemma_some_space(init, i);
    }
}

/// The body of a kernel message, with the subsystem that says it or without.
pub open spec fn written_body(subsystem: Option<Seq<char>>, message: Seq<char>) -> Seq<char> {
    match subsystem {
        Some(name) => name + seq![':', ' '] + message,
        None => message,
    }
}

/// Where there is a subsystem it is named as one; where there is none, no colon makes
/// the message look as if there were.
pub open spec fn is_writable(subsystem: Option<Seq<char>>, message: Seq<char>) -> bool {
    &&& begins_solid(message)
    &&& match subsystem {
        Some(name) => is_subsystem(name),
        None => lacks(message, ':'),
    }
}

proof fn lemma_body(level: LogLevel, uptime: Option<UptimeView>, subsystem: Option<Seq<char>>, message: Seq<char>)
    requires
        is_writable(subsystem, message),
    ensures
        crate::parser::kernel::kernel_fields(level, uptime, written_body(subsystem, message)) == (Fields {
            level,
            timestamp: None,
            uptime,
            pid: None,
            tid: None,
            uid: None,
            tag: subsystem,
            message,
        }),
        trim_start(written_body(subsystem, message), Class::Space) == written_body(subsystem, message),
{
    let body = written_body(subsystem, message);
    match subsystem {
        Some(name) => {
            assert(lacks(name, ':')) by {
                assert forall|i: int| 0 <= i < name.len() implies (#[trigger] name[i]) != ':' by {
                    assert(is_name_char(name[i]));
                }
            }
            assert(body =~= name + seq![':'] + (seq![' '] + message));
            law_split_once_reads_back(name, ':', seq![' '] + message);
            assert(is_name_char(name[0]) && is_name_char(name.last()));
            lemma_trim_plain(name, Class::Space);
            lemma_one_space(name);
            assert(all_in(name, Class::SubsystemChar)) by {
                assert forall|i: int| 0 <= i < name.len() implies Class::SubsystemChar.has(#[trigger] name[i]) by {
                    assert(is_name_char(name[i]));
                }
            }
            let tail = seq![' '] + message;
            assert(tail[0] == ' ');
            assert(message.len() > 0 ==> tail[1] == message[0]);
            lemma_span_is(tail, Class::Space, true, 1);
            assert(trim_start(tail, Class::Space) =~= message);
            assert(body[0] == name[0]);
        },
        None => {
            law_split_once_reads_back(message, ':', seq![]);
        },
    }
    lemma_span_is(body, Class::Space, true, 0);
    assert(trim_start(body, Class::Space) =~= body);
}

/// A number with a fraction, as the kernel writes the time since boot.
pub open spec fn written_seconds(whole: nat, fraction: Seq<char>) -> Seq<char> {
    dec(whole) + seq!['.'] + fraction
}

proof fn lemma_written_seconds(whole: nat, fraction: Seq<char>)
    requires
        forall|i: int| 0 <= i < fraction.len() ==> is_number_char(#[trigger] fraction[i]),
    ensures
        is_real_literal(written_seconds(whole, fraction)),
        is_solid(written_seconds(whole, fraction)),
        lacks(written_seconds(whole, fraction), ']'),
        is_real_literal(dec(whole)),
{
    lemma_dec_digits(whole);
    let d = dec(whole);
    let s = written_seconds(whole, fraction);
    assert(s[0] == d[0]);
    let n = d.len() as int;
    assert forall|i: int| 0 <= i < n implies Class::Digit.has(#[trigger] s[i]) == true by {
        assert(s[i] == d[i]);
    }
    assert(s[n] == '.');
    lemma_span_is(s, Class::Digit, true, n);
    let rest = s.skip(n);
    assert(rest[0] == '.');
    assert(rest.skip(1) =~= fraction);
    assert forall|i: int| 0 <= i < fraction.len() implies Class::Digit.has(#[trigger] fraction[i]) == true by {}
    lemma_span_is(fraction, Class::Digit, true, fraction.len() as int);
    assert(rest.skip(1).skip(fraction.len() as int) =~= seq![]);
    assert(is_decimal(s));
    assert forall|i: int| 0 <= i < s.len() implies !is_space(#[trigger] s[i]) && s[i] != ']' by {
        if i < n {
            assert(s[i] == d[i]);
        } else if i > n {
            assert(s[i] == fraction[i - n - 1]);
        }
    }
    assert forall|i: int| 0 <= i < n implies Class::Digit.has(#[trigger] d[i]) == true by {}
    lemma_span_is(d, Class::Digit, true, n);
    assert(d.skip(n) =~= seq![]);
    assert(is_decimal(d));
}

/// A `dmesg` line is read back as it was written: its number, the time since boot, the
/// subsystem and the message. Without a number it is information.
pub proof fn law_dmesg_reads_back(
    number: Option<nat>,
    level: LogLevel,
    gap: Seq<char>,
    whole: nat,
    fraction: Seq<char>,
    subsystem: Option<Seq<char>>,
    message: Seq<char>,
)
    requires
        match number {
            Some(number) => number <= 255 && grades(number, level),
            None => level == LogLevel::Info,
        },
        is_gap(gap),
        forall|i: int| 0 <= i < fraction.len() ==> is_number_char(#[trigger] fraction[i]),
        is_writable(subsystem, message),
    ensures
        ({
            let mark = match number {
                Some(number) => seq!['<'] + dec(number) + seq!['>'],
                None => seq![],
            };
            let line = mark + seq!['['] + gap + written_seconds(whole, fraction) + seq![']', ' '] + written_body(
                subsystem,
                message,
            );
            dmesg_fields(line) == Some(
                Fields {
                    level,
                    timestamp: None,
                    uptime: Some(
                        UptimeView { text: written_seconds(whole, fraction), unit: UptimeUnit::Seconds },
                    ),
                    pid: None,
                    tid: None,
                    uid: None,
                    tag: subsystem,
                    message,
                },
            )
        }),
{
    let mark = match number {
        Some(number) => seq!['<'] + dec(number) + seq!['>'],
        None => seq![],
    };
    let text = written_seconds(whole, fraction);
    let body = written_body(subsystem, message);
    let bracket = seq!['['] + gap + text + seq![']', ' '] + body;
    let line = mark + seq!['['] + gap + text + seq![']', ' '] + body;
    assert(line =~= mark + bracket);
    lemma_written_seconds(whole, fraction);
    lemma_body(level, Some(UptimeView { text, unit: UptimeUnit::Seconds }), subsystem, message);
    // The bracket.
    let inner = gap + text;
    assert(lacks(inner, ']')) by {
        assert forall|i: int| 0 <= i < inner.len() implies (#[trigger] inner[i]) != ']' by {
            if i < gap.len() {
                assert(inner[i] == gap[i]);
            } else {
                assert(inner[i] == text[i - gap.len()]);
            }
        }
    }
    assert(bracket.skip(1) =~= inner + seq![']'] + (seq![' '] + body));
    law_split_once_reads_back(inner, ']', seq![' '] + body);
    assert(inner =~= gap + text + seq![]);
    law_trim_reads_back(gap, text, seq![]);
    let tail = seq![' '] + body;
    lemma_one_gap(body);
    assert(bracket[0] == '[');
    lemma_span_is(bracket, Class::Space, true, 0);
    assert(trim_start(bracket, Class::Space) =~= bracket);
    // The mark.
    match number {
        Some(number) => {
            lemma_dec_digits(number);
            crate::text::number::law_dec_reads_back(number);
            let digits = dec(number);
            assert(lacks(digits, '>'));
            assert(line.skip(1) =~= digits + seq!['>'] + bracket);
            law_split_once_reads_back(digits, '>', bracket);
            assert(line[0] == '<');
        },
        None => {
            assert(line =~= bracket);
        },
    }
    lemma_not_blank(line);
}

/// A line that begins with something is not blank.
proof fn lemma_not_blank(line: Seq<char>)
    requires
        line.len() > 0,
        !is_space(line[0]),
    ensures
        trim(line, Class::Space).len() > 0,
{
    lemma_span_is(line, Class::Space, true, 0);
    assert(trim_start(line, Class::Space) =~= line);
    crate::text::search::lemma_tail_span(line, Class::Space, true);
    let n = crate::text::search::tail_span(line, Class::Space, true);
    if n == line.len() {
        assert(Class::Space.has(line[0]));
    }
}

proof fn lemma_one_gap(body: Seq<char>)
    requires
        trim_start(body, Class::Space) == body,
    ensures
        trim_start(seq![' '] + body, Class::Space) == body,
{
    let tail = seq![' '] + body;
    lemma_span(body, Class::Space, true);
    let n = crate::text::search::span(body, Class::Space, true);
    assert(body.skip(n).len() == body.len() - n);
    assert(n == 0);
    assert(tail[0] == ' ');
    assert(body.len() > 0 ==> tail[1] == body[0]);
    lemma_span_is(tail, Class::Space, true, 1);
    assert(tail.skip(1) =~= body);
}

/// A printk line without a time is read back: the number in front is enough. Without
/// either mark a line is no kernel message.
pub proof fn law_printk_reads_back(number: nat, level: LogLevel, subsystem: Option<Seq<char>>, message: Seq<char>)
    requires
        number <= 255,
        grades(number, level),
        is_writable(subsystem, message),
        written_body(subsystem, message).len() > 0,
        written_body(subsystem, message)[0] != '[',
    ensures
        dmesg_fields(seq!['<'] + dec(number) + seq!['>'] + written_body(subsystem, message)) == Some(
            Fields {
                level,
                timestamp: None,
                uptime: None,
                pid: None,
                tid: None,
                uid: None,
                tag: subsystem,
                message,
            },
        ),
        written_body(subsystem, message)[0] != '<' ==> dmesg_fields(written_body(subsystem, message)) is None,
{
    let body = written_body(subsystem, message);
    let digits = dec(number);
    let line = seq!['<'] + digits + seq!['>'] + body;
    lemma_body(level, None, subsystem, message);
    lemma_dec_digits(number);
    crate::text::number::law_dec_reads_back(number);
    assert(lacks(digits, '>'));
    assert(line.skip(1) =~= digits + seq!['>'] + body);
    law_split_once_reads_back(digits, '>', body);
    assert(line[0] == '<');
    lemma_not_blank(line);
}

/// A record of `/dev/kmsg` is read back as it was written: level, time since boot,
/// subsystem and message; the sequence number and the flags are no part of it.
pub proof fn law_kmsg_reads_back(
    number: nat,
    level: LogLevel,
    sequence: nat,
    micros: nat,
    flags: Seq<char>,
    subsystem: Option<Seq<char>>,
    message: Seq<char>,
)
    requires
        number <= 255,
        grades(number, level),
        sequence <= u64::MAX,
        lacks(flags, ','),
        lacks(flags, ';'),
        is_writable(subsystem, message),
        written_body(subsystem, message).len() > 0,
        !is_space(written_body(subsystem, message).last()),
    ensures
        ({
            let line = dec(number) + seq![','] + dec(sequence) + seq![','] + dec(micros) + seq![','] + flags + seq![
                ';',
            ] + written_body(subsystem, message);
            kmsg_fields(line) == Some(
                Fields {
                    level,
                    timestamp: None,
                    uptime: Some(UptimeView { text: dec(micros), unit: UptimeUnit::Micros }),
                    pid: None,
                    tid: None,
                    uid: None,
                    tag: subsystem,
                    message,
                },
            )
        }),
{
    let a = dec(number);
    let b = dec(sequence);
    let c = dec(micros);
    let body = written_body(subsystem, message);
    let line = a + seq![','] + b + seq![','] + c + seq![','] + flags + seq![';'] + body;
    let header = a + seq![','] + b + seq![','] + c + seq![','] + flags;
    lemma_body(level, Some(UptimeView { text: c, unit: UptimeUnit::Micros }), subsystem, message);
    lemma_dec_digits(number);
    lemma_dec_digits(sequence);
    lemma_dec_digits(micros);
    crate::text::number::law_dec_reads_back(number);
    crate::text::number::law_dec_reads_back(sequence);
    assert(lacks(a, ',') && lacks(b, ',') && lacks(c, ','));
    lemma_written_seconds(micros, seq![]);
    assert(line[0] == a[0]);
    assert(line.last() == body.last());
    lemma_trim_plain(line, Class::Space);
    assert(lacks(header, ';')) by {
        let ab = a + seq![','] + b + seq![','];
        let abc = ab + c + seq![','];
        assert(header =~= abc + flags);
        assert forall|i: int| 0 <= i < header.len() implies (#[trigger] header[i]) != ';' by {
            if i < a.len() {
                assert(header[i] == a[i]);
            } else if a.len() < i < a.len() + 1 + b.len() {
                assert(header[i] == b[i - a.len() - 1]);
            } else if ab.len() <= i < ab.len() + c.len() {
                assert(header[i] == c[i - ab.len()]);
            } else if abc.len() <= i {
                assert(header[i] == flags[i - abc.len()]);
            }
        }
    }
    assert(line =~= header + seq![';'] + body);
    law_split_once_reads_back(header, ';', body);
    assert(header =~= a + seq![','] + (b + seq![','] + (c + seq![','] + flags)));
    law_split_reads_back(a, ',', b + seq![','] + (c + seq![','] + flags));
    law_split_reads_back(b, ',', c + seq![','] + flags);
    law_split_reads_back(c, ',', flags);
    law_split_reads_back(flags, ',', seq![]);
    assert(split(header, Class::One(',')) =~= seq![a, b, c, flags]);
    lemma_trim_plain(a, Class::Space);
    lemma_trim_plain(b, Class::Space);
    lemma_trim_plain(c, Class::Space);
}

/// Prose with a colon in it names no subsystem: what stands before the colon is too
/// long, holds two spaces, or holds a character that no name has.
pub proof fn law_prose_names_no_subsystem(
    level: LogLevel,
    uptime: Option<UptimeView>,
    head: Seq<char>,
    rest: Seq<char>,
    i: int,
    j: int,
)
    requires
        head.len() > 0,
        !is_space(head[0]),
        !is_space(head.last()),
        lacks(head, ':'),
        head.len() > 24 || (0 <= i < j < head.len() && head[i] == ' ' && head[j] == ' ') || (0 <= i < head.len()
            && !is_name_char(head[i])),
    ensures
        crate::parser::kernel::kernel_fields(level, uptime, head + seq![':'] + rest).tag is None,
        crate::parser::kernel::kernel_fields(level, uptime, head + seq![':'] + rest).message == head + seq![':'] + rest,
{
    law_split_once_reads_back(head, ':', rest);
    lemma_trim_plain(head, Class::Space);
    if 0 <= i < j < head.len() && head[i] == ' ' && head[j] == ' ' {
        lemma_many_spaces(head, i, j);
    }
    if 0 <= i < head.len() && !is_name_char(head[i]) {
        assert(!Class::SubsystemChar.has(head[i]));
        assert(!all_in(head, Class::SubsystemChar));
    }
}

/// A line of either logcat grammar or of the kernel is recognised without being told
/// which: what logcat wrote is never taken for kernel text.
pub proof fn law_grammars_are_told_apart(line: Seq<char>)
    ensures
        logcat_fields(line) is Some ==> auto_fields(line) == logcat_fields(line),
        logcat_fields(line) is None ==> auto_fields(line) == dmesg_fields(line),
        dmesg_fields(line) is Some ==> either_kernel_fields(line, LogSourceKind::Dmesg) == dmesg_fields(line),
        kmsg_fields(line) is Some ==> either_kernel_fields(line, LogSourceKind::Kmsg) == kmsg_fields(line),
        dmesg_fields(line) is None ==> either_kernel_fields(line, LogSourceKind::Dmesg) == kmsg_fields(line),
        kmsg_fields(line) is None ==> either_kernel_fields(line, LogSourceKind::Kmsg) == dmesg_fields(line),
{
}

/// A word that is one of the letters with which logcat marks severity.
pub open spec fn is_mark(word: Seq<char>) -> bool {
    word.len() == 1 && {
        let c = word[0];
        c == 'V' || c == 'D' || c == 'I' || c == 'W' || c == 'E' || c == 'F' || c == 'A' || c == 'S'
    }
}

/// A `threadtime` line needs all of its columns: four or five words before the colon, of
/// which the last but one marks the severity and the two before that are numbers.
pub proof fn law_threadtime_needs_its_columns(
    date: Seq<char>,
    hours: nat,
    minutes: nat,
    seconds: nat,
    fraction: Seq<char>,
    words: Seq<Seq<char>>,
    gaps: Seq<Seq<char>>,
    tail: Seq<char>,
    message: Seq<char>,
)
    requires
        is_written_date(date),
        hours < 24,
        minutes < 60,
        seconds < 61,
        is_written_fraction(fraction),
        crate::text::laws::all_solid(words),
        forall|i: int| 0 <= i < words.len() ==> lacks(#[trigger] words[i], ':'),
        gaps_for(words, gaps),
        is_gap(tail),
    ensures
        ({
            let time = written_time(hours, minutes, seconds, fraction);
            let line = date + seq![' '] + time + seq![' '] + spread(words, gaps) + tail + seq![':', ' '] + message;
            let n = words.len();
            threadtime_fields(line) is Some <==> (n == 4 || n == 5) && is_mark(words[n - 2]) && parse_i32(words[n - 3])
                is Some && parse_i32(words[n - 4]) is Some
        }),
{
    let time = written_time(hours, minutes, seconds, fraction);
    lemma_written_date(date);
    lemma_written_time(hours, minutes, seconds, fraction);
    lemma_threadtime(date, time, words, gaps, tail, message);
}

/// A time of day is one: hours below 24, minutes below 60, seconds up to a leap second.
pub proof fn law_times_of_day(hours: nat, minutes: nat, seconds: nat, fraction: Seq<char>)
    requires
        hours < 100,
        minutes < 100,
        seconds < 100,
        is_written_fraction(fraction),
    ensures
        time_token(written_time(hours, minutes, seconds, fraction)) <==> hours < 24 && minutes < 60 && seconds <= 60,
{
    let h = two_digits(hours);
    let m = two_digits(minutes);
    let s = two_digits(seconds);
    let time = written_time(hours, minutes, seconds, fraction);
    lemma_two_digits(hours, u32::MAX as nat);
    lemma_two_digits(minutes, u32::MAX as nat);
    lemma_two_digits(seconds, u32::MAX as nat);
    let last = s + fraction;
    assert(lacks(h, ':') && lacks(m, ':') && lacks(s, '.'));
    assert(lacks(last, ':')) by {
        assert forall|i: int| 0 <= i < last.len() implies (#[trigger] last[i]) != ':' by {
            if i >= 2 {
                assert(last[i] == fraction[i - 2]);
            }
        }
    }
    law_split_reads_back(h, ':', m + seq![':'] + last);
    law_split_reads_back(m, ':', last);
    law_split_reads_back(last, ':', seq![]);
    assert(time =~= h + seq![':'] + (m + seq![':'] + last));
    assert(split(time, Class::One(':')) =~= seq![h, m, last]);
    if fraction.len() == 0 {
        assert(last =~= s);
        law_split_reads_back(s, '.', seq![]);
    } else {
        law_split_reads_back(s, '.', fraction.skip(1));
        assert(last =~= s + seq!['.'] + fraction.skip(1));
    }
    assert(split(last, Class::One('.'))[0] == s);
}

/// A line that does not begin with a date of digits and dashes is no `threadtime` line,
/// and one whose first letter marks no severity is no `brief` line either.
pub proof fn law_other_lines_are_raw(line: Seq<char>)
    requires
        line.len() > 0,
        !is_number_char(line[0]),
        line[0] != '-',
    ensures
        threadtime_fields(line) is None,
        !is_mark(seq![line[0]]) ==> logcat_fields(line) is None,
        lacks(line, ':') ==> logcat_fields(line) is None,
{
    let k = Class::One(' ');
    lemma_span(line, k, false);
    match split_once(line, k) {
        Some((date, tail)) => {
            if date.len() > 0 {
                assert(date[0] == line[0]);
                assert(!Class::DateChar.has(date[0]));
                assert(!all_in(date, Class::DateChar));
            }
        },
        None => {},
    }
    let c = Class::One(':');
    lemma_span(line, c, false);
    match split_once(line, c) {
        Some((meta, message)) => {
            let n = crate::text::search::span(line, c, false);
            assert(line[n] == ':');
            let d = Class::One('/');
            lemma_span(meta, d, false);
            match split_once(meta, d) {
                Some((level, rest)) => {
                    if level.len() == 1 {
                        assert(level[0] == line[0]);
                        assert(level =~= seq![line[0]]);
                    }
                },
                None => {},
            }
        },
        None => {},
    }
}

/// A record of `/dev/kmsg` needs its header: four parts, of which the first three are
/// numbers, the first of them a small one.
pub proof fn law_kmsg_needs_its_header(parts: Seq<Seq<char>>, body: Seq<char>)
    requires
        parts.len() > 0,
        forall|i: int| 0 <= i < parts.len() ==> lacks(#[trigger] parts[i], ',') && lacks(parts[i], ';') && is_solid(
            parts[i],
        ),
        body.len() > 0,
        !is_space(body.last()),
    ensures
        kmsg_fields(crate::text::split::join(parts, seq![',']) + seq![';'] + body) is Some <==> parts.len() == 4
            && parse_unsigned(parts[0], 255) is Some && parse_unsigned(parts[1], u64::MAX as nat) is Some
            && is_real_literal(parts[2]),
{
    let header = crate::text::split::join(parts, seq![',']);
    let line = header + seq![';'] + body;
    crate::text::laws::law_lists_read_back(parts, ',');
    lemma_list_lacks(parts);
    law_split_once_reads_back(header, ';', body);
    assert(line[0] == header[0]);
    assert(line.last() == body.last());
    lemma_trim_plain(line, Class::Space);
    if parts.len() == 4 {
        assert(is_solid(parts[0]) && is_solid(parts[1]) && is_solid(parts[2]));
        lemma_trim_plain(parts[0], Class::Space);
        lemma_trim_plain(parts[1], Class::Space);
        lemma_trim_plain(parts[2], Class::Space);
    }
}

proof fn lemma_list_lacks(parts: Seq<Seq<char>>)
    requires
        parts.len() > 0,
        forall|i: int| 0 <= i < parts.len() ==> lacks(#[trigger] parts[i], ';') && is_solid(parts[i]),
    ensures
        lacks(crate::text::split::join(parts, seq![',']), ';'),
        crate::text::split::join(parts, seq![',']).len() > 0,
        !is_space(crate::text::split::join(parts, seq![','])[0]),
    decreases parts.len(),
{
    assert(lacks(parts[0], ';') && is_solid(parts[0]));
    if parts.len() > 1 {
        let rest = parts.skip(1);
        assert forall|i: int| 0 <= i < rest.len() implies lacks(#[trigger] rest[i], ';') && is_solid(rest[i]) by {
            assert(rest[i] == parts[i + 1]);
        }
        lemma_list_lacks(rest);
        crate::text::split::lemma_join_front(parts, seq![',']);
        let whole = crate::text::split::join(parts, seq![',']);
        let tail = crate::text::split::join(rest, seq![',']);
        assert forall|i: int| 0 <= i < whole.len() implies (#[trigger] whole[i]) != ';' by {
            if i < parts[0].len() {
                assert(whole[i] == parts[0][i]);
            } else if i > parts[0].len() {
                assert(whole[i] == tail[i - parts[0].len() - 1]);
            }
        }
        assert(whole[0] == parts[0][0]);
    }
}

/// A character that a number is written with.
pub open spec fn is_real_char(c: char) -> bool {
    ||| '0' <= c <= '9'
    ||| c == '.'
    ||| c == '+'
    ||| c == '-'
    ||| c == 'e'
    ||| c == 'E'
}

/// What is no number is not taken for one: a number holds a digit and nothing but the
/// characters of numbers, or is one of the three words for what is not finite.
pub proof fn law_what_is_no_number(s: Seq<char>, i: int)
    requires
        0 <= i < s.len(),
        !is_real_char(s[i]),
    ensures
        is_real_literal(s) ==> {
            let t = if s[0] == '+' || s[0] == '-' { s.skip(1) } else { s };
            ||| crate::text::laws::same_letters(t, "inf"@)
            ||| crate::text::laws::same_letters(t, "infinity"@)
            ||| crate::text::laws::same_letters(t, "nan"@)
        },
        !is_real_literal(Seq::<char>::empty()),
{
    let t = if s[0] == '+' || s[0] == '-' { s.skip(1) } else { s };
    let j = if s[0] == '+' || s[0] == '-' { i - 1 } else { i };
    assert(t[j] == s[i]);
    if is_decimal(t) {
        lemma_decimal_chars(t, j);
    }
    reveal_strlit("inf");
    reveal_strlit("infinity");
    reveal_strlit("nan");
    assert(ascii_lower("inf"@) =~= "inf"@);
    assert(ascii_lower("infinity"@) =~= "infinity"@);
    assert(ascii_lower("nan"@) =~= "nan"@);
    crate::text::laws::law_ascii_folding(t, "inf"@);
    crate::text::laws::law_ascii_folding(t, "infinity"@);
    crate::text::laws::law_ascii_folding(t, "nan"@);
    let none = Seq::<char>::empty();
    lemma_span_is(none, Class::Digit, true, 0);
    assert(none.skip(0) =~= none);
    assert(!is_decimal(none));
    assert(ascii_lower(none) =~= none);
}

proof fn lemma_decimal_chars(s: Seq<char>, i: int)
    requires
        is_decimal(s),
        0 <= i < s.len(),
    ensures
        is_real_char(s[i]),
{
    let k = Class::Digit;
    lemma_span(s, k, true);
    let whole = crate::text::search::span(s, k, true);
    let rest = s.skip(whole);
    if i < whole {
        assert(k.has(s[i]));
    } else {
        let pointed = rest.len() > 0 && rest[0] == '.';
        let after = if pointed { rest.skip(1) } else { rest };
        lemma_span(after, k, true);
        let fraction = if pointed { crate::text::search::span(after, k, true) } else { 0 };
        let tail = if pointed { after.skip(fraction) } else { rest };
        let at = whole + (if pointed { 1int } else { 0int }) + fraction;
        if i < at {
            if pointed && i > whole {
                assert(after[i - whole - 1] == s[i]);
                assert(k.has(after[i - whole - 1]));
            } else {
                assert(rest[0] == s[whole]);
            }
        } else {
            let e = i - at;
            assert(tail[e] == s[i]);
            if e > 0 {
                let t = tail.skip(1);
                assert(t[e - 1] == tail[e]);
                let signed = t.len() > 0 && (t[0] == '+' || t[0] == '-');
                let digits = if signed { t.skip(1) } else { t };
                if signed && e > 1 {
                    assert(digits[e - 2] == t[e - 1]);
                    assert(k.has(digits[e - 2]));
                } else if !signed {
                    assert(k.has(digits[e - 1]));
                }
            }
        }
    }
}

/// A word that people write for a level.
pub open spec fn is_word_for(word: Seq<char>, level: LogLevel) -> bool {
    match level {
        LogLevel::Verbose => same_letters(word, "verbose"@) || same_letters(word, "v"@),
        LogLevel::Debug => same_letters(word, "debug"@) || same_letters(word, "d"@),
        LogLevel::Info => same_letters(word, "info"@) || same_letters(word, "i"@),
        LogLevel::Warn => same_letters(word, "warn"@) || same_letters(word, "warning"@) || same_letters(word, "w"@),
        LogLevel::Error => same_letters(word, "error"@) || same_letters(word, "e"@),
        LogLevel::Fatal => same_letters(word, "fatal"@) || same_letters(word, "f"@) || same_letters(word, "assert"@)
            || same_letters(word, "a"@),
        LogLevel::Unknown => same_letters(word, "unknown"@) || word == seq!['?'] || word.len() == 0,
    }
}

proof fn lemma_level_words(word: Seq<char>)
    ensures
        ({
            let low = ascii_lower(word);
            &&& same_letters(word, "verbose"@) <==> low == "verbose"@
            &&& same_letters(word, "v"@) <==> low == "v"@
            &&& same_letters(word, "debug"@) <==> low == "debug"@
            &&& same_letters(word, "d"@) <==> low == "d"@
            &&& same_letters(word, "info"@) <==> low == "info"@
            &&& same_letters(word, "i"@) <==> low == "i"@
            &&& same_letters(word, "warn"@) <==> low == "warn"@
            &&& same_letters(word, "warning"@) <==> low == "warning"@
            &&& same_letters(word, "w"@) <==> low == "w"@
            &&& same_letters(word, "error"@) <==> low == "error"@
            &&& same_letters(word, "e"@) <==> low == "e"@
            &&& same_letters(word, "fatal"@) <==> low == "fatal"@
            &&& same_letters(word, "f"@) <==> low == "f"@
            &&& same_letters(word, "assert"@) <==> low == "assert"@
            &&& same_letters(word, "a"@) <==> low == "a"@
            &&& same_letters(word, "unknown"@) <==> low == "unknown"@
        }),
{
    lemma_lower_literals();
    law_ascii_folding(word, "verbose"@);
    law_ascii_folding(word, "v"@);
    law_ascii_folding(word, "debug"@);
    law_ascii_folding(word, "d"@);
    law_ascii_folding(word, "info"@);
    law_ascii_folding(word, "i"@);
    law_ascii_folding(word, "warn"@);
    law_ascii_folding(word, "warning"@);
    law_ascii_folding(word, "w"@);
    law_ascii_folding(word, "error"@);
    law_ascii_folding(word, "e"@);
    law_ascii_folding(word, "fatal"@);
    law_ascii_folding(word, "f"@);
    law_ascii_folding(word, "assert"@);
    law_ascii_folding(word, "a"@);
    law_ascii_folding(word, "unknown"@);
}

proof fn lemma_lower_literals()
    ensures
        ascii_lower("verbose"@) == "verbose"@,
        ascii_lower("v"@) == "v"@,
        ascii_lower("debug"@) == "debug"@,
        ascii_lower("d"@) == "d"@,
        ascii_lower("info"@) == "info"@,
        ascii_lower("i"@) == "i"@,
        ascii_lower("warn"@) == "warn"@,
        ascii_lower("warning"@) == "warning"@,
        ascii_lower("w"@) == "w"@,
        ascii_lower("error"@) == "error"@,
        ascii_lower("e"@) == "e"@,
        ascii_lower("fatal"@) == "fatal"@,
        ascii_lower("f"@) == "f"@,
        ascii_lower("assert"@) == "assert"@,
        ascii_lower("a"@) == "a"@,
        ascii_lower("unknown"@) == "unknown"@,
{
    reveal_strlit("verbose");
    reveal_strlit("v");
    reveal_strlit("debug");
    reveal_strlit("d");
    reveal_strlit("info");
    reveal_strlit("i");
    reveal_strlit("warn");
    reveal_strlit("warning");
    reveal_strlit("w");
    reveal_strlit("error");
    reveal_strlit("e");
    reveal_strlit("fatal");
    reveal_strlit("f");
    reveal_strlit("assert");
    reveal_strlit("a");
    reveal_strlit("unknown");
    assert(ascii_lower("verbose"@) =~= "verbose"@);
    assert(ascii_lower("v"@) =~= "v"@);
    assert(ascii_lower("debug"@) =~= "debug"@);
    assert(ascii_lower("d"@) =~= "d"@);
    assert(ascii_lower("info"@) =~= "info"@);
    assert(ascii_lower("i"@) =~= "i"@);
    assert(ascii_lower("warn"@) =~= "warn"@);
    assert(ascii_lower("warning"@) =~= "warning"@);
    assert(ascii_lower("w"@) =~= "w"@);
    assert(ascii_lower("error"@) =~= "error"@);
    assert(ascii_lower("e"@) =~= "e"@);
    assert(ascii_lower("fatal"@) =~= "fatal"@);
    assert(ascii_lower("f"@) =~= "f"@);
    assert(ascii_lower("assert"@) =~= "assert"@);
    assert(ascii_lower("a"@) =~= "a"@);
    assert(ascii_lower("unknown"@) =~= "unknown"@);
}

/// A level is named by its word or its letter, whatever their case and the space around
/// them, and by nothing else.
pub proof fn law_level_words(before: Seq<char>, word: Seq<char>, after: Seq<char>, level: LogLevel)
    requires
        is_gap(before),
        is_gap(after),
        word.len() > 0 ==> !is_space(word[0]) && !is_space(word.last()),
    ensures
        LogLevel::named(before + word + after) == Some(level) ==> is_word_for(word, level),
        is_word_for(word, level) ==> LogLevel::named(before + word + after) == Some(level),
{
    law_trim_reads_back(before, word, after);
    lemma_level_words(word);
    lemma_distinct_levels();
    reveal_strlit("?");
    reveal_strlit("");
    let low = ascii_lower(word);
    assert(low.len() == word.len());
    assert("?"@ =~= seq!['?']);
    assert(""@ =~= seq![]);
    if word.len() == 0 {
        assert(low =~= seq![]);
    }
    if word == seq!['?'] {
        assert(low =~= seq!['?']);
    }
    if low == "?"@ {
        law_ascii_folding(word, seq!['?']);
        assert(ascii_lower(seq!['?']) =~= seq!['?']);
        assert(crate::text::laws::same_letter(word[0], '?'));
        assert(word[0] == '?') by {
            assert(low[0] == '?');
        }
        assert(word =~= seq!['?']);
    }
}

proof fn lemma_distinct_levels()
    ensures
        "v"@ =~= seq!['v'],
        "d"@ =~= seq!['d'],
        "i"@ =~= seq!['i'],
        "w"@ =~= seq!['w'],
        "e"@ =~= seq!['e'],
        "f"@ =~= seq!['f'],
        "a"@ =~= seq!['a'],
        "verbose"@.len() == 7 && "verbose"@[0] == 'v',
        "debug"@.len() == 5 && "debug"@[0] == 'd',
        "info"@.len() == 4 && "info"@[0] == 'i',
        "warn"@.len() == 4 && "warn"@[0] == 'w',
        "warning"@.len() == 7 && "warning"@[0] == 'w',
        "error"@.len() == 5 && "error"@[0] == 'e',
        "fatal"@.len() == 5 && "fatal"@[0] == 'f',
        "assert"@.len() == 6 && "assert"@[0] == 'a',
        "unknown"@.len() == 7 && "unknown"@[0] == 'u',
{
    reveal_strlit("verbose");
    reveal_strlit("v");
    reveal_strlit("debug");
    reveal_strlit("d");
    reveal_strlit("info");
    reveal_strlit("i");
    reveal_strlit("warn");
    reveal_strlit("warning");
    reveal_strlit("w");
    reveal_strlit("error");
    reveal_strlit("e");
    reveal_strlit("fatal");
    reveal_strlit("f");
    reveal_strlit("assert");
    reveal_strlit("a");
    reveal_strlit("unknown");
}

/// A record is exported as one line: its time, the letter of its level, its process, its
/// thread and its tag, each a dash where there is none, and then its message.
pub proof fn law_exported_lines(record: RecordView, letter: char)
    requires
        (marks(letter, record.fields.level) && letter != 'A' && letter != 'S') || (letter == '?' && record.fields.level
            == LogLevel::Unknown),
    ensures
        ({
            let f = record.fields;
            let time = if f.timestamp is Some { f.timestamp->0 } else { seq!['-'] };
            let pid = if f.pid is Some { dec_int(f.pid->0 as int) } else { seq!['-'] };
            let tid = if f.tid is Some { dec_int(f.tid->0 as int) } else { seq!['-'] };
            let tag = if f.tag is Some { f.tag->0 } else { seq!['-'] };
            record.export_line() == time + seq![' ', letter, ' '] + pid + seq![' '] + tid + seq![' '] + tag + seq![
                ':',
                ' ',
            ] + f.message
        }),
{
    reveal_strlit("-");
    reveal_strlit(" ");
    reveal_strlit(": ");
    let f = record.fields;
    let time = if f.timestamp is Some { f.timestamp->0 } else { seq!['-'] };
    assert("-"@ =~= seq!['-']);
    assert(" "@ =~= seq![' ']);
    assert(": "@ =~= seq![':', ' ']);
    assert(record.fields.level.letter() == letter);
    assert(time + " "@ + seq![letter] + " "@ =~= time + seq![' ', letter, ' ']);
}

/// A number beyond a byte is no kernel level.
pub proof fn law_kernel_levels_are_bytes(number: nat, body: Seq<char>)
    requires
        number > 255,
        body.len() > 0,
    ensures
        dmesg_fields(seq!['<'] + dec(number) + seq!['>'] + body) is None,
{
    let digits = dec(number);
    let line = seq!['<'] + digits + seq!['>'] + body;
    lemma_dec_digits(number);
    crate::text::number::law_dec_reads_back(number);
    assert(lacks(digits, '>'));
    assert(line.skip(1) =~= digits + seq!['>'] + body);
    law_split_once_reads_back(digits, '>', body);
    assert(line[0] == '<');
    lemma_span_is(line, Class::Space, true, 0);
    assert(trim_start(line, Class::Space) =~= line);
}

/// A date has five or ten characters, and none but digits and dashes.
pub proof fn law_dates(date: Seq<char>)
    ensures
        date_token(date) <==> (date.len() == 5 || date.len() == 10) && forall|i: int|
            0 <= i < date.len() ==> is_number_char(#[trigger] date[i]) || date[i] == '-',
{
    if date_token(date) {
        assert forall|i: int| 0 <= i < date.len() implies is_number_char(#[trigger] date[i]) || date[i] == '-' by {
            assert(Class::DateChar.has(date[i]));
        }
    }
    if forall|i: int| 0 <= i < date.len() ==> is_number_char(#[trigger] date[i]) || date[i] == '-' {
        assert forall|i: int| 0 <= i < date.len() implies Class::DateChar.has(#[trigger] date[i]) by {
            assert(is_number_char(date[i]) || date[i] == '-');
        }
    }
}

/// A `brief` line needs a letter of a level and a tag.
pub proof fn law_brief_needs_its_tag(word: Seq<char>, gap: Seq<char>, message: Seq<char>)
    requires
        is_solid(word),
        lacks(word, ':'),
        lacks(word, '/'),
        'A' <= word[0] <= 'Z',
        is_gap(gap),
    ensures
        logcat_fields(word + seq!['/'] + gap + seq![':'] + message) is None,
        !is_mark(word) ==> logcat_fields(word + seq!['/', 't', ':'] + message) is None,
{
    let blank = word + seq!['/'] + gap + seq![':'] + message;
    lemma_no_date(blank);
    let meta = word + seq!['/'] + gap;
    assert(lacks(meta, ':')) by {
        assert forall|i: int| 0 <= i < meta.len() implies (#[trigger] meta[i]) != ':' by {
            if i < word.len() {
                assert(meta[i] == word[i]);
            } else if i > word.len() {
                assert(meta[i] == gap[i - word.len() - 1]);
            }
        }
    }
    law_split_once_reads_back(meta, ':', message);
    law_split_once_reads_back(word, '/', gap);
    assert(lacks(gap, '('));
    law_split_once_reads_back(gap, '(', seq![]);
    assert(gap + Seq::<char>::empty() + Seq::<char>::empty() =~= gap);
    law_trim_reads_back(gap, seq![], seq![]);
    let named = word + seq!['/', 't', ':'] + message;
    lemma_no_date(named);
    let other = word + seq!['/', 't'];
    assert(named =~= other + seq![':'] + message);
    assert(lacks(other, ':')) by {
        assert forall|i: int| 0 <= i < other.len() implies (#[trigger] other[i]) != ':' by {
            if i < word.len() {
                assert(other[i] == word[i]);
            }
        }
    }
    law_split_once_reads_back(other, ':', message);
    assert(other =~= word + seq!['/'] + seq!['t']);
    law_split_once_reads_back(word, '/', seq!['t']);
}

/// A letter stands for the level that it names as a word, in either case; any other letter
/// stands for none.
pub proof fn law_level_letters(letter: char, level: LogLevel)
    requires
        level != LogLevel::Unknown,
    ensures
        LogLevel::of_letter(letter) == level <==> is_word_for(seq![letter], level),
{
    lemma_distinct_levels();
    let word = seq![letter];
    assert(word.len() == 1);
    assert(word[0] == letter);
    lemma_level_words(word);
    assert(ascii_lower(word) =~= seq![crate::text::class::lower_char(letter)]);
    let low = ascii_lower(word)[0];
    assert("v"@[0] == 'v' && "d"@[0] == 'd' && "i"@[0] == 'i' && "w"@[0] == 'w' && "e"@[0] == 'e' && "f"@[0] == 'f'
        && "a"@[0] == 'a');
    assert(low == 'v' ==> ascii_lower(word) =~= "v"@);
    assert(low == 'd' ==> ascii_lower(word) =~= "d"@);
    assert(low == 'i' ==> ascii_lower(word) =~= "i"@);
    assert(low == 'w' ==> ascii_lower(word) =~= "w"@);
    assert(low == 'e' ==> ascii_lower(word) =~= "e"@);
    assert(low == 'f' ==> ascii_lower(word) =~= "f"@);
    assert(low == 'a' ==> ascii_lower(word) =~= "a"@);
}

} // verus!
