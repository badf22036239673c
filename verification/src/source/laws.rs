//! What the collectors promise of the commands that they run.

use vstd::prelude::*;
use crate::source::logcat::{logcat_command, logcat_words, pid_words, quoted_tags, tag_words};
use crate::source::shell::{
    bare_safe, escaped, law_shell_reads_back_joined, law_shell_reads_back_quoted, quoted, quoted_all, shell_words,
};
use crate::source::{spec_of, LogSourceKind, LogcatBuffer, OptionsView, ParserKind};
use crate::text::class::{ascii_lower, is_space, Class};
use crate::text::laws::{is_gap, law_ascii_folding, law_trim_reads_back, lemma_dec_digits, same_letters};
use crate::text::number::{dec, dec_int};
use crate::text::search::{all_in, trim};
use crate::text::split::join;

verus! {

/// A character that means something to the shell, or ends a word.
pub open spec fn is_special(c: char) -> bool {
    ||| c == ' ' || c == '\t' || c == '\n' || c == '\r'
    ||| c == '\'' || c == '"' || c == '`' || c == '\\'
    ||| c == '$' || c == '&' || c == '|' || c == ';'
    ||| c == '<' || c == '>' || c == '(' || c == ')'
    ||| c == '*' || c == '?' || c == '[' || c == ']'
    ||| c == '{' || c == '}' || c == '~' || c == '#'
    ||| c == '!' || c == '%' || c == '^' || c == '\0'
    ||| c >= '\u{80}'
}

proof fn lemma_escaped_is_longer(s: Seq<char>)
    ensures
        escaped(s).len() >= s.len(),
    decreases s.len(),
{
    if s.len() > 0 {
        lemma_escaped_is_longer(s.drop_last());
    }
}

/// An argument is left as it is only where nothing of it means anything to the shell.
/// Any other stands inside single quotes; one without a single quote stands there as it
/// is.
pub proof fn law_what_is_quoted(arg: Seq<char>)
    ensures
        (exists|i: int| 0 <= i < arg.len() && is_special(#[trigger] arg[i])) || arg.len() == 0 ==> {
            let word = quoted(arg);
            &&& word.len() >= arg.len() + 2
            &&& word[0] == '\''
            &&& word.last() == '\''
        },
        (forall|i: int| 0 <= i < arg.len() ==> (#[trigger] arg[i]) != '\'') ==> quoted(arg) == arg || quoted(arg)
            == seq!['\''] + arg + seq!['\''],
        quoted(arg) == arg <==> arg.len() > 0 && forall|i: int|
            0 <= i < arg.len() ==> {
                let c = #[trigger] arg[i];
                ||| 'a' <= c <= 'z'
                ||| 'A' <= c <= 'Z'
                ||| '0' <= c <= '9'
                ||| c == '_' || c == '-' || c == '.' || c == '=' || c == ':' || c == '/' || c == '@' || c == '+'
                    || c == ','
            },
{
    lemma_escaped_is_longer(arg);
    if exists|i: int| 0 <= i < arg.len() && is_special(#[trigger] arg[i]) {
        let i = choose|i: int| 0 <= i < arg.len() && is_special(#[trigger] arg[i]);
        assert(!Class::ShellSafe.has(arg[i]));
        assert(!bare_safe(arg));
    }
    if forall|i: int| 0 <= i < arg.len() ==> (#[trigger] arg[i]) != '\'' {
        lemma_nothing_to_escape(arg);
    }
    if bare_safe(arg) {
        assert forall|i: int| 0 <= i < arg.len() implies Class::ShellSafe.has(#[trigger] arg[i]) by {}
    }
}

proof fn lemma_nothing_to_escape(s: Seq<char>)
    requires
        forall|i: int| 0 <= i < s.len() ==> (#[trigger] s[i]) != '\'',
    ensures
        escaped(s) == s,
    decreases s.len(),
{
    if s.len() > 0 {
        let init = s.drop_last();
        assert forall|i: int| 0 <= i < init.len() implies (#[trigger] init[i]) != '\'' by {
            assert(init[i] == s[i]);
        }
        lemma_nothing_to_escape(init);
        assert(escaped(s) =~= s);
    } else {
        assert(escaped(s) =~= s);
    }
}

proof fn lemma_plain(word: Seq<char>)
    requires
        word.len() > 0,
        forall|i: int|
            0 <= i < word.len() ==> ('a' <= #[trigger] word[i] <= 'z' || '0' <= word[i] <= '9' || word[i] == '-'
                || word[i] == '=' || word[i] == ','),
    ensures
        quoted(word) == word,
{
    assert(all_in(word, Class::ShellSafe));
}

/// The names of the buffers as they stand in the command.
pub open spec fn buffer_list(names: Seq<Seq<char>>) -> Seq<char>
    decreases names.len(),
{
    if names.len() == 0 {
        seq![]
    } else if names.len() == 1 {
        names[0]
    } else {
        buffer_list(names.drop_last()) + seq![','] + names.last()
    }
}

pub open spec fn is_list_char(c: char) -> bool {
    'a' <= c <= 'z' || c == ','
}

proof fn lemma_buffer_list(names: Seq<Seq<char>>)
    requires
        forall|i: int, j: int|
            0 <= i < names.len() && 0 <= j < names[i].len() ==> is_list_char(#[trigger] names[i][j]),
    ensures
        buffer_list(names) == join(names, ","@),
        forall|j: int| 0 <= j < buffer_list(names).len() ==> is_list_char(#[trigger] buffer_list(names)[j]),
        names.len() > 0 && names[0].len() > 0 ==> buffer_list(names).len() > 0,
    decreases names.len(),
{
    reveal_strlit(",");
    if names.len() > 1 {
        let init = names.drop_last();
        assert forall|i: int, j: int| 0 <= i < init.len() && 0 <= j < init[i].len() implies is_list_char(
            #[trigger] init[i][j],
        ) by {
            assert(init[i] == names[i]);
            assert(is_list_char(names[i][j]));
        }
        lemma_buffer_list(init);
        assert(","@ =~= seq![',']);
        let all = buffer_list(names);
        let first = buffer_list(init);
        assert forall|j: int| 0 <= j < all.len() implies is_list_char(#[trigger] all[j]) by {
            if j < first.len() {
                assert(all[j] == first[j]);
            } else if j > first.len() {
                assert(all[j] == names.last()[j - first.len() - 1]);
                assert(is_list_char(names[names.len() - 1][j - first.len() - 1]));
            }
        }
    } else if names.len() == 1 {
        reveal_with_fuel(join, 2);
        assert(names.drop_last() =~= seq![]);
        assert(join(names, ","@) =~= names[0]);
        assert forall|j: int| 0 <= j < buffer_list(names).len() implies is_list_char(
            #[trigger] buffer_list(names)[j],
        ) by {
            assert(is_list_char(names[0][j]));
        }
    }
}

/// A process is named for every id above 0, in order, and none for another.
pub proof fn law_processes_are_named(pids: Seq<i32>, pid: i32)
    ensures
        pid_words(seq![]).len() == 0,
        pid > 0 ==> pid_words(pids.push(pid)) == pid_words(pids).push("--pid="@ + dec_int(pid as int)),
        pid <= 0 ==> pid_words(pids.push(pid)) == pid_words(pids),
{
    assert(pids.push(pid).drop_last() =~= pids);
}

/// A tag is asked for under its own name, whatever space is around it; a blank one is
/// left out.
pub proof fn law_tags_are_named(tags: Seq<Seq<char>>, before: Seq<char>, tag: Seq<char>, after: Seq<char>)
    requires
        is_gap(before),
        is_gap(after),
        tag.len() > 0 ==> !is_space(tag[0]) && !is_space(tag.last()),
    ensures
        quoted_tags(seq![]).len() == 0,
        tag.len() > 0 ==> quoted_tags(tags.push(before + tag + after)).len() == quoted_tags(tags).len() + 1
            && quoted_tags(tags.push(before + tag + after)).drop_last() == quoted_tags(tags) && shell_words(
            quoted_tags(tags.push(before + tag + after)).last(),
        ) == Some(seq![tag]),
        tag.len() == 0 ==> quoted_tags(tags.push(before + tag + after)) == quoted_tags(tags),
        tag_words(seq![]).len() == 0,
        quoted_tags(tags).len() > 0 ==> tag_words(tags) == seq!["-s"@] + quoted_tags(tags),
        quoted_tags(tags).len() == 0 ==> tag_words(tags).len() == 0,
{
    let given = before + tag + after;
    assert(tags.push(given).drop_last() =~= tags);
    law_trim_reads_back(before, tag, after);
    law_shell_reads_back_quoted(tag);
    if tag.len() > 0 {
        assert(quoted_tags(tags.push(given)).drop_last() =~= quoted_tags(tags));
    }
}

proof fn lemma_option(head: Seq<char>, n: int)
    requires
        head == "--uid="@ || head == "--pid="@,
        n >= 0,
    ensures
        quoted(head + dec_int(n)) == head + dec_int(n),
{
    reveal_strlit("--uid=");
    reveal_strlit("--pid=");
    lemma_dec_digits(n as nat);
    let word = head + dec_int(n);
    assert forall|i: int| 0 <= i < word.len() implies ('a' <= #[trigger] word[i] <= 'z' || '0' <= word[i] <= '9'
        || word[i] == '-' || word[i] == '=' || word[i] == ',') by {
        if i < head.len() {
            assert(word[i] == head[i]);
        } else {
            assert(word[i] == dec(n as nat)[i - head.len()]);
        }
    }
    lemma_plain(word);
}

/// The tags that are asked for: those that are not blank, without the space around them.
pub open spec fn asked_tags(tags: Seq<Seq<char>>) -> Seq<Seq<char>> {
    tags.map_values(|tag: Seq<char>| trim(tag, Class::Space)).filter(|tag: Seq<char>| tag.len() > 0)
}

/// The processes that are asked for.
pub open spec fn asked_processes(pids: Seq<i32>) -> Seq<Seq<char>> {
    pids.filter(|pid: i32| pid > 0).map_values(|pid: i32| "--pid="@ + dec_int(pid as int))
}

proof fn lemma_asked_tags(tags: Seq<Seq<char>>)
    ensures
        quoted_tags(tags) == quoted_all(asked_tags(tags)),
    decreases tags.len(),
{
    reveal(Seq::filter);
    let trimmed = tags.map_values(|tag: Seq<char>| trim(tag, Class::Space));
    if tags.len() > 0 {
        lemma_asked_tags(tags.drop_last());
        assert(trimmed.drop_last() =~= tags.drop_last().map_values(|tag: Seq<char>| trim(tag, Class::Space)));
        assert(trimmed.last() == trim(tags.last(), Class::Space));
        assert(quoted_tags(tags) =~= quoted_all(asked_tags(tags)));
    } else {
        assert(trimmed =~= seq![]);
        assert(quoted_tags(tags) =~= quoted_all(asked_tags(tags)));
    }
}

proof fn lemma_asked_processes(pids: Seq<i32>)
    ensures
        pid_words(pids) == asked_processes(pids),
        quoted_all(pid_words(pids)) == pid_words(pids),
    decreases pids.len(),
{
    reveal(Seq::filter);
    if pids.len() > 0 {
        lemma_asked_processes(pids.drop_last());
        if pids.last() > 0 {
            lemma_option("--pid="@, pids.last() as int);
        }
    }
    assert(pid_words(pids) =~= asked_processes(pids));
    assert(quoted_all(pid_words(pids)) =~= pid_words(pids));
}

/// The word for a buffer.
pub open spec fn is_word_for_buffer(word: Seq<char>, buffer: LogcatBuffer) -> bool {
    ||| word == "main"@ && buffer == LogcatBuffer::Main
    ||| word == "system"@ && buffer == LogcatBuffer::System
    ||| word == "crash"@ && buffer == LogcatBuffer::Crash
    ||| word == "events"@ && buffer == LogcatBuffer::Events
    ||| word == "radio"@ && buffer == LogcatBuffer::Radio
    ||| word == "kernel"@ && buffer == LogcatBuffer::Kernel
    ||| word == "security"@ && buffer == LogcatBuffer::Security
    ||| word == "stats"@ && buffer == LogcatBuffer::Stats
}

proof fn lemma_buffer_words(names: Seq<Seq<char>>, buffers: Seq<LogcatBuffer>)
    requires
        names.len() == buffers.len(),
        forall|i: int| 0 <= i < names.len() ==> is_word_for_buffer(#[trigger] names[i], buffers[i]),
    ensures
        names == buffers.map_values(|b: LogcatBuffer| b.name()),
        forall|i: int| 0 <= i < names.len() ==> (#[trigger] names[i]).len() > 0,
        forall|i: int, j: int|
            0 <= i < names.len() && 0 <= j < names[i].len() ==> is_list_char(#[trigger] names[i][j]),
{
    reveal_strlit("main");
    reveal_strlit("system");
    reveal_strlit("crash");
    reveal_strlit("events");
    reveal_strlit("radio");
    reveal_strlit("kernel");
    reveal_strlit("security");
    reveal_strlit("stats");
    assert forall|i: int, j: int| 0 <= i < names.len() && 0 <= j < names[i].len() implies is_list_char(
        #[trigger] names[i][j],
    ) by {
        assert(is_word_for_buffer(names[i], buffers[i]));
    }
    assert(names =~= buffers.map_values(|b: LogcatBuffer| b.name()));
}

/// The shell reads out of the command what was asked for and nothing else: logcat in its
/// `threadtime` form, the buffers (without any the main, the system and the crash
/// buffer), the uid unless it is negative, the processes and the tags.
pub proof fn law_the_logcat_command_is_read(options: OptionsView, names: Seq<Seq<char>>)
    requires
        options.buffers.len() > 0 ==> names.len() == options.buffers.len() && forall|i: int|
            0 <= i < names.len() ==> is_word_for_buffer(#[trigger] names[i], options.buffers[i]),
        options.buffers.len() == 0 ==> names == seq!["main"@, "system"@, "crash"@],
    ensures
        ({
            let head = seq!["logcat"@, "-v"@, "threadtime"@, "-b"@, buffer_list(names)];
            let uid = match options.uid {
                Some(uid) if uid >= 0 => seq!["--uid="@ + dec_int(uid as int)],
                _ => seq![],
            };
            let pids = asked_processes(options.pids);
            let tags = asked_tags(options.tags);
            let rest = if tags.len() > 0 {
                seq!["-s"@] + tags
            } else {
                seq![]
            };
            shell_words(logcat_command(options)) == Some(head + uid + pids + rest)
        }),
{
    let head = seq!["logcat"@, "-v"@, "threadtime"@, "-b"@, buffer_list(names)];
    let uid = match options.uid {
        Some(uid) if uid >= 0 => seq!["--uid="@ + dec_int(uid as int)],
        _ => seq![],
    };
    let pids = asked_processes(options.pids);
    let tags = asked_tags(options.tags);
    let rest = if tags.len() > 0 {
        seq!["-s"@] + tags
    } else {
        seq![]
    };
    let args = head + uid + pids + rest;
    let default: Seq<LogcatBuffer> = seq![LogcatBuffer::Main, LogcatBuffer::System, LogcatBuffer::Crash];
    let buffers = if options.buffers.len() == 0 {
        default
    } else {
        options.buffers
    };
    assert(options.effective_buffers() == buffers);
    lemma_buffer_words(names, buffers);
    lemma_buffer_list(names);
    assert(names[0].len() > 0);
    let list = buffer_list(names);
    assert forall|i: int| 0 <= i < list.len() implies ('a' <= #[trigger] list[i] <= 'z' || '0' <= list[i] <= '9'
        || list[i] == '-' || list[i] == '=' || list[i] == ',') by {
        assert(is_list_char(buffer_list(names)[i]));
    }
    lemma_plain(list);
    lemma_asked_tags(options.tags);
    lemma_asked_processes(options.pids);
    match options.uid {
        Some(uid) if uid >= 0 => {
            lemma_option("--uid="@, uid as int);
        },
        _ => {},
    }
    assert(quoted_all(head) =~= head) by {
        reveal_strlit("logcat");
        reveal_strlit("-v");
        reveal_strlit("threadtime");
        reveal_strlit("-b");
        lemma_plain("logcat"@);
        lemma_plain("-v"@);
        lemma_plain("threadtime"@);
        lemma_plain("-b"@);
    }
    assert(quoted_all(uid) =~= uid);
    assert(quoted_all(rest) =~= tag_words(options.tags)) by {
        reveal_strlit("-s");
        lemma_plain("-s"@);
    }
    assert(quoted_all(args) =~= quoted_all(head) + quoted_all(uid) + quoted_all(pids) + quoted_all(rest));
    assert(logcat_words(options) =~= quoted_all(args));
    reveal_strlit(" ");
    assert(" "@ =~= seq![' ']);
    law_shell_reads_back_joined(args);
}

/// What a source needs follows from where its lines come from: the kernel's ring is read
/// by root alone, the recovery's files in the recovery alone, and only a stream takes
/// another command.
pub proof fn law_what_a_source_needs(kind: LogSourceKind)
    ensures
        ({
            let spec = spec_of(kind);
            let streams = kind == LogSourceKind::Logcat || kind == LogSourceKind::Dmesg || kind == LogSourceKind::Kmsg;
            &&& spec.kind == kind
            &&& spec.requires_root <==> kind == LogSourceKind::Dmesg || kind == LogSourceKind::Kmsg
            &&& spec.requires_recovery <==> kind == LogSourceKind::Recovery
            &&& spec.supports_custom_command <==> streams
            &&& kind.orchestrated() <==> !streams
            &&& spec.parser == ParserKind::Auto <==> !streams
            &&& spec.parser == ParserKind::LogcatThreadtime <==> kind == LogSourceKind::Logcat
            &&& spec.parser == ParserKind::KernelDmesg <==> kind == LogSourceKind::Dmesg
            &&& spec.parser == ParserKind::KernelKmsg <==> kind == LogSourceKind::Kmsg
        }),
{
}

/// A word that people write for a source.
pub open spec fn is_word_for_source(word: Seq<char>, kind: LogSourceKind) -> bool {
    match kind {
        LogSourceKind::Logcat => same_letters(word, "logcat"@),
        LogSourceKind::Dmesg => same_letters(word, "dmesg"@),
        LogSourceKind::Kmsg => same_letters(word, "kmsg"@),
        LogSourceKind::Crash => same_letters(word, "crash"@) || same_letters(word, "crashlog"@),
        LogSourceKind::Boot => same_letters(word, "boot"@) || same_letters(word, "bootlog"@),
        LogSourceKind::Recovery => same_letters(word, "recovery"@),
    }
}

/// A source is named by its words, whatever their case and the space around them, and by
/// nothing else.
pub proof fn law_source_words(before: Seq<char>, word: Seq<char>, after: Seq<char>, kind: LogSourceKind)
    requires
        is_gap(before),
        is_gap(after),
        word.len() > 0 ==> !is_space(word[0]) && !is_space(word.last()),
    ensures
        LogSourceKind::named(before + word + after) == Some(kind) <==> is_word_for_source(word, kind),
{
    law_trim_reads_back(before, word, after);
    reveal_strlit("logcat");
    reveal_strlit("dmesg");
    reveal_strlit("kmsg");
    reveal_strlit("crash");
    reveal_strlit("crashlog");
    reveal_strlit("boot");
    reveal_strlit("bootlog");
    reveal_strlit("recovery");
    assert(ascii_lower("logcat"@) =~= "logcat"@);
    assert(ascii_lower("dmesg"@) =~= "dmesg"@);
    assert(ascii_lower("kmsg"@) =~= "kmsg"@);
    assert(ascii_lower("crash"@) =~= "crash"@);
    assert(ascii_lower("crashlog"@) =~= "crashlog"@);
    assert(ascii_lower("boot"@) =~= "boot"@);
    assert(ascii_lower("bootlog"@) =~= "bootlog"@);
    assert(ascii_lower("recovery"@) =~= "recovery"@);
    law_ascii_folding(word, "logcat"@);
    law_ascii_folding(word, "dmesg"@);
    law_ascii_folding(word, "kmsg"@);
    law_ascii_folding(word, "crash"@);
    law_ascii_folding(word, "crashlog"@);
    law_ascii_folding(word, "boot"@);
    law_ascii_folding(word, "bootlog"@);
    law_ascii_folding(word, "recovery"@);
}

} // verus!
