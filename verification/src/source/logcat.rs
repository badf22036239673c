//! The `logcat` collector.

use vstd::prelude::*;
use crate::parser::parse_logcat;
use crate::parser::record::LogRecord;
use crate::source::shell::{quote, quoted, shell_words};
use crate::source::{
    effective_command, spec, LogSource, LogSourceKind, LogSourceSpec, LogcatBuffer, OptionsView, SourceOptions,
};
use crate::text::chars::{chars_of, concat2, lemma_views_push, string_of, views};
use crate::text::class::Class;
use crate::text::number::{dec_int, i32_text};
use crate::text::search::{trim, trim_of};
use crate::text::split::{join, join_strings};

verus! {

/// Streams `logcat -v threadtime` from the device.
#[derive(Debug, Clone, Copy)]
pub struct LogcatSource;

impl LogcatSource {
    /// Creates the collector.
    pub fn new() -> (r: Self)
        ensures
            r.source_kind() == LogSourceKind::Logcat,
    {
        LogcatSource
    }
}

impl Default for LogcatSource {
    fn default() -> (r: Self)
        ensures
            r.source_kind() == LogSourceKind::Logcat,
    {
        LogcatSource
    }
}

impl LogSource for LogcatSource {
    open spec fn source_kind(&self) -> LogSourceKind {
        LogSourceKind::Logcat
    }

    fn kind(&self) -> (r: LogSourceKind) {
        LogSourceKind::Logcat
    }

    fn spec(&self) -> (r: &'static LogSourceSpec) {
        spec(LogSourceKind::Logcat)
    }

    fn command(&self, options: &SourceOptions) -> (r: String) {
        let built: String = build_command(options);
        effective_command(options, built.as_str())
    }

    fn parse_line(&self, line: &str, seq: u64) -> (r: LogRecord) {
        match parse_logcat(line, seq) {
            Some(record) => record,
            None => LogRecord::raw_line(LogSourceKind::Logcat, seq, line),
        }
    }
}

/// `--uid=N` for a uid that is not negative.
pub open spec fn uid_words(uid: Option<i32>) -> Seq<Seq<char>> {
    match uid {
        Some(uid) if uid >= 0 => seq!["--uid="@ + dec_int(uid as int)],
        _ => seq![],
    }
}

/// `--pid=N` for each positive process id.
pub open spec fn pid_words(pids: Seq<i32>) -> Seq<Seq<char>>
    decreases pids.len(),
{
    if pids.len() == 0 {
        seq![]
    } else if pids.last() > 0 {
        pid_words(pids.drop_last()).push("--pid="@ + dec_int(pids.last() as int))
    } else {
        pid_words(pids.drop_last())
    }
}

/// Each tag that is not blank, without the space around it and quoted.
pub open spec fn quoted_tags(tags: Seq<Seq<char>>) -> Seq<Seq<char>>
    decreases tags.len(),
{
    if tags.len() == 0 {
        seq![]
    } else {
        let tag = trim(tags.last(), Class::Space);
        if tag.len() == 0 {
            quoted_tags(tags.drop_last())
        } else {
            quoted_tags(tags.drop_last()).push(quoted(tag))
        }
    }
}

/// `-s` and the tags, where there is a tag.
pub open spec fn tag_words(tags: Seq<Seq<char>>) -> Seq<Seq<char>> {
    let usable = quoted_tags(tags);
    if usable.len() == 0 {
        seq![]
    } else {
        seq!["-s"@] + usable
    }
}

/// The words of the built-in invocation.
pub open spec fn logcat_words(options: OptionsView) -> Seq<Seq<char>> {
    seq!["logcat"@, "-v"@, "threadtime"@] + options.buffer_args() + uid_words(options.uid) + pid_words(
        options.pids,
    ) + tag_words(options.tags)
}

/// The built-in invocation:
/// `logcat -v threadtime -b <buffers> [--uid=N] [--pid=N ...] [-s tag ...]`.
pub open spec fn logcat_command(options: OptionsView) -> Seq<char> {
    join(logcat_words(options), " "@)
}

/// Without options logcat prints its default buffers.
pub(crate) proof fn lemma_plain_logcat()
    ensures
        logcat_command(OptionsView::unrestricted()) == "logcat -v threadtime -b main,system,crash"@,
{
    let plain = OptionsView::unrestricted();
    reveal_strlit("main");
    reveal_strlit("system");
    reveal_strlit("crash");
    reveal_strlit(",");
    reveal_strlit(" ");
    reveal_strlit("logcat");
    reveal_strlit("-v");
    reveal_strlit("threadtime");
    reveal_strlit("-b");
    reveal_strlit("main,system,crash");
    reveal_strlit("logcat -v threadtime -b main,system,crash");
    let names = plain.effective_buffers().map_values(|b: LogcatBuffer| b.name());
    assert(names =~= seq!["main"@, "system"@, "crash"@]);
    assert(names.drop_last() =~= seq!["main"@, "system"@]);
    assert(names.drop_last().drop_last() =~= seq!["main"@]);
    reveal_with_fuel(join, 6);
    assert(join(names, ","@) =~= "main,system,crash"@);
    let words = logcat_words(plain);
    let all = "main,system,crash"@;
    assert(words =~= seq!["logcat"@, "-v"@, "threadtime"@, "-b"@, all]);
    assert(words.drop_last() =~= seq!["logcat"@, "-v"@, "threadtime"@, "-b"@]);
    assert(words.drop_last().drop_last() =~= seq!["logcat"@, "-v"@, "threadtime"@]);
    assert(words.drop_last().drop_last().drop_last() =~= seq!["logcat"@, "-v"@]);
    assert(words.drop_last().drop_last().drop_last().drop_last() =~= seq!["logcat"@]);
    assert(join(words, " "@) =~= "logcat -v threadtime -b main,system,crash"@);
}

/// Appends the strings of `more` to `words`.
fn extend(words: &mut Vec<String>, more: Vec<String>)
    ensures
        views(final(words)@) == views(old(words)@) + views(more@),
{
    let mut more: Vec<String> = more;
    let ghost before = words@;
    let ghost added = more@;
    words.append(&mut more);
    assert(views(words@) =~= views(before) + views(added));
}

fn pid_args(pids: &Vec<i32>) -> (r: Vec<String>)
    ensures
        views(r@) == pid_words(pids@),
{
    let mut r: Vec<String> = Vec::new();
    assert(views(r@) =~= seq![]);
    let mut i: usize = 0;
    while i < pids.len()
        invariant
            i <= pids@.len(),
            views(r@) == pid_words(pids@.take(i as int)),
        decreases pids@.len() - i,
    {
        assert(pids@.take(i as int + 1).drop_last() =~= pids@.take(i as int));
        if pids[i] > 0 {
            let number: String = i32_text(pids[i]);
            let word: String = concat2("--pid=", number.as_str());
            proof {
                lemma_views_push(r@, word);
            }
            r.push(word);
        }
        i += 1;
    }
    assert(pids@.take(i as int) =~= pids@);
    r
}

fn tag_args(tags: &Vec<String>) -> (r: Vec<String>)
    ensures
        views(r@) == quoted_tags(views(tags@)),
{
    let mut r: Vec<String> = Vec::new();
    assert(views(r@) =~= seq![]);
    let mut i: usize = 0;
    while i < tags.len()
        invariant
            i <= tags@.len(),
            views(r@) == quoted_tags(views(tags@).take(i as int)),
        decreases tags@.len() - i,
    {
        assert(views(tags@).take(i as int + 1).drop_last() =~= views(tags@).take(i as int));
        assert(views(tags@).take(i as int + 1).last() == tags@[i as int]@);
        let cs: Vec<char> = chars_of(tags[i].as_str());
        let tag: &[char] = trim_of(cs.as_slice(), Class::Space);
        if tag.len() > 0 {
            let word: String = quote(string_of(tag).as_str());
            proof {
                lemma_views_push(r@, word);
            }
            r.push(word);
        }
        i += 1;
    }
    assert(views(tags@).take(i as int) =~= views(tags@));
    r
}

/// Builds the built-in `logcat` invocation for `options`.
///
/// `threadtime` is pinned because it is the only stable, fully populated text
/// format. Narrowing on the device only saves bandwidth: the filter remains
/// authoritative, because a process id goes stale when the app restarts.
pub fn build_command(options: &SourceOptions) -> (r: String)
    ensures
        r@ == logcat_command(options@),
{
    let mut words: Vec<String> = vec!["logcat".to_owned(), "-v".to_owned(), "threadtime".to_owned()];
    assert(views(words@) =~= seq!["logcat"@, "-v"@, "threadtime"@]);
    extend(&mut words, options.buffer_args());
    let mut uid: Vec<String> = Vec::new();
    if let Some(number) = options.uid {
        if number >= 0 {
            let text: String = i32_text(number);
            uid.push(concat2("--uid=", text.as_str()));
        }
    }
    assert(views(uid@) =~= uid_words(options@.uid));
    extend(&mut words, uid);
    extend(&mut words, pid_args(&options.pids));
    let tags: Vec<String> = tag_args(&options.tags);
    assert(views(tags@).len() == tags@.len());
    // `-s` asks for these tags only, so it must not stand without one.
    let ghost before = views(words@);
    if tags.len() > 0 {
        let flag: Vec<String> = vec!["-s".to_owned()];
        assert(views(flag@) =~= seq!["-s"@]);
        extend(&mut words, flag);
        extend(&mut words, tags);
        assert(views(words@) =~= before + tag_words(options@.tags));
    } else {
        assert(before =~= before + tag_words(options@.tags));
    }
    join_strings(&words, " ")
}

/// A tag reaches the device as one shell word that reads back as the tag, whatever
/// it holds.
pub proof fn law_tags_are_single_words(tags: Seq<Seq<char>>, i: int)
    requires
        0 <= i < quoted_tags(tags).len(),
    ensures
        exists|j: int|
            0 <= j < tags.len() && shell_words(#[trigger] quoted_tags(tags)[i]) == Some(
                seq![trim(#[trigger] tags[j], Class::Space)],
            ),
    decreases tags.len(),
{
    let init = tags.drop_last();
    let tag = trim(tags.last(), Class::Space);
    if tag.len() > 0 && i == quoted_tags(tags).len() - 1 {
        crate::source::shell::law_shell_reads_back_quoted(tag);
        let j = tags.len() - 1;
        assert(quoted_tags(tags)[i] == quoted(tag));
        assert(shell_words(quoted_tags(tags)[i]) == Some(seq![trim(tags[j], Class::Space)]));
    } else {
        law_tags_are_single_words(init, i);
        let j = choose|j: int|
            0 <= j < init.len() && shell_words(#[trigger] quoted_tags(init)[i]) == Some(
                seq![trim(#[trigger] init[j], Class::Space)],
            );
        assert(tags[j] == init[j]);
        assert(quoted_tags(tags)[i] == quoted_tags(init)[i]);
    }
}

} // verus!
