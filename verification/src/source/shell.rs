//! POSIX shell quoting for device-side command strings.
//!
//! A source command runs as `adb shell "<command>"`: the device's `sh` parses the
//! string again, so a value from outside goes through [`quote`].

use vstd::prelude::*;
use crate::text::chars::{chars_of, lemma_views_push, views};
use crate::text::class::Class;
use crate::text::search::{all_in, all_of};
use crate::text::split::join as joined;

verus! {

/// A word that the shell reads as itself.
pub open spec fn bare_safe(s: Seq<char>) -> bool {
    s.len() > 0 && all_in(s, Class::ShellSafe)
}

/// `s` with every single quote replaced by `'\''`.
pub open spec fn escaped(s: Seq<char>) -> Seq<char>
    decreases s.len(),
{
    if s.len() == 0 {
        seq![]
    } else if s.last() == '\'' {
        escaped(s.drop_last()) + seq!['\'', '\\', '\'', '\'']
    } else {
        escaped(s.drop_last()).push(s.last())
    }
}

/// How `s` is written as one word of a shell command.
pub open spec fn quoted(s: Seq<char>) -> Seq<char> {
    if bare_safe(s) {
        s
    } else {
        seq!['\''] + escaped(s) + seq!['\'']
    }
}

/// Each argument as one word.
pub open spec fn quoted_all(args: Seq<Seq<char>>) -> Seq<Seq<char>> {
    args.map_values(|arg: Seq<char>| quoted(arg))
}

/// The words that `sh` reads out of `s`, where `word` has been read of the current
/// word and `open` says that there is one.
///
/// Inside single quotes every character stands for itself up to the next single
/// quote. Outside, a space ends a word, a backslash makes the next character stand
/// for itself, a single quote opens a quoted part, and a character without a meaning
/// to the shell stands for itself. Anything else is not a plain list of words.
pub open spec fn shell_read(s: Seq<char>, inside: bool, word: Seq<char>, open: bool) -> Option<Seq<Seq<char>>>
    decreases s.len(),
{
    if s.len() == 0 {
        if inside {
            None
        } else if open {
            Some(seq![word])
        } else {
            Some(seq![])
        }
    } else if inside {
        if s[0] == '\'' {
            shell_read(s.skip(1), false, word, true)
        } else {
            shell_read(s.skip(1), true, word.push(s[0]), true)
        }
    } else if s[0] == ' ' {
        match shell_read(s.skip(1), false, seq![], false) {
            Some(rest) => Some(
                if open {
                    seq![word] + rest
                } else {
                    rest
                },
            ),
            None => None,
        }
    } else if s[0] == '\'' {
        shell_read(s.skip(1), true, word, true)
    } else if s[0] == '\\' && s.len() >= 2 {
        shell_read(s.skip(2), false, word.push(s[1]), true)
    } else if Class::ShellSafe.has(s[0]) {
        shell_read(s.skip(1), false, word.push(s[0]), true)
    } else {
        None
    }
}

/// The words of a command line.
pub open spec fn shell_words(s: Seq<char>) -> Option<Seq<Seq<char>>> {
    shell_read(s, false, seq![], false)
}

/// True when `arg` needs no quoting.
pub fn is_bare_safe(arg: &str) -> (r: bool)
    ensures
        r == bare_safe(arg@),
{
    let cs: Vec<char> = chars_of(arg);
    cs.len() > 0 && all_of(cs.as_slice(), Class::ShellSafe)
}

/// Quotes `arg` for `sh`, leaving already-safe words untouched.
///
/// Embedded single quotes are escaped with the standard `'\''` sequence.
pub fn quote(arg: &str) -> (r: String)
    ensures
        r@ == quoted(arg@),
{
    if is_bare_safe(arg) {
        return arg.to_owned();
    }
    let cs: Vec<char> = chars_of(arg);
    let mut out: String = String::new();
    out.push('\'');
    let mut i: usize = 0;
    assert(out@ =~= seq!['\''] + escaped(cs@.take(0)));
    while i < cs.len()
        invariant
            i <= cs@.len(),
            out@ == seq!['\''] + escaped(cs@.take(i as int)),
        decreases cs@.len() - i,
    {
        let ghost before = out@;
        let ghost longer = cs@.take(i as int + 1);
        assert(longer.drop_last() =~= cs@.take(i as int));
        if cs[i] == '\'' {
            out.push('\'');
            out.push('\\');
            out.push('\'');
            out.push('\'');
            assert(out@ =~= seq!['\''] + escaped(longer));
        } else {
            out.push(cs[i]);
            assert(out@ =~= seq!['\''] + escaped(longer));
        }
        i += 1;
    }
    assert(cs@.take(i as int) =~= arg@);
    out.push('\'');
    assert(out@ =~= quoted(arg@));
    out
}

/// Quotes every argument and joins them with spaces.
pub fn join(args: &[String]) -> (r: String)
    ensures
        r@ == joined(quoted_all(views(args@)), seq![' ']),
{
    let mut words: Vec<String> = Vec::new();
    let mut i: usize = 0;
    while i < args.len()
        invariant
            i <= args@.len(),
            views(words@) =~= quoted_all(views(args@)).take(i as int),
        decreases args@.len() - i,
    {
        let word: String = quote(args[i].as_str());
        proof {
            lemma_views_push(words@, word);
        }
        words.push(word);
        i += 1;
    }
    assert(views(words@) =~= quoted_all(views(args@)));
    proof {
        reveal_strlit(" ");
        assert(" "@ =~= seq![' ']);
    }
    crate::text::split::join_strings(&words, " ")
}

/// Reading bare characters extends the current word by them.
proof fn lemma_bare_read(s: Seq<char>, tail: Seq<char>, word: Seq<char>, open: bool)
    requires
        all_in(s, Class::ShellSafe),
    ensures
        shell_read(s + tail, false, word, open) == shell_read(tail, false, word + s, open || s.len() > 0),
    decreases s.len(),
{
    if s.len() > 0 {
        assert(Class::ShellSafe.has(s[0]));
        let rest = s.skip(1);
        assert forall|i: int| 0 <= i < rest.len() implies Class::ShellSafe.has(#[trigger] rest[i]) by {
            assert(Class::ShellSafe.has(s[i + 1]));
        }
        lemma_bare_read(rest, tail, word.push(s[0]), true);
        assert((s + tail).skip(1) =~= rest + tail);
        assert(word.push(s[0]) + rest =~= word + s);
    } else {
        assert(s + tail =~= tail);
        assert(word + s =~= word);
    }
}

/// Reading an escaped text inside quotes extends the current word by the text.
proof fn lemma_escaped_read(s: Seq<char>, tail: Seq<char>, word: Seq<char>)
    ensures
        shell_read(escaped(s) + tail, true, word, true) == shell_read(tail, true, word + s, true),
    decreases s.len(),
{
    if s.len() == 0 {
        assert(escaped(s) + tail =~= tail);
        assert(word + s =~= word);
    } else {
        let init = s.drop_last();
        let c = s.last();
        let mark = if c == '\'' {
            seq!['\'', '\\', '\'', '\'']
        } else {
            seq![c]
        };
        let longer = mark + tail;
        let grown = word + init;
        assert(escaped(s) =~= escaped(init) + mark);
        assert(escaped(s) + tail =~= escaped(init) + longer);
        lemma_escaped_read(init, longer, word);
        reveal_with_fuel(shell_read, 4);
        if c == '\'' {
            assert(longer.skip(1).skip(2) =~= seq!['\''] + tail);
            assert((seq!['\''] + tail).skip(1) =~= tail);
            assert(longer.skip(1)[0] == '\\');
            assert(longer.skip(1)[1] == '\'');
        } else {
            assert(longer.skip(1) =~= tail);
        }
        assert(grown.push(c) =~= word + s);
    }
}

/// Reading a quoted argument gives the argument as the current word.
proof fn lemma_quoted_read(arg: Seq<char>, tail: Seq<char>)
    ensures
        shell_read(quoted(arg) + tail, false, seq![], false) == shell_read(tail, false, arg, true),
{
    assert(Seq::<char>::empty() + arg =~= arg);
    if bare_safe(arg) {
        lemma_bare_read(arg, tail, seq![], false);
    } else {
        let closing = seq!['\''] + tail;
        let text = quoted(arg) + tail;
        lemma_escaped_read(arg, closing, seq![]);
        assert(text.skip(1) =~= escaped(arg) + closing);
        assert(text[0] == '\'');
        assert(closing.skip(1) =~= tail);
    }
}

/// The shell reads a quoted argument as one word, and the word is the argument:
/// nothing inside it has a meaning of its own.
pub proof fn law_shell_reads_back_quoted(arg: Seq<char>)
    ensures
        shell_words(quoted(arg)) == Some(seq![arg]),
{
    lemma_quoted_read(arg, seq![]);
    assert(quoted(arg) + Seq::<char>::empty() =~= quoted(arg));
}

/// The shell reads joined arguments as exactly these arguments.
pub proof fn law_shell_reads_back_joined(args: Seq<Seq<char>>)
    ensures
        shell_words(joined(quoted_all(args), seq![' '])) == Some(args),
    decreases args.len(),
{
    let words = quoted_all(args);
    if args.len() == 0 {
        assert(args =~= seq![]);
    } else if args.len() == 1 {
        law_shell_reads_back_quoted(args[0]);
        assert(args =~= seq![args[0]]);
    } else {
        let rest = args.skip(1);
        law_shell_reads_back_joined(rest);
        crate::text::split::lemma_join_front(words, seq![' ']);
        assert(words.skip(1) =~= quoted_all(rest));
        let tail = seq![' '] + joined(quoted_all(rest), seq![' ']);
        assert(joined(words, seq![' ']) =~= quoted(args[0]) + tail);
        lemma_quoted_read(args[0], tail);
        assert(tail.skip(1) =~= joined(quoted_all(rest), seq![' ']));
        assert(seq![args[0]] + rest =~= args);
    }
}

} // verus!
