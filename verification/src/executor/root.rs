//! Root (`su -c`) transport details and capability probing.

use vstd::prelude::*;
use crate::executor::{shell_plan, CommandPlan, ExecMode, ExecOutput, ExecTarget, OutputView};
use crate::text::chars::{chars_of, concat2, is_word, opt_view, string_of, views};
use crate::text::class::Class;
use crate::text::number::{dec_int, i32_text};
use crate::text::laws::{lacks, law_lines_read_back};
use crate::text::search::{any_in, any_of, ends_with, ends_with_word, trim, trim_of};
use crate::text::split::{lines, lines_of, tokens, tokens_of};

verus! {

/// The command that asks the device who `su` makes us.
///
/// The number of `id -u` is the verdict, since a number is never localised; the
/// line of `id` is what is shown.
pub const ID_COMMAND: &'static str = "id -u; id";

/// The adb-side words of a device command.
pub open spec fn shell_words(mode: ExecMode, command: Seq<char>) -> Seq<Seq<char>> {
    match mode {
        ExecMode::Adb => seq!["shell"@, command],
        ExecMode::Root => seq!["shell"@, "su"@, "-c"@, command],
    }
}

/// Builds the adb-side argument list for `remote_command` under `mode`.
pub fn shell_args(mode: ExecMode, remote_command: &str) -> (r: Vec<String>)
    ensures
        views(r@) == shell_words(mode, remote_command@),
{
    let r: Vec<String> = match mode {
        ExecMode::Adb => vec!["shell".to_owned(), remote_command.to_owned()],
        ExecMode::Root => vec![
            "shell".to_owned(),
            "su".to_owned(),
            "-c".to_owned(),
            remote_command.to_owned(),
        ],
    };
    assert(views(r@) =~= shell_words(mode, remote_command@));
    r
}

/// Outcome of a root capability probe.
#[derive(Debug)]
pub struct RootProbe {
    /// True when `su -c` reported the superuser.
    pub available: bool,
    /// The `id` line when available.
    pub identity: Option<String>,
    /// Why root is unavailable.
    pub reason: Option<String>,
}

#[verifier::ext_equal]
pub struct RootProbeView {
    pub available: bool,
    pub identity: Option<Seq<char>>,
    pub reason: Option<Seq<char>>,
}

impl View for RootProbe {
    type V = RootProbeView;

    open spec fn view(&self) -> RootProbeView {
        RootProbeView {
            available: self.available,
            identity: opt_view(self.identity),
            reason: opt_view(self.reason),
        }
    }
}

impl Clone for RootProbe {
    fn clone(&self) -> (r: Self)
        ensures
            r@ == self@,
    {
        RootProbe {
            available: self.available,
            identity: crate::text::chars::clone_opt(&self.identity),
            reason: crate::text::chars::clone_opt(&self.reason),
        }
    }
}

/// A negative probe carrying a reason.
pub open spec fn no_root(reason: Seq<char>) -> RootProbeView {
    RootProbeView { available: false, identity: None, reason: Some(reason) }
}

impl RootProbe {
    /// A negative probe carrying a reason.
    pub fn unavailable(reason: &str) -> (r: Self)
        ensures
            r@ == no_root(reason@),
    {
        RootProbe { available: false, identity: None, reason: Some(reason.to_owned()) }
    }
}

/// A line that shows the superuser: the bare uid `0`, or a line of `id` whose first
/// field is `=0(root)` or `=0` after its name, in whatever language.
pub open spec fn root_line(line: Seq<char>) -> bool {
    let first = tokens(line)[0];
    line == "0"@ || (tokens(line).len() > 0 && (any_in(line, Class::One('=')) || any_in(line, Class::One('：')))
        && (ends_with(first, "=0(root)"@) || ends_with(first, "=0"@)))
}

/// Some line of the output shows the superuser.
pub open spec fn root_identity(stdout: Seq<char>) -> bool {
    exists|i: int| 0 <= i < lines(stdout).len() && root_line(trim(#[trigger] lines(stdout)[i], Class::Space))
}

fn is_root_line(line: &[char]) -> (r: bool)
    ensures
        r == root_line(line@),
{
    if is_word(line, "0") {
        return true;
    }
    let words: Vec<&[char]> = tokens_of(line);
    if words.len() == 0 {
        assert(views(words@).len() == 0);
        return false;
    }
    assert(views(words@)[0] == words@[0]@);
    (any_of(line, Class::One('=')) || any_of(line, Class::One('：'))) && (ends_with_word(words[0], "=0(root)")
        || ends_with_word(words[0], "=0"))
}

/// Returns true when the probe output shows the superuser account.
///
/// Only the leading field of a line is trusted: the list of groups may end in
/// `=0(root)` too and says nothing about the effective uid.
pub fn is_root_identity(stdout: &str) -> (r: bool)
    ensures
        r == root_identity(stdout@),
{
    let cs: Vec<char> = chars_of(stdout);
    let all: Vec<&[char]> = lines_of(cs.as_slice());
    let mut i: usize = 0;
    while i < all.len()
        invariant
            i <= all@.len(),
            views(all@) == lines(stdout@),
            forall|j: int| 0 <= j < i ==> !root_line(trim(#[trigger] lines(stdout@)[j], Class::Space)),
        decreases all@.len() - i,
    {
        assert(lines(stdout@)[i as int] == views(all@)[i as int]);
        if is_root_line(trim_of(all[i], Class::Space)) {
            return true;
        }
        i += 1;
    }
    assert(lines(stdout@).len() == all@.len()) by {
        assert(views(all@).len() == all@.len());
    }
    false
}

/// The last line that is not blank, without the space around it; empty where there
/// is none.
pub open spec fn last_text(all: Seq<Seq<char>>) -> Seq<char>
    decreases all.len(),
{
    if all.len() == 0 {
        seq![]
    } else {
        let line = trim(all.last(), Class::Space);
        if line.len() > 0 {
            line
        } else {
            last_text(all.drop_last())
        }
    }
}

/// The human-readable identity: the `id` line, not the bare uid before it.
fn identity_line(stdout: &str) -> (r: String)
    ensures
        r@ == last_text(lines(stdout@)),
{
    let cs: Vec<char> = chars_of(stdout);
    let all: Vec<&[char]> = lines_of(cs.as_slice());
    let ghost every = views(all@);
    let mut n: usize = all.len();
    assert(every.take(n as int) =~= every);
    while n > 0
        invariant
            n <= all@.len(),
            every == views(all@),
            last_text(every) == last_text(every.take(n as int)),
            every == lines(stdout@),
        decreases n,
    {
        assert(every.take(n as int).drop_last() =~= every.take(n as int - 1));
        assert(every.take(n as int).last() == all@[n as int - 1]@);
        let line: &[char] = trim_of(all[n - 1], Class::Space);
        if line.len() > 0 {
            return string_of(line);
        }
        n -= 1;
    }
    let r: String = String::new();
    assert(r@ =~= last_text(every));
    r
}

/// Why a probe that did not show the superuser failed: stderr, else the last line
/// of stdout, else the exit code.
pub open spec fn refusal(output: OutputView) -> Seq<char> {
    let stderr = trim(output.stderr, Class::Space);
    let shown = last_text(lines(output.stdout));
    if stderr.len() > 0 {
        stderr
    } else if shown.len() > 0 {
        shown
    } else {
        "su 返回退出码 "@ + dec_int(output.code as int)
    }
}

/// What a probe's output says of root.
pub open spec fn interpreted(output: OutputView) -> RootProbeView {
    if output.success() && root_identity(output.stdout) {
        RootProbeView { available: true, identity: Some(last_text(lines(output.stdout))), reason: None }
    } else {
        no_root(refusal(output))
    }
}

/// Turns the result of `su -c "id -u; id"` into a [`RootProbe`].
pub fn interpret(output: &ExecOutput) -> (r: RootProbe)
    ensures
        r@ == interpreted(output@),
{
    if output.is_success() && is_root_identity(output.stdout.as_str()) {
        return RootProbe {
            available: true,
            identity: Some(identity_line(output.stdout.as_str())),
            reason: None,
        };
    }
    let cs: Vec<char> = chars_of(output.stderr.as_str());
    let stderr: &[char] = trim_of(cs.as_slice(), Class::Space);
    let stdout: String = identity_line(output.stdout.as_str());
    let reason: String = if stderr.len() > 0 {
        string_of(stderr)
    } else if !stdout.as_str().is_empty() {
        stdout
    } else {
        let code: String = i32_text(output.code);
        concat2("su 返回退出码 ", code.as_str())
    };
    RootProbe { available: false, identity: None, reason: Some(reason) }
}

/// The plan of the root probe of a device.
pub fn probe_plan(adb_program: &str, serial: Option<&str>) -> (r: CommandPlan)
    ensures
        r@ == shell_plan(ExecMode::Root, crate::executor::opt_str(serial), adb_program@, ID_COMMAND@),
{
    ExecTarget::new(ExecMode::Root, serial, adb_program).plan(ID_COMMAND)
}

/// A probe is available exactly when it succeeded and showed the superuser; it has
/// an identity exactly when it is available, and a reason exactly when it is not.
pub proof fn law_probe_explains_itself(output: OutputView)
    ensures
        ({
            let probe = interpreted(output);
            &&& probe.available == (output.code == 0 && root_identity(output.stdout))
            &&& probe.available == (probe.identity is Some)
            &&& probe.available == (probe.reason is None)
        }),
{
}

/// A line says that the account is the superuser's where it is a zero, or where its first
/// word ends in `=0` or `=0(root)`; what stands behind the first word says nothing of it.
pub proof fn law_who_is_root(account: Seq<char>, tail: Seq<char>, before: Seq<char>, rest: Seq<char>)
    requires
        forall|i: int| 0 <= i < account.len() ==> !crate::text::class::is_space(#[trigger] account[i]),
        tail.len() > 0 ==> tail[0] == ' ' && !crate::text::class::is_space(tail.last()),
        lacks(tail, '\n'),
        lacks(before, '\n'),
        lacks(before, '\r'),
    ensures
        root_line(seq!['0']),
        root_line(account + seq!['=', '0'] + tail),
        root_line(account + seq!['=', '0', '(', 'r', 'o', 'o', 't', ')'] + tail),
        account.len() > 0 && account.last() != '0' && account.last() != ')' && account + tail != seq!['0']
            ==> !root_line(account + tail),
        root_identity(before + seq!['\n'] + rest) <==> root_line(trim(before, Class::Space)) || root_identity(rest),
        !root_identity(Seq::<char>::empty()),
{
    reveal_strlit("0");
    reveal_strlit("=0");
    reveal_strlit("=0(root)");
    assert("0"@ =~= seq!['0']);
    let short = account + seq!['=', '0'];
    let long = account + seq!['=', '0', '(', 'r', 'o', 'o', 't', ')'];
    lemma_first_word(short, tail);
    lemma_first_word(long, tail);
    assert(short.skip(short.len() - 2) =~= "=0"@);
    assert(long.skip(long.len() - 8) =~= "=0(root)"@);
    assert((short + tail)[account.len() as int] == '=');
    assert(Class::One('=').has((short + tail)[account.len() as int]));
    assert((long + tail)[account.len() as int] == '=');
    assert(Class::One('=').has((long + tail)[account.len() as int]));
    if account.len() > 0 {
        lemma_first_word(account, tail);
        if ends_with(account, "=0"@) {
            assert(account.skip(account.len() - 2)[1] == account.last());
        }
        if ends_with(account, "=0(root)"@) {
            assert(account.skip(account.len() - 8)[7] == account.last());
        }
    }
    law_lines_read_back(before, rest);
    let text = before + seq!['\n'] + rest;
    let all = lines(text);
    assert(all == seq![before] + lines(rest));
    if root_identity(text) {
        let i = choose|i: int| 0 <= i < all.len() && root_line(trim(#[trigger] all[i], Class::Space));
        if i > 0 {
            assert(lines(rest)[i - 1] == all[i]);
        } else {
            assert(all[0] == before);
        }
    }
    if root_line(trim(before, Class::Space)) {
        assert(all[0] == before);
    }
    if root_identity(rest) {
        let i = choose|i: int| 0 <= i < lines(rest).len() && root_line(trim(#[trigger] lines(rest)[i], Class::Space));
        assert(all[i + 1] == lines(rest)[i]);
    }
}

proof fn lemma_first_word(word: Seq<char>, tail: Seq<char>)
    requires
        word.len() > 0,
        forall|i: int| 0 <= i < word.len() ==> !crate::text::class::is_space(#[trigger] word[i]),
        tail.len() > 0 ==> tail[0] == ' ',
    ensures
        tokens(word + tail).len() > 0,
        tokens(word + tail)[0] == word,
{
    crate::text::laws::lemma_tokens_word(seq![], word, tail);
    assert(seq![] + word + tail =~= word + tail);
}

/// Root is told by the uid alone: the first word ends in `=0` or `=0(root)`, or there is
/// nothing but a zero. A uid that merely ends in a zero is not root.
pub proof fn law_root_words(word: Seq<char>, tail: Seq<char>)
    requires
        word.len() > 0,
        forall|i: int| 0 <= i < word.len() ==> !crate::text::class::is_space(#[trigger] word[i]),
        tail.len() > 0 ==> tail[0] == ' ' && !crate::text::class::is_space(tail.last()),
    ensures
        root_line(word + tail) <==> {
            let n = word.len();
            ||| word == seq!['0'] && tail.len() == 0
            ||| n >= 2 && word[n - 2] == '=' && word[n - 1] == '0'
            ||| n >= 8 && word[n - 8] == '=' && word[n - 7] == '0' && word[n - 6] == '(' && word[n - 5] == 'r' && word[n
                - 4] == 'o' && word[n - 3] == 'o' && word[n - 2] == 't' && word[n - 1] == ')'
        },
{
    reveal_strlit("0");
    reveal_strlit("=0");
    reveal_strlit("=0(root)");
    let line = word + tail;
    let n = word.len() as int;
    lemma_first_word(word, tail);
    assert("0"@ =~= seq!['0']);
    if line == "0"@ {
        assert(word =~= seq!['0']);
        assert(tail.len() == 0);
    }
    if word == seq!['0'] && tail.len() == 0 {
        assert(line =~= "0"@);
    }
    if n >= 2 && word[n - 2] == '=' && word[n - 1] == '0' {
        assert(word.skip(n - 2) =~= "=0"@);
        assert(Class::One('=').has(line[n - 2]));
    }
    if n >= 8 && word[n - 8] == '=' && word[n - 7] == '0' && word[n - 6] == '(' && word[n - 5] == 'r' && word[n - 4]
        == 'o' && word[n - 3] == 'o' && word[n - 2] == 't' && word[n - 1] == ')' {
        assert(word.skip(n - 8) =~= "=0(root)"@);
        assert(Class::One('=').has(line[n - 8]));
    }
    if ends_with(word, "=0"@) {
        let end = word.skip(n - 2);
        assert(end[0] == word[n - 2] && end[1] == word[n - 1]);
    }
    if ends_with(word, "=0(root)"@) {
        let end = word.skip(n - 8);
        assert(end[0] == word[n - 8] && end[1] == word[n - 7] && end[2] == word[n - 6] && end[3] == word[n - 5]);
        assert(end[4] == word[n - 4] && end[5] == word[n - 3] && end[6] == word[n - 2] && end[7] == word[n - 1]);
    }
}

/// Where there is no root, the reason is what `su` complained of, else what it showed
/// last, else its code.
pub proof fn law_why_there_is_no_root(output: OutputView)
    requires
        !(output.code == 0 && root_identity(output.stdout)),
    ensures
        ({
            let reason = interpreted(output).reason;
            let complaint = trim(output.stderr, Class::Space);
            let shown = last_text(lines(output.stdout));
            &&& complaint.len() > 0 ==> reason == Some(complaint)
            &&& complaint.len() == 0 && shown.len() > 0 ==> reason == Some(shown)
            &&& complaint.len() == 0 && shown.len() == 0 ==> reason == Some(
                "su 返回退出码 "@ + dec_int(output.code as int),
            )
        }),
{
}

/// The line that is shown is the last that is not blank.
pub proof fn law_the_last_line_is_shown(all: Seq<Seq<char>>, line: Seq<char>)
    ensures
        trim(line, Class::Space).len() > 0 ==> last_text(all.push(line)) == trim(line, Class::Space),
        trim(line, Class::Space).len() == 0 ==> last_text(all.push(line)) == last_text(all),
        last_text(seq![]).len() == 0,
{
    assert(all.push(line).drop_last() =~= all);
}

} // verus!
