//! What commands and their output promise.

use vstd::prelude::*;
use crate::error::ErrorView;
use crate::executor::{failed, shell_plan, without_blank_tail, ExecMode, OutputView, PlanView};
use crate::text::class::{is_space, Class};
use crate::text::laws::{is_gap, lacks, law_trim_reads_back};
use crate::text::search::{any_in, trim};

verus! {

pub open spec fn all_blank(lines: Seq<Seq<char>>) -> bool {
    forall|i: int| 0 <= i < lines.len() ==> is_gap(#[trigger] lines[i])
}

/// Blank lines behind the last line that says something are dropped, and no other line.
pub proof fn law_blank_lines_at_the_end(lines: Seq<Seq<char>>, blank: Seq<Seq<char>>)
    requires
        all_blank(blank),
        lines.len() > 0 ==> exists|i: int| 0 <= i < lines.last().len() && !is_space(#[trigger] lines.last()[i]),
    ensures
        without_blank_tail(lines + blank) == lines,
    decreases blank.len(),
{
    if blank.len() > 0 {
        let all = lines + blank;
        assert(all.drop_last() =~= lines + blank.drop_last());
        assert(is_gap(blank[blank.len() - 1]));
        let last = all.last();
        assert(last + Seq::<char>::empty() + Seq::<char>::empty() =~= last);
        law_trim_reads_back(last, seq![], seq![]);
        assert forall|i: int| 0 <= i < blank.drop_last().len() implies is_gap(#[trigger] blank.drop_last()[i]) by {
            assert(is_gap(blank[i]));
        }
        law_blank_lines_at_the_end(lines, blank.drop_last());
    } else {
        assert(lines + blank =~= lines);
        if lines.len() > 0 {
            lemma_something_is_left(lines.last());
        }
    }
}

proof fn lemma_something_is_left(line: Seq<char>)
    requires
        exists|i: int| 0 <= i < line.len() && !is_space(#[trigger] line[i]),
    ensures
        trim(line, Class::Space).len() > 0,
{
    crate::source::lemma_blank(line);
}

/// A command is shown as it would be typed: the program and, each behind a space, the
/// arguments, with quotes round those that hold a space.
pub proof fn law_commands_are_shown(plan: PlanView, arg: Seq<char>)
    ensures
        (PlanView { program: plan.program, args: seq![] }).shown() == plan.program,
        lacks(arg, ' ') ==> (PlanView { program: plan.program, args: plan.args.push(arg) }).shown() == plan.shown()
            + seq![' '] + arg,
        (exists|i: int| 0 <= i < arg.len() && (#[trigger] arg[i]) == ' ') ==> (PlanView {
            program: plan.program,
            args: plan.args.push(arg),
        }).shown() == plan.shown() + seq![' ', '"'] + arg + seq!['"'],
{
    let longer = PlanView { program: plan.program, args: plan.args.push(arg) };
    assert((PlanView { program: plan.program, args: seq![] }).shown() =~= plan.program);
    assert(longer.args.drop_last() =~= plan.args);
    if exists|i: int| 0 <= i < arg.len() && (#[trigger] arg[i]) == ' ' {
        let i = choose|i: int| 0 <= i < arg.len() && (#[trigger] arg[i]) == ' ';
        assert(Class::One(' ').has(arg[i]));
        assert(any_in(arg, Class::One(' ')));
        assert(longer.shown() =~= plan.shown() + seq![' ', '"'] + arg + seq!['"']);
    }
    if lacks(arg, ' ') {
        assert(!any_in(arg, Class::One(' ')));
        assert(longer.shown() =~= plan.shown() + seq![' '] + arg);
    }
}

/// A command that ended with an error is reported with what was run, its code and what it
/// said, without the space around it.
pub proof fn law_failures_tell_what_was_run(
    plan: PlanView,
    output: OutputView,
    before: Seq<char>,
    said: Seq<char>,
    after: Seq<char>,
)
    requires
        is_gap(before),
        is_gap(after),
        said.len() > 0 ==> !is_space(said[0]) && !is_space(said.last()),
        output.stderr == before + said + after,
    ensures
        failed(plan, output) == (ErrorView::AdbCommandFailed { command: plan.shown(), code: output.code, stderr: said }),
        failed(plan, output).detail() == if said.len() > 0 {
            Some(said)
        } else {
            None
        },
{
    law_trim_reads_back(before, said, after);
}

/// A command for one device names it, and runs in its shell, as root where root is asked
/// for.
pub proof fn law_where_a_command_runs(program: Seq<char>, serial: Seq<char>, command: Seq<char>)
    ensures
        shell_plan(ExecMode::Adb, Some(serial), program, command).args == seq!["-s"@, serial, "shell"@, command],
        shell_plan(ExecMode::Root, Some(serial), program, command).args == seq![
            "-s"@,
            serial,
            "shell"@,
            "su"@,
            "-c"@,
            command,
        ],
        shell_plan(ExecMode::Adb, None, program, command).args == seq!["shell"@, command],
        shell_plan(ExecMode::Root, None, program, command).args == seq!["shell"@, "su"@, "-c"@, command],
        shell_plan(ExecMode::Adb, Some(serial), program, command).program == program,
{
    assert(shell_plan(ExecMode::Adb, Some(serial), program, command).args =~= seq![
        "-s"@,
        serial,
        "shell"@,
        command,
    ]);
    assert(shell_plan(ExecMode::Root, Some(serial), program, command).args =~= seq![
        "-s"@,
        serial,
        "shell"@,
        "su"@,
        "-c"@,
        command,
    ]);
    assert(shell_plan(ExecMode::Adb, None, program, command).args =~= seq!["shell"@, command]);
    assert(shell_plan(ExecMode::Root, None, program, command).args =~= seq!["shell"@, "su"@, "-c"@, command]);
}

} // verus!
