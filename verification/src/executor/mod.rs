//! Command execution: where a command runs, not what it means.
//!
//! * [`ExecMode::Adb`]: `adb -s SERIAL shell <cmd>`, the unprivileged path.
//! * [`ExecMode::Root`]: `adb -s SERIAL shell su -c <cmd>`, which the kernel ring
//!   buffers need on most production devices.

pub mod laws;
pub mod root;

use vstd::prelude::*;
use vstd::slice::slice_subrange;
use vstd::string::*;
use crate::error::{DroidLogError, ErrorView, Result};
use crate::text::bytes::{decode_lossy, lossy_text};
use crate::text::chars::{chars_of, concat3, lemma_views_push, push_text, string_of, views};
use crate::text::class::Class;
use crate::text::number::{dec, u64_text};
use crate::text::search::{any_in, any_of, trim, trim_of};
use crate::text::split::{line_spans, lines};

verus! {

/// Transport used to reach a device shell.
#[derive(Debug, Clone, Copy, PartialEq, Eq, Structural)]
pub enum ExecMode {
    /// Plain `adb shell`.
    Adb,
    /// `su -c` on the device.
    Root,
}

impl Default for ExecMode {
    fn default() -> (r: Self)
        ensures
            r == ExecMode::Adb,
    {
        ExecMode::Adb
    }
}

impl ExecMode {
    pub open spec fn name(self) -> Seq<char> {
        match self {
            ExecMode::Adb => "adb"@,
            ExecMode::Root => "root"@,
        }
    }

    /// Whether this mode escalates privileges on the device.
    pub fn is_privileged(self) -> (r: bool)
        ensures
            r == (self == ExecMode::Root),
    {
        self == ExecMode::Root
    }

    /// All modes, in display order.
    pub fn all() -> (r: [Self; 2])
        ensures
            r@ == seq![ExecMode::Adb, ExecMode::Root],
    {
        let r: [ExecMode; 2] = [ExecMode::Adb, ExecMode::Root];
        assert(r@ =~= seq![ExecMode::Adb, ExecMode::Root]);
        r
    }

    /// The lower case name of the mode.
    pub fn to_string(&self) -> (r: String)
        ensures
            r@ == self.name(),
    {
        let name: &str = match self {
            ExecMode::Adb => "adb",
            ExecMode::Root => "root",
        };
        name.to_owned()
    }
}

/// Result of a completed command.
#[derive(Debug)]
pub struct ExecOutput {
    /// Lossily decoded stdout.
    pub stdout: String,
    /// Lossily decoded stderr.
    pub stderr: String,
    /// Process exit code, or `-1` when terminated by a signal.
    pub code: i32,
}

#[verifier::ext_equal]
pub struct OutputView {
    pub stdout: Seq<char>,
    pub stderr: Seq<char>,
    pub code: i32,
}

impl View for ExecOutput {
    type V = OutputView;

    open spec fn view(&self) -> OutputView {
        OutputView { stdout: self.stdout@, stderr: self.stderr@, code: self.code }
    }
}

impl Clone for ExecOutput {
    fn clone(&self) -> (r: Self)
        ensures
            r@ == self@,
    {
        ExecOutput { stdout: self.stdout.clone(), stderr: self.stderr.clone(), code: self.code }
    }
}

/// The lines up to the last one that is not blank.
pub open spec fn without_blank_tail(all: Seq<Seq<char>>) -> Seq<Seq<char>>
    decreases all.len(),
{
    if all.len() > 0 && trim(all.last(), Class::Space).len() == 0 {
        without_blank_tail(all.drop_last())
    } else {
        all
    }
}

impl OutputView {
    pub open spec fn success(self) -> bool {
        self.code == 0
    }
}

impl ExecOutput {
    /// The result of a process that wrote these bytes and ended with this code.
    ///
    /// Device output is not guaranteed to be UTF-8.
    pub fn of_bytes(stdout: &[u8], stderr: &[u8], code: Option<i32>) -> (r: Self)
        ensures
            r.stdout@ == lossy_text(stdout@),
            vstd::utf8::valid_utf8(stdout@) ==> r.stdout@ == vstd::utf8::decode_utf8(stdout@),
            r.stderr@ == lossy_text(stderr@),
            vstd::utf8::valid_utf8(stderr@) ==> r.stderr@ == vstd::utf8::decode_utf8(stderr@),
            r.code == match code {
                Some(code) => code,
                None => -1i32,
            },
    {
        ExecOutput { stdout: decode_lossy(stdout), stderr: decode_lossy(stderr), code: exit_code(code) }
    }

    /// True when the process exited successfully.
    pub fn is_success(&self) -> (r: bool)
        ensures
            r == self@.success(),
    {
        self.code == 0
    }

    /// stdout split into lines, with trailing blank lines removed.
    pub fn stdout_lines(&self) -> (r: Vec<&str>)
        ensures
            views(r@) == without_blank_tail(lines(self@.stdout)),
    {
        let cs: Vec<char> = chars_of(self.stdout.as_str());
        let spans: Vec<(usize, usize)> = line_spans(cs.as_slice());
        let ghost every = lines(self@.stdout);
        let mut n: usize = spans.len();
        assert(every.take(n as int) =~= every);
        while n > 0 && is_blank(slice_subrange(cs.as_slice(), spans[n - 1].0, spans[n - 1].1))
            invariant
                n <= spans@.len(),
                cs@ == self@.stdout,
                every == lines(self@.stdout),
                every.len() == spans@.len(),
                forall|i: int|
                    0 <= i < spans@.len() ==> (#[trigger] spans@[i]).0 <= spans@[i].1 <= cs@.len() && every[i]
                        == cs@.subrange(spans@[i].0 as int, spans@[i].1 as int),
                without_blank_tail(every) == without_blank_tail(every.take(n as int)),
            decreases n,
        {
            assert(every.take(n as int).drop_last() =~= every.take(n as int - 1));
            assert(every.take(n as int).last() == every[n as int - 1]);
            n -= 1;
        }
        let mut r: Vec<&str> = Vec::new();
        let mut i: usize = 0;
        while i < n
            invariant
                i <= n <= spans@.len(),
                cs@ == self@.stdout,
                every.len() == spans@.len(),
                forall|j: int|
                    0 <= j < spans@.len() ==> (#[trigger] spans@[j]).0 <= spans@[j].1 <= cs@.len() && every[j]
                        == cs@.subrange(spans@[j].0 as int, spans@[j].1 as int),
                views(r@) =~= every.take(i as int),
            decreases n - i,
        {
            let line: &str = self.stdout.as_str().substring_char(spans[i].0, spans[i].1);
            proof {
                lemma_views_push(r@, line);
                assert(every[i as int] == line@);
            }
            r.push(line);
            i += 1;
        }
        assert(n > 0 ==> every.take(n as int).last() == every[n as int - 1]);
        r
    }
}

/// Whether a line holds nothing but white space.
fn is_blank(line: &[char]) -> (r: bool)
    ensures
        r == (trim(line@, Class::Space).len() == 0),
{
    trim_of(line, Class::Space).len() == 0
}

/// The exit code of a process: `-1` when a signal ended it.
pub fn exit_code(code: Option<i32>) -> (r: i32)
    ensures
        r == match code {
            Some(code) => code,
            None => -1i32,
        },
{
    match code {
        Some(code) => code,
        None => -1,
    }
}

/// The stdout of an answer, where there is one.
pub open spec fn stdout_of(reply: Result<ExecOutput>) -> Option<Seq<char>> {
    match reply {
        Ok(output) => Some(output@.stdout),
        Err(_) => None,
    }
}

/// A fully resolved argument vector.
#[derive(Debug, PartialEq, Eq)]
pub struct CommandPlan {
    /// Absolute path or bare name of the executable.
    pub program: String,
    /// Arguments, already escaped for the transport.
    pub args: Vec<String>,
}

#[verifier::ext_equal]
pub struct PlanView {
    pub program: Seq<char>,
    pub args: Seq<Seq<char>>,
}

impl View for CommandPlan {
    type V = PlanView;

    open spec fn view(&self) -> PlanView {
        PlanView { program: self.program@, args: views(self.args@) }
    }
}

impl PlanView {
    /// An argument as it is shown: in double quotes where it holds a space.
    pub open spec fn shown_arg(arg: Seq<char>) -> Seq<char> {
        if any_in(arg, Class::One(' ')) {
            seq!['"'] + arg + seq!['"']
        } else {
            arg
        }
    }

    pub open spec fn shown_args(args: Seq<Seq<char>>) -> Seq<char>
        decreases args.len(),
    {
        if args.len() == 0 {
            seq![]
        } else {
            PlanView::shown_args(args.drop_last()) + seq![' '] + PlanView::shown_arg(args.last())
        }
    }

    /// The plan as one line of text.
    pub open spec fn shown(self) -> Seq<char> {
        self.program + PlanView::shown_args(self.args)
    }
}

impl CommandPlan {
    /// Human-readable form used in error messages and diagnostics.
    pub fn display(&self) -> (r: String)
        ensures
            r@ == self@.shown(),
    {
        let mut out: String = self.program.clone();
        let ghost args = views(self.args@);
        let mut i: usize = 0;
        assert(out@ =~= self@.program + PlanView::shown_args(args.take(0)));
        while i < self.args.len()
            invariant
                i <= self.args@.len(),
                args == views(self.args@),
                out@ == self@.program + PlanView::shown_args(args.take(i as int)),
            decreases self.args@.len() - i,
        {
            let ghost before = out@;
            assert(args.take(i as int + 1).drop_last() =~= args.take(i as int));
            assert(args.take(i as int + 1).last() == self.args@[i as int]@);
            let cs: Vec<char> = chars_of(self.args[i].as_str());
            out.push(' ');
            // Quoted only where the argument would otherwise be ambiguous.
            if any_of(cs.as_slice(), Class::One(' ')) {
                out.push('"');
                push_text(&mut out, self.args[i].as_str());
                out.push('"');
            } else {
                push_text(&mut out, self.args[i].as_str());
            }
            assert(out@ =~= before + (seq![' '] + PlanView::shown_arg(self.args@[i as int]@)));
            assert(out@ =~= self@.program + PlanView::shown_args(args.take(i as int + 1)));
            i += 1;
        }
        assert(args.take(i as int) =~= args);
        out
    }

    /// What a completed run of this plan comes to: its output, or an error that
    /// shows the plan, the exit code and the trimmed stderr.
    pub fn settle(&self, output: ExecOutput) -> (r: Result<ExecOutput>)
        ensures
            match r {
                Ok(kept) => output@.success() && kept == output,
                Err(error) => !output@.success() && error@ == failed(self@, output@),
            },
    {
        if output.is_success() {
            Ok(output)
        } else {
            Err(self.failure(&output))
        }
    }

    /// The error for a run of this plan that exited non-zero.
    pub(crate) fn failure(&self, output: &ExecOutput) -> (r: DroidLogError)
        ensures
            r@ == failed(self@, output@),
    {
        let shown: String = self.display();
        let cs: Vec<char> = chars_of(output.stderr.as_str());
        let stderr: String = string_of(trim_of(cs.as_slice(), Class::Space));
        DroidLogError::command_failed(shown.as_str(), output.code, stderr.as_str())
    }

    /// The error for a detached run of this plan that overran its time.
    pub fn overrun(&self, seconds: u64) -> (r: DroidLogError)
        ensures
            r@ == ErrorView::Internal(
                "`"@ + self@.shown() + "` 在 "@ + dec(seconds as nat) + "s 内没有返回"@,
            ),
    {
        let shown: String = self.display();
        let number: String = u64_text(seconds);
        let mut text: String = concat3("`", shown.as_str(), "` 在 ");
        push_text(&mut text, number.as_str());
        push_text(&mut text, "s 内没有返回");
        DroidLogError::Internal(text)
    }
}

impl Clone for CommandPlan {
    fn clone(&self) -> (r: Self)
        ensures
            r@ == self@,
    {
        CommandPlan { program: self.program.clone(), args: crate::text::chars::clone_strings(&self.args) }
    }
}

/// The error for a run that exited non-zero.
pub open spec fn failed(plan: PlanView, output: OutputView) -> ErrorView {
    ErrorView::AdbCommandFailed {
        command: plan.shown(),
        code: output.code,
        stderr: trim(output.stderr, Class::Space),
    }
}

/// Binds an [`ExecMode`] to a concrete device and adb binary.
#[derive(Debug, Clone, Copy)]
pub struct ExecTarget<'a> {
    /// Escalation strategy.
    pub mode: ExecMode,
    /// Device serial; `None` lets adb pick when exactly one device is attached.
    pub serial: Option<&'a str>,
    /// Path to, or name of, the `adb` executable.
    pub adb_program: &'a str,
}

/// `-s SERIAL`, where a serial is given.
pub open spec fn serial_args(serial: Option<Seq<char>>) -> Seq<Seq<char>> {
    match serial {
        Some(serial) => seq!["-s"@, serial],
        None => seq![],
    }
}

/// The view of an optional borrowed text.
pub open spec fn opt_str(text: Option<&str>) -> Option<Seq<char>> {
    match text {
        Some(text) => Some(text@),
        None => None,
    }
}

/// The argument vector that runs a command inside a device shell.
pub open spec fn shell_plan(
    mode: ExecMode,
    serial: Option<Seq<char>>,
    adb_program: Seq<char>,
    command: Seq<char>,
) -> PlanView {
    PlanView { program: adb_program, args: serial_args(serial) + crate::executor::root::shell_words(mode, command) }
}

impl<'a> ExecTarget<'a> {
    /// Creates a target.
    pub fn new(mode: ExecMode, serial: Option<&'a str>, adb_program: &'a str) -> (r: Self)
        ensures
            r.mode == mode,
            r.serial == serial,
            r.adb_program == adb_program,
    {
        ExecTarget { mode, serial, adb_program }
    }

    /// Builds the argument vector that runs `remote_command` inside the device shell.
    ///
    /// adb escapes each argument for the device shell itself, so the command is one
    /// argument and reaches `su -c` intact.
    pub fn plan(&self, remote_command: &str) -> (r: CommandPlan)
        ensures
            r@ == shell_plan(self.mode, opt_str(self.serial), self.adb_program@, remote_command@),
    {
        let mut args: Vec<String> = Vec::new();
        if let Some(serial) = self.serial {
            args.push("-s".to_owned());
            args.push(serial.to_owned());
        }
        assert(views(args@) =~= serial_args(opt_str(self.serial)));
        let ghost before = args@;
        let mut words: Vec<String> = crate::executor::root::shell_args(self.mode, remote_command);
        let ghost added = words@;
        args.append(&mut words);
        assert(views(args@) =~= views(before) + views(added));
        CommandPlan { program: self.adb_program.to_owned(), args }
    }
}

/// Whatever the mode and the serial, the command reaches the device shell as one
/// argument, the last; Root mode only puts `su -c` before it.
pub proof fn law_the_command_is_one_argument(
    serial: Option<Seq<char>>,
    adb_program: Seq<char>,
    command: Seq<char>,
)
    ensures
        ({
            let plain = shell_plan(ExecMode::Adb, serial, adb_program, command);
            let root = shell_plan(ExecMode::Root, serial, adb_program, command);
            &&& plain.args.last() == command && root.args.last() == command
            &&& root.args == plain.args.drop_last() + seq!["su"@, "-c"@, command]
            &&& plain.program == adb_program && root.program == adb_program
        }),
{
    let plain = shell_plan(ExecMode::Adb, serial, adb_program, command);
    let root = shell_plan(ExecMode::Root, serial, adb_program, command);
    assert(root.args =~= plain.args.drop_last() + seq!["su"@, "-c"@, command]);
}

} // verus!
