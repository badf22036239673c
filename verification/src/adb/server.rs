//! The lifecycle of the adb server.
//!
//! Every adb client talks to a background server, which the first client spawns.
//! The server inherits the stdio handles of whoever started it and outlives them,
//! so it is always started with all three streams on the null device. Starting it
//! is not atomic either: of two clients that start at once one fails, and a retry
//! finds the winner's server up.

use vstd::prelude::*;
use crate::error::{DroidLogError, ErrorView, Result};
use crate::executor::{CommandPlan, PlanView};
use crate::text::chars::{chars_of, views};
use crate::text::class::{ascii_lower, to_ascii_lower};
use crate::text::search::{contains, contains_word};

verus! {

/// Budget of `adb start-server`, in seconds: a guard against a wedged server.
pub const BOOTSTRAP_TIMEOUT: u64 = 20;

/// Budget of `adb kill-server`, in seconds.
pub const KILL_TIMEOUT: u64 = 10;

/// Hint appended when recovery itself fails.
pub const RECOVERY_FAILED_HINT: &'static str =
    "（已重试并重建 adb server，仍未成功；5037 端口可能被其它程序占用，或被安全软件拦截）";

/// The text of a server that failed to start.
pub const START_FAILED: &'static str = "adb server 启动失败";

/// Fragments of stderr which mean that the server is unusable, as opposed to adb
/// having run and reported a problem of a device.
pub open spec fn failure_markers() -> Seq<Seq<char>> {
    seq![
        "could not read ok from adb server"@,
        "failed to start daemon"@,
        "cannot connect to daemon"@,
        "failed to check server version"@,
        "adb server didn't ack"@,
        "connection refused"@,
    ]
}

/// Some marker stands in the text, whatever its case.
pub open spec fn daemon_failure(text: Seq<char>) -> bool {
    exists|i: int| 0 <= i < failure_markers().len() && contains(ascii_lower(text), #[trigger] failure_markers()[i])
}

/// A plan of one argument.
pub open spec fn single(program: Seq<char>, arg: Seq<char>) -> PlanView {
    PlanView { program, args: seq![arg] }
}

/// `adb start-server`.
pub fn start_plan(program: &str) -> (r: CommandPlan)
    ensures
        r@ == single(program@, "start-server"@),
{
    let r: CommandPlan = CommandPlan { program: program.to_owned(), args: vec!["start-server".to_owned()] };
    assert(r@.args =~= seq!["start-server"@]);
    r
}

/// `adb kill-server`.
pub fn kill_plan(program: &str) -> (r: CommandPlan)
    ensures
        r@ == single(program@, "kill-server"@),
{
    let r: CommandPlan = CommandPlan { program: program.to_owned(), args: vec!["kill-server".to_owned()] };
    assert(r@.args =~= seq!["kill-server"@]);
    r
}

/// True when `text` looks like a broken or missing adb server rather than a normal
/// command failure.
pub fn is_daemon_failure(text: &str) -> (r: bool)
    ensures
        r == daemon_failure(text@),
{
    let markers: [&str; 6] = [
        "could not read ok from adb server",
        "failed to start daemon",
        "cannot connect to daemon",
        "failed to check server version",
        "adb server didn't ack",
        "connection refused",
    ];
    assert(views(markers@) =~= failure_markers());
    let cs: Vec<char> = chars_of(text);
    let lower: Vec<char> = to_ascii_lower(cs.as_slice());
    let mut i: usize = 0;
    while i < 6
        invariant
            i <= 6,
            views(markers@) == failure_markers(),
            lower@ == ascii_lower(text@),
            forall|j: int| 0 <= j < i ==> !contains(ascii_lower(text@), #[trigger] failure_markers()[j]),
        decreases 6 - i,
    {
        assert(failure_markers()[i as int] == views(markers@)[i as int]);
        if contains_word(lower.as_slice(), markers[i]) {
            return true;
        }
        i += 1;
    }
    false
}

/// What a run of [`start_plan`] comes to: nothing more on a zero exit, an error on
/// any other.
pub fn ensure(program: &str, code: i32) -> (r: Result<()>)
    ensures
        match r {
            Ok(_) => code == 0,
            Err(error) => code != 0 && error@ == (ErrorView::AdbCommandFailed {
                command: single(program@, "start-server"@).shown(),
                code,
                stderr: START_FAILED@,
            }),
        },
{
    if code == 0 {
        Ok(())
    } else {
        let shown: String = start_plan(program).display();
        Err(DroidLogError::command_failed(shown.as_str(), code, START_FAILED))
    }
}

/// Text without a marker is no failure of the server; the empty text has none.
pub proof fn law_silence_is_no_failure()
    ensures
        !daemon_failure(seq![]),
{
    let text = ascii_lower(Seq::<char>::empty());
    reveal_strlit("could not read ok from adb server");
    reveal_strlit("failed to start daemon");
    reveal_strlit("cannot connect to daemon");
    reveal_strlit("failed to check server version");
    reveal_strlit("adb server didn't ack");
    reveal_strlit("connection refused");
    assert forall|i: int| 0 <= i < failure_markers().len() implies !contains(text, #[trigger] failure_markers()[i]) by {
        assert(failure_markers()[i].len() > 0);
        assert(text.len() == 0);
    }
}

} // verus!
