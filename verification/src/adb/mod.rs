//! The `adb` transport: which binary, which one-shot queries, and what to do when
//! its server does not answer.

pub mod laws;
pub mod locate;
pub mod server;

use vstd::prelude::*;
use crate::adb::locate::AdbSource;
use crate::adb::server::{daemon_failure, is_daemon_failure, RECOVERY_FAILED_HINT};
use crate::error::{DroidLogError, ErrorView, Result};
use crate::executor::{
    failed, CommandPlan, ExecMode, ExecOutput, ExecTarget, OutputView, PlanView,
};
use crate::text::chars::{chars_of, concat3, string_of, views};
use crate::text::class::Class;
use crate::text::search::{trim, trim_of};
use crate::text::split::lines;

verus! {

/// A resolved adb installation.
#[derive(Debug)]
pub struct Adb {
    program: String,
    source: AdbSource,
}

impl Clone for Adb {
    fn clone(&self) -> (r: Self)
        ensures
            r.program_text() == self.program_text(),
            r.origin() == self.origin(),
    {
        Adb { program: self.program.clone(), source: self.source }
    }
}

/// The plan of `adb devices -l`.
pub open spec fn devices_plan_view(program: Seq<char>) -> PlanView {
    PlanView { program, args: seq!["devices"@, "-l"@] }
}

/// The plan of `adb version`.
pub open spec fn version_plan_view(program: Seq<char>) -> PlanView {
    PlanView { program, args: seq!["version"@] }
}

/// The first line of `adb version`, without the space around it.
pub open spec fn version_line(stdout: Seq<char>) -> Seq<char> {
    let kept = crate::executor::without_blank_tail(lines(stdout));
    if kept.len() == 0 {
        seq![]
    } else {
        trim(kept[0], Class::Space)
    }
}

impl Adb {
    pub closed spec fn program_text(self) -> Seq<char> {
        self.program@
    }

    pub closed spec fn origin(self) -> AdbSource {
        self.source
    }

    /// The installation at a path that discovery found.
    pub fn discover(found: Result<(String, AdbSource)>) -> (r: Result<Self>)
        ensures
            match (r, found) {
                (Ok(adb), Ok((path, source))) => adb.program_text() == path@ && adb.origin() == source,
                (Err(error), Err(cause)) => error == cause,
                _ => false,
            },
    {
        match found {
            Ok((program, source)) => Ok(Adb { program, source }),
            Err(error) => Err(error),
        }
    }

    /// Wraps an explicit binary path or name.
    pub fn with_program(program: &str) -> (r: Self)
        ensures
            r.program_text() == program@,
            r.origin() == AdbSource::EnvOverride,
    {
        Adb { program: program.to_owned(), source: AdbSource::EnvOverride }
    }

    /// Path, or bare name, of the adb executable.
    pub fn program(&self) -> (r: &str)
        ensures
            r@ == self.program_text(),
    {
        self.program.as_str()
    }

    /// How the binary was resolved.
    pub fn source(&self) -> (r: AdbSource)
        ensures
            r == self.origin(),
    {
        self.source
    }

    /// Builds an execution target for a device under the given mode.
    pub fn target<'a>(&'a self, mode: ExecMode, serial: Option<&'a str>) -> (r: ExecTarget<'a>)
        ensures
            r.mode == mode,
            r.serial == serial,
            r.adb_program@ == self.program_text(),
    {
        ExecTarget::new(mode, serial, self.program.as_str())
    }

    /// `adb version`.
    pub fn version_plan(&self) -> (r: CommandPlan)
        ensures
            r@ == version_plan_view(self.program_text()),
    {
        let r: CommandPlan = CommandPlan { program: self.program.clone(), args: vec!["version".to_owned()] };
        assert(r@.args =~= seq!["version"@]);
        r
    }

    /// `adb devices -l`.
    pub fn devices_plan(&self) -> (r: CommandPlan)
        ensures
            r@ == devices_plan_view(self.program_text()),
    {
        let r: CommandPlan = CommandPlan {
            program: self.program.clone(),
            args: vec!["devices".to_owned(), "-l".to_owned()],
        };
        assert(r@.args =~= seq!["devices"@, "-l"@]);
        r
    }

    /// The first line that a run of `adb version` printed.
    pub fn version(&self, output: ExecOutput) -> (r: Result<String>)
        ensures
            match r {
                Ok(line) => output@.success() && line@ == version_line(output@.stdout),
                Err(error) => !output@.success() && error@ == failed(
                    version_plan_view(self.program_text()),
                    output@,
                ),
            },
    {
        match self.version_plan().settle(output) {
            Ok(output) => {
                let kept: Vec<&str> = output.stdout_lines();
                assert(views(kept@).len() == kept@.len());
                if kept.len() == 0 {
                    let r: String = String::new();
                    assert(r@ =~= version_line(output@.stdout));
                    Ok(r)
                } else {
                    assert(views(kept@)[0] == kept@[0]@);
                    let cs: Vec<char> = chars_of(kept[0]);
                    Ok(string_of(trim_of(cs.as_slice(), Class::Space)))
                }
            }
            Err(error) => Err(error),
        }
    }

    /// The devices that a settled `adb devices -l` lists.
    pub fn devices(&self, output: Result<ExecOutput>) -> (r: Result<Vec<crate::device::DeviceInfo>>)
        ensures
            match (r, output) {
                (Ok(list), Ok(output)) => views(list@) == crate::device::device_list(output@.stdout),
                (Err(error), Err(cause)) => error == cause,
                _ => false,
            },
    {
        match output {
            Ok(output) => Ok(crate::device::parse_device_list(output.stdout.as_str())),
            Err(error) => Err(error),
        }
    }
}

/// Where a device query stands, and so what is to be done next.
///
/// Recovery escalates, because the two ways a server breaks need different
/// medicine. A lost start-up race is over by now, so a plain retry succeeds;
/// restarting would kill a good server that another tool just started. Only a
/// server that stays deaf is rebuilt.
#[derive(Debug, Clone, Copy, PartialEq, Eq, Structural)]
pub enum QueryStage {
    /// Ensure the server before anything is asked; a failure ends the query.
    Preflight,
    /// Ask for the devices.
    First,
    /// Ensure the server after a deaf answer; a failure is ignored, because the
    /// answer to the retry is the authoritative one.
    Bootstrap,
    /// Ask again.
    Second,
    /// Kill and rebuild the server; a failure ends the query.
    Rebuild,
    /// Ask for the last time.
    Third,
}

/// What follows a step of a device query.
#[derive(Debug)]
pub enum QueryStep {
    Next(QueryStage),
    Done(Result<ExecOutput>),
}

impl QueryStage {
    /// A stage in which the server is looked after.
    pub open spec fn serves(self) -> bool {
        self == QueryStage::Preflight || self == QueryStage::Bootstrap || self == QueryStage::Rebuild
    }

    /// How many steps may still follow.
    pub open spec fn remaining(self) -> nat {
        match self {
            QueryStage::Preflight => 5,
            QueryStage::First => 4,
            QueryStage::Bootstrap => 3,
            QueryStage::Second => 2,
            QueryStage::Rebuild => 1,
            QueryStage::Third => 0,
        }
    }

    /// The stage a query begins with.
    ///
    /// A caller that polls skips the preflight once the server is known to be up.
    pub fn begin(ensure_first: bool) -> (r: Self)
        ensures
            r == if ensure_first { QueryStage::Preflight } else { QueryStage::First },
    {
        if ensure_first {
            QueryStage::Preflight
        } else {
            QueryStage::First
        }
    }

    /// What follows a stage in which the server was looked after.
    pub fn after_server(self, outcome: Result<()>) -> (r: QueryStep)
        requires
            self.serves(),
        ensures
            server_follows(self, outcome, r),
    {
        match outcome {
            Ok(_) => match self {
                QueryStage::Preflight => QueryStep::Next(QueryStage::First),
                QueryStage::Bootstrap => QueryStep::Next(QueryStage::Second),
                _ => QueryStep::Next(QueryStage::Third),
            },
            Err(error) => {
                if self == QueryStage::Bootstrap {
                    QueryStep::Next(QueryStage::Second)
                } else {
                    QueryStep::Done(Err(error))
                }
            }
        }
    }
}

/// What follows a stage in which the server was looked after.
pub open spec fn server_follows(stage: QueryStage, outcome: Result<()>, step: QueryStep) -> bool {
    match outcome {
        Ok(_) => step == QueryStep::Next(
            match stage {
                QueryStage::Preflight => QueryStage::First,
                QueryStage::Bootstrap => QueryStage::Second,
                _ => QueryStage::Third,
            },
        ),
        Err(error) => if stage == QueryStage::Bootstrap {
            step == QueryStep::Next(QueryStage::Second)
        } else {
            step == QueryStep::Done(Err(error))
        },
    }
}

/// The error after the last retry: what adb said, and the hint.
pub open spec fn recovery_failed(plan: PlanView, output: OutputView) -> ErrorView {
    ErrorView::AdbCommandFailed {
        command: plan.shown(),
        code: output.code,
        stderr: trim(output.stderr, Class::Space) + "\n"@ + RECOVERY_FAILED_HINT@,
    }
}

/// What follows an answer to `adb devices -l`.
pub open spec fn query_follows(stage: QueryStage, plan: PlanView, output: ExecOutput, step: QueryStep) -> bool {
    if output@.success() {
        step == QueryStep::Done(Ok(output))
    } else if stage == QueryStage::First {
        if daemon_failure(output@.stderr) {
            step == QueryStep::Next(QueryStage::Bootstrap)
        } else {
            step matches QueryStep::Done(Err(error)) && error@ == failed(plan, output@)
        }
    } else if stage == QueryStage::Second {
        step == QueryStep::Next(QueryStage::Rebuild)
    } else {
        step matches QueryStep::Done(Err(error)) && error@ == recovery_failed(plan, output@)
    }
}

impl Adb {
    /// What follows the answer to a query: a success ends it, a problem of a device
    /// is reported at once, and a deaf server is retried and then rebuilt.
    pub fn devices_query(&self, stage: QueryStage, answer: Result<ExecOutput>) -> (r: QueryStep)
        requires
            !stage.serves(),
        ensures
            match answer {
                Ok(output) => query_follows(stage, devices_plan_view(self.program_text()), output, r),
                Err(error) => r == QueryStep::Done(Err(error)),
            },
    {
        let output: ExecOutput = match answer {
            Ok(output) => output,
            Err(error) => return QueryStep::Done(Err(error)),
        };
        if output.is_success() {
            return QueryStep::Done(Ok(output));
        }
        let plan: CommandPlan = self.devices_plan();
        match stage {
            QueryStage::First => {
                if should_rebuild_server(&output) {
                    QueryStep::Next(QueryStage::Bootstrap)
                } else {
                    QueryStep::Done(Err(plan.failure(&output)))
                }
            }
            QueryStage::Second => QueryStep::Next(QueryStage::Rebuild),
            _ => {
                let shown: String = plan.display();
                let cs: Vec<char> = chars_of(output.stderr.as_str());
                let stderr: String = string_of(trim_of(cs.as_slice(), Class::Space));
                let text: String = concat3(stderr.as_str(), "\n", RECOVERY_FAILED_HINT);
                QueryStep::Done(Err(DroidLogError::command_failed(shown.as_str(), output.code, text.as_str())))
            }
        }
    }
}

/// Whether a failed `adb devices -l` means that the server needs rebuilding.
///
/// A problem of a device must never restart the server; a deaf server must be.
pub fn should_rebuild_server(output: &ExecOutput) -> (r: bool)
    ensures
        r == (!output@.success() && daemon_failure(output@.stderr)),
{
    !output.is_success() && is_daemon_failure(output.stderr.as_str())
}

/// A query ends at once on success, and at once on a problem that is not the
/// server's; the server is rebuilt only after a second failure; and every step
/// that does not end the query brings it nearer to its end.
pub proof fn law_recovery_escalates(stage: QueryStage, plan: PlanView, output: ExecOutput, step: QueryStep)
    requires
        !stage.serves(),
        query_follows(stage, plan, output, step),
    ensures
        output@.success() ==> step is Done,
        stage == QueryStage::First && !daemon_failure(output@.stderr) ==> step is Done,
        step matches QueryStep::Next(next) ==> next.remaining() < stage.remaining() && next.serves(),
        step == QueryStep::Next(QueryStage::Rebuild) ==> stage == QueryStage::Second && !output@.success(),
{
}

/// Looking after the server is followed by a question or by the end, and brings the
/// query nearer to its end; a failed retry of the start ends nothing.
pub proof fn law_server_steps_advance(stage: QueryStage, outcome: Result<()>, step: QueryStep)
    requires
        stage.serves(),
        server_follows(stage, outcome, step),
    ensures
        step matches QueryStep::Next(next) ==> next.remaining() < stage.remaining() && !next.serves(),
        outcome is Ok || stage == QueryStage::Bootstrap ==> step is Next,
{
}

} // verus!
