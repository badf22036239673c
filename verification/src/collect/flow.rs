//! A whole collection, command by command.
//!
//! The device is asked what it is before it is asked for anything; then the probes
//! worth running are run in order, each with the files it leads to; a boot run ends
//! with polls. Whoever runs the commands and waits does so as [`Collection::action`]
//! says, and hands the answers in.

use vstd::prelude::*;
use crate::collect::boot::{boot_completed, next_poll, poll_taken, BootRun, BootView, Window, BOOT_STATE_COMMAND};
use crate::collect::ingest::{ingest_flushed, IngestView, Ingestor};
use crate::collect::probe::{read_back, OutcomeView, Probe, ProbeOutcome};
use crate::collect::profile::{detect, profile_of, DeviceProfile, ProfileView, BUFFERS_COMMAND, KERNEL_COMMAND};
use crate::collect::report::{CollectRequest, CollectionReport, ReportView};
use crate::collect::run::{failed_outcome, file_taken, run_begins, ProbeRun, RunView};
use crate::collect::{
    finish_collection, kept_probes, law_a_profiled_run_succeeds, profile_entry, profile_outcome, settled, Run,
};
use crate::error::{says, Result};
use crate::executor::{stdout_of, ExecOutput};
use crate::process::{ProgressView, SessionProgress, SessionStatus};
use crate::ring::saturating;
use crate::state::{AppState, StateView};
use crate::text::chars::{lemma_views_push, opt_view, views};

verus! {

/// What is to be done next.
#[derive(Debug, PartialEq, Eq)]
pub enum CollectAction {
    /// Run this command and hand the answer to [`Collection::answer`].
    Ask(String),
    /// Wait for so many milliseconds, and tell [`Collection::rested`].
    Wait(u64),
    /// Nothing: [`Collection::report`] tells what was found.
    Done,
}

/// Polls under way, and when they end by the two clocks.
#[derive(Debug)]
struct Polling {
    boot: BootRun,
    ends_at_ms: u64,
    deadline: u64,
}

#[derive(Debug)]
enum Stage {
    Kernel,
    Buffers(Result<ExecOutput>),
    Probes(usize),
    Files(usize, ProbeRun),
    Poll(Polling),
    BootState(Polling),
    Rest(Polling),
    Over,
}

/// A collection under way.
#[derive(Debug)]
pub struct Collection {
    run: Run,
    session_id: String,
    duration_ms: Option<u64>,
    interval_ms: Option<u64>,
    profile: Option<DeviceProfile>,
    probes: Vec<Probe>,
    stage: Stage,
    outcomes: Vec<ProbeOutcome>,
    progress: Option<SessionProgress>,
}

#[verifier::ext_equal]
pub struct PollingView {
    pub boot: BootView,
    /// When the window is over by the wall clock.
    pub ends_at_ms: u64,
    /// When it is over by the clock that never goes back.
    pub deadline: u64,
}

impl View for Polling {
    type V = PollingView;

    closed spec fn view(&self) -> PollingView {
        PollingView { boot: self.boot@, ends_at_ms: self.ends_at_ms, deadline: self.deadline }
    }
}

/// Which answer a collection is waiting for.
pub enum StageView {
    /// The release of the kernel.
    Kernel,
    /// The buffers of logcat; the release is known as far as it can be.
    Buffers { uname: Option<Seq<char>> },
    /// The answer to this probe.
    Probes { next: nat },
    /// A file that this probe leads to.
    Files { next: nat, run: RunView },
    /// The answer to a poll.
    Poll(PollingView),
    /// Whether the device has booted.
    BootState(PollingView),
    /// None: the next poll is not due yet.
    Rest(PollingView),
    /// None: everything has been read.
    Over,
}

impl View for Stage {
    type V = StageView;

    closed spec fn view(&self) -> StageView {
        match self {
            Stage::Kernel => StageView::Kernel,
            Stage::Buffers(uname) => StageView::Buffers { uname: stdout_of(*uname) },
            Stage::Probes(next) => StageView::Probes { next: *next as nat },
            Stage::Files(next, run) => StageView::Files { next: *next as nat, run: run@ },
            Stage::Poll(polling) => StageView::Poll(polling@),
            Stage::BootState(polling) => StageView::BootState(polling@),
            Stage::Rest(polling) => StageView::Rest(polling@),
            Stage::Over => StageView::Over,
        }
    }
}

#[verifier::ext_equal]
pub struct CollectionView {
    pub run: Run,
    pub session_id: Seq<char>,
    pub duration_ms: Option<u64>,
    pub interval_ms: Option<u64>,
    /// What the device is, once it has been asked.
    pub profile: Option<ProfileView>,
    /// The probes worth running on it.
    pub probes: Seq<Probe>,
    pub stage: StageView,
    /// What is reported, in order.
    pub outcomes: Seq<OutcomeView>,
    /// The progress that waits to be shown.
    pub progress: Option<ProgressView>,
}

impl View for Collection {
    type V = CollectionView;

    closed spec fn view(&self) -> CollectionView {
        CollectionView {
            run: self.run,
            session_id: self.session_id@,
            duration_ms: self.duration_ms,
            interval_ms: self.interval_ms,
            profile: opt_view(self.profile),
            probes: self.probes@,
            stage: self.stage@,
            outcomes: views(self.outcomes@),
            progress: opt_view(self.progress),
        }
    }
}

impl CollectionView {
    /// A collection that has asked for nothing yet.
    pub open spec fn opening(run: Run, session_id: Seq<char>, request: CollectRequest) -> CollectionView {
        CollectionView {
            run,
            session_id,
            duration_ms: request.duration_ms,
            interval_ms: request.interval_ms,
            profile: None,
            probes: seq![],
            stage: StageView::Kernel,
            outcomes: seq![],
            progress: None,
        }
    }

    /// An answer is waited for.
    pub open spec fn asks(self) -> bool {
        !(self.stage is Rest || self.stage is Over)
    }

    /// The probe or the file that is waited for exists.
    pub open spec fn wf(self) -> bool {
        match self.stage {
            StageView::Probes { next } => next < self.probes.len(),
            StageView::Files { next, run } => next < self.probes.len() && run.next < run.names.len()
                && run.probe.dir is Some,
            _ => true,
        }
    }

    /// The command whose answer is waited for.
    pub open spec fn command(self) -> Seq<char> {
        match self.stage {
            StageView::Kernel => KERNEL_COMMAND@,
            StageView::Buffers { uname } => BUFFERS_COMMAND@,
            StageView::Probes { next } => self.probes[next as int].command@,
            StageView::Files { next, run } => read_back(run.probe.dir->0@, run.name()),
            StageView::Poll(polling) => polling.boot.command(),
            _ => BOOT_STATE_COMMAND@,
        }
    }

    /// With one more outcome.
    pub open spec fn reported(self, outcome: OutcomeView) -> CollectionView {
        CollectionView { outcomes: self.outcomes.push(outcome), ..self }
    }

    pub open spec fn at(self, stage: StageView) -> CollectionView {
        CollectionView { stage, ..self }
    }

    /// About to poll: the poll is counted, and the progress is kept and shown.
    pub open spec fn polling(self, polling: PollingView, s: StateView) -> (CollectionView, StateView) {
        let polls = next_poll(polling.boot.polls);
        let progress = ProgressView {
            label: "启动日志采集中"@,
            ends_at_ms: polling.ends_at_ms,
            done: polls,
            total: polling.boot.window.polls() as u32,
        };
        (
            CollectionView {
                stage: StageView::Poll(PollingView { boot: BootView { polls, ..polling.boot }, ..polling }),
                progress: Some(progress),
                ..self
            },
            s.with_progress(self.session_id, progress),
        )
    }

    /// Every probe before `next` is done. Behind the last one a boot run polls a device
    /// that is known, and any other is over.
    pub open spec fn onwards(self, next: nat, s: StateView, now: u64, ticks: u64) -> (CollectionView, StateView) {
        if next < self.probes.len() {
            (self.at(StageView::Probes { next }), s)
        } else if self.run == Run::Boot && self.profile is Some {
            let window = Window::of(self.duration_ms, self.interval_ms);
            self.polling(
                PollingView {
                    boot: BootView::begun(window, self.profile->0, self.outcomes),
                    ends_at_ms: saturating((now + window.window_ms) as nat) as u64,
                    deadline: saturating((ticks + window.window_ms) as nat) as u64,
                },
                s,
            )
        } else {
            (self.at(StageView::Over), s)
        }
    }

    /// The files of a probe are read as long as there are any; then its outcome is
    /// reported.
    pub open spec fn reading(
        self,
        next: nat,
        run: RunView,
        s: StateView,
        now: u64,
        ticks: u64,
    ) -> (CollectionView, StateView) {
        if run.next < run.names.len() {
            (self.at(StageView::Files { next, run }), s)
        } else {
            self.reported(run.outcome()).onwards(next + 1, s, now, ticks)
        }
    }

    /// What the two questions about the device told.
    pub open spec fn profiled(self, profile: ProfileView) -> CollectionView {
        CollectionView { profile: Some(profile), probes: kept_probes(self.run.candidates(), profile), ..self }.reported(
            profile_entry(profile),
        )
    }

    /// The polls are over.
    pub open spec fn polled(self, boot: BootView) -> CollectionView {
        self.reported(boot.outcome()).at(StageView::Over)
    }
}

/// The clocks at an answer: the wall clock and the one that never goes back, in
/// milliseconds.
#[derive(Debug, Clone, Copy)]
pub struct Clocks {
    pub now: u64,
    pub ticks: u64,
}

/// An answer leads from one collection, ingestor and state to the next.
pub open spec fn steps(
    c: CollectionView,
    reply: Result<ExecOutput>,
    i: IngestView,
    s: StateView,
    clocks: Clocks,
    after: CollectionView,
    ingest: IngestView,
    state: StateView,
) -> bool {
    let now = clocks.now;
    let ticks = clocks.ticks;
    match c.stage {
        StageView::Kernel => after == c.at(StageView::Buffers { uname: stdout_of(reply) }) && ingest == i && state
            == s,
        StageView::Buffers { uname } => ingest == i && (after, state) == c.profiled(
            profile_of(uname, stdout_of(reply)),
        ).onwards(0, s, now, ticks),
        StageView::Probes { next } => match reply {
            Ok(output) => exists|run: RunView, fed: StateView|
                #[trigger] run_begins(c.probes[next as int], output@, i, s, now, ingest, fed, run) && (after, state)
                    == c.reading(next, run, fed, now, ticks),
            Err(error) => ingest == i && exists|reason: Seq<char>| #[trigger]
                says(error@, reason) && (after, state) == c.reported(
                    failed_outcome(c.probes[next as int], reason),
                ).onwards(next + 1, s, now, ticks),
        },
        StageView::Files { next, run } => exists|later: RunView, fed: StateView|
            #[trigger] file_taken(run, reply, i, s, now, ingest, fed, later) && (after, state) == c.reading(
                next,
                later,
                fed,
                now,
                ticks,
            ),
        StageView::Poll(polling) => exists|boot: BootView, go_on: bool|
            #[trigger] poll_taken(polling.boot, reply, i, s, now, ingest, state, boot, go_on) && after == if go_on {
                c.at(StageView::BootState(PollingView { boot, ..polling }))
            } else {
                c.polled(boot)
            },
        StageView::BootState(polling) => {
            let booted = match stdout_of(reply) {
                Some(stdout) => boot_completed(stdout),
                None => false,
            };
            let boot = BootView { booted, ..polling.boot };
            &&& ingest == i && state == s
            &&& after == if booted || ticks >= polling.deadline {
                c.polled(boot)
            } else {
                c.at(StageView::Rest(PollingView { boot, ..polling }))
            }
        },
        _ => false,
    }
}

/// Where a collection goes on does not depend on where it was.
proof fn lemma_stage_is_replaced(
    c: CollectionView,
    stage: StageView,
    next: nat,
    run: RunView,
    boot: BootView,
    outcome: OutcomeView,
    s: StateView,
    clocks: Clocks,
)
    ensures
        c.at(stage).onwards(next, s, clocks.now, clocks.ticks) == c.onwards(next, s, clocks.now, clocks.ticks),
        c.at(stage).reported(outcome) == c.reported(outcome).at(stage),
        c.at(stage).reported(outcome).onwards(next, s, clocks.now, clocks.ticks) == c.reported(outcome).onwards(
            next,
            s,
            clocks.now,
            clocks.ticks,
        ),
        c.at(stage).reading(next, run, s, clocks.now, clocks.ticks) == c.reading(
            next,
            run,
            s,
            clocks.now,
            clocks.ticks,
        ),
        c.at(stage).polled(boot) == c.polled(boot),
{
    assert(c.at(stage).reported(outcome) =~= c.reported(outcome).at(stage));
    assert(c.at(stage).reported(run.outcome()) =~= c.reported(run.outcome()).at(stage));
}

impl CollectionView {
    /// The report begins with what the device is, followed by the first `n` of the
    /// probes worth running, in order.
    pub open spec fn tells(self, n: nat) -> bool {
        &&& self.profile matches Some(profile) && self.probes == kept_probes(self.run.candidates(), profile)
        &&& n <= self.probes.len()
        &&& self.outcomes.len() >= 1 + n
        &&& self.outcomes[0] == profile_entry(self.profile->0)
        &&& forall|k: int| 0 <= k < n ==> (#[trigger] self.outcomes[1 + k]).id == self.probes[k].id@
    }

    /// The report tells of everything that has been read, once and in order: of the
    /// device, of each probe worth running, and, for a boot run, of the polls.
    pub open spec fn told(self) -> bool {
        match self.stage {
            StageView::Kernel | StageView::Buffers { .. } => self.outcomes.len() == 0,
            StageView::Probes { next } => self.tells(next) && self.outcomes.len() == 1 + next,
            StageView::Files { next, run } => self.tells(next) && self.outcomes.len() == 1 + next && run.probe
                == self.probes[next as int],
            StageView::Over => self.tells(self.probes.len()) && if self.run == Run::Boot {
                self.outcomes.len() == 2 + self.probes.len() && self.outcomes.last().id == "boot-poll"@
            } else {
                self.outcomes.len() == 1 + self.probes.len()
            },
            _ => self.tells(self.probes.len()) && self.outcomes.len() == 1 + self.probes.len() && self.run
                == Run::Boot,
        }
    }
}

proof fn lemma_onwards_tells(c: CollectionView, next: nat, s: StateView, clocks: Clocks)
    requires
        c.tells(next),
        c.outcomes.len() == 1 + next,
    ensures
        c.onwards(next, s, clocks.now, clocks.ticks).0.told(),
{
    let after = c.onwards(next, s, clocks.now, clocks.ticks).0;
    assert(after.outcomes == c.outcomes && after.probes == c.probes);
    assert(after.tells(next));
}

proof fn lemma_outcome_tells(c: CollectionView, next: nat, outcome: OutcomeView)
    requires
        c.tells(next),
        c.outcomes.len() == 1 + next,
        next < c.probes.len(),
        outcome.id == c.probes[next as int].id@,
    ensures
        c.reported(outcome).tells(next + 1),
{
    let after = c.reported(outcome);
    assert forall|k: int| 0 <= k < next + 1 implies (#[trigger] after.outcomes[1 + k]).id == after.probes[k].id@ by {
        if k < next {
            assert(after.outcomes[1 + k] == c.outcomes[1 + k]);
        }
    }
}

proof fn lemma_reading_tells(c: CollectionView, next: nat, run: RunView, s: StateView, clocks: Clocks)
    requires
        c.tells(next),
        c.outcomes.len() == 1 + next,
        next < c.probes.len(),
        run.probe == c.probes[next as int],
    ensures
        c.reading(next, run, s, clocks.now, clocks.ticks).0.told(),
{
    if run.next < run.names.len() {
        assert(c.at(StageView::Files { next, run }).tells(next));
    } else {
        lemma_outcome_tells(c, next, run.outcome());
        lemma_onwards_tells(c.reported(run.outcome()), next + 1, s, clocks);
    }
}

proof fn lemma_polled_tells(c: CollectionView, boot: BootView)
    requires
        c.tells(c.probes.len()),
        c.outcomes.len() == 1 + c.probes.len(),
        c.run == Run::Boot,
    ensures
        c.polled(boot).told(),
{
    let after = c.polled(boot);
    assert(after.outcomes.last() == boot.outcome());
    assert forall|k: int| 0 <= k < c.probes.len() implies (#[trigger] after.outcomes[1 + k]).id
        == after.probes[k].id@ by {
        assert(after.outcomes[1 + k] == c.outcomes[1 + k]);
    }
    assert(after.outcomes[0] == c.outcomes[0]);
}

/// A collection tells of the device first, then of each probe worth running on it,
/// once and in order, and, for a boot run, of the polls at the end; no answer and no
/// wait changes that.
pub proof fn law_every_probe_is_reported(
    c: CollectionView,
    reply: Result<ExecOutput>,
    i: IngestView,
    s: StateView,
    clocks: Clocks,
    after: CollectionView,
    ingest: IngestView,
    state: StateView,
)
    requires
        c.told(),
        c.wf(),
    ensures
        steps(c, reply, i, s, clocks, after, ingest, state) ==> after.told(),
        c.stage matches StageView::Rest(polling) ==> c.polling(polling, s).0.told(),
{
    if c.stage is Rest {
        assert(c.polling(c.stage->Rest_0, s).0.tells(c.probes.len()));
    }
    if steps(c, reply, i, s, clocks, after, ingest, state) {
        let now = clocks.now;
        match c.stage {
            StageView::Buffers { uname } => {
                let profile = profile_of(uname, stdout_of(reply));
                assert(c.profiled(profile).tells(0));
                lemma_onwards_tells(c.profiled(profile), 0, s, clocks);
            },
            StageView::Probes { next } => match reply {
                Ok(output) => {
                    let (run, fed) = choose|run: RunView, fed: StateView|
                        #[trigger] run_begins(c.probes[next as int], output@, i, s, now, ingest, fed, run) && (
                        after,
                        state,
                    ) == c.reading(next, run, fed, now, clocks.ticks);
                    lemma_reading_tells(c, next, run, fed, clocks);
                },
                Err(error) => {
                    let reason = choose|reason: Seq<char>| #[trigger]
                        says(error@, reason) && (after, state) == c.reported(
                            failed_outcome(c.probes[next as int], reason),
                        ).onwards(next + 1, s, now, clocks.ticks);
                    let outcome = failed_outcome(c.probes[next as int], reason);
                    lemma_outcome_tells(c, next, outcome);
                    lemma_onwards_tells(c.reported(outcome), next + 1, s, clocks);
                },
            },
            StageView::Files { next, run } => {
                let (later, fed) = choose|later: RunView, fed: StateView|
                    #[trigger] file_taken(run, reply, i, s, now, ingest, fed, later) && (after, state) == c.reading(
                        next,
                        later,
                        fed,
                        now,
                        clocks.ticks,
                    );
                lemma_reading_tells(c, next, later, fed, clocks);
            },
            StageView::Poll(polling) => {
                let (boot, go_on) = choose|boot: BootView, go_on: bool|
                    #[trigger] poll_taken(polling.boot, reply, i, s, now, ingest, state, boot, go_on) && after
                        == if go_on {
                        c.at(StageView::BootState(PollingView { boot, ..polling }))
                    } else {
                        c.polled(boot)
                    };
                lemma_polled_tells(c, boot);
                assert(after.stage is BootState ==> after.tells(c.probes.len()));
            },
            StageView::BootState(polling) => {
                let booted = match stdout_of(reply) {
                    Some(stdout) => boot_completed(stdout),
                    None => false,
                };
                lemma_polled_tells(c, BootView { booted, ..polling.boot });
                assert(after.stage is Rest ==> after.tells(c.probes.len()));
            },
            _ => {},
        }
    }
}

/// A collection that has got as far as its report never fails: the device has been
/// asked, and that is told whatever it answered.
pub proof fn law_finished_collections_succeed(c: CollectionView, finished_at_ms: u64)
    requires
        c.told(),
        c.stage is Over,
    ensures
        ReportView::of(c.session_id, c.run.kind(), c.outcomes, finished_at_ms).failure is None,
{
    let rest = c.outcomes.skip(1);
    assert(seq![profile_entry(c.profile->0)] + rest =~= c.outcomes);
    law_a_profiled_run_succeeds(c.session_id, c.run.kind(), c.profile->0, rest, finished_at_ms);
}

impl Collection {
    /// A collection for a session that was opened for it.
    pub fn begin(run: Run, session_id: &str, request: &CollectRequest) -> (r: Self)
        ensures
            r@ == CollectionView::opening(run, session_id@, *request),
            r@.wf(),
            r@.told(),
    {
        let r: Collection = Collection {
            run,
            session_id: session_id.to_owned(),
            duration_ms: request.duration_ms,
            interval_ms: request.interval_ms,
            profile: None,
            probes: Vec::new(),
            stage: Stage::Kernel,
            outcomes: Vec::new(),
            progress: None,
        };
        assert(r@ =~= CollectionView::opening(run, session_id@, *request));
        r
    }

    /// What is to be done next.
    pub fn action(&self) -> (r: CollectAction)
        requires
            self@.wf(),
        ensures
            match r {
                CollectAction::Ask(command) => self@.asks() && command@ == self@.command(),
                CollectAction::Wait(ms) => self@.stage matches StageView::Rest(polling) && ms
                    == polling.boot.window.interval_ms,
                CollectAction::Done => self@.stage is Over,
            },
    {
        match &self.stage {
            Stage::Kernel => CollectAction::Ask(KERNEL_COMMAND.to_owned()),
            Stage::Buffers(_) => CollectAction::Ask(BUFFERS_COMMAND.to_owned()),
            Stage::Probes(next) => CollectAction::Ask(self.probes[*next].command.to_owned()),
            Stage::Files(_, run) => match run.next_command() {
                Some(command) => CollectAction::Ask(command),
                None => CollectAction::Done,
            },
            Stage::Poll(polling) => CollectAction::Ask(polling.boot.poll_command().to_owned()),
            Stage::BootState(_) => CollectAction::Ask(BOOT_STATE_COMMAND.to_owned()),
            Stage::Rest(polling) => CollectAction::Wait(polling.boot.window().interval_ms),
            Stage::Over => CollectAction::Done,
        }
    }

    fn report_outcome(&mut self, outcome: ProbeOutcome)
        ensures
            final(self)@ == old(self)@.reported(outcome@),
    {
        proof {
            lemma_views_push(self.outcomes@, outcome);
        }
        self.outcomes.push(outcome);
    }

    /// Counts a poll, and keeps and shows the progress.
    fn poll_next(&mut self, polling: Polling, state: &mut AppState)
        requires
            old(state)@.wf(),
        ensures
            (final(self)@, final(state)@) == old(self)@.polling(polling@, old(state)@),
            final(self)@.wf(),
            final(state)@.wf(),
    {
        let mut boot: BootRun = polling.boot;
        let progress: SessionProgress = boot.tick(polling.ends_at_ms);
        state.set_session_progress(self.session_id.as_str(), progress.clone());
        self.progress = Some(progress);
        self.stage = Stage::Poll(Polling { boot, ends_at_ms: polling.ends_at_ms, deadline: polling.deadline });
        assert(self@ =~= old(self)@.polling(polling@, old(state)@).0);
    }

    /// Goes on behind the probes before `next`.
    fn go_on(&mut self, next: usize, state: &mut AppState, clocks: Clocks)
        requires
            old(state)@.wf(),
        ensures
            (final(self)@, final(state)@) == old(self)@.onwards(next as nat, old(state)@, clocks.now, clocks.ticks),
            final(self)@.wf(),
            final(state)@.wf(),
    {
        if next < self.probes.len() {
            self.stage = Stage::Probes(next);
            return;
        }
        if self.run == Run::Boot {
            if let Some(profile) = &self.profile {
                let boot: BootRun = BootRun::begin(self.duration_ms, self.interval_ms, profile, &self.outcomes);
                let window_ms: u64 = boot.window().window_ms;
                let polling: Polling = Polling {
                    boot,
                    ends_at_ms: clocks.now.saturating_add(window_ms),
                    deadline: clocks.ticks.saturating_add(window_ms),
                };
                self.poll_next(polling, state);
                return;
            }
        }
        self.stage = Stage::Over;
    }

    /// Goes on with the files of a probe, or behind it.
    fn read_on(&mut self, next: usize, run: ProbeRun, state: &mut AppState, clocks: Clocks)
        requires
            old(state)@.wf(),
            next < old(self)@.probes.len(),
            run@.names.len() > 0 ==> run@.probe.dir is Some,
        ensures
            (final(self)@, final(state)@) == old(self)@.reading(
                next as nat,
                run@,
                old(state)@,
                clocks.now,
                clocks.ticks,
            ),
            final(self)@.wf(),
            final(state)@.wf(),
    {
        let count: usize = self.probes.len();
        assert(next < count);
        if run.next_command().is_some() {
            self.stage = Stage::Files(next, run);
        } else {
            self.report_outcome(run.outcome());
            self.go_on(next + 1, state, clocks);
        }
    }

    fn take_profile(
        &mut self,
        uname: Result<ExecOutput>,
        reply: Result<ExecOutput>,
        state: &mut AppState,
        clocks: Clocks,
    )
        requires
            old(state)@.wf(),
        ensures
            (final(self)@, final(state)@) == old(self)@.profiled(
                profile_of(stdout_of(uname), stdout_of(reply)),
            ).onwards(0, old(state)@, clocks.now, clocks.ticks),
            final(self)@.wf(),
            final(state)@.wf(),
    {
        let profile: DeviceProfile = detect(uname, reply);
        let ghost known = profile@;
        self.probes = self.run.probes(&profile);
        self.report_outcome(profile_outcome(&profile));
        self.profile = Some(profile);
        assert(self@ =~= old(self)@.profiled(known));
        self.go_on(0, state, clocks);
    }

    fn take_probe(
        &mut self,
        next: usize,
        reply: Result<ExecOutput>,
        ingest: &mut Ingestor,
        state: &mut AppState,
        clocks: Clocks,
    )
        requires
            next < old(self)@.probes.len(),
            old(state)@.wf(),
        ensures
            steps(
                old(self)@.at(StageView::Probes { next: next as nat }),
                reply,
                old(ingest)@,
                old(state)@,
                clocks,
                final(self)@,
                final(ingest)@,
                final(state)@,
            ),
            final(self)@.wf(),
            final(state)@.wf(),
    {
        let ghost c = old(self)@;
        let ghost was = StageView::Probes { next: next as nat };
        let count: usize = self.probes.len();
        assert(next < count);
        let probe: Probe = self.probes[next];
        match reply {
            Ok(output) => {
                let run: ProbeRun = ProbeRun::begin(probe, &output, ingest, state, clocks.now);
                let ghost begun = run@;
                let ghost fed = state@;
                self.read_on(next, run, state, clocks);
                proof {
                    lemma_stage_is_replaced(c, was, next as nat, begun, arbitrary(), arbitrary(), fed, clocks);
                    assert(run_begins(
                        c.at(was).probes[next as int],
                        output@,
                        old(ingest)@,
                        old(state)@,
                        clocks.now,
                        ingest@,
                        fed,
                        begun,
                    ));
                }
            }
            Err(error) => {
                let outcome: ProbeOutcome = ProbeRun::failed(probe, &error);
                let ghost told = outcome@;
                self.report_outcome(outcome);
                self.go_on(next + 1, state, clocks);
                proof {
                    let reason = choose|reason: Seq<char>|
                        told == #[trigger] failed_outcome(probe, reason) && says(error@, reason);
                    lemma_stage_is_replaced(
                        c,
                        was,
                        next as nat + 1,
                        arbitrary(),
                        arbitrary(),
                        told,
                        old(state)@,
                        clocks,
                    );
                    assert(says(error@, reason));
                }
            }
        }
    }

    fn take_file(
        &mut self,
        next: usize,
        run: ProbeRun,
        reply: Result<ExecOutput>,
        ingest: &mut Ingestor,
        state: &mut AppState,
        clocks: Clocks,
    )
        requires
            next < old(self)@.probes.len(),
            run@.next < run@.names.len(),
            run@.probe.dir is Some,
            old(state)@.wf(),
        ensures
            steps(
                old(self)@.at(StageView::Files { next: next as nat, run: run@ }),
                reply,
                old(ingest)@,
                old(state)@,
                clocks,
                final(self)@,
                final(ingest)@,
                final(state)@,
            ),
            final(self)@.wf(),
            final(state)@.wf(),
    {
        let ghost c = old(self)@;
        let ghost was = StageView::Files { next: next as nat, run: run@ };
        let ghost before = run@;
        let mut run: ProbeRun = run;
        run.take_file(reply, ingest, state, clocks.now);
        let ghost later = run@;
        let ghost fed = state@;
        self.read_on(next, run, state, clocks);
        proof {
            lemma_stage_is_replaced(c, was, next as nat, later, arbitrary(), arbitrary(), fed, clocks);
            assert(file_taken(before, reply, old(ingest)@, old(state)@, clocks.now, ingest@, fed, later));
        }
    }

    fn take_poll(
        &mut self,
        polling: Polling,
        reply: Result<ExecOutput>,
        ingest: &mut Ingestor,
        state: &mut AppState,
        clocks: Clocks,
    )
        requires
            old(self)@.stage is Over,
            old(state)@.wf(),
        ensures
            steps(
                old(self)@.at(StageView::Poll(polling@)),
                reply,
                old(ingest)@,
                old(state)@,
                clocks,
                final(self)@,
                final(ingest)@,
                final(state)@,
            ),
            final(self)@.wf(),
            final(state)@.wf(),
    {
        let ghost c = old(self)@;
        let ghost was = polling@;
        let mut boot: BootRun = polling.boot;
        let go_on: bool = boot.take_output(reply, ingest, state, clocks.now);
        let ghost later = boot@;
        if go_on {
            self.stage = Stage::BootState(
                Polling { boot, ends_at_ms: polling.ends_at_ms, deadline: polling.deadline },
            );
            assert(self@ =~= c.at(StageView::Poll(was)).at(
                StageView::BootState(PollingView { boot: later, ..was }),
            ));
        } else {
            self.report_outcome(boot.outcome());
            assert(self@ =~= c.at(StageView::Poll(was)).polled(later));
        }
        assert(poll_taken(
            was.boot,
            reply,
            old(ingest)@,
            old(state)@,
            clocks.now,
            ingest@,
            state@,
            later,
            go_on,
        ));
    }

    fn take_boot_state(&mut self, polling: Polling, reply: Result<ExecOutput>, clocks: Clocks)
        requires
            old(self)@.stage is Over,
        ensures
            forall|i: IngestView, s: StateView| #[trigger]
                steps(
                    old(self)@.at(StageView::BootState(polling@)),
                    reply,
                    i,
                    s,
                    clocks,
                    final(self)@,
                    i,
                    s,
                ),
            final(self)@.wf(),
    {
        let ghost c = old(self)@;
        let ghost was = polling@;
        let mut boot: BootRun = polling.boot;
        if boot.take_boot_state(reply, clocks.ticks >= polling.deadline) {
            let ghost later = boot@;
            self.stage = Stage::Rest(Polling { boot, ends_at_ms: polling.ends_at_ms, deadline: polling.deadline });
            assert(self@ =~= c.at(StageView::BootState(was)).at(StageView::Rest(PollingView { boot: later, ..was })));
        } else {
            let ghost later = boot@;
            self.report_outcome(boot.outcome());
            assert(self@ =~= c.at(StageView::BootState(was)).polled(later));
        }
    }

    /// Takes the answer to the command that [`Collection::action`] asks to run.
    pub fn answer(
        &mut self,
        reply: Result<ExecOutput>,
        ingest: &mut Ingestor,
        state: &mut AppState,
        clocks: Clocks,
    )
        requires
            old(self)@.wf(),
            old(self)@.asks(),
            old(state)@.wf(),
        ensures
            steps(
                old(self)@,
                reply,
                old(ingest)@,
                old(state)@,
                clocks,
                final(self)@,
                final(ingest)@,
                final(state)@,
            ),
            final(self)@.wf(),
            final(state)@.wf(),
    {
        let mut stage: Stage = Stage::Over;
        std::mem::swap(&mut self.stage, &mut stage);
        let ghost c = old(self)@;
        assert(self@ =~= c.at(StageView::Over));
        match stage {
            Stage::Kernel => {
                self.stage = Stage::Buffers(reply);
                assert(self@ =~= c.at(StageView::Buffers { uname: stdout_of(reply) }));
            }
            Stage::Buffers(uname) => self.take_profile(uname, reply, state, clocks),
            Stage::Probes(next) => self.take_probe(next, reply, ingest, state, clocks),
            Stage::Files(next, run) => self.take_file(next, run, reply, ingest, state, clocks),
            Stage::Poll(polling) => self.take_poll(polling, reply, ingest, state, clocks),
            Stage::BootState(polling) => self.take_boot_state(polling, reply, clocks),
            _ => {}
        }
    }

    /// The wait that [`Collection::action`] asked for is over.
    pub fn rested(&mut self, state: &mut AppState)
        requires
            old(self)@.stage is Rest,
            old(state)@.wf(),
        ensures
            (final(self)@, final(state)@) == old(self)@.polling(old(self)@.stage->Rest_0, old(state)@),
            final(self)@.wf(),
            final(state)@.wf(),
    {
        let mut stage: Stage = Stage::Over;
        std::mem::swap(&mut self.stage, &mut stage);
        if let Stage::Rest(polling) = stage {
            self.poll_next(polling, state);
        }
    }

    /// Takes the progress that waits to be shown.
    pub fn take_progress(&mut self) -> (r: Option<SessionProgress>)
        ensures
            opt_view(r) == old(self)@.progress,
            final(self)@ == (CollectionView { progress: None, ..old(self)@ }),
    {
        let mut r: Option<SessionProgress> = None;
        std::mem::swap(&mut self.progress, &mut r);
        r
    }

    /// The report, once everything has been read: it is stored, and the session ends
    /// as it says.
    pub fn report(
        self,
        ingest: &mut Ingestor,
        state: &mut AppState,
        now: u64,
    ) -> (r: (CollectionReport, SessionStatus))
        requires
            self@.stage is Over,
            old(state)@.wf(),
        ensures
            ({
                let (after, flushed) = ingest_flushed(old(ingest)@, old(state)@);
                let report = ReportView::of(self@.session_id, self@.run.kind(), self@.outcomes, now);
                &&& final(ingest)@ == after
                &&& r.0@ == report
                &&& r.1@ == settled(report)
                &&& final(state)@ == flushed.with_report(report).with_status(self@.session_id, settled(report))
            }),
            final(state)@.wf(),
    {
        finish_collection(ingest, state, self.session_id.as_str(), self.run.source(), self.outcomes, now)
    }
}

} // verus!
