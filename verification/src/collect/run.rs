//! One probe, step by step.
//!
//! Whoever runs the commands hands their answers in; a [`ProbeRun`] decides what the
//! answer means, which files are read next, and what is reported in the end.

use vstd::prelude::*;
use crate::collect::ingest::{fed, IngestView, Ingestor, MAX_PROBE_LINES};
use crate::collect::probe::{
    classify_output, diagnosis, fallback_files, follow_up, known_files, listed_files, read_back, tail_lines, tail_text,
    worth_reading, OutcomeView, Probe, ProbeOutcome, ProbeStatus, MAX_FOLLOW_UP_FILES,
};
use crate::collect::profile::{first_text, first_text_of};
use crate::error::{says, DroidLogError, Result};
use crate::executor::{ExecOutput, OutputView};
use crate::state::{AppState, StateView};
use crate::text::chars::{chars_of, concat3, lemma_views_push, opt_view, string_of, views};
use crate::text::class::lowercase;
use crate::text::number::{dec, u64_text};
use crate::text::search::take;
use crate::text::split::lines;

verus! {

/// The first line of stderr that is not blank, cut to 200 characters.
pub open spec fn stderr_detail(stderr: Seq<char>) -> Option<Seq<char>> {
    match first_text(lines(stderr)) {
        Some(line) => Some(
            if line.len() > 200 {
                line.take(200)
            } else {
                line
            },
        ),
        None => None,
    }
}

/// First line of stderr that is not blank, cut for display.
pub fn detail_of(stderr: &str) -> (r: Option<String>)
    ensures
        opt_view(r) == stderr_detail(stderr@),
{
    match first_text_of(stderr) {
        Some(line) => {
            let cs: Vec<char> = chars_of(line.as_str());
            if cs.len() > 200 {
                Some(string_of(take(cs.as_slice(), 200)))
            } else {
                Some(line)
            }
        }
        None => None,
    }
}

/// What is said of an output of which only the newest part was kept.
pub open spec fn trimmed_detail() -> Seq<char> {
    "输出超过 "@ + dec(MAX_PROBE_LINES as nat) + " 行，仅保留最新部分"@
}

/// The first `limit` of the items.
pub open spec fn first_items(items: Seq<Seq<char>>, limit: nat) -> Seq<Seq<char>> {
    if items.len() <= limit {
        items
    } else {
        items.take(limit as int)
    }
}

/// A probe under way.
#[derive(Debug)]
pub struct ProbeRun {
    probe: Probe,
    status: ProbeStatus,
    detail: Option<String>,
    records: usize,
    files: Vec<String>,
    names: Vec<String>,
    next: usize,
}

#[verifier::ext_equal]
pub struct RunView {
    pub probe: Probe,
    pub status: ProbeStatus,
    pub detail: Option<Seq<char>>,
    /// Records contributed so far, as far as a machine word counts.
    pub records: nat,
    /// Files that were read.
    pub files: Seq<Seq<char>>,
    /// Files to be read.
    pub names: Seq<Seq<char>>,
    /// How many of them have been asked for.
    pub next: nat,
}

impl View for ProbeRun {
    type V = RunView;

    closed spec fn view(&self) -> RunView {
        RunView {
            probe: self.probe,
            status: self.status,
            detail: opt_view(self.detail),
            records: self.records as nat,
            files: views(self.files@),
            names: views(self.names@),
            next: self.next as nat,
        }
    }
}

/// The sum, as far as a machine word counts.
pub open spec fn capped_sum(a: nat, b: nat) -> nat {
    if a + b <= usize::MAX {
        a + b
    } else {
        usize::MAX as nat
    }
}

impl RunView {
    /// The files that a directory probe reads back: those of a listing, or, where
    /// listing failed, those that the kernel always uses.
    pub open spec fn names_of(probe: Probe, status: ProbeStatus, stdout: Seq<char>) -> Seq<Seq<char>> {
        if probe.dir is None {
            seq![]
        } else if status == ProbeStatus::Found {
            worth_reading(stdout, MAX_FOLLOW_UP_FILES as nat)
        } else {
            first_items(fallback_files(probe.id@), MAX_FOLLOW_UP_FILES as nat)
        }
    }

    /// What the answer to the probe's own command is reported with.
    pub open spec fn detail_of(probe: Probe, status: ProbeStatus, output: OutputView) -> Option<Seq<char>> {
        if probe.dir is Some && status == ProbeStatus::Found && RunView::names_of(
            probe,
            status,
            output.stdout,
        ).len() == 0 {
            Some("目录为空"@)
        } else if probe.ingest && status == ProbeStatus::Found && tail_text(
            output.stdout,
            MAX_PROBE_LINES as nat,
        ).1 {
            Some(trimmed_detail())
        } else {
            stderr_detail(output.stderr)
        }
    }

    /// After the answer to the probe's own command, of which `n` records were
    /// accepted.
    pub open spec fn started(probe: Probe, output: OutputView, n: nat) -> RunView {
        let status = diagnosis(output.stdout, lowercase(output.stderr), output.code);
        RunView {
            probe,
            status,
            detail: RunView::detail_of(probe, status, output),
            records: n,
            files: seq![],
            names: RunView::names_of(probe, status, output.stdout),
            next: 0,
        }
    }

    /// The name of the file that is asked for.
    pub open spec fn name(self) -> Seq<char> {
        self.names[self.next as int]
    }

    /// After a file that was read and of which `n` records were accepted.
    pub open spec fn with_file(self, n: nat) -> RunView {
        RunView {
            files: self.files.push(self.name()),
            records: capped_sum(self.records, n),
            next: self.next + 1,
            ..self
        }
    }

    /// After a file that could be asked for but gave nothing.
    pub open spec fn with_fault(self, status: ProbeStatus) -> RunView {
        RunView {
            files: self.files.push(self.name()),
            detail: Some(self.name() + ": "@ + status.label_text()),
            next: self.next + 1,
            ..self
        }
    }

    /// After a file that could not be asked for.
    pub open spec fn with_error(self, reason: Seq<char>) -> RunView {
        RunView { detail: Some(self.name() + ": "@ + reason), next: self.next + 1, ..self }
    }

    /// What is reported.
    pub open spec fn outcome(self) -> OutcomeView {
        OutcomeView {
            id: self.probe.id@,
            label: self.probe.label@,
            command: self.probe.command@,
            status: self.status,
            records: self.records as usize,
            files: self.files,
            detail: self.detail,
            hint: self.status.remedy(),
        }
    }
}

/// What is reported of a probe whose command could not be run.
pub open spec fn failed_outcome(probe: Probe, reason: Seq<char>) -> OutcomeView {
    OutcomeView {
        id: probe.id@,
        label: probe.label@,
        command: probe.command@,
        status: ProbeStatus::Failed,
        records: 0,
        files: seq![],
        detail: Some(reason),
        hint: ProbeStatus::Failed.remedy(),
    }
}

/// The answer to a probe's own command leads from the first ingestor and state to the
/// second, and begins the run: output that was found is ingested where it is log text.
pub open spec fn run_begins(
    probe: Probe,
    output: OutputView,
    i: IngestView,
    s: StateView,
    now: u64,
    after: IngestView,
    state: StateView,
    run: RunView,
) -> bool {
    if probe.ingest && diagnosis(output.stdout, lowercase(output.stderr), output.code) == ProbeStatus::Found {
        &&& (after, state, run.records) == fed(i, s, lines(tail_text(output.stdout, MAX_PROBE_LINES as nat).0), now)
        &&& run == RunView::started(probe, output, run.records)
    } else {
        after == i && state == s && run == RunView::started(probe, output, 0)
    }
}

/// The answer to the command that reads a file leads from the first ingestor and state
/// to the second, and from one run to the next: a file that was found is ingested, and
/// one that could not be read is told of.
pub open spec fn file_taken(
    run: RunView,
    reply: Result<ExecOutput>,
    i: IngestView,
    s: StateView,
    now: u64,
    after: IngestView,
    state: StateView,
    next: RunView,
) -> bool {
    match reply {
        Ok(output) => {
            let status = diagnosis(output@.stdout, lowercase(output@.stderr), output@.code);
            if status == ProbeStatus::Found {
                let (i1, s1, n) = fed(i, s, lines(tail_text(output@.stdout, MAX_PROBE_LINES as nat).0), now);
                after == i1 && state == s1 && next == run.with_file(n)
            } else {
                after == i && state == s && next == run.with_fault(status)
            }
        },
        Err(error) => after == i && state == s && exists|reason: Seq<char>|
            next == #[trigger] run.with_error(reason) && says(error@, reason),
    }
}

fn file_names(probe: &Probe, status: ProbeStatus, stdout: &str) -> (r: Vec<String>)
    ensures
        views(r@) == RunView::names_of(*probe, status, stdout@),
{
    if probe.dir.is_none() {
        let r: Vec<String> = Vec::new();
        assert(views(r@) =~= seq![]);
        return r;
    }
    if status == ProbeStatus::Found {
        return listed_files(stdout, MAX_FOLLOW_UP_FILES);
    }
    let known: &'static [&'static str] = known_files(probe.id);
    let ghost wanted = first_items(views(known@), MAX_FOLLOW_UP_FILES as nat);
    assert(views(known@).len() == known@.len());
    let mut r: Vec<String> = Vec::new();
    let mut i: usize = 0;
    while i < known.len() && i < MAX_FOLLOW_UP_FILES
        invariant
            i <= known@.len(),
            i <= MAX_FOLLOW_UP_FILES,
            wanted == first_items(views(known@), MAX_FOLLOW_UP_FILES as nat),
            views(r@) =~= views(known@).take(i as int),
        decreases known@.len() - i,
    {
        let name: String = known[i].to_owned();
        proof {
            lemma_views_push(r@, name);
            assert(views(known@)[i as int] == name@);
        }
        r.push(name);
        i += 1;
    }
    assert(views(r@) =~= wanted);
    r
}

impl ProbeRun {
    /// Takes the answer to the probe's own command, and ingests what it holds.
    pub fn begin(
        probe: Probe,
        output: &ExecOutput,
        ingest: &mut Ingestor,
        state: &mut AppState,
        now: u64,
    ) -> (r: Self)
        requires
            old(state)@.wf(),
        ensures
            final(state)@.wf(),
            run_begins(probe, output@, old(ingest)@, old(state)@, now, final(ingest)@, final(state)@, r@),
    {
        let status: ProbeStatus = classify_output(output);
        let mut detail: Option<String> = detail_of(output.stderr.as_str());
        let mut records: usize = 0;
        if probe.ingest && status == ProbeStatus::Found {
            let (text, trimmed): (String, bool) = tail_lines(output.stdout.as_str(), MAX_PROBE_LINES);
            records = ingest.feed_text(state, text.as_str(), now);
            if trimmed {
                let limit: String = u64_text(MAX_PROBE_LINES as u64);
                detail = Some(concat3("输出超过 ", limit.as_str(), " 行，仅保留最新部分"));
            }
        }
        let names: Vec<String> = file_names(&probe, status, output.stdout.as_str());
        assert(views(names@).len() == names@.len());
        if probe.dir.is_some() && status == ProbeStatus::Found && names.len() == 0 {
            detail = Some("目录为空".to_owned());
        }
        let r: ProbeRun = ProbeRun { probe, status, detail, records, files: Vec::new(), names, next: 0 };
        assert(r@.files =~= seq![]);
        assert(r@ =~= RunView::started(probe, output@, records as nat));
        r
    }

    /// The command that reads the next file, if there is one.
    pub fn next_command(&self) -> (r: Option<String>)
        ensures
            opt_view(r) == if self@.next < self@.names.len() && self@.probe.dir is Some {
                Some(read_back(self@.probe.dir->0@, self@.name()))
            } else {
                None
            },
    {
        assert(views(self.names@).len() == self.names@.len());
        if self.next >= self.names.len() {
            return None;
        }
        assert(views(self.names@)[self.next as int] == self.names@[self.next as int]@);
        match self.probe.dir {
            Some(dir) => Some(follow_up(dir, self.names[self.next].as_str())),
            None => None,
        }
    }

    /// Takes the answer to [`ProbeRun::next_command`], and ingests what it holds.
    pub fn take_file(
        &mut self,
        reply: Result<ExecOutput>,
        ingest: &mut Ingestor,
        state: &mut AppState,
        now: u64,
    )
        requires
            old(state)@.wf(),
            old(self)@.next < old(self)@.names.len(),
        ensures
            final(state)@.wf(),
            file_taken(
                old(self)@,
                reply,
                old(ingest)@,
                old(state)@,
                now,
                final(ingest)@,
                final(state)@,
                final(self)@,
            ),
    {
        assert(views(self.names@).len() == self.names@.len());
        assert(self.next < self.names.len());
        assert(views(self.names@)[self.next as int] == self.names@[self.next as int]@);
        let name: String = self.names[self.next].clone();
        let ghost word = name@;
        match reply {
            Ok(output) => {
                let status: ProbeStatus = classify_output(&output);
                let shown: String = name.clone();
                proof {
                    lemma_views_push(self.files@, name);
                }
                self.files.push(name);
                if status == ProbeStatus::Found {
                    let (text, _trimmed): (String, bool) = tail_lines(output.stdout.as_str(), MAX_PROBE_LINES);
                    let n: usize = ingest.feed_text(state, text.as_str(), now);
                    self.records = self.records.saturating_add(n);
                    self.next = self.next + 1;
                    assert(self@ =~= old(self)@.with_file(n as nat));
                    assert(text@ == tail_text(output@.stdout, MAX_PROBE_LINES as nat).0);
                } else {
                    self.detail = Some(concat3(shown.as_str(), ": ", status.label()));
                    self.next = self.next + 1;
                    assert(self@ =~= old(self)@.with_fault(status));
                }
            }
            Err(error) => {
                let reason: String = error.to_string();
                self.detail = Some(concat3(name.as_str(), ": ", reason.as_str()));
                self.next = self.next + 1;
                assert(self@ =~= old(self)@.with_error(reason@));
            }
        }
    }

    /// What is reported of the probe.
    pub fn outcome(self) -> (r: ProbeOutcome)
        ensures
            r@ == self@.outcome(),
    {
        ProbeOutcome {
            id: self.probe.id.to_owned(),
            label: self.probe.label.to_owned(),
            command: self.probe.command.to_owned(),
            status: self.status,
            records: self.records,
            files: self.files,
            detail: self.detail,
            hint: self.status.hint_text(),
        }
    }

    /// What is reported of a probe whose command could not be run.
    pub fn failed(probe: Probe, error: &DroidLogError) -> (r: ProbeOutcome)
        ensures
            exists|reason: Seq<char>| r@ == #[trigger] failed_outcome(probe, reason) && says(error@, reason),
    {
        let reason: String = error.to_string();
        let ghost text = reason@;
        let r: ProbeOutcome = ProbeOutcome {
            id: probe.id.to_owned(),
            label: probe.label.to_owned(),
            command: probe.command.to_owned(),
            status: ProbeStatus::Failed,
            records: 0,
            files: Vec::new(),
            detail: Some(reason),
            hint: ProbeStatus::Failed.hint_text(),
        };
        assert(r@ =~= failed_outcome(probe, text));
        r
    }
}

/// A directory probe reads back a bounded number of files, and a probe without a
/// directory reads none.
pub proof fn law_few_files_are_read_back(probe: Probe, status: ProbeStatus, stdout: Seq<char>)
    ensures
        RunView::names_of(probe, status, stdout).len() <= MAX_FOLLOW_UP_FILES,
        probe.dir is None ==> RunView::names_of(probe, status, stdout).len() == 0,
{
}

} // verus!
