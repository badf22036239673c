//! What a collection run asks for, finds and reports.

use vstd::prelude::*;
use crate::collect::probe::{ProbeOutcome, ProbeStatus, OutcomeView};
use crate::crash::CrashKind;
use crate::executor::ExecMode;
use crate::source::LogSourceKind;
use crate::text::chars::{clone_opt, has_str, lemma_views_push, opt_view, views};

verus! {

/// One recognised crash: which record, and which family.
#[derive(Debug, Clone, Copy, PartialEq, Eq, Structural)]
pub struct CrashEntry {
    /// Sequence number of the record that matched.
    pub seq: u64,
    /// Failure family.
    pub kind: CrashKind,
}

/// Recognised crashes of a session.
#[derive(Debug)]
pub struct CrashEvent {
    /// Session the entries belong to.
    pub session_id: String,
    /// Recognised crashes, oldest first.
    pub entries: Vec<CrashEntry>,
}

/// Request for one collection run.
#[derive(Debug)]
pub struct CollectRequest {
    /// Target device serial.
    pub serial: String,
    /// Transport mode in use.
    pub mode: ExecMode,
    /// Ring capacity override.
    pub capacity: Option<usize>,
    /// Boot collection: total polling window, in milliseconds.
    pub duration_ms: Option<u64>,
    /// Boot collection: poll interval, in milliseconds.
    pub interval_ms: Option<u64>,
}

/// What a collection run found, probe by probe.
#[derive(Debug)]
pub struct CollectionReport {
    /// Session the report belongs to.
    pub session_id: String,
    /// Collector that ran.
    pub source: LogSourceKind,
    /// One outcome per probe, in execution order.
    pub outcomes: Vec<ProbeOutcome>,
    /// Probes that yielded records.
    pub sources_found: usize,
    /// Records accepted across all probes.
    pub records: usize,
    /// Wall-clock finish time, in milliseconds since the Unix epoch.
    pub finished_at_ms: u64,
    /// Why nothing could be read, where nothing could.
    pub failure: Option<String>,
}

#[verifier::ext_equal]
pub struct ReportView {
    pub session_id: Seq<char>,
    pub source: LogSourceKind,
    pub outcomes: Seq<OutcomeView>,
    pub sources_found: usize,
    pub records: usize,
    pub finished_at_ms: u64,
    pub failure: Option<Seq<char>>,
}

impl View for CollectionReport {
    type V = ReportView;

    open spec fn view(&self) -> ReportView {
        ReportView {
            session_id: self.session_id@,
            source: self.source,
            outcomes: views(self.outcomes@),
            sources_found: self.sources_found,
            records: self.records,
            finished_at_ms: self.finished_at_ms,
            failure: opt_view(self.failure),
        }
    }
}

fn clone_outcomes(outcomes: &Vec<ProbeOutcome>) -> (r: Vec<ProbeOutcome>)
    ensures
        views(r@) == views(outcomes@),
{
    let mut r: Vec<ProbeOutcome> = Vec::new();
    let mut i: usize = 0;
    while i < outcomes.len()
        invariant
            i <= outcomes@.len(),
            views(r@) =~= views(outcomes@).take(i as int),
        decreases outcomes@.len() - i,
    {
        let outcome: ProbeOutcome = outcomes[i].clone();
        proof {
            lemma_views_push(r@, outcome);
            assert(views(outcomes@)[i as int] == outcome@);
        }
        r.push(outcome);
        i += 1;
    }
    assert(views(r@) =~= views(outcomes@));
    r
}

impl Clone for CollectionReport {
    fn clone(&self) -> (r: Self)
        ensures
            r@ == self@,
    {
        CollectionReport {
            session_id: self.session_id.clone(),
            source: self.source,
            outcomes: clone_outcomes(&self.outcomes),
            sources_found: self.sources_found,
            records: self.records,
            finished_at_ms: self.finished_at_ms,
            failure: clone_opt(&self.failure),
        }
    }
}

/// The outcomes that produced records, in order.
pub open spec fn found_outcomes(outcomes: Seq<OutcomeView>) -> Seq<OutcomeView>
    decreases outcomes.len(),
{
    if outcomes.len() == 0 {
        seq![]
    } else if outcomes.last().status == ProbeStatus::Found && outcomes.last().records > 0 {
        found_outcomes(outcomes.drop_last()).push(outcomes.last())
    } else {
        found_outcomes(outcomes.drop_last())
    }
}

/// The records of all outcomes together, as far as a machine word holds them.
pub open spec fn total_records(outcomes: Seq<OutcomeView>) -> nat
    decreases outcomes.len(),
{
    if outcomes.len() == 0 {
        0
    } else {
        let sum = total_records(outcomes.drop_last()) + outcomes.last().records as nat;
        if sum <= usize::MAX {
            sum
        } else {
            usize::MAX as nat
        }
    }
}

/// Some outcome is no fault.
pub open spec fn any_ok(outcomes: Seq<OutcomeView>) -> bool {
    exists|i: int| 0 <= i < outcomes.len() && (#[trigger] outcomes[i]).status.ok()
}

/// What is said of a run in which every probe was a fault.
pub const NOTHING_READABLE: &'static str = "设备上没有可读取的日志源：请查看各项提示后重试";

impl ReportView {
    /// The report of a finished run.
    pub open spec fn of(
        session_id: Seq<char>,
        source: LogSourceKind,
        outcomes: Seq<OutcomeView>,
        finished_at_ms: u64,
    ) -> ReportView {
        ReportView {
            session_id,
            source,
            outcomes,
            sources_found: found_outcomes(outcomes).len() as usize,
            records: total_records(outcomes) as usize,
            finished_at_ms,
            failure: if any_ok(outcomes) {
                None
            } else {
                Some(NOTHING_READABLE@)
            },
        }
    }

    /// The report of a run that could not even start probing.
    pub open spec fn failed(
        session_id: Seq<char>,
        source: LogSourceKind,
        message: Seq<char>,
        finished_at_ms: u64,
    ) -> ReportView {
        ReportView {
            session_id,
            source,
            outcomes: seq![],
            sources_found: 0,
            records: 0,
            finished_at_ms,
            failure: Some(message),
        }
    }

    /// The remedies in order, each once.
    pub open spec fn remedies(outcomes: Seq<OutcomeView>) -> Seq<Seq<char>>
        decreases outcomes.len(),
    {
        if outcomes.len() == 0 {
            seq![]
        } else {
            let before = ReportView::remedies(outcomes.drop_last());
            match outcomes.last().hint {
                Some(hint) => if before.contains(hint) {
                    before
                } else {
                    before.push(hint)
                },
                None => before,
            }
        }
    }
}

impl CollectionReport {
    /// Builds a report from finished probe outcomes.
    pub fn new(
        session_id: String,
        source: LogSourceKind,
        outcomes: Vec<ProbeOutcome>,
        finished_at_ms: u64,
    ) -> (r: Self)
        ensures
            r@ == ReportView::of(session_id@, source, views(outcomes@), finished_at_ms),
    {
        let ghost all = views(outcomes@);
        let mut sources_found: usize = 0;
        let mut records: usize = 0;
        let mut ok: bool = false;
        let mut i: usize = 0;
        while i < outcomes.len()
            invariant
                i <= outcomes@.len(),
                all == views(outcomes@),
                sources_found as nat == found_outcomes(all.take(i as int)).len(),
                sources_found <= i,
                records as nat == total_records(all.take(i as int)),
                ok == any_ok(all.take(i as int)),
            decreases outcomes@.len() - i,
        {
            let ghost before = all.take(i as int);
            let ghost after = all.take(i as int + 1);
            assert(after.drop_last() =~= before);
            assert(after.last() == outcomes@[i as int]@);
            assert(any_ok(after) == (any_ok(before) || outcomes@[i as int]@.status.ok())) by {
                if any_ok(before) {
                    let j = choose|j: int| 0 <= j < before.len() && (#[trigger] before[j]).status.ok();
                    assert(after[j].status.ok());
                }
                if outcomes@[i as int]@.status.ok() {
                    assert(after[i as int].status.ok());
                }
                if any_ok(after) && !outcomes@[i as int]@.status.ok() {
                    let j = choose|j: int| 0 <= j < after.len() && (#[trigger] after[j]).status.ok();
                    assert(before[j].status.ok());
                }
            }
            if outcomes[i].status == ProbeStatus::Found && outcomes[i].records > 0 {
                sources_found += 1;
            }
            records = records.saturating_add(outcomes[i].records);
            ok = ok || outcomes[i].status.is_ok();
            i += 1;
        }
        assert(all.take(i as int) =~= all);
        let failure: Option<String> = if ok {
            None
        } else {
            Some(NOTHING_READABLE.to_owned())
        };
        CollectionReport { session_id, source, outcomes, sources_found, records, finished_at_ms, failure }
    }

    /// The report of a run that could not even start probing.
    pub fn failed(session_id: &str, source: LogSourceKind, message: &str, finished_at_ms: u64) -> (r: Self)
        ensures
            r@ == ReportView::failed(session_id@, source, message@, finished_at_ms),
    {
        let r: CollectionReport = CollectionReport {
            session_id: session_id.to_owned(),
            source,
            outcomes: Vec::new(),
            sources_found: 0,
            records: 0,
            finished_at_ms,
            failure: Some(message.to_owned()),
        };
        assert(r@.outcomes =~= seq![]);
        r
    }

    /// The labels of the probes that produced records.
    pub fn found_labels(&self) -> (r: Vec<&str>)
        ensures
            views(r@) == found_outcomes(self@.outcomes).map_values(|o: OutcomeView| o.label),
    {
        let ghost all = self@.outcomes;
        let mut r: Vec<&str> = Vec::new();
        assert(views(r@) =~= found_outcomes(all.take(0)).map_values(|o: OutcomeView| o.label));
        let mut i: usize = 0;
        while i < self.outcomes.len()
            invariant
                i <= self.outcomes@.len(),
                all == views(self.outcomes@),
                views(r@) == found_outcomes(all.take(i as int)).map_values(|o: OutcomeView| o.label),
            decreases self.outcomes@.len() - i,
        {
            let ghost before = found_outcomes(all.take(i as int));
            assert(all.take(i as int + 1).drop_last() =~= all.take(i as int));
            assert(all.take(i as int + 1).last() == self.outcomes@[i as int]@);
            if self.outcomes[i].status == ProbeStatus::Found && self.outcomes[i].records > 0 {
                let label: &str = self.outcomes[i].label.as_str();
                proof {
                    lemma_views_push(r@, label);
                }
                r.push(label);
                assert(views(r@) =~= before.push(self.outcomes@[i as int]@).map_values(|o: OutcomeView| o.label));
            }
            i += 1;
        }
        assert(all.take(i as int) =~= all);
        r
    }

    /// Every remedy that the report can offer, each once, in the order of the probes.
    pub fn hints(&self) -> (r: Vec<&str>)
        ensures
            views(r@) == ReportView::remedies(self@.outcomes),
    {
        let ghost all = self@.outcomes;
        let mut r: Vec<&str> = Vec::new();
        assert(views(r@) =~= seq![]);
        let mut i: usize = 0;
        while i < self.outcomes.len()
            invariant
                i <= self.outcomes@.len(),
                all == views(self.outcomes@),
                views(r@) == ReportView::remedies(all.take(i as int)),
            decreases self.outcomes@.len() - i,
        {
            assert(all.take(i as int + 1).drop_last() =~= all.take(i as int));
            assert(all.take(i as int + 1).last() == self.outcomes@[i as int]@);
            if let Some(hint) = &self.outcomes[i].hint {
                let hint: &str = hint.as_str();
                if !has_str(&r, hint) {
                    proof {
                        lemma_views_push(r@, hint);
                    }
                    r.push(hint);
                }
            }
            i += 1;
        }
        assert(all.take(i as int) =~= all);
        r
    }
}

/// A run failed exactly when no probe of it was free of fault; an empty but readable
/// source is a success.
pub proof fn law_report_failure(
    session_id: Seq<char>,
    source: LogSourceKind,
    outcomes: Seq<OutcomeView>,
    finished_at_ms: u64,
)
    ensures
        ReportView::of(session_id, source, outcomes, finished_at_ms).failure is Some <==> forall|i: int|
            0 <= i < outcomes.len() ==> !(#[trigger] outcomes[i]).status.ok(),
{
}

proof fn lemma_found_outcomes(outcomes: Seq<OutcomeView>)
    ensures
        found_outcomes(outcomes).len() <= outcomes.len(),
        forall|o: OutcomeView| #[trigger]
            found_outcomes(outcomes).contains(o) <==> outcomes.contains(o) && o.status == ProbeStatus::Found
                && o.records > 0,
    decreases outcomes.len(),
{
    if outcomes.len() > 0 {
        let init = outcomes.drop_last();
        let last = outcomes.last();
        let before = found_outcomes(init);
        let after = found_outcomes(outcomes);
        lemma_found_outcomes(init);
        assert forall|o: OutcomeView| #[trigger] after.contains(o) <==> outcomes.contains(o) && o.status
            == ProbeStatus::Found && o.records > 0 by {
            if after.contains(o) {
                let k = choose|k: int| 0 <= k < after.len() && after[k] == o;
                if k < before.len() {
                    assert(before[k] == o);
                    assert(before.contains(o));
                    let m = choose|m: int| 0 <= m < init.len() && init[m] == o;
                    assert(outcomes[m] == o);
                } else {
                    assert(outcomes[outcomes.len() - 1] == o);
                }
            }
            if outcomes.contains(o) && o.status == ProbeStatus::Found && o.records > 0 {
                let m = choose|m: int| 0 <= m < outcomes.len() && outcomes[m] == o;
                if m < init.len() {
                    assert(init[m] == o);
                    assert(before.contains(o));
                    let k = choose|k: int| 0 <= k < before.len() && before[k] == o;
                    assert(after[k] == o);
                } else {
                    assert(after[after.len() - 1] == o);
                }
            }
        }
    }
}

/// Exactly the probes that produced records are named and counted: a report counts
/// none where no probe of it did, however readable the sources were.
pub proof fn law_only_probes_with_records_are_named(outcomes: Seq<OutcomeView>, outcome: OutcomeView)
    requires
        outcomes.contains(outcome),
    ensures
        found_outcomes(outcomes).contains(outcome) <==> outcome.status == ProbeStatus::Found && outcome.records > 0,
        (forall|i: int| 0 <= i < outcomes.len() ==> (#[trigger] outcomes[i]).records == 0) ==> found_outcomes(
            outcomes,
        ).len() == 0,
{
    lemma_found_outcomes(outcomes);
    if found_outcomes(outcomes).len() > 0 {
        let o = found_outcomes(outcomes)[0];
        assert(found_outcomes(outcomes).contains(o));
        let i = choose|i: int| 0 <= i < outcomes.len() && outcomes[i] == o;
        assert(outcomes[i].records > 0);
    }
}

/// No remedy is offered twice.
pub proof fn law_remedies_are_unique(outcomes: Seq<OutcomeView>)
    ensures
        ReportView::remedies(outcomes).no_duplicates(),
    decreases outcomes.len(),
{
    if outcomes.len() > 0 {
        law_remedies_are_unique(outcomes.drop_last());
    }
}

} // verus!
