//! Shared application state.
//!
//! It holds only data that lives as long as the process: the counters, the active
//! filter rules, the followed application, the sessions and the reports. It is a
//! plain value; whoever shares it guards it.

use vstd::prelude::*;
use crate::collect::report::{CollectionReport, ReportView};
use crate::device::resolve::{probe_logcat_uid, uid_answer, AppResolver, AppTarget, ResolverView, TargetView};
use crate::device::watch::{clone_devices, DeviceWatcher, WatcherView};
use crate::device::{DeviceInfo, DeviceView};
use crate::error::{DroidLogError, ErrorView, Result};
use crate::executor::ExecOutput;
use crate::filter::{enabled_rules, first_fault, FilterRule, FilterSet, RuleView};
use crate::parser::record::{LogRecord, RecordView};
use crate::process::{
    InfoView, ProgressView, SessionHandle, SessionProgress, SessionStatus, SessionSummary, SessionView, StatusView,
};
use crate::text::chars::{chars_of, concat2, lemma_views_push, opt_view, str_eq, views};
use crate::text::number::{dec, law_dec_reads_back, parse_unsigned, u64_text, unsigned_of};
use crate::text::search::{after_prefix, after_word};

verus! {

/// State shared by all commands.
#[derive(Debug)]
pub struct AppState {
    seq: u64,
    session_seq: u64,
    filters: Vec<FilterRule>,
    filters_version: u64,
    sessions: Vec<SessionHandle>,
    device_watcher: DeviceWatcher,
    /// The device list of the last poll that succeeded.
    last_devices: Vec<DeviceInfo>,
    /// The followed application, if any.
    app_target: Option<AppTarget>,
    /// Changes whenever the target does.
    app_target_version: u64,
    app_resolver: AppResolver,
    /// Reports of finished collections, by session.
    collect_reports: Vec<CollectionReport>,
}

#[verifier::ext_equal]
pub struct StateView {
    pub seq: u64,
    pub session_seq: u64,
    pub filters: Seq<RuleView>,
    pub filters_version: u64,
    pub sessions: Seq<SessionView>,
    pub watcher: WatcherView,
    pub last_devices: Seq<DeviceView>,
    pub app_target: Option<TargetView>,
    pub app_target_version: u64,
    pub resolver: ResolverView,
    pub reports: Seq<ReportView>,
}

impl View for AppState {
    type V = StateView;

    closed spec fn view(&self) -> StateView {
        StateView {
            seq: self.seq,
            session_seq: self.session_seq,
            filters: views(self.filters@),
            filters_version: self.filters_version,
            sessions: views(self.sessions@),
            watcher: self.device_watcher@,
            last_devices: views(self.last_devices@),
            app_target: opt_view(self.app_target),
            app_target_version: self.app_target_version,
            resolver: self.app_resolver@,
            reports: views(self.collect_reports@),
        }
    }
}

/// The number after this one; the largest is followed by zero.
pub open spec fn next_number(n: u64) -> u64 {
    if n == u64::MAX {
        0
    } else {
        (n + 1) as u64
    }
}

/// The position of the session with this id, or the number of sessions.
pub open spec fn session_index(sessions: Seq<SessionView>, id: Seq<char>) -> int
    decreases sessions.len(),
{
    if sessions.len() == 0 || sessions[0].info.id == id {
        0
    } else {
        1 + session_index(sessions.skip(1), id)
    }
}

/// The number of a session id; zero where it has none.
pub open spec fn session_number(id: Seq<char>) -> nat {
    match after_prefix(id, "session-"@) {
        Some(digits) => match parse_unsigned(digits, u64::MAX as nat) {
            Some(n) => n,
            None => 0,
        },
        None => 0,
    }
}

/// The reports of other sessions.
pub open spec fn other_reports(reports: Seq<ReportView>, id: Seq<char>) -> Seq<ReportView>
    decreases reports.len(),
{
    if reports.len() == 0 {
        seq![]
    } else if reports.last().session_id == id {
        other_reports(reports.drop_last(), id)
    } else {
        other_reports(reports.drop_last(), id).push(reports.last())
    }
}

/// A report put behind those of sessions that are not newer.
pub open spec fn insert_report(reports: Seq<ReportView>, report: ReportView) -> Seq<ReportView>
    decreases reports.len(),
{
    if reports.len() == 0 || session_number(reports.last().session_id) <= session_number(report.session_id) {
        reports.push(report)
    } else {
        insert_report(reports.drop_last(), report).push(reports.last())
    }
}

/// The report of a session.
pub open spec fn report_of(reports: Seq<ReportView>, id: Seq<char>) -> Option<ReportView>
    decreases reports.len(),
{
    if reports.len() == 0 {
        None
    } else if reports[0].session_id == id {
        Some(reports[0])
    } else {
        report_of(reports.skip(1), id)
    }
}

/// The newest `limit` of the records, oldest first.
pub open spec fn newest(records: Seq<RecordView>, limit: Option<usize>) -> Seq<RecordView> {
    match limit {
        Some(limit) if records.len() > limit => records.skip(records.len() - limit),
        _ => records,
    }
}

impl StateView {
    /// No sessions, no filters.
    pub open spec fn fresh() -> StateView {
        StateView {
            seq: 1,
            session_seq: 1,
            filters: seq![],
            filters_version: 0,
            sessions: seq![],
            watcher: WatcherView { wake: false, force_probe: false, resend: false },
            last_devices: seq![],
            app_target: None,
            app_target_version: 0,
            resolver: ResolverView {
                cache: Map::empty(),
                uid_support: Map::empty(),
                ttl: crate::device::resolve::CACHE_TTL,
            },
            reports: seq![],
        }
    }

    /// The stored rules can all be applied, no two sessions share an id, and no ring
    /// holds more than it may.
    pub open spec fn wf(self) -> bool {
        &&& first_fault(self.filters) is None
        &&& forall|i: int, j: int|
            0 <= i < j < self.sessions.len() ==> (#[trigger] self.sessions[i]).info.id != (
            #[trigger] self.sessions[j]).info.id
        &&& forall|i: int| 0 <= i < self.sessions.len() ==> (#[trigger] self.sessions[i]).ring.wf()
        &&& reports_in_order(self.reports)
    }

    pub open spec fn after_seq(self) -> StateView {
        StateView { seq: next_number(self.seq), ..self }
    }

    /// The id that the next session gets.
    pub open spec fn session_id(self) -> Seq<char> {
        "session-"@ + dec(self.session_seq as nat)
    }

    pub open spec fn after_session_id(self) -> StateView {
        StateView { session_seq: next_number(self.session_seq), ..self }
    }

    pub open spec fn has_session(self, id: Seq<char>) -> bool {
        session_index(self.sessions, id) < self.sessions.len()
    }

    pub open spec fn session(self, id: Seq<char>) -> Option<SessionView> {
        if self.has_session(id) {
            Some(self.sessions[session_index(self.sessions, id)])
        } else {
            None
        }
    }

    pub open spec fn with_session(self, session: SessionView) -> StateView {
        StateView { sessions: self.sessions.push(session), ..self }
    }

    pub open spec fn without_session(self, id: Seq<char>) -> StateView {
        StateView { sessions: self.sessions.remove(session_index(self.sessions, id)), ..self }
    }

    /// The session replaced; without such a session nothing changes.
    pub open spec fn replacing(self, id: Seq<char>, session: SessionView) -> StateView {
        StateView { sessions: self.sessions.update(session_index(self.sessions, id), session), ..self }
    }

    /// The records appended to the ring of the session, if it is still there.
    pub open spec fn with_records(self, id: Seq<char>, records: Seq<RecordView>) -> StateView {
        match self.session(id) {
            Some(session) => self.replacing(id, session.with_records(records)),
            None => self,
        }
    }

    pub open spec fn with_status(self, id: Seq<char>, status: StatusView) -> StateView {
        match self.session(id) {
            Some(session) => self.replacing(
                id,
                SessionView { info: InfoView { status, ..session.info }, ..session },
            ),
            None => self,
        }
    }

    pub open spec fn with_progress(self, id: Seq<char>, progress: ProgressView) -> StateView {
        match self.session(id) {
            Some(session) => self.replacing(
                id,
                SessionView { info: InfoView { progress: Some(progress), ..session.info }, ..session },
            ),
            None => self,
        }
    }

    pub open spec fn with_target(self, target: Option<TargetView>) -> StateView {
        StateView { app_target: target, app_target_version: next_number(self.app_target_version), ..self }
    }

    pub open spec fn with_report(self, report: ReportView) -> StateView {
        StateView { reports: insert_report(other_reports(self.reports, report.session_id), report), ..self }
    }
}

pub(crate) proof fn lemma_session_index(sessions: Seq<SessionView>, id: Seq<char>)
    ensures
        0 <= session_index(sessions, id) <= sessions.len(),
        session_index(sessions, id) < sessions.len() ==> sessions[session_index(sessions, id)].info.id == id,
        forall|i: int| 0 <= i < session_index(sessions, id) ==> (#[trigger] sessions[i]).info.id != id,
    decreases sessions.len(),
{
    if sessions.len() > 0 && sessions[0].info.id != id {
        let rest = sessions.skip(1);
        lemma_session_index(rest, id);
        let n = session_index(rest, id);
        assert forall|i: int| 0 <= i < n + 1 implies (#[trigger] sessions[i]).info.id != id by {
            if i > 0 {
                assert(sessions[i] == rest[i - 1]);
            }
        }
        if n < rest.len() {
            assert(sessions[n + 1] == rest[n]);
        }
    }
}

/// Copies a list of rules.
fn clone_rules(rules: &Vec<FilterRule>) -> (r: Vec<FilterRule>)
    ensures
        views(r@) == views(rules@),
{
    let mut r: Vec<FilterRule> = Vec::new();
    let mut i: usize = 0;
    while i < rules.len()
        invariant
            i <= rules@.len(),
            views(r@) =~= views(rules@).take(i as int),
        decreases rules@.len() - i,
    {
        let rule: FilterRule = rules[i].clone();
        proof {
            lemma_views_push(r@, rule);
            assert(views(rules@)[i as int] == rule@);
        }
        r.push(rule);
        i += 1;
    }
    assert(views(r@) =~= views(rules@));
    r
}

impl AppState {
    /// Creates empty state with no sessions and no filters.
    pub fn new() -> (r: Self)
        ensures
            r@ == StateView::fresh(),
            r@.wf(),
    {
        let r: AppState = AppState {
            seq: 1,
            session_seq: 1,
            filters: Vec::new(),
            filters_version: 0,
            sessions: Vec::new(),
            device_watcher: DeviceWatcher::new(),
            last_devices: Vec::new(),
            app_target: None,
            app_target_version: 0,
            app_resolver: AppResolver::default(),
            collect_reports: Vec::new(),
        };
        assert(r@ =~= StateView::fresh());
        r
    }

    /// The resolver of applications.
    pub fn app_resolver(&self) -> (r: &AppResolver)
        ensures
            r@ == self@.resolver,
    {
        &self.app_resolver
    }

    /// Keeps a resolution that was taken at `now`.
    pub fn store_resolution(&mut self, target: &AppTarget, now: u64)
        ensures
            final(self)@ == (StateView {
                resolver: (ResolverView {
                    cache: old(self)@.resolver.cache.insert(target@.input, (now, target@)),
                    ..old(self)@.resolver
                }),
                ..old(self)@
            }),
            old(self)@.wf() ==> final(self)@.wf(),
    {
        self.app_resolver.store(target, now);
    }

    /// Whether a device supports `logcat --uid=`, given the answer of its logcat; a
    /// device that is known already is not asked again.
    pub fn settle_uid_support(&mut self, serial: &str, help: Result<ExecOutput>) -> (r: Result<bool>)
        ensures
            r == uid_answer(old(self)@.resolver, serial@, help).0,
            final(self)@ == (StateView {
                resolver: uid_answer(old(self)@.resolver, serial@, help).1,
                ..old(self)@
            }),
            old(self)@.wf() ==> final(self)@.wf(),
    {
        probe_logcat_uid(&mut self.app_resolver, serial, help)
    }

    /// The application currently being followed, if any.
    pub fn app_target(&self) -> (r: Option<AppTarget>)
        ensures
            opt_view(r) == self@.app_target,
    {
        match &self.app_target {
            Some(target) => Some(target.clone()),
            None => None,
        }
    }

    /// Revision of the followed application.
    pub fn app_target_version(&self) -> (r: u64)
        ensures
            r == self@.app_target_version,
    {
        self.app_target_version
    }

    /// Replaces, or clears, the followed application.
    pub fn set_app_target(&mut self, target: Option<AppTarget>)
        ensures
            final(self)@ == old(self)@.with_target(opt_view(target)),
            old(self)@.wf() ==> final(self)@.wf(),
    {
        self.app_target = target;
        self.app_target_version = self.app_target_version.wrapping_add(1);
    }

    /// Replaces the target without a new revision: its identity is unchanged, so
    /// capture loops keep the copy they hold.
    pub fn refresh_app_target_quietly(&mut self, target: AppTarget)
        ensures
            final(self)@ == (StateView { app_target: Some(target@), ..old(self)@ }),
            old(self)@.wf() ==> final(self)@.wf(),
    {
        self.app_target = Some(target);
    }

    /// The pending requests to the device poll.
    pub fn device_watcher(&self) -> (r: &DeviceWatcher)
        ensures
            r@ == self@.watcher,
    {
        &self.device_watcher
    }

    /// Asks for an immediate poll that probes every device anew.
    pub fn request_probe(&mut self)
        ensures
            final(self)@ == (StateView {
                watcher: (WatcherView { wake: true, force_probe: true, resend: true }),
                ..old(self)@
            }),
            old(self)@.wf() ==> final(self)@.wf(),
    {
        self.device_watcher.request_probe();
    }

    /// Consumes what waits for the next tick: whether to probe every device, and
    /// whether to announce in any case.
    pub fn take_poll_requests(&mut self) -> (r: (bool, bool))
        ensures
            r == (old(self)@.watcher.force_probe, old(self)@.watcher.resend),
            final(self)@ == (StateView {
                watcher: (WatcherView { wake: false, force_probe: false, resend: false }),
                ..old(self)@
            }),
            old(self)@.wf() ==> final(self)@.wf(),
    {
        let _woken: bool = self.device_watcher.take_wake();
        let force: bool = self.device_watcher.take_force_probe();
        let resend: bool = self.device_watcher.take_resend();
        (force, resend)
    }

    /// The device list of the last poll that succeeded.
    pub fn last_devices(&self) -> (r: Vec<DeviceInfo>)
        ensures
            views(r@) == self@.last_devices,
    {
        clone_devices(&self.last_devices)
    }

    /// Records the device list of a poll that succeeded.
    pub fn set_last_devices(&mut self, devices: Vec<DeviceInfo>)
        ensures
            final(self)@ == (StateView { last_devices: views(devices@), ..old(self)@ }),
            old(self)@.wf() ==> final(self)@.wf(),
    {
        self.last_devices = devices;
    }

    /// Allocates the next record sequence number.
    pub fn next_seq(&mut self) -> (r: u64)
        ensures
            r == old(self)@.seq,
            final(self)@ == old(self)@.after_seq(),
            old(self)@.wf() ==> final(self)@.wf(),
    {
        let r: u64 = self.seq;
        self.seq = self.seq.wrapping_add(1);
        r
    }

    /// Allocates a session id.
    pub fn next_session_id(&mut self) -> (r: String)
        ensures
            r@ == old(self)@.session_id(),
            final(self)@ == old(self)@.after_session_id(),
            old(self)@.wf() ==> final(self)@.wf(),
    {
        let number: String = u64_text(self.session_seq);
        self.session_seq = self.session_seq.wrapping_add(1);
        concat2("session-", number.as_str())
    }

    /// A copy of the active filter rules.
    pub fn filters(&self) -> (r: Vec<FilterRule>)
        ensures
            views(r@) == self@.filters,
    {
        clone_rules(&self.filters)
    }

    /// Revision of the filter rules: a compiled set is good for as long as it stays.
    pub fn filters_version(&self) -> (r: u64)
        ensures
            r == self@.filters_version,
    {
        self.filters_version
    }

    /// Validates and stores `rules` under a new revision.
    ///
    /// Where a rule cannot be applied the previous rules stay in place.
    pub fn set_filters(&mut self, rules: Vec<FilterRule>) -> (r: Result<()>)
        ensures
            match r {
                Ok(_) => first_fault(views(rules@)) is None && final(self)@ == (StateView {
                    filters: views(rules@),
                    filters_version: next_number(old(self)@.filters_version),
                    ..old(self)@
                }),
                Err(error) => final(self)@ == old(self)@ && (first_fault(views(rules@)) matches Some(reason)
                    && error@ == ErrorView::InvalidFilter(reason)),
            },
            old(self)@.wf() ==> final(self)@.wf(),
    {
        match FilterSet::compile(rules.as_slice()) {
            Ok(_) => {
                self.filters = rules;
                self.filters_version = self.filters_version.wrapping_add(1);
                Ok(())
            }
            Err(error) => Err(error),
        }
    }

    /// The compiled form of the current rules.
    pub fn compiled_filters(&self) -> (r: Result<FilterSet>)
        ensures
            match r {
                Ok(set) => first_fault(self@.filters) is None && set@ == enabled_rules(self@.filters),
                Err(error) => first_fault(self@.filters) matches Some(reason) && error@
                    == ErrorView::InvalidFilter(reason),
            },
            self@.wf() ==> r is Ok,
    {
        FilterSet::compile(self.filters.as_slice())
    }

    /// The position of a session, or the number of sessions.
    fn find_session(&self, session_id: &str) -> (r: usize)
        ensures
            r as int == session_index(self@.sessions, session_id@),
            r <= self.sessions@.len(),
    {
        let ghost all = self@.sessions;
        let mut i: usize = 0;
        assert(all.skip(0) =~= all);
        while i < self.sessions.len()
            invariant
                i <= self.sessions@.len(),
                all == views(self.sessions@),
                all.len() == self.sessions@.len(),
                session_index(all, session_id@) == i + session_index(all.skip(i as int), session_id@),
            decreases self.sessions@.len() - i,
        {
            assert(all.skip(i as int)[0] == self.sessions@[i as int]@);
            assert(all.skip(i as int).skip(1) =~= all.skip(i as int + 1));
            if str_eq(self.sessions[i].info().id.as_str(), session_id) {
                return i;
            }
            i += 1;
        }
        i
    }

    /// Registers a session, unless its id is taken.
    pub fn insert_session(&mut self, handle: SessionHandle) -> (r: Result<()>)
        ensures
            match r {
                Ok(_) => !old(self)@.has_session(handle@.info.id) && final(self)@ == old(self)@.with_session(handle@),
                Err(error) => old(self)@.has_session(handle@.info.id) && final(self)@ == old(self)@ && error@
                    == ErrorView::SessionAlreadyRunning(handle@.info.id),
            },
            old(self)@.wf() && handle@.ring.wf() ==> final(self)@.wf(),
    {
        let id: String = handle.info().id.clone();
        let at: usize = self.find_session(id.as_str());
        assert(self@.sessions.len() == self.sessions@.len());
        if at < self.sessions.len() {
            return Err(DroidLogError::SessionAlreadyRunning(id));
        }
        proof {
            lemma_session_index(self@.sessions, id@);
            lemma_views_push(self.sessions@, handle);
        }
        self.sessions.push(handle);
        Ok(())
    }

    /// Removes and returns a session.
    pub fn remove_session(&mut self, session_id: &str) -> (r: Option<SessionHandle>)
        ensures
            match r {
                Some(handle) => old(self)@.session(session_id@) == Some(handle@) && final(self)@
                    == old(self)@.without_session(session_id@),
                None => old(self)@.session(session_id@) is None && final(self)@ == old(self)@,
            },
            old(self)@.wf() ==> final(self)@.wf(),
    {
        let at: usize = self.find_session(session_id);
        assert(self@.sessions.len() == self.sessions@.len());
        if at < self.sessions.len() {
            let ghost before = self.sessions@;
            let handle: SessionHandle = self.sessions.remove(at);
            assert(views(self.sessions@) =~= views(before).remove(at as int));
            proof {
                if old(self)@.wf() {
                    lemma_removal_wf(old(self)@, session_id@);
                }
            }
            Some(handle)
        } else {
            None
        }
    }

    /// Removes every session and returns them.
    pub fn take_sessions(&mut self) -> (r: Vec<SessionHandle>)
        ensures
            views(r@) == old(self)@.sessions,
            final(self)@ == (StateView { sessions: seq![], ..old(self)@ }),
            old(self)@.wf() ==> final(self)@.wf(),
    {
        let mut r: Vec<SessionHandle> = Vec::new();
        r.append(&mut self.sessions);
        assert(r@ =~= old(self).sessions@);
        assert(self@.sessions =~= seq![]);
        r
    }

    /// Ids of all registered sessions, in the order in which they were registered.
    pub fn session_ids(&self) -> (r: Vec<String>)
        ensures
            views(r@) == self@.sessions.map_values(|session: SessionView| session.info.id),
    {
        let ghost wanted = self@.sessions.map_values(|session: SessionView| session.info.id);
        let mut r: Vec<String> = Vec::new();
        let mut i: usize = 0;
        while i < self.sessions.len()
            invariant
                i <= self.sessions@.len(),
                wanted == self@.sessions.map_values(|session: SessionView| session.info.id),
                views(r@) =~= wanted.take(i as int),
            decreases self.sessions@.len() - i,
        {
            let id: String = self.sessions[i].info().id.clone();
            proof {
                lemma_views_push(r@, id);
                assert(self@.sessions[i as int] == self.sessions@[i as int]@);
            }
            r.push(id);
            i += 1;
        }
        assert(views(r@) =~= wanted);
        r
    }

    /// Every session with its counters, in the order in which they were registered.
    pub fn session_summaries(&self) -> (r: Vec<SessionSummary>)
        ensures
            r@.len() == self@.sessions.len(),
            forall|i: int| 0 <= i < r@.len() ==> summarises(#[trigger] r@[i], self@.sessions[i]),
    {
        let mut r: Vec<SessionSummary> = Vec::new();
        let mut i: usize = 0;
        while i < self.sessions.len()
            invariant
                i <= self.sessions@.len(),
                r@.len() == i,
                forall|j: int| 0 <= j < i ==> summarises(#[trigger] r@[j], self@.sessions[j]),
            decreases self.sessions@.len() - i,
        {
            assert(self@.sessions[i as int] == self.sessions@[i as int]@);
            r.push(self.sessions[i].summary());
            i += 1;
        }
        r
    }

    /// Records the status of a session. A session that was removed is nobody's
    /// concern any more.
    pub fn set_session_status(&mut self, session_id: &str, status: SessionStatus)
        ensures
            final(self)@ == old(self)@.with_status(session_id@, status@),
            old(self)@.wf() ==> final(self)@.wf(),
    {
        let at: usize = self.find_session(session_id);
        assert(self@.sessions.len() == self.sessions@.len());
        if at < self.sessions.len() {
            let ghost before = self.sessions@;
            assert(views(before)[at as int] == before[at as int]@);
            proof {
                lemma_session_index(self@.sessions, session_id@);
            }
            self.sessions[at].set_status(status);
            assert(views(self.sessions@) =~= views(before).update(at as int, self.sessions@[at as int]@));
            proof {
                if old(self)@.wf() {
                    lemma_replacing_wf(old(self)@, session_id@, self.sessions@[at as int]@);
                }
            }
        }
    }

    /// Records the progress of a collection, if its session is still there.
    pub fn set_session_progress(&mut self, session_id: &str, progress: SessionProgress)
        ensures
            final(self)@ == old(self)@.with_progress(session_id@, progress@),
            old(self)@.wf() ==> final(self)@.wf(),
    {
        let at: usize = self.find_session(session_id);
        assert(self@.sessions.len() == self.sessions@.len());
        if at < self.sessions.len() {
            let ghost before = self.sessions@;
            assert(views(before)[at as int] == before[at as int]@);
            proof {
                lemma_session_index(self@.sessions, session_id@);
            }
            self.sessions[at].set_progress(progress);
            assert(views(self.sessions@) =~= views(before).update(at as int, self.sessions@[at as int]@));
            proof {
                if old(self)@.wf() {
                    lemma_replacing_wf(old(self)@, session_id@, self.sessions@[at as int]@);
                }
            }
        }
    }

    /// Appends accepted records to the ring of a session, if it is still there.
    pub fn push_records(&mut self, session_id: &str, records: &Vec<LogRecord>)
        requires
            old(self)@.wf(),
        ensures
            final(self)@ == old(self)@.with_records(session_id@, views(records@)),
            final(self)@.wf(),
    {
        let at: usize = self.find_session(session_id);
        assert(self@.sessions.len() == self.sessions@.len());
        if at < self.sessions.len() {
            let ghost before = self.sessions@;
            assert(views(before)[at as int] == before[at as int]@);
            self.sessions[at].push_records(records);
            assert(views(self.sessions@) =~= views(before).update(at as int, self.sessions@[at as int]@));
        }
    }

    /// Stores the report of a finished collection, in place of an earlier one of the
    /// same session.
    pub fn set_collect_report(&mut self, report: CollectionReport)
        ensures
            final(self)@ == old(self)@.with_report(report@),
            old(self)@.wf() ==> final(self)@.wf(),
    {
        proof {
            if self@.wf() {
                lemma_reports_stay_in_order(self@.reports, report@);
            }
        }
        remove_reports(&mut self.collect_reports, report.session_id.as_str());
        push_report(&mut self.collect_reports, report);
    }

    /// The report of a collection, if it has finished.
    pub fn collect_report(&self, session_id: &str) -> (r: Option<CollectionReport>)
        ensures
            opt_view(r) == report_of(self@.reports, session_id@),
    {
        let ghost all = self@.reports;
        let mut i: usize = 0;
        assert(all.skip(0) =~= all);
        while i < self.collect_reports.len()
            invariant
                i <= self.collect_reports@.len(),
                all == views(self.collect_reports@),
                all == self@.reports,
                report_of(all, session_id@) == report_of(all.skip(i as int), session_id@),
            decreases self.collect_reports@.len() - i,
        {
            assert(all.skip(i as int)[0] == self.collect_reports@[i as int]@);
            assert(all.skip(i as int).skip(1) =~= all.skip(i as int + 1));
            if str_eq(self.collect_reports[i].session_id.as_str(), session_id) {
                return Some(self.collect_reports[i].clone());
            }
            i += 1;
        }
        None
    }

    /// Every finished report, newest session id last.
    pub fn collect_reports(&self) -> (r: Vec<CollectionReport>)
        ensures
            views(r@) == self@.reports,
    {
        let mut r: Vec<CollectionReport> = Vec::new();
        let mut i: usize = 0;
        while i < self.collect_reports.len()
            invariant
                i <= self.collect_reports@.len(),
                views(r@) =~= self@.reports.take(i as int),
            decreases self.collect_reports@.len() - i,
        {
            let report: CollectionReport = self.collect_reports[i].clone();
            proof {
                lemma_views_push(r@, report);
                assert(self@.reports[i as int] == report@);
            }
            r.push(report);
            i += 1;
        }
        assert(views(r@) =~= self@.reports);
        r
    }

    /// Up to `limit` of the newest records of a session, oldest first.
    pub fn session_records(&self, session_id: &str, limit: Option<usize>) -> (r: Result<Vec<LogRecord>>)
        ensures
            match r {
                Ok(records) => self@.session(session_id@) matches Some(session) && views(records@) == newest(
                    session.ring.items,
                    limit,
                ),
                Err(error) => self@.session(session_id@) is None && error@ == ErrorView::SessionNotFound(session_id@),
            },
    {
        let at: usize = self.find_session(session_id);
        assert(self@.sessions.len() == self.sessions@.len());
        if at >= self.sessions.len() {
            return Err(DroidLogError::SessionNotFound(session_id.to_owned()));
        }
        assert(self@.sessions[at as int] == self.sessions@[at as int]@);
        let mut records: Vec<LogRecord> = self.sessions[at].records();
        if let Some(limit) = limit {
            if records.len() > limit {
                let ghost all = records@;
                let cut: usize = records.len() - limit;
                let kept: Vec<LogRecord> = records.split_off(cut);
                assert(views(kept@) =~= views(all).skip(cut as int));
                return Ok(kept);
            }
        }
        Ok(records)
    }

    /// Number of registered sessions.
    pub fn session_count(&self) -> (r: usize)
        ensures
            r as nat == self@.sessions.len(),
    {
        self.sessions.len()
    }
}

/// A summary is of this session.
pub open spec fn summarises(summary: SessionSummary, session: SessionView) -> bool {
    &&& summary.session@ == session.info
    &&& summary.stats.len as nat == session.ring.items.len()
    &&& summary.stats.capacity as nat == session.ring.capacity
    &&& summary.stats.total_pushed as nat == session.ring.total_pushed
    &&& summary.stats.total_dropped as nat == session.ring.total_dropped
}

impl Default for AppState {
    fn default() -> (r: Self)
        ensures
            r@ == StateView::fresh(),
            r@.wf(),
    {
        AppState::new()
    }
}

fn session_number_of(id: &str) -> (r: u64)
    ensures
        r as nat == session_number(id@),
{
    let cs: Vec<char> = chars_of(id);
    match after_word(cs.as_slice(), "session-") {
        Some(digits) => match unsigned_of(digits, u64::MAX) {
            Some(n) => n,
            None => 0,
        },
        None => 0,
    }
}

/// Takes the reports of a session out.
fn remove_reports(reports: &mut Vec<CollectionReport>, id: &str)
    ensures
        views(final(reports)@) == other_reports(views(old(reports)@), id@),
{
    let mut kept: Vec<CollectionReport> = Vec::new();
    let ghost all = views(reports@);
    let ghost start = reports@;
    assert(views(kept@) =~= seq![]);
    let mut i: usize = 0;
    while i < reports.len()
        invariant
            i <= reports@.len(),
            reports@ == start,
            start == old(reports)@,
            all == views(reports@),
            views(kept@) == other_reports(all.take(i as int), id@),
        decreases reports@.len() - i,
    {
        assert(all.take(i as int + 1).drop_last() =~= all.take(i as int));
        assert(all.take(i as int + 1).last() == reports@[i as int]@);
        if !str_eq(reports[i].session_id.as_str(), id) {
            let report: CollectionReport = reports[i].clone();
            proof {
                lemma_views_push(kept@, report);
            }
            kept.push(report);
        }
        i += 1;
    }
    assert(all.take(i as int) =~= all);
    *reports = kept;
}

/// Puts a report behind those of sessions that are not newer.
fn push_report(reports: &mut Vec<CollectionReport>, report: CollectionReport)
    ensures
        views(final(reports)@) == insert_report(views(old(reports)@), report@),
    decreases old(reports)@.len(),
{
    let ghost whole = reports@;
    if reports.len() == 0 {
        proof {
            lemma_views_push(whole, report);
        }
        reports.push(report);
        return;
    }
    let last: u64 = session_number_of(reports[reports.len() - 1].session_id.as_str());
    assert(views(whole).last() == whole.last()@);
    if last <= session_number_of(report.session_id.as_str()) {
        proof {
            lemma_views_push(whole, report);
        }
        reports.push(report);
    } else {
        match reports.pop() {
            Some(top) => {
                assert(views(reports@) =~= views(whole).drop_last());
                push_report(reports, report);
                proof {
                    lemma_views_push(reports@, top);
                }
                reports.push(top);
            }
            None => {}
        }
    }
}

/// No two sessions get the same id, as long as the counter does not come round.
pub proof fn law_session_ids_differ(a: StateView, b: StateView)
    requires
        a.session_seq != b.session_seq,
    ensures
        a.session_id() != b.session_id(),
{
    law_dec_reads_back(a.session_seq as nat);
    law_dec_reads_back(b.session_seq as nat);
    if a.session_id() == b.session_id() {
        let n = "session-"@.len() as int;
        assert(a.session_id().skip(n) =~= dec(a.session_seq as nat));
        assert(b.session_id().skip(n) =~= dec(b.session_seq as nat));
    }
}

/// Counters grow by one with every number that is given out, until they come round.
pub proof fn law_numbers_grow(s: StateView)
    ensures
        s.seq < u64::MAX ==> s.after_seq().seq == s.seq + 1,
        s.session_seq < u64::MAX ==> s.after_session_id().session_seq == s.session_seq + 1,
        s.app_target_version < u64::MAX ==> s.with_target(None).app_target_version == s.app_target_version + 1,
{
}

proof fn lemma_push_all_wf(ring: crate::ring::RingView<RecordView>, records: Seq<RecordView>)
    requires
        ring.wf(),
    ensures
        ring.push_all(records).wf(),
    decreases records.len(),
{
    if records.len() > 0 {
        lemma_push_all_wf(ring, records.drop_last());
    }
}

proof fn lemma_replacing_wf(s: StateView, id: Seq<char>, session: SessionView)
    requires
        s.wf(),
        s.session(id) is Some,
        session.info.id == id,
        session.ring.wf(),
    ensures
        s.replacing(id, session).wf(),
{
    lemma_session_index(s.sessions, id);
    let at = session_index(s.sessions, id);
    let after = s.replacing(id, session);
    assert forall|i: int, j: int| 0 <= i < j < after.sessions.len() implies (#[trigger] after.sessions[i]).info.id != (
    #[trigger] after.sessions[j]).info.id by {
        assert(s.sessions[i].info.id != s.sessions[j].info.id);
    }
}

proof fn lemma_removal_wf(s: StateView, id: Seq<char>)
    requires
        s.wf(),
        s.has_session(id),
    ensures
        s.without_session(id).wf(),
{
    lemma_session_index(s.sessions, id);
    let at = session_index(s.sessions, id);
    let after = s.without_session(id);
    assert forall|i: int, j: int| 0 <= i < j < after.sessions.len() implies (#[trigger] after.sessions[i]).info.id != (
    #[trigger] after.sessions[j]).info.id by {
        let x = if i < at { i } else { i + 1 };
        let y = if j < at { j } else { j + 1 };
        assert(s.sessions[x].info.id != s.sessions[y].info.id);
    }
    assert forall|i: int| 0 <= i < after.sessions.len() implies (#[trigger] after.sessions[i]).ring.wf() by {
        let x = if i < at { i } else { i + 1 };
        assert(s.sessions[x].ring.wf());
    }
}

/// What holds of the state keeps holding: appending records, recording a status or a
/// progress, removing a session, following an application and storing a report leave
/// it well formed, and so does registering a session under an id that is not taken.
pub proof fn law_state_stays_well_formed(
    s: StateView,
    id: Seq<char>,
    records: Seq<RecordView>,
    status: StatusView,
    progress: ProgressView,
    target: Option<TargetView>,
    report: ReportView,
    session: SessionView,
)
    requires
        s.wf(),
    ensures
        s.with_records(id, records).wf(),
        s.with_status(id, status).wf(),
        s.with_progress(id, progress).wf(),
        s.has_session(id) ==> s.without_session(id).wf(),
        s.with_target(target).wf(),
        s.with_report(report).wf(),
        s.after_seq().wf(),
        s.after_session_id().wf(),
        !s.has_session(session.info.id) && session.ring.wf() ==> s.with_session(session).wf(),
{
    lemma_session_index(s.sessions, id);
    lemma_session_index(s.sessions, session.info.id);
    let at = session_index(s.sessions, id);
    if s.has_session(id) {
        let held = s.sessions[at];
        lemma_push_all_wf(held.ring, records);
        lemma_replacing_wf(s, id, held.with_records(records));
        lemma_replacing_wf(s, id, SessionView { info: InfoView { status, ..held.info }, ..held });
        lemma_replacing_wf(s, id, SessionView { info: InfoView { progress: Some(progress), ..held.info }, ..held });
        lemma_removal_wf(s, id);
    }
    lemma_reports_stay_in_order(s.reports, report);
}

/// A session that was registered is found, and one that was removed is not.
pub proof fn law_sessions_are_found(s: StateView, session: SessionView, id: Seq<char>)
    requires
        s.wf(),
    ensures
        !s.has_session(session.info.id) ==> s.with_session(session).session(session.info.id) == Some(session),
        s.has_session(id) ==> !s.without_session(id).has_session(id),
{
    lemma_session_index(s.sessions, session.info.id);
    lemma_session_index(s.with_session(session).sessions, session.info.id);
    if !s.has_session(session.info.id) {
        let after = s.with_session(session).sessions;
        let at = session_index(after, session.info.id);
        assert(after[s.sessions.len() as int].info.id == session.info.id);
        if at < s.sessions.len() {
            assert(after[at] == s.sessions[at]);
            assert(s.sessions[at].info.id != session.info.id);
        }
    }
    if s.has_session(id) {
        lemma_session_index(s.sessions, id);
        let at = session_index(s.sessions, id);
        let after = s.without_session(id).sessions;
        lemma_session_index(after, id);
        let hit = session_index(after, id);
        if hit < after.len() {
            let x = if hit < at { hit } else { hit + 1 };
            assert(s.sessions[x].info.id == id);
            if x < at {
                assert(s.sessions[x].info.id != s.sessions[at].info.id);
            } else {
                assert(s.sessions[at].info.id != s.sessions[x].info.id);
            }
        }
    }
}

/// Sessions are independent: stopping one, and feeding one, leaves every other as it
/// was.
pub proof fn law_sessions_are_independent(s: StateView, id: Seq<char>, other: Seq<char>, records: Seq<RecordView>)
    requires
        s.wf(),
        id != other,
    ensures
        s.has_session(id) ==> s.without_session(id).session(other) == s.session(other),
        s.with_records(id, records).session(other) == s.session(other),
{
    lemma_session_index(s.sessions, id);
    lemma_session_index(s.sessions, other);
    if s.has_session(id) {
        let at = session_index(s.sessions, id);
        let there = session_index(s.sessions, other);
        let rest = s.without_session(id).sessions;
        let fed = s.with_records(id, records).sessions;
        lemma_session_index(rest, other);
        lemma_session_index(fed, other);
        let x = session_index(rest, other);
        let y = session_index(fed, other);
        if there < s.sessions.len() {
            let moved = if there < at { there } else { there - 1 };
            assert(rest[moved] == s.sessions[there]);
            assert(fed[there] == s.sessions[there]);
        }
        if x < rest.len() {
            let back = if x < at { x } else { x + 1 };
            assert(rest[x] == s.sessions[back]);
            lemma_unique_session(s, back, there, other);
        }
        if y < fed.len() {
            if y == at {
                assert(fed[y].info.id == id);
            } else {
                assert(fed[y] == s.sessions[y]);
                lemma_unique_session(s, y, there, other);
            }
        }
    }
}

proof fn lemma_unique_session(s: StateView, i: int, at: int, id: Seq<char>)
    requires
        s.wf(),
        0 <= i < s.sessions.len(),
        s.sessions[i].info.id == id,
        at == session_index(s.sessions, id),
    ensures
        i == at,
{
    lemma_session_index(s.sessions, id);
    if i < at {
        assert(s.sessions[i].info.id != id);
    } else if at < i {
        assert(s.sessions[at].info.id != s.sessions[i].info.id);
    }
}

/// The reports are in the order of their sessions, each session once.
pub open spec fn reports_in_order(reports: Seq<ReportView>) -> bool {
    forall|i: int, j: int|
        0 <= i < j < reports.len() ==> session_number((#[trigger] reports[i]).session_id) <= session_number(
            (#[trigger] reports[j]).session_id,
        ) && reports[i].session_id != reports[j].session_id
}

proof fn lemma_other_reports(reports: Seq<ReportView>, id: Seq<char>)
    requires
        reports_in_order(reports),
    ensures
        reports_in_order(other_reports(reports, id)),
        forall|i: int|
            0 <= i < other_reports(reports, id).len() ==> (#[trigger] other_reports(reports, id)[i]).session_id != id
                && reports.contains(other_reports(reports, id)[i]),
        forall|r: ReportView| reports.contains(r) && r.session_id != id ==> #[trigger] other_reports(reports, id).contains(r),
    decreases reports.len(),
{
    if reports.len() > 0 {
        let init = reports.drop_last();
        lemma_other_reports(init, id);
        let sub = other_reports(init, id);
        let all = other_reports(reports, id);
        assert forall|i: int| 0 <= i < all.len() implies (#[trigger] all[i]).session_id != id && reports.contains(
            all[i],
        ) by {
            if i < sub.len() {
                assert(all[i] == sub[i]);
                assert(init.contains(sub[i]));
                let k = choose|k: int| 0 <= k < init.len() && init[k] == sub[i];
                assert(reports[k] == sub[i]);
            } else {
                assert(reports[reports.len() - 1] == all[i]);
            }
        }
        assert forall|i: int, j: int| 0 <= i < j < all.len() implies session_number((#[trigger] all[i]).session_id)
            <= session_number((#[trigger] all[j]).session_id) && all[i].session_id != all[j].session_id by {
            if j < sub.len() {
                assert(all[i] == sub[i] && all[j] == sub[j]);
            } else {
                assert(all[i] == sub[i]);
                assert(init.contains(sub[i]));
                let k = choose|k: int| 0 <= k < init.len() && init[k] == sub[i];
                assert(reports[k] == sub[i]);
                assert(reports[reports.len() - 1] == all[j]);
            }
        }
        assert forall|r: ReportView| reports.contains(r) && r.session_id != id implies #[trigger] all.contains(r) by {
            let k = choose|k: int| 0 <= k < reports.len() && reports[k] == r;
            if k < init.len() {
                assert(init[k] == r);
                assert(sub.contains(r));
                let m = choose|m: int| 0 <= m < sub.len() && sub[m] == r;
                assert(all[m] == r);
            } else {
                assert(all[all.len() - 1] == r);
            }
        }
    }
}

proof fn lemma_insert_report(reports: Seq<ReportView>, report: ReportView)
    requires
        reports_in_order(reports),
        forall|i: int| 0 <= i < reports.len() ==> (#[trigger] reports[i]).session_id != report.session_id,
    ensures
        reports_in_order(insert_report(reports, report)),
        forall|r: ReportView| #[trigger] insert_report(reports, report).contains(r) <==> reports.contains(r) || r == report,
    decreases reports.len(),
{
    let all = insert_report(reports, report);
    if reports.len() == 0 || session_number(reports.last().session_id) <= session_number(report.session_id) {
        assert forall|i: int, j: int| 0 <= i < j < all.len() implies session_number((#[trigger] all[i]).session_id)
            <= session_number((#[trigger] all[j]).session_id) && all[i].session_id != all[j].session_id by {
            if j == reports.len() && i < reports.len() - 1 {
                assert(session_number(reports[i].session_id) <= session_number(reports[reports.len() - 1].session_id));
            }
        }
        assert forall|r: ReportView| #[trigger] all.contains(r) <==> reports.contains(r) || r == report by {
            if reports.contains(r) {
                let k = choose|k: int| 0 <= k < reports.len() && reports[k] == r;
                assert(all[k] == r);
            }
            assert(all[reports.len() as int] == report);
        }
    } else {
        let init = reports.drop_last();
        let sub = insert_report(init, report);
        lemma_insert_report(init, report);
        assert forall|i: int, j: int| 0 <= i < j < all.len() implies session_number((#[trigger] all[i]).session_id)
            <= session_number((#[trigger] all[j]).session_id) && all[i].session_id != all[j].session_id by {
            if j == all.len() - 1 {
                assert(all[i] == sub[i]);
                assert(sub.contains(sub[i]));
                if sub[i] != report {
                    assert(init.contains(sub[i]));
                    let k = choose|k: int| 0 <= k < init.len() && init[k] == sub[i];
                    assert(reports[k] == sub[i]);
                    assert(reports[reports.len() - 1] == all[j]);
                } else {
                    assert(reports[reports.len() - 1].session_id != report.session_id);
                }
            } else {
                assert(all[i] == sub[i] && all[j] == sub[j]);
            }
        }
        assert forall|r: ReportView| #[trigger] all.contains(r) <==> reports.contains(r) || r == report by {
            if all.contains(r) {
                let k = choose|k: int| 0 <= k < all.len() && all[k] == r;
                if k < sub.len() {
                    assert(sub[k] == r);
                    assert(sub.contains(r));
                    if init.contains(r) {
                        let m = choose|m: int| 0 <= m < init.len() && init[m] == r;
                        assert(reports[m] == r);
                    }
                } else {
                    assert(reports[reports.len() - 1] == r);
                }
            }
            if reports.contains(r) || r == report {
                if reports.contains(r) {
                    let m = choose|m: int| 0 <= m < reports.len() && reports[m] == r;
                    if m < init.len() {
                        assert(init[m] == r);
                    } else {
                        assert(all[all.len() - 1] == r);
                    }
                }
                if init.contains(r) || r == report {
                    assert(sub.contains(r));
                    let k = choose|k: int| 0 <= k < sub.len() && sub[k] == r;
                    assert(all[k] == r);
                }
            }
        }
    }
}

proof fn lemma_report_of(reports: Seq<ReportView>, report: ReportView)
    requires
        reports_in_order(reports),
        reports.contains(report),
    ensures
        report_of(reports, report.session_id) == Some(report),
    decreases reports.len(),
{
    let k = choose|k: int| 0 <= k < reports.len() && reports[k] == report;
    if k > 0 {
        assert(reports[0].session_id != reports[k].session_id);
        let rest = reports.skip(1);
        assert(rest[k - 1] == report);
        assert forall|i: int, j: int| 0 <= i < j < rest.len() implies session_number((#[trigger] rest[i]).session_id)
            <= session_number((#[trigger] rest[j]).session_id) && rest[i].session_id != rest[j].session_id by {
            assert(rest[i] == reports[i + 1] && rest[j] == reports[j + 1]);
        }
        lemma_report_of(rest, report);
    }
}

proof fn lemma_reports_stay_in_order(reports: Seq<ReportView>, report: ReportView)
    requires
        reports_in_order(reports),
    ensures
        reports_in_order(insert_report(other_reports(reports, report.session_id), report)),
{
    lemma_other_reports(reports, report.session_id);
    lemma_insert_report(other_reports(reports, report.session_id), report);
}

/// A stored report is given back, the reports of other sessions stay, and the newest
/// session id comes last.
pub proof fn law_reports_are_kept(s: StateView, report: ReportView, other: ReportView)
    requires
        s.wf(),
    ensures
        s.with_report(report).wf(),
        reports_in_order(s.with_report(report).reports),
        report_of(s.with_report(report).reports, report.session_id) == Some(report),
        s.reports.contains(other) && other.session_id != report.session_id ==> report_of(
            s.with_report(report).reports,
            other.session_id,
        ) == Some(other),
{
    let others = other_reports(s.reports, report.session_id);
    lemma_other_reports(s.reports, report.session_id);
    lemma_insert_report(others, report);
    let after = s.with_report(report).reports;
    assert(after.contains(report));
    lemma_report_of(after, report);
    if s.reports.contains(other) && other.session_id != report.session_id {
        assert(others.contains(other));
        assert(after.contains(other));
        lemma_report_of(after, other);
    }
}

} // verus!
