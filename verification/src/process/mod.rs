//! Capture sessions: turning a request into a running log stream.
//!
//! A session is the unit that is started and stopped. It has a description, a ring
//! of accepted records, and, where it streams, a reader that can be told to stop.
//! What the reader does with a line is in [`reader`].

pub mod laws;
pub mod reader;

pub use crate::clock::now_ms;
pub use crate::process::reader::{EVENT_RECORDS, EVENT_SESSION_STATUS};

use vstd::prelude::*;
use crate::adb::Adb;
use crate::device::resolve::{uid_answer, AppTarget, Prefilter, TargetView, HELP_COMMAND};
use crate::error::{DroidLogError, ErrorView, Result};
use crate::executor::{ExecMode, ExecOutput};
use crate::parser::record::{LogRecord, RecordView};
use crate::ring::{RingBuffer, RingStats, RingView};
use crate::source::{
    build, command_of, copy_numbers, custom_command_fault, spec, spec_of, validate_custom_command, LogSource,
    LogSourceKind, OptionsView, SourceOptions,
};
use crate::state::{AppState, StateView};
use crate::text::chars::{concat2, lemma_views_push, opt_view, views};

verus! {

/// Announced whenever a bounded collection makes progress.
pub const EVENT_SESSION_PROGRESS: &'static str = "droidlog://session-progress";

/// Payload of [`EVENT_SESSION_PROGRESS`].
#[derive(Debug)]
pub struct SessionProgressEvent {
    /// Session the progress belongs to.
    pub session_id: String,
    /// Current progress.
    pub progress: SessionProgress,
}

/// Capacity used when the caller expresses no preference.
pub const DEFAULT_SESSION_CAPACITY: usize = crate::ring::DEFAULT_CAPACITY;

/// What is asked for when a capture is started.
#[derive(Debug)]
pub struct CaptureRequest {
    /// Target device serial.
    pub serial: String,
    /// Transport mode.
    pub mode: ExecMode,
    /// Collector to run.
    pub source: LogSourceKind,
    /// Per-source settings.
    pub options: SourceOptions,
    /// Ring capacity override.
    pub capacity: Option<usize>,
}

/// Lifecycle state of a session.
#[derive(Debug, PartialEq, Eq)]
pub enum SessionStatus {
    /// Process spawned, reader not yet confirmed.
    Starting,
    /// Streaming.
    Running,
    /// Finished cleanly.
    Stopped,
    /// Terminated because of an error.
    Failed(String),
}

pub enum StatusView {
    Starting,
    Running,
    Stopped,
    Failed(Seq<char>),
}

impl View for SessionStatus {
    type V = StatusView;

    open spec fn view(&self) -> StatusView {
        match self {
            SessionStatus::Starting => StatusView::Starting,
            SessionStatus::Running => StatusView::Running,
            SessionStatus::Stopped => StatusView::Stopped,
            SessionStatus::Failed(message) => StatusView::Failed(message@),
        }
    }
}

impl Clone for SessionStatus {
    fn clone(&self) -> (r: Self)
        ensures
            r@ == self@,
    {
        match self {
            SessionStatus::Starting => SessionStatus::Starting,
            SessionStatus::Running => SessionStatus::Running,
            SessionStatus::Stopped => SessionStatus::Stopped,
            SessionStatus::Failed(message) => SessionStatus::Failed(message.clone()),
        }
    }
}

impl SessionStatus {
    /// True while the session should still produce records.
    pub fn is_active(&self) -> (r: bool)
        ensures
            r == (self@ is Starting || self@ is Running),
    {
        match self {
            SessionStatus::Starting => true,
            SessionStatus::Running => true,
            _ => false,
        }
    }
}

/// Progress of a collection that ends by itself.
#[derive(Debug, PartialEq, Eq)]
pub struct SessionProgress {
    /// What is being collected.
    pub label: String,
    /// Wall-clock time at which the collection stops on its own, in milliseconds.
    pub ends_at_ms: u64,
    /// Ticks completed.
    pub done: u32,
    /// Ticks expected in total.
    pub total: u32,
}

#[verifier::ext_equal]
pub struct ProgressView {
    pub label: Seq<char>,
    pub ends_at_ms: u64,
    pub done: u32,
    pub total: u32,
}

impl View for SessionProgress {
    type V = ProgressView;

    open spec fn view(&self) -> ProgressView {
        ProgressView { label: self.label@, ends_at_ms: self.ends_at_ms, done: self.done, total: self.total }
    }
}

impl Clone for SessionProgress {
    fn clone(&self) -> (r: Self)
        ensures
            r@ == self@,
    {
        SessionProgress {
            label: self.label.clone(),
            ends_at_ms: self.ends_at_ms,
            done: self.done,
            total: self.total,
        }
    }
}

/// Description of a session.
#[derive(Debug)]
pub struct CaptureSession {
    /// Stable id, unique within the process.
    pub id: String,
    /// Device the session reads from.
    pub serial: String,
    /// Transport mode in use.
    pub mode: ExecMode,
    /// Collector in use.
    pub source: LogSourceKind,
    /// Exact device-side command that was executed.
    pub command: String,
    /// Ring capacity for this session.
    pub capacity: usize,
    /// Wall-clock start time in milliseconds since the Unix epoch.
    pub started_at_ms: u64,
    /// Current lifecycle state.
    pub status: SessionStatus,
    /// Progress of a bounded collection; `None` for a streaming session.
    pub progress: Option<SessionProgress>,
}

#[verifier::ext_equal]
pub struct InfoView {
    pub id: Seq<char>,
    pub serial: Seq<char>,
    pub mode: ExecMode,
    pub source: LogSourceKind,
    pub command: Seq<char>,
    pub capacity: usize,
    pub started_at_ms: u64,
    pub status: StatusView,
    pub progress: Option<ProgressView>,
}

impl View for CaptureSession {
    type V = InfoView;

    open spec fn view(&self) -> InfoView {
        InfoView {
            id: self.id@,
            serial: self.serial@,
            mode: self.mode,
            source: self.source,
            command: self.command@,
            capacity: self.capacity,
            started_at_ms: self.started_at_ms,
            status: self.status@,
            progress: opt_view(self.progress),
        }
    }
}

impl Clone for CaptureSession {
    fn clone(&self) -> (r: Self)
        ensures
            r@ == self@,
    {
        CaptureSession {
            id: self.id.clone(),
            serial: self.serial.clone(),
            mode: self.mode,
            source: self.source,
            command: self.command.clone(),
            capacity: self.capacity,
            started_at_ms: self.started_at_ms,
            status: self.status.clone(),
            progress: match &self.progress {
                Some(progress) => Some(progress.clone()),
                None => None,
            },
        }
    }
}

/// A session and its live buffer counters.
#[derive(Debug)]
pub struct SessionSummary {
    /// Session description and current status.
    pub session: CaptureSession,
    /// Ring occupancy and drop counters.
    pub stats: RingStats,
}

/// Runtime state of one session.
#[derive(Debug)]
pub struct SessionHandle {
    info: CaptureSession,
    buffer: RingBuffer<LogRecord>,
    /// A reader is running that has not been told to stop.
    stoppable: bool,
}

/// A ring of records, by the views of the records.
pub open spec fn ring_views(ring: RingView<LogRecord>) -> RingView<RecordView> {
    RingView {
        items: views(ring.items),
        capacity: ring.capacity,
        total_pushed: ring.total_pushed,
        total_dropped: ring.total_dropped,
    }
}

#[verifier::ext_equal]
pub struct SessionView {
    pub info: InfoView,
    pub ring: RingView<RecordView>,
    pub stoppable: bool,
}

impl SessionView {
    /// A session that has just been opened.
    pub open spec fn opened(info: InfoView, stoppable: bool) -> SessionView {
        SessionView {
            info,
            ring: RingView::fresh(if info.capacity == 0 { 1 } else { info.capacity as nat }),
            stoppable,
        }
    }

    pub open spec fn with_records(self, records: Seq<RecordView>) -> SessionView {
        SessionView { ring: self.ring.push_all(records), ..self }
    }
}

impl View for SessionHandle {
    type V = SessionView;

    closed spec fn view(&self) -> SessionView {
        SessionView { info: self.info@, ring: ring_views(self.buffer@), stoppable: self.stoppable }
    }
}

proof fn lemma_ring_views_push(ring: RingView<LogRecord>, record: LogRecord)
    requires
        ring.wf(),
    ensures
        ring_views(ring.push(record)) == ring_views(ring).push(record@),
{
    if ring.full() {
        assert(views(ring.items.skip(1).push(record)) =~= views(ring.items).skip(1).push(record@));
    } else {
        assert(views(ring.items.push(record)) =~= views(ring.items).push(record@));
    }
}

impl SessionHandle {
    /// Opens a session; `streaming` says that a reader runs behind it.
    pub fn new(info: CaptureSession, streaming: bool) -> (r: Self)
        ensures
            r@ == SessionView::opened(info@, streaming),
            r@.ring.wf(),
    {
        let buffer: RingBuffer<LogRecord> = RingBuffer::new(info.capacity);
        let r: SessionHandle = SessionHandle { info, buffer, stoppable: streaming };
        assert(r@.ring.items =~= seq![]);
        r
    }

    /// The session's description.
    pub fn info(&self) -> (r: &CaptureSession)
        ensures
            r@ == self@.info,
    {
        &self.info
    }

    /// The retained records, oldest first.
    pub fn records(&self) -> (r: Vec<LogRecord>)
        ensures
            views(r@) == self@.ring.items,
    {
        let r: Vec<LogRecord> = self.buffer.snapshot();
        assert forall|i: int| 0 <= i < r@.len() implies views(r@)[i] == self@.ring.items[i] by {
            assert(cloned(self.buffer@.items[i], r@[i]));
        }
        assert(views(r@) =~= self@.ring.items);
        r
    }

    /// Appends copies of the records to the ring.
    pub fn push_records(&mut self, records: &Vec<LogRecord>)
        requires
            old(self)@.ring.wf(),
        ensures
            final(self)@ == old(self)@.with_records(views(records@)),
            final(self)@.ring.wf(),
    {
        let ghost all = views(records@);
        let mut i: usize = 0;
        while i < records.len()
            invariant
                i <= records@.len(),
                all == views(records@),
                self@.ring.wf(),
                self@ == old(self)@.with_records(all.take(i as int)),
            decreases records@.len() - i,
        {
            let record: LogRecord = records[i].clone();
            proof {
                lemma_ring_views_push(self.buffer@, record);
                assert(all.take(i as int + 1).drop_last() =~= all.take(i as int));
                assert(all.take(i as int + 1).last() == record@);
            }
            let _evicted: bool = self.buffer.push(record);
            i += 1;
        }
        assert(all.take(i as int) =~= all);
    }

    /// Replaces the recorded status.
    pub fn set_status(&mut self, status: SessionStatus)
        ensures
            final(self)@ == (SessionView { info: (InfoView { status: status@, ..old(self)@.info }), ..old(self)@ }),
    {
        self.info.status = status;
    }

    /// Replaces the recorded collection progress.
    pub fn set_progress(&mut self, progress: SessionProgress)
        ensures
            final(self)@ == (SessionView {
                info: (InfoView { progress: Some(progress@), ..old(self)@.info }),
                ..old(self)@
            }),
    {
        self.info.progress = Some(progress);
    }

    /// Occupancy of the session's ring.
    pub fn stats(&self) -> (r: RingStats)
        ensures
            r.len as nat == self@.ring.items.len(),
            r.capacity as nat == self@.ring.capacity,
            r.total_pushed as nat == self@.ring.total_pushed,
            r.total_dropped as nat == self@.ring.total_dropped,
    {
        self.buffer.stats()
    }

    /// The description and the counters.
    pub fn summary(&self) -> (r: SessionSummary)
        ensures
            r.session@ == self@.info,
            r.stats.len as nat == self@.ring.items.len(),
            r.stats.capacity as nat == self@.ring.capacity,
            r.stats.total_pushed as nat == self@.ring.total_pushed,
            r.stats.total_dropped as nat == self@.ring.total_dropped,
    {
        SessionSummary { session: self.info.clone(), stats: self.stats() }
    }

    /// Whether a reader is to be told to stop; it is told once.
    pub fn request_shutdown(&mut self) -> (r: bool)
        ensures
            r == old(self)@.stoppable,
            final(self)@ == (SessionView { stoppable: false, ..old(self)@ }),
    {
        let r: bool = self.stoppable;
        self.stoppable = false;
        r
    }
}

/// Why a capture request is refused before anything is run, if it is.
pub open spec fn request_fault(mode: ExecMode, source: LogSourceKind) -> Option<Seq<char>> {
    if spec_of(source).requires_root && mode != ExecMode::Root {
        Some(spec_of(source).label@ + " 需要 root 模式，请切换到 Root（su -c）后重试"@)
    } else {
        None
    }
}

/// Checks a capture request, given the outcome of the search for adb.
///
/// A source that needs root is refused without it, then a missing adb is reported,
/// and then a custom command that cannot be one.
pub fn check_start(request: &CaptureRequest, adb: Result<Adb>) -> (r: Result<Adb>)
    ensures
        match (request_fault(request.mode, request.source), adb, request.options@.custom()) {
            (Some(reason), _, _) => r matches Err(error) && error@ == ErrorView::InvalidInput(reason),
            (None, Err(cause), _) => r == Err::<Adb, DroidLogError>(cause),
            (None, Ok(found), None) => r == Ok::<Adb, DroidLogError>(found),
            (None, Ok(found), Some(custom)) => match custom_command_fault(custom) {
                Some(reason) => r matches Err(error) && error@ == ErrorView::InvalidInput(reason),
                None => r == Ok::<Adb, DroidLogError>(found),
            },
        },
{
    let spec: &'static crate::source::LogSourceSpec = spec(request.source);
    if spec.requires_root && !request.mode.is_privileged() {
        return Err(
            DroidLogError::InvalidInput(concat2(spec.label, " 需要 root 模式，请切换到 Root（su -c）后重试")),
        );
    }
    match adb {
        Ok(found) => {
            if let Some(custom) = request.options.custom_command() {
                if let Err(error) = validate_custom_command(custom) {
                    return Err(error);
                }
            }
            Ok(found)
        }
        Err(error) => Err(error),
    }
}

/// How a session of a source narrows the stream for a followed application.
pub open spec fn narrowing(source: LogSourceKind, target: TargetView, supports_uid: bool) -> Prefilter {
    if source != LogSourceKind::Logcat {
        Prefilter::Host
    } else if supports_uid && target.uid is Some {
        Prefilter::Uid
    } else if target.pids.len() > 0 {
        Prefilter::Pid
    } else {
        Prefilter::Host
    }
}

/// The options of a session that narrows the stream in this way.
pub open spec fn narrowed(options: OptionsView, target: TargetView, prefilter: Prefilter) -> OptionsView {
    match prefilter {
        Prefilter::Uid => OptionsView { uid: target.uid, pids: seq![], ..options },
        Prefilter::Pid => OptionsView { pids: target.pids, ..options },
        Prefilter::Host => options,
    }
}

/// Decides how a session narrows the stream on the device, and records the decision
/// on the target so that the host-side filter knows what is left to do.
///
/// * The uid, where the device supports it: it survives an app restart.
/// * The process ids otherwise: correct at the start, and stale after a restart.
/// * Nothing for sources that have no notion of a process.
pub fn apply_target_to_options(
    source: LogSourceKind,
    target: &mut AppTarget,
    options: &mut SourceOptions,
    supports_uid: bool,
)
    ensures
        ({
            let prefilter = narrowing(source, old(target)@, supports_uid);
            &&& final(target)@ == (TargetView { prefilter, ..old(target)@ })
            &&& final(options)@ == narrowed(old(options)@, old(target)@, prefilter)
        }),
{
    if source != LogSourceKind::Logcat {
        target.set_prefilter(Prefilter::Host);
        return;
    }
    if supports_uid && target.uid.is_some() {
        // After a restart the list of processes is stale, and checking it again
        // would discard the very records that the device selected.
        options.uid = target.uid;
        options.pids = Vec::new();
        assert(options.pids@ =~= seq![]);
        target.set_prefilter(Prefilter::Uid);
        return;
    }
    if target.pids.len() > 0 {
        options.pids = copy_numbers(&target.pids);
        target.set_prefilter(Prefilter::Pid);
        return;
    }
    target.set_prefilter(Prefilter::Host);
}

/// A session could be narrowed by the uid of the followed application: there is one,
/// and the source is logcat.
pub open spec fn uid_matters(s: StateView, source: LogSourceKind) -> bool {
    s.app_target is Some && source == LogSourceKind::Logcat
}

/// The command that tells whether the device can narrow a session by uid, where that
/// matters and is not known yet. Its answer is handed to [`uid_pushdown`].
pub fn uid_question(state: &AppState, request: &CaptureRequest) -> (r: Option<&'static str>)
    ensures
        r is Some <==> uid_matters(state@, request.source) && !state@.resolver.uid_support.dom().contains(
            request.serial@,
        ),
        r matches Some(command) ==> command@ == HELP_COMMAND@,
{
    if state.app_target().is_some() && request.source == LogSourceKind::Logcat
        && state.app_resolver().uid_support(request.serial.as_str()).is_none() {
        Some(HELP_COMMAND)
    } else {
        None
    }
}

/// Whether a session is to be narrowed by uid, given the answer to [`uid_question`]
/// where there was a question. A device that cannot be asked is taken not to support
/// it.
pub fn uid_pushdown(state: &mut AppState, request: &CaptureRequest, help: Option<Result<ExecOutput>>) -> (r: bool)
    ensures
        ({
            let s = old(state)@;
            let serial = request.serial@;
            if !uid_matters(s, request.source) {
                !r && final(state)@ == s
            } else {
                match help {
                    Some(help) => {
                        let (supported, resolver) = uid_answer(s.resolver, serial, help);
                        r == (supported == Ok::<bool, DroidLogError>(true)) && final(state)@ == (StateView {
                            resolver,
                            ..s
                        })
                    },
                    None => final(state)@ == s && r == (s.resolver.uid_support.dom().contains(serial)
                        && s.resolver.uid_support[serial]),
                }
            }
        }),
        old(state)@.wf() ==> final(state)@.wf(),
{
    if state.app_target().is_none() || request.source != LogSourceKind::Logcat {
        return false;
    }
    match help {
        Some(help) => match state.settle_uid_support(request.serial.as_str(), help) {
            Ok(supported) => supported,
            Err(_) => false,
        },
        None => match state.app_resolver().uid_support(request.serial.as_str()) {
            Some(supported) => supported,
            None => false,
        },
    }
}

/// Works out the device-side command of a session, folding the followed application
/// into its options and recording how the stream is narrowed.
pub fn plan_start(state: &mut AppState, request: &CaptureRequest, supports_uid: bool) -> (r: String)
    ensures
        ({
            let s = old(state)@;
            match s.app_target {
                Some(target) => {
                    let prefilter = narrowing(request.source, target, supports_uid);
                    &&& r@ == command_of(request.source, narrowed(request.options@, target, prefilter))
                    &&& final(state)@ == s.with_target(Some(TargetView { prefilter, ..target }))
                },
                None => r@ == command_of(request.source, request.options@) && final(state)@ == s,
            }
        }),
        old(state)@.wf() ==> final(state)@.wf(),
{
    let mut options: SourceOptions = request.options.clone();
    if let Some(target) = state.app_target() {
        let mut target: AppTarget = target;
        apply_target_to_options(request.source, &mut target, &mut options, supports_uid);
        state.set_app_target(Some(target));
    }
    build(request.source).command(&options)
}

/// A session that runs.
pub open spec fn running(
    id: Seq<char>,
    serial: Seq<char>,
    mode: ExecMode,
    source: LogSourceKind,
    command: Seq<char>,
    capacity: usize,
    now: u64,
) -> InfoView {
    InfoView {
        id,
        serial,
        mode,
        source,
        command,
        capacity,
        started_at_ms: now,
        status: StatusView::Running,
        progress: None,
    }
}

/// Registers a session under a fresh id.
fn open_session(
    state: &mut AppState,
    serial: &str,
    mode: ExecMode,
    source: LogSourceKind,
    command: &str,
    capacity: usize,
    now: u64,
    streaming: bool,
) -> (r: Result<CaptureSession>)
    ensures
        opens(
            old(state)@,
            final(state)@,
            running(old(state)@.session_id(), serial@, mode, source, command@, capacity, now),
            streaming,
            r,
        ),
        old(state)@.wf() ==> final(state)@.wf(),
{
    let info: CaptureSession = CaptureSession {
        id: state.next_session_id(),
        serial: serial.to_owned(),
        mode,
        source,
        command: command.to_owned(),
        capacity,
        started_at_ms: now,
        status: SessionStatus::Running,
        progress: None,
    };
    let handle: SessionHandle = SessionHandle::new(info.clone(), streaming);
    match state.insert_session(handle) {
        Ok(_) => Ok(info),
        Err(error) => Err(error),
    }
}

/// A session of this description is registered under the next id, unless the id is
/// taken.
pub open spec fn opens(
    before: StateView,
    after: StateView,
    info: InfoView,
    streaming: bool,
    r: Result<CaptureSession>,
) -> bool {
    let counted = before.after_session_id();
    if before.has_session(info.id) {
        after == counted && (r matches Err(error) && error@ == ErrorView::SessionAlreadyRunning(info.id))
    } else {
        after == counted.with_session(SessionView::opened(info, streaming)) && (r matches Ok(session) && session@
            == info)
    }
}

/// Registers the session of a capture whose stream has been spawned.
pub fn start(state: &mut AppState, request: &CaptureRequest, command: &str, now: u64) -> (r: Result<CaptureSession>)
    ensures
        opens(
            old(state)@,
            final(state)@,
            running(
                old(state)@.session_id(),
                request.serial@,
                request.mode,
                request.source,
                command@,
                match request.capacity {
                    Some(capacity) => capacity,
                    None => DEFAULT_SESSION_CAPACITY,
                },
                now,
            ),
            true,
            r,
        ),
        old(state)@.wf() ==> final(state)@.wf(),
{
    let capacity: usize = match request.capacity {
        Some(capacity) => capacity,
        None => DEFAULT_SESSION_CAPACITY,
    };
    open_session(state, request.serial.as_str(), request.mode, request.source, command, capacity, now, true)
}

/// Opens a session whose records are produced by probes rather than by a streaming
/// process. It is registered like any other.
pub fn open_manual_session(
    state: &mut AppState,
    serial: &str,
    mode: ExecMode,
    source: LogSourceKind,
    command: &str,
    capacity: usize,
    now: u64,
) -> (r: Result<CaptureSession>)
    ensures
        opens(
            old(state)@,
            final(state)@,
            running(old(state)@.session_id(), serial@, mode, source, command@, capacity, now),
            false,
            r,
        ),
        old(state)@.wf() ==> final(state)@.wf(),
{
    open_session(state, serial, mode, source, command, capacity, now, false)
}

/// Stops a session: it is removed, and the answer says whether its reader is to be
/// told.
pub fn stop(state: &mut AppState, session_id: &str) -> (r: Result<bool>)
    ensures
        match r {
            Ok(signal) => old(state)@.session(session_id@) matches Some(session) && signal == session.stoppable
                && final(state)@ == old(state)@.without_session(session_id@),
            Err(error) => old(state)@.session(session_id@) is None && final(state)@ == old(state)@ && error@
                == ErrorView::SessionNotFound(session_id@),
        },
        old(state)@.wf() ==> final(state)@.wf(),
{
    match state.remove_session(session_id) {
        Some(handle) => {
            let mut handle: SessionHandle = handle;
            Ok(handle.request_shutdown())
        }
        None => Err(DroidLogError::SessionNotFound(session_id.to_owned())),
    }
}

/// The ids of the sessions whose readers are to be told to stop.
pub open spec fn stoppable_ids(sessions: Seq<SessionView>) -> Seq<Seq<char>>
    decreases sessions.len(),
{
    if sessions.len() == 0 {
        seq![]
    } else if sessions.last().stoppable {
        stoppable_ids(sessions.drop_last()).push(sessions.last().info.id)
    } else {
        stoppable_ids(sessions.drop_last())
    }
}

/// Stops every session, and names those whose readers are to be told.
pub fn stop_all(state: &mut AppState) -> (r: Vec<String>)
    ensures
        views(r@) == stoppable_ids(old(state)@.sessions),
        final(state)@ == (StateView { sessions: seq![], ..old(state)@ }),
        old(state)@.wf() ==> final(state)@.wf(),
{
    let mut handles: Vec<SessionHandle> = state.take_sessions();
    let ghost all = views(handles@);
    let mut r: Vec<String> = Vec::new();
    assert(views(r@) =~= seq![]);
    let mut i: usize = 0;
    while i < handles.len()
        invariant
            i <= handles@.len(),
            all.len() == handles@.len(),
            forall|j: int| i <= j < handles@.len() ==> all[j] == (#[trigger] handles@[j])@,
            views(r@) == stoppable_ids(all.take(i as int)),
        decreases handles@.len() - i,
    {
        assert(all.take(i as int + 1).drop_last() =~= all.take(i as int));
        assert(all.take(i as int + 1).last() == handles@[i as int]@);
        let id: String = handles[i].info().id.clone();
        if handles[i].request_shutdown() {
            proof {
                lemma_views_push(r@, id);
            }
            r.push(id);
        }
        i += 1;
    }
    assert(all.take(i as int) =~= all);
    r
}

/// A target that the device narrows by uid keeps every record of its session, and
/// the uid is the one handed to the device.
pub proof fn law_narrowing_is_recorded(options: OptionsView, target: TargetView, supports_uid: bool, record: RecordView)
    requires
        target.found,
    ensures
        ({
            let prefilter = narrowing(LogSourceKind::Logcat, target, supports_uid);
            let after = TargetView { prefilter, ..target };
            let used = narrowed(options, target, prefilter);
            &&& prefilter == Prefilter::Uid ==> used.uid == target.uid && used.uid is Some && used.pids.len() == 0
                && after.owns(record)
            &&& prefilter == Prefilter::Pid ==> used.pids == target.pids
            &&& prefilter == Prefilter::Host ==> used == options
            &&& prefilter == Prefilter::Uid <==> supports_uid && target.uid is Some
        }),
        narrowing(LogSourceKind::Dmesg, target, supports_uid) == Prefilter::Host,
        narrowing(LogSourceKind::Kmsg, target, supports_uid) == Prefilter::Host,
{
}

/// The uid that a session is narrowed by is what logcat is told: one `--uid=` word,
/// and no word for a process id.
pub proof fn law_the_uid_is_pushed_down(options: OptionsView, target: TargetView)
    requires
        target.uid matches Some(uid) && uid >= 0,
    ensures
        ({
            let used = narrowed(options, target, narrowing(LogSourceKind::Logcat, target, true));
            &&& crate::source::logcat::uid_words(used.uid) == seq![
                "--uid="@ + crate::text::number::dec_int(target.uid->0 as int),
            ]
            &&& crate::source::logcat::pid_words(used.pids).len() == 0
        }),
{
}

} // verus!
