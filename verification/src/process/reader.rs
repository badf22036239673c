//! What a session does with the lines of its stream.
//!
//! A line is decoded, held against the filters and the followed application, and
//! collected into a batch. A batch goes to the ring of the session and out as an
//! event, when it is full or when the flush interval is over.

use vstd::prelude::*;
use crate::device::resolve::{AppTarget, TargetView};
use crate::filter::{all_accept, enabled_rules, first_fault, FilterSet, RuleView};
use crate::parser::record::{LogRecord, RecordView};
use crate::process::{SessionStatus, StatusView};
use crate::ring::{RingBuffer, RingView};
use crate::source::{line_record, Collector, LogSource, LogSourceKind};
use crate::state::{AppState, StateView};
use crate::text::bytes::{decode_lossy, lossy_text};
use crate::text::chars::{concat2, lemma_views_push, opt_view, views};
use crate::text::split::{join, join_strings};

verus! {

/// Event carrying a batch of accepted records.
pub const EVENT_RECORDS: &'static str = "droidlog://records";

/// Event carrying a session status transition.
pub const EVENT_SESSION_STATUS: &'static str = "droidlog://session-status";

/// Bound of the hand-off between the task that reads and the one that decodes: a
/// stalled user interface slows the reader down instead of growing a queue.
pub const READ_CHANNEL_CAPACITY: usize = 4096;

/// Records per batch.
pub const BATCH_SIZE: usize = 200;

/// Longest time a record waits before it is flushed, in milliseconds.
pub const FLUSH_INTERVAL: u64 = 100;

/// How long the end of a session waits for the reading task, in milliseconds. The
/// pipe may have a second writer and then never ends.
pub const READER_JOIN_TIMEOUT: u64 = 750;

/// Lines of stderr kept for diagnostics.
pub const STDERR_TAIL: usize = 20;

/// A full batch fits in the hand-off, so the reader never waits for a flush that
/// waits for the reader.
pub proof fn law_a_batch_fits_in_the_channel()
    ensures
        BATCH_SIZE <= READ_CHANNEL_CAPACITY,
{
}

/// Payload of [`EVENT_RECORDS`].
#[derive(Debug)]
pub struct RecordsEvent {
    /// Session the records belong to.
    pub session_id: String,
    /// Accepted records, oldest first.
    pub records: Vec<LogRecord>,
}

#[verifier::ext_equal]
pub struct RecordsView {
    pub session_id: Seq<char>,
    pub records: Seq<RecordView>,
}

impl View for RecordsEvent {
    type V = RecordsView;

    open spec fn view(&self) -> RecordsView {
        RecordsView { session_id: self.session_id@, records: views(self.records@) }
    }
}

/// Payload of [`EVENT_SESSION_STATUS`].
#[derive(Debug)]
pub struct SessionStatusEvent {
    /// Session that changed.
    pub session_id: String,
    /// New lifecycle state.
    pub status: SessionStatus,
}

/// Decodes one raw output line, tolerating invalid UTF-8.
///
/// logcat relays whatever bytes an app wrote; an unreadable byte costs one line's
/// worth of fidelity, not the session.
pub fn decode_line(bytes: &[u8]) -> (r: String)
    ensures
        r@ == lossy_text(bytes@),
        vstd::utf8::valid_utf8(bytes@) ==> r@ == vstd::utf8::decode_utf8(bytes@),
{
    decode_lossy(bytes)
}

/// `bytes` without `byte` at the end.
pub open spec fn without_last(bytes: Seq<u8>, byte: u8) -> Seq<u8> {
    if bytes.len() > 0 && bytes.last() == byte {
        bytes.drop_last()
    } else {
        bytes
    }
}

/// A chunk without the line feed at its end, and without the carriage return before
/// it.
pub open spec fn without_line_end(chunk: Seq<u8>) -> Seq<u8> {
    without_last(without_last(chunk, 10), 13)
}

fn strip_last(bytes: &[u8], byte: u8) -> (r: &[u8])
    ensures
        r@ == without_last(bytes@, byte),
{
    if bytes.len() > 0 && bytes[bytes.len() - 1] == byte {
        assert(bytes@.subrange(0, bytes@.len() - 1) =~= bytes@.drop_last());
        vstd::slice::slice_subrange(bytes, 0, bytes.len() - 1)
    } else {
        bytes
    }
}

/// The line of a chunk that was read up to and with its line feed.
pub fn chunk_line(chunk: &[u8]) -> (r: String)
    ensures
        r@ == lossy_text(without_line_end(chunk@)),
        vstd::utf8::valid_utf8(without_line_end(chunk@)) ==> r@ == vstd::utf8::decode_utf8(
            without_line_end(chunk@),
        ),
{
    decode_line(strip_last(strip_last(chunk, 10), 13))
}

/// The message of a pipe that failed.
pub fn read_failure(cause: &str) -> (r: String)
    ensures
        r@ == "读取进程输出失败："@ + cause@,
{
    concat2("读取进程输出失败：", cause)
}

/// The status of a session whose process has no stdout.
pub fn no_pipe_status() -> (r: SessionStatus)
    ensures
        r@ == StatusView::Failed("无法获取子进程 stdout 管道"@),
{
    SessionStatus::Failed("无法获取子进程 stdout 管道".to_owned())
}

/// The last lines of stderr: the only diagnosis when `su` refuses or a device drops
/// off.
#[derive(Debug)]
pub struct StderrTail {
    lines: RingBuffer<String>,
}

impl View for StderrTail {
    type V = RingView<String>;

    closed spec fn view(&self) -> RingView<String> {
        self.lines@
    }
}

impl StderrTail {
    /// Nothing has been written yet.
    pub fn new() -> (r: Self)
        ensures
            r@ == RingView::<String>::fresh(STDERR_TAIL as nat),
            r@.wf(),
    {
        StderrTail { lines: RingBuffer::new(STDERR_TAIL) }
    }

    /// Keeps one more line.
    pub fn push(&mut self, line: String)
        requires
            old(self)@.wf(),
        ensures
            final(self)@ == old(self)@.push(line),
            final(self)@.wf(),
    {
        let _evicted: bool = self.lines.push(line);
    }

    /// The kept lines, if there are any.
    pub fn summary(&self) -> (r: Option<String>)
        ensures
            opt_view(r) == if self@.items.len() == 0 {
                None::<Seq<char>>
            } else {
                Some(join(views(self@.items), "\n"@))
            },
    {
        if self.lines.is_empty() {
            return None;
        }
        let kept: Vec<String> = self.lines.snapshot();
        assert forall|i: int| 0 <= i < kept@.len() implies views(kept@)[i] == views(self@.items)[i] by {
            assert(cloned(self@.items[i], kept@[i]));
        }
        assert(views(kept@) =~= views(self@.items));
        Some(join_strings(&kept, "\n"))
    }
}

/// How a session ended: a pipe that failed tells it, then the user, then a clean
/// exit, and then stderr.
pub open spec fn ended(
    read_failure: Option<Seq<char>>,
    stopped_by_user: bool,
    exit_success: bool,
    stderr: Option<Seq<char>>,
) -> StatusView {
    match (read_failure, stderr) {
        (Some(message), _) => StatusView::Failed(message),
        (None, Some(message)) => if stopped_by_user || exit_success {
            StatusView::Stopped
        } else {
            StatusView::Failed(message)
        },
        (None, None) => StatusView::Stopped,
    }
}

/// The terminal status of a session.
pub fn terminal_status(
    read_failure: Option<String>,
    stopped_by_user: bool,
    exit_success: bool,
    stderr: Option<String>,
) -> (r: SessionStatus)
    ensures
        r@ == ended(opt_view(read_failure), stopped_by_user, exit_success, opt_view(stderr)),
{
    match read_failure {
        Some(message) => SessionStatus::Failed(message),
        None => {
            if stopped_by_user || exit_success {
                return SessionStatus::Stopped;
            }
            match stderr {
                Some(message) => SessionStatus::Failed(message),
                None => SessionStatus::Stopped,
            }
        }
    }
}

/// A record survives the application filter. Without a followed application there
/// is no such filter.
pub open spec fn owned(target: Option<TargetView>, record: RecordView) -> bool {
    match target {
        Some(target) => target.owns(record),
        None => true,
    }
}

/// Whether a record survives the application filter.
pub fn target_matches(target: &Option<AppTarget>, record: &LogRecord) -> (r: bool)
    ensures
        r == owned(opt_view(*target), record@),
{
    match target {
        Some(target) => target.matches(record),
        None => true,
    }
}

/// No followed application means no application filter: without a target every
/// record is owned, and without rules on top every record passes.
pub proof fn law_nobody_followed_nothing_hidden(intake: IntakeView, record: RecordView, now: u64)
    requires
        intake.target is None,
    ensures
        owned(intake.target, record),
        intake.accepts(record, now) == all_accept(intake.filters, record, now),
        intake.filters.len() == 0 ==> intake.accepts(record, now),
{
}

/// What a record has to pass, as it was last read from the state, and the records
/// that passed and wait to be flushed.
#[derive(Debug)]
pub struct Intake {
    session_id: String,
    filters: FilterSet,
    filters_version: u64,
    target: Option<AppTarget>,
    target_version: u64,
    batch: Vec<LogRecord>,
}

#[verifier::ext_equal]
pub struct IntakeView {
    pub session_id: Seq<char>,
    pub filters: Seq<RuleView>,
    pub filters_version: u64,
    pub target: Option<TargetView>,
    pub target_version: u64,
    pub batch: Seq<RecordView>,
}

impl View for Intake {
    type V = IntakeView;

    closed spec fn view(&self) -> IntakeView {
        IntakeView {
            session_id: self.session_id@,
            filters: self.filters@,
            filters_version: self.filters_version,
            target: opt_view(self.target),
            target_version: self.target_version,
            batch: views(self.batch@),
        }
    }
}

impl IntakeView {
    /// Everything passes, and nothing has been read from the state.
    pub open spec fn open_to_all(session_id: Seq<char>) -> IntakeView {
        IntakeView {
            session_id,
            filters: seq![],
            filters_version: 0,
            target: None,
            target_version: 0,
            batch: seq![],
        }
    }

    /// A record passes.
    pub open spec fn accepts(self, record: RecordView, now: u64) -> bool {
        all_accept(self.filters, record, now) && owned(self.target, record)
    }

    /// The filters and the target read again, each where its revision changed.
    pub open spec fn refreshed(self, state: StateView) -> IntakeView {
        IntakeView {
            filters: if state.filters_version != self.filters_version && first_fault(state.filters) is None {
                enabled_rules(state.filters)
            } else {
                self.filters
            },
            filters_version: state.filters_version,
            target: if state.app_target_version != self.target_version {
                state.app_target
            } else {
                self.target
            },
            target_version: state.app_target_version,
            ..self
        }
    }

    pub open spec fn with_record(self, record: RecordView) -> IntakeView {
        IntakeView { batch: self.batch.push(record), ..self }
    }

    pub open spec fn emptied(self) -> IntakeView {
        IntakeView { batch: seq![], ..self }
    }
}

impl Intake {
    /// An intake that everything passes.
    pub fn new(session_id: &str) -> (r: Self)
        ensures
            r@ == IntakeView::open_to_all(session_id@),
    {
        let r: Intake = Intake {
            session_id: session_id.to_owned(),
            filters: FilterSet::accept_all(),
            filters_version: 0,
            target: None,
            target_version: 0,
            batch: Vec::new(),
        };
        assert(r@ =~= IntakeView::open_to_all(session_id@));
        r
    }

    /// The session that the records belong to.
    pub fn session_id(&self) -> (r: &str)
        ensures
            r@ == self@.session_id,
    {
        self.session_id.as_str()
    }

    /// Number of records that wait to be flushed.
    pub fn pending(&self) -> (r: usize)
        ensures
            r as nat == self@.batch.len(),
    {
        self.batch.len()
    }

    /// Takes the followed application over as it is now.
    fn adopt_target(&mut self, state: &AppState)
        ensures
            final(self)@ == (IntakeView {
                target: state@.app_target,
                target_version: state@.app_target_version,
                ..old(self)@
            }),
    {
        self.target = state.app_target();
        self.target_version = state.app_target_version();
    }

    /// Reads the filters and the followed application again, if they changed.
    pub fn refresh(&mut self, state: &AppState)
        ensures
            final(self)@ == old(self)@.refreshed(state@),
    {
        let current: u64 = state.filters_version();
        if current != self.filters_version {
            if let Ok(compiled) = state.compiled_filters() {
                self.filters = compiled;
            }
            self.filters_version = current;
        }
        if state.app_target_version() != self.target_version {
            self.adopt_target(state);
        }
    }

    /// Whether a record passes, when the clock says `now`.
    pub fn accepts(&self, record: &LogRecord, now: u64) -> (r: bool)
        ensures
            r == self@.accepts(record@, now),
    {
        self.filters.matches_at(record, now) && target_matches(&self.target, record)
    }

    /// Puts a record that passed into the batch.
    pub fn push(&mut self, record: LogRecord)
        ensures
            final(self)@ == old(self)@.with_record(record@),
    {
        proof {
            lemma_views_push(self.batch@, record);
        }
        self.batch.push(record);
    }

    /// Moves the batch into the ring of its session and out as an event.
    ///
    /// The ring is the durable copy; the event is the fast path.
    pub fn flush(&mut self, state: &mut AppState) -> (r: Option<RecordsEvent>)
        requires
            old(state)@.wf(),
        ensures
            final(state)@.wf(),
            final(self)@ == old(self)@.emptied(),
            if old(self)@.batch.len() == 0 {
                r is None && final(state)@ == old(state)@
            } else {
                &&& r matches Some(event)
                &&& event@ == (RecordsView { session_id: old(self)@.session_id, records: old(self)@.batch })
                &&& final(state)@ == old(state)@.with_records(old(self)@.session_id, old(self)@.batch)
            },
    {
        if self.batch.len() == 0 {
            assert(self@.batch =~= seq![]);
            return None;
        }
        state.push_records(self.session_id.as_str(), &self.batch);
        let mut records: Vec<LogRecord> = Vec::new();
        records.append(&mut self.batch);
        assert(records@ =~= old(self).batch@);
        assert(self@.batch =~= seq![]);
        Some(RecordsEvent { session_id: self.session_id.clone(), records })
    }
}

/// The consumer of one stream.
pub struct Consumer {
    intake: Intake,
    source: Collector,
    outbox: Vec<RecordsEvent>,
}

#[verifier::ext_equal]
pub struct ConsumerView {
    pub intake: IntakeView,
    pub source: LogSourceKind,
    /// Events that wait to be sent.
    pub outbox: Seq<RecordsView>,
}

impl View for Consumer {
    type V = ConsumerView;

    closed spec fn view(&self) -> ConsumerView {
        ConsumerView { intake: self.intake@, source: self.source.source_kind(), outbox: views(self.outbox@) }
    }
}

/// A consumer and the state it feeds, after the batch is flushed.
pub open spec fn flushed(c: ConsumerView, s: StateView) -> (ConsumerView, StateView) {
    if c.intake.batch.len() == 0 {
        (c, s)
    } else {
        (
            ConsumerView {
                intake: c.intake.emptied(),
                outbox: c.outbox.push(
                    RecordsView { session_id: c.intake.session_id, records: c.intake.batch },
                ),
                ..c
            },
            s.with_records(c.intake.session_id, c.intake.batch),
        )
    }
}

/// A consumer and the state it feeds, after one line: every line becomes a record
/// with its own number, received `now`, and what passes goes into the batch.
pub open spec fn line_step(
    c: ConsumerView,
    s: StateView,
    line: Seq<char>,
    now: u64,
) -> (ConsumerView, StateView) {
    let record = line_record(c.source, line, s.seq, now);
    let taken = if c.intake.accepts(record, now) {
        ConsumerView { intake: c.intake.with_record(record), ..c }
    } else {
        c
    };
    if taken.intake.batch.len() >= BATCH_SIZE {
        flushed(taken, s.after_seq())
    } else {
        (taken, s.after_seq())
    }
}

impl Consumer {
    /// A consumer that starts with the filters and the target as they are now.
    pub fn new(state: &AppState, session_id: &str, source: Collector) -> (r: Self)
        ensures
            r@ == (ConsumerView {
                intake: (IntakeView {
                    target: state@.app_target,
                    ..IntakeView::open_to_all(session_id@).refreshed(state@)
                }),
                source: source.source_kind(),
                outbox: seq![],
            }),
    {
        let mut intake: Intake = Intake::new(session_id);
        intake.refresh(state);
        intake.adopt_target(state);
        let r: Consumer = Consumer { intake, source, outbox: Vec::new() };
        assert(r@.outbox =~= seq![]);
        r
    }

    fn flush(&mut self, state: &mut AppState)
        requires
            old(state)@.wf(),
        ensures
            (final(self)@, final(state)@) == flushed(old(self)@, old(state)@),
            final(state)@.wf(),
    {
        if let Some(event) = self.intake.flush(state) {
            proof {
                lemma_views_push(self.outbox@, event);
            }
            self.outbox.push(event);
        } else {
            assert(self@.intake =~= old(self)@.intake);
        }
    }

    /// Takes one line of the stream, received `now`.
    ///
    /// No line is dropped by its grammar: one that matches none is a raw record.
    pub fn on_line(&mut self, state: &mut AppState, line: &str, now: u64)
        requires
            old(state)@.wf(),
        ensures
            (final(self)@, final(state)@) == line_step(old(self)@, old(state)@, line@, now),
            final(state)@.wf(),
    {
        let seq: u64 = state.next_seq();
        let mut record: LogRecord = self.source.parse_line(line, seq);
        record.received_at_ms = now;
        if self.intake.accepts(&record, now) {
            self.intake.push(record);
        }
        if self.intake.pending() >= BATCH_SIZE {
            self.flush(state);
        }
    }

    /// The flush interval is over: the filters and the target are read again, and
    /// what waits is flushed.
    pub fn on_tick(&mut self, state: &mut AppState)
        requires
            old(state)@.wf(),
        ensures
            (final(self)@, final(state)@) == flushed(
                (ConsumerView { intake: old(self)@.intake.refreshed(old(state)@), ..old(self)@ }),
                old(state)@,
            ),
            final(state)@.wf(),
    {
        self.intake.refresh(state);
        self.flush(state);
    }

    /// The stream is over: what waits is flushed.
    pub fn finish(&mut self, state: &mut AppState)
        requires
            old(state)@.wf(),
        ensures
            (final(self)@, final(state)@) == flushed(old(self)@, old(state)@),
            final(state)@.wf(),
    {
        self.flush(state);
    }

    /// Takes the events that wait to be sent.
    pub fn take_events(&mut self) -> (r: Vec<RecordsEvent>)
        ensures
            views(r@) == old(self)@.outbox,
            final(self)@ == (ConsumerView { outbox: seq![], ..old(self)@ }),
    {
        let mut r: Vec<RecordsEvent> = Vec::new();
        r.append(&mut self.outbox);
        assert(r@ =~= old(self).outbox@);
        assert(self@.outbox =~= seq![]);
        r
    }
}

/// The records that were handed over or wait to be.
pub open spec fn delivered(c: ConsumerView) -> Seq<RecordView> {
    sent(c.outbox) + c.intake.batch
}

/// The records of events, in order.
pub open spec fn sent(outbox: Seq<RecordsView>) -> Seq<RecordView>
    decreases outbox.len(),
{
    if outbox.len() == 0 {
        seq![]
    } else {
        sent(outbox.drop_last()) + outbox.last().records
    }
}

/// Flushing neither loses nor reorders a record.
proof fn lemma_flush_delivers(c: ConsumerView, s: StateView)
    ensures
        delivered(flushed(c, s).0) == delivered(c),
{
    if c.intake.batch.len() > 0 {
        let after = flushed(c, s).0;
        assert(after.outbox.drop_last() =~= c.outbox);
        assert(delivered(after) =~= delivered(c));
    }
}

/// A record that passes is delivered, once and in order, and one that does not pass
/// is not; a batch never grows beyond its bound; and the sequence number moves on
/// with every line.
pub proof fn law_accepted_records_are_delivered(
    c: ConsumerView,
    s: StateView,
    line: Seq<char>,
    now: u64,
)
    requires
        c.intake.batch.len() < BATCH_SIZE,
    ensures
        ({
            let (after, state) = line_step(c, s, line, now);
            let record = line_record(c.source, line, s.seq, now);
            &&& delivered(after) == if c.intake.accepts(record, now) {
                delivered(c).push(record)
            } else {
                delivered(c)
            }
            &&& after.intake.batch.len() < BATCH_SIZE
            &&& state.seq == crate::state::next_number(s.seq)
        }),
{
    let record = line_record(c.source, line, s.seq, now);
    let taken = if c.intake.accepts(record, now) {
        ConsumerView { intake: c.intake.with_record(record), ..c }
    } else {
        c
    };
    lemma_flush_delivers(taken, s.after_seq());
    if c.intake.accepts(record, now) {
        assert(delivered(taken) =~= delivered(c).push(record));
    }
}

} // verus!
