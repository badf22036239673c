//! Ingesting probe output the way a stream is ingested.
//!
//! The same filters, the same followed application and the same batches apply, so a
//! collected session behaves like a streamed one.

use std::collections::hash_map::DefaultHasher;
use std::collections::HashSet;
use std::hash::Hasher;
use vstd::prelude::*;
use vstd::std_specs::hash::DefaultHasherAdditionalSpecFns;
use crate::collect::probe::{law_kept_output_is_bounded, tail_text};
use crate::collect::report::{CrashEntry, CrashEvent};
use crate::crash::{classify_record, crash_kind, is_scannable, record_text, scannable, CrashKind};
use crate::parser::record::{LogRecord, RecordView};
use crate::parser::{auto_fields, parse_auto, record_of};
use crate::process::reader::{Intake, IntakeView, RecordsEvent, RecordsView, BATCH_SIZE};
use crate::source::LogSourceKind;
use crate::state::{AppState, StateView};
use crate::text::chars::{chars_of, lemma_views_push, string_of, views};
use crate::text::class::{lowercase, Class};
use crate::text::search::{trim, trim_of};
use crate::text::split::{lines, lines_of};

verus! {

/// Lines ingested per probe at most. The newest lines win.
pub const MAX_PROBE_LINES: usize = 4000;

/// Kernel lines remembered between two polls of the boot collector.
///
/// More than [`MAX_PROBE_LINES`], because a poll can ingest that many: what is no
/// longer remembered would be ingested again by the next poll.
pub const TAIL_MEMORY: usize = MAX_PROBE_LINES + 512;

/// The hash of a line of output.
pub open spec fn line_hash(line: Seq<char>) -> u64 {
    DefaultHasher::spec_finish(seq![vstd::utf8::encode_utf8(line), seq![255u8]])
}

fn hash_line(line: &str) -> (r: u64)
    ensures
        r == line_hash(line@),
{
    let end: [u8; 1] = [255u8];
    let mut hasher: DefaultHasher = DefaultHasher::new();
    hasher.write(line.as_bytes());
    hasher.write(end.as_slice());
    assert(end@ =~= seq![255u8]);
    assert(hasher@ =~= seq![vstd::utf8::encode_utf8(line@), seq![255u8]]);
    hasher.finish()
}

/// An event of a collection.
#[derive(Debug)]
pub enum CollectEvent {
    /// Accepted records.
    Records(RecordsEvent),
    /// Crashes recognised among them.
    Crashes(CrashEvent),
}

pub enum CollectEventView {
    Records(RecordsView),
    Crashes { session_id: Seq<char>, entries: Seq<CrashEntry> },
}

impl View for CollectEvent {
    type V = CollectEventView;

    open spec fn view(&self) -> CollectEventView {
        match self {
            CollectEvent::Records(event) => CollectEventView::Records(event@),
            CollectEvent::Crashes(event) => CollectEventView::Crashes {
                session_id: event.session_id@,
                entries: event.entries@,
            },
        }
    }
}

/// The crash that a record tells of, if its level is worth scanning.
pub open spec fn crash_of(record: RecordView) -> Option<CrashKind> {
    if scannable(record.fields.level) {
        crash_kind(lowercase(record_text(record)))
    } else {
        None
    }
}

/// The recognised crashes, after one more record.
pub open spec fn with_crash(entries: Seq<CrashEntry>, record: RecordView) -> Seq<CrashEntry> {
    match crash_of(record) {
        Some(kind) => entries.push(CrashEntry { seq: record.seq, kind }),
        None => entries,
    }
}

/// Appends an entry when `record` looks like a failure.
pub fn push_crashes(record: &LogRecord, out: &mut Vec<CrashEntry>)
    ensures
        final(out)@ == with_crash(old(out)@, record@),
{
    if !is_scannable(record.level) {
        return;
    }
    if let Some(kind) = classify_record(record) {
        out.push(CrashEntry { seq: record.seq, kind });
    }
}

/// Feeds lines of a collection into its session.
#[derive(Debug)]
pub struct Ingestor {
    intake: Intake,
    source: LogSourceKind,
    crashes: Vec<CrashEntry>,
    accepted: usize,
    outbox: Vec<CollectEvent>,
}

#[verifier::ext_equal]
pub struct IngestView {
    pub intake: IntakeView,
    pub source: LogSourceKind,
    pub crashes: Seq<CrashEntry>,
    /// Records accepted so far, as far as a machine word counts.
    pub accepted: nat,
    /// Events that wait to be sent.
    pub outbox: Seq<CollectEventView>,
}

impl View for Ingestor {
    type V = IngestView;

    closed spec fn view(&self) -> IngestView {
        IngestView {
            intake: self.intake@,
            source: self.source,
            crashes: self.crashes@,
            accepted: self.accepted as nat,
            outbox: views(self.outbox@),
        }
    }
}

/// One more, as far as a machine word counts.
pub open spec fn one_more(n: nat) -> nat {
    if n < usize::MAX {
        n + 1
    } else {
        n
    }
}

impl IngestView {
    pub open spec fn refreshed(self, s: StateView) -> IngestView {
        IngestView { intake: self.intake.refreshed(s), ..self }
    }

    /// After one accepted record.
    pub open spec fn with_record(self, record: RecordView) -> IngestView {
        IngestView {
            intake: self.intake.with_record(record),
            crashes: with_crash(self.crashes, record),
            accepted: one_more(self.accepted),
            ..self
        }
    }
}

/// After the batch is flushed, and the crashes behind it.
pub open spec fn ingest_flushed(i: IngestView, s: StateView) -> (IngestView, StateView) {
    let session_id = i.intake.session_id;
    let batch = i.intake.batch;
    let outbox = if batch.len() > 0 {
        i.outbox.push(CollectEventView::Records(RecordsView { session_id, records: batch }))
    } else {
        i.outbox
    };
    let state = if batch.len() > 0 {
        s.with_records(session_id, batch)
    } else {
        s
    };
    (
        IngestView {
            intake: i.intake.emptied(),
            crashes: seq![],
            outbox: if i.crashes.len() > 0 {
                outbox.push(CollectEventView::Crashes { session_id, entries: i.crashes })
            } else {
                outbox
            },
            ..i
        },
        state,
    )
}

/// After one line that was received `now`, and whether it was accepted. A blank line is
/// no record.
pub open spec fn ingest_line(
    i: IngestView,
    s: StateView,
    line: Seq<char>,
    now: u64,
) -> (IngestView, StateView, bool) {
    let record = record_of(i.source, s.seq, line, auto_fields(line), now);
    if trim(line, Class::Space).len() == 0 {
        (i, s, false)
    } else if !i.intake.accepts(record, now) {
        (i, s.after_seq(), false)
    } else {
        let taken = i.with_record(record);
        if taken.intake.batch.len() >= BATCH_SIZE {
            let (after, state) = ingest_flushed(taken, s.after_seq());
            (after, state, true)
        } else {
            (taken, s.after_seq(), true)
        }
    }
}

/// After several lines that were received `now`, and how many of them were accepted.
pub open spec fn ingest_lines(
    i: IngestView,
    s: StateView,
    all: Seq<Seq<char>>,
    now: u64,
) -> (IngestView, StateView, nat)
    decreases all.len(),
{
    if all.len() == 0 {
        (i, s, 0)
    } else {
        let (before, state, n) = ingest_lines(i, s, all.drop_last(), now);
        let (after, next, taken) = ingest_line(before, state, all.last(), now);
        (after, next, n + if taken { 1nat } else { 0nat })
    }
}

/// After a text was fed line by line, by the filters and the target as they are at its
/// beginning, and flushed; and how many lines were accepted.
pub open spec fn fed(
    i: IngestView,
    s: StateView,
    all: Seq<Seq<char>>,
    now: u64,
) -> (IngestView, StateView, nat) {
    let (i1, s1, n) = ingest_lines(i.refreshed(s), s, all, now);
    let (after, state) = ingest_flushed(i1, s1);
    (after, state, n)
}

/// The lines whose hash is not among those to be skipped.
pub open spec fn fresh_lines(all: Seq<Seq<char>>, skip: Set<u64>) -> Seq<Seq<char>>
    decreases all.len(),
{
    if all.len() == 0 {
        seq![]
    } else if skip.contains(line_hash(all.last())) {
        fresh_lines(all.drop_last(), skip)
    } else {
        fresh_lines(all.drop_last(), skip).push(all.last())
    }
}

/// The hashes of the last [`TAIL_MEMORY`] lines.
pub open spec fn tail_set(all: Seq<Seq<char>>) -> Set<u64> {
    Set::new(
        |h: u64|
            exists|i: int| 0 <= i < all.len() && all.len() - TAIL_MEMORY <= i && line_hash(#[trigger] all[i]) == h,
    )
}

/// The records of events, in order.
pub open spec fn collected(outbox: Seq<CollectEventView>) -> Seq<RecordView>
    decreases outbox.len(),
{
    if outbox.len() == 0 {
        seq![]
    } else {
        let before = collected(outbox.drop_last());
        match outbox.last() {
            CollectEventView::Records(event) => before + event.records,
            CollectEventView::Crashes { .. } => before,
        }
    }
}

/// The crashes of events, in order.
pub open spec fn reported(outbox: Seq<CollectEventView>) -> Seq<CrashEntry>
    decreases outbox.len(),
{
    if outbox.len() == 0 {
        seq![]
    } else {
        let before = reported(outbox.drop_last());
        match outbox.last() {
            CollectEventView::Records(_) => before,
            CollectEventView::Crashes { session_id, entries } => before + entries,
        }
    }
}

proof fn lemma_outbox_push(outbox: Seq<CollectEventView>, event: CollectEventView)
    ensures
        collected(outbox.push(event)) == match event {
            CollectEventView::Records(records) => collected(outbox) + records.records,
            CollectEventView::Crashes { .. } => collected(outbox),
        },
        reported(outbox.push(event)) == match event {
            CollectEventView::Records(_) => reported(outbox),
            CollectEventView::Crashes { session_id, entries } => reported(outbox) + entries,
        },
{
    assert(outbox.push(event).drop_last() =~= outbox);
}

/// Flushing neither loses nor reorders a record or a crash.
proof fn lemma_flush_collects(i: IngestView, s: StateView)
    ensures
        ({
            let after = ingest_flushed(i, s).0;
            &&& collected(after.outbox) + after.intake.batch == collected(i.outbox) + i.intake.batch
            &&& reported(after.outbox) + after.crashes == reported(i.outbox) + i.crashes
        }),
{
    let after = ingest_flushed(i, s).0;
    let session_id = i.intake.session_id;
    let first = CollectEventView::Records(RecordsView { session_id, records: i.intake.batch });
    let second = CollectEventView::Crashes { session_id, entries: i.crashes };
    lemma_outbox_push(i.outbox, first);
    lemma_outbox_push(i.outbox, second);
    lemma_outbox_push(i.outbox.push(first), second);
    assert(collected(after.outbox) + after.intake.batch =~= collected(i.outbox) + i.intake.batch);
    assert(reported(after.outbox) + after.crashes =~= reported(i.outbox) + i.crashes);
}

/// An accepted line is delivered as a record, once and in order, and the crash that
/// it tells of is reported with its number; a line that is not accepted leaves no
/// trace but, where it is not blank, its number.
pub proof fn law_accepted_lines_are_collected(
    i: IngestView,
    s: StateView,
    line: Seq<char>,
    now: u64,
)
    ensures
        ({
            let (after, state, taken) = ingest_line(i, s, line, now);
            let record = record_of(i.source, s.seq, line, auto_fields(line), now);
            &&& taken ==> collected(after.outbox) + after.intake.batch == (collected(i.outbox)
                + i.intake.batch).push(record)
            &&& taken ==> reported(after.outbox) + after.crashes == with_crash(reported(i.outbox) + i.crashes, record)
            &&& !taken ==> after == i && (state == s || state == s.after_seq())
            &&& taken ==> after.accepted == one_more(i.accepted)
        }),
{
    let record = record_of(i.source, s.seq, line, auto_fields(line), now);
    let grown = i.with_record(record);
    lemma_flush_collects(grown, s.after_seq());
    assert(collected(i.outbox) + grown.intake.batch =~= (collected(i.outbox) + i.intake.batch).push(record));
    assert(reported(i.outbox) + grown.crashes =~= with_crash(reported(i.outbox) + i.crashes, record));
}

impl Ingestor {
    /// An ingestor for a session that nothing has been fed to.
    pub fn new(session_id: &str, source: LogSourceKind) -> (r: Self)
        ensures
            r@ == (IngestView {
                intake: IntakeView::open_to_all(session_id@),
                source,
                crashes: seq![],
                accepted: 0,
                outbox: seq![],
            }),
    {
        let r: Ingestor = Ingestor {
            intake: Intake::new(session_id),
            source,
            crashes: Vec::new(),
            accepted: 0,
            outbox: Vec::new(),
        };
        assert(r@.outbox =~= seq![]);
        assert(r@.crashes =~= seq![]);
        r
    }

    /// Records accepted so far.
    pub fn accepted(&self) -> (r: usize)
        ensures
            r as nat == self@.accepted,
    {
        self.accepted
    }

    /// Publishes the pending batch: the ring first, then the events.
    pub fn flush(&mut self, state: &mut AppState)
        requires
            old(state)@.wf(),
        ensures
            (final(self)@, final(state)@) == ingest_flushed(old(self)@, old(state)@),
            final(state)@.wf(),
    {
        if let Some(event) = self.intake.flush(state) {
            let event: CollectEvent = CollectEvent::Records(event);
            proof {
                lemma_views_push(self.outbox@, event);
            }
            self.outbox.push(event);
        }
        if self.crashes.len() > 0 {
            let mut entries: Vec<CrashEntry> = Vec::new();
            entries.append(&mut self.crashes);
            assert(entries@ =~= old(self).crashes@);
            let event: CollectEvent = CollectEvent::Crashes(
                CrashEvent { session_id: self.intake.session_id().to_owned(), entries },
            );
            proof {
                lemma_views_push(self.outbox@, event);
            }
            self.outbox.push(event);
        }
        assert(self@.crashes =~= seq![]);
    }

    /// Feeds one line, received `now`; returns whether it survived the filters.
    pub fn feed_line(&mut self, state: &mut AppState, line: &str, now: u64) -> (r: bool)
        requires
            old(state)@.wf(),
        ensures
            (final(self)@, final(state)@, r) == ingest_line(old(self)@, old(state)@, line@, now),
            final(state)@.wf(),
    {
        let cs: Vec<char> = chars_of(line);
        let text: &[char] = trim_of(cs.as_slice(), Class::Space);
        if text.len() == 0 {
            return false;
        }
        let seq: u64 = state.next_seq();
        let mut record: LogRecord = parse_auto(self.source, line, seq);
        record.received_at_ms = now;
        if !self.intake.accepts(&record, now) {
            return false;
        }
        push_crashes(&record, &mut self.crashes);
        self.accepted = self.accepted.saturating_add(1);
        self.intake.push(record);
        if self.intake.pending() >= BATCH_SIZE {
            self.flush(state);
        }
        true
    }

    /// Feeds lines in order, and flushes.
    fn feed_lines(&mut self, state: &mut AppState, all: &Vec<String>, now: u64) -> (r: usize)
        requires
            old(state)@.wf(),
        ensures
            (final(self)@, final(state)@, r as nat) == fed(old(self)@, old(state)@, views(all@), now),
            final(state)@.wf(),
    {
        self.intake.refresh(state);
        let ghost start = self@;
        let ghost every = views(all@);
        let mut n: usize = 0;
        let mut i: usize = 0;
        assert(start == old(self)@.refreshed(old(state)@));
        assert(every.take(0) =~= seq![]);
        while i < all.len()
            invariant
                n <= i <= all@.len(),
                every == views(all@),
                state@.wf(),
                (self@, state@, n as nat) == ingest_lines(start, old(state)@, every.take(i as int), now),
            decreases all@.len() - i,
        {
            let taken: bool = self.feed_line(state, all[i].as_str(), now);
            assert(every.take(i as int + 1).drop_last() =~= every.take(i as int));
            assert(every.take(i as int + 1).last() == all@[i as int]@);
            if taken {
                n += 1;
            }
            i += 1;
        }
        assert(every.take(i as int) =~= every);
        self.flush(state);
        n
    }

    /// Feeds every line of `text`, then flushes; returns how many were accepted.
    pub fn feed_text(&mut self, state: &mut AppState, text: &str, now: u64) -> (r: usize)
        requires
            old(state)@.wf(),
        ensures
            (final(self)@, final(state)@, r as nat) == fed(old(self)@, old(state)@, lines(text@), now),
            final(state)@.wf(),
    {
        let all: Vec<String> = text_lines(text);
        self.feed_lines(state, &all, now)
    }

    /// Feeds only the lines that an earlier poll did not see, then remembers the
    /// tail of this one.
    ///
    /// The kernel ring only grows between polls, so comparing each line with the
    /// previous tail is enough.
    pub fn feed_incremental(
        &mut self,
        state: &mut AppState,
        text: &str,
        skip: &HashSet<u64>,
        now: u64,
    ) -> (r: (usize, HashSet<u64>))
        requires
            old(state)@.wf(),
        ensures
            (final(self)@, final(state)@, r.0 as nat) == fed(
                old(self)@,
                old(state)@,
                fresh_lines(lines(text@), skip@),
                now,
            ),
            r.1@ == tail_set(lines(text@)),
            final(state)@.wf(),
    {
        broadcast use vstd::std_specs::hash::group_hash_axioms;

        let all: Vec<String> = text_lines(text);
        let ghost every = views(all@);
        let mut kept: Vec<String> = Vec::new();
        assert(views(kept@) =~= seq![]);
        let mut i: usize = 0;
        while i < all.len()
            invariant
                i <= all@.len(),
                every == views(all@),
                views(kept@) == fresh_lines(every.take(i as int), skip@),
            decreases all@.len() - i,
        {
            assert(every.take(i as int + 1).drop_last() =~= every.take(i as int));
            assert(every.take(i as int + 1).last() == all@[i as int]@);
            let hash: u64 = hash_line(all[i].as_str());
            if !skip.contains(&hash) {
                let line: String = all[i].clone();
                proof {
                    lemma_views_push(kept@, line);
                }
                kept.push(line);
            }
            i += 1;
        }
        assert(every.take(i as int) =~= every);
        let n: usize = self.feed_lines(state, &kept, now);
        (n, tail_hashes(text))
    }

    /// Takes the events that wait to be sent.
    pub fn take_events(&mut self) -> (r: Vec<CollectEvent>)
        ensures
            views(r@) == old(self)@.outbox,
            final(self)@ == (IngestView { outbox: seq![], ..old(self)@ }),
    {
        let mut r: Vec<CollectEvent> = Vec::new();
        r.append(&mut self.outbox);
        assert(r@ =~= old(self).outbox@);
        assert(self@.outbox =~= seq![]);
        r
    }
}

/// The lines of a text as strings.
fn text_lines(text: &str) -> (r: Vec<String>)
    ensures
        views(r@) == lines(text@),
{
    let cs: Vec<char> = chars_of(text);
    let all: Vec<&[char]> = lines_of(cs.as_slice());
    let ghost every = views(all@);
    let mut r: Vec<String> = Vec::new();
    let mut i: usize = 0;
    while i < all.len()
        invariant
            i <= all@.len(),
            every == views(all@),
            views(r@) =~= every.take(i as int),
        decreases all@.len() - i,
    {
        let line: String = string_of(all[i]);
        proof {
            lemma_views_push(r@, line);
            assert(every[i as int] == line@);
        }
        r.push(line);
        i += 1;
    }
    assert(views(r@) =~= every);
    r
}

/// The hashes of the tail of a text, without ingesting any of it.
///
/// This aligns a poll with the snapshot it follows, which has been ingested already.
pub fn tail_hashes(text: &str) -> (r: HashSet<u64>)
    ensures
        r@ == tail_set(lines(text@)),
{
    broadcast use vstd::std_specs::hash::group_hash_axioms;

    let all: Vec<String> = text_lines(text);
    let ghost every = views(all@);
    assert(every.len() == all@.len());
    let from: usize = if all.len() > TAIL_MEMORY {
        all.len() - TAIL_MEMORY
    } else {
        0
    };
    let mut r: HashSet<u64> = HashSet::new();
    let mut i: usize = from;
    while i < all.len()
        invariant
            from <= i <= all@.len(),
            every == views(all@),
            every.len() == all@.len(),
            forall|h: u64|
                #[trigger] r@.contains(h) <==> exists|j: int| from <= j < i && line_hash(#[trigger] every[j]) == h,
        decreases all@.len() - i,
    {
        let ghost before = r@;
        let hash: u64 = hash_line(all[i].as_str());
        assert(every[i as int] == all@[i as int]@);
        let _new: bool = r.insert(hash);
        assert forall|h: u64| #[trigger] r@.contains(h) <==> exists|j: int|
            from <= j < i + 1 && line_hash(#[trigger] every[j]) == h by {
            assert(r@ == before.insert(hash));
            if before.contains(h) {
                let j = choose|j: int| from <= j < i && line_hash(#[trigger] every[j]) == h;
                assert(line_hash(every[j]) == h);
            }
            if h == hash {
                assert(line_hash(every[i as int]) == h);
            }
            if exists|j: int| from <= j < i + 1 && line_hash(#[trigger] every[j]) == h {
                let j = choose|j: int| from <= j < i + 1 && line_hash(#[trigger] every[j]) == h;
                if j < i {
                    assert(before.contains(h));
                }
            }
        }
        i += 1;
    }
    assert forall|h: u64| r@.contains(h) <==> tail_set(every).contains(h) by {
        if r@.contains(h) {
            let j = choose|j: int| from <= j < i && line_hash(#[trigger] every[j]) == h;
            assert(line_hash(every[j]) == h);
        }
        if tail_set(every).contains(h) {
            let j = choose|j: int|
                0 <= j < every.len() && every.len() - TAIL_MEMORY <= j && line_hash(#[trigger] every[j]) == h;
            assert(from <= j < i && line_hash(every[j]) == h);
        }
    }
    assert(r@ =~= tail_set(every));
    r
}

proof fn lemma_remembered_lines_are_not_fresh(all: Seq<Seq<char>>, n: int)
    requires
        0 <= n <= all.len() <= TAIL_MEMORY,
    ensures
        fresh_lines(all.take(n), tail_set(all)) == Seq::<Seq<char>>::empty(),
    decreases n,
{
    if n > 0 {
        lemma_remembered_lines_are_not_fresh(all, n - 1);
        let part = all.take(n);
        assert(part.drop_last() =~= all.take(n - 1));
        assert(part.last() == all[n - 1]);
        assert(line_hash(all[n - 1]) == line_hash(part.last()));
        assert(tail_set(all).contains(line_hash(part.last())));
    }
}

/// A poll that reads again what the last one read ingests nothing: what a poll keeps
/// of its output is remembered as a whole.
pub proof fn law_repeated_poll_adds_nothing(stdout: Seq<char>)
    ensures
        ({
            let all = lines(tail_text(stdout, MAX_PROBE_LINES as nat).0);
            fresh_lines(all, tail_set(all)) == Seq::<Seq<char>>::empty()
        }),
{
    let all = lines(tail_text(stdout, MAX_PROBE_LINES as nat).0);
    law_kept_output_is_bounded(stdout, MAX_PROBE_LINES as nat);
    lemma_remembered_lines_are_not_fresh(all, all.len() as int);
    assert(all.take(all.len() as int) =~= all);
}

} // verus!
