//! What a capture promises as a whole.

use vstd::prelude::*;
use crate::device::resolve::{Prefilter, TargetView};
use crate::executor::ExecMode;
use crate::filter::{enabled_rules, first_fault};
use crate::parser::record::RecordView;
use crate::process::reader::{ended, flushed, without_line_end, ConsumerView, IntakeView};
use crate::process::{narrowed, narrowing, request_fault, stoppable_ids, uid_matters, ProgressView, SessionView, StatusView};
use crate::source::{LogSourceKind, OptionsView};
use crate::state::{lemma_session_index, newest, session_index, StateView};

verus! {

/// A session fails for two reasons only: its pipe could not be read, or its process ended
/// on its own, not cleanly, and said why. The failure tells the reason.
pub proof fn law_how_a_session_ends(
    cause: Seq<char>,
    said: Seq<char>,
    read_failure: Option<Seq<char>>,
    by_user: bool,
    clean: bool,
    stderr: Option<Seq<char>>,
)
    ensures
        ended(Some(cause), by_user, clean, stderr) == StatusView::Failed(cause),
        ended(None, false, false, Some(said)) == StatusView::Failed(said),
        ended(None, true, clean, stderr) == StatusView::Stopped,
        ended(None, by_user, true, stderr) == StatusView::Stopped,
        ended(None, by_user, clean, None) == StatusView::Stopped,
        ended(read_failure, by_user, clean, stderr) is Failed <==> read_failure is Some || (!by_user && !clean
            && stderr is Some),
        ended(read_failure, by_user, clean, stderr) is Failed || ended(read_failure, by_user, clean, stderr) is Stopped,
{
}

/// One line end is taken off a line, LF or CR LF, and nothing else.
pub proof fn law_line_ends(text: Seq<u8>)
    requires
        text.len() > 0 ==> text.last() != 10u8 && text.last() != 13u8,
    ensures
        without_line_end(text) == text,
        without_line_end(text.push(10u8)) == text,
        without_line_end(text.push(13u8).push(10u8)) == text,
        without_line_end(text.push(13u8)) == text,
        without_line_end(text.push(10u8).push(10u8)) == text.push(10u8),
        without_line_end(text.push(13u8).push(13u8).push(10u8)) == text.push(13u8),
{
    assert(text.push(10u8).drop_last() =~= text);
    assert(text.push(13u8).drop_last() =~= text);
    assert(text.push(13u8).push(10u8).drop_last() =~= text.push(13u8));
    assert(text.push(10u8).push(10u8).drop_last() =~= text.push(10u8));
    assert(text.push(13u8).push(13u8).push(10u8).drop_last() =~= text.push(13u8).push(13u8));
    assert(text.push(13u8).push(13u8).drop_last() =~= text.push(13u8));
}

/// A capture is refused for want of root exactly where the kernel's ring is asked for
/// without it.
pub proof fn law_who_may_read_what(source: LogSourceKind)
    ensures
        request_fault(ExecMode::Root, source) is None,
        request_fault(ExecMode::Adb, source) is Some <==> source == LogSourceKind::Dmesg || source
            == LogSourceKind::Kmsg,
{
}

/// The device narrows a logcat stream by uid where it can, else by the processes where
/// there are any, and no other stream; what it does not narrow is left as it was asked
/// for.
pub proof fn law_how_a_stream_is_narrowed(
    source: LogSourceKind,
    target: TargetView,
    supports_uid: bool,
    options: OptionsView,
)
    ensures
        ({
            let way = narrowing(source, target, supports_uid);
            let used = narrowed(options, target, way);
            let logcat = source == LogSourceKind::Logcat;
            &&& way == Prefilter::Uid <==> logcat && supports_uid && target.uid is Some
            &&& way == Prefilter::Pid <==> logcat && !(supports_uid && target.uid is Some) && target.pids.len() > 0
            &&& way == Prefilter::Uid ==> used.uid == target.uid && used.pids.len() == 0
            &&& way == Prefilter::Pid ==> used.pids == target.pids && used.uid == options.uid
            &&& way == Prefilter::Host ==> used == options
            &&& used.tags == options.tags && used.buffers == options.buffers && used.custom_command
                == options.custom_command
        }),
{
}

/// The sessions that can be stopped are those with a process of their own, each once and
/// in their order.
pub proof fn law_what_can_be_stopped(sessions: Seq<SessionView>, session: SessionView, id: Seq<char>)
    ensures
        stoppable_ids(seq![]).len() == 0,
        session.stoppable ==> stoppable_ids(sessions.push(session)) == stoppable_ids(sessions).push(session.info.id),
        !session.stoppable ==> stoppable_ids(sessions.push(session)) == stoppable_ids(sessions),
        stoppable_ids(sessions).contains(id) <==> exists|i: int|
            0 <= i < sessions.len() && (#[trigger] sessions[i]).stoppable && sessions[i].info.id == id,
    decreases sessions.len(),
{
    assert(sessions.push(session).drop_last() =~= sessions);
    if sessions.len() > 0 {
        let init = sessions.drop_last();
        let last = sessions.last();
        law_what_can_be_stopped(init, session, id);
        let before = stoppable_ids(init);
        let after = stoppable_ids(sessions);
        if after.contains(id) {
            let k = choose|k: int| 0 <= k < after.len() && after[k] == id;
            if k < before.len() {
                assert(before[k] == id);
                let i = choose|i: int| 0 <= i < init.len() && (#[trigger] init[i]).stoppable && init[i].info.id == id;
                assert(sessions[i] == init[i]);
            } else {
                assert(sessions[sessions.len() - 1].info.id == id);
            }
        }
        if exists|i: int| 0 <= i < sessions.len() && (#[trigger] sessions[i]).stoppable && sessions[i].info.id == id {
            let i = choose|i: int|
                0 <= i < sessions.len() && (#[trigger] sessions[i]).stoppable && sessions[i].info.id == id;
            if i < init.len() {
                assert(init[i] == sessions[i]);
                let k = choose|k: int| 0 <= k < before.len() && before[k] == id;
                assert(after[k] == id);
            } else {
                assert(after.last() == id);
            }
        }
    }
}

/// A limit leaves the newest records, in their order; without one all are given.
pub proof fn law_the_newest_are_given(older: Seq<RecordView>, newer: Seq<RecordView>, limit: usize)
    ensures
        newest(older, None) == older,
        newer.len() == limit ==> newest(older + newer, Some(limit)) == newer,
        older.len() <= limit ==> newest(older, Some(limit)) == older,
{
    let all = older + newer;
    if newer.len() == limit {
        assert(all.skip(older.len() as int) =~= newer);
        if older.len() == 0 {
            assert(all =~= newer);
        }
    }
}

/// Filters and the followed app reach a running stream as soon as they change; filters
/// that cannot be applied leave those in force.
pub proof fn law_settings_reach_a_stream(intake: IntakeView, s: StateView)
    ensures
        ({
            let after = intake.refreshed(s);
            &&& after.session_id == intake.session_id && after.batch == intake.batch
            &&& after.filters_version == s.filters_version && after.target_version == s.app_target_version
            &&& s.app_target_version != intake.target_version ==> after.target == s.app_target
            &&& s.app_target_version == intake.target_version ==> after.target == intake.target
            &&& s.filters_version == intake.filters_version ==> after.filters == intake.filters
            &&& s.filters_version != intake.filters_version && first_fault(s.filters) is None ==> after.filters
                == enabled_rules(s.filters)
            &&& first_fault(s.filters) is Some ==> after.filters == intake.filters
            &&& after.refreshed(s) == after
        }),
{
    assert(intake.refreshed(s).refreshed(s) =~= intake.refreshed(s));
}

/// What is told of a session is shown of it, and nothing else of it changes.
pub proof fn law_a_session_shows_what_it_is_told(
    s: StateView,
    id: Seq<char>,
    status: StatusView,
    progress: ProgressView,
    records: Seq<RecordView>,
)
    requires
        s.wf(),
        s.has_session(id),
    ensures
        ({
            let before = s.session(id)->0;
            let told = s.with_status(id, status).session(id);
            let moved = s.with_progress(id, progress).session(id);
            let fed = s.with_records(id, records).session(id);
            &&& told matches Some(x) && x.info.status == status && x.info.progress == before.info.progress && x.ring
                == before.ring && x.info.id == id && x.stoppable == before.stoppable
            &&& moved matches Some(y) && y.info.progress == Some(progress) && y.info.status == before.info.status
                && y.ring == before.ring && y.info.id == id && y.stoppable == before.stoppable
            &&& fed matches Some(z) && z.info == before.info && z.ring == before.ring.push_all(records) && z.stoppable
                == before.stoppable
        }),
{
    lemma_session_index(s.sessions, id);
    let at = session_index(s.sessions, id);
    lemma_session_index(s.with_status(id, status).sessions, id);
    lemma_session_index(s.with_progress(id, progress).sessions, id);
    lemma_session_index(s.with_records(id, records).sessions, id);
    assert(s.with_status(id, status).sessions[at].info.id == id);
    assert(s.with_progress(id, progress).sessions[at].info.id == id);
    assert(s.with_records(id, records).sessions[at].info.id == id);
}

/// A batch that is handed over is stored with its session, and goes out under its id.
pub proof fn law_what_is_sent_is_stored(c: ConsumerView, s: StateView)
    requires
        c.intake.batch.len() > 0,
    ensures
        ({
            let (after, state) = flushed(c, s);
            &&& after.intake.batch.len() == 0
            &&& after.outbox.len() == c.outbox.len() + 1
            &&& after.outbox.drop_last() == c.outbox
            &&& after.outbox.last().session_id == c.intake.session_id
            &&& after.outbox.last().records == c.intake.batch
            &&& state == s.with_records(c.intake.session_id, c.intake.batch)
        }),
{
    assert(flushed(c, s).0.outbox.drop_last() =~= c.outbox);
}

/// A session is opened with an empty ring that has room for what was asked for, and for
/// one record at least.
pub proof fn law_sessions_begin_empty(session: SessionView, stoppable: bool)
    ensures
        ({
            let fresh = SessionView::opened(session.info, stoppable);
            &&& fresh.info == session.info && fresh.stoppable == stoppable
            &&& fresh.ring.items.len() == 0 && fresh.ring.total_pushed == 0 && fresh.ring.total_dropped == 0
            &&& session.info.capacity > 0 ==> fresh.ring.capacity == session.info.capacity
            &&& session.info.capacity == 0 ==> fresh.ring.capacity == 1
        }),
{
}

/// A device is asked for what its logcat can do only where that matters: for a logcat stream
/// while an app is followed.
pub proof fn law_when_a_device_is_asked(s: StateView, target: TargetView)
    ensures
        uid_matters(StateView { app_target: Some(target), ..s }, LogSourceKind::Logcat),
        !uid_matters(StateView { app_target: None, ..s }, LogSourceKind::Logcat),
        !uid_matters(s, LogSourceKind::Dmesg) && !uid_matters(s, LogSourceKind::Kmsg),
{
}

} // verus!
