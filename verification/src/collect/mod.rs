//! Boot, crash and recovery collection.
//!
//! The evidence of these three is scattered over files, some of which may not exist
//! or may not be readable. So a collection is a list of probes run in sequence, each
//! of which contributes records or a diagnosis.

pub mod boot;
pub mod flow;
pub mod ingest;
pub mod laws;
pub mod probe;
pub mod profile;
pub mod report;
pub mod run;

pub use crate::collect::ingest::{tail_hashes, Ingestor, MAX_PROBE_LINES, TAIL_MEMORY};
pub use crate::collect::probe::{Probe as CollectProbe, ProbeStatus as CollectProbeStatus};
pub use crate::collect::report::{CollectRequest, CollectionReport, CrashEntry, CrashEvent};
pub use crate::collect::run::detail_of;
pub use crate::process::reader::BATCH_SIZE;

use vstd::prelude::*;
use crate::collect::ingest::ingest_flushed;
use crate::collect::probe::{
    boot_list, boot_probes, crash_list, crash_probes, recovery_list, recovery_probes, OutcomeView, Probe,
    ProbeOutcome, ProbeStatus,
};
use crate::collect::profile::{DeviceProfile, KernelEra, ProfileView};
use crate::collect::report::ReportView;
use crate::error::{says, DroidLogError, Result};
use crate::process::{
    open_manual_session, opens, running, CaptureSession, SessionStatus, StatusView, DEFAULT_SESSION_CAPACITY,
};
use crate::source::LogSourceKind;
use crate::state::AppState;
use crate::text::chars::{concat2, concat3, lemma_views_push, str_eq, views};
use crate::text::split::{join, join_strings};

verus! {

/// Event carrying recognised crashes.
pub const EVENT_CRASH: &'static str = "droidlog://crash";

/// Event carrying the report of a finished collection.
pub const EVENT_COLLECT_REPORT: &'static str = "droidlog://collect-report";

/// Which probe list a run uses.
#[derive(Debug, Clone, Copy, PartialEq, Eq, Structural)]
pub enum Run {
    Crash,
    Recovery,
    Boot,
}

/// The probe can answer something on this device.
pub open spec fn worth_running(id: Seq<char>, profile: ProfileView) -> bool {
    if id == "crash-events"@ {
        profile.has("events"@)
    } else if id == "boot-kernel"@ || id == "crash-kernel"@ {
        profile.has("kernel"@)
    } else if id == "boot-dmesg"@ {
        !profile.has("kernel"@)
    } else if id == "boot-last-kmsg"@ {
        profile.era != KernelEra::Pstore
    } else if id == "boot-pstore"@ || id == "recovery-pstore"@ {
        profile.era != KernelEra::LegacyLastKmsg
    } else {
        true
    }
}

/// Whether a probe can answer anything on this device.
///
/// A probe that cannot succeed is worse than none: its failure would look like a
/// fault of the collector rather than a fact about the phone.
pub fn keep_probe(id: &str, profile: &DeviceProfile) -> (r: bool)
    ensures
        r == worth_running(id@, profile@),
{
    if str_eq(id, "crash-events") {
        profile.has_buffer("events")
    } else if str_eq(id, "boot-kernel") || str_eq(id, "crash-kernel") {
        profile.has_buffer("kernel")
    } else if str_eq(id, "boot-dmesg") {
        // Where logcat has the kernel ring, both would ingest the same lines.
        !profile.has_buffer("kernel")
    } else if str_eq(id, "boot-last-kmsg") {
        profile.era.reads_last_kmsg()
    } else if str_eq(id, "boot-pstore") || str_eq(id, "recovery-pstore") {
        profile.era.reads_pstore()
    } else {
        true
    }
}

/// The probes that are worth running, in order.
pub open spec fn kept_probes(probes: Seq<Probe>, profile: ProfileView) -> Seq<Probe>
    decreases probes.len(),
{
    if probes.len() == 0 {
        seq![]
    } else if worth_running(probes.last().id@, profile) {
        kept_probes(probes.drop_last(), profile).push(probes.last())
    } else {
        kept_probes(probes.drop_last(), profile)
    }
}

impl Run {
    /// Every probe that a run could use.
    pub open spec fn candidates(self) -> Seq<Probe> {
        match self {
            Run::Crash => crash_list(),
            Run::Recovery => recovery_list(),
            Run::Boot => boot_list(),
        }
    }

    pub open spec fn label_text(self) -> Seq<char> {
        match self {
            Run::Crash => "崩溃日志"@,
            Run::Recovery => "Recovery 日志"@,
            Run::Boot => "启动日志"@,
        }
    }

    /// The collector that a run is for.
    pub open spec fn kind(self) -> LogSourceKind {
        match self {
            Run::Crash => LogSourceKind::Crash,
            Run::Recovery => LogSourceKind::Recovery,
            Run::Boot => LogSourceKind::Boot,
        }
    }

    /// The summary that stands for the command of a run.
    pub open spec fn summary(self) -> Seq<char> {
        "probe: "@ + join(self.candidates().map_values(|probe: Probe| probe.id@), ", "@)
    }

    /// Every probe that this run could use, before the device has been asked.
    pub fn candidate_probes(self) -> (r: &'static [Probe])
        ensures
            r@ == self.candidates(),
    {
        match self {
            Run::Crash => crash_probes(),
            Run::Recovery => recovery_probes(),
            Run::Boot => boot_probes(),
        }
    }

    /// The probes worth running on this device.
    pub fn probes(self, profile: &DeviceProfile) -> (r: Vec<Probe>)
        ensures
            r@ == kept_probes(self.candidates(), profile@),
    {
        let all: &'static [Probe] = self.candidate_probes();
        let mut r: Vec<Probe> = Vec::new();
        let mut i: usize = 0;
        while i < all.len()
            invariant
                i <= all@.len(),
                r@ == kept_probes(all@.take(i as int), profile@),
            decreases all@.len() - i,
        {
            assert(all@.take(i as int + 1).drop_last() =~= all@.take(i as int));
            if keep_probe(all[i].id, profile) {
                r.push(all[i]);
            }
            i += 1;
        }
        assert(all@.take(i as int) =~= all@);
        r
    }

    /// Label of the run.
    pub fn label(self) -> (r: &'static str)
        ensures
            r@ == self.label_text(),
    {
        match self {
            Run::Crash => "崩溃日志",
            Run::Recovery => "Recovery 日志",
            Run::Boot => "启动日志",
        }
    }

    /// The collector that the run is for.
    pub fn source(self) -> (r: LogSourceKind)
        ensures
            r == self.kind(),
    {
        match self {
            Run::Crash => LogSourceKind::Crash,
            Run::Recovery => LogSourceKind::Recovery,
            Run::Boot => LogSourceKind::Boot,
        }
    }

    /// The summary that stands for the command of the run.
    pub fn command(self) -> (r: String)
        ensures
            r@ == self.summary(),
    {
        let all: &'static [Probe] = self.candidate_probes();
        let ghost wanted = self.candidates().map_values(|probe: Probe| probe.id@);
        let mut ids: Vec<String> = Vec::new();
        let mut i: usize = 0;
        while i < all.len()
            invariant
                i <= all@.len(),
                all@ == self.candidates(),
                wanted == self.candidates().map_values(|probe: Probe| probe.id@),
                views(ids@) =~= wanted.take(i as int),
            decreases all@.len() - i,
        {
            let id: String = all[i].id.to_owned();
            proof {
                lemma_views_push(ids@, id);
            }
            ids.push(id);
            i += 1;
        }
        assert(views(ids@) =~= wanted);
        let list: String = join_strings(&ids, ", ");
        concat2("probe: ", list.as_str())
    }
}

/// The kernel ring is read once: through logcat where the ROM has the buffer, and
/// with `dmesg` where not. A known kernel keeps the log of the previous boot in one
/// place, and an unknown one may keep it in either.
pub proof fn law_each_ring_is_read_once(profile: ProfileView)
    ensures
        worth_running("boot-kernel"@, profile) != worth_running("boot-dmesg"@, profile),
        profile.era != KernelEra::Unknown ==> worth_running("boot-last-kmsg"@, profile) != worth_running(
            "boot-pstore"@,
            profile,
        ),
        profile.era == KernelEra::Unknown ==> worth_running("boot-last-kmsg"@, profile) && worth_running(
            "boot-pstore"@,
            profile,
        ),
{
    reveal_strlit("crash-events");
    reveal_strlit("boot-kernel");
    reveal_strlit("crash-kernel");
    reveal_strlit("boot-dmesg");
    reveal_strlit("boot-last-kmsg");
    reveal_strlit("boot-pstore");
    reveal_strlit("recovery-pstore");
    assert("boot-dmesg"@[5] != "boot-kernel"@[5]);
    assert("boot-dmesg"@.len() != "crash-events"@.len());
    assert("boot-dmesg"@.len() != "crash-kernel"@.len());
    assert("boot-kernel"@.len() != "crash-events"@.len());
    assert("boot-last-kmsg"@.len() != "boot-pstore"@.len());
    assert("boot-pstore"@[5] != "boot-kernel"@[5]);
    assert("boot-pstore"@.len() == "boot-kernel"@.len());
}

/// Of an unknown kernel both places are read, the modern one first.
pub proof fn law_unknown_kernels_are_read_modern_first(profile: ProfileView)
    requires
        profile.era == KernelEra::Unknown,
    ensures
        ({
            let kept = kept_probes(Run::Boot.candidates(), profile);
            exists|i: int, j: int|
                0 <= i < j < kept.len() && #[trigger] kept[i].id@ == "boot-pstore"@ && #[trigger] kept[j].id@
                    == "boot-last-kmsg"@
        }),
{
    let all = Run::Boot.candidates();
    let kept = kept_probes(all, profile);
    let modern = kept_probes(all.take(3), profile);
    let both = kept_probes(all.take(4), profile);
    law_each_ring_is_read_once(profile);
    assert(all.take(3).last().id@ == "boot-pstore"@);
    assert(all.take(4).last().id@ == "boot-last-kmsg"@);
    assert(all.take(4).drop_last() =~= all.take(3));
    assert(all.drop_last() =~= all.take(4));
    assert(both == modern.push(all[3]));
    assert(modern.last() == all[2]);
    let i = modern.len() - 1;
    assert(both[i] == all[2] && both[i + 1] == all[3]);
    assert(kept[i] == all[2] && kept[i + 1] == all[3]);
    let j = i + 1;
    assert(0 <= i < j < kept.len());
    assert(kept[i].id@ == "boot-pstore"@ && kept[j].id@ == "boot-last-kmsg"@);
}

/// The capacity that a request asks for.
pub open spec fn wanted_capacity(request: CollectRequest) -> usize {
    match request.capacity {
        Some(capacity) => capacity,
        None => DEFAULT_SESSION_CAPACITY,
    }
}

/// Opens the session of a run.
pub fn start(state: &mut AppState, request: &CollectRequest, run: Run, now: u64) -> (r: Result<CaptureSession>)
    ensures
        opens(
            old(state)@,
            final(state)@,
            running(
                old(state)@.session_id(),
                request.serial@,
                request.mode,
                run.kind(),
                run.summary(),
                wanted_capacity(*request),
                now,
            ),
            false,
            r,
        ),
        old(state)@.wf() ==> final(state)@.wf(),
{
    let capacity: usize = match request.capacity {
        Some(capacity) => capacity,
        None => DEFAULT_SESSION_CAPACITY,
    };
    let command: String = run.command();
    open_manual_session(
        state,
        request.serial.as_str(),
        request.mode,
        run.source(),
        command.as_str(),
        capacity,
        now,
    )
}

/// Opens the session of a crash-log collection.
pub fn start_crash(state: &mut AppState, request: &CollectRequest, now: u64) -> (r: Result<CaptureSession>)
    ensures
        opens(
            old(state)@,
            final(state)@,
            running(
                old(state)@.session_id(),
                request.serial@,
                request.mode,
                LogSourceKind::Crash,
                Run::Crash.summary(),
                wanted_capacity(*request),
                now,
            ),
            false,
            r,
        ),
        old(state)@.wf() ==> final(state)@.wf(),
{
    start(state, request, Run::Crash, now)
}

/// Opens the session of a recovery-log collection.
pub fn start_recovery(state: &mut AppState, request: &CollectRequest, now: u64) -> (r: Result<CaptureSession>)
    ensures
        opens(
            old(state)@,
            final(state)@,
            running(
                old(state)@.session_id(),
                request.serial@,
                request.mode,
                LogSourceKind::Recovery,
                Run::Recovery.summary(),
                wanted_capacity(*request),
                now,
            ),
            false,
            r,
        ),
        old(state)@.wf() ==> final(state)@.wf(),
{
    start(state, request, Run::Recovery, now)
}

/// Opens the session of a boot-log collection.
pub fn start_boot(state: &mut AppState, request: &CollectRequest, now: u64) -> (r: Result<CaptureSession>)
    ensures
        opens(
            old(state)@,
            final(state)@,
            running(
                old(state)@.session_id(),
                request.serial@,
                request.mode,
                LogSourceKind::Boot,
                Run::Boot.summary(),
                wanted_capacity(*request),
                now,
            ),
            false,
            r,
        ),
        old(state)@.wf() ==> final(state)@.wf(),
{
    start(state, request, Run::Boot, now)
}

/// What is said of a run that found no adb.
pub fn adb_missing(error: &DroidLogError) -> (r: String)
    ensures
        exists|reason: Seq<char>| #[trigger] says(error@, reason) && r@ == "无法定位 adb："@ + reason,
{
    let reason: String = error.to_string();
    assert(says(error@, reason@));
    concat2("无法定位 adb：", reason.as_str())
}

/// What is said of a run whose adb server cannot be used.
pub fn server_unusable(error: &DroidLogError) -> (r: String)
    ensures
        exists|reason: Seq<char>| #[trigger] says(error@, reason) && r@ == "adb 服务不可用："@ + reason,
{
    let reason: String = error.to_string();
    assert(says(error@, reason@));
    concat2("adb 服务不可用：", reason.as_str())
}

/// Terminal status of a finished run.
pub open spec fn settled(report: ReportView) -> StatusView {
    match report.failure {
        Some(message) => StatusView::Failed(message),
        None => StatusView::Stopped,
    }
}

/// Terminal status of a finished run.
///
/// An empty but readable source is a success: a device that has not crashed has
/// nothing in its crash buffer.
pub fn settle_status(report: &CollectionReport) -> (r: SessionStatus)
    ensures
        r@ == settled(report@),
{
    match &report.failure {
        Some(message) => SessionStatus::Failed(message.clone()),
        None => SessionStatus::Stopped,
    }
}

/// What is told about where a generation keeps the log of the previous boot.
pub open spec fn era_hint(era: KernelEra) -> Option<Seq<char>> {
    match era {
        KernelEra::Pstore => Some(
            "本机为 pstore/ramoops 世代：上次启动的内核日志在 /sys/fs/pstore（console-ramoops / console-ramoops-0 / pmsg-ramoops-0），/proc/last_kmsg 在 3.5 之后已被移除"@,
        ),
        KernelEra::LegacyLastKmsg => Some(
            "本机内核 ≤3.4：上次启动的内核日志在 /proc/last_kmsg，pstore 目录在该世代尚不存在"@,
        ),
        KernelEra::Unknown => None,
    }
}

/// The report entry about the device itself.
pub open spec fn profile_entry(profile: ProfileView) -> OutcomeView {
    OutcomeView {
        id: "device-profile"@,
        label: "设备能力探测（内核 "@ + profile.era.label_text() + "）"@,
        command: "uname -r; logcat -g"@,
        status: ProbeStatus::Found,
        records: 0,
        files: seq![],
        detail: Some(join(profile.notes, "；"@)),
        hint: era_hint(profile.era),
    }
}

/// The report entry that explains which paths this device was read through.
///
/// Without it the report of a modern phone would look like a list of failures: the
/// legacy paths are supposed to be missing there.
pub fn profile_outcome(profile: &DeviceProfile) -> (r: ProbeOutcome)
    ensures
        r@ == profile_entry(profile@),
{
    let hint: Option<String> = match profile.era {
        KernelEra::Pstore => Some(
            "本机为 pstore/ramoops 世代：上次启动的内核日志在 /sys/fs/pstore（console-ramoops / console-ramoops-0 / pmsg-ramoops-0），/proc/last_kmsg 在 3.5 之后已被移除".to_owned(),
        ),
        KernelEra::LegacyLastKmsg => Some(
            "本机内核 ≤3.4：上次启动的内核日志在 /proc/last_kmsg，pstore 目录在该世代尚不存在".to_owned(),
        ),
        KernelEra::Unknown => None,
    };
    let r: ProbeOutcome = ProbeOutcome {
        id: "device-profile".to_owned(),
        label: concat3("设备能力探测（内核 ", profile.era.label(), "）"),
        command: "uname -r; logcat -g".to_owned(),
        status: ProbeStatus::Found,
        records: 0,
        files: Vec::new(),
        detail: Some(join_strings(&profile.notes, "；")),
        hint,
    };
    assert(r@.files =~= seq![]);
    r
}

/// Ends a run: what waits is flushed, and the report and the status are stored.
pub fn finish_collection(
    ingest: &mut Ingestor,
    state: &mut AppState,
    session_id: &str,
    source: LogSourceKind,
    outcomes: Vec<ProbeOutcome>,
    now: u64,
) -> (r: (CollectionReport, SessionStatus))
    requires
        old(state)@.wf(),
    ensures
        ({
            let (after, flushed) = ingest_flushed(old(ingest)@, old(state)@);
            let report = ReportView::of(session_id@, source, views(outcomes@), now);
            &&& final(ingest)@ == after
            &&& r.0@ == report
            &&& r.1@ == settled(report)
            &&& final(state)@ == flushed.with_report(report).with_status(session_id@, settled(report))
        }),
        final(state)@.wf(),
{
    ingest.flush(state);
    let report: CollectionReport = CollectionReport::new(session_id.to_owned(), source, outcomes, now);
    let status: SessionStatus = settle_status(&report);
    state.set_collect_report(report.clone());
    state.set_session_status(session_id, status.clone());
    (report, status)
}

/// Ends a run that could not even start probing.
pub fn fail_collection(
    state: &mut AppState,
    session_id: &str,
    source: LogSourceKind,
    message: &str,
    now: u64,
) -> (r: (CollectionReport, SessionStatus))
    ensures
        ({
            let report = ReportView::failed(session_id@, source, message@, now);
            &&& r.0@ == report
            &&& r.1@ == StatusView::Failed(message@)
            &&& final(state)@ == old(state)@.with_report(report).with_status(
                session_id@,
                StatusView::Failed(message@),
            )
        }),
        old(state)@.wf() ==> final(state)@.wf(),
{
    let report: CollectionReport = CollectionReport::failed(session_id, source, message, now);
    let status: SessionStatus = SessionStatus::Failed(message.to_owned());
    state.set_collect_report(report.clone());
    state.set_session_status(session_id, status.clone());
    (report, status)
}

/// A run that got as far as asking the device is no failure: the entry about the
/// device is free of fault.
pub proof fn law_a_profiled_run_succeeds(
    session_id: Seq<char>,
    source: LogSourceKind,
    profile: ProfileView,
    outcomes: Seq<OutcomeView>,
    finished_at_ms: u64,
)
    ensures
        ReportView::of(session_id, source, seq![profile_entry(profile)] + outcomes, finished_at_ms).failure is None,
{
    let all = seq![profile_entry(profile)] + outcomes;
    assert(all[0].status.ok());
}

} // verus!
