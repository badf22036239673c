//! Boot-log collection: one snapshot, then polling until boot completes.
//!
//! The kernel ring already holds everything since power-on; what is missing is its
//! tail. The snapshot is followed by polls until the device says that it has booted
//! or the window is over. The window is bounded and reported.

use std::collections::HashSet;
use vstd::prelude::*;
use crate::collect::ingest::{
    fed, fresh_lines, tail_hashes, tail_set, IngestView, Ingestor, MAX_PROBE_LINES,
};
use crate::collect::probe::{
    classify_output, diagnosis, tail_lines, tail_text, OutcomeView, ProbeOutcome, ProbeStatus,
};
use crate::collect::profile::{DeviceProfile, ProfileView};
use crate::collect::run::capped_sum;
use crate::error::{says, Result};
use crate::executor::{stdout_of, ExecOutput};
use crate::process::{ProgressView, SessionProgress};
use crate::state::{AppState, StateView};
use crate::text::chars::{chars_of, concat2, concat3, is_word, opt_view, push_text, str_eq, views};
use crate::text::class::{lowercase, Class};
use crate::text::number::{dec, u64_text};
use crate::text::search::{trim, trim_of};
use crate::text::split::{lines, lines_of};

verus! {

/// Default polling window: two minutes cover a cold boot with room to spare.
pub const DEFAULT_WINDOW_MS: u64 = 120_000;

/// Default poll interval.
pub const DEFAULT_INTERVAL_MS: u64 = 2_000;

/// Shortest interval that a caller may ask for.
pub const MIN_INTERVAL_MS: u64 = 500;

/// Longest window that a caller may ask for.
pub const MAX_WINDOW_MS: u64 = 900_000;

/// The command of every poll, when the ROM has no logcat `kernel` buffer.
pub const POLL_COMMAND: &'static str = "dmesg";

/// The modern equivalent, readable without root.
pub const POLL_COMMAND_KERNEL: &'static str = "logcat -d -v threadtime -b kernel";

/// The command that tells whether boot has finished.
pub const BOOT_STATE_COMMAND: &'static str = "getprop sys.boot_completed; getprop dev.bootcomplete";

/// Bounded polling parameters.
#[derive(Debug, Clone, Copy, PartialEq, Eq, Structural)]
pub struct Window {
    /// Total polling window in milliseconds.
    pub window_ms: u64,
    /// Delay between two polls in milliseconds.
    pub interval_ms: u64,
}

impl Window {
    /// The window that a request asks for, within bounds.
    pub open spec fn of(duration_ms: Option<u64>, interval_ms: Option<u64>) -> Window {
        let window = match duration_ms {
            Some(ms) => ms,
            None => DEFAULT_WINDOW_MS,
        };
        let interval = match interval_ms {
            Some(ms) => ms,
            None => DEFAULT_INTERVAL_MS,
        };
        Window {
            window_ms: if window > MAX_WINDOW_MS { MAX_WINDOW_MS } else { window },
            interval_ms: if interval < MIN_INTERVAL_MS { MIN_INTERVAL_MS } else { interval },
        }
    }

    /// How many polls fit in the window; at least one.
    pub open spec fn polls(self) -> nat {
        let interval: nat = if self.interval_ms == 0 { 1 } else { self.interval_ms as nat };
        let polls = self.window_ms as nat / interval;
        if polls == 0 {
            1
        } else if polls > u32::MAX {
            u32::MAX as nat
        } else {
            polls
        }
    }

    /// Builds a window from the request, clamped to sane bounds.
    ///
    /// A zero window is no error: the snapshot is the useful part.
    pub fn new(duration_ms: Option<u64>, interval_ms: Option<u64>) -> (r: Self)
        ensures
            r == Window::of(duration_ms, interval_ms),
    {
        let window: u64 = match duration_ms {
            Some(ms) => ms,
            None => DEFAULT_WINDOW_MS,
        };
        let interval: u64 = match interval_ms {
            Some(ms) => ms,
            None => DEFAULT_INTERVAL_MS,
        };
        Window {
            window_ms: if window > MAX_WINDOW_MS { MAX_WINDOW_MS } else { window },
            interval_ms: if interval < MIN_INTERVAL_MS { MIN_INTERVAL_MS } else { interval },
        }
    }

    /// How many polls fit in the window.
    pub fn expected_polls(&self) -> (r: u32)
        ensures
            r as nat == self.polls(),
    {
        let interval: u64 = if self.interval_ms == 0 { 1 } else { self.interval_ms };
        let polls: u64 = self.window_ms / interval;
        if polls == 0 {
            1
        } else if polls > u32::MAX as u64 {
            u32::MAX
        } else {
            polls as u32
        }
    }
}

/// A window never exceeds its bounds, and always has room for a poll.
pub proof fn law_windows_are_bounded(duration_ms: Option<u64>, interval_ms: Option<u64>)
    ensures
        ({
            let window = Window::of(duration_ms, interval_ms);
            &&& window.window_ms <= MAX_WINDOW_MS
            &&& window.interval_ms >= MIN_INTERVAL_MS
            &&& 1 <= window.polls() <= MAX_WINDOW_MS / MIN_INTERVAL_MS
        }),
{
    let window = Window::of(duration_ms, interval_ms);
    vstd::arithmetic::div_mod::lemma_div_is_ordered(window.window_ms as int, MAX_WINDOW_MS as int, window.interval_ms as int);
    vstd::arithmetic::div_mod::lemma_div_is_ordered_by_denominator(
        MAX_WINDOW_MS as int,
        MIN_INTERVAL_MS as int,
        window.interval_ms as int,
    );
}

/// The probes of the snapshot that read the kernel ring: which one runs depends on
/// the ROM.
pub const KERNEL_SNAPSHOT_PROBES: [&'static str; 2] = ["boot-kernel", "boot-dmesg"];

/// The probe reads the kernel ring.
pub open spec fn reads_kernel_ring(id: Seq<char>) -> bool {
    id == KERNEL_SNAPSHOT_PROBES@[0]@ || id == KERNEL_SNAPSHOT_PROBES@[1]@
}

/// The snapshot contributed the kernel ring.
pub open spec fn snapshot_has_ring(outcomes: Seq<OutcomeView>) -> bool {
    exists|i: int|
        0 <= i < outcomes.len() && reads_kernel_ring((#[trigger] outcomes[i]).id) && outcomes[i].records > 0
}

fn has_ring(outcomes: &Vec<ProbeOutcome>) -> (r: bool)
    ensures
        r == snapshot_has_ring(views(outcomes@)),
{
    let ghost all = views(outcomes@);
    let mut i: usize = 0;
    while i < outcomes.len()
        invariant
            i <= outcomes@.len(),
            all == views(outcomes@),
            all.len() == outcomes@.len(),
            forall|j: int| 0 <= j < i ==> !(reads_kernel_ring((#[trigger] all[j]).id) && all[j].records > 0),
        decreases outcomes@.len() - i,
    {
        assert(all[i as int] == outcomes@[i as int]@);
        let id: &str = outcomes[i].id.as_str();
        if (str_eq(id, KERNEL_SNAPSHOT_PROBES[0]) || str_eq(id, KERNEL_SNAPSHOT_PROBES[1])) && outcomes[i].records > 0 {
            return true;
        }
        i += 1;
    }
    false
}

/// A device that has booted says so in a line of its own.
pub open spec fn boot_completed(stdout: Seq<char>) -> bool {
    exists|i: int| 0 <= i < lines(stdout).len() && trim(#[trigger] lines(stdout)[i], Class::Space) == "1"@
}

fn is_boot_completed(stdout: &str) -> (r: bool)
    ensures
        r == boot_completed(stdout@),
{
    let cs: Vec<char> = chars_of(stdout);
    let all: Vec<&[char]> = lines_of(cs.as_slice());
    let ghost every = views(all@);
    assert(every.len() == all@.len());
    let mut i: usize = 0;
    while i < all.len()
        invariant
            i <= all@.len(),
            every == views(all@),
            every == lines(stdout@),
            every.len() == all@.len(),
            forall|j: int| 0 <= j < i ==> trim(#[trigger] every[j], Class::Space) != "1"@,
        decreases all@.len() - i,
    {
        assert(every[i as int] == all@[i as int]@);
        if is_word(trim_of(all[i], Class::Space), "1") {
            return true;
        }
        i += 1;
    }
    false
}

/// The polling of a boot collection.
#[derive(Debug)]
pub struct BootRun {
    window: Window,
    /// Polls go through logcat rather than `dmesg`.
    through_logcat: bool,
    /// The next poll only learns the tail of what the snapshot ingested.
    seed_only: bool,
    polls: u32,
    records: usize,
    skip: HashSet<u64>,
    booted: bool,
    note: Option<String>,
}

#[verifier::ext_equal]
pub struct BootView {
    pub window: Window,
    pub through_logcat: bool,
    pub seed_only: bool,
    pub polls: u32,
    pub records: nat,
    pub skip: Set<u64>,
    pub booted: bool,
    pub note: Option<Seq<char>>,
}

impl View for BootRun {
    type V = BootView;

    closed spec fn view(&self) -> BootView {
        BootView {
            window: self.window,
            through_logcat: self.through_logcat,
            seed_only: self.seed_only,
            polls: self.polls,
            records: self.records as nat,
            skip: self.skip@,
            booted: self.booted,
            note: opt_view(self.note),
        }
    }
}

/// One more poll, as far as 32 bits count.
pub open spec fn next_poll(polls: u32) -> u32 {
    if polls < u32::MAX {
        (polls + 1) as u32
    } else {
        polls
    }
}

impl BootView {
    pub open spec fn begun(window: Window, profile: ProfileView, outcomes: Seq<OutcomeView>) -> BootView {
        BootView {
            window,
            through_logcat: profile.has("kernel"@),
            seed_only: snapshot_has_ring(outcomes),
            polls: 0,
            records: 0,
            skip: Set::empty(),
            booted: false,
            note: None,
        }
    }

    pub open spec fn command(self) -> Seq<char> {
        if self.through_logcat {
            POLL_COMMAND_KERNEL@
        } else {
            POLL_COMMAND@
        }
    }

    pub open spec fn label(self) -> Seq<char> {
        if self.booted && self.polls <= 1 {
            "设备已启动完成，仅采集一次内核缓冲"@
        } else if self.booted {
            "轮询内核缓冲 "@ + dec(self.polls as nat) + " 次（设备已启动完成）"@
        } else {
            "轮询内核缓冲 "@ + dec(self.polls as nat) + " 次（窗口 "@ + dec((self.window.window_ms / 1000) as nat)
                + " 秒结束）"@
        }
    }

    pub open spec fn detail(self) -> Option<Seq<char>> {
        match self.note {
            Some(note) => Some(note),
            None => if self.records == 0 {
                Some("快照已包含内核缓冲的全部内容，轮询期间没有新增"@)
            } else {
                None
            },
        }
    }

    /// What is reported of the polling.
    pub open spec fn outcome(self) -> OutcomeView {
        OutcomeView {
            id: "boot-poll"@,
            label: self.label(),
            command: self.command(),
            status: if self.records > 0 {
                ProbeStatus::Found
            } else {
                ProbeStatus::Empty
            },
            records: self.records as usize,
            files: seq![],
            detail: self.detail(),
            hint: None,
        }
    }
}

/// The answer to a poll leads from the first ingestor and state to the second and from
/// one run to the next, and says whether to go on.
pub open spec fn poll_taken(
    boot: BootView,
    reply: Result<ExecOutput>,
    i: IngestView,
    s: StateView,
    now: u64,
    after: IngestView,
    state: StateView,
    next: BootView,
    go_on: bool,
) -> bool {
    match reply {
        Ok(output) => {
            let status = diagnosis(output@.stdout, lowercase(output@.stderr), output@.code);
            let all = lines(tail_text(output@.stdout, MAX_PROBE_LINES as nat).0);
            if status == ProbeStatus::Restricted || status == ProbeStatus::Denied {
                &&& !go_on
                &&& next == (BootView { note: status.remedy(), ..boot })
                &&& after == i && state == s
            } else if boot.seed_only {
                &&& go_on
                &&& next == (BootView { seed_only: false, skip: tail_set(all), ..boot })
                &&& after == i && state == s
            } else {
                let (i1, s1, n) = fed(i, s, fresh_lines(all, boot.skip), now);
                &&& go_on
                &&& after == i1 && state == s1
                &&& next == (BootView { records: capped_sum(boot.records, n), skip: tail_set(all), ..boot })
            }
        },
        Err(error) => {
            &&& !go_on
            &&& after == i && state == s
            &&& exists|reason: Seq<char>| #[trigger]
                says(error@, reason) && next == (BootView { note: Some("轮询失败："@ + reason), ..boot })
        },
    }
}

impl BootRun {
    /// Begins after the snapshot.
    ///
    /// Polls go through logcat where the ROM has the buffer. Where the snapshot has
    /// ingested the kernel ring, the first poll only learns its tail: ingesting it
    /// again would collect the same boot twice.
    pub fn begin(
        duration_ms: Option<u64>,
        interval_ms: Option<u64>,
        profile: &DeviceProfile,
        outcomes: &Vec<ProbeOutcome>,
    ) -> (r: Self)
        ensures
            r@ == BootView::begun(Window::of(duration_ms, interval_ms), profile@, views(outcomes@)),
    {
        BootRun {
            window: Window::new(duration_ms, interval_ms),
            through_logcat: profile.has_buffer("kernel"),
            seed_only: has_ring(outcomes),
            polls: 0,
            records: 0,
            skip: HashSet::new(),
            booted: false,
            note: None,
        }
    }

    /// The bounds of the polling.
    pub fn window(&self) -> (r: Window)
        ensures
            r == self@.window,
    {
        self.window
    }

    /// The command of every poll.
    pub fn poll_command(&self) -> (r: &'static str)
        ensures
            r@ == self@.command(),
    {
        if self.through_logcat {
            POLL_COMMAND_KERNEL
        } else {
            POLL_COMMAND
        }
    }

    /// Counts one more poll, and gives the progress to be shown.
    pub fn tick(&mut self, ends_at_ms: u64) -> (r: SessionProgress)
        ensures
            final(self)@ == (BootView { polls: next_poll(old(self)@.polls), ..old(self)@ }),
            r@ == (ProgressView {
                label: "启动日志采集中"@,
                ends_at_ms,
                done: next_poll(old(self)@.polls),
                total: old(self)@.window.polls() as u32,
            }),
    {
        self.polls = self.polls.saturating_add(1);
        SessionProgress {
            label: "启动日志采集中".to_owned(),
            ends_at_ms,
            done: self.polls,
            total: self.window.expected_polls(),
        }
    }

    /// Takes the answer to a poll; the answer says whether to go on.
    ///
    /// A ring that may not be read and a transport that failed end the polling, with
    /// a note.
    pub fn take_output(
        &mut self,
        reply: Result<ExecOutput>,
        ingest: &mut Ingestor,
        state: &mut AppState,
        now: u64,
    ) -> (r: bool)
        requires
            old(state)@.wf(),
        ensures
            final(state)@.wf(),
            poll_taken(
                old(self)@,
                reply,
                old(ingest)@,
                old(state)@,
                now,
                final(ingest)@,
                final(state)@,
                final(self)@,
                r,
            ),
    {
        let output: ExecOutput = match reply {
            Ok(output) => output,
            Err(error) => {
                let reason: String = error.to_string();
                self.note = Some(concat2("轮询失败：", reason.as_str()));
                assert(says(error@, reason@));
                return false;
            }
        };
        let status: ProbeStatus = classify_output(&output);
        if status == ProbeStatus::Restricted || status == ProbeStatus::Denied {
            self.note = status.hint_text();
            return false;
        }
        let (text, _trimmed): (String, bool) = tail_lines(output.stdout.as_str(), MAX_PROBE_LINES);
        let ghost all = lines(tail_text(output@.stdout, MAX_PROBE_LINES as nat).0);
        assert(lines(text@) == all);
        if self.seed_only {
            self.skip = tail_hashes(text.as_str());
            self.seed_only = false;
        } else {
            let (n, tail): (usize, HashSet<u64>) = ingest.feed_incremental(state, text.as_str(), &self.skip, now);
            self.records = self.records.saturating_add(n);
            self.skip = tail;
        }
        true
    }

    /// Takes the answer to [`BOOT_STATE_COMMAND`]; the answer says whether to poll
    /// again.
    ///
    /// An answer that cannot be read means "not yet", which costs one more poll.
    pub fn take_boot_state(&mut self, reply: Result<ExecOutput>, window_over: bool) -> (r: bool)
        ensures
            ({
                let booted = match stdout_of(reply) {
                    Some(stdout) => boot_completed(stdout),
                    None => false,
                };
                &&& final(self)@ == (BootView { booted, ..old(self)@ })
                &&& r == !(booted || window_over)
            }),
    {
        self.booted = match reply {
            Ok(output) => is_boot_completed(output.stdout.as_str()),
            Err(_) => false,
        };
        !(self.booted || window_over)
    }

    /// What is reported of the polling.
    pub fn outcome(self) -> (r: ProbeOutcome)
        ensures
            r@ == self@.outcome(),
    {
        let polls: String = u64_text(self.polls as u64);
        let label: String = if self.booted && self.polls <= 1 {
            "设备已启动完成，仅采集一次内核缓冲".to_owned()
        } else if self.booted {
            concat3("轮询内核缓冲 ", polls.as_str(), " 次（设备已启动完成）")
        } else {
            let seconds: String = u64_text(self.window.window_ms / 1000);
            let mut text: String = concat3("轮询内核缓冲 ", polls.as_str(), " 次（窗口 ");
            push_text(&mut text, seconds.as_str());
            push_text(&mut text, " 秒结束）");
            text
        };
        let command: String = self.poll_command().to_owned();
        let detail: Option<String> = match self.note {
            Some(note) => Some(note),
            None => {
                if self.records == 0 {
                    Some("快照已包含内核缓冲的全部内容，轮询期间没有新增".to_owned())
                } else {
                    None
                }
            }
        };
        let r: ProbeOutcome = ProbeOutcome {
            id: "boot-poll".to_owned(),
            label,
            command,
            status: if self.records > 0 {
                ProbeStatus::Found
            } else {
                ProbeStatus::Empty
            },
            records: self.records,
            files: Vec::new(),
            detail,
            hint: None,
        };
        assert(r@.files =~= seq![]);
        r
    }
}

} // verus!
