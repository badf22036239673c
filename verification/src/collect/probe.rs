//! Device-side probes: one command, one status, one diagnosis.
//!
//! A probe is a read-only command whose output either contains log records or
//! explains why it does not. A missing path or a denied one is reported, never
//! fatal.

use vstd::prelude::*;
use crate::crash::{denial_phrases, denied_lower, mentions};
use crate::executor::ExecOutput;
use crate::text::chars::{
    chars_of, clone_opt, clone_strings, concat3, lemma_views_push, opt_view, str_eq, string_of, views,
};
use crate::text::class::{ascii_lower, lower_chars, lowercase, Class};
use crate::text::order::{sorted_descending, texts_descending};
use crate::text::search::{any_in, any_of, contains, contains_word, trim, trim_end, trim_end_of, trim_of};
use crate::text::split::{join, join_strings, lines, lines_of};

verus! {

/// How many files a directory probe reads back at most: each is a full crash dump,
/// and the newest few carry the crash just reproduced.
pub const MAX_FOLLOW_UP_FILES: usize = 3;

/// Outcome of a single probe.
#[derive(Debug, Clone, Copy, PartialEq, Eq, Structural)]
pub enum ProbeStatus {
    /// The command ran and produced output.
    Found,
    /// The path or command exists, and there is nothing in it.
    Empty,
    /// The path does not exist on this device.
    Missing,
    /// Access was refused.
    Denied,
    /// The kernel ring is restricted, which can be changed at runtime.
    Restricted,
    /// The command could not be run at all.
    Failed,
}

impl ProbeStatus {
    /// No fault: data arrived, or none was expected.
    pub open spec fn ok(self) -> bool {
        self == ProbeStatus::Found || self == ProbeStatus::Empty
    }

    pub open spec fn label_text(self) -> Seq<char> {
        match self {
            ProbeStatus::Found => "已找到"@,
            ProbeStatus::Empty => "为空"@,
            ProbeStatus::Missing => "不存在"@,
            ProbeStatus::Denied => "无权限"@,
            ProbeStatus::Restricted => "内核受限"@,
            ProbeStatus::Failed => "失败"@,
        }
    }

    /// What can be done about it.
    pub open spec fn remedy(self) -> Option<Seq<char>> {
        match self {
            ProbeStatus::Found => None,
            ProbeStatus::Empty => Some("该位置存在但没有内容：设备可能尚未产生这类日志"@),
            ProbeStatus::Missing => Some("设备上不存在该路径：该机型可能不使用这个日志位置"@),
            ProbeStatus::Denied => Some("读取被拒绝：请在工具栏切换到 Root（su -c）模式后重试"@),
            ProbeStatus::Restricted => Some(
                "内核日志被限制（dmesg_restrict=1）：请使用 Root 模式，或执行 echo 0 > /proc/sys/kernel/dmesg_restrict"@,
            ),
            ProbeStatus::Failed => Some("命令执行失败：请确认设备仍在线且 adb 版本与设备匹配"@),
        }
    }

    /// True when the probe is not a fault.
    pub fn is_ok(self) -> (r: bool)
        ensures
            r == self.ok(),
    {
        self == ProbeStatus::Found || self == ProbeStatus::Empty
    }

    /// Short label for the report.
    pub fn label(self) -> (r: &'static str)
        ensures
            r@ == self.label_text(),
    {
        match self {
            ProbeStatus::Found => "已找到",
            ProbeStatus::Empty => "为空",
            ProbeStatus::Missing => "不存在",
            ProbeStatus::Denied => "无权限",
            ProbeStatus::Restricted => "内核受限",
            ProbeStatus::Failed => "失败",
        }
    }

    /// What the user can do about a result that is not `Found`.
    pub fn hint(self) -> (r: Option<&'static str>)
        ensures
            crate::executor::opt_str(r) == self.remedy(),
    {
        match self {
            ProbeStatus::Found => None,
            ProbeStatus::Empty => Some("该位置存在但没有内容：设备可能尚未产生这类日志"),
            ProbeStatus::Missing => Some("设备上不存在该路径：该机型可能不使用这个日志位置"),
            ProbeStatus::Denied => Some("读取被拒绝：请在工具栏切换到 Root（su -c）模式后重试"),
            ProbeStatus::Restricted => Some(
                "内核日志被限制（dmesg_restrict=1）：请使用 Root 模式，或执行 echo 0 > /proc/sys/kernel/dmesg_restrict",
            ),
            ProbeStatus::Failed => Some("命令执行失败：请确认设备仍在线且 adb 版本与设备匹配"),
        }
    }

    /// The remedy as an owned text.
    pub fn hint_text(self) -> (r: Option<String>)
        ensures
            opt_view(r) == self.remedy(),
    {
        match self.hint() {
            Some(hint) => Some(hint.to_owned()),
            None => None,
        }
    }
}

/// Every result but a success carries a remedy.
pub proof fn law_every_fault_has_a_remedy(status: ProbeStatus)
    ensures
        status.remedy() is None <==> status == ProbeStatus::Found,
        !status.ok() ==> status.remedy() is Some,
{
}

/// One read-only command, and how to treat its output.
#[derive(Debug, Clone, Copy)]
pub struct Probe {
    /// Stable id.
    pub id: &'static str,
    /// Human label for the report.
    pub label: &'static str,
    /// Exact device-side command.
    pub command: &'static str,
    /// `false` for probes whose output is a listing rather than log text.
    pub ingest: bool,
    /// For a listing, the directory that the listed names live in.
    pub dir: Option<&'static str>,
}

/// The command that reads one file of a directory.
pub open spec fn read_back(dir: Seq<char>, file: Seq<char>) -> Seq<char> {
    "cat "@ + trim_end(dir, Class::One('/')) + "/"@ + file
}

/// Builds the read-back command for one file of a directory probe.
pub fn follow_up(dir: &str, file: &str) -> (r: String)
    ensures
        r@ == read_back(dir@, file@),
{
    let cs: Vec<char> = chars_of(dir);
    let base: String = string_of(trim_end_of(cs.as_slice(), Class::One('/')));
    let mut r: String = concat3("cat ", base.as_str(), "/");
    crate::text::chars::push_text(&mut r, file);
    r
}

/// Result of one probe.
#[derive(Debug)]
pub struct ProbeOutcome {
    /// Probe id.
    pub id: String,
    /// Probe label.
    pub label: String,
    /// Command that was run.
    pub command: String,
    /// Diagnosis.
    pub status: ProbeStatus,
    /// Records this probe contributed.
    pub records: usize,
    /// Extra files read back after the probe.
    pub files: Vec<String>,
    /// Device message, when there is one.
    pub detail: Option<String>,
    /// Remedy for a result that is not `Found`.
    pub hint: Option<String>,
}

#[verifier::ext_equal]
pub struct OutcomeView {
    pub id: Seq<char>,
    pub label: Seq<char>,
    pub command: Seq<char>,
    pub status: ProbeStatus,
    pub records: usize,
    pub files: Seq<Seq<char>>,
    pub detail: Option<Seq<char>>,
    pub hint: Option<Seq<char>>,
}

impl View for ProbeOutcome {
    type V = OutcomeView;

    open spec fn view(&self) -> OutcomeView {
        OutcomeView {
            id: self.id@,
            label: self.label@,
            command: self.command@,
            status: self.status,
            records: self.records,
            files: views(self.files@),
            detail: opt_view(self.detail),
            hint: opt_view(self.hint),
        }
    }
}

impl Clone for ProbeOutcome {
    fn clone(&self) -> (r: Self)
        ensures
            r@ == self@,
    {
        ProbeOutcome {
            id: self.id.clone(),
            label: self.label.clone(),
            command: self.command.clone(),
            status: self.status,
            records: self.records,
            files: clone_strings(&self.files),
            detail: clone_opt(&self.detail),
            hint: clone_opt(&self.hint),
        }
    }
}

/// Crash-log probes, in the order they are worth reading.
pub open spec fn crash_list() -> Seq<Probe> {
    seq![
        Probe {
            id: "crash-buffer",
            label: "崩溃缓冲区 logcat -b crash",
            command: "logcat -d -v threadtime -b crash",
            ingest: true,
            dir: None,
        },
        Probe {
            id: "crash-events",
            label: "事件缓冲区（am_crash / am_anr / am_proc_died）",
            command: "logcat -d -v threadtime -b events -t 500",
            ingest: true,
            dir: None,
        },
        Probe {
            id: "crash-kernel",
            label: "内核日志缓冲区 logcat -b kernel",
            command: "logcat -d -v threadtime -b kernel -t 800",
            ingest: true,
            dir: None,
        },
        Probe {
            id: "crash-context",
            label: "崩溃前上下文（main + system）",
            command: "logcat -d -v threadtime -b main,system -t 800",
            ingest: true,
            dir: None,
        },
        Probe {
            id: "tombstone-dir",
            label: "墓碑目录 /data/tombstones",
            command: "ls -1 /data/tombstones",
            ingest: false,
            dir: Some("/data/tombstones"),
        },
        Probe {
            id: "dropbox-dir",
            label: "系统崩溃归档 /data/system/dropbox",
            command: "ls -1 /data/system/dropbox",
            ingest: false,
            dir: Some("/data/system/dropbox"),
        },
        Probe {
            id: "anr-dir",
            label: "ANR 轨迹目录 /data/anr",
            command: "ls -1 /data/anr",
            ingest: false,
            dir: Some("/data/anr"),
        },
    ]
}

/// Recovery-mode probes: recovery has no `logcat`.
pub open spec fn recovery_list() -> Seq<Probe> {
    seq![
        Probe {
            id: "recovery-log",
            label: "Recovery 主日志 /tmp/recovery.log",
            command: "cat /tmp/recovery.log",
            ingest: true,
            dir: None,
        },
        Probe {
            id: "recovery-last-log",
            label: "上次 Recovery 日志 /cache/recovery/last_log",
            command: "cat /cache/recovery/last_log",
            ingest: true,
            dir: None,
        },
        Probe {
            id: "recovery-kernel",
            label: "内核环形缓冲 dmesg",
            command: "dmesg",
            ingest: true,
            dir: None,
        },
        Probe {
            id: "recovery-pstore",
            label: "pstore 目录 /sys/fs/pstore",
            command: "ls -1 /sys/fs/pstore",
            ingest: false,
            dir: Some("/sys/fs/pstore"),
        },
    ]
}

/// Boot-log probes: the first snapshot, taken before polling starts.
pub open spec fn boot_list() -> Seq<Probe> {
    seq![
        Probe {
            id: "boot-kernel",
            label: "内核日志缓冲区 logcat -b kernel",
            command: "logcat -d -v threadtime -b kernel -t 800",
            ingest: true,
            dir: None,
        },
        Probe {
            id: "boot-dmesg",
            label: "内核环形缓冲 dmesg",
            command: "dmesg",
            ingest: true,
            dir: None,
        },
        Probe {
            id: "boot-pstore",
            label: "pstore 目录 /sys/fs/pstore",
            command: "ls -1 /sys/fs/pstore",
            ingest: false,
            dir: Some("/sys/fs/pstore"),
        },
        Probe {
            id: "boot-last-kmsg",
            label: "上次内核日志 /proc/last_kmsg",
            command: "cat /proc/last_kmsg",
            ingest: true,
            dir: None,
        },
        Probe {
            id: "boot-props",
            label: "启动属性 sys.boot_completed / init.svc.bootanim",
            command: "getprop | grep -E 'sys.boot_completed|init.svc.bootanim|ro.boot.verifiedbootstate'",
            ingest: false,
            dir: None,
        },
    ]
}

/// Crash-log probes, in the order they are worth reading.
///
/// The logcat buffers come first because they need no privileges; the directories
/// follow, since their files are read one by one.
pub fn crash_probes() -> (r: &'static [Probe])
    ensures
        r@ == crash_list(),
{
    let r: &'static [Probe] = &[
        Probe {
            id: "crash-buffer",
            label: "崩溃缓冲区 logcat -b crash",
            command: "logcat -d -v threadtime -b crash",
            ingest: true,
            dir: None,
        },
        Probe {
            id: "crash-events",
            label: "事件缓冲区（am_crash / am_anr / am_proc_died）",
            command: "logcat -d -v threadtime -b events -t 500",
            ingest: true,
            dir: None,
        },
        Probe {
            id: "crash-kernel",
            label: "内核日志缓冲区 logcat -b kernel",
            // logcat gives the kernel ring without root; `dmesg` usually does not.
            command: "logcat -d -v threadtime -b kernel -t 800",
            ingest: true,
            dir: None,
        },
        Probe {
            id: "crash-context",
            label: "崩溃前上下文（main + system）",
            command: "logcat -d -v threadtime -b main,system -t 800",
            ingest: true,
            dir: None,
        },
        Probe {
            id: "tombstone-dir",
            label: "墓碑目录 /data/tombstones",
            command: "ls -1 /data/tombstones",
            ingest: false,
            dir: Some("/data/tombstones"),
        },
        Probe {
            id: "dropbox-dir",
            label: "系统崩溃归档 /data/system/dropbox",
            command: "ls -1 /data/system/dropbox",
            ingest: false,
            dir: Some("/data/system/dropbox"),
        },
        Probe {
            id: "anr-dir",
            label: "ANR 轨迹目录 /data/anr",
            command: "ls -1 /data/anr",
            ingest: false,
            dir: Some("/data/anr"),
        },
    ];
    assert(r@ =~= crash_list());
    r
}

/// Recovery-mode probes.
///
/// Recovery has no `logcat`: its history lives in the recovery log, in that of the
/// previous session and in the kernel ring.
pub fn recovery_probes() -> (r: &'static [Probe])
    ensures
        r@ == recovery_list(),
{
    let r: &'static [Probe] = &[
        Probe {
            id: "recovery-log",
            label: "Recovery 主日志 /tmp/recovery.log",
            command: "cat /tmp/recovery.log",
            ingest: true,
            dir: None,
        },
        Probe {
            id: "recovery-last-log",
            label: "上次 Recovery 日志 /cache/recovery/last_log",
            command: "cat /cache/recovery/last_log",
            ingest: true,
            dir: None,
        },
        Probe {
            id: "recovery-kernel",
            label: "内核环形缓冲 dmesg",
            command: "dmesg",
            ingest: true,
            dir: None,
        },
        Probe {
            id: "recovery-pstore",
            label: "pstore 目录 /sys/fs/pstore",
            command: "ls -1 /sys/fs/pstore",
            ingest: false,
            dir: Some("/sys/fs/pstore"),
        },
    ];
    assert(r@ =~= recovery_list());
    r
}

/// Boot-log probes: the first snapshot, taken before polling starts.
pub fn boot_probes() -> (r: &'static [Probe])
    ensures
        r@ == boot_list(),
{
    let r: &'static [Probe] = &[
        Probe {
            id: "boot-kernel",
            label: "内核日志缓冲区 logcat -b kernel",
            command: "logcat -d -v threadtime -b kernel -t 800",
            ingest: true,
            dir: None,
        },
        Probe {
            id: "boot-dmesg",
            label: "内核环形缓冲 dmesg",
            command: "dmesg",
            ingest: true,
            dir: None,
        },
        Probe {
            id: "boot-pstore",
            label: "pstore 目录 /sys/fs/pstore",
            command: "ls -1 /sys/fs/pstore",
            ingest: false,
            dir: Some("/sys/fs/pstore"),
        },
        Probe {
            id: "boot-last-kmsg",
            label: "上次内核日志 /proc/last_kmsg",
            command: "cat /proc/last_kmsg",
            ingest: true,
            dir: None,
        },
        Probe {
            id: "boot-props",
            label: "启动属性 sys.boot_completed / init.svc.bootanim",
            command: "getprop | grep -E 'sys.boot_completed|init.svc.bootanim|ro.boot.verifiedbootstate'",
            ingest: false,
            dir: None,
        },
    ];
    assert(r@ =~= boot_list());
    r
}

/// `pstore` files worth reading, most useful first.
pub const PSTORE_FILES: [&'static str; 4] = [
    "console-ramoops-0",
    "console-ramoops",
    "pmsg-ramoops-0",
    "dmesg-ramoops-0",
];

/// Files to try when a directory could not be listed.
pub open spec fn fallback_files(probe_id: Seq<char>) -> Seq<Seq<char>> {
    if probe_id == "boot-pstore"@ || probe_id == "recovery-pstore"@ {
        views(PSTORE_FILES@)
    } else {
        seq![]
    }
}

/// Files to try when a directory probe could not be listed.
///
/// The kernel fixes the names under pstore, and reading one may work where listing
/// is refused. Other names are made per crash, so guessing them would only add noise.
pub fn known_files(probe_id: &str) -> (r: &'static [&'static str])
    ensures
        views(r@) == fallback_files(probe_id@),
{
    if str_eq(probe_id, "boot-pstore") || str_eq(probe_id, "recovery-pstore") {
        &PSTORE_FILES
    } else {
        let r: &'static [&'static str] = &[];
        assert(views(r@) =~= seq![]);
        r
    }
}

/// The diagnosis of an output whose stderr is given in lower case.
pub open spec fn diagnosis(stdout: Seq<char>, stderr: Seq<char>, code: i32) -> ProbeStatus {
    let silent = trim(stdout, Class::Space).len() == 0;
    if !silent && code == 0 {
        ProbeStatus::Found
    } else if contains(stderr, "dmesg_restrict"@) || contains(stderr, "klogctl"@) || contains(
        stderr,
        "operation not permitted"@,
    ) {
        ProbeStatus::Restricted
    } else if mentions(stderr, denial_phrases()) {
        ProbeStatus::Denied
    } else if contains(stderr, "no such file or directory"@) || contains(stderr, "not found"@) {
        ProbeStatus::Missing
    } else if silent {
        if trim(stderr, Class::Space).len() == 0 {
            ProbeStatus::Empty
        } else {
            ProbeStatus::Failed
        }
    } else {
        ProbeStatus::Found
    }
}

/// Classifies an output whose stderr is in lower case already.
pub fn classify_lower(stdout: &[char], stderr: &[char], code: i32) -> (r: ProbeStatus)
    ensures
        r == diagnosis(stdout@, stderr@, code),
{
    let silent: bool = trim_of(stdout, Class::Space).len() == 0;
    if !silent && code == 0 {
        return ProbeStatus::Found;
    }
    if contains_word(stderr, "dmesg_restrict") || contains_word(stderr, "klogctl") || contains_word(
        stderr,
        "operation not permitted",
    ) {
        return ProbeStatus::Restricted;
    }
    if denied_lower(stderr) {
        return ProbeStatus::Denied;
    }
    if contains_word(stderr, "no such file or directory") || contains_word(stderr, "not found") {
        return ProbeStatus::Missing;
    }
    if silent {
        // Silence without an explanation is "nothing here", whatever the exit code.
        return if trim_of(stderr, Class::Space).len() == 0 {
            ProbeStatus::Empty
        } else {
            ProbeStatus::Failed
        };
    }
    // Data arrived despite a non-zero exit: `logcat -d` does this routinely.
    ProbeStatus::Found
}

/// Classifies probe output.
///
/// Only stderr is searched: log text may hold the words of a refusal.
pub fn classify_output(output: &ExecOutput) -> (r: ProbeStatus)
    ensures
        r == diagnosis(output@.stdout, lowercase(output@.stderr), output@.code),
        vstd::utf8::is_ascii_chars(output@.stderr) ==> r == diagnosis(
            output@.stdout,
            ascii_lower(output@.stderr),
            output@.code,
        ),
{
    let stdout: Vec<char> = chars_of(output.stdout.as_str());
    let stderr: Vec<char> = lower_chars(output.stderr.as_str());
    classify_lower(stdout.as_slice(), stderr.as_slice(), output.code)
}

/// A probe that succeeded with data is found, whatever its output says.
pub proof fn law_success_with_data_is_found(stdout: Seq<char>, stderr: Seq<char>)
    requires
        trim(stdout, Class::Space).len() > 0,
    ensures
        diagnosis(stdout, stderr, 0) == ProbeStatus::Found,
{
}

/// The newest `limit` lines of a text, and whether anything was cut.
pub open spec fn tail_text(text: Seq<char>, limit: nat) -> (Seq<char>, bool) {
    let all = lines(text);
    if all.len() <= limit {
        (text, false)
    } else {
        (join(all.skip(all.len() - limit), "\n"@), true)
    }
}

/// Trims a probe's output to the newest `limit` lines.
pub fn tail_lines(text: &str, limit: usize) -> (r: (String, bool))
    ensures
        (r.0@, r.1) == tail_text(text@, limit as nat),
{
    let cs: Vec<char> = chars_of(text);
    let all: Vec<&[char]> = lines_of(cs.as_slice());
    let ghost every = views(all@);
    assert(every.len() == all@.len());
    if all.len() <= limit {
        return (text.to_owned(), false);
    }
    let cut: usize = all.len() - limit;
    let ghost wanted = every.skip(cut as int);
    let mut kept: Vec<String> = Vec::new();
    let mut i: usize = cut;
    while i < all.len()
        invariant
            cut <= i <= all@.len(),
            every == views(all@),
            wanted == every.skip(cut as int),
            views(kept@) =~= wanted.take(i - cut),
        decreases all@.len() - i,
    {
        let line: String = string_of(all[i]);
        proof {
            lemma_views_push(kept@, line);
            assert(wanted[i - cut] == every[i as int]);
        }
        kept.push(line);
        i += 1;
    }
    assert(views(kept@) =~= wanted);
    (join_strings(&kept, "\n"), true)
}

/// What is kept of an output has no more lines than allowed.
pub proof fn law_kept_output_is_bounded(text: Seq<char>, limit: nat)
    requires
        limit > 0,
    ensures
        lines(tail_text(text, limit).0).len() <= limit,
{
    let all = lines(text);
    if all.len() > limit {
        crate::text::split::lemma_joined_lines(text, all.len() - limit);
    }
}

/// A bare file name: not blank, without a slash and without white space.
pub open spec fn plain_name(name: Seq<char>) -> bool {
    name.len() > 0 && !any_in(name, Class::One('/')) && !any_in(name, Class::Space)
}

/// The bare names among lines, in order.
pub open spec fn plain_names(all: Seq<Seq<char>>) -> Seq<Seq<char>>
    decreases all.len(),
{
    if all.len() == 0 {
        seq![]
    } else {
        let name = trim(all.last(), Class::Space);
        if plain_name(name) {
            plain_names(all.drop_last()).push(name)
        } else {
            plain_names(all.drop_last())
        }
    }
}

/// The files of a listing that are worth reading: the last `limit` by name, the
/// last one first.
pub open spec fn worth_reading(stdout: Seq<char>, limit: nat) -> Seq<Seq<char>> {
    let names = texts_descending(plain_names(lines(stdout)));
    if names.len() <= limit {
        names
    } else {
        names.take(limit as int)
    }
}

/// The files of a directory listing worth reading, newest first.
///
/// A name with a separator or white space in it cannot be trusted as a file of the
/// directory.
pub fn listed_files(stdout: &str, limit: usize) -> (r: Vec<String>)
    ensures
        views(r@) == worth_reading(stdout@, limit as nat),
{
    let cs: Vec<char> = chars_of(stdout);
    let all: Vec<&[char]> = lines_of(cs.as_slice());
    let ghost every = views(all@);
    let mut names: Vec<String> = Vec::new();
    assert(views(names@) =~= seq![]);
    let mut i: usize = 0;
    while i < all.len()
        invariant
            i <= all@.len(),
            every == views(all@),
            views(names@) == plain_names(every.take(i as int)),
        decreases all@.len() - i,
    {
        assert(every.take(i as int + 1).drop_last() =~= every.take(i as int));
        assert(every.take(i as int + 1).last() == all@[i as int]@);
        let name: &[char] = trim_of(all[i], Class::Space);
        if name.len() > 0 && !any_of(name, Class::One('/')) && !any_of(name, Class::Space) {
            let text: String = string_of(name);
            proof {
                lemma_views_push(names@, text);
            }
            names.push(text);
        }
        i += 1;
    }
    assert(every.take(i as int) =~= every);
    let mut sorted: Vec<String> = sorted_descending(&names);
    let ghost before = sorted@;
    assert(views(before).len() == before.len());
    sorted.truncate(limit);
    assert(before.len() > limit ==> views(sorted@) =~= views(before).take(limit as int));
    sorted
}

} // verus!
