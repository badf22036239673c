//! Log sources: the collectors, what they run and how their output is decoded.
//!
//! A source owns its metadata ([`LogSourceSpec`]), the device-side command it runs
//! ([`LogSource::command`]) and the decoding of one line ([`LogSource::parse_line`]).

pub mod kernel;
pub mod laws;
pub mod logcat;
pub mod shell;
pub mod special;

pub use crate::source::kernel::{DmesgSource, KmsgSource};
pub use crate::source::logcat::LogcatSource;

use vstd::prelude::*;
use crate::error::{DroidLogError, ErrorView, Result};
use crate::parser::record::{LogRecord, RecordView};
use crate::source::special::SpecialSource;
use crate::text::chars::{chars_of, clone_strings, concat3, is_word, lemma_views_push, opt_view, views};
use crate::text::class::{ascii_lower, to_ascii_lower, Class};
use crate::text::number::{dec, u64_text};
use crate::text::search::{any_in, any_of, lemma_trim_plain, span_of, tail_span_of, trim, trim_of};
use crate::text::split::{join, join_strings};

verus! {

/// Identifies a collector.
#[derive(Debug, Clone, Copy, PartialEq, Eq, Hash, Structural)]
pub enum LogSourceKind {
    /// `logcat`: userspace logs.
    Logcat,
    /// `dmesg`: kernel ring buffer, printk text form.
    Dmesg,
    /// `/dev/kmsg`: kernel ring buffer, raw record form.
    Kmsg,
    /// Post-mortem: the previous crash's logcat and the kernel's persistent records.
    Crash,
    /// The current boot: `dmesg` polled as soon as the device appears.
    Boot,
    /// A device booted into Recovery: its shell, its logs and its persistent records.
    Recovery,
}

/// Every kind, in display order.
pub open spec fn all_kinds() -> Seq<LogSourceKind> {
    seq![
        LogSourceKind::Logcat,
        LogSourceKind::Dmesg,
        LogSourceKind::Kmsg,
        LogSourceKind::Crash,
        LogSourceKind::Boot,
        LogSourceKind::Recovery,
    ]
}

impl LogSourceKind {
    /// The lower case name.
    pub open spec fn name(self) -> Seq<char> {
        match self {
            LogSourceKind::Logcat => "logcat"@,
            LogSourceKind::Dmesg => "dmesg"@,
            LogSourceKind::Kmsg => "kmsg"@,
            LogSourceKind::Crash => "crash"@,
            LogSourceKind::Boot => "boot"@,
            LogSourceKind::Recovery => "recovery"@,
        }
    }

    /// The kind that a name stands for, whatever its case and the space around it.
    pub open spec fn named(name: Seq<char>) -> Option<LogSourceKind> {
        let word = ascii_lower(trim(name, Class::Space));
        if word == "logcat"@ {
            Some(LogSourceKind::Logcat)
        } else if word == "dmesg"@ {
            Some(LogSourceKind::Dmesg)
        } else if word == "kmsg"@ {
            Some(LogSourceKind::Kmsg)
        } else if word == "crash"@ || word == "crashlog"@ {
            Some(LogSourceKind::Crash)
        } else if word == "boot"@ || word == "bootlog"@ {
            Some(LogSourceKind::Boot)
        } else if word == "recovery"@ {
            Some(LogSourceKind::Recovery)
        } else {
            None
        }
    }

    /// A kind whose records come from several device reads.
    pub open spec fn orchestrated(self) -> bool {
        self == LogSourceKind::Crash || self == LogSourceKind::Boot || self == LogSourceKind::Recovery
    }

    /// Every kind, in display order.
    pub fn all() -> (r: [Self; 6])
        ensures
            r@ == all_kinds(),
    {
        let r: [LogSourceKind; 6] = [
            LogSourceKind::Logcat,
            LogSourceKind::Dmesg,
            LogSourceKind::Kmsg,
            LogSourceKind::Crash,
            LogSourceKind::Boot,
            LogSourceKind::Recovery,
        ];
        assert(r@ =~= all_kinds());
        r
    }

    /// Parses a kind name.
    pub fn from_name(name: &str) -> (r: Option<Self>)
        ensures
            r == LogSourceKind::named(name@),
    {
        let cs: Vec<char> = chars_of(name);
        let lowered: Vec<char> = to_ascii_lower(trim_of(cs.as_slice(), Class::Space));
        let word: &[char] = lowered.as_slice();
        if is_word(word, "logcat") {
            Some(LogSourceKind::Logcat)
        } else if is_word(word, "dmesg") {
            Some(LogSourceKind::Dmesg)
        } else if is_word(word, "kmsg") {
            Some(LogSourceKind::Kmsg)
        } else if is_word(word, "crash") || is_word(word, "crashlog") {
            Some(LogSourceKind::Crash)
        } else if is_word(word, "boot") || is_word(word, "bootlog") {
            Some(LogSourceKind::Boot)
        } else if is_word(word, "recovery") {
            Some(LogSourceKind::Recovery)
        } else {
            None
        }
    }

    /// The lower case name of the kind.
    pub fn to_string(&self) -> (r: String)
        ensures
            r@ == self.name(),
    {
        let name: &str = match self {
            LogSourceKind::Logcat => "logcat",
            LogSourceKind::Dmesg => "dmesg",
            LogSourceKind::Kmsg => "kmsg",
            LogSourceKind::Crash => "crash",
            LogSourceKind::Boot => "boot",
            LogSourceKind::Recovery => "recovery",
        };
        name.to_owned()
    }
}

/// The name of every kind is read back as that kind.
pub proof fn law_kind_names_read_back(kind: LogSourceKind)
    ensures
        LogSourceKind::named(kind.name()) == Some(kind),
{
    reveal_strlit("logcat");
    reveal_strlit("dmesg");
    reveal_strlit("kmsg");
    reveal_strlit("crash");
    reveal_strlit("crashlog");
    reveal_strlit("boot");
    reveal_strlit("bootlog");
    reveal_strlit("recovery");
    lemma_trim_plain(kind.name(), Class::Space);
    assert(ascii_lower(kind.name()) =~= kind.name());
}

/// logcat ring buffers, as `logcat -b` names them.
#[derive(Debug, Clone, Copy, PartialEq, Eq, Structural)]
pub enum LogcatBuffer {
    /// App and framework logs.
    Main,
    /// System server and low-level framework logs.
    System,
    /// Crash dumps.
    Crash,
    /// The binary event stream, rendered as text.
    Events,
    /// Radio and telephony.
    Radio,
    /// Kernel messages as relayed by logd.
    Kernel,
    /// Security and SELinux.
    Security,
    /// Statsd.
    Stats,
}

/// Buffers captured when the user expresses no preference.
pub open spec fn default_buffers() -> Seq<LogcatBuffer> {
    seq![LogcatBuffer::Main, LogcatBuffer::System, LogcatBuffer::Crash]
}

impl LogcatBuffer {
    pub open spec fn name(self) -> Seq<char> {
        match self {
            LogcatBuffer::Main => "main"@,
            LogcatBuffer::System => "system"@,
            LogcatBuffer::Crash => "crash"@,
            LogcatBuffer::Events => "events"@,
            LogcatBuffer::Radio => "radio"@,
            LogcatBuffer::Kernel => "kernel"@,
            LogcatBuffer::Security => "security"@,
            LogcatBuffer::Stats => "stats"@,
        }
    }

    /// The `-b` argument value.
    pub fn as_str(self) -> (r: &'static str)
        ensures
            r@ == self.name(),
    {
        match self {
            LogcatBuffer::Main => "main",
            LogcatBuffer::System => "system",
            LogcatBuffer::Crash => "crash",
            LogcatBuffer::Events => "events",
            LogcatBuffer::Radio => "radio",
            LogcatBuffer::Kernel => "kernel",
            LogcatBuffer::Security => "security",
            LogcatBuffer::Stats => "stats",
        }
    }

    /// Buffers captured when the user expresses no preference.
    pub fn defaults() -> (r: Vec<Self>)
        ensures
            r@ == default_buffers(),
    {
        let r: Vec<LogcatBuffer> = vec![LogcatBuffer::Main, LogcatBuffer::System, LogcatBuffer::Crash];
        assert(r@ =~= default_buffers());
        r
    }
}

/// Which decoder a source's output needs.
#[derive(Debug, Clone, Copy, PartialEq, Eq, Structural)]
pub enum ParserKind {
    /// `<date> <time> <pid> <tid> <level> <tag>: <message>`.
    LogcatThreadtime,
    /// `[<uptime>] <subsystem>: <message>`.
    KernelDmesg,
    /// `<level>,<seq>,<usec>,<flags>;<message>`.
    KernelKmsg,
    /// Either grammar, for collectors whose reads mix logcat and kernel text.
    Auto,
}

impl ParserKind {
    pub open spec fn label_text(self) -> Seq<char> {
        match self {
            ParserKind::LogcatThreadtime => "logcat threadtime"@,
            ParserKind::Auto => "自动识别"@,
            ParserKind::KernelDmesg => "kernel dmesg"@,
            ParserKind::KernelKmsg => "kernel kmsg"@,
        }
    }

    /// Short label for the user interface.
    pub fn label(self) -> (r: &'static str)
        ensures
            r@ == self.label_text(),
    {
        match self {
            ParserKind::LogcatThreadtime => "logcat threadtime",
            ParserKind::Auto => "自动识别",
            ParserKind::KernelDmesg => "kernel dmesg",
            ParserKind::KernelKmsg => "kernel kmsg",
        }
    }
}

/// Per-session settings handed to [`LogSource::command`].
#[derive(Debug)]
pub struct SourceOptions {
    /// Restrict to these process ids where the source supports it.
    pub pids: Vec<i32>,
    /// Restrict to this uid where the source supports it.
    ///
    /// A uid survives an app restart and a process id does not.
    pub uid: Option<i32>,
    /// Restrict to these logcat tags.
    pub tags: Vec<String>,
    /// logcat ring buffers; empty means [`LogcatBuffer::defaults`].
    pub buffers: Vec<LogcatBuffer>,
    /// Run this device-side command instead of the source's own.
    pub custom_command: Option<String>,
}

#[verifier::ext_equal]
pub struct OptionsView {
    pub pids: Seq<i32>,
    pub uid: Option<i32>,
    pub tags: Seq<Seq<char>>,
    pub buffers: Seq<LogcatBuffer>,
    pub custom_command: Option<Seq<char>>,
}

impl View for SourceOptions {
    type V = OptionsView;

    open spec fn view(&self) -> OptionsView {
        OptionsView {
            pids: self.pids@,
            uid: self.uid,
            tags: views(self.tags@),
            buffers: self.buffers@,
            custom_command: opt_view(self.custom_command),
        }
    }
}

impl OptionsView {
    pub open spec fn unrestricted() -> OptionsView {
        OptionsView { pids: seq![], uid: None, tags: seq![], buffers: seq![], custom_command: None }
    }

    /// The custom command without the space around it, unless nothing is left.
    pub open spec fn custom(self) -> Option<Seq<char>> {
        match self.custom_command {
            Some(text) => {
                let command = trim(text, Class::Space);
                if command.len() > 0 {
                    Some(command)
                } else {
                    None
                }
            },
            None => None,
        }
    }

    pub open spec fn effective_buffers(self) -> Seq<LogcatBuffer> {
        if self.buffers.len() == 0 {
            default_buffers()
        } else {
            self.buffers
        }
    }

    /// `-b` and the names of the buffers, joined by commas.
    pub open spec fn buffer_args(self) -> Seq<Seq<char>> {
        seq!["-b"@, join(self.effective_buffers().map_values(|b: LogcatBuffer| b.name()), ","@)]
    }
}

impl Default for SourceOptions {
    fn default() -> (r: Self)
        ensures
            r@ == OptionsView::unrestricted(),
    {
        let r: SourceOptions = SourceOptions {
            pids: Vec::new(),
            uid: None,
            tags: Vec::new(),
            buffers: Vec::new(),
            custom_command: None,
        };
        assert(r@ =~= OptionsView::unrestricted());
        r
    }
}

/// Copies a list of buffers.
fn copy_buffers(buffers: &Vec<LogcatBuffer>) -> (r: Vec<LogcatBuffer>)
    ensures
        r@ == buffers@,
{
    let mut r: Vec<LogcatBuffer> = Vec::new();
    let mut i: usize = 0;
    while i < buffers.len()
        invariant
            i <= buffers@.len(),
            r@ =~= buffers@.take(i as int),
        decreases buffers@.len() - i,
    {
        r.push(buffers[i]);
        i += 1;
    }
    r
}

/// Copies a list of numbers.
pub(crate) fn copy_numbers(numbers: &Vec<i32>) -> (r: Vec<i32>)
    ensures
        r@ == numbers@,
{
    let mut r: Vec<i32> = Vec::new();
    let mut i: usize = 0;
    while i < numbers.len()
        invariant
            i <= numbers@.len(),
            r@ =~= numbers@.take(i as int),
        decreases numbers@.len() - i,
    {
        r.push(numbers[i]);
        i += 1;
    }
    r
}

impl Clone for SourceOptions {
    fn clone(&self) -> (r: Self)
        ensures
            r@ == self@,
    {
        SourceOptions {
            pids: copy_numbers(&self.pids),
            uid: self.uid,
            tags: clone_strings(&self.tags),
            buffers: copy_buffers(&self.buffers),
            custom_command: crate::text::chars::clone_opt(&self.custom_command),
        }
    }
}

impl SourceOptions {
    /// Options that capture everything the source can produce.
    pub fn unrestricted() -> (r: Self)
        ensures
            r@ == OptionsView::unrestricted(),
    {
        SourceOptions::default()
    }

    /// The custom command, trimmed and rejected when blank.
    pub fn custom_command(&self) -> (r: Option<&str>)
        ensures
            match r {
                Some(command) => self@.custom() == Some(command@),
                None => self@.custom() is None,
            },
    {
        match &self.custom_command {
            Some(text) => {
                let cs: Vec<char> = chars_of(text.as_str());
                let front: usize = span_of(cs.as_slice(), Class::Space, true);
                let rest: &[char] = crate::text::search::skip(cs.as_slice(), front);
                let back: usize = tail_span_of(rest, Class::Space, true);
                if back == rest.len() {
                    None
                } else {
                    let end: usize = cs.len() - back;
                    assert(text@.subrange(front as int, end as int) =~= trim(text@, Class::Space));
                    Some(text.as_str().substring_char(front, end))
                }
            }
            None => None,
        }
    }

    /// The effective buffer list, falling back to the defaults.
    pub fn effective_buffers(&self) -> (r: Vec<LogcatBuffer>)
        ensures
            r@ == self@.effective_buffers(),
    {
        if self.buffers.len() == 0 {
            LogcatBuffer::defaults()
        } else {
            copy_buffers(&self.buffers)
        }
    }

    /// `-b main,system,crash`.
    pub fn buffer_args(&self) -> (r: Vec<String>)
        ensures
            views(r@) == self@.buffer_args(),
    {
        let buffers: Vec<LogcatBuffer> = self.effective_buffers();
        let ghost wanted = buffers@.map_values(|b: LogcatBuffer| b.name());
        let mut names: Vec<String> = Vec::new();
        let mut i: usize = 0;
        while i < buffers.len()
            invariant
                i <= buffers@.len(),
                wanted == buffers@.map_values(|b: LogcatBuffer| b.name()),
                views(names@) =~= wanted.take(i as int),
            decreases buffers@.len() - i,
        {
            let name: String = buffers[i].as_str().to_owned();
            proof {
                lemma_views_push(names@, name);
            }
            names.push(name);
            i += 1;
        }
        assert(views(names@) =~= wanted);
        let r: Vec<String> = vec!["-b".to_owned(), join_strings(&names, ",")];
        assert(views(r@) =~= self@.buffer_args());
        r
    }
}

/// Static metadata describing a source.
#[derive(Debug, Clone, Copy)]
pub struct LogSourceSpec {
    /// Stable identifier.
    pub kind: LogSourceKind,
    /// Short human label.
    pub label: &'static str,
    /// One-line explanation.
    pub description: &'static str,
    /// True when the source cannot work without `su`.
    pub requires_root: bool,
    /// True when the source only makes sense on a device in Recovery mode.
    pub requires_recovery: bool,
    /// The command run when no options are given.
    pub default_command: &'static str,
    /// Which decoder the output needs.
    pub parser: ParserKind,
    /// Whether a custom command is honoured for this source.
    pub supports_custom_command: bool,
    /// Where the records come from.
    pub origin: &'static str,
}

/// The metadata of each kind.
pub open spec fn spec_of(kind: LogSourceKind) -> LogSourceSpec {
    match kind {
        LogSourceKind::Logcat => LogSourceSpec {
            kind: LogSourceKind::Logcat,
            label: "logcat",
            description: "用户态日志：应用、框架与系统服务",
            requires_root: false,
            requires_recovery: false,
            default_command: "logcat -v threadtime -b main,system,crash",
            parser: ParserKind::LogcatThreadtime,
            supports_custom_command: true,
            origin: "logd",
        },
        LogSourceKind::Dmesg => LogSourceSpec {
            kind: LogSourceKind::Dmesg,
            label: "dmesg",
            description: "内核环形缓冲区（printk 文本格式）",
            requires_root: true,
            requires_recovery: false,
            default_command: "dmesg -w",
            parser: ParserKind::KernelDmesg,
            supports_custom_command: true,
            origin: "dmesg",
        },
        LogSourceKind::Kmsg => LogSourceSpec {
            kind: LogSourceKind::Kmsg,
            label: "kmsg",
            description: "内核环形缓冲区（/dev/kmsg 结构化记录格式，含内核时间戳）",
            requires_root: true,
            requires_recovery: false,
            default_command: "cat /dev/kmsg",
            parser: ParserKind::KernelKmsg,
            supports_custom_command: true,
            origin: "/dev/kmsg",
        },
        LogSourceKind::Crash => LogSourceSpec {
            kind: LogSourceKind::Crash,
            label: "崩溃日志",
            description: "上次崩溃：logcat -L 与 pstore / last_kmsg 持久化记录",
            requires_root: false,
            requires_recovery: false,
            default_command: "logcat -L -d; cat /sys/fs/pstore/console-ramoops-0; cat /proc/last_kmsg",
            parser: ParserKind::Auto,
            supports_custom_command: false,
            origin: "logcat -L / pstore / last_kmsg",
        },
        LogSourceKind::Boot => LogSourceSpec {
            kind: LogSourceKind::Boot,
            label: "开机日志",
            description: "本次开机：设备一出现就轮询 dmesg，抢在缓冲区被覆写之前",
            requires_root: false,
            requires_recovery: false,
            default_command: "dmesg",
            parser: ParserKind::Auto,
            supports_custom_command: false,
            origin: "dmesg (polled)",
        },
        LogSourceKind::Recovery => LogSourceSpec {
            kind: LogSourceKind::Recovery,
            label: "Recovery 日志",
            description: "Recovery 模式：dmesg、logcat -d、/tmp/recovery.log 与 pstore",
            requires_root: false,
            requires_recovery: true,
            default_command: "dmesg; logcat -d; cat /tmp/recovery.log; cat /sys/fs/pstore/console-ramoops-0",
            parser: ParserKind::Auto,
            supports_custom_command: false,
            origin: "recovery shell / pstore",
        },
    }
}

/// All source metadata, in display order.
pub fn all_specs() -> (r: &'static [LogSourceSpec])
    ensures
        r@ == all_kinds().map_values(|kind: LogSourceKind| spec_of(kind)),
{
    let r: &'static [LogSourceSpec] = &[
        LogSourceSpec {
            kind: LogSourceKind::Logcat,
            label: "logcat",
            description: "用户态日志：应用、框架与系统服务",
            requires_root: false,
            requires_recovery: false,
            default_command: "logcat -v threadtime -b main,system,crash",
            parser: ParserKind::LogcatThreadtime,
            supports_custom_command: true,
            origin: "logd",
        },
        LogSourceSpec {
            kind: LogSourceKind::Dmesg,
            label: "dmesg",
            description: "内核环形缓冲区（printk 文本格式）",
            requires_root: true,
            requires_recovery: false,
            default_command: "dmesg -w",
            parser: ParserKind::KernelDmesg,
            supports_custom_command: true,
            origin: "dmesg",
        },
        LogSourceSpec {
            kind: LogSourceKind::Kmsg,
            label: "kmsg",
            description: "内核环形缓冲区（/dev/kmsg 结构化记录格式，含内核时间戳）",
            requires_root: true,
            requires_recovery: false,
            default_command: "cat /dev/kmsg",
            parser: ParserKind::KernelKmsg,
            supports_custom_command: true,
            origin: "/dev/kmsg",
        },
        LogSourceSpec {
            kind: LogSourceKind::Crash,
            label: "崩溃日志",
            description: "上次崩溃：logcat -L 与 pstore / last_kmsg 持久化记录",
            requires_root: false,
            requires_recovery: false,
            default_command: "logcat -L -d; cat /sys/fs/pstore/console-ramoops-0; cat /proc/last_kmsg",
            parser: ParserKind::Auto,
            supports_custom_command: false,
            origin: "logcat -L / pstore / last_kmsg",
        },
        LogSourceSpec {
            kind: LogSourceKind::Boot,
            label: "开机日志",
            description: "本次开机：设备一出现就轮询 dmesg，抢在缓冲区被覆写之前",
            requires_root: false,
            requires_recovery: false,
            default_command: "dmesg",
            parser: ParserKind::Auto,
            supports_custom_command: false,
            origin: "dmesg (polled)",
        },
        LogSourceSpec {
            kind: LogSourceKind::Recovery,
            label: "Recovery 日志",
            description: "Recovery 模式：dmesg、logcat -d、/tmp/recovery.log 与 pstore",
            requires_root: false,
            requires_recovery: true,
            default_command: "dmesg; logcat -d; cat /tmp/recovery.log; cat /sys/fs/pstore/console-ramoops-0",
            parser: ParserKind::Auto,
            supports_custom_command: false,
            origin: "recovery shell / pstore",
        },
    ];
    assert(r@ =~= all_kinds().map_values(|kind: LogSourceKind| spec_of(kind)));
    r
}

/// Metadata for one kind.
pub fn spec(kind: LogSourceKind) -> (r: &'static LogSourceSpec)
    ensures
        *r == spec_of(kind),
{
    let all: &'static [LogSourceSpec] = all_specs();
    match kind {
        LogSourceKind::Logcat => &all[0],
        LogSourceKind::Dmesg => &all[1],
        LogSourceKind::Kmsg => &all[2],
        LogSourceKind::Crash => &all[3],
        LogSourceKind::Boot => &all[4],
        LogSourceKind::Recovery => &all[5],
    }
}

/// A source's metadata, and whether the selected device can run it.
#[derive(Debug, Clone, Copy)]
pub struct SourceAvailability {
    /// The underlying metadata.
    pub spec: LogSourceSpec,
    /// False when the device lacks the privilege or the mode that the source needs.
    pub available: bool,
    /// Why it is unavailable, when it is.
    pub unavailable_reason: Option<&'static str>,
}

/// Reason reported when a rooted source is selected without root.
pub const ROOT_REQUIRED_REASON: &'static str = "需要切换到 Root 模式（su -c）";

/// Reason reported where the source and the device disagree about recovery mode.
pub const RECOVERY_REQUIRED_REASON: &'static str = "仅当设备处于 Recovery 模式时可用";

impl SourceAvailability {
    /// Marks a spec available.
    pub fn available(spec: LogSourceSpec) -> (r: Self)
        ensures
            r == (SourceAvailability { spec, available: true, unavailable_reason: None }),
    {
        SourceAvailability { spec, available: true, unavailable_reason: None }
    }

    /// Marks a spec unavailable with an explanation.
    pub fn unavailable(spec: LogSourceSpec, reason: &'static str) -> (r: Self)
        ensures
            r == (SourceAvailability { spec, available: false, unavailable_reason: Some(reason) }),
    {
        SourceAvailability { spec, available: false, unavailable_reason: Some(reason) }
    }
}

/// Whether a device can run a source. A device in recovery mode has no logcat, so only
/// the recovery collector works there, and it works nowhere else. The wrong mode is
/// named before the missing privilege.
pub open spec fn availability_of(spec: LogSourceSpec, root_available: bool, recovery: bool) -> SourceAvailability {
    if spec.requires_recovery != recovery {
        SourceAvailability { spec, available: false, unavailable_reason: Some(RECOVERY_REQUIRED_REASON) }
    } else if spec.requires_root && !root_available {
        SourceAvailability { spec, available: false, unavailable_reason: Some(ROOT_REQUIRED_REASON) }
    } else {
        SourceAvailability { spec, available: true, unavailable_reason: None }
    }
}

/// Availability of every source for a device with the given root capability, in or out
/// of recovery mode.
pub fn availability(root_available: bool, recovery: bool) -> (r: Vec<SourceAvailability>)
    ensures
        r@ == all_kinds().map_values(
            |kind: LogSourceKind| availability_of(spec_of(kind), root_available, recovery),
        ),
{
    let specs: &'static [LogSourceSpec] = all_specs();
    let mut r: Vec<SourceAvailability> = Vec::new();
    let mut i: usize = 0;
    while i < specs.len()
        invariant
            i <= specs@.len(),
            r@.len() == i,
            forall|j: int| 0 <= j < i ==> #[trigger] r@[j] == availability_of(specs@[j], root_available, recovery),
        decreases specs@.len() - i,
    {
        let spec: LogSourceSpec = specs[i];
        r.push(
            if spec.requires_recovery != recovery {
                SourceAvailability::unavailable(spec, RECOVERY_REQUIRED_REASON)
            } else if spec.requires_root && !root_available {
                SourceAvailability::unavailable(spec, ROOT_REQUIRED_REASON)
            } else {
                SourceAvailability::available(spec)
            },
        );
        i += 1;
    }
    r
}

/// In recovery mode the recovery collector is available and nothing else is, and the
/// mode is the reason. Outside of it every other source is available that does not lack
/// root. An unavailable source says why.
pub proof fn law_availability(kind: LogSourceKind, root_available: bool, recovery: bool)
    ensures
        ({
            let spec = spec_of(kind);
            let entry = availability_of(spec, root_available, recovery);
            &&& spec.kind == kind
            &&& entry.spec == spec
            &&& recovery ==> entry.available == (kind == LogSourceKind::Recovery)
            &&& recovery && kind != LogSourceKind::Recovery ==> entry.unavailable_reason == Some(
                RECOVERY_REQUIRED_REASON,
            )
            &&& !recovery ==> entry.available == (kind != LogSourceKind::Recovery && (spec.requires_root
                ==> root_available))
            &&& !recovery && kind == LogSourceKind::Recovery ==> entry.unavailable_reason == Some(
                RECOVERY_REQUIRED_REASON,
            )
            &&& !recovery && !entry.available && kind != LogSourceKind::Recovery ==> entry.unavailable_reason == Some(
                ROOT_REQUIRED_REASON,
            )
            &&& entry.available == (entry.unavailable_reason is None)
        }),
{
}

/// The command to run: a custom one where there is one, else the source's own.
pub open spec fn command_or(options: OptionsView, default_command: Seq<char>) -> Seq<char> {
    match options.custom() {
        Some(custom) => custom,
        None => default_command,
    }
}

/// The device-side command of a source under these options.
pub open spec fn command_of(kind: LogSourceKind, options: OptionsView) -> Seq<char> {
    match kind {
        LogSourceKind::Logcat => command_or(options, crate::source::logcat::logcat_command(options)),
        LogSourceKind::Dmesg => command_or(options, crate::source::kernel::DMESG_COMMAND@),
        LogSourceKind::Kmsg => command_or(options, crate::source::kernel::KMSG_COMMAND@),
        _ => spec_of(kind).default_command@,
    }
}

/// The record that a source makes of a line.
pub open spec fn line_record(
    kind: LogSourceKind,
    line: Seq<char>,
    seq: u64,
    received_at_ms: u64,
) -> RecordView {
    let fields = match kind {
        LogSourceKind::Logcat => crate::parser::logcat::logcat_fields(line),
        LogSourceKind::Dmesg | LogSourceKind::Kmsg => crate::parser::kernel::either_kernel_fields(line, kind),
        _ => crate::parser::auto_fields(line),
    };
    crate::parser::record_of(kind, seq, line, fields, received_at_ms)
}

/// A collector implementation.
pub trait LogSource {
    /// The kind that this collector implements.
    spec fn source_kind(&self) -> LogSourceKind;

    /// Which kind this instance implements.
    fn kind(&self) -> (r: LogSourceKind)
        ensures
            r == self.source_kind(),
    ;

    /// Static metadata.
    fn spec(&self) -> (r: &'static LogSourceSpec)
        ensures
            *r == spec_of(self.source_kind()),
    ;

    /// The device-side shell command for this session.
    ///
    /// A custom command is honoured where the metadata says so, and only there.
    fn command(&self, options: &SourceOptions) -> (r: String)
        ensures
            r@ == command_of(self.source_kind(), options@),
    ;

    /// Decodes one line of output.
    ///
    /// A record comes back for every line: one that matches no grammar is kept as a
    /// raw record.
    fn parse_line(&self, line: &str, seq: u64) -> (r: LogRecord)
        ensures
            r@ == line_record(self.source_kind(), line@, seq, r.received_at_ms),
    ;
}

/// Any of the collectors.
pub enum Collector {
    Logcat(LogcatSource),
    Dmesg(DmesgSource),
    Kmsg(KmsgSource),
    Special(SpecialSource),
}

impl LogSource for Collector {
    open spec fn source_kind(&self) -> LogSourceKind {
        match self {
            Collector::Logcat(source) => source.source_kind(),
            Collector::Dmesg(source) => source.source_kind(),
            Collector::Kmsg(source) => source.source_kind(),
            Collector::Special(source) => source.source_kind(),
        }
    }

    fn kind(&self) -> (r: LogSourceKind) {
        match self {
            Collector::Logcat(source) => source.kind(),
            Collector::Dmesg(source) => source.kind(),
            Collector::Kmsg(source) => source.kind(),
            Collector::Special(source) => source.kind(),
        }
    }

    fn spec(&self) -> (r: &'static LogSourceSpec) {
        match self {
            Collector::Logcat(source) => source.spec(),
            Collector::Dmesg(source) => source.spec(),
            Collector::Kmsg(source) => source.spec(),
            Collector::Special(source) => source.spec(),
        }
    }

    fn command(&self, options: &SourceOptions) -> (r: String) {
        match self {
            Collector::Logcat(source) => source.command(options),
            Collector::Dmesg(source) => source.command(options),
            Collector::Kmsg(source) => source.command(options),
            Collector::Special(source) => source.command(options),
        }
    }

    fn parse_line(&self, line: &str, seq: u64) -> (r: LogRecord) {
        match self {
            Collector::Logcat(source) => source.parse_line(line, seq),
            Collector::Dmesg(source) => source.parse_line(line, seq),
            Collector::Kmsg(source) => source.parse_line(line, seq),
            Collector::Special(source) => source.parse_line(line, seq),
        }
    }
}

/// Builds the collector for `kind`.
pub fn build(kind: LogSourceKind) -> (r: Collector)
    ensures
        r.source_kind() == kind,
{
    match kind {
        LogSourceKind::Logcat => Collector::Logcat(LogcatSource::new()),
        LogSourceKind::Dmesg => Collector::Dmesg(DmesgSource::new()),
        LogSourceKind::Kmsg => Collector::Kmsg(KmsgSource::new()),
        LogSourceKind::Crash | LogSourceKind::Boot | LogSourceKind::Recovery => Collector::Special(
            SpecialSource::new(kind),
        ),
    }
}

/// A source honours a custom command exactly where its metadata says that it does.
pub proof fn law_custom_command_is_honoured_where_supported(kind: LogSourceKind, options: OptionsView)
    ensures
        spec_of(kind).supports_custom_command ==> command_of(kind, options) == command_or(
            options,
            command_of(kind, OptionsView { custom_command: None, ..options }),
        ),
        !spec_of(kind).supports_custom_command ==> command_of(kind, options) == spec_of(kind).default_command@,
{
    let plain = OptionsView { custom_command: None, ..options };
    assert(plain.custom() is None);
    assert(crate::source::logcat::logcat_command(plain) == crate::source::logcat::logcat_command(options));
}

/// The default command of a source is the one that is run when no options are given.
pub proof fn law_default_commands_are_run(kind: LogSourceKind)
    ensures
        command_of(kind, OptionsView::unrestricted()) == spec_of(kind).default_command@,
{
    let plain = OptionsView::unrestricted();
    assert(plain.custom() is None);
    if kind == LogSourceKind::Logcat {
        crate::source::logcat::lemma_plain_logcat();
    }
}

/// Whatever the source, the record of a line keeps the line.
pub proof fn law_sources_keep_every_line(kind: LogSourceKind, line: Seq<char>, seq: u64, received_at_ms: u64)
    ensures
        ({
            let record = line_record(kind, line, seq, received_at_ms);
            &&& record.raw == line
            &&& record.seq == seq
            &&& record.source == kind
            &&& !record.parsed ==> record.fields.message == line
        }),
{
}

/// The command to run, preferring a custom one.
pub fn effective_command(options: &SourceOptions, default_command: &str) -> (r: String)
    ensures
        r@ == command_or(options@, default_command@),
{
    match options.custom_command() {
        Some(custom) => custom.to_owned(),
        None => default_command.to_owned(),
    }
}

/// Longest custom command accepted, in characters.
pub const MAX_CUSTOM_COMMAND_LEN: usize = 512;

/// Why a custom command is refused, if it is.
pub open spec fn custom_command_fault(command: Seq<char>) -> Option<Seq<char>> {
    if trim(command, Class::Space).len() == 0 {
        Some("自定义命令不能为空"@)
    } else if command.len() > MAX_CUSTOM_COMMAND_LEN {
        Some("自定义命令过长（上限 "@ + dec(MAX_CUSTOM_COMMAND_LEN as nat) + " 字符）"@)
    } else if any_in(command, Class::One('\0')) || any_in(command, Class::One('\n')) || any_in(
        command,
        Class::One('\r'),
    ) {
        Some("自定义命令不能包含空字符或换行"@)
    } else {
        None
    }
}

/// Validates a user-supplied device-side command before it is run.
///
/// Running arbitrary diagnostics is the point of a custom command; only a value
/// that cannot be a single command line is rejected.
pub fn validate_custom_command(command: &str) -> (r: Result<()>)
    ensures
        match r {
            Ok(_) => custom_command_fault(command@) is None,
            Err(error) => custom_command_fault(command@) matches Some(reason) && error@
                == ErrorView::InvalidInput(reason),
        },
{
    let cs: Vec<char> = chars_of(command);
    let text: &[char] = cs.as_slice();
    if trim_of(text, Class::Space).len() == 0 {
        return Err(DroidLogError::InvalidInput("自定义命令不能为空".to_owned()));
    }
    if text.len() > MAX_CUSTOM_COMMAND_LEN {
        let limit: String = u64_text(MAX_CUSTOM_COMMAND_LEN as u64);
        return Err(DroidLogError::InvalidInput(concat3("自定义命令过长（上限 ", limit.as_str(), " 字符）")));
    }
    if any_of(text, Class::One('\0')) || any_of(text, Class::One('\n')) || any_of(text, Class::One('\r')) {
        return Err(DroidLogError::InvalidInput("自定义命令不能包含空字符或换行".to_owned()));
    }
    Ok(())
}

/// Resolves a source name.
pub fn parse_kind(name: &str) -> (r: Result<LogSourceKind>)
    ensures
        match r {
            Ok(kind) => LogSourceKind::named(name@) == Some(kind),
            Err(error) => LogSourceKind::named(name@) is None && error@ == ErrorView::UnknownSource(name@),
        },
{
    match LogSourceKind::from_name(name) {
        Some(kind) => Ok(kind),
        None => Err(DroidLogError::UnknownSource(name.to_owned())),
    }
}

/// A custom command is refused exactly where it is blank, longer than 512 characters, or
/// more than one line.
pub proof fn law_which_commands_are_refused(command: Seq<char>)
    ensures
        custom_command_fault(command) is None <==> {
            &&& exists|i: int| 0 <= i < command.len() && !crate::text::class::is_space(#[trigger] command[i])
            &&& command.len() <= 512
            &&& forall|i: int|
                0 <= i < command.len() ==> (#[trigger] command[i]) != '\0' && command[i] != '\n' && command[i] != '\r'
        },
{
    lemma_blank(command);
    if any_in(command, Class::One('\0')) {
        let i = choose|i: int| 0 <= i < command.len() && Class::One('\0').has(#[trigger] command[i]);
        assert(command[i] == '\0');
    }
    if any_in(command, Class::One('\n')) {
        let i = choose|i: int| 0 <= i < command.len() && Class::One('\n').has(#[trigger] command[i]);
        assert(command[i] == '\n');
    }
    if any_in(command, Class::One('\r')) {
        let i = choose|i: int| 0 <= i < command.len() && Class::One('\r').has(#[trigger] command[i]);
        assert(command[i] == '\r');
    }
    if exists|i: int|
        0 <= i < command.len() && ((#[trigger] command[i]) == '\0' || command[i] == '\n' || command[i] == '\r') {
        let i = choose|i: int|
            0 <= i < command.len() && ((#[trigger] command[i]) == '\0' || command[i] == '\n' || command[i] == '\r');
        assert(Class::One(command[i]).has(command[i]));
    }
}

pub(crate) proof fn lemma_blank(s: Seq<char>)
    ensures
        trim(s, Class::Space).len() > 0 <==> exists|i: int|
            0 <= i < s.len() && !crate::text::class::is_space(#[trigger] s[i]),
{
    let k = Class::Space;
    crate::text::search::lemma_span(s, k, true);
    let n = crate::text::search::span(s, k, true);
    let t = s.skip(n);
    crate::text::search::lemma_tail_span(t, k, true);
    let m = crate::text::search::tail_span(t, k, true);
    if n < s.len() {
        assert(!crate::text::class::is_space(s[n]));
        assert(t[0] == s[n]);
        if m == t.len() {
            assert(k.has(t[0]));
        }
    } else {
        assert forall|i: int| 0 <= i < s.len() implies crate::text::class::is_space(#[trigger] s[i]) by {
            assert(k.has(s[i]));
        }
    }
}

} // verus!
