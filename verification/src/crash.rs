//! Crash classification: what kind of failure a log line describes.
//!
//! The families are tried most specific first: an `lmkd` message that also speaks
//! of a watchdog is a low-memory kill, and a dying `system_server` that prints a
//! fatal signal is a system-server crash rather than a native one.

use vstd::prelude::*;
use crate::parser::record::{LogLevel, LogRecord, RecordView};
use crate::text::chars::{push_text, str_eq, views};
use crate::text::class::{ascii_lower, lower_chars, lowercase};
use crate::text::search::{contains, contains_word};

verus! {

/// The failure families that are marked and listed.
#[derive(Debug, Clone, Copy, PartialEq, Eq, Hash, Structural)]
pub enum CrashKind {
    /// The kernel halted: `Kernel panic - not syncing`.
    KernelPanic,
    /// A kernel fault that was handled: `Unable to handle kernel`, `Internal error`.
    Oops,
    /// A kernel assertion: `kernel BUG at`, `BUG: unable to handle`.
    KernelBug,
    /// A watchdog expired: a lockup, a bite.
    Watchdog,
    /// A process was killed to reclaim memory: `lowmemorykiller`, `lmkd`.
    LowMemory,
    /// An app did not answer in time.
    Anr,
    /// `system_server` died, which restarts the Android runtime.
    SystemServer,
    /// A native process crashed: `Fatal signal`, tombstone, backtrace.
    NativeCrash,
}

/// Every kind, in display order.
pub open spec fn all_crash_kinds() -> Seq<CrashKind> {
    seq![
        CrashKind::KernelPanic,
        CrashKind::Oops,
        CrashKind::KernelBug,
        CrashKind::Watchdog,
        CrashKind::LowMemory,
        CrashKind::Anr,
        CrashKind::SystemServer,
        CrashKind::NativeCrash,
    ]
}

impl CrashKind {
    pub open spec fn id_text(self) -> Seq<char> {
        match self {
            CrashKind::KernelPanic => "kernelPanic"@,
            CrashKind::Oops => "oops"@,
            CrashKind::KernelBug => "kernelBug"@,
            CrashKind::Watchdog => "watchdog"@,
            CrashKind::LowMemory => "lowMemory"@,
            CrashKind::Anr => "anr"@,
            CrashKind::SystemServer => "systemServer"@,
            CrashKind::NativeCrash => "nativeCrash"@,
        }
    }

    pub open spec fn label_text(self) -> Seq<char> {
        match self {
            CrashKind::KernelPanic => "内核 Panic"@,
            CrashKind::Oops => "内核 Oops"@,
            CrashKind::KernelBug => "内核 BUG"@,
            CrashKind::Watchdog => "看门狗"@,
            CrashKind::LowMemory => "低内存杀进程"@,
            CrashKind::Anr => "ANR 无响应"@,
            CrashKind::SystemServer => "系统服务崩溃"@,
            CrashKind::NativeCrash => "Native 崩溃"@,
        }
    }

    pub open spec fn letter(self) -> char {
        match self {
            CrashKind::KernelPanic => 'P',
            CrashKind::Oops => 'O',
            CrashKind::KernelBug => 'B',
            CrashKind::Watchdog => 'W',
            CrashKind::LowMemory => 'M',
            CrashKind::Anr => 'A',
            CrashKind::SystemServer => 'S',
            CrashKind::NativeCrash => 'N',
        }
    }

    /// Stable identifier.
    pub fn id(self) -> (r: &'static str)
        ensures
            r@ == self.id_text(),
    {
        match self {
            CrashKind::KernelPanic => "kernelPanic",
            CrashKind::Oops => "oops",
            CrashKind::KernelBug => "kernelBug",
            CrashKind::Watchdog => "watchdog",
            CrashKind::LowMemory => "lowMemory",
            CrashKind::Anr => "anr",
            CrashKind::SystemServer => "systemServer",
            CrashKind::NativeCrash => "nativeCrash",
        }
    }

    /// Human label for the crash panel.
    pub fn label(self) -> (r: &'static str)
        ensures
            r@ == self.label_text(),
    {
        match self {
            CrashKind::KernelPanic => "内核 Panic",
            CrashKind::Oops => "内核 Oops",
            CrashKind::KernelBug => "内核 BUG",
            CrashKind::Watchdog => "看门狗",
            CrashKind::LowMemory => "低内存杀进程",
            CrashKind::Anr => "ANR 无响应",
            CrashKind::SystemServer => "系统服务崩溃",
            CrashKind::NativeCrash => "Native 崩溃",
        }
    }

    /// Short badge for the marker column of a log table.
    pub fn badge(self) -> (r: char)
        ensures
            r == self.letter(),
    {
        match self {
            CrashKind::KernelPanic => 'P',
            CrashKind::Oops => 'O',
            CrashKind::KernelBug => 'B',
            CrashKind::Watchdog => 'W',
            CrashKind::LowMemory => 'M',
            CrashKind::Anr => 'A',
            CrashKind::SystemServer => 'S',
            CrashKind::NativeCrash => 'N',
        }
    }

    /// The label of the kind.
    pub fn to_string(&self) -> (r: String)
        ensures
            r@ == self.label_text(),
    {
        self.label().to_owned()
    }

    /// Every kind, in display order.
    pub fn all() -> (r: [Self; 8])
        ensures
            r@ == all_crash_kinds(),
    {
        let r: [CrashKind; 8] = [
            CrashKind::KernelPanic,
            CrashKind::Oops,
            CrashKind::KernelBug,
            CrashKind::Watchdog,
            CrashKind::LowMemory,
            CrashKind::Anr,
            CrashKind::SystemServer,
            CrashKind::NativeCrash,
        ];
        assert(r@ =~= all_crash_kinds());
        r
    }

    /// Parses an identifier produced by [`CrashKind::id`].
    pub fn from_name(name: &str) -> (r: Option<Self>)
        ensures
            match r {
                Some(kind) => kind.id_text() == name@,
                None => forall|kind: CrashKind| #[trigger] kind.id_text() != name@,
            },
    {
        let kinds: [CrashKind; 8] = CrashKind::all();
        let mut i: usize = 0;
        while i < 8
            invariant
                i <= 8,
                kinds@ == all_crash_kinds(),
                forall|j: int| 0 <= j < i ==> #[trigger] all_crash_kinds()[j].id_text() != name@,
            decreases 8 - i,
        {
            if str_eq(kinds[i].id(), name) {
                return Some(kinds[i]);
            }
            i += 1;
        }
        assert forall|kind: CrashKind| #[trigger] kind.id_text() != name@ by {
            lemma_all_crash_kinds(kind);
            let j = choose|j: int| 0 <= j < 8 && all_crash_kinds()[j] == kind;
            assert(all_crash_kinds()[j].id_text() != name@);
        }
        None
    }
}

/// The list of kinds leaves none out.
proof fn lemma_all_crash_kinds(kind: CrashKind)
    ensures
        exists|j: int| 0 <= j < 8 && all_crash_kinds()[j] == kind,
{
    let all = all_crash_kinds();
    match kind {
        CrashKind::KernelPanic => assert(all[0] == kind),
        CrashKind::Oops => assert(all[1] == kind),
        CrashKind::KernelBug => assert(all[2] == kind),
        CrashKind::Watchdog => assert(all[3] == kind),
        CrashKind::LowMemory => assert(all[4] == kind),
        CrashKind::Anr => assert(all[5] == kind),
        CrashKind::SystemServer => assert(all[6] == kind),
        CrashKind::NativeCrash => assert(all[7] == kind),
    }
}

/// No two kinds share an identifier or a badge.
pub proof fn law_crash_ids_are_unique(a: CrashKind, b: CrashKind)
    ensures
        a.id_text() == b.id_text() ==> a == b,
        a.letter() == b.letter() ==> a == b,
{
    reveal_strlit("kernelPanic");
    reveal_strlit("oops");
    reveal_strlit("kernelBug");
    reveal_strlit("watchdog");
    reveal_strlit("lowMemory");
    reveal_strlit("anr");
    reveal_strlit("systemServer");
    reveal_strlit("nativeCrash");
    if a != b {
        let x = a.id_text();
        let y = b.id_text();
        assert(x.len() != y.len() || x[0] != y[0]);
    }
}

/// Some phrase of the list stands in the text.
pub open spec fn mentions(text: Seq<char>, phrases: Seq<Seq<char>>) -> bool {
    exists|i: int| 0 <= i < phrases.len() && contains(text, #[trigger] phrases[i])
}

pub open spec fn panic_phrases() -> Seq<Seq<char>> {
    seq!["kernel panic"@, "panic - not syncing"@, "panic_on_oops"@, "end kernel panic"@]
}

pub open spec fn server_death_phrases() -> Seq<Seq<char>> {
    seq![
        "watchdog killing system process"@,
        "system_server died"@,
        "system_server crash"@,
        "crash of system server"@,
        "system server crash"@,
    ]
}

pub open spec fn death_phrases() -> Seq<Seq<char>> {
    seq!["fatal signal"@, "fatal exception"@, "died"@, "sigsegv"@, "abort"@]
}

pub open spec fn low_memory_phrases() -> Seq<Seq<char>> {
    seq!["lowmemorykiller"@, "lmkd"@, "low memory killer"@, "killing '"@, "to free "@]
}

pub open spec fn reclaim_phrases() -> Seq<Seq<char>> {
    seq!["kill"@, "free"@, "reclaim"@, "oom"@, "adj:"@, "lmkd"@, "lowmemorykiller"@]
}

pub open spec fn watchdog_phrases() -> Seq<Seq<char>> {
    seq![
        "watchdog bite"@,
        "watchdog bite!"@,
        "hard lockup"@,
        "soft lockup"@,
        "watchdog:"@,
        "watchdog reset"@,
        "*** watchdog"@,
    ]
}

pub open spec fn kernel_bug_phrases() -> Seq<Seq<char>> {
    seq!["kernel bug at"@, "bug_on"@, "bug: unable to handle"@]
}

pub open spec fn oops_phrases() -> Seq<Seq<char>> {
    seq![
        "unable to handle kernel"@,
        "internal error: oops"@,
        "oops: "@,
        "bug: soft lockup"@,
        "kernel oops"@,
    ]
}

pub open spec fn anr_phrases() -> Seq<Seq<char>> {
    seq![
        "anr in "@,
        "am_anr:"@,
        "anr: "@,
        "application not responding"@,
        "input dispatching timed out"@,
    ]
}

pub open spec fn native_phrases() -> Seq<Seq<char>> {
    seq![
        "fatal signal"@,
        "fatal exception"@,
        "tombstone"@,
        "backtrace:"@,
        "signal 11 (sigsegv)"@,
        "signal 6 (sigabrt)"@,
        "signal 7 (sigbus)"@,
        "beginning of crash"@,
    ]
}

/// A kernel that halted; a clean boot says in so many words that there was none.
pub open spec fn tells_panic(text: Seq<char>) -> bool {
    mentions(text, panic_phrases()) && !contains(text, "no kernel panic"@)
}

pub open spec fn tells_server_death(text: Seq<char>) -> bool {
    mentions(text, server_death_phrases()) || (contains(text, "system_server"@) && mentions(text, death_phrases()))
}

pub open spec fn tells_low_memory(text: Seq<char>) -> bool {
    mentions(text, low_memory_phrases()) && mentions(text, reclaim_phrases())
}

/// The family of a text in lower case: the first that it speaks of.
pub open spec fn crash_kind(text: Seq<char>) -> Option<CrashKind> {
    if tells_panic(text) {
        Some(CrashKind::KernelPanic)
    } else if tells_server_death(text) {
        Some(CrashKind::SystemServer)
    } else if tells_low_memory(text) {
        Some(CrashKind::LowMemory)
    } else if mentions(text, watchdog_phrases()) {
        Some(CrashKind::Watchdog)
    } else if mentions(text, kernel_bug_phrases()) {
        Some(CrashKind::KernelBug)
    } else if mentions(text, oops_phrases()) {
        Some(CrashKind::Oops)
    } else if mentions(text, anr_phrases()) {
        Some(CrashKind::Anr)
    } else if mentions(text, native_phrases()) {
        Some(CrashKind::NativeCrash)
    } else {
        None
    }
}

/// True when `text` contains any of `phrases`.
fn any<const N: usize>(text: &[char], phrases: &[&str; N]) -> (r: bool)
    ensures
        r == mentions(text@, views(phrases@)),
{
    let mut i: usize = 0;
    while i < N
        invariant
            i <= N,
            phrases@.len() == N,
            forall|j: int| 0 <= j < i ==> !contains(text@, #[trigger] views(phrases@)[j]),
        decreases N - i,
    {
        if contains_word(text, phrases[i]) {
            assert(contains(text@, views(phrases@)[i as int]));
            return true;
        }
        i += 1;
    }
    false
}

fn says_panic(text: &[char]) -> (r: bool)
    ensures
        r == tells_panic(text@),
{
    let phrases: [&str; 4] = ["kernel panic", "panic - not syncing", "panic_on_oops", "end kernel panic"];
    assert(views(phrases@) =~= panic_phrases());
    any(text, &phrases) && !contains_word(text, "no kernel panic")
}

fn says_server_death(text: &[char]) -> (r: bool)
    ensures
        r == tells_server_death(text@),
{
    let phrases: [&str; 5] = [
        "watchdog killing system process",
        "system_server died",
        "system_server crash",
        "crash of system server",
        "system server crash",
    ];
    assert(views(phrases@) =~= server_death_phrases());
    let deaths: [&str; 5] = ["fatal signal", "fatal exception", "died", "sigsegv", "abort"];
    assert(views(deaths@) =~= death_phrases());
    any(text, &phrases) || (contains_word(text, "system_server") && any(text, &deaths))
}

fn says_low_memory(text: &[char]) -> (r: bool)
    ensures
        r == tells_low_memory(text@),
{
    let phrases: [&str; 5] = ["lowmemorykiller", "lmkd", "low memory killer", "killing '", "to free "];
    assert(views(phrases@) =~= low_memory_phrases());
    let reclaims: [&str; 7] = ["kill", "free", "reclaim", "oom", "adj:", "lmkd", "lowmemorykiller"];
    assert(views(reclaims@) =~= reclaim_phrases());
    any(text, &phrases) && any(text, &reclaims)
}

/// Classifies a text that is in lower case already.
pub fn classify_lower(text: &[char]) -> (r: Option<CrashKind>)
    ensures
        r == crash_kind(text@),
{
    if says_panic(text) {
        return Some(CrashKind::KernelPanic);
    }
    if says_server_death(text) {
        return Some(CrashKind::SystemServer);
    }
    if says_low_memory(text) {
        return Some(CrashKind::LowMemory);
    }
    let watchdog: [&str; 7] = [
        "watchdog bite",
        "watchdog bite!",
        "hard lockup",
        "soft lockup",
        "watchdog:",
        "watchdog reset",
        "*** watchdog",
    ];
    assert(views(watchdog@) =~= watchdog_phrases());
    if any(text, &watchdog) {
        return Some(CrashKind::Watchdog);
    }
    let bug: [&str; 3] = ["kernel bug at", "bug_on", "bug: unable to handle"];
    assert(views(bug@) =~= kernel_bug_phrases());
    if any(text, &bug) {
        return Some(CrashKind::KernelBug);
    }
    let oops: [&str; 5] = [
        "unable to handle kernel",
        "internal error: oops",
        "oops: ",
        "bug: soft lockup",
        "kernel oops",
    ];
    assert(views(oops@) =~= oops_phrases());
    if any(text, &oops) {
        return Some(CrashKind::Oops);
    }
    let anr: [&str; 5] = [
        "anr in ",
        "am_anr:",
        "anr: ",
        "application not responding",
        "input dispatching timed out",
    ];
    assert(views(anr@) =~= anr_phrases());
    if any(text, &anr) {
        return Some(CrashKind::Anr);
    }
    let native: [&str; 8] = [
        "fatal signal",
        "fatal exception",
        "tombstone",
        "backtrace:",
        "signal 11 (sigsegv)",
        "signal 6 (sigabrt)",
        "signal 7 (sigbus)",
        "beginning of crash",
    ];
    assert(views(native@) =~= native_phrases());
    if any(text, &native) {
        return Some(CrashKind::NativeCrash);
    }
    None
}

/// Classifies one log line, or `None` when it describes nothing unusual.
///
/// The case of the text does not matter.
pub fn classify(text: &str) -> (r: Option<CrashKind>)
    ensures
        r == crash_kind(lowercase(text@)),
        vstd::utf8::is_ascii_chars(text@) ==> r == crash_kind(ascii_lower(text@)),
{
    let lower: Vec<char> = lower_chars(text);
    classify_lower(lower.as_slice())
}

/// The text by which a record is classified: its tag and its message, and the whole
/// line where no grammar read it.
pub open spec fn record_text(record: RecordView) -> Seq<char> {
    let tag = match record.fields.tag {
        Some(tag) => tag + " "@,
        None => seq![],
    };
    let tail = if record.parsed { seq![] } else { " "@ + record.raw };
    tag + record.fields.message + tail
}

/// Classifies a record by its tag and message.
///
/// The level does not decide the kind: the same kill is logged at different levels
/// on different builds.
pub fn classify_record(record: &LogRecord) -> (r: Option<CrashKind>)
    ensures
        r == crash_kind(lowercase(record_text(record@))),
        vstd::utf8::is_ascii_chars(record_text(record@)) ==> r == crash_kind(ascii_lower(record_text(record@))),
{
    let mut text: String = String::new();
    if let Some(tag) = &record.tag {
        push_text(&mut text, tag.as_str());
        push_text(&mut text, " ");
    }
    push_text(&mut text, record.message.as_str());
    if !record.parsed {
        push_text(&mut text, " ");
        push_text(&mut text, record.raw.as_str());
    }
    assert(text@ =~= record_text(record@));
    classify(text.as_str())
}

pub open spec fn denial_phrases() -> Seq<Seq<char>> {
    seq![
        "permission denied"@,
        "operation not permitted"@,
        "not permitted"@,
        "access denied"@,
        "dmesg_restrict"@,
    ]
}

pub open spec fn clean_boot_phrases() -> Seq<Seq<char>> {
    seq!["no kernel panic"@, "no crash"@, "no valid data"@, "record is empty"@]
}

/// Whether a text in lower case says that access was refused.
pub fn denied_lower(text: &[char]) -> (r: bool)
    ensures
        r == mentions(text@, denial_phrases()),
{
    let phrases: [&str; 5] = [
        "permission denied",
        "operation not permitted",
        "not permitted",
        "access denied",
        "dmesg_restrict",
    ];
    assert(views(phrases@) =~= denial_phrases());
    any(text, &phrases)
}

/// True when a stderr text says the read was refused rather than absent.
///
/// A refusal calls for root; an absent file means that the kernel keeps no such
/// record.
pub fn looks_like_permission_denied(stderr: &str) -> (r: bool)
    ensures
        r == mentions(lowercase(stderr@), denial_phrases()),
        vstd::utf8::is_ascii_chars(stderr@) ==> r == mentions(ascii_lower(stderr@), denial_phrases()),
{
    let lower: Vec<char> = lower_chars(stderr);
    denied_lower(lower.as_slice())
}

/// Whether a text in lower case says that there is no crash to report.
pub fn clean_boot_lower(text: &[char]) -> (r: bool)
    ensures
        r == mentions(text@, clean_boot_phrases()),
{
    let phrases: [&str; 4] = ["no kernel panic", "no crash", "no valid data", "record is empty"];
    assert(views(phrases@) =~= clean_boot_phrases());
    any(text, &phrases)
}

/// True when the message is the kernel telling that it has no crash to report.
pub fn is_clean_boot_note(text: &str) -> (r: bool)
    ensures
        r == mentions(lowercase(text@), clean_boot_phrases()),
        vstd::utf8::is_ascii_chars(text@) ==> r == mentions(ascii_lower(text@), clean_boot_phrases()),
{
    let lower: Vec<char> = lower_chars(text);
    clean_boot_lower(lower.as_slice())
}

/// Whether a level is worth scanning: all but the two most verbose ones, and the
/// unknown one above all, since unparsed kernel lines have it.
pub open spec fn scannable(level: LogLevel) -> bool {
    level != LogLevel::Verbose && level != LogLevel::Debug
}

/// Whether a record's level is worth scanning at all.
pub fn is_scannable(level: LogLevel) -> (r: bool)
    ensures
        r == scannable(level),
{
    level != LogLevel::Verbose && level != LogLevel::Debug
}

/// The more specific family wins: a panic outranks everything that is said beside
/// it, the death of `system_server` outranks the signal that it prints, and a kill
/// by `lmkd` outranks the watchdog that it mentions. A note of a clean boot is
/// never a panic.
pub proof fn law_specific_family_wins(text: Seq<char>)
    ensures
        contains(text, "no kernel panic"@) ==> crash_kind(text) != Some(CrashKind::KernelPanic),
        contains(text, "kernel panic"@) && !contains(text, "no kernel panic"@) ==> crash_kind(text) == Some(
            CrashKind::KernelPanic,
        ),
        !tells_panic(text) && contains(text, "system_server"@) && contains(text, "fatal signal"@) ==> crash_kind(text)
            == Some(CrashKind::SystemServer),
        !tells_panic(text) && !tells_server_death(text) && contains(text, "lmkd"@) ==> crash_kind(text) == Some(
            CrashKind::LowMemory,
        ),
{
    assert(panic_phrases()[0] == "kernel panic"@);
    assert(death_phrases()[0] == "fatal signal"@);
    assert(low_memory_phrases()[1] == "lmkd"@);
    assert(reclaim_phrases()[5] == "lmkd"@);
}

/// Says that the kernel gave up.
pub open spec fn has_panic_phrase(t: Seq<char>) -> bool {
    ||| contains(t, "kernel panic"@)
    ||| contains(t, "panic - not syncing"@)
    ||| contains(t, "panic_on_oops"@)
    ||| contains(t, "end kernel panic"@)
}

/// Says that the system server died.
pub open spec fn has_server_phrase(t: Seq<char>) -> bool {
    ||| contains(t, "watchdog killing system process"@)
    ||| contains(t, "system_server died"@)
    ||| contains(t, "system_server crash"@)
    ||| contains(t, "crash of system server"@)
    ||| contains(t, "system server crash"@)
}

/// Says that some process died.
pub open spec fn has_death_phrase(t: Seq<char>) -> bool {
    ||| contains(t, "fatal signal"@)
    ||| contains(t, "fatal exception"@)
    ||| contains(t, "died"@)
    ||| contains(t, "sigsegv"@)
    ||| contains(t, "abort"@)
}

/// Says who kills for memory.
pub open spec fn has_killer_phrase(t: Seq<char>) -> bool {
    ||| contains(t, "lowmemorykiller"@)
    ||| contains(t, "lmkd"@)
    ||| contains(t, "low memory killer"@)
    ||| contains(t, "killing '"@)
    ||| contains(t, "to free "@)
}

/// Says that something stopped answering.
pub open spec fn has_watchdog_phrase(t: Seq<char>) -> bool {
    ||| contains(t, "watchdog bite"@)
    ||| contains(t, "hard lockup"@)
    ||| contains(t, "soft lockup"@)
    ||| contains(t, "watchdog:"@)
    ||| contains(t, "watchdog reset"@)
    ||| contains(t, "*** watchdog"@)
}

/// Says that an assertion in the kernel failed.
pub open spec fn has_bug_phrase(t: Seq<char>) -> bool {
    ||| contains(t, "kernel bug at"@)
    ||| contains(t, "bug_on"@)
    ||| contains(t, "bug: unable to handle"@)
}

/// Says that the kernel survived a fault.
pub open spec fn has_oops_phrase(t: Seq<char>) -> bool {
    ||| contains(t, "unable to handle kernel"@)
    ||| contains(t, "internal error: oops"@)
    ||| contains(t, "oops: "@)
    ||| contains(t, "bug: soft lockup"@)
    ||| contains(t, "kernel oops"@)
}

/// Says that an application stopped answering.
pub open spec fn has_anr_phrase(t: Seq<char>) -> bool {
    ||| contains(t, "anr in "@)
    ||| contains(t, "am_anr:"@)
    ||| contains(t, "anr: "@)
    ||| contains(t, "application not responding"@)
    ||| contains(t, "input dispatching timed out"@)
}

/// Says that a native process crashed.
pub open spec fn has_native_phrase(t: Seq<char>) -> bool {
    ||| contains(t, "fatal signal"@)
    ||| contains(t, "fatal exception"@)
    ||| contains(t, "tombstone"@)
    ||| contains(t, "backtrace:"@)
    ||| contains(t, "signal 11 (sigsegv)"@)
    ||| contains(t, "signal 6 (sigabrt)"@)
    ||| contains(t, "signal 7 (sigbus)"@)
    ||| contains(t, "beginning of crash"@)
}

proof fn lemma_longer(t: Seq<char>, a: Seq<char>, short: Seq<char>, b: Seq<char>)
    ensures
        contains(t, a + short + b) ==> contains(t, short),
{
    let long = a + short + b;
    if contains(t, long) {
        crate::text::laws::law_contains_is_infix(t, long);
        let (x, y) = choose|x: Seq<char>, y: Seq<char>| t == #[trigger] (x + long + y);
        assert(t =~= (x + a) + short + (b + y));
        crate::text::laws::lemma_contains_infix(x + a, short, b + y);
    }
}

proof fn lemma_mentions(t: Seq<char>, phrases: Seq<Seq<char>>, i: int)
    requires
        0 <= i < phrases.len(),
        contains(t, phrases[i]),
    ensures
        mentions(t, phrases),
{
}

/// Whoever kills for memory is told of as killing or freeing.
proof fn lemma_killers_kill(t: Seq<char>)
    requires
        has_killer_phrase(t),
    ensures
        mentions(t, reclaim_phrases()),
{
    let r = reclaim_phrases();
    reveal_strlit("kill");
    reveal_strlit("free");
    reveal_strlit("low memory killer");
    reveal_strlit("killing '");
    reveal_strlit("to free ");
    assert(r[0] == "kill"@ && r[1] == "free"@ && r[5] == "lmkd"@ && r[6] == "lowmemorykiller"@);
    assert("low memory killer"@ =~= "low memory killer"@.take(11) + "kill"@ + "low memory killer"@.skip(15));
    lemma_longer(t, "low memory killer"@.take(11), "kill"@, "low memory killer"@.skip(15));
    assert("killing '"@ =~= Seq::<char>::empty() + "kill"@ + "killing '"@.skip(4));
    lemma_longer(t, seq![], "kill"@, "killing '"@.skip(4));
    assert("to free "@ =~= "to free "@.take(3) + "free"@ + "to free "@.skip(7));
    lemma_longer(t, "to free "@.take(3), "free"@, "to free "@.skip(7));
    if contains(t, "lmkd"@) {
        lemma_mentions(t, r, 5);
    } else if contains(t, "lowmemorykiller"@) {
        lemma_mentions(t, r, 6);
    } else if contains(t, "to free "@) {
        lemma_mentions(t, r, 1);
    } else {
        lemma_mentions(t, r, 0);
    }
}

/// No false alarm: a family is named only where the text holds a phrase that tells of
/// it, and a text that holds no such phrase of any family is no crash.
pub proof fn law_no_false_alarms(t: Seq<char>)
    ensures
        crash_kind(t) == Some(CrashKind::KernelPanic) ==> has_panic_phrase(t) && !contains(t, "no kernel panic"@),
        crash_kind(t) == Some(CrashKind::SystemServer) ==> has_server_phrase(t) || (contains(t, "system_server"@)
            && has_death_phrase(t)),
        crash_kind(t) == Some(CrashKind::LowMemory) ==> has_killer_phrase(t),
        crash_kind(t) == Some(CrashKind::Watchdog) ==> has_watchdog_phrase(t),
        crash_kind(t) == Some(CrashKind::KernelBug) ==> has_bug_phrase(t),
        crash_kind(t) == Some(CrashKind::Oops) ==> has_oops_phrase(t),
        crash_kind(t) == Some(CrashKind::Anr) ==> has_anr_phrase(t),
        crash_kind(t) == Some(CrashKind::NativeCrash) ==> has_native_phrase(t),
        !has_panic_phrase(t) && !has_server_phrase(t) && !contains(t, "system_server"@) && !has_killer_phrase(t)
            && !has_watchdog_phrase(t) && !has_bug_phrase(t) && !has_oops_phrase(t) && !has_anr_phrase(t)
            && !has_native_phrase(t) ==> crash_kind(t) is None,
{
    lemma_watchdog_bite(t);
    assert(mentions(t, panic_phrases()) ==> has_panic_phrase(t)) by {
        if mentions(t, panic_phrases()) {
            let i = choose|i: int| 0 <= i < panic_phrases().len() && contains(t, #[trigger] panic_phrases()[i]);
            assert(i == 0 || i == 1 || i == 2 || i == 3);
        }
    }
    assert(mentions(t, server_death_phrases()) ==> has_server_phrase(t)) by {
        if mentions(t, server_death_phrases()) {
            let i = choose|i: int|
                0 <= i < server_death_phrases().len() && contains(t, #[trigger] server_death_phrases()[i]);
            assert(i == 0 || i == 1 || i == 2 || i == 3 || i == 4);
        }
    }
    assert(mentions(t, death_phrases()) ==> has_death_phrase(t)) by {
        if mentions(t, death_phrases()) {
            let i = choose|i: int| 0 <= i < death_phrases().len() && contains(t, #[trigger] death_phrases()[i]);
            assert(i == 0 || i == 1 || i == 2 || i == 3 || i == 4);
        }
    }
    assert(mentions(t, low_memory_phrases()) ==> has_killer_phrase(t)) by {
        if mentions(t, low_memory_phrases()) {
            let i = choose|i: int|
                0 <= i < low_memory_phrases().len() && contains(t, #[trigger] low_memory_phrases()[i]);
            assert(i == 0 || i == 1 || i == 2 || i == 3 || i == 4);
        }
    }
    assert(mentions(t, watchdog_phrases()) ==> has_watchdog_phrase(t)) by {
        if mentions(t, watchdog_phrases()) {
            let i = choose|i: int| 0 <= i < watchdog_phrases().len() && contains(t, #[trigger] watchdog_phrases()[i]);
            assert(i == 0 || i == 1 || i == 2 || i == 3 || i == 4 || i == 5 || i == 6);
        }
    }
    assert(mentions(t, kernel_bug_phrases()) ==> has_bug_phrase(t)) by {
        if mentions(t, kernel_bug_phrases()) {
            let i = choose|i: int|
                0 <= i < kernel_bug_phrases().len() && contains(t, #[trigger] kernel_bug_phrases()[i]);
            assert(i == 0 || i == 1 || i == 2);
        }
    }
    assert(mentions(t, oops_phrases()) ==> has_oops_phrase(t)) by {
        if mentions(t, oops_phrases()) {
            let i = choose|i: int| 0 <= i < oops_phrases().len() && contains(t, #[trigger] oops_phrases()[i]);
            assert(i == 0 || i == 1 || i == 2 || i == 3 || i == 4);
        }
    }
    assert(mentions(t, anr_phrases()) ==> has_anr_phrase(t)) by {
        if mentions(t, anr_phrases()) {
            let i = choose|i: int| 0 <= i < anr_phrases().len() && contains(t, #[trigger] anr_phrases()[i]);
            assert(i == 0 || i == 1 || i == 2 || i == 3 || i == 4);
        }
    }
    assert(mentions(t, native_phrases()) ==> has_native_phrase(t)) by {
        if mentions(t, native_phrases()) {
            let i = choose|i: int| 0 <= i < native_phrases().len() && contains(t, #[trigger] native_phrases()[i]);
            assert(i == 0 || i == 1 || i == 2 || i == 3 || i == 4 || i == 5 || i == 6 || i == 7);
        }
    }
}

proof fn lemma_watchdog_bite(t: Seq<char>)
    ensures
        contains(t, "watchdog bite!"@) ==> contains(t, "watchdog bite"@),
{
    reveal_strlit("watchdog bite!");
    reveal_strlit("watchdog bite");
    assert("watchdog bite!"@ =~= Seq::<char>::empty() + "watchdog bite"@ + seq!['!']);
    lemma_longer(t, seq![], "watchdog bite"@, seq!['!']);
}

/// No crash is missed: a text that holds a phrase of a family, and none that tells of a
/// family which matters more, is of that family.
pub proof fn law_no_crash_is_missed(t: Seq<char>)
    ensures
        ({
            let panic = has_panic_phrase(t) && !contains(t, "no kernel panic"@);
            let server = has_server_phrase(t) || (contains(t, "system_server"@) && has_death_phrase(t));
            let above_watchdog = panic || server || has_killer_phrase(t);
            let above_bug = above_watchdog || has_watchdog_phrase(t);
            let above_oops = above_bug || has_bug_phrase(t);
            let above_anr = above_oops || has_oops_phrase(t);
            let above_native = above_anr || has_anr_phrase(t);
            &&& panic ==> crash_kind(t) == Some(CrashKind::KernelPanic)
            &&& server && !panic ==> crash_kind(t) == Some(CrashKind::SystemServer)
            &&& has_killer_phrase(t) && !panic && !server ==> crash_kind(t) == Some(CrashKind::LowMemory)
            &&& has_watchdog_phrase(t) && !above_watchdog ==> crash_kind(t) == Some(CrashKind::Watchdog)
            &&& has_bug_phrase(t) && !above_bug ==> crash_kind(t) == Some(CrashKind::KernelBug)
            &&& has_oops_phrase(t) && !above_oops ==> crash_kind(t) == Some(CrashKind::Oops)
            &&& has_anr_phrase(t) && !above_anr ==> crash_kind(t) == Some(CrashKind::Anr)
            &&& has_native_phrase(t) && !above_native ==> crash_kind(t) == Some(CrashKind::NativeCrash)
        }),
{
    law_no_false_alarms(t);
    if has_killer_phrase(t) {
        lemma_killers_kill(t);
    }
    let p = panic_phrases();
    assert(has_panic_phrase(t) ==> contains(t, p[0]) || contains(t, p[1]) || contains(t, p[2]) || contains(t, p[3]));
    let p = server_death_phrases();
    assert(has_server_phrase(t) ==> contains(t, p[0]) || contains(t, p[1]) || contains(t, p[2]) || contains(t, p[3])
        || contains(t, p[4]));
    let p = death_phrases();
    assert(has_death_phrase(t) ==> contains(t, p[0]) || contains(t, p[1]) || contains(t, p[2]) || contains(t, p[3])
        || contains(t, p[4]));
    let p = low_memory_phrases();
    assert(has_killer_phrase(t) ==> contains(t, p[0]) || contains(t, p[1]) || contains(t, p[2]) || contains(t, p[3])
        || contains(t, p[4]));
    let p = watchdog_phrases();
    assert(has_watchdog_phrase(t) ==> contains(t, p[0]) || contains(t, p[2]) || contains(t, p[3]) || contains(t, p[4])
        || contains(t, p[5]) || contains(t, p[6]));
    let p = kernel_bug_phrases();
    assert(has_bug_phrase(t) ==> contains(t, p[0]) || contains(t, p[1]) || contains(t, p[2]));
    let p = oops_phrases();
    assert(has_oops_phrase(t) ==> contains(t, p[0]) || contains(t, p[1]) || contains(t, p[2]) || contains(t, p[3])
        || contains(t, p[4]));
    let p = anr_phrases();
    assert(has_anr_phrase(t) ==> contains(t, p[0]) || contains(t, p[1]) || contains(t, p[2]) || contains(t, p[3])
        || contains(t, p[4]));
    let p = native_phrases();
    assert(has_native_phrase(t) ==> contains(t, p[0]) || contains(t, p[1]) || contains(t, p[2]) || contains(t, p[3])
        || contains(t, p[4]) || contains(t, p[5]) || contains(t, p[6]) || contains(t, p[7]));
}

/// A record is searched in its tag and its message, and, where no grammar read it, in
/// its line: a phrase in any of them is in what is searched. Severity plays no part
/// beyond leaving out what is merely verbose.
pub proof fn law_records_are_searched_whole(record: RecordView, phrase: Seq<char>, level: LogLevel)
    ensures
        contains(record.fields.message, phrase) ==> contains(record_text(record), phrase),
        (record.fields.tag matches Some(tag) && contains(tag, phrase)) ==> contains(record_text(record), phrase),
        !record.parsed && contains(record.raw, phrase) ==> contains(record_text(record), phrase),
        scannable(level) == !(level == LogLevel::Verbose || level == LogLevel::Debug),
{
    let tag = match record.fields.tag {
        Some(tag) => tag + " "@,
        None => seq![],
    };
    let tail = if record.parsed { seq![] } else { " "@ + record.raw };
    let message = record.fields.message;
    let whole = record_text(record);
    if contains(message, phrase) {
        assert(whole =~= tag + message + tail);
        lemma_within(tag, message, tail, phrase);
    }
    if record.fields.tag is Some && contains(record.fields.tag->0, phrase) {
        assert(whole =~= Seq::<char>::empty() + record.fields.tag->0 + (" "@ + message + tail));
        lemma_within(seq![], record.fields.tag->0, " "@ + message + tail, phrase);
    }
    if !record.parsed && contains(record.raw, phrase) {
        assert(whole =~= (tag + message + " "@) + record.raw + Seq::<char>::empty());
        lemma_within(tag + message + " "@, record.raw, seq![], phrase);
    }
}

/// What is in a part is in the whole.
proof fn lemma_within(a: Seq<char>, part: Seq<char>, b: Seq<char>, phrase: Seq<char>)
    requires
        contains(part, phrase),
    ensures
        contains(a + part + b, phrase),
{
    crate::text::laws::law_contains_is_infix(part, phrase);
    let (x, y) = choose|x: Seq<char>, y: Seq<char>| part == #[trigger] (x + phrase + y);
    assert(a + part + b =~= (a + x) + phrase + (y + b));
    crate::text::laws::lemma_contains_infix(a + x, phrase, y + b);
}

/// What is searched of a record is its tag and its message, and its line only where the
/// line was not understood.
pub proof fn law_what_a_record_says(record: RecordView, tag: Seq<char>)
    ensures
        record.parsed && record.fields.tag == Some(tag) ==> record_text(record) == tag + seq![' ']
            + record.fields.message,
        record.parsed && record.fields.tag is None ==> record_text(record) == record.fields.message,
        !record.parsed && record.fields.tag is None ==> record_text(record) == record.fields.message + seq![' ']
            + record.raw,
{
    reveal_strlit(" ");
    assert(" "@ =~= seq![' ']);
    let message = record.fields.message;
    if record.parsed && record.fields.tag == Some(tag) {
        assert(record_text(record) =~= tag + seq![' '] + message);
    }
    if record.parsed && record.fields.tag is None {
        assert(record_text(record) =~= message);
    }
    if !record.parsed && record.fields.tag is None {
        assert(record_text(record) =~= message + seq![' '] + record.raw);
    }
}

} // verus!
