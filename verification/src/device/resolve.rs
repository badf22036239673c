//! Resolving "the app I care about" into the identities that a filter can use.
//!
//! A user types one thing, a process id, a package name or a uid, and it is turned
//! into all three:
//!
//! ```text
//! package --(dumpsys | cmd package list -U | /data/system/packages.list)--> uid
//! uid     --(ps -A)--> pids            package --(ps -A)--> pids (with pkg:remote)
//! pid     --(/proc/<pid>/cmdline)--> package
//! ```
//!
//! Process ids are not stable, so a resolution is kept for [`CACHE_TTL`] only. A
//! number may be a process id or a uid, and the live `ps` table decides which.

use vstd::prelude::*;
use crate::clock::now_ms;
use crate::device::probe::{
    dumpsys_uid, first_some, leading_number, leading_number_of, package_fault, parse_uid_from_dumpsys,
    validate_package,
};
use crate::error::{DroidLogError, ErrorView, Result};
use crate::executor::{ExecMode, ExecOutput, OutputView};
use crate::parser::logcat::{app_uid_of, app_uid_token};
use crate::parser::record::{LogRecord, RecordView};
use crate::source::copy_numbers;
use crate::text::chars::{
    chars_of, clone_opt, concat2, concat3, is_word, lemma_views_push, opt_eq, opt_view, string_of, views,
};
use crate::text::class::Class;
use crate::text::map::TextMap;
use crate::text::number::{dec_int, i32_of, i32_text, parse_i32};
use crate::text::order::{insert_unique, law_number_set, number_set, sorted_numbers, word_set};
use crate::text::search::{
    after_prefix, after_word, all_in, all_of, any_in, any_of, contains, contains_word, starts_with,
    starts_with_chars, trim, trim_of,
};
use crate::text::split::{
    join, join_strings, lines, lines_of, split, split_on, split_once_at, split_once_word, tokens, tokens_of,
};

verus! {

/// How long a resolution stays valid before it is recomputed, in milliseconds.
pub const CACHE_TTL: u64 = 30_000;

/// What the user typed.
#[derive(Debug, Clone, Copy, PartialEq, Eq, Structural)]
pub enum AppTargetKind {
    /// A process id.
    Pid,
    /// A Linux uid.
    Uid,
    /// An Android package name.
    Package,
}

impl AppTargetKind {
    pub open spec fn label_text(self) -> Seq<char> {
        match self {
            AppTargetKind::Pid => "PID"@,
            AppTargetKind::Uid => "UID"@,
            AppTargetKind::Package => "包名"@,
        }
    }

    /// Short label.
    pub fn label(self) -> (r: &'static str)
        ensures
            r@ == self.label_text(),
    {
        match self {
            AppTargetKind::Pid => "PID",
            AppTargetKind::Uid => "UID",
            AppTargetKind::Package => "包名",
        }
    }
}

/// How the captured stream was narrowed on the device, if at all.
///
/// Where logcat itself was told the uid, everything that a session produces belongs
/// to the app already.
#[derive(Debug, Clone, Copy, PartialEq, Eq, Structural)]
pub enum Prefilter {
    /// The device was told to filter by uid.
    Uid,
    /// The device was told to filter by process id.
    Pid,
    /// The filter runs entirely on the host.
    Host,
}

/// A resolved application, ready to be displayed and matched against.
#[derive(Debug)]
pub struct AppTarget {
    /// Exactly what the user typed.
    pub input: String,
    /// What the input was interpreted as.
    pub kind: AppTargetKind,
    /// Device the resolution was taken against.
    pub serial: String,
    /// Execution mode the resolution used.
    pub mode: ExecMode,
    /// Package name, when known.
    pub package: Option<String>,
    /// Uid, when known.
    pub uid: Option<i32>,
    /// Every live process of the app, including `pkg:remote` children.
    pub pids: Vec<i32>,
    /// False when the app is not installed or not running.
    pub found: bool,
    /// Why nothing was found.
    pub reason: Option<String>,
    /// Host time at which the resolution was taken.
    pub resolved_at_ms: u64,
    /// Device-side narrowing in effect for the current session.
    pub prefilter: Prefilter,
}

/// A resolved application.
#[verifier::ext_equal]
pub struct TargetView {
    pub input: Seq<char>,
    pub kind: AppTargetKind,
    pub serial: Seq<char>,
    pub mode: ExecMode,
    pub package: Option<Seq<char>>,
    pub uid: Option<i32>,
    pub pids: Seq<i32>,
    pub found: bool,
    pub reason: Option<Seq<char>>,
    pub resolved_at_ms: u64,
    pub prefilter: Prefilter,
}

impl View for AppTarget {
    type V = TargetView;

    open spec fn view(&self) -> TargetView {
        TargetView {
            input: self.input@,
            kind: self.kind,
            serial: self.serial@,
            mode: self.mode,
            package: opt_view(self.package),
            uid: self.uid,
            pids: self.pids@,
            found: self.found,
            reason: opt_view(self.reason),
            resolved_at_ms: self.resolved_at_ms,
            prefilter: self.prefilter,
        }
    }
}

impl Clone for AppTarget {
    fn clone(&self) -> (r: Self)
        ensures
            r@ == self@,
    {
        AppTarget {
            input: self.input.clone(),
            kind: self.kind,
            serial: self.serial.clone(),
            mode: self.mode,
            package: clone_opt(&self.package),
            uid: self.uid,
            pids: copy_numbers(&self.pids),
            found: self.found,
            reason: clone_opt(&self.reason),
            resolved_at_ms: self.resolved_at_ms,
            prefilter: self.prefilter,
        }
    }
}

impl TargetView {
    /// A target that resolved to nothing.
    pub open spec fn missing(
        input: Seq<char>,
        kind: AppTargetKind,
        serial: Seq<char>,
        mode: ExecMode,
        reason: Seq<char>,
        resolved_at_ms: u64,
    ) -> TargetView {
        TargetView {
            input,
            kind,
            serial,
            mode,
            package: None,
            uid: None,
            pids: seq![],
            found: false,
            reason: Some(reason),
            resolved_at_ms,
            prefilter: Prefilter::Host,
        }
    }

    /// Two resolutions describe the same thing.
    pub open spec fn same_identity(self, other: TargetView) -> bool {
        self.found == other.found && self.uid == other.uid && self.package == other.package && self.pids
            == other.pids
    }

    /// A record belongs to the application: nothing does where it was not found,
    /// everything does where the device narrowed by uid, and otherwise what shares
    /// its process, its uid or its package.
    pub open spec fn owns(self, record: RecordView) -> bool {
        self.found && (self.prefilter == Prefilter::Uid || (record.fields.pid matches Some(pid)
            && self.pids.contains(pid)) || (self.uid is Some && self.uid == record.fields.uid) || (
        self.package is Some && self.package == record.package))
    }

    /// What is known of the application, part by part.
    pub open spec fn summary_parts(self) -> Seq<Seq<char>> {
        let package = match self.package {
            Some(package) => seq![package],
            None => seq![],
        };
        let uid = match self.uid {
            Some(uid) => seq!["UID "@ + dec_int(uid as int)],
            None => seq![],
        };
        let pids = if self.pids.len() > 0 {
            seq!["PIDs ["@ + join(self.pids.map_values(|pid: i32| dec_int(pid as int)), ","@) + "]"@]
        } else {
            seq![]
        };
        let parts = package + uid + pids;
        if parts.len() == 0 {
            seq![self.input]
        } else {
            parts
        }
    }
}

/// The decimal spellings of numbers, joined.
fn join_numbers(numbers: &Vec<i32>, sep: &str) -> (r: String)
    ensures
        r@ == join(numbers@.map_values(|n: i32| dec_int(n as int)), sep@),
{
    let ghost wanted = numbers@.map_values(|n: i32| dec_int(n as int));
    let mut words: Vec<String> = Vec::new();
    let mut i: usize = 0;
    while i < numbers.len()
        invariant
            i <= numbers@.len(),
            wanted == numbers@.map_values(|n: i32| dec_int(n as int)),
            views(words@) =~= wanted.take(i as int),
        decreases numbers@.len() - i,
    {
        let word: String = i32_text(numbers[i]);
        proof {
            lemma_views_push(words@, word);
        }
        words.push(word);
        i += 1;
    }
    assert(views(words@) =~= wanted);
    join_strings(&words, sep)
}

/// Whether two lists of numbers are the same.
fn numbers_eq(a: &Vec<i32>, b: &Vec<i32>) -> (r: bool)
    ensures
        r == (a@ == b@),
{
    if a.len() != b.len() {
        return false;
    }
    let mut i: usize = 0;
    while i < a.len()
        invariant
            i <= a@.len(),
            a@.len() == b@.len(),
            forall|j: int| 0 <= j < i ==> a@[j] == b@[j],
        decreases a@.len() - i,
    {
        if a[i] != b[i] {
            return false;
        }
        i += 1;
    }
    assert(a@ =~= b@);
    true
}

fn has_number(numbers: &Vec<i32>, n: i32) -> (r: bool)
    ensures
        r == numbers@.contains(n),
{
    let mut i: usize = 0;
    while i < numbers.len()
        invariant
            i <= numbers@.len(),
            forall|j: int| 0 <= j < i ==> numbers@[j] != n,
        decreases numbers@.len() - i,
    {
        if numbers[i] == n {
            return true;
        }
        i += 1;
    }
    false
}

impl AppTarget {
    /// A target that resolved to nothing, with a reason.
    ///
    /// The host clock says when; everything else is fixed.
    pub fn missing(input: &str, kind: AppTargetKind, serial: &str, mode: ExecMode, reason: &str) -> (r: Self)
        ensures
            r@ == TargetView::missing(input@, kind, serial@, mode, reason@, r.resolved_at_ms),
    {
        AppTarget::missing_at(input, kind, serial, mode, reason, now_ms())
    }

    /// A target that resolved to nothing at `now`, with a reason.
    pub fn missing_at(
        input: &str,
        kind: AppTargetKind,
        serial: &str,
        mode: ExecMode,
        reason: &str,
        now: u64,
    ) -> (r: Self)
        ensures
            r@ == TargetView::missing(input@, kind, serial@, mode, reason@, now),
    {
        let r: AppTarget = AppTarget {
            input: input.to_owned(),
            kind,
            serial: serial.to_owned(),
            mode,
            package: None,
            uid: None,
            pids: Vec::new(),
            found: false,
            reason: Some(reason.to_owned()),
            resolved_at_ms: now,
            prefilter: Prefilter::Host,
        };
        assert(r@.pids =~= seq![]);
        r
    }

    /// True when this resolution describes the same thing as `other`: a new list of
    /// processes after a restart is worth telling, the same list is not.
    pub fn same_identity(&self, other: &Self) -> (r: bool)
        ensures
            r == self@.same_identity(other@),
    {
        self.found == other.found && self.uid == other.uid && opt_eq(&self.package, &other.package) && numbers_eq(
            &self.pids,
            &other.pids,
        )
    }

    /// One-line summary.
    pub fn summary(&self) -> (r: String)
        ensures
            r@ == join(self@.summary_parts(), " · "@),
    {
        let mut parts: Vec<String> = Vec::new();
        if let Some(package) = &self.package {
            parts.push(package.clone());
        }
        if let Some(uid) = self.uid {
            let number: String = i32_text(uid);
            parts.push(concat2("UID ", number.as_str()));
        }
        if self.pids.len() > 0 {
            let list: String = join_numbers(&self.pids, ",");
            parts.push(concat3("PIDs [", list.as_str(), "]"));
        }
        if parts.len() == 0 {
            parts.push(self.input.clone());
        }
        assert(views(parts@) =~= self@.summary_parts());
        join_strings(&parts, " · ")
    }

    /// Whether a record belongs to the targeted application.
    ///
    /// Any known identity that agrees is enough, because sources report different
    /// fields. An unresolved target must not silently show the whole device.
    pub fn matches(&self, record: &LogRecord) -> (r: bool)
        ensures
            r == self@.owns(record@),
    {
        if !self.found {
            return false;
        }
        if self.prefilter == Prefilter::Uid {
            return true;
        }
        if let Some(pid) = record.pid {
            if has_number(&self.pids, pid) {
                return true;
            }
        }
        if self.uid.is_some() && self.uid == record.uid {
            return true;
        }
        self.package.is_some() && opt_eq(&self.package, &record.package)
    }

    /// Marks the device-side narrowing that a session will use.
    pub fn set_prefilter(&mut self, prefilter: Prefilter)
        ensures
            final(self)@ == (TargetView { prefilter, ..old(self)@ }),
    {
        self.prefilter = prefilter;
    }
}

/// An unresolved target owns no record; one that the device narrowed by uid owns
/// every record.
pub proof fn law_targets_never_widen(target: TargetView, record: RecordView)
    ensures
        !target.found ==> !target.owns(record),
        target.found && target.prefilter == Prefilter::Uid ==> target.owns(record),
        target.owns(record) && target.prefilter != Prefilter::Uid ==> record.fields.pid is Some
            || record.fields.uid is Some || record.package is Some,
{
}

/// One row of `ps -A`.
#[derive(Debug, PartialEq, Eq)]
pub struct PsEntry {
    /// Process id.
    pub pid: i32,
    /// The USER column, e.g. `u0_a123`, `root`, `system`.
    pub user: String,
    /// The NAME column: a package, `pkg:remote`, or a native binary.
    pub name: String,
}

#[verifier::ext_equal]
pub struct RowView {
    pub pid: i32,
    pub user: Seq<char>,
    pub name: Seq<char>,
}

impl View for PsEntry {
    type V = RowView;

    open spec fn view(&self) -> RowView {
        RowView { pid: self.pid, user: self.user@, name: self.name@ }
    }
}

impl Clone for PsEntry {
    fn clone(&self) -> (r: Self)
        ensures
            r@ == self@,
    {
        PsEntry { pid: self.pid, user: self.user.clone(), name: self.name.clone() }
    }
}

/// The position of the first word that is `name`, or the number of words.
///
/// Whole words are compared, which keeps `PPID` from being read as `PID`.
pub open spec fn word_index(words: Seq<Seq<char>>, name: Seq<char>) -> int
    decreases words.len(),
{
    if words.len() == 0 || words[0] == name {
        0
    } else {
        1 + word_index(words.skip(1), name)
    }
}

/// A process state letter right behind a hexadecimal address.
pub open spec fn state_anchor(words: Seq<Seq<char>>, i: int) -> bool {
    words[i].len() == 1 && Class::StateLetter.has(words[i][0]) && all_in(words[i - 1], Class::HexDigit)
}

/// Where the name column starts: behind the last state letter at or before `i`.
///
/// The row is scanned from its end, because `ps` leaves a column blank that has no
/// value, and a row then has fewer words than the header.
pub open spec fn name_index(words: Seq<Seq<char>>, i: int) -> Option<int>
    decreases i,
{
    if i < 1 {
        None
    } else if state_anchor(words, i) {
        Some(i + 1)
    } else {
        name_index(words, i - 1)
    }
}

/// The row of a line, given where the header has its columns.
pub open spec fn ps_row(line: Seq<char>, user_at: int, pid_at: int) -> Option<RowView> {
    let t = tokens(line);
    if user_at < t.len() && pid_at < t.len() {
        match (parse_i32(t[pid_at]), name_index(t, t.len() - 1)) {
            (Some(pid), Some(at)) => {
                let name = join(t.skip(at), " "@);
                if name.len() > 0 {
                    Some(RowView { pid, user: t[user_at], name })
                } else {
                    None
                }
            },
            _ => None,
        }
    } else {
        None
    }
}

pub open spec fn ps_rows(all: Seq<Seq<char>>, user_at: int, pid_at: int) -> Seq<RowView>
    decreases all.len(),
{
    if all.len() == 0 {
        seq![]
    } else {
        let before = ps_rows(all.drop_last(), user_at, pid_at);
        match ps_row(all.last(), user_at, pid_at) {
            Some(row) => before.push(row),
            None => before,
        }
    }
}

/// The position of the header: the first line that holds `PID`.
pub open spec fn header_index(all: Seq<Seq<char>>) -> int
    decreases all.len(),
{
    if all.len() == 0 || contains(all[0], "PID"@) {
        0
    } else {
        1 + header_index(all.skip(1))
    }
}

/// The rows of a `ps -A` table: none without a header that names both columns.
pub open spec fn ps_table(text: Seq<char>) -> Seq<RowView> {
    let all = lines(text);
    let at = header_index(all);
    let header = tokens(all[at]);
    let user_at = word_index(header, "USER"@);
    let pid_at = word_index(header, "PID"@);
    if 0 <= at < all.len() && user_at < header.len() && pid_at < header.len() {
        ps_rows(all.skip(at + 1), user_at, pid_at)
    } else {
        seq![]
    }
}

fn word_index_of(words: &Vec<&[char]>, name: &str) -> (r: usize)
    ensures
        r as int == word_index(views(words@), name@),
        r <= words@.len(),
{
    let ghost all = views(words@);
    let mut i: usize = 0;
    assert(all.skip(0) =~= all);
    while i < words.len()
        invariant
            i <= words@.len(),
            all == views(words@),
            all.len() == words@.len(),
            word_index(all, name@) == i + word_index(all.skip(i as int), name@),
        decreases words@.len() - i,
    {
        assert(all.skip(i as int)[0] == words@[i as int]@);
        assert(all.skip(i as int).skip(1) =~= all.skip(i as int + 1));
        if is_word(words[i], name) {
            return i;
        }
        i += 1;
    }
    i
}

fn name_index_of(words: &Vec<&[char]>) -> (r: Option<usize>)
    ensures
        match r {
            Some(at) => name_index(views(words@), words@.len() - 1) == Some(at as int) && at <= words@.len(),
            None => name_index(views(words@), words@.len() - 1) is None,
        },
{
    let ghost all = views(words@);
    let mut n: usize = words.len();
    while n > 1
        invariant
            n <= words@.len(),
            all == views(words@),
            name_index(all, words@.len() - 1) == name_index(all, n - 1),
        decreases n,
    {
        assert(all[n - 1] == words@[n - 1]@ && all[n - 2] == words@[n - 2]@);
        let word: &[char] = words[n - 1];
        if word.len() == 1 && Class::StateLetter.holds(word[0]) && all_of(words[n - 2], Class::HexDigit) {
            return Some(n);
        }
        n -= 1;
    }
    None
}

/// The words from position `at` on, joined by a space.
fn join_from(words: &Vec<&[char]>, at: usize) -> (r: String)
    requires
        at <= words@.len(),
    ensures
        r@ == join(views(words@).skip(at as int), " "@),
{
    let ghost wanted = views(words@).skip(at as int);
    let mut parts: Vec<String> = Vec::new();
    let mut i: usize = at;
    while i < words.len()
        invariant
            at <= i <= words@.len(),
            wanted == views(words@).skip(at as int),
            views(parts@) =~= wanted.take(i - at),
        decreases words@.len() - i,
    {
        let part: String = string_of(words[i]);
        proof {
            lemma_views_push(parts@, part);
            assert(wanted[i - at] == views(words@)[i as int]);
        }
        parts.push(part);
        i += 1;
    }
    assert(views(parts@) =~= wanted);
    join_strings(&parts, " ")
}

fn ps_row_of(line: &[char], user_at: usize, pid_at: usize) -> (r: Option<PsEntry>)
    ensures
        opt_view(r) == ps_row(line@, user_at as int, pid_at as int),
{
    let words: Vec<&[char]> = tokens_of(line);
    let ghost t = tokens(line@);
    assert(t.len() == words@.len());
    if user_at >= words.len() || pid_at >= words.len() {
        return None;
    }
    assert(t[user_at as int] == words@[user_at as int]@ && t[pid_at as int] == words@[pid_at as int]@) by {
        assert(views(words@)[user_at as int] == words@[user_at as int]@);
        assert(views(words@)[pid_at as int] == words@[pid_at as int]@);
    }
    match (i32_of(words[pid_at]), name_index_of(&words)) {
        (Some(pid), Some(at)) => {
            let name: String = join_from(&words, at);
            if name.as_str().is_empty() {
                None
            } else {
                Some(PsEntry { pid, user: string_of(words[user_at]), name })
            }
        }
        _ => None,
    }
}

/// Parses `ps -A` into rows.
///
/// `USER` and `PID` are addressed by their place in the header; the name is found
/// from the end of the row.
pub fn parse_ps(text: &str) -> (r: Vec<PsEntry>)
    ensures
        views(r@) == ps_table(text@),
{
    let cs: Vec<char> = chars_of(text);
    let all: Vec<&[char]> = lines_of(cs.as_slice());
    let ghost every = views(all@);
    let mut rows: Vec<PsEntry> = Vec::new();
    assert(views(rows@) =~= seq![]);
    assert(every.len() == all@.len());
    let mut at: usize = 0;
    assert(every.skip(0) =~= every);
    while at < all.len() && !contains_word(all[at], "PID")
        invariant
            at <= all@.len(),
            every == views(all@),
            every.len() == all@.len(),
            header_index(every) == at + header_index(every.skip(at as int)),
        decreases all@.len() - at,
    {
        assert(every.skip(at as int)[0] == all@[at as int]@);
        assert(every.skip(at as int).skip(1) =~= every.skip(at as int + 1));
        at += 1;
    }
    if at == all.len() {
        return rows;
    }
    assert(every.skip(at as int)[0] == all@[at as int]@);
    assert(header_index(every) == at);
    let header: Vec<&[char]> = tokens_of(all[at]);
    assert(views(header@).len() == header@.len());
    let user_at: usize = word_index_of(&header, "USER");
    let pid_at: usize = word_index_of(&header, "PID");
    if user_at == header.len() || pid_at == header.len() {
        return rows;
    }
    let ghost rest = every.skip(at as int + 1);
    let mut i: usize = at + 1;
    assert(rest.take(0) =~= seq![]);
    while i < all.len()
        invariant
            at + 1 <= i <= all@.len(),
            every == views(all@),
            rest == every.skip(at as int + 1),
            views(rows@) == ps_rows(rest.take(i - at - 1), user_at as int, pid_at as int),
        decreases all@.len() - i,
    {
        assert(rest.take(i - at).drop_last() =~= rest.take(i - at - 1));
        assert(rest.take(i - at).last() == all@[i as int]@);
        if let Some(row) = ps_row_of(all[i], user_at, pid_at) {
            proof {
                lemma_views_push(rows@, row);
            }
            rows.push(row);
        }
        i += 1;
    }
    assert(rest.take(i - at - 1) =~= rest);
    rows
}

/// The uid of a `ps` USER value: a number, `u<user>_a<app>`, or a known name.
pub open spec fn user_uid(user: Seq<char>) -> Option<i32> {
    if parse_i32(user) is Some {
        parse_i32(user)
    } else if user == "root"@ {
        Some(0)
    } else if user == "system"@ {
        Some(1000)
    } else if user == "radio"@ {
        Some(1001)
    } else if user == "shell"@ {
        Some(2000)
    } else {
        app_uid_token(user)
    }
}

/// Maps a `ps` USER value to a uid.
pub fn uid_from_user(user: &str) -> (r: Option<i32>)
    ensures
        r == user_uid(user@),
{
    let cs: Vec<char> = chars_of(user);
    let word: &[char] = cs.as_slice();
    match i32_of(word) {
        Some(uid) => Some(uid),
        None => {
            if is_word(word, "root") {
                Some(0)
            } else if is_word(word, "system") {
                Some(1000)
            } else if is_word(word, "radio") {
                Some(1001)
            } else if is_word(word, "shell") {
                Some(2000)
            } else {
                app_uid_of(word)
            }
        }
    }
}

/// A process of the package, or of one of its `package:remote` children.
pub open spec fn of_package(row: RowView, package: Seq<char>) -> bool {
    row.name == package || starts_with(row.name, package + ":"@)
}

/// The ids of the processes of a package, in the order of the table.
pub open spec fn package_rows(rows: Seq<RowView>, package: Seq<char>) -> Seq<i32>
    decreases rows.len(),
{
    if rows.len() == 0 {
        seq![]
    } else if of_package(rows.last(), package) {
        package_rows(rows.drop_last(), package).push(rows.last().pid)
    } else {
        package_rows(rows.drop_last(), package)
    }
}

/// The ids of the processes of a uid, in the order of the table.
pub open spec fn uid_rows(rows: Seq<RowView>, uid: i32) -> Seq<i32>
    decreases rows.len(),
{
    if rows.len() == 0 {
        seq![]
    } else if user_uid(rows.last().user) == Some(uid) {
        uid_rows(rows.drop_last(), uid).push(rows.last().pid)
    } else {
        uid_rows(rows.drop_last(), uid)
    }
}

pub open spec fn package_pids(rows: Seq<RowView>, package: Seq<char>) -> Seq<i32> {
    number_set(package_rows(rows, package))
}

pub open spec fn uid_pids(rows: Seq<RowView>, uid: i32) -> Seq<i32> {
    number_set(uid_rows(rows, uid))
}

/// Processes belonging to `package`, including its `package:remote` children, in
/// ascending order and each once.
pub fn pids_for_package(rows: &[PsEntry], package: &str) -> (r: Vec<i32>)
    ensures
        r@ == package_pids(views(rows@), package@),
{
    let prefix: String = concat2(package, ":");
    let head: Vec<char> = chars_of(prefix.as_str());
    let ghost all = views(rows@);
    let mut pids: Vec<i32> = Vec::new();
    let mut i: usize = 0;
    while i < rows.len()
        invariant
            i <= rows@.len(),
            all == views(rows@),
            head@ == package@ + ":"@,
            pids@ == package_rows(all.take(i as int), package@),
        decreases rows@.len() - i,
    {
        assert(all.take(i as int + 1).drop_last() =~= all.take(i as int));
        assert(all.take(i as int + 1).last() == rows@[i as int]@);
        let name: Vec<char> = chars_of(rows[i].name.as_str());
        if is_word(name.as_slice(), package) || starts_with_chars(name.as_slice(), head.as_slice()) {
            pids.push(rows[i].pid);
        }
        i += 1;
    }
    assert(all.take(i as int) =~= all);
    sorted_numbers(&pids)
}

/// Processes owned by `uid`, in ascending order and each once.
pub fn pids_for_uid(rows: &[PsEntry], uid: i32) -> (r: Vec<i32>)
    ensures
        r@ == uid_pids(views(rows@), uid),
{
    let ghost all = views(rows@);
    let mut pids: Vec<i32> = Vec::new();
    let mut i: usize = 0;
    while i < rows.len()
        invariant
            i <= rows@.len(),
            all == views(rows@),
            pids@ == uid_rows(all.take(i as int), uid),
        decreases rows@.len() - i,
    {
        assert(all.take(i as int + 1).drop_last() =~= all.take(i as int));
        assert(all.take(i as int + 1).last() == rows@[i as int]@);
        if uid_from_user(rows[i].user.as_str()) == Some(uid) {
            pids.push(rows[i].pid);
        }
        i += 1;
    }
    assert(all.take(i as int) =~= all);
    sorted_numbers(&pids)
}

/// The uid of a line `package:com.example uid:10123`.
pub open spec fn cmd_package_line(line: Seq<char>, package: Seq<char>) -> Option<i32> {
    match after_prefix(trim(line, Class::Space), "package:"@) {
        Some(rest) => match split_once_at(rest, " uid:"@) {
            Some((name, uid)) => if trim(name, Class::Space) == package {
                leading_number(uid)
            } else {
                None
            },
            None => None,
        },
        None => None,
    }
}

pub open spec fn cmd_package_rule(package: Seq<char>) -> spec_fn(Seq<char>) -> Option<i32> {
    |line: Seq<char>| cmd_package_line(line, package)
}

/// The uid that `cmd package list packages -U` shows for a package.
pub open spec fn cmd_package_uid(text: Seq<char>, package: Seq<char>) -> Option<i32> {
    first_some(lines(text), cmd_package_rule(package))
}

/// The uid of a line `com.example 10123 0 /data/user/0/com.example ...`.
pub open spec fn package_list_line(line: Seq<char>, package: Seq<char>) -> Option<i32> {
    let t = tokens(line);
    if t.len() >= 2 && t[0] == package {
        parse_i32(t[1])
    } else {
        None
    }
}

pub open spec fn package_list_rule(package: Seq<char>) -> spec_fn(Seq<char>) -> Option<i32> {
    |line: Seq<char>| package_list_line(line, package)
}

/// The uid that `/data/system/packages.list` shows for a package.
pub open spec fn package_list_uid(text: Seq<char>, package: Seq<char>) -> Option<i32> {
    first_some(lines(text), package_list_rule(package))
}

fn cmd_package_line_of(line: &[char], package: &str) -> (r: Option<i32>)
    ensures
        r == cmd_package_line(line@, package@),
{
    match after_word(trim_of(line, Class::Space), "package:") {
        Some(rest) => match split_once_word(rest, " uid:") {
            Some((name, uid)) => {
                if is_word(trim_of(name, Class::Space), package) {
                    leading_number_of(uid)
                } else {
                    None
                }
            }
            None => None,
        },
        None => None,
    }
}

/// Extracts the uid of `package` from `cmd package list packages -U` output.
pub fn parse_uid_from_cmd_package(text: &str, package: &str) -> (r: Option<i32>)
    ensures
        r == cmd_package_uid(text@, package@),
{
    let cs: Vec<char> = chars_of(text);
    let all: Vec<&[char]> = lines_of(cs.as_slice());
    let ghost every = views(all@);
    let ghost rule = cmd_package_rule(package@);
    let mut i: usize = 0;
    assert(every.skip(0) =~= every);
    while i < all.len()
        invariant
            i <= all@.len(),
            every == views(all@),
            every == lines(text@),
            rule == cmd_package_rule(package@),
            first_some(every, rule) == first_some(every.skip(i as int), rule),
        decreases all@.len() - i,
    {
        assert(every.skip(i as int)[0] == all@[i as int]@);
        assert(every.skip(i as int).skip(1) =~= every.skip(i as int + 1));
        if let Some(uid) = cmd_package_line_of(all[i], package) {
            return Some(uid);
        }
        i += 1;
    }
    None
}

fn package_list_line_of(line: &[char], package: &str) -> (r: Option<i32>)
    ensures
        r == package_list_line(line@, package@),
{
    let words: Vec<&[char]> = tokens_of(line);
    assert(views(words@).len() == words@.len());
    if words.len() < 2 {
        return None;
    }
    assert(views(words@)[0] == words@[0]@ && views(words@)[1] == words@[1]@);
    if is_word(words[0], package) {
        i32_of(words[1])
    } else {
        None
    }
}

/// Extracts the uid of `package` from `/data/system/packages.list`.
pub fn parse_uid_from_package_list(text: &str, package: &str) -> (r: Option<i32>)
    ensures
        r == package_list_uid(text@, package@),
{
    let cs: Vec<char> = chars_of(text);
    let all: Vec<&[char]> = lines_of(cs.as_slice());
    let ghost every = views(all@);
    let ghost rule = package_list_rule(package@);
    let mut i: usize = 0;
    assert(every.skip(0) =~= every);
    while i < all.len()
        invariant
            i <= all@.len(),
            every == views(all@),
            every == lines(text@),
            rule == package_list_rule(package@),
            first_some(every, rule) == first_some(every.skip(i as int), rule),
        decreases all@.len() - i,
    {
        assert(every.skip(i as int)[0] == all@[i as int]@);
        assert(every.skip(i as int).skip(1) =~= every.skip(i as int + 1));
        if let Some(uid) = package_list_line_of(all[i], package) {
            return Some(uid);
        }
        i += 1;
    }
    None
}

/// Text that looks like a package name: with a point, and of its characters only.
pub open spec fn package_like(s: Seq<char>) -> bool {
    any_in(s, Class::One('.')) && all_in(s, Class::PackageChar)
}

/// What stands before the first colon: the app that a `:remote` child belongs to.
pub open spec fn base_name(s: Seq<char>) -> Seq<char> {
    split(s, Class::One(':'))[0]
}

/// The package that a command line shows.
pub open spec fn cmdline_package(cmdline: Seq<char>) -> Option<Seq<char>> {
    let first = trim(split(cmdline, Class::One('\0'))[0], Class::Space);
    if first.len() == 0 || first[0] == '[' || !package_like(base_name(first)) {
        None
    } else {
        Some(base_name(first))
    }
}

fn first_piece(cs: &[char], k: Class) -> (r: &[char])
    ensures
        r@ == split(cs@, k)[0],
{
    let pieces: Vec<&[char]> = split_on(cs, k);
    assert(views(pieces@)[0] == pieces@[0]@);
    pieces[0]
}

fn is_package_like(cs: &[char]) -> (r: bool)
    ensures
        r == package_like(cs@),
{
    any_of(cs, Class::One('.')) && all_of(cs, Class::PackageChar)
}

/// Derives a package name from the content of `/proc/<pid>/cmdline`.
///
/// The first argument counts, without its `:remote` suffix. Native binaries and
/// kernel threads have no package.
pub fn package_from_cmdline(cmdline: &str) -> (r: Option<String>)
    ensures
        opt_view(r) == cmdline_package(cmdline@),
{
    let cs: Vec<char> = chars_of(cmdline);
    let first: &[char] = trim_of(first_piece(cs.as_slice(), Class::One('\0')), Class::Space);
    if first.len() == 0 || first[0] == '[' {
        return None;
    }
    let base: &[char] = first_piece(first, Class::One(':'));
    if is_package_like(base) {
        Some(string_of(base))
    } else {
        None
    }
}

/// One entry of the list of running applications.
#[derive(Debug)]
pub struct RunningApp {
    /// Base package name.
    pub package: String,
    /// Uid of the `ps` USER column, when it could be read.
    pub uid: Option<i32>,
    /// Every live process of the app, including `pkg:remote` children.
    pub pids: Vec<i32>,
}

#[verifier::ext_equal]
pub struct AppView {
    pub package: Seq<char>,
    pub uid: Option<i32>,
    pub pids: Seq<i32>,
}

impl View for RunningApp {
    type V = AppView;

    open spec fn view(&self) -> AppView {
        AppView { package: self.package@, uid: self.uid, pids: self.pids@ }
    }
}

impl Clone for RunningApp {
    fn clone(&self) -> (r: Self)
        ensures
            r@ == self@,
    {
        RunningApp { package: self.package.clone(), uid: self.uid, pids: copy_numbers(&self.pids) }
    }
}

/// The names of the applications among rows, in the order of the table.
pub open spec fn app_names(rows: Seq<RowView>) -> Seq<Seq<char>>
    decreases rows.len(),
{
    if rows.len() == 0 {
        seq![]
    } else {
        let base = base_name(rows.last().name);
        if package_like(base) {
            app_names(rows.drop_last()).push(base)
        } else {
            app_names(rows.drop_last())
        }
    }
}

/// The processes of an application, in the order of the table.
pub open spec fn app_rows(rows: Seq<RowView>, package: Seq<char>) -> Seq<i32>
    decreases rows.len(),
{
    if rows.len() == 0 {
        seq![]
    } else if base_name(rows.last().name) == package {
        app_rows(rows.drop_last(), package).push(rows.last().pid)
    } else {
        app_rows(rows.drop_last(), package)
    }
}

/// The uid of an application: the first that a row of it shows.
pub open spec fn app_row_uid(rows: Seq<RowView>, package: Seq<char>) -> Option<i32>
    decreases rows.len(),
{
    if rows.len() == 0 {
        None
    } else {
        match app_row_uid(rows.drop_last(), package) {
            Some(uid) => Some(uid),
            None => if base_name(rows.last().name) == package {
                user_uid(rows.last().user)
            } else {
                None
            },
        }
    }
}

pub open spec fn app_of(rows: Seq<RowView>, package: Seq<char>) -> AppView {
    AppView { package, uid: app_row_uid(rows, package), pids: number_set(app_rows(rows, package)) }
}

/// The distinct applications that a table is running, by name.
pub open spec fn apps_of(rows: Seq<RowView>) -> Seq<AppView> {
    word_set(app_names(rows)).map_values(|package: Seq<char>| app_of(rows, package))
}

fn app_entry(rows: &[PsEntry], package: String) -> (r: RunningApp)
    ensures
        r@ == app_of(views(rows@), package@),
{
    let ghost all = views(rows@);
    let mut uid: Option<i32> = None;
    let mut pids: Vec<i32> = Vec::new();
    let mut i: usize = 0;
    while i < rows.len()
        invariant
            i <= rows@.len(),
            all == views(rows@),
            uid == app_row_uid(all.take(i as int), package@),
            pids@ == app_rows(all.take(i as int), package@),
        decreases rows@.len() - i,
    {
        assert(all.take(i as int + 1).drop_last() =~= all.take(i as int));
        assert(all.take(i as int + 1).last() == rows@[i as int]@);
        let name: Vec<char> = chars_of(rows[i].name.as_str());
        if is_word(first_piece(name.as_slice(), Class::One(':')), package.as_str()) {
            if uid.is_none() {
                uid = uid_from_user(rows[i].user.as_str());
            }
            pids.push(rows[i].pid);
        }
        i += 1;
    }
    assert(all.take(i as int) =~= all);
    RunningApp { package, uid, pids: sorted_numbers(&pids) }
}

/// Collapses a `ps` table into the distinct applications that it is running, in the
/// order of their names.
///
/// Native binaries are processes but not applications.
pub fn running_apps(rows: &[PsEntry]) -> (r: Vec<RunningApp>)
    ensures
        views(r@) == apps_of(views(rows@)),
{
    let ghost all = views(rows@);
    let mut names: Vec<String> = Vec::new();
    assert(views(names@) =~= seq![]);
    let mut i: usize = 0;
    while i < rows.len()
        invariant
            i <= rows@.len(),
            all == views(rows@),
            views(names@) == word_set(app_names(all.take(i as int))),
        decreases rows@.len() - i,
    {
        let ghost longer = all.take(i as int + 1);
        assert(longer.drop_last() =~= all.take(i as int));
        assert(longer.last() == rows@[i as int]@);
        let name: Vec<char> = chars_of(rows[i].name.as_str());
        let base: &[char] = first_piece(name.as_slice(), Class::One(':'));
        if is_package_like(base) {
            insert_unique(&mut names, string_of(base));
            assert(app_names(longer).drop_last() =~= app_names(all.take(i as int)));
        }
        i += 1;
    }
    assert(all.take(i as int) =~= all);
    let ghost wanted = apps_of(all);
    let mut r: Vec<RunningApp> = Vec::new();
    let mut k: usize = 0;
    while k < names.len()
        invariant
            k <= names@.len(),
            all == views(rows@),
            views(names@) == word_set(app_names(all)),
            wanted == apps_of(all),
            views(r@) =~= wanted.take(k as int),
        decreases names@.len() - k,
    {
        let app: RunningApp = app_entry(rows, names[k].clone());
        proof {
            lemma_views_push(r@, app);
            assert(views(names@)[k as int] == names@[k as int]@);
        }
        r.push(app);
        k += 1;
    }
    assert(views(r@) =~= wanted) by {
        assert(views(names@).len() == names@.len());
    }
    r
}

/// The listed applications are exactly those that the table runs, each once and in
/// the order of their names, and their processes are in ascending order.
pub proof fn law_running_apps(rows: Seq<RowView>)
    ensures
        crate::text::order::ascending_words(apps_of(rows).map_values(|app: AppView| app.package)),
        forall|package: Seq<char>|
            #[trigger] app_names(rows).contains(package) <==> exists|i: int|
                0 <= i < apps_of(rows).len() && (#[trigger] apps_of(rows)[i]) == app_of(rows, package)
                    && apps_of(rows)[i].package == package,
        forall|i: int| 0 <= i < apps_of(rows).len() ==> crate::text::order::ascending((#[trigger] apps_of(rows)[i]).pids),
{
    let names = word_set(app_names(rows));
    crate::text::order::law_word_set(app_names(rows));
    assert(apps_of(rows).map_values(|app: AppView| app.package) =~= names);
    assert forall|i: int| 0 <= i < apps_of(rows).len() implies crate::text::order::ascending(
        (#[trigger] apps_of(rows)[i]).pids,
    ) by {
        law_number_set(app_rows(rows, names[i]));
    }
    assert forall|package: Seq<char>| #[trigger] app_names(rows).contains(package) <==> exists|i: int|
        0 <= i < apps_of(rows).len() && (#[trigger] apps_of(rows)[i]) == app_of(rows, package) && apps_of(
            rows,
        )[i].package == package by {
        if app_names(rows).contains(package) {
            assert(names.contains(package));
            let i = choose|i: int| 0 <= i < names.len() && names[i] == package;
            assert(apps_of(rows)[i] == app_of(rows, package));
        }
        if exists|i: int|
            0 <= i < apps_of(rows).len() && (#[trigger] apps_of(rows)[i]) == app_of(rows, package) && apps_of(
                rows,
            )[i].package == package {
            let i = choose|i: int|
                0 <= i < apps_of(rows).len() && (#[trigger] apps_of(rows)[i]) == app_of(rows, package) && apps_of(
                    rows,
                )[i].package == package;
            assert(names[i] == package);
            assert(names.contains(package));
        }
    }
}

/// A resolution that was taken at a time.
#[derive(Debug)]
struct Kept {
    taken: u64,
    target: AppTarget,
}

/// Kept resolutions, keyed by the raw user input, and what is known of `logcat` on
/// each device.
#[derive(Debug)]
pub struct AppResolver {
    cache: TextMap<Kept>,
    /// Whether `logcat --uid=` works, per serial. Not limited in time: a device does
    /// not change its logcat between polls.
    uid_support: TextMap<bool>,
    ttl: u64,
}

/// What a resolver remembers.
#[verifier::ext_equal]
pub struct ResolverView {
    /// When each resolution was taken, and what it was.
    pub cache: Map<Seq<char>, (u64, TargetView)>,
    pub uid_support: Map<Seq<char>, bool>,
    pub ttl: u64,
}

impl View for AppResolver {
    type V = ResolverView;

    closed spec fn view(&self) -> ResolverView {
        ResolverView {
            cache: self.cache@.map_values(|kept: Kept| (kept.taken, kept.target@)),
            uid_support: self.uid_support@,
            ttl: self.ttl,
        }
    }
}

/// A time that is no more than `ttl` after `taken`.
pub open spec fn fresh(taken: u64, now: u64, ttl: u64) -> bool {
    now - taken <= ttl
}

impl ResolverView {
    /// A resolution of this input that is still fresh.
    pub open spec fn hit(self, input: Seq<char>, now: u64) -> Option<TargetView> {
        if self.cache.dom().contains(input) && fresh(self.cache[input].0, now, self.ttl) {
            Some(self.cache[input].1)
        } else {
            None
        }
    }

    /// There is a resolution of this input, and it is no longer fresh.
    pub open spec fn stale(self, input: Seq<char>, now: u64) -> bool {
        self.cache.dom().contains(input) && !fresh(self.cache[input].0, now, self.ttl)
    }
}

fn is_fresh(taken: u64, now: u64, ttl: u64) -> (r: bool)
    ensures
        r == fresh(taken, now, ttl),
{
    now <= taken || now - taken <= ttl
}

impl AppResolver {
    /// Creates a resolver that keeps a resolution for `ttl` milliseconds.
    pub fn new(ttl: u64) -> (r: Self)
        ensures
            r@ == (ResolverView { cache: Map::empty(), uid_support: Map::empty(), ttl }),
    {
        let r: AppResolver = AppResolver { cache: TextMap::new(), uid_support: TextMap::new(), ttl };
        assert(r@.cache =~= Map::<Seq<char>, (u64, TargetView)>::empty());
        r
    }

    /// A kept resolution, if one is still fresh at `now`.
    pub fn cached(&self, input: &str, now: u64) -> (r: Option<AppTarget>)
        ensures
            opt_view(r) == self@.hit(input@, now),
    {
        match self.cache.get(input) {
            Some(kept) => {
                if is_fresh(kept.taken, now, self.ttl) {
                    Some(kept.target.clone())
                } else {
                    None
                }
            }
            None => None,
        }
    }

    /// Whether a kept resolution exists but has expired at `now`.
    pub fn is_stale(&self, input: &str, now: u64) -> (r: bool)
        ensures
            r == self@.stale(input@, now),
    {
        match self.cache.get(input) {
            Some(kept) => !is_fresh(kept.taken, now, self.ttl),
            None => false,
        }
    }

    /// Keeps a resolution that was taken at `now`.
    pub fn store(&mut self, target: &AppTarget, now: u64)
        ensures
            final(self)@ == (ResolverView {
                cache: old(self)@.cache.insert(target@.input, (now, target@)),
                ..old(self)@
            }),
    {
        self.cache.insert(target.input.clone(), Kept { taken: now, target: target.clone() });
        assert(self@.cache =~= old(self)@.cache.insert(target@.input, (now, target@)));
    }

    /// Drops one entry.
    pub fn invalidate(&mut self, input: &str)
        ensures
            final(self)@ == (ResolverView { cache: old(self)@.cache.remove(input@), ..old(self)@ }),
    {
        self.cache.remove(input);
        assert(self@.cache =~= old(self)@.cache.remove(input@));
    }

    /// Drops every entry.
    pub fn clear(&mut self)
        ensures
            final(self)@ == (ResolverView { cache: Map::empty(), ..old(self)@ }),
    {
        self.cache.clear();
        assert(self@.cache =~= Map::<Seq<char>, (u64, TargetView)>::empty());
    }

    /// Records whether a device supports `logcat --uid=`.
    pub fn remember_uid_support(&mut self, serial: &str, supported: bool)
        ensures
            final(self)@ == (ResolverView {
                uid_support: old(self)@.uid_support.insert(serial@, supported),
                ..old(self)@
            }),
    {
        self.uid_support.insert(serial.to_owned(), supported);
    }

    /// The remembered `logcat --uid=` support of a device.
    pub fn uid_support(&self, serial: &str) -> (r: Option<bool>)
        ensures
            r == if self@.uid_support.dom().contains(serial@) {
                Some(self@.uid_support[serial@])
            } else {
                None::<bool>
            },
    {
        match self.uid_support.get(serial) {
            Some(supported) => Some(*supported),
            None => None,
        }
    }
}

impl Default for AppResolver {
    fn default() -> (r: Self)
        ensures
            r@ == (ResolverView { cache: Map::empty(), uid_support: Map::empty(), ttl: CACHE_TTL }),
    {
        AppResolver::new(CACHE_TTL)
    }
}

/// A kept resolution is served for as long as it is fresh and never after, and an
/// entry that exists is either served or stale.
pub proof fn law_cache_honours_its_ttl(resolver: ResolverView, target: TargetView, taken: u64, now: u64)
    ensures
        ({
            let kept = ResolverView { cache: resolver.cache.insert(target.input, (taken, target)), ..resolver };
            &&& now - taken <= resolver.ttl ==> kept.hit(target.input, now) == Some(target)
            &&& now - taken > resolver.ttl ==> kept.hit(target.input, now) is None
            &&& kept.stale(target.input, now) == (kept.hit(target.input, now) is None)
        }),
{
}

/// Asks logcat for its usage text, which costs nothing and disturbs no capture.
pub const HELP_COMMAND: &'static str = "logcat --help";

/// The usage text lists `--uid`, on either stream.
pub open spec fn lists_uid(output: OutputView) -> bool {
    contains(output.stdout, "--uid"@) || contains(output.stderr, "--uid"@)
}

/// Whether a device's logcat understands `--uid=`, and what is known from then on: what
/// was known stays as it was, and an answer is remembered.
pub open spec fn uid_answer(
    resolver: ResolverView,
    serial: Seq<char>,
    help: Result<ExecOutput>,
) -> (Result<bool>, ResolverView) {
    if resolver.uid_support.dom().contains(serial) {
        (Ok(resolver.uid_support[serial]), resolver)
    } else {
        match help {
            Ok(output) => (
                Ok(lists_uid(output@)),
                ResolverView { uid_support: resolver.uid_support.insert(serial, lists_uid(output@)), ..resolver },
            ),
            Err(error) => (Err(error), resolver),
        }
    }
}

/// A device is asked about `--uid=` once: whatever a second answer says, it is that of
/// the first, and nothing changes.
pub proof fn law_a_device_is_asked_once(
    resolver: ResolverView,
    serial: Seq<char>,
    help: Result<ExecOutput>,
    again: Result<ExecOutput>,
)
    requires
        help is Ok,
    ensures
        ({
            let (first, after) = uid_answer(resolver, serial, help);
            uid_answer(after, serial, again) == (first, after)
        }),
{
}

/// Whether this device's logcat understands `--uid=`, given the answer to
/// [`HELP_COMMAND`].
///
/// Asked once per device and remembered: the answer is a property of the installed
/// logcat. What is known already is not asked for again.
pub fn probe_logcat_uid(resolver: &mut AppResolver, serial: &str, help: Result<ExecOutput>) -> (r: Result<bool>)
    ensures
        (r, final(resolver)@) == uid_answer(old(resolver)@, serial@, help),
{
    if let Some(known) = resolver.uid_support(serial) {
        return Ok(known);
    }
    match help {
        Ok(output) => {
            let stdout: Vec<char> = chars_of(output.stdout.as_str());
            let stderr: Vec<char> = chars_of(output.stderr.as_str());
            let supported: bool = contains_word(stdout.as_slice(), "--uid") || contains_word(
                stderr.as_slice(),
                "--uid",
            );
            resolver.remember_uid_support(serial, supported);
            Ok(supported)
        }
        Err(error) => Err(error),
    }
}

/// Which answer a resolution is waiting for.
#[derive(Debug, Clone, Copy, PartialEq, Eq, Structural)]
pub enum ResolveStage {
    /// The command line of this process.
    Cmdline(i32),
    /// The record of the package.
    Dumpsys,
    /// The table of all packages.
    PackageTable,
    /// The list of packages, which only root can read.
    PackageList,
}

/// A resolution under way.
#[derive(Debug)]
pub struct Resolution {
    input: String,
    serial: String,
    mode: ExecMode,
    rows: Vec<PsEntry>,
    package: String,
    stage: ResolveStage,
}

#[verifier::ext_equal]
pub struct ResolutionView {
    pub input: Seq<char>,
    pub serial: Seq<char>,
    pub mode: ExecMode,
    pub rows: Seq<RowView>,
    /// The package whose uid is asked for, once it is known.
    pub package: Seq<char>,
    pub stage: ResolveStage,
}

impl View for Resolution {
    type V = ResolutionView;

    closed spec fn view(&self) -> ResolutionView {
        ResolutionView {
            input: self.input@,
            serial: self.serial@,
            mode: self.mode,
            rows: views(self.rows@),
            package: self.package@,
            stage: self.stage,
        }
    }
}

/// What follows in a resolution.
#[derive(Debug)]
pub enum ResolveStep {
    /// Run [`Resolution::command`] and hand the answer to [`Resolution::answer`].
    Ask(Resolution),
    /// The input is resolved, or cannot be.
    Done(Result<AppTarget>),
}

pub enum StepView {
    Ask(ResolutionView),
    Found(TargetView),
    Failed(ErrorView),
}

impl View for ResolveStep {
    type V = StepView;

    open spec fn view(&self) -> StepView {
        match self {
            ResolveStep::Ask(next) => StepView::Ask(next@),
            ResolveStep::Done(Ok(target)) => StepView::Found(target@),
            ResolveStep::Done(Err(error)) => StepView::Failed(error@),
        }
    }
}

/// Some row has this process id.
pub open spec fn has_pid(rows: Seq<RowView>, pid: i32) -> bool {
    exists|i: int| 0 <= i < rows.len() && (#[trigger] rows[i]).pid == pid
}

/// The user of the first row with this process id.
pub open spec fn pid_user(rows: Seq<RowView>, pid: i32) -> Seq<char>
    decreases rows.len(),
{
    if rows.len() == 0 {
        seq![]
    } else if rows[0].pid == pid {
        rows[0].user
    } else {
        pid_user(rows.skip(1), pid)
    }
}

impl ResolutionView {
    /// A target that was found at `now`.
    pub open spec fn found(
        self,
        kind: AppTargetKind,
        package: Option<Seq<char>>,
        uid: Option<i32>,
        pids: Seq<i32>,
        now: u64,
    ) -> StepView {
        StepView::Found(
            TargetView {
                input: self.input,
                kind,
                serial: self.serial,
                mode: self.mode,
                package,
                uid,
                pids,
                found: true,
                reason: None,
                resolved_at_ms: now,
                prefilter: Prefilter::Host,
            },
        )
    }

    /// A target that is not there. That is no error, but a state to be shown.
    pub open spec fn absent(self, kind: AppTargetKind, reason: Seq<char>, now: u64) -> StepView {
        StepView::Found(TargetView::missing(self.input, kind, self.serial, self.mode, reason, now))
    }

    /// Asking for the uid of a package, whose name must be a valid one.
    pub open spec fn ask_uid(self, package: Seq<char>) -> StepView {
        match package_fault(package) {
            Some(reason) => StepView::Failed(ErrorView::InvalidInput(reason)),
            None => StepView::Ask(ResolutionView { package, stage: ResolveStage::Dumpsys, ..self }),
        }
    }

    /// The first step: the live table decides what a number is, and anything else
    /// must be a package name.
    pub open spec fn first_step(self, now: u64) -> StepView {
        match parse_i32(self.input) {
            Some(number) => if has_pid(self.rows, number) {
                if number <= 0 {
                    StepView::Failed(ErrorView::InvalidInput("PID 无效："@ + dec_int(number as int)))
                } else {
                    StepView::Ask(ResolutionView { stage: ResolveStage::Cmdline(number), ..self })
                }
            } else if uid_pids(self.rows, number).len() > 0 {
                self.found(AppTargetKind::Uid, None, Some(number), uid_pids(self.rows, number), now)
            } else {
                self.absent(
                    AppTargetKind::Pid,
                    self.input + " 既不是运行中的 PID，也不是任何进程的 UID —— 应用未开启或不存在"@,
                    now,
                )
            },
            None => self.ask_uid(self.input),
        }
    }

    /// The step after the command line of a process is known.
    pub open spec fn after_cmdline(self, pid: i32, cmdline: Seq<char>, now: u64) -> StepView {
        match cmdline_package(cmdline) {
            Some(package) => self.ask_uid(package),
            None => self.found(AppTargetKind::Pid, None, user_uid(pid_user(self.rows, pid)), seq![pid], now),
        }
    }

    /// The last step: the package and its uid are known as far as they can be.
    pub open spec fn finish(self, uid: Option<i32>, now: u64) -> StepView {
        let running = package_pids(self.rows, self.package);
        if parse_i32(self.input) is Some {
            self.found(AppTargetKind::Pid, Some(self.package), uid, running, now)
        } else {
            let pids = match uid {
                Some(uid) if running.len() == 0 => uid_pids(self.rows, uid),
                _ => running,
            };
            if pids.len() > 0 {
                self.found(AppTargetKind::Package, Some(self.package), uid, pids, now)
            } else if uid is None {
                self.absent(
                    AppTargetKind::Package,
                    "未找到包 "@ + self.input + " —— 应用未安装或不存在"@,
                    now,
                )
            } else {
                self.absent(
                    AppTargetKind::Package,
                    "包 "@ + self.input + " 已安装但当前没有进程运行 —— 应用未开启"@,
                    now,
                )
            }
        }
    }

    /// What the answer of the present stage shows of the uid.
    pub open spec fn uid_in(self, stdout: Seq<char>) -> Option<i32> {
        match self.stage {
            ResolveStage::Dumpsys => dumpsys_uid(stdout),
            ResolveStage::PackageTable => cmd_package_uid(stdout, self.package),
            ResolveStage::PackageList => package_list_uid(stdout, self.package),
            ResolveStage::Cmdline(_) => None,
        }
    }

    /// The step after an answer to where the uid may be found: the first answer that
    /// shows it settles it.
    pub open spec fn after_source(self, stdout: Seq<char>, now: u64) -> StepView {
        match self.uid_in(stdout) {
            Some(uid) => self.finish(Some(uid), now),
            None => match self.stage {
                ResolveStage::Dumpsys => StepView::Ask(
                    ResolutionView { stage: ResolveStage::PackageTable, ..self },
                ),
                ResolveStage::PackageTable => StepView::Ask(
                    ResolutionView { stage: ResolveStage::PackageList, ..self },
                ),
                _ => self.finish(None, now),
            },
        }
    }

    /// The command whose answer is waited for.
    pub open spec fn command(self) -> Seq<char> {
        match self.stage {
            ResolveStage::Cmdline(pid) => "cat /proc/"@ + dec_int(pid as int) + "/cmdline"@,
            ResolveStage::Dumpsys => "dumpsys package "@ + self.package,
            ResolveStage::PackageTable => "cmd package list packages -U"@,
            ResolveStage::PackageList => "cat /data/system/packages.list"@,
        }
    }
}

fn row_with_pid(rows: &Vec<PsEntry>, pid: i32) -> (r: Option<usize>)
    ensures
        match r {
            Some(i) => i < rows@.len() && has_pid(views(rows@), pid) && rows@[i as int].user@ == pid_user(
                views(rows@),
                pid,
            ),
            None => !has_pid(views(rows@), pid),
        },
{
    let ghost all = views(rows@);
    let mut i: usize = 0;
    assert(all.skip(0) =~= all);
    while i < rows.len()
        invariant
            i <= rows@.len(),
            all == views(rows@),
            all.len() == rows@.len(),
            forall|j: int| 0 <= j < i ==> (#[trigger] all[j]).pid != pid,
            pid_user(all, pid) == pid_user(all.skip(i as int), pid),
        decreases rows@.len() - i,
    {
        assert(all[i as int] == rows@[i as int]@);
        assert(all.skip(i as int)[0] == all[i as int]);
        assert(all.skip(i as int).skip(1) =~= all.skip(i as int + 1));
        if rows[i].pid == pid {
            return Some(i);
        }
        i += 1;
    }
    None
}

impl Resolution {
    fn found(
        self,
        kind: AppTargetKind,
        package: Option<String>,
        uid: Option<i32>,
        pids: Vec<i32>,
        now: u64,
    ) -> (r: ResolveStep)
        ensures
            r@ == self@.found(kind, opt_view(package), uid, pids@, now),
    {
        ResolveStep::Done(
            Ok(
                AppTarget {
                    input: self.input,
                    kind,
                    serial: self.serial,
                    mode: self.mode,
                    package,
                    uid,
                    pids,
                    found: true,
                    reason: None,
                    resolved_at_ms: now,
                    prefilter: Prefilter::Host,
                },
            ),
        )
    }

    fn absent(&self, kind: AppTargetKind, reason: &str, now: u64) -> (r: ResolveStep)
        ensures
            r@ == self@.absent(kind, reason@, now),
    {
        ResolveStep::Done(
            Ok(AppTarget::missing_at(self.input.as_str(), kind, self.serial.as_str(), self.mode, reason, now)),
        )
    }

    fn ask_uid(self, package: String) -> (r: ResolveStep)
        ensures
            r@ == self@.ask_uid(package@),
    {
        match validate_package(package.as_str()) {
            Ok(_) => ResolveStep::Ask(Resolution { package, stage: ResolveStage::Dumpsys, ..self }),
            Err(error) => ResolveStep::Done(Err(error)),
        }
    }

    fn finish(self, uid: Option<i32>, now: u64) -> (r: ResolveStep)
        ensures
            r@ == self@.finish(uid, now),
    {
        let cs: Vec<char> = chars_of(self.input.as_str());
        let running: Vec<i32> = pids_for_package(self.rows.as_slice(), self.package.as_str());
        let package: String = self.package.clone();
        if i32_of(cs.as_slice()).is_some() {
            return self.found(AppTargetKind::Pid, Some(package), uid, running, now);
        }
        let pids: Vec<i32> = match uid {
            Some(number) => {
                if running.len() == 0 {
                    pids_for_uid(self.rows.as_slice(), number)
                } else {
                    running
                }
            }
            None => running,
        };
        if pids.len() > 0 {
            self.found(AppTargetKind::Package, Some(package), uid, pids, now)
        } else if uid.is_none() {
            let reason: String = concat3("未找到包 ", self.input.as_str(), " —— 应用未安装或不存在");
            self.absent(AppTargetKind::Package, reason.as_str(), now)
        } else {
            let reason: String = concat3(
                "包 ",
                self.input.as_str(),
                " 已安装但当前没有进程运行 —— 应用未开启",
            );
            self.absent(AppTargetKind::Package, reason.as_str(), now)
        }
    }

    /// The command whose answer is waited for.
    pub fn command(&self) -> (r: String)
        ensures
            r@ == self@.command(),
    {
        match self.stage {
            ResolveStage::Cmdline(pid) => {
                let number: String = i32_text(pid);
                concat3("cat /proc/", number.as_str(), "/cmdline")
            }
            ResolveStage::Dumpsys => concat2("dumpsys package ", self.package.as_str()),
            ResolveStage::PackageTable => "cmd package list packages -U".to_owned(),
            ResolveStage::PackageList => "cat /data/system/packages.list".to_owned(),
        }
    }

    /// Takes the answer to [`Resolution::command`], at `now`.
    ///
    /// A transport that fails ends the resolution: that nothing could be asked does not
    /// mean that there is nothing.
    pub fn answer(self, reply: Result<ExecOutput>, now: u64) -> (r: ResolveStep)
        ensures
            match reply {
                Ok(output) => match self@.stage {
                    ResolveStage::Cmdline(pid) => r@ == self@.after_cmdline(pid, output@.stdout, now),
                    _ => r@ == self@.after_source(output@.stdout, now),
                },
                Err(error) => r == ResolveStep::Done(Err(error)),
            },
    {
        let output: ExecOutput = match reply {
            Ok(output) => output,
            Err(error) => return ResolveStep::Done(Err(error)),
        };
        let uid: Option<i32> = match self.stage {
            ResolveStage::Cmdline(pid) => {
                return match package_from_cmdline(output.stdout.as_str()) {
                    Some(package) => self.ask_uid(package),
                    None => {
                        let user: String = match row_with_pid(&self.rows, pid) {
                            Some(i) => self.rows[i].user.clone(),
                            None => {
                                proof {
                                    lemma_no_pid_no_user(views(self.rows@), pid);
                                }
                                String::new()
                            }
                        };
                        assert(user@ =~= pid_user(views(self.rows@), pid));
                        let uid: Option<i32> = uid_from_user(user.as_str());
                        let pids: Vec<i32> = vec![pid];
                        assert(pids@ =~= seq![pid]);
                        self.found(AppTargetKind::Pid, None, uid, pids, now)
                    }
                };
            }
            ResolveStage::Dumpsys => parse_uid_from_dumpsys(output.stdout.as_str()),
            ResolveStage::PackageTable => {
                parse_uid_from_cmd_package(output.stdout.as_str(), self.package.as_str())
            }
            ResolveStage::PackageList => {
                parse_uid_from_package_list(output.stdout.as_str(), self.package.as_str())
            }
        };
        match uid {
            Some(number) => self.finish(Some(number), now),
            None => match self.stage {
                ResolveStage::Dumpsys => ResolveStep::Ask(
                    Resolution { stage: ResolveStage::PackageTable, ..self },
                ),
                ResolveStage::PackageTable => ResolveStep::Ask(
                    Resolution { stage: ResolveStage::PackageList, ..self },
                ),
                _ => self.finish(None, now),
            },
        }
    }
}

proof fn lemma_no_pid_no_user(rows: Seq<RowView>, pid: i32)
    requires
        !has_pid(rows, pid),
    ensures
        pid_user(rows, pid) == Seq::<char>::empty(),
    decreases rows.len(),
{
    if rows.len() > 0 {
        assert(rows[0].pid != pid);
        let rest = rows.skip(1);
        assert forall|i: int| 0 <= i < rest.len() implies (#[trigger] rest[i]).pid != pid by {
            assert(rows[i + 1].pid != pid);
        }
        lemma_no_pid_no_user(rest, pid);
    }
}

/// A resolution that nothing has been asked for yet.
pub open spec fn opening(input: Seq<char>, rows: Seq<RowView>, mode: ExecMode, serial: Seq<char>) -> ResolutionView {
    ResolutionView { input, serial, mode, rows, package: seq![], stage: ResolveStage::Dumpsys }
}

/// Resolves an input against an already-fetched `ps` table, at `now`.
///
/// That the app is not running is no error: it comes back as a target that was not
/// found.
pub fn resolve_from(input: &str, rows: Vec<PsEntry>, mode: ExecMode, serial: &str, now: u64) -> (r: ResolveStep)
    ensures
        r@ == opening(input@, views(rows@), mode, serial@).first_step(now),
{
    let start: Resolution = Resolution {
        input: input.to_owned(),
        serial: serial.to_owned(),
        mode,
        rows,
        package: String::new(),
        stage: ResolveStage::Dumpsys,
    };
    assert(start@ =~= opening(input@, views(rows@), mode, serial@));
    let cs: Vec<char> = chars_of(input);
    match i32_of(cs.as_slice()) {
        Some(number) => {
            if row_with_pid(&start.rows, number).is_some() {
                if number <= 0 {
                    let text: String = i32_text(number);
                    return ResolveStep::Done(
                        Err(DroidLogError::InvalidInput(concat2("PID 无效：", text.as_str()))),
                    );
                }
                return ResolveStep::Ask(Resolution { stage: ResolveStage::Cmdline(number), ..start });
            }
            let pids: Vec<i32> = pids_for_uid(start.rows.as_slice(), number);
            if pids.len() > 0 {
                return start.found(AppTargetKind::Uid, None, Some(number), pids, now);
            }
            let reason: String = concat2(
                input,
                " 既不是运行中的 PID，也不是任何进程的 UID —— 应用未开启或不存在",
            );
            start.absent(AppTargetKind::Pid, reason.as_str(), now)
        }
        None => start.ask_uid(input.to_owned()),
    }
}

/// How the resolution of an input begins.
#[derive(Debug)]
pub enum ResolveStart {
    /// A kept resolution is still fresh.
    Hit(AppTarget),
    /// Fetch the `ps` table and resolve this text against it.
    Table(String),
    /// Nothing was typed.
    Refused(DroidLogError),
}

/// Begins to resolve one line of user input, at `now`.
///
/// A resolution that is still fresh is reused, unless `force` is set.
pub fn resolve(resolver: &AppResolver, input: &str, now: u64, force: bool) -> (r: ResolveStart)
    ensures
        ({
            let text = trim(input@, Class::Space);
            if text.len() == 0 {
                r matches ResolveStart::Refused(error) && error@ == ErrorView::InvalidInput("请输入 PID / 包名 / UID"@)
            } else if !force && resolver@.hit(text, now) is Some {
                r matches ResolveStart::Hit(target) && Some(target@) == resolver@.hit(text, now)
            } else {
                r matches ResolveStart::Table(kept) && kept@ == text
            }
        }),
{
    let cs: Vec<char> = chars_of(input);
    let text: String = string_of(trim_of(cs.as_slice(), Class::Space));
    if text.as_str().is_empty() {
        return ResolveStart::Refused(DroidLogError::InvalidInput("请输入 PID / 包名 / UID".to_owned()));
    }
    if !force {
        if let Some(target) = resolver.cached(text.as_str(), now) {
            return ResolveStart::Hit(target);
        }
    }
    ResolveStart::Table(text)
}

/// A package's uid is taken from the first of the three places that shows it, and
/// it is unknown only where none does.
pub proof fn law_first_source_wins(
    q: ResolutionView,
    dumpsys: Seq<char>,
    table: Seq<char>,
    list: Seq<char>,
    now: u64,
)
    requires
        q.stage == ResolveStage::Dumpsys,
    ensures
        ({
            let second = ResolutionView { stage: ResolveStage::PackageTable, ..q };
            let third = ResolutionView { stage: ResolveStage::PackageList, ..q };
            if q.uid_in(dumpsys) is Some {
                q.after_source(dumpsys, now) == q.finish(q.uid_in(dumpsys), now)
            } else {
                &&& q.after_source(dumpsys, now) == StepView::Ask(second)
                &&& if second.uid_in(table) is Some {
                    second.after_source(table, now) == q.finish(second.uid_in(table), now)
                } else {
                    &&& second.after_source(table, now) == StepView::Ask(third)
                    &&& third.after_source(list, now) == q.finish(third.uid_in(list), now)
                }
            }
        }),
{
    let second = ResolutionView { stage: ResolveStage::PackageTable, ..q };
    let third = ResolutionView { stage: ResolveStage::PackageList, ..q };
    assert(ResolutionView { stage: ResolveStage::PackageList, ..second } == third);
    assert(second.finish(second.uid_in(table), now) == q.finish(second.uid_in(table), now));
    assert(third.finish(third.uid_in(list), now) == q.finish(third.uid_in(list), now));
}

/// A number is a process id exactly where a process of that id runs, and a uid only
/// where none does but a process of that uid runs.
pub proof fn law_the_table_decides_what_a_number_is(q: ResolutionView, number: i32, now: u64)
    requires
        parse_i32(q.input) == Some(number),
        number > 0,
    ensures
        has_pid(q.rows, number) <==> q.first_step(now) is Ask,
        (q.first_step(now) matches StepView::Found(target) && target.found) <==> !has_pid(q.rows, number) && uid_pids(
            q.rows,
            number,
        ).len() > 0,
{
}

} // verus!
