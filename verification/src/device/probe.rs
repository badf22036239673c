//! Device interrogation: build properties, root capability, and the process and
//! user ids of a package.
//!
//! A package name becomes part of a device-side command, so it is held to a strict
//! grammar first.

use vstd::prelude::*;
use crate::error::{DroidLogError, ErrorView, Result};
use crate::executor::root::RootProbe;
use crate::executor::ExecOutput;
use crate::text::chars::{chars_of, clone_opt, concat2, opt_view, string_of, views};
use crate::text::class::Class;
use crate::text::number::{i32_of, parse_i32};
use crate::text::order::{number_set, sorted_numbers};
use crate::text::search::{
    after_prefix, after_word, all_in, all_of, any_in, any_of, contains, contains_word, trim, trim_of,
};
use crate::text::split::{lines, lines_of, tokens, tokens_of};

verus! {

/// Properties fetched in a single round trip.
pub const PROP_COMMAND: &'static str = "getprop ro.build.version.release; getprop ro.build.version.sdk";

/// Details of a device beyond `adb devices -l`.
#[derive(Debug)]
pub struct DeviceProbe {
    /// `ro.build.version.release`, e.g. `14`.
    pub android_version: Option<String>,
    /// `ro.build.version.sdk`, e.g. `34`.
    pub sdk: Option<i32>,
    /// Whether `su -c id` succeeded.
    pub root_available: bool,
    /// Why root is unavailable, when it is.
    pub root_reason: Option<String>,
}

#[verifier::ext_equal]
pub struct ProbeView {
    pub android_version: Option<Seq<char>>,
    pub sdk: Option<i32>,
    pub root_available: bool,
    pub root_reason: Option<Seq<char>>,
}

impl View for DeviceProbe {
    type V = ProbeView;

    open spec fn view(&self) -> ProbeView {
        ProbeView {
            android_version: opt_view(self.android_version),
            sdk: self.sdk,
            root_available: self.root_available,
            root_reason: opt_view(self.root_reason),
        }
    }
}

impl Clone for DeviceProbe {
    fn clone(&self) -> (r: Self)
        ensures
            r@ == self@,
    {
        DeviceProbe {
            android_version: clone_opt(&self.android_version),
            sdk: self.sdk,
            root_available: self.root_available,
            root_reason: clone_opt(&self.root_reason),
        }
    }
}

/// Why a text is no package name, if it is none.
pub open spec fn package_fault(package: Seq<char>) -> Option<Seq<char>> {
    if package.len() == 0 {
        Some("包名为空"@)
    } else if package[0] == '.' || package.last() == '.' || contains(package, ".."@) {
        Some("包名格式无效："@ + package)
    } else if !all_in(package, Class::PackageChar) {
        Some("包名包含非法字符："@ + package)
    } else {
        None
    }
}

/// Validates an Android package name before it becomes part of a shell command.
pub fn validate_package(package: &str) -> (r: Result<()>)
    ensures
        match r {
            Ok(_) => package_fault(package@) is None,
            Err(error) => package_fault(package@) matches Some(reason) && error@ == ErrorView::InvalidInput(reason),
        },
{
    let cs: Vec<char> = chars_of(package);
    if cs.len() == 0 {
        return Err(DroidLogError::InvalidInput("包名为空".to_owned()));
    }
    if cs[0] == '.' || cs[cs.len() - 1] == '.' || contains_word(cs.as_slice(), "..") {
        return Err(DroidLogError::InvalidInput(concat2("包名格式无效：", package)));
    }
    if !all_of(cs.as_slice(), Class::PackageChar) {
        return Err(DroidLogError::InvalidInput(concat2("包名包含非法字符：", package)));
    }
    Ok(())
}

/// A valid package name is one shell word that the shell reads as itself.
pub proof fn law_packages_need_no_quoting(package: Seq<char>)
    requires
        package_fault(package) is None,
    ensures
        crate::source::shell::bare_safe(package),
        crate::source::shell::quoted(package) == package,
{
    assert forall|i: int| 0 <= i < package.len() implies Class::ShellSafe.has(#[trigger] package[i]) by {
        assert(Class::PackageChar.has(package[i]));
    }
}

/// Text that can be an Android release, such as `4.4.2`, `13` or `12L`.
pub open spec fn plausible_version(value: Seq<char>) -> bool {
    0 < value.len() <= 16 && value[0] != '.' && any_in(value, Class::Digit) && all_in(value, Class::VersionChar)
}

/// The release and the SDK level that the two properties show.
pub open spec fn props(stdout: Seq<char>) -> (Option<Seq<char>>, Option<i32>) {
    let all = lines(stdout);
    let release = if all.len() > 0 && plausible_version(trim(all[0], Class::Space)) {
        Some(trim(all[0], Class::Space))
    } else {
        None
    };
    let sdk = if all.len() > 1 {
        match parse_i32(trim(all[1], Class::Space)) {
            Some(sdk) if sdk > 0 => Some(sdk),
            _ => None,
        }
    } else {
        None
    };
    (release, sdk)
}

fn is_plausible_version(value: &[char]) -> (r: bool)
    ensures
        r == plausible_version(value@),
{
    value.len() > 0 && value.len() <= 16 && value[0] != '.' && any_of(value, Class::Digit) && all_of(
        value,
        Class::VersionChar,
    )
}

/// Parses the two-line output of [`PROP_COMMAND`].
///
/// `adb shell` merges stderr into stdout, so a device without `getprop` answers
/// with a message of its shell; a value is believed only where its shape fits.
pub fn parse_props(stdout: &str) -> (r: (Option<String>, Option<i32>))
    ensures
        opt_view(r.0) == props(stdout@).0,
        r.1 == props(stdout@).1,
{
    let cs: Vec<char> = chars_of(stdout);
    let all: Vec<&[char]> = lines_of(cs.as_slice());
    assert(views(all@).len() == all@.len());
    let mut release: Option<String> = None;
    if all.len() > 0 {
        assert(views(all@)[0] == all@[0]@);
        let line: &[char] = trim_of(all[0], Class::Space);
        if is_plausible_version(line) {
            release = Some(string_of(line));
        }
    }
    let mut sdk: Option<i32> = None;
    if all.len() > 1 {
        assert(views(all@)[1] == all@[1]@);
        if let Some(number) = i32_of(trim_of(all[1], Class::Space)) {
            if number > 0 {
                sdk = Some(number);
            }
        }
    }
    (release, sdk)
}

/// The positive numbers among words, in order.
pub open spec fn positive_numbers(words: Seq<Seq<char>>) -> Seq<i32>
    decreases words.len(),
{
    if words.len() == 0 {
        seq![]
    } else {
        let before = positive_numbers(words.drop_last());
        match parse_i32(words.last()) {
            Some(n) if n > 0 => before.push(n),
            _ => before,
        }
    }
}

/// Parses `pidof` output into an ascending list of process ids, each once.
pub fn parse_pids(stdout: &str) -> (r: Vec<i32>)
    ensures
        r@ == number_set(positive_numbers(tokens(stdout@))),
{
    let cs: Vec<char> = chars_of(stdout);
    let words: Vec<&[char]> = tokens_of(cs.as_slice());
    let ghost all = views(words@);
    let mut pids: Vec<i32> = Vec::new();
    let mut i: usize = 0;
    while i < words.len()
        invariant
            i <= words@.len(),
            all == views(words@),
            pids@ == positive_numbers(all.take(i as int)),
        decreases words@.len() - i,
    {
        assert(all.take(i as int + 1).drop_last() =~= all.take(i as int));
        assert(all.take(i as int + 1).last() == words@[i as int]@);
        if let Some(n) = i32_of(words[i]) {
            if n > 0 {
                pids.push(n);
            }
        }
        i += 1;
    }
    assert(all.take(i as int) =~= all);
    sorted_numbers(&pids)
}

/// What a rule reads out of the first line that it reads anything out of.
pub open spec fn first_some(all: Seq<Seq<char>>, rule: spec_fn(Seq<char>) -> Option<i32>) -> Option<i32>
    decreases all.len(),
{
    if all.len() == 0 {
        None
    } else {
        match rule(all[0]) {
            Some(n) => Some(n),
            None => first_some(all.skip(1), rule),
        }
    }
}

/// The number that the first word of a text spells.
pub open spec fn leading_number(text: Seq<char>) -> Option<i32> {
    let t = tokens(text);
    if t.len() > 0 {
        parse_i32(t[0])
    } else {
        None
    }
}

/// The executable form of [`leading_number`].
pub(crate) fn leading_number_of(cs: &[char]) -> (r: Option<i32>)
    ensures
        r == leading_number(cs@),
{
    let words: Vec<&[char]> = tokens_of(cs);
    assert(views(words@).len() == words@.len());
    if words.len() > 0 {
        assert(views(words@)[0] == words@[0]@);
        i32_of(words[0])
    } else {
        None
    }
}

/// The uid of a `userId=` line.
pub open spec fn dumpsys_line(line: Seq<char>) -> Option<i32> {
    match after_prefix(trim(line, Class::Space), "userId="@) {
        Some(value) => leading_number(value),
        None => None,
    }
}

pub open spec fn dumpsys_rule() -> spec_fn(Seq<char>) -> Option<i32> {
    |line: Seq<char>| dumpsys_line(line)
}

/// The uid that `dumpsys package` shows.
pub open spec fn dumpsys_uid(stdout: Seq<char>) -> Option<i32> {
    first_some(lines(stdout), dumpsys_rule())
}

/// Extracts `userId=` from `dumpsys package <pkg>` output.
pub fn parse_uid_from_dumpsys(stdout: &str) -> (r: Option<i32>)
    ensures
        r == dumpsys_uid(stdout@),
{
    let cs: Vec<char> = chars_of(stdout);
    let all: Vec<&[char]> = lines_of(cs.as_slice());
    let ghost every = views(all@);
    let mut i: usize = 0;
    assert(every.skip(0) =~= every);
    while i < all.len()
        invariant
            i <= all@.len(),
            every == views(all@),
            every == lines(stdout@),
            first_some(every, dumpsys_rule()) == first_some(every.skip(i as int), dumpsys_rule()),
        decreases all@.len() - i,
    {
        assert(every.skip(i as int)[0] == all@[i as int]@);
        assert(every.skip(i as int).skip(1) =~= every.skip(i as int + 1));
        if let Some(value) = after_word(trim_of(all[i], Class::Space), "userId=") {
            // The line may go on with other fields.
            if let Some(uid) = leading_number_of(value) {
                return Some(uid);
            }
        }
        i += 1;
    }
    None
}

/// What the properties and the root probe of a device come to.
///
/// A device that does not answer for its properties still deserves its row, so
/// that failure degrades to "unknown". A root probe that could not be run at all is
/// an error; that root is absent is not.
pub fn probe_device(props_reply: Result<ExecOutput>, root: Result<RootProbe>) -> (r: Result<DeviceProbe>)
    ensures
        match (r, root) {
            (Ok(probe), Ok(root)) => probe@ == (ProbeView {
                android_version: match props_reply {
                    Ok(output) => props(output@.stdout).0,
                    Err(_) => None,
                },
                sdk: match props_reply {
                    Ok(output) => props(output@.stdout).1,
                    Err(_) => None,
                },
                root_available: root@.available,
                root_reason: root@.reason,
            }),
            (Err(error), Err(cause)) => error == cause,
            _ => false,
        },
{
    let (android_version, sdk): (Option<String>, Option<i32>) = match props_reply {
        Ok(output) => parse_props(output.stdout.as_str()),
        Err(_) => (None, None),
    };
    match root {
        Ok(root) => Ok(
            DeviceProbe { android_version, sdk, root_available: root.available, root_reason: root.reason },
        ),
        Err(error) => Err(error),
    }
}

/// A command that names a package.
pub open spec fn about_package(prefix: Seq<char>, package: Seq<char>) -> Seq<char> {
    prefix + package
}

/// `<prefix><package>`, for a valid package name.
fn package_command(prefix: &str, package: &str) -> (r: Result<String>)
    ensures
        match r {
            Ok(command) => package_fault(package@) is None && command@ == about_package(prefix@, package@),
            Err(error) => package_fault(package@) matches Some(reason) && error@ == ErrorView::InvalidInput(reason),
        },
{
    match validate_package(package) {
        Ok(_) => Ok(concat2(prefix, package)),
        Err(error) => Err(error),
    }
}

/// The command that lists the processes of a package.
pub fn pidof_command(package: &str) -> (r: Result<String>)
    ensures
        match r {
            Ok(command) => package_fault(package@) is None && command@ == about_package("pidof "@, package@),
            Err(error) => package_fault(package@) matches Some(reason) && error@ == ErrorView::InvalidInput(reason),
        },
{
    package_command("pidof ", package)
}

/// The command that shows the record of a package.
pub fn dumpsys_command(package: &str) -> (r: Result<String>)
    ensures
        match r {
            Ok(command) => package_fault(package@) is None && command@ == about_package("dumpsys package "@, package@),
            Err(error) => package_fault(package@) matches Some(reason) && error@ == ErrorView::InvalidInput(reason),
        },
{
    package_command("dumpsys package ", package)
}

/// What follows the answer to `pidof`.
#[derive(Debug)]
pub enum PidStep {
    /// The processes are known, the transport failed, or the name is no package.
    Done(Result<Vec<i32>>),
    /// Older toolboxes have no `pidof`; run this command instead.
    Fallback(String),
}

/// Every process of `package`, given the answer to `pidof`: where it names none,
/// `pgrep` is asked. A malformed name is refused before anything else.
pub fn resolve_pids(package: &str, pidof: Result<ExecOutput>) -> (r: PidStep)
    ensures
        match (package_fault(package@), pidof) {
            (Some(reason), _) => r matches PidStep::Done(Err(error)) && error@ == ErrorView::InvalidInput(reason),
            (None, Ok(output)) => {
                let pids = number_set(positive_numbers(tokens(output@.stdout)));
                if pids.len() > 0 {
                    r matches PidStep::Done(Ok(list)) && list@ == pids
                } else {
                    r matches PidStep::Fallback(command) && command@ == about_package("pgrep -f "@, package@)
                }
            },
            (None, Err(error)) => r == PidStep::Done(Err(error)),
        },
{
    let fallback: String = match package_command("pgrep -f ", package) {
        Ok(command) => command,
        Err(error) => return PidStep::Done(Err(error)),
    };
    match pidof {
        Ok(output) => {
            let pids: Vec<i32> = parse_pids(output.stdout.as_str());
            if pids.len() > 0 {
                PidStep::Done(Ok(pids))
            } else {
                PidStep::Fallback(fallback)
            }
        }
        Err(error) => PidStep::Done(Err(error)),
    }
}

/// Every process of a package, given the answer to `pgrep`.
pub fn resolve_pids_fallback(pgrep: Result<ExecOutput>) -> (r: Result<Vec<i32>>)
    ensures
        match (r, pgrep) {
            (Ok(pids), Ok(output)) => pids@ == number_set(positive_numbers(tokens(output@.stdout))),
            (Err(error), Err(cause)) => error == cause,
            _ => false,
        },
{
    match pgrep {
        Ok(output) => Ok(parse_pids(output.stdout.as_str())),
        Err(error) => Err(error),
    }
}

/// The main process among the processes of a package: the lowest id.
pub fn resolve_pid(pids: Result<Vec<i32>>) -> (r: Result<Option<i32>>)
    ensures
        match (r, pids) {
            (Ok(pid), Ok(pids)) => pid == if pids@.len() > 0 { Some(pids@[0]) } else { None::<i32> },
            (Err(error), Err(cause)) => error == cause,
            _ => false,
        },
{
    match pids {
        Ok(pids) => Ok(
            if pids.len() > 0 {
                Some(pids[0])
            } else {
                None
            },
        ),
        Err(error) => Err(error),
    }
}

/// The uid of `package`, given the answer to [`dumpsys_command`]. A malformed name is
/// refused before anything else.
pub fn resolve_uid(package: &str, dumpsys: Result<ExecOutput>) -> (r: Result<Option<i32>>)
    ensures
        match (package_fault(package@), dumpsys) {
            (Some(reason), _) => r matches Err(error) && error@ == ErrorView::InvalidInput(reason),
            (None, Ok(output)) => r matches Ok(uid) && uid == dumpsys_uid(output@.stdout),
            (None, Err(cause)) => r matches Err(error) && error == cause,
        },
{
    if let Err(error) = validate_package(package) {
        return Err(error);
    }
    match dumpsys {
        Ok(output) => Ok(parse_uid_from_dumpsys(output.stdout.as_str())),
        Err(error) => Err(error),
    }
}

} // verus!
