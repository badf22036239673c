//! The device model, and what `adb devices -l` says.
//!
//! The parser is permissive: future device states are preserved rather than
//! rejected.

pub mod laws;
pub mod probe;
pub mod resolve;
pub mod watch;

pub use crate::device::probe::{probe_device, resolve_pid, resolve_pids, resolve_uid, DeviceProbe};
pub use crate::device::resolve::{
    AppResolver, AppTarget, AppTargetKind, Prefilter, RunningApp, CACHE_TTL as APP_TARGET_TTL,
};
pub use crate::device::watch::{default_mode, root_is_offerable, DeviceWatcher, EVENT_DEVICES, POLL_INTERVAL};

use vstd::prelude::*;
use crate::text::chars::{
    chars_of, clone_opt, concat2, concat3, is_word, lemma_views_push, opt_view, push_text, string_of, views,
};
use crate::text::class::{ascii_lower, to_ascii_lower, Class};
use crate::text::number::{dec_int, i32_text};
use crate::text::search::{ends_with, ends_with_word, starts_with, starts_with_word, trim, trim_of};
use crate::text::split::{lines, lines_of, split_once, split_once_on, tokens, tokens_of};

verus! {

/// Connection state reported by adb.
#[derive(Debug, Clone, Copy, PartialEq, Eq, Structural)]
pub enum DeviceState {
    /// Ready for commands.
    Device,
    /// Visible but not answering.
    Offline,
    /// USB debugging not yet authorised on the device.
    Unauthorized,
    /// In the bootloader menu.
    Bootloader,
    /// Booted into recovery.
    Recovery,
    /// In sideload mode.
    Sideload,
    /// A state that has no name here; see `state_raw`.
    Unknown,
}

impl DeviceState {
    /// The state that an adb token stands for.
    pub open spec fn of_token(token: Seq<char>) -> DeviceState {
        if token == "device"@ {
            DeviceState::Device
        } else if token == "offline"@ {
            DeviceState::Offline
        } else if token == "unauthorized"@ {
            DeviceState::Unauthorized
        } else if token == "bootloader"@ {
            DeviceState::Bootloader
        } else if token == "recovery"@ {
            DeviceState::Recovery
        } else if token == "sideload"@ {
            DeviceState::Sideload
        } else {
            DeviceState::Unknown
        }
    }

    fn of_chars(token: &[char]) -> (r: Self)
        ensures
            r == DeviceState::of_token(token@),
    {
        if is_word(token, "device") {
            DeviceState::Device
        } else if is_word(token, "offline") {
            DeviceState::Offline
        } else if is_word(token, "unauthorized") {
            DeviceState::Unauthorized
        } else if is_word(token, "bootloader") {
            DeviceState::Bootloader
        } else if is_word(token, "recovery") {
            DeviceState::Recovery
        } else if is_word(token, "sideload") {
            DeviceState::Sideload
        } else {
            DeviceState::Unknown
        }
    }

    /// Classifies an adb state token.
    pub fn from_token(token: &str) -> (r: Self)
        ensures
            r == DeviceState::of_token(token@),
    {
        let cs: Vec<char> = chars_of(token);
        DeviceState::of_chars(cs.as_slice())
    }

    /// True when the device can accept shell commands.
    pub fn is_usable(self) -> (r: bool)
        ensures
            r == (self == DeviceState::Device),
    {
        self == DeviceState::Device
    }
}

/// One attached device.
#[derive(Debug)]
pub struct DeviceInfo {
    /// adb serial, e.g. `emulator-5554` or `192.168.1.5:5555`.
    pub serial: String,
    /// Normalised connection state.
    pub state: DeviceState,
    /// The state as adb wrote it.
    pub state_raw: String,
    /// `ro.product.model`, with spaces for underscores.
    pub model: Option<String>,
    /// `ro.product.name`.
    pub product: Option<String>,
    /// `ro.product.device`.
    pub device: Option<String>,
    /// adb transport id.
    pub transport_id: Option<String>,
    /// `ro.build.version.release`, once probed.
    pub android_version: Option<String>,
    /// `ro.build.version.sdk`, once probed.
    pub sdk: Option<i32>,
    /// Whether `su -c` works, once probed.
    pub root_available: Option<bool>,
    /// Why root is unavailable, when it is.
    pub root_reason: Option<String>,
    /// Whether the device booted into recovery or sideload, where there is no
    /// `logcat` and other collectors apply.
    pub recovery: bool,
}

#[verifier::ext_equal]
pub struct DeviceView {
    pub serial: Seq<char>,
    pub state: DeviceState,
    pub state_raw: Seq<char>,
    pub model: Option<Seq<char>>,
    pub product: Option<Seq<char>>,
    pub device: Option<Seq<char>>,
    pub transport_id: Option<Seq<char>>,
    pub android_version: Option<Seq<char>>,
    pub sdk: Option<i32>,
    pub root_available: Option<bool>,
    pub root_reason: Option<Seq<char>>,
    pub recovery: bool,
}

impl View for DeviceInfo {
    type V = DeviceView;

    open spec fn view(&self) -> DeviceView {
        DeviceView {
            serial: self.serial@,
            state: self.state,
            state_raw: self.state_raw@,
            model: opt_view(self.model),
            product: opt_view(self.product),
            device: opt_view(self.device),
            transport_id: opt_view(self.transport_id),
            android_version: opt_view(self.android_version),
            sdk: self.sdk,
            root_available: self.root_available,
            root_reason: opt_view(self.root_reason),
            recovery: self.recovery,
        }
    }
}

impl Clone for DeviceInfo {
    fn clone(&self) -> (r: Self)
        ensures
            r@ == self@,
    {
        DeviceInfo {
            serial: self.serial.clone(),
            state: self.state,
            state_raw: self.state_raw.clone(),
            model: clone_opt(&self.model),
            product: clone_opt(&self.product),
            device: clone_opt(&self.device),
            transport_id: clone_opt(&self.transport_id),
            android_version: clone_opt(&self.android_version),
            sdk: self.sdk,
            root_available: self.root_available,
            root_reason: clone_opt(&self.root_reason),
            recovery: self.recovery,
        }
    }
}

/// Whether a transport is a device running recovery or sideload.
pub open spec fn in_recovery(serial: Seq<char>, state: DeviceState, raw_state: Seq<char>) -> bool {
    let word = ascii_lower(trim(raw_state, Class::Space));
    ||| state == DeviceState::Recovery
    ||| state == DeviceState::Sideload
    ||| word == "recovery"@
    ||| word == "sideload"@
    ||| ends_with(ascii_lower(serial), "_recovery"@)
}

impl DeviceView {
    /// A device of which nothing more is known.
    pub open spec fn bare(serial: Seq<char>, state: DeviceState, raw_state: Seq<char>) -> DeviceView {
        DeviceView {
            serial,
            state,
            state_raw: raw_state,
            model: None,
            product: None,
            device: None,
            transport_id: None,
            android_version: None,
            sdk: None,
            root_available: None,
            root_reason: None,
            recovery: in_recovery(serial, state, raw_state),
        }
    }

    /// The device with one more `key:value` token read; an unknown key is ignored.
    pub open spec fn with_token(self, token: Seq<char>) -> DeviceView {
        match split_once(token, Class::One(':')) {
            Some((key, value)) => if key == "model"@ {
                DeviceView { model: Some(prettified(value)), ..self }
            } else if key == "product"@ {
                DeviceView { product: Some(value), ..self }
            } else if key == "device"@ {
                DeviceView { device: Some(value), ..self }
            } else if key == "transport_id"@ {
                DeviceView { transport_id: Some(value), ..self }
            } else {
                self
            },
            None => self,
        }
    }

    pub open spec fn with_tokens(self, all: Seq<Seq<char>>) -> DeviceView
        decreases all.len(),
    {
        if all.len() == 0 {
            self
        } else {
            self.with_tokens(all.drop_last()).with_token(all.last())
        }
    }

    /// `Android 14 (SDK 34)`, as far as it is known.
    pub open spec fn android_label(self) -> Option<Seq<char>> {
        match (self.android_version, self.sdk) {
            (Some(version), Some(sdk)) => Some("Android "@ + version + " (SDK "@ + dec_int(sdk as int) + ")"@),
            (Some(version), None) => Some("Android "@ + version),
            (None, Some(sdk)) => Some("SDK "@ + dec_int(sdk as int)),
            (None, None) => None,
        }
    }
}

/// Trimmed, with spaces for underscores.
pub open spec fn prettified(value: Seq<char>) -> Seq<char> {
    trim(value, Class::Space).map_values(|c: char| if c == '_' { ' ' } else { c })
}

/// The device of one line: a serial, a state, and tokens.
pub open spec fn device_line(line: Seq<char>) -> Option<DeviceView> {
    let t = tokens(line);
    if t.len() >= 2 {
        Some(DeviceView::bare(t[0], DeviceState::of_token(t[1]), t[1]).with_tokens(t.skip(2)))
    } else {
        None
    }
}

/// A line of the list that is a notice and not a device.
pub open spec fn notice(line: Seq<char>) -> bool {
    starts_with(line, "List of devices"@) || starts_with(line, "*"@)
}

/// The devices among lines.
pub open spec fn devices_in(all: Seq<Seq<char>>) -> Seq<DeviceView>
    decreases all.len(),
{
    if all.len() == 0 {
        seq![]
    } else {
        let before = devices_in(all.drop_last());
        let line = trim(all.last(), Class::Space);
        match device_line(line) {
            Some(device) => if notice(line) {
                before
            } else {
                before.push(device)
            },
            None => before,
        }
    }
}

/// The devices that `adb devices -l` lists.
pub open spec fn device_list(raw: Seq<char>) -> Seq<DeviceView> {
    devices_in(lines(raw))
}

impl DeviceInfo {
    /// A device with only the fields that `adb devices -l` provides.
    pub fn new(serial: &str, state: DeviceState, raw_state: &str) -> (r: Self)
        ensures
            r@ == DeviceView::bare(serial@, state, raw_state@),
    {
        DeviceInfo {
            serial: serial.to_owned(),
            state,
            state_raw: raw_state.to_owned(),
            model: None,
            product: None,
            device: None,
            transport_id: None,
            android_version: None,
            sdk: None,
            root_available: None,
            root_reason: None,
            recovery: is_recovery(serial, state, raw_state),
        }
    }

    /// Best available display name: model, else serial.
    pub fn display_name(&self) -> (r: &str)
        ensures
            r@ == match self@.model {
                Some(model) => model,
                None => self@.serial,
            },
    {
        match &self.model {
            Some(model) => model.as_str(),
            None => self.serial.as_str(),
        }
    }

    /// `Android 14 (SDK 34)` when known.
    pub fn android_label(&self) -> (r: Option<String>)
        ensures
            opt_view(r) == self@.android_label(),
    {
        match (&self.android_version, self.sdk) {
            (Some(version), Some(sdk)) => {
                let number: String = i32_text(sdk);
                let mut text: String = concat3("Android ", version.as_str(), " (SDK ");
                push_text(&mut text, number.as_str());
                push_text(&mut text, ")");
                Some(text)
            }
            (Some(version), None) => Some(concat2("Android ", version.as_str())),
            (None, Some(sdk)) => {
                let number: String = i32_text(sdk);
                Some(concat2("SDK ", number.as_str()))
            }
            (None, None) => None,
        }
    }

    /// True when the device is ready for capture.
    pub fn is_usable(&self) -> (r: bool)
        ensures
            r == (self@.state == DeviceState::Device),
    {
        self.state.is_usable()
    }
}

fn prettify(value: &[char]) -> (r: String)
    ensures
        r@ == prettified(value@),
{
    let cs: &[char] = trim_of(value, Class::Space);
    let mut r: String = String::new();
    let mut i: usize = 0;
    while i < cs.len()
        invariant
            i <= cs@.len(),
            cs@ == trim(value@, Class::Space),
            r@ =~= prettified(value@).take(i as int),
        decreases cs@.len() - i,
    {
        r.push(if cs[i] == '_' { ' ' } else { cs[i] });
        i += 1;
    }
    r
}

/// Android reports product and model names with underscores for spaces.
pub fn prettify_prop(value: &str) -> (r: String)
    ensures
        r@ == prettified(value@),
{
    let cs: Vec<char> = chars_of(value);
    prettify(cs.as_slice())
}

/// Whether a transport is a device running recovery or sideload.
///
/// Neither signal is universal: most builds report the state of the transport, and
/// the serial of a device booted into recovery may carry a `_recovery` suffix.
pub fn is_recovery(serial: &str, state: DeviceState, raw_state: &str) -> (r: bool)
    ensures
        r == in_recovery(serial@, state, raw_state@),
{
    if state == DeviceState::Recovery || state == DeviceState::Sideload {
        return true;
    }
    let raw: Vec<char> = chars_of(raw_state);
    let word: Vec<char> = to_ascii_lower(trim_of(raw.as_slice(), Class::Space));
    if is_word(word.as_slice(), "recovery") || is_word(word.as_slice(), "sideload") {
        return true;
    }
    let name: Vec<char> = chars_of(serial);
    let lower: Vec<char> = to_ascii_lower(name.as_slice());
    ends_with_word(lower.as_slice(), "_recovery")
}

fn device_of(line: &[char]) -> (r: Option<DeviceInfo>)
    ensures
        opt_view(r) == device_line(line@),
{
    let words: Vec<&[char]> = tokens_of(line);
    let ghost t = tokens(line@);
    assert(views(words@).len() == words@.len());
    if words.len() < 2 {
        return None;
    }
    assert(t[0] == words@[0]@ && t[1] == words@[1]@) by {
        assert(views(words@)[0] == words@[0]@ && views(words@)[1] == words@[1]@);
    }
    let serial: String = string_of(words[0]);
    let raw_state: String = string_of(words[1]);
    let mut device: DeviceInfo = DeviceInfo::new(
        serial.as_str(),
        DeviceState::of_chars(words[1]),
        raw_state.as_str(),
    );
    let ghost start = device@;
    let ghost rest = t.skip(2);
    let mut i: usize = 2;
    assert(rest.take(0) =~= seq![]);
    while i < words.len()
        invariant
            2 <= i <= words@.len(),
            t == views(words@),
            rest == t.skip(2),
            device@ == start.with_tokens(rest.take(i - 2)),
        decreases words@.len() - i,
    {
        assert(rest.take(i - 1).drop_last() =~= rest.take(i - 2));
        assert(rest.take(i - 1).last() == words@[i as int]@);
        if let Some((key, value)) = split_once_on(words[i], Class::One(':')) {
            if is_word(key, "model") {
                device.model = Some(prettify(value));
            } else if is_word(key, "product") {
                device.product = Some(string_of(value));
            } else if is_word(key, "device") {
                device.device = Some(string_of(value));
            } else if is_word(key, "transport_id") {
                device.transport_id = Some(string_of(value));
            }
        }
        i += 1;
    }
    assert(rest.take(i - 2) =~= rest);
    Some(device)
}

/// Parses one `serial state key:value ...` line.
pub fn parse_device_line(line: &str) -> (r: Option<DeviceInfo>)
    ensures
        opt_view(r) == device_line(line@),
{
    let cs: Vec<char> = chars_of(line);
    device_of(cs.as_slice())
}

/// Parses `adb devices -l` output.
///
/// Tolerates the banner line, `* daemon started *` notices, blank lines and unknown
/// `key:value` pairs.
pub fn parse_device_list(raw: &str) -> (r: Vec<DeviceInfo>)
    ensures
        views(r@) == device_list(raw@),
{
    let cs: Vec<char> = chars_of(raw);
    let all: Vec<&[char]> = lines_of(cs.as_slice());
    let ghost every = views(all@);
    let mut r: Vec<DeviceInfo> = Vec::new();
    assert(views(r@) =~= seq![]);
    let mut i: usize = 0;
    while i < all.len()
        invariant
            i <= all@.len(),
            every == views(all@),
            views(r@) == devices_in(every.take(i as int)),
        decreases all@.len() - i,
    {
        assert(every.take(i as int + 1).drop_last() =~= every.take(i as int));
        assert(every.take(i as int + 1).last() == all@[i as int]@);
        let line: &[char] = trim_of(all[i], Class::Space);
        if !starts_with_word(line, "List of devices") && !starts_with_word(line, "*") {
            if let Some(device) = device_of(line) {
                proof {
                    lemma_views_push(r@, device);
                }
                r.push(device);
            }
        }
        i += 1;
    }
    assert(every.take(i as int) =~= every);
    r
}

} // verus!
