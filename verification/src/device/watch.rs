//! Device discovery: a periodic poll that announces changes.
//!
//! Listing devices is cheap, but probing one takes two more round trips, so a probe
//! is kept for as long as the device keeps its appearance. A device that cannot be
//! probed still appears in the list: an offline device is information, not a
//! failure.

use vstd::prelude::*;
use crate::adb::locate::AdbSource;
use crate::adb::Adb;
use crate::device::probe::{DeviceProbe, ProbeView};
use crate::device::resolve::{AppResolver, AppTarget};
use crate::device::{device_list, parse_device_list, DeviceInfo, DeviceState, DeviceView};
use crate::error::{says, DroidLogError, Result};
use crate::executor::ExecMode;
use crate::state::{AppState, StateView};
use crate::text::chars::{clone_opt, concat3, lemma_views_push, opt_eq, opt_view, push_text, str_eq, views};
use crate::text::map::TextMap;

verus! {

/// Event carrying the full device list whenever it changes.
pub const EVENT_DEVICES: &'static str = "droidlog://devices";

/// Event carrying the followed application whenever its identity changes, as it
/// does when the app restarts under a new process id.
pub const EVENT_APP_TARGET: &'static str = "droidlog://app-target";

/// Poll period, in seconds.
pub const POLL_INTERVAL: u64 = 2;

/// Payload of [`EVENT_DEVICES`].
#[derive(Debug)]
pub struct DevicesEvent {
    /// Whether a usable adb binary was found.
    pub adb_available: bool,
    /// The resolved adb path, when available.
    pub adb_program: Option<String>,
    /// How it was resolved.
    pub adb_source: Option<AdbSource>,
    /// adb's version string, when it could be read.
    pub adb_version: Option<String>,
    /// The current device list.
    pub devices: Vec<DeviceInfo>,
    /// Why adb could not be queried, when that is the case.
    pub error: Option<String>,
}

#[verifier::ext_equal]
pub struct EventView {
    pub adb_available: bool,
    pub adb_program: Option<Seq<char>>,
    pub adb_source: Option<AdbSource>,
    pub adb_version: Option<Seq<char>>,
    pub devices: Seq<DeviceView>,
    pub error: Option<Seq<char>>,
}

impl View for DevicesEvent {
    type V = EventView;

    open spec fn view(&self) -> EventView {
        EventView {
            adb_available: self.adb_available,
            adb_program: opt_view(self.adb_program),
            adb_source: self.adb_source,
            adb_version: opt_view(self.adb_version),
            devices: views(self.devices@),
            error: opt_view(self.error),
        }
    }
}

/// Copies a device list.
pub fn clone_devices(devices: &Vec<DeviceInfo>) -> (r: Vec<DeviceInfo>)
    ensures
        views(r@) == views(devices@),
{
    let mut r: Vec<DeviceInfo> = Vec::new();
    let mut i: usize = 0;
    while i < devices.len()
        invariant
            i <= devices@.len(),
            views(r@) =~= views(devices@).take(i as int),
        decreases devices@.len() - i,
    {
        let device: DeviceInfo = devices[i].clone();
        proof {
            lemma_views_push(r@, device);
            assert(views(devices@)[i as int] == device@);
        }
        r.push(device);
        i += 1;
    }
    assert(views(r@) =~= views(devices@));
    r
}

impl Clone for DevicesEvent {
    fn clone(&self) -> (r: Self)
        ensures
            r@ == self@,
    {
        DevicesEvent {
            adb_available: self.adb_available,
            adb_program: clone_opt(&self.adb_program),
            adb_source: self.adb_source,
            adb_version: clone_opt(&self.adb_version),
            devices: clone_devices(&self.devices),
            error: clone_opt(&self.error),
        }
    }
}

impl DevicesEvent {
    /// There is no adb to ask.
    pub fn without_adb(error: String) -> (r: Self)
        ensures
            r@ == (EventView {
                adb_available: false,
                adb_program: None,
                adb_source: None,
                adb_version: None,
                devices: seq![],
                error: Some(error@),
            }),
    {
        let r: DevicesEvent = DevicesEvent {
            adb_available: false,
            adb_program: None,
            adb_source: None,
            adb_version: None,
            devices: Vec::new(),
            error: Some(error),
        };
        assert(r@.devices =~= seq![]);
        r
    }

    /// adb answered, or failed to: `devices` is then the last known list, because a
    /// single failed poll does not mean that a phone was unplugged.
    pub fn with_adb(adb: &Adb, version: Option<String>, devices: Vec<DeviceInfo>, error: Option<String>) -> (r: Self)
        ensures
            r@ == (EventView {
                adb_available: true,
                adb_program: Some(adb.program_text()),
                adb_source: Some(adb.origin()),
                adb_version: opt_view(version),
                devices: views(devices@),
                error: opt_view(error),
            }),
    {
        DevicesEvent {
            adb_available: true,
            adb_program: Some(adb.program().to_owned()),
            adb_source: Some(adb.source()),
            adb_version: version,
            devices,
            error,
        }
    }
}

/// Requests that wait for the next tick of the poll.
#[derive(Debug)]
pub struct DeviceWatcher {
    /// An immediate tick was asked for.
    wake: bool,
    /// Every device is to be probed anew.
    force_probe: bool,
    /// The next tick announces its result even when nothing changed.
    ///
    /// The first announcement may come before anyone listens, so a repeat can be
    /// asked for.
    resend: bool,
}

#[verifier::ext_equal]
pub struct WatcherView {
    pub wake: bool,
    pub force_probe: bool,
    pub resend: bool,
}

impl View for DeviceWatcher {
    type V = WatcherView;

    closed spec fn view(&self) -> WatcherView {
        WatcherView { wake: self.wake, force_probe: self.force_probe, resend: self.resend }
    }
}

impl Default for DeviceWatcher {
    fn default() -> (r: Self)
        ensures
            r@ == (WatcherView { wake: false, force_probe: false, resend: false }),
    {
        DeviceWatcher { wake: false, force_probe: false, resend: false }
    }
}

impl DeviceWatcher {
    /// Creates a watcher.
    pub fn new() -> (r: Self)
        ensures
            r@ == (WatcherView { wake: false, force_probe: false, resend: false }),
    {
        DeviceWatcher::default()
    }

    /// Requests an immediate tick. A request made between ticks is kept.
    pub fn wake(&mut self)
        ensures
            final(self)@ == (WatcherView { wake: true, ..old(self)@ }),
    {
        self.wake = true;
    }

    /// Requests an immediate tick and a fresh probe of every device.
    ///
    /// The result is announced again, whatever it is: a refresh is never silent.
    pub fn request_probe(&mut self)
        ensures
            final(self)@ == (WatcherView { wake: true, force_probe: true, resend: true }),
    {
        self.force_probe = true;
        self.resend = true;
        self.wake();
    }

    /// Consumes the pending wake-up.
    pub fn take_wake(&mut self) -> (r: bool)
        ensures
            r == old(self)@.wake,
            final(self)@ == (WatcherView { wake: false, ..old(self)@ }),
    {
        let r: bool = self.wake;
        self.wake = false;
        r
    }

    /// Consumes the pending probe request.
    pub fn take_force_probe(&mut self) -> (r: bool)
        ensures
            r == old(self)@.force_probe,
            final(self)@ == (WatcherView { force_probe: false, ..old(self)@ }),
    {
        let r: bool = self.force_probe;
        self.force_probe = false;
        r
    }

    /// Consumes the pending request to announce again.
    pub fn take_resend(&mut self) -> (r: bool)
        ensures
            r == old(self)@.resend,
            final(self)@ == (WatcherView { resend: false, ..old(self)@ }),
    {
        let r: bool = self.resend;
        self.resend = false;
        r
    }
}

/// The appearance of a device: its state, its model and its serial.
pub open spec fn appearance(device: DeviceView) -> Seq<char> {
    let model = match device.model {
        Some(model) => model,
        None => ""@,
    };
    device.state_raw + "|"@ + model + "|"@ + device.serial
}

/// Identity of a device appearance, under which its probe is kept.
///
/// A reconnect, or a different device on the same serial, has another one.
pub fn probe_key(device: &DeviceInfo) -> (r: String)
    ensures
        r@ == appearance(device@),
{
    let model: &str = match &device.model {
        Some(model) => model.as_str(),
        None => "",
    };
    let mut r: String = concat3(device.state_raw.as_str(), "|", model);
    push_text(&mut r, "|");
    push_text(&mut r, device.serial.as_str());
    r
}

/// A kept probe, and the appearance it was taken under.
#[derive(Debug)]
struct ProbeCache {
    key: String,
    probe: DeviceProbe,
}

/// The kept probes, by serial.
#[derive(Debug)]
pub struct ProbeTable {
    entries: TextMap<ProbeCache>,
}

impl View for ProbeTable {
    type V = Map<Seq<char>, (Seq<char>, ProbeView)>;

    closed spec fn view(&self) -> Map<Seq<char>, (Seq<char>, ProbeView)> {
        self.entries@.map_values(|entry: ProbeCache| (entry.key@, entry.probe@))
    }
}

/// A device that can be probed needs it when it is asked for, when it has not been
/// probed, and when it was probed under another appearance.
pub open spec fn probe_needed(
    table: Map<Seq<char>, (Seq<char>, ProbeView)>,
    device: DeviceView,
    force: bool,
) -> bool {
    device.state == DeviceState::Device && (force || !table.dom().contains(device.serial) || table[device.serial].0
        != appearance(device))
}

/// A device with what its kept probe shows.
pub open spec fn probed(table: Map<Seq<char>, (Seq<char>, ProbeView)>, device: DeviceView) -> DeviceView {
    if device.state == DeviceState::Device && table.dom().contains(device.serial) {
        let probe = table[device.serial].1;
        DeviceView {
            android_version: probe.android_version,
            sdk: probe.sdk,
            root_available: Some(probe.root_available),
            root_reason: probe.root_reason,
            ..device
        }
    } else {
        device
    }
}

/// What is kept of a probe that could not be run: nothing but why.
pub open spec fn failed_probe(reason: Seq<char>) -> ProbeView {
    ProbeView { android_version: None, sdk: None, root_available: false, root_reason: Some(reason) }
}

/// The serials of a device list.
pub open spec fn serials(devices: Seq<DeviceView>) -> Seq<Seq<char>> {
    devices.map_values(|device: DeviceView| device.serial)
}

fn serials_of(devices: &Vec<DeviceInfo>) -> (r: Vec<String>)
    ensures
        views(r@) == serials(views(devices@)),
{
    let mut r: Vec<String> = Vec::new();
    let mut i: usize = 0;
    while i < devices.len()
        invariant
            i <= devices@.len(),
            views(r@) =~= serials(views(devices@)).take(i as int),
        decreases devices@.len() - i,
    {
        let serial: String = devices[i].serial.clone();
        proof {
            lemma_views_push(r@, serial);
            assert(views(devices@)[i as int] == devices@[i as int]@);
        }
        r.push(serial);
        i += 1;
    }
    assert(views(r@) =~= serials(views(devices@)));
    r
}

impl ProbeTable {
    /// Nothing has been probed.
    pub fn new() -> (r: Self)
        ensures
            r@ == Map::<Seq<char>, (Seq<char>, ProbeView)>::empty(),
    {
        let r: ProbeTable = ProbeTable { entries: TextMap::new() };
        assert(r@ =~= Map::<Seq<char>, (Seq<char>, ProbeView)>::empty());
        r
    }

    /// Forgets every probe.
    pub fn clear(&mut self)
        ensures
            final(self)@ == Map::<Seq<char>, (Seq<char>, ProbeView)>::empty(),
    {
        self.entries.clear();
        assert(self@ =~= Map::<Seq<char>, (Seq<char>, ProbeView)>::empty());
    }

    /// Forgets the devices that are gone, so that they are probed when they return.
    pub fn retain_present(&mut self, devices: &Vec<DeviceInfo>)
        ensures
            final(self)@ == old(self)@.restrict(
                Set::new(|serial: Seq<char>| serials(views(devices@)).contains(serial)),
            ),
    {
        let present: Vec<String> = serials_of(devices);
        self.entries.retain(&present);
        assert(self@ =~= old(self)@.restrict(
            Set::new(|serial: Seq<char>| serials(views(devices@)).contains(serial)),
        ));
    }

    /// Whether a device must be probed.
    pub fn needs_probe(&self, device: &DeviceInfo, force: bool) -> (r: bool)
        ensures
            r == probe_needed(self@, device@, force),
    {
        if !device.is_usable() {
            return false;
        }
        if force {
            return true;
        }
        match self.entries.get(device.serial.as_str()) {
            Some(entry) => {
                let key: String = probe_key(device);
                !str_eq(entry.key.as_str(), key.as_str())
            }
            None => true,
        }
    }

    /// Keeps the outcome of a probe under the present appearance of the device.
    ///
    /// A failed probe leaves the fields empty; the row is still worth showing.
    pub fn record(&mut self, device: &DeviceInfo, outcome: Result<DeviceProbe>)
        ensures
            exists|probe: ProbeView|
                {
                    &&& final(self)@ == #[trigger] old(self)@.insert(device@.serial, (appearance(device@), probe))
                    &&& match outcome {
                        Ok(found) => probe == found@,
                        Err(error) => exists|reason: Seq<char>|
                            #[trigger] failed_probe(reason) == probe && says(error@, reason),
                    }
                },
    {
        let probe: DeviceProbe = match &outcome {
            Ok(probe) => probe.clone(),
            Err(error) => {
                let reason: String = error.to_string();
                let ghost text = reason@;
                let probe: DeviceProbe = DeviceProbe {
                    android_version: None,
                    sdk: None,
                    root_available: false,
                    root_reason: Some(reason),
                };
                assert(probe@ == failed_probe(text));
                probe
            }
        };
        let ghost kept = probe@;
        let key: String = probe_key(device);
        self.entries.insert(device.serial.clone(), ProbeCache { key, probe });
        assert(self@ =~= old(self)@.insert(device@.serial, (appearance(device@), kept)));
    }

    /// Fills a device in from its kept probe.
    pub fn apply(&self, device: &mut DeviceInfo)
        ensures
            final(device)@ == probed(self@, old(device)@),
    {
        if !device.is_usable() {
            return;
        }
        if let Some(entry) = self.entries.get(device.serial.as_str()) {
            device.android_version = clone_opt(&entry.probe.android_version);
            device.sdk = entry.probe.sdk;
            device.root_available = Some(entry.probe.root_available);
            device.root_reason = clone_opt(&entry.probe.root_reason);
        }
    }
}

/// The rest of a poll in which no device needs a probe: each one is filled in, up to
/// the first that does need one.
pub open spec fn filled_from(
    devices: Seq<DeviceView>,
    next: nat,
    table: Map<Seq<char>, (Seq<char>, ProbeView)>,
    force: bool,
) -> (Seq<DeviceView>, nat)
    decreases devices.len() - next,
{
    if next >= devices.len() || probe_needed(table, devices[next as int], force) {
        (devices, next)
    } else {
        filled_from(devices.update(next as int, probed(table, devices[next as int])), next + 1, table, force)
    }
}

/// One poll under way: the devices up to `next` are settled.
#[derive(Debug)]
pub struct Poll {
    devices: Vec<DeviceInfo>,
    next: usize,
    force: bool,
}

#[verifier::ext_equal]
pub struct PollView {
    pub devices: Seq<DeviceView>,
    pub next: nat,
    pub force: bool,
}

impl View for Poll {
    type V = PollView;

    closed spec fn view(&self) -> PollView {
        PollView { devices: views(self.devices@), next: self.next as nat, force: self.force }
    }
}

proof fn lemma_views_update(devices: Seq<DeviceInfo>, i: int, device: DeviceInfo)
    requires
        0 <= i < devices.len(),
    ensures
        views(devices.update(i, device)) == views(devices).update(i, device@),
{
    assert(views(devices.update(i, device)) =~= views(devices).update(i, device@));
}

impl Poll {
    /// Starts from the answer to `adb devices -l`; devices that are gone are
    /// forgotten.
    pub fn begin(table: &mut ProbeTable, stdout: &str, force: bool) -> (r: Self)
        ensures
            r@ == (PollView { devices: device_list(stdout@), next: 0, force }),
            final(table)@ == old(table)@.restrict(
                Set::new(|serial: Seq<char>| serials(device_list(stdout@)).contains(serial)),
            ),
    {
        let devices: Vec<DeviceInfo> = parse_device_list(stdout);
        table.retain_present(&devices);
        Poll { devices, next: 0, force }
    }

    /// Settles devices from what is kept, up to the first that must be probed, and
    /// gives its serial.
    pub fn next_probe(&mut self, table: &ProbeTable) -> (r: Option<String>)
        ensures
            ({
                let (devices, next) = filled_from(old(self)@.devices, old(self)@.next, table@, old(self)@.force);
                &&& final(self)@ == (PollView { devices, next, ..old(self)@ })
                &&& match r {
                    Some(serial) => next < devices.len() && serial@ == devices[next as int].serial && probe_needed(
                        table@,
                        devices[next as int],
                        old(self)@.force,
                    ),
                    None => next >= devices.len(),
                }
            }),
    {
        while self.next < self.devices.len()
            invariant
                self.force == old(self).force,
                filled_from(self@.devices, self@.next, table@, self@.force) == filled_from(
                    old(self)@.devices,
                    old(self)@.next,
                    table@,
                    old(self)@.force,
                ),
            decreases self.devices@.len() - self.next,
        {
            let i: usize = self.next;
            assert(views(self.devices@)[i as int] == self.devices@[i as int]@);
            if table.needs_probe(&self.devices[i], self.force) {
                return Some(self.devices[i].serial.clone());
            }
            let mut device: DeviceInfo = self.devices[i].clone();
            table.apply(&mut device);
            proof {
                lemma_views_update(self.devices@, i as int, device);
            }
            self.devices.set(i, device);
            self.next = i + 1;
        }
        None
    }

    /// Settles the device that [`Poll::next_probe`] named, with the outcome of its
    /// probe.
    pub fn take_probe(&mut self, table: &mut ProbeTable, outcome: Result<DeviceProbe>)
        requires
            old(self)@.next < old(self)@.devices.len(),
        ensures
            ({
                let i = old(self)@.next as int;
                let device = old(self)@.devices[i];
                &&& final(self)@ == (PollView {
                    devices: old(self)@.devices.update(i, probed(final(table)@, device)),
                    next: old(self)@.next + 1,
                    ..old(self)@
                })
                &&& exists|probe: ProbeView|
                    {
                        &&& final(table)@ == #[trigger] old(table)@.insert(device.serial, (appearance(device), probe))
                        &&& match outcome {
                            Ok(found) => probe == found@,
                            Err(error) => exists|reason: Seq<char>|
                                #[trigger] failed_probe(reason) == probe && says(error@, reason),
                        }
                    }
            }),
    {
        let i: usize = self.next;
        assert(i < self.devices.len());
        assert(views(self.devices@)[i as int] == self.devices@[i as int]@);
        let mut device: DeviceInfo = self.devices[i].clone();
        table.record(&device, outcome);
        table.apply(&mut device);
        proof {
            lemma_views_update(self.devices@, i as int, device);
        }
        self.devices.set(i, device);
        self.next = i + 1;
    }

    /// The settled device list.
    pub fn finish(self) -> (r: Vec<DeviceInfo>)
        ensures
            views(r@) == self@.devices,
    {
        self.devices
    }
}

/// A probe only ever fills in the version, the SDK level and the root fields; a
/// device that cannot be probed is left as it was listed; and a kept probe is
/// reused as long as the device keeps its appearance.
pub proof fn law_probes_fill_in_only(table: Map<Seq<char>, (Seq<char>, ProbeView)>, device: DeviceView, probe: ProbeView)
    ensures
        ({
            let after = probed(table, device);
            &&& after.serial == device.serial && after.state == device.state && after.state_raw == device.state_raw
            &&& after.model == device.model && after.product == device.product && after.device == device.device
            &&& after.transport_id == device.transport_id && after.recovery == device.recovery
            &&& appearance(after) == appearance(device)
            &&& device.state != DeviceState::Device ==> after == device && !probe_needed(table, device, true)
        }),
        !probe_needed(table.insert(device.serial, (appearance(device), probe)), device, false),
{
}

/// A poll that has come to its end has filled in every device that was left from
/// what is kept of it.
pub proof fn law_a_finished_poll_is_filled_in(
    devices: Seq<DeviceView>,
    next: nat,
    table: Map<Seq<char>, (Seq<char>, ProbeView)>,
    force: bool,
    i: int,
)
    requires
        filled_from(devices, next, table, force).1 >= devices.len(),
        0 <= i < devices.len(),
    ensures
        filled_from(devices, next, table, force).0.len() == devices.len(),
        filled_from(devices, next, table, force).0[i] == if i < next { devices[i] } else { probed(table, devices[i]) },
        i >= next ==> !probe_needed(table, devices[i], force),
    decreases devices.len() - next,
{
    if next < devices.len() {
        let here = devices[next as int];
        let rest = devices.update(next as int, probed(table, here));
        law_a_finished_poll_is_filled_in(rest, next + 1, table, force, i);
    }
}

/// How a poll ends, whatever happened in it.
///
/// * Without adb there is no list, and every probe is forgotten.
/// * A query that failed gives the last list with the error, and forgets nothing: a
///   single failure usually means that the server hiccuped, not that the devices went.
/// * A query that succeeded gives its list, and keeps it for the next failure.
pub open spec fn poll_settles(
    s: StateView,
    table: Map<Seq<char>, (Seq<char>, ProbeView)>,
    adb: Result<Adb>,
    version: Option<Seq<char>>,
    queried: Result<Vec<DeviceInfo>>,
    after: StateView,
    kept: Map<Seq<char>, (Seq<char>, ProbeView)>,
    event: EventView,
) -> bool {
    match (adb, queried) {
        (Err(cause), _) => {
            &&& after == s
            &&& kept == Map::<Seq<char>, (Seq<char>, ProbeView)>::empty()
            &&& event.error matches Some(text) && says(cause@, text)
            &&& event == (EventView {
                adb_available: false,
                adb_program: None,
                adb_source: None,
                adb_version: None,
                devices: seq![],
                error: event.error,
            })
        },
        (Ok(adb), Err(cause)) => {
            &&& after == s
            &&& kept == table
            &&& event.error matches Some(text) && says(cause@, text)
            &&& event == (EventView {
                adb_available: true,
                adb_program: Some(adb.program_text()),
                adb_source: Some(adb.origin()),
                adb_version: version,
                devices: s.last_devices,
                error: event.error,
            })
        },
        (Ok(adb), Ok(devices)) => {
            &&& after == (StateView { last_devices: views(devices@), ..s })
            &&& kept == table
            &&& event == (EventView {
                adb_available: true,
                adb_program: Some(adb.program_text()),
                adb_source: Some(adb.origin()),
                adb_version: version,
                devices: views(devices@),
                error: None,
            })
        },
    }
}

/// Ends a poll: what is announced of it, and what is kept for the next one.
///
/// `queried` is the probed list, or why adb could not be asked for it; without adb it
/// is not looked at.
pub fn settle_poll(
    state: &mut AppState,
    table: &mut ProbeTable,
    adb: &Result<Adb>,
    version: Option<String>,
    queried: Result<Vec<DeviceInfo>>,
) -> (r: DevicesEvent)
    ensures
        poll_settles(
            old(state)@,
            old(table)@,
            *adb,
            opt_view(version),
            queried,
            final(state)@,
            final(table)@,
            r@,
        ),
        old(state)@.wf() ==> final(state)@.wf(),
{
    match adb {
        Err(cause) => {
            table.clear();
            DevicesEvent::without_adb(cause.to_string())
        }
        Ok(adb) => match queried {
            Err(cause) => DevicesEvent::with_adb(adb, version, state.last_devices(), Some(cause.to_string())),
            Ok(devices) => {
                state.set_last_devices(clone_devices(&devices));
                DevicesEvent::with_adb(adb, version, devices, None)
            }
        },
    }
}

/// One failed poll cannot blank the list: it shows what the last successful poll
/// showed, and the devices are not probed again on its account.
pub proof fn law_a_failed_poll_keeps_the_list(
    s: StateView,
    table: Map<Seq<char>, (Seq<char>, ProbeView)>,
    adb: Adb,
    version: Option<Seq<char>>,
    devices: Vec<DeviceInfo>,
    later: Option<Seq<char>>,
    cause: DroidLogError,
    s1: StateView,
    table1: Map<Seq<char>, (Seq<char>, ProbeView)>,
    shown: EventView,
    s2: StateView,
    table2: Map<Seq<char>, (Seq<char>, ProbeView)>,
    event: EventView,
)
    requires
        poll_settles(s, table, Ok(adb), version, Ok(devices), s1, table1, shown),
        poll_settles(s1, table1, Ok(adb), later, Err(cause), s2, table2, event),
    ensures
        event.devices == shown.devices,
        event.error is Some,
        s2 == s1,
        table2 == table1,
{
}

/// Whether two devices are the same in every field.
fn same_device(a: &DeviceInfo, b: &DeviceInfo) -> (r: bool)
    ensures
        r == (a@ == b@),
{
    let r: bool = str_eq(a.serial.as_str(), b.serial.as_str()) && a.state == b.state && str_eq(
        a.state_raw.as_str(),
        b.state_raw.as_str(),
    ) && opt_eq(&a.model, &b.model) && opt_eq(&a.product, &b.product) && opt_eq(&a.device, &b.device) && opt_eq(
        &a.transport_id,
        &b.transport_id,
    ) && opt_eq(&a.android_version, &b.android_version) && a.sdk == b.sdk && a.root_available == b.root_available
        && opt_eq(&a.root_reason, &b.root_reason) && a.recovery == b.recovery;
    assert(r ==> a@ =~= b@);
    r
}

/// Whether two device lists are the same in every field and in their order.
pub fn same_devices(a: &Vec<DeviceInfo>, b: &Vec<DeviceInfo>) -> (r: bool)
    ensures
        r == (views(a@) == views(b@)),
{
    assert(views(a@).len() == a@.len() && views(b@).len() == b@.len());
    if a.len() != b.len() {
        return false;
    }
    let mut i: usize = 0;
    while i < a.len()
        invariant
            i <= a@.len(),
            a@.len() == b@.len(),
            forall|j: int| 0 <= j < i ==> views(a@)[j] == views(b@)[j],
        decreases a@.len() - i,
    {
        assert(views(a@)[i as int] == a@[i as int]@ && views(b@)[i as int] == b@[i as int]@);
        if !same_device(&a[i], &b[i]) {
            return false;
        }
        i += 1;
    }
    assert(views(a@) =~= views(b@));
    true
}

/// A poll is worth announcing: on request, the first time, and when the devices,
/// the presence or the path of adb, or the error changed.
pub open spec fn worth_announcing(resend: bool, previous: Option<EventView>, event: EventView) -> bool {
    resend || match previous {
        None => true,
        Some(previous) => previous.devices != event.devices || previous.adb_available != event.adb_available
            || previous.error != event.error || previous.adb_program != event.adb_program,
    }
}

/// Whether a poll is to be announced, given what was announced last.
pub fn changed(resend: bool, previous: &Option<DevicesEvent>, event: &DevicesEvent) -> (r: bool)
    ensures
        r == worth_announcing(resend, opt_view(*previous), event@),
{
    if resend {
        return true;
    }
    match previous {
        None => true,
        Some(previous) => !same_devices(&previous.devices, &event.devices) || previous.adb_available
            != event.adb_available || !opt_eq(&previous.error, &event.error) || !opt_eq(
            &previous.adb_program,
            &event.adb_program,
        ),
    }
}

/// Without a request, repeating what was announced last is silent; a request is
/// always answered.
pub proof fn law_only_changes_are_announced(event: EventView, previous: Option<EventView>)
    ensures
        !worth_announcing(false, Some(event), event),
        worth_announcing(true, previous, event),
{
}

/// Whether the followed application is to be resolved again at `now`: once its kept
/// resolution has expired.
pub fn wants_refresh(target: &Option<AppTarget>, resolver: &AppResolver, now: u64) -> (r: bool)
    ensures
        r == (target matches Some(target) && resolver@.stale(target@.input, now)),
{
    match target {
        Some(target) => resolver.is_stale(target.input.as_str(), now),
        None => false,
    }
}

/// What to do with a fresh resolution of the followed application.
#[derive(Debug)]
pub enum Refresh {
    /// The refresh failed: a transient failure must not drop the filter.
    Keep,
    /// The identity is the same: take the resolution over without a word.
    Quiet(AppTarget),
    /// The identity changed: take the resolution over and announce it.
    Announce(AppTarget),
}

/// Decides what to do with a fresh resolution.
pub fn refresh_active_target(previous: &AppTarget, fresh: Result<AppTarget>) -> (r: Refresh)
    ensures
        match fresh {
            Ok(target) => if previous@.same_identity(target@) {
                r == Refresh::Quiet(target)
            } else {
                r == Refresh::Announce(target)
            },
            Err(_) => r == Refresh::Keep,
        },
{
    match fresh {
        Ok(target) => {
            if previous.same_identity(&target) {
                Refresh::Quiet(target)
            } else {
                Refresh::Announce(target)
            }
        }
        Err(_) => Refresh::Keep,
    }
}

/// Whether Root mode can be offered for a device: it answers, and root has not been
/// shown to be absent.
pub fn root_is_offerable(device: &DeviceInfo) -> (r: bool)
    ensures
        r == (device@.state == DeviceState::Device && device@.root_available != Some(false)),
{
    device.state == DeviceState::Device && match device.root_available {
        Some(available) => available,
        None => true,
    }
}

/// The mode to default to for a device: `Root` when it works, else `Adb`.
pub fn default_mode(device: &DeviceInfo) -> (r: ExecMode)
    ensures
        r == if device@.root_available == Some(true) { ExecMode::Root } else { ExecMode::Adb },
{
    match device.root_available {
        Some(true) => ExecMode::Root,
        _ => ExecMode::Adb,
    }
}

} // verus!
