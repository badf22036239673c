//! The commands of the user interface, as far as they only touch shared state.
//!
//! Each is a thin adapter to the module that owns the behaviour.

use vstd::prelude::*;
use crate::adb::locate::AdbSource;
use crate::adb::Adb;
use crate::collect::report::CollectionReport;
use crate::device::probe::{DeviceProbe, ProbeView};
use crate::device::resolve::{apps_of, parse_ps, ps_table, running_apps, AppTarget, RunningApp};
use crate::device::watch::WatcherView;
use crate::device::{DeviceInfo, DeviceState, DeviceView};
use crate::error::{says, ErrorView, Result};
use crate::executor::ExecOutput;
use crate::filter::{first_fault, FilterRule};
use crate::parser::record::LogRecord;
use crate::process::{stop, stop_all, stoppable_ids, SessionSummary};
use crate::source::{all_kinds, availability, availability_of, spec_of, LogSourceKind, SourceAvailability};
use crate::state::{newest, next_number, report_of, summarises, AppState, StateView};
use crate::text::chars::{chars_of, clone_opt, opt_view, views};
use crate::text::class::Class;
use crate::text::search::{trim, trim_of};

verus! {

/// Static build information.
#[derive(Debug)]
pub struct AppInfo {
    /// Crate name.
    pub name: String,
    /// Crate version.
    pub version: String,
    /// Operating system.
    pub platform: String,
    /// CPU architecture.
    pub arch: String,
    /// True for a debug build.
    pub debug: bool,
}

/// Build metadata of the running application.
pub fn app_info(name: &str, version: &str, platform: &str, arch: &str, debug: bool) -> (r: AppInfo)
    ensures
        r.name@ == name@,
        r.version@ == version@,
        r.platform@ == platform@,
        r.arch@ == arch@,
        r.debug == debug,
{
    AppInfo {
        name: name.to_owned(),
        version: version.to_owned(),
        platform: platform.to_owned(),
        arch: arch.to_owned(),
        debug,
    }
}

/// Result of looking for the adb binary.
///
/// That adb is missing is an ordinary state, not an error.
#[derive(Debug)]
pub struct AdbProbe {
    /// Whether a usable binary was found.
    pub available: bool,
    /// Resolved path, when found.
    pub program: Option<String>,
    /// How it was resolved.
    pub source: Option<AdbSource>,
    /// First line of `adb version`, when it ran.
    pub version: Option<String>,
    /// Every candidate path considered.
    pub candidates: Vec<String>,
    /// Why it is unavailable, when it is.
    pub error: Option<String>,
}

/// What the search for adb came to. A version that could not be read is not fatal.
pub fn probe_adb(adb: Result<Adb>, version: Option<String>, candidates: Vec<String>) -> (r: AdbProbe)
    ensures
        r.candidates == candidates,
        match adb {
            Ok(adb) => r.available && opt_view(r.program) == Some(adb.program_text()) && r.source == Some(
                adb.origin(),
            ) && r.version == version && r.error is None,
            Err(error) => !r.available && r.program is None && r.source is None && r.version is None && (
            r.error matches Some(text) && says(error@, text@)),
        },
{
    match adb {
        Ok(adb) => AdbProbe {
            available: true,
            program: Some(adb.program().to_owned()),
            source: Some(adb.source()),
            version,
            candidates,
            error: None,
        },
        Err(error) => AdbProbe {
            available: false,
            program: None,
            source: None,
            version: None,
            candidates,
            error: Some(error.to_string()),
        },
    }
}

/// A device with the outcome of a probe. A failed probe leaves the fields empty.
pub open spec fn with_probe(device: DeviceView, probe: Option<ProbeView>) -> DeviceView {
    match probe {
        Some(probe) => DeviceView {
            android_version: probe.android_version,
            sdk: probe.sdk,
            root_available: Some(probe.root_available),
            root_reason: probe.root_reason,
            ..device
        },
        None => device,
    }
}

/// Whether a listed device is probed: when it was asked for, and the device answers.
pub fn wants_probe(device: &DeviceInfo, probe: Option<bool>) -> (r: bool)
    ensures
        r == (probe == Some(true) && device@.state == DeviceState::Device),
{
    match probe {
        Some(true) => device.is_usable(),
        _ => false,
    }
}

/// Fills a listed device in from its probe.
pub fn list_devices(device: &mut DeviceInfo, probe: Result<DeviceProbe>)
    ensures
        final(device)@ == with_probe(
            old(device)@,
            match probe {
                Ok(details) => Some(details@),
                Err(_) => None,
            },
        ),
{
    if let Ok(details) = probe {
        device.android_version = clone_opt(&details.android_version);
        device.sdk = details.sdk;
        device.root_available = Some(details.root_available);
        device.root_reason = clone_opt(&details.root_reason);
    }
}

/// Lists every collector with its availability.
pub fn list_sources(root_available: bool, recovery: bool) -> (r: Vec<SourceAvailability>)
    ensures
        r@ == all_kinds().map_values(
            |kind: LogSourceKind| availability_of(spec_of(kind), root_available, recovery),
        ),
{
    availability(root_available, recovery)
}

/// Asks the device poll to probe anew now instead of at its next tick.
pub fn refresh_devices(state: &mut AppState) -> (r: bool)
    ensures
        r,
        final(state)@ == (StateView {
            watcher: (WatcherView { wake: true, force_probe: true, resend: true }),
            ..old(state)@
        }),
        old(state)@.wf() ==> final(state)@.wf(),
{
    state.request_probe();
    true
}

/// Returns the active filter rules.
pub fn get_filters(state: &AppState) -> (r: Vec<FilterRule>)
    ensures
        views(r@) == state@.filters,
{
    state.filters()
}

/// Replaces the active filter rules; where one is invalid the previous ones stay.
pub fn set_filters(state: &mut AppState, rules: Vec<FilterRule>) -> (r: Result<()>)
    ensures
        match r {
            Ok(_) => first_fault(views(rules@)) is None && final(state)@ == (StateView {
                filters: views(rules@),
                filters_version: next_number(old(state)@.filters_version),
                ..old(state)@
            }),
            Err(error) => final(state)@ == old(state)@ && (first_fault(views(rules@)) matches Some(reason)
                && error@ == ErrorView::InvalidFilter(reason)),
        },
        old(state)@.wf() ==> final(state)@.wf(),
{
    state.set_filters(rules)
}

/// Stops a capture session; the answer says whether its reader is to be told.
pub fn stop_capture(state: &mut AppState, session_id: &str) -> (r: Result<bool>)
    ensures
        match r {
            Ok(signal) => old(state)@.session(session_id@) matches Some(session) && signal == session.stoppable
                && final(state)@ == old(state)@.without_session(session_id@),
            Err(error) => old(state)@.session(session_id@) is None && final(state)@ == old(state)@ && error@
                == ErrorView::SessionNotFound(session_id@),
        },
        old(state)@.wf() ==> final(state)@.wf(),
{
    stop(state, session_id)
}

/// The report of a finished collection, or `None` while it is still going.
pub fn get_collect_report(state: &AppState, session_id: &str) -> (r: Option<CollectionReport>)
    ensures
        opt_view(r) == report_of(state@.reports, session_id@),
{
    state.collect_report(session_id)
}

/// Clears the followed application where the input is blank; the answer says whether
/// there is something to resolve.
pub fn clear_app_target(state: &mut AppState, input: &str) -> (r: bool)
    ensures
        r == (trim(input@, Class::Space).len() > 0),
        final(state)@ == if r {
            old(state)@
        } else {
            old(state)@.with_target(None)
        },
        old(state)@.wf() ==> final(state)@.wf(),
{
    let cs: Vec<char> = chars_of(input);
    if trim_of(cs.as_slice(), Class::Space).len() == 0 {
        state.set_app_target(None);
        false
    } else {
        true
    }
}

/// Follows an application that has just been resolved.
pub fn set_app_target(state: &mut AppState, resolved: Result<AppTarget>) -> (r: Result<Option<AppTarget>>)
    ensures
        match (r, resolved) {
            (Ok(Some(kept)), Ok(target)) => kept@ == target@ && final(state)@ == old(state)@.with_target(
                Some(target@),
            ),
            (Err(error), Err(cause)) => error == cause && final(state)@ == old(state)@,
            _ => false,
        },
        old(state)@.wf() ==> final(state)@.wf(),
{
    match resolved {
        Ok(target) => {
            let kept: AppTarget = target.clone();
            state.set_app_target(Some(target));
            Ok(Some(kept))
        }
        Err(error) => Err(error),
    }
}

/// Returns the application currently being followed.
pub fn get_app_target(state: &AppState) -> (r: Option<AppTarget>)
    ensures
        opt_view(r) == state@.app_target,
{
    state.app_target()
}

/// Lists the running applications, given the answer to `ps -A`.
pub fn list_running_apps(ps: Result<ExecOutput>) -> (r: Result<Vec<RunningApp>>)
    ensures
        match (r, ps) {
            (Ok(apps), Ok(output)) => views(apps@) == apps_of(ps_table(output@.stdout)),
            (Err(error), Err(cause)) => error == cause,
            _ => false,
        },
{
    match ps {
        Ok(output) => {
            let rows: Vec<crate::device::resolve::PsEntry> = parse_ps(output.stdout.as_str());
            Ok(running_apps(rows.as_slice()))
        }
        Err(error) => Err(error),
    }
}

/// Stops every session in one call: how many there were, and whose readers are to be
/// told.
pub fn stop_all_captures(state: &mut AppState) -> (r: (usize, Vec<String>))
    ensures
        r.0 as nat == old(state)@.sessions.len(),
        views(r.1@) == stoppable_ids(old(state)@.sessions),
        final(state)@ == (StateView { sessions: seq![], ..old(state)@ }),
        old(state)@.wf() ==> final(state)@.wf(),
{
    let stopped: usize = state.session_count();
    (stopped, stop_all(state))
}

/// Lists all sessions with their counters.
pub fn list_sessions(state: &AppState) -> (r: Vec<SessionSummary>)
    ensures
        r@.len() == state@.sessions.len(),
        forall|i: int| 0 <= i < r@.len() ==> summarises(#[trigger] r@[i], state@.sessions[i]),
{
    state.session_summaries()
}

/// The newest `limit` records of a session, oldest first.
pub fn drain_records(state: &AppState, session_id: &str, limit: Option<usize>) -> (r: Result<Vec<LogRecord>>)
    ensures
        match r {
            Ok(records) => state@.session(session_id@) matches Some(session) && views(records@) == newest(
                session.ring.items,
                limit,
            ),
            Err(error) => state@.session(session_id@) is None && error@ == ErrorView::SessionNotFound(session_id@),
        },
{
    state.session_records(session_id, limit)
}

} // verus!
