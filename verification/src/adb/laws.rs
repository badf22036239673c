//! Where adb is looked for, and when its server is built anew.

use vstd::prelude::*;
use crate::adb::locate::{
    adb_names, bundle_places, filled, found, in_places, plain_places, sdk_places, AdbSource, CandidateView, EnvView,
    PlaceView, TriedView,
};
use crate::adb::server::{daemon_failure, failure_markers};
use crate::adb::{
    devices_plan_view, query_follows, server_follows, version_line, version_plan_view, QueryStage, QueryStep,
};
use crate::error::{ErrorView, Result};
use crate::executor::laws::law_commands_are_shown;
use crate::executor::{without_blank_tail, ExecOutput, PlanView};
use crate::text::class::{ascii_lower, is_space, Class};
use crate::text::laws::{
    is_gap, lacks, law_folded_search, law_lines_read_back, law_trim_reads_back, lemma_in_either, tells,
};
use crate::text::search::{contains, trim};
use crate::text::split::lines;

verus! {

/// The server is taken for broken exactly where adb says one of the things that it says
/// of a broken server, in whatever case; anything else is a problem of a device.
pub proof fn law_broken_servers(text: Seq<char>)
    ensures
        daemon_failure(text) <==> {
            ||| tells(text, "could not read ok from adb server"@)
            ||| tells(text, "failed to start daemon"@)
            ||| tells(text, "cannot connect to daemon"@)
            ||| tells(text, "failed to check server version"@)
            ||| tells(text, "adb server didn't ack"@)
            ||| tells(text, "connection refused"@)
        },
{
    let m = failure_markers();
    reveal_strlit("could not read ok from adb server");
    reveal_strlit("failed to start daemon");
    reveal_strlit("cannot connect to daemon");
    reveal_strlit("failed to check server version");
    reveal_strlit("adb server didn't ack");
    reveal_strlit("connection refused");
    assert(ascii_lower("could not read ok from adb server"@) =~= "could not read ok from adb server"@);
    assert(ascii_lower("failed to start daemon"@) =~= "failed to start daemon"@);
    assert(ascii_lower("cannot connect to daemon"@) =~= "cannot connect to daemon"@);
    assert(ascii_lower("failed to check server version"@) =~= "failed to check server version"@);
    assert(ascii_lower("adb server didn't ack"@) =~= "adb server didn't ack"@);
    assert(ascii_lower("connection refused"@) =~= "connection refused"@);
    law_folded_search(text, "could not read ok from adb server"@);
    law_folded_search(text, "failed to start daemon"@);
    law_folded_search(text, "cannot connect to daemon"@);
    law_folded_search(text, "failed to check server version"@);
    law_folded_search(text, "adb server didn't ack"@);
    law_folded_search(text, "connection refused"@);
    let t = ascii_lower(text);
    assert(m.len() == 6);
    assert(contains(t, m[0]) || contains(t, m[1]) || contains(t, m[2]) || contains(t, m[3]) || contains(t, m[4])
        || contains(t, m[5]) ==> daemon_failure(text));
    if daemon_failure(text) {
        let i = choose|i: int| 0 <= i < m.len() && contains(t, #[trigger] m[i]);
        assert(i == 0 || i == 1 || i == 2 || i == 3 || i == 4 || i == 5);
    }
}

/// A query is answered, retried or given up in this order: a first failure of the server
/// starts it and asks again, a second one builds it anew and asks a last time. A success
/// ends it at once, and so does a failure that is not the server's.
pub proof fn law_a_query_is_retried_twice(
    stage: QueryStage,
    plan: PlanView,
    output: ExecOutput,
    outcome: Result<()>,
    step: QueryStep,
)
    ensures
        !stage.serves() && query_follows(stage, plan, output, step) ==> {
            &&& output.code == 0 ==> step == QueryStep::Done(Ok(output))
            &&& output.code != 0 && stage == QueryStage::First && daemon_failure(output.stderr@) ==> step
                == QueryStep::Next(QueryStage::Bootstrap)
            &&& output.code != 0 && stage == QueryStage::First && !daemon_failure(output.stderr@) ==> (step
                matches QueryStep::Done(Err(error)) && error@ == (ErrorView::AdbCommandFailed {
                command: plan.shown(),
                code: output.code,
                stderr: crate::text::search::trim(output.stderr@, crate::text::class::Class::Space),
            }))
            &&& output.code != 0 && stage == QueryStage::Second ==> step == QueryStep::Next(QueryStage::Rebuild)
            &&& output.code != 0 && stage == QueryStage::Third ==> (step matches QueryStep::Done(Err(error))
                && error@ is AdbCommandFailed && error@->AdbCommandFailed_code == output.code)
        },
        stage.serves() && server_follows(stage, outcome, step) ==> {
            &&& stage == QueryStage::Preflight && outcome is Ok ==> step == QueryStep::Next(QueryStage::First)
            &&& stage == QueryStage::Bootstrap ==> step == QueryStep::Next(QueryStage::Second)
            &&& stage == QueryStage::Rebuild && outcome is Ok ==> step == QueryStep::Next(QueryStage::Third)
            &&& stage != QueryStage::Bootstrap && outcome is Err ==> step is Done
        },
{
}

/// A name under which adb is found on the platform.
pub open spec fn is_adb_name(name: Seq<char>, windows: bool) -> bool {
    name == "adb"@ || (windows && name == "adb.exe"@)
}

/// The file of this name in the place.
pub open spec fn is_file_in(c: CandidateView, base: Seq<char>, dirs: Seq<Seq<char>>, windows: bool) -> bool {
    exists|name: Seq<char>| #[trigger] is_adb_name(name, windows) && c.place == (PlaceView { base, names: dirs.push(name) })
}

/// A place in which adb is looked for, and what it means to find it there.
pub open spec fn is_looked_at(env: EnvView, c: CandidateView) -> bool {
    match c.source {
        AdbSource::EnvOverride => env.override_path matches Some(path) && path.len() > 0 && c.place == (PlaceView {
            base: path,
            names: seq![],
        }),
        AdbSource::BundledResource => exists|i: int|
            0 <= i < env.resource_dirs.len() && (is_file_in(c, #[trigger] env.resource_dirs[i], seq![], env.windows)
                || is_file_in(c, env.resource_dirs[i], seq!["platform-tools"@], env.windows)),
        AdbSource::AndroidSdk => {
            ||| env.android_home matches Some(root) && root.len() > 0 && is_file_in(
                c,
                root,
                seq!["platform-tools"@],
                env.windows,
            )
            ||| env.android_sdk_root matches Some(root) && root.len() > 0 && is_file_in(
                c,
                root,
                seq!["platform-tools"@],
                env.windows,
            )
        },
        AdbSource::PathSearch => exists|i: int|
            0 <= i < env.path_dirs.len() && is_file_in(c, #[trigger] env.path_dirs[i], seq![], env.windows),
        AdbSource::KnownLocation => if env.windows {
            ||| env.local_app_data matches Some(dir) && is_file_in(
                c,
                dir,
                seq!["Android"@, "Sdk"@, "platform-tools"@],
                true,
            )
            ||| env.user_profile matches Some(dir) && is_file_in(
                c,
                dir,
                seq!["AppData"@, "Local"@, "Android"@, "Sdk"@, "platform-tools"@],
                true,
            )
        } else {
            ||| is_file_in(c, "/usr/local/bin"@, seq![], false)
            ||| is_file_in(c, "/usr/bin"@, seq![], false)
            ||| is_file_in(c, "/opt/homebrew/bin"@, seq![], false)
        },
    }
}

pub open spec fn is_file_of(c: CandidateView, place: PlaceView, windows: bool) -> bool {
    is_file_in(c, place.base, place.names, windows)
}

proof fn lemma_in_places(places: Seq<PlaceView>, windows: bool, source: AdbSource, c: CandidateView)
    ensures
        in_places(places, windows, source).contains(c) <==> c.source == source && exists|i: int|
            0 <= i < places.len() && is_file_of(c, #[trigger] places[i], windows),
    decreases places.len(),
{
    if places.len() > 0 {
        let init = places.drop_last();
        let last = places.last();
        lemma_in_places(init, windows, source, c);
        let names = adb_names(windows);
        let here = names.map_values(|name: Seq<char>| CandidateView { place: last.joined(name), source });
        lemma_in_either(in_places(init, windows, source), here, c);
        if here.contains(c) {
            let k = choose|k: int| 0 <= k < here.len() && here[k] == c;
            assert(is_adb_name(names[k], windows));
            assert(is_file_of(c, places[places.len() - 1], windows));
        }
        if c.source == source && is_file_of(c, last, windows) {
            let name = choose|name: Seq<char>| #[trigger]
                is_adb_name(name, windows) && c.place == (PlaceView { base: last.base, names: last.names.push(name) });
            let k: int = if name == "adb"@ && !windows { 0 } else if name == "adb.exe"@ { 0 } else { 1 };
            assert(names[k] == name);
            assert(here[k] == c);
        }
        if in_places(init, windows, source).contains(c) {
            let i = choose|i: int| 0 <= i < init.len() && is_file_of(c, #[trigger] init[i], windows);
            assert(places[i] == init[i]);
        }
        if c.source == source && exists|i: int| 0 <= i < places.len() && is_file_of(c, #[trigger] places[i], windows) {
            let i = choose|i: int| 0 <= i < places.len() && is_file_of(c, #[trigger] places[i], windows);
            if i < init.len() {
                assert(init[i] == places[i]);
            }
        }
    }
}

proof fn lemma_bundles(dirs: Seq<Seq<char>>, c: CandidateView, windows: bool)
    ensures
        (exists|i: int| 0 <= i < bundle_places(dirs).len() && is_file_of(c, #[trigger] bundle_places(dirs)[i], windows))
            <==> exists|i: int|
            0 <= i < dirs.len() && (is_file_in(c, #[trigger] dirs[i], seq![], windows) || is_file_in(
                c,
                dirs[i],
                seq!["platform-tools"@],
                windows,
            )),
    decreases dirs.len(),
{
    if dirs.len() > 0 {
        let init = dirs.drop_last();
        let last = dirs.last();
        lemma_bundles(init, c, windows);
        let before = bundle_places(init);
        let all = bundle_places(dirs);
        let n = before.len() as int;
        assert(all[n] == PlaceView::of(last));
        assert(all[n + 1].names =~= seq!["platform-tools"@] && all[n + 1].base == last);
        if exists|i: int| 0 <= i < all.len() && is_file_of(c, #[trigger] all[i], windows) {
            let i = choose|i: int| 0 <= i < all.len() && is_file_of(c, #[trigger] all[i], windows);
            if i < n {
                assert(before[i] == all[i]);
                let j = choose|j: int|
                    0 <= j < init.len() && (is_file_in(c, #[trigger] init[j], seq![], windows) || is_file_in(
                        c,
                        init[j],
                        seq!["platform-tools"@],
                        windows,
                    ));
                assert(dirs[j] == init[j]);
            } else {
                assert(dirs[dirs.len() - 1] == last);
            }
        }
        if exists|i: int|
            0 <= i < dirs.len() && (is_file_in(c, #[trigger] dirs[i], seq![], windows) || is_file_in(
                c,
                dirs[i],
                seq!["platform-tools"@],
                windows,
            )) {
            let i = choose|i: int|
                0 <= i < dirs.len() && (is_file_in(c, #[trigger] dirs[i], seq![], windows) || is_file_in(
                    c,
                    dirs[i],
                    seq!["platform-tools"@],
                    windows,
                ));
            if i < init.len() {
                assert(init[i] == dirs[i]);
                let j = choose|j: int| 0 <= j < before.len() && is_file_of(c, #[trigger] before[j], windows);
                assert(all[j] == before[j]);
            } else if is_file_in(c, last, seq![], windows) {
                assert(is_file_of(c, all[n], windows));
            } else {
                assert(is_file_of(c, all[n + 1], windows));
            }
        }
    }
}

/// adb is looked for exactly in these places: the override; each resource directory and
/// its `platform-tools`; the `platform-tools` of the SDK; each directory of `PATH`; and
/// where it usually is on the platform.
pub proof fn law_where_adb_is_looked_for(env: EnvView, c: CandidateView)
    ensures
        env.candidates().contains(c) <==> is_looked_at(env, c),
{
    let w = env.windows;
    let overridden = filled(env.override_path).map_values(
        |path: Seq<char>| CandidateView { place: PlaceView::of(path), source: AdbSource::EnvOverride },
    );
    let bundles = in_places(bundle_places(env.resource_dirs), w, AdbSource::BundledResource);
    let sdks = in_places(sdk_places(env.sdk_roots()), w, AdbSource::AndroidSdk);
    let paths = in_places(plain_places(env.path_dirs), w, AdbSource::PathSearch);
    let known = in_places(env.known_locations(), w, AdbSource::KnownLocation);
    lemma_in_either(overridden, bundles, c);
    lemma_in_either(overridden + bundles, sdks, c);
    lemma_in_either(overridden + bundles + sdks, paths, c);
    lemma_in_either(overridden + bundles + sdks + paths, known, c);
    lemma_in_places(bundle_places(env.resource_dirs), w, AdbSource::BundledResource, c);
    lemma_in_places(sdk_places(env.sdk_roots()), w, AdbSource::AndroidSdk, c);
    lemma_in_places(plain_places(env.path_dirs), w, AdbSource::PathSearch, c);
    lemma_in_places(env.known_locations(), w, AdbSource::KnownLocation, c);
    lemma_bundles(env.resource_dirs, c, w);
    assert(overridden.contains(c) <==> c.source == AdbSource::EnvOverride && is_looked_at(env, c)) by {
        if overridden.contains(c) {
            let k = choose|k: int| 0 <= k < overridden.len() && overridden[k] == c;
            assert(c.place.names =~= seq![]);
        }
        if c.source == AdbSource::EnvOverride && is_looked_at(env, c) {
            assert(overridden[0].place =~= c.place);
            assert(overridden[0] == c);
        }
    }
    assert(sdks.contains(c) <==> c.source == AdbSource::AndroidSdk && is_looked_at(env, c)) by {
        lemma_sdks(env, c);
    }
    assert(paths.contains(c) <==> c.source == AdbSource::PathSearch && is_looked_at(env, c)) by {
        let places = plain_places(env.path_dirs);
        if exists|i: int| 0 <= i < places.len() && is_file_of(c, #[trigger] places[i], w) {
            let i = choose|i: int| 0 <= i < places.len() && is_file_of(c, #[trigger] places[i], w);
            assert(is_file_in(c, env.path_dirs[i], seq![], w));
        }
        if exists|i: int| 0 <= i < env.path_dirs.len() && is_file_in(c, #[trigger] env.path_dirs[i], seq![], w) {
            let i = choose|i: int| 0 <= i < env.path_dirs.len() && is_file_in(c, #[trigger] env.path_dirs[i], seq![], w);
            assert(is_file_of(c, places[i], w));
        }
    }
    assert(known.contains(c) <==> c.source == AdbSource::KnownLocation && is_looked_at(env, c)) by {
        lemma_known(env, c);
    }
}

proof fn lemma_sdks(env: EnvView, c: CandidateView)
    ensures
        (exists|i: int|
            0 <= i < sdk_places(env.sdk_roots()).len() && is_file_of(
                c,
                #[trigger] sdk_places(env.sdk_roots())[i],
                env.windows,
            )) <==> is_looked_at(env, CandidateView { source: AdbSource::AndroidSdk, ..c }),
{
    let w = env.windows;
    let d = CandidateView { source: AdbSource::AndroidSdk, ..c };
    let roots = env.sdk_roots();
    let places = sdk_places(roots);
    let home = filled(env.android_home);
    let root = filled(env.android_sdk_root);
    assert forall|i: int| 0 <= i < places.len() implies (#[trigger] places[i]).base == roots[i] && places[i].names
        == seq!["platform-tools"@] by {
        assert(places[i].names =~= seq!["platform-tools"@]);
    }
    assert(forall|base: Seq<char>, dirs: Seq<Seq<char>>| is_file_in(c, base, dirs, w) == is_file_in(d, base, dirs, w));
    if exists|i: int| 0 <= i < places.len() && is_file_of(c, #[trigger] places[i], w) {
        let i = choose|i: int| 0 <= i < places.len() && is_file_of(c, #[trigger] places[i], w);
        if i < home.len() {
            assert(roots[i] == home[i]);
        } else {
            assert(roots[i] == root[i - home.len()]);
        }
    }
    if is_looked_at(env, d) {
        if home.len() > 0 && is_file_in(c, home[0], seq!["platform-tools"@], w) {
            assert(roots[0] == home[0]);
            assert(is_file_of(c, places[0], w));
        } else {
            let k = home.len() as int;
            assert(roots[k] == root[0]);
            assert(is_file_of(c, places[k], w));
        }
    }
}

proof fn lemma_known(env: EnvView, c: CandidateView)
    ensures
        (exists|i: int|
            0 <= i < env.known_locations().len() && is_file_of(c, #[trigger] env.known_locations()[i], env.windows))
            <==> is_looked_at(env, CandidateView { source: AdbSource::KnownLocation, ..c }),
{
    let w = env.windows;
    let d = CandidateView { source: AdbSource::KnownLocation, ..c };
    let places = env.known_locations();
    assert(forall|base: Seq<char>, dirs: Seq<Seq<char>>| is_file_in(c, base, dirs, w) == is_file_in(d, base, dirs, w));
    if exists|i: int| 0 <= i < places.len() && is_file_of(c, #[trigger] places[i], w) {
        let i = choose|i: int| 0 <= i < places.len() && is_file_of(c, #[trigger] places[i], w);
        assert(i == 0 || i == 1 || i == 2);
    }
    if is_looked_at(env, d) {
        if w {
            assert(is_file_of(c, places[0], w) || is_file_of(c, places[1], w));
        } else {
            assert(is_file_of(c, places[0], w) || is_file_of(c, places[1], w) || is_file_of(c, places[2], w));
        }
    }
}

/// The first file that exists is taken, with its origin; an override decides alone; and
/// where nothing exists nothing is found.
pub proof fn law_what_is_found(tried: Seq<TriedView>, i: int)
    ensures
        tried.len() > 0 && tried[0].source == AdbSource::EnvOverride ==> (found(tried) is Ok <==> tried[0].exists),
        0 <= i < tried.len() && tried[i].exists && (i == 0 || tried[0].source != AdbSource::EnvOverride) && (forall|
            j: int,
        | 0 <= j < i ==> !(#[trigger] tried[j]).exists) ==> found(tried) == Ok::<(Seq<char>, AdbSource), Seq<char>>(
            (tried[i].path, tried[i].source),
        ),
        (forall|j: int| 0 <= j < tried.len() ==> !(#[trigger] tried[j]).exists) ==> found(tried) is Err,
{
    if 0 <= i < tried.len() && tried[i].exists && forall|j: int| 0 <= j < i ==> !(#[trigger] tried[j]).exists {
        crate::adb::locate::law_first_candidate_wins(tried, i);
    }
    if forall|j: int| 0 <= j < tried.len() ==> !(#[trigger] tried[j]).exists {
        lemma_none_exists(tried);
    }
}

proof fn lemma_none_exists(tried: Seq<TriedView>)
    requires
        forall|j: int| 0 <= j < tried.len() ==> !(#[trigger] tried[j]).exists,
    ensures
        crate::adb::locate::first_existing(tried) is None,
    decreases tried.len(),
{
    if tried.len() > 0 {
        let rest = tried.skip(1);
        assert forall|j: int| 0 <= j < rest.len() implies !(#[trigger] rest[j]).exists by {
            assert(rest[j] == tried[j + 1]);
        }
        assert(!tried[0].exists);
        lemma_none_exists(rest);
    }
}

proof fn lemma_first_line_stays(line: Seq<char>, rest: Seq<Seq<char>>)
    requires
        trim(line, Class::Space).len() > 0,
    ensures
        without_blank_tail(seq![line] + rest).len() > 0,
        without_blank_tail(seq![line] + rest)[0] == line,
    decreases rest.len(),
{
    let all = seq![line] + rest;
    if rest.len() > 0 {
        assert(all.drop_last() =~= seq![line] + rest.drop_last());
        assert(all[0] == line);
        lemma_first_line_stays(line, rest.drop_last());
    } else {
        assert(all.last() == line);
    }
}

/// The version of adb is the first line that it prints, without the space around it.
pub proof fn law_the_version_is_the_first_line(before: Seq<char>, said: Seq<char>, rest: Seq<char>)
    requires
        is_gap(before),
        said.len() > 0,
        !is_space(said[0]),
        !is_space(said.last()),
        lacks(said, '\n'),
    ensures
        version_line(before + said + seq!['\n'] + rest) == said,
        version_line(Seq::<char>::empty()).len() == 0,
{
    let line = before + said;
    assert(lacks(line, '\n')) by {
        assert forall|i: int| 0 <= i < line.len() implies (#[trigger] line[i]) != '\n' by {
            if i < before.len() {
                assert(line[i] == before[i]);
            } else {
                assert(line[i] == said[i - before.len()]);
            }
        }
    }
    assert(line.last() == said.last());
    law_lines_read_back(line, rest);
    law_trim_reads_back(before, said, seq![]);
    assert(before + said + seq![] =~= line);
    lemma_first_line_stays(line, lines(rest));
    assert(lines(Seq::<char>::empty()) == Seq::<Seq<char>>::empty());
}

/// adb is asked for its devices in full, and for its version.
pub proof fn law_what_adb_is_asked(program: Seq<char>)
    ensures
        devices_plan_view(program).shown() == program + seq![' '] + "devices"@ + seq![' '] + "-l"@,
        version_plan_view(program).shown() == program + seq![' '] + "version"@,
{
    reveal_strlit("devices");
    reveal_strlit("-l");
    reveal_strlit("version");
    let nothing = PlanView { program, args: seq![] };
    let listing = PlanView { program, args: seq!["devices"@] };
    law_commands_are_shown(nothing, "devices"@);
    law_commands_are_shown(nothing, "version"@);
    law_commands_are_shown(listing, "-l"@);
    assert(nothing.args.push("devices"@) =~= seq!["devices"@]);
    assert(nothing.args.push("version"@) =~= seq!["version"@]);
    assert(listing.args.push("-l"@) =~= seq!["devices"@, "-l"@]);
}

} // verus!
