//! Locating the `adb` executable.
//!
//! Search order, highest priority first: the `DROIDLOG_ADB` environment variable; a
//! binary shipped with the application, in the registered resource directories; a
//! real SDK install; `PATH`; the well-known install locations of the platform.
//!
//! What the environment says comes in as plain text ([`SearchEnv`]). A candidate is
//! a base directory and the names to be joined to it, so the search order does not
//! depend on how a platform writes paths.

use vstd::prelude::*;
use crate::error::{DroidLogError, ErrorView, Result};
use crate::text::chars::{clone_strings, concat2, concat3, lemma_views_push, opt_view, push_text, strings_eq, views};
use crate::text::split::{join, join_strings};

verus! {

/// Environment variable that overrides discovery entirely.
pub const ADB_OVERRIDE_ENV: &'static str = "DROIDLOG_ADB";

/// Where the resolved binary came from.
#[derive(Debug, Clone, Copy, PartialEq, Eq, Structural)]
pub enum AdbSource {
    /// `DROIDLOG_ADB` pointed straight at a binary.
    EnvOverride,
    /// Shipped inside the application's resource directory.
    BundledResource,
    /// Resolved from `ANDROID_HOME` or `ANDROID_SDK_ROOT`.
    AndroidSdk,
    /// Found on `PATH`.
    PathSearch,
    /// Found in a well-known directory of the platform.
    KnownLocation,
}

/// The directories registered as containing a bundled adb, once they are.
#[derive(Debug)]
pub struct ResourceDirs {
    dirs: Option<Vec<String>>,
}

impl View for ResourceDirs {
    type V = Option<Seq<Seq<char>>>;

    closed spec fn view(&self) -> Option<Seq<Seq<char>>> {
        match self.dirs {
            Some(dirs) => Some(views(dirs@)),
            None => None,
        }
    }
}

/// The text of a list of paths in an error message.
pub uninterp spec fn list_text(items: Seq<Seq<char>>) -> Seq<char>;

/// Formats a list with the `Debug` form of `Vec<String>`. The text depends on the
/// items alone; how they are quoted and separated is not said.
#[verifier::external_body]
fn debug_list(items: &Vec<String>) -> (r: String)
    ensures
        r@ == list_text(views(items@)),
{
    format!("{:?}", items)
}

impl ResourceDirs {
    /// Nothing registered yet.
    pub fn new() -> (r: Self)
        ensures
            r@ is None,
    {
        ResourceDirs { dirs: None }
    }
}

/// Registers directories to search for a bundled adb, before `PATH`.
///
/// Only the first call takes effect. Registering the same list again is accepted;
/// a different list is an error, because two components would disagree about where
/// the bundled adb lives.
pub fn register_resource_dirs(registry: &mut ResourceDirs, dirs: Vec<String>) -> (r: Result<()>)
    ensures
        match old(registry)@ {
            None => r is Ok && final(registry)@ == Some(views(dirs@)),
            Some(existing) => final(registry)@ == old(registry)@ && match r {
                Ok(_) => existing == views(dirs@),
                Err(error) => existing != views(dirs@) && error@ == ErrorView::Internal(
                    "adb 资源目录已注册为 "@ + list_text(existing) + "，无法改为 "@ + list_text(views(dirs@)),
                ),
            },
        },
{
    match &registry.dirs {
        Some(existing) => {
            if strings_eq(existing, &dirs) {
                Ok(())
            } else {
                let before: String = debug_list(existing);
                let after: String = debug_list(&dirs);
                let mut text: String = concat3("adb 资源目录已注册为 ", before.as_str(), "，无法改为 ");
                push_text(&mut text, after.as_str());
                Err(DroidLogError::Internal(text))
            }
        }
        None => {
            registry.dirs = Some(dirs);
            Ok(())
        }
    }
}

/// The registered resource directories, or an empty list when none were set.
pub fn resource_dirs(registry: &ResourceDirs) -> (r: Vec<String>)
    ensures
        views(r@) == match registry@ {
            Some(dirs) => dirs,
            None => seq![],
        },
{
    match &registry.dirs {
        Some(dirs) => clone_strings(dirs),
        None => {
            let r: Vec<String> = Vec::new();
            assert(views(r@) =~= seq![]);
            r
        }
    }
}

/// What the environment says about where adb may be.
#[derive(Debug)]
pub struct SearchEnv {
    /// Whether the platform is Windows.
    pub windows: bool,
    /// The value of [`ADB_OVERRIDE_ENV`].
    pub override_path: Option<String>,
    /// The registered resource directories.
    pub resource_dirs: Vec<String>,
    /// The value of `ANDROID_HOME`.
    pub android_home: Option<String>,
    /// The value of `ANDROID_SDK_ROOT`.
    pub android_sdk_root: Option<String>,
    /// The directories of `PATH`.
    pub path_dirs: Vec<String>,
    /// The value of `LOCALAPPDATA`.
    pub local_app_data: Option<String>,
    /// The value of `USERPROFILE`.
    pub user_profile: Option<String>,
}

#[verifier::ext_equal]
pub struct EnvView {
    pub windows: bool,
    pub override_path: Option<Seq<char>>,
    pub resource_dirs: Seq<Seq<char>>,
    pub android_home: Option<Seq<char>>,
    pub android_sdk_root: Option<Seq<char>>,
    pub path_dirs: Seq<Seq<char>>,
    pub local_app_data: Option<Seq<char>>,
    pub user_profile: Option<Seq<char>>,
}

impl View for SearchEnv {
    type V = EnvView;

    open spec fn view(&self) -> EnvView {
        EnvView {
            windows: self.windows,
            override_path: opt_view(self.override_path),
            resource_dirs: views(self.resource_dirs@),
            android_home: opt_view(self.android_home),
            android_sdk_root: opt_view(self.android_sdk_root),
            path_dirs: views(self.path_dirs@),
            local_app_data: opt_view(self.local_app_data),
            user_profile: opt_view(self.user_profile),
        }
    }
}

/// A path: a base directory, and the names to be joined to it in order.
#[derive(Debug)]
pub struct Place {
    pub base: String,
    pub names: Vec<String>,
}

#[verifier::ext_equal]
pub struct PlaceView {
    pub base: Seq<char>,
    pub names: Seq<Seq<char>>,
}

impl View for Place {
    type V = PlaceView;

    open spec fn view(&self) -> PlaceView {
        PlaceView { base: self.base@, names: views(self.names@) }
    }
}

impl PlaceView {
    pub open spec fn of(base: Seq<char>) -> PlaceView {
        PlaceView { base, names: seq![] }
    }

    pub open spec fn joined(self, name: Seq<char>) -> PlaceView {
        PlaceView { base: self.base, names: self.names.push(name) }
    }
}

impl Place {
    fn of(base: &str) -> (r: Self)
        ensures
            r@ == PlaceView::of(base@),
    {
        let r: Place = Place { base: base.to_owned(), names: Vec::new() };
        assert(r@.names =~= seq![]);
        r
    }

    fn joined(&self, name: &str) -> (r: Self)
        ensures
            r@ == self@.joined(name@),
    {
        let mut names: Vec<String> = clone_strings(&self.names);
        let ghost before = names@;
        let name: String = name.to_owned();
        proof {
            lemma_views_push(before, name);
        }
        names.push(name);
        Place { base: self.base.clone(), names }
    }
}

/// A place where adb may be, and what it would mean to find it there.
#[derive(Debug)]
pub struct Candidate {
    pub place: Place,
    pub source: AdbSource,
}

#[verifier::ext_equal]
pub struct CandidateView {
    pub place: PlaceView,
    pub source: AdbSource,
}

impl View for Candidate {
    type V = CandidateView;

    open spec fn view(&self) -> CandidateView {
        CandidateView { place: self.place@, source: self.source }
    }
}

/// The file names of the executable on a platform, in order of preference.
pub open spec fn adb_names(windows: bool) -> Seq<Seq<char>> {
    if windows {
        seq!["adb.exe"@, "adb"@]
    } else {
        seq!["adb"@]
    }
}

/// A text that is there and not empty.
pub open spec fn filled(text: Option<Seq<char>>) -> Seq<Seq<char>> {
    match text {
        Some(text) if text.len() > 0 => seq![text],
        _ => seq![],
    }
}

impl EnvView {
    /// The SDK roots, in order of priority.
    pub open spec fn sdk_roots(self) -> Seq<Seq<char>> {
        filled(self.android_home) + filled(self.android_sdk_root)
    }

    /// The directories in which adb usually lives on the platform.
    pub open spec fn known_locations(self) -> Seq<PlaceView> {
        if self.windows {
            let local = match self.local_app_data {
                Some(dir) => seq![PlaceView { base: dir, names: seq!["Android"@, "Sdk"@, "platform-tools"@] }],
                None => seq![],
            };
            let profile = match self.user_profile {
                Some(dir) => seq![
                    PlaceView {
                        base: dir,
                        names: seq!["AppData"@, "Local"@, "Android"@, "Sdk"@, "platform-tools"@],
                    },
                ],
                None => seq![],
            };
            local + profile
        } else {
            seq![
                PlaceView::of("/usr/local/bin"@),
                PlaceView::of("/usr/bin"@),
                PlaceView::of("/opt/homebrew/bin"@),
            ]
        }
    }

    /// Every candidate, in the order in which they are tried.
    pub open spec fn candidates(self) -> Seq<CandidateView> {
        let overridden = filled(self.override_path).map_values(
            |path: Seq<char>| CandidateView { place: PlaceView::of(path), source: AdbSource::EnvOverride },
        );
        overridden + in_places(bundle_places(self.resource_dirs), self.windows, AdbSource::BundledResource)
            + in_places(sdk_places(self.sdk_roots()), self.windows, AdbSource::AndroidSdk) + in_places(
            plain_places(self.path_dirs),
            self.windows,
            AdbSource::PathSearch,
        ) + in_places(self.known_locations(), self.windows, AdbSource::KnownLocation)
    }
}

/// Each directory itself.
pub open spec fn plain_places(dirs: Seq<Seq<char>>) -> Seq<PlaceView> {
    dirs.map_values(|dir: Seq<char>| PlaceView::of(dir))
}

/// The `platform-tools` of each SDK root.
pub open spec fn sdk_places(roots: Seq<Seq<char>>) -> Seq<PlaceView> {
    roots.map_values(|root: Seq<char>| PlaceView::of(root).joined("platform-tools"@))
}

/// Each resource directory, and its `platform-tools`: a bundle may have either shape.
pub open spec fn bundle_places(dirs: Seq<Seq<char>>) -> Seq<PlaceView>
    decreases dirs.len(),
{
    if dirs.len() == 0 {
        seq![]
    } else {
        let dir = PlaceView::of(dirs.last());
        bundle_places(dirs.drop_last()).push(dir).push(dir.joined("platform-tools"@))
    }
}

/// The executable under each of its names in each of the places.
pub open spec fn in_places(places: Seq<PlaceView>, windows: bool, source: AdbSource) -> Seq<CandidateView>
    decreases places.len(),
{
    if places.len() == 0 {
        seq![]
    } else {
        in_places(places.drop_last(), windows, source) + adb_names(windows).map_values(
            |name: Seq<char>| CandidateView { place: places.last().joined(name), source },
        )
    }
}

/// Executable file names of a platform.
pub fn executable_names(windows: bool) -> (r: &'static [&'static str])
    ensures
        views(r@) == adb_names(windows),
{
    if windows {
        let r: &'static [&'static str] = &["adb.exe", "adb"];
        assert(views(r@) =~= adb_names(true));
        r
    } else {
        let r: &'static [&'static str] = &["adb"];
        assert(views(r@) =~= adb_names(false));
        r
    }
}

/// Appends a copy of the text, where there is one and it is not empty.
fn push_filled(out: &mut Vec<String>, text: &Option<String>)
    ensures
        views(final(out)@) == views(old(out)@) + filled(opt_view(*text)),
{
    let ghost before = views(out@);
    if let Some(text) = text {
        if !text.as_str().is_empty() {
            let copy: String = text.clone();
            proof {
                lemma_views_push(out@, copy);
            }
            out.push(copy);
            assert(views(out@) =~= before + seq![text@]);
            return;
        }
    }
    assert(before =~= before + filled(opt_view(*text)));
}

/// SDK roots advertised through the environment, in priority order.
pub fn sdk_roots(env: &SearchEnv) -> (r: Vec<String>)
    ensures
        views(r@) == env@.sdk_roots(),
{
    let mut r: Vec<String> = Vec::new();
    push_filled(&mut r, &env.android_home);
    push_filled(&mut r, &env.android_sdk_root);
    assert(views(r@) =~= env@.sdk_roots());
    r
}

/// Places where adb usually lives when it is not on `PATH`.
pub fn known_locations(env: &SearchEnv) -> (r: Vec<Place>)
    ensures
        views(r@) == env@.known_locations(),
{
    let mut r: Vec<Place> = Vec::new();
    if env.windows {
        if let Some(dir) = &env.local_app_data {
            let names: Vec<String> = vec!["Android".to_owned(), "Sdk".to_owned(), "platform-tools".to_owned()];
            assert(views(names@) =~= seq!["Android"@, "Sdk"@, "platform-tools"@]);
            r.push(Place { base: dir.clone(), names });
        }
        if let Some(dir) = &env.user_profile {
            let names: Vec<String> = vec![
                "AppData".to_owned(),
                "Local".to_owned(),
                "Android".to_owned(),
                "Sdk".to_owned(),
                "platform-tools".to_owned(),
            ];
            assert(views(names@) =~= seq!["AppData"@, "Local"@, "Android"@, "Sdk"@, "platform-tools"@]);
            r.push(Place { base: dir.clone(), names });
        }
    } else {
        r.push(Place::of("/usr/local/bin"));
        r.push(Place::of("/usr/bin"));
        r.push(Place::of("/opt/homebrew/bin"));
    }
    assert(views(r@) =~= env@.known_locations());
    r
}

/// Appends the candidates of one place.
fn push_binaries(out: &mut Vec<Candidate>, place: &Place, windows: bool, source: AdbSource)
    ensures
        views(final(out)@) == views(old(out)@) + adb_names(windows).map_values(
            |name: Seq<char>| CandidateView { place: place@.joined(name), source },
        ),
{
    let names: &'static [&'static str] = executable_names(windows);
    let ghost wanted = adb_names(windows).map_values(
        |name: Seq<char>| CandidateView { place: place@.joined(name), source },
    );
    let mut i: usize = 0;
    assert(views(out@) =~= views(old(out)@) + wanted.take(0));
    while i < names.len()
        invariant
            i <= names@.len(),
            views(names@) == adb_names(windows),
            wanted == adb_names(windows).map_values(
                |name: Seq<char>| CandidateView { place: place@.joined(name), source },
            ),
            views(out@) == views(old(out)@) + wanted.take(i as int),
        decreases names@.len() - i,
    {
        assert(views(names@)[i as int] == names@[i as int]@);
        let candidate: Candidate = Candidate { place: place.joined(names[i]), source };
        proof {
            lemma_views_push(out@, candidate);
        }
        let ghost before = views(out@);
        out.push(candidate);
        assert(views(out@) =~= views(old(out)@) + wanted.take(i as int + 1));
        i += 1;
    }
    assert(wanted.take(i as int) =~= wanted) by {
        assert(views(names@).len() == names@.len());
    }
}

/// Appends the candidates of each place in order.
fn push_places(out: &mut Vec<Candidate>, places: &Vec<Place>, windows: bool, source: AdbSource)
    ensures
        views(final(out)@) == views(old(out)@) + in_places(views(places@), windows, source),
{
    let ghost all = views(places@);
    let mut i: usize = 0;
    assert(views(out@) =~= views(old(out)@) + in_places(all.take(0), windows, source));
    while i < places.len()
        invariant
            i <= places@.len(),
            all == views(places@),
            views(out@) == views(old(out)@) + in_places(all.take(i as int), windows, source),
        decreases places@.len() - i,
    {
        let ghost before = views(out@);
        assert(all.take(i as int + 1).drop_last() =~= all.take(i as int));
        assert(all.take(i as int + 1).last() == places@[i as int]@);
        push_binaries(out, &places[i], windows, source);
        assert(views(out@) =~= views(old(out)@) + in_places(all.take(i as int + 1), windows, source));
        i += 1;
    }
    assert(all.take(i as int) =~= all);
}

fn bundles_of(dirs: &Vec<String>) -> (r: Vec<Place>)
    ensures
        views(r@) == bundle_places(views(dirs@)),
{
    let ghost all = views(dirs@);
    let mut r: Vec<Place> = Vec::new();
    assert(views(r@) =~= seq![]);
    let mut i: usize = 0;
    while i < dirs.len()
        invariant
            i <= dirs@.len(),
            all == views(dirs@),
            views(r@) == bundle_places(all.take(i as int)),
        decreases dirs@.len() - i,
    {
        assert(all.take(i as int + 1).drop_last() =~= all.take(i as int));
        assert(all.take(i as int + 1).last() == dirs@[i as int]@);
        let dir: Place = Place::of(dirs[i].as_str());
        let tools: Place = dir.joined("platform-tools");
        proof {
            lemma_views_push(r@, dir);
            lemma_views_push(r@.push(dir), tools);
        }
        r.push(dir);
        r.push(tools);
        i += 1;
    }
    assert(all.take(i as int) =~= all);
    r
}

fn places_of(dirs: &Vec<String>, tools: bool) -> (r: Vec<Place>)
    ensures
        views(r@) == if tools { sdk_places(views(dirs@)) } else { plain_places(views(dirs@)) },
{
    let ghost wanted = if tools { sdk_places(views(dirs@)) } else { plain_places(views(dirs@)) };
    let mut r: Vec<Place> = Vec::new();
    let mut i: usize = 0;
    while i < dirs.len()
        invariant
            i <= dirs@.len(),
            wanted == if tools { sdk_places(views(dirs@)) } else { plain_places(views(dirs@)) },
            views(r@) =~= wanted.take(i as int),
        decreases dirs@.len() - i,
    {
        assert(views(dirs@)[i as int] == dirs@[i as int]@);
        let dir: Place = Place::of(dirs[i].as_str());
        let place: Place = if tools { dir.joined("platform-tools") } else { dir };
        proof {
            lemma_views_push(r@, place);
        }
        r.push(place);
        i += 1;
    }
    assert(views(r@) =~= wanted);
    r
}

/// Every candidate, whether or not it exists, in resolution order.
///
/// This is the complete search trail that diagnostics show.
pub fn candidate_paths(env: &SearchEnv) -> (r: Vec<Candidate>)
    ensures
        views(r@) == env@.candidates(),
{
    let mut r: Vec<Candidate> = Vec::new();
    let mut overridden: Vec<String> = Vec::new();
    push_filled(&mut overridden, &env.override_path);
    assert(views(overridden@) =~= filled(env@.override_path));
    if overridden.len() > 0 {
        assert(overridden@.len() == 1) by {
            assert(views(overridden@).len() == overridden@.len());
        }
        r.push(Candidate { place: Place::of(overridden[0].as_str()), source: AdbSource::EnvOverride });
        assert(views(overridden@)[0] == overridden@[0]@);
    }
    assert(views(overridden@).len() == overridden@.len());
    assert(views(r@) =~= filled(env@.override_path).map_values(
        |path: Seq<char>| CandidateView { place: PlaceView::of(path), source: AdbSource::EnvOverride },
    ));
    push_places(&mut r, &bundles_of(&env.resource_dirs), env.windows, AdbSource::BundledResource);
    push_places(&mut r, &places_of(&sdk_roots(env), true), env.windows, AdbSource::AndroidSdk);
    push_places(&mut r, &places_of(&env.path_dirs, false), env.windows, AdbSource::PathSearch);
    push_places(&mut r, &known_locations(env), env.windows, AdbSource::KnownLocation);
    r
}

/// A candidate that was looked at: how its path reads, and whether a file is there.
#[derive(Debug)]
pub struct Tried {
    pub path: String,
    pub source: AdbSource,
    pub exists: bool,
}

#[verifier::ext_equal]
pub struct TriedView {
    pub path: Seq<char>,
    pub source: AdbSource,
    pub exists: bool,
}

impl View for Tried {
    type V = TriedView;

    open spec fn view(&self) -> TriedView {
        TriedView { path: self.path@, source: self.source, exists: self.exists }
    }
}

/// The first candidate at which there is a file.
pub open spec fn first_existing(tried: Seq<TriedView>) -> Option<TriedView>
    decreases tried.len(),
{
    if tried.len() == 0 {
        None
    } else if tried[0].exists {
        Some(tried[0])
    } else {
        first_existing(tried.skip(1))
    }
}

/// What is said when no candidate is there.
pub open spec fn not_found(tried: Seq<TriedView>) -> Seq<char> {
    if tried.len() == 0 {
        "未找到 adb。请安装 Android platform-tools，或设置 "@ + ADB_OVERRIDE_ENV@ + " 指向 adb 可执行文件。"@
    } else {
        "未找到 adb。已搜索："@ + join(tried.map_values(|t: TriedView| t.path), "; "@)
    }
}

/// What the search comes to. An override decides alone: nothing else is looked at
/// where it points nowhere.
pub open spec fn found(tried: Seq<TriedView>) -> std::result::Result<(Seq<char>, AdbSource), Seq<char>> {
    if tried.len() > 0 && tried[0].source == AdbSource::EnvOverride {
        if tried[0].exists {
            Ok((tried[0].path, AdbSource::EnvOverride))
        } else {
            Err(ADB_OVERRIDE_ENV@ + " 指向的路径不存在："@ + tried[0].path)
        }
    } else {
        match first_existing(tried) {
            Some(hit) => Ok((hit.path, hit.source)),
            None => Err(not_found(tried)),
        }
    }
}

fn paths_of(tried: &Vec<Tried>) -> (r: Vec<String>)
    ensures
        views(r@) == views(tried@).map_values(|t: TriedView| t.path),
{
    let ghost wanted = views(tried@).map_values(|t: TriedView| t.path);
    let mut r: Vec<String> = Vec::new();
    let mut i: usize = 0;
    while i < tried.len()
        invariant
            i <= tried@.len(),
            wanted == views(tried@).map_values(|t: TriedView| t.path),
            views(r@) =~= wanted.take(i as int),
        decreases tried@.len() - i,
    {
        let path: String = tried[i].path.clone();
        proof {
            lemma_views_push(r@, path);
            assert(wanted[i as int] == views(tried@)[i as int].path);
        }
        r.push(path);
        i += 1;
    }
    assert(views(r@) =~= wanted);
    r
}

/// Resolves the adb binary from the candidates in order, and reports how it was
/// found.
///
/// Where no usable binary exists the error lists the searched locations. It is an
/// environmental error.
pub fn discover(tried: &Vec<Tried>) -> (r: Result<(String, AdbSource)>)
    ensures
        match (r, found(views(tried@))) {
            (Ok((path, source)), Ok((wanted, origin))) => path@ == wanted && source == origin,
            (Err(error), Err(text)) => error@ == ErrorView::AdbUnavailable(text),
            _ => false,
        },
{
    let ghost all = views(tried@);
    assert(all.len() == tried@.len());
    if tried.len() > 0 && tried[0].source == AdbSource::EnvOverride {
        assert(all[0] == tried@[0]@);
        return if tried[0].exists {
            Ok((tried[0].path.clone(), AdbSource::EnvOverride))
        } else {
            Err(DroidLogError::AdbUnavailable(concat3(ADB_OVERRIDE_ENV, " 指向的路径不存在：", tried[0].path.as_str())))
        };
    }
    let mut i: usize = 0;
    assert(all.skip(0) =~= all);
    assert(all.len() > 0 ==> all[0] == tried@[0]@);
    while i < tried.len()
        invariant
            i <= tried@.len(),
            all == views(tried@),
            all.len() == tried@.len(),
            !(all.len() > 0 && all[0].source == AdbSource::EnvOverride),
            first_existing(all) == first_existing(all.skip(i as int)),
        decreases tried@.len() - i,
    {
        assert(all.skip(i as int)[0] == tried@[i as int]@);
        assert(all.skip(i as int).skip(1) =~= all.skip(i as int + 1));
        if tried[i].exists {
            return Ok((tried[i].path.clone(), tried[i].source));
        }
        i += 1;
    }
    let text: String = if tried.len() == 0 {
        concat3(
            "未找到 adb。请安装 Android platform-tools，或设置 ",
            ADB_OVERRIDE_ENV,
            " 指向 adb 可执行文件。",
        )
    } else {
        let searched: String = join_strings(&paths_of(tried), "; ");
        concat2("未找到 adb。已搜索：", searched.as_str())
    };
    Err(DroidLogError::AdbUnavailable(text))
}

/// The rank of an origin in the search order.
pub open spec fn source_rank(source: AdbSource) -> int {
    match source {
        AdbSource::EnvOverride => 0,
        AdbSource::BundledResource => 1,
        AdbSource::AndroidSdk => 2,
        AdbSource::PathSearch => 3,
        AdbSource::KnownLocation => 4,
    }
}

proof fn lemma_in_places_source(places: Seq<PlaceView>, windows: bool, source: AdbSource, i: int)
    requires
        0 <= i < in_places(places, windows, source).len(),
    ensures
        in_places(places, windows, source)[i].source == source,
    decreases places.len(),
{
    let before = in_places(places.drop_last(), windows, source);
    if i < before.len() {
        lemma_in_places_source(places.drop_last(), windows, source, i);
    }
}

/// Candidates come in the order of their origins: an override first, then a bundled
/// binary, then an SDK, then `PATH`, then the well-known locations.
pub proof fn law_search_order(env: EnvView, i: int, j: int)
    requires
        0 <= i < j < env.candidates().len(),
    ensures
        source_rank(env.candidates()[i].source) <= source_rank(env.candidates()[j].source),
{
    let overridden = filled(env.override_path).map_values(
        |path: Seq<char>| CandidateView { place: PlaceView::of(path), source: AdbSource::EnvOverride },
    );
    let bundled = in_places(bundle_places(env.resource_dirs), env.windows, AdbSource::BundledResource);
    let sdk = in_places(sdk_places(env.sdk_roots()), env.windows, AdbSource::AndroidSdk);
    let path = in_places(plain_places(env.path_dirs), env.windows, AdbSource::PathSearch);
    let known = in_places(env.known_locations(), env.windows, AdbSource::KnownLocation);
    assert(env.candidates() =~= overridden + bundled + sdk + path + known);
    assert forall|k: int| 0 <= k < bundled.len() implies (#[trigger] bundled[k]).source
        == AdbSource::BundledResource by {
        lemma_in_places_source(bundle_places(env.resource_dirs), env.windows, AdbSource::BundledResource, k);
    }
    assert forall|k: int| 0 <= k < sdk.len() implies (#[trigger] sdk[k]).source == AdbSource::AndroidSdk by {
        lemma_in_places_source(sdk_places(env.sdk_roots()), env.windows, AdbSource::AndroidSdk, k);
    }
    assert forall|k: int| 0 <= k < path.len() implies (#[trigger] path[k]).source == AdbSource::PathSearch by {
        lemma_in_places_source(plain_places(env.path_dirs), env.windows, AdbSource::PathSearch, k);
    }
    assert forall|k: int| 0 <= k < known.len() implies (#[trigger] known[k]).source
        == AdbSource::KnownLocation by {
        lemma_in_places_source(env.known_locations(), env.windows, AdbSource::KnownLocation, k);
    }
}

/// Discovery takes the first candidate at which there is a file: nothing before it
/// is there.
pub proof fn law_first_candidate_wins(tried: Seq<TriedView>, i: int)
    requires
        0 <= i < tried.len(),
        tried[i].exists,
        forall|j: int| 0 <= j < i ==> !(#[trigger] tried[j]).exists,
    ensures
        first_existing(tried) == Some(tried[i]),
    decreases i,
{
    if i > 0 {
        assert(!tried[0].exists);
        let rest = tried.skip(1);
        assert forall|j: int| 0 <= j < i - 1 implies !(#[trigger] rest[j]).exists by {
            assert(!tried[j + 1].exists);
        }
        law_first_candidate_wins(rest, i - 1);
    }
}

} // verus!
