//! The external tools the app runs: their file names, where they are looked
//! for, the cache of verified locations, and the readiness report.
use vstd::prelude::*;
use vstd::string::*;
use crate::settings::{path_join, spec_path_join};
use crate::text::{concat, first_line, spec_first_line, spec_trim, to_chars, trim_chars, string_from_chars, trim_str};

verus! {

broadcast use vstd::string::group_string_axioms;

/// A tool the app runs.
#[derive(Clone, Copy, Debug, PartialEq, Eq, Hash, Structural)]
pub enum Tool {
    YtDlp,
    Ffmpeg,
    Ffprobe,
    /// quickjs-ng: the JS runtime yt-dlp needs to solve YouTube's JS challenges.
    Qjs,
    /// PO-token provider (bgutil-ytdlp-pot-provider-rs), run as a local HTTP server.
    BgutilPot,
}

/// The operating system family the app runs on.
#[derive(Clone, Copy, Debug, PartialEq, Eq, Structural)]
pub enum Platform {
    Windows,
    MacOs,
    /// Any other Unix.
    Unix,
}

/// A tool's executable name on Unix-like systems.
pub open spec fn unix_name(t: Tool) -> Seq<char> {
    match t {
        Tool::YtDlp => "yt-dlp"@,
        Tool::Ffmpeg => "ffmpeg"@,
        Tool::Ffprobe => "ffprobe"@,
        Tool::Qjs => "qjs"@,
        Tool::BgutilPot => "bgutil-pot"@,
    }
}

/// A tool's executable name on Windows.
pub open spec fn windows_name(t: Tool) -> Seq<char> {
    match t {
        Tool::YtDlp => "yt-dlp.exe"@,
        Tool::Ffmpeg => "ffmpeg.exe"@,
        Tool::Ffprobe => "ffprobe.exe"@,
        Tool::Qjs => "qjs.exe"@,
        Tool::BgutilPot => "bgutil-pot.exe"@,
    }
}

/// A tool's executable name on `p`.
pub open spec fn exe_name(t: Tool, p: Platform) -> Seq<char> {
    if p is Windows {
        windows_name(t)
    } else {
        unix_name(t)
    }
}

/// The version flag a tool understands.
pub open spec fn version_flag_of(t: Tool) -> Seq<char> {
    match t {
        Tool::Ffmpeg | Tool::Ffprobe => "-version"@,
        _ => "--version"@,
    }
}

impl Tool {
    /// The executable's name on Unix-like systems.
    pub fn bin_name(self) -> (r: &'static str)
        ensures
            r@ == unix_name(self),
    {
        match self {
            Tool::YtDlp => "yt-dlp",
            Tool::Ffmpeg => "ffmpeg",
            Tool::Ffprobe => "ffprobe",
            Tool::Qjs => "qjs",
            Tool::BgutilPot => "bgutil-pot",
        }
    }

    /// The executable's name on Windows.
    pub fn windows_bin_name(self) -> (r: &'static str)
        ensures
            r@ == windows_name(self),
    {
        match self {
            Tool::YtDlp => "yt-dlp.exe",
            Tool::Ffmpeg => "ffmpeg.exe",
            Tool::Ffprobe => "ffprobe.exe",
            Tool::Qjs => "qjs.exe",
            Tool::BgutilPot => "bgutil-pot.exe",
        }
    }

    /// The executable's name on `platform`.
    pub fn exe_name(self, platform: Platform) -> (r: &'static str)
        ensures
            r@ == exe_name(self, platform),
    {
        match platform {
            Platform::Windows => self.windows_bin_name(),
            _ => self.bin_name(),
        }
    }

    /// yt-dlp/qjs/bgutil-pot use `--version`; ffmpeg/ffprobe use their own
    /// single-dash `-version` and reject the double-dash form.
    pub fn version_flag(self) -> (r: &'static str)
        ensures
            r@ == version_flag_of(self),
    {
        match self {
            Tool::Ffmpeg | Tool::Ffprobe => "-version",
            Tool::YtDlp | Tool::Qjs | Tool::BgutilPot => "--version",
        }
    }
}

// ------------------------------------------------------------ candidates

/// Well-known install directories searched last, per platform.
pub open spec fn system_dirs(p: Platform) -> Seq<Seq<char>> {
    match p {
        Platform::MacOs => seq!["/opt/homebrew/bin"@, "/usr/local/bin"@, "/usr/bin"@],
        Platform::Unix => seq!["/usr/local/bin"@, "/usr/bin"@, "/snap/bin"@],
        Platform::Windows => seq![],
    }
}

/// Candidate locations for a tool, in the order they are tried: the
/// self-updated copy in the app-data `bin` directory, the bundled resource, the
/// crate's `binaries/` directory (development), the bare name (resolved against
/// `$PATH`), then the well-known install directories.
pub open spec fn spec_candidates(
    name: Seq<char>,
    p: Platform,
    appdata_bin: Option<Seq<char>>,
    resource: Option<Seq<char>>,
    manifest_dir: Seq<char>,
) -> Seq<Seq<char>> {
    (match appdata_bin {
        Some(d) => seq![spec_path_join(d, name)],
        None => seq![],
    }) + (match resource {
        Some(r) => seq![r],
        None => seq![],
    }) + seq![spec_path_join(spec_path_join(manifest_dir, "binaries"@), name), name]
        + system_dirs(p).map_values(|d: Seq<char>| spec_path_join(d, name))
}

/// The path of a tool inside the bundle's resources, relative to them.
pub fn resource_rel_path(tool: Tool, platform: Platform) -> (r: String)
    ensures
        r@ == "binaries/"@ + exe_name(tool, platform),
{
    concat("binaries/", tool.exe_name(platform))
}

/// Where to look for `tool`, in order (see `spec_candidates`). `appdata_bin` is
/// the app-data `bin` directory and `resource` the resolved bundled path, when known.
pub fn candidates(
    tool: Tool,
    platform: Platform,
    appdata_bin: Option<String>,
    resource: Option<String>,
    manifest_dir: &str,
) -> (r: Vec<String>)
    ensures
        r.deep_view() == spec_candidates(
            exe_name(tool, platform),
            platform,
            appdata_bin.deep_view(),
            resource.deep_view(),
            manifest_dir@,
        ),
{
    let name = tool.exe_name(platform);
    let mut out: Vec<String> = Vec::new();
    match &appdata_bin {
        Some(d) => out.push(path_join(d.as_str(), name)),
        None => {},
    }
    match resource {
        Some(r) => out.push(r),
        None => {},
    }
    let dev = path_join(manifest_dir, "binaries");
    out.push(path_join(dev.as_str(), name));
    out.push(String::from_str(name));
    let dirs: Vec<&str> = match platform {
        Platform::MacOs => vec!["/opt/homebrew/bin", "/usr/local/bin", "/usr/bin"],
        Platform::Unix => vec!["/usr/local/bin", "/usr/bin", "/snap/bin"],
        Platform::Windows => Vec::new(),
    };
    let ghost head = out.deep_view();
    let ghost sys = system_dirs(platform);
    assert(dirs@.map_values(|d: &str| d@) =~= sys);
    let mut i: usize = 0;
    while i < dirs.len()
        invariant
            i <= dirs@.len(),
            dirs@.map_values(|d: &str| d@) == sys,
            out.deep_view() == head + sys.take(i as int).map_values(|d: Seq<char>| spec_path_join(d, name@)),
        decreases dirs.len() - i,
    {
        let ghost before = out.deep_view();
        let joined = path_join(dirs[i], name);
        out.push(joined);
        assert(sys[i as int] == dirs@[i as int]@);
        assert(sys.take(i + 1).map_values(|d: Seq<char>| spec_path_join(d, name@)) =~= sys.take(
            i as int,
        ).map_values(|d: Seq<char>| spec_path_join(d, name@)).push(spec_path_join(sys[i as int], name@)));
        assert(out.deep_view() =~= before.push(spec_path_join(sys[i as int], name@)));
        i += 1;
    }
    assert(sys.take(dirs@.len() as int) =~= sys);
    assert(out.deep_view() =~= spec_candidates(
        name@,
        platform,
        appdata_bin.deep_view(),
        resource.deep_view(),
        manifest_dir@,
    ));
    out
}

/// The version line a tool prints: ffmpeg/ffprobe print their banner on stderr,
/// so stderr is read when stdout is empty; the first line, trimmed.
pub open spec fn spec_version_line(stdout: Seq<char>, stderr: Seq<char>) -> Seq<char> {
    spec_trim(spec_first_line(if stdout.len() > 0 {
        stdout
    } else {
        stderr
    }))
}

/// Extracts the version from a tool's `--version` output.
pub fn version_line(stdout: &str, stderr: &str) -> (r: String)
    ensures
        r@ == spec_version_line(stdout@, stderr@),
{
    let out = to_chars(stdout);
    let text = if out.len() > 0 {
        out
    } else {
        to_chars(stderr)
    };
    let line = first_line(&text);
    let t = trim_chars(&line);
    string_from_chars(&t)
}

/// The error for a tool found nowhere.
pub fn not_found_message(name: &str) -> (r: String)
    ensures
        r@ == name@ + " не найден"@,
{
    concat(name, " не найден")
}

// ----------------------------------------------------------------- cache

/// The key under which a tool's location is cached.
pub open spec fn spec_tool_key(t: Tool) -> u64 {
    match t {
        Tool::YtDlp => 0,
        Tool::Ffmpeg => 1,
        Tool::Ffprobe => 2,
        Tool::Qjs => 3,
        Tool::BgutilPot => 4,
    }
}

/// The key under which a tool's location is cached; each tool has its own.
pub fn tool_key(t: Tool) -> (k: u64)
    ensures
        k == spec_tool_key(t),
{
    match t {
        Tool::YtDlp => 0,
        Tool::Ffmpeg => 1,
        Tool::Ffprobe => 2,
        Tool::Qjs => 3,
        Tool::BgutilPot => 4,
    }
}

/// Tools already found, by key, with the path and version each reported, so
/// later lookups never re-run the binary.
pub struct BinCache {
    entries: std::collections::HashMap<u64, (String, String)>,
}

/// A change made to a `BinCache`: `insert` of a tool's path and version, or
/// `remove` of a tool.
pub enum CacheChange {
    Insert(Tool, String, String),
    Remove(Tool),
}

/// Whether `change` concerns tool `t`.
pub open spec fn touches(change: CacheChange, t: Tool) -> bool {
    match change {
        CacheChange::Insert(u, _, _) => u == t,
        CacheChange::Remove(u) => u == t,
    }
}

/// `after` is `before` with `change` made: the tool changed reads back what
/// was inserted (or nothing, once removed), and every other tool reads as before.
pub open spec fn changed_by(before: BinCache, after: BinCache, change: CacheChange) -> bool {
    match change {
        CacheChange::Insert(t, p, v) => {
            &&& after.lookup(t) == Some((p@, v@))
            &&& forall|u: Tool| u != t ==> #[trigger] after.lookup(u) == before.lookup(u)
        },
        CacheChange::Remove(t) => {
            &&& after.lookup(t) is None
            &&& forall|u: Tool| u != t ==> #[trigger] after.lookup(u) == before.lookup(u)
        },
    }
}

impl BinCache {
    /// What the cache holds for `t`.
    pub closed spec fn lookup(&self, t: Tool) -> Option<(Seq<char>, Seq<char>)> {
        let m = self.entries@;
        let k = spec_tool_key(t);
        if m.contains_key(k) {
            Some((m[k].0@, m[k].1@))
        } else {
            None
        }
    }

    /// An empty cache.
    pub fn new() -> (r: BinCache)
        ensures
            forall|t: Tool| r.lookup(t) is None,
    {
        BinCache { entries: std::collections::HashMap::new() }
    }

    /// The cached path and version of `tool`.
    pub fn get(&self, tool: Tool) -> (r: Option<(String, String)>)
        ensures
            r matches Some((p, v)) ==> self.lookup(tool) == Some((p@, v@)),
            r is None ==> self.lookup(tool) is None,
    {
        broadcast use vstd::std_specs::hash::group_hash_axioms;

        let k = tool_key(tool);
        match self.entries.get(&k) {
            Some(e) => Some((e.0.clone(), e.1.clone())),
            None => None,
        }
    }

    /// Forgets `tool` (e.g. after it was updated).
    pub fn remove(&mut self, tool: Tool)
        ensures
            final(self).lookup(tool) is None,
            forall|u: Tool| u != tool ==> final(self).lookup(u) == old(self).lookup(u),
            changed_by(*old(self), *final(self), CacheChange::Remove(tool)),
    {
        broadcast use vstd::std_specs::hash::group_hash_axioms;

        let k = tool_key(tool);
        self.entries.remove(&k);
        assert forall|u: Tool| u != tool implies self.lookup(u) == old(self).lookup(u) by {
            assert(spec_tool_key(u) != k);
        }
    }

    /// Records where `tool` was found and the version it reported.
    pub fn insert(&mut self, tool: Tool, path: String, version: String)
        ensures
            final(self).lookup(tool) == Some((path@, version@)),
            forall|u: Tool| u != tool ==> final(self).lookup(u) == old(self).lookup(u),
            changed_by(*old(self), *final(self), CacheChange::Insert(tool, path, version)),
    {
        broadcast use vstd::std_specs::hash::group_hash_axioms;

        let k = tool_key(tool);
        self.entries.insert(k, (path, version));
        assert forall|u: Tool| u != tool implies self.lookup(u) == old(self).lookup(u) by {
            assert(spec_tool_key(u) != k);
        }
    }
}

/// Law: once a tool's path and version are inserted, the cache gives them back
/// after any later changes that leave that tool alone, so a found tool is not
/// searched for (nor its binary run) again until it is removed or replaced.
/// `caches[k + 1]` is `caches[k]` after `changes[k]`.
pub proof fn law_cache_keeps_what_was_written(
    caches: Seq<BinCache>,
    changes: Seq<CacheChange>,
    t: Tool,
    path: String,
    version: String,
)
    requires
        changes.len() >= 1,
        caches.len() == changes.len() + 1,
        forall|k: int| 0 <= k < changes.len() ==> changed_by(caches[k], caches[k + 1], #[trigger] changes[k]),
        changes[0] == CacheChange::Insert(t, path, version),
        forall|k: int| 1 <= k < changes.len() ==> !touches(#[trigger] changes[k], t),
    ensures
        caches.last().lookup(t) == Some((path@, version@)),
    decreases changes.len(),
{
    let n = changes.len();
    if n == 1 {
        assert(changed_by(caches[0], caches[1], changes[0]));
    } else {
        let cs = caches.drop_last();
        let ch = changes.drop_last();
        assert forall|k: int| 0 <= k < ch.len() implies changed_by(cs[k], cs[k + 1], #[trigger] ch[k]) by {
            assert(changed_by(caches[k], caches[k + 1], changes[k]));
        }
        assert forall|k: int| 1 <= k < ch.len() implies !touches(#[trigger] ch[k], t) by {
            assert(!touches(changes[k], t));
        }
        law_cache_keeps_what_was_written(cs, ch, t, path, version);
        let last = changes[n - 1];
        assert(changed_by(caches[n - 1], caches[n as int], last));
        assert(!touches(last, t));
        assert(cs.last() == caches[n - 1]);
        match last {
            CacheChange::Insert(u, _, _) => {
                assert(caches[n as int].lookup(t) == caches[n - 1].lookup(t));
            },
            CacheChange::Remove(u) => {
                assert(caches[n as int].lookup(t) == caches[n - 1].lookup(t));
            },
        }
    }
}

// -------------------------------------------------------------- resolving

/// What resolving a tool does next. Resolving checks a tool's candidate
/// locations in order by running each one's version check, and stops at the
/// first that answers.
pub enum ResolveStep {
    /// The tool's path and the version it reported.
    Found(String, String),
    /// Run the version check of candidate `i` next.
    Probe(usize),
    /// No candidate answered: the error to report.
    Failed(String),
}

/// `r` is `Found` with path `p` and version `v`.
pub open spec fn is_found(r: ResolveStep, p: Seq<char>, v: Seq<char>) -> bool {
    r matches ResolveStep::Found(a, b) && a@ == p && b@ == v
}

/// `r` is `Failed` with the error for a tool called `name` that was found nowhere.
pub open spec fn is_not_found(r: ResolveStep, name: Seq<char>) -> bool {
    r matches ResolveStep::Failed(m) && m@ == name + " не найден"@
}

/// `r` is the first step of resolving `t` with cache `c` among `n` candidates:
/// a cached tool is found at once, with nothing run; otherwise the first
/// candidate is checked, and with no candidates the tool is not found.
pub open spec fn is_resolve_start(c: BinCache, t: Tool, n: usize, name: Seq<char>, r: ResolveStep) -> bool {
    match c.lookup(t) {
        Some((p, v)) => is_found(r, p, v),
        None => if n > 0 {
            r == ResolveStep::Probe(0)
        } else {
            is_not_found(r, name)
        },
    }
}

impl BinCache {
    /// The first step of resolving `tool` among `n` candidates (`name` is the
    /// tool's name in the error).
    pub fn resolve_start(&self, tool: Tool, n: usize, name: &str) -> (r: ResolveStep)
        ensures
            is_resolve_start(*self, tool, n, name@, r),
    {
        match self.get(tool) {
            Some((p, v)) => ResolveStep::Found(p, v),
            None => if n > 0 {
                ResolveStep::Probe(0)
            } else {
                ResolveStep::Failed(not_found_message(name))
            },
        }
    }

    /// The step after candidate `i` answered its version check with `version`
    /// (`None` when it did not run or failed): a candidate that answered is
    /// cached and found; otherwise the next candidate is checked, and after
    /// the last the tool is not found.
    pub fn resolve_next(
        &mut self,
        tool: Tool,
        candidates: &Vec<String>,
        i: usize,
        version: Option<String>,
        name: &str,
    ) -> (r: ResolveStep)
        requires
            i < candidates@.len(),
        ensures
            match version {
                Some(v) => {
                    &&& changed_by(*old(self), *final(self), CacheChange::Insert(tool, candidates@[i as int], v))
                    &&& is_found(r, candidates@[i as int]@, v@)
                },
                None => {
                    &&& *final(self) == *old(self)
                    &&& if i + 1 < candidates@.len() {
                        r == ResolveStep::Probe((i + 1) as usize)
                    } else {
                        is_not_found(r, name@)
                    }
                },
            },
    {
        match version {
            Some(v) => {
                let path = candidates[i].clone();
                self.insert(tool, path.clone(), v.clone());
                ResolveStep::Found(path, v)
            },
            None => if i < candidates.len() - 1 {
                ResolveStep::Probe(i + 1)
            } else {
                ResolveStep::Failed(not_found_message(name))
            },
        }
    }
}

/// Law: once resolving a tool has found it (and cached its path and version),
/// resolving it again starts with that same path and version and runs no
/// candidate, as long as the tool was not removed or re-inserted in between.
/// `caches[k + 1]` is `caches[k]` after `changes[k]`; the first change is the
/// insert that found the tool, and `r` is any first step of a later resolve.
pub proof fn law_resolved_tool_runs_nothing(
    caches: Seq<BinCache>,
    changes: Seq<CacheChange>,
    t: Tool,
    path: String,
    version: String,
    n: usize,
    name: Seq<char>,
    r: ResolveStep,
)
    requires
        changes.len() >= 1,
        caches.len() == changes.len() + 1,
        forall|k: int| 0 <= k < changes.len() ==> changed_by(caches[k], caches[k + 1], #[trigger] changes[k]),
        changes[0] == CacheChange::Insert(t, path, version),
        forall|k: int| 1 <= k < changes.len() ==> !touches(#[trigger] changes[k], t),
        is_resolve_start(caches.last(), t, n, name, r),
    ensures
        is_found(r, path@, version@),
{
    law_cache_keeps_what_was_written(caches, changes, t, path, version);
}

// ---------------------------------------------------------------- status

/// Whether `Path::starts_with(path, base)` (whole components, not characters).
pub uninterp spec fn spec_path_starts_with(path: Seq<char>, base: Seq<char>) -> bool;

/// Calls `std::path::Path::starts_with`; the result is the named relation of
/// the two paths, of which nothing more is claimed.
#[verifier::external_body]
fn path_starts_with(path: &str, base: &str) -> (r: bool)
    ensures
        r == spec_path_starts_with(path@, base@),
{
    std::path::Path::new(path).starts_with(base)
}

/// What the UI shows about one tool.
#[derive(Clone, Debug)]
pub struct ToolStatus {
    pub name: String,
    pub found: bool,
    pub version: Option<String>,
    pub bundled: bool,
    pub path: Option<String>,
}

/// The status of a tool named `name`: found with its path and version when it
/// resolved, and bundled when that path lies under the bundle's `binaries`
/// resource directory (`resource_dir`; the empty path when it could not be
/// resolved) or the crate's directory.
pub fn tool_status(name: &str, resolved: Option<(String, String)>, resource_dir: &str, manifest_dir: &str) -> (r: ToolStatus)
    ensures
        r.name@ == name@,
        match resolved {
            Some((p, v)) => r.found && r.version == Some(v) && r.path == Some(p) && r.bundled == (
            spec_path_starts_with(p@, resource_dir@) || spec_path_starts_with(p@, manifest_dir@)),
            None => !r.found && r.version is None && !r.bundled && r.path is None,
        },
{
    match resolved {
        Some((path, version)) => {
            let bundled = path_starts_with(path.as_str(), resource_dir) || path_starts_with(
                path.as_str(),
                manifest_dir,
            );
            ToolStatus {
                name: String::from_str(name),
                found: true,
                version: Some(version),
                bundled,
                path: Some(path),
            }
        },
        None => ToolStatus {
            name: String::from_str(name),
            found: false,
            version: None,
            bundled: false,
            path: None,
        },
    }
}

/// Readiness of every dependency.
#[derive(Clone, Debug)]
pub struct DepsStatus {
    pub yt_dlp: ToolStatus,
    pub ffmpeg: ToolStatus,
    pub ffprobe: ToolStatus,
    /// The JS runtime yt-dlp needs for YouTube's challenges. Blocking.
    pub js_runtime: ToolStatus,
    /// PO-token provider. Non-blocking: its absence does not gate `all_ready`.
    pub pot_provider: ToolStatus,
    pub all_ready: bool,
}

/// The readiness report: ready when yt-dlp, ffmpeg, ffprobe and the JS runtime
/// are all found; the PO-token provider is reported but never required.
pub fn deps_status(
    yt_dlp: ToolStatus,
    ffmpeg: ToolStatus,
    ffprobe: ToolStatus,
    js_runtime: ToolStatus,
    pot_provider: ToolStatus,
) -> (r: DepsStatus)
    ensures
        r.all_ready == (yt_dlp.found && ffmpeg.found && ffprobe.found && js_runtime.found),
        r.yt_dlp == yt_dlp && r.ffmpeg == ffmpeg && r.ffprobe == ffprobe && r.js_runtime == js_runtime
            && r.pot_provider == pot_provider,
{
    let all_ready = yt_dlp.found && ffmpeg.found && ffprobe.found && js_runtime.found;
    DepsStatus { yt_dlp, ffmpeg, ffprobe, js_runtime, pot_provider, all_ready }
}

/// What `yt-dlp -U` answers: its trimmed stdout on success, else its trimmed stderr.
pub fn update_result(success: bool, stdout: &str, stderr: &str) -> (r: Result<String, String>)
    ensures
        success ==> (r matches Ok(s) && s@ == spec_trim(stdout@)),
        !success ==> (r matches Err(e) && e@ == spec_trim(stderr@)),
{
    if success {
        Ok(trim_str(stdout))
    } else {
        Err(trim_str(stderr))
    }
}

} // verus!
