//! Management of the `kotlin-lsp-proxy` companion binary: the release asset
//! for the platform, the user-configured path with a leading `~` expanded, and the
//! install sequence with its cache.

use vstd::prelude::*;
use vstd::string::*;
use crate::install::{
    is_outdated_version_spec, InstallAction, InstallEvent, InstallStatus, ReleaseAsset,
};
use crate::lsp::KotlinLSP;
use crate::platform::{Architecture, DownloadedFileType, Os};
use crate::text::{push_char, same_text};

verus! {

/// Base name of the proxy binary and of its release assets.
pub const PROXY_BINARY: &'static str = "kotlin-lsp-proxy";

/// Install dirs are named `kotlin-proxy-<version>`. The distinct `kotlin-proxy`
/// prefix keeps cleanup from clobbering the `kotlin-dev-lsp-*` LSP installs.
pub const INSTALL_PREFIX: &'static str = "kotlin-proxy";

/// GitHub repository whose releases host the prebuilt proxy binaries.
pub const GITHUB_REPO: &'static str = "XodiumSoftware/zed-kotlin-ext";

/// The release asset for a platform: its name and archive format, or the
/// message for an unsupported architecture.
pub open spec fn asset_spec(os: Os, arch: Architecture) -> Result<
    (Seq<char>, DownloadedFileType),
    Seq<char>,
> {
    let (os_str, file_type) = match os {
        Os::Mac => ("darwin"@, DownloadedFileType::GzipTar),
        Os::Linux => ("linux"@, DownloadedFileType::GzipTar),
        Os::Windows => ("windows"@, DownloadedFileType::Zip),
    };
    let ext = match file_type {
        DownloadedFileType::Zip => "zip"@,
        _ => "tar.gz"@,
    };
    match arch {
        Architecture::Aarch64 => Ok(
            (PROXY_BINARY@ + "-"@ + os_str + "-"@ + "aarch64"@ + "."@ + ext, file_type),
        ),
        Architecture::X8664 => Ok(
            (PROXY_BINARY@ + "-"@ + os_str + "-"@ + "x86_64"@ + "."@ + ext, file_type),
        ),
        Architecture::X86 => Err("Unsupported architecture for kotlin-lsp-proxy"@),
    }
}

/// Returns the release asset name and archive type for the platform
/// `os`/`arch`: `kotlin-lsp-proxy-<os>-<arch>.<tar.gz|zip>`.
pub fn asset(os: Os, arch: Architecture) -> (r: Result<(String, DownloadedFileType), String>)
    ensures
        match (r, asset_spec(os, arch)) {
            (Ok((n, t)), Ok((sn, st))) => n@ == sn && t == st,
            (Err(e), Err(se)) => e@ == se,
            _ => false,
        },
{
    let (os_str, file_type) = match os {
        Os::Mac => ("darwin", DownloadedFileType::GzipTar),
        Os::Linux => ("linux", DownloadedFileType::GzipTar),
        Os::Windows => ("windows", DownloadedFileType::Zip),
    };
    let arch_str = match arch {
        Architecture::Aarch64 => "aarch64",
        Architecture::X8664 => "x86_64",
        _ => {
            return Err(String::from_str("Unsupported architecture for kotlin-lsp-proxy"));
        },
    };
    let ext = match file_type {
        DownloadedFileType::Zip => "zip",
        _ => "tar.gz",
    };
    let mut name = String::from_str(PROXY_BINARY);
    name.append("-");
    name.append(os_str);
    name.append("-");
    name.append(arch_str);
    name.append(".");
    name.append(ext);
    Ok((name, file_type))
}

/// The proxy executable file name on `os`.
pub open spec fn proxy_exec_spec(os: Os) -> Seq<char> {
    match os {
        Os::Windows => PROXY_BINARY@ + ".exe"@,
        _ => PROXY_BINARY@,
    }
}

/// Returns the proxy executable file name for `os`.
pub fn proxy_exec(os: Os) -> (r: String)
    ensures
        r@ == proxy_exec_spec(os),
{
    let mut r = String::from_str(PROXY_BINARY);
    match os {
        Os::Windows => r.append(".exe"),
        _ => {},
    }
    r
}

/// `path` with a leading `~` replaced by `home`; any other path as it is.
pub open spec fn expand_tilde(path: Seq<char>, home: Seq<char>) -> Seq<char> {
    if path.len() > 0 && path[0] == '~' {
        home + path.drop_first()
    } else {
        path
    }
}

/// The value of the first `name` entry of `env`, if any.
pub open spec fn env_lookup(env: Seq<(Seq<char>, Seq<char>)>, name: Seq<char>) -> Option<
    Seq<char>,
>
    decreases env.len(),
{
    if env.len() == 0 {
        None
    } else if env[0].0 == name {
        Some(env[0].1)
    } else {
        env_lookup(env.drop_first(), name)
    }
}

/// The `(name, value)` pairs of an environment as sequences.
pub open spec fn env_view(env: Seq<(String, String)>) -> Seq<(Seq<char>, Seq<char>)> {
    env.map_values(|p: (String, String)| (p.0@, p.1@))
}

/// The message when `$HOME` cannot be found.
pub open spec fn home_missing_message() -> Seq<char> {
    "Failed to expand '~': $HOME not found in shell environment"@
}

/// `path` with a leading `~` expanded to `$HOME` from `env`; on Windows unchanged.
pub open spec fn expand_home_path_spec(
    os: Os,
    env: Seq<(Seq<char>, Seq<char>)>,
    path: Seq<char>,
) -> Result<Seq<char>, Seq<char>> {
    match os {
        Os::Windows => Ok(path),
        _ => match env_lookup(env, "HOME"@) {
            Some(home) => Ok(expand_tilde(path, home)),
            None => Err(home_missing_message()),
        },
    }
}

fn expand_leading_tilde(path: &str, home: &str) -> (r: String)
    ensures
        r@ == expand_tilde(path@, home@),
{
    let n = path.unicode_len();
    if n == 0 || path.get_char(0) != '~' {
        return String::from_str(path);
    }
    let mut r = String::from_str(home);
    let mut i: usize = 1;
    while i < n
        invariant
            n == path@.len(),
            1 <= i <= n,
            r@ == home@ + path@.subrange(1, i as int),
        decreases n - i,
    {
        let c = path.get_char(i);
        push_char(&mut r, c);
        assert(path@.subrange(1, i + 1) =~= path@.subrange(1, i as int).push(c));
        i = i + 1;
    }
    assert(path@.subrange(1, n as int) =~= path@.drop_first());
    r
}

/// Expands a leading `~` to the `$HOME` of the worktree's shell environment
/// `env`; a `~` anywhere else is left as it is. On Windows the path is
/// returned unchanged.
pub fn expand_home_path(os: Os, env: &Vec<(String, String)>, path: &str) -> (r: Result<
    String,
    String,
>)
    ensures
        match (r, expand_home_path_spec(os, env_view(env@), path@)) {
            (Ok(p), Ok(sp)) => p@ == sp,
            (Err(e), Err(se)) => e@ == se,
            _ => false,
        },
{
    match os {
        Os::Windows => {
            return Ok(String::from_str(path));
        },
        _ => {},
    }
    let mut i: usize = 0;
    assert(env_view(env@).skip(0) =~= env_view(env@));
    while i < env.len()
        invariant
            !(os is Windows),
            i <= env.len(),
            env_lookup(env_view(env@), "HOME"@) == env_lookup(env_view(env@).skip(i as int), "HOME"@),
        decreases env.len() - i,
    {
        let ghost rest = env_view(env@).skip(i as int);
        assert(rest.drop_first() =~= env_view(env@).skip(i + 1));
        assert(rest[0] == (env@[i as int].0@, env@[i as int].1@));
        if same_text(env[i].0.as_str(), "HOME") {
            return Ok(expand_leading_tilde(path, env[i].1.as_str()));
        }
        i = i + 1;
    }
    assert(env_view(env@).skip(i as int) =~= Seq::<(Seq<char>, Seq<char>)>::empty());
    Err(String::from_str("Failed to expand '~': $HOME not found in shell environment"))
}

/// The first asset of `assets` named `name`: its download URL.
pub open spec fn find_asset(assets: Seq<(Seq<char>, Seq<char>)>, name: Seq<char>) -> Option<
    Seq<char>,
>
    decreases assets.len(),
{
    if assets.len() == 0 {
        None
    } else if assets[0].0 == name {
        Some(assets[0].1)
    } else {
        find_asset(assets.drop_first(), name)
    }
}

/// The `(name, url)` pairs of release assets.
pub open spec fn assets_view(assets: Seq<ReleaseAsset>) -> Seq<(Seq<char>, Seq<char>)> {
    assets.map_values(|a: ReleaseAsset| (a.name@, a.download_url@))
}

fn find_asset_url(assets: &Vec<ReleaseAsset>, name: &String) -> (r: Option<String>)
    ensures
        match (r, find_asset(assets_view(assets@), name@)) {
            (Some(u), Some(su)) => u@ == su,
            (None, None) => true,
            _ => false,
        },
{
    let mut i: usize = 0;
    assert(assets_view(assets@).skip(0) =~= assets_view(assets@));
    while i < assets.len()
        invariant
            i <= assets.len(),
            find_asset(assets_view(assets@), name@) == find_asset(
                assets_view(assets@).skip(i as int),
                name@,
            ),
        decreases assets.len() - i,
    {
        let ghost rest = assets_view(assets@).skip(i as int);
        assert(rest.drop_first() =~= assets_view(assets@).skip(i + 1));
        assert(rest[0] == (assets@[i as int].name@, assets@[i as int].download_url@));
        if assets[i].name == *name {
            return Some(assets[i].download_url.clone());
        }
        i = i + 1;
    }
    assert(assets_view(assets@).skip(i as int) =~= Seq::<(Seq<char>, Seq<char>)>::empty());
    None
}

/// Where a proxy release unpacks.
pub struct ProxyDownload<S> {
    /// Release version.
    pub version: S,
    /// Name of the release asset for the platform.
    pub asset_name: S,
    /// Archive format of the asset.
    pub file_type: DownloadedFileType,
    /// `kotlin-proxy-<version>`.
    pub version_dir: S,
    /// `<version_dir>/<proxy executable>`.
    pub binary_path: S,
}

impl View for ProxyDownload<String> {
    type V = ProxyDownload<Seq<char>>;

    open spec fn view(&self) -> ProxyDownload<Seq<char>> {
        ProxyDownload {
            version: self.version@,
            asset_name: self.asset_name@,
            file_type: self.file_type,
            version_dir: self.version_dir@,
            binary_path: self.binary_path@,
        }
    }
}

/// Where an install of the proxy stands: which answer it waits for. `A` is
/// the release's asset list.
pub enum ProxyStage<S, A> {
    /// No install under way.
    Idle,
    /// A configured path waits for the platform.
    ConfiguredPlatform(S),
    /// A configured path waits for the shell environment.
    ConfiguredEnv(S),
    /// Waiting for the "checking for update" report.
    ReportingCheck,
    /// Waiting for the latest release.
    FetchingRelease,
    /// Waiting for the platform, with the release's version and assets.
    ReleasePlatform(S, A),
    /// Waiting to learn whether the binary is installed.
    CheckingInstalled(ProxyDownload<S>, A),
    /// Waiting for the "downloading" report, with the asset's URL.
    ReportingDownload(ProxyDownload<S>, S),
    /// Waiting for the download.
    Downloading(ProxyDownload<S>),
    /// Waiting for the binary to be made executable.
    MakingExecutable(ProxyDownload<S>),
    /// Waiting for older versions to be removed.
    RemovingOutdated(ProxyDownload<S>),
}

impl View for ProxyStage<String, Vec<ReleaseAsset>> {
    type V = ProxyStage<Seq<char>, Seq<(Seq<char>, Seq<char>)>>;

    open spec fn view(&self) -> ProxyStage<Seq<char>, Seq<(Seq<char>, Seq<char>)>> {
        match self {
            ProxyStage::Idle => ProxyStage::Idle,
            ProxyStage::ConfiguredPlatform(p) => ProxyStage::ConfiguredPlatform(p@),
            ProxyStage::ConfiguredEnv(p) => ProxyStage::ConfiguredEnv(p@),
            ProxyStage::ReportingCheck => ProxyStage::ReportingCheck,
            ProxyStage::FetchingRelease => ProxyStage::FetchingRelease,
            ProxyStage::ReleasePlatform(v, a) => ProxyStage::ReleasePlatform(v@, assets_view(a@)),
            ProxyStage::CheckingInstalled(d, a) => ProxyStage::CheckingInstalled(
                d@,
                assets_view(a@),
            ),
            ProxyStage::ReportingDownload(d, u) => ProxyStage::ReportingDownload(d@, u@),
            ProxyStage::Downloading(d) => ProxyStage::Downloading(d@),
            ProxyStage::MakingExecutable(d) => ProxyStage::MakingExecutable(d@),
            ProxyStage::RemovingOutdated(d) => ProxyStage::RemovingOutdated(d@),
        }
    }
}

/// The state of the proxy manager: the cached path and the install stage.
pub struct ProxyView {
    pub cached: Option<Seq<char>>,
    pub stage: ProxyStage<Seq<char>, Seq<(Seq<char>, Seq<char>)>>,
}

/// The directory and binary path for release `version` on `os`.
pub open spec fn proxy_download_spec(
    version: Seq<char>,
    asset_name: Seq<char>,
    file_type: DownloadedFileType,
    os: Os,
) -> ProxyDownload<Seq<char>> {
    let version_dir = INSTALL_PREFIX@ + "-"@ + version;
    ProxyDownload {
        version,
        asset_name,
        file_type,
        version_dir,
        binary_path: version_dir + "/"@ + proxy_exec_spec(os),
    }
}

/// The message when the release has no asset for the platform.
pub open spec fn no_asset_message(d: ProxyDownload<Seq<char>>) -> Seq<char> {
    "No kotlin-lsp-proxy asset matching \""@ + d.asset_name + "\" in release "@ + d.version
}

/// The answer the proxy manager gives to an event it was not waiting for.
pub open spec fn proxy_unexpected_message() -> Seq<char> {
    "unexpected answer during the kotlin-lsp-proxy installation"@
}

/// One step of resolving the proxy binary: from the manager's state and the
/// host's answer to the next state and the next request.
///
/// While idle with a cached path, any answer finishes at once with it. A
/// configured path is used with a leading `~` expanded to `$HOME` (unchanged on
/// Windows); when `$HOME` is not in the shell environment the configured path
/// is ignored. Otherwise the manager reports "checking for update", fetches
/// the latest release, picks the asset for the platform and, unless the
/// binary is already installed, reports "downloading", downloads the asset,
/// makes the binary executable and removes older versions. A path is cached
/// when it is returned; every failure finishes with its message.
pub open spec fn proxy_step(s: ProxyView, e: InstallEvent) -> (ProxyView, InstallAction<Seq<char>>) {
    let idle = ProxyView { cached: s.cached, stage: ProxyStage::Idle };
    let done = |p: Seq<char>| (ProxyView { cached: Some(p), stage: ProxyStage::Idle }, InstallAction::<Seq<char>>::Finish(Ok(p)));
    let checking = (
        ProxyView { cached: s.cached, stage: ProxyStage::ReportingCheck },
        InstallAction::<Seq<char>>::ReportStatus(InstallStatus::CheckingForUpdate),
    );
    match (s.stage, e) {
        (ProxyStage::Idle, InstallEvent::Begin(configured)) => match s.cached {
            Some(p) => (s, InstallAction::Finish(Ok(p))),
            None => match configured {
                Some(p) => (
                    ProxyView { cached: None, stage: ProxyStage::ConfiguredPlatform(p@) },
                    InstallAction::QueryPlatform,
                ),
                None => checking,
            },
        },
        (ProxyStage::ConfiguredPlatform(p), InstallEvent::Platform(os, _)) => match os {
            Os::Windows => done(p),
            _ => (
                ProxyView { cached: s.cached, stage: ProxyStage::ConfiguredEnv(p) },
                InstallAction::QueryShellEnv,
            ),
        },
        (ProxyStage::ConfiguredEnv(p), InstallEvent::ShellEnv(env)) => match env_lookup(
            env_view(env@),
            "HOME"@,
        ) {
            Some(home) => done(expand_tilde(p, home)),
            None => checking,
        },
        (ProxyStage::ReportingCheck, InstallEvent::StatusReported) => (
            ProxyView { cached: s.cached, stage: ProxyStage::FetchingRelease },
            InstallAction::FetchRelease,
        ),
        (ProxyStage::FetchingRelease, InstallEvent::Release(outcome)) => match outcome {
            Err(m) => (
                idle,
                InstallAction::Finish(Err("Failed to fetch kotlin-lsp-proxy release: "@ + m@)),
            ),
            Ok(rel) => (
                ProxyView {
                    cached: s.cached,
                    stage: ProxyStage::ReleasePlatform(rel.version@, assets_view(rel.assets@)),
                },
                InstallAction::QueryPlatform,
            ),
        },
        (ProxyStage::ReleasePlatform(v, assets), InstallEvent::Platform(os, arch)) => match asset_spec(
            os,
            arch,
        ) {
            Err(m) => (idle, InstallAction::Finish(Err(m))),
            Ok((name, file_type)) => {
                let d = proxy_download_spec(v, name, file_type, os);
                (
                    ProxyView { cached: s.cached, stage: ProxyStage::CheckingInstalled(d, assets) },
                    InstallAction::CheckFile(d.binary_path),
                )
            },
        },
        (ProxyStage::CheckingInstalled(d, assets), InstallEvent::FileChecked(found)) => if found {
            done(d.binary_path)
        } else {
            match find_asset(assets, d.asset_name) {
                None => (idle, InstallAction::Finish(Err(no_asset_message(d)))),
                Some(url) => (
                    ProxyView { cached: s.cached, stage: ProxyStage::ReportingDownload(d, url) },
                    InstallAction::ReportStatus(InstallStatus::Downloading),
                ),
            }
        },
        (ProxyStage::ReportingDownload(d, url), InstallEvent::StatusReported) => (
            ProxyView { cached: s.cached, stage: ProxyStage::Downloading(d) },
            InstallAction::Download { url, dir: d.version_dir, file_type: d.file_type },
        ),
        (ProxyStage::Downloading(d), InstallEvent::Downloaded(outcome)) => match outcome {
            Err(m) => (
                idle,
                InstallAction::Finish(Err("Failed to download kotlin-lsp-proxy: "@ + m@)),
            ),
            Ok(_) => (
                ProxyView { cached: s.cached, stage: ProxyStage::MakingExecutable(d) },
                InstallAction::MakeExecutable(d.binary_path),
            ),
        },
        (ProxyStage::MakingExecutable(d), InstallEvent::MadeExecutable(outcome)) => match outcome {
            Err(m) => (idle, InstallAction::Finish(Err(m@))),
            Ok(_) => (
                ProxyView { cached: s.cached, stage: ProxyStage::RemovingOutdated(d) },
                InstallAction::RemoveOutdated { prefix: INSTALL_PREFIX@, keep: d.version_dir },
            ),
        },
        (ProxyStage::RemovingOutdated(d), InstallEvent::RemovedOutdated(outcome)) => match outcome {
            Err(m) => (idle, InstallAction::Finish(Err(m@))),
            Ok(_) => done(d.binary_path),
        },
        (ProxyStage::Idle, _) => match s.cached {
            Some(p) => (s, InstallAction::Finish(Ok(p))),
            None => (idle, InstallAction::Finish(Err(proxy_unexpected_message()))),
        },
        _ => (idle, InstallAction::Finish(Err(proxy_unexpected_message()))),
    }
}

/// The manager's invariant: a path is cached only between installs.
pub open spec fn proxy_wf(s: ProxyView) -> bool {
    !(s.stage is Idle) ==> s.cached is None
}

/// Every step keeps the invariant.
pub proof fn lemma_proxy_step_wf(s: ProxyView, e: InstallEvent)
    requires
        proxy_wf(s),
    ensures
        proxy_wf(proxy_step(s, e).0),
{
}

/// The resolved path is cached for the lifetime of the manager: once a path
/// is cached, whatever the host answers, the manager stays as it is and
/// finishes at once with that path.
pub proof fn lemma_proxy_cache_is_final(s: ProxyView, e: InstallEvent, p: Seq<char>)
    requires
        proxy_wf(s),
        s.cached == Some(p),
    ensures
        proxy_step(s, e) == (s, InstallAction::<Seq<char>>::Finish(Ok(p))),
{
}

/// A path that a run returns is the one cached from then on.
pub proof fn lemma_proxy_returned_path_cached(s: ProxyView, e: InstallEvent, p: Seq<char>)
    requires
        proxy_wf(s),
        proxy_step(s, e).1 == InstallAction::<Seq<char>>::Finish(Ok(p)),
    ensures
        proxy_step(s, e).0.cached == Some(p),
        proxy_step(s, e).0.stage is Idle,
{
}

/// A run that fails caches nothing: the manager is left as a new one is, so
/// the next request tries again from the start.
pub proof fn lemma_proxy_failure_caches_nothing(s: ProxyView, e: InstallEvent, m: Seq<char>)
    requires
        proxy_wf(s),
        proxy_step(s, e).1 == InstallAction::<Seq<char>>::Finish(Err(m)),
    ensures
        proxy_step(s, e).0 == (ProxyView { cached: None, stage: ProxyStage::Idle }),
{
}

/// The state after the host's answers `events`, one step each.
pub open spec fn proxy_run(s: ProxyView, events: Seq<InstallEvent>) -> ProxyView
    decreases events.len(),
{
    if events.len() == 0 {
        s
    } else {
        proxy_run(proxy_step(s, events[0]).0, events.drop_first())
    }
}

proof fn lemma_proxy_run_keeps_cache(s: ProxyView, events: Seq<InstallEvent>, p: Seq<char>)
    requires
        proxy_wf(s),
        s.cached == Some(p),
    ensures
        proxy_run(s, events) == s,
    decreases events.len(),
{
    if events.len() > 0 {
        lemma_proxy_run_keeps_cache(s, events.drop_first(), p);
    }
}

/// Once a path is cached, every later sequence of answers leaves the manager
/// as it is, and each answer is met with that path: no download, no file
/// check, no status report.
pub proof fn lemma_proxy_cached_for_every_run(s: ProxyView, events: Seq<InstallEvent>, p: Seq<char>)
    requires
        proxy_wf(s),
        s.cached == Some(p),
    ensures
        proxy_run(s, events) == s,
        forall|i: int|
            0 <= i < events.len() ==> #[trigger] proxy_step(proxy_run(s, events.take(i)), events[i])
                == (s, InstallAction::<Seq<char>>::Finish(Ok(p))),
{
    lemma_proxy_run_keeps_cache(s, events, p);
    assert forall|i: int| 0 <= i < events.len() implies #[trigger] proxy_step(
        proxy_run(s, events.take(i)),
        events[i],
    ) == (s, InstallAction::<Seq<char>>::Finish(Ok(p))) by {
        lemma_proxy_run_keeps_cache(s, events.take(i), p);
    }
}

/// The two cleanups never clobber each other's installs: removing outdated
/// proxy versions (`kotlin-proxy-*`) leaves every entry named like a server
/// install (`kotlin-dev-lsp*`), and removing outdated server versions leaves
/// every proxy install, whichever version each keeps.
pub proof fn lemma_cleanups_are_separate(name: Seq<char>, keep: Seq<char>)
    ensures
        name.len() >= KotlinLSP::LANGUAGE_SERVER_ID@.len() && name.take(
            KotlinLSP::LANGUAGE_SERVER_ID@.len() as int,
        ) == KotlinLSP::LANGUAGE_SERVER_ID@ ==> !is_outdated_version_spec(
            name,
            INSTALL_PREFIX@,
            keep,
        ),
        name.len() >= INSTALL_PREFIX@.len() && name.take(INSTALL_PREFIX@.len() as int)
            == INSTALL_PREFIX@ ==> !is_outdated_version_spec(
            name,
            KotlinLSP::LANGUAGE_SERVER_ID@,
            keep,
        ),
{
    reveal_strlit("kotlin-proxy");
    reveal_strlit("kotlin-dev-lsp");
    let server = KotlinLSP::LANGUAGE_SERVER_ID@;
    let proxy = INSTALL_PREFIX@;
    assert(server[7] == 'd' && proxy[7] == 'p');
    if name.len() >= server.len() && name.take(server.len() as int) == server {
        assert(name[7] == name.take(server.len() as int)[7]);
        if name.len() >= proxy.len() && name.take(proxy.len() as int) == proxy {
            assert(name[7] == name.take(proxy.len() as int)[7]);
        }
    }
    if name.len() >= proxy.len() && name.take(proxy.len() as int) == proxy {
        assert(name[7] == name.take(proxy.len() as int)[7]);
        if name.len() >= server.len() && name.take(server.len() as int) == server {
            assert(name[7] == name.take(server.len() as int)[7]);
        }
    }
}

/// Installing a release of the proxy, once the platform is known: the asset
/// is `kotlin-lsp-proxy-<os>-<arch>.<ext>` (`darwin`, `linux` or `windows`;
/// `aarch64` or `x86_64`; `zip` on Windows, else `tar.gz`), and the binary is
/// `kotlin-proxy-<version>/kotlin-lsp-proxy`, with `.exe` exactly on Windows.
/// That path is the one checked, made executable, and returned, whether it
/// was already installed or is downloaded (from the asset's URL into
/// `kotlin-proxy-<version>`, older versions removed afterwards).
pub proof fn lemma_proxy_release_install(
    version: Seq<char>,
    assets: Seq<(Seq<char>, Seq<char>)>,
    os: Os,
    arch: Architecture,
    url: Seq<char>,
)
    requires
        !(arch is X86),
    ensures
        ({
            let os_str = match os {
                Os::Mac => "darwin"@,
                Os::Linux => "linux"@,
                Os::Windows => "windows"@,
            };
            let arch_str = if arch is Aarch64 {
                "aarch64"@
            } else {
                "x86_64"@
            };
            let ext = if os is Windows {
                "zip"@
            } else {
                "tar.gz"@
            };
            let name = "kotlin-lsp-proxy-"@ + os_str + "-"@ + arch_str + "."@ + ext;
            let dir = "kotlin-proxy-"@ + version;
            let bin = if os is Windows {
                dir + "/kotlin-lsp-proxy.exe"@
            } else {
                dir + "/kotlin-lsp-proxy"@
            };
            let s0 = ProxyView { cached: None, stage: ProxyStage::ReleasePlatform(version, assets) };
            let (s1, a1) = proxy_step(s0, InstallEvent::Platform(os, arch));
            &&& a1 == InstallAction::<Seq<char>>::CheckFile(bin)
            &&& proxy_step(s1, InstallEvent::FileChecked(true)) == (
                ProxyView { cached: Some(bin), stage: ProxyStage::Idle },
                InstallAction::<Seq<char>>::Finish(Ok(bin)),
            )
            &&& find_asset(assets, name) == Some(url) ==> {
                let (s2, a2) = proxy_step(s1, InstallEvent::FileChecked(false));
                let (s3, a3) = proxy_step(s2, InstallEvent::StatusReported);
                let (s4, a4) = proxy_step(s3, InstallEvent::Downloaded(Ok(())));
                let (s5, a5) = proxy_step(s4, InstallEvent::MadeExecutable(Ok(())));
                let (s6, a6) = proxy_step(s5, InstallEvent::RemovedOutdated(Ok(())));
                &&& a2 == InstallAction::<Seq<char>>::ReportStatus(InstallStatus::Downloading)
                &&& a3 == InstallAction::<Seq<char>>::Download {
                    url,
                    dir,
                    file_type: if os is Windows {
                        DownloadedFileType::Zip
                    } else {
                        DownloadedFileType::GzipTar
                    },
                }
                &&& a4 == InstallAction::<Seq<char>>::MakeExecutable(bin)
                &&& a5 == InstallAction::<Seq<char>>::RemoveOutdated {
                    prefix: "kotlin-proxy"@,
                    keep: dir,
                }
                &&& a6 == InstallAction::<Seq<char>>::Finish(Ok(bin))
                &&& s6 == (ProxyView { cached: Some(bin), stage: ProxyStage::Idle })
            }
        }),
{
    reveal_strlit("kotlin-lsp-proxy");
    reveal_strlit("kotlin-lsp-proxy-");
    reveal_strlit("kotlin-proxy");
    reveal_strlit("kotlin-proxy-");
    reveal_strlit("-");
    reveal_strlit("/");
    reveal_strlit(".exe");
    reveal_strlit("/kotlin-lsp-proxy");
    reveal_strlit("/kotlin-lsp-proxy.exe");
    let dir = "kotlin-proxy-"@ + version;
    assert(INSTALL_PREFIX@ + "-"@ + version =~= dir);
    assert(PROXY_BINARY@ + "-"@ =~= "kotlin-lsp-proxy-"@);
    assert(dir + "/"@ + (PROXY_BINARY@ + ".exe"@) =~= dir + "/kotlin-lsp-proxy.exe"@);
    assert(dir + "/"@ + PROXY_BINARY@ =~= dir + "/kotlin-lsp-proxy"@);
}

/// A configured `proxy_path` on every OS but Windows (macOS as well as Linux):
/// the run asks for the platform, then for the shell environment, and with
/// `$HOME` there finishes with the path whose leading `~` is replaced by
/// `$HOME` (any other path as given). On Windows it finishes with the path as
/// given, right after the platform.
pub proof fn lemma_configured_path_per_os(
    path: String,
    os: Os,
    arch: Architecture,
    env: Vec<(String, String)>,
    home: Seq<char>,
)
    requires
        env_lookup(env_view(env@), "HOME"@) == Some(home),
    ensures
        ({
            let s0 = ProxyView { cached: None, stage: ProxyStage::Idle };
            let (s1, a1) = proxy_step(s0, InstallEvent::Begin(Some(path)));
            let (s2, a2) = proxy_step(s1, InstallEvent::Platform(os, arch));
            let expanded = if path@.len() > 0 && path@[0] == '~' {
                home + path@.skip(1)
            } else {
                path@
            };
            &&& a1 == InstallAction::<Seq<char>>::QueryPlatform
            &&& os is Windows ==> a2 == InstallAction::<Seq<char>>::Finish(Ok(path@))
            &&& !(os is Windows) ==> {
                &&& a2 == InstallAction::<Seq<char>>::QueryShellEnv
                &&& proxy_step(s2, InstallEvent::ShellEnv(env)) == (
                    ProxyView { cached: Some(expanded), stage: ProxyStage::Idle },
                    InstallAction::<Seq<char>>::Finish(Ok(expanded)),
                )
            }
        }),
{
    assert(path@.skip(1) =~= path@.drop_first());
}

/// The proxy's release asset and executable for every platform:
/// `kotlin-lsp-proxy-<darwin|linux|windows>-<aarch64|x86_64>.<tar.gz|zip>`
/// (`zip` exactly on Windows), 32-bit x86 refused; the executable is
/// `kotlin-lsp-proxy`, with `.exe` exactly on Windows.
pub proof fn lemma_proxy_asset_per_platform(os: Os, arch: Architecture)
    ensures
        arch is X86 ==> asset_spec(os, arch) is Err,
        !(arch is X86) ==> asset_spec(os, arch) == Ok::<(Seq<char>, DownloadedFileType), Seq<char>>(
            (
                "kotlin-lsp-proxy-"@ + match os {
                    Os::Mac => "darwin"@,
                    Os::Linux => "linux"@,
                    Os::Windows => "windows"@,
                } + "-"@ + (if arch is Aarch64 {
                    "aarch64"@
                } else {
                    "x86_64"@
                }) + (if os is Windows {
                    ".zip"@
                } else {
                    ".tar.gz"@
                }),
                if os is Windows {
                    DownloadedFileType::Zip
                } else {
                    DownloadedFileType::GzipTar
                },
            ),
        ),
        proxy_exec_spec(os) == if os is Windows {
            "kotlin-lsp-proxy.exe"@
        } else {
            "kotlin-lsp-proxy"@
        },
{
    reveal_strlit("kotlin-lsp-proxy");
    reveal_strlit("kotlin-lsp-proxy-");
    reveal_strlit("kotlin-lsp-proxy.exe");
    reveal_strlit(".exe");
    reveal_strlit("-");
    reveal_strlit(".");
    reveal_strlit(".zip");
    reveal_strlit(".tar.gz");
    reveal_strlit("zip");
    reveal_strlit("tar.gz");
    if !(arch is X86) {
        let (name, _) = asset_spec(os, arch)->Ok_0;
        let os_str = match os {
            Os::Mac => "darwin"@,
            Os::Linux => "linux"@,
            Os::Windows => "windows"@,
        };
        let arch_str = if arch is Aarch64 {
            "aarch64"@
        } else {
            "x86_64"@
        };
        let ext = if os is Windows {
            "zip"@
        } else {
            "tar.gz"@
        };
        let dext = if os is Windows {
            ".zip"@
        } else {
            ".tar.gz"@
        };
        assert("."@ + ext =~= dext);
        assert(name =~= "kotlin-lsp-proxy-"@ + os_str + "-"@ + arch_str + dext);
    }
    assert(PROXY_BINARY@ + ".exe"@ =~= "kotlin-lsp-proxy.exe"@);
}

/// `~` expansion on every OS: on Windows the path is returned unchanged; on
/// every other OS (macOS as well as Linux) a leading `~` is replaced by the
/// first `HOME` of the shell environment and the rest of the path is kept
/// (a path without a leading `~` is returned as it is), and without `HOME`
/// the expansion fails.
pub proof fn lemma_expand_home_path_per_os(
    os: Os,
    env: Seq<(Seq<char>, Seq<char>)>,
    path: Seq<char>,
)
    ensures
        os is Windows ==> expand_home_path_spec(os, env, path) == Ok::<Seq<char>, Seq<char>>(path),
        !(os is Windows) ==> match env_lookup(env, "HOME"@) {
            Some(home) => expand_home_path_spec(os, env, path) == Ok::<Seq<char>, Seq<char>>(
                if path.len() > 0 && path[0] == '~' {
                    home + path.skip(1)
                } else {
                    path
                },
            ),
            None => expand_home_path_spec(os, env, path) is Err,
        },
        env.len() > 0 && env[0].0 == "HOME"@ ==> env_lookup(env, "HOME"@) == Some(env[0].1),
        env.len() > 0 && env[0].0 != "HOME"@ ==> env_lookup(env, "HOME"@) == env_lookup(
            env.skip(1),
            "HOME"@,
        ),
        env.len() == 0 ==> env_lookup(env, "HOME"@) is None,
{
    assert(path.skip(1) =~= path.drop_first());
    assert(env.skip(1) =~= env.drop_first());
}

/// A configured `proxy_path` bypasses the release download entirely: on
/// Windows it is used as it is; elsewhere, with `$HOME` in the shell
/// environment, it is used with a leading `~` expanded.
pub proof fn lemma_configured_path_bypasses_download(
    path: String,
    arch: Architecture,
    env: Vec<(String, String)>,
    home: Seq<char>,
)
    requires
        env_lookup(env_view(env@), "HOME"@) == Some(home),
    ensures
        ({
            let s0 = ProxyView { cached: None, stage: ProxyStage::Idle };
            let (s1, a1) = proxy_step(s0, InstallEvent::Begin(Some(path)));
            &&& a1 == InstallAction::<Seq<char>>::QueryPlatform
            &&& proxy_step(s1, InstallEvent::Platform(Os::Windows, arch)).1 == InstallAction::<
                Seq<char>,
            >::Finish(Ok(path@))
            &&& proxy_step(s1, InstallEvent::Platform(Os::Linux, arch)).1
                == InstallAction::<Seq<char>>::QueryShellEnv
            &&& proxy_step(
                proxy_step(s1, InstallEvent::Platform(Os::Linux, arch)).0,
                InstallEvent::ShellEnv(env),
            ).1 == InstallAction::<Seq<char>>::Finish(Ok(expand_tilde(path@, home)))
        }),
{
}

/// Downloads and caches the `kotlin-lsp-proxy` binary that resolves
/// archive-internal (`jar!/`, `zip!/`) source URIs returned by kotlin-lsp.
pub struct Proxy {
    /// Path to a previously resolved proxy binary, if any.
    cached_binary_path: Option<String>,
    /// Where the install under way stands.
    stage: ProxyStage<String, Vec<ReleaseAsset>>,
}

impl View for Proxy {
    type V = ProxyView;

    closed spec fn view(&self) -> ProxyView {
        ProxyView {
            cached: match self.cached_binary_path {
                Some(p) => Some(p@),
                None => None,
            },
            stage: self.stage@,
        }
    }
}

impl Proxy {
    /// A path is cached only between installs.
    #[verifier::type_invariant]
    spec fn well_formed(self) -> bool {
        proxy_wf(self@)
    }
}

impl Proxy {
    /// Creates a new manager with no cached binary path.
    pub fn new() -> (r: Self)
        ensures
            r@.cached is None,
            r@.stage is Idle,
            proxy_wf(r@),
    {
        Proxy { cached_binary_path: None, stage: ProxyStage::Idle }
    }

    fn finish_with(&mut self, p: String) -> (a: InstallAction<String>)
        ensures
            final(self)@ == (ProxyView { cached: Some(p@), stage: ProxyStage::Idle }),
            a@ == InstallAction::<Seq<char>>::Finish(Ok(p@)),
    {
        self.stage = ProxyStage::Idle;
        self.cached_binary_path = Some(p.clone());
        InstallAction::Finish(Ok(p))
    }

    /// One step of resolving the binary path: takes the host's answer `event`
    /// and returns the next request; see
    /// `proxy_step`. A run starts with `Begin` carrying the user-configured
    /// `proxy_path` setting and ends when a `Finish` request comes back,
    /// whose payload is what resolving the binary path returns.
    pub fn language_server_binary_path(&mut self, event: InstallEvent) -> (a: InstallAction<String>)
        ensures
            proxy_wf(final(self)@),
            (final(self)@, a@) == proxy_step(old(self)@, event),
    {
        proof {
            use_type_invariant(&*self);
        }
        let mut stage = ProxyStage::Idle;
        std::mem::swap(&mut stage, &mut self.stage);
        match (stage, event) {
            (ProxyStage::Idle, InstallEvent::Begin(configured)) => match &self.cached_binary_path {
                Some(p) => InstallAction::Finish(Ok(p.clone())),
                None => match configured {
                    Some(p) => {
                        self.stage = ProxyStage::ConfiguredPlatform(p);
                        InstallAction::QueryPlatform
                    },
                    None => {
                        self.stage = ProxyStage::ReportingCheck;
                        InstallAction::ReportStatus(InstallStatus::CheckingForUpdate)
                    },
                },
            },
            (ProxyStage::ConfiguredPlatform(p), InstallEvent::Platform(os, _)) => match os {
                Os::Windows => self.finish_with(p),
                _ => {
                    self.stage = ProxyStage::ConfiguredEnv(p);
                    InstallAction::QueryShellEnv
                },
            },
            (ProxyStage::ConfiguredEnv(p), InstallEvent::ShellEnv(env)) => {
                match expand_home_path(Os::Linux, &env, p.as_str()) {
                    Ok(expanded) => self.finish_with(expanded),
                    Err(_) => {
                        self.stage = ProxyStage::ReportingCheck;
                        InstallAction::ReportStatus(InstallStatus::CheckingForUpdate)
                    },
                }
            },
            (ProxyStage::ReportingCheck, InstallEvent::StatusReported) => {
                self.stage = ProxyStage::FetchingRelease;
                InstallAction::FetchRelease
            },
            (ProxyStage::FetchingRelease, InstallEvent::Release(outcome)) => match outcome {
                Err(m) => {
                    let mut msg = String::from_str("Failed to fetch kotlin-lsp-proxy release: ");
                    msg.append(m.as_str());
                    InstallAction::Finish(Err(msg))
                },
                Ok(rel) => {
                    self.stage = ProxyStage::ReleasePlatform(rel.version, rel.assets);
                    InstallAction::QueryPlatform
                },
            },
            (ProxyStage::ReleasePlatform(v, assets), InstallEvent::Platform(os, arch)) => match asset(
                os,
                arch,
            ) {
                Err(m) => InstallAction::Finish(Err(m)),
                Ok((name, file_type)) => {
                    let mut version_dir = String::from_str(INSTALL_PREFIX);
                    version_dir.append("-");
                    version_dir.append(v.as_str());
                    let mut binary_path = version_dir.clone();
                    binary_path.append("/");
                    let exe = proxy_exec(os);
                    binary_path.append(exe.as_str());
                    let path = binary_path.clone();
                    let d = ProxyDownload {
                        version: v,
                        asset_name: name,
                        file_type,
                        version_dir,
                        binary_path,
                    };
                    assert(d@ =~= proxy_download_spec(d@.version, d@.asset_name, file_type, os));
                    self.stage = ProxyStage::CheckingInstalled(d, assets);
                    InstallAction::CheckFile(path)
                },
            },
            (ProxyStage::CheckingInstalled(d, assets), InstallEvent::FileChecked(found)) => {
                if found {
                    self.finish_with(d.binary_path)
                } else {
                    match find_asset_url(&assets, &d.asset_name) {
                        None => {
                            let mut msg = String::from_str("No kotlin-lsp-proxy asset matching \"");
                            msg.append(d.asset_name.as_str());
                            msg.append("\" in release ");
                            msg.append(d.version.as_str());
                            InstallAction::Finish(Err(msg))
                        },
                        Some(url) => {
                            self.stage = ProxyStage::ReportingDownload(d, url);
                            InstallAction::ReportStatus(InstallStatus::Downloading)
                        },
                    }
                }
            },
            (ProxyStage::ReportingDownload(d, url), InstallEvent::StatusReported) => {
                let dir = d.version_dir.clone();
                let file_type = d.file_type;
                self.stage = ProxyStage::Downloading(d);
                InstallAction::Download { url, dir, file_type }
            },
            (ProxyStage::Downloading(d), InstallEvent::Downloaded(outcome)) => match outcome {
                Err(m) => {
                    let mut msg = String::from_str("Failed to download kotlin-lsp-proxy: ");
                    msg.append(m.as_str());
                    InstallAction::Finish(Err(msg))
                },
                Ok(_) => {
                    let path = d.binary_path.clone();
                    self.stage = ProxyStage::MakingExecutable(d);
                    InstallAction::MakeExecutable(path)
                },
            },
            (ProxyStage::MakingExecutable(d), InstallEvent::MadeExecutable(outcome)) => match outcome {
                Err(m) => InstallAction::Finish(Err(m)),
                Ok(_) => {
                    let keep = d.version_dir.clone();
                    self.stage = ProxyStage::RemovingOutdated(d);
                    InstallAction::RemoveOutdated { prefix: String::from_str(INSTALL_PREFIX), keep }
                },
            },
            (ProxyStage::RemovingOutdated(d), InstallEvent::RemovedOutdated(outcome)) => match outcome {
                Err(m) => InstallAction::Finish(Err(m)),
                Ok(_) => self.finish_with(d.binary_path),
            },
            (ProxyStage::Idle, _) => match &self.cached_binary_path {
                Some(p) => InstallAction::Finish(Ok(p.clone())),
                None => InstallAction::Finish(
                    Err(String::from_str("unexpected answer during the kotlin-lsp-proxy installation")),
                ),
            },
            _ => InstallAction::Finish(
                Err(String::from_str("unexpected answer during the kotlin-lsp-proxy installation")),
            ),
        }
    }
}

} // verus!
