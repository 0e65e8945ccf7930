//! Management of the Kotlin language server binary: which JetBrains archive to
//! fetch for the platform, where it unpacks, and the install sequence with its
//! cache.

use vstd::prelude::*;
use vstd::string::*;
use crate::install::{InstallAction, InstallEvent, InstallStatus};
use crate::platform::{Architecture, DownloadedFileType, Os};

verus! {

/// The Kotlin LSP build that is installed. JetBrains' RELEASES.md lags behind
/// the actual releases, so the latest known working build is pinned.
pub const KOTLIN_LSP_VERSION: &'static str = "263.4421.0";

/// Returns the Kotlin LSP build version to download.
pub fn get_version() -> (r: String)
    ensures
        r@ == KOTLIN_LSP_VERSION@,
{
    String::from_str(KOTLIN_LSP_VERSION)
}

/// Where the server archive for a version comes from and where it unpacks.
pub struct TeamcityDownload<S> {
    /// File name of the archive.
    pub asset_name: S,
    /// Download URL of the archive.
    pub url: S,
    /// Directory the archive unpacks into.
    pub extension_dir: S,
    /// Path of the server binary once unpacked.
    pub binary_path: S,
    /// Archive format.
    pub file_type: DownloadedFileType,
}

impl View for TeamcityDownload<String> {
    type V = TeamcityDownload<Seq<char>>;

    open spec fn view(&self) -> TeamcityDownload<Seq<char>> {
        TeamcityDownload {
            asset_name: self.asset_name@,
            url: self.url@,
            extension_dir: self.extension_dir@,
            binary_path: self.binary_path@,
            file_type: self.file_type,
        }
    }
}

/// The message for a platform the server is not built for.
pub open spec fn unsupported_x86_message() -> Seq<char> {
    "Platform X86 is not supported by the Kotlin language server."@
}

/// Suffix of the archive name for an architecture (`None`: not supported).
pub open spec fn arch_suffix_spec(arch: Architecture) -> Option<Seq<char>> {
    match arch {
        Architecture::X8664 => Some(""@),
        Architecture::Aarch64 => Some("-aarch64"@),
        Architecture::X86 => None,
    }
}

/// The JetBrains download for `version` on `os`/`arch`.
pub open spec fn teamcity_download_spec(version: Seq<char>, os: Os, arch: Architecture) -> Result<
    TeamcityDownload<Seq<char>>,
    Seq<char>,
> {
    match arch_suffix_spec(arch) {
        None => Err(unsupported_x86_message()),
        Some(suffix) => {
            let asset_name = match os {
                Os::Windows => "kotlin-server-"@ + version + suffix + ".win.zip"@,
                Os::Mac => "kotlin-server-"@ + version + suffix + ".sit"@,
                Os::Linux => "kotlin-server-"@ + version + suffix + ".tar.gz"@,
            };
            let extension_dir = KotlinLSP::LANGUAGE_SERVER_ID@ + "-"@ + version;
            let target_dir = match os {
                Os::Windows => extension_dir,
                _ => extension_dir + "/kotlin-server-"@ + version,
            };
            let exe_suffix = match os {
                Os::Windows => ".exe"@,
                _ => ""@,
            };
            Ok(
                TeamcityDownload {
                    asset_name,
                    url: "https://download.jetbrains.com/language-server/kotlin-server/"@ + version
                        + "/"@ + asset_name,
                    extension_dir,
                    binary_path: target_dir + "/bin/intellij-server"@ + exe_suffix,
                    file_type: match os {
                        Os::Windows | Os::Mac => DownloadedFileType::Zip,
                        Os::Linux => DownloadedFileType::GzipTar,
                    },
                },
            )
        },
    }
}

/// Computes the archive to download for `version` on `os`/`arch`, where it
/// unpacks and where the server binary ends up. 32-bit x86 is not supported.
pub fn teamcity_download(version: &str, os: Os, arch: Architecture) -> (r: Result<
    TeamcityDownload<String>,
    String,
>)
    ensures
        match (r, teamcity_download_spec(version@, os, arch)) {
            (Ok(d), Ok(s)) => d@ == s,
            (Err(e), Err(s)) => e@ == s,
            _ => false,
        },
{
    let suffix = match arch {
        Architecture::X8664 => "",
        Architecture::Aarch64 => "-aarch64",
        Architecture::X86 => {
            return Err(String::from_str("Platform X86 is not supported by the Kotlin language server."));
        },
    };
    let mut asset_name = String::from_str("kotlin-server-");
    asset_name.append(version);
    asset_name.append(suffix);
    match os {
        Os::Windows => asset_name.append(".win.zip"),
        Os::Mac => asset_name.append(".sit"),
        Os::Linux => asset_name.append(".tar.gz"),
    }
    let mut url = String::from_str("https://download.jetbrains.com/language-server/kotlin-server/");
    url.append(version);
    url.append("/");
    url.append(asset_name.as_str());
    let mut extension_dir = String::from_str(KotlinLSP::LANGUAGE_SERVER_ID);
    extension_dir.append("-");
    extension_dir.append(version);
    let mut binary_path = String::from_str(extension_dir.as_str());
    match os {
        Os::Windows => {},
        _ => {
            binary_path.append("/kotlin-server-");
            binary_path.append(version);
        },
    }
    binary_path.append("/bin/intellij-server");
    match os {
        Os::Windows => binary_path.append(".exe"),
        _ => {},
    }
    let file_type = match os {
        Os::Windows | Os::Mac => DownloadedFileType::Zip,
        Os::Linux => DownloadedFileType::GzipTar,
    };
    let d = TeamcityDownload { asset_name, url, extension_dir, binary_path, file_type };
    proof {
        reveal_strlit("");
        let s = teamcity_download_spec(version@, os, arch)->Ok_0;
        assert(d@.asset_name =~= s.asset_name);
        assert(d@.url =~= s.url);
        assert(d@.extension_dir =~= s.extension_dir);
        assert(d@.binary_path =~= s.binary_path);
    }
    Ok(d)
}

/// Where an install of the server stands: which answer it waits for.
pub enum ServerStage<S> {
    /// No install under way.
    Idle,
    /// Waiting for the "checking for update" report.
    ReportingCheck,
    /// Waiting for the "downloading" report.
    ReportingDownload,
    /// Waiting for the platform.
    AwaitingPlatform,
    /// Waiting to learn whether the binary is already installed.
    CheckingInstalled(TeamcityDownload<S>),
    /// Waiting to learn whether an incomplete install left its directory.
    CheckingLeftover(TeamcityDownload<S>),
    /// Waiting for that directory to be removed.
    RemovingLeftover(TeamcityDownload<S>),
    /// Waiting for the download.
    Downloading(TeamcityDownload<S>),
    /// Waiting to learn whether the archive held the binary.
    CheckingUnpacked(TeamcityDownload<S>),
    /// Waiting for the binary to be made executable.
    MakingExecutable(TeamcityDownload<S>),
    /// Waiting for older versions to be removed.
    RemovingOutdated(TeamcityDownload<S>),
}

impl View for ServerStage<String> {
    type V = ServerStage<Seq<char>>;

    open spec fn view(&self) -> ServerStage<Seq<char>> {
        match self {
            ServerStage::Idle => ServerStage::Idle,
            ServerStage::ReportingCheck => ServerStage::ReportingCheck,
            ServerStage::ReportingDownload => ServerStage::ReportingDownload,
            ServerStage::AwaitingPlatform => ServerStage::AwaitingPlatform,
            ServerStage::CheckingInstalled(d) => ServerStage::CheckingInstalled(d@),
            ServerStage::CheckingLeftover(d) => ServerStage::CheckingLeftover(d@),
            ServerStage::RemovingLeftover(d) => ServerStage::RemovingLeftover(d@),
            ServerStage::Downloading(d) => ServerStage::Downloading(d@),
            ServerStage::CheckingUnpacked(d) => ServerStage::CheckingUnpacked(d@),
            ServerStage::MakingExecutable(d) => ServerStage::MakingExecutable(d@),
            ServerStage::RemovingOutdated(d) => ServerStage::RemovingOutdated(d@),
        }
    }
}

/// The state of a server manager: the cached path and the install stage.
pub struct KotlinLspView {
    pub cached: Option<Seq<char>>,
    pub stage: ServerStage<Seq<char>>,
}

/// The answer a manager gives to an event it was not waiting for.
pub open spec fn unexpected_answer_message() -> Seq<char> {
    "unexpected answer during the language server installation"@
}

/// The message when the unpacked archive does not hold the binary.
pub open spec fn binary_missing_message(d: TeamcityDownload<Seq<char>>) -> Seq<char> {
    "Kotlin language server binary not found at "@ + d.binary_path + " after downloading "@
        + d.asset_name + "; the archive layout may have changed"@
}

/// The download request for `d`.
pub open spec fn download_action(d: TeamcityDownload<Seq<char>>) -> InstallAction<Seq<char>> {
    InstallAction::Download { url: d.url, dir: d.extension_dir, file_type: d.file_type }
}

/// One step of resolving the server binary: from the manager's state and the
/// host's answer to the next state and the next request.
///
/// While idle with a cached path, any answer finishes at once with it. Otherwise
/// the manager reports "checking for update", then "downloading", asks for the
/// platform and computes the download. An installed binary (the file exists)
/// is used as it is; else a leftover directory of an incomplete install is
/// removed, the archive is downloaded, the binary must be there afterwards,
/// is made executable, and older versions are removed. The path is cached
/// only when the install succeeds; every failure finishes with its message.
pub open spec fn kotlin_lsp_step(s: KotlinLspView, e: InstallEvent) -> (
    KotlinLspView,
    InstallAction<Seq<char>>,
) {
    let idle = KotlinLspView { cached: s.cached, stage: ServerStage::Idle };
    match (s.stage, e) {
        (ServerStage::Idle, InstallEvent::Begin(_)) => match s.cached {
            Some(p) => (s, InstallAction::Finish(Ok(p))),
            None => (
                KotlinLspView { cached: None, stage: ServerStage::ReportingCheck },
                InstallAction::ReportStatus(InstallStatus::CheckingForUpdate),
            ),
        },
        (ServerStage::ReportingCheck, InstallEvent::StatusReported) => (
            KotlinLspView { cached: s.cached, stage: ServerStage::ReportingDownload },
            InstallAction::ReportStatus(InstallStatus::Downloading),
        ),
        (ServerStage::ReportingDownload, InstallEvent::StatusReported) => (
            KotlinLspView { cached: s.cached, stage: ServerStage::AwaitingPlatform },
            InstallAction::QueryPlatform,
        ),
        (ServerStage::AwaitingPlatform, InstallEvent::Platform(os, arch)) => match teamcity_download_spec(
            KOTLIN_LSP_VERSION@,
            os,
            arch,
        ) {
            Err(m) => (idle, InstallAction::Finish(Err(m))),
            Ok(d) => (
                KotlinLspView { cached: s.cached, stage: ServerStage::CheckingInstalled(d) },
                InstallAction::CheckFile(d.binary_path),
            ),
        },
        (ServerStage::CheckingInstalled(d), InstallEvent::FileChecked(found)) => if found {
            (
                KotlinLspView { cached: Some(d.binary_path), stage: ServerStage::Idle },
                InstallAction::Finish(Ok(d.binary_path)),
            )
        } else {
            (
                KotlinLspView { cached: s.cached, stage: ServerStage::CheckingLeftover(d) },
                InstallAction::CheckDir(d.extension_dir),
            )
        },
        (ServerStage::CheckingLeftover(d), InstallEvent::DirChecked(found)) => if found {
            (
                KotlinLspView { cached: s.cached, stage: ServerStage::RemovingLeftover(d) },
                InstallAction::RemoveDir(d.extension_dir),
            )
        } else {
            (
                KotlinLspView { cached: s.cached, stage: ServerStage::Downloading(d) },
                download_action(d),
            )
        },
        (ServerStage::RemovingLeftover(d), InstallEvent::Removed(outcome)) => match outcome {
            Err(m) => (
                idle,
                InstallAction::Finish(
                    Err("failed to remove incomplete "@ + d.extension_dir + ": "@ + m@),
                ),
            ),
            Ok(_) => (
                KotlinLspView { cached: s.cached, stage: ServerStage::Downloading(d) },
                download_action(d),
            ),
        },
        (ServerStage::Downloading(d), InstallEvent::Downloaded(outcome)) => match outcome {
            Err(m) => (idle, InstallAction::Finish(Err(m@))),
            Ok(_) => (
                KotlinLspView { cached: s.cached, stage: ServerStage::CheckingUnpacked(d) },
                InstallAction::CheckFile(d.binary_path),
            ),
        },
        (ServerStage::CheckingUnpacked(d), InstallEvent::FileChecked(found)) => if found {
            (
                KotlinLspView { cached: s.cached, stage: ServerStage::MakingExecutable(d) },
                InstallAction::MakeExecutable(d.binary_path),
            )
        } else {
            (idle, InstallAction::Finish(Err(binary_missing_message(d))))
        },
        (ServerStage::MakingExecutable(d), InstallEvent::MadeExecutable(outcome)) => match outcome {
            Err(m) => (idle, InstallAction::Finish(Err(m@))),
            Ok(_) => (
                KotlinLspView { cached: s.cached, stage: ServerStage::RemovingOutdated(d) },
                InstallAction::RemoveOutdated {
                    prefix: KotlinLSP::LANGUAGE_SERVER_ID@,
                    keep: d.extension_dir,
                },
            ),
        },
        (ServerStage::RemovingOutdated(d), InstallEvent::RemovedOutdated(outcome)) => match outcome {
            Err(m) => (idle, InstallAction::Finish(Err(m@))),
            Ok(_) => (
                KotlinLspView { cached: Some(d.binary_path), stage: ServerStage::Idle },
                InstallAction::Finish(Ok(d.binary_path)),
            ),
        },
        (ServerStage::Idle, _) => match s.cached {
            Some(p) => (s, InstallAction::Finish(Ok(p))),
            None => (idle, InstallAction::Finish(Err(unexpected_answer_message()))),
        },
        _ => (idle, InstallAction::Finish(Err(unexpected_answer_message()))),
    }
}

fn download_request(d: &TeamcityDownload<String>) -> (a: InstallAction<String>)
    ensures
        a@ == download_action(d@),
{
    InstallAction::Download {
        url: d.url.clone(),
        dir: d.extension_dir.clone(),
        file_type: d.file_type,
    }
}

/// The JetBrains archive for each platform: 32-bit x86 is refused; otherwise
/// the archive is `kotlin-server-<version>`, then `-aarch64` exactly on ARM64,
/// then the OS's extension (`.win.zip`, `.sit`, `.tar.gz`), fetched from the
/// version's directory on download.jetbrains.com; it unpacks into
/// `kotlin-dev-lsp-<version>`, and the server is `bin/intellij-server` (with
/// `.exe` on Windows) in the archive's `kotlin-server-<version>` directory,
/// which Windows archives do not have. So the two architectures never share
/// an archive.
pub proof fn lemma_teamcity_archive_per_platform(version: Seq<char>, os: Os, arch: Architecture)
    ensures
        arch is X86 ==> teamcity_download_spec(version, os, arch) == Err::<
            TeamcityDownload<Seq<char>>,
            Seq<char>,
        >("Platform X86 is not supported by the Kotlin language server."@),
        !(arch is X86) ==> (teamcity_download_spec(version, os, arch) matches Ok(d) && {
            let suffix = if arch is Aarch64 {
                "-aarch64"@
            } else {
                ""@
            };
            let ext = match os {
                Os::Windows => ".win.zip"@,
                Os::Mac => ".sit"@,
                Os::Linux => ".tar.gz"@,
            };
            let dir = "kotlin-dev-lsp-"@ + version;
            &&& d.asset_name == "kotlin-server-"@ + version + suffix + ext
            &&& d.url == "https://download.jetbrains.com/language-server/kotlin-server/"@ + version
                + "/"@ + "kotlin-server-"@ + version + suffix + ext
            &&& d.extension_dir == dir
            &&& d.binary_path == match os {
                Os::Windows => dir + "/bin/intellij-server.exe"@,
                _ => dir + "/kotlin-server-"@ + version + "/bin/intellij-server"@,
            }
            &&& d.file_type == match os {
                Os::Linux => DownloadedFileType::GzipTar,
                _ => DownloadedFileType::Zip,
            }
        }),
        teamcity_download_spec(version, os, Architecture::X8664)->Ok_0.asset_name
            != teamcity_download_spec(version, os, Architecture::Aarch64)->Ok_0.asset_name,
{
    reveal_strlit("-aarch64");
    reveal_strlit("");
    reveal_strlit("kotlin-dev-lsp");
    reveal_strlit("kotlin-dev-lsp-");
    reveal_strlit("-");
    reveal_strlit("/bin/intellij-server");
    reveal_strlit("/bin/intellij-server.exe");
    reveal_strlit(".exe");
    let x = teamcity_download_spec(version, os, Architecture::X8664)->Ok_0.asset_name;
    let a = teamcity_download_spec(version, os, Architecture::Aarch64)->Ok_0.asset_name;
    assert(x.len() + 8 == a.len());
    if !(arch is X86) {
        let d = teamcity_download_spec(version, os, arch)->Ok_0;
        assert(KotlinLSP::LANGUAGE_SERVER_ID@ + "-"@ + version =~= "kotlin-dev-lsp-"@ + version);
        assert(d.url =~= "https://download.jetbrains.com/language-server/kotlin-server/"@ + version
            + "/"@ + d.asset_name);
        match os {
            Os::Windows => {
                assert(d.binary_path =~= "kotlin-dev-lsp-"@ + version + "/bin/intellij-server.exe"@);
            },
            _ => {
                assert(d.binary_path =~= "kotlin-dev-lsp-"@ + version + "/kotlin-server-"@ + version
                    + "/bin/intellij-server"@);
            },
        }
    }
}

/// Installing the server once the platform is known: the pinned build
/// 263.4421.0 is used; its binary path is checked, and used as it is when the
/// file exists; otherwise a leftover `kotlin-dev-lsp-263.4421.0` directory is
/// removed, the archive for the platform is downloaded into it, the binary is
/// checked again, made executable, older versions are removed, and that path
/// is returned and cached.
pub proof fn lemma_server_install(os: Os, arch: Architecture)
    requires
        !(arch is X86),
    ensures
        ({
            let v = "263.4421.0"@;
            let dir = "kotlin-dev-lsp-"@ + v;
            let bin = match os {
                Os::Windows => dir + "/bin/intellij-server.exe"@,
                _ => dir + "/kotlin-server-"@ + v + "/bin/intellij-server"@,
            };
            let suffix = if arch is Aarch64 {
                "-aarch64"@
            } else {
                ""@
            };
            let ext = match os {
                Os::Windows => ".win.zip"@,
                Os::Mac => ".sit"@,
                Os::Linux => ".tar.gz"@,
            };
            let download = InstallAction::<Seq<char>>::Download {
                url: "https://download.jetbrains.com/language-server/kotlin-server/"@ + v + "/"@
                    + "kotlin-server-"@ + v + suffix + ext,
                dir,
                file_type: match os {
                    Os::Linux => DownloadedFileType::GzipTar,
                    _ => DownloadedFileType::Zip,
                },
            };
            let s0 = KotlinLspView { cached: None, stage: ServerStage::AwaitingPlatform };
            let (s1, a1) = kotlin_lsp_step(s0, InstallEvent::Platform(os, arch));
            let (s2, a2) = kotlin_lsp_step(s1, InstallEvent::FileChecked(false));
            let (s3, a3) = kotlin_lsp_step(s2, InstallEvent::DirChecked(true));
            let (s4, a4) = kotlin_lsp_step(s3, InstallEvent::Removed(Ok(())));
            let (s5, a5) = kotlin_lsp_step(s4, InstallEvent::Downloaded(Ok(())));
            let (s6, a6) = kotlin_lsp_step(s5, InstallEvent::FileChecked(true));
            let (s7, a7) = kotlin_lsp_step(s6, InstallEvent::MadeExecutable(Ok(())));
            let (s8, a8) = kotlin_lsp_step(s7, InstallEvent::RemovedOutdated(Ok(())));
            &&& a1 == InstallAction::<Seq<char>>::CheckFile(bin)
            &&& kotlin_lsp_step(s1, InstallEvent::FileChecked(true)) == (
                KotlinLspView { cached: Some(bin), stage: ServerStage::Idle },
                InstallAction::<Seq<char>>::Finish(Ok(bin)),
            )
            &&& a2 == InstallAction::<Seq<char>>::CheckDir(dir)
            &&& kotlin_lsp_step(s2, InstallEvent::DirChecked(false)).1 == download
            &&& a3 == InstallAction::<Seq<char>>::RemoveDir(dir)
            &&& a4 == download
            &&& a5 == InstallAction::<Seq<char>>::CheckFile(bin)
            &&& a6 == InstallAction::<Seq<char>>::MakeExecutable(bin)
            &&& a7 == InstallAction::<Seq<char>>::RemoveOutdated { prefix: "kotlin-dev-lsp"@, keep: dir }
            &&& a8 == InstallAction::<Seq<char>>::Finish(Ok(bin))
            &&& s8 == (KotlinLspView { cached: Some(bin), stage: ServerStage::Idle })
        }),
{
    reveal_strlit("263.4421.0");
    reveal_strlit("kotlin-dev-lsp");
    lemma_teamcity_archive_per_platform("263.4421.0"@, os, arch);
    assert(KOTLIN_LSP_VERSION@ == "263.4421.0"@);
}

/// The manager's invariant: a path is cached only between installs.
pub open spec fn kotlin_lsp_wf(s: KotlinLspView) -> bool {
    !(s.stage is Idle) ==> s.cached is None
}

/// Every step keeps the invariant.
pub proof fn lemma_kotlin_lsp_step_wf(s: KotlinLspView, e: InstallEvent)
    requires
        kotlin_lsp_wf(s),
    ensures
        kotlin_lsp_wf(kotlin_lsp_step(s, e).0),
{
}

/// The resolved path is cached for the lifetime of the manager: once a path
/// is cached, whatever the host answers, the manager stays as it is and
/// finishes at once with that path.
pub proof fn lemma_kotlin_lsp_cache_is_final(s: KotlinLspView, e: InstallEvent, p: Seq<char>)
    requires
        kotlin_lsp_wf(s),
        s.cached == Some(p),
    ensures
        kotlin_lsp_step(s, e) == (s, InstallAction::<Seq<char>>::Finish(Ok(p))),
{
}

/// A path that a run returns is the one cached from then on.
pub proof fn lemma_kotlin_lsp_returned_path_cached(s: KotlinLspView, e: InstallEvent, p: Seq<char>)
    requires
        kotlin_lsp_wf(s),
        kotlin_lsp_step(s, e).1 == InstallAction::<Seq<char>>::Finish(Ok(p)),
    ensures
        kotlin_lsp_step(s, e).0.cached == Some(p),
        kotlin_lsp_step(s, e).0.stage is Idle,
{
}

/// A run that fails caches nothing: the manager is left as a new one is, so
/// the next request tries again from the start.
pub proof fn lemma_kotlin_lsp_failure_caches_nothing(s: KotlinLspView, e: InstallEvent, m: Seq<char>)
    requires
        kotlin_lsp_wf(s),
        kotlin_lsp_step(s, e).1 == InstallAction::<Seq<char>>::Finish(Err(m)),
    ensures
        kotlin_lsp_step(s, e).0 == (KotlinLspView { cached: None, stage: ServerStage::Idle }),
{
}

/// The state after the host's answers `events`, one step each.
pub open spec fn kotlin_lsp_run(s: KotlinLspView, events: Seq<InstallEvent>) -> KotlinLspView
    decreases events.len(),
{
    if events.len() == 0 {
        s
    } else {
        kotlin_lsp_run(kotlin_lsp_step(s, events[0]).0, events.drop_first())
    }
}

proof fn lemma_kotlin_lsp_run_keeps_cache(s: KotlinLspView, events: Seq<InstallEvent>, p: Seq<char>)
    requires
        kotlin_lsp_wf(s),
        s.cached == Some(p),
    ensures
        kotlin_lsp_run(s, events) == s,
    decreases events.len(),
{
    if events.len() > 0 {
        lemma_kotlin_lsp_run_keeps_cache(s, events.drop_first(), p);
    }
}

/// Once a path is cached, every later sequence of answers leaves the manager
/// as it is, and each answer is met with that path: no download, no file
/// check, no status report.
pub proof fn lemma_kotlin_lsp_cached_for_every_run(s: KotlinLspView, events: Seq<InstallEvent>, p: Seq<char>)
    requires
        kotlin_lsp_wf(s),
        s.cached == Some(p),
    ensures
        kotlin_lsp_run(s, events) == s,
        forall|i: int|
            0 <= i < events.len() ==> #[trigger] kotlin_lsp_step(kotlin_lsp_run(s, events.take(i)), events[i])
                == (s, InstallAction::<Seq<char>>::Finish(Ok(p))),
{
    lemma_kotlin_lsp_run_keeps_cache(s, events, p);
    assert forall|i: int| 0 <= i < events.len() implies #[trigger] kotlin_lsp_step(
        kotlin_lsp_run(s, events.take(i)),
        events[i],
    ) == (s, InstallAction::<Seq<char>>::Finish(Ok(p))) by {
        lemma_kotlin_lsp_run_keeps_cache(s, events.take(i), p);
    }
}

/// A complete installation is used as it is: when the binary exists the run
/// finishes with its path, downloading nothing; a leftover directory without
/// the binary is removed before the download.
pub proof fn lemma_kotlin_lsp_install_skips_download(
    s: KotlinLspView,
    d: TeamcityDownload<Seq<char>>,
)
    requires
        s.stage == ServerStage::CheckingInstalled(d),
    ensures
        kotlin_lsp_step(s, InstallEvent::FileChecked(true)).1 == InstallAction::<
            Seq<char>,
        >::Finish(Ok(d.binary_path)),
        kotlin_lsp_step(s, InstallEvent::FileChecked(false)).1 == InstallAction::<
            Seq<char>,
        >::CheckDir(d.extension_dir),
        kotlin_lsp_step(
            KotlinLspView { cached: s.cached, stage: ServerStage::CheckingLeftover(d) },
            InstallEvent::DirChecked(true),
        ).1 == InstallAction::<Seq<char>>::RemoveDir(d.extension_dir),
{
}

/// Manages the Kotlin LSP installation.
pub struct KotlinLSP {
    /// Path to a previously resolved server binary, if any.
    cached_binary_path: Option<String>,
    /// Where the install under way stands.
    stage: ServerStage<String>,
}

impl View for KotlinLSP {
    type V = KotlinLspView;

    closed spec fn view(&self) -> KotlinLspView {
        KotlinLspView {
            cached: match self.cached_binary_path {
                Some(p) => Some(p@),
                None => None,
            },
            stage: self.stage@,
        }
    }
}

impl KotlinLSP {
    /// A path is cached only between installs.
    #[verifier::type_invariant]
    spec fn well_formed(self) -> bool {
        kotlin_lsp_wf(self@)
    }
}

impl KotlinLSP {
    /// The language server ID, as registered in `extension.toml`.
    pub const LANGUAGE_SERVER_ID: &'static str = "kotlin-dev-lsp";

    /// Creates a new manager with no cached binary path.
    pub fn new() -> (r: Self)
        ensures
            r@.cached is None,
            r@.stage is Idle,
            kotlin_lsp_wf(r@),
    {
        KotlinLSP { cached_binary_path: None, stage: ServerStage::Idle }
    }

    /// One step of resolving the binary path: takes the host's answer `event`
    /// and returns the next request; see
    /// `kotlin_lsp_step`. A run starts with `Begin` and ends when a `Finish`
    /// request comes back, whose payload is what resolving the binary path
    /// returns.
    pub fn language_server_binary_path(&mut self, event: InstallEvent) -> (a: InstallAction<String>)
        ensures
            kotlin_lsp_wf(final(self)@),
            (final(self)@, a@) == kotlin_lsp_step(old(self)@, event),
    {
        proof {
            use_type_invariant(&*self);
        }
        let mut stage = ServerStage::Idle;
        std::mem::swap(&mut stage, &mut self.stage);
        match (stage, event) {
            (ServerStage::Idle, InstallEvent::Begin(_)) => match &self.cached_binary_path {
                Some(p) => InstallAction::Finish(Ok(p.clone())),
                None => {
                    self.stage = ServerStage::ReportingCheck;
                    InstallAction::ReportStatus(InstallStatus::CheckingForUpdate)
                },
            },
            (ServerStage::ReportingCheck, InstallEvent::StatusReported) => {
                self.stage = ServerStage::ReportingDownload;
                InstallAction::ReportStatus(InstallStatus::Downloading)
            },
            (ServerStage::ReportingDownload, InstallEvent::StatusReported) => {
                self.stage = ServerStage::AwaitingPlatform;
                InstallAction::QueryPlatform
            },
            (ServerStage::AwaitingPlatform, InstallEvent::Platform(os, arch)) => {
                let version = get_version();
                match teamcity_download(version.as_str(), os, arch) {
                    Err(m) => InstallAction::Finish(Err(m)),
                    Ok(d) => {
                        let path = d.binary_path.clone();
                        self.stage = ServerStage::CheckingInstalled(d);
                        InstallAction::CheckFile(path)
                    },
                }
            },
            (ServerStage::CheckingInstalled(d), InstallEvent::FileChecked(found)) => {
                if found {
                    self.cached_binary_path = Some(d.binary_path.clone());
                    InstallAction::Finish(Ok(d.binary_path))
                } else {
                    let dir = d.extension_dir.clone();
                    self.stage = ServerStage::CheckingLeftover(d);
                    InstallAction::CheckDir(dir)
                }
            },
            (ServerStage::CheckingLeftover(d), InstallEvent::DirChecked(found)) => {
                if found {
                    let dir = d.extension_dir.clone();
                    self.stage = ServerStage::RemovingLeftover(d);
                    InstallAction::RemoveDir(dir)
                } else {
                    let a = download_request(&d);
                    self.stage = ServerStage::Downloading(d);
                    a
                }
            },
            (ServerStage::RemovingLeftover(d), InstallEvent::Removed(outcome)) => match outcome {
                Err(m) => {
                    let mut msg = String::from_str("failed to remove incomplete ");
                    msg.append(d.extension_dir.as_str());
                    msg.append(": ");
                    msg.append(m.as_str());
                    InstallAction::Finish(Err(msg))
                },
                Ok(_) => {
                    let a = download_request(&d);
                    self.stage = ServerStage::Downloading(d);
                    a
                },
            },
            (ServerStage::Downloading(d), InstallEvent::Downloaded(outcome)) => match outcome {
                Err(m) => InstallAction::Finish(Err(m)),
                Ok(_) => {
                    let path = d.binary_path.clone();
                    self.stage = ServerStage::CheckingUnpacked(d);
                    InstallAction::CheckFile(path)
                },
            },
            (ServerStage::CheckingUnpacked(d), InstallEvent::FileChecked(found)) => {
                if found {
                    let path = d.binary_path.clone();
                    self.stage = ServerStage::MakingExecutable(d);
                    InstallAction::MakeExecutable(path)
                } else {
                    let mut msg = String::from_str("Kotlin language server binary not found at ");
                    msg.append(d.binary_path.as_str());
                    msg.append(" after downloading ");
                    msg.append(d.asset_name.as_str());
                    msg.append("; the archive layout may have changed");
                    InstallAction::Finish(Err(msg))
                }
            },
            (ServerStage::MakingExecutable(d), InstallEvent::MadeExecutable(outcome)) => match outcome {
                Err(m) => InstallAction::Finish(Err(m)),
                Ok(_) => {
                    let keep = d.extension_dir.clone();
                    self.stage = ServerStage::RemovingOutdated(d);
                    InstallAction::RemoveOutdated {
                        prefix: String::from_str(KotlinLSP::LANGUAGE_SERVER_ID),
                        keep,
                    }
                },
            },
            (ServerStage::RemovingOutdated(d), InstallEvent::RemovedOutdated(outcome)) => match outcome {
                Err(m) => InstallAction::Finish(Err(m)),
                Ok(_) => {
                    self.cached_binary_path = Some(d.binary_path.clone());
                    InstallAction::Finish(Ok(d.binary_path))
                },
            },
            (ServerStage::Idle, _) => match &self.cached_binary_path {
                Some(p) => InstallAction::Finish(Ok(p.clone())),
                None => InstallAction::Finish(
                    Err(String::from_str("unexpected answer during the language server installation")),
                ),
            },
            _ => InstallAction::Finish(
                Err(String::from_str("unexpected answer during the language server installation")),
            ),
        }
    }
}

} // verus!
