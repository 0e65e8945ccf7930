//! The steps of installing a language-server binary: the requests a manager
//! makes of the host (status reports, platform queries, file checks,
//! downloads) and the answers it gets back.

use vstd::prelude::*;
use vstd::string::*;
use crate::platform::{Architecture, DownloadedFileType, Os};

verus! {

/// Installation progress shown for a language server.
#[derive(Clone, Copy, Debug, PartialEq, Eq, Structural)]
pub enum InstallStatus {
    /// Looking for the version to install.
    CheckingForUpdate,
    /// Fetching the release archive.
    Downloading,
}

/// What a manager asks of the host next; `S` is the string type (`String`
/// when running, `Seq<char>` in specifications).
pub enum InstallAction<S> {
    /// The install is over: the path of the binary, or why there is none.
    Finish(Result<S, S>),
    /// Report installation progress.
    ReportStatus(InstallStatus),
    /// Ask for the operating system and architecture.
    QueryPlatform,
    /// Ask for the worktree's shell environment.
    QueryShellEnv,
    /// Fetch the latest release of the proxy from GitHub.
    FetchRelease,
    /// Check whether a regular file exists at this path.
    CheckFile(S),
    /// Check whether a directory exists at this path.
    CheckDir(S),
    /// Remove this directory and everything in it.
    RemoveDir(S),
    /// Download and unpack `url` into `dir`.
    Download { url: S, dir: S, file_type: DownloadedFileType },
    /// Make the file at this path executable.
    MakeExecutable(S),
    /// Remove the entries named `prefix`-something, keeping `keep`.
    RemoveOutdated { prefix: S, keep: S },
}

impl View for InstallAction<String> {
    type V = InstallAction<Seq<char>>;

    open spec fn view(&self) -> InstallAction<Seq<char>> {
        match self {
            InstallAction::Finish(Ok(p)) => InstallAction::Finish(Ok(p@)),
            InstallAction::Finish(Err(e)) => InstallAction::Finish(Err(e@)),
            InstallAction::ReportStatus(s) => InstallAction::ReportStatus(*s),
            InstallAction::QueryPlatform => InstallAction::QueryPlatform,
            InstallAction::QueryShellEnv => InstallAction::QueryShellEnv,
            InstallAction::FetchRelease => InstallAction::FetchRelease,
            InstallAction::CheckFile(p) => InstallAction::CheckFile(p@),
            InstallAction::CheckDir(p) => InstallAction::CheckDir(p@),
            InstallAction::RemoveDir(p) => InstallAction::RemoveDir(p@),
            InstallAction::Download { url, dir, file_type } => InstallAction::Download {
                url: url@,
                dir: dir@,
                file_type: *file_type,
            },
            InstallAction::MakeExecutable(p) => InstallAction::MakeExecutable(p@),
            InstallAction::RemoveOutdated { prefix, keep } => InstallAction::RemoveOutdated {
                prefix: prefix@,
                keep: keep@,
            },
        }
    }
}

/// A downloadable file of a release.
pub struct ReleaseAsset {
    pub name: String,
    pub download_url: String,
}

/// A release: its version and files.
pub struct Release {
    pub version: String,
    pub assets: Vec<ReleaseAsset>,
}

/// A release as plain sequences: the version and `(name, url)` of each file.
pub struct ReleaseView {
    pub version: Seq<char>,
    pub assets: Seq<(Seq<char>, Seq<char>)>,
}

impl View for Release {
    type V = ReleaseView;

    open spec fn view(&self) -> ReleaseView {
        ReleaseView {
            version: self.version@,
            assets: self.assets@.map_values(|a: ReleaseAsset| (a.name@, a.download_url@)),
        }
    }
}

/// The host's answer to the last request.
pub enum InstallEvent {
    /// A new request for the binary's path; carries the user-configured path, if any.
    Begin(Option<String>),
    /// The status was reported.
    StatusReported,
    /// The operating system and architecture.
    Platform(Os, Architecture),
    /// The shell environment: `(name, value)` pairs.
    ShellEnv(Vec<(String, String)>),
    /// The latest release, or why it could not be fetched.
    Release(Result<Release, String>),
    /// Whether a regular file exists at the path asked about.
    FileChecked(bool),
    /// Whether a directory exists at the path asked about.
    DirChecked(bool),
    /// The outcome of removing the directory.
    Removed(Result<(), String>),
    /// The outcome of the download.
    Downloaded(Result<(), String>),
    /// The outcome of making the file executable.
    MadeExecutable(Result<(), String>),
    /// The outcome of removing outdated versions.
    RemovedOutdated(Result<(), String>),
}

/// Whether the work-directory entry `name` is an outdated install of the
/// binaries named `prefix`-something: it has that prefix and is not `keep`.
pub open spec fn is_outdated_version_spec(name: Seq<char>, prefix: Seq<char>, keep: Seq<char>) -> bool {
    &&& prefix.len() <= name.len()
    &&& name.take(prefix.len() as int) == prefix
    &&& name != keep
}

/// Whether the entry `name` is to be removed when `keep` was just installed.
pub fn is_outdated_version(name: &str, prefix: &str, keep: &str) -> (r: bool)
    ensures
        r == is_outdated_version_spec(name@, prefix@, keep@),
{
    let n = name.unicode_len();
    let p = prefix.unicode_len();
    if p > n {
        return false;
    }
    let mut i: usize = 0;
    while i < p
        invariant
            n == name@.len(),
            p == prefix@.len(),
            p <= n,
            i <= p,
            forall|j: int| 0 <= j < i ==> name@[j] == prefix@[j],
        decreases p - i,
    {
        if name.get_char(i) != prefix.get_char(i) {
            assert(name@.take(p as int)[i as int] != prefix@[i as int]);
            return false;
        }
        i = i + 1;
    }
    assert(name@.take(p as int) =~= prefix@);
    let a = String::from_str(name);
    let b = String::from_str(keep);
    !(a == b)
}

} // verus!
