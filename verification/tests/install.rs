use zed_kotlin::install::{
    is_outdated_version, InstallAction, InstallEvent, InstallStatus, Release, ReleaseAsset,
};
use zed_kotlin::lsp::{get_version, teamcity_download, KotlinLSP};
use zed_kotlin::platform::{Architecture, DownloadedFileType, Os};
use zed_kotlin::proxy::{asset, expand_home_path, proxy_exec, Proxy};

fn finished(a: InstallAction<String>) -> Result<String, String> {
    match a {
        InstallAction::Finish(r) => r,
        _ => panic!("expected the run to finish"),
    }
}

#[test]
fn teamcity_names_per_platform() {
    let d = teamcity_download("263.4421.0", Os::Linux, Architecture::X8664).unwrap();
    assert_eq!(d.asset_name, "kotlin-server-263.4421.0.tar.gz");
    assert_eq!(
        d.url,
        "https://download.jetbrains.com/language-server/kotlin-server/263.4421.0/kotlin-server-263.4421.0.tar.gz"
    );
    assert_eq!(d.extension_dir, "kotlin-dev-lsp-263.4421.0");
    assert_eq!(
        d.binary_path,
        "kotlin-dev-lsp-263.4421.0/kotlin-server-263.4421.0/bin/intellij-server"
    );
    assert_eq!(d.file_type, DownloadedFileType::GzipTar);

    let d = teamcity_download("1.2", Os::Windows, Architecture::Aarch64).unwrap();
    assert_eq!(d.asset_name, "kotlin-server-1.2-aarch64.win.zip");
    assert_eq!(d.binary_path, "kotlin-dev-lsp-1.2/bin/intellij-server.exe");
    assert_eq!(d.file_type, DownloadedFileType::Zip);

    let d = teamcity_download("1.2", Os::Mac, Architecture::Aarch64).unwrap();
    assert_eq!(d.asset_name, "kotlin-server-1.2-aarch64.sit");
    assert_eq!(d.binary_path, "kotlin-dev-lsp-1.2/kotlin-server-1.2/bin/intellij-server");
    assert_eq!(d.file_type, DownloadedFileType::Zip);

    assert_eq!(
        teamcity_download("1.2", Os::Linux, Architecture::X86).err().unwrap(),
        "Platform X86 is not supported by the Kotlin language server."
    );
    assert_eq!(get_version(), "263.4421.0");
}

#[test]
fn proxy_assets_per_platform() {
    let (name, ty) = asset(Os::Linux, Architecture::X8664).unwrap();
    assert_eq!((name.as_str(), ty), ("kotlin-lsp-proxy-linux-x86_64.tar.gz", DownloadedFileType::GzipTar));
    let (name, ty) = asset(Os::Mac, Architecture::Aarch64).unwrap();
    assert_eq!((name.as_str(), ty), ("kotlin-lsp-proxy-darwin-aarch64.tar.gz", DownloadedFileType::GzipTar));
    let (name, ty) = asset(Os::Windows, Architecture::X8664).unwrap();
    assert_eq!((name.as_str(), ty), ("kotlin-lsp-proxy-windows-x86_64.zip", DownloadedFileType::Zip));
    assert_eq!(
        asset(Os::Linux, Architecture::X86).err().unwrap(),
        "Unsupported architecture for kotlin-lsp-proxy"
    );
    assert_eq!(proxy_exec(Os::Windows), "kotlin-lsp-proxy.exe");
    assert_eq!(proxy_exec(Os::Linux), "kotlin-lsp-proxy");
}

#[test]
fn home_is_expanded_outside_windows() {
    let env = vec![
        ("PATH".to_string(), "/bin".to_string()),
        ("HOME".to_string(), "/home/k".to_string()),
        ("HOME".to_string(), "/other".to_string()),
    ];
    assert_eq!(expand_home_path(Os::Linux, &env, "~/bin/p~x"), Ok("/home/k/bin/p~x".to_string()));
    assert_eq!(expand_home_path(Os::Linux, &env, "/opt/~p"), Ok("/opt/~p".to_string()));
    assert_eq!(expand_home_path(Os::Linux, &env, ""), Ok("".to_string()));
    assert_eq!(expand_home_path(Os::Windows, &env, "~/p"), Ok("~/p".to_string()));
    assert_eq!(
        expand_home_path(Os::Mac, &vec![], "~/p"),
        Err("Failed to expand '~': $HOME not found in shell environment".to_string())
    );
}

#[test]
fn server_install_runs_in_order_and_caches() {
    let mut m = KotlinLSP::new();
    assert!(matches!(m.language_server_binary_path(InstallEvent::Begin(None)), InstallAction::ReportStatus(InstallStatus::CheckingForUpdate)));
    assert!(matches!(m.language_server_binary_path(InstallEvent::StatusReported), InstallAction::ReportStatus(InstallStatus::Downloading)));
    assert!(matches!(m.language_server_binary_path(InstallEvent::StatusReported), InstallAction::QueryPlatform));
    let bin = "kotlin-dev-lsp-263.4421.0/kotlin-server-263.4421.0/bin/intellij-server";
    assert!(matches!(m.language_server_binary_path(InstallEvent::Platform(Os::Linux, Architecture::X8664)), InstallAction::CheckFile(p) if p == bin));
    assert!(matches!(m.language_server_binary_path(InstallEvent::FileChecked(false)), InstallAction::CheckDir(p) if p == "kotlin-dev-lsp-263.4421.0"));
    assert!(matches!(m.language_server_binary_path(InstallEvent::DirChecked(true)), InstallAction::RemoveDir(p) if p == "kotlin-dev-lsp-263.4421.0"));
    match m.language_server_binary_path(InstallEvent::Removed(Ok(()))) {
        InstallAction::Download { url, dir, file_type } => {
            assert!(url.ends_with("/263.4421.0/kotlin-server-263.4421.0.tar.gz"));
            assert_eq!(dir, "kotlin-dev-lsp-263.4421.0");
            assert_eq!(file_type, DownloadedFileType::GzipTar);
        }
        _ => panic!("expected a download"),
    }
    assert!(matches!(m.language_server_binary_path(InstallEvent::Downloaded(Ok(()))), InstallAction::CheckFile(p) if p == bin));
    assert!(matches!(m.language_server_binary_path(InstallEvent::FileChecked(true)), InstallAction::MakeExecutable(p) if p == bin));
    assert!(matches!(m.language_server_binary_path(InstallEvent::MadeExecutable(Ok(()))),
        InstallAction::RemoveOutdated { prefix, keep } if prefix == "kotlin-dev-lsp" && keep == "kotlin-dev-lsp-263.4421.0"));
    assert_eq!(finished(m.language_server_binary_path(InstallEvent::RemovedOutdated(Ok(())))), Ok(bin.to_string()));
    // Later calls return immediately.
    assert_eq!(finished(m.language_server_binary_path(InstallEvent::Begin(None))), Ok(bin.to_string()));
}

#[test]
fn server_install_failures_are_reported() {
    let start = |m: &mut KotlinLSP| {
        m.language_server_binary_path(InstallEvent::Begin(None));
        m.language_server_binary_path(InstallEvent::StatusReported);
        m.language_server_binary_path(InstallEvent::StatusReported);
    };
    let mut m = KotlinLSP::new();
    start(&mut m);
    assert_eq!(
        finished(m.language_server_binary_path(InstallEvent::Platform(Os::Linux, Architecture::X86))),
        Err("Platform X86 is not supported by the Kotlin language server.".to_string())
    );
    start(&mut m);
    m.language_server_binary_path(InstallEvent::Platform(Os::Windows, Architecture::X8664));
    m.language_server_binary_path(InstallEvent::FileChecked(false));
    m.language_server_binary_path(InstallEvent::DirChecked(true));
    assert_eq!(
        finished(m.language_server_binary_path(InstallEvent::Removed(Err("denied".to_string())))),
        Err("failed to remove incomplete kotlin-dev-lsp-263.4421.0: denied".to_string())
    );
    start(&mut m);
    m.language_server_binary_path(InstallEvent::Platform(Os::Windows, Architecture::X8664));
    m.language_server_binary_path(InstallEvent::FileChecked(false));
    m.language_server_binary_path(InstallEvent::DirChecked(false));
    m.language_server_binary_path(InstallEvent::Downloaded(Ok(())));
    assert_eq!(
        finished(m.language_server_binary_path(InstallEvent::FileChecked(false))),
        Err("Kotlin language server binary not found at kotlin-dev-lsp-263.4421.0/bin/intellij-server.exe after downloading kotlin-server-263.4421.0.win.zip; the archive layout may have changed".to_string())
    );
    // Nothing was cached by the failed runs; an installed binary is used as it is.
    start(&mut m);
    m.language_server_binary_path(InstallEvent::Platform(Os::Mac, Architecture::Aarch64));
    assert_eq!(
        finished(m.language_server_binary_path(InstallEvent::FileChecked(true))),
        Ok("kotlin-dev-lsp-263.4421.0/kotlin-server-263.4421.0/bin/intellij-server".to_string())
    );
    // An answer out of turn ends the run.
    let mut m = KotlinLSP::new();
    assert_eq!(
        finished(m.language_server_binary_path(InstallEvent::StatusReported)),
        Err("unexpected answer during the language server installation".to_string())
    );
}

fn release() -> Release {
    Release {
        version: "v0.3.0".to_string(),
        assets: vec![
            ReleaseAsset {
                name: "kotlin-lsp-proxy-darwin-aarch64.tar.gz".to_string(),
                download_url: "https://example/darwin".to_string(),
            },
            ReleaseAsset {
                name: "kotlin-lsp-proxy-linux-x86_64.tar.gz".to_string(),
                download_url: "https://example/linux".to_string(),
            },
        ],
    }
}

#[test]
fn proxy_install_downloads_release_asset() {
    let mut p = Proxy::new();
    assert!(matches!(p.language_server_binary_path(InstallEvent::Begin(None)), InstallAction::ReportStatus(InstallStatus::CheckingForUpdate)));
    assert!(matches!(p.language_server_binary_path(InstallEvent::StatusReported), InstallAction::FetchRelease));
    assert!(matches!(p.language_server_binary_path(InstallEvent::Release(Ok(release()))), InstallAction::QueryPlatform));
    assert!(matches!(p.language_server_binary_path(InstallEvent::Platform(Os::Linux, Architecture::X8664)),
        InstallAction::CheckFile(b) if b == "kotlin-proxy-v0.3.0/kotlin-lsp-proxy"));
    assert!(matches!(p.language_server_binary_path(InstallEvent::FileChecked(false)), InstallAction::ReportStatus(InstallStatus::Downloading)));
    match p.language_server_binary_path(InstallEvent::StatusReported) {
        InstallAction::Download { url, dir, file_type } => {
            assert_eq!(url, "https://example/linux");
            assert_eq!(dir, "kotlin-proxy-v0.3.0");
            assert_eq!(file_type, DownloadedFileType::GzipTar);
        }
        _ => panic!("expected a download"),
    }
    assert!(matches!(p.language_server_binary_path(InstallEvent::Downloaded(Ok(()))), InstallAction::MakeExecutable(_)));
    assert!(matches!(p.language_server_binary_path(InstallEvent::MadeExecutable(Ok(()))),
        InstallAction::RemoveOutdated { prefix, keep } if prefix == "kotlin-proxy" && keep == "kotlin-proxy-v0.3.0"));
    let path = "kotlin-proxy-v0.3.0/kotlin-lsp-proxy".to_string();
    assert_eq!(finished(p.language_server_binary_path(InstallEvent::RemovedOutdated(Ok(())))), Ok(path.clone()));
    // Cached: even a configured path no longer matters.
    assert_eq!(finished(p.language_server_binary_path(InstallEvent::Begin(Some("/x".to_string())))), Ok(path));
}

#[test]
fn proxy_install_failures_are_reported() {
    let mut p = Proxy::new();
    p.language_server_binary_path(InstallEvent::Begin(None));
    p.language_server_binary_path(InstallEvent::StatusReported);
    assert_eq!(
        finished(p.language_server_binary_path(InstallEvent::Release(Err("rate limited".to_string())))),
        Err("Failed to fetch kotlin-lsp-proxy release: rate limited".to_string())
    );
    p.language_server_binary_path(InstallEvent::Begin(None));
    p.language_server_binary_path(InstallEvent::StatusReported);
    p.language_server_binary_path(InstallEvent::Release(Ok(release())));
    p.language_server_binary_path(InstallEvent::Platform(Os::Windows, Architecture::X8664));
    assert_eq!(
        finished(p.language_server_binary_path(InstallEvent::FileChecked(false))),
        Err("No kotlin-lsp-proxy asset matching \"kotlin-lsp-proxy-windows-x86_64.zip\" in release v0.3.0".to_string())
    );
    p.language_server_binary_path(InstallEvent::Begin(None));
    p.language_server_binary_path(InstallEvent::StatusReported);
    p.language_server_binary_path(InstallEvent::Release(Ok(release())));
    p.language_server_binary_path(InstallEvent::Platform(Os::Linux, Architecture::X86));
    p.language_server_binary_path(InstallEvent::Begin(None));
    p.language_server_binary_path(InstallEvent::StatusReported);
    p.language_server_binary_path(InstallEvent::Release(Ok(release())));
    p.language_server_binary_path(InstallEvent::Platform(Os::Mac, Architecture::Aarch64));
    p.language_server_binary_path(InstallEvent::FileChecked(false));
    p.language_server_binary_path(InstallEvent::StatusReported);
    assert_eq!(
        finished(p.language_server_binary_path(InstallEvent::Downloaded(Err("offline".to_string())))),
        Err("Failed to download kotlin-lsp-proxy: offline".to_string())
    );
}

#[test]
fn configured_proxy_path_bypasses_download() {
    let mut p = Proxy::new();
    assert!(matches!(p.language_server_binary_path(InstallEvent::Begin(Some("~/proxy".to_string()))), InstallAction::QueryPlatform));
    assert!(matches!(p.language_server_binary_path(InstallEvent::Platform(Os::Linux, Architecture::X8664)), InstallAction::QueryShellEnv));
    let env = vec![("HOME".to_string(), "/home/k".to_string())];
    assert_eq!(finished(p.language_server_binary_path(InstallEvent::ShellEnv(env))), Ok("/home/k/proxy".to_string()));

    let mut p = Proxy::new();
    p.language_server_binary_path(InstallEvent::Begin(Some("~\\proxy.exe".to_string())));
    assert_eq!(
        finished(p.language_server_binary_path(InstallEvent::Platform(Os::Windows, Architecture::X8664))),
        Ok("~\\proxy.exe".to_string())
    );

    // Without $HOME the configured path is ignored and the release is used.
    let mut p = Proxy::new();
    p.language_server_binary_path(InstallEvent::Begin(Some("~/proxy".to_string())));
    p.language_server_binary_path(InstallEvent::Platform(Os::Linux, Architecture::X8664));
    assert!(matches!(p.language_server_binary_path(InstallEvent::ShellEnv(vec![])), InstallAction::ReportStatus(InstallStatus::CheckingForUpdate)));
}

#[test]
fn outdated_versions_share_the_prefix() {
    assert!(is_outdated_version("kotlin-proxy-v0.2.0", "kotlin-proxy", "kotlin-proxy-v0.3.0"));
    assert!(!is_outdated_version("kotlin-proxy-v0.3.0", "kotlin-proxy", "kotlin-proxy-v0.3.0"));
    assert!(!is_outdated_version("kotlin-dev-lsp-1", "kotlin-proxy", "kotlin-proxy-v0.3.0"));
    assert!(!is_outdated_version("proxy", "kotlin-proxy", "kotlin-proxy-v0.3.0"));
}

#[test]
fn cleanups_leave_each_others_installs() {
    assert!(!is_outdated_version("kotlin-dev-lsp-263.4421.0", "kotlin-proxy", "kotlin-proxy-v0.3.0"));
    assert!(!is_outdated_version("kotlin-proxy-v0.3.0", "kotlin-dev-lsp", "kotlin-dev-lsp-263.4421.0"));
    assert!(is_outdated_version("kotlin-dev-lsp-262.1", "kotlin-dev-lsp", "kotlin-dev-lsp-263.4421.0"));
}

#[test]
fn cached_path_answers_any_event() {
    let mut m = KotlinLSP::new();
    m.language_server_binary_path(InstallEvent::Begin(None));
    m.language_server_binary_path(InstallEvent::StatusReported);
    m.language_server_binary_path(InstallEvent::StatusReported);
    m.language_server_binary_path(InstallEvent::Platform(Os::Linux, Architecture::X8664));
    let bin = "kotlin-dev-lsp-263.4421.0/kotlin-server-263.4421.0/bin/intellij-server";
    assert_eq!(finished(m.language_server_binary_path(InstallEvent::FileChecked(true))), Ok(bin.to_string()));
    assert_eq!(finished(m.language_server_binary_path(InstallEvent::StatusReported)), Ok(bin.to_string()));
    assert_eq!(finished(m.language_server_binary_path(InstallEvent::FileChecked(false))), Ok(bin.to_string()));
    assert_eq!(finished(m.language_server_binary_path(InstallEvent::Begin(None))), Ok(bin.to_string()));
}

#[test]
fn failure_caches_nothing_and_retries() {
    let mut m = KotlinLSP::new();
    assert_eq!(
        finished(m.language_server_binary_path(InstallEvent::StatusReported)),
        Err("unexpected answer during the language server installation".to_string())
    );
    m.language_server_binary_path(InstallEvent::Begin(None));
    m.language_server_binary_path(InstallEvent::StatusReported);
    m.language_server_binary_path(InstallEvent::StatusReported);
    assert!(finished(m.language_server_binary_path(InstallEvent::Platform(Os::Linux, Architecture::X86))).is_err());
    assert!(matches!(
        m.language_server_binary_path(InstallEvent::Begin(None)),
        InstallAction::ReportStatus(InstallStatus::CheckingForUpdate)
    ));

    let mut p = Proxy::new();
    p.language_server_binary_path(InstallEvent::Begin(None));
    p.language_server_binary_path(InstallEvent::StatusReported);
    assert!(finished(p.language_server_binary_path(InstallEvent::Release(Err("offline".to_string())))).is_err());
    assert!(matches!(
        p.language_server_binary_path(InstallEvent::Begin(None)),
        InstallAction::ReportStatus(InstallStatus::CheckingForUpdate)
    ));
}
