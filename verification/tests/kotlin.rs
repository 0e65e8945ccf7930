use zed_kotlin::kotlin::{debug_adapter_launch, debug_connection, forwarded_settings, DebugConnection};
use zed_kotlin::kotlin::request_kind_of_config;
use zed_kotlin::forward::{encode_lsp, is_location_request};
use zed_kotlin::kotlin::{
    check_debug_adapter, check_language_server, dap_config_to_scenario, dap_request_kind,
    launch_command, RequestKind, ScenarioRequest,
};
use zed_kotlin::lsp::KotlinLSP;

#[test]
fn only_kotlin_server_is_served() {
    assert!(check_language_server(KotlinLSP::LANGUAGE_SERVER_ID).is_ok());
    assert_eq!(
        check_language_server("rust-analyzer"),
        Err("Unrecognized language server for Kotlin: rust-analyzer".to_string())
    );
}

#[test]
fn server_runs_behind_proxy_when_available() {
    let c = launch_command(
        "kotlin-dev-lsp-1/bin/intellij-server".to_string(),
        "/work/kotlin-dev-lsp-1/bin/intellij-server".to_string(),
        Ok("/work/kotlin-proxy-v1/kotlin-lsp-proxy".to_string()),
        "/home/k/project".to_string(),
    );
    assert_eq!(c.command, "/work/kotlin-proxy-v1/kotlin-lsp-proxy");
    assert_eq!(c.args, vec!["/work/kotlin-dev-lsp-1/bin/intellij-server", "--stdio"]);
    assert_eq!(
        c.env,
        vec![("KOTLIN_LSP_WORKTREE_ROOT".to_string(), "/home/k/project".to_string())]
    );

    let c = launch_command(
        "kotlin-dev-lsp-1/bin/intellij-server".to_string(),
        "/work/kotlin-dev-lsp-1/bin/intellij-server".to_string(),
        Err("no release".to_string()),
        "/home/k/project".to_string(),
    );
    assert_eq!(c.command, "kotlin-dev-lsp-1/bin/intellij-server");
    assert_eq!(c.args, vec!["--stdio"]);
    assert!(c.env.is_empty());
}

#[test]
fn request_kind_from_scenario() {
    assert_eq!(dap_request_kind("Kotlin", Some("launch")), Ok(RequestKind::Launch));
    assert_eq!(dap_request_kind("Kotlin", Some("attach")), Ok(RequestKind::Attach));
    assert_eq!(
        dap_request_kind("Kotlin", Some("run \"x\"")),
        Err("Unexpected value for `request` key in Kotlin debug adapter configuration: \"run \\\"x\\\"\"".to_string())
    );
    assert_eq!(
        dap_request_kind("Kotlin", None),
        Err("Missing required `request` field in Kotlin debug adapter configuration".to_string())
    );
    assert_eq!(
        dap_request_kind("Java", Some("launch")),
        Err("Cannot create binary for adapter \"Java\"".to_string())
    );
    assert!(check_debug_adapter("Kotlin").is_ok());
}

#[test]
fn attach_scenario_defaults_to_localhost_5005() {
    let c = dap_config_to_scenario(ScenarioRequest::Attach { has_process_id: false }, Some(true)).unwrap();
    assert_eq!((c.host_name.as_str(), c.port, c.stop_on_entry), ("localhost", 5005, Some(true)));
    let c = dap_config_to_scenario(ScenarioRequest::Attach { has_process_id: false }, None).unwrap();
    assert_eq!(c.stop_on_entry, None);
    assert!(dap_config_to_scenario(ScenarioRequest::Attach { has_process_id: true }, None)
        .err()
        .unwrap()
        .starts_with("Kotlin attach needs a JDWP host/port, not a process id; use a debug.json scenario with `hostName`/`port`"));
    assert!(dap_config_to_scenario(ScenarioRequest::Launch, None)
        .err()
        .unwrap()
        .starts_with("Kotlin launch needs a JVM main class and classpath;"));
}

#[test]
fn definition_family_requests_are_tracked() {
    for m in [
        "textDocument/definition",
        "textDocument/typeDefinition",
        "textDocument/implementation",
        "textDocument/declaration",
        "textDocument/references",
    ] {
        assert!(is_location_request(Some(m)));
    }
    assert!(!is_location_request(Some("textDocument/hover")));
    assert!(!is_location_request(None));
}

#[test]
fn lsp_messages_are_framed_with_byte_length() {
    assert_eq!(encode_lsp("{}"), "Content-Length: 2\r\n\r\n{}");
    assert_eq!(encode_lsp("\"é\""), "Content-Length: 4\r\n\r\n\"é\"");
}

#[test]
fn request_kind_from_configuration_text() {
    assert_eq!(request_kind_of_config("Kotlin", "{\"request\": \"attach\", \"port\": 5005}").ok(), Some(RequestKind::Attach));
    assert_eq!(request_kind_of_config("Kotlin", "{\"request\": \"launch\"}").ok(), Some(RequestKind::Launch));
    assert_eq!(
        request_kind_of_config("Java", "not json").err(),
        Some("Cannot create binary for adapter \"Java\"".to_string())
    );
    assert!(request_kind_of_config("Kotlin", "not json").unwrap_err().starts_with("Invalid JSON configuration: "));
    assert_eq!(
        request_kind_of_config("Kotlin", "{}").err(),
        Some("Missing required `request` field in Kotlin debug adapter configuration".to_string())
    );
    assert_eq!(
        request_kind_of_config("Kotlin", "{\"request\": \"run\"}").err(),
        Some("Unexpected value for `request` key in Kotlin debug adapter configuration: \"run\"".to_string())
    );
}

#[test]
fn proxy_path_is_not_forwarded() {
    let members = vec![
        ("compiler".to_string(), 1),
        ("proxy_path".to_string(), 2),
        ("jvm".to_string(), 3),
    ];
    assert_eq!(
        forwarded_settings(members),
        vec![("compiler".to_string(), 1), ("jvm".to_string(), 3)]
    );
    assert_eq!(forwarded_settings(Vec::<(String, u8)>::new()), vec![]);
}

#[test]
fn debug_server_is_started_unless_pinned() {
    assert!(matches!(debug_connection(Some(7)), DebugConnection::Pinned(7)));
    assert!(matches!(debug_connection::<u8>(None), DebugConnection::StartServer));
    let launch = debug_adapter_launch("/w".to_string());
    assert!(launch.command.is_none());
    assert!(launch.arguments.is_empty() && launch.envs.is_empty());
    assert_eq!(launch.cwd, Some("/w".to_string()));
}
