//! The extension's decisions: which language server it serves and how it is
//! launched, and how debug scenarios for the embedded JetBrains debug server
//! are set up.

use vstd::prelude::*;
use vstd::string::*;
use crate::dap::DEBUG_ADAPTER_NAME;
use crate::lsp::KotlinLSP;
use crate::sidecar::WORKTREE_ENV;
use crate::text::same_text;

verus! {

/// A command that starts a process.
pub struct LaunchCommand {
    /// The program.
    pub command: String,
    /// Its arguments.
    pub args: Vec<String>,
    /// Extra environment variables, as `(name, value)`.
    pub env: Vec<(String, String)>,
}

/// Only the Kotlin language server is served; any other id is refused with
/// "Unrecognized language server for Kotlin: <id>".
pub fn check_language_server(language_server_id: &str) -> (r: Result<(), String>)
    ensures
        language_server_id@ == KotlinLSP::LANGUAGE_SERVER_ID@ ==> r is Ok,
        language_server_id@ != KotlinLSP::LANGUAGE_SERVER_ID@ ==> (r matches Err(e) && e@
            == "Unrecognized language server for Kotlin: "@ + language_server_id@),
{
    if same_text(language_server_id, KotlinLSP::LANGUAGE_SERVER_ID) {
        Ok(())
    } else {
        let mut e = String::from_str("Unrecognized language server for Kotlin: ");
        e.append(language_server_id);
        Err(e)
    }
}

/// The command that starts the Kotlin language server, always with
/// `--stdio`. With the proxy available (`proxy` is its path) kotlin-lsp runs
/// behind it: the proxy gets the server's absolute path as first argument,
/// and the worktree root in `KOTLIN_LSP_WORKTREE_ROOT` so that the debug
/// adapter wiring finds this instance's sidecar. Without it (`proxy` is the
/// reason) kotlin-lsp is launched directly from `binary_path`, so that core
/// language features keep working.
pub fn launch_command(
    binary_path: String,
    absolute_binary_path: String,
    proxy: Result<String, String>,
    worktree_root: String,
) -> (r: LaunchCommand)
    ensures
        match proxy {
            Ok(p) => {
                &&& r.command@ == p@
                &&& r.args@.len() == 2
                &&& r.args@[0]@ == absolute_binary_path@
                &&& r.args@[1]@ == "--stdio"@
                &&& r.env@.len() == 1
                &&& r.env@[0].0@ == WORKTREE_ENV@
                &&& r.env@[0].1@ == worktree_root@
            },
            Err(_) => {
                &&& r.command@ == binary_path@
                &&& r.args@.len() == 1
                &&& r.args@[0]@ == "--stdio"@
                &&& r.env@.len() == 0
            },
        },
{
    match proxy {
        Ok(proxy_path) => {
            let mut args: Vec<String> = Vec::new();
            args.push(absolute_binary_path);
            args.push(String::from_str("--stdio"));
            let mut env: Vec<(String, String)> = Vec::new();
            env.push((String::from_str(WORKTREE_ENV), worktree_root));
            LaunchCommand { command: proxy_path, args, env }
        },
        Err(_) => {
            let mut args: Vec<String> = Vec::new();
            args.push(String::from_str("--stdio"));
            LaunchCommand { command: binary_path, args, env: Vec::new() }
        },
    }
}

/// Only the Kotlin debug adapter is served; any other name is refused with
/// `Cannot create binary for adapter "<name>"`.
pub fn check_debug_adapter(adapter_name: &str) -> (r: Result<(), String>)
    ensures
        adapter_name@ == DEBUG_ADAPTER_NAME@ ==> r is Ok,
        adapter_name@ != DEBUG_ADAPTER_NAME@ ==> (r matches Err(e) && e@
            == "Cannot create binary for adapter \""@ + adapter_name@ + "\""@),
{
    if same_text(adapter_name, DEBUG_ADAPTER_NAME) {
        Ok(())
    } else {
        let mut e = String::from_str("Cannot create binary for adapter \"");
        e.append(adapter_name);
        e.append("\"");
        Err(e)
    }
}

/// Whether a debug scenario launches the program or attaches to it.
#[derive(Clone, Copy, Debug, PartialEq, Eq, Structural)]
pub enum RequestKind {
    Launch,
    Attach,
}

/// Names what `format!("{:?}", s)` gives for a string `s`: `s` quoted, with
/// special characters escaped.
pub uninterp spec fn debug_str(s: Seq<char>) -> Seq<char>;

/// The `Debug` rendering of a string (`format!("{:?}", s)`). Claimed: it is
/// `debug_str(s)`, a function of `s` alone.
#[verifier::external_body]
fn debug_quote(s: &str) -> (r: String)
    ensures
        r@ == debug_str(s@),
{
    format!("{:?}", s)
}

/// Launch or attach from the scenario's `"request"` field (if it is a
/// string), or why neither.
pub open spec fn request_kind_spec(request: Option<Seq<char>>) -> Result<RequestKind, Seq<char>> {
    match request {
        Some(q) => if q == "launch"@ {
            Ok(RequestKind::Launch)
        } else if q == "attach"@ {
            Ok(RequestKind::Attach)
        } else {
            Err(
                "Unexpected value for `request` key in Kotlin debug adapter configuration: "@
                    + debug_str(q),
            )
        },
        None => Err("Missing required `request` field in Kotlin debug adapter configuration"@),
    }
}

/// A result with its message as a sequence.
pub open spec fn kind_view(r: Result<RequestKind, String>) -> Result<RequestKind, Seq<char>> {
    match r {
        Ok(k) => Ok(k),
        Err(e) => Err(e@),
    }
}

/// Launch or attach for a Kotlin debug scenario, from the adapter name and
/// the scenario's `"request"` field (if it is a string). Unknown adapter
/// names, and a missing or other `"request"`, are refused.
pub fn dap_request_kind(adapter_name: &str, request: Option<&str>) -> (r: Result<RequestKind, String>)
    ensures
        adapter_name@ != DEBUG_ADAPTER_NAME@ ==> (r matches Err(e) && e@
            == "Cannot create binary for adapter \""@ + adapter_name@ + "\""@),
        adapter_name@ == DEBUG_ADAPTER_NAME@ ==> kind_view(r) == request_kind_spec(
            match request {
                Some(q) => Some(q@),
                None => None,
            },
        ),
{
    check_debug_adapter(adapter_name)?;
    match request {
        Some(q) => {
            if same_text(q, "launch") {
                Ok(RequestKind::Launch)
            } else if same_text(q, "attach") {
                Ok(RequestKind::Attach)
            } else {
                let mut e = String::from_str(
                    "Unexpected value for `request` key in Kotlin debug adapter configuration: ",
                );
                let quoted = debug_quote(q);
                e.append(quoted.as_str());
                Err(e)
            }
        },
        None => Err(
            String::from_str(
                "Missing required `request` field in Kotlin debug adapter configuration",
            ),
        ),
    }
}

/// Names what `serde_json::from_str` makes of a debug configuration, read for
/// its `"request"`: `None` when the text is not JSON, else the `"request"`
/// member if it is a string.
pub uninterp spec fn config_request(config: Seq<char>) -> Option<Option<Seq<char>>>;

/// Names the message of the error `serde_json::from_str` gives for a
/// configuration that is not JSON.
pub uninterp spec fn config_json_error(config: Seq<char>) -> Seq<char>;

/// `serde_json::from_str` on a debug configuration into a JSON value, then its
/// `"request"` member if that is a string; the error's message where the text
/// is not JSON. Claimed: these are `config_request(config)` and
/// `config_json_error(config)`, functions of the text alone.
#[verifier::external_body]
fn parse_config_request(config: &str) -> (r: Result<Option<String>, String>)
    ensures
        match r {
            Ok(None) => config_request(config@) == Some(None::<Seq<char>>),
            Ok(Some(q)) => config_request(config@) == Some(Some(q@)),
            Err(e) => config_request(config@) is None && e@ == config_json_error(config@),
        },
{
    match serde_json::from_str::<serde_json::Value>(config) {
        Ok(v) => Ok(v.get("request").and_then(|q| q.as_str()).map(|q| q.to_string())),
        Err(e) => Err(e.to_string()),
    }
}

/// Launch or attach for a Kotlin debug task, from the adapter name and the
/// task's configuration text: unknown adapter names are refused first, then
/// a configuration that is not JSON, then the `"request"` field is read as
/// `dap_request_kind` reads it.
pub fn request_kind_of_config(adapter_name: &str, config: &str) -> (r: Result<RequestKind, String>)
    ensures
        adapter_name@ != DEBUG_ADAPTER_NAME@ ==> (r matches Err(e) && e@
            == "Cannot create binary for adapter \""@ + adapter_name@ + "\""@),
        adapter_name@ == DEBUG_ADAPTER_NAME@ ==> match config_request(config@) {
            None => r matches Err(e) && e@ == "Invalid JSON configuration: "@ + config_json_error(
                config@,
            ),
            Some(q) => kind_view(r) == request_kind_spec(q),
        },
{
    check_debug_adapter(adapter_name)?;
    match parse_config_request(config) {
        Err(e) => {
            let mut m = String::from_str("Invalid JSON configuration: ");
            m.append(e.as_str());
            Err(m)
        },
        Ok(None) => dap_request_kind(adapter_name, None),
        Ok(Some(q)) => dap_request_kind(adapter_name, Some(q.as_str())),
    }
}

/// The members of the settings object that are handed on to the server:
/// all but the extension's own `proxy_path`, in their order.
pub open spec fn forwarded_members<V>(members: Seq<(String, V)>) -> Seq<(String, V)> {
    members.filter(|m: (String, V)| m.0@ != "proxy_path"@)
}

/// What is forwarded of the settings: exactly the members not named
/// `proxy_path`, each as it is, in their order; settings without a
/// `proxy_path` are forwarded whole, and nothing is forwarded in place of a
/// removed member (the result is shorter by the number of `proxy_path`
/// members).
pub proof fn lemma_forwarded_members<V>(members: Seq<(String, V)>)
    ensures
        forall|x: (String, V)|
            #[trigger] forwarded_members(members).contains(x) <==> (members.contains(x) && x.0@
                != "proxy_path"@),
        (forall|i: int| 0 <= i < members.len() ==> (#[trigger] members[i]).0@ != "proxy_path"@)
            ==> forwarded_members(members) == members,
        forwarded_members(members).len() + members.filter(
            |m: (String, V)| m.0@ == "proxy_path"@,
        ).len() == members.len(),
    decreases members.len(),
{
    reveal(Seq::filter);
    let keep = |m: (String, V)| m.0@ != "proxy_path"@;
    let drop = |m: (String, V)| m.0@ == "proxy_path"@;
    assert(forwarded_members(members) == members.filter(keep));
    assert forall|x: (String, V)| #[trigger] forwarded_members(members).contains(x) implies (
    members.contains(x) && x.0@ != "proxy_path"@) by {
        members.lemma_filter_contains_rev(keep, x);
        let j = choose|j: int|
            0 <= j < members.filter(keep).len() && members.filter(keep)[j] == x;
        members.lemma_filter_pred(keep, j);
    }
    assert forall|x: (String, V)| members.contains(x) && x.0@ != "proxy_path"@ implies #[trigger] forwarded_members(members).contains(x) by {
        let i = choose|i: int| 0 <= i < members.len() && members[i] == x;
        members.lemma_filter_contains(keep, i);
    }
    if members.len() > 0 {
        let init = members.drop_last();
        lemma_forwarded_members(init);
        assert(forwarded_members(members) == if keep(members.last()) {
            forwarded_members(init).push(members.last())
        } else {
            forwarded_members(init)
        });
        assert(members.filter(drop) == if drop(members.last()) {
            init.filter(drop).push(members.last())
        } else {
            init.filter(drop)
        });
        if forall|i: int| 0 <= i < members.len() ==> (#[trigger] members[i]).0@ != "proxy_path"@ {
            assert forall|i: int| 0 <= i < init.len() implies (#[trigger] init[i]).0@ != "proxy_path"@ by {
                assert(init[i] == members[i]);
            }
            assert(members.last() == members[members.len() - 1]);
            assert(members =~= init.push(members.last()));
        }
    }
}

/// The members of the user's `lsp.kotlin-dev-lsp.settings` object that are
/// forwarded to the server as its workspace configuration: all but the
/// extension's own `proxy_path`, in their order. `V` is the JSON value type.
pub fn forwarded_settings<V>(members: Vec<(String, V)>) -> (r: Vec<(String, V)>)
    ensures
        r@ == forwarded_members(members@),
        r@ == members@.filter(|m: (String, V)| m.0@ != "proxy_path"@),
{
    let ghost all = members@;
    let mut out: Vec<(String, V)> = Vec::new();
    for m in it: members
        invariant
            it.seq() == all,
            out@ == forwarded_members(all.take(it.index() as int)),
    {
        proof {
            reveal(Seq::filter);
            assert(all.take(it.index() + 1).drop_last() =~= all.take(it.index() as int));
            assert(all.take(it.index() + 1).last() == m);
        }
        if !same_text(m.0.as_str(), "proxy_path") {
            out.push(m);
        }
    }
    proof {
        assert(all.take(all.len() as int) =~= all);
    }
    out
}

/// How Zed reaches the debug server of a session: `T` is the connection the
/// user pinned in the task.
pub enum DebugConnection<T> {
    /// Use the connection the user pinned, as it is.
    Pinned(T),
    /// Ask kotlin-lsp for a fresh debug session and connect to its port.
    StartServer,
}

/// A connection pinned by the user (`tcp_connection`) is honoured as it is;
/// otherwise each start asks for a fresh debug session.
pub fn debug_connection<T>(pinned: Option<T>) -> (r: DebugConnection<T>)
    ensures
        match pinned {
            Some(t) => r == DebugConnection::Pinned(t),
            None => r == DebugConnection::<T>::StartServer,
        },
{
    match pinned {
        Some(t) => DebugConnection::Pinned(t),
        None => DebugConnection::StartServer,
    }
}

/// The debug adapter "binary" of a Kotlin session: the server lives inside
/// the running kotlin-lsp, so nothing is launched.
pub struct DebugAdapterLaunch {
    /// The program to launch.
    pub command: Option<String>,
    /// Its arguments.
    pub arguments: Vec<String>,
    /// Its environment, as `(name, value)`.
    pub envs: Vec<(String, String)>,
    /// Its working directory.
    pub cwd: Option<String>,
}

/// No command, no arguments, no environment, and the worktree root as working
/// directory.
pub fn debug_adapter_launch(worktree_root: String) -> (r: DebugAdapterLaunch)
    ensures
        r.command is None,
        r.arguments@.len() == 0,
        r.envs@.len() == 0,
        r.cwd matches Some(c) && c@ == worktree_root@,
{
    DebugAdapterLaunch {
        command: None,
        arguments: Vec::new(),
        envs: Vec::new(),
        cwd: Some(worktree_root),
    }
}

/// The request of a "new debug session" from the generic UI.
pub enum ScenarioRequest {
    /// Attach to a running program; whether the UI picked a process id.
    Attach { has_process_id: bool },
    /// Launch a program.
    Launch,
}

/// The configuration of an attach scenario: JDWP host and port, and whether
/// to stop on entry when the UI says so.
pub struct AttachConfig {
    pub host_name: String,
    pub port: u16,
    pub stop_on_entry: Option<bool>,
}

/// The message when the UI asks to attach to a process id.
pub open spec fn attach_by_process_message() -> Seq<char> {
    "Kotlin attach needs a JDWP host/port, not a process id; use a debug.json scenario with `hostName`/`port` (e.g. after `./gradlew run --debug-jvm`)"@
}

/// The message when the UI asks to launch.
pub open spec fn launch_unsupported_message() -> Seq<char> {
    "Kotlin launch needs a JVM main class and classpath; use a debug.json scenario with `request: \"launch\"`, `mainClass` and `classPaths` (see the extension README)"@
}

/// Maps the generic "new debug session" UI inputs onto a Kotlin scenario.
/// Attaching produces a JDWP host/port scenario (localhost:5005), with
/// `stopOnEntry` when the UI sets it. Launch is not derivable from the
/// generic UI (a JVM program has no program binary), nor is attaching to a
/// process id.
pub fn dap_config_to_scenario(request: ScenarioRequest, stop_on_entry: Option<bool>) -> (r: Result<
    AttachConfig,
    String,
>)
    ensures
        match request {
            ScenarioRequest::Attach { has_process_id } => if has_process_id {
                r matches Err(e) && e@ == attach_by_process_message()
            } else {
                r matches Ok(c) && c.host_name@ == "localhost"@ && c.port == 5005
                    && c.stop_on_entry == stop_on_entry
            },
            ScenarioRequest::Launch => r matches Err(e) && e@ == launch_unsupported_message(),
        },
{
    match request {
        ScenarioRequest::Attach { has_process_id } => {
            if has_process_id {
                return Err(
                    String::from_str(
                        "Kotlin attach needs a JDWP host/port, not a process id; use a debug.json scenario with `hostName`/`port` (e.g. after `./gradlew run --debug-jvm`)",
                    ),
                );
            }
            Ok(AttachConfig { host_name: String::from_str("localhost"), port: 5005, stop_on_entry })
        },
        ScenarioRequest::Launch => Err(
            String::from_str(
                "Kotlin launch needs a JVM main class and classpath; use a debug.json scenario with `request: \"launch\"`, `mainClass` and `classPaths` (see the extension README)",
            ),
        ),
    }
}

} // verus!
