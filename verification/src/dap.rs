//! Extension-side wiring for the debug server embedded in kotlin-lsp: locating
//! the proxy's sidecar through its port file, and deciding what the sidecar's
//! replies mean.

use vstd::prelude::*;
use vstd::string::*;
use vstd::utf8::*;
use crate::sidecar::{hex_digit, hex_of, port_file_path_spec};
use crate::text::{
    chars_of, decimal, lemma_parse_decimal, parse_decimal, parse_unsigned, push_char,
    signed_decimal, signed_decimal_string, trim, trim_bounds, IntErrorKind,
};

verus! {

/// The debug adapter name, as registered in `extension.toml` under
/// `[debug_adapters]` (and used as `"adapter"` value in `debug.json`).
pub const DEBUG_ADAPTER_NAME: &'static str = "Kotlin";

/// The LSP command that starts kotlin-lsp's embedded DAP server. Takes no
/// arguments and returns the listening TCP port (a bare integer).
pub const START_DEBUG_SERVER_COMMAND: &'static str = "start_debug_server";

/// Lowercase hex encoding of `bytes`, read from the front: the two digits of
/// the first byte, then the encoding of the rest.
pub open spec fn lower_hex(bytes: Seq<u8>) -> Seq<char>
    decreases bytes.len(),
{
    if bytes.len() == 0 {
        Seq::empty()
    } else {
        seq![hex_digit((bytes[0] / 16) as int), hex_digit((bytes[0] % 16) as int)] + lower_hex(
            bytes.drop_first(),
        )
    }
}

fn nibble_char(d: u8) -> (c: char)
    requires
        d < 16,
    ensures
        c == hex_digit(d as int),
{
    if d < 10 {
        (d + 48u8) as char
    } else {
        (d + 87u8) as char
    }
}

/// Lowercase hex encoding of `s`'s UTF-8 bytes; must match the proxy's
/// `sidecar::hex_encode`.
pub fn hex_encode(s: &str) -> (r: String)
    ensures
        r@ == lower_hex(encode_utf8(s@)),
{
    let bytes = s.as_bytes();
    let mut out = String::new();
    let mut i: usize = 0;
    while i < bytes.len()
        invariant
            bytes@ == encode_utf8(s@),
            i <= bytes.len(),
            out@ == lower_hex(bytes@.take(i as int)),
        decreases bytes.len() - i,
    {
        let b = bytes[i];
        push_char(&mut out, nibble_char(b / 16));
        push_char(&mut out, nibble_char(b % 16));
        proof {
            let one = seq![b];
            assert(bytes@.take(i + 1) =~= bytes@.take(i as int) + one);
            lemma_lower_hex_concat(bytes@.take(i as int), one);
            assert(one.drop_first() =~= Seq::<u8>::empty());
            assert(lower_hex(one.drop_first()) =~= Seq::<char>::empty());
            assert(lower_hex(one) =~= seq![hex_digit((b / 16) as int), hex_digit((b % 16) as int)]);
        }
        i = i + 1;
    }
    assert(bytes@.take(bytes.len() as int) =~= bytes@);
    out
}

/// Where the extension looks for the sidecar's port file of `worktree_root`,
/// relative to the extension's work directory: `proxy/<hex(worktree_root)>`.
pub open spec fn sidecar_port_path_spec(worktree_root: Seq<char>) -> Seq<char> {
    seq!['p', 'r', 'o', 'x', 'y', '/'] + lower_hex(encode_utf8(worktree_root))
}

/// The port file the extension reads for `worktree_root`.
pub fn sidecar_port_path(worktree_root: &str) -> (r: String)
    ensures
        r@ == sidecar_port_path_spec(worktree_root@),
{
    let hex = hex_encode(worktree_root);
    let mut r = String::new();
    push_char(&mut r, 'p');
    push_char(&mut r, 'r');
    push_char(&mut r, 'o');
    push_char(&mut r, 'x');
    push_char(&mut r, 'y');
    push_char(&mut r, '/');
    r.append(hex.as_str());
    assert(r@ =~= sidecar_port_path_spec(worktree_root@));
    r
}

proof fn lemma_lower_hex_concat(a: Seq<u8>, b: Seq<u8>)
    ensures
        lower_hex(a + b) == lower_hex(a) + lower_hex(b),
    decreases a.len(),
{
    if a.len() == 0 {
        assert(a + b =~= b);
        assert(lower_hex(a) + lower_hex(b) =~= lower_hex(b));
    } else {
        lemma_lower_hex_concat(a.drop_first(), b);
        assert((a + b).drop_first() =~= a.drop_first() + b);
        assert((a + b)[0] == a[0]);
        assert(lower_hex(a + b) =~= lower_hex(a) + lower_hex(b));
    }
}

/// The two hex encodings agree: reading from the front (extension side) and
/// from the back (proxy side) give the same digits.
pub proof fn lemma_hex_encodings_agree(bytes: Seq<u8>)
    ensures
        lower_hex(bytes) == hex_of(bytes),
    decreases bytes.len(),
{
    if bytes.len() > 0 {
        lemma_hex_encodings_agree(bytes.drop_last());
        let last = seq![bytes.last()];
        assert(bytes =~= bytes.drop_last() + last);
        lemma_lower_hex_concat(bytes.drop_last(), last);
        assert(last.drop_first() =~= Seq::<u8>::empty());
        assert(lower_hex(last.drop_first()) =~= Seq::<char>::empty());
        assert(last[0] == bytes.last());
        assert(lower_hex(last) =~= seq![
            hex_digit((bytes.last() / 16) as int),
            hex_digit((bytes.last() % 16) as int),
        ]);
    }
}

/// The extension looks for the port file exactly where the proxy writes it,
/// for every worktree.
pub proof fn lemma_port_file_agrees(worktree_root: Seq<char>)
    ensures
        sidecar_port_path_spec(worktree_root) == port_file_path_spec(worktree_root),
{
    lemma_hex_encodings_agree(encode_utf8(worktree_root));
}

/// What the sidecar answered to an LSP request, as far as the extension reads
/// it. `V` is the JSON value type.
pub enum SidecarReply<V> {
    /// The answer has an `error` member, with these `code` (if an integer) and
    /// `message` (if a string).
    Error { code: Option<i64>, message: Option<String> },
    /// The answer has a `result` member (and no `error`).
    Result(V),
    /// The answer has neither.
    Neither,
}

/// The message for an LSP error answer to `method`; a missing code reads
/// -32000 and a missing message "unknown error".
pub open spec fn lsp_error_message(method: Seq<char>, code: Option<i64>, message: Option<Seq<char>>) -> Seq<char> {
    let code = match code {
        Some(c) => c as int,
        None => -32000,
    };
    let message = match message {
        Some(m) => m,
        None => "unknown error"@,
    };
    "LSP request "@ + method + " failed: "@ + signed_decimal(code) + " "@ + message
}

/// The plain `result` of a sidecar answer to `method`, or the error message.
pub fn decode_sidecar_reply<V>(method: &str, reply: SidecarReply<V>) -> (r: Result<V, String>)
    ensures
        match reply {
            SidecarReply::Error { code, message } => r matches Err(e) && e@ == lsp_error_message(
                method@,
                code,
                match message {
                    Some(m) => Some(m@),
                    None => None,
                },
            ),
            SidecarReply::Result(v) => r == Ok::<V, String>(v),
            SidecarReply::Neither => r matches Err(e) && e@ == "LSP request "@ + method@
                + " returned neither result nor error"@,
        },
{
    match reply {
        SidecarReply::Error { code, message } => {
            let code_value: i64 = match code {
                Some(c) => c,
                None => -32000,
            };
            let mut e = String::from_str("LSP request ");
            e.append(method);
            e.append(" failed: ");
            let digits = signed_decimal_string(code_value);
            e.append(digits.as_str());
            e.append(" ");
            match &message {
                Some(m) => e.append(m.as_str()),
                None => e.append("unknown error"),
            }
            Err(e)
        },
        SidecarReply::Result(v) => Ok(v),
        SidecarReply::Neither => {
            let mut e = String::from_str("LSP request ");
            e.append(method);
            e.append(" returned neither result nor error");
            Err(e)
        },
    }
}

/// Names what `serde_json::from_slice` makes of a sidecar answer: the
/// parser's message when the body is not JSON; else its `error` member, if
/// any, with that member's `code` (if an integer) and `message` (if a
/// string), and its `result` member, if any, as an unsigned integer (if it is
/// one) with its JSON text.
pub uninterp spec fn sidecar_body(body: Seq<u8>) -> Result<
    (Option<(Option<i64>, Option<Seq<char>>)>, Option<(Option<u64>, Seq<char>)>),
    Seq<char>,
>;

/// A parsed sidecar answer with its strings as sequences.
pub open spec fn sidecar_body_view(
    r: Result<(Option<(Option<i64>, Option<String>)>, Option<(Option<u64>, String)>), String>,
) -> Result<(Option<(Option<i64>, Option<Seq<char>>)>, Option<(Option<u64>, Seq<char>)>), Seq<char>> {
    match r {
        Err(e) => Err(e@),
        Ok((error, result)) => Ok(
            (
                match error {
                    Some((c, Some(m))) => Some((c, Some(m@))),
                    Some((c, None)) => Some((c, None)),
                    None => None,
                },
                match result {
                    Some((p, t)) => Some((p, t@)),
                    None => None,
                },
            ),
        ),
    }
}

/// `serde_json::from_slice` on a sidecar answer into a JSON value, then the
/// members the extension reads (see `sidecar_body`). Claimed: the result is
/// `sidecar_body(body)`, a function of the bytes alone.
#[verifier::external_body]
fn parse_sidecar_body(body: &[u8]) -> (r: Result<
    (Option<(Option<i64>, Option<String>)>, Option<(Option<u64>, String)>),
    String,
>)
    ensures
        sidecar_body_view(r) == sidecar_body(body@),
{
    let v: serde_json::Value = serde_json::from_slice(body).map_err(|e| e.to_string())?;
    let error = v.get("error").map(
        |e| (e.get("code").and_then(|c| c.as_i64()), e.get("message").and_then(|m| m.as_str()).map(|m| m.to_string())),
    );
    let result = v.get("result").map(|r| (r.as_u64(), r.to_string()));
    Ok((error, result))
}

/// The `result` of the sidecar's answer `body` to `method` (as an unsigned
/// integer, if it is one, and its JSON text), or why there is none: the body
/// is not JSON, the server answered with an error, or with neither.
pub fn sidecar_result(method: &str, body: &[u8]) -> (r: Result<(Option<u64>, String), String>)
    ensures
        match sidecar_body(body@) {
            Err(m) => r matches Err(e) && e@ == "LSP sidecar returned malformed JSON: "@ + m,
            Ok((Some((code, message)), _)) => r matches Err(e) && e@ == lsp_error_message(
                method@,
                code,
                message,
            ),
            Ok((None, Some((port, text)))) => r matches Ok((p, t)) && p == port && t@ == text,
            Ok((None, None)) => r matches Err(e) && e@ == "LSP request "@ + method@
                + " returned neither result nor error"@,
        },
{
    match parse_sidecar_body(body) {
        Err(m) => {
            let mut e = String::from_str("LSP sidecar returned malformed JSON: ");
            e.append(m.as_str());
            Err(e)
        },
        Ok((error, result)) => {
            let reply = match error {
                Some((code, message)) => SidecarReply::Error { code, message },
                None => match result {
                    Some(v) => SidecarReply::Result(v),
                    None => SidecarReply::Neither,
                },
            };
            decode_sidecar_reply(method, reply)
        },
    }
}

/// The TCP port of a fresh debug session from the `start_debug_server`
/// result: `port` is the result read as an unsigned integer (if it is one),
/// `rendered` its JSON text. A port must fit in 16 bits and not be 0.
pub fn debug_server_port(port: Option<u64>, rendered: &str) -> (r: Result<u16, String>)
    ensures
        match port {
            Some(p) if 0 < p <= u16::MAX => r == Ok::<u16, String>(p as u16),
            _ => r matches Err(e) && e@ == "start_debug_server returned unexpected value: "@
                + rendered@ + " (expected a TCP port)"@,
        },
{
    match port {
        Some(p) => {
            if 0 < p && p <= 65535 {
                return Ok(p as u16);
            }
        },
        None => {},
    }
    let mut e = String::from_str("start_debug_server returned unexpected value: ");
    e.append(rendered);
    e.append(" (expected a TCP port)");
    Err(e)
}

/// The port a port file holds: its trimmed text parsed as a `u16`.
pub open spec fn port_of_contents(content: Seq<char>) -> Result<int, IntErrorKind> {
    parse_unsigned(trim(content), u16::MAX as int)
}

/// The message when the port file cannot be read.
pub open spec fn sidecar_missing_message(path: Seq<char>) -> Seq<char> {
    "kotlin-lsp sidecar not found at "@ + path
        + " \u{2014} debugging requires the kotlin-lsp-proxy (it is missing or was overridden via proxy_path)"@
}

/// The sidecar's port from the port file at `path`: `content` is the file's
/// text, `None` when it could not be read (proxy not running, e.g. the
/// extension fell back to launching kotlin-lsp directly).
pub fn sidecar_port_from_file(path: &str, content: Option<String>) -> (r: Result<u16, String>)
    ensures
        match content {
            None => r matches Err(e) && e@ == sidecar_missing_message(path@),
            Some(c) => match port_of_contents(c@) {
                Ok(p) => r == Ok::<u16, String>(p as u16),
                Err(k) => r matches Err(e) && e@ == "kotlin-lsp sidecar port file at "@ + path@
                    + " is corrupted: "@ + k.description_spec(),
            },
        },
{
    match content {
        None => {
            let mut e = String::from_str("kotlin-lsp sidecar not found at ");
            e.append(path);
            e.append(
                " \u{2014} debugging requires the kotlin-lsp-proxy (it is missing or was overridden via proxy_path)",
            );
            Err(e)
        },
        Some(c) => {
            let chars = chars_of(c.as_str());
            let (a, b) = trim_bounds(&chars, 0, chars.len());
            assert(chars@.subrange(0, chars.len() as int) =~= c@);
            match parse_decimal(&chars, a, b, 65535) {
                Ok(p) => Ok(p as u16),
                Err(k) => {
                    let mut e = String::from_str("kotlin-lsp sidecar port file at ");
                    e.append(path);
                    e.append(" is corrupted: ");
                    let d = k.description();
                    e.append(d.as_str());
                    Err(e)
                },
            }
        },
    }
}

/// The extension reads back the port the proxy writes: the port file's text
/// (`port.to_string()`) parses to the same port, for every port.
pub proof fn lemma_port_file_roundtrip(port: u16)
    ensures
        port_of_contents(decimal(port as nat)) == Ok::<int, IntErrorKind>(port as int),
{
    lemma_parse_decimal(port as nat, u16::MAX as int);
}

} // verus!
