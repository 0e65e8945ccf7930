//! What the stdio proxy does with the traffic it forwards: which client
//! requests get their answers' archive locations rewritten, and what happens
//! to each message of the server.

use vstd::prelude::*;
use vstd::string::*;
use vstd::utf8::*;
use crate::sidecar::{
    decode_utf8_lossy, ends_with_blank_line, fields_content_length, fields_length,
    lemma_content_length_line, lemma_scan_next_crlf, line_content_length, next_crlf, utf8_lossy,
};
use crate::text::{decimal, decimal_string, same_text};

verus! {

/// The definition-family methods, whose responses may carry archive
/// (`jar!/`) location URIs.
pub open spec fn is_location_method(method: Seq<char>) -> bool {
    ||| method == "textDocument/definition"@
    ||| method == "textDocument/typeDefinition"@
    ||| method == "textDocument/implementation"@
    ||| method == "textDocument/declaration"@
    ||| method == "textDocument/references"@
}

/// Whether a client message (its `method`, if it is a string) is a request
/// whose response must have its locations rewritten.
pub fn is_location_request(method: Option<&str>) -> (r: bool)
    ensures
        r == match method {
            Some(m) => is_location_method(m@),
            None => false,
        },
{
    match method {
        None => false,
        Some(m) => {
            same_text(m, "textDocument/definition") || same_text(m, "textDocument/typeDefinition")
                || same_text(m, "textDocument/implementation") || same_text(
                m,
                "textDocument/declaration",
            ) || same_text(m, "textDocument/references")
        },
    }
}

/// A message framed for the language server: the LSP base-protocol header
/// with the content's length in UTF-8 bytes, a blank line, the content.
pub open spec fn lsp_frame(content: Seq<char>) -> Seq<char> {
    "Content-Length: "@ + decimal(encode_utf8(content).len()) + "\r\n\r\n"@ + content
}

/// Frames the JSON text `content` as an LSP message.
pub fn encode_lsp(content: &str) -> (r: String)
    ensures
        r@ == lsp_frame(content@),
{
    let n = content.as_bytes().len();
    let mut r = String::from_str("Content-Length: ");
    let digits = decimal_string(n as u64);
    r.append(digits.as_str());
    r.append("\r\n\r\n");
    r.append(content);
    r
}

/// Whether the bytes read so far of an LSP message end its header (with the
/// blank line `\r\n\r\n`).
pub fn lsp_header_complete(buf: &[u8]) -> (r: bool)
    ensures
        r == ends_with_blank_line(buf@, buf@.len() as int),
{
    let n = buf.len();
    n >= 4 && buf[n - 4] == 13u8 && buf[n - 3] == 10u8 && buf[n - 2] == 13u8 && buf[n - 1] == 10u8
}

/// The content length an LSP message header announces: that of its first
/// `Content-Length` line (name in any ASCII case) whose value parses as a
/// `usize`.
pub open spec fn lsp_header_length(header: Seq<u8>) -> Option<int> {
    fields_content_length(utf8_lossy(header), 0)
}

/// The content length announced by `header`, the bytes of an LSP message
/// header up to and including its blank line; `None` without one. A header
/// that is valid UTF-8 is decoded as it stands.
pub fn lsp_content_length(header: &[u8]) -> (r: Option<usize>)
    ensures
        match lsp_header_length(header@) {
            Some(v) => r matches Some(u) && u == v,
            None => r is None,
        },
        valid_utf8(header@) ==> utf8_lossy(header@) == decode_utf8(header@),
{
    let text = decode_utf8_lossy(header);
    fields_length(&text, 0)
}

/// A framed message is read back as it was framed: its header is the
/// `Content-Length` line and the blank line, and that header announces the
/// content's length in UTF-8 bytes (where the header, valid UTF-8, is decoded
/// as it stands, which `lsp_content_length` ensures).
pub proof fn lemma_lsp_frame_read_back(content: Seq<char>)
    requires
        encode_utf8(content).len() <= usize::MAX,
    ensures
        ({
            let n = encode_utf8(content).len();
            let header = "Content-Length: "@ + decimal(n) + "\r\n\r\n"@;
            &&& lsp_frame(content) == header + content
            &&& valid_utf8(encode_utf8(header))
            &&& decode_utf8(encode_utf8(header)) == header
            &&& ends_with_blank_line(encode_utf8(header), encode_utf8(header).len() as int)
            &&& utf8_lossy(encode_utf8(header)) == decode_utf8(encode_utf8(header))
                ==> lsp_header_length(encode_utf8(header)) == Some(n as int)
        }),
{
    reveal_strlit("Content-Length: ");
    reveal_strlit("\r\n\r\n");
    let n = encode_utf8(content).len();
    let d = decimal(n);
    crate::text::lemma_decimal_digits(n);
    let header = "Content-Length: "@ + d + "\r\n\r\n"@;
    let e: int = 16 + d.len() as int;
    assert(header.len() == e + 4);
    assert(header[e] == '\r' && header[e + 1] == '\n');
    assert forall|i: int| 0 <= i < e implies !(#[trigger] header[i] == '\r' && header[i + 1] == '\n') by {
        if i >= 16 {
            assert(header[i] == d[i - 16]);
            assert(crate::text::is_digit(d[i - 16]));
        }
    }
    lemma_scan_next_crlf(header, 0, e);
    assert(header.subrange(0, e) =~= "Content-Length: "@ + d);
    lemma_content_length_line(n);
    assert(line_content_length(header.subrange(0, next_crlf(header, 0))) == Some(n as int));
    assert(fields_content_length(header, 0) == Some(n as int));
    assert(vstd::utf8::is_ascii_chars(header)) by {
        assert forall|i: int| 0 <= i < header.len() implies '\0' <= #[trigger] header[i] <= '\u{7f}' by {
            if 16 <= i < e {
                assert(header[i] == d[i - 16]);
                assert(crate::text::is_digit(d[i - 16]));
            }
        }
    }
    vstd::utf8::is_ascii_chars_encode_utf8(header);
    vstd::utf8::encode_utf8_valid_utf8(header);
    vstd::utf8::encode_utf8_decode_utf8(header);
    let b = encode_utf8(header);
    assert(b[e] == header[e] as u8);
    assert(b[e + 1] == header[e + 1] as u8);
    assert(b[e + 2] == header[e + 2] as u8);
    assert(b[e + 3] == header[e + 3] as u8);
    assert(lsp_frame(content) =~= header + content);
}

/// The id of a JSON-RPC message: an integer, a string, or any other JSON
/// value, by its JSON text.
pub enum MessageId {
    Number(i64),
    Text(String),
    Other(String),
}

/// A message id as a plain value.
pub enum MessageIdView {
    Number(i64),
    Text(Seq<char>),
    Other(Seq<char>),
}

impl View for MessageId {
    type V = MessageIdView;

    open spec fn view(&self) -> MessageIdView {
        match self {
            MessageId::Number(n) => MessageIdView::Number(*n),
            MessageId::Text(t) => MessageIdView::Text(t@),
            MessageId::Other(t) => MessageIdView::Other(t@),
        }
    }
}

/// Whether `a` and `b` are the same id.
pub fn same_id(a: &MessageId, b: &MessageId) -> (r: bool)
    ensures
        r == (a@ == b@),
{
    match (a, b) {
        (MessageId::Number(x), MessageId::Number(y)) => *x == *y,
        (MessageId::Text(x), MessageId::Text(y)) => same_text(x.as_str(), y.as_str()),
        (MessageId::Other(x), MessageId::Other(y)) => same_text(x.as_str(), y.as_str()),
        _ => false,
    }
}

/// What the proxy does with a message of the server.
#[derive(Clone, Copy, Debug, PartialEq, Eq, Structural)]
pub enum ServerAction {
    /// Forward it to the client as it came.
    ForwardRaw,
    /// It answers a request the sidecar injected: hand it to the sidecar and
    /// withhold it from the client.
    ToSidecar,
    /// It answers a definition-family request: rewrite its archive locations
    /// (forwarding it as it came where there is nothing to rewrite).
    Rewrite,
}

/// The ids of the client's definition-family requests that wait for their
/// response.
pub struct ForwardState {
    waiting: Vec<MessageId>,
}

impl ForwardState {
    /// No id occurs twice.
    #[verifier::type_invariant]
    spec fn distinct(self) -> bool {
        forall|i: int, j: int|
            0 <= i < j < self.waiting@.len() ==> self.waiting@[i]@ != self.waiting@[j]@
    }

    spec fn ids(self) -> Seq<MessageIdView> {
        self.waiting@.map_values(|m: MessageId| m@)
    }
}

impl View for ForwardState {
    type V = Set<MessageIdView>;

    closed spec fn view(&self) -> Set<MessageIdView> {
        Set::new(|x: MessageIdView| self.ids().contains(x))
    }
}

impl ForwardState {
    /// No request waiting.
    pub fn new() -> (r: Self)
        ensures
            r@ == Set::<MessageIdView>::empty(),
    {
        let r = ForwardState { waiting: Vec::new() };
        assert(r@ =~= Set::<MessageIdView>::empty());
        r
    }

    fn position(&self, id: &MessageId) -> (r: Option<usize>)
        ensures
            match r {
                Some(i) => i < self.waiting@.len() && self.waiting@[i as int]@ == id@,
                None => !self@.contains(id@),
            },
    {
        let mut i: usize = 0;
        while i < self.waiting.len()
            invariant
                i <= self.waiting@.len(),
                forall|j: int| 0 <= j < i ==> self.waiting@[j]@ != id@,
            decreases self.waiting.len() - i,
        {
            if same_id(&self.waiting[i], id) {
                return Some(i);
            }
            i = i + 1;
        }
        proof {
            if self@.contains(id@) {
                let k = choose|k: int| 0 <= k < self.ids().len() && self.ids()[k] == id@;
                assert(self.waiting@[k]@ == id@);
            }
        }
        None
    }

    /// A message of the client, with its id (if it has one) and its `method`
    /// (if it is a string): a definition-family request has its id recorded.
    pub fn on_client_message(&mut self, id: Option<MessageId>, method: Option<&str>)
        ensures
            final(self)@ == match id {
                Some(i) => if match method {
                    Some(m) => is_location_method(m@),
                    None => false,
                } {
                    old(self)@.insert(i@)
                } else {
                    old(self)@
                },
                None => old(self)@,
            },
    {
        proof {
            use_type_invariant(&*self);
        }
        if let Some(i) = id {
            if is_location_request(method) {
                match self.position(&i) {
                    Some(k) => {
                        assert(self.ids()[k as int] == i@);
                        assert(old(self)@.insert(i@) =~= old(self)@);
                    },
                    None => {
                        let ghost before = self.waiting@;
                        let mut waiting = Vec::new();
                        std::mem::swap(&mut waiting, &mut self.waiting);
                        waiting.push(i);
                        proof {
                            let ids = waiting@.map_values(|m: MessageId| m@);
                            assert(ids =~= before.map_values(|m: MessageId| m@).push(i@));
                            assert forall|a: int, b: int|
                                0 <= a < b < waiting@.len() implies waiting@[a]@
                                != waiting@[b]@ by {
                                if b == waiting@.len() - 1 {
                                    assert(before.map_values(|m: MessageId| m@)[a]
                                        == before[a]@);
                                }
                            }
                        }
                        *self = ForwardState { waiting };
                        proof {
                            let old_ids = before.map_values(|m: MessageId| m@);
                            assert(self.ids() =~= old_ids.push(i@));
                            assert forall|x: MessageIdView| self@.contains(x) <==> old(self)@.insert(i@).contains(x) by {
                                if self@.contains(x) {
                                    let j = choose|j: int| 0 <= j < self.ids().len() && self.ids()[j] == x;
                                    if j < old_ids.len() {
                                        assert(old_ids[j] == x);
                                    }
                                }
                                if old(self)@.contains(x) {
                                    let j = choose|j: int| 0 <= j < old_ids.len() && old_ids[j] == x;
                                    assert(self.ids()[j] == x);
                                }
                                if x == i@ {
                                    assert(self.ids()[old_ids.len() as int] == x);
                                }
                            }
                            assert(self@ =~= old(self)@.insert(i@));
                        }
                    },
                }
            }
        }
    }

    /// A message of the server: `id` is its id (if it has one), `parsed`
    /// whether it was read as JSON at all, `sidecar_reply` whether the sidecar
    /// took it as the answer to an injected request. A message that did not
    /// parse, or has no id, is forwarded as it came; one for the sidecar goes
    /// there; one that answers a recorded request is rewritten, and its id is
    /// no longer recorded; anything else is forwarded as it came.
    pub fn on_server_message(&mut self, id: Option<MessageId>, parsed: bool, sidecar_reply: bool) -> (a: ServerAction)
        ensures
            !parsed ==> a == ServerAction::ForwardRaw && final(self)@ == old(self)@,
            parsed && sidecar_reply ==> a == ServerAction::ToSidecar && final(self)@ == old(self)@,
            parsed && !sidecar_reply ==> match id {
                Some(i) => if old(self)@.contains(i@) {
                    a == ServerAction::Rewrite && final(self)@ == old(self)@.remove(i@)
                } else {
                    a == ServerAction::ForwardRaw && final(self)@ == old(self)@
                },
                None => a == ServerAction::ForwardRaw && final(self)@ == old(self)@,
            },
    {
        proof {
            use_type_invariant(&*self);
        }
        if !parsed {
            return ServerAction::ForwardRaw;
        }
        if sidecar_reply {
            return ServerAction::ToSidecar;
        }
        let i = match id {
            None => return ServerAction::ForwardRaw,
            Some(i) => i,
        };
        match self.position(&i) {
            None => ServerAction::ForwardRaw,
            Some(k) => {
                assert(self.ids()[k as int] == i@);
                let ghost before = self.waiting@;
                let mut waiting = Vec::new();
                std::mem::swap(&mut waiting, &mut self.waiting);
                waiting.remove(k);
                proof {
                    assert(waiting@ =~= before.remove(k as int));
                    assert forall|a: int, b: int|
                        0 <= a < b < waiting@.len() implies waiting@[a]@ != waiting@[b]@ by {
                        let a0 = if a < k { a } else { a + 1 };
                        let b0 = if b < k { b } else { b + 1 };
                        assert(waiting@[a] == before[a0]);
                        assert(waiting@[b] == before[b0]);
                    }
                }
                *self = ForwardState { waiting };
                proof {
                    let old_ids = before.map_values(|m: MessageId| m@);
                    let new_ids = self.ids();
                    assert forall|x: MessageIdView| self@.contains(x) <==> old(self)@.remove(i@).contains(x) by {
                        if self@.contains(x) {
                            let j = choose|j: int| 0 <= j < new_ids.len() && new_ids[j] == x;
                            let j0 = if j < k { j } else { j + 1 };
                            assert(old_ids[j0] == x);
                            assert(x != i@);
                        }
                        if old(self)@.remove(i@).contains(x) {
                            let j = choose|j: int| 0 <= j < old_ids.len() && old_ids[j] == x;
                            assert(j != k);
                            let j1 = if j < k { j } else { j - 1 };
                            assert(new_ids[j1] == x);
                        }
                    }
                    assert(self@ =~= old(self)@.remove(i@));
                }
                ServerAction::Rewrite
            },
        }
    }
}

} // verus!
