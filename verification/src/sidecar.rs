//! The proxy's localhost HTTP sidecar: the port file through which the
//! extension finds it, the minimal HTTP/1.1 request reader, the response
//! framing, the JSON-RPC envelope decisions and the table of injected
//! requests that wait for their response.

use vstd::prelude::*;
use vstd::string::*;
use vstd::utf8::*;
use std::collections::HashMap;
use crate::text::{
    chars_of, decimal, decimal_chars, decimal_string, eq_ignore_ascii_case, lemma_parse_decimal,
    parse_decimal, parse_unsigned, push_char, string_of, trim, trim_bounds,
    lemma_parse_unsigned_bounded,
};

verus! {

/// Env var carrying the worktree root path, set by the extension. Keys the port
/// file so several windows (each with their own proxy and language server)
/// don't clobber each other's file.
pub const WORKTREE_ENV: &'static str = "KOTLIN_LSP_WORKTREE_ROOT";

/// The lowercase hexadecimal digit for `d` (`0 <= d < 16`).
pub open spec fn hex_digit(d: int) -> char {
    if d < 10 {
        (d + ('0' as int)) as char
    } else {
        (d - 10 + ('a' as int)) as char
    }
}

/// Lowercase hex encoding of `bytes`: two digits per byte, high nibble first.
pub open spec fn hex_of(bytes: Seq<u8>) -> Seq<char>
    decreases bytes.len(),
{
    if bytes.len() == 0 {
        Seq::empty()
    } else {
        hex_of(bytes.drop_last()) + seq![
            hex_digit((bytes.last() / 16) as int),
            hex_digit((bytes.last() % 16) as int),
        ]
    }
}

fn hex_digit_char(d: u8) -> (c: char)
    requires
        d < 16,
    ensures
        c == hex_digit(d as int),
{
    if d < 10 {
        (d + 48u8) as char
    } else {
        (d - 10 + 97u8) as char
    }
}

/// Plain lowercase hex encoding of `s`'s UTF-8 bytes; the extension side
/// encodes the same way to locate the port file.
pub fn hex_encode(s: &str) -> (r: String)
    ensures
        r@ == hex_of(encode_utf8(s@)),
{
    let bytes = s.as_bytes();
    let mut out = String::new();
    let mut i: usize = 0;
    while i < bytes.len()
        invariant
            bytes@ == encode_utf8(s@),
            i <= bytes.len(),
            out@ == hex_of(bytes@.take(i as int)),
        decreases bytes.len() - i,
    {
        let b = bytes[i];
        push_char(&mut out, hex_digit_char(b / 16));
        push_char(&mut out, hex_digit_char(b % 16));
        assert(bytes@.take(i + 1).drop_last() =~= bytes@.take(i as int));
        i = i + 1;
    }
    assert(bytes@.take(bytes.len() as int) =~= bytes@);
    out
}

/// The hex encoding has two digits per byte.
pub proof fn lemma_hex_of_len(bytes: Seq<u8>)
    ensures
        hex_of(bytes).len() == 2 * bytes.len(),
    decreases bytes.len(),
{
    if bytes.len() > 0 {
        lemma_hex_of_len(bytes.drop_last());
    }
}

/// Every character of the encoding is a lowercase hex digit.
pub proof fn lemma_hex_of_digits(bytes: Seq<u8>)
    ensures
        forall|i: int|
            0 <= i < hex_of(bytes).len() ==> {
                let c = #[trigger] hex_of(bytes)[i];
                ('0' <= c && c <= '9') || ('a' <= c && c <= 'f')
            },
    decreases bytes.len(),
{
    if bytes.len() > 0 {
        lemma_hex_of_digits(bytes.drop_last());
        lemma_hex_of_len(bytes.drop_last());
        let h = hex_of(bytes);
        let p = hex_of(bytes.drop_last());
        assert forall|i: int| 0 <= i < h.len() implies {
            let c = #[trigger] h[i];
            ('0' <= c && c <= '9') || ('a' <= c && c <= 'f')
        } by {
            if i < p.len() {
                assert(h[i] == p[i]);
            }
        }
    }
}

proof fn lemma_hex_digit_injective(x: int, y: int)
    requires
        0 <= x < 16,
        0 <= y < 16,
        hex_digit(x) == hex_digit(y),
    ensures
        x == y,
{
}

/// Different byte strings have different hex encodings.
pub proof fn lemma_hex_of_injective(a: Seq<u8>, b: Seq<u8>)
    requires
        hex_of(a) == hex_of(b),
    ensures
        a == b,
    decreases a.len(),
{
    lemma_hex_of_len(a);
    lemma_hex_of_len(b);
    if a.len() > 0 {
        let n = hex_of(a).len();
        lemma_hex_of_len(a.drop_last());
        lemma_hex_of_len(b.drop_last());
        assert(hex_of(a.drop_last()) =~= hex_of(a).take(n - 2));
        assert(hex_of(b.drop_last()) =~= hex_of(b).take(n - 2));
        lemma_hex_of_injective(a.drop_last(), b.drop_last());
        assert(hex_of(a)[n - 2] == hex_digit((a.last() / 16) as int));
        assert(hex_of(b)[n - 2] == hex_digit((b.last() / 16) as int));
        assert(hex_of(a)[n - 1] == hex_digit((a.last() % 16) as int));
        assert(hex_of(b)[n - 1] == hex_digit((b.last() % 16) as int));
        lemma_hex_digit_injective((a.last() / 16) as int, (b.last() / 16) as int);
        lemma_hex_digit_injective((a.last() % 16) as int, (b.last() % 16) as int);
        assert(a.last() == b.last());
        assert(a =~= a.drop_last().push(a.last()));
        assert(b =~= b.drop_last().push(b.last()));
    } else {
        assert(a =~= b);
    }
}

/// The port file of the sidecar serving `worktree`, relative to the
/// extension's work directory: `proxy/<hex(worktree)>`.
pub open spec fn port_file_path_spec(worktree: Seq<char>) -> Seq<char> {
    seq!['p', 'r', 'o', 'x', 'y', '/'] + hex_of(encode_utf8(worktree))
}

/// Path of the port file for `worktree` (`proxy/<hex(worktree)>`).
pub fn port_file_path(worktree: &str) -> (r: String)
    ensures
        r@ == port_file_path_spec(worktree@),
{
    let hex = hex_encode(worktree);
    let mut r = String::new();
    push_char(&mut r, 'p');
    push_char(&mut r, 'r');
    push_char(&mut r, 'o');
    push_char(&mut r, 'x');
    push_char(&mut r, 'y');
    push_char(&mut r, '/');
    r.append(hex.as_str());
    assert(r@ =~= port_file_path_spec(worktree@));
    r
}

/// Windows of different worktrees never share a port file.
pub proof fn lemma_port_files_distinct(w1: Seq<char>, w2: Seq<char>)
    requires
        w1 != w2,
    ensures
        port_file_path_spec(w1) != port_file_path_spec(w2),
{
    broadcast use vstd::utf8::encode_utf8_decode_utf8;

    if port_file_path_spec(w1) == port_file_path_spec(w2) {
        assert(port_file_path_spec(w1).skip(6) =~= hex_of(encode_utf8(w1)));
        assert(port_file_path_spec(w2).skip(6) =~= hex_of(encode_utf8(w2)));
        lemma_hex_of_injective(encode_utf8(w1), encode_utf8(w2));
        assert(decode_utf8(encode_utf8(w1)) == w1);
        assert(decode_utf8(encode_utf8(w2)) == w2);
    }
}

/// What the port file holds: the listening port in decimal, digits only, no
/// trailing newline.
pub fn port_file_contents(port: u16) -> (r: String)
    ensures
        r@ == decimal(port as nat),
{
    decimal_string(port as u64)
}

/// The reader gives up on a request whose header grows past this many bytes.
pub const MAX_HEADER_BYTES: usize = 16384;

/// Whether `input[k - 4..k]` is the blank-line marker `\r\n\r\n`.
pub open spec fn ends_with_blank_line(input: Seq<u8>, k: int) -> bool {
    &&& 4 <= k <= input.len()
    &&& input[k - 4] == 13u8
    &&& input[k - 3] == 10u8
    &&& input[k - 2] == 13u8
    &&& input[k - 1] == 10u8
}

/// Reading the header one byte at a time from length `k` on: it ends at the
/// first length at which it ends with `\r\n\r\n`; the reader gives up once the
/// header is longer than `MAX_HEADER_BYTES` or the input is exhausted.
pub open spec fn header_end_from(input: Seq<u8>, k: int) -> Option<int>
    decreases input.len() - k,
{
    if ends_with_blank_line(input, k) {
        Some(k)
    } else if k > MAX_HEADER_BYTES || k >= input.len() || k < 0 {
        None
    } else {
        header_end_from(input, k + 1)
    }
}

/// The length of the request header (request line and header fields up to and
/// including the blank line), if the reader finds one.
pub open spec fn header_end(input: Seq<u8>) -> Option<int> {
    header_end_from(input, 0)
}

/// Index of the first `\r\n` in `s` at or after `from`, or `s.len()` if there is none.
pub open spec fn next_crlf(s: Seq<char>, from: int) -> int
    decreases s.len() - from,
{
    if from < 0 || from + 1 >= s.len() {
        s.len() as int
    } else if s[from] == '\r' && s[from + 1] == '\n' {
        from
    } else {
        next_crlf(s, from + 1)
    }
}

pub proof fn lemma_next_crlf(s: Seq<char>, from: int)
    requires
        0 <= from <= s.len(),
    ensures
        from <= next_crlf(s, from) <= s.len(),
        next_crlf(s, from) < s.len() ==> next_crlf(s, from) + 2 <= s.len(),
    decreases s.len() - from,
{
    if from + 1 < s.len() && !(s[from] == '\r' && s[from + 1] == '\n') {
        lemma_next_crlf(s, from + 1);
    }
}

/// The request line: the header text up to its first `\r\n`.
pub open spec fn request_line(text: Seq<char>) -> Seq<char> {
    text.take(next_crlf(text, 0))
}

/// Index of the first `c` in `s`, if any.
#[verifier::opaque]
pub open spec fn index_of(s: Seq<char>, c: char) -> Option<int> {
    if exists|i: int| 0 <= i < s.len() && s[i] == c {
        Some(choose|i: int| 0 <= i < s.len() && s[i] == c && forall|j: int| 0 <= j < i ==> s[j] != c)
    } else {
        None
    }
}

/// The header field name that carries the body length.
pub open spec fn content_length_name() -> Seq<char> {
    seq!['c', 'o', 'n', 't', 'e', 'n', 't', '-', 'l', 'e', 'n', 'g', 't', 'h']
}

/// The body length that one header line announces: the line splits at its
/// first `:`, the trimmed name is `content-length` in any ASCII case, and the
/// trimmed value parses as a `usize`.
pub open spec fn line_content_length(line: Seq<char>) -> Option<int> {
    match index_of(line, ':') {
        None => None,
        Some(c) => if eq_ignore_ascii_case(trim(line.take(c)), content_length_name()) {
            match parse_unsigned(trim(line.skip(c + 1)), usize::MAX as int) {
                Ok(v) => Some(v),
                Err(_) => None,
            }
        } else {
            None
        },
    }
}

/// The body length announced by the first header line, at or after position
/// `p` of the header text, that announces one.
pub open spec fn fields_content_length(text: Seq<char>, p: int) -> Option<int>
    decreases text.len() - p,
{
    if p < 0 || p > text.len() {
        None
    } else {
        let e = next_crlf(text, p);
        match line_content_length(text.subrange(p, e)) {
            Some(v) => Some(v),
            None => if e >= text.len() {
                None
            } else {
                proof {
                    lemma_next_crlf(text, p);
                }
                fields_content_length(text, e + 2)
            },
        }
    }
}

/// The body length a header text announces: that of the first header line
/// after the request line that announces one, else 0.
pub open spec fn header_content_length(text: Seq<char>) -> int {
    let e = next_crlf(text, 0);
    if e >= text.len() {
        0
    } else {
        match fields_content_length(text, e + 2) {
            Some(v) => v,
            None => 0,
        }
    }
}

/// Names what `String::from_utf8_lossy` gives for `bytes`, as characters.
pub uninterp spec fn utf8_lossy(bytes: Seq<u8>) -> Seq<char>;

/// `String::from_utf8_lossy`: decodes `bytes` as UTF-8, replacing each
/// invalid sequence by U+FFFD. Claimed: the characters are `utf8_lossy(bytes)`,
/// and valid UTF-8 is decoded as it stands.
#[verifier::external_body]
pub(crate) fn decode_utf8_lossy(bytes: &[u8]) -> (r: Vec<char>)
    ensures
        r@ == utf8_lossy(bytes@),
        valid_utf8(bytes@) ==> r@ == decode_utf8(bytes@),
{
    String::from_utf8_lossy(bytes).chars().collect()
}

/// What the reader makes of `input`: the request line and the body, if the
/// header ends in time and the body is complete.
pub open spec fn http_request_of(input: Seq<u8>) -> Option<(Seq<char>, Seq<u8>)> {
    match header_end(input) {
        None => None,
        Some(k) => {
            let text = utf8_lossy(input.take(k));
            let n = header_content_length(text);
            if input.len() - k < n {
                None
            } else {
                Some((request_line(text), input.subrange(k, k + n)))
            }
        },
    }
}

fn find_crlf(text: &Vec<char>, from: usize) -> (e: usize)
    requires
        from <= text.len(),
    ensures
        e == next_crlf(text@, from as int),
{
    let mut i = from;
    while text.len() - i > 1 && !(text[i] == '\r' && text[i + 1] == '\n')
        invariant
            from <= i <= text.len(),
            next_crlf(text@, from as int) == next_crlf(text@, i as int),
        decreases text.len() - i,
    {
        i = i + 1;
    }
    if text.len() - i > 1 {
        i
    } else {
        text.len()
    }
}

fn find_colon(text: &Vec<char>, p: usize, e: usize) -> (r: Option<usize>)
    requires
        p <= e <= text.len(),
    ensures
        match r {
            None => index_of(text@.subrange(p as int, e as int), ':') is None,
            Some(c) => p <= c < e && index_of(text@.subrange(p as int, e as int), ':') == Some(
                c - p,
            ),
        },
{
    reveal(index_of);
    let ghost line = text@.subrange(p as int, e as int);
    let mut i = p;
    while i < e
        invariant
            p <= i <= e <= text.len(),
            line == text@.subrange(p as int, e as int),
            forall|j: int| 0 <= j < i - p ==> line[j] != ':',
        decreases e - i,
    {
        if text[i] == ':' {
            reveal(index_of);
            let ghost k = (i - p) as int;
            assert(line[k] == ':');
            assert(exists|x: int| 0 <= x < line.len() && line[x] == ':');
            let ghost w = choose|x: int|
                0 <= x < line.len() && line[x] == ':' && forall|j: int| 0 <= j < x ==> line[j] != ':';
            assert(0 <= k < line.len() && line[k] == ':' && forall|j: int| 0 <= j < k ==> line[j] != ':');
            assert(w == k) by {
                if w < k {
                    assert(line[w] != ':');
                } else if k < w {
                    assert(line[k] != ':');
                }
            }
            assert(index_of(line, ':') == Some(k));
            return Some(i);
        }
        i = i + 1;
    }
    None
}

fn is_content_length_name(text: &Vec<char>, a: usize, b: usize) -> (r: bool)
    requires
        a <= b <= text.len(),
    ensures
        r == eq_ignore_ascii_case(text@.subrange(a as int, b as int), content_length_name()),
{
    let ghost name = text@.subrange(a as int, b as int);
    let target: [char; 14] = ['c', 'o', 'n', 't', 'e', 'n', 't', '-', 'l', 'e', 'n', 'g', 't', 'h'];
    assert(target@ =~= content_length_name());
    if b - a != 14 {
        return false;
    }
    let mut i: usize = 0;
    while i < 14
        invariant
            a + 14 == b <= text.len(),
            name == text@.subrange(a as int, b as int),
            target@ == content_length_name(),
            i <= 14,
            forall|j: int|
                0 <= j < i ==> #[trigger] crate::text::ascii_lower(name[j])
                    == crate::text::ascii_lower(content_length_name()[j]),
        decreases 14 - i,
    {
        let c = crate::text::ascii_lower_char(text[a + i]);
        if c != target[i] {
            assert(crate::text::ascii_lower(name[i as int]) != crate::text::ascii_lower(
                content_length_name()[i as int],
            ));
            return false;
        }
        i = i + 1;
    }
    true
}

fn line_content_length_at(text: &Vec<char>, p: usize, e: usize) -> (r: Option<usize>)
    requires
        p <= e <= text.len(),
    ensures
        match r {
            None => line_content_length(text@.subrange(p as int, e as int)) is None,
            Some(v) => line_content_length(text@.subrange(p as int, e as int)) == Some(
                v as int,
            ),
        },
{
    let ghost line = text@.subrange(p as int, e as int);
    match find_colon(text, p, e) {
        None => None,
        Some(c) => {
            let (na, nb) = trim_bounds(text, p, c);
            assert(line.take(c - p) =~= text@.subrange(p as int, c as int));
            if !is_content_length_name(text, na, nb) {
                return None;
            }
            let (va, vb) = trim_bounds(text, c + 1, e);
            assert(line.skip(c - p + 1) =~= text@.subrange(c + 1, e as int));
            match parse_decimal(text, va, vb, usize::MAX as u64) {
                Ok(v) => Some(v as usize),
                Err(_) => None,
            }
        },
    }
}

/// The request line and the announced body length of a decoded request
/// header (request line, header fields, blank line).
pub fn parse_header_text(text: &Vec<char>) -> (r: (String, usize))
    ensures
        r.0@ == request_line(text@),
        r.1 == header_content_length(text@),
{
    let e0 = find_crlf(text, 0);
    proof {
        lemma_next_crlf(text@, 0);
    }
    let mut line: Vec<char> = Vec::new();
    let mut i: usize = 0;
    while i < e0
        invariant
            e0 <= text.len(),
            i <= e0,
            line@ == text@.take(i as int),
        decreases e0 - i,
    {
        line.push(text[i]);
        assert(text@.take(i + 1) =~= text@.take(i as int).push(text@[i as int]));
        i = i + 1;
    }
    let request = string_of(&line);
    assert(request@ == request_line(text@));
    if e0 >= text.len() {
        return (request, 0);
    }
    proof {
        lemma_fields_content_length_bounded(text@, e0 + 2);
    }
    match fields_length(text, e0 + 2) {
        Some(v) => (request, v),
        None => (request, 0),
    }
}

/// The body length announced by the first line, at or after position `from`
/// of the header text, that announces one.
pub(crate) fn fields_length(text: &Vec<char>, from: usize) -> (r: Option<usize>)
    requires
        from <= text.len(),
    ensures
        match fields_content_length(text@, from as int) {
            Some(v) => r matches Some(u) && u == v,
            None => r is None,
        },
{
    let mut p = from;
    loop
        invariant
            p <= text.len(),
            fields_content_length(text@, from as int) == fields_content_length(text@, p as int),
        decreases text.len() - p,
    {
        let e = find_crlf(text, p);
        proof {
            lemma_next_crlf(text@, p as int);
        }
        match line_content_length_at(text, p, e) {
            Some(v) => {
                return Some(v);
            },
            None => {
                if e >= text.len() {
                    return None;
                }
                p = e + 2;
            },
        }
    }
}

fn find_header_end(input: &[u8]) -> (r: Option<usize>)
    ensures
        match r {
            None => header_end(input@) is None,
            Some(k) => header_end(input@) == Some(k as int) && k <= input.len(),
        },
{
    let mut k: usize = 0;
    loop
        invariant
            k <= input.len(),
            header_end(input@) == header_end_from(input@, k as int),
        decreases input.len() - k,
    {
        if k >= 4 && input[k - 4] == 13u8 && input[k - 3] == 10u8 && input[k - 2] == 13u8
            && input[k - 1] == 10u8 {
            return Some(k);
        }
        if k > MAX_HEADER_BYTES || k >= input.len() {
            return None;
        }
        k = k + 1;
    }
}

/// How many more bytes the reader wants after reading `buf` from a
/// connection: `None` when it gives up (the header is too long), `Some(0)`
/// when the request is complete, else the number of bytes still missing (one
/// at a time while the header is incomplete, then the rest of the body).
pub open spec fn bytes_wanted_spec(buf: Seq<u8>) -> Option<int> {
    match header_end(buf) {
        Some(k) => {
            let n = header_content_length(utf8_lossy(buf.take(k)));
            if buf.len() - k >= n {
                Some(0)
            } else {
                Some(n - (buf.len() - k))
            }
        },
        None => if buf.len() > MAX_HEADER_BYTES {
            None
        } else {
            Some(1)
        },
    }
}

/// How many more bytes to read from a connection, given the bytes `buf`
/// read so far; see `bytes_wanted_spec`. Once it says 0, `read_http_request`
/// on `buf` gives the request.
pub fn bytes_wanted(buf: &[u8]) -> (r: Option<usize>)
    ensures
        match bytes_wanted_spec(buf@) {
            None => r is None,
            Some(n) => r == Some(n as usize),
        },
        header_end(buf@) matches Some(k) ==> (valid_utf8(buf@.take(k)) ==> utf8_lossy(
            buf@.take(k),
        ) == decode_utf8(buf@.take(k))),
{
    match find_header_end(buf) {
        None => {
            if buf.len() > MAX_HEADER_BYTES {
                None
            } else {
                Some(1)
            }
        },
        Some(k) => {
            let mut header: Vec<u8> = Vec::new();
            let mut i: usize = 0;
            while i < k
                invariant
                    k <= buf.len(),
                    i <= k,
                    header@ == buf@.take(i as int),
                decreases k - i,
            {
                header.push(buf[i]);
                assert(buf@.take(i + 1) =~= buf@.take(i as int).push(buf@[i as int]));
                i = i + 1;
            }
            let text = decode_utf8_lossy(header.as_slice());
            let (_, n) = parse_header_text(&text);
            if buf.len() - k >= n {
                Some(0)
            } else {
                Some(n - (buf.len() - k))
            }
        },
    }
}

proof fn lemma_header_end_extends(buf: Seq<u8>, rest: Seq<u8>, j: int)
    requires
        0 <= j,
        header_end_from(buf, j) is Some,
    ensures
        header_end_from(buf + rest, j) == header_end_from(buf, j),
    decreases buf.len() - j,
{
    let all = buf + rest;
    if j <= buf.len() {
        if j >= 4 {
            assert(all[j - 4] == buf[j - 4]);
            assert(all[j - 3] == buf[j - 3]);
            assert(all[j - 2] == buf[j - 2]);
            assert(all[j - 1] == buf[j - 1]);
        }
    }
    if !ends_with_blank_line(buf, j) {
        lemma_header_end_extends(buf, rest, j + 1);
    }
}

proof fn lemma_header_gives_up(buf: Seq<u8>, rest: Seq<u8>, j: int)
    requires
        0 <= j <= MAX_HEADER_BYTES + 1,
        buf.len() > MAX_HEADER_BYTES,
        header_end_from(buf, j) is None,
    ensures
        header_end_from(buf + rest, j) is None,
    decreases MAX_HEADER_BYTES + 1 - j,
{
    let all = buf + rest;
    if j >= 4 {
        assert(all[j - 4] == buf[j - 4]);
        assert(all[j - 3] == buf[j - 3]);
        assert(all[j - 2] == buf[j - 2]);
        assert(all[j - 1] == buf[j - 1]);
    }
    if j <= MAX_HEADER_BYTES {
        lemma_header_gives_up(buf, rest, j + 1);
    }
}

/// Reading on past a complete request changes nothing: once the reader wants
/// no more bytes, the request it makes of what was read is the request it
/// would make of any longer stream; and once it gives up on an overlong
/// header, it gives up whatever follows. So reading a connection as far as
/// `bytes_wanted` asks gives what reading it byte by byte gives.
pub proof fn lemma_reading_on_changes_nothing(buf: Seq<u8>, rest: Seq<u8>)
    ensures
        bytes_wanted_spec(buf) == Some(0int) ==> {
            &&& http_request_of(buf) is Some
            &&& http_request_of(buf + rest) == http_request_of(buf)
        },
        bytes_wanted_spec(buf) is None ==> http_request_of(buf + rest) is None,
{
    let all = buf + rest;
    match header_end(buf) {
        Some(k) => {
            lemma_header_end_extends(buf, rest, 0);
            lemma_header_end_bounded(buf, 0);
            assert(all.take(k) =~= buf.take(k));
            let n = header_content_length(utf8_lossy(buf.take(k)));
            lemma_header_content_length_bounded(utf8_lossy(buf.take(k)));
            if buf.len() - k >= n {
                assert(all.subrange(k, k + n) =~= buf.subrange(k, k + n));
            }
        },
        None => {
            if buf.len() > MAX_HEADER_BYTES {
                lemma_header_gives_up(buf, rest, 0);
            }
        },
    }
}

proof fn lemma_fields_content_length_bounded(text: Seq<char>, p: int)
    ensures
        fields_content_length(text, p) matches Some(v) ==> 0 <= v <= usize::MAX,
    decreases text.len() - p,
{
    if 0 <= p <= text.len() {
        let e = next_crlf(text, p);
        lemma_next_crlf(text, p);
        let line = text.subrange(p, e);
        match index_of(line, ':') {
            Some(c) => lemma_parse_unsigned_bounded(trim(line.skip(c + 1)), usize::MAX as int),
            None => {},
        }
        if e < text.len() {
            lemma_fields_content_length_bounded(text, e + 2);
        }
    }
}

/// The announced body length fits in a `usize`.
pub proof fn lemma_header_content_length_bounded(text: Seq<char>)
    ensures
        0 <= header_content_length(text) <= usize::MAX,
{
    lemma_next_crlf(text, 0);
    let e = next_crlf(text, 0);
    if e < text.len() {
        lemma_fields_content_length_bounded(text, e + 2);
    }
}

proof fn lemma_header_end_bounded(buf: Seq<u8>, j: int)
    requires
        0 <= j,
    ensures
        header_end_from(buf, j) matches Some(k) ==> j <= k <= buf.len(),
    decreases buf.len() - j,
{
    if !ends_with_blank_line(buf, j) && !(j > MAX_HEADER_BYTES || j >= buf.len()) {
        lemma_header_end_bounded(buf, j + 1);
    }
}

/// The header of a `POST` to `target` announcing a body of `n` bytes, as the
/// extension's HTTP client sends it: request line, `Content-Length`, blank line.
pub open spec fn post_header_text(target: Seq<char>, n: nat) -> Seq<char> {
    "POST "@ + target + " HTTP/1.1\r\nContent-Length: "@ + decimal(n) + "\r\n\r\n"@
}

proof fn lemma_scan_header_end(input: Seq<u8>, j: int, k: int)
    requires
        0 <= j <= k <= input.len(),
        k <= MAX_HEADER_BYTES + 1,
        ends_with_blank_line(input, k),
        forall|i: int| j <= i < k ==> !ends_with_blank_line(input, i),
    ensures
        header_end_from(input, j) == Some(k),
    decreases k - j,
{
    if j < k {
        lemma_scan_header_end(input, j + 1, k);
    }
}

pub(crate) proof fn lemma_scan_next_crlf(s: Seq<char>, from: int, e: int)
    requires
        0 <= from <= e,
        e + 1 < s.len(),
        s[e] == '\r',
        s[e + 1] == '\n',
        forall|i: int| from <= i < e ==> !(#[trigger] s[i] == '\r' && s[i + 1] == '\n'),
    ensures
        next_crlf(s, from) == e,
    decreases e - from,
{
    if from < e {
        lemma_scan_next_crlf(s, from + 1, e);
    }
}

pub(crate) proof fn lemma_content_length_line(n: nat)
    requires
        n <= usize::MAX,
    ensures
        line_content_length("Content-Length: "@ + decimal(n)) == Some(n as int),
{
    reveal_strlit("Content-Length: ");
    crate::text::lemma_decimal_digits(n);
    lemma_parse_decimal(n, usize::MAX as int);
    let d = decimal(n);
    let line = "Content-Length: "@ + d;
    reveal(index_of);
    assert(line[14] == ':');
    assert(forall|j: int| 0 <= j < 14 ==> line[j] != ':');
    assert(exists|x: int| 0 <= x < line.len() && line[x] == ':');
    let w = choose|x: int|
        0 <= x < line.len() && line[x] == ':' && forall|j: int| 0 <= j < x ==> line[j] != ':';
    assert(0 <= 14 < line.len() && line[14] == ':' && forall|j: int| 0 <= j < 14 ==> line[j] != ':');
    assert(w == 14) by {
        if w < 14 {
            assert(line[w] != ':');
        } else if w > 14 {
            assert(line[14] != ':');
        }
    }
    assert(index_of(line, ':') == Some(14int));
    let name = line.take(14);
    assert(is_unpadded(name));
    assert(crate::text::trim_start(name) == name);
    assert(crate::text::trim_end(name) == name);
    assert(eq_ignore_ascii_case(trim(name), content_length_name()));
    let value = line.skip(15);
    assert(value =~= seq![' '] + d);
    assert(value.drop_first() =~= d);
    assert(crate::text::is_digit(d[0]));
    assert(crate::text::is_digit(d.last()));
    assert(crate::text::trim_start(d) == d);
    assert(crate::text::trim_start(value) == d);
    assert(crate::text::trim_end(d) == d);
    assert(trim(value) == d);
}

spec fn is_unpadded(name: Seq<char>) -> bool {
    name.len() > 0 && !crate::text::is_white_space(name[0]) && !crate::text::is_white_space(
        name.last(),
    )
}

proof fn lemma_next_crlf_shift(s: Seq<char>, p: int, q: int)
    requires
        0 <= p <= q <= s.len(),
    ensures
        next_crlf(s, q) == p + next_crlf(s.skip(p), q - p),
    decreases s.len() - q,
{
    let t = s.skip(p);
    if q + 1 < s.len() {
        assert(t[q - p] == s[q]);
        assert(t[q - p + 1] == s[q + 1]);
        if !(s[q] == '\r' && s[q + 1] == '\n') {
            lemma_next_crlf_shift(s, p, q + 1);
        }
    }
}

proof fn lemma_fields_shift(s: Seq<char>, p: int, q: int)
    requires
        0 <= p <= q <= s.len(),
    ensures
        fields_content_length(s, q) == fields_content_length(s.skip(p), q - p),
    decreases s.len() - q,
{
    let t = s.skip(p);
    lemma_next_crlf_shift(s, p, q);
    lemma_next_crlf(s, q);
    let e = next_crlf(s, q);
    assert(s.subrange(q, e) =~= t.subrange(q - p, e - p));
    if e < s.len() {
        lemma_fields_shift(s, p, e + 2);
    }
}

/// Header field lines, each followed by `\r\n`.
pub open spec fn crlf_lines(lines: Seq<Seq<char>>) -> Seq<char>
    decreases lines.len(),
{
    if lines.len() == 0 {
        Seq::empty()
    } else {
        lines[0] + seq!['\r', '\n'] + crlf_lines(lines.drop_first())
    }
}

/// Whether `s` holds no carriage return.
pub open spec fn no_cr(s: Seq<char>) -> bool {
    forall|i: int| 0 <= i < s.len() ==> s[i] != '\r'
}

proof fn lemma_line_end(line: Seq<char>, rest: Seq<char>)
    requires
        no_cr(line),
    ensures
        next_crlf(line + seq!['\r', '\n'] + rest, 0) == line.len(),
        (line + seq!['\r', '\n'] + rest).subrange(0, line.len() as int) == line,
        (line + seq!['\r', '\n'] + rest).skip(line.len() + 2int) == rest,
{
    let t = line + seq!['\r', '\n'] + rest;
    assert forall|i: int| 0 <= i < line.len() implies !(#[trigger] t[i] == '\r' && t[i + 1] == '\n') by {
        assert(t[i] == line[i]);
    }
    lemma_scan_next_crlf(t, 0, line.len() as int);
    assert(t.subrange(0, line.len() as int) =~= line);
    assert(t.skip(line.len() + 2int) =~= rest);
}

proof fn lemma_fields_after_lines(lines: Seq<Seq<char>>, rest: Seq<char>)
    requires
        forall|k: int| 0 <= k < lines.len() ==> no_cr(#[trigger] lines[k]),
        forall|k: int| 0 <= k < lines.len() ==> line_content_length(#[trigger] lines[k]) is None,
    ensures
        fields_content_length(crlf_lines(lines) + rest, 0) == fields_content_length(rest, 0),
    decreases lines.len(),
{
    if lines.len() == 0 {
        assert(crlf_lines(lines) + rest =~= rest);
    } else {
        let l0 = lines[0];
        let tail = crlf_lines(lines.drop_first()) + rest;
        let text = crlf_lines(lines) + rest;
        assert(text =~= l0 + seq!['\r', '\n'] + tail);
        lemma_line_end(l0, tail);
        lemma_fields_shift(text, l0.len() + 2int, l0.len() + 2int);
        assert(text.skip(l0.len() + 2int) == tail);
        lemma_fields_after_lines(lines.drop_first(), rest);
    }
}

/// The announced body length does not depend on the other header fields:
/// after a request line, any number of field lines of any length that do not
/// announce a length (and hold no carriage return), then a
/// `Content-Length: n` line, the header announces `n`, whatever follows.
pub proof fn lemma_content_length_after_any_fields(
    request_line: Seq<char>,
    fields: Seq<Seq<char>>,
    n: nat,
    rest: Seq<char>,
)
    requires
        no_cr(request_line),
        forall|k: int| 0 <= k < fields.len() ==> no_cr(#[trigger] fields[k]),
        forall|k: int| 0 <= k < fields.len() ==> line_content_length(#[trigger] fields[k]) is None,
        n <= usize::MAX,
    ensures
        header_content_length(
            request_line + seq!['\r', '\n'] + crlf_lines(fields) + ("Content-Length: "@ + decimal(
                n,
            )) + seq!['\r', '\n'] + rest,
        ) == n,
{
    reveal_strlit("Content-Length: ");
    crate::text::lemma_decimal_digits(n);
    let cl = "Content-Length: "@ + decimal(n);
    assert(no_cr(cl)) by {
        assert forall|i: int| 0 <= i < cl.len() implies cl[i] != '\r' by {
            if i >= 16 {
                assert(cl[i] == decimal(n)[i - 16]);
                assert(crate::text::is_digit(decimal(n)[i - 16]));
            }
        }
    }
    let after = cl + seq!['\r', '\n'] + rest;
    let body = crlf_lines(fields) + after;
    let text = request_line + seq!['\r', '\n'] + body;
    assert(text =~= request_line + seq!['\r', '\n'] + crlf_lines(fields) + cl + seq!['\r', '\n']
        + rest);
    lemma_line_end(request_line, body);
    lemma_fields_shift(text, request_line.len() + 2int, request_line.len() + 2int);
    lemma_fields_after_lines(fields, after);
    lemma_line_end(cl, rest);
    lemma_content_length_line(n);
}

/// A `POST` request with its `Content-Length` is read back as it was sent:
/// the header ends at its blank line, the request line is `POST <target>
/// HTTP/1.1`, and the body is the announced bytes, for every ASCII target
/// without line breaks whose header fits in `MAX_HEADER_BYTES`, and every
/// body (whatever follows the body is left unread). The request comes back
/// whenever a header that is valid UTF-8 is decoded as it stands, which
/// `read_http_request` and `bytes_wanted` ensure.
pub proof fn lemma_post_request_read_back(target: Seq<char>, body: Seq<u8>, rest: Seq<u8>)
    requires
        vstd::utf8::is_ascii_chars(target),
        forall|i: int| 0 <= i < target.len() ==> target[i] != '\r' && target[i] != '\n',
        post_header_text(target, body.len()).len() <= MAX_HEADER_BYTES,
        body.len() <= usize::MAX,
    ensures
        ({
            let text = post_header_text(target, body.len());
            let input = encode_utf8(text) + body + rest;
            &&& header_end(input) == Some(text.len() as int)
            &&& request_line(text) == "POST "@ + target + " HTTP/1.1"@
            &&& header_content_length(text) == body.len()
            &&& (valid_utf8(input.take(text.len() as int)) ==> utf8_lossy(
                input.take(text.len() as int),
            ) == decode_utf8(input.take(text.len() as int))) ==> http_request_of(input) == Some(
                ("POST "@ + target + " HTTP/1.1"@, body),
            )
        }),
{
    reveal_strlit("POST ");
    reveal_strlit(" HTTP/1.1\r\nContent-Length: ");
    reveal_strlit(" HTTP/1.1");
    reveal_strlit("\r\n\r\n");
    reveal_strlit("Content-Length: ");
    let n = body.len();
    let d = decimal(n);
    crate::text::lemma_decimal_digits(n);
    let t: int = target.len() as int;
    let text = post_header_text(target, n);
    let p2: int = 5 + t;
    let e0: int = p2 + 9;
    let p3: int = p2 + 27 + d.len();
    assert(text.len() == p3 + 4);
    // Where the carriage returns are.
    assert forall|i: int| 0 <= i < text.len() && text[i] == '\r' implies i == e0 || i == p3 || i
        == p3 + 2 by {
        if i < 5 {
        } else if i < p2 {
            assert(text[i] == target[i - 5]);
        } else if i < p2 + 27 {
        } else if i < p3 {
            assert(text[i] == d[i - p2 - 27]);
            assert(crate::text::is_digit(d[i - p2 - 27]));
        }
    }
    assert(vstd::utf8::is_ascii_chars(text)) by {
        assert forall|i: int| 0 <= i < text.len() implies '\0' <= #[trigger] text[i] <= '\u{7f}' by {
            if i < 5 {
            } else if i < p2 {
                assert(text[i] == target[i - 5]);
            } else if i < p2 + 27 {
            } else if i < p3 {
                assert(text[i] == d[i - p2 - 27]);
                assert(crate::text::is_digit(d[i - p2 - 27]));
            }
        }
    }
    vstd::utf8::is_ascii_chars_encode_utf8(text);
    vstd::utf8::encode_utf8_valid_utf8(text);
    vstd::utf8::encode_utf8_decode_utf8(text);
    let bytes = encode_utf8(text);
    let input = bytes + body + rest;
    assert(input.take(text.len() as int) =~= bytes);
    // The header ends at the blank line and nowhere before.
    assert(text[p3] == '\r' && text[p3 + 1] == '\n' && text[p3 + 2] == '\r' && text[p3 + 3] == '\n');
    assert(text[e0 + 2] == 'C');
    assert forall|i: int| 0 <= i < text.len() implies (input[i] == 13u8 <==> text[i] == '\r')
        && (input[i] == 10u8 <==> text[i] == '\n') by {
        assert(input[i] == bytes[i]);
        assert(bytes[i] == text[i] as u8);
    }
    assert forall|i: int| 0 <= i < text.len() as int implies !ends_with_blank_line(input, i) by {
        if ends_with_blank_line(input, i) {
            assert(text[i - 4] == '\r');
            assert(text[i - 2] == '\r');
        }
    }
    lemma_scan_header_end(input, 0, text.len() as int);
    // The request line ends at the first line break.
    lemma_scan_next_crlf(text, 0, e0);
    assert(request_line(text) =~= "POST "@ + target + " HTTP/1.1"@);
    // The next line announces the body length.
    lemma_scan_next_crlf(text, e0 + 2, p3);
    assert(text.subrange(e0 + 2, p3) =~= "Content-Length: "@ + d);
    lemma_content_length_line(n);
    assert(header_content_length(text) == n);
    assert(input.subrange(text.len() as int, (text.len() + n) as int) =~= body);
}

/// Minimal HTTP/1.1 request reader over the bytes of a connection: the header
/// (request line, header fields, blank line) is read byte by byte, then
/// exactly as many body bytes as the first parsable `Content-Length` field
/// (name in any ASCII case) announces, 0 without one. Returns the request line
/// and the body; `None` when the header is cut off or longer than
/// `MAX_HEADER_BYTES` allows, or the body is incomplete. A header that is
/// valid UTF-8 is decoded as it stands.
pub fn read_http_request(input: &[u8]) -> (r: Option<(String, Vec<u8>)>)
    ensures
        match http_request_of(input@) {
            None => r is None,
            Some((line, body)) => r matches Some((l, b)) && l@ == line && b@ == body,
        },
        header_end(input@) matches Some(k) ==> (valid_utf8(input@.take(k)) ==> utf8_lossy(
            input@.take(k),
        ) == decode_utf8(input@.take(k))),
{
    let k = match find_header_end(input) {
        None => return None,
        Some(k) => k,
    };
    let mut header: Vec<u8> = Vec::new();
    let mut i: usize = 0;
    while i < k
        invariant
            k <= input.len(),
            i <= k,
            header@ == input@.take(i as int),
        decreases k - i,
    {
        header.push(input[i]);
        assert(input@.take(i + 1) =~= input@.take(i as int).push(input@[i as int]));
        i = i + 1;
    }
    let text = decode_utf8_lossy(header.as_slice());
    let (request_line, content_length) = parse_header_text(&text);
    if input.len() - k < content_length {
        return None;
    }
    let mut body: Vec<u8> = Vec::new();
    let mut j: usize = 0;
    while j < content_length
        invariant
            k + content_length <= input.len(),
            j <= content_length,
            body@ == input@.subrange(k as int, k + j),
        decreases content_length - j,
    {
        body.push(input[k + j]);
        assert(input@.subrange(k as int, k + j + 1) =~= input@.subrange(k as int, k + j).push(
            input@[k + j],
        ));
        j = j + 1;
    }
    Some((request_line, body))
}

/// How long an HTTP handler waits for the server to answer before giving up,
/// in seconds.
pub const SIDECAR_TIMEOUT_SECS: u64 = 90;

/// Id prefix for injected requests. Zed's LSP client uses numeric ids, so a
/// string id can never collide with client traffic on the same connection.
pub const ID_PREFIX: &'static str = "$proxy-";

/// The id of the `n`-th injected request: `$proxy-<n>`.
pub open spec fn injected_id_spec(n: nat) -> Seq<char> {
    ID_PREFIX@ + decimal(n)
}

/// The id given to the `n`-th request the sidecar injects.
pub fn injected_id(n: u64) -> (r: String)
    ensures
        r@ == injected_id_spec(n as nat),
{
    let mut r = String::from_str(ID_PREFIX);
    let digits = decimal_string(n);
    r.append(digits.as_str());
    r
}

/// Whether `id` is the id of an injected request.
pub open spec fn is_injected_id(id: Seq<char>) -> bool {
    exists|n: nat| n <= u64::MAX && #[trigger] injected_id_spec(n) == id
}

/// The number of the injected request whose id is `id`.
pub open spec fn injected_number(id: Seq<char>) -> nat {
    choose|n: nat| n <= u64::MAX && #[trigger] injected_id_spec(n) == id
}

proof fn lemma_prefix_chars()
    ensures
        ID_PREFIX@ == seq!['$', 'p', 'r', 'o', 'x', 'y', '-'],
{
    reveal_strlit("$proxy-");
}

/// Different requests get different ids.
pub proof fn lemma_injected_id_injective(m: nat, n: nat)
    requires
        m <= u64::MAX,
        n <= u64::MAX,
        injected_id_spec(m) == injected_id_spec(n),
    ensures
        m == n,
{
    let a = injected_id_spec(m);
    assert(a.skip(ID_PREFIX@.len() as int) =~= decimal(m));
    assert(injected_id_spec(n).skip(ID_PREFIX@.len() as int) =~= decimal(n));
    lemma_parse_decimal(m, u64::MAX as int);
    lemma_parse_decimal(n, u64::MAX as int);
}

/// Hands out the numbers of injected requests, 0, 1, 2, … in order,
/// wrapping after `u64::MAX` as `AtomicU64::fetch_add` does. `issued` counts
/// the numbers handed out so far.
pub struct InjectedIds {
    next: u64,
    issued: Ghost<nat>,
}

impl InjectedIds {
    #[verifier::type_invariant]
    spec fn counts(self) -> bool {
        self.next == self.issued@ % 0x1_0000_0000_0000_0000
    }

    /// How many numbers were handed out.
    pub closed spec fn issued(self) -> nat {
        self.issued@
    }

    /// A counter that has handed out nothing.
    pub fn new() -> (r: Self)
        ensures
            r.issued() == 0,
    {
        InjectedIds { next: 0, issued: Ghost(0) }
    }

    /// The number for the next injected request: the count of numbers handed
    /// out before it, modulo 2^64 (so the count itself until it passes
    /// `u64::MAX`).
    pub fn issue(&mut self) -> (n: u64)
        ensures
            final(self).issued() == old(self).issued() + 1,
            n == old(self).issued() % 0x1_0000_0000_0000_0000,
            old(self).issued() <= u64::MAX ==> n == old(self).issued(),
    {
        proof {
            use_type_invariant(&*self);
            let c = self.issued@ as int;
            let m: int = 0x1_0000_0000_0000_0000;
            vstd::arithmetic::div_mod::lemma_add_mod_noop(c, 1, m);
            vstd::arithmetic::div_mod::lemma_small_mod(1, m as nat);
            if self.next < u64::MAX {
                vstd::arithmetic::div_mod::lemma_small_mod((self.next + 1) as nat, m as nat);
            } else {
                vstd::arithmetic::div_mod::lemma_mod_self_0(m);
            }
            if c <= u64::MAX {
                vstd::arithmetic::div_mod::lemma_small_mod(c as nat, m as nat);
            }
        }
        let n = self.next;
        let next = if n == u64::MAX {
            0
        } else {
            n + 1
        };
        let ghost issued = self.issued@ + 1;
        *self = InjectedIds { next, issued: Ghost(issued) };
        n
    }
}

/// Injected ids never repeat: the requests numbered by the first 2^64 issues
/// of an `InjectedIds` get pairwise different ids, and none of them is a
/// number (every one starts with `$proxy-`).
pub proof fn lemma_injected_ids_never_repeat(a: nat, b: nat)
    requires
        a < b <= u64::MAX,
    ensures
        injected_id_spec(a) != injected_id_spec(b),
        injected_id_spec(a)[0] == '$',
{
    if injected_id_spec(a) == injected_id_spec(b) {
        lemma_injected_id_injective(a, b);
    }
    lemma_prefix_chars();
    assert(injected_id_spec(a)[0] == ID_PREFIX@[0]);
}

/// The number of the injected request with id `id`, if `id` is one.
fn parse_injected_id(id: &str) -> (r: Option<u64>)
    ensures
        match r {
            Some(n) => injected_id_spec(n as nat) == id@,
            None => !is_injected_id(id@),
        },
{
    proof {
        lemma_prefix_chars();
    }
    let chars = chars_of(id);
    let prefix: [char; 7] = ['$', 'p', 'r', 'o', 'x', 'y', '-'];
    assert(prefix@ =~= ID_PREFIX@);
    if chars.len() < 7 {
        proof {
            if is_injected_id(id@) {
                let n = injected_number(id@);
                crate::text::lemma_decimal_digits(n);
            }
        }
        return None;
    }
    let mut i: usize = 0;
    while i < 7
        invariant
            chars@ == id@,
            chars.len() >= 7,
            prefix@ == ID_PREFIX@,
            i <= 7,
            forall|j: int| 0 <= j < i ==> chars@[j] == prefix@[j],
        decreases 7 - i,
    {
        if chars[i] != prefix[i] {
            proof {
                if is_injected_id(id@) {
                    let n = injected_number(id@);
                    assert(injected_id_spec(n)[i as int] == prefix@[i as int]);
                }
            }
            return None;
        }
        i = i + 1;
    }
    assert(chars@.take(7) =~= ID_PREFIX@);
    let ghost digits = chars@.skip(7);
    assert(chars@ =~= ID_PREFIX@ + digits);
    match parse_decimal(&chars, 7, chars.len(), u64::MAX) {
        Err(_) => {
            proof {
                assert(chars@.subrange(7, chars.len() as int) =~= digits);
                if is_injected_id(id@) {
                    let n = injected_number(id@);
                    assert(injected_id_spec(n).skip(7) =~= decimal(n));
                    assert(decimal(n) =~= digits);
                    lemma_parse_decimal(n, u64::MAX as int);
                    lemma_decimal_plain(n);
                }
            }
            None
        },
        Ok(v) => {
            let canonical = decimal_chars(v);
            let same = same_chars_from(&canonical, &chars, 7);
            proof {
                assert(chars@.subrange(7, chars.len() as int) =~= digits);
            }
            if same {
                assert(injected_id_spec(v as nat) =~= id@);
                Some(v)
            } else {
                proof {
                    if is_injected_id(id@) {
                        let n = injected_number(id@);
                        assert(injected_id_spec(n).skip(7) =~= decimal(n));
                        assert(decimal(n) =~= digits);
                        lemma_parse_decimal(n, u64::MAX as int);
                        lemma_decimal_plain(n);
                    }
                }
                None
            }
        },
    }
}

proof fn lemma_decimal_plain(n: nat)
    ensures
        decimal(n).len() >= 1,
        decimal(n)[0] != '+',
        decimal(n)[0] != '-',
{
    crate::text::lemma_decimal_digits(n);
    assert(crate::text::is_digit(decimal(n)[0]));
}

fn same_chars_from(a: &Vec<char>, b: &Vec<char>, start: usize) -> (r: bool)
    requires
        start <= b.len(),
    ensures
        r == (a@ == b@.skip(start as int)),
{
    if b.len() - start != a.len() {
        proof {
            if a@ == b@.skip(start as int) {
                assert(a@.len() == b@.skip(start as int).len());
            }
        }
        return false;
    }
    let mut i: usize = 0;
    while i < a.len()
        invariant
            start <= b.len(),
            b.len() - start == a.len(),
            i <= a.len(),
            forall|j: int| 0 <= j < i ==> a@[j] == b@[start + j],
        decreases a.len() - i,
    {
        if a[i] != b[start + i] {
            proof {
                if a@ == b@.skip(start as int) {
                    assert(b@.skip(start as int)[i as int] == b@[start + i]);
                }
            }
            return false;
        }
        i = i + 1;
    }
    assert(a@ =~= b@.skip(start as int));
    true
}

/// In-flight sidecar requests waiting for their response, by the number of
/// their injected id; `T` is what a waiter is reached through.
pub struct PendingSidecar<T> {
    waiters: HashMap<u64, T>,
}

impl<T> View for PendingSidecar<T> {
    type V = Map<u64, T>;

    closed spec fn view(&self) -> Map<u64, T> {
        self.waiters@
    }
}

impl<T> PendingSidecar<T> {
    /// A table with no request waiting.
    pub fn new() -> (r: Self)
        ensures
            r@ == Map::<u64, T>::empty(),
    {
        PendingSidecar { waiters: HashMap::new() }
    }

    /// Records that the `n`-th injected request waits for its response through
    /// `waiter`.
    pub fn register(&mut self, n: u64, waiter: T)
        ensures
            final(self)@ == old(self)@.insert(n, waiter),
    {
        broadcast use vstd::std_specs::hash::group_hash_axioms;

        self.waiters.insert(n, waiter);
    }

    /// Takes the `n`-th injected request out of the table (its write failed
    /// or it timed out), returning its waiter if it was still there.
    pub fn withdraw(&mut self, n: u64) -> (r: Option<T>)
        ensures
            final(self)@ == old(self)@.remove(n),
            match r {
                Some(w) => old(self)@.contains_key(n) && w == old(self)@[n],
                None => !old(self)@.contains_key(n),
            },
    {
        broadcast use vstd::std_specs::hash::group_hash_axioms;

        self.waiters.remove(&n)
    }

    /// Number of requests waiting.
    pub fn len(&self) -> (r: usize)
        ensures
            r == self@.len(),
    {
        broadcast use vstd::std_specs::hash::group_hash_axioms;

        self.waiters.len()
    }

    /// Whether no request is waiting.
    pub fn is_empty(&self) -> (r: bool)
        ensures
            r == (self@.len() == 0),
    {
        self.len() == 0
    }
}

/// If `id` (the string id of a message from the server, if it has one) is
/// the id of an injected request that is waiting, takes that request out of
/// the table and returns its waiter: the caller hands it the response, and
/// must not forward the response to Zed. Anything else leaves the table as it
/// is and returns `None`.
pub fn route_reply<T>(id: Option<&str>, pending: &mut PendingSidecar<T>) -> (r: Option<T>)
    ensures
        match id {
            Some(s) if is_injected_id(s@) && old(pending)@.contains_key(
                injected_number(s@) as u64,
            ) => {
                &&& r == Some(old(pending)@[injected_number(s@) as u64])
                &&& final(pending)@ == old(pending)@.remove(injected_number(s@) as u64)
            },
            _ => r is None && final(pending)@ == old(pending)@,
        },
{
    let s = match id {
        None => return None,
        Some(s) => s,
    };
    match parse_injected_id(s) {
        None => None,
        Some(n) => {
            proof {
                let m = injected_number(s@);
                assert(is_injected_id(s@));
                lemma_injected_id_injective(m, n as nat);
            }
            pending.withdraw(n)
        },
    }
}

/// The response to the `n`-th injected request reaches the waiter
/// registered for it: its id is recognised as that request's, the waiter is
/// the one handed over, and only that entry leaves the table.
pub proof fn lemma_reply_reaches_registered<T>(table: Map<u64, T>, n: u64, waiter: T)
    ensures
        is_injected_id(injected_id_spec(n as nat)),
        injected_number(injected_id_spec(n as nat)) as u64 == n,
        table.insert(n, waiter).contains_key(n),
        table.insert(n, waiter)[n] == waiter,
        table.insert(n, waiter).remove(n) == table.remove(n),
{
    let id = injected_id_spec(n as nat);
    assert(injected_id_spec(n as nat) == id);
    let m = injected_number(id);
    lemma_injected_id_injective(m, n as nat);
    assert(table.insert(n, waiter).remove(n) =~= table.remove(n));
}

/// Removes all pending sidecar entries, dropping the waiters so that waiting
/// HTTP handlers fail fast instead of blocking until their timeout. Called
/// when the server's output ends (server died or client went away).
pub fn fail_all<T>(pending: &mut PendingSidecar<T>)
    ensures
        final(pending)@ == Map::<u64, T>::empty(),
{
    pending.waiters.clear();
}

/// The JSON-RPC `error` object of a sidecar answer that the sidecar itself
/// produces: `{"code": code, "message": message}`.
pub struct ErrorBody {
    pub code: i64,
    pub message: String,
}

/// The body of an HTTP answer of the sidecar: `{"result": ...}` or
/// `{"error": ...}`. `V` is the JSON value type.
pub enum Envelope<V> {
    /// `{"result": value}`; `None` is the JSON `null`.
    Result(Option<V>),
    /// `{"error": value}`, the server's error object as it came.
    Error(V),
    /// `{"error": {"code": .., "message": ..}}` from the sidecar itself.
    Failure(ErrorBody),
}

/// Maps a language server response (its `error` and `result` members) to the
/// HTTP status and `{"result"|"error": ...}` envelope the extension parses.
/// LSP errors already have the `{code, message, data}` shape expected there,
/// so they pass through untouched; a response without a result answers an
/// explicit `null`, so callers never parse an empty object.
pub fn envelope_for<V>(error: Option<V>, result: Option<V>) -> (r: (u16, Envelope<V>))
    ensures
        r.0 == 200,
        match error {
            Some(e) => r.1 == Envelope::Error(e),
            None => r.1 == Envelope::<V>::Result(result),
        },
{
    match error {
        Some(e) => (200, Envelope::Error(e)),
        None => (200, Envelope::Result(result)),
    }
}

/// Whether `line` begins with `POST`.
pub open spec fn is_post(line: Seq<char>) -> bool {
    line.len() >= 4 && line.take(4) == seq!['P', 'O', 'S', 'T']
}

/// The answer to an HTTP request the sidecar does not serve: a request that
/// could not be read gets 400 with JSON-RPC code -32600, a request that is not
/// a `POST` gets 405 with code -32601; a `POST` is served (`None`).
pub fn reject_http_request(request_line: Option<&String>) -> (r: Option<(u16, ErrorBody)>)
    ensures
        match request_line {
            None => r matches Some((status, body)) && status == 400 && body.code == -32600
                && body.message@ == "malformed HTTP request"@,
            Some(line) => if is_post(line@) {
                r is None
            } else {
                r matches Some((status, body)) && status == 405 && body.code == -32601
                    && body.message@ == "POST only"@
            },
        },
{
    match request_line {
        None => Some(
            (400, ErrorBody { code: -32600, message: String::from_str("malformed HTTP request") }),
        ),
        Some(line) => {
            let chars = chars_of(line.as_str());
            if chars.len() >= 4 && chars[0] == 'P' && chars[1] == 'O' && chars[2] == 'S'
                && chars[3] == 'T' {
                assert(chars@.take(4) =~= seq!['P', 'O', 'S', 'T']);
                None
            } else {
                proof {
                    if is_post(line@) {
                        assert(line@.take(4)[0] == 'P');
                        assert(line@.take(4)[1] == 'O');
                        assert(line@.take(4)[2] == 'S');
                        assert(line@.take(4)[3] == 'T');
                    }
                }
                Some((405, ErrorBody { code: -32601, message: String::from_str("POST only") }))
            }
        },
    }
}

/// The answer to a `POST` body the sidecar cannot forward: one that is not
/// JSON gets 400 with code -32700; one without a string `method` gets 400 with
/// code -32600. `None`: the body names a method and is forwarded.
pub fn reject_lsp_body(is_json: bool, has_method: bool) -> (r: Option<(u16, ErrorBody)>)
    ensures
        !is_json ==> (r matches Some((status, body)) && status == 400 && body.code == -32700
            && body.message@ == "malformed JSON body"@),
        is_json && !has_method ==> (r matches Some((status, body)) && status == 400 && body.code
            == -32600 && body.message@ == "missing string \"method\" field"@),
        is_json && has_method ==> r is None,
{
    if !is_json {
        Some((400, ErrorBody { code: -32700, message: String::from_str("malformed JSON body") }))
    } else if !has_method {
        Some(
            (
                400,
                ErrorBody {
                    code: -32600,
                    message: String::from_str("missing string \"method\" field"),
                },
            ),
        )
    } else {
        None
    }
}

/// Names what `serde_json::from_slice` makes of a request body, read for its
/// `method`: `None` when the body is not JSON, else the `method` member if it
/// is a string.
pub uninterp spec fn json_method(body: Seq<u8>) -> Option<Option<Seq<char>>>;

/// `serde_json::from_slice` on a request body into a JSON value, then its
/// `method` member if that is a string. Claimed: the result is
/// `json_method(body)`, a function of the bytes alone.
#[verifier::external_body]
fn parse_method(body: &[u8]) -> (r: Option<Option<String>>)
    ensures
        match r {
            None => json_method(body@) is None,
            Some(None) => json_method(body@) == Some(None::<Seq<char>>),
            Some(Some(m)) => json_method(body@) == Some(Some(m@)),
        },
{
    serde_json::from_slice::<serde_json::Value>(body).ok().map(
        |v| v.get("method").and_then(|m| m.as_str()).map(|m| m.to_string()),
    )
}

/// Reads the `method` of a `POST` body to forward, or the answer when the
/// body cannot be forwarded (see `reject_lsp_body`): not JSON, or no string
/// `method`.
pub fn check_lsp_body(body: &[u8]) -> (r: Result<String, (u16, ErrorBody)>)
    ensures
        match json_method(body@) {
            None => r matches Err((status, b)) && status == 400 && b.code == -32700
                && b.message@ == "malformed JSON body"@,
            Some(None) => r matches Err((status, b)) && status == 400 && b.code == -32600
                && b.message@ == "missing string \"method\" field"@,
            Some(Some(m)) => r matches Ok(s) && s@ == m,
        },
{
    let parsed = parse_method(body);
    let (is_json, has_method) = match &parsed {
        None => (false, false),
        Some(None) => (true, false),
        Some(Some(_)) => (true, true),
    };
    match reject_lsp_body(is_json, has_method) {
        Some(answer) => Err(answer),
        None => match parsed {
            Some(Some(m)) => Ok(m),
            _ => Err(
                (400, ErrorBody { code: -32600, message: String::from_str("missing string \"method\" field") }),
            ),
        },
    }
}

/// The answer when the forwarded request gets no response: 504 with code
/// -32000 and the reason.
pub fn roundtrip_failure(reason: String) -> (r: (u16, ErrorBody))
    ensures
        r.0 == 504,
        r.1.code == -32000,
        r.1.message@ == reason@,
{
    (504, ErrorBody { code: -32000, message: reason })
}

/// Why a forwarded request got no response in time.
pub fn timeout_message(method: &str) -> (r: String)
    ensures
        r@ == "timeout waiting for LSP response to "@ + method@,
{
    let mut r = String::from_str("timeout waiting for LSP response to ");
    r.append(method);
    r
}

/// The HTTP/1.1 response carrying `payload` with `status`.
pub open spec fn http_response_spec(status: u16, payload: Seq<char>) -> Seq<char> {
    "HTTP/1.1 "@ + decimal(status as nat) + "\r\nContent-Type: application/json\r\nContent-Length: "@
        + decimal(encode_utf8(payload).len()) + "\r\nConnection: close\r\n\r\n"@ + payload
}

/// Frames `payload` (JSON text) as the HTTP response with `status`: status
/// line, JSON content type, the payload's length in UTF-8 bytes, and
/// `Connection: close`.
pub fn http_response(status: u16, payload: &str) -> (r: String)
    ensures
        r@ == http_response_spec(status, payload@),
{
    let mut r = String::from_str("HTTP/1.1 ");
    let code = decimal_string(status as u64);
    r.append(code.as_str());
    r.append("\r\nContent-Type: application/json\r\nContent-Length: ");
    let n = payload.as_bytes().len();
    assert(n == encode_utf8(payload@).len());
    let len = decimal_string(n as u64);
    r.append(len.as_str());
    r.append("\r\nConnection: close\r\n\r\n");
    r.append(payload);
    assert(r@ =~= http_response_spec(status, payload@));
    r
}

} // verus!
