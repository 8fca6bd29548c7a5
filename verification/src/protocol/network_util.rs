//! What is said to the hub and to the backend: the control lines, the frames
//! read from the hub, the request made of the backend and the chunked
//! response streamed back.

use crate::frame::{decode, decoded, encode, encoded, read_length, FrameError, PREFIX_LEN};
use crate::messages::headers::Header;
use crate::messages::proxy_message::{model_of, parse_message, ProxyMessage};
use crate::messages::render::{lemma_parse_rendered, rendered};
use crate::protocol::state::{set_reboot, set_shutdown, NodeState};
use crate::text::{
    chars_of, decimal, decode_lossy, decode_strict, first_match, hex_upper, lemma_first_match,
    lemma_first_match_is, lower, lower_equals, push_bytes, push_decimal, push_hex_upper, push_str,
    push_utf8, remove_newlines, same_text, string_from_chars, utf8_lossy, utf8_of, without_newlines,
};
use vstd::utf8::{decode_utf8, encode_utf8, valid_utf8};
use vstd::prelude::*;

verus! {

/// The line that authenticates a node: its key, its nonce, its own version
/// and the version of its backend.
pub open spec fn auth_line(
    key: Seq<char>,
    nonce: u64,
    node_version: Seq<char>,
    ollama_version: Seq<char>,
) -> Seq<char> {
    "AUTH "@ + key + ";"@ + decimal(nonce as nat) + ";"@ + node_version + ";"@ + ollama_version
        + " HIVE\r\n"@
}

/// The line that polls for work: for the models of `target`, or, once the
/// hub knows them, for its own order of them.
pub open spec fn poll_line(target: Seq<char>, optimized: bool) -> Seq<char> {
    if optimized {
        "POLL - HIVE\r\n"@
    } else {
        "POLL "@ + target + " HIVE\r\n"@
    }
}

/// A control line as it goes over the wire: the four-byte big-endian length
/// of its UTF-8 bytes, then those bytes. A line too long for the length
/// prefix has no frame.
pub open spec fn framed(line: Seq<char>) -> Option<Seq<u8>> {
    if encode_utf8(line).len() <= u32::MAX {
        Some(encoded(encode_utf8(line)))
    } else {
        None
    }
}

/// The bytes of a frame, if there is one, as a mathematical value.
pub open spec fn frame_view(frame: Option<Vec<u8>>) -> Option<Seq<u8>> {
    match frame {
        Some(bytes) => Some(bytes@),
        None => None,
    }
}

/// Puts a control line in its frame.
fn frame_line(line: &Vec<char>) -> (frame: Option<Vec<u8>>)
    ensures
        frame_view(frame) == framed(line@),
{
    let bytes = utf8_of(line);
    encode(&bytes)
}

/// Writes the frame that authenticates this node to the hub: the length
/// prefix, then the line.
pub fn authenticate(key: &str, nonce: u64, node_version: &str, ollama_version: &str) -> (frame:
    Option<Vec<u8>>)
    ensures
        frame_view(frame) == framed(auth_line(key@, nonce, node_version@, ollama_version@)),
{
    let mut out: Vec<char> = Vec::new();
    push_str(&mut out, "AUTH ");
    push_str(&mut out, key);
    push_str(&mut out, ";");
    push_decimal(&mut out, nonce);
    push_str(&mut out, ";");
    push_str(&mut out, node_version);
    push_str(&mut out, ";");
    push_str(&mut out, ollama_version);
    push_str(&mut out, " HIVE\r\n");
    assert(out@ =~= auth_line(key@, nonce, node_version@, ollama_version@));
    frame_line(&out)
}

/// Writes the frame that polls the hub for work: the length prefix, then
/// the line.
pub fn poll(model_name: &str, optimized_polling_sequence: bool) -> (frame: Option<Vec<u8>>)
    ensures
        frame_view(frame) == framed(poll_line(model_name@, optimized_polling_sequence)),
{
    let mut out: Vec<char> = Vec::new();
    if optimized_polling_sequence {
        push_str(&mut out, "POLL - HIVE\r\n");
        assert(out@ =~= poll_line(model_name@, true));
    } else {
        push_str(&mut out, "POLL ");
        push_str(&mut out, model_name);
        push_str(&mut out, " HIVE\r\n");
        assert(out@ =~= poll_line(model_name@, false));
    }
    frame_line(&out)
}

/// The version of the backend to report: the one it gave, or `Unknown`.
pub fn get_ollama_version(reported: Option<String>) -> (version: String)
    ensures
        version@ == (match reported {
            Some(v) => v@,
            None => "Unknown"@,
        }),
{
    match reported {
        Some(v) => v,
        None => "Unknown".to_owned(),
    }
}

/// What a control frame asks of the session beyond the flags it sets.
#[derive(Clone, Copy, Debug, PartialEq, Eq, Structural)]
pub enum ControlAction {
    /// Nothing.
    Continue,
    /// Replace the backend, then answer the hub.
    UpgradeBackend,
}

/// Carries out a control frame.
///
/// `REBOOT` sets the reboot flag, `SHUTDOWN` the shutdown flag, and
/// `UPDATE_OLLAMA` asks for the replacement of the backend. `PONG` and any
/// other verb change nothing.
pub fn handle_hive_request(request: &ProxyMessage, state: &mut NodeState) -> (action:
    ControlAction)
    ensures
        *final(state) == (NodeState {
            reboot: old(state).reboot || request@.method == "REBOOT"@,
            shutdown: old(state).shutdown || request@.method == "SHUTDOWN"@,
            ..*old(state)
        }),
        action == (if request@.method == "UPDATE_OLLAMA"@ {
            ControlAction::UpgradeBackend
        } else {
            ControlAction::Continue
        }),
{
    if same_text(request.method.as_str(), "REBOOT") {
        set_reboot(state, true);
    }
    if same_text(request.method.as_str(), "SHUTDOWN") {
        set_shutdown(state, true);
    }
    if same_text(request.method.as_str(), "UPDATE_OLLAMA") {
        ControlAction::UpgradeBackend
    } else {
        ControlAction::Continue
    }
}

/// The answer to the hub once the replacement of the backend was tried,
/// however it ended: an empty chunked response with status `200`.
pub fn handle_ollama_update() -> (reply: String)
    ensures
        reply@ == "HTTP/1.1 200 OK\r\nTransfer-Encoding: chunked\r\nConnection: close\r\n\r\n0\r\n\r\n"@,
{
    "HTTP/1.1 200 OK\r\nTransfer-Encoding: chunked\r\nConnection: close\r\n\r\n0\r\n\r\n".to_owned()
}

/// The length of the payload that the frame at the start of `bytes`
/// announces.
pub fn read_next_message_length(bytes: &Vec<u8>) -> (length: Result<usize, FrameError>)
    ensures
        bytes.len() < PREFIX_LEN ==> length == Err::<usize, FrameError>(FrameError::MalformedFrame),
        bytes.len() >= PREFIX_LEN ==> length is Ok && length->Ok_0 as nat == crate::frame::be_value(
            bytes@.take(PREFIX_LEN as int),
        ),
{
    match read_length(bytes) {
        Ok(n) => Ok(n as usize),
        Err(e) => Err(e),
    }
}

/// Reads the frame at the start of `bytes` as a message of the hub: the
/// message, and the number of bytes that the frame takes up. A payload of
/// valid UTF-8 is read as the text that it encodes; bytes that are no valid
/// UTF-8 are read as `String::from_utf8_lossy` reads them.
pub fn read_next_message(bytes: &Vec<u8>) -> (message: Result<(ProxyMessage, usize), FrameError>)
    ensures
        match decoded(bytes@) {
            None => message is Err && message->Err_0 == FrameError::MalformedFrame,
            Some((payload, rest)) => message matches Ok((m, used)) && m@ == parse_message(
                utf8_lossy(payload),
            ) && (valid_utf8(payload) ==> m@ == parse_message(decode_utf8(payload)))
                && m.headers.wf() && used == bytes.len() - rest.len(),
        },
{
    match decode(bytes) {
        Ok((payload, used)) => {
            let raw_request = decode_lossy(&payload);
            Ok((ProxyMessage::from(raw_request), used))
        },
        Err(e) => Err(e),
    }
}

/// Writes a message in its frame: the length prefix, then the text of the
/// message. A message too long for the length prefix has no frame.
pub fn write_next_message(message: &ProxyMessage) -> (frame: Option<Vec<u8>>)
    ensures
        frame_view(frame) == framed(rendered(*message)),
{
    let text = message.to_text();
    let chars = chars_of(text.as_str());
    frame_line(&chars)
}

/// A writable message, written in its frame and read back, is the message,
/// and the frame is used up: what `read_next_message` reads from what
/// `write_next_message` writes.
pub proof fn lemma_read_written(message: ProxyMessage)
    requires
        message.writable(),
        framed(rendered(message)) is Some,
    ensures
        decoded(framed(rendered(message))->0) == Some(
            (encode_utf8(rendered(message)), Seq::<u8>::empty()),
        ),
        valid_utf8(encode_utf8(rendered(message))),
        parse_message(decode_utf8(encode_utf8(rendered(message)))) == message@,
{
    let payload = encode_utf8(rendered(message));
    crate::frame::lemma_decode_encode(payload, Seq::<u8>::empty());
    vstd::utf8::encode_utf8_valid_utf8(rendered(message));
    vstd::utf8::encode_utf8_decode_utf8(rendered(message));
    lemma_parse_rendered(message);
}

/// Seconds that the backend is given to answer a relayed request.
pub const REQUEST_TIMEOUT_SECS: u64 = 1800;

/// Longest name of a header field, in bytes.
pub const MAX_HEADER_NAME_LEN: usize = 65535;

/// Whether a byte is a token character of HTTP: a letter, a digit or one of
/// ``!#$%&'*+-.^_`|~``.
pub open spec fn is_token_byte(b: u8) -> bool {
    ||| b == 33
    ||| 35 <= b <= 39
    ||| b == 42
    ||| b == 43
    ||| b == 45
    ||| b == 46
    ||| 48 <= b <= 57
    ||| 65 <= b <= 90
    ||| 94 <= b <= 122
    ||| b == 124
    ||| b == 126
}

/// Whether every byte is a token character.
pub open spec fn is_token(bytes: Seq<u8>) -> bool {
    forall|i: int| 0 <= i < bytes.len() ==> is_token_byte(#[trigger] bytes[i])
}

/// Whether a text is the name of a header field: between one and 65535
/// bytes, each a token character.
pub open spec fn http_header_name(name: Seq<char>) -> bool {
    1 <= encode_utf8(name).len() <= MAX_HEADER_NAME_LEN && is_token(encode_utf8(name))
}

/// Whether a text is the value of a header field: no byte of it is a
/// control character other than a tab.
pub open spec fn http_header_value(value: Seq<char>) -> bool {
    forall|i: int|
        0 <= i < encode_utf8(value).len() ==> {
            let b = #[trigger] encode_utf8(value)[i];
            (b >= 32 && b != 127) || b == 9
        }
}

/// Whether a text is a request method: at least one byte, each a token
/// character.
pub open spec fn http_method(method: Seq<char>) -> bool {
    encode_utf8(method).len() >= 1 && is_token(encode_utf8(method))
}

/// Asks `reqwest::header::HeaderName::from_bytes` whether `name` is the
/// name of a header field: it takes one to 65535 bytes that are all token
/// characters, and nothing else.
#[verifier::external_body]
fn is_header_name(name: &str) -> (ok: bool)
    ensures
        ok == http_header_name(name@),
{
    reqwest::header::HeaderName::from_bytes(name.as_bytes()).is_ok()
}

/// Asks `reqwest::header::HeaderValue::from_str` whether `value` is the
/// value of a header field: it takes every text without a byte below 32
/// other than a tab and without the byte 127, and nothing else.
#[verifier::external_body]
fn is_header_value(value: &str) -> (ok: bool)
    ensures
        ok == http_header_value(value@),
{
    reqwest::header::HeaderValue::from_str(value).is_ok()
}

/// Asks `reqwest::Method::from_bytes` whether `method` is a request method:
/// it takes every text of at least one byte whose bytes are all token
/// characters, and nothing else.
#[verifier::external_body]
fn is_method(method: &str) -> (ok: bool)
    ensures
        ok == http_method(method@),
{
    reqwest::Method::from_bytes(method.as_bytes()).is_ok()
}

/// The request made of the backend for a frame.
#[derive(Debug)]
pub struct OllamaRequest {
    pub method: String,
    /// The address: that of the backend, then the address of the frame.
    pub url: String,
    /// The header fields passed on, in the order of the frame.
    pub headers: Vec<Header>,
    /// The body, where the frame has one.
    pub body: Option<String>,
    /// Seconds that the backend is given to answer.
    pub timeout_secs: u64,
}

/// Why no request is made of the backend.
#[derive(Clone, Copy, Debug, PartialEq, Eq, Structural)]
pub enum RelayError {
    /// The frame is a control frame.
    HiveProtocol,
    /// The method of the frame is no request method.
    InvalidMethod,
}

/// Names and values of a list of header fields.
pub open spec fn pairs(fields: Seq<Header>) -> Seq<(Seq<char>, Seq<char>)> {
    Seq::new(fields.len(), |i: int| (fields[i].name@, fields[i].value@))
}

/// Whether a header field of a frame is passed on to the backend: `Host` and
/// `Content-Length` are not, in any case of letters, nor is a field whose
/// name or value is none.
pub open spec fn is_forwarded(name: Seq<char>, value: Seq<char>) -> bool {
    &&& lower(name) != "host"@
    &&& lower(name) != "content-length"@
    &&& http_header_name(name)
    &&& http_header_value(value)
}

/// The header fields passed on to the backend, in order.
pub open spec fn forwarded(fields: Seq<(Seq<char>, Seq<char>)>) -> Seq<(Seq<char>, Seq<char>)>
    decreases fields.len(),
{
    if fields.len() == 0 {
        Seq::empty()
    } else if is_forwarded(fields.last().0, fields.last().1) {
        forwarded(fields.drop_last()).push(fields.last())
    } else {
        forwarded(fields.drop_last())
    }
}

/// The request made of the backend, as a mathematical value.
pub struct OllamaRequestView {
    pub method: Seq<char>,
    pub url: Seq<char>,
    pub headers: Seq<(Seq<char>, Seq<char>)>,
    pub body: Option<Seq<char>>,
    pub timeout_secs: u64,
}

impl View for OllamaRequest {
    type V = OllamaRequestView;

    open spec fn view(&self) -> OllamaRequestView {
        OllamaRequestView {
            method: self.method@,
            url: self.url@,
            headers: pairs(self.headers@),
            body: match self.body {
                Some(b) => Some(b@),
                None => None,
            },
            timeout_secs: self.timeout_secs,
        }
    }
}

/// The request of the backend for a frame, given the address of the
/// backend.
///
/// A control frame is never relayed, nor a frame whose method is none. The
/// request keeps method and body (no body where the frame's is empty), goes
/// to the address of the frame at the backend, and carries the frame's
/// header fields, in their order, but for `Host`, `Content-Length` and those
/// that are no header fields.
pub open spec fn backend_request(request: ProxyMessage, base_url: Seq<char>) -> Result<
    OllamaRequestView,
    RelayError,
> {
    if request@.protocol == "HIVE"@ {
        Err(RelayError::HiveProtocol)
    } else if !http_method(request@.method) {
        Err(RelayError::InvalidMethod)
    } else {
        Ok(
            OllamaRequestView {
                method: request@.method,
                url: base_url + request@.uri,
                headers: forwarded(pairs(request.headers.fields())),
                body: if request@.body.len() == 0 {
                    None
                } else {
                    Some(request@.body)
                },
                timeout_secs: REQUEST_TIMEOUT_SECS,
            },
        )
    }
}

/// The outcome of building a request, as a mathematical value.
pub open spec fn made_view(made: Result<OllamaRequest, RelayError>) -> Result<
    OllamaRequestView,
    RelayError,
> {
    match made {
        Ok(r) => Ok(r@),
        Err(e) => Err(e),
    }
}

/// Builds the request of the backend for a frame.
pub fn make_ollama_request(request: &ProxyMessage, ollama_base_url: &str) -> (made: Result<
    OllamaRequest,
    RelayError,
>)
    ensures
        made_view(made) == backend_request(*request, ollama_base_url@),
{
    if same_text(request.protocol.as_str(), "HIVE") {
        return Err(RelayError::HiveProtocol);
    }
    if !is_method(request.method.as_str()) {
        return Err(RelayError::InvalidMethod);
    }
    let mut url: Vec<char> = Vec::new();
    push_str(&mut url, ollama_base_url);
    push_str(&mut url, request.uri.as_str());
    let fields = request.headers.entries();
    let mut headers: Vec<Header> = Vec::new();
    let mut i: usize = 0;
    let ghost all = pairs(fields@);
    assert(pairs(headers@) =~= forwarded(all.take(0)));
    while i < fields.len()
        invariant
            i <= fields.len(),
            all == pairs(fields@),
            pairs(headers@) == forwarded(all.take(i as int)),
        decreases fields.len() - i,
    {
        let name = chars_of(fields[i].name.as_str());
        proof {
            assert(all.take(i + 1).drop_last() =~= all.take(i as int));
            assert(all.take(i + 1).last() == all[i as int]);
        }
        if !lower_equals(&name, "host") && !lower_equals(&name, "content-length") && is_header_name(
            fields[i].name.as_str(),
        ) && is_header_value(fields[i].value.as_str()) {
            let ghost before = pairs(headers@);
            headers.push(Header { name: fields[i].name.clone(), value: fields[i].value.clone() });
            assert(pairs(headers@) =~= before.push(all[i as int]));
        }
        i += 1;
    }
    assert(all.take(fields.len() as int) =~= all);
    let body_chars = chars_of(request.body.as_str());
    let body = if body_chars.len() == 0 {
        None
    } else {
        Some(request.body.clone())
    };
    Ok(
        OllamaRequest {
            method: request.method.clone(),
            url: string_from_chars(&url),
            headers,
            body,
            timeout_secs: REQUEST_TIMEOUT_SECS,
        },
    )
}

/// The reason of a status, or nothing.
pub open spec fn reason_or_empty(reason: Option<Seq<char>>) -> Seq<char> {
    match reason {
        Some(r) => r,
        None => Seq::empty(),
    }
}

/// The status line of a response: the protocol, the code and the reason,
/// which is empty where the status has none.
pub open spec fn status_line(code: u16, reason: Option<Seq<char>>) -> Seq<char> {
    "HTTP/1.1 "@ + decimal(code as nat) + " "@ + reason_or_empty(reason) + "\r\n"@
}

/// The lines of the header fields that are passed on to the hub: all but
/// `Transfer-Encoding`, in any case of letters.
pub open spec fn header_lines_out(fields: Seq<Header>) -> Seq<char>
    decreases fields.len(),
{
    if fields.len() == 0 {
        Seq::empty()
    } else if lower(fields.last().name@) == "transfer-encoding"@ {
        header_lines_out(fields.drop_last())
    } else {
        header_lines_out(fields.drop_last()) + fields.last().name@ + ": "@ + fields.last().value@
            + "\r\n"@
    }
}

/// The header of a response as it is written to the hub: the fields passed
/// on, then the two fields that announce a chunked body and the end of the
/// connection, then an empty line.
pub open spec fn header_block(fields: Seq<Header>) -> Seq<char> {
    header_lines_out(fields) + "Transfer-Encoding: chunked\r\n"@ + "Connection: close\r\n"@
        + "\r\n"@
}

/// One chunk of a chunked body: the size in capital hexadecimal digits, the
/// data, and a line end after each.
pub open spec fn chunk(data: Seq<u8>) -> Seq<u8> {
    encode_utf8(hex_upper(data.len()) + "\r\n"@) + data + encode_utf8("\r\n"@)
}

/// The chunk that ends a chunked body.
pub open spec fn last_chunk() -> Seq<u8> {
    encode_utf8("0\r\n\r\n"@)
}

/// The predicate "is a line feed".
pub open spec fn is_line_feed() -> spec_fn(u8) -> bool {
    |b: u8| b == 10
}

/// The pieces in which a body is passed on: each reaches up to and with a
/// line feed, and what follows the last line feed is a piece of its own.
pub open spec fn pieces(body: Seq<u8>) -> Seq<Seq<u8>>
    decreases body.len(),
{
    let i = first_match(body, is_line_feed());
    if body.len() == 0 {
        Seq::empty()
    } else if 0 <= i < body.len() {
        seq![body.take(i + 1)] + pieces(body.skip(i + 1))
    } else {
        seq![body]
    }
}

/// The chunks of a list of pieces, one after another.
pub open spec fn chunks(parts: Seq<Seq<u8>>) -> Seq<u8>
    decreases parts.len(),
{
    if parts.len() == 0 {
        Seq::empty()
    } else {
        chunks(parts.drop_last()) + chunk(parts.last())
    }
}

/// Number of bytes of `buffer` up to and with its last line feed; zero
/// where it holds none.
pub open spec fn complete_len(buffer: Seq<u8>) -> int
    decreases buffer.len(),
{
    if buffer.len() == 0 {
        0
    } else if buffer.last() == 10 {
        buffer.len() as int
    } else {
        complete_len(buffer.drop_last())
    }
}

/// Writes the status line of a response.
pub fn write_http_status_line(code: u16, reason: Option<&str>) -> (line: Vec<u8>)
    ensures
        line@ == encode_utf8(
            status_line(
                code,
                match reason {
                    Some(r) => Some(r@),
                    None => None,
                },
            ),
        ),
{
    let mut out: Vec<char> = Vec::new();
    push_str(&mut out, "HTTP/1.1 ");
    push_decimal(&mut out, code as u64);
    push_str(&mut out, " ");
    match reason {
        Some(r) => {
            push_str(&mut out, r);
        },
        None => {},
    }
    push_str(&mut out, "\r\n");
    assert(out@ =~= status_line(
        code,
        match reason {
            Some(r) => Some(r@),
            None => None,
        },
    ));
    utf8_of(&out)
}

/// Writes the header of a response.
pub fn write_http_headers(headers: &Vec<Header>) -> (block: Vec<u8>)
    ensures
        block@ == encode_utf8(header_block(headers@)),
{
    let mut out: Vec<char> = Vec::new();
    let mut i: usize = 0;
    assert(headers@.take(0) =~= Seq::<Header>::empty());
    while i < headers.len()
        invariant
            i <= headers.len(),
            out@ == header_lines_out(headers@.take(i as int)),
        decreases headers.len() - i,
    {
        let name = chars_of(headers[i].name.as_str());
        proof {
            assert(headers@.take(i + 1).drop_last() =~= headers@.take(i as int));
            assert(headers@.take(i + 1).last() == headers@[i as int]);
        }
        if !lower_equals(&name, "transfer-encoding") {
            push_str(&mut out, headers[i].name.as_str());
            push_str(&mut out, ": ");
            push_str(&mut out, headers[i].value.as_str());
            push_str(&mut out, "\r\n");
            assert(out@ =~= header_lines_out(headers@.take(i + 1)));
        }
        i += 1;
    }
    assert(headers@.take(headers.len() as int) =~= headers@);
    push_str(&mut out, "Transfer-Encoding: chunked\r\n");
    push_str(&mut out, "Connection: close\r\n");
    push_str(&mut out, "\r\n");
    assert(out@ =~= header_block(headers@));
    utf8_of(&out)
}

/// Writes one chunk of the body.
pub fn stream_body(data: &Vec<u8>) -> (framed: Vec<u8>)
    ensures
        framed@ == chunk(data@),
{
    let mut size: Vec<char> = Vec::new();
    push_hex_upper(&mut size, data.len() as u64);
    push_str(&mut size, "\r\n");
    assert(size@ =~= hex_upper(data.len() as nat) + "\r\n"@);
    let mut out = utf8_of(&size);
    push_bytes(&mut out, data);
    push_utf8(&mut out, "\r\n");
    out
}

/// Writes the chunk that ends the body.
pub fn end_of_body() -> (framed: Vec<u8>)
    ensures
        framed@ == last_chunk(),
{
    let mut out: Vec<u8> = Vec::new();
    push_utf8(&mut out, "0\r\n\r\n");
    assert(out@ =~= last_chunk());
    out
}


/// What a block of the body adds to what is passed on, given the bytes held
/// back before it: the chunks of the lines that are now complete, and the
/// bytes held back from now on.
pub open spec fn body_step(carry: Seq<u8>, block: Seq<u8>) -> (Seq<u8>, Seq<u8>) {
    let buffer = carry + block;
    let k = complete_len(buffer);
    (chunks(pieces(buffer.take(k))), buffer.skip(k))
}

/// What is passed on of a body, and what is held back, once these blocks
/// of it are read.
pub open spec fn body_progress(blocks: Seq<Seq<u8>>) -> (Seq<u8>, Seq<u8>)
    decreases blocks.len(),
{
    if blocks.len() == 0 {
        (Seq::empty(), Seq::empty())
    } else {
        let (written, carry) = body_progress(blocks.drop_last());
        let (framed, rest) = body_step(carry, blocks.last());
        (written + framed, rest)
    }
}

/// The blocks one after another.
pub open spec fn joined(blocks: Seq<Seq<u8>>) -> Seq<u8>
    decreases blocks.len(),
{
    if blocks.len() == 0 {
        Seq::empty()
    } else {
        joined(blocks.drop_last()) + blocks.last()
    }
}

/// `complete_len` is in range; a line feed stands before it unless it is
/// zero, and none stands after it.
pub proof fn lemma_complete_len(buffer: Seq<u8>)
    ensures
        0 <= complete_len(buffer) <= buffer.len(),
        complete_len(buffer) > 0 ==> buffer[complete_len(buffer) - 1] == 10,
        forall|i: int| complete_len(buffer) <= i < buffer.len() ==> #[trigger] buffer[i] != 10,
    decreases buffer.len(),
{
    if buffer.len() > 0 && buffer.last() != 10 {
        let front = buffer.drop_last();
        lemma_complete_len(front);
        assert forall|i: int| complete_len(buffer) <= i < buffer.len() implies #[trigger] buffer[i]
            != 10 by {
            if i < front.len() {
                assert(buffer[i] == front[i]);
            }
        }
        if complete_len(buffer) > 0 {
            assert(buffer[complete_len(buffer) - 1] == front[complete_len(buffer) - 1]);
        }
    }
}

/// A length with a line feed before it and none after it is the complete
/// length.
pub proof fn lemma_complete_len_is(buffer: Seq<u8>, k: int)
    requires
        0 <= k <= buffer.len(),
        k > 0 ==> buffer[k - 1] == 10,
        forall|i: int| k <= i < buffer.len() ==> #[trigger] buffer[i] != 10,
    ensures
        complete_len(buffer) == k,
{
    lemma_complete_len(buffer);
    let c = complete_len(buffer);
    if c < k {
        assert(buffer[k - 1] != 10);
    } else if k < c {
        assert(buffer[c - 1] != 10);
    }
}

/// The chunks of two lists of pieces are the chunks of the one, then those
/// of the other.
pub proof fn lemma_chunks_append(first: Seq<Seq<u8>>, second: Seq<Seq<u8>>)
    ensures
        chunks(first + second) == chunks(first) + chunks(second),
    decreases second.len(),
{
    if second.len() == 0 {
        assert(first + second =~= first);
        assert(chunks(first) + chunks(second) =~= chunks(first));
    } else {
        lemma_chunks_append(first, second.drop_last());
        assert((first + second).drop_last() =~= first + second.drop_last());
        assert((first + second).last() == second.last());
        assert(chunks(first + second) =~= chunks(first) + chunks(second));
    }
}

/// Behind a line feed the pieces begin afresh: the pieces of bytes that end
/// in a line feed, followed by more bytes, are the pieces of the one, then
/// those of the other.
pub proof fn lemma_pieces_append(first: Seq<u8>, second: Seq<u8>)
    requires
        first.len() == 0 || first.last() == 10,
    ensures
        pieces(first + second) == pieces(first) + pieces(second),
    decreases first.len(),
{
    if first.len() == 0 {
        assert(first + second =~= second);
        assert(pieces(first) + pieces(second) =~= pieces(second));
    } else {
        let whole = first + second;
        lemma_first_match(first, is_line_feed());
        let i = first_match(first, is_line_feed());
        if i >= first.len() {
            assert(!is_line_feed()(first[first.len() - 1]));
        }
        assert forall|j: int| 0 <= j < i implies !is_line_feed()(#[trigger] whole[j]) by {
            assert(whole[j] == first[j]);
        }
        assert(whole[i] == first[i]);
        lemma_first_match_is(whole, is_line_feed(), i);
        let rest = first.skip(i + 1);
        assert(whole.take(i + 1) =~= first.take(i + 1));
        assert(whole.skip(i + 1) =~= rest + second);
        if rest.len() > 0 {
            assert(rest.last() == first.last());
        }
        lemma_pieces_append(rest, second);
        assert(pieces(whole) =~= pieces(first) + pieces(second));
    }
}

/// The last line feed of two runs of bytes is that of the second, and that
/// of the first where the second holds none.
pub proof fn lemma_complete_len_append(first: Seq<u8>, second: Seq<u8>)
    ensures
        complete_len(first + second) == if complete_len(second) > 0 {
            first.len() + complete_len(second)
        } else {
            complete_len(first)
        },
{
    let whole = first + second;
    lemma_complete_len(first);
    lemma_complete_len(second);
    let k = if complete_len(second) > 0 {
        first.len() + complete_len(second)
    } else {
        complete_len(first)
    };
    if k > 0 {
        if complete_len(second) > 0 {
            assert(whole[k - 1] == second[complete_len(second) - 1]);
        } else {
            assert(whole[k - 1] == first[k - 1]);
        }
    }
    assert forall|i: int| k <= i < whole.len() implies #[trigger] whole[i] != 10 by {
        if i < first.len() {
            assert(whole[i] == first[i]);
        } else {
            assert(whole[i] == second[i - first.len()]);
        }
    }
    lemma_complete_len_is(whole, k);
}

/// However a body is cut into blocks when it is read, what is passed on of
/// it are the chunks of its lines up to the last line feed, and what is
/// held back is the rest.
pub proof fn lemma_body_progress(blocks: Seq<Seq<u8>>)
    ensures
        body_progress(blocks).0 == chunks(
            pieces(joined(blocks).take(complete_len(joined(blocks)))),
        ),
        body_progress(blocks).1 == joined(blocks).skip(complete_len(joined(blocks))),
    decreases blocks.len(),
{
    if blocks.len() == 0 {
        assert(joined(blocks).take(0) =~= Seq::<u8>::empty());
        assert(pieces(Seq::<u8>::empty()) =~= Seq::<Seq<u8>>::empty());
        assert(joined(blocks).skip(0) =~= Seq::<u8>::empty());
    } else {
        let before = joined(blocks.drop_last());
        let block = blocks.last();
        let whole = joined(blocks);
        lemma_body_progress(blocks.drop_last());
        lemma_complete_len(before);
        let c = complete_len(before);
        let head = before.take(c);
        let carry = before.skip(c);
        let buffer = carry + block;
        lemma_complete_len(buffer);
        let k = complete_len(buffer);
        assert(whole =~= head + buffer);
        lemma_complete_len_append(head, buffer);
        lemma_complete_len_is(head, c);
        assert(complete_len(whole) == c + k);
        assert(whole.take(c + k) =~= head + buffer.take(k));
        assert(whole.skip(c + k) =~= buffer.skip(k));
        if c > 0 {
            assert(head.last() == before[c - 1]);
        }
        lemma_pieces_append(head, buffer.take(k));
        lemma_chunks_append(pieces(head), pieces(buffer.take(k)));
    }
}

/// A body goes to the hub as the chunks of its lines and the chunk that
/// ends it, however it was cut into blocks when it was read.
pub proof fn lemma_body_is_chunked_by_lines(blocks: Seq<Seq<u8>>)
    ensures
        body_progress(blocks).0 + (chunks(pieces(body_progress(blocks).1)) + last_chunk())
            == chunks(pieces(joined(blocks))) + last_chunk(),
{
    lemma_body_progress(blocks);
    let whole = joined(blocks);
    lemma_complete_len(whole);
    let c = complete_len(whole);
    let head = whole.take(c);
    let carry = whole.skip(c);
    if c > 0 {
        assert(head.last() == whole[c - 1]);
    }
    lemma_pieces_append(head, carry);
    lemma_chunks_append(pieces(head), pieces(carry));
    assert(head + carry =~= whole);
    assert(chunks(pieces(head)) + (chunks(pieces(carry)) + last_chunk()) =~= chunks(pieces(whole))
        + last_chunk());
}

/// Index of the first line feed in `bytes[from..to]`, counted from the
/// start of `bytes`; `to` when there is none.
fn find_line_feed(bytes: &Vec<u8>, from: usize, to: usize) -> (at: usize)
    requires
        from <= to <= bytes.len(),
    ensures
        from <= at <= to,
        at == from + first_match(bytes@.subrange(from as int, to as int), is_line_feed()),
{
    let mut i: usize = from;
    while i < to && bytes[i] != 10
        invariant
            from <= i <= to <= bytes.len(),
            forall|j: int| from <= j < i ==> bytes@[j] != 10,
        decreases to - i,
    {
        i += 1;
    }
    proof {
        let sub = bytes@.subrange(from as int, to as int);
        assert forall|j: int| 0 <= j < i - from implies !is_line_feed()(#[trigger] sub[j]) by {
            assert(sub[j] == bytes@[from + j]);
        }
        lemma_first_match_is(sub, is_line_feed(), i - from);
    }
    i
}

/// Number of bytes of `buffer` up to and with its last line feed.
fn complete_prefix(buffer: &Vec<u8>) -> (k: usize)
    ensures
        k == complete_len(buffer@),
        k <= buffer.len(),
{
    let mut k: usize = buffer.len();
    while k > 0 && buffer[k - 1] != 10
        invariant
            k <= buffer.len(),
            forall|j: int| k <= j < buffer.len() ==> buffer@[j] != 10,
        decreases k,
    {
        k -= 1;
    }
    proof {
        lemma_complete_len_is(buffer@, k as int);
    }
    k
}

/// Writes the chunks of the pieces of `buffer[..upto]`.
fn frame_pieces(buffer: &Vec<u8>, upto: usize) -> (framed: Vec<u8>)
    requires
        upto <= buffer.len(),
    ensures
        framed@ == chunks(pieces(buffer@.take(upto as int))),
{
    let mut framed: Vec<u8> = Vec::new();
    let mut pos: usize = 0;
    let ghost done: Seq<Seq<u8>> = Seq::empty();
    let ghost whole = buffer@.take(upto as int);
    proof {
        assert(buffer@.subrange(0, upto as int) =~= whole);
        assert(done + pieces(whole) =~= pieces(whole));
    }
    while pos < upto
        invariant
            pos <= upto <= buffer.len(),
            whole == buffer@.take(upto as int),
            pieces(whole) == done + pieces(buffer@.subrange(pos as int, upto as int)),
            framed@ == chunks(done),
        decreases upto - pos,
    {
        let nl = find_line_feed(buffer, pos, upto);
        let end: usize = if nl < upto {
            nl + 1
        } else {
            upto
        };
        let mut piece: Vec<u8> = Vec::new();
        let mut i: usize = pos;
        while i < end
            invariant
                pos <= i <= end <= buffer.len(),
                piece@ == buffer@.subrange(pos as int, i as int),
            decreases end - i,
        {
            piece.push(buffer[i]);
            assert(piece@ =~= buffer@.subrange(pos as int, i + 1));
            i += 1;
        }
        let framed_piece = stream_body(&piece);
        push_bytes(&mut framed, &framed_piece);
        proof {
            let rest = buffer@.subrange(pos as int, upto as int);
            if nl < upto {
                assert(rest.take(nl - pos + 1) =~= piece@);
                assert(rest.skip(nl - pos + 1) =~= buffer@.subrange(end as int, upto as int));
            } else {
                assert(rest =~= piece@);
                assert(buffer@.subrange(end as int, upto as int) =~= Seq::<u8>::empty());
                assert(pieces(Seq::<u8>::empty()) =~= Seq::<Seq<u8>>::empty());
            }
            assert(pieces(rest) =~= seq![piece@] + pieces(
                buffer@.subrange(end as int, upto as int),
            ));
            let ghost_done = done.push(piece@);
            assert(ghost_done.drop_last() =~= done);
            assert(pieces(whole) =~= ghost_done + pieces(
                buffer@.subrange(end as int, upto as int),
            ));
            done = ghost_done;
        }
        pos = end;
    }
    proof {
        assert(buffer@.subrange(upto as int, upto as int) =~= Seq::<u8>::empty());
        assert(pieces(Seq::<u8>::empty()) =~= Seq::<Seq<u8>>::empty());
        assert(done + Seq::<Seq<u8>>::empty() =~= done);
    }
    framed
}

/// One tag of a record.
#[derive(Debug)]
pub struct Tag {
    pub key: String,
    pub value: String,
}

/// A record for the observability sink: a measurement with its tags and one
/// field.
#[derive(Debug)]
pub struct TelemetryRecord {
    pub measurement: String,
    pub tags: Vec<Tag>,
    pub field_name: String,
    pub field_value: String,
}

/// A record as a mathematical value.
pub struct TelemetryRecordView {
    pub measurement: Seq<char>,
    pub tags: Seq<(Seq<char>, Seq<char>)>,
    pub field_name: Seq<char>,
    pub field_value: Seq<char>,
}

impl View for TelemetryRecord {
    type V = TelemetryRecordView;

    open spec fn view(&self) -> TelemetryRecordView {
        TelemetryRecordView {
            measurement: self.measurement@,
            tags: Seq::new(self.tags@.len(), |i: int| (self.tags@[i].key@, self.tags@[i].value@)),
            field_name: self.field_name@,
            field_value: self.field_value@,
        }
    }
}

/// What was written to the hub, as text for a record: the bytes decoded,
/// without line ends; a note where they are no valid UTF-8.
pub open spec fn mirror_text(mirror: Seq<u8>) -> Seq<char> {
    if valid_utf8(mirror) {
        without_newlines(decode_utf8(mirror))
    } else {
        without_newlines("Invalid UTF-8"@)
    }
}

/// The record of a relay that was streamed to its end.
pub open spec fn success_record(
    protocol: Seq<char>,
    method: Seq<char>,
    uri: Seq<char>,
    body: Seq<char>,
    mirror: Seq<u8>,
    code: u16,
) -> TelemetryRecordView {
    TelemetryRecordView {
        measurement: "ollama"@,
        tags: seq![
            (
                "model"@,
                match model_of(body) {
                    Some(m) => m,
                    None => "None"@,
                },
            ),
            ("protocol"@, protocol),
            ("method"@, method),
            ("uri"@, uri),
            ("status"@, "success"@),
            ("code"@, decimal(code as nat)),
        ],
        field_name: "worker_success_message"@,
        field_value: mirror_text(mirror),
    }
}

/// The record of a relay that broke off with the error `err`.
pub open spec fn error_record(
    protocol: Seq<char>,
    method: Seq<char>,
    uri: Seq<char>,
    mirror: Seq<u8>,
    err: Seq<char>,
) -> TelemetryRecordView {
    TelemetryRecordView {
        measurement: "ollama"@,
        tags: seq![
            ("protocol"@, protocol),
            ("method"@, method),
            ("uri"@, uri),
            ("status"@, "error"@),
            ("response"@, mirror_text(mirror)),
            ("code"@, "500"@),
        ],
        field_name: "worker_error_message"@,
        field_value: err,
    }
}

/// A tag.
fn tag(key: &str, value: String) -> (t: Tag)
    ensures
        t.key@ == key@,
        t.value@ == value@,
{
    Tag { key: key.to_owned(), value }
}

/// The text of what was written to the hub.
fn text_of_mirror(stream: Vec<u8>) -> (text: String)
    ensures
        text@ == mirror_text(stream@),
{
    let data_as_string = match decode_strict(stream) {
        Some(s) => s,
        None => "Invalid UTF-8".to_owned(),
    };
    remove_newlines(data_as_string.as_str())
}

/// Makes the record of a relay that was streamed to its end: what was asked,
/// of which model, with which status, and what was written to the hub.
pub fn send_success_influx_with_req(req: &ProxyMessage, stream: Vec<u8>, response_code: u16) -> (record:
    TelemetryRecord)
    ensures
        record@ == success_record(
            req@.protocol,
            req@.method,
            req@.uri,
            req@.body,
            stream@,
            response_code,
        ),
{
    let model = match req.extract_model() {
        Some(m) => m,
        None => "None".to_owned(),
    };
    let mut code: Vec<char> = Vec::new();
    push_decimal(&mut code, response_code as u64);
    assert(code@ =~= decimal(response_code as nat));
    let mut tags: Vec<Tag> = Vec::new();
    tags.push(tag("model", model));
    tags.push(tag("protocol", req.protocol.clone()));
    tags.push(tag("method", req.method.clone()));
    tags.push(tag("uri", req.uri.clone()));
    tags.push(tag("status", "success".to_owned()));
    tags.push(tag("code", string_from_chars(&code)));
    let record = TelemetryRecord {
        measurement: "ollama".to_owned(),
        tags,
        field_name: "worker_success_message".to_owned(),
        field_value: text_of_mirror(stream),
    };
    assert(record@.tags =~= success_record(
        req@.protocol,
        req@.method,
        req@.uri,
        req@.body,
        stream@,
        response_code,
    ).tags);
    record
}

/// Makes the record of a relay that broke off: what was asked, what had
/// been written to the hub, and the error.
pub fn send_err_influx_with_req(req: &ProxyMessage, stream: Vec<u8>, err: String) -> (record:
    TelemetryRecord)
    ensures
        record@ == error_record(req@.protocol, req@.method, req@.uri, stream@, err@),
{
    let mut tags: Vec<Tag> = Vec::new();
    tags.push(tag("protocol", req.protocol.clone()));
    tags.push(tag("method", req.method.clone()));
    tags.push(tag("uri", req.uri.clone()));
    tags.push(tag("status", "error".to_owned()));
    tags.push(tag("response", text_of_mirror(stream)));
    tags.push(tag("code", "500".to_owned()));
    let record = TelemetryRecord {
        measurement: "ollama".to_owned(),
        tags,
        field_name: "worker_error_message".to_owned(),
        field_value: err,
    };
    assert(record@.tags =~= error_record(req@.protocol, req@.method, req@.uri, stream@, err@).tags);
    record
}


/// Where a relay stands.
#[derive(Clone, Copy, Debug, PartialEq, Eq, Structural)]
pub enum RelayPhase {
    /// The relay is not begun.
    Idle,
    /// The exclusion token is being taken as a reader.
    AwaitingReader,
    /// The backend was asked and has not answered.
    AwaitingResponse,
    /// The status line is being written to the hub.
    StatusLine,
    /// The header is being written to the hub.
    Headers,
    /// More of the body is being read from the backend.
    Body,
    /// Chunks are being written to the hub.
    Chunk,
    /// The chunk that ends the body is being written to the hub.
    Terminator,
    /// Nothing is left to do.
    Finished,
}

/// A relay in progress.
#[derive(Debug)]
pub struct Relay {
    phase: RelayPhase,
    holds_reader: bool,
    base_url: String,
    code: u16,
    unreadable: Option<String>,
    mirror: Vec<u8>,
    pending: Vec<u8>,
    queued: Vec<u8>,
    carry: Vec<u8>,
}

/// A relay as a mathematical value.
pub struct RelayView {
    pub phase: RelayPhase,
    /// Whether the relay holds the exclusion token as a reader.
    pub holds_reader: bool,
    /// The address of the backend.
    pub base_url: Seq<char>,
    /// The status of the backend's response.
    pub code: u16,
    /// Why the header of the backend's response cannot be passed on, if it
    /// cannot.
    pub unreadable: Option<Seq<char>>,
    /// The bytes written to the hub so far.
    pub mirror: Seq<u8>,
    /// The bytes that are being written to the hub.
    pub pending: Seq<u8>,
    /// The bytes to write once those are written.
    pub queued: Seq<u8>,
    /// The bytes of the body read behind its last line feed so far.
    pub carry: Seq<u8>,
}

impl View for Relay {
    type V = RelayView;

    closed spec fn view(&self) -> RelayView {
        RelayView {
            phase: self.phase,
            holds_reader: self.holds_reader,
            base_url: self.base_url@,
            code: self.code,
            unreadable: match self.unreadable {
                Some(d) => Some(d@),
                None => None,
            },
            mirror: self.mirror@,
            pending: self.pending@,
            queued: self.queued@,
            carry: self.carry@,
        }
    }
}

/// What happened since the last action of a relay.
#[derive(Debug)]
pub enum RelayEvent {
    /// The relay is asked for.
    Begin,
    /// The exclusion token is held as a reader.
    ReaderAcquired,
    /// The backend answered with this status and these header fields;
    /// `unreadable` says why the header cannot be passed on, if a value of
    /// it is no text.
    Response { code: u16, reason: Option<String>, headers: Vec<Header>, unreadable: Option<String> },
    /// The backend could not be asked.
    RequestFailed,
    /// The bytes handed out were written to the hub.
    Written,
    /// The bytes handed out could not be written to the hub.
    WriteFailed(String),
    /// The backend's body went on with these bytes.
    Data(Vec<u8>),
    /// The backend's body is at its end.
    EndOfBody,
    /// The backend's body could not be read.
    ReadFailed(String),
}

/// What happened since the last action of a relay, as a mathematical value.
pub enum RelayEventView {
    Begin,
    ReaderAcquired,
    Response {
        code: u16,
        reason: Option<Seq<char>>,
        headers: Seq<Header>,
        unreadable: Option<Seq<char>>,
    },
    RequestFailed,
    Written,
    WriteFailed(Seq<char>),
    Data(Seq<u8>),
    EndOfBody,
    ReadFailed(Seq<char>),
}

impl View for RelayEvent {
    type V = RelayEventView;

    open spec fn view(&self) -> RelayEventView {
        match self {
            RelayEvent::Begin => RelayEventView::Begin,
            RelayEvent::ReaderAcquired => RelayEventView::ReaderAcquired,
            RelayEvent::Response { code, reason, headers, unreadable } => RelayEventView::Response {
                code: *code,
                reason: match reason {
                    Some(r) => Some(r@),
                    None => None,
                },
                headers: headers@,
                unreadable: match unreadable {
                    Some(d) => Some(d@),
                    None => None,
                },
            },
            RelayEvent::RequestFailed => RelayEventView::RequestFailed,
            RelayEvent::Written => RelayEventView::Written,
            RelayEvent::WriteFailed(d) => RelayEventView::WriteFailed(d@),
            RelayEvent::Data(data) => RelayEventView::Data(data@),
            RelayEvent::EndOfBody => RelayEventView::EndOfBody,
            RelayEvent::ReadFailed(d) => RelayEventView::ReadFailed(d@),
        }
    }
}

/// How a relay ended, for the session.
#[derive(Clone, Copy, Debug, PartialEq, Eq, Structural)]
pub enum RelayOutcome {
    /// The response was streamed to its end; `refresh` says whether the
    /// catalog has changed.
    Completed { refresh: bool },
    /// The backend could not be asked or read.
    BackendFailed,
    /// The hub could not be written to.
    HubFailed,
}

/// How a relay ended.
#[derive(Debug)]
pub enum RelayEnd {
    /// The response was streamed to its end; `refresh` says whether the
    /// backend's model catalog has changed.
    Completed { record: TelemetryRecord, refresh: bool },
    /// The relay broke off: a write to the hub failed where `hub_failed`
    /// says so, else the backend's response could not be read.
    Broken { report: TelemetryRecord, hub_failed: bool },
    /// The backend was not asked or did not answer, or an event came out of
    /// turn.
    Dropped,
}

/// How a relay ended, as a mathematical value.
pub enum RelayEndView {
    Completed { record: TelemetryRecordView, refresh: bool },
    Broken { report: TelemetryRecordView, hub_failed: bool },
    Dropped,
}

impl RelayEndView {
    /// What the end of a relay means for the session: only a failed write
    /// to the hub counts against the hub.
    pub open spec fn outcome(self) -> RelayOutcome {
        match self {
            RelayEndView::Completed { refresh, .. } => RelayOutcome::Completed { refresh },
            RelayEndView::Broken { hub_failed, .. } => if hub_failed {
                RelayOutcome::HubFailed
            } else {
                RelayOutcome::BackendFailed
            },
            RelayEndView::Dropped => RelayOutcome::BackendFailed,
        }
    }
}

impl RelayEnd {
    /// Tells what the end of a relay means for the session.
    pub fn outcome(&self) -> (outcome: RelayOutcome)
        ensures
            outcome == self@.outcome(),
    {
        match self {
            RelayEnd::Completed { refresh, .. } => RelayOutcome::Completed { refresh: *refresh },
            RelayEnd::Broken { hub_failed, .. } => {
                if *hub_failed {
                    RelayOutcome::HubFailed
                } else {
                    RelayOutcome::BackendFailed
                }
            },
            RelayEnd::Dropped => RelayOutcome::BackendFailed,
        }
    }
}

impl View for RelayEnd {
    type V = RelayEndView;

    open spec fn view(&self) -> RelayEndView {
        match self {
            RelayEnd::Completed { record, refresh } => RelayEndView::Completed {
                record: record@,
                refresh: *refresh,
            },
            RelayEnd::Broken { report, hub_failed } => RelayEndView::Broken {
                report: report@,
                hub_failed: *hub_failed,
            },
            RelayEnd::Dropped => RelayEndView::Dropped,
        }
    }
}

/// What to do next in a relay.
#[derive(Debug)]
pub enum RelayAction {
    /// Take the exclusion token as a reader, waiting while the backend is
    /// being replaced.
    AcquireReader,
    /// Make this request of the backend.
    AskBackend(OllamaRequest),
    /// Write these bytes to the hub and flush.
    Write(Vec<u8>),
    /// Read more of the backend's body.
    ReadMore,
    /// The relay is over: give the exclusion token back where
    /// `release_reader` says so, and emit the record of the end, if any.
    Finish { release_reader: bool, end: RelayEnd },
}

/// What to do next in a relay, as a mathematical value.
pub enum RelayActionView {
    AcquireReader,
    AskBackend(OllamaRequestView),
    Write(Seq<u8>),
    ReadMore,
    Finish { release_reader: bool, end: RelayEndView },
}

impl View for RelayAction {
    type V = RelayActionView;

    open spec fn view(&self) -> RelayActionView {
        match self {
            RelayAction::AcquireReader => RelayActionView::AcquireReader,
            RelayAction::AskBackend(request) => RelayActionView::AskBackend(request@),
            RelayAction::Write(bytes) => RelayActionView::Write(bytes@),
            RelayAction::ReadMore => RelayActionView::ReadMore,
            RelayAction::Finish { release_reader, end } => RelayActionView::Finish {
                release_reader: *release_reader,
                end: end@,
            },
        }
    }
}

/// The end of a relay: the token is given back if it is held.
pub open spec fn relay_ended(r: RelayView, end: RelayEndView) -> (RelayView, RelayActionView) {
    (
        RelayView { phase: RelayPhase::Finished, holds_reader: false, ..r },
        RelayActionView::Finish { release_reader: r.holds_reader, end },
    )
}

/// The end of a relay that broke off while `what` was streamed.
pub open spec fn relay_broken(
    r: RelayView,
    request: ProxyMessage,
    what: Seq<char>,
    detail: Seq<char>,
    hub_failed: bool,
) -> (RelayView, RelayActionView) {
    relay_ended(
        r,
        RelayEndView::Broken {
            report: error_record(
                request@.protocol,
                request@.method,
                request@.uri,
                r.mirror,
                "Error streaming "@ + what + " to HiveCore: "@ + detail,
            ),
            hub_failed,
        },
    )
}

/// The next state and action of the relay of the frame `request`.
///
/// The relay takes the exclusion token as a reader before it asks the
/// backend, and gives it back when it ends, however it ends. The backend's
/// response goes to the hub as a status line, a header and a chunked body.
/// The body is passed on line by line: what was read up to its last line
/// feed goes out at once, one chunk for each line, and what stands behind
/// the last line feed waits for more, or for the end. What was written is
/// added to the mirror once the hub has taken it. A header with a value
/// that is no text is not passed on: the relay breaks off behind the status
/// line. The relay ends with a record: of success after the last chunk, of
/// the error where it broke off. Where the backend is not asked or does not answer, or an
/// event comes out of turn, it ends without a record.
pub open spec fn relay_step(r: RelayView, request: ProxyMessage, e: RelayEventView) -> (
    RelayView,
    RelayActionView,
) {
    let written = RelayView { mirror: r.mirror + r.pending, pending: Seq::empty(), ..r };
    match (r.phase, e) {
        (RelayPhase::Idle, RelayEventView::Begin) => (
            RelayView { phase: RelayPhase::AwaitingReader, ..r },
            RelayActionView::AcquireReader,
        ),
        (RelayPhase::AwaitingReader, RelayEventView::ReaderAcquired) => match backend_request(
            request,
            r.base_url,
        ) {
            Ok(q) => (
                RelayView { phase: RelayPhase::AwaitingResponse, holds_reader: true, ..r },
                RelayActionView::AskBackend(q),
            ),
            Err(_) => relay_ended(RelayView { holds_reader: true, ..r }, RelayEndView::Dropped),
        },
        (
            RelayPhase::AwaitingResponse,
            RelayEventView::Response { code, reason, headers, unreadable },
        ) => {
            let line = encode_utf8(status_line(code, reason));
            (
                RelayView {
                    phase: RelayPhase::StatusLine,
                    code,
                    unreadable,
                    pending: line,
                    queued: encode_utf8(header_block(headers)),
                    ..r
                },
                RelayActionView::Write(line),
            )
        },
        (RelayPhase::StatusLine, RelayEventView::Written) => match r.unreadable {
            Some(d) => relay_broken(written, request, "headers"@, d, false),
            None => (
                RelayView {
                    phase: RelayPhase::Headers,
                    pending: r.queued,
                    queued: Seq::empty(),
                    ..written
                },
                RelayActionView::Write(r.queued),
            ),
        },
        (RelayPhase::StatusLine, RelayEventView::WriteFailed(d)) => relay_broken(
            r,
            request,
            "status line"@,
            d,
            true,
        ),
        (RelayPhase::Headers, RelayEventView::Written) => (
            RelayView { phase: RelayPhase::Body, ..written },
            RelayActionView::ReadMore,
        ),
        (RelayPhase::Headers, RelayEventView::WriteFailed(d)) => relay_broken(
            r,
            request,
            "headers"@,
            d,
            true,
        ),
        (RelayPhase::Body, RelayEventView::Data(data)) => {
            let (framed, carry) = body_step(r.carry, data);
            if complete_len(r.carry + data) == 0 {
                (RelayView { carry, ..r }, RelayActionView::ReadMore)
            } else {
                (
                    RelayView { phase: RelayPhase::Chunk, pending: framed, carry, ..r },
                    RelayActionView::Write(framed),
                )
            }
        },
        (RelayPhase::Body, RelayEventView::EndOfBody) => {
            let framed = chunks(pieces(r.carry)) + last_chunk();
            (
                RelayView {
                    phase: RelayPhase::Terminator,
                    pending: framed,
                    carry: Seq::empty(),
                    ..r
                },
                RelayActionView::Write(framed),
            )
        },
        (RelayPhase::Body, RelayEventView::ReadFailed(d)) => relay_broken(
            r,
            request,
            "body"@,
            d,
            false,
        ),
        (RelayPhase::Chunk, RelayEventView::Written) => (
            RelayView { phase: RelayPhase::Body, ..written },
            RelayActionView::ReadMore,
        ),
        (RelayPhase::Chunk, RelayEventView::WriteFailed(d)) => relay_broken(
            r,
            request,
            "body"@,
            d,
            true,
        ),
        (RelayPhase::Terminator, RelayEventView::Written) => relay_ended(
            written,
            RelayEndView::Completed {
                record: success_record(
                    request@.protocol,
                    request@.method,
                    request@.uri,
                    request@.body,
                    written.mirror,
                    r.code,
                ),
                refresh: request@.protocol == "HTTP/1.1"@ && ((request@.method == "POST"@
                    && request@.uri == "/api/pull"@) || (request@.method == "DELETE"@
                    && request@.uri == "/api/delete"@)),
            },
        ),
        (RelayPhase::Terminator, RelayEventView::WriteFailed(d)) => relay_broken(
            r,
            request,
            "body"@,
            d,
            true,
        ),
        (_, RelayEventView::ReaderAcquired) => relay_ended(
            RelayView { holds_reader: true, ..r },
            RelayEndView::Dropped,
        ),
        _ => relay_ended(r, RelayEndView::Dropped),
    }
}

/// A copy of `bytes`.
fn copy_bytes(bytes: &Vec<u8>) -> (out: Vec<u8>)
    ensures
        out@ == bytes@,
{
    let mut out: Vec<u8> = Vec::new();
    push_bytes(&mut out, bytes);
    assert(out@ =~= bytes@);
    out
}

impl Relay {
    /// A relay that is not begun, for a backend at this address.
    pub fn new(ollama_base_url: String) -> (relay: Relay)
        ensures
            relay@ == (RelayView {
                phase: RelayPhase::Idle,
                holds_reader: false,
                base_url: ollama_base_url@,
                code: 0,
                unreadable: None,
                mirror: Seq::empty(),
                pending: Seq::empty(),
                queued: Seq::empty(),
                carry: Seq::empty(),
            }),
    {
        Relay {
            phase: RelayPhase::Idle,
            holds_reader: false,
            base_url: ollama_base_url,
            code: 0,
            unreadable: None,
            mirror: Vec::new(),
            pending: Vec::new(),
            queued: Vec::new(),
            carry: Vec::new(),
        }
    }

    /// Where the relay stands.
    pub fn phase(&self) -> (phase: RelayPhase)
        ensures
            phase == self@.phase,
    {
        self.phase
    }

    /// Whether the relay holds the exclusion token as a reader.
    pub fn holds_reader(&self) -> (held: bool)
        ensures
            held == self@.holds_reader,
    {
        self.holds_reader
    }

    /// Takes what was handed out as written.
    fn commit(&mut self)
        ensures
            final(self)@ == (RelayView {
                mirror: old(self)@.mirror + old(self)@.pending,
                pending: Seq::empty(),
                ..old(self)@
            }),
    {
        let mut done: Vec<u8> = Vec::new();
        core::mem::swap(&mut self.pending, &mut done);
        push_bytes(&mut self.mirror, &done);
    }

    /// Hands `bytes` out to be written.
    fn hand_out(&mut self, phase: RelayPhase, bytes: Vec<u8>) -> (action: RelayAction)
        ensures
            final(self)@ == (RelayView { phase, pending: bytes@, ..old(self)@ }),
            action@ == RelayActionView::Write(bytes@),
    {
        let copy = copy_bytes(&bytes);
        self.phase = phase;
        self.pending = bytes;
        RelayAction::Write(copy)
    }

    /// Ends the relay.
    fn ended(&mut self, end: RelayEnd) -> (action: RelayAction)
        ensures
            (final(self)@, action@) == relay_ended(old(self)@, end@),
    {
        let release_reader = self.holds_reader;
        self.phase = RelayPhase::Finished;
        self.holds_reader = false;
        RelayAction::Finish { release_reader, end }
    }

    /// Ends the relay with the record of an error.
    fn broken(&mut self, request: &ProxyMessage, what: &str, detail: &str, hub_failed: bool) -> (action:
        RelayAction)
        ensures
            (final(self)@, action@) == relay_broken(
                old(self)@,
                *request,
                what@,
                detail@,
                hub_failed,
            ),
    {
        let mut err: Vec<char> = Vec::new();
        push_str(&mut err, "Error streaming ");
        push_str(&mut err, what);
        push_str(&mut err, " to HiveCore: ");
        push_str(&mut err, detail);
        assert(err@ =~= "Error streaming "@ + what@ + " to HiveCore: "@ + detail@);
        let report = send_err_influx_with_req(
            request,
            copy_bytes(&self.mirror),
            string_from_chars(&err),
        );
        self.ended(RelayEnd::Broken { report, hub_failed })
    }
}

/// Decides the next action of the relay of `request` from what happened
/// since the last one.
pub fn stream_response_to_proxy(relay: &mut Relay, request: &ProxyMessage, event: RelayEvent) -> (action:
    RelayAction)
    ensures
        (final(relay)@, action@) == relay_step(old(relay)@, *request, event@),
{
    match event {
        RelayEvent::Begin => {
            match relay.phase {
                RelayPhase::Idle => {
                    relay.phase = RelayPhase::AwaitingReader;
                    RelayAction::AcquireReader
                },
                _ => relay.ended(RelayEnd::Dropped),
            }
        },
        RelayEvent::ReaderAcquired => {
            relay.holds_reader = true;
            match relay.phase {
                RelayPhase::AwaitingReader => {
                    match make_ollama_request(request, relay.base_url.as_str()) {
                        Ok(made) => {
                            relay.phase = RelayPhase::AwaitingResponse;
                            RelayAction::AskBackend(made)
                        },
                        Err(_) => relay.ended(RelayEnd::Dropped),
                    }
                },
                _ => relay.ended(RelayEnd::Dropped),
            }
        },
        RelayEvent::Response { code, reason, headers, unreadable } => {
            match relay.phase {
                RelayPhase::AwaitingResponse => {
                    let line = match &reason {
                        Some(r) => write_http_status_line(code, Some(r.as_str())),
                        None => write_http_status_line(code, None),
                    };
                    relay.code = code;
                    relay.unreadable = unreadable;
                    relay.queued = write_http_headers(&headers);
                    relay.hand_out(RelayPhase::StatusLine, line)
                },
                _ => relay.ended(RelayEnd::Dropped),
            }
        },
        RelayEvent::Written => {
            match relay.phase {
                RelayPhase::StatusLine => {
                    relay.commit();
                    let mut unreadable: Option<String> = None;
                    core::mem::swap(&mut relay.unreadable, &mut unreadable);
                    match unreadable {
                        Some(detail) => {
                            relay.unreadable = Some(detail.clone());
                            relay.broken(request, "headers", detail.as_str(), false)
                        },
                        None => {
                            let mut head: Vec<u8> = Vec::new();
                            core::mem::swap(&mut relay.queued, &mut head);
                            relay.hand_out(RelayPhase::Headers, head)
                        },
                    }
                },
                RelayPhase::Headers | RelayPhase::Chunk => {
                    relay.commit();
                    relay.phase = RelayPhase::Body;
                    RelayAction::ReadMore
                },
                RelayPhase::Terminator => {
                    relay.commit();
                    let record = send_success_influx_with_req(
                        request,
                        copy_bytes(&relay.mirror),
                        relay.code,
                    );
                    relay.ended(RelayEnd::Completed { record, refresh: request.modifies_poll() })
                },
                _ => relay.ended(RelayEnd::Dropped),
            }
        },
        RelayEvent::WriteFailed(detail) => {
            match relay.phase {
                RelayPhase::StatusLine => relay.broken(
                    request,
                    "status line",
                    detail.as_str(),
                    true,
                ),
                RelayPhase::Headers => relay.broken(request, "headers", detail.as_str(), true),
                RelayPhase::Chunk | RelayPhase::Terminator => relay.broken(
                    request,
                    "body",
                    detail.as_str(),
                    true,
                ),
                _ => relay.ended(RelayEnd::Dropped),
            }
        },
        RelayEvent::Data(data) => {
            match relay.phase {
                RelayPhase::Body => {
                    push_bytes(&mut relay.carry, &data);
                    let k = complete_prefix(&relay.carry);
                    if k == 0 {
                        assert(relay.carry@.skip(0) =~= relay.carry@);
                        RelayAction::ReadMore
                    } else {
                        let framed = frame_pieces(&relay.carry, k);
                        let mut rest: Vec<u8> = Vec::new();
                        let mut i: usize = k;
                        while i < relay.carry.len()
                            invariant
                                k <= i <= relay.carry.len(),
                                rest@ == relay.carry@.subrange(k as int, i as int),
                            decreases relay.carry.len() - i,
                        {
                            rest.push(relay.carry[i]);
                            assert(rest@ =~= relay.carry@.subrange(k as int, i + 1));
                            i += 1;
                        }
                        assert(rest@ =~= relay.carry@.skip(k as int));
                        relay.carry = rest;
                        relay.hand_out(RelayPhase::Chunk, framed)
                    }
                },
                _ => relay.ended(RelayEnd::Dropped),
            }
        },
        RelayEvent::EndOfBody => {
            match relay.phase {
                RelayPhase::Body => {
                    let mut framed = frame_pieces(&relay.carry, relay.carry.len());
                    assert(relay.carry@.take(relay.carry.len() as int) =~= relay.carry@);
                    let last = end_of_body();
                    push_bytes(&mut framed, &last);
                    relay.carry = Vec::new();
                    relay.hand_out(RelayPhase::Terminator, framed)
                },
                _ => relay.ended(RelayEnd::Dropped),
            }
        },
        RelayEvent::ReadFailed(detail) => {
            match relay.phase {
                RelayPhase::Body => relay.broken(request, "body", detail.as_str(), false),
                _ => relay.ended(RelayEnd::Dropped),
            }
        },
        RelayEvent::RequestFailed => relay.ended(RelayEnd::Dropped),
    }
}

impl RelayView {
    /// The states that a relay driven from `new` can be in: the token is
    /// held exactly from the request of the backend to the end.
    pub open spec fn coherent(&self) -> bool {
        self.holds_reader <==> (self.phase != RelayPhase::Idle && self.phase
            != RelayPhase::AwaitingReader && self.phase != RelayPhase::Finished)
    }
}

/// The backend is asked and read only under a reader's hold of the
/// exclusion token, and every end gives the hold back: each step keeps a
/// coherent state coherent.
pub proof fn lemma_relay_holds_reader(r: RelayView, request: ProxyMessage, e: RelayEventView)
    requires
        r.coherent(),
    ensures
        relay_step(r, request, e).0.coherent(),
        (relay_step(r, request, e).1 is AskBackend || relay_step(r, request, e).1 is ReadMore)
            ==> relay_step(r, request, e).0.holds_reader,
        relay_step(r, request, e).1 matches RelayActionView::Finish { release_reader, .. }
            ==> !relay_step(r, request, e).0.holds_reader && release_reader == (r.holds_reader
            || e is ReaderAcquired),
{
}

/// The mirror holds what the hub has taken and nothing else: bytes handed
/// out wait until they are written, are added to the mirror when they are,
/// and no other event changes the mirror.
pub proof fn lemma_relay_mirror(r: RelayView, request: ProxyMessage, e: RelayEventView)
    ensures
        relay_step(r, request, e).1 matches RelayActionView::Write(bytes) ==> relay_step(
            r,
            request,
            e,
        ).0.pending == bytes,
        e is Written && (r.phase == RelayPhase::StatusLine || r.phase == RelayPhase::Headers
            || r.phase == RelayPhase::Chunk || r.phase == RelayPhase::Terminator) ==> relay_step(
            r,
            request,
            e,
        ).0.mirror == r.mirror + r.pending,
        !(e is Written) ==> relay_step(r, request, e).0.mirror == r.mirror,
{
}

} // verus!
