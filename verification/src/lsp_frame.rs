//! The `Content-Length` framing of language-server messages, and the JSON-RPC
//! message shape the client reads.
use vstd::prelude::*;
use vstd::utf8::{valid_utf8, decode_utf8, encode_utf8};
use crate::text::{
    all_digits, chars_of, decimal, is_ascii_digit, is_ws, lead_ws, lemma_decimal_digits, trail_ws, trim_start, owned, parse_usize, parse_usize_spec, push_str, string_from_range, trim,
    trim_end, trim_end_str, trim_str, u64_to_decimal, utf8_decode,
};

verus! {

/// Why a framed message could not be read.
#[derive(Debug, Clone, Copy, PartialEq, Eq, Structural)]
pub enum FrameError {
    /// A header line is not UTF-8.
    HeaderNotUtf8,
    /// The `Content-Length` value is not a number.
    InvalidContentLength,
    /// The headers ended without a `Content-Length`.
    MissingContentLength,
    /// The body is not UTF-8.
    BodyNotUtf8,
}

impl FrameError {
    /// A human-readable description of the error.
    pub fn message(&self) -> (r: &'static str)
        ensures
            r@ == frame_error_message(*self),
    {
        match self {
            FrameError::HeaderNotUtf8 => "header UTF-8 error",
            FrameError::InvalidContentLength => "invalid Content-Length value",
            FrameError::MissingContentLength => "LSP message missing Content-Length header",
            FrameError::BodyNotUtf8 => "LSP message body is not UTF-8",
        }
    }
}

pub open spec fn frame_error_message(e: FrameError) -> Seq<char> {
    match e {
        FrameError::HeaderNotUtf8 => "header UTF-8 error"@,
        FrameError::InvalidContentLength => "invalid Content-Length value"@,
        FrameError::MissingContentLength => "LSP message missing Content-Length header"@,
        FrameError::BodyNotUtf8 => "LSP message body is not UTF-8"@,
    }
}

/// What reading one header line leads to.
#[derive(Debug, Clone, Copy, PartialEq, Eq, Structural)]
pub enum HeaderStep {
    /// The headers are over.
    End,
    /// Read the next header line; the content length known so far.
    Next(Option<usize>),
}

/// The name of the header that gives the body length.
pub open spec fn content_length_prefix() -> Seq<char> {
    "Content-Length:"@
}

/// A line that ends the headers: empty, `"\r\n"` or `"\n"`.
pub open spec fn is_blank_line(line: Seq<u8>) -> bool {
    line.len() == 0 || line == seq![13u8, 10u8] || line == seq![10u8]
}

/// The step after header line `line` (its line ending included), with
/// `content_length` known so far: a blank line ends the headers; a
/// `Content-Length:` header sets the length from its trimmed value; other
/// headers are skipped.
pub open spec fn header_step_spec(content_length: Option<usize>, line: Seq<u8>) -> Result<
    HeaderStep,
    FrameError,
> {
    if is_blank_line(line) {
        Ok(HeaderStep::End)
    } else if !valid_utf8(line) {
        Err(FrameError::HeaderNotUtf8)
    } else {
        let t = trim_end(decode_utf8(line));
        let p = content_length_prefix();
        if t.len() == 0 {
            Ok(HeaderStep::End)
        } else if t.len() >= p.len() && t.take(p.len() as int) == p {
            match parse_usize_spec(trim(t.skip(p.len() as int))) {
                Some(n) => Ok(HeaderStep::Next(Some(n))),
                None => Err(FrameError::InvalidContentLength),
            }
        } else {
            Ok(HeaderStep::Next(content_length))
        }
    }
}

fn is_blank(line: &[u8]) -> (r: bool)
    ensures
        r == is_blank_line(line@),
{
    let n = line.len();
    let r = n == 0 || (n == 2 && line[0] == 13 && line[1] == 10) || (n == 1 && line[0] == 10);
    proof {
        if n == 2 && line@ == seq![13u8, 10u8] {
            assert(line@[0] == 13 && line@[1] == 10);
        }
        if n == 1 && line@ == seq![10u8] {
            assert(line@[0] == 10);
        }
        if r && n == 2 {
            assert(line@ =~= seq![13u8, 10u8]);
        }
        if r && n == 1 {
            assert(line@ =~= seq![10u8]);
        }
    }
    r
}

/// Read one header line of a framed message.
pub fn header_step(content_length: Option<usize>, line: &[u8]) -> (r: Result<HeaderStep, FrameError>)
    ensures
        r == header_step_spec(content_length, line@),
{
    if is_blank(line) {
        return Ok(HeaderStep::End);
    }
    let text = match utf8_decode(line) {
        Some(t) => t,
        None => return Err(FrameError::HeaderNotUtf8),
    };
    let t = trim_end_str(text.as_str());
    let v = chars_of(t.as_str());
    if v.len() == 0 {
        return Ok(HeaderStep::End);
    }
    let prefix = chars_of("Content-Length:");
    proof {
        reveal_strlit("Content-Length:");
    }
    if crate::text::matches_at(&v, 0, &prefix) {
        assert(v@.subrange(0, prefix@.len() as int) =~= v@.take(prefix@.len() as int));
        let rest = string_from_range(&v, prefix.len(), v.len());
        assert(rest@ =~= v@.skip(prefix@.len() as int));
        let value = trim_str(rest.as_str());
        match parse_usize(value.as_str()) {
            Some(n) => Ok(HeaderStep::Next(Some(n))),
            None => Err(FrameError::InvalidContentLength),
        }
    } else {
        proof {
            if v@.len() >= prefix@.len() {
                assert(v@.subrange(0, prefix@.len() as int) =~= v@.take(prefix@.len() as int));
            }
        }
        Ok(HeaderStep::Next(content_length))
    }
}

/// The body length once the headers are over.
pub fn body_length(content_length: Option<usize>) -> (r: Result<usize, FrameError>)
    ensures
        r == match content_length {
            Some(n) => Ok::<usize, FrameError>(n),
            None => Err(FrameError::MissingContentLength),
        },
{
    match content_length {
        Some(n) => Ok(n),
        None => Err(FrameError::MissingContentLength),
    }
}

/// The text of a message body.
pub fn decode_body(body: &[u8]) -> (r: Result<String, FrameError>)
    ensures
        valid_utf8(body@) ==> (r matches Ok(s) && s@ == decode_utf8(body@)),
        !valid_utf8(body@) ==> r == Err::<String, FrameError>(FrameError::BodyNotUtf8),
{
    match utf8_decode(body) {
        Some(s) => Ok(s),
        None => Err(FrameError::BodyNotUtf8),
    }
}

/// The header written before a body of `len` bytes.
pub open spec fn frame_header_spec(len: nat) -> Seq<char> {
    "Content-Length: "@ + decimal(len) + "\r\n\r\n"@
}

fn append_bytes(out: &mut Vec<u8>, b: &[u8])
    ensures
        final(out)@ == old(out)@ + b@,
{
    let mut i: usize = 0;
    let ghost start = out@;
    while i < b.len()
        invariant
            i <= b@.len(),
            out@ == start + b@.take(i as int),
        decreases b@.len() - i,
    {
        out.push(b[i]);
        i += 1;
        assert(out@ =~= start + b@.take(i as int));
    }
    assert(b@.take(i as int) =~= b@);
}

/// The bytes sent for the JSON text `json`: a `Content-Length` header giving
/// its UTF-8 length, a blank line, then the text.
pub fn frame_message(json: &str) -> (r: Vec<u8>)
    ensures
        r@ == encode_utf8(frame_header_spec(encode_utf8(json@).len())) + encode_utf8(json@),
{
    let bytes = json.as_bytes();
    let mut header = owned("Content-Length: ");
    let n = u64_to_decimal(bytes.len() as u64);
    push_str(&mut header, n.as_str());
    push_str(&mut header, "\r\n\r\n");
    let mut out: Vec<u8> = Vec::new();
    append_bytes(&mut out, header.as_str().as_bytes());
    append_bytes(&mut out, bytes);
    assert(out@ =~= encode_utf8(header@) + encode_utf8(json@));
    out
}

/// The first header line of a frame whose body is `n` bytes long.
pub open spec fn length_line(n: nat) -> Seq<u8> {
    encode_utf8("Content-Length: "@ + decimal(n) + "\r\n"@)
}

proof fn lemma_digits_not_ws(d: Seq<char>)
    requires
        all_digits(d),
    ensures
        forall|i: int| 0 <= i < d.len() ==> !is_ws(#[trigger] d[i]) && d[i] != '\n' && d[i] <= '\u{7f}',
{
    assert forall|i: int| 0 <= i < d.len() implies !is_ws(#[trigger] d[i]) && d[i] != '\n' && d[i] <= '\u{7f}' by {
        assert(is_ascii_digit(d[i]));
    }
}

/// What `frame_message` writes reads back: the frame is the length line, a
/// blank line and the body; the length line ends at its only newline byte
/// and, read as the first header line, gives the body's length; the blank
/// line then ends the headers; and the body decodes to the framed text.
pub proof fn lemma_frame_reads_back(json: Seq<char>)
    requires
        encode_utf8(json).len() <= usize::MAX,
    ensures
        ({
            let body = encode_utf8(json);
            let n = body.len();
            let line = length_line(n);
            &&& encode_utf8(frame_header_spec(n)) + body == line + seq![13u8, 10u8] + body
            &&& line.len() > 0 && line.last() == 10u8
            &&& forall|i: int| 0 <= i < line.len() - 1 ==> line[i] != 10u8
            &&& header_step_spec(None, line) == Ok::<HeaderStep, FrameError>(HeaderStep::Next(Some(n as usize)))
            &&& header_step_spec(Some(n as usize), seq![13u8, 10u8]) == Ok::<HeaderStep, FrameError>(HeaderStep::End)
            &&& valid_utf8(body) && decode_utf8(body) == json
        }),
{
    broadcast use vstd::utf8::group_utf8_lib;
    let body = encode_utf8(json);
    let n = body.len();
    let h = "Content-Length: "@;
    let crlf = "\r\n"@;
    let d = decimal(n);
    let x = h + d + crlf;
    let line = length_line(n);
    reveal_strlit("Content-Length: ");
    reveal_strlit("Content-Length:");
    reveal_strlit("\r\n");
    reveal_strlit("\r\n\r\n");
    lemma_decimal_digits(n);
    lemma_digits_not_ws(d);
    assert(vstd::utf8::is_ascii_chars(h));
    assert(vstd::utf8::is_ascii_chars(x));
    vstd::utf8::is_ascii_chars_encode_utf8(x);
    // The frame's header is the length line and a blank line.
    let full = frame_header_spec(n);
    assert(full =~= x + crlf);
    assert(vstd::utf8::is_ascii_chars(full));
    vstd::utf8::is_ascii_chars_encode_utf8(full);
    assert(encode_utf8(full) =~= line + seq![13u8, 10u8]);
    // Only the last byte of the length line is a newline.
    assert forall|i: int| 0 <= i < line.len() - 1 implies line[i] != 10u8 by {
        assert(line[i] == x[i] as u8);
        if i < h.len() {
            assert(x[i] == h[i]);
        } else if i < h.len() + d.len() {
            assert(x[i] == d[i - h.len()]);
        } else {
            assert(x[i] == '\r');
        }
    }
    assert(line.last() == x.last() as u8);
    // The header line parses to the length.
    assert(decode_utf8(line) == x);
    let hd = h + d;
    assert(crlf =~= seq!['\r', '\n']);
    assert(x.drop_last() =~= hd.push('\r'));
    assert(x.drop_last().drop_last() =~= hd);
    assert(hd.last() == d.last());
    assert(trail_ws(hd) == 0);
    assert(x.last() == '\n' && is_ws('\n'));
    assert(x.drop_last().last() == '\r' && is_ws('\r'));
    assert(trail_ws(x.drop_last()) == 1);
    assert(trail_ws(x) == 2);
    assert(trim_end(x) =~= hd);
    let p = content_length_prefix();
    assert(hd.take(p.len() as int) =~= p);
    let rest = hd.skip(p.len() as int);
    assert(rest =~= " "@ + d) by {
        reveal_strlit(" ");
    }
    reveal_strlit(" ");
    assert(rest.drop_first() =~= d);
    assert(lead_ws(d) == 0);
    assert(lead_ws(rest) == 1);
    assert(trim_start(rest) =~= d);
    assert(trail_ws(d) == 0);
    assert(trim(rest) =~= d);
    assert(parse_usize_spec(d) == Some(n as usize));
    assert(!is_blank_line(line));
}

// ---------------------------------------------------------------------------
// Messages
// ---------------------------------------------------------------------------

/// `Clone::clone` on `serde_json::Value` (derived there): a copy of the value.
/// Nothing is stated of the copy, which is opaque here.
pub assume_specification [<serde_json::Value as Clone>::clone](v: &serde_json::Value) -> (r: serde_json::Value);

/// The id of a JSON-RPC message: an integer that fits in `i64`, or any other
/// JSON value (a string, a fraction, a larger number), kept as it came.
#[derive(Debug, Clone)]
pub enum MessageId {
    Number(i64),
    Other(serde_json::Value),
}

/// The integer id of a message, when it has one.
pub open spec fn numeric_id_spec(id: Option<MessageId>) -> Option<i64> {
    match id {
        Some(MessageId::Number(n)) => Some(n),
        _ => None,
    }
}

/// A JSON-RPC 2.0 message, covering requests, responses, and notifications.
#[derive(Debug, Clone)]
pub struct JsonRpcMessage {
    pub jsonrpc: String,
    pub id: Option<MessageId>,
    pub method: Option<String>,
    pub params: Option<serde_json::Value>,
    pub result: Option<serde_json::Value>,
    pub error: Option<JsonRpcError>,
}

/// A JSON-RPC 2.0 error object.
#[derive(Debug, Clone)]
pub struct JsonRpcError {
    pub code: i32,
    pub message: String,
    pub data: Option<serde_json::Value>,
}

impl JsonRpcMessage {
    /// Returns `true` when this message is a request (has both `id` and `method`).
    pub fn is_request(&self) -> (r: bool)
        ensures
            r == (self.id is Some && self.method is Some),
    {
        self.id.is_some() && self.method.is_some()
    }

    /// Returns `true` when this message is a response (has `id` but no `method`).
    pub fn is_response(&self) -> (r: bool)
        ensures
            r == (self.id is Some && self.method is None),
    {
        self.id.is_some() && self.method.is_none()
    }

    /// Returns `true` when this message is a notification (has `method` but no `id`).
    pub fn is_notification(&self) -> (r: bool)
        ensures
            r == (self.id is None && self.method is Some),
    {
        self.id.is_none() && self.method.is_some()
    }

    /// Extract the numeric ID, if present and numeric.
    pub fn numeric_id(&self) -> (r: Option<i64>)
        ensures
            r == numeric_id_spec(self.id),
    {
        match &self.id {
            Some(MessageId::Number(n)) => Some(*n),
            _ => None,
        }
    }
}

} // verus!
