//! HTTP requests and responses on the wire.

use vstd::prelude::*;
use vstd::slice::slice_to_vec;
use vstd::utf8::*;
#[allow(unused_imports)]
use vstd::string::*;

use crate::decimal;
use crate::decimal::{parse_decimal, push_decimal};
use crate::error;
use crate::error::{IoError, IoErrorKind};
use crate::json;
use crate::json::{insert_field, Json};
use crate::text;
use crate::text::{eq_ignore_ascii_case, lossy_text, trim, utf8_text};
use crate::wire;

verus! {

/// A response to be sent.
#[derive(Debug)]
pub struct Reply {
    pub status: u16,
    pub content_type: String,
    pub body: Vec<u8>,
}

/// What a [`Reply`] holds.
pub ghost struct ReplyView {
    pub status: u16,
    pub content_type: Seq<char>,
    pub body: Seq<u8>,
}

impl View for Reply {
    type V = ReplyView;

    open spec fn view(&self) -> ReplyView {
        ReplyView { status: self.status, content_type: self.content_type@, body: self.body@ }
    }
}

/// The response that carries `body` as JSON.
pub open spec fn json_reply(status: u16, body: json::JsonView) -> ReplyView {
    ReplyView {
        status,
        content_type: "application/json"@,
        body: encode_utf8(json::json_rendering(body)),
    }
}

/// Makes the response that carries `body` as JSON.
pub fn write_json(status: u16, body: &Json) -> (reply: Reply)
    ensures
        reply@ == json_reply(status, body@),
        json::read_back(body@) ==> json::reads_as(reply.body@, body@),
{
    let text = body.to_text();
    Reply {
        status,
        content_type: "application/json".to_owned(),
        body: slice_to_vec(text.as_str().as_bytes()),
    }
}

/// An object with the field `error`, and `detail` where there is one.
pub open spec fn error_object(error: Seq<char>, detail: Option<Seq<char>>) -> json::JsonView {
    let fields = Map::<Seq<char>, json::JsonView>::empty().insert(
        "error"@,
        json::JsonView::Text(error),
    );
    match detail {
        Some(text) => json::JsonView::Object(fields.insert("detail"@, json::JsonView::Text(text))),
        None => json::JsonView::Object(fields),
    }
}

/// The response that reports an error.
pub open spec fn error_reply(status: u16, error: Seq<char>, detail: Option<Seq<char>>) -> ReplyView {
    json_reply(status, error_object(error, detail))
}

proof fn lemma_error_object(error: Seq<char>, detail: Option<Seq<char>>)
    ensures
        json::read_back(error_object(error, detail)),
{
    reveal_with_fuel(json::plain_within, 2);
}

/// Makes the response that reports an error without detail.
pub fn write_error(status: u16, error: &str) -> (reply: Reply)
    ensures
        reply@ == error_reply(status, error@, None),
        json::reads_as(reply.body@, error_object(error@, None)),
{
    let mut fields: Vec<(String, Json)> = Vec::new();
    insert_field(&mut fields, "error", Json::text(error));
    proof {
        lemma_error_object(error@, None);
    }
    write_json(status, &Json::Object(fields))
}

/// Makes the response that reports an error and its detail.
pub fn write_error_detail(status: u16, error: &str, detail: &str) -> (reply: Reply)
    ensures
        reply@ == error_reply(status, error@, Some(detail@)),
        json::reads_as(reply.body@, error_object(error@, Some(detail@))),
{
    let mut fields: Vec<(String, Json)> = Vec::new();
    insert_field(&mut fields, "error", Json::text(error));
    insert_field(&mut fields, "detail", Json::text(detail));
    proof {
        lemma_error_object(error@, Some(detail@));
    }
    write_json(status, &Json::Object(fields))
}

/// The reason phrase for a status.
pub open spec fn reason_phrase(status: u16) -> Seq<char> {
    if status == 202 {
        "Accepted"@
    } else if status == 400 {
        "Bad Request"@
    } else if status == 401 {
        "Unauthorized"@
    } else if status == 404 {
        "Not Found"@
    } else if status == 409 {
        "Conflict"@
    } else if status == 431 {
        "Request Header Fields Too Large"@
    } else if status == 500 {
        "Internal Server Error"@
    } else if status == 502 {
        "Bad Gateway"@
    } else if status == 503 {
        "Service Unavailable"@
    } else if status == 504 {
        "Gateway Timeout"@
    } else {
        "OK"@
    }
}

fn reason(status: u16) -> (phrase: &'static str)
    ensures
        phrase@ == reason_phrase(status),
{
    match status {
        200 => "OK",
        202 => "Accepted",
        400 => "Bad Request",
        401 => "Unauthorized",
        404 => "Not Found",
        409 => "Conflict",
        431 => "Request Header Fields Too Large",
        500 => "Internal Server Error",
        502 => "Bad Gateway",
        503 => "Service Unavailable",
        504 => "Gateway Timeout",
        _ => "OK",
    }
}

/// The lines of a response before its body.
pub open spec fn response_head(status: u16, content_type: Seq<char>, body_len: nat) -> Seq<char> {
    "HTTP/1.1 "@ + decimal::decimal_text(status as nat) + " "@ + reason_phrase(status)
        + "\r\ncontent-type: "@ + content_type + "\r\ncontent-length: "@ + decimal::decimal_text(
        body_len,
    ) + "\r\nconnection: close\r\n\r\n"@
}

/// The bytes of a response.
pub open spec fn response_bytes(reply: ReplyView) -> Seq<u8> {
    encode_utf8(response_head(reply.status, reply.content_type, reply.body.len())) + reply.body
}

/// Writes a response.
pub fn write_response(reply: &Reply) -> (bytes: Vec<u8>)
    ensures
        bytes@ == response_bytes(reply@),
        bytes@.len() >= reply.body@.len() && bytes@.skip(bytes@.len() - reply.body@.len())
            == reply.body@,
{
    let mut head = String::new();
    head.append("HTTP/1.1 ");
    push_decimal(&mut head, reply.status as u64);
    head.append(" ");
    head.append(reason(reply.status));
    head.append("\r\ncontent-type: ");
    head.append(reply.content_type.as_str());
    head.append("\r\ncontent-length: ");
    push_decimal(&mut head, reply.body.len() as u64);
    head.append("\r\nconnection: close\r\n\r\n");
    assert(head@ =~= response_head(reply.status, reply.content_type@, reply.body@.len()));
    let mut out: Vec<u8> = Vec::new();
    wire::push_bytes(&mut out, head.as_str().as_bytes());
    wire::push_bytes(&mut out, reply.body.as_slice());
    assert(out@ =~= response_bytes(reply@));
    assert(out@.skip(out@.len() - reply.body@.len()) =~= reply.body@);
    out
}

/// The most bytes that the lines of a request may take before its body, when the
/// blank line that ends them has not come yet.
pub const MAX_HEAD_LEN: usize = 65536;

/// The most header fields that a request may have.
pub const MAX_HEADERS: usize = 64;

/// Where the reading of a request's head stands.
#[derive(Clone, Copy, Debug, PartialEq, Eq, Structural)]
pub enum HeadProgress {
    /// The client has sent nothing more.
    Closed,
    /// Another line is wanted.
    More,
    /// The blank line has come.
    Complete,
    /// The lines are too long.
    TooLarge,
}

/// Whether `head` ends with a blank line.
pub open spec fn ends_with_blank_line(head: Seq<u8>) -> bool {
    ||| head.len() >= 2 && head.skip(head.len() - 2) == seq![0x0au8, 0x0au8]
    ||| head.len() >= 4 && head.skip(head.len() - 4) == seq![0x0du8, 0x0au8, 0x0du8, 0x0au8]
}

/// Where the reading stands when the last line read was `line` and all lines
/// are `head`.
pub open spec fn progress_at(head: Seq<u8>, line: Seq<u8>) -> HeadProgress {
    if line.len() == 0 {
        HeadProgress::Closed
    } else if ends_with_blank_line(head) {
        HeadProgress::Complete
    } else if head.len() > MAX_HEAD_LEN {
        HeadProgress::TooLarge
    } else {
        HeadProgress::More
    }
}

fn blank_line_last(head: &[u8]) -> (yes: bool)
    ensures
        yes == ends_with_blank_line(head@),
{
    let n = head.len();
    if n < 2 {
        return false;
    }
    let short = head[n - 1] == 0x0a && head[n - 2] == 0x0a;
    let long = n >= 4 && head[n - 1] == 0x0a && head[n - 2] == 0x0d && head[n - 3] == 0x0a
        && head[n - 4] == 0x0d;
    proof {
        let two = head@.skip(n - 2);
        assert(two[0] == head@[n - 2] && two[1] == head@[n - 1]);
        assert(short == (two == seq![0x0au8, 0x0au8])) by {
            if short {
                assert(two =~= seq![0x0au8, 0x0au8]);
            }
        }
        if n >= 4 {
            let four = head@.skip(n - 4);
            assert(four[0] == head@[n - 4] && four[1] == head@[n - 3] && four[2] == head@[n - 2]
                && four[3] == head@[n - 1]);
            assert(long == (four == seq![0x0du8, 0x0au8, 0x0du8, 0x0au8])) by {
                if long {
                    assert(four =~= seq![0x0du8, 0x0au8, 0x0du8, 0x0au8]);
                }
            }
        }
    }
    short || long
}

/// Adds a line to the head of a request; an empty one means that the client has
/// sent nothing more.
pub fn read_head_line(head: &mut Vec<u8>, line: &[u8]) -> (progress: HeadProgress)
    ensures
        final(head)@ == old(head)@ + line@,
        progress == progress_at(final(head)@, line@),
{
    wire::push_bytes(head, line);
    if line.is_empty() {
        HeadProgress::Closed
    } else if blank_line_last(head.as_slice()) {
        HeadProgress::Complete
    } else if head.len() > MAX_HEAD_LEN {
        HeadProgress::TooLarge
    } else {
        HeadProgress::More
    }
}

/// The response to a request whose head is too long.
pub fn head_too_large() -> (reply: Reply)
    ensures
        reply@ == error_reply(431, "headers_too_large"@, None),
        json::reads_as(reply.body@, error_object("headers_too_large"@, None)),
{
    write_error(431, "headers_too_large")
}

/// A header field.
#[derive(Debug)]
pub struct HeaderField {
    pub name: String,
    pub value: Vec<u8>,
}

/// What a [`HeaderField`] holds.
pub ghost struct HeaderView {
    pub name: Seq<char>,
    pub value: Seq<u8>,
}

impl View for HeaderField {
    type V = HeaderView;

    open spec fn view(&self) -> HeaderView {
        HeaderView { name: self.name@, value: self.value@ }
    }
}

/// The head of a request, parsed.
#[derive(Debug)]
pub struct ParsedHead {
    pub method: Option<String>,
    pub path: Option<String>,
    pub headers: Vec<HeaderField>,
}

/// What a [`ParsedHead`] holds.
pub ghost struct HeadView {
    pub method: Option<Seq<char>>,
    pub path: Option<Seq<char>>,
    pub headers: Seq<HeaderView>,
}

pub open spec fn optional_text(text: Option<String>) -> Option<Seq<char>> {
    match text {
        Some(s) => Some(s@),
        None => None,
    }
}

impl View for ParsedHead {
    type V = HeadView;

    open spec fn view(&self) -> HeadView {
        HeadView {
            method: optional_text(self.method),
            path: optional_text(self.path),
            headers: self.headers@.map_values(|h: HeaderField| h@),
        }
    }
}

/// What came of parsing a head: the head, nothing where it is cut short, or the
/// message of the error.
pub open spec fn parsed(result: Result<Option<ParsedHead>, String>) -> Result<
    Option<HeadView>,
    Seq<char>,
> {
    match result {
        Ok(Some(head)) => Ok(Some(head@)),
        Ok(None) => Ok(None),
        Err(message) => Err(message@),
    }
}

/// What `httparse::Request::parse` makes of a head, with room for `max_headers`
/// header fields.
pub uninterp spec fn http_head(head: Seq<u8>, max_headers: nat) -> Result<
    Option<HeadView>,
    Seq<char>,
>;

/// Parses the head of a request. Calls `httparse::Request::parse`, of which it
/// claims that what it makes of a head, the text of its error included, depends
/// on the bytes and on the room for header fields alone. Which heads it accepts
/// is not stated.
#[verifier::external_body]
fn parse_head(head: &[u8], max_headers: usize) -> (result: Result<Option<ParsedHead>, String>)
    requires
        max_headers <= u16::MAX,
    ensures
        parsed(result) == http_head(head@, max_headers as nat),
{
    let mut room = vec![httparse::EMPTY_HEADER; max_headers];
    let mut request = httparse::Request::new(&mut room);
    match request.parse(head) {
        Err(e) => Err(e.to_string()),
        Ok(httparse::Status::Partial) => Ok(None),
        Ok(httparse::Status::Complete(_)) => Ok(Some(ParsedHead {
            method: request.method.map(String::from),
            path: request.path.map(String::from),
            headers: request.headers.iter()
                .map(|h| HeaderField { name: h.name.to_string(), value: h.value.to_vec() })
                .collect(),
        })),
    }
}

/// What the rest of a request is read and answered by.
#[derive(Debug)]
pub struct RequestHead {
    pub method: String,
    pub target: String,
    pub content_length: usize,
    pub content_type: String,
}

/// What a [`RequestHead`] holds.
pub ghost struct RequestView {
    pub method: Seq<char>,
    pub target: Seq<char>,
    pub content_length: usize,
    pub content_type: Seq<char>,
}

impl View for RequestHead {
    type V = RequestView;

    open spec fn view(&self) -> RequestView {
        RequestView {
            method: self.method@,
            target: self.target@,
            content_length: self.content_length,
            content_type: self.content_type@,
        }
    }
}

/// The length that a `content-length` field gives: none counts as zero, and so
/// does what is not a number that an address can hold.
pub open spec fn length_given(value: Seq<u8>) -> usize {
    if valid_utf8(value) {
        match decimal::decimal_value(text::trimmed(decode_utf8(value))) {
            Some(n) if n <= usize::MAX => n as usize,
            _ => 0,
        }
    } else {
        0
    }
}

/// The length that the last `content-length` field gives.
pub open spec fn content_length(headers: Seq<HeaderView>) -> usize
    decreases headers.len(),
{
    if headers.len() == 0 {
        0
    } else if text::equal_but_for_case(headers.last().name, "content-length"@) {
        length_given(headers.last().value)
    } else {
        content_length(headers.drop_last())
    }
}

/// The type that the last `content-type` field gives.
pub open spec fn content_type(headers: Seq<HeaderView>) -> Seq<char>
    decreases headers.len(),
{
    if headers.len() == 0 {
        seq![]
    } else if text::equal_but_for_case(headers.last().name, "content-type"@) {
        text::lossy(headers.last().value)
    } else {
        content_type(headers.drop_last())
    }
}

/// What the rest of a request with this head is read and answered by.
pub open spec fn request_of(head: HeadView) -> RequestView {
    RequestView {
        method: match head.method {
            Some(method) => method,
            None => ""@,
        },
        target: match head.path {
            Some(path) => path,
            None => "/"@,
        },
        content_length: content_length(head.headers),
        content_type: content_type(head.headers),
    }
}

/// What is done once the head of a request has been read.
#[derive(Debug)]
pub enum HeadOutcome {
    /// Read the body and answer the request.
    Request(RequestHead),
    /// Send this response.
    Reply(Reply),
    /// End with this error.
    Fail(IoError),
}

/// What a [`HeadOutcome`] says.
pub ghost enum HeadOutcomeView {
    Request(RequestView),
    Reply(ReplyView),
    Fail(error::IoErrorView),
}

impl View for HeadOutcome {
    type V = HeadOutcomeView;

    open spec fn view(&self) -> HeadOutcomeView {
        match self {
            HeadOutcome::Request(request) => HeadOutcomeView::Request(request@),
            HeadOutcome::Reply(reply) => HeadOutcomeView::Reply(reply@),
            HeadOutcome::Fail(error) => HeadOutcomeView::Fail(error@),
        }
    }
}

/// What is done about each outcome of parsing a head.
pub open spec fn outcome_for(parsed: Result<Option<HeadView>, Seq<char>>) -> HeadOutcomeView {
    match parsed {
        Ok(Some(head)) => HeadOutcomeView::Request(request_of(head)),
        Ok(None) => HeadOutcomeView::Reply(error_reply(400, "bad_request"@, None)),
        Err(message) => HeadOutcomeView::Fail(
            error::IoErrorView { kind: IoErrorKind::InvalidData, message },
        ),
    }
}

fn read_length(value: &[u8]) -> (n: usize)
    ensures
        n == length_given(value@),
{
    match utf8_text(slice_to_vec(value)) {
        Some(s) => match parse_decimal(trim(s.as_str()), usize::MAX as u64) {
            Some(n) => n as usize,
            None => 0,
        },
        None => 0,
    }
}

/// Decides what is done about the outcome of parsing a head.
pub fn request_from(result: Result<Option<ParsedHead>, String>) -> (outcome: HeadOutcome)
    ensures
        outcome@ == outcome_for(parsed(result)),
        outcome@ matches HeadOutcomeView::Reply(reply) ==> json::reads_as(
            reply.body,
            error_object("bad_request"@, None),
        ),
{
    let head = match result {
        Ok(Some(head)) => head,
        Ok(None) => return HeadOutcome::Reply(write_error(400, "bad_request")),
        Err(message) => return HeadOutcome::Fail(
            IoError { kind: IoErrorKind::InvalidData, message },
        ),
    };
    let ghost view = head@;
    let mut length: usize = 0;
    let mut kind = String::new();
    let mut i: usize = 0;
    assert(view.headers.take(0) =~= Seq::<HeaderView>::empty());
    while i < head.headers.len()
        invariant
            view == head@,
            i <= head.headers@.len(),
            length == content_length(view.headers.take(i as int)),
            kind@ == content_type(view.headers.take(i as int)),
        decreases head.headers@.len() - i,
    {
        assert(view.headers.take(i + 1).drop_last() =~= view.headers.take(i as int));
        assert(view.headers.take(i + 1).last() == head.headers@[i as int]@);
        if eq_ignore_ascii_case(head.headers[i].name.as_str(), "content-length") {
            length = read_length(head.headers[i].value.as_slice());
        }
        if eq_ignore_ascii_case(head.headers[i].name.as_str(), "content-type") {
            kind = lossy_text(head.headers[i].value.as_slice());
        }
        i += 1;
    }
    assert(view.headers.take(head.headers@.len() as int) =~= view.headers);
    let method = match head.method {
        Some(method) => method,
        None => "".to_owned(),
    };
    let target = match head.path {
        Some(path) => path,
        None => "/".to_owned(),
    };
    HeadOutcome::Request(
        RequestHead { method, target, content_length: length, content_type: kind },
    )
}

/// Decides what is done once the head of a request has been read.
pub fn read_request_head(head: &[u8]) -> (outcome: HeadOutcome)
    ensures
        outcome@ == outcome_for(http_head(head@, MAX_HEADERS as nat)),
        outcome@ matches HeadOutcomeView::Reply(reply) ==> json::reads_as(
            reply.body,
            error_object("bad_request"@, None),
        ),
{
    request_from(parse_head(head, MAX_HEADERS))
}

/// While another line is wanted, the head is within its bound.
pub proof fn unfinished_heads_are_bounded(head: Seq<u8>, line: Seq<u8>)
    requires
        progress_at(head, line) == HeadProgress::More,
    ensures
        head.len() <= MAX_HEAD_LEN,
        !ends_with_blank_line(head),
{
}

/// Lines, each with the two bytes that end it.
spec fn ended_lines(lines: Seq<Seq<u8>>) -> Seq<u8>
    decreases lines.len(),
{
    if lines.len() == 0 {
        seq![]
    } else {
        ended_lines(lines.drop_last()) + lines.last() + seq![0x0du8, 0x0au8]
    }
}

/// No blank line ends within lines that are not empty.
proof fn lemma_no_blank_line(lines: Seq<Seq<u8>>, i: int)
    requires
        forall|k: int|
            0 <= k < lines.len() ==> (#[trigger] lines[k]).len() > 0 && !lines[k].contains(0x0a),
        0 <= i <= ended_lines(lines).len(),
    ensures
        !ends_with_blank_line(ended_lines(lines).take(i)),
    decreases lines.len(),
{
    if lines.len() > 0 {
        let front = ended_lines(lines.drop_last());
        let line = lines.last();
        let whole = ended_lines(lines);
        let head = whole.take(i);
        if i <= front.len() {
            assert forall|k: int| 0 <= k < lines.drop_last().len() implies (
            #[trigger] lines.drop_last()[k]).len() > 0 && !lines.drop_last()[k].contains(
                0x0a,
            ) by {
                assert(lines.drop_last()[k] == lines[k]);
            }
            lemma_no_blank_line(lines.drop_last(), i);
            assert(head =~= front.take(i));
        } else {
            assert(lines[lines.len() - 1] == line);
            if i <= front.len() + line.len() {
                assert(head.last() == line[i - 1 - front.len()]);
                assert(line.contains(head.last()));
            } else if i == whole.len() {
                assert(head[i - 2] == 0x0d);
                assert(head[i - 3] == line[line.len() - 1]);
                assert(line.contains(head[i - 3]));
            } else {
                assert(head.last() == 0x0d);
            }
            lemma_last_bytes(head);
        }
    }
}

/// The last bytes of a head that ends with a blank line.
proof fn lemma_last_bytes(head: Seq<u8>)
    ensures
        ends_with_blank_line(head) ==> {
            let n = head.len();
            &&& n >= 2
            &&& head[n - 1] == 0x0a
            &&& head[n - 2] == 0x0a || (n >= 4 && head[n - 2] == 0x0d && head[n - 3] == 0x0a)
        },
{
    if ends_with_blank_line(head) {
        let n = head.len();
        assert(head.skip(n - 2)[0] == head[n - 2] && head.skip(n - 2)[1] == head[n - 1]);
        if n >= 4 {
            let four = head.skip(n - 4);
            assert(four[1] == head[n - 3] && four[2] == head[n - 2] && four[3] == head[n - 1]);
        }
    }
}

proof fn lemma_reason_phrase(status: u16)
    ensures
        !reason_phrase(status).contains('\n'),
{
    reveal_strlit("OK");
    reveal_strlit("Accepted");
    reveal_strlit("Bad Request");
    reveal_strlit("Unauthorized");
    reveal_strlit("Not Found");
    reveal_strlit("Conflict");
    reveal_strlit("Request Header Fields Too Large");
    reveal_strlit("Internal Server Error");
    reveal_strlit("Bad Gateway");
    reveal_strlit("Service Unavailable");
    reveal_strlit("Gateway Timeout");
}

proof fn lemma_line_end()
    ensures
        encode_utf8(seq!['\r', '\n']) == seq![0x0du8, 0x0au8],
{
    is_ascii_chars_encode_utf8(seq!['\r', '\n']);
    assert(encode_utf8(seq!['\r', '\n']) =~= seq![0x0du8, 0x0au8]);
}

/// Adds a line of text to lines that are ended.
proof fn lemma_add_line(lines: Seq<Seq<u8>>, line: Seq<char>) -> (longer: Seq<Seq<u8>>)
    requires
        line.len() > 0,
        !line.contains('\n'),
        forall|k: int|
            0 <= k < lines.len() ==> (#[trigger] lines[k]).len() > 0 && !lines[k].contains(0x0a),
    ensures
        forall|k: int|
            0 <= k < longer.len() ==> (#[trigger] longer[k]).len() > 0 && !longer[k].contains(0x0a),
        ended_lines(longer) == ended_lines(lines) + encode_utf8(line + seq!['\r', '\n']),
{
    let longer = lines.push(encode_utf8(line));
    text::lemma_no_ascii_byte(line, '\n');
    text::encode_utf8_joins(line, seq!['\r', '\n']);
    lemma_line_end();
    encode_utf8_first_scalar(line);
    assert(longer.drop_last() =~= lines);
    assert(ended_lines(longer) =~= ended_lines(lines) + encode_utf8(line + seq!['\r', '\n']));
    longer
}

/// The four lines of a response head.
spec fn head_lines(status: u16, content_type: Seq<char>, body_len: nat) -> (
    Seq<char>,
    Seq<char>,
    Seq<char>,
    Seq<char>,
) {
    (
        "HTTP/1.1 "@ + decimal::decimal_text(status as nat) + " "@ + reason_phrase(status),
        "content-type: "@ + content_type,
        "content-length: "@ + decimal::decimal_text(body_len),
        "connection: close"@,
    )
}

proof fn lemma_head_lines(status: u16, content_type: Seq<char>, body_len: nat)
    requires
        !content_type.contains('\n'),
    ensures
        ({
            let (a, b, c, d) = head_lines(status, content_type, body_len);
            let end = seq!['\r', '\n'];
            &&& a.len() > 0 && b.len() > 0 && c.len() > 0 && d.len() > 0
            &&& !a.contains('\n') && !b.contains('\n') && !c.contains('\n') && !d.contains('\n')
            &&& response_head(status, content_type, body_len) == (a + end) + (b + end) + (c + end)
                + (d + end) + end
        }),
{
    let (a, b, c, d) = head_lines(status, content_type, body_len);
    let end = seq!['\r', '\n'];
    reveal_strlit("HTTP/1.1 ");
    reveal_strlit(" ");
    reveal_strlit("content-type: ");
    reveal_strlit("content-length: ");
    reveal_strlit("connection: close");
    lemma_reason_phrase(status);
    decimal::lemma_decimal_text(status as nat);
    decimal::lemma_decimal_text(body_len);
    assert("\r\ncontent-type: "@ =~= end + "content-type: "@) by {
        reveal_strlit("\r\ncontent-type: ");
    }
    assert("\r\ncontent-length: "@ =~= end + "content-length: "@) by {
        reveal_strlit("\r\ncontent-length: ");
    }
    assert("\r\nconnection: close\r\n\r\n"@ =~= end + d + end + end) by {
        reveal_strlit("\r\nconnection: close\r\n\r\n");
    }
    assert(response_head(status, content_type, body_len) =~= (a + end) + (b + end) + (c + end) + (d
        + end) + end);
}

/// A client that reads a response up to the first blank line has read its head,
/// and what follows is the body. A content type with a line break in it, which
/// only the worker could give, is left out.
pub proof fn responses_part_at_the_first_blank_line(reply: ReplyView)
    requires
        !reply.content_type.contains('\n'),
    ensures
        ({
            let n = encode_utf8(
                response_head(reply.status, reply.content_type, reply.body.len()),
            ).len();
            &&& ends_with_blank_line(response_bytes(reply).take(n as int))
            &&& forall|i: int|
                0 <= i < n ==> !ends_with_blank_line(#[trigger] response_bytes(reply).take(i))
            &&& response_bytes(reply).skip(n as int) == reply.body
        }),
{
    let (a, b, c, d) = head_lines(reply.status, reply.content_type, reply.body.len());
    let end = seq!['\r', '\n'];
    let head = response_head(reply.status, reply.content_type, reply.body.len());
    let bytes = response_bytes(reply);
    lemma_head_lines(reply.status, reply.content_type, reply.body.len());
    let one = lemma_add_line(seq![], a);
    let two = lemma_add_line(one, b);
    let three = lemma_add_line(two, c);
    let four = lemma_add_line(three, d);
    text::encode_utf8_joins((a + end) + (b + end) + (c + end) + (d + end), end);
    text::encode_utf8_joins((a + end) + (b + end) + (c + end), d + end);
    text::encode_utf8_joins((a + end) + (b + end), c + end);
    text::encode_utf8_joins(a + end, b + end);
    lemma_line_end();
    let lines = ended_lines(four);
    assert(ended_lines(seq![]) + encode_utf8(a + end) =~= encode_utf8(a + end));
    assert(encode_utf8(head) =~= lines + seq![0x0du8, 0x0au8]);
    let n = encode_utf8(head).len();
    let front = bytes.take(n as int);
    let before = ended_lines(three) + encode_utf8(d);
    text::encode_utf8_joins(d, end);
    assert(lines =~= before + seq![0x0du8, 0x0au8]);
    assert(front =~= before + seq![0x0du8, 0x0au8, 0x0du8, 0x0au8]);
    assert(front.skip(n - 4) =~= seq![0x0du8, 0x0au8, 0x0du8, 0x0au8]);
    assert forall|i: int| 0 <= i < n implies !ends_with_blank_line(
        #[trigger] bytes.take(i),
    ) by {
        if i <= lines.len() {
            lemma_no_blank_line(four, i);
            assert(bytes.take(i) =~= lines.take(i));
        } else {
            assert(bytes.take(i).last() == 0x0d);
            lemma_last_bytes(bytes.take(i));
        }
    }
    assert(bytes.skip(n as int) =~= reply.body);
}

} // verus!
