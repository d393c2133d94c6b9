//! HTTP requests and responses, line by line.

use vstd::prelude::*;
use vstd::utf8::*;

use crate::decimal;
use crate::error;
use crate::error::IoErrorKind;
use crate::http;
use crate::http::HeadProgress;
use crate::json;
use crate::laws::texts;
use crate::text;

verus! {

/// The phrase that goes with a status.
pub open spec fn phrase(status: u16) -> Seq<char> {
    match status {
        202 => "Accepted"@,
        400 => "Bad Request"@,
        401 => "Unauthorized"@,
        404 => "Not Found"@,
        409 => "Conflict"@,
        431 => "Request Header Fields Too Large"@,
        500 => "Internal Server Error"@,
        502 => "Bad Gateway"@,
        503 => "Service Unavailable"@,
        504 => "Gateway Timeout"@,
        _ => "OK"@,
    }
}

/// A response gives its status and its phrase, its content type, the number of
/// bytes in its body, and then the body.
pub proof fn responses_give_status_type_and_length(reply: http::ReplyView) -> (numerals: (
    Seq<char>,
    Seq<char>,
))
    ensures
        decimal::decimal_value(numerals.0) == Some(reply.status as nat),
        decimal::decimal_value(numerals.1) == Some(reply.body.len()),
        numerals.0 == decimal::decimal_text(reply.status as nat),
        numerals.1 == decimal::decimal_text(reply.body.len()),
        http::response_bytes(reply) == encode_utf8(
            "HTTP/1.1 "@ + numerals.0 + " "@ + phrase(reply.status) + "\r\ncontent-type: "@
                + reply.content_type + "\r\ncontent-length: "@ + numerals.1
                + "\r\nconnection: close\r\n\r\n"@,
        ) + reply.body,
{
    decimal::decimal_reads_back(reply.status as nat);
    decimal::decimal_reads_back(reply.body.len());
    assert(http::reason_phrase(reply.status) == phrase(reply.status));
    (decimal::decimal_text(reply.status as nat), decimal::decimal_text(reply.body.len()))
}

/// Whether a blank line ends in front of place `i`.
pub open spec fn blank_line_ends_at(s: Seq<u8>, i: int) -> bool {
    ||| i >= 2 && s[i - 1] == 10 && s[i - 2] == 10
    ||| i >= 4 && s[i - 1] == 10 && s[i - 2] == 13 && s[i - 3] == 10 && s[i - 4] == 13
}

/// A head ends with a blank line where its last bytes are two line feeds, or two
/// line feeds with a carriage return before each.
pub proof fn blank_lines_end_heads(s: Seq<u8>, i: int)
    requires
        0 <= i <= s.len(),
    ensures
        http::ends_with_blank_line(s.take(i)) == blank_line_ends_at(s, i),
{
    let head = s.take(i);
    if i >= 2 {
        let two = head.skip(i - 2);
        assert(two[0] == s[i - 2] && two[1] == s[i - 1]);
        if s[i - 1] == 10 && s[i - 2] == 10 {
            assert(two =~= seq![10u8, 10u8]);
        }
    }
    if i >= 4 {
        let four = head.skip(i - 4);
        assert(four[0] == s[i - 4] && four[1] == s[i - 3] && four[2] == s[i - 2] && four[3] == s[i
            - 1]);
        if s[i - 1] == 10 && s[i - 2] == 13 && s[i - 3] == 10 && s[i - 4] == 13 {
            assert(four =~= seq![13u8, 10u8, 13u8, 10u8]);
        }
    }
}

/// Where a response is cut at its first blank line, the line `content-length` in
/// front of it gives the number of bytes behind it, and these are the body. Gives
/// the place of the cut, what stands before and after the line, and its numeral.
pub proof fn content_length_counts_what_follows(reply: http::ReplyView) -> (cut: (
    int,
    Seq<u8>,
    Seq<char>,
    Seq<u8>,
))
    requires
        !reply.content_type.contains('\n'),
    ensures
        ({
            let bytes = http::response_bytes(reply);
            let (n, before, numeral, after) = cut;
            &&& 0 <= n <= bytes.len()
            &&& blank_line_ends_at(bytes, n)
            &&& forall|i: int| 0 <= i < n ==> !#[trigger] blank_line_ends_at(bytes, i)
            &&& bytes.take(n) == before + encode_utf8(
                "\r\ncontent-length: "@ + numeral + "\r\n"@,
            ) + after
            &&& decimal::decimal_value(numeral) == Some((bytes.len() - n) as nat)
            &&& bytes.skip(n) == reply.body
        }),
{
    let bytes = http::response_bytes(reply);
    let (code, numeral) = responses_give_status_type_and_length(reply);
    let front = "HTTP/1.1 "@ + code + " "@ + phrase(reply.status) + "\r\ncontent-type: "@
        + reply.content_type;
    let line = "\r\ncontent-length: "@ + numeral + "\r\n"@;
    let back = "connection: close\r\n\r\n"@;
    let head = "HTTP/1.1 "@ + code + " "@ + phrase(reply.status) + "\r\ncontent-type: "@
        + reply.content_type + "\r\ncontent-length: "@ + numeral
        + "\r\nconnection: close\r\n\r\n"@;
    assert("\r\nconnection: close\r\n\r\n"@ =~= "\r\n"@ + back) by {
        reveal_strlit("\r\nconnection: close\r\n\r\n");
        reveal_strlit("\r\n");
        reveal_strlit("connection: close\r\n\r\n");
    }
    assert(head =~= front + line + back);
    text::encode_utf8_joins(front + line, back);
    text::encode_utf8_joins(front, line);
    let n = encode_utf8(head).len() as int;
    lemma_cut_where_the_head_ends(reply, encode_utf8(head));
    assert(bytes.take(n) =~= encode_utf8(head));
    assert forall|i: int| 0 <= i < n implies !#[trigger] blank_line_ends_at(bytes, i) by {
        blank_lines_end_heads(bytes, i);
    }
    blank_lines_end_heads(bytes, n);
    (n, encode_utf8(front), numeral, encode_utf8(back))
}

/// The head of a response is what its first blank line ends.
proof fn lemma_cut_where_the_head_ends(reply: http::ReplyView, head: Seq<u8>)
    requires
        !reply.content_type.contains('\n'),
        http::response_bytes(reply) == head + reply.body,
    ensures
        http::ends_with_blank_line(http::response_bytes(reply).take(head.len() as int)),
        forall|i: int|
            0 <= i < head.len() ==> !http::ends_with_blank_line(
                #[trigger] http::response_bytes(reply).take(i),
            ),
        http::response_bytes(reply).skip(head.len() as int) == reply.body,
{
    let bytes = http::response_bytes(reply);
    http::responses_part_at_the_first_blank_line(reply);
    let m = encode_utf8(
        http::response_head(reply.status, reply.content_type, reply.body.len()),
    ).len();
    assert(bytes.len() == m + reply.body.len());
    assert(bytes.skip(head.len() as int) =~= reply.body);
}

/// A request's head is complete with its blank line, however long it is; without
/// one it is too long beyond 64 KiB, and otherwise more is wanted. An empty line
/// means that nothing more comes.
pub proof fn heads_are_read_to_the_blank_line(head: Seq<u8>, line: Seq<u8>)
    ensures
        line.len() == 0 ==> http::progress_at(head, line) == HeadProgress::Closed,
        line.len() > 0 && blank_line_ends_at(head, head.len() as int) ==> http::progress_at(
            head,
            line,
        ) == HeadProgress::Complete,
        line.len() > 0 && !blank_line_ends_at(head, head.len() as int) && head.len() > 65536
            ==> http::progress_at(head, line) == HeadProgress::TooLarge,
        line.len() > 0 && !blank_line_ends_at(head, head.len() as int) && head.len() <= 65536
            ==> http::progress_at(head, line) == HeadProgress::More,
{
    blank_lines_end_heads(head, head.len() as int);
    assert(head.take(head.len() as int) =~= head);
}

/// Whether a name is `name`, whatever the case of its letters.
pub open spec fn is_named(given: Seq<char>, name: Seq<char>) -> bool {
    given.len() == name.len() && forall|i: int|
        0 <= i < given.len() ==> texts::same_letter(#[trigger] given[i], name[i])
}

/// The last header of a name counts, and a request without one has no body and no
/// content type.
pub proof fn last_headers_count(headers: Seq<http::HeaderView>, header: http::HeaderView)
    ensures
        http::content_length(Seq::<http::HeaderView>::empty()) == 0,
        http::content_length(headers.push(header)) == if is_named(header.name, "content-length"@) {
            http::length_given(header.value)
        } else {
            http::content_length(headers)
        },
        http::content_type(Seq::<http::HeaderView>::empty()) == Seq::<char>::empty(),
        http::content_type(headers.push(header)) == if is_named(header.name, "content-type"@) {
            text::lossy(header.value)
        } else {
            http::content_type(headers)
        },
{
    let more = headers.push(header);
    assert(more.drop_last() =~= headers);
    texts::texts_are_compared_letter_by_letter(header.name, "content-length"@);
    texts::texts_are_compared_letter_by_letter(header.name, "content-type"@);
}

/// A length is the number that its numeral stands for, with white space around it
/// or not; what is no such number counts as zero.
pub proof fn lengths_are_what_their_numerals_say(
    front: Seq<char>,
    numeral: Seq<char>,
    back: Seq<char>,
    value: Seq<u8>,
)
    requires
        forall|i: int|
            0 <= i < front.len() ==> texts::white_space_code_points().contains(
                (#[trigger] front[i]) as u32,
            ),
        forall|i: int|
            0 <= i < back.len() ==> texts::white_space_code_points().contains(
                (#[trigger] back[i]) as u32,
            ),
        numeral.len() > 0 ==> !texts::white_space_code_points().contains(numeral[0] as u32)
            && !texts::white_space_code_points().contains(numeral.last() as u32),
    ensures
        http::length_given(encode_utf8(front + numeral + back)) == (
        match decimal::decimal_value(numeral) {
            Some(n) if n <= usize::MAX => n as usize,
            _ => 0,
        }),
        !valid_utf8(value) ==> http::length_given(value) == 0,
{
    let all = front + numeral + back;
    encode_utf8_valid_utf8(all);
    encode_utf8_decode_utf8(all);
    texts::white_space_is_trimmed_from_the_ends(front, numeral, back);
}

/// A head that was parsed gives the request its method and its target, and the
/// defaults where these are missing; one that is cut short is a bad request, and
/// one that cannot be parsed ends the connection with the parser's message.
pub proof fn parsed_heads_become_requests(head: http::HeadView, message: Seq<char>)
    ensures
        http::outcome_for(Ok(Some(head))) matches http::HeadOutcomeView::Request(request) && {
            &&& head.method matches Some(method) ==> request.method == method
            &&& head.method is None ==> request.method == ""@
            &&& head.path matches Some(path) ==> request.target == path
            &&& head.path is None ==> request.target == "/"@
            &&& request.content_length == http::content_length(head.headers)
            &&& request.content_type == http::content_type(head.headers)
        },
        http::outcome_for(Ok(None)) matches http::HeadOutcomeView::Reply(reply) && reply.status
            == 400 && is_error(reply, "bad_request"@, None),
        http::outcome_for(Err(message)) == http::HeadOutcomeView::Fail(
            error::IoErrorView { kind: IoErrorKind::InvalidData, message },
        ),
        http::MAX_HEADERS == 64,
        http::MAX_HEAD_LEN == 65536,
{
    errors_are_reported_as_json(400, "bad_request"@, None);
}

/// Whether a response carries, as JSON, an object with the error and the detail
/// given and nothing else.
pub open spec fn is_error(
    reply: http::ReplyView,
    error: Seq<char>,
    detail: Option<Seq<char>>,
) -> bool {
    exists|fields: Map<Seq<char>, json::JsonView>| #[trigger]
        carries(reply, json::JsonView::Object(fields)) && is_error_fields(fields, error, detail)
}

/// Whether a response carries a value as JSON text.
pub open spec fn carries(reply: http::ReplyView, value: json::JsonView) -> bool {
    reply.content_type == "application/json"@ && reply.body == encode_utf8(
        json::json_rendering(value),
    )
}

/// Whether an object has the error and the detail given and nothing else.
pub open spec fn is_error_fields(
    fields: Map<Seq<char>, json::JsonView>,
    error: Seq<char>,
    detail: Option<Seq<char>>,
) -> bool {
    &&& fields.contains_key("error"@) && fields["error"@] == json::JsonView::Text(error)
    &&& detail matches Some(text) ==> fields.contains_key("detail"@) && fields["detail"@]
        == json::JsonView::Text(text)
    &&& detail is None ==> !fields.contains_key("detail"@)
    &&& forall|name: Seq<char>| #[trigger]
        fields.contains_key(name) ==> name == "error"@ || name == "detail"@
}

/// A response that reports an error has the status given, and its body is the
/// JSON text of an object with just the error and, where there is one, the detail.
pub proof fn errors_are_reported_as_json(status: u16, error: Seq<char>, detail: Option<Seq<char>>)
    ensures
        http::error_reply(status, error, detail).status == status,
        is_error(http::error_reply(status, error, detail), error, detail),
        http::error_object(error, detail) matches json::JsonView::Object(fields)
            && is_error_fields(fields, error, detail),
{
    reveal_strlit("error");
    reveal_strlit("detail");
    assert("error"@.len() != "detail"@.len());
    let object = http::error_object(error, detail);
    let fields = object->Object_0;
    assert(is_error_fields(fields, error, detail));
    assert(carries(
        http::error_reply(status, error, detail),
        json::JsonView::Object(fields),
    ));
}

/// A response that carries JSON has the status given, says so, and has the text
/// of the value for its body.
pub proof fn json_responses_carry_the_value(status: u16, value: json::JsonView)
    ensures
        http::json_reply(status, value).status == status,
        carries(http::json_reply(status, value), value),
{
}

} // verus!
