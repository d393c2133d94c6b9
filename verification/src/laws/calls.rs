//! What the callers of the library's functions get back.

use vstd::prelude::*;
use vstd::utf8::*;

use crate::apple;
#[allow(unused_imports)]
use crate::apple::AppleStep;
use crate::batch;
use crate::config;
use crate::decimal;
use crate::decrypt;
#[allow(unused_imports)]
use crate::decrypt::{DecryptFrame, DecryptReply, DecryptStep, FrameHeader};
#[allow(unused_imports)]
use crate::error::{IoError, IoErrorKind};
use crate::health;
#[allow(unused_imports)]
use crate::health::WorkerHealth;
use crate::http;
#[allow(unused_imports)]
use crate::http::{HeadOutcome, HeadProgress, ParsedHead, Reply};
use crate::json;
#[allow(unused_imports)]
use crate::json::Json;
use crate::laws::batches;
use crate::laws::frames;
use crate::laws::messages;
use crate::laws::relays;
use crate::query;
#[allow(unused_imports)]
use crate::query::QueryParams;
use crate::routes;
#[allow(unused_imports)]
use crate::routes::{Action, BodyRoute, Route};
use crate::text;
use crate::wire;
use crate::worker;
#[allow(unused_imports)]
use crate::worker::{WorkerError, WorkerResponse};

verus! {

/// Passing on an answer of the worker gives a response with its status, its
/// content type and its bytes; passing on its failure tells of it.
pub proof fn proxy_json_passes_answers_on(
    result: Result<WorkerResponse, WorkerError>,
    reply: Reply,
)
    requires
        call_ensures(worker::proxy_json, (result,), reply),
    ensures
        result matches Ok(r) ==> reply.status == r.http_status && reply.content_type@
            == r.content_type@ && reply.body@ == r.body@,
        result matches Err(e) ==> reply.status == 503 && messages::is_error(
            reply@,
            "worker_unavailable"@,
            Some(e.message@),
        ),
{
    if let Err(e) = result {
        messages::errors_are_reported_as_json(503, "worker_unavailable"@, Some(e.message@));
    }
}

/// A written response splits at its first blank line into a head whose line
/// `content-length` gives the number of bytes that follow, and the body. Gives the
/// place of the cut, what stands before and after the line, and its numeral.
pub proof fn write_response_counts_the_body(reply: &Reply, bytes: Vec<u8>) -> (cut: (
    int,
    Seq<u8>,
    Seq<char>,
    Seq<u8>,
))
    requires
        call_ensures(http::write_response, (reply,), bytes),
        !reply.content_type@.contains('\n'),
    ensures
        ({
            let (n, before, numeral, after) = cut;
            &&& 0 <= n <= bytes@.len()
            &&& messages::blank_line_ends_at(bytes@, n)
            &&& forall|i: int| 0 <= i < n ==> !#[trigger] messages::blank_line_ends_at(bytes@, i)
            &&& bytes@.take(n) == before + encode_utf8(
                "\r\ncontent-length: "@ + numeral + "\r\n"@,
            ) + after
            &&& decimal::decimal_value(numeral) == Some((bytes@.len() - n) as nat)
            &&& bytes@.skip(n) == reply.body@
        }),
{
    messages::content_length_counts_what_follows(reply@)
}

/// A written response begins with its status and its content type. Gives the
/// numerals of the status and of the length of the body.
pub proof fn write_response_gives_status_and_type(reply: &Reply, bytes: Vec<u8>) -> (numerals: (
    Seq<char>,
    Seq<char>,
))
    requires
        call_ensures(http::write_response, (reply,), bytes),
    ensures
        decimal::decimal_value(numerals.0) == Some(reply.status as nat),
        decimal::decimal_value(numerals.1) == Some(reply.body@.len()),
        bytes@ == encode_utf8(
            "HTTP/1.1 "@ + numerals.0 + " "@ + messages::phrase(reply.status)
                + "\r\ncontent-type: "@ + reply.content_type@ + "\r\ncontent-length: "@ + numerals.1
                + "\r\nconnection: close\r\n\r\n"@,
        ) + reply.body@,
{
    messages::responses_give_status_type_and_length(reply@)
}

/// A payload that holds a store id, a key URI and samples of 1 to 64 MiB, behind
/// their lengths, is read as just these.
pub proof fn parse_decrypt_batch_payload_reads_any_batch(
    body: &[u8],
    adam: Seq<char>,
    uri: Seq<char>,
    samples: Seq<Seq<u8>>,
    starts: Seq<int>,
    result: Result<(String, String, Vec<Vec<u8>>), IoError>,
)
    requires
        call_ensures(batch::parse_decrypt_batch_payload, (body,), result),
        8 <= body@.len() <= usize::MAX,
        0 < encode_utf8(adam).len() <= 65535,
        0 < encode_utf8(uri).len() <= 65535,
        0 < samples.len() <= 4294967295,
        forall|i: int| 0 <= i < samples.len() ==> 1 <= (#[trigger] samples[i]).len() <= 67108864,
        batches::two_bytes(body@, 0) == encode_utf8(adam).len(),
        batches::two_bytes(body@, 2) == encode_utf8(uri).len(),
        batches::four_bytes(body@, 4) == samples.len(),
        forall|i: int|
            0 <= i < samples.len() ==> #[trigger] batches::four_bytes(body@, 8 + 4 * i)
                == samples[i].len(),
        batches::fixed_len(body@) <= body@.len(),
        batches::id_bytes(body@) == encode_utf8(adam),
        batches::uri_bytes(body@) == encode_utf8(uri),
        batches::are_starts(body@, starts),
        starts.last() == body@.len(),
        forall|i: int|
            0 <= i < samples.len() ==> #[trigger] samples[i] == body@.subrange(
                starts[i],
                starts[i + 1],
            ),
    ensures
        result matches Ok((a, u, s)) && a@ == adam && u@ == uri && s@.len() == samples.len()
            && forall|i: int| 0 <= i < samples.len() ==> (#[trigger] s@[i])@ == samples[i],
{
    batches::any_batch_is_read(body@, adam, uri, samples, starts);
    if let Ok((a, u, s)) = result {
        batches::byte_vectors_are_viewed_one_by_one(s@);
        assert(wire::byte_views(s@) == samples);
        assert forall|i: int| 0 <= i < samples.len() implies (#[trigger] s@[i])@ == samples[i] by {
            assert(wire::byte_views(s@)[i] == s@[i]@);
        }
    }
}

/// Every refusal of a payload is an error for bad data with the message of its
/// fault, and what is read is what the payload says.
pub proof fn parse_decrypt_batch_payload_says_why(
    body: &[u8],
    result: Result<(String, String, Vec<Vec<u8>>), IoError>,
)
    requires
        call_ensures(batch::parse_decrypt_batch_payload, (body,), result),
    ensures
        result is Ok == batch::decode_batch(body@) is Ok,
        result matches Err(e) ==> (batch::decode_batch(body@) matches Err(fault) && e.kind
            == IoErrorKind::InvalidData && e.message@ == batch::batch_fault_text(fault)),
{
}

/// Samples that fit are written behind their number and their lengths.
pub proof fn build_decrypt_samples_payload_writes_what_fits(
    samples: &[Vec<u8>],
    starts: Seq<int>,
    result: Result<Vec<u8>, IoError>,
)
    requires
        call_ensures(batch::build_decrypt_samples_payload, (samples,), result),
        samples@.len() <= 4294967295,
        forall|i: int| 0 <= i < samples@.len() ==> (#[trigger] samples@[i])@.len() <= 4294967295,
        batches::are_answer_starts(wire::byte_views(samples@), starts),
        starts.last() <= usize::MAX,
    ensures
        result matches Ok(payload) && {
            &&& payload@.len() == starts.last()
            &&& batches::four_bytes(payload@, 0) == samples@.len()
            &&& forall|i: int|
                0 <= i < samples@.len() ==> batches::four_bytes(payload@, 4 + 4 * i) == (
                #[trigger] samples@[i])@.len()
            &&& forall|i: int|
                0 <= i < samples@.len() ==> (#[trigger] samples@[i])@ == payload@.subrange(
                    starts[i],
                    starts[i + 1],
                )
        },
{
    let views = wire::byte_views(samples@);
    batches::byte_vectors_are_viewed_one_by_one(samples@);
    assert forall|i: int| 0 <= i < views.len() implies (#[trigger] views[i]).len()
        <= 4294967295 by {
        assert(views[i] == samples@[i]@);
    }
    batches::samples_that_fit_are_answered(views, starts);
    batches::answers_hold_the_samples(views, starts);
    let payload = batch::encode_samples(views);
    assert forall|i: int| 0 <= i < samples@.len() implies batches::four_bytes(payload, 4 + 4 * i)
        == (#[trigger] samples@[i])@.len() by {
        assert(views[i] == samples@[i]@);
        assert(batches::four_bytes(payload, 4 + 4 * i) == views[i].len());
    }
    assert forall|i: int| 0 <= i < samples@.len() implies (#[trigger] samples@[i])@
        == payload.subrange(starts[i], starts[i + 1]) by {
        assert(views[i] == samples@[i]@);
    }
}

/// The tokens that are found are the texts in the account's fields.
pub proof fn web_tokens_are_whole(account: &Json, found: Option<(&str, &str)>)
    requires
        call_ensures(apple::web_tokens, (account,), found),
    ensures
        found matches Some((dev, music)) ==> relays::has_tokens(account@, dev@, music@),
        found is None ==> forall|dev: Seq<char>, music: Seq<char>| !#[trigger]
            relays::has_tokens(account@, dev, music),
{
    if let Some((dev, music)) = found {
        relays::tokens_are_those_of_the_account(account@, dev@, music@);
    } else {
        assert forall|dev: Seq<char>, music: Seq<char>| !#[trigger] relays::has_tokens(
            account@,
            dev,
            music,
        ) by {
            relays::tokens_are_those_of_the_account(account@, dev, music);
        }
    }
}

/// A web playback request for an account with tokens carries them whole.
pub proof fn proxy_apple_json_asks_for_web_playback(
    response: WorkerResponse,
    account: json::JsonView,
    dev: Seq<char>,
    music: Seq<char>,
    operation: &str,
    adam_id: &str,
    body: Option<Json>,
    step: AppleStep,
)
    requires
        call_ensures(
            apple::proxy_apple_json,
            (Ok::<WorkerResponse, WorkerError>(response), operation, adam_id, body),
            step,
        ),
        response.http_status == 200,
        json::json_document(response.body@) == Ok::<_, Seq<char>>(account),
        relays::has_tokens(account, dev, music),
        operation@ == "webplayback"@,
    ensures
        step matches AppleStep::Curl(arguments) && relays::posts(
            text::text_views(arguments@),
            "https://play.music.apple.com/WebObjects/MZPlay.woa/wa/webPlayback"@,
            dev,
            music,
            json::JsonView::Object(
                Map::<Seq<char>, json::JsonView>::empty().insert(
                    "salableAdamId"@,
                    json::JsonView::Text(adam_id@),
                ),
            ),
        ),
{
    relays::web_playback_is_asked_for(
        Ok(response@),
        json::json_document(response.body@),
        account,
        dev,
        music,
        adam_id@,
        routes::optional_json(body),
    );
}

/// Relaying decides by the worker's answer and its body read as JSON.
pub proof fn relayed_requests_go_by_the_account(
    me: Result<WorkerResponse, WorkerError>,
    operation: &str,
    adam_id: &str,
    body: Option<Json>,
    language: &str,
    script: &str,
    storefront: &str,
    json_step: AppleStep,
    lyrics_step: AppleStep,
)
    requires
        call_ensures(apple::proxy_apple_json, (me, operation, adam_id, body), json_step),
        call_ensures(
            apple::proxy_apple_lyrics,
            (me, adam_id, language, script, storefront),
            lyrics_step,
        ),
    ensures
        ({
            let answer = worker::outcome(me);
            let document = match me {
                Ok(response) => json::json_document(response.body@),
                Err(e) => Err(e.message@),
            };
            &&& json_step@ == apple::relayed_json(
                answer,
                document,
                operation@,
                adam_id@,
                routes::optional_json(body),
            )
            &&& lyrics_step@ == apple::relayed_lyrics(
                answer,
                document,
                adam_id@,
                language@,
                script@,
                storefront@,
            )
        }),
{
}

/// Relaying for an account that is at hand decides as relaying does.
pub proof fn account_steps_are_relayed_steps(
    account: &Json,
    operation: &str,
    adam_id: &str,
    body: Option<Json>,
    language: &str,
    script: &str,
    storefront: &str,
    json_step: AppleStep,
    lyrics_step: AppleStep,
    response: worker::WorkerResponseView,
)
    requires
        call_ensures(apple::account_json_step, (account, operation, adam_id, body), json_step),
        call_ensures(
            apple::account_lyrics_step,
            (account, adam_id, language, script, storefront),
            lyrics_step,
        ),
        response.http_status == 200,
    ensures
        json_step@ == apple::relayed_json(
            Ok(response),
            Ok(account@),
            operation@,
            adam_id@,
            routes::optional_json(body),
        ),
        adam_id@.len() > 0 ==> lyrics_step@ == apple::relayed_lyrics(
            Ok(response),
            Ok(account@),
            adam_id@,
            language@,
            script@,
            storefront@,
        ),
{
}

/// The output of `curl` is taken as text, and its failure to run is an error that
/// gives the reason.
pub proof fn output_of_curl_is_taken_as_text(
    success: bool,
    stdout: &[u8],
    stderr: &[u8],
    out: &str,
    err: &str,
    from_bytes: Reply,
    from_text: Reply,
    reason: &str,
    error: IoError,
)
    requires
        call_ensures(apple::apple_reply, (success, stdout, stderr), from_bytes),
        call_ensures(apple::reply_from_text, (success, out, err), from_text),
        call_ensures(apple::curl_unavailable, (reason,), error),
    ensures
        from_text@ == apple::curl_reply(success, out@, err@),
        from_bytes@ == apple::curl_reply(success, text::lossy(stdout@), text::lossy(stderr@)),
        stdout@ == encode_utf8(out@) && stderr@ == encode_utf8(err@) ==> from_bytes@ == from_text@,
        error.kind == IoErrorKind::Other && error.message@ == "curl unavailable: "@ + reason@,
{
    encode_utf8_valid_utf8(out@);
    encode_utf8_decode_utf8(out@);
    encode_utf8_valid_utf8(err@);
    encode_utf8_decode_utf8(err@);
}

/// A license request is made, or refused, by the client's body alone.
pub proof fn license_requests_go_by_the_body(body: Option<Json>, made: Result<Json, Reply>)
    requires
        call_ensures(apple::license_request, (body,), made),
    ensures
        match made {
            Ok(value) => apple::license_payload(routes::optional_json(body)) == Ok::<
                _,
                http::ReplyView,
            >(value@),
            Err(reply) => apple::license_payload(routes::optional_json(body)) == Err::<
                json::JsonView,
                _,
            >(reply@),
        },
{
}

/// A request is dispatched by its method, its target and its body read as JSON.
pub proof fn requests_are_dispatched(
    method: &str,
    target: &str,
    body: &[u8],
    action: Action,
    path: &str,
    route: Route,
)
    requires
        call_ensures(routes::dispatch, (method, target, body), action),
        call_ensures(routes::route_of, (method, path), route),
    ensures
        action@ == routes::action_for(method@, target@, json::json_document(body@)),
        route == routes::route_for(method@, path@),
{
}

/// A body that was read goes where its route says, and one that was not is
/// refused with the message.
pub proof fn body_requests_go_by_the_document(
    route: BodyRoute,
    value: Json,
    error: IoError,
    good: Action,
    bad: Action,
)
    requires
        call_ensures(routes::body_request, (route, Ok::<Json, IoError>(value)), good),
        call_ensures(routes::body_request, (route, Err::<Json, IoError>(error)), bad),
    ensures
        route == BodyRoute::Login ==> good@ == (routes::ActionView::Worker {
            op: worker::WorkerOp::Login,
            payload: value@,
        }),
        route == BodyRoute::Login2fa ==> good@ == (routes::ActionView::Worker {
            op: worker::WorkerOp::Login2fa,
            payload: value@,
        }),
        route == BodyRoute::License ==> (good@ matches routes::ActionView::AppleJson {
            operation,
            body,
            ..
        } && operation == "license"@ && body == Some(value@)),
        bad@ matches routes::ActionView::Reply(reply) && reply.status == 400 && messages::is_error(
            reply,
            "invalid_json"@,
            Some(error.message@),
        ),
{
    messages::errors_are_reported_as_json(400, "invalid_json"@, Some(error.message@));
}

/// The head of a request is parsed with room for 64 headers.
pub proof fn request_heads_are_parsed(
    head: &[u8],
    outcome: HeadOutcome,
    result: Result<Option<ParsedHead>, String>,
    from: HeadOutcome,
    too_large: Reply,
)
    requires
        call_ensures(http::read_request_head, (head,), outcome),
        call_ensures(http::request_from, (result,), from),
        call_ensures(http::head_too_large, (), too_large),
    ensures
        outcome@ == http::outcome_for(http::http_head(head@, 64)),
        result matches Ok(Some(parsed)) ==> from@ == http::outcome_for(Ok(Some(parsed@))),
        result matches Ok(None) ==> from@ == http::outcome_for(Ok(None)),
        result matches Err(message) ==> from@ == http::outcome_for(Err(message@)),
        too_large.status == 431 && messages::is_error(too_large@, "headers_too_large"@, None),
{
    messages::errors_are_reported_as_json(431, "headers_too_large"@, None);
}

/// A response in JSON has the status given and carries the value, and one that
/// reports an error carries just that.
pub proof fn json_responses_are_made(
    status: u16,
    value: &Json,
    error: &str,
    detail: &str,
    reply: Reply,
    short: Reply,
    long: Reply,
)
    requires
        call_ensures(http::write_json, (status, value), reply),
        call_ensures(http::write_error, (status, error), short),
        call_ensures(http::write_error_detail, (status, error, detail), long),
    ensures
        reply.status == status && messages::carries(reply@, value@),
        short.status == status && messages::is_error(short@, error@, None),
        long.status == status && messages::is_error(long@, error@, Some(detail@)),
{
    messages::errors_are_reported_as_json(status, error@, None);
    messages::errors_are_reported_as_json(status, error@, Some(detail@));
}

/// A probe is answered with status 200 and the report on what the worker said.
pub proof fn probes_are_answered(
    result: Result<WorkerResponse, WorkerError>,
    health: WorkerHealth,
    snapshot: Json,
    deep: bool,
    reply: Reply,
    document: Result<Json, IoError>,
    runtime: Json,
)
    requires
        call_ensures(health::worker_health, (result,), health),
        call_ensures(health::health_reply, (snapshot, health, deep), reply),
        call_ensures(health::runtime_in, (document,), runtime),
    ensures
        reply.status == 200,
        messages::carries(reply@, health::health_object(snapshot@, health@, deep)),
        result matches Ok(response) ==> health@ == health::health_of(
            Ok(response@),
            json::json_document(response.body@),
        ),
        result matches Err(e) ==> health@ == (health::WorkerHealthView::Unreachable {
            error: e.message@,
        }),
        document matches Ok(report) ==> (json::field(report@, "runtime"@) matches Some(flags)
            ==> runtime@ == flags),
        document matches Ok(report) ==> (json::field(report@, "runtime"@) is None ==> runtime@
            == json::JsonView::Null),
        document is Err ==> runtime@ == json::JsonView::Null,
{
}

/// A frame with a payload of up to 4 GiB is written as laid out, and one with a
/// longer payload is not; the front of a frame is read as laid out.
pub proof fn frames_are_written_and_read(
    frame: &DecryptFrame,
    result: Result<Vec<u8>, IoError>,
    bytes: &[u8],
    header: Option<FrameHeader>,
    request_id: u32,
    message: &str,
    error: DecryptFrame,
)
    requires
        call_ensures(decrypt::frame_bytes, (frame,), result),
        call_ensures(decrypt::parse_frame_header, (bytes,), header),
        call_ensures(decrypt::write_decrypt_error, (request_id, message), error),
    ensures
        frame.payload@.len() <= 4294967295 ==> (result matches Ok(written) && {
            &&& written@.len() == 16 + frame.payload@.len()
            &&& written@.take(4) == seq![87u8, 86u8, 50u8, 68u8]
            &&& batches::two_bytes(written@, 4) == 1
            &&& batches::two_bytes(written@, 6) == frame.kind
            &&& batches::four_bytes(written@, 8) == frame.request_id
            &&& batches::four_bytes(written@, 12) == frame.payload@.len()
            &&& written@.skip(16) == frame.payload@
        }),
        frame.payload@.len() > 4294967295 ==> (result matches Err(e) && e.kind
            == IoErrorKind::InvalidInput && e.message@ == "decrypt frame too large"@),
        header == decrypt::decode_header(bytes@),
        error.kind == 3 && error.request_id == request_id && error.payload@ == encode_utf8(message@),
{
    if frame.payload@.len() <= 4294967295 {
        frames::frames_are_laid_out(frame@);
    }
}

/// A client's frame is answered by its kind, and a batch by what came of it.
pub proof fn sessions_go_by_the_frames(
    frame: &DecryptFrame,
    step: DecryptStep,
    request_id: u32,
    result: Result<Vec<Vec<u8>>, WorkerError>,
    reply: DecryptReply,
    failure: WorkerError,
    error: IoError,
)
    requires
        call_ensures(decrypt::decrypt_request, (frame,), step),
        call_ensures(decrypt::decrypt_reply, (request_id, result), reply),
        call_ensures(worker::worker_io_error, (failure,), error),
    ensures
        step@ == decrypt::step_for(frame@),
        result matches Ok(plaintexts) ==> reply@ == decrypt::reply_for(
            request_id,
            Ok(wire::byte_views(plaintexts@)),
        ),
        result matches Err(e) ==> reply@ == decrypt::reply_for(request_id, Err(e.message@)),
        error.kind == IoErrorKind::Other && error.message@ == failure.message@,
{
}

/// The listeners are bound where the environment says, or else by default.
pub proof fn listeners_are_bound(
    host: Option<String>,
    port: Option<String>,
    http: String,
    decrypt: String,
    value: Option<String>,
    fallback: &str,
    chosen: String,
    number: u16,
    picked: u16,
)
    requires
        call_ensures(config::http_address, (host, port), http),
        call_ensures(config::decrypt_address, (host, port), decrypt),
        call_ensures(config::env_or, (value, fallback), chosen),
        call_ensures(config::env_u16, (value, number), picked),
    ensures
        ({
            let h = match host {
                Some(s) => Some(s@),
                None => None,
            };
            let p = match port {
                Some(s) => Some(s@),
                None => None,
            };
            let v = match value {
                Some(s) => Some(s@),
                None => None,
            };
            &&& http@ == config::address(config::value_or(h, "0.0.0.0"@), config::port_or(p, 80))
            &&& decrypt@ == config::address(
                config::value_or(h, "0.0.0.0"@),
                config::port_or(p, 10020),
            )
            &&& chosen@ == config::value_or(v, fallback@)
            &&& picked == config::port_or(v, number)
        }),
{
}

/// Targets, queries and their parts are read as the laws on them say.
pub proof fn targets_and_queries_are_read(
    target: &str,
    parts: (String, String),
    part: &str,
    decoded: String,
    query_text: &str,
    params: QueryParams,
    b: u8,
    value: Option<u8>,
)
    requires
        call_ensures(query::split_target, (target,), parts),
        call_ensures(query::percent_decode, (part,), decoded),
        call_ensures(query::parse_query, (query_text,), params),
        call_ensures(query::hex, (b,), value),
    ensures
        (parts.0@, parts.1@) == query::target_parts(target@),
        decoded@ == query::percent_decoded(part@),
        params@ == query::query_map(query_text@),
        value == query::hex_value(b),
{
}

/// JSON text is read and written by the parser and the writer, and fields are
/// found where they are.
pub proof fn json_is_read_and_written(
    body: &[u8],
    result: Result<Json, IoError>,
    value: &Json,
    written: String,
    name: &str,
    found: Option<&Json>,
    shown: Option<&str>,
    taken: Json,
    inner: Option<Json>,
    plain: bool,
    depth: u8,
    shallow: bool,
)
    requires
        call_ensures(Json::is_read_back, (value,), plain),
        call_ensures(json::is_plain, (value, depth), shallow),
        call_ensures(json::parse_json_body, (body,), result),
        call_ensures(Json::to_text, (value,), written),
        call_ensures(Json::get, (value, name), found),
        call_ensures(Json::as_str, (value,), shown),
        call_ensures(json::take_field, (taken, name), inner),
    ensures
        result matches Ok(read) ==> json::json_document(body@) == Ok::<_, Seq<char>>(read@),
        result matches Err(e) ==> e.kind == IoErrorKind::InvalidData && json::json_document(body@)
            == Err::<json::JsonView, _>(e.message@),
        written@ == json::json_rendering(value@),
        plain == json::plain_within(value@, 127),
        shallow == json::plain_within(value@, depth as nat),
        plain ==> json::json_document(encode_utf8(written@)) == Ok::<_, Seq<char>>(value@),
        found matches Some(v) ==> json::field(value@, name@) == Some(v@),
        found is None ==> json::field(value@, name@) is None,
        shown matches Some(s) ==> value@ == json::JsonView::Text(s@),
        shown is None ==> !(value@ is Text),
        inner matches Some(v) ==> json::field(taken@, name@) == Some(v@),
        inner is None ==> json::field(taken@, name@) is None,
{
}

/// Made values say what they were made of.
pub proof fn values_are_made(n: u64, number: Json, s: &str, shown: Json)
    requires
        call_ensures(Json::integer, (n,), number),
        call_ensures(Json::text, (s,), shown),
    ensures
        number@ == json::JsonView::Number(json::integer_number(n)),
        shown@ == json::JsonView::Text(s@),
{
}

/// Texts are cut, trimmed, compared and read as numbers as the laws on them say.
pub proof fn texts_are_handled(
    s: &str,
    other: &str,
    c: char,
    first: Option<(&str, &str)>,
    last: Option<(&str, &str)>,
    inner: &str,
    same: bool,
    alike: bool,
    max: u64,
    number: Option<u64>,
)
    requires
        call_ensures(text::split_once, (s, c), first),
        call_ensures(text::rsplit_once, (s, c), last),
        call_ensures(text::trim, (s,), inner),
        call_ensures(text::same_text, (s, other), same),
        call_ensures(text::eq_ignore_ascii_case, (s, other), alike),
        call_ensures(decimal::parse_decimal, (s, max), number),
    ensures
        first matches Some((a, b)) ==> text::split_at_first(s@, c) == Some((a@, b@)),
        first is None ==> text::split_at_first(s@, c) is None,
        last matches Some((a, b)) ==> text::split_at_last(s@, c) == Some((a@, b@)),
        last is None ==> text::split_at_last(s@, c) is None,
        inner@ == text::trimmed(s@),
        same == (s@ == other@),
        alike == text::equal_but_for_case(s@, other@),
        number matches Some(n) ==> n <= max && decimal::decimal_value(s@) == Some(n as nat),
        number is None ==> (decimal::decimal_value(s@) matches Some(n) ==> n > max),
{
}

/// A line is added to a head as it is, and the head then stands where its bytes say.
pub proof fn lines_are_added_to_heads(line: &[u8], progress: HeadProgress)
    ensures
        forall|head: &mut Vec<u8>| #[trigger]
            call_ensures(http::read_head_line, (head, line), progress) ==> (*final(head))@
                == (*head)@ + line@ && progress == http::progress_at((*head)@ + line@, line@),
{
}

/// Fields are added and taken out by their names, and the others stay.
pub proof fn fields_are_added_and_taken_out(name: &str, value: Json)
    ensures
        forall|fields: &mut Vec<(String, Json)>| #[trigger]
            call_ensures(json::insert_field, (fields, name, value), ()) ==> json::fields_view(
                (*final(fields))@,
            ) == json::fields_view((*fields)@).insert(name@, value@),
        forall|fields: &mut Vec<(String, Json)>| #[trigger]
            call_ensures(json::remove_field, (fields, name), ()) ==> json::fields_view(
                (*final(fields))@,
            ) == json::fields_view((*fields)@).remove(name@),
{
}

/// Numbers and bytes are written behind what was there.
pub proof fn writing_adds_at_the_end(short: u16, long: u32, bytes: &[u8], n: u64)
    ensures
        forall|out: &mut Vec<u8>| #[trigger]
            call_ensures(wire::push_be16, (out, short), ()) ==> (*final(out))@ == (*out)@
                + wire::be16_bytes(short as nat),
        forall|out: &mut Vec<u8>| #[trigger]
            call_ensures(wire::push_be32, (out, long), ()) ==> (*final(out))@ == (*out)@
                + wire::be32_bytes(long as nat),
        forall|out: &mut Vec<u8>| #[trigger]
            call_ensures(wire::push_bytes, (out, bytes), ()) ==> (*final(out))@ == (*out)@ + bytes@,
        forall|out: &mut String| #[trigger]
            call_ensures(decimal::push_decimal, (out, n), ()) ==> (*final(out))@ == (*out)@
                + decimal::decimal_text(n as nat),
{
}

/// A parameter has the value it was last given, and the others keep theirs.
pub proof fn parameters_keep_their_values(
    name: String,
    value: String,
    asked: &str,
    params: &QueryParams,
    found: Option<&String>,
)
    requires
        call_ensures(QueryParams::get, (params, asked), found),
    ensures
        found matches Some(v) ==> params@.contains_key(asked@) && params@[asked@] == v@,
        found is None ==> !params@.contains_key(asked@),
        forall|changed: &mut QueryParams| #[trigger]
            call_ensures(QueryParams::insert, (changed, name, value), ()) ==> (*final(changed))@
                == (*changed)@.insert(name@, value@),
{
}

/// Integers are read where they stand.
pub proof fn integers_are_read_where_they_stand(s: &[u8], at: usize, short: u16, long: u32)
    requires
        call_ensures(wire::read_be16, (s, at), short),
        call_ensures(wire::read_be32, (s, at), long),
    ensures
        short == batches::two_bytes(s@, at as int),
        long == batches::four_bytes(s@, at as int),
{
}

} // verus!
