//! JSON values and the views of the library's types, field by field.

use vstd::prelude::*;

use crate::batch;
use crate::decrypt;
use crate::decrypt::{DecryptFrame, DecryptReply, DecryptStep};
use crate::error;
use crate::error::{IoError, IoErrorKind};
use crate::http;
use crate::http::{HeadOutcome, HeaderField, ParsedHead, Reply, RequestHead};
use crate::health;
use crate::health::WorkerHealth;
use crate::apple;
use crate::apple::AppleStep;
use crate::json;
use crate::json::Json;
use crate::routes;
use crate::routes::Action;
use crate::text;
use crate::wire;
use crate::worker;
use crate::worker::{WorkerError, WorkerResponse};

verus! {

/// A JSON value says what its parts say, item by item and field by field; of two
/// fields of one name the later counts.
pub proof fn values_say_what_their_parts_say(
    flag: bool,
    number: serde_json::Number,
    s: String,
    items: Vec<Json>,
    item: Json,
    fields: Seq<(String, Json)>,
    name: String,
)
    ensures
        Json::Null@ == json::JsonView::Null,
        Json::Bool(flag)@ == json::JsonView::Bool(flag),
        Json::Number(number)@ == json::JsonView::Number(number),
        Json::Text(s)@ == json::JsonView::Text(s@),
        Json::Array(items)@ == json::JsonView::Array(json::items_view(items@)),
        json::items_view(Seq::<Json>::empty()) == Seq::<json::JsonView>::empty(),
        json::items_view(items@.push(item)) == json::items_view(items@).push(item@),
        json::fields_view(Seq::<(String, Json)>::empty()) == Map::<
            Seq<char>,
            json::JsonView,
        >::empty(),
        json::fields_view(fields.push((name, item))) == json::fields_view(fields).insert(
            name@,
            item@,
        ),
{
    assert(items@.push(item).drop_last() =~= items@);
    assert(fields.push((name, item)).drop_last() =~= fields);
}

/// An object says what its fields say.
pub proof fn objects_say_what_their_fields_say(fields: Vec<(String, Json)>)
    ensures
        Json::Object(fields)@ == json::JsonView::Object(json::fields_view(fields@)),
{
}

/// A field is found in an object that has it, and in nothing else.
pub proof fn fields_are_found(
    fields: Map<Seq<char>, json::JsonView>,
    name: Seq<char>,
    other: json::JsonView,
    s: Seq<char>,
)
    requires
        !(other is Object),
    ensures
        fields.contains_key(name) ==> json::field(json::JsonView::Object(fields), name) == Some(
            fields[name],
        ),
        !fields.contains_key(name) ==> json::field(json::JsonView::Object(fields), name) is None,
        json::field(other, name) is None,
        json::text_of(json::JsonView::Text(s)) == Some(s),
        !(other is Text) ==> json::text_of(other) is None,
        json::text_of(json::JsonView::Object(fields)) is None,
{
}

/// Values without fractions that are nested at most 127 deep are read back.
pub proof fn plain_values_are_read_back(
    items: Seq<json::JsonView>,
    fields: Map<Seq<char>, json::JsonView>,
    s: Seq<char>,
    flag: bool,
    n: u64,
    number: serde_json::Number,
    depth: nat,
    value: json::JsonView,
)
    ensures
        json::plain_within(json::JsonView::Null, depth),
        json::plain_within(json::JsonView::Bool(flag), depth),
        json::plain_within(json::JsonView::Text(s), depth),
        json::plain_within(json::JsonView::Number(json::integer_number(n)), depth),
        json::signed_value(number) is Some ==> json::plain_within(
            json::JsonView::Number(number),
            depth,
        ),
        (forall|i: int|
            0 <= i < items.len() ==> json::plain_within(#[trigger] items[i], depth))
            ==> json::plain_within(json::JsonView::Array(items), depth + 1),
        (forall|name: Seq<char>| #[trigger]
            fields.contains_key(name) ==> json::plain_within(fields[name], depth))
            ==> json::plain_within(json::JsonView::Object(fields), depth + 1),
        json::read_back(value) == json::plain_within(value, 127),
        json::MAX_NESTING == 127,
{
    let array = json::JsonView::Array(items);
    let object = json::JsonView::Object(fields);
    assert(array->Array_0 == items);
    assert(object->Object_0 == fields);
}

/// Values that are nested deeper, or that hold a fraction, are not taken to be
/// read back.
pub proof fn other_values_are_not_plain(
    items: Seq<json::JsonView>,
    i: int,
    fields: Map<Seq<char>, json::JsonView>,
    name: Seq<char>,
    number: serde_json::Number,
    depth: nat,
)
    ensures
        !json::plain_within(json::JsonView::Array(items), 0),
        !json::plain_within(json::JsonView::Object(fields), 0),
        0 <= i < items.len() && !json::plain_within(items[i], depth) ==> !json::plain_within(
            json::JsonView::Array(items),
            depth + 1,
        ),
        fields.contains_key(name) && !json::plain_within(fields[name], depth)
            ==> !json::plain_within(json::JsonView::Object(fields), depth + 1),
        json::signed_value(number) is None && (forall|n: u64|
            number != #[trigger] json::integer_number(n)) ==> !json::plain_within(
            json::JsonView::Number(number),
            depth,
        ),
{
    let array = json::JsonView::Array(items);
    let object = json::JsonView::Object(fields);
    let whole = json::JsonView::Number(number);
    assert(array->Array_0[i] == items[i]);
    assert(object->Object_0.contains_key(name) == fields.contains_key(name));
    assert(whole->Number_0 == number);
}

/// Bytes read as a value where the parser gives just that value.
pub proof fn bytes_read_as_what_they_hold(bytes: Seq<u8>, value: json::JsonView)
    ensures
        json::reads_as(bytes, value) == (json::json_document(bytes) == Ok::<_, Seq<char>>(value)),
{
}

/// The views of errors, responses and requests hold their fields.
pub proof fn plain_views_hold_the_fields(
    error: IoError,
    reply: Reply,
    request: RequestHead,
    header: HeaderField,
    head: ParsedHead,
    response: WorkerResponse,
    failure: WorkerError,
    frame: DecryptFrame,
)
    ensures
        error@.kind == error.kind && error@.message == error.message@,
        reply@.status == reply.status && reply@.content_type == reply.content_type@ && reply@.body
            == reply.body@,
        request@.method == request.method@ && request@.target == request.target@
            && request@.content_length == request.content_length && request@.content_type
            == request.content_type@,
        header@.name == header.name@ && header@.value == header.value@,
        head@.headers.len() == head.headers@.len(),
        forall|i: int|
            0 <= i < head.headers@.len() ==> head@.headers[i] == #[trigger] head.headers@[i]@,
        head@.method == (match head.method {
            Some(method) => Some(method@),
            None => None,
        }),
        head@.path == (match head.path {
            Some(path) => Some(path@),
            None => None,
        }),
        response@.http_status == response.http_status && response@.content_type
            == response.content_type@ && response@.body == response.body@,
        failure@ == failure.message@,
        worker::outcome(Ok(response)) == Ok::<_, Seq<char>>(response@),
        worker::outcome(Err(failure)) == Err::<worker::WorkerResponseView, _>(failure.message@),
        frame@.kind == frame.kind && frame@.request_id == frame.request_id && frame@.payload
            == frame.payload@,
{
}

/// The views of decisions hold their parts.
pub proof fn decisions_hold_their_parts(
    reply: Reply,
    request: RequestHead,
    error: IoError,
    frame: DecryptFrame,
    arguments: Vec<String>,
    payload: Json,
    a: String,
    b: String,
    c: String,
    d: String,
    op: worker::WorkerOp,
    flag: bool,
    status: u16,
    id: u32,
    samples: Vec<Vec<u8>>,
)
    ensures
        HeadOutcome::Request(request)@ == http::HeadOutcomeView::Request(request@),
        HeadOutcome::Reply(reply)@ == http::HeadOutcomeView::Reply(reply@),
        HeadOutcome::Fail(error)@ == http::HeadOutcomeView::Fail(error@),
        AppleStep::Reply(reply)@ == apple::AppleStepView::Reply(reply@),
        AppleStep::Curl(arguments)@ == apple::AppleStepView::Curl(text::text_views(arguments@)),
        AppleStep::Fail(error)@ == apple::AppleStepView::Fail(error@),
        Action::Reply(reply)@ == routes::ActionView::Reply(reply@),
        (Action::Health { deep: flag })@ == (routes::ActionView::Health { deep: flag }),
        (Action::Worker { op, payload })@ == (routes::ActionView::Worker { op, payload: payload@ }),
        (Action::AppleJson { operation: a, adam_id: b, body: Some(payload) })@ == (
        routes::ActionView::AppleJson { operation: a@, adam_id: b@, body: Some(payload@) }),
        (Action::AppleJson { operation: a, adam_id: b, body: None })@ == (
        routes::ActionView::AppleJson { operation: a@, adam_id: b@, body: None }),
        (Action::AppleLyrics { adam_id: a, language: b, script: c, storefront: d })@ == (
        routes::ActionView::AppleLyrics {
            adam_id: a@,
            language: b@,
            script: c@,
            storefront: d@,
        }),
        routes::optional_json(Some(payload)) == Some(payload@),
        routes::optional_json(None) is None,
        (WorkerHealth::Reachable { status, runtime: payload })@ == (
        health::WorkerHealthView::Reachable { status, runtime: payload@ }),
        (WorkerHealth::Unreachable { error: a })@ == (health::WorkerHealthView::Unreachable {
            error: a@,
        }),
        DecryptStep::Close@ == decrypt::StepView::Close,
        DecryptStep::Refuse(frame)@ == decrypt::StepView::Refuse(frame@),
        (DecryptStep::Decrypt { request_id: id, adam: a, uri: b, samples })@ == (
        decrypt::StepView::Decrypt {
            request_id: id,
            batch: batch::BatchView { adam: a@, uri: b@, samples: wire::byte_views(samples@) },
        }),
        DecryptReply::Answer(frame)@ == decrypt::ReplyView::Answer(frame@),
        DecryptReply::Abort(frame, error)@ == decrypt::ReplyView::Abort(frame@, error@),
        DecryptReply::Fail(error)@ == decrypt::ReplyView::Fail(error@),
{
}

/// What the worker did with a batch is its plaintexts or the message of its error.
pub proof fn batch_outcomes_hold_their_parts(plaintexts: Vec<Vec<u8>>, failure: WorkerError)
    ensures
        decrypt::decrypted(Ok(plaintexts)) == Ok::<_, Seq<char>>(wire::byte_views(plaintexts@)),
        decrypt::decrypted(Err(failure)) == Err::<Seq<Seq<u8>>, _>(failure.message@),
{
}

/// A body that is not JSON is an error of the kind for bad data, with the
/// parser's message.
pub proof fn json_errors_are_bad_data(message: Seq<char>)
    ensures
        json::json_error(message) == (error::IoErrorView {
            kind: IoErrorKind::InvalidData,
            message,
        }),
{
}

} // verus!
