//! What each request asks for, endpoint by endpoint.

use vstd::prelude::*;

use crate::json;
use crate::laws::messages;
use crate::query;
use crate::routes;
use crate::worker;
use crate::worker::WorkerOp;

verus! {

/// The methods and paths that are served.
pub open spec fn is_served(method: Seq<char>, path: Seq<char>) -> bool {
    ||| method == "GET"@ && (path == "/health"@ || path == "/me"@ || path == "/playback"@ || path
        == "/webplayback"@ || path == "/lyrics"@)
    ||| method == "POST"@ && (path == "/login"@ || path == "/login/2fa"@ || path == "/license"@
        || path == "/decrypt"@)
    ||| method == "DELETE"@ && path == "/login"@
}

proof fn lemma_routes()
    ensures
        routes::route_for("GET"@, "/health"@) == routes::Route::Health,
        routes::route_for("GET"@, "/me"@) == routes::Route::Me,
        routes::route_for("GET"@, "/playback"@) == routes::Route::Playback,
        routes::route_for("GET"@, "/webplayback"@) == routes::Route::WebPlayback,
        routes::route_for("GET"@, "/lyrics"@) == routes::Route::Lyrics,
        routes::route_for("POST"@, "/login"@) == routes::Route::WithBody(routes::BodyRoute::Login),
        routes::route_for("POST"@, "/login/2fa"@) == routes::Route::WithBody(
            routes::BodyRoute::Login2fa,
        ),
        routes::route_for("POST"@, "/license"@) == routes::Route::WithBody(
            routes::BodyRoute::License,
        ),
        routes::route_for("POST"@, "/decrypt"@) == routes::Route::Decrypt,
        routes::route_for("DELETE"@, "/login"@) == routes::Route::Logout,
{
    reveal_strlit("GET");
    reveal_strlit("POST");
    reveal_strlit("DELETE");
    reveal_strlit("/health");
    reveal_strlit("/me");
    reveal_strlit("/playback");
    reveal_strlit("/webplayback");
    reveal_strlit("/lyrics");
    reveal_strlit("/login");
    reveal_strlit("/login/2fa");
    reveal_strlit("/license");
    reveal_strlit("/decrypt");
    assert("GET"@.len() == 3 && "POST"@.len() == 4 && "DELETE"@.len() == 6);
    assert("/health"@.len() == 7 && "/me"@.len() == 3 && "/playback"@.len() == 9
        && "/webplayback"@.len() == 12 && "/lyrics"@.len() == 7 && "/login"@.len() == 6
        && "/login/2fa"@.len() == 10 && "/license"@.len() == 8 && "/decrypt"@.len() == 8);
    assert("/lyrics"@[1] != "/health"@[1]);
    assert("/license"@[1] != "/decrypt"@[1]);
}

/// The account is asked for, and forgotten, without a payload, whatever the query
/// and the body.
pub proof fn account_requests_go_to_the_worker(
    target: Seq<char>,
    document: Result<json::JsonView, Seq<char>>,
)
    ensures
        query::target_parts(target).0 == "/me"@ ==> routes::action_for("GET"@, target, document)
            == (routes::ActionView::Worker { op: WorkerOp::Me, payload: json::JsonView::Null }),
        query::target_parts(target).0 == "/login"@ ==> routes::action_for(
            "DELETE"@,
            target,
            document,
        ) == (routes::ActionView::Worker { op: WorkerOp::Logout, payload: json::JsonView::Null }),
{
    lemma_routes();
}

/// A JSON body goes as it is to the worker, or to Apple where it asks for a
/// license; any other body is refused with what the parser said of it.
pub proof fn bodies_go_where_they_are_posted(
    target: Seq<char>,
    value: json::JsonView,
    message: Seq<char>,
)
    ensures
        query::target_parts(target).0 == "/login"@ ==> routes::action_for(
            "POST"@,
            target,
            Ok(value),
        ) == (routes::ActionView::Worker { op: WorkerOp::Login, payload: value }),
        query::target_parts(target).0 == "/login/2fa"@ ==> routes::action_for(
            "POST"@,
            target,
            Ok(value),
        ) == (routes::ActionView::Worker { op: WorkerOp::Login2fa, payload: value }),
        query::target_parts(target).0 == "/license"@ ==> (routes::action_for(
            "POST"@,
            target,
            Ok(value),
        ) matches routes::ActionView::AppleJson { operation, adam_id, body } && operation
            == "license"@ && adam_id.len() == 0 && body == Some(value)),
        query::target_parts(target).0 == "/login"@ || query::target_parts(target).0
            == "/login/2fa"@ || query::target_parts(target).0 == "/license"@ ==> (
        routes::action_for("POST"@, target, Err(message)) matches routes::ActionView::Reply(reply)
            && reply.status == 400 && messages::is_error(
            reply,
            "invalid_json"@,
            Some(message),
        )),
{
    lemma_routes();
    reveal_strlit("");
    assert(""@.len() == 0);
    messages::errors_are_reported_as_json(400, "invalid_json"@, Some(message));
}

/// Whether `id` is the value of the first of two parameters, or else of the
/// second, or empty where neither is given.
pub open spec fn is_given_by(
    id: Seq<char>,
    params: Map<Seq<char>, Seq<char>>,
    first: Seq<char>,
    second: Seq<char>,
) -> bool {
    &&& params.contains_key(first) ==> id == params[first]
    &&& !params.contains_key(first) && params.contains_key(second) ==> id == params[second]
    &&& !params.contains_key(first) && !params.contains_key(second) ==> id.len() == 0
}

/// Whether a payload holds the store id that the query gives, and nothing else.
pub open spec fn holds_store_id(
    payload: json::JsonView,
    params: Map<Seq<char>, Seq<char>>,
) -> bool {
    &&& payload matches json::JsonView::Object(fields)
    &&& fields.contains_key("adam_id"@)
    &&& fields["adam_id"@] matches json::JsonView::Text(id)
    &&& is_given_by(id, params, "adam_id"@, "adamId"@)
    &&& forall|name: Seq<char>| #[trigger] fields.contains_key(name) ==> name == "adam_id"@
}

/// Playback is asked of the worker, and web playback of Apple, with the store id
/// that the query gives, `adam_id` before `adamId`.
pub proof fn playback_is_asked_for_by_store_id(
    target: Seq<char>,
    document: Result<json::JsonView, Seq<char>>,
)
    ensures
        query::target_parts(target).0 == "/playback"@ ==> (routes::action_for(
            "GET"@,
            target,
            document,
        ) matches routes::ActionView::Worker { op, payload } && op == WorkerOp::Playback
            && holds_store_id(payload, query::query_map(query::target_parts(target).1))),
        query::target_parts(target).0 == "/webplayback"@ ==> (routes::action_for(
            "GET"@,
            target,
            document,
        ) matches routes::ActionView::AppleJson { operation, adam_id, body } && operation
            == "webplayback"@ && body is None && is_given_by(
            adam_id,
            query::query_map(query::target_parts(target).1),
            "adam_id"@,
            "adamId"@,
        )),
{
    lemma_routes();
    reveal_strlit("");
    let params = query::query_map(query::target_parts(target).1);
    let id = routes::param_or(
        params,
        "adam_id"@,
        routes::param_or(params, "adamId"@, ""@),
    );
    assert(is_given_by(id, params, "adam_id"@, "adamId"@));
    assert(""@.len() == 0);
}

/// Whether `value` is what a query gives for a parameter, and the default only
/// where it gives nothing for it.
pub open spec fn is_asked_for(
    value: Seq<char>,
    params: Map<Seq<char>, Seq<char>>,
    name: Seq<char>,
    default: Seq<char>,
) -> bool {
    if params.contains_key(name) {
        value == params[name]
    } else {
        value == default
    }
}

/// Lyrics are asked for by the store id that the query gives, `adamId` before
/// `adam_id`, in the language, the script and the storefront that it gives, each
/// by itself; without a store id the request is refused.
pub proof fn lyrics_are_asked_for_as_the_query_says(
    target: Seq<char>,
    document: Result<json::JsonView, Seq<char>>,
    id: Seq<char>,
)
    requires
        query::target_parts(target).0 == "/lyrics"@,
        is_given_by(
            id,
            query::query_map(query::target_parts(target).1),
            "adamId"@,
            "adam_id"@,
        ),
    ensures
        ({
            let params = query::query_map(query::target_parts(target).1);
            let action = routes::action_for("GET"@, target, document);
            &&& id.len() > 0 ==> (action matches routes::ActionView::AppleLyrics {
                adam_id,
                language,
                script,
                storefront,
            } && adam_id == id && is_asked_for(language, params, "language"@, "en"@)
                && is_asked_for(script, params, "script"@, "en-Latn"@) && is_asked_for(
                storefront,
                params,
                "storefront"@,
                "us"@,
            ))
            &&& id.len() == 0 ==> (action matches routes::ActionView::Reply(reply) && reply.status
                == 400 && messages::is_error(reply, "missing_adam_id"@, None))
        }),
{
    lemma_routes();
    reveal_strlit("");
    assert(""@.len() == 0);
    messages::errors_are_reported_as_json(400, "missing_adam_id"@, None);
}

/// A probe is deep where the query gives `deep` as `1`, `true` or `yes`.
pub proof fn probes_are_deep_where_asked(
    target: Seq<char>,
    document: Result<json::JsonView, Seq<char>>,
)
    requires
        query::target_parts(target).0 == "/health"@,
    ensures
        ({
            let params = query::query_map(query::target_parts(target).1);
            routes::action_for("GET"@, target, document) == (routes::ActionView::Health {
                deep: params.contains_key("deep"@) && seq!["1"@, "true"@, "yes"@].contains(
                    params["deep"@],
                ),
            })
        }),
{
    lemma_routes();
    let params = query::query_map(query::target_parts(target).1);
    let words = seq!["1"@, "true"@, "yes"@];
    let given = params["deep"@];
    assert(words[0] == "1"@ && words[1] == "true"@ && words[2] == "yes"@);
    if words.contains(given) {
        let i = choose|i: int| 0 <= i < words.len() && words[i] == given;
        assert(i == 0 || i == 1 || i == 2);
    }
}

/// What is not served is not found, and a request to decrypt is told where to go.
pub proof fn other_requests_are_not_found(
    method: Seq<char>,
    target: Seq<char>,
    document: Result<json::JsonView, Seq<char>>,
)
    ensures
        !is_served(method, query::target_parts(target).0) ==> (routes::action_for(
            method,
            target,
            document,
        ) matches routes::ActionView::Reply(reply) && reply.status == 404 && messages::is_error(
            reply,
            "not_found"@,
            None,
        )),
        method == "POST"@ && query::target_parts(target).0 == "/decrypt"@ ==> (routes::action_for(
            method,
            target,
            document,
        ) matches routes::ActionView::Reply(reply) && reply.status == 404 && messages::is_error(
            reply,
            "not_found"@,
            Some("decrypt is available on the raw TCP port, not HTTP"@),
        )),
{
    lemma_routes();
    messages::errors_are_reported_as_json(404, "not_found"@, None);
    messages::errors_are_reported_as_json(
        404,
        "not_found"@,
        Some("decrypt is available on the raw TCP port, not HTTP"@),
    );
}

/// What a refused request is told is an object with the error that goes with it.
pub proof fn refusals_name_the_error(
    method: Seq<char>,
    target: Seq<char>,
    document: Result<json::JsonView, Seq<char>>,
)
    ensures
        routes::action_for(method, target, document) matches routes::ActionView::Reply(reply)
            ==> messages::carries(reply, routes::refusal_for(method, target, document)),
{
}

/// The worker's answer is passed on with its status, its content type and its
/// bytes, whatever these are; where it gave none, the client is told why.
pub proof fn answers_of_the_worker_are_passed_on(
    response: worker::WorkerResponseView,
    message: Seq<char>,
)
    ensures
        worker::proxied(Ok(response)).status == response.http_status,
        worker::proxied(Ok(response)).content_type == response.content_type,
        worker::proxied(Ok(response)).body == response.body,
        worker::proxied(Err(message)).status == 503,
        messages::is_error(
            worker::proxied(Err(message)),
            "worker_unavailable"@,
            Some(message),
        ),
{
    messages::errors_are_reported_as_json(503, "worker_unavailable"@, Some(message));
}

} // verus!
