//! What each request asks for.

use vstd::prelude::*;
#[allow(unused_imports)]
use vstd::string::*;

use crate::error::IoError;
use crate::http;
use crate::http::{write_error, write_error_detail, Reply};
use crate::json;
use crate::json::{parse_json_body, Json};
use crate::query;
use crate::query::{parse_query, split_target, QueryParams};
use crate::text::same_text;
use crate::worker::WorkerOp;

verus! {

/// The endpoints that read a JSON body.
#[derive(Clone, Copy, Debug, PartialEq, Eq, Structural)]
pub enum BodyRoute {
    Login,
    Login2fa,
    License,
}

/// The endpoints.
#[derive(Clone, Copy, Debug, PartialEq, Eq, Structural)]
pub enum Route {
    Health,
    Me,
    Logout,
    Playback,
    WebPlayback,
    Lyrics,
    WithBody(BodyRoute),
    Decrypt,
    NotFound,
}

/// The endpoint for each method and path.
pub open spec fn route_for(method: Seq<char>, path: Seq<char>) -> Route {
    if method == "GET"@ && path == "/health"@ {
        Route::Health
    } else if method == "GET"@ && path == "/me"@ {
        Route::Me
    } else if method == "POST"@ && path == "/login"@ {
        Route::WithBody(BodyRoute::Login)
    } else if method == "POST"@ && path == "/login/2fa"@ {
        Route::WithBody(BodyRoute::Login2fa)
    } else if method == "DELETE"@ && path == "/login"@ {
        Route::Logout
    } else if method == "GET"@ && path == "/playback"@ {
        Route::Playback
    } else if method == "GET"@ && path == "/webplayback"@ {
        Route::WebPlayback
    } else if method == "GET"@ && path == "/lyrics"@ {
        Route::Lyrics
    } else if method == "POST"@ && path == "/license"@ {
        Route::WithBody(BodyRoute::License)
    } else if method == "POST"@ && path == "/decrypt"@ {
        Route::Decrypt
    } else {
        Route::NotFound
    }
}

/// The endpoint for a method and a path.
pub fn route_of(method: &str, path: &str) -> (route: Route)
    ensures
        route == route_for(method@, path@),
{
    if same_text(method, "GET") && same_text(path, "/health") {
        Route::Health
    } else if same_text(method, "GET") && same_text(path, "/me") {
        Route::Me
    } else if same_text(method, "POST") && same_text(path, "/login") {
        Route::WithBody(BodyRoute::Login)
    } else if same_text(method, "POST") && same_text(path, "/login/2fa") {
        Route::WithBody(BodyRoute::Login2fa)
    } else if same_text(method, "DELETE") && same_text(path, "/login") {
        Route::Logout
    } else if same_text(method, "GET") && same_text(path, "/playback") {
        Route::Playback
    } else if same_text(method, "GET") && same_text(path, "/webplayback") {
        Route::WebPlayback
    } else if same_text(method, "GET") && same_text(path, "/lyrics") {
        Route::Lyrics
    } else if same_text(method, "POST") && same_text(path, "/license") {
        Route::WithBody(BodyRoute::License)
    } else if same_text(method, "POST") && same_text(path, "/decrypt") {
        Route::Decrypt
    } else {
        Route::NotFound
    }
}

/// What is done about a request.
#[derive(Debug)]
pub enum Action {
    /// Send this response.
    Reply(Reply),
    /// Report on the daemon's health.
    Health { deep: bool },
    /// Have the worker serve the request and pass its answer on.
    Worker { op: WorkerOp, payload: Json },
    /// Relay a web playback or license request.
    AppleJson { operation: String, adam_id: String, body: Option<Json> },
    /// Relay a lyrics request.
    AppleLyrics { adam_id: String, language: String, script: String, storefront: String },
}

/// What an [`Action`] says.
pub ghost enum ActionView {
    Reply(http::ReplyView),
    Health { deep: bool },
    Worker { op: WorkerOp, payload: json::JsonView },
    AppleJson { operation: Seq<char>, adam_id: Seq<char>, body: Option<json::JsonView> },
    AppleLyrics {
        adam_id: Seq<char>,
        language: Seq<char>,
        script: Seq<char>,
        storefront: Seq<char>,
    },
}

/// What an optional value says.
pub open spec fn optional_json(value: Option<Json>) -> Option<json::JsonView> {
    match value {
        Some(v) => Some(v@),
        None => None,
    }
}

impl View for Action {
    type V = ActionView;

    open spec fn view(&self) -> ActionView {
        match self {
            Action::Reply(reply) => ActionView::Reply(reply@),
            Action::Health { deep } => ActionView::Health { deep: *deep },
            Action::Worker { op, payload } => ActionView::Worker { op: *op, payload: payload@ },
            Action::AppleJson { operation, adam_id, body } => ActionView::AppleJson {
                operation: operation@,
                adam_id: adam_id@,
                body: optional_json(*body),
            },
            Action::AppleLyrics { adam_id, language, script, storefront } => {
                ActionView::AppleLyrics {
                    adam_id: adam_id@,
                    language: language@,
                    script: script@,
                    storefront: storefront@,
                }
            },
        }
    }
}

/// The value of the parameter `name`, or `fallback`.
pub open spec fn param_or(
    params: Map<Seq<char>, Seq<char>>,
    name: Seq<char>,
    fallback: Seq<char>,
) -> Seq<char> {
    if params.contains_key(name) {
        params[name]
    } else {
        fallback
    }
}

/// Whether a probe is to reach through to the worker.
pub open spec fn is_deep(params: Map<Seq<char>, Seq<char>>) -> bool {
    params.contains_key("deep"@) && (params["deep"@] == "1"@ || params["deep"@] == "true"@
        || params["deep"@] == "yes"@)
}

/// What is done about a request with a body that was read as JSON.
pub open spec fn body_action(
    route: BodyRoute,
    document: Result<json::JsonView, Seq<char>>,
) -> ActionView {
    match document {
        Ok(payload) => match route {
            BodyRoute::Login => ActionView::Worker { op: WorkerOp::Login, payload },
            BodyRoute::Login2fa => ActionView::Worker { op: WorkerOp::Login2fa, payload },
            BodyRoute::License => ActionView::AppleJson {
                operation: "license"@,
                adam_id: ""@,
                body: Some(payload),
            },
        },
        Err(message) => ActionView::Reply(
            http::error_reply(400, "invalid_json"@, Some(message)),
        ),
    }
}

/// What is done about a lyrics request.
pub open spec fn lyrics_action(params: Map<Seq<char>, Seq<char>>) -> ActionView {
    let adam_id = param_or(params, "adamId"@, param_or(params, "adam_id"@, ""@));
    if adam_id.len() == 0 {
        ActionView::Reply(http::error_reply(400, "missing_adam_id"@, None))
    } else {
        ActionView::AppleLyrics {
            adam_id,
            language: param_or(params, "language"@, "en"@),
            script: param_or(params, "script"@, "en-Latn"@),
            storefront: param_or(params, "storefront"@, "us"@),
        }
    }
}

/// What is done about a request for an endpoint, given its parameters and its
/// body read as JSON.
pub open spec fn route_action(
    route: Route,
    params: Map<Seq<char>, Seq<char>>,
    document: Result<json::JsonView, Seq<char>>,
) -> ActionView {
    let adam_id = param_or(params, "adam_id"@, param_or(params, "adamId"@, ""@));
    match route {
        Route::Health => ActionView::Health { deep: is_deep(params) },
        Route::Me => ActionView::Worker { op: WorkerOp::Me, payload: json::JsonView::Null },
        Route::Logout => ActionView::Worker { op: WorkerOp::Logout, payload: json::JsonView::Null },
        Route::Playback => ActionView::Worker {
            op: WorkerOp::Playback,
            payload: json::JsonView::Object(
                Map::<Seq<char>, json::JsonView>::empty().insert(
                    "adam_id"@,
                    json::JsonView::Text(adam_id),
                ),
            ),
        },
        Route::WebPlayback => ActionView::AppleJson {
            operation: "webplayback"@,
            adam_id,
            body: None,
        },
        Route::Lyrics => lyrics_action(params),
        Route::WithBody(with_body) => body_action(with_body, document),
        Route::Decrypt => ActionView::Reply(
            http::error_reply(
                404,
                "not_found"@,
                Some("decrypt is available on the raw TCP port, not HTTP"@),
            ),
        ),
        Route::NotFound => ActionView::Reply(http::error_reply(404, "not_found"@, None)),
    }
}

/// What is done about a request, given its body read as JSON.
pub open spec fn action_for(
    method: Seq<char>,
    target: Seq<char>,
    document: Result<json::JsonView, Seq<char>>,
) -> ActionView {
    let (path, query) = query::target_parts(target);
    route_action(route_for(method, path), query::query_map(query), document)
}

/// What the response to a refused request says, given the request's body read as
/// JSON.
pub open spec fn refusal_for(
    method: Seq<char>,
    target: Seq<char>,
    document: Result<json::JsonView, Seq<char>>,
) -> json::JsonView {
    match route_for(method, query::target_parts(target).0) {
        Route::Lyrics => http::error_object("missing_adam_id"@, None),
        Route::WithBody(_) => http::error_object("invalid_json"@, Some(document->Err_0)),
        Route::Decrypt => http::error_object(
            "not_found"@,
            Some("decrypt is available on the raw TCP port, not HTTP"@),
        ),
        _ => http::error_object("not_found"@, None),
    }
}

fn param(params: &QueryParams, name: &str, fallback: &str) -> (value: String)
    ensures
        value@ == param_or(params@, name@, fallback@),
{
    match params.get(name) {
        Some(value) => value.clone(),
        None => fallback.to_owned(),
    }
}

fn deep_probe(params: &QueryParams) -> (deep: bool)
    ensures
        deep == is_deep(params@),
{
    match params.get("deep") {
        Some(value) => same_text(value.as_str(), "1") || same_text(value.as_str(), "true")
            || same_text(value.as_str(), "yes"),
        None => false,
    }
}

/// The value of the first of two parameters, or else of the second, or nothing.
fn either_param(params: &QueryParams, first: &str, second: &str) -> (value: String)
    ensures
        value@ == param_or(params@, first@, param_or(params@, second@, ""@)),
{
    let other = param(params, second, "");
    param(params, first, other.as_str())
}

/// Decides what is done about a request with a body.
pub fn body_request(route: BodyRoute, document: Result<Json, IoError>) -> (action: Action)
    ensures
        action@ == body_action(
            route,
            match document {
                Ok(value) => Ok(value@),
                Err(e) => Err(e.message@),
            },
        ),
        action@ matches ActionView::Reply(reply) ==> (document matches Err(e) && json::reads_as(
            reply.body,
            http::error_object("invalid_json"@, Some(e.message@)),
        )),
{
    match document {
        Ok(payload) => match route {
            BodyRoute::Login => Action::Worker { op: WorkerOp::Login, payload },
            BodyRoute::Login2fa => Action::Worker { op: WorkerOp::Login2fa, payload },
            BodyRoute::License => Action::AppleJson {
                operation: "license".to_owned(),
                adam_id: "".to_owned(),
                body: Some(payload),
            },
        },
        Err(e) => Action::Reply(write_error_detail(400, "invalid_json", e.message.as_str())),
    }
}

fn lyrics_request(params: &QueryParams) -> (action: Action)
    ensures
        action@ == lyrics_action(params@),
        action@ matches ActionView::Reply(reply) ==> json::reads_as(
            reply.body,
            http::error_object("missing_adam_id"@, None),
        ),
{
    let adam_id = either_param(params, "adamId", "adam_id");
    if adam_id.as_str().is_empty() {
        return Action::Reply(write_error(400, "missing_adam_id"));
    }
    Action::AppleLyrics {
        adam_id,
        language: param(params, "language", "en"),
        script: param(params, "script", "en-Latn"),
        storefront: param(params, "storefront", "us"),
    }
}

/// Decides what is done about a request.
pub fn dispatch(method: &str, target: &str, body: &[u8]) -> (action: Action)
    ensures
        action@ == action_for(method@, target@, json::json_document(body@)),
        action@ matches ActionView::Reply(reply) ==> json::reads_as(
            reply.body,
            refusal_for(method@, target@, json::json_document(body@)),
        ),
{
    let (path, query) = split_target(target);
    match route_of(method, path.as_str()) {
        Route::Health => Action::Health { deep: deep_probe(&parse_query(query.as_str())) },
        Route::Me => Action::Worker { op: WorkerOp::Me, payload: Json::Null },
        Route::Logout => Action::Worker { op: WorkerOp::Logout, payload: Json::Null },
        Route::Playback => {
            let adam_id = either_param(&parse_query(query.as_str()), "adam_id", "adamId");
            let mut fields: Vec<(String, Json)> = Vec::new();
            json::insert_field(&mut fields, "adam_id", Json::Text(adam_id));
            Action::Worker { op: WorkerOp::Playback, payload: Json::Object(fields) }
        },
        Route::WebPlayback => {
            let adam_id = either_param(&parse_query(query.as_str()), "adam_id", "adamId");
            Action::AppleJson { operation: "webplayback".to_owned(), adam_id, body: None }
        },
        Route::Lyrics => lyrics_request(&parse_query(query.as_str())),
        Route::WithBody(route) => body_request(route, parse_json_body(body)),
        Route::Decrypt => Action::Reply(
            write_error_detail(
                404,
                "not_found",
                "decrypt is available on the raw TCP port, not HTTP",
            ),
        ),
        Route::NotFound => Action::Reply(write_error(404, "not_found")),
    }
}

/// A request for the decrypt path is refused, whatever its method and body:
/// samples are decrypted through the TCP port alone.
pub proof fn decrypt_is_not_served(
    method: Seq<char>,
    target: Seq<char>,
    document: Result<json::JsonView, Seq<char>>,
)
    requires
        query::target_parts(target).0 == "/decrypt"@,
    ensures
        action_for(method, target, document) matches ActionView::Reply(reply) && reply.status
            == 404,
{
    reveal_strlit("/decrypt");
    reveal_strlit("/health");
    reveal_strlit("/me");
    reveal_strlit("/login");
    reveal_strlit("/login/2fa");
    reveal_strlit("/playback");
    reveal_strlit("/webplayback");
    reveal_strlit("/lyrics");
    reveal_strlit("/license");
    assert("/decrypt"@[1] != "/license"@[1]);
}

/// A body that is not JSON is answered as such and goes no further.
pub proof fn bad_json_goes_no_further(
    method: Seq<char>,
    target: Seq<char>,
    message: Seq<char>,
)
    requires
        route_for(method, query::target_parts(target).0) is WithBody,
    ensures
        action_for(method, target, Err(message)) == ActionView::Reply(
            http::error_reply(400, "invalid_json"@, Some(message)),
        ),
{
}

/// A JSON body that is posted to a login path reaches the worker as it is.
pub proof fn logins_reach_the_worker(target: Seq<char>, value: json::JsonView)
    ensures
        query::target_parts(target).0 == "/login"@ ==> action_for("POST"@, target, Ok(value)) == (
        ActionView::Worker { op: WorkerOp::Login, payload: value }),
        query::target_parts(target).0 == "/login/2fa"@ ==> action_for("POST"@, target, Ok(value))
            == (ActionView::Worker { op: WorkerOp::Login2fa, payload: value }),
{
    reveal_strlit("GET");
    reveal_strlit("POST");
    reveal_strlit("/login");
    reveal_strlit("/login/2fa");
    assert("GET"@.len() != "POST"@.len());
    assert("/login"@.len() != "/login/2fa"@.len());
}

/// What is done about a request without a JSON body does not depend on its body.
pub proof fn other_bodies_are_not_read(
    method: Seq<char>,
    target: Seq<char>,
    first: Result<json::JsonView, Seq<char>>,
    second: Result<json::JsonView, Seq<char>>,
)
    requires
        !(route_for(method, query::target_parts(target).0) is WithBody),
    ensures
        action_for(method, target, first) == action_for(method, target, second),
{
}

/// The path and the query of a target made of a path and a parameter.
proof fn lemma_target(path: Seq<char>, name: Seq<char>, value: Seq<char>)
    requires
        !path.contains('?'),
        !name.contains('&'),
        !name.contains('='),
        !value.contains('&'),
    ensures
        query::target_parts(path + seq!['?'] + (name + seq!['='] + value)) == (
            path,
            name + seq!['='] + value,
        ),
        query::query_map(name + seq!['='] + value) == Map::<Seq<char>, Seq<char>>::empty().insert(
            query::percent_decoded(name),
            query::percent_decoded(value),
        ),
{
    query::path_and_query_are_parted(path, name + seq!['='] + value);
    query::one_pair_is_read(name, value);
}

/// A target that gives the parameter `name` the value `value`, every byte of it
/// escaped.
pub open spec fn target_with(path: Seq<char>, name: Seq<char>, value: Seq<char>) -> Seq<char> {
    path + seq!['?'] + (name + seq!['='] + query::escaped_text(value))
}

proof fn lemma_names()
    ensures
        "adam_id"@ != "adamId"@,
        !"adam_id"@.contains('&') && !"adam_id"@.contains('=') && !"adam_id"@.contains('%')
            && !"adam_id"@.contains('+'),
        !"adamId"@.contains('&') && !"adamId"@.contains('=') && !"adamId"@.contains('%')
            && !"adamId"@.contains('+'),
{
    reveal_strlit("adam_id");
    reveal_strlit("adamId");
    assert("adam_id"@.len() != "adamId"@.len());
}

proof fn lemma_paths()
    ensures
        !"/playback"@.contains('?'),
        !"/webplayback"@.contains('?'),
        route_for("GET"@, "/playback"@) == Route::Playback,
        route_for("GET"@, "/webplayback"@) == Route::WebPlayback,
{
    reveal_strlit("GET");
    reveal_strlit("POST");
    reveal_strlit("DELETE");
    reveal_strlit("/health");
    reveal_strlit("/me");
    reveal_strlit("/playback");
    reveal_strlit("/webplayback");
    assert("GET"@.len() == 3 && "POST"@.len() == 4 && "DELETE"@.len() == 6);
    assert("/health"@.len() == 7 && "/me"@.len() == 3 && "/playback"@.len() == 9
        && "/webplayback"@.len() == 12);
}

/// A store id that is given under either name reaches the worker as it is.
pub proof fn store_id_reaches_playback(
    adam_id: Seq<char>,
    document: Result<json::JsonView, Seq<char>>,
)
    ensures
        forall|name: Seq<char>|
            name == "adam_id"@ || name == "adamId"@ ==> #[trigger] action_for(
                "GET"@,
                target_with("/playback"@, name, adam_id),
                document,
            ) == (ActionView::Worker {
                op: WorkerOp::Playback,
                payload: json::JsonView::Object(
                    Map::<Seq<char>, json::JsonView>::empty().insert(
                        "adam_id"@,
                        json::JsonView::Text(adam_id),
                    ),
                ),
            }),
        forall|name: Seq<char>|
            name == "adam_id"@ || name == "adamId"@ ==> #[trigger] action_for(
                "GET"@,
                target_with("/webplayback"@, name, adam_id),
                document,
            ) == (ActionView::AppleJson {
                operation: "webplayback"@,
                adam_id,
                body: None,
            }),
{
    lemma_names();
    lemma_paths();
    query::escaped_text_decodes(adam_id);
    query::plain_text_is_unchanged("adam_id"@);
    query::plain_text_is_unchanged("adamId"@);
    let value = query::escaped_text(adam_id);
    lemma_target("/playback"@, "adam_id"@, value);
    lemma_target("/playback"@, "adamId"@, value);
    lemma_target("/webplayback"@, "adam_id"@, value);
    lemma_target("/webplayback"@, "adamId"@, value);
}

/// A lyrics request without a store id is refused and nothing else is done.
pub proof fn lyrics_need_a_store_id(
    target: Seq<char>,
    document: Result<json::JsonView, Seq<char>>,
)
    requires
        query::target_parts(target).0 == "/lyrics"@,
        !query::query_map(query::target_parts(target).1).contains_key("adamId"@),
        !query::query_map(query::target_parts(target).1).contains_key("adam_id"@),
    ensures
        action_for("GET"@, target, document) == ActionView::Reply(
            http::error_reply(400, "missing_adam_id"@, None),
        ),
{
    reveal_strlit("");
    reveal_strlit("GET");
    reveal_strlit("POST");
    reveal_strlit("DELETE");
    reveal_strlit("/lyrics");
    reveal_strlit("/health");
    reveal_strlit("/me");
    reveal_strlit("/playback");
    reveal_strlit("/webplayback");
    assert("GET"@.len() == 3 && "POST"@.len() == 4 && "DELETE"@.len() == 6);
    assert("/lyrics"@.len() == 7 && "/me"@.len() == 3 && "/playback"@.len() == 9
        && "/webplayback"@.len() == 12);
    assert("/lyrics"@[1] != "/health"@[1]);
}

} // verus!
