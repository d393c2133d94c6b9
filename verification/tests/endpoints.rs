use wrappr::config::{decrypt_address, env_or, env_u16, http_address};
use wrappr::error::{IoError, IoErrorKind};
use wrappr::health::{health_reply, runtime_in, worker_health, WorkerHealth};
use wrappr::http::Reply;
use wrappr::json::{parse_json_body, Json};
use wrappr::routes::{body_request, dispatch, route_of, Action, BodyRoute, Route};
use wrappr::worker::{proxy_json, WorkerError, WorkerOp, WorkerResponse};

fn body_text(reply: &Reply) -> &str {
    std::str::from_utf8(&reply.body).unwrap()
}

fn worker_action(action: Action) -> (WorkerOp, String) {
    match action {
        Action::Worker { op, payload } => (op, payload.to_text()),
        other => panic!("{:?}", other),
    }
}

fn reply_action(action: Action) -> (u16, String) {
    match action {
        Action::Reply(reply) => (reply.status, body_text(&reply).to_string()),
        other => panic!("{:?}", other),
    }
}

fn some(text: &str) -> Option<String> {
    Some(text.to_string())
}

#[test]
fn every_endpoint_has_its_route() {
    assert_eq!(route_of("GET", "/health"), Route::Health);
    assert_eq!(route_of("GET", "/me"), Route::Me);
    assert_eq!(route_of("POST", "/login"), Route::WithBody(BodyRoute::Login));
    assert_eq!(route_of("POST", "/login/2fa"), Route::WithBody(BodyRoute::Login2fa));
    assert_eq!(route_of("DELETE", "/login"), Route::Logout);
    assert_eq!(route_of("GET", "/playback"), Route::Playback);
    assert_eq!(route_of("GET", "/webplayback"), Route::WebPlayback);
    assert_eq!(route_of("GET", "/lyrics"), Route::Lyrics);
    assert_eq!(route_of("POST", "/license"), Route::WithBody(BodyRoute::License));
    assert_eq!(route_of("POST", "/decrypt"), Route::Decrypt);
    assert_eq!(route_of("GET", "/login"), Route::NotFound);
    assert_eq!(route_of("get", "/me"), Route::NotFound);
    assert_eq!(route_of("GET", "/me/"), Route::NotFound);
}

#[test]
fn account_requests_reach_the_worker() {
    assert_eq!(worker_action(dispatch("GET", "/me", b"")), (WorkerOp::Me, "null".to_string()));
    assert_eq!(
        worker_action(dispatch("DELETE", "/login", b"ignored")),
        (WorkerOp::Logout, "null".to_string())
    );
}

#[test]
fn logins_reach_the_worker() {
    let body = br#"{"username":"you@example.com","password":"p"}"#;
    assert_eq!(
        worker_action(dispatch("POST", "/login", body)),
        (WorkerOp::Login, r#"{"password":"p","username":"you@example.com"}"#.to_string())
    );
    assert_eq!(
        worker_action(dispatch("POST", "/login/2fa", br#"{"code":"123456"}"#)),
        (WorkerOp::Login2fa, r#"{"code":"123456"}"#.to_string())
    );
}

#[test]
fn bodies_that_are_not_json_are_refused() {
    let expected = r#"{"detail":"EOF while parsing a value at line 1 column 0","error":"invalid_json"}"#;
    for path in ["/login", "/login/2fa", "/license"] {
        assert_eq!(reply_action(dispatch("POST", path, b"")), (400, expected.to_string()));
    }
    let error = IoError::new(IoErrorKind::InvalidData, "why");
    assert_eq!(
        reply_action(body_request(BodyRoute::License, Err(error))),
        (400, r#"{"detail":"why","error":"invalid_json"}"#.to_string())
    );
}

#[test]
fn store_ids_reach_the_worker() {
    for target in ["/playback?adam_id=42", "/playback?adamId=42", "/playback?adamId=1&adam_id=42"] {
        assert_eq!(
            worker_action(dispatch("GET", target, b"")),
            (WorkerOp::Playback, r#"{"adam_id":"42"}"#.to_string())
        );
    }
    assert_eq!(
        worker_action(dispatch("GET", "/playback", b"")),
        (WorkerOp::Playback, r#"{"adam_id":""}"#.to_string())
    );
}

#[test]
fn web_playback_is_relayed() {
    match dispatch("GET", "/webplayback?adamId=1440833098", b"") {
        Action::AppleJson { operation, adam_id, body } => {
            assert_eq!(operation, "webplayback");
            assert_eq!(adam_id, "1440833098");
            assert!(body.is_none());
        }
        other => panic!("{:?}", other),
    }
}

#[test]
fn licenses_are_relayed() {
    match dispatch("POST", "/license", br#"{"challenge":"AA=="}"#) {
        Action::AppleJson { operation, adam_id, body } => {
            assert_eq!(operation, "license");
            assert_eq!(adam_id, "");
            assert_eq!(body.unwrap().to_text(), r#"{"challenge":"AA=="}"#);
        }
        other => panic!("{:?}", other),
    }
}

#[test]
fn lyrics_have_defaults() {
    match dispatch("GET", "/lyrics?adam_id=1&adamId=2", b"") {
        Action::AppleLyrics { adam_id, language, script, storefront } => {
            assert_eq!(adam_id, "2");
            assert_eq!(language, "en");
            assert_eq!(script, "en-Latn");
            assert_eq!(storefront, "us");
        }
        other => panic!("{:?}", other),
    }
    match dispatch("GET", "/lyrics?adam_id=1&language=ja&script=ja-Latn&storefront=jp", b"") {
        Action::AppleLyrics { adam_id, language, script, storefront } => {
            assert_eq!(adam_id, "1");
            assert_eq!(language, "ja");
            assert_eq!(script, "ja-Latn");
            assert_eq!(storefront, "jp");
        }
        other => panic!("{:?}", other),
    }
}

#[test]
fn lyrics_need_a_store_id() {
    let expected = r#"{"error":"missing_adam_id"}"#.to_string();
    assert_eq!(reply_action(dispatch("GET", "/lyrics?language=en", b"")), (400, expected.clone()));
    assert_eq!(reply_action(dispatch("GET", "/lyrics?adamId=&adam_id=3", b"")), (400, expected));
}

#[test]
fn decrypt_is_not_served() {
    assert_eq!(
        reply_action(dispatch("POST", "/decrypt?x", b"")),
        (
            404,
            r#"{"detail":"decrypt is available on the raw TCP port, not HTTP","error":"not_found"}"#
                .to_string()
        )
    );
    assert_eq!(
        reply_action(dispatch("GET", "/decrypt", b"")),
        (404, r#"{"error":"not_found"}"#.to_string())
    );
}

#[test]
fn unknown_paths_are_not_found() {
    assert_eq!(
        reply_action(dispatch("GET", "/nope", b"")),
        (404, r#"{"error":"not_found"}"#.to_string())
    );
}

#[test]
fn deep_probes_are_told_apart() {
    for (target, expected) in [
        ("/health", false),
        ("/health?deep", false),
        ("/health?deep=0", false),
        ("/health?deep=1", true),
        ("/health?deep=true", true),
        ("/health?deep=yes", true),
        ("/health?deep=YES", false),
    ] {
        match dispatch("GET", target, b"") {
            Action::Health { deep } => assert_eq!(deep, expected),
            other => panic!("{:?}", other),
        }
    }
}

fn health_response(body: &[u8]) -> WorkerResponse {
    WorkerResponse {
        http_status: 200,
        content_type: "application/json".to_string(),
        body: body.to_vec(),
    }
}

#[test]
fn probes_report_the_runtime() {
    let body = br#"{"status":"ok","runtime":{"playback_ready":true}}"#;
    let snapshot = parse_json_body(br#"{"running":true}"#).unwrap();
    let reply = health_reply(snapshot, worker_health(Ok(health_response(body))), false);
    assert_eq!(reply.status, 200);
    assert_eq!(
        body_text(&reply),
        r#"{"mode":"rust-supervisor","runtime":{"playback_ready":true},"status":"ok","version":"0.0.2","worker":{"running":true},"worker_ipc":null}"#
    );
}

#[test]
fn deep_probes_report_the_exchange() {
    let reply = health_reply(Json::Null, worker_health(Ok(health_response(b"not json"))), true);
    assert_eq!(
        body_text(&reply),
        r#"{"mode":"rust-supervisor","runtime":null,"status":"ok","version":"0.0.2","worker":null,"worker_ipc":{"reachable":true,"status":200}}"#
    );
}

#[test]
fn probes_are_answered_without_the_worker() {
    let gone = || worker_health(Err(WorkerError { message: "gone".to_string() }));
    let reply = health_reply(Json::Null, gone(), true);
    assert_eq!(reply.status, 200);
    assert_eq!(
        body_text(&reply),
        r#"{"mode":"rust-supervisor","runtime":null,"status":"ok","version":"0.0.2","worker":null,"worker_ipc":{"error":"gone","reachable":false,"status":0}}"#
    );
    let reply = health_reply(Json::Null, gone(), false);
    assert!(body_text(&reply).contains(r#""worker_ipc":null"#));
}

#[test]
fn runtime_flags_are_found() {
    assert_eq!(runtime_in(parse_json_body(br#"{"runtime":[1]}"#)).to_text(), "[1]");
    assert_eq!(runtime_in(parse_json_body(b"[]")).to_text(), "null");
    assert_eq!(runtime_in(parse_json_body(b"")).to_text(), "null");
    let health = WorkerHealth::Reachable { status: 503, runtime: Json::Bool(true) };
    let reply = health_reply(Json::Null, health, true);
    assert!(body_text(&reply).contains(r#""worker_ipc":{"reachable":true,"status":503}"#));
}

#[test]
fn worker_answers_are_passed_on() {
    let reply = proxy_json(Ok(WorkerResponse {
        http_status: 202,
        content_type: "text/plain".to_string(),
        body: b"code please".to_vec(),
    }));
    assert_eq!(reply.status, 202);
    assert_eq!(reply.content_type, "text/plain");
    assert_eq!(body_text(&reply), "code please");
}

#[test]
fn worker_failures_are_reported() {
    let reply = proxy_json(Err(WorkerError { message: "worker died".to_string() }));
    assert_eq!(reply.status, 503);
    assert_eq!(reply.content_type, "application/json");
    assert_eq!(body_text(&reply), r#"{"detail":"worker died","error":"worker_unavailable"}"#);
}

#[test]
fn addresses_have_defaults() {
    assert_eq!(http_address(None, None), "0.0.0.0:80");
    assert_eq!(decrypt_address(None, None), "0.0.0.0:10020");
    assert_eq!(http_address(some(""), some("0")), "0.0.0.0:80");
    assert_eq!(decrypt_address(some(""), some("70000")), "0.0.0.0:10020");
}

#[test]
fn addresses_can_be_set() {
    assert_eq!(http_address(some("127.0.0.1"), some("8080")), "127.0.0.1:8080");
    assert_eq!(decrypt_address(some("localhost"), some("65535")), "localhost:65535");
}

#[test]
fn variables_are_read() {
    assert_eq!(env_or(some("a"), "b"), "a");
    assert_eq!(env_or(some(""), "b"), "b");
    assert_eq!(env_or(None, "b"), "b");
    assert_eq!(env_u16(some("11020"), 5), 11020);
    assert_eq!(env_u16(some(" 1"), 5), 5);
    assert_eq!(env_u16(some("-1"), 5), 5);
    assert_eq!(env_u16(some("0"), 5), 5);
    assert_eq!(env_u16(None, 5), 5);
}

#[test]
fn refusals_read_as_json_objects() {
    for (method, target, body, error) in [
        ("POST", "/login", "{", "invalid_json"),
        ("POST", "/decrypt", "", "not_found"),
        ("GET", "/lyrics", "", "missing_adam_id"),
        ("PUT", "/\"", "", "not_found"),
    ] {
        match dispatch(method, target, body.as_bytes()) {
            Action::Reply(reply) => {
                let value = parse_json_body(&reply.body).unwrap();
                assert_eq!(value.get("error").unwrap().as_str(), Some(error));
            }
            other => panic!("{:?}", other),
        }
    }
    let reply = proxy_json(Err(WorkerError { message: "a \"b\"\n\u{1}".to_string() }));
    let value = parse_json_body(&reply.body).unwrap();
    assert_eq!(value.get("error").unwrap().as_str(), Some("worker_unavailable"));
    assert_eq!(value.get("detail").unwrap().as_str(), Some("a \"b\"\n\u{1}"));
}
