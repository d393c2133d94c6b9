use wrappr::apple::{
    account_json_step, account_lyrics_step, apple_reply, curl_unavailable, license_request,
    proxy_apple_json, proxy_apple_lyrics, reply_from_text, web_tokens, AppleStep,
};
use wrappr::error::IoErrorKind;
use wrappr::http::Reply;
use wrappr::json::{parse_json_body, Json};
use wrappr::worker::{WorkerError, WorkerResponse};

const ACCOUNT: &[u8] = br#"{"auth":{"dev_token":"DEV","music_user_token":"MUT"}}"#;

fn json(text: &str) -> Json {
    parse_json_body(text.as_bytes()).unwrap()
}

fn me(status: u16, body: &[u8]) -> Result<WorkerResponse, WorkerError> {
    Ok(WorkerResponse {
        http_status: status,
        content_type: "application/problem+json".to_string(),
        body: body.to_vec(),
    })
}

fn body_text(reply: &Reply) -> &str {
    std::str::from_utf8(&reply.body).unwrap()
}

fn refused(step: AppleStep) -> (u16, String) {
    match step {
        AppleStep::Reply(reply) => {
            assert_eq!(reply.content_type, "application/json");
            (reply.status, body_text(&reply).to_string())
        }
        other => panic!("{:?}", other),
    }
}

fn sent(step: AppleStep) -> Vec<String> {
    match step {
        AppleStep::Curl(arguments) => arguments,
        other => panic!("{:?}", other),
    }
}

fn post(url: &str, payload: &str) -> Vec<String> {
    [
        "--silent",
        "--show-error",
        "--location",
        "--max-time",
        "60",
        "--request",
        "POST",
        url,
        "--header",
        "Authorization: Bearer DEV",
        "--header",
        "X-Apple-Music-User-Token: MUT",
        "--header",
        "Content-Type: application/json",
        "--data",
        payload,
        "--write-out",
        "\n%{http_code}",
    ]
    .iter()
    .map(|s| s.to_string())
    .collect()
}

const LICENSE: &str =
    "https://play.itunes.apple.com/WebObjects/MZPlay.woa/wa/acquireWebPlaybackLicense";

#[test]
fn tokens_are_found() {
    let account = parse_json_body(ACCOUNT).unwrap();
    assert_eq!(web_tokens(&account), Some(("DEV", "MUT")));
    for text in [
        "null",
        "{}",
        r#"{"auth":null}"#,
        r#"{"auth":{"dev_token":"DEV"}}"#,
        r#"{"auth":{"music_user_token":"MUT"}}"#,
        r#"{"auth":{"dev_token":"","music_user_token":"MUT"}}"#,
        r#"{"auth":{"dev_token":"DEV","music_user_token":7}}"#,
    ] {
        assert_eq!(web_tokens(&json(text)), None);
    }
}

#[test]
fn web_playback_requests_are_sent() {
    let arguments = sent(proxy_apple_json(me(200, ACCOUNT), "webplayback", "42", None));
    assert_eq!(
        arguments,
        post(
            "https://play.music.apple.com/WebObjects/MZPlay.woa/wa/webPlayback",
            r#"{"salableAdamId":"42"}"#
        )
    );
}

#[test]
fn playready_licenses_are_the_default() {
    let expected =
        r#"{"adamId":"1","isLibrary":false,"key-system":"com.microsoft.playready","user-initiated":true}"#;
    for body in [r#"{"adamId":"1"}"#, r#"{"adamId":"1","drm-type":"pr"}"#, r#"{"adamId":"1","drm-type":5}"#]
    {
        let step = proxy_apple_json(me(200, ACCOUNT), "license", "", Some(json(body)));
        assert_eq!(sent(step), post(LICENSE, expected));
    }
}

#[test]
fn widevine_licenses_are_sent() {
    let body = json(r#"{"drm-type":"wv","key-system":"x","isLibrary":true,"challenge":"AA=="}"#);
    let step = proxy_apple_json(me(200, ACCOUNT), "license", "", Some(body));
    let expected =
        r#"{"challenge":"AA==","isLibrary":false,"key-system":"com.widevine.alpha","user-initiated":true}"#;
    assert_eq!(sent(step), post(LICENSE, expected));
}

#[test]
fn license_requests_without_body_are_sent() {
    let payload = license_request(None).unwrap();
    assert_eq!(
        payload.to_text(),
        r#"{"isLibrary":false,"key-system":"com.microsoft.playready","user-initiated":true}"#
    );
}

#[test]
fn other_license_bodies_are_refused() {
    let account = parse_json_body(ACCOUNT).unwrap();
    assert_eq!(
        refused(account_json_step(&account, "license", "", Some(json("[1]")))),
        (400, r#"{"error":"invalid_json"}"#.to_string())
    );
    assert_eq!(
        refused(account_json_step(&account, "license", "", Some(json(r#"{"drm-type":"fp"}"#)))),
        (400, r#"{"detail":"drm-type must be wv or pr","error":"invalid_drm_type"}"#.to_string())
    );
}

#[test]
fn other_operations_are_refused() {
    assert_eq!(
        refused(proxy_apple_json(me(200, ACCOUNT), "download", "1", None)),
        (500, r#"{"error":"unknown_operation"}"#.to_string())
    );
}

#[test]
fn accounts_without_tokens_are_refused() {
    let expected = (
        401,
        r#"{"detail":"wrapper account has no Apple web tokens","error":"not_authenticated"}"#
            .to_string(),
    );
    // The tokens are looked at before the body.
    let step = proxy_apple_json(me(200, b"{}"), "license", "", Some(Json::Null));
    assert_eq!(refused(step), expected);
    let step = proxy_apple_lyrics(me(200, b"[]"), "1", "en", "en-Latn", "us");
    assert_eq!(refused(step), expected);
}

#[test]
fn worker_refusals_are_passed_on() {
    let step = proxy_apple_json(me(409, b"busy"), "webplayback", "1", None);
    assert_eq!(refused(step), (409, "busy".to_string()));
    let step = proxy_apple_lyrics(me(504, b"slow"), "1", "en", "en-Latn", "us");
    assert_eq!(refused(step), (504, "slow".to_string()));
}

#[test]
fn worker_failures_end_the_connection() {
    let gone = || Err(WorkerError { message: "gone".to_string() });
    for step in [
        proxy_apple_json(gone(), "webplayback", "1", None),
        proxy_apple_lyrics(gone(), "1", "en", "en-Latn", "us"),
    ] {
        match step {
            AppleStep::Fail(error) => {
                assert_eq!(error.kind, IoErrorKind::Other);
                assert_eq!(error.message, "gone");
            }
            other => panic!("{:?}", other),
        }
    }
}

#[test]
fn accounts_that_are_not_json_end_the_connection() {
    match proxy_apple_json(me(200, b"x"), "webplayback", "1", None) {
        AppleStep::Fail(error) => {
            assert_eq!(error.kind, IoErrorKind::InvalidData);
            assert_eq!(error.message, "expected value at line 1 column 1");
        }
        other => panic!("{:?}", other),
    }
}

#[test]
fn lyrics_requests_are_sent() {
    let arguments = sent(proxy_apple_lyrics(me(200, ACCOUNT), "42", "ja", "ja-Latn", "jp"));
    let expected: Vec<String> = [
        "--silent",
        "--show-error",
        "--location",
        "--max-time",
        "60",
        "--request",
        "GET",
        "https://amp-api.music.apple.com/v1/catalog/jp/songs/42/syllable-lyrics?l[lyrics]=ja&extend=ttmlLocalizations&l[script]=ja-Latn",
        "--header",
        "Authorization: Bearer DEV",
        "--header",
        "media-user-token: MUT",
        "--header",
        "Origin: https://music.apple.com",
        "--header",
        "User-Agent: Music/5.7 Android/10 model/Pixel6GR1YH",
        "--write-out",
        "\n%{http_code}",
    ]
    .iter()
    .map(|s| s.to_string())
    .collect();
    assert_eq!(arguments, expected);
    let account = parse_json_body(ACCOUNT).unwrap();
    assert_eq!(sent(account_lyrics_step(&account, "42", "ja", "ja-Latn", "jp")), expected);
}

#[test]
fn lyrics_without_store_id_are_refused_first() {
    let gone = Err(WorkerError { message: "gone".to_string() });
    assert_eq!(
        refused(proxy_apple_lyrics(gone, "", "en", "en-Latn", "us")),
        (400, r#"{"error":"missing_adam_id"}"#.to_string())
    );
}

#[test]
fn answers_are_passed_on() {
    let reply = apple_reply(true, b"{\"a\":\n1}\n404", b"");
    assert_eq!(reply.status, 404);
    assert_eq!(reply.content_type, "application/json");
    assert_eq!(body_text(&reply), "{\"a\":\n1}");
}

#[test]
fn bytes_that_are_not_utf8_are_replaced_in_answers() {
    let reply = apple_reply(true, b"\xff\n200", b"");
    assert_eq!(reply.status, 200);
    assert_eq!(body_text(&reply), "\u{fffd}");
}

#[test]
fn missing_statuses_are_bad_gateway() {
    let reply = reply_from_text(true, "no line break", "");
    assert_eq!(reply.status, 502);
    assert_eq!(body_text(&reply), "no line break");
    let reply = reply_from_text(true, "body\nstatus", "");
    assert_eq!(reply.status, 502);
    assert_eq!(body_text(&reply), "body");
    assert_eq!(reply_from_text(true, "body\n70000", "").status, 502);
    assert_eq!(reply_from_text(true, "body\n 201 ", "").status, 201);
}

#[test]
fn curl_failures_are_reported() {
    let reply = apple_reply(false, b"ignored\n200", b" curl: (6) no host\n");
    assert_eq!(reply.status, 502);
    assert_eq!(body_text(&reply), r#"{"detail":"curl: (6) no host","error":"apple_request_failed"}"#);
}

#[test]
fn missing_curl_is_reported() {
    let error = curl_unavailable("No such file or directory (os error 2)");
    assert_eq!(error.kind, IoErrorKind::Other);
    assert_eq!(error.message, "curl unavailable: No such file or directory (os error 2)");
}

#[test]
fn numbers_in_license_requests_are_kept() {
    let body = json(r#"{"adamId":1440833098,"offset":-3}"#);
    assert!(body.is_read_back());
    let arguments = sent(proxy_apple_json(me(200, ACCOUNT), "license", "", Some(body)));
    let payload = json(&arguments[15]);
    assert!(payload.is_read_back());
    assert_eq!(payload.get("adamId").unwrap().to_text(), "1440833098");
    assert_eq!(payload.get("offset").unwrap().to_text(), "-3");
}
