//! Requests that are relayed to Apple's web services through `curl`.

use vstd::prelude::*;
use vstd::slice::slice_to_vec;
use vstd::utf8::*;
#[allow(unused_imports)]
use vstd::string::*;

use crate::decimal;
use crate::decimal::parse_decimal;
use crate::error;
use crate::error::{IoError, IoErrorKind};
use crate::http;
use crate::http::{write_error, write_error_detail, Reply};
use crate::json;
use crate::json::{insert_field, parse_json_body, remove_field, Json};
use crate::routes;
use crate::text;
use crate::text::{lossy_text, rsplit_once, same_text, trim};
use crate::worker;
use crate::worker::{worker_io_error, WorkerError, WorkerResponse};

verus! {

/// The text in the field `name` of a value, or nothing.
pub open spec fn text_field(value: json::JsonView, name: Seq<char>) -> Seq<char> {
    match json::field(value, name) {
        Some(inner) => match json::text_of(inner) {
            Some(text) => text,
            None => ""@,
        },
        None => ""@,
    }
}

/// The developer token and the music user token of an account, where it has both.
pub open spec fn tokens(account: json::JsonView) -> Option<(Seq<char>, Seq<char>)> {
    let auth = match json::field(account, "auth"@) {
        Some(inner) => inner,
        None => json::JsonView::Null,
    };
    let dev = text_field(auth, "dev_token"@);
    let music = text_field(auth, "music_user_token"@);
    if dev.len() == 0 || music.len() == 0 {
        None
    } else {
        Some((dev, music))
    }
}

fn text_in<'a>(value: &'a Json, name: &str) -> (text: &'a str)
    ensures
        text@ == text_field(value@, name@),
{
    match value.get(name) {
        Some(inner) => match inner.as_str() {
            Some(text) => text,
            None => "",
        },
        None => "",
    }
}

/// The developer token and the music user token of an account, where it has both.
pub fn web_tokens(account: &Json) -> (found: Option<(&str, &str)>)
    ensures
        match found {
            Some((dev, music)) => tokens(account@) == Some((dev@, music@)),
            None => tokens(account@) is None,
        },
{
    proof {
        reveal_strlit("");
    }
    match account.get("auth") {
        Some(auth) => {
            let dev = text_in(auth, "dev_token");
            let music = text_in(auth, "music_user_token");
            if dev.is_empty() || music.is_empty() {
                None
            } else {
                Some((dev, music))
            }
        },
        None => None,
    }
}

/// What is done about a request that is relayed.
#[derive(Debug)]
pub enum AppleStep {
    /// Send this response.
    Reply(Reply),
    /// Run `curl` with these arguments.
    Curl(Vec<String>),
    /// End with this error.
    Fail(IoError),
}

/// What an [`AppleStep`] says.
pub ghost enum AppleStepView {
    Reply(http::ReplyView),
    Curl(Seq<Seq<char>>),
    Fail(error::IoErrorView),
}

impl View for AppleStep {
    type V = AppleStepView;

    open spec fn view(&self) -> AppleStepView {
        match self {
            AppleStep::Reply(reply) => AppleStepView::Reply(reply@),
            AppleStep::Curl(arguments) => AppleStepView::Curl(text::text_views(arguments@)),
            AppleStep::Fail(error) => AppleStepView::Fail(error@),
        }
    }
}

/// What the response to a request says that needs tokens which the account lacks.
pub open spec fn not_authenticated_object() -> json::JsonView {
    http::error_object(
        "not_authenticated"@,
        Some("wrapper account has no Apple web tokens"@),
    )
}

/// The response to a request that needs tokens which the account lacks.
pub open spec fn not_authenticated() -> http::ReplyView {
    http::json_reply(401, not_authenticated_object())
}

/// The arguments of `curl` for a request with a JSON body.
pub open spec fn post_arguments(
    url: Seq<char>,
    dev: Seq<char>,
    music: Seq<char>,
    payload: Seq<char>,
) -> Seq<Seq<char>> {
    seq![
        "--silent"@,
        "--show-error"@,
        "--location"@,
        "--max-time"@,
        "60"@,
        "--request"@,
        "POST"@,
        url,
        "--header"@,
        "Authorization: Bearer "@ + dev,
        "--header"@,
        "X-Apple-Music-User-Token: "@ + music,
        "--header"@,
        "Content-Type: application/json"@,
        "--data"@,
        payload,
        "--write-out"@,
        "\n%{http_code}"@,
    ]
}

/// The arguments of `curl` for a lyrics request.
pub open spec fn get_arguments(
    url: Seq<char>,
    dev: Seq<char>,
    music: Seq<char>,
) -> Seq<Seq<char>> {
    seq![
        "--silent"@,
        "--show-error"@,
        "--location"@,
        "--max-time"@,
        "60"@,
        "--request"@,
        "GET"@,
        url,
        "--header"@,
        "Authorization: Bearer "@ + dev,
        "--header"@,
        "media-user-token: "@ + music,
        "--header"@,
        "Origin: https://music.apple.com"@,
        "--header"@,
        "User-Agent: Music/5.7 Android/10 model/Pixel6GR1YH"@,
        "--write-out"@,
        "\n%{http_code}"@,
    ]
}

fn push_argument(arguments: &mut Vec<String>, argument: &str)
    ensures
        text::text_views(final(arguments)@) == text::text_views(old(arguments)@).push(argument@),
{
    let ghost before = arguments@;
    arguments.push(argument.to_owned());
    assert(text::text_views(arguments@) =~= text::text_views(before).push(argument@));
}

/// The arguments that every request begins with.
fn first_arguments(method: &str, url: &str) -> (arguments: Vec<String>)
    ensures
        text::text_views(arguments@) == seq![
            "--silent"@,
            "--show-error"@,
            "--location"@,
            "--max-time"@,
            "60"@,
            "--request"@,
            method@,
            url@,
        ],
{
    let mut arguments: Vec<String> = Vec::new();
    assert(text::text_views(arguments@) =~= seq![]);
    push_argument(&mut arguments, "--silent");
    push_argument(&mut arguments, "--show-error");
    push_argument(&mut arguments, "--location");
    push_argument(&mut arguments, "--max-time");
    push_argument(&mut arguments, "60");
    push_argument(&mut arguments, "--request");
    push_argument(&mut arguments, method);
    push_argument(&mut arguments, url);
    arguments
}

/// Appends a header whose value follows `name`.
fn push_header(arguments: &mut Vec<String>, name: &str, value: &str)
    ensures
        text::text_views(final(arguments)@) == text::text_views(old(arguments)@).push(
            "--header"@,
        ).push(name@ + value@),
{
    push_argument(arguments, "--header");
    let mut header = name.to_owned();
    header.append(value);
    push_argument(arguments, header.as_str());
}

fn post(url: &str, dev: &str, music: &str, payload: &str) -> (arguments: Vec<String>)
    ensures
        text::text_views(arguments@) == post_arguments(url@, dev@, music@, payload@),
{
    let mut arguments = first_arguments("POST", url);
    push_header(&mut arguments, "Authorization: Bearer ", dev);
    push_header(&mut arguments, "X-Apple-Music-User-Token: ", music);
    push_argument(&mut arguments, "--header");
    push_argument(&mut arguments, "Content-Type: application/json");
    push_argument(&mut arguments, "--data");
    push_argument(&mut arguments, payload);
    push_argument(&mut arguments, "--write-out");
    push_argument(&mut arguments, "\n%{http_code}");
    arguments
}

fn get(url: &str, dev: &str, music: &str) -> (arguments: Vec<String>)
    ensures
        text::text_views(arguments@) == get_arguments(url@, dev@, music@),
{
    let mut arguments = first_arguments("GET", url);
    push_header(&mut arguments, "Authorization: Bearer ", dev);
    push_header(&mut arguments, "media-user-token: ", music);
    push_argument(&mut arguments, "--header");
    push_argument(&mut arguments, "Origin: https://music.apple.com");
    push_argument(&mut arguments, "--header");
    push_argument(&mut arguments, "User-Agent: Music/5.7 Android/10 model/Pixel6GR1YH");
    push_argument(&mut arguments, "--write-out");
    push_argument(&mut arguments, "\n%{http_code}");
    arguments
}

/// The DRM system that a license request asks for: PlayReady unless it names one.
pub open spec fn drm_type(fields: Map<Seq<char>, json::JsonView>) -> Seq<char> {
    match json::field(json::JsonView::Object(fields), "drm-type"@) {
        Some(json::JsonView::Text(name)) => name,
        _ => "pr"@,
    }
}

/// The key system of a DRM system.
pub open spec fn key_system(drm: Seq<char>) -> Seq<char> {
    if drm == "pr"@ {
        "com.microsoft.playready"@
    } else {
        "com.widevine.alpha"@
    }
}

/// The fields that are sent for a license request with the given fields.
pub open spec fn license_fields(fields: Map<Seq<char>, json::JsonView>) -> Map<
    Seq<char>,
    json::JsonView,
> {
    fields.insert("key-system"@, json::JsonView::Text(key_system(drm_type(fields)))).insert(
        "isLibrary"@,
        json::JsonView::Bool(false),
    ).insert("user-initiated"@, json::JsonView::Bool(true)).remove("drm-type"@)
}

/// The payload that is sent for a license request, or the response that refuses it.
pub open spec fn license_payload(body: Option<json::JsonView>) -> Result<
    json::JsonView,
    http::ReplyView,
> {
    let request = match body {
        Some(value) => value,
        None => json::JsonView::Object(Map::empty()),
    };
    match request {
        json::JsonView::Object(fields) => if drm_type(fields) == "wv"@ || drm_type(fields)
            == "pr"@ {
            Ok(json::JsonView::Object(license_fields(fields)))
        } else {
            Err(http::error_reply(400, "invalid_drm_type"@, Some("drm-type must be wv or pr"@)))
        },
        _ => Err(http::error_reply(400, "invalid_json"@, None)),
    }
}

/// What the response to a refused license request says.
pub open spec fn license_refusal(body: Option<json::JsonView>) -> json::JsonView {
    match body {
        Some(json::JsonView::Object(_)) => http::error_object(
            "invalid_drm_type"@,
            Some("drm-type must be wv or pr"@),
        ),
        _ => http::error_object("invalid_json"@, None),
    }
}

/// Makes the payload of a license request.
pub fn license_request(body: Option<Json>) -> (payload: Result<Json, Reply>)
    ensures
        match payload {
            Ok(value) => license_payload(routes::optional_json(body)) == Ok::<_, http::ReplyView>(
                value@,
            ),
            Err(reply) => license_payload(routes::optional_json(body)) == Err::<
                json::JsonView,
                _,
            >(reply@) && json::reads_as(
                reply.body@,
                license_refusal(routes::optional_json(body)),
            ),
        },
{
    let request = match body {
        Some(value) => value,
        None => Json::Object(Vec::new()),
    };
    let playready: bool = match request.get("drm-type") {
        Some(value) => match value.as_str() {
            Some(name) => if same_text(name, "pr") {
                true
            } else if same_text(name, "wv") {
                false
            } else {
                return Err(
                    write_error_detail(400, "invalid_drm_type", "drm-type must be wv or pr"),
                );
            },
            None => true,
        },
        None => true,
    };
    match request {
        Json::Object(fields) => {
            let mut fields: Vec<(String, Json)> = fields;
            proof {
                reveal_strlit("pr");
                reveal_strlit("wv");
                assert("pr"@[0] != "wv"@[0]);
            }
            let system = if playready {
                "com.microsoft.playready"
            } else {
                "com.widevine.alpha"
            };
            insert_field(&mut fields, "key-system", Json::text(system));
            insert_field(&mut fields, "isLibrary", Json::Bool(false));
            insert_field(&mut fields, "user-initiated", Json::Bool(true));
            remove_field(&mut fields, "drm-type");
            Ok(Json::Object(fields))
        },
        _ => Err(write_error(400, "invalid_json")),
    }
}

/// The address that answers web playback requests.
pub const WEB_PLAYBACK_URL: &'static str =
    "https://play.music.apple.com/WebObjects/MZPlay.woa/wa/webPlayback";

/// The address that answers license requests.
pub const LICENSE_URL: &'static str =
    "https://play.itunes.apple.com/WebObjects/MZPlay.woa/wa/acquireWebPlaybackLicense";

/// The payload of a web playback request.
pub open spec fn playback_payload(adam_id: Seq<char>) -> json::JsonView {
    json::JsonView::Object(
        Map::<Seq<char>, json::JsonView>::empty().insert(
            "salableAdamId"@,
            json::JsonView::Text(adam_id),
        ),
    )
}

/// What is done about a web playback or license request for an account.
pub open spec fn json_step(
    account: json::JsonView,
    operation: Seq<char>,
    adam_id: Seq<char>,
    body: Option<json::JsonView>,
) -> AppleStepView {
    match tokens(account) {
        None => AppleStepView::Reply(not_authenticated()),
        Some((dev, music)) => if operation == "webplayback"@ {
            AppleStepView::Curl(
                post_arguments(
                    WEB_PLAYBACK_URL@,
                    dev,
                    music,
                    json::json_rendering(playback_payload(adam_id)),
                ),
            )
        } else if operation == "license"@ {
            match license_payload(body) {
                Ok(payload) => AppleStepView::Curl(
                    post_arguments(LICENSE_URL@, dev, music, json::json_rendering(payload)),
                ),
                Err(reply) => AppleStepView::Reply(reply),
            }
        } else {
            AppleStepView::Reply(http::error_reply(500, "unknown_operation"@, None))
        },
    }
}

/// What the response to a web playback or license request that is refused for an
/// account says.
pub open spec fn json_refusal(
    account: json::JsonView,
    operation: Seq<char>,
    body: Option<json::JsonView>,
) -> json::JsonView {
    if tokens(account) is None {
        not_authenticated_object()
    } else if operation == "license"@ {
        license_refusal(body)
    } else {
        http::error_object("unknown_operation"@, None)
    }
}

/// Whether the payload in the arguments of `curl`, read as JSON, is the one that
/// the request calls for. A license request that is nested too deep to be read
/// back, or that holds fractions, is left out.
pub open spec fn payload_reads_back(
    step: AppleStepView,
    operation: Seq<char>,
    adam_id: Seq<char>,
    body: Option<json::JsonView>,
) -> bool {
    step matches AppleStepView::Curl(arguments) ==> {
        &&& operation == "webplayback"@ ==> json::reads_as(
            encode_utf8(arguments[15]),
            playback_payload(adam_id),
        )
        &&& operation == "license"@ ==> (license_payload(body) matches Ok(payload) && (
        json::read_back(payload) ==> json::reads_as(
            encode_utf8(arguments[15]),
            payload,
        )))
    }
}

/// Decides what is done about a web playback or license request for an account.
pub fn account_json_step(
    account: &Json,
    operation: &str,
    adam_id: &str,
    body: Option<Json>,
) -> (step: AppleStep)
    ensures
        step@ == json_step(account@, operation@, adam_id@, routes::optional_json(body)),
        payload_reads_back(step@, operation@, adam_id@, routes::optional_json(body)),
        step@ matches AppleStepView::Reply(reply) ==> json::reads_as(
            reply.body,
            json_refusal(account@, operation@, routes::optional_json(body)),
        ),
{
    let (dev, music) = match web_tokens(account) {
        Some(found) => found,
        None => return AppleStep::Reply(no_tokens()),
    };
    if same_text(operation, "webplayback") {
        let mut fields: Vec<(String, Json)> = Vec::new();
        insert_field(&mut fields, "salableAdamId", Json::text(adam_id));
        proof {
            lemma_operations();
            assert(json::read_back(playback_payload(adam_id@))) by {
                reveal_with_fuel(json::plain_within, 2);
            }
        }
        let payload = Json::Object(fields).to_text();
        AppleStep::Curl(post(WEB_PLAYBACK_URL, dev, music, payload.as_str()))
    } else if same_text(operation, "license") {
        match license_request(body) {
            Ok(payload) => AppleStep::Curl(
                post(LICENSE_URL, dev, music, payload.to_text().as_str()),
            ),
            Err(reply) => AppleStep::Reply(reply),
        }
    } else {
        AppleStep::Reply(write_error(500, "unknown_operation"))
    }
}

proof fn lemma_operations()
    ensures
        "license"@ != "webplayback"@,
{
    reveal_strlit("license");
    reveal_strlit("webplayback");
    assert("license"@.len() != "webplayback"@.len());
}

fn no_tokens() -> (reply: Reply)
    ensures
        reply@ == not_authenticated(),
        json::reads_as(reply.body@, not_authenticated_object()),
{
    write_error_detail(401, "not_authenticated", "wrapper account has no Apple web tokens")
}

/// The address that answers a lyrics request.
pub open spec fn lyrics_url(
    adam_id: Seq<char>,
    language: Seq<char>,
    script: Seq<char>,
    storefront: Seq<char>,
) -> Seq<char> {
    "https://amp-api.music.apple.com/v1/catalog/"@ + storefront + "/songs/"@ + adam_id
        + "/syllable-lyrics?l[lyrics]="@ + language + "&extend=ttmlLocalizations&l[script]="@
        + script
}

/// What is done about a lyrics request for an account.
pub open spec fn lyrics_step(
    account: json::JsonView,
    adam_id: Seq<char>,
    language: Seq<char>,
    script: Seq<char>,
    storefront: Seq<char>,
) -> AppleStepView {
    match tokens(account) {
        None => AppleStepView::Reply(not_authenticated()),
        Some((dev, music)) => AppleStepView::Curl(
            get_arguments(lyrics_url(adam_id, language, script, storefront), dev, music),
        ),
    }
}

/// Decides what is done about a lyrics request for an account.
pub fn account_lyrics_step(
    account: &Json,
    adam_id: &str,
    language: &str,
    script: &str,
    storefront: &str,
) -> (step: AppleStep)
    ensures
        step@ == lyrics_step(account@, adam_id@, language@, script@, storefront@),
        step@ matches AppleStepView::Reply(reply) ==> json::reads_as(
            reply.body,
            not_authenticated_object(),
        ),
{
    let (dev, music) = match web_tokens(account) {
        Some(found) => found,
        None => return AppleStep::Reply(no_tokens()),
    };
    let mut url = "https://amp-api.music.apple.com/v1/catalog/".to_owned();
    url.append(storefront);
    url.append("/songs/");
    url.append(adam_id);
    url.append("/syllable-lyrics?l[lyrics]=");
    url.append(language);
    url.append("&extend=ttmlLocalizations&l[script]=");
    url.append(script);
    AppleStep::Curl(get(url.as_str(), dev, music))
}

/// What is done where the worker's answer on the account does not allow a
/// request to be relayed, given the body of the answer read as JSON.
pub open spec fn account_refusal(
    me: Result<worker::WorkerResponseView, Seq<char>>,
    document: Result<json::JsonView, Seq<char>>,
) -> Option<AppleStepView> {
    match me {
        Err(message) => Some(
            AppleStepView::Fail(error::IoErrorView { kind: IoErrorKind::Other, message }),
        ),
        Ok(response) => if response.http_status != 200 {
            Some(
                AppleStepView::Reply(
                    http::ReplyView {
                        status: response.http_status,
                        content_type: "application/json"@,
                        body: response.body,
                    },
                ),
            )
        } else {
            match document {
                Ok(_) => None,
                Err(message) => Some(
                    AppleStepView::Fail(
                        error::IoErrorView { kind: IoErrorKind::InvalidData, message },
                    ),
                ),
            }
        },
    }
}

/// The body of the worker's answer on the account, read as JSON.
pub open spec fn account_document(
    me: Result<worker::WorkerResponseView, Seq<char>>,
) -> Result<json::JsonView, Seq<char>> {
    match me {
        Ok(response) => json::json_document(response.body),
        Err(message) => Err(message),
    }
}

/// Reads the account from the worker's answer.
fn account_of(me: Result<WorkerResponse, WorkerError>) -> (account: Result<Json, AppleStep>)
    ensures
        match account {
            Ok(value) => {
                &&& account_refusal(worker::outcome(me), account_document(worker::outcome(me)))
                    is None
                &&& account_document(worker::outcome(me)) == Ok::<_, Seq<char>>(value@)
            },
            Err(step) => account_refusal(
                worker::outcome(me),
                account_document(worker::outcome(me)),
            ) == Some(step@),
        },
{
    match me {
        Err(e) => Err(AppleStep::Fail(worker_io_error(e))),
        Ok(response) => {
            if response.http_status != 200 {
                return Err(
                    AppleStep::Reply(
                        Reply {
                            status: response.http_status,
                            content_type: "application/json".to_owned(),
                            body: response.body,
                        },
                    ),
                );
            }
            match parse_json_body(response.body.as_slice()) {
                Ok(account) => Ok(account),
                Err(e) => Err(AppleStep::Fail(e)),
            }
        },
    }
}

/// What is done about a web playback or license request, given the worker's
/// answer on the account and its body read as JSON.
pub open spec fn relayed_json(
    me: Result<worker::WorkerResponseView, Seq<char>>,
    document: Result<json::JsonView, Seq<char>>,
    operation: Seq<char>,
    adam_id: Seq<char>,
    body: Option<json::JsonView>,
) -> AppleStepView {
    match account_refusal(me, document) {
        Some(step) => step,
        None => json_step(document->Ok_0, operation, adam_id, body),
    }
}

/// Decides what is done about a web playback or license request, given the
/// worker's answer on the account.
pub fn proxy_apple_json(
    me: Result<WorkerResponse, WorkerError>,
    operation: &str,
    adam_id: &str,
    body: Option<Json>,
) -> (step: AppleStep)
    ensures
        step@ == relayed_json(
            worker::outcome(me),
            account_document(worker::outcome(me)),
            operation@,
            adam_id@,
            routes::optional_json(body),
        ),
        payload_reads_back(step@, operation@, adam_id@, routes::optional_json(body)),
        ({
            let document = account_document(worker::outcome(me));
            account_refusal(worker::outcome(me), document) is None ==> (
            step@ matches AppleStepView::Reply(reply) ==> json::reads_as(
                reply.body,
                json_refusal(document->Ok_0, operation@, routes::optional_json(body)),
            ))
        }),
{
    match account_of(me) {
        Ok(account) => account_json_step(&account, operation, adam_id, body),
        Err(step) => step,
    }
}

/// What is done about a lyrics request, given the worker's answer on the account
/// and its body read as JSON.
pub open spec fn relayed_lyrics(
    me: Result<worker::WorkerResponseView, Seq<char>>,
    document: Result<json::JsonView, Seq<char>>,
    adam_id: Seq<char>,
    language: Seq<char>,
    script: Seq<char>,
    storefront: Seq<char>,
) -> AppleStepView {
    if adam_id.len() == 0 {
        AppleStepView::Reply(http::error_reply(400, "missing_adam_id"@, None))
    } else {
        match account_refusal(me, document) {
            Some(step) => step,
            None => lyrics_step(document->Ok_0, adam_id, language, script, storefront),
        }
    }
}

/// Decides what is done about a lyrics request, given the worker's answer on the
/// account.
pub fn proxy_apple_lyrics(
    me: Result<WorkerResponse, WorkerError>,
    adam_id: &str,
    language: &str,
    script: &str,
    storefront: &str,
) -> (step: AppleStep)
    ensures
        step@ == relayed_lyrics(
            worker::outcome(me),
            account_document(worker::outcome(me)),
            adam_id@,
            language@,
            script@,
            storefront@,
        ),
        ({
            let document = account_document(worker::outcome(me));
            step@ matches AppleStepView::Reply(reply) ==> if adam_id@.len() == 0 {
                json::reads_as(reply.body, http::error_object("missing_adam_id"@, None))
            } else {
                account_refusal(worker::outcome(me), document) is None ==> json::reads_as(
                    reply.body,
                    not_authenticated_object(),
                )
            }
        }),
{
    if adam_id.is_empty() {
        return AppleStep::Reply(write_error(400, "missing_adam_id"));
    }
    match account_of(me) {
        Ok(account) => account_lyrics_step(&account, adam_id, language, script, storefront),
        Err(step) => step,
    }
}

/// The status that the last line of what `curl` printed gives.
pub open spec fn status_given(line: Seq<char>) -> u16 {
    match decimal::decimal_value(text::trimmed(line)) {
        Some(n) if n <= u16::MAX => n as u16,
        _ => 502,
    }
}

/// The response to a relayed request, given whether `curl` succeeded and what it
/// printed.
pub open spec fn curl_reply(success: bool, stdout: Seq<char>, stderr: Seq<char>) -> http::ReplyView {
    if !success {
        http::error_reply(502, "apple_request_failed"@, Some(text::trimmed(stderr)))
    } else {
        let (body, status) = match text::split_at_last(stdout, '\n') {
            Some((before, after)) => (before, status_given(after)),
            None => (stdout, 502),
        };
        http::ReplyView {
            status,
            content_type: "application/json"@,
            body: encode_utf8(body),
        }
    }
}

/// Makes the response to a relayed request from the text that `curl` printed.
pub fn reply_from_text(success: bool, stdout: &str, stderr: &str) -> (reply: Reply)
    ensures
        reply@ == curl_reply(success, stdout@, stderr@),
        !success ==> json::reads_as(
            reply.body@,
            http::error_object("apple_request_failed"@, Some(text::trimmed(stderr@))),
        ),
{
    if !success {
        return write_error_detail(502, "apple_request_failed", trim(stderr));
    }
    let (body, status) = match rsplit_once(stdout, '\n') {
        Some((before, after)) => (
            before,
            match parse_decimal(trim(after), u16::MAX as u64) {
                Some(n) => n as u16,
                None => 502,
            },
        ),
        None => (stdout, 502),
    };
    Reply {
        status,
        content_type: "application/json".to_owned(),
        body: slice_to_vec(body.as_bytes()),
    }
}

/// Makes the response to a relayed request from what `curl` printed.
pub fn apple_reply(success: bool, stdout: &[u8], stderr: &[u8]) -> (reply: Reply)
    ensures
        reply@ == curl_reply(success, text::lossy(stdout@), text::lossy(stderr@)),
        !success ==> json::reads_as(
            reply.body@,
            http::error_object(
                "apple_request_failed"@,
                Some(text::trimmed(text::lossy(stderr@))),
            ),
        ),
{
    reply_from_text(success, lossy_text(stdout).as_str(), lossy_text(stderr).as_str())
}

/// The error that ends a connection when `curl` cannot be run.
pub fn curl_unavailable(reason: &str) -> (error: IoError)
    ensures
        error@ == (error::IoErrorView {
            kind: IoErrorKind::Other,
            message: "curl unavailable: "@ + reason@,
        }),
{
    let mut message = "curl unavailable: ".to_owned();
    message.append(reason);
    IoError { kind: IoErrorKind::Other, message }
}

/// What is sent for a license request says nothing of the DRM system but its key
/// system, is not for a library, is initiated by the user, and is otherwise what
/// the client asked.
pub proof fn license_requests_keep_the_rest(fields: Map<Seq<char>, json::JsonView>)
    ensures
        ({
            let sent = license_fields(fields);
            &&& !sent.contains_key("drm-type"@)
            &&& sent.contains_key("key-system"@) && sent["key-system"@] == json::JsonView::Text(
                key_system(drm_type(fields)),
            )
            &&& sent.contains_key("isLibrary"@) && sent["isLibrary"@] == json::JsonView::Bool(false)
            &&& sent.contains_key("user-initiated"@) && sent["user-initiated"@]
                == json::JsonView::Bool(true)
            &&& forall|name: Seq<char>|
                name != "drm-type"@ && name != "key-system"@ && name != "isLibrary"@ && name
                    != "user-initiated"@ ==> (#[trigger] sent.contains_key(name)
                    == fields.contains_key(name) && (fields.contains_key(name) ==> sent[name]
                    == fields[name]))
        }),
{
    reveal_strlit("drm-type");
    reveal_strlit("key-system");
    reveal_strlit("isLibrary");
    reveal_strlit("user-initiated");
    assert("drm-type"@.len() == 8 && "key-system"@.len() == 10 && "isLibrary"@.len() == 9
        && "user-initiated"@.len() == 14);
}

/// What is sent for a license request that is read back is itself read back.
pub proof fn license_payloads_are_read_back(body: json::JsonView)
    requires
        json::read_back(body),
    ensures
        license_payload(Some(body)) matches Ok(payload) ==> json::read_back(payload),
{
    if let json::JsonView::Object(fields) = body {
        let sent = license_fields(fields);
        license_requests_keep_the_rest(fields);
        reveal_with_fuel(json::plain_within, 2);
        assert forall|name: Seq<char>| #[trigger] sent.contains_key(
            name,
        ) implies json::plain_within(sent[name], (json::MAX_NESTING - 1) as nat) by {
            assert(fields.contains_key(name) || name == "key-system"@ || name == "isLibrary"@
                || name == "user-initiated"@);
        }
    }
}

/// A license request that names no DRM system is one for PlayReady.
pub proof fn licenses_default_to_playready(fields: Map<Seq<char>, json::JsonView>)
    requires
        !fields.contains_key("drm-type"@),
    ensures
        license_payload(Some(json::JsonView::Object(fields))) == license_payload(
            Some(
                json::JsonView::Object(
                    fields.insert("drm-type"@, json::JsonView::Text("pr"@)),
                ),
            ),
        ),
        license_payload(Some(json::JsonView::Object(fields))) is Ok,
        drm_type(fields) == "pr"@,
        key_system(drm_type(fields)) == "com.microsoft.playready"@,
{
    let named = fields.insert("drm-type"@, json::JsonView::Text("pr"@));
    license_requests_keep_the_rest(fields);
    license_requests_keep_the_rest(named);
    assert(license_fields(fields) =~= license_fields(named));
}

/// A license request for another DRM system than the two is refused.
pub proof fn other_drm_types_are_refused(
    account: json::JsonView,
    adam_id: Seq<char>,
    fields: Map<Seq<char>, json::JsonView>,
    name: Seq<char>,
)
    requires
        tokens(account) is Some,
        fields.contains_key("drm-type"@),
        fields["drm-type"@] == json::JsonView::Text(name),
        name != "wv"@,
        name != "pr"@,
    ensures
        json_step(account, "license"@, adam_id, Some(json::JsonView::Object(fields)))
            == AppleStepView::Reply(
            http::error_reply(400, "invalid_drm_type"@, Some("drm-type must be wv or pr"@)),
        ),
{
    lemma_operations();
}

/// Nothing is sent to Apple but for an account that the worker vouches for and
/// that has both tokens, and what is sent carries those tokens.
pub proof fn requests_carry_the_tokens(
    me: Result<worker::WorkerResponseView, Seq<char>>,
    document: Result<json::JsonView, Seq<char>>,
    operation: Seq<char>,
    adam_id: Seq<char>,
    body: Option<json::JsonView>,
)
    ensures
        relayed_json(me, document, operation, adam_id, body) matches AppleStepView::Curl(
            arguments,
        ) ==> {
            &&& me is Ok && me->Ok_0.http_status == 200
            &&& document is Ok && tokens(document->Ok_0) is Some
            &&& arguments[9] == "Authorization: Bearer "@ + tokens(document->Ok_0)->Some_0.0
            &&& arguments[11] == "X-Apple-Music-User-Token: "@ + tokens(document->Ok_0)->Some_0.1
        },
{
}

/// The same of lyrics requests.
pub proof fn lyrics_requests_carry_the_tokens(
    me: Result<worker::WorkerResponseView, Seq<char>>,
    document: Result<json::JsonView, Seq<char>>,
    adam_id: Seq<char>,
    language: Seq<char>,
    script: Seq<char>,
    storefront: Seq<char>,
)
    ensures
        relayed_lyrics(
            me,
            document,
            adam_id,
            language,
            script,
            storefront,
        ) matches AppleStepView::Curl(arguments) ==> {
            &&& adam_id.len() > 0
            &&& me is Ok && me->Ok_0.http_status == 200
            &&& document is Ok && tokens(document->Ok_0) is Some
            &&& arguments[7] == lyrics_url(adam_id, language, script, storefront)
            &&& arguments[9] == "Authorization: Bearer "@ + tokens(document->Ok_0)->Some_0.0
            &&& arguments[11] == "media-user-token: "@ + tokens(document->Ok_0)->Some_0.1
        },
{
}

/// An account without tokens is told so, whatever was asked for.
pub proof fn accounts_without_tokens_are_refused(
    account: json::JsonView,
    operation: Seq<char>,
    adam_id: Seq<char>,
    body: Option<json::JsonView>,
    language: Seq<char>,
    script: Seq<char>,
    storefront: Seq<char>,
)
    requires
        tokens(account) is None,
    ensures
        json_step(account, operation, adam_id, body) == AppleStepView::Reply(not_authenticated()),
        lyrics_step(account, adam_id, language, script, storefront) == AppleStepView::Reply(
            not_authenticated(),
        ),
        not_authenticated().status == 401,
{
}

/// What the worker answers in place of an account is passed on.
pub proof fn worker_refusals_are_passed_on(
    response: worker::WorkerResponseView,
    document: Result<json::JsonView, Seq<char>>,
    operation: Seq<char>,
    adam_id: Seq<char>,
    body: Option<json::JsonView>,
)
    requires
        response.http_status != 200,
    ensures
        relayed_json(Ok(response), document, operation, adam_id, body) matches AppleStepView::Reply(
            reply,
        ) && reply.status == response.http_status && reply.body == response.body,
{
}

proof fn lemma_digits_are_trimmed(s: Seq<char>)
    requires
        s.len() > 0,
        forall|i: int| 0 <= i < s.len() ==> decimal::is_digit(#[trigger] s[i]),
    ensures
        text::trimmed(s) == s,
{
    assert(decimal::is_digit(s[0]));
    assert(decimal::is_digit(s[s.len() - 1]));
}

/// The body that Apple answered with, and its status behind a line break, are
/// told apart again, whatever the body holds.
pub proof fn curl_output_is_told_apart(body: Seq<char>, status: u16, stderr: Seq<char>)
    ensures
        curl_reply(true, body + seq!['\n'] + decimal::decimal_text(status as nat), stderr) == (
        http::ReplyView {
            status,
            content_type: "application/json"@,
            body: encode_utf8(body),
        }),
{
    let digits = decimal::decimal_text(status as nat);
    let printed = body + seq!['\n'] + digits;
    decimal::lemma_decimal_text(status as nat);
    decimal::decimal_reads_back(status as nat);
    lemma_digits_are_trimmed(digits);
    assert forall|j: int| body.len() < j < printed.len() implies printed[j] != '\n' by {
        assert(decimal::is_digit(digits[j - body.len() - 1]));
    }
    text::lemma_last_index_is(printed, '\n', body.len() as int);
    assert(printed.take(body.len() as int) =~= body);
    assert(printed.skip(body.len() + 1int) =~= digits);
}

} // verus!
