//! What is sent to Apple, argument by argument, and what is made of the answer.

use vstd::prelude::*;
use vstd::utf8::*;

use crate::apple;
use crate::decimal;
use crate::error;
use crate::error::IoErrorKind;
use crate::http;
use crate::json;
use crate::laws::messages;
use crate::laws::texts;
use crate::text;
use crate::worker;

verus! {

/// Whether an account has, within `auth`, the two tokens given, neither empty.
pub open spec fn has_tokens(account: json::JsonView, dev: Seq<char>, music: Seq<char>) -> bool {
    &&& account matches json::JsonView::Object(fields)
    &&& fields.contains_key("auth"@)
    &&& fields["auth"@] matches json::JsonView::Object(auth)
    &&& auth.contains_key("dev_token"@)
    &&& auth["dev_token"@] == json::JsonView::Text(dev)
    &&& auth.contains_key("music_user_token"@)
    &&& auth["music_user_token"@] == json::JsonView::Text(music)
    &&& dev.len() > 0
    &&& music.len() > 0
}

/// The tokens of an account are the texts in its fields, whole and unaltered, and
/// it has none where one of them is missing, empty or no text.
pub proof fn tokens_are_those_of_the_account(
    account: json::JsonView,
    dev: Seq<char>,
    music: Seq<char>,
)
    ensures
        has_tokens(account, dev, music) == (apple::tokens(account) == Some((dev, music))),
{
    reveal_strlit("");
    assert(""@.len() == 0);
}

/// Whether the first arguments ask for a quiet request that follows redirects,
/// within a minute, with the method and the address given.
pub open spec fn begins_request(
    arguments: Seq<Seq<char>>,
    method: Seq<char>,
    url: Seq<char>,
) -> bool {
    &&& arguments.len() == 18
    &&& arguments[0] == "--silent"@
    &&& arguments[1] == "--show-error"@
    &&& arguments[2] == "--location"@
    &&& arguments[3] == "--max-time"@
    &&& arguments[4] == "60"@
    &&& arguments[5] == "--request"@
    &&& arguments[6] == method
    &&& arguments[7] == url
    &&& arguments[8] == "--header"@
    &&& arguments[10] == "--header"@
    &&& arguments[12] == "--header"@
    &&& arguments[16] == "--write-out"@
    &&& arguments[17] == "\n%{http_code}"@
}

/// Whether the arguments post `payload` to `url` with the two tokens.
pub open spec fn posts(
    arguments: Seq<Seq<char>>,
    url: Seq<char>,
    dev: Seq<char>,
    music: Seq<char>,
    payload: json::JsonView,
) -> bool {
    &&& begins_request(arguments, "POST"@, url)
    &&& arguments[9] == "Authorization: Bearer "@ + dev
    &&& arguments[11] == "X-Apple-Music-User-Token: "@ + music
    &&& arguments[13] == "Content-Type: application/json"@
    &&& arguments[14] == "--data"@
    &&& arguments[15] == json::json_rendering(payload)
}

/// Whether the arguments get `url` with the two tokens, as the Android client does.
pub open spec fn gets(
    arguments: Seq<Seq<char>>,
    url: Seq<char>,
    dev: Seq<char>,
    music: Seq<char>,
) -> bool {
    &&& begins_request(arguments, "GET"@, url)
    &&& arguments[9] == "Authorization: Bearer "@ + dev
    &&& arguments[11] == "media-user-token: "@ + music
    &&& arguments[13] == "Origin: https://music.apple.com"@
    &&& arguments[14] == "--header"@
    &&& arguments[15] == "User-Agent: Music/5.7 Android/10 model/Pixel6GR1YH"@
}

/// Whether the worker vouches for an account.
pub open spec fn vouches_for(
    me: Result<worker::WorkerResponseView, Seq<char>>,
    document: Result<json::JsonView, Seq<char>>,
    account: json::JsonView,
) -> bool {
    me matches Ok(response) && response.http_status == 200 && document == Ok::<_, Seq<char>>(account)
}

/// Web playback is asked for with the store id alone, under the account's tokens.
pub proof fn web_playback_is_asked_for(
    me: Result<worker::WorkerResponseView, Seq<char>>,
    document: Result<json::JsonView, Seq<char>>,
    account: json::JsonView,
    dev: Seq<char>,
    music: Seq<char>,
    adam_id: Seq<char>,
    body: Option<json::JsonView>,
)
    requires
        vouches_for(me, document, account),
        has_tokens(account, dev, music),
    ensures
        apple::relayed_json(
            me,
            document,
            "webplayback"@,
            adam_id,
            body,
        ) matches apple::AppleStepView::Curl(arguments) && posts(
            arguments,
            "https://play.music.apple.com/WebObjects/MZPlay.woa/wa/webPlayback"@,
            dev,
            music,
            json::JsonView::Object(
                Map::<Seq<char>, json::JsonView>::empty().insert(
                    "salableAdamId"@,
                    json::JsonView::Text(adam_id),
                ),
            ),
        ),
{
    tokens_are_those_of_the_account(account, dev, music);
}

/// Whether a license request asks for PlayReady: it says so, or it names no DRM
/// system by a text.
pub open spec fn asks_for_playready(fields: Map<Seq<char>, json::JsonView>) -> bool {
    fields.contains_key("drm-type"@) && fields["drm-type"@] is Text ==> fields["drm-type"@]
        == json::JsonView::Text("pr"@)
}

/// Whether a license request asks for Widevine.
pub open spec fn asks_for_widevine(fields: Map<Seq<char>, json::JsonView>) -> bool {
    fields.contains_key("drm-type"@) && fields["drm-type"@] == json::JsonView::Text("wv"@)
}

/// Whether `sent` is a license request for the key system, made from `fields`:
/// not for a library, initiated by the user, without the DRM system, and with
/// every other field as it was.
pub open spec fn is_license_request(
    sent: Map<Seq<char>, json::JsonView>,
    fields: Map<Seq<char>, json::JsonView>,
    key_system: Seq<char>,
) -> bool {
    &&& sent.contains_key("key-system"@) && sent["key-system"@] == json::JsonView::Text(key_system)
    &&& sent.contains_key("isLibrary"@) && sent["isLibrary"@] == json::JsonView::Bool(false)
    &&& sent.contains_key("user-initiated"@) && sent["user-initiated"@] == json::JsonView::Bool(
        true,
    )
    &&& !sent.contains_key("drm-type"@)
    &&& forall|name: Seq<char>|
        name != "drm-type"@ && name != "key-system"@ && name != "isLibrary"@ && name
            != "user-initiated"@ ==> (#[trigger] sent.contains_key(name) == fields.contains_key(
            name,
        )) && (fields.contains_key(name) ==> sent[name] == fields[name])
}

/// A license is asked for with the fields of the client's request, under the
/// account's tokens. Gives the fields that are sent.
pub proof fn licenses_are_asked_for(
    me: Result<worker::WorkerResponseView, Seq<char>>,
    document: Result<json::JsonView, Seq<char>>,
    account: json::JsonView,
    dev: Seq<char>,
    music: Seq<char>,
    adam_id: Seq<char>,
    fields: Map<Seq<char>, json::JsonView>,
) -> (sent: Map<Seq<char>, json::JsonView>)
    requires
        vouches_for(me, document, account),
        has_tokens(account, dev, music),
        asks_for_playready(fields) || asks_for_widevine(fields),
    ensures
        asks_for_playready(fields) ==> is_license_request(
            sent,
            fields,
            "com.microsoft.playready"@,
        ),
        asks_for_widevine(fields) ==> is_license_request(sent, fields, "com.widevine.alpha"@),
        apple::relayed_json(
            me,
            document,
            "license"@,
            adam_id,
            Some(json::JsonView::Object(fields)),
        ) matches apple::AppleStepView::Curl(arguments) && posts(
            arguments,
            "https://play.itunes.apple.com/WebObjects/MZPlay.woa/wa/acquireWebPlaybackLicense"@,
            dev,
            music,
            json::JsonView::Object(sent),
        ),
        fields == Map::<Seq<char>, json::JsonView>::empty() ==> apple::relayed_json(
            me,
            document,
            "license"@,
            adam_id,
            None,
        ) == apple::relayed_json(
            me,
            document,
            "license"@,
            adam_id,
            Some(json::JsonView::Object(fields)),
        ),
{
    tokens_are_those_of_the_account(account, dev, music);
    apple::license_requests_keep_the_rest(fields);
    lemma_words();
    if asks_for_widevine(fields) {
        assert(fields["drm-type"@] == json::JsonView::Text("wv"@));
        assert(fields["drm-type"@]->Text_0 == "wv"@);
        assert(apple::drm_type(fields) == "wv"@);
    } else {
        assert(apple::drm_type(fields) == "pr"@);
    }
    apple::license_fields(fields)
}

proof fn lemma_words()
    ensures
        "license"@ != "webplayback"@,
        "wv"@ != "pr"@,
{
    reveal_strlit("license");
    reveal_strlit("webplayback");
    reveal_strlit("wv");
    reveal_strlit("pr");
    assert("license"@.len() != "webplayback"@.len());
    assert("wv"@[0] != "pr"@[0]);
}

/// A license request that names another DRM system, or is no object, is refused,
/// and so is any other operation.
pub proof fn other_requests_are_refused(
    me: Result<worker::WorkerResponseView, Seq<char>>,
    document: Result<json::JsonView, Seq<char>>,
    account: json::JsonView,
    dev: Seq<char>,
    music: Seq<char>,
    operation: Seq<char>,
    adam_id: Seq<char>,
    fields: Map<Seq<char>, json::JsonView>,
    other: json::JsonView,
    body: Option<json::JsonView>,
)
    requires
        vouches_for(me, document, account),
        has_tokens(account, dev, music),
        !(other is Object),
    ensures
        !asks_for_playready(fields) && !asks_for_widevine(fields) ==> (apple::relayed_json(
            me,
            document,
            "license"@,
            adam_id,
            Some(json::JsonView::Object(fields)),
        ) matches apple::AppleStepView::Reply(reply) && reply.status == 400 && messages::is_error(
            reply,
            "invalid_drm_type"@,
            Some("drm-type must be wv or pr"@),
        )),
        apple::relayed_json(
            me,
            document,
            "license"@,
            adam_id,
            Some(other),
        ) matches apple::AppleStepView::Reply(reply) && reply.status == 400 && messages::is_error(
            reply,
            "invalid_json"@,
            None,
        ),
        operation != "license"@ && operation != "webplayback"@ ==> (apple::relayed_json(
            me,
            document,
            operation,
            adam_id,
            body,
        ) matches apple::AppleStepView::Reply(reply) && reply.status == 500 && messages::is_error(
            reply,
            "unknown_operation"@,
            None,
        )),
{
    tokens_are_those_of_the_account(account, dev, music);
    lemma_words();
    messages::errors_are_reported_as_json(
        400,
        "invalid_drm_type"@,
        Some("drm-type must be wv or pr"@),
    );
    messages::errors_are_reported_as_json(400, "invalid_json"@, None);
    messages::errors_are_reported_as_json(500, "unknown_operation"@, None);
}

/// Lyrics are asked for at the address that the store id, the language, the
/// script and the storefront make, under the account's tokens.
pub proof fn lyrics_are_asked_for(
    me: Result<worker::WorkerResponseView, Seq<char>>,
    document: Result<json::JsonView, Seq<char>>,
    account: json::JsonView,
    dev: Seq<char>,
    music: Seq<char>,
    adam_id: Seq<char>,
    language: Seq<char>,
    script: Seq<char>,
    storefront: Seq<char>,
)
    requires
        vouches_for(me, document, account),
        has_tokens(account, dev, music),
        adam_id.len() > 0,
    ensures
        apple::relayed_lyrics(
            me,
            document,
            adam_id,
            language,
            script,
            storefront,
        ) matches apple::AppleStepView::Curl(arguments) && gets(
            arguments,
            "https://amp-api.music.apple.com/v1/catalog/"@ + storefront + "/songs/"@ + adam_id
                + "/syllable-lyrics?l[lyrics]="@ + language
                + "&extend=ttmlLocalizations&l[script]="@ + script,
            dev,
            music,
        ),
{
    tokens_are_those_of_the_account(account, dev, music);
}

/// Whether a step answers that the account has no tokens.
pub open spec fn tells_of_missing_tokens(step: apple::AppleStepView) -> bool {
    step matches apple::AppleStepView::Reply(reply) && reply.status == 401 && messages::is_error(
        reply,
        "not_authenticated"@,
        Some("wrapper account has no Apple web tokens"@),
    )
}

/// An account without the two tokens is told so, whatever it asks for.
pub proof fn missing_tokens_are_told(
    me: Result<worker::WorkerResponseView, Seq<char>>,
    document: Result<json::JsonView, Seq<char>>,
    account: json::JsonView,
    operation: Seq<char>,
    adam_id: Seq<char>,
    body: Option<json::JsonView>,
    language: Seq<char>,
    script: Seq<char>,
    storefront: Seq<char>,
)
    requires
        vouches_for(me, document, account),
        forall|dev: Seq<char>, music: Seq<char>| !#[trigger] has_tokens(account, dev, music),
    ensures
        tells_of_missing_tokens(
            apple::relayed_json(me, document, operation, adam_id, body),
        ),
        adam_id.len() > 0 ==> tells_of_missing_tokens(
            apple::relayed_lyrics(me, document, adam_id, language, script, storefront),
        ),
{
    if let Some((dev, music)) = apple::tokens(account) {
        tokens_are_those_of_the_account(account, dev, music);
    }
    messages::errors_are_reported_as_json(
        401,
        "not_authenticated"@,
        Some("wrapper account has no Apple web tokens"@),
    );
}

/// Where the worker does not vouch for an account, its refusal is passed on, its
/// failure ends the connection, and so does an account that is not JSON.
pub proof fn other_answers_on_the_account_are_passed_on(
    response: worker::WorkerResponseView,
    failure: Seq<char>,
    document: Result<json::JsonView, Seq<char>>,
    operation: Seq<char>,
    adam_id: Seq<char>,
    body: Option<json::JsonView>,
    language: Seq<char>,
    script: Seq<char>,
    storefront: Seq<char>,
)
    requires
        adam_id.len() > 0,
    ensures
        ({
            let json = apple::relayed_json(Ok(response), document, operation, adam_id, body);
            let lyrics = apple::relayed_lyrics(
                Ok(response),
                document,
                adam_id,
                language,
                script,
                storefront,
            );
            &&& response.http_status != 200 ==> json == lyrics && (
            json matches apple::AppleStepView::Reply(reply) && reply.status == response.http_status
                && reply.content_type == "application/json"@ && reply.body == response.body)
            &&& response.http_status == 200 ==> (document matches Err(message) ==> json == lyrics
                && json == apple::AppleStepView::Fail(
                error::IoErrorView { kind: IoErrorKind::InvalidData, message },
            ))
        }),
        apple::relayed_json(Err(failure), document, operation, adam_id, body)
            == apple::AppleStepView::Fail(
            error::IoErrorView { kind: IoErrorKind::Other, message: failure },
        ),
        apple::relayed_lyrics(
            Err(failure),
            document,
            adam_id,
            language,
            script,
            storefront,
        ) == apple::AppleStepView::Fail(
            error::IoErrorView { kind: IoErrorKind::Other, message: failure },
        ),
        apple::account_document(Ok(response)) == json::json_document(response.body),
{
}

/// Lyrics need a store id before all else.
pub proof fn lyrics_without_store_id_are_refused(
    me: Result<worker::WorkerResponseView, Seq<char>>,
    document: Result<json::JsonView, Seq<char>>,
    language: Seq<char>,
    script: Seq<char>,
    storefront: Seq<char>,
)
    ensures
        apple::relayed_lyrics(
            me,
            document,
            Seq::<char>::empty(),
            language,
            script,
            storefront,
        ) matches apple::AppleStepView::Reply(reply) && reply.status == 400 && messages::is_error(
            reply,
            "missing_adam_id"@,
            None,
        ),
{
    messages::errors_are_reported_as_json(400, "missing_adam_id"@, None);
}

/// What `curl` printed is the body up to the last line break, and behind it the
/// status, whatever white space stands around that; what is no status, or no line
/// at all, counts as a bad gateway.
pub proof fn output_is_body_and_status(
    body: Seq<char>,
    front: Seq<char>,
    numeral: Seq<char>,
    back: Seq<char>,
    plain: Seq<char>,
    stderr: Seq<char>,
)
    requires
        !(front + numeral + back).contains('\n'),
        !plain.contains('\n'),
        forall|i: int|
            0 <= i < front.len() ==> texts::white_space_code_points().contains(
                (#[trigger] front[i]) as u32,
            ),
        forall|i: int|
            0 <= i < back.len() ==> texts::white_space_code_points().contains(
                (#[trigger] back[i]) as u32,
            ),
        numeral.len() > 0 ==> !texts::white_space_code_points().contains(numeral[0] as u32)
            && !texts::white_space_code_points().contains(numeral.last() as u32),
    ensures
        ({
            let reply = apple::curl_reply(
                true,
                body + seq!['\n'] + (front + numeral + back),
                stderr,
            );
            &&& reply.body == encode_utf8(body)
            &&& reply.content_type == "application/json"@
            &&& decimal::decimal_value(numeral) matches Some(n) ==> n <= 65535 ==> reply.status
                == n
            &&& decimal::decimal_value(numeral) matches Some(n) ==> n > 65535 ==> reply.status
                == 502
            &&& decimal::decimal_value(numeral) is None ==> reply.status == 502
        }),
        apple::curl_reply(true, plain, stderr) == (http::ReplyView {
            status: 502,
            content_type: "application/json"@,
            body: encode_utf8(plain),
        }),
{
    texts::texts_are_cut_at_the_last(body, '\n', front + numeral + back);
    texts::texts_are_cut_at_the_last(body, '\n', plain);
    texts::white_space_is_trimmed_from_the_ends(front, numeral, back);
}

/// Where `curl` failed, what it said on its error stream is reported, without
/// white space around it, and nothing that it printed otherwise.
pub proof fn failures_of_curl_are_reported(
    stdout: Seq<char>,
    front: Seq<char>,
    message: Seq<char>,
    back: Seq<char>,
)
    requires
        forall|i: int|
            0 <= i < front.len() ==> texts::white_space_code_points().contains(
                (#[trigger] front[i]) as u32,
            ),
        forall|i: int|
            0 <= i < back.len() ==> texts::white_space_code_points().contains(
                (#[trigger] back[i]) as u32,
            ),
        message.len() > 0 ==> !texts::white_space_code_points().contains(message[0] as u32)
            && !texts::white_space_code_points().contains(message.last() as u32),
    ensures
        ({
            let reply = apple::curl_reply(false, stdout, front + message + back);
            reply.status == 502 && messages::is_error(
                reply,
                "apple_request_failed"@,
                Some(message),
            )
        }),
{
    texts::white_space_is_trimmed_from_the_ends(front, message, back);
    messages::errors_are_reported_as_json(502, "apple_request_failed"@, Some(message));
}

/// What a refused request is told is an object with the error that goes with it.
pub proof fn refusals_say_what_they_carry(
    account: json::JsonView,
    operation: Seq<char>,
    adam_id: Seq<char>,
    body: Option<json::JsonView>,
)
    ensures
        apple::json_step(
            account,
            operation,
            adam_id,
            body,
        ) matches apple::AppleStepView::Reply(reply) ==> messages::carries(
            reply,
            apple::json_refusal(account, operation, body),
        ),
        apple::license_payload(body) matches Err(reply) ==> messages::carries(
            reply,
            apple::license_refusal(body),
        ),
        messages::carries(apple::not_authenticated(), apple::not_authenticated_object()),
{
}

} // verus!
