//! The protocol with the NewtonX sidecar: JSON Lines RPC over the child process's
//! standard input and output, one request and one response per line. The process, the
//! pipes and the waiting are the application's; what a request holds and what a
//! response means is decided here.
use crate::domain::ai_analyzer::validator::{
    get_text, json_get, json_text, member, push_member, take_json, Json,
};
use crate::models::constants::newtonx_rpc;
use crate::models::error::AppError;
use crate::text::{decimal, push_str, str_eq, u64_to_decimal};
use vstd::prelude::*;
use vstd::string::StringExecFns;

verus! {

pub open spec fn ai_error(e: AppError, message: Seq<char>, recoverable: bool, retryable: bool) -> bool {
    e matches AppError::Ai { message: m, recoverable: r, retryable: t } && m@ == message && r == recoverable && t == retryable
}

/// The error of a category that the sidecar reports: authentication, chat and
/// configuration errors stop the analysis; rate limits, server errors, timeouts and
/// anything else may be retried.
pub open spec fn bridge_error_flags(category: Seq<char>) -> (bool, bool) {
    if category == "authentication"@ || category == "chat"@ || category == "configuration"@ {
        (false, false)
    } else {
        (true, true)
    }
}

pub fn map_bridge_error(category: &str, message: String) -> (e: AppError)
    ensures
        ai_error(e, message@, bridge_error_flags(category@).0, bridge_error_flags(category@).1),
{
    if str_eq(category, "authentication") || str_eq(category, "chat") || str_eq(category, "configuration") {
        AppError::Ai { message, recoverable: false, retryable: false }
    } else {
        AppError::Ai { message, recoverable: true, retryable: true }
    }
}

/// What a response line means: the result, or the error the sidecar reported.
pub open spec fn rpc_outcome_ok(response: Json, res: Result<Json, AppError>) -> bool {
    match json_get(response, "error"@) {
        Some(error) => {
            let message = match json_text(json_get(error, "message"@)) {
                Some(m) => m,
                None => "不明なサイドカーエラー"@,
            };
            let category = match json_text(json_get(error, "category"@)) {
                Some(c) => c,
                None => Seq::empty(),
            };
            res matches Err(e) && ai_error(e, message, bridge_error_flags(category).0, bridge_error_flags(category).1)
        },
        None => res matches Ok(r) && r == match json_get(response, "result"@) {
            Some(v) => v,
            None => Json::Null,
        },
    }
}

/// The result of a response, or the error it reports (an `error` member, whatever its
/// value, is an error).
pub fn rpc_outcome(response: Json) -> (res: Result<Json, AppError>)
    ensures
        rpc_outcome_ok(response, res),
{
    let ghost r0 = response;
    let has_error = match &response {
        Json::Object(fs) => crate::domain::ai_analyzer::validator::get_member(fs, "error").is_some(),
        _ => false,
    };
    if has_error {
        let error = take_json(response, "error").unwrap();
        let message = match get_text(&error, "message") {
            Some(m) => m,
            None => String::from_str("不明なサイドカーエラー"),
        };
        let category = match get_text(&error, "category") {
            Some(c) => c,
            None => String::new(),
        };
        Err(map_bridge_error(category.as_str(), message))
    } else {
        match take_json(response, "result") {
            Some(v) => Ok(v),
            None => Ok(Json::Null),
        }
    }
}

/// An object with exactly the given members.
pub open spec fn object_with(v: Json, keys: Seq<Seq<char>>, values: Seq<Json>) -> bool {
    &&& v matches Json::Object(fs)
    &&& forall|k: Seq<char>| !keys.contains(k) ==> #[trigger] json_get(v, k) is None
    &&& forall|i: int| 0 <= i < keys.len() ==> #[trigger] json_get(v, keys[i]) == Some(values[i])
}

pub open spec fn str_is(v: Json, text: Seq<char>) -> bool {
    v matches Json::Str(s) && s@ == text
}

fn text_json(s: &str) -> (v: Json)
    ensures
        str_is(v, s@),
{
    Json::Str(String::from_str(s))
}

/// The request line's value: an object with the request id, the method and its
/// parameters.
pub fn rpc_request(id: &str, method: &str, params: Json) -> (v: Json)
    ensures
        v matches Json::Object(fs) && str_is(member(fs@, "id"@).unwrap(), id@)
            && str_is(member(fs@, "method"@).unwrap(), method@) && member(fs@, "params"@) == Some(params),
        forall|k: Seq<char>| k != "id"@ && k != "method"@ && k != "params"@ ==> #[trigger] json_get(v, k) is None,
{
    proof {
        reveal_strlit("id");
        reveal_strlit("method");
        reveal_strlit("params");
        assert("id"@.len() != "method"@.len() && "id"@.len() != "params"@.len());
        assert("method"@[0] != "params"@[0]);
    }
    let mut fs: Vec<(String, Json)> = Vec::new();
    push_member(&mut fs, "id", text_json(id));
    push_member(&mut fs, "method", text_json(method));
    push_member(&mut fs, "params", params);
    Json::Object(fs)
}

/// Parameters of `ai.analyze`. Web search and knowledge search are always switched off
/// explicitly.
pub fn analyze_params(chat_uid: &str, prompt: &str) -> (v: Json)
    ensures
        v matches Json::Object(fs) && str_is(member(fs@, "chatUid"@).unwrap(), chat_uid@)
            && str_is(member(fs@, "message"@).unwrap(), prompt@)
            && member(fs@, "webSearch"@) == Some(Json::Bool(false))
            && member(fs@, "knowledgeSearch"@) == Some(Json::Bool(false)),
{
    proof {
        reveal_strlit("chatUid");
        reveal_strlit("message");
        reveal_strlit("webSearch");
        reveal_strlit("knowledgeSearch");
        assert("chatUid"@[0] != "message"@[0] && "chatUid"@.len() != "webSearch"@.len() && "chatUid"@.len() != "knowledgeSearch"@.len());
        assert("message"@.len() != "webSearch"@.len() && "message"@.len() != "knowledgeSearch"@.len() && "webSearch"@.len() != "knowledgeSearch"@.len());
    }
    let mut fs: Vec<(String, Json)> = Vec::new();
    push_member(&mut fs, "chatUid", text_json(chat_uid));
    push_member(&mut fs, "message", text_json(prompt));
    push_member(&mut fs, "webSearch", Json::Bool(false));
    push_member(&mut fs, "knowledgeSearch", Json::Bool(false));
    Json::Object(fs)
}

/// Parameters of `session.open`.
pub fn open_session_params(title: &str, assistant_uid: &str) -> (v: Json)
    ensures
        v matches Json::Object(fs) && str_is(member(fs@, "title"@).unwrap(), title@)
            && str_is(member(fs@, "assistantUid"@).unwrap(), assistant_uid@),
{
    proof {
        reveal_strlit("title");
        reveal_strlit("assistantUid");
        assert("title"@.len() != "assistantUid"@.len());
    }
    let mut fs: Vec<(String, Json)> = Vec::new();
    push_member(&mut fs, "title", text_json(title));
    push_member(&mut fs, "assistantUid", text_json(assistant_uid));
    Json::Object(fs)
}

/// Parameters of `session.close`.
pub fn close_session_params(chat_uid: &str) -> (v: Json)
    ensures
        v matches Json::Object(fs) && str_is(member(fs@, "chatUid"@).unwrap(), chat_uid@),
{
    let mut fs: Vec<(String, Json)> = Vec::new();
    push_member(&mut fs, "chatUid", text_json(chat_uid));
    Json::Object(fs)
}

/// Parameters of `auth.save_credentials`.
pub fn save_credentials_params(host: &str, personal_access_token: &str) -> (v: Json)
    ensures
        v matches Json::Object(fs) && str_is(member(fs@, "host"@).unwrap(), host@)
            && str_is(member(fs@, "personalAccessToken"@).unwrap(), personal_access_token@),
{
    proof {
        reveal_strlit("host");
        reveal_strlit("personalAccessToken");
        assert("host"@.len() != "personalAccessToken"@.len());
    }
    let mut fs: Vec<(String, Json)> = Vec::new();
    push_member(&mut fs, "host", text_json(host));
    push_member(&mut fs, "personalAccessToken", text_json(personal_access_token));
    Json::Object(fs)
}

/// Whether `auth.status` reports an authenticated user (false unless it says so).
pub fn authenticated_from(result: &Json) -> (b: bool)
    ensures
        b == (json_get(*result, "authenticated"@) == Some(Json::Bool(true))),
{
    match result {
        Json::Object(fs) => match crate::domain::ai_analyzer::validator::get_member(fs, "authenticated") {
            Some(Json::Bool(b)) => *b,
            _ => false,
        },
        _ => false,
    }
}

/// The message of `ai.test`, "OK" when it gives none.
pub fn test_message_from(result: &Json) -> (m: String)
    ensures
        m@ == match json_text(json_get(*result, "message"@)) {
            Some(t) => t,
            None => "OK"@,
        },
{
    match get_text(result, "message") {
        Some(t) => t,
        None => String::from_str("OK"),
    }
}

/// The chat of `session.open`; an error that stops the analysis when the reply has none.
pub fn chat_uid_from(result: &Json) -> (res: Result<String, AppError>)
    ensures
        match json_text(json_get(*result, "chatUid"@)) {
            Some(t) => res matches Ok(u) && u@ == t,
            None => res matches Err(e) && ai_error(e, "session.openの応答にchatUidがありません"@, false, false),
        },
{
    match get_text(result, "chatUid") {
        Some(t) => Ok(t),
        None => Err(AppError::Ai {
            message: String::from_str("session.openの応答にchatUidがありません"),
            recoverable: false,
            retryable: false,
        }),
    }
}

/// The reply text of `ai.analyze`; `None` is the silent failure after which the chat is
/// opened anew.
pub fn analyze_response_from(result: &Json) -> (res: Option<String>)
    ensures
        match res {
            Some(t) => json_text(json_get(*result, "response"@)) == Some(t@),
            None => json_text(json_get(*result, "response"@)) is None,
        },
{
    get_text(result, "response")
}

/// The wait for one response, in seconds: the configured timeout, at least 1.
pub fn response_timeout_secs(timeout_secs: u64) -> (s: u64)
    ensures
        s == if timeout_secs < 1 { 1 } else { timeout_secs },
{
    if timeout_secs < 1 { 1 } else { timeout_secs }
}

/// The error of a response that did not come in time: it may be retried.
pub fn timeout_error(secs: u64, method: &str) -> (e: AppError)
    ensures
        ai_error(e, "NewtonXサイドカーからの応答がタイムアウトしました（"@ + decimal(secs as nat) + "秒、method="@ + method@ + "）"@, true, true),
{
    let mut m = String::from_str("NewtonXサイドカーからの応答がタイムアウトしました（");
    let d = u64_to_decimal(secs);
    push_str(&mut m, d.as_str());
    push_str(&mut m, "秒、method=");
    push_str(&mut m, method);
    push_str(&mut m, "）");
    AppError::Ai { message: m, recoverable: true, retryable: true }
}

/// The error when the sidecar went away before answering: it stops the analysis.
pub fn disconnected_error() -> (e: AppError)
    ensures
        ai_error(e, "サイドカーからの応答を受信できませんでした（プロセス終了の可能性）"@, false, false),
{
    AppError::Ai {
        message: String::from_str("サイドカーからの応答を受信できませんでした（プロセス終了の可能性）"),
        recoverable: false,
        retryable: false,
    }
}

/// The error when a request could not be written to the sidecar: it may be retried.
pub fn send_error(detail: &str) -> (e: AppError)
    ensures
        ai_error(e, "サイドカーへの送信に失敗しました: "@ + detail@, true, true),
{
    let mut m = String::from_str("サイドカーへの送信に失敗しました: ");
    push_str(&mut m, detail);
    AppError::Ai { message: m, recoverable: true, retryable: true }
}

} // verus!
