//! Validation of the AI responses: strip what surrounds the JSON, check the required
//! keys, complete and normalise the values. The schema differences between file and
//! project results are kept here. Reading the JSON text and the typed conversion are
//! serde's; this module works on the JSON value in between.
use crate::models::error::AppError;
use crate::text::{
    is_whitespace, lemma_first_index_of, lemma_last_index_of, lemma_trim_idempotent, lemma_trim_shape, chars_of, decimal, first_index_of, find_char, last_index_of, push_str, rfind_char, slice_chars,
    str_eq, string_of, trim, trim_exec, u64_to_decimal,
};
use vstd::prelude::*;
use vstd::string::StringExecFns;

verus! {

/// A JSON number: its value where it is an integer that fits in 64 signed bits, and its
/// text.
#[derive(Debug, Clone)]
pub struct JsonNumber {
    pub as_i64: Option<i64>,
    pub text: String,
}

/// A JSON value. An object keeps its members in order; a lookup finds the first member
/// with the key.
#[derive(Debug)]
pub enum Json {
    Null,
    Bool(bool),
    Number(JsonNumber),
    Str(String),
    Array(Vec<Json>),
    Object(Vec<(String, Json)>),
}

/// The value of the first member with the key.
pub open spec fn member(fields: Seq<(String, Json)>, key: Seq<char>) -> Option<Json>
    decreases fields.len(),
{
    if fields.len() == 0 {
        None
    } else if fields[0].0@ == key {
        Some(fields[0].1)
    } else {
        member(fields.drop_first(), key)
    }
}

/// The members after setting `key` to `value`: every key keeps its value but `key`.
pub open spec fn set_member(before: Seq<(String, Json)>, after: Seq<(String, Json)>, key: Seq<char>, value: Json) -> bool {
    &&& member(after, key) == Some(value)
    &&& forall|k: Seq<char>| k != key ==> #[trigger] member(after, k) == member(before, k)
}

/// The first index of a member with the key, from `i` on.
pub open spec fn member_index(fields: Seq<(String, Json)>, key: Seq<char>, i: int) -> Option<int>
    decreases fields.len() - i,
{
    if i < 0 || i >= fields.len() {
        None
    } else if fields[i].0@ == key {
        Some(i)
    } else {
        member_index(fields, key, i + 1)
    }
}

proof fn lemma_member_index(fields: Seq<(String, Json)>, key: Seq<char>, i: int)
    requires
        0 <= i <= fields.len(),
    ensures
        member(fields.skip(i), key) == match member_index(fields, key, i) {
            Some(j) => Some(fields[j].1),
            None => None,
        },
        member_index(fields, key, i) matches Some(j) ==> i <= j < fields.len() && fields[j].0@ == key,
        member_index(fields, key, i) is None ==> forall|j: int| i <= j < fields.len() ==> fields[j].0@ != key,
    decreases fields.len() - i,
{
    if i < fields.len() {
        assert(fields.skip(i).drop_first() =~= fields.skip(i + 1));
        lemma_member_index(fields, key, i + 1);
    }
}

proof fn lemma_member_update(fields: Seq<(String, Json)>, j: int, key: Seq<char>, value: Json, k: Seq<char>)
    requires
        member_index(fields, key, 0) == Some(j),
        0 <= j < fields.len(),
    ensures
        member(fields.update(j, (fields[j].0, value)), k) == if k == key { Some(value) } else { member(fields, k) },
    decreases fields.len(),
{
    lemma_member_index(fields, key, 0);
    let upd = fields.update(j, (fields[j].0, value));
    assert(upd[0] == if j == 0 { (fields[0].0, value) } else { fields[0] });
    if j == 0 {
        assert(upd.drop_first() =~= fields.drop_first());
        if k != key {
            assert(member(upd, k) == member(upd.drop_first(), k));
            assert(member(fields, k) == member(fields.drop_first(), k));
        }
    } else {
        assert(fields[0].0@ != key);
        let rest = fields.drop_first();
        assert(member_index(fields, key, 0) == member_index(fields, key, 1));
        lemma_member_index_shift(fields, key, 1);
        assert(fields.update(j, (fields[j].0, value)).drop_first() =~= rest.update(j - 1, (rest[j - 1].0, value)));
        lemma_member_update(rest, j - 1, key, value, k);
    }
}

proof fn lemma_member_index_shift(fields: Seq<(String, Json)>, key: Seq<char>, i: int)
    requires
        1 <= i <= fields.len(),
    ensures
        member_index(fields, key, i) == match member_index(fields.drop_first(), key, i - 1) {
            Some(j) => Some(j + 1),
            None => None,
        },
    decreases fields.len() - i,
{
    if i < fields.len() {
        lemma_member_index_shift(fields, key, i + 1);
    }
}

fn find_member(fields: &Vec<(String, Json)>, key: &str) -> (res: Option<usize>)
    ensures
        match res {
            Some(j) => member_index(fields@, key@, 0) == Some(j as int),
            None => member_index(fields@, key@, 0) is None,
        },
{
    let mut i: usize = 0;
    while i < fields.len()
        invariant
            i <= fields.len(),
            member_index(fields@, key@, 0) == member_index(fields@, key@, i as int),
        decreases fields.len() - i,
    {
        if str_eq(fields[i].0.as_str(), key) {
            return Some(i);
        }
        i = i + 1;
    }
    None
}

/// The value of the first member with the key.
pub fn get_member<'a>(fields: &'a Vec<(String, Json)>, key: &str) -> (res: Option<&'a Json>)
    ensures
        match res {
            Some(v) => member(fields@, key@) == Some(*v),
            None => member(fields@, key@) is None,
        },
{
    proof {
        lemma_member_index(fields@, key@, 0);
        assert(fields@.skip(0) =~= fields@);
    }
    match find_member(fields, key) {
        Some(j) => Some(&fields[j].1),
        None => None,
    }
}

/// Sets a member: the first member with the key gets the value, or a new member is
/// appended (serde_json `Map::insert`).
pub fn set_member_exec(fields: &mut Vec<(String, Json)>, key: &str, value: Json)
    ensures
        set_member(old(fields)@, final(fields)@, key@, value),
{
    proof {
        lemma_member_index(old(fields)@, key@, 0);
        assert(old(fields)@.skip(0) =~= old(fields)@);
    }
    match find_member(fields, key) {
        Some(j) => {
            let ghost before = fields@;
            let name = fields[j].0.clone();
            fields.set(j, (name, value));
            proof {
                assert(fields@ =~= before.update(j as int, (before[j as int].0, value)));
                assert forall|k: Seq<char>| k != key@ implies #[trigger] member(fields@, k) == member(before, k) by {
                    lemma_member_update(before, j as int, key@, value, k);
                }
                lemma_member_update(before, j as int, key@, value, key@);
            }
        },
        None => {
            let ghost before = fields@;
            let name = String::from_str(key);
            fields.push((name, value));
            proof {
                assert(member(before, key@) is None);
                assert forall|k: Seq<char>| #[trigger] member(fields@, k) == if k == key@ { Some(value) } else { member(before, k) } by {
                    lemma_member_push_any(before, name, value, k);
                }
            }
        },
    }
}

pub proof fn lemma_member_push_any(fields: Seq<(String, Json)>, name: String, value: Json, k: Seq<char>)
    requires
        member(fields, name@) is None,
    ensures
        member(fields.push((name, value)), k) == if k == name@ { Some(value) } else { member(fields, k) },
    decreases fields.len(),
{
    let pushed = fields.push((name, value));
    if fields.len() > 0 {
        assert(pushed[0] == fields[0]);
        assert(pushed.drop_first() =~= fields.drop_first().push((name, value)));
        assert(fields[0].0@ != name@);
        lemma_member_push_any(fields.drop_first(), name, value, k);
        if fields[0].0@ == k {
            assert(member(pushed, k) == Some(fields[0].1));
            assert(member(fields, k) == Some(fields[0].1));
        } else {
            assert(member(pushed, k) == member(pushed.drop_first(), k));
            assert(member(fields, k) == member(fields.drop_first(), k));
        }
    } else {
        assert(pushed[0] == (name, value));
        assert(pushed.drop_first() =~= Seq::<(String, Json)>::empty());
    }
}

// ---------------------------------------------------------------------
// Errors
// ---------------------------------------------------------------------

pub open spec fn invalid_message(context: Seq<char>, detail: Seq<char>) -> Seq<char> {
    "AI応答の検証に失敗しました（"@ + context + "）: "@ + detail
}

/// The error of a response that does not validate: a recoverable AI error that may be
/// retried.
pub open spec fn is_invalid_response(e: AppError, context: Seq<char>, detail: Seq<char>) -> bool {
    &&& e matches AppError::Ai { message, recoverable, retryable }
    &&& message@ == invalid_message(context, detail)
    &&& recoverable
    &&& retryable
}

pub fn invalid_response(context: &str, detail: &str) -> (e: AppError)
    ensures
        is_invalid_response(e, context@, detail@),
{
    let mut message = String::from_str("AI応答の検証に失敗しました（");
    push_str(&mut message, context);
    push_str(&mut message, "）: ");
    push_str(&mut message, detail);
    AppError::Ai { message, recoverable: true, retryable: true }
}

// ---------------------------------------------------------------------
// The JSON text
// ---------------------------------------------------------------------

/// The response without its surroundings (a preamble, a code fence): the trimmed text
/// from its first '{' to its last '}', or the trimmed text when there is no such pair.
pub open spec fn unwrapped(raw: Seq<char>) -> Seq<char> {
    let t = trim(raw);
    match (first_index_of(t, '{'), last_index_of(t, '}')) {
        (Some(s), Some(e)) => if e >= s { t.subrange(s, e + 1) } else { t },
        _ => t,
    }
}

pub fn strip_wrapper(raw: &str) -> (res: String)
    ensures
        res@ == unwrapped(raw@),
{
    let t = trim_exec(chars_of(raw).as_slice());
    match (find_char(t.as_slice(), '{'), rfind_char(t.as_slice(), '}')) {
        (Some(s), Some(e)) => {
            if e >= s {
                string_of(slice_chars(t.as_slice(), s, e + 1).as_slice())
            } else {
                string_of(t.as_slice())
            }
        },
        _ => string_of(t.as_slice()),
    }
}

// ---------------------------------------------------------------------
// Normalisation of the JSON value
// ---------------------------------------------------------------------

pub open spec fn is_str(v: Option<Json>, text: Seq<char>) -> bool {
    match v {
        Some(Json::Str(s)) => s@ == text,
        _ => false,
    }
}

/// Every member but `key` keeps its value.
pub open spec fn same_except(before: Seq<(String, Json)>, after: Seq<(String, Json)>, key: Seq<char>) -> bool {
    forall|k: Seq<char>| k != key ==> #[trigger] member(after, k) == member(before, k)
}

/// The severity is one of "high", "medium", "low".
pub open spec fn severity_valid(fields: Seq<(String, Json)>) -> bool {
    is_str(member(fields, "severity"@), "high"@) || is_str(member(fields, "severity"@), "medium"@)
        || is_str(member(fields, "severity"@), "low"@)
}

/// An object with an invalid or missing severity gets "medium"; anything else is kept.
pub open spec fn severity_normalized(before: Json, after: Json) -> bool {
    match before {
        Json::Object(fs) => match after {
            Json::Object(gs) => if severity_valid(fs@) {
                gs@ == fs@
            } else {
                is_str(member(gs@, "severity"@), "medium"@) && same_except(fs@, gs@, "severity"@)
            },
            _ => false,
        },
        _ => after == before,
    }
}

pub open spec fn items_normalized(before: Seq<Json>, after: Seq<Json>) -> bool {
    &&& after.len() == before.len()
    &&& forall|i: int| 0 <= i < before.len() ==> #[trigger] severity_normalized(before[i], after[i])
}

/// The array member `key` has each of its items' severities normalised; everything else
/// is kept.
pub open spec fn array_member_normalized(before: Seq<(String, Json)>, after: Seq<(String, Json)>, key: Seq<char>) -> bool {
    &&& same_except(before, after, key)
    &&& match member(before, key) {
        Some(Json::Array(items)) => match member(after, key) {
            Some(Json::Array(items2)) => items_normalized(items@, items2@),
            _ => false,
        },
        _ => member(after, key) == member(before, key),
    }
}

fn is_str_exec(v: Option<&Json>, text: &str) -> (res: bool)
    ensures
        res == is_str(match v { Some(j) => Some(*j), None => None }, text@),
{
    match v {
        Some(Json::Str(s)) => str_eq(s.as_str(), text),
        _ => false,
    }
}

pub fn normalize_severity(fields: &mut Vec<(String, Json)>)
    ensures
        severity_normalized(Json::Object(*old(fields)), Json::Object(*final(fields))),
{
    let valid = {
        let sev = get_member(fields, "severity");
        is_str_exec(sev, "high") || is_str_exec(sev, "medium") || is_str_exec(sev, "low")
    };
    if !valid {
        set_member_exec(fields, "severity", Json::Str(String::from_str("medium")));
    }
}

fn normalize_item(item: Json) -> (res: Json)
    ensures
        severity_normalized(item, res),
{
    match item {
        Json::Object(mut fs) => {
            normalize_severity(&mut fs);
            Json::Object(fs)
        },
        other => other,
    }
}

fn normalize_items(items: Vec<Json>) -> (res: Vec<Json>)
    ensures
        items_normalized(items@, res@),
{
    let ghost orig = items@;
    let mut rest = items;
    let mut out: Vec<Json> = Vec::new();
    while rest.len() > 0
        invariant
            out.len() + rest.len() == orig.len(),
            rest@ == orig.skip(out.len() as int),
            forall|i: int| 0 <= i < out.len() ==> #[trigger] severity_normalized(orig[i], out@[i]),
        decreases rest.len(),
    {
        let ghost k = out.len() as int;
        let it = rest.remove(0);
        assert(it == orig[k]);
        let n = normalize_item(it);
        out.push(n);
        assert(rest@ =~= orig.skip(out.len() as int));
    }
    out
}

/// Normalises the severities of the items of the array member `key`, if there is one.
pub fn normalize_severity_array(fields: &mut Vec<(String, Json)>, key: &str)
    ensures
        array_member_normalized(old(fields)@, final(fields)@, key@),
{
    proof {
        lemma_member_index(fields@, key@, 0);
        assert(fields@.skip(0) =~= fields@);
    }
    let ghost before = fields@;
    match find_member(fields, key) {
        Some(j) => {
            let is_array = match &fields[j].1 {
                Json::Array(_) => true,
                _ => false,
            };
            if is_array {
                let (name, v) = fields.remove(j);
                let newv = match v {
                    Json::Array(items) => Json::Array(normalize_items(items)),
                    other => other,
                };
                fields.insert(j, (name, newv));
                proof {
                    assert(fields@ =~= before.update(j as int, (before[j as int].0, newv)));
                    assert forall|k: Seq<char>| k != key@ implies #[trigger] member(fields@, k) == member(before, k) by {
                        lemma_member_update(before, j as int, key@, newv, k);
                    }
                    lemma_member_update(before, j as int, key@, newv, key@);
                }
            }
        },
        None => {},
    }
}

/// The importance score the response asks for, 5 when it gives none as an integer,
/// held between 1 and 10.
pub open spec fn clamped_score(fields: Seq<(String, Json)>) -> i64 {
    let raw: i64 = match member(fields, "importanceScore"@) {
        Some(Json::Number(n)) => match n.as_i64 {
            Some(x) => x,
            None => 5,
        },
        _ => 5,
    };
    if raw < 1 { 1 } else if raw > 10 { 10 } else { raw }
}

pub open spec fn is_score(v: Option<Json>, score: i64) -> bool {
    match v {
        Some(Json::Number(n)) => n.as_i64 == Some(score) && n.text@ == decimal(score as nat),
        _ => false,
    }
}

pub fn clamp_importance_score(fields: &mut Vec<(String, Json)>)
    ensures
        is_score(member(final(fields)@, "importanceScore"@), clamped_score(old(fields)@)),
        same_except(old(fields)@, final(fields)@, "importanceScore"@),
{
    let raw: i64 = match get_member(fields, "importanceScore") {
        Some(Json::Number(n)) => match n.as_i64 {
            Some(x) => x,
            None => 5,
        },
        _ => 5,
    };
    let score: i64 = if raw < 1 { 1 } else if raw > 10 { 10 } else { raw };
    let text = u64_to_decimal(score as u64);
    set_member_exec(fields, "importanceScore", Json::Number(JsonNumber { as_i64: Some(score), text }));
}

/// The file-result object after validation: the score clamped, the file path and the
/// cache flag set, the issues' severities normalised, everything else kept.
pub open spec fn file_json_ok(file_path: Seq<char>, before: Seq<(String, Json)>, after: Seq<(String, Json)>) -> bool {
    &&& is_score(member(after, "importanceScore"@), clamped_score(before))
    &&& is_str(member(after, "filePath"@), file_path)
    &&& member(after, "cacheHit"@) == Some(Json::Bool(false))
    &&& match member(before, "potentialIssues"@) {
        Some(Json::Array(items)) => match member(after, "potentialIssues"@) {
            Some(Json::Array(items2)) => items_normalized(items@, items2@),
            _ => false,
        },
        _ => member(after, "potentialIssues"@) == member(before, "potentialIssues"@),
    }
    &&& forall|k: Seq<char>| k != "importanceScore"@ && k != "filePath"@ && k != "cacheHit"@ && k != "potentialIssues"@
        ==> #[trigger] member(after, k) == member(before, k)
}

pub open spec fn file_required_keys() -> Seq<Seq<char>> {
    seq!["roleSummary"@, "publicApis"@, "designPatterns"@, "potentialIssues"@]
}

pub open spec fn project_required_keys() -> Seq<Seq<char>> {
    seq!["systemSpec"@, "basicDesign"@]
}

/// The first of the keys that the object lacks.
pub open spec fn first_missing(fields: Seq<(String, Json)>, keys: Seq<Seq<char>>) -> Option<Seq<char>>
    decreases keys.len(),
{
    if keys.len() == 0 {
        None
    } else if member(fields, keys[0]) is None {
        Some(keys[0])
    } else {
        first_missing(fields, keys.drop_first())
    }
}

fn check_required(fields: &Vec<(String, Json)>, keys: &Vec<&'static str>) -> (res: Result<(), AppError>)
    ensures
        match first_missing(fields@, keys@.map_values(|k: &'static str| k@)) {
            Some(k) => res matches Err(e) && is_invalid_response(e, "必須キー欠損"@, k),
            None => res is Ok,
        },
{
    let ghost kv = keys@.map_values(|k: &'static str| k@);
    let mut i: usize = 0;
    assert(kv.skip(0) =~= kv);
    while i < keys.len()
        invariant
            kv == keys@.map_values(|k: &'static str| k@),
            i <= keys.len(),
            first_missing(fields@, kv) == first_missing(fields@, kv.skip(i as int)),
        decreases keys.len() - i,
    {
        assert(kv.skip(i as int).drop_first() =~= kv.skip(i + 1));
        assert(kv.skip(i as int)[0] == keys@[i as int]@);
        if get_member(fields, keys[i]).is_none() {
            return Err(invalid_response("必須キー欠損", keys[i]));
        }
        i = i + 1;
    }
    assert(kv.skip(keys.len() as int) =~= Seq::<Seq<char>>::empty());
    Ok(())
}

/// What the validation of a file result gives: an error for a value that is not an
/// object or lacks a required key, else the completed object.
pub open spec fn file_validation_ok(file_path: Seq<char>, value: Json, res: Result<Json, AppError>) -> bool {
    match value {
        Json::Object(fs) => match first_missing(fs@, file_required_keys()) {
            Some(k) => res matches Err(e) && is_invalid_response(e, "必須キー欠損"@, k),
            None => res matches Ok(Json::Object(gs)) && file_json_ok(file_path, fs@, gs@),
        },
        _ => res matches Err(e) && is_invalid_response(e, "トップレベル構造"@, "オブジェクトではありません"@),
    }
}

/// Validates and completes a file analysis response (already read as JSON).
pub fn validate_file_json(file_path: &str, value: Json) -> (res: Result<Json, AppError>)
    ensures
        file_validation_ok(file_path@, value, res),
{
    let ghost v0 = value;
    let mut fields = match value {
        Json::Object(fs) => fs,
        _ => return Err(invalid_response("トップレベル構造", "オブジェクトではありません")),
    };
    let ghost f0 = fields@;
    let keys = vec!["roleSummary", "publicApis", "designPatterns", "potentialIssues"];
    assert(keys@.map_values(|k: &'static str| k@) =~= file_required_keys());
    match check_required(&fields, &keys) {
        Err(e) => return Err(e),
        Ok(()) => {},
    }
    clamp_importance_score(&mut fields);
    let ghost f1 = fields@;
    set_member_exec(&mut fields, "filePath", Json::Str(String::from_str(file_path)));
    let ghost f2 = fields@;
    set_member_exec(&mut fields, "cacheHit", Json::Bool(false));
    let ghost f3 = fields@;
    normalize_severity_array(&mut fields, "potentialIssues");
    proof {
        reveal_strlit("importanceScore");
        reveal_strlit("filePath");
        reveal_strlit("cacheHit");
        reveal_strlit("potentialIssues");
        assert("importanceScore"@[0] != "potentialIssues"@[0]);
        assert("filePath"@[0] != "cacheHit"@[0]);
        assert("importanceScore"@ != "filePath"@ && "importanceScore"@ != "cacheHit"@ && "importanceScore"@ != "potentialIssues"@);
        assert("filePath"@ != "cacheHit"@ && "filePath"@ != "potentialIssues"@ && "cacheHit"@ != "potentialIssues"@);
        assert(member(f3, "potentialIssues"@) == member(f0, "potentialIssues"@));
        assert(member(fields@, "importanceScore"@) == member(f1, "importanceScore"@));
        assert(member(fields@, "filePath"@) == member(f2, "filePath"@));
        assert(member(fields@, "cacheHit"@) == member(f3, "cacheHit"@));
    }
    Ok(Json::Object(fields))
}

/// What the validation of a project result gives: an error for a value that is not an
/// object or lacks a required key, else the object with the severities of the basic
/// design's technical debts normalised.
pub open spec fn project_validation_ok(value: Json, res: Result<Json, AppError>) -> bool {
    match value {
        Json::Object(fs) => match first_missing(fs@, project_required_keys()) {
            Some(k) => res matches Err(e) && is_invalid_response(e, "必須キー欠損"@, k),
            None => res matches Ok(Json::Object(gs)) && same_except(fs@, gs@, "basicDesign"@) && match member(fs@, "basicDesign"@) {
                Some(Json::Object(bd)) => match member(gs@, "basicDesign"@) {
                    Some(Json::Object(bd2)) => array_member_normalized(bd@, bd2@, "technicalDebts"@),
                    _ => false,
                },
                _ => member(gs@, "basicDesign"@) == member(fs@, "basicDesign"@),
            },
        },
        _ => res matches Err(e) && is_invalid_response(e, "トップレベル構造"@, "オブジェクトではありません"@),
    }
}

/// Validates a project analysis response (already read as JSON).
pub fn validate_project_json(value: Json) -> (res: Result<Json, AppError>)
    ensures
        project_validation_ok(value, res),
{
    let mut fields = match value {
        Json::Object(fs) => fs,
        _ => return Err(invalid_response("トップレベル構造", "オブジェクトではありません")),
    };
    let keys = vec!["systemSpec", "basicDesign"];
    assert(keys@.map_values(|k: &'static str| k@) =~= project_required_keys());
    match check_required(&fields, &keys) {
        Err(e) => return Err(e),
        Ok(()) => {},
    }
    let ghost before = fields@;
    proof {
        lemma_member_index(fields@, "basicDesign"@, 0);
        assert(fields@.skip(0) =~= fields@);
    }
    match find_member(&fields, "basicDesign") {
        Some(j) => {
            let is_object = match &fields[j].1 {
                Json::Object(_) => true,
                _ => false,
            };
            if is_object {
                let (name, v) = fields.remove(j);
                let newv = match v {
                    Json::Object(mut bd) => {
                        normalize_severity_array(&mut bd, "technicalDebts");
                        Json::Object(bd)
                    },
                    other => other,
                };
                fields.insert(j, (name, newv));
                proof {
                    assert(fields@ =~= before.update(j as int, (before[j as int].0, newv)));
                    assert forall|k: Seq<char>| k != "basicDesign"@ implies #[trigger] member(fields@, k) == member(before, k) by {
                        lemma_member_update(before, j as int, "basicDesign"@, newv, k);
                    }
                    lemma_member_update(before, j as int, "basicDesign"@, newv, "basicDesign"@);
                }
            }
        },
        None => {},
    }
    Ok(Json::Object(fields))
}

/// A JSON value's member, for an object; `None` for anything else (serde_json
/// `Value::get` with a key).
pub open spec fn json_get(v: Json, key: Seq<char>) -> Option<Json> {
    match v {
        Json::Object(fs) => member(fs@, key),
        _ => None,
    }
}

/// The text of a string value (serde_json `Value::as_str`).
pub open spec fn json_text(v: Option<Json>) -> Option<Seq<char>> {
    match v {
        Some(Json::Str(s)) => Some(s@),
        _ => None,
    }
}

/// Takes the value of the first member with the key out of an object's members.
pub fn take_member(fields: Vec<(String, Json)>, key: &str) -> (res: Option<Json>)
    ensures
        res == member(fields@, key@),
{
    proof {
        lemma_member_index(fields@, key@, 0);
        assert(fields@.skip(0) =~= fields@);
    }
    match find_member(&fields, key) {
        Some(j) => {
            let mut fields = fields;
            let (_, v) = fields.remove(j);
            Some(v)
        },
        None => None,
    }
}

/// Takes a member out of a value (`None` for a value that is not an object).
pub fn take_json(v: Json, key: &str) -> (res: Option<Json>)
    ensures
        res == json_get(v, key@),
{
    match v {
        Json::Object(fs) => take_member(fs, key),
        _ => None,
    }
}

/// A copy of the text of a string member.
pub fn get_text(v: &Json, key: &str) -> (res: Option<String>)
    ensures
        match res {
            Some(s) => json_text(json_get(*v, key@)) == Some(s@),
            None => json_text(json_get(*v, key@)) is None,
        },
{
    match v {
        Json::Object(fs) => match get_member(fs, key) {
            Some(Json::Str(s)) => Some(s.clone()),
            _ => None,
        },
        _ => None,
    }
}

/// Appends a member whose key is not there yet.
pub fn push_member(fields: &mut Vec<(String, Json)>, key: &str, value: Json)
    requires
        member(old(fields)@, key@) is None,
    ensures
        forall|k: Seq<char>| #[trigger] member(final(fields)@, k) == if k == key@ { Some(value) } else { member(old(fields)@, k) },
{
    let name = String::from_str(key);
    let ghost before = fields@;
    fields.push((name, value));
    proof {
        assert forall|k: Seq<char>| #[trigger] member(fields@, k) == if k == key@ { Some(value) } else { member(before, k) } by {
            lemma_member_push_any(before, name, value, k);
        }
    }
}

/// The importance score of a validated file result is always between 1 and 10.
pub proof fn lemma_score_in_range(fields: Seq<(String, Json)>)
    ensures
        1 <= clamped_score(fields) <= 10,
{
}

/// A score that the response gives as an integer from 1 to 10 is kept as it is by
/// validation; only scores outside that range are moved to its nearest end.
pub proof fn lemma_in_range_score_kept(file_path: Seq<char>, value: Json, res: Result<Json, AppError>, n: JsonNumber, score: i64)
    requires
        file_validation_ok(file_path, value, res),
        value matches Json::Object(fs) && member(fs@, "importanceScore"@) == Some(Json::Number(n)),
        n.as_i64 == Some(score),
        1 <= score <= 10,
    ensures
        res matches Ok(Json::Object(gs)) ==> (member(gs@, "importanceScore"@) matches Some(Json::Number(m)) && m.as_i64 == Some(score)),
{
}

/// A score outside 1..10 is moved to the nearest end of the range.
pub proof fn lemma_out_of_range_score_clamped(file_path: Seq<char>, value: Json, res: Result<Json, AppError>, n: JsonNumber, score: i64)
    requires
        file_validation_ok(file_path, value, res),
        value matches Json::Object(fs) && member(fs@, "importanceScore"@) == Some(Json::Number(n)),
        n.as_i64 == Some(score),
    ensures
        res matches Ok(Json::Object(gs)) ==> (member(gs@, "importanceScore"@) matches Some(Json::Number(m))
            && m.as_i64 == Some(if score < 1 { 1i64 } else if score > 10 { 10i64 } else { score })),
{
}

/// After normalisation an object's severity is always one of "high", "medium", "low".
pub proof fn lemma_normalized_severity_valid(before: Json, after: Json)
    requires
        severity_normalized(before, after),
        before is Object,
    ensures
        after matches Json::Object(gs) && severity_valid(gs@),
{
}

/// Stripping what surrounds the JSON twice is stripping it once.
pub proof fn lemma_unwrapped_idempotent(raw: Seq<char>)
    ensures
        unwrapped(unwrapped(raw)) == unwrapped(raw),
{
    let t = trim(raw);
    lemma_trim_idempotent(raw);
    lemma_first_index_of(t, '{');
    lemma_last_index_of(t, '}');
    match (first_index_of(t, '{'), last_index_of(t, '}')) {
        (Some(s), Some(e)) => {
            if e >= s {
                let u = t.subrange(s, e + 1);
                assert(u[0] == '{' && u.last() == '}');
                assert(!is_whitespace('{') && !is_whitespace('}'));
                lemma_trim_shape(u);
                lemma_first_index_of(u, '{');
                lemma_last_index_of(u, '}');
                assert(first_index_of(u, '{') == Some(0int));
                assert(last_index_of(u, '}') == Some(u.len() - 1));
                assert(u.subrange(0, u.len() as int) =~= u);
            }
        },
        _ => {},
    }
}

} // verus!
