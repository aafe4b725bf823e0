use projectlens::domain::ai_analyzer::validator::{
    invalid_response, strip_wrapper, validate_file_json, validate_project_json, Json, JsonNumber,
};
use projectlens::models::error::AppError;

fn s(t: &str) -> Json {
    Json::Str(t.to_string())
}

fn obj(members: Vec<(&str, Json)>) -> Json {
    Json::Object(members.into_iter().map(|(k, v)| (k.to_string(), v)).collect())
}

fn num(n: i64) -> Json {
    Json::Number(JsonNumber { as_i64: Some(n), text: n.to_string() })
}

fn member<'a>(v: &'a Json, key: &str) -> Option<&'a Json> {
    match v {
        Json::Object(fs) => fs.iter().find(|(k, _)| k == key).map(|(_, v)| v),
        _ => None,
    }
}

#[test]
fn strips_code_fence_and_clamps_score() {
    let raw = "以下がJSONです。\n```json\n{\"roleSummary\":\"テスト\"}\n```";
    assert_eq!(strip_wrapper(raw), "{\"roleSummary\":\"テスト\"}");
    let value = obj(vec![
        ("roleSummary", s("テスト")),
        ("publicApis", Json::Array(vec![])),
        ("designPatterns", Json::Array(vec![])),
        ("importanceScore", num(99)),
        ("potentialIssues", Json::Array(vec![obj(vec![("severity", s("critical")), ("description", s("x"))])])),
    ]);
    let out = validate_file_json("src/foo.ts", value).unwrap();
    match member(&out, "importanceScore") {
        Some(Json::Number(n)) => {
            assert_eq!(n.as_i64, Some(10));
            assert_eq!(n.text, "10");
        }
        other => panic!("unexpected {:?}", other),
    }
    match member(&out, "potentialIssues") {
        Some(Json::Array(items)) => match member(&items[0], "severity") {
            Some(Json::Str(t)) => assert_eq!(t, "medium"),
            other => panic!("unexpected {:?}", other),
        },
        other => panic!("unexpected {:?}", other),
    }
    assert!(matches!(member(&out, "filePath"), Some(Json::Str(p)) if p == "src/foo.ts"));
    assert!(matches!(member(&out, "cacheHit"), Some(Json::Bool(false))));
}

#[test]
fn missing_required_key_is_retryable_ai_error() {
    let value = obj(vec![("publicApis", Json::Array(vec![]))]);
    match validate_file_json("src/foo.ts", value).unwrap_err() {
        AppError::Ai { message, retryable, recoverable } => {
            assert!(retryable);
            assert!(recoverable);
            assert_eq!(message, "AI応答の検証に失敗しました（必須キー欠損）: roleSummary");
        }
        _ => panic!("expected AppError::Ai"),
    }
}

#[test]
fn missing_score_defaults_to_five_and_low_scores_rise_to_one() {
    let base = |score: Option<Json>| {
        let mut m = vec![
            ("roleSummary", s("r")),
            ("publicApis", Json::Array(vec![])),
            ("designPatterns", Json::Array(vec![])),
            ("potentialIssues", Json::Array(vec![])),
        ];
        if let Some(v) = score {
            m.push(("importanceScore", v));
        }
        obj(m)
    };
    let out = validate_file_json("a", base(None)).unwrap();
    assert!(matches!(member(&out, "importanceScore"), Some(Json::Number(n)) if n.as_i64 == Some(5)));
    let out = validate_file_json("a", base(Some(num(-3)))).unwrap();
    assert!(matches!(member(&out, "importanceScore"), Some(Json::Number(n)) if n.as_i64 == Some(1)));
    let out = validate_file_json("a", base(Some(s("7")))).unwrap();
    assert!(matches!(member(&out, "importanceScore"), Some(Json::Number(n)) if n.as_i64 == Some(5)));
}

#[test]
fn non_object_is_refused() {
    match validate_file_json("a", Json::Array(vec![])).unwrap_err() {
        AppError::Ai { message, .. } => assert_eq!(message, "AI応答の検証に失敗しました（トップレベル構造）: オブジェクトではありません"),
        _ => panic!(),
    }
}

#[test]
fn project_validation_normalises_technical_debts() {
    let value = obj(vec![
        ("systemSpec", obj(vec![])),
        (
            "basicDesign",
            obj(vec![("technicalDebts", Json::Array(vec![obj(vec![("severity", s("high"))]), obj(vec![])]))]),
        ),
    ]);
    let out = validate_project_json(value).unwrap();
    let debts = match member(member(&out, "basicDesign").unwrap(), "technicalDebts") {
        Some(Json::Array(items)) => items,
        _ => panic!(),
    };
    assert!(matches!(member(&debts[0], "severity"), Some(Json::Str(t)) if t == "high"));
    assert!(matches!(member(&debts[1], "severity"), Some(Json::Str(t)) if t == "medium"));
    assert!(validate_project_json(obj(vec![("systemSpec", obj(vec![]))])).is_err());
}

#[test]
fn invalid_response_message() {
    match invalid_response("JSONパース", "eof") {
        AppError::Ai { message, recoverable, retryable } => {
            assert_eq!(message, "AI応答の検証に失敗しました（JSONパース）: eof");
            assert!(recoverable && retryable);
        }
        _ => panic!(),
    }
}

#[test]
fn strip_wrapper_without_braces_trims() {
    assert_eq!(strip_wrapper("  plain text \n"), "plain text");
    assert_eq!(strip_wrapper("} {"), "} {");
}
