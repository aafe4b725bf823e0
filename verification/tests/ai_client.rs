use projectlens::commands::test_connection_response;
use projectlens::domain::ai_analyzer::validator::Json;
use projectlens::domain::ai_analyzer::{
    after_invalid_response, after_reply, cached_result, cycles_summary, settle_file_result, settle_rpa_result, dependency_summary, estimate_tokens, fallback_file_result,
    fallback_rpa_result, session_title, ReplyStep, ValidationStep,
};
use projectlens::infra::ai_client::bridge::{
    analyze_params, authenticated_from, chat_uid_from, map_bridge_error, rpc_outcome, test_message_from, timeout_error,
};
use projectlens::infra::ai_client::retry::{RetryPolicy, RetryStep};
use projectlens::models::analysis::{
    CodeMetrics, DependencyEdge, DependencyGraph, DependencyNode, FileAnalysisResult, RpaComponent, Severity,
    StaticAnalysisResult,
};
use projectlens::models::config::AiConfig;
use projectlens::models::error::AppError;

fn obj(members: Vec<(&str, Json)>) -> Json {
    Json::Object(members.into_iter().map(|(k, v)| (k.to_string(), v)).collect())
}

#[test]
fn bridge_error_categories() {
    for (cat, rec, retry) in [
        ("authentication", false, false),
        ("rate_limit", true, true),
        ("server", true, true),
        ("timeout", true, true),
        ("chat", false, false),
        ("configuration", false, false),
        ("other", true, true),
    ] {
        match map_bridge_error(cat, "m".to_string()) {
            AppError::Ai { message, recoverable, retryable } => {
                assert_eq!(message, "m");
                assert_eq!((recoverable, retryable), (rec, retry), "{cat}");
            }
            _ => panic!(),
        }
    }
}

#[test]
fn rpc_outcome_reads_result_or_error() {
    let ok = obj(vec![("id", Json::Str("1".into())), ("result", obj(vec![("chatUid", Json::Str("c1".into()))]))]);
    let result = rpc_outcome(ok).unwrap();
    assert_eq!(chat_uid_from(&result).unwrap(), "c1");
    let err = obj(vec![("error", obj(vec![("category", Json::Str("authentication".into()))]))]);
    match rpc_outcome(err) {
        Err(AppError::Ai { message, recoverable, .. }) => {
            assert_eq!(message, "不明なサイドカーエラー");
            assert!(!recoverable);
        }
        _ => panic!(),
    }
    assert!(matches!(rpc_outcome(obj(vec![])).unwrap(), Json::Null));
    assert!(chat_uid_from(&Json::Null).is_err());
}

#[test]
fn reply_fields() {
    assert!(authenticated_from(&obj(vec![("authenticated", Json::Bool(true))])));
    assert!(!authenticated_from(&obj(vec![("authenticated", Json::Str("yes".into()))])));
    assert_eq!(test_message_from(&Json::Null), "OK");
    match analyze_params("c", "p") {
        Json::Object(fs) => {
            assert!(fs.iter().any(|(k, v)| k == "webSearch" && matches!(v, Json::Bool(false))));
            assert!(fs.iter().any(|(k, v)| k == "knowledgeSearch" && matches!(v, Json::Bool(false))));
        }
        _ => panic!(),
    }
    match timeout_error(90, "ai.analyze") {
        AppError::Ai { message, retryable, .. } => {
            assert_eq!(message, "NewtonXサイドカーからの応答がタイムアウトしました（90秒、method=ai.analyze）");
            assert!(retryable);
        }
        _ => panic!(),
    }
}

#[test]
fn retry_policy_and_backoff() {
    let p = RetryPolicy::from(&AiConfig::default());
    assert_eq!((p.max_retries, p.base_wait_secs, p.max_wait_secs), (3, 60, 300));
    assert_eq!(p.backoff_secs(1), 60);
    assert_eq!(p.backoff_secs(2), 120);
    assert_eq!(p.backoff_secs(3), 240);
    assert_eq!(p.backoff_secs(4), 300);
    let zero = RetryPolicy { max_retries: 1, base_wait_secs: 0, max_wait_secs: 0 };
    assert_eq!(zero.backoff_secs(1), 1);
    let huge = RetryPolicy { max_retries: 1, base_wait_secs: u64::MAX, max_wait_secs: u64::MAX };
    assert_eq!(huge.backoff_secs(40), u64::MAX);
    let retryable = AppError::Ai { message: "x".into(), recoverable: true, retryable: true };
    assert_eq!(p.next_step(0, &retryable), RetryStep::Retry { attempt: 1 });
    assert_eq!(p.next_step(3, &retryable), RetryStep::GiveUp);
    assert_eq!(p.next_step(0, &AppError::Cache { message: "x".into(), recoverable: true }), RetryStep::GiveUp);
    let unrecoverable = AppError::Ai { message: "x".into(), recoverable: false, retryable: true };
    assert_eq!(p.next_step(0, &unrecoverable), RetryStep::GiveUp);
}

#[test]
fn send_again_decisions() {
    assert!(matches!(after_invalid_response(3, 1, AppError::Cache { message: "e".into(), recoverable: true }), ValidationStep::SendAgain));
    assert!(matches!(after_invalid_response(3, 3, AppError::Cache { message: "e".into(), recoverable: true }), ValidationStep::Fail(_)));
    assert!(matches!(after_invalid_response(3, 4, AppError::Cache { message: "e".into(), recoverable: true }), ValidationStep::Fail(_)));
    assert!(matches!(after_reply(3, 1, Some("t".into())), ReplyStep::Answer(t) if t == "t"));
    assert!(matches!(after_reply(3, 4, None), ReplyStep::Reopen { send_again: false }));
    assert!(matches!(after_reply(3, 2, None), ReplyStep::Reopen { send_again: true }));
}

#[test]
fn token_estimate_and_titles() {
    assert_eq!(estimate_tokens(""), 1);
    assert_eq!(estimate_tokens("abcdefgh"), 2);
    assert_eq!(estimate_tokens("あいうえおかきく"), 2);
    assert_eq!(session_title("2024-01-02 03:04"), "解析 2024-01-02 03:04");
}

#[test]
fn fallbacks() {
    let sr = StaticAnalysisResult {
        file_path: "a.rs".into(),
        language: "rust".into(),
        metrics: CodeMetrics { loc: 1, cyclomatic_complexity: 1, max_nest_depth: 0 },
        imports: vec![],
        exports: vec![],
        functions: vec![],
        classes: vec![],
    };
    let r = fallback_file_result(&sr);
    assert_eq!(r.file_path, "a.rs");
    assert_eq!(r.importance_score, 5);
    assert_eq!(r.potential_issues[0].severity, Severity::Medium);
    assert!(!r.cache_hit);
    let c = RpaComponent {
        component_path: "f.xaml".into(),
        tool: "uipath".into(),
        flow_name: "F".into(),
        flow_kind: "workflow".into(),
        triggers: vec![],
        steps: vec![],
        branch_or_loop_count: 0,
        external_connections: vec![],
        dependencies: vec![],
    };
    let r = fallback_rpa_result(&c);
    assert_eq!(r.role_summary, "AI解析に失敗したため、構造解析結果のみで生成しています（フロー名: F）。");
    assert_eq!(r.potential_issues[0].suggestion, "再解析を試してください。");

    let failed = || AppError::Ai { message: "x".into(), recoverable: true, retryable: false };
    let answer = FileAnalysisResult { cache_hit: true, role_summary: "役割".into(), ..fallback_file_result(&sr) };
    let settled = settle_file_result(Ok(answer.clone()), &sr);
    assert!(!settled.cache_hit);
    assert_eq!(settled.role_summary, "役割");
    assert_eq!(settle_file_result(Err(failed()), &sr).role_summary, fallback_file_result(&sr).role_summary);
    assert_eq!(settle_rpa_result(Err(failed()), &c).file_path, "f.xaml");
    assert!(!settle_rpa_result(Ok(answer.clone()), &c).cache_hit);
    let hit = cached_result(FileAnalysisResult { cache_hit: false, ..answer });
    assert!(hit.cache_hit);
    assert_eq!(hit.role_summary, "役割");
}

#[test]
fn dependency_texts() {
    let mut g = DependencyGraph { nodes: vec![], edges: vec![], cycles: vec![] };
    assert_eq!(dependency_summary(&g), "ノード数=0, エッジ数=0");
    assert_eq!(cycles_summary(&g), "なし");
    g.nodes.push(DependencyNode { id: "a".into(), fan_in: 0, fan_out: 1 });
    g.edges.push(DependencyEdge { from: "a".into(), to: "a".into() });
    g.cycles.push(vec!["a".into()]);
    assert_eq!(dependency_summary(&g), "ノード数=1, エッジ数=1");
    assert_eq!(cycles_summary(&g), "1件");
}

#[test]
fn connection_test_answers_with_message_or_error_text() {
    let ok = test_connection_response(Ok("接続OK".to_string()));
    assert!(ok.ok);
    assert_eq!(ok.message, "接続OK");
    let failed = test_connection_response(Err(projectlens::models::error::AppError::Ai {
        message: "認証に失敗しました".to_string(),
        recoverable: false,
        retryable: false,
    }));
    assert!(!failed.ok);
    assert_eq!(failed.message, "ai error: 認証に失敗しました");
}
