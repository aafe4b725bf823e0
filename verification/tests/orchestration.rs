use projectlens::digest::{cache_key, sha256_hex};
use projectlens::domain::orchestrator::{
    file_hash_for,
    analysis_summary, check_cancelled, elapsed_ms, failure_status, file_summaries_text, language_stats_summary, project_hash,
};
use projectlens::domain::scanner::{is_excluded, keep_file, scanned_file, EntryStep, FileCheck, Scanner};
use projectlens::infra::cache_repo::{database_size_bytes, is_expired, within_size_limit};
use projectlens::infra::config_store::ConfigStore;
use projectlens::models::analysis::{CodeMetrics, FileAnalysisResult, ScannedFile, StaticAnalysisResult};
use projectlens::models::config::{AppConfig, ScanConfig};
use projectlens::models::error::AppError;

fn sr(lang: &str) -> StaticAnalysisResult {
    StaticAnalysisResult {
        file_path: "f".into(),
        language: lang.into(),
        metrics: CodeMetrics { loc: 1, cyclomatic_complexity: 1, max_nest_depth: 0 },
        imports: vec![],
        exports: vec![],
        functions: vec![],
        classes: vec![],
    }
}

fn fr(path: &str, score: u8, hit: bool) -> FileAnalysisResult {
    FileAnalysisResult {
        file_path: path.into(),
        role_summary: format!("r{path}"),
        public_apis: vec![],
        design_patterns: vec![],
        importance_score: score,
        potential_issues: vec![],
        cache_hit: hit,
    }
}

#[test]
fn sha256_of_known_input() {
    assert_eq!(sha256_hex(b"abc"), "ba7816bf8f01cfea414140de5dae2223b00361a396177a9cb410ff61f20015ad");
    assert_eq!(cache_key("h", "m", "1"), sha256_hex(b"h:m:1"));
}

#[test]
fn cancellation_is_a_scan_error() {
    assert!(check_cancelled(false).is_ok());
    match check_cancelled(true) {
        Err(AppError::Scan { message, recoverable }) => {
            assert_eq!(message, "解析はキャンセルされました");
            assert!(recoverable);
        }
        _ => panic!(),
    }
}

#[test]
fn language_stats_in_first_appearance_order() {
    let rs = vec![sr("rust"), sr("python"), sr("rust")];
    assert_eq!(language_stats_summary(&rs), "rust:2, python:1");
    assert_eq!(language_stats_summary(&[]), "");
}

#[test]
fn summaries_by_decreasing_importance_stable() {
    let rs = vec![fr("a", 3, false), fr("b", 9, true), fr("c", 3, true)];
    assert_eq!(file_summaries_text(&rs), "- b (重要度9): rb\n- a (重要度3): ra\n- c (重要度3): rc");
    let s = analysis_summary(10, &rs);
    assert_eq!((s.total_files, s.analyzed_files, s.cache_hits), (10, 3, 2));
    assert_eq!(s.status, "completed");
}

#[test]
fn history_helpers() {
    assert_eq!(failure_status(true), "cancelled");
    assert_eq!(failure_status(false), "error");
    assert_eq!(elapsed_ms(100, 350), 250);
    assert_eq!(elapsed_ms(350, 100), 0);
}

fn sf(path: &str, hash: &str) -> ScannedFile {
    ScannedFile { path: path.into(), hash: hash.into(), size_bytes: 1, rpa_tool: None, macro_tool: None }
}

#[test]
fn project_hash_sorts_by_path() {
    let a = vec![sf("b.rs", "2"), sf("a.rs", "1")];
    let b = vec![sf("a.rs", "1"), sf("b.rs", "2")];
    assert_eq!(project_hash("/p", &a), project_hash("/p", &b));
    assert_eq!(project_hash("/p", &b), sha256_hex(b"/pa.rs1b.rs2"));
    assert_ne!(project_hash("/q", &b), project_hash("/p", &b));
}

#[test]
fn exclusion_by_component() {
    let pats = vec!["node_modules".to_string(), ".git".to_string()];
    assert!(is_excluded("web/node_modules/x.js", &pats));
    assert!(is_excluded(".git/config", &pats));
    assert!(!is_excluded("src/node_modules_x/y.js", &pats));
}

#[test]
fn scanner_steps() {
    let cfg = ScanConfig::default();
    let scanner = Scanner::new(&cfg);
    assert_eq!(scanner.entry_step(0, "src/a.rs", false), EntryStep::Skip);
    assert_eq!(scanner.entry_step(0, "target/a.rs", true), EntryStep::Skip);
    assert_eq!(scanner.entry_step(5000, "src/a.rs", true), EntryStep::Stop);
    assert_eq!(scanner.entry_step(1, "src/a.rs", true), EntryStep::Inspect);
    let exts = scanner.normal_extensions();
    assert_eq!(scanner.check_file(&exts, "src/A.RS", 100), Some(FileCheck { is_normal: true, try_rpa: false }));
    assert_eq!(scanner.check_file(&exts, "src/a.rs", 1024 * 1024 + 1), None);
    assert_eq!(scanner.check_file(&exts, "flows/x.xaml", 2 * 1024 * 1024), Some(FileCheck { is_normal: false, try_rpa: true }));
    let check = FileCheck { is_normal: false, try_rpa: true };
    assert!(scanner.try_macro(check, false));
    assert!(!scanner.try_macro(check, true));
    assert!(!keep_file(check, &None, &None));
    assert!(keep_file(check, &Some("pad".into()), &None));
    let f = scanned_file("a\\b.rs", b"abc", 3, None, None);
    assert_eq!(f.path, "a/b.rs");
    assert_eq!(f.hash, sha256_hex(b"abc"));
}

#[test]
fn cache_expiry_and_size() {
    let now = (1_700_000_000i64, 0u32);
    assert!(is_expired("2000-01-01T00:00:00+00:00", now));
    assert!(!is_expired("2100-01-01T00:00:00+09:00", now));
    assert!(is_expired("not a date", now));
    assert_eq!(database_size_bytes(10, 4096), 40960);
    assert_eq!(database_size_bytes(-1, 4096), 0);
    assert!(within_size_limit(500 * 1048576, 500));
    assert!(!within_size_limit(500 * 1048576 + 1, 500));
}

#[test]
fn config_defaults_and_store_path() {
    let c = AppConfig::default();
    assert_eq!(c.ai.concurrency, 5);
    assert_eq!(c.scan.max_file_count, 5000);
    assert_eq!(c.export.default_doc_types, vec!["systemSpec", "basicDesign", "detailDesign"]);
    assert_eq!(c.cache.ttl_days, 30);
    let store = ConfigStore::new("/home/u/.config/projectlens");
    assert_eq!(store.file_path, "/home/u/.config/projectlens/config.json");
    assert_eq!(store.reset().ai.max_retries, 3);
}

#[test]
fn file_hash_is_looked_up_by_path() {
    let files = vec![
        ScannedFile { path: "a.rs".into(), hash: "h1".into(), size_bytes: 1, rpa_tool: None, macro_tool: None },
        ScannedFile { path: "b.rs".into(), hash: "h2".into(), size_bytes: 1, rpa_tool: None, macro_tool: None },
    ];
    assert_eq!(file_hash_for(&files, "b.rs"), "h2");
    assert_eq!(file_hash_for(&files, "c.rs"), "");
}
