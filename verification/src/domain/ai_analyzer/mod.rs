//! AI analysis: prompts, response validation, and the decisions around the requests
//! (what to send, when to send again, what to keep when the AI fails). The requests
//! themselves, the cache and the session are the application's.
pub mod prompts;
pub mod validator;

use crate::domain::ai_analyzer::prompts::{
    file_analysis_prompt, file_prompt_text, project_analysis_prompt, project_prompt_text,
    FileAnalysisInput, ProjectAnalysisInput,
};
use crate::domain::doc_generator::markdown::{class_names, function_names};
use crate::models::analysis::{
    DependencyGraph, FileAnalysisResult, Issue, PublicApi, RpaComponent, Severity, StaticAnalysisResult,
};
use crate::models::error::{AppError, AppResult};
use crate::text::{chars_of, decimal, push_str, strs, usize_to_decimal};
use vstd::prelude::*;
use vstd::string::StringExecFns;

verus! {

/// Rough token count of a text: one token per four characters, at least one.
pub open spec fn token_estimate(text: Seq<char>) -> u32 {
    let q = text.len() / 4;
    (if q < 1 { 1 } else { q }) as u32
}

pub fn estimate_tokens(text: &str) -> (n: u32)
    ensures
        n == token_estimate(text@),
{
    let q = chars_of(text).len() / 4;
    let m = if q < 1 { 1 } else { q };
    m as u32
}

pub open spec fn fallback_issue_ok(issue: Issue, suggestion: Seq<char>) -> bool {
    &&& issue.severity == Severity::Medium
    &&& issue.description@ == "AI解析が失敗またはタイムアウトしました。"@
    &&& issue.suggestion@ == suggestion
}

/// The result kept for a file when the AI analysis finally fails: the static analysis
/// alone, with one issue that says so.
pub open spec fn fallback_ok(r: FileAnalysisResult, file_path: Seq<char>, role_summary: Seq<char>, suggestion: Seq<char>) -> bool {
    &&& r.file_path@ == file_path
    &&& r.role_summary@ == role_summary
    &&& r.public_apis@.len() == 0
    &&& r.design_patterns@.len() == 0
    &&& r.importance_score == 5
    &&& r.potential_issues@.len() == 1
    &&& fallback_issue_ok(r.potential_issues@[0], suggestion)
    &&& !r.cache_hit
}

fn fallback(file_path: &str, role_summary: String, suggestion: &str) -> (r: FileAnalysisResult)
    ensures
        fallback_ok(r, file_path@, role_summary@, suggestion@),
{
    let issue = Issue {
        severity: Severity::Medium,
        description: String::from_str("AI解析が失敗またはタイムアウトしました。"),
        suggestion: String::from_str(suggestion),
    };
    FileAnalysisResult {
        file_path: String::from_str(file_path),
        role_summary,
        public_apis: Vec::new(),
        design_patterns: Vec::new(),
        importance_score: 5,
        potential_issues: vec![issue],
        cache_hit: false,
    }
}

pub fn fallback_file_result(static_result: &StaticAnalysisResult) -> (r: FileAnalysisResult)
    ensures
        fallback_ok(r, static_result.file_path@, "AI解析に失敗したため、静的解析結果のみで生成しています。"@,
            "再解析を試すか、ファイルサイズ・トークン上限設定を見直してください。"@),
{
    fallback(
        static_result.file_path.as_str(),
        String::from_str("AI解析に失敗したため、静的解析結果のみで生成しています。"),
        "再解析を試すか、ファイルサイズ・トークン上限設定を見直してください。",
    )
}

pub fn fallback_rpa_result(component: &RpaComponent) -> (r: FileAnalysisResult)
    ensures
        fallback_ok(r, component.component_path@,
            "AI解析に失敗したため、構造解析結果のみで生成しています（フロー名: "@ + component.flow_name@ + "）。"@,
            "再解析を試してください。"@),
{
    let mut summary = String::from_str("AI解析に失敗したため、構造解析結果のみで生成しています（フロー名: ");
    push_str(&mut summary, component.flow_name.as_str());
    push_str(&mut summary, "）。");
    fallback(component.component_path.as_str(), summary, "再解析を試してください。")
}

/// The result as it came from the cache: the stored result, marked as a cache hit.
pub fn cached_result(stored: FileAnalysisResult) -> (r: FileAnalysisResult)
    ensures
        r == (FileAnalysisResult { cache_hit: true, ..stored }),
{
    FileAnalysisResult { cache_hit: true, ..stored }
}

/// The result of analysing a file with the AI: the validated response, not from the
/// cache; when the analysis failed, the result of the static analysis alone.
pub fn settle_file_result(outcome: AppResult<FileAnalysisResult>, static_result: &StaticAnalysisResult) -> (r: FileAnalysisResult)
    ensures
        match outcome {
            Ok(x) => r == (FileAnalysisResult { cache_hit: false, ..x }),
            Err(_) => fallback_ok(r, static_result.file_path@, "AI解析に失敗したため、静的解析結果のみで生成しています。"@,
                "再解析を試すか、ファイルサイズ・トークン上限設定を見直してください。"@),
        },
{
    match outcome {
        Ok(x) => FileAnalysisResult { cache_hit: false, ..x },
        Err(_) => fallback_file_result(static_result),
    }
}

/// The result of analysing an RPA component with the AI: the validated response, not from
/// the cache; when the analysis failed, the result of the structure analysis alone.
pub fn settle_rpa_result(outcome: AppResult<FileAnalysisResult>, component: &RpaComponent) -> (r: FileAnalysisResult)
    ensures
        match outcome {
            Ok(x) => r == (FileAnalysisResult { cache_hit: false, ..x }),
            Err(_) => fallback_ok(r, component.component_path@,
                "AI解析に失敗したため、構造解析結果のみで生成しています（フロー名: "@ + component.flow_name@ + "）。"@,
                "再解析を試してください。"@),
        },
{
    match outcome {
        Ok(x) => FileAnalysisResult { cache_hit: false, ..x },
        Err(_) => fallback_rpa_result(component),
    }
}

/// The file analysis prompt of a file: its path, language, line count, complexity and the
/// names of its functions and classes from the static analysis, then its content.
pub fn file_prompt(static_result: &StaticAnalysisResult, file_content: &str) -> (p: String)
    ensures
        p@ == file_prompt_text(static_result.file_path@, static_result.language@, static_result.metrics.loc as nat,
            static_result.metrics.cyclomatic_complexity as nat,
            function_names(*static_result), class_names(*static_result), file_content@),
{
    let mut functions: Vec<String> = Vec::new();
    let mut i: usize = 0;
    while i < static_result.functions.len()
        invariant
            i <= static_result.functions.len(),
            strs(functions@) == function_names(*static_result).take(i as int),
        decreases static_result.functions.len() - i,
    {
        let ghost prev = functions@;
        functions.push(static_result.functions[i].name.clone());
        assert(functions@ =~= prev.push(static_result.functions@[i as int].name));
        assert(strs(functions@) =~= strs(prev).push(static_result.functions@[i as int].name@));
        assert(function_names(*static_result).take(i + 1) =~= function_names(*static_result).take(i as int).push(static_result.functions@[i as int].name@));
        i = i + 1;
    }
    assert(function_names(*static_result).take(static_result.functions.len() as int) =~= function_names(*static_result));
    let mut classes: Vec<String> = Vec::new();
    let mut j: usize = 0;
    while j < static_result.classes.len()
        invariant
            j <= static_result.classes.len(),
            strs(classes@) == class_names(*static_result).take(j as int),
        decreases static_result.classes.len() - j,
    {
        let ghost prev = classes@;
        classes.push(static_result.classes[j].name.clone());
        assert(classes@ =~= prev.push(static_result.classes@[j as int].name));
        assert(strs(classes@) =~= strs(prev).push(static_result.classes@[j as int].name@));
        assert(class_names(*static_result).take(j + 1) =~= class_names(*static_result).take(j as int).push(static_result.classes@[j as int].name@));
        j = j + 1;
    }
    assert(class_names(*static_result).take(static_result.classes.len() as int) =~= class_names(*static_result));
    let input = FileAnalysisInput {
        file_path: static_result.file_path.as_str(),
        language: static_result.language.as_str(),
        loc: static_result.metrics.loc,
        complexity: static_result.metrics.cyclomatic_complexity,
        functions: functions.as_slice(),
        classes: classes.as_slice(),
        file_content,
    };
    file_analysis_prompt(&input)
}

/// "ノード数=N, エッジ数=M" of a dependency graph.
pub open spec fn dependency_summary_text(g: DependencyGraph) -> Seq<char> {
    "ノード数="@ + decimal(g.nodes@.len()) + ", エッジ数="@ + decimal(g.edges@.len())
}

/// "なし" without cycles, else "N件".
pub open spec fn cycles_text(g: DependencyGraph) -> Seq<char> {
    if g.cycles@.len() == 0 { "なし"@ } else { decimal(g.cycles@.len()) + "件"@ }
}

pub fn dependency_summary(g: &DependencyGraph) -> (s: String)
    ensures
        s@ == dependency_summary_text(*g),
{
    let mut s = String::from_str("ノード数=");
    push_str(&mut s, usize_to_decimal(g.nodes.len()).as_str());
    push_str(&mut s, ", エッジ数=");
    push_str(&mut s, usize_to_decimal(g.edges.len()).as_str());
    s
}

pub fn cycles_summary(g: &DependencyGraph) -> (s: String)
    ensures
        s@ == cycles_text(*g),
{
    if g.cycles.len() == 0 {
        String::from_str("なし")
    } else {
        let mut s = usize_to_decimal(g.cycles.len());
        push_str(&mut s, "件");
        s
    }
}

/// The project analysis prompt: the project root, the file count, the language
/// statistics, the size of the dependency graph and its cycles, the file summaries.
pub fn project_prompt(
    project_root: &str,
    file_count: usize,
    language_stats: &str,
    dependency_graph: &DependencyGraph,
    file_summaries: &str,
) -> (p: String)
    ensures
        p@ == project_prompt_text(project_root@, file_count as nat, language_stats@,
            dependency_summary_text(*dependency_graph), cycles_text(*dependency_graph), file_summaries@),
{
    let summary = dependency_summary(dependency_graph);
    let cycles = cycles_summary(dependency_graph);
    let input = ProjectAnalysisInput {
        project_root,
        file_count,
        language_stats,
        dependency_summary: summary.as_str(),
        cycles: cycles.as_str(),
        file_summaries,
    };
    project_analysis_prompt(&input)
}

/// The title of an analysis chat, from the local time as "YYYY-MM-DD HH:MM".
pub fn session_title(local_time: &str) -> (t: String)
    ensures
        t@ == "解析 "@ + local_time@,
{
    let mut t = String::from_str("解析 ");
    push_str(&mut t, local_time);
    t
}

// ---------------------------------------------------------------------
// Sending again
// ---------------------------------------------------------------------

/// After a response that did not validate, in round `round` (counted from 1): send again
/// while rounds are left (there are at most `max_retries`), else fail with that error.
pub enum ValidationStep {
    SendAgain,
    Fail(AppError),
}

pub fn after_invalid_response(max_retries: u32, round: u64, error: AppError) -> (step: ValidationStep)
    ensures
        round < max_retries ==> step is SendAgain,
        round >= max_retries ==> step == ValidationStep::Fail(error),
{
    if round < max_retries as u64 {
        ValidationStep::SendAgain
    } else {
        ValidationStep::Fail(error)
    }
}

/// What to do with a reply to a request of round `round` (counted from 1): a text is the
/// answer; no text means the chat is opened anew, then the request is sent again while
/// rounds are left (there are `max_retries + 1`), or the analysis of the file gives up.
pub enum ReplyStep {
    Answer(String),
    Reopen { send_again: bool },
}

pub fn after_reply(max_retries: u32, round: u64, reply: Option<String>) -> (step: ReplyStep)
    ensures
        match reply {
            Some(t) => step == ReplyStep::Answer(t),
            None => step == ReplyStep::Reopen { send_again: round <= max_retries },
        },
{
    match reply {
        Some(t) => ReplyStep::Answer(t),
        None => ReplyStep::Reopen { send_again: round <= max_retries as u64 },
    }
}

/// The error when no reply came in any round.
pub fn no_reply_error() -> (e: AppError)
    ensures
        e matches AppError::Ai { message, recoverable, retryable }
            && message@ == "AIからの応答が繰り返し得られませんでした"@ && recoverable && !retryable,
{
    AppError::Ai {
        message: String::from_str("AIからの応答が繰り返し得られませんでした"),
        recoverable: true,
        retryable: false,
    }
}

} // verus!
