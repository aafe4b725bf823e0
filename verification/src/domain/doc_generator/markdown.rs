//! Markdown intermediate representation of the documents. HTML and JSON output start
//! from the same analysis results; only the renderer differs.
use crate::models::analysis::{
    BasicDesign, FeatureSummary, FileAnalysisResult, Issue, MermaidDiagram, ModuleSummary, PublicApi,
    RpaComponent, Severity, StaticAnalysisResult, SystemSpec, TechnicalDebt,
};
use crate::text::{decimal, join, join_strings, push_str, strs, u32_to_decimal, u64_to_decimal};
use vstd::prelude::*;

verus! {

/// Concatenation of a list of texts.
pub open spec fn concat_all(parts: Seq<Seq<char>>) -> Seq<char>
    decreases parts.len(),
{
    if parts.len() == 0 {
        Seq::empty()
    } else {
        concat_all(parts.drop_last()) + parts.last()
    }
}

pub proof fn lemma_concat_push(parts: Seq<Seq<char>>, p: Seq<char>)
    ensures
        concat_all(parts.push(p)) == concat_all(parts) + p,
{
    assert(parts.push(p).drop_last() =~= parts);
}

/// Japanese label of a severity.
pub open spec fn severity_label(s: Severity) -> Seq<char> {
    match s {
        Severity::High => "高"@,
        Severity::Medium => "中"@,
        Severity::Low => "低"@,
    }
}

/// The severities are shown by their Japanese names: 高 (high), 中 (medium), 低 (low), so
/// different severities always read differently.
pub proof fn lemma_severity_labels(a: Severity, b: Severity)
    ensures
        severity_label(Severity::High) == "高"@,
        severity_label(Severity::Medium) == "中"@,
        severity_label(Severity::Low) == "低"@,
        severity_label(a) == severity_label(b) ==> a == b,
{
    reveal_strlit("高");
    reveal_strlit("中");
    reveal_strlit("低");
    if severity_label(a) == severity_label(b) && a != b {
        assert(severity_label(a)[0] != severity_label(b)[0]);
    }
}

pub fn severity_ja(s: &Severity) -> (res: &'static str)
    ensures
        res@ == severity_label(*s),
{
    match s {
        Severity::High => "高",
        Severity::Medium => "中",
        Severity::Low => "低",
    }
}

// ---------------------------------------------------------------------
// System specification
// ---------------------------------------------------------------------

pub open spec fn feature_md(f: FeatureSummary) -> Seq<char> {
    "### "@ + f.name@ + "\n\n"@ + f.description@ + "\n\n"@
}

pub open spec fn system_spec_md(spec: SystemSpec) -> Seq<char> {
    "# システム仕様書\n\n"@ + "## 目的\n\n"@ + spec.purpose@ + "\n\n## 主要機能\n\n"@
        + concat_all(spec.main_features@.map_values(|f: FeatureSummary| feature_md(f)))
        + "## 主要な利用シーン・業務の流れ\n\n"@ + spec.user_flows@ + "\n"@
}

/// The system specification document.
pub fn system_spec(spec: &SystemSpec) -> (res: String)
    ensures
        res@ == system_spec_md(*spec),
{
    let mut out = String::new();
    push_str(&mut out, "# システム仕様書\n\n");
    push_str(&mut out, "## 目的\n\n");
    push_str(&mut out, spec.purpose.as_str());
    push_str(&mut out, "\n\n## 主要機能\n\n");
    let ghost base = out@;
    let ghost items = spec.main_features@.map_values(|f: FeatureSummary| feature_md(f));
    let mut i: usize = 0;
    while i < spec.main_features.len()
        invariant
            i <= spec.main_features.len(),
            items == spec.main_features@.map_values(|f: FeatureSummary| feature_md(f)),
            out@ == base + concat_all(items.take(i as int)),
        decreases spec.main_features.len() - i,
    {
        let f = &spec.main_features[i];
        push_str(&mut out, "### ");
        push_str(&mut out, f.name.as_str());
        push_str(&mut out, "\n\n");
        push_str(&mut out, f.description.as_str());
        push_str(&mut out, "\n\n");
        proof {
            assert(items.take(i + 1) =~= items.take(i as int).push(items[i as int]));
            lemma_concat_push(items.take(i as int), items[i as int]);
        }
        i = i + 1;
    }
    assert(items.take(spec.main_features.len() as int) =~= items);
    push_str(&mut out, "## 主要な利用シーン・業務の流れ\n\n");
    push_str(&mut out, spec.user_flows.as_str());
    push_str(&mut out, "\n");
    assert(out@ =~= system_spec_md(*spec));
    out
}

// ---------------------------------------------------------------------
// Basic design
// ---------------------------------------------------------------------

pub open spec fn module_md(m: ModuleSummary) -> Seq<char> {
    "### "@ + m.name@ + "\n\n"@ + m.responsibility@ + "\n\n主要ファイル: "@ + join(strs(m.key_files@), ", "@) + "\n\n"@
}

pub open spec fn tech_md(t: String) -> Seq<char> {
    "- "@ + t@ + "\n"@
}

pub open spec fn debt_md(d: TechnicalDebt) -> Seq<char> {
    "| "@ + severity_label(d.severity) + " | "@ + d.area@ + " | "@ + d.description@ + " | "@ + d.recommendation@ + " |\n"@
}

pub open spec fn diagram_md(d: MermaidDiagram) -> Seq<char> {
    "### "@ + d.title@ + "\n\n```mermaid\n"@ + d.source@ + "\n```\n\n"@
}

pub open spec fn debts_section(debts: Seq<TechnicalDebt>) -> Seq<char> {
    if debts.len() == 0 {
        "検出された技術的負債はありません。\n\n"@
    } else {
        "| 重大度 | 領域 | 内容 | 推奨対応 |\n|---|---|---|---|\n"@
            + concat_all(debts.map_values(|d: TechnicalDebt| debt_md(d))) + "\n"@
    }
}

pub open spec fn diagrams_section(diagrams: Seq<MermaidDiagram>, embed_mermaid: bool) -> Seq<char> {
    if embed_mermaid && diagrams.len() > 0 {
        "## 図\n\n"@ + concat_all(diagrams.map_values(|d: MermaidDiagram| diagram_md(d)))
    } else {
        Seq::empty()
    }
}

pub open spec fn basic_design_md(design: BasicDesign, embed_mermaid: bool) -> Seq<char> {
    "# システム基本設計書\n\n"@ + "## アーキテクチャパターン\n\n"@ + design.architecture_pattern@
        + "\n\n## モジュール構成\n\n"@
        + concat_all(design.modules@.map_values(|m: ModuleSummary| module_md(m)))
        + "## 技術スタック\n\n"@
        + concat_all(design.tech_stack@.map_values(|t: String| tech_md(t)))
        + "\n## データフロー\n\n"@ + design.data_flow@ + "\n\n## 技術的負債\n\n"@
        + debts_section(design.technical_debts@)
        + diagrams_section(design.mermaid_diagrams@, embed_mermaid)
}

/// The basic design document; the Mermaid diagrams are embedded when asked for.
pub fn basic_design(design: &BasicDesign, embed_mermaid: bool) -> (res: String)
    ensures
        res@ == basic_design_md(*design, embed_mermaid),
{
    let mut out = String::new();
    push_str(&mut out, "# システム基本設計書\n\n");
    push_str(&mut out, "## アーキテクチャパターン\n\n");
    push_str(&mut out, design.architecture_pattern.as_str());
    push_str(&mut out, "\n\n## モジュール構成\n\n");
    let ghost base0 = out@;
    let ghost mods = design.modules@.map_values(|m: ModuleSummary| module_md(m));
    let mut i: usize = 0;
    while i < design.modules.len()
        invariant
            i <= design.modules.len(),
            mods == design.modules@.map_values(|m: ModuleSummary| module_md(m)),
            out@ == base0 + concat_all(mods.take(i as int)),
        decreases design.modules.len() - i,
    {
        let m = &design.modules[i];
        push_str(&mut out, "### ");
        push_str(&mut out, m.name.as_str());
        push_str(&mut out, "\n\n");
        push_str(&mut out, m.responsibility.as_str());
        push_str(&mut out, "\n\n主要ファイル: ");
        let files = join_strings(m.key_files.as_slice(), ", ");
        push_str(&mut out, files.as_str());
        push_str(&mut out, "\n\n");
        proof {
            lemma_take_step(mods, i as int);
            lemma_concat_push(mods.take(i as int), mods[i as int]);
        }
        i = i + 1;
    }
    assert(mods.take(design.modules.len() as int) =~= mods);
    push_str(&mut out, "## 技術スタック\n\n");
    let ghost base1 = out@;
    let ghost techs = design.tech_stack@.map_values(|t: String| tech_md(t));
    let mut i: usize = 0;
    while i < design.tech_stack.len()
        invariant
            i <= design.tech_stack.len(),
            techs == design.tech_stack@.map_values(|t: String| tech_md(t)),
            out@ == base1 + concat_all(techs.take(i as int)),
        decreases design.tech_stack.len() - i,
    {
        push_str(&mut out, "- ");
        push_str(&mut out, design.tech_stack[i].as_str());
        push_str(&mut out, "\n");
        proof {
            lemma_take_step(techs, i as int);
            lemma_concat_push(techs.take(i as int), techs[i as int]);
        }
        i = i + 1;
    }
    assert(techs.take(design.tech_stack.len() as int) =~= techs);
    push_str(&mut out, "\n## データフロー\n\n");
    push_str(&mut out, design.data_flow.as_str());
    push_str(&mut out, "\n\n## 技術的負債\n\n");
    let ghost base2 = out@;
    if design.technical_debts.len() == 0 {
        push_str(&mut out, "検出された技術的負債はありません。\n\n");
    } else {
        push_str(&mut out, "| 重大度 | 領域 | 内容 | 推奨対応 |\n|---|---|---|---|\n");
        let ghost base3 = out@;
        let ghost debts = design.technical_debts@.map_values(|d: TechnicalDebt| debt_md(d));
        let mut i: usize = 0;
        while i < design.technical_debts.len()
            invariant
                i <= design.technical_debts.len(),
                debts == design.technical_debts@.map_values(|d: TechnicalDebt| debt_md(d)),
                out@ == base3 + concat_all(debts.take(i as int)),
            decreases design.technical_debts.len() - i,
        {
            let d = &design.technical_debts[i];
            push_str(&mut out, "| ");
            push_str(&mut out, severity_ja(&d.severity));
            push_str(&mut out, " | ");
            push_str(&mut out, d.area.as_str());
            push_str(&mut out, " | ");
            push_str(&mut out, d.description.as_str());
            push_str(&mut out, " | ");
            push_str(&mut out, d.recommendation.as_str());
            push_str(&mut out, " |\n");
            proof {
                lemma_take_step(debts, i as int);
                lemma_concat_push(debts.take(i as int), debts[i as int]);
            }
            i = i + 1;
        }
        assert(debts.take(design.technical_debts.len() as int) =~= debts);
        push_str(&mut out, "\n");
    }
    assert(out@ =~= base2 + debts_section(design.technical_debts@));
    let ghost base4 = out@;
    if embed_mermaid && design.mermaid_diagrams.len() > 0 {
        push_str(&mut out, "## 図\n\n");
        let ghost base5 = out@;
        let ghost diagrams = design.mermaid_diagrams@.map_values(|d: MermaidDiagram| diagram_md(d));
        let mut i: usize = 0;
        while i < design.mermaid_diagrams.len()
            invariant
                i <= design.mermaid_diagrams.len(),
                diagrams == design.mermaid_diagrams@.map_values(|d: MermaidDiagram| diagram_md(d)),
                out@ == base5 + concat_all(diagrams.take(i as int)),
            decreases design.mermaid_diagrams.len() - i,
        {
            let d = &design.mermaid_diagrams[i];
            push_str(&mut out, "### ");
            push_str(&mut out, d.title.as_str());
            push_str(&mut out, "\n\n```mermaid\n");
            push_str(&mut out, d.source.as_str());
            push_str(&mut out, "\n```\n\n");
            proof {
                lemma_take_step(diagrams, i as int);
                lemma_concat_push(diagrams.take(i as int), diagrams[i as int]);
            }
            i = i + 1;
        }
        assert(diagrams.take(design.mermaid_diagrams.len() as int) =~= diagrams);
    }
    assert(out@ =~= base4 + diagrams_section(design.mermaid_diagrams@, embed_mermaid));
    assert(out@ =~= basic_design_md(*design, embed_mermaid));
    out
}

/// One more item taken extends the prefix by that item.
pub proof fn lemma_take_step(items: Seq<Seq<char>>, i: int)
    requires
        0 <= i < items.len(),
    ensures
        items.take(i + 1) == items.take(i).push(items[i]),
{
    assert(items.take(i + 1) =~= items.take(i).push(items[i]));
}

// ---------------------------------------------------------------------
// Detail design of a source file
// ---------------------------------------------------------------------

pub open spec fn api_row_md(a: PublicApi) -> Seq<char> {
    "| "@ + a.name@ + " | "@ + a.kind@ + " | "@ + a.description@ + " |\n"@
}

pub open spec fn pattern_md(p: String) -> Seq<char> {
    "- "@ + p@ + "\n"@
}

pub open spec fn issue_row_md(i: Issue) -> Seq<char> {
    "| "@ + severity_label(i.severity) + " | "@ + i.description@ + " | "@ + i.suggestion@ + " |\n"@
}

pub open spec fn function_names(sr: StaticAnalysisResult) -> Seq<Seq<char>> {
    sr.functions@.map_values(|f: crate::models::analysis::FunctionInfo| f.name@)
}

pub open spec fn class_names(sr: StaticAnalysisResult) -> Seq<Seq<char>> {
    sr.classes@.map_values(|c: crate::models::analysis::ClassInfo| c.name@)
}

pub open spec fn metrics_section(sr: Option<StaticAnalysisResult>) -> Seq<char> {
    match sr {
        Some(sr) => "## 静的解析メトリクス\n\n"@ + "- 行数: "@ + decimal(sr.metrics.loc as nat)
            + "\n- 循環的複雑度: "@ + decimal(sr.metrics.cyclomatic_complexity as nat)
            + "\n- 最大ネスト深度: "@ + decimal(sr.metrics.max_nest_depth as nat)
            + "\n- 関数: "@ + join(function_names(sr), ", "@)
            + "\n- クラス: "@ + join(class_names(sr), ", "@) + "\n\n"@,
        None => Seq::empty(),
    }
}

pub open spec fn apis_section(apis: Seq<PublicApi>) -> Seq<char> {
    if apis.len() == 0 {
        "なし\n\n"@
    } else {
        "| 名称 | 種別 | 説明 |\n|---|---|---|\n"@ + concat_all(apis.map_values(|a: PublicApi| api_row_md(a))) + "\n"@
    }
}

pub open spec fn patterns_section(patterns: Seq<String>) -> Seq<char> {
    if patterns.len() == 0 {
        "検出なし\n\n"@
    } else {
        concat_all(patterns.map_values(|p: String| pattern_md(p))) + "\n"@
    }
}

pub open spec fn issues_section(issues: Seq<Issue>) -> Seq<char> {
    if issues.len() == 0 {
        "検出なし\n\n"@
    } else {
        "| 重大度 | 内容 | 改善提案 |\n|---|---|---|\n"@ + concat_all(issues.map_values(|i: Issue| issue_row_md(i))) + "\n"@
    }
}

pub open spec fn detail_design_file_md(fr: FileAnalysisResult, sr: Option<StaticAnalysisResult>) -> Seq<char> {
    "# 詳細設計書: "@ + fr.file_path@ + "\n\n"@ + "## 役割要約\n\n"@ + fr.role_summary@ + "\n\n## 公開API\n\n"@
        + apis_section(fr.public_apis@)
        + "## 設計パターン\n\n"@ + patterns_section(fr.design_patterns@)
        + "## 重要度スコア\n\n"@ + decimal(fr.importance_score as nat) + "/10\n\n"@
        + "## 潜在的問題\n\n"@ + issues_section(fr.potential_issues@)
        + metrics_section(sr)
}

fn push_function_names(out: &mut String, sr: &StaticAnalysisResult)
    ensures
        final(out)@ == old(out)@ + join(function_names(*sr), ", "@),
{
    let mut names: Vec<String> = Vec::new();
    let mut i: usize = 0;
    while i < sr.functions.len()
        invariant
            i <= sr.functions.len(),
            strs(names@) == function_names(*sr).take(i as int),
        decreases sr.functions.len() - i,
    {
        let ghost prev = names@;
        names.push(sr.functions[i].name.clone());
        assert(names@ =~= prev.push(sr.functions@[i as int].name));
        assert(strs(names@) =~= strs(prev).push(sr.functions@[i as int].name@));
        assert(function_names(*sr).take(i + 1) =~= function_names(*sr).take(i as int).push(sr.functions@[i as int].name@));
        i = i + 1;
    }
    assert(function_names(*sr).take(sr.functions.len() as int) =~= function_names(*sr));
    let joined = join_strings(names.as_slice(), ", ");
    push_str(out, joined.as_str());
}

fn push_class_names(out: &mut String, sr: &StaticAnalysisResult)
    ensures
        final(out)@ == old(out)@ + join(class_names(*sr), ", "@),
{
    let mut names: Vec<String> = Vec::new();
    let mut i: usize = 0;
    while i < sr.classes.len()
        invariant
            i <= sr.classes.len(),
            strs(names@) == class_names(*sr).take(i as int),
        decreases sr.classes.len() - i,
    {
        let ghost prev = names@;
        names.push(sr.classes[i].name.clone());
        assert(names@ =~= prev.push(sr.classes@[i as int].name));
        assert(strs(names@) =~= strs(prev).push(sr.classes@[i as int].name@));
        assert(class_names(*sr).take(i + 1) =~= class_names(*sr).take(i as int).push(sr.classes@[i as int].name@));
        i = i + 1;
    }
    assert(class_names(*sr).take(sr.classes.len() as int) =~= class_names(*sr));
    let joined = join_strings(names.as_slice(), ", ");
    push_str(out, joined.as_str());
}

fn push_issue_rows(out: &mut String, issues: &Vec<Issue>)
    ensures
        final(out)@ == old(out)@ + concat_all(issues@.map_values(|i: Issue| issue_row_md(i))),
{
    let ghost items = issues@.map_values(|i: Issue| issue_row_md(i));
    let mut i: usize = 0;
    while i < issues.len()
        invariant
            i <= issues.len(),
            items == issues@.map_values(|i: Issue| issue_row_md(i)),
            out@ == old(out)@ + concat_all(items.take(i as int)),
        decreases issues.len() - i,
    {
        let it = &issues[i];
        push_str(out, "| ");
        push_str(out, severity_ja(&it.severity));
        push_str(out, " | ");
        push_str(out, it.description.as_str());
        push_str(out, " | ");
        push_str(out, it.suggestion.as_str());
        push_str(out, " |\n");
        proof {
            lemma_take_step(items, i as int);
            lemma_concat_push(items.take(i as int), items[i as int]);
        }
        i = i + 1;
    }
    assert(items.take(issues.len() as int) =~= items);
}

fn push_pattern_lines(out: &mut String, patterns: &Vec<String>)
    ensures
        final(out)@ == old(out)@ + concat_all(patterns@.map_values(|p: String| pattern_md(p))),
{
    let ghost items = patterns@.map_values(|p: String| pattern_md(p));
    let mut i: usize = 0;
    while i < patterns.len()
        invariant
            i <= patterns.len(),
            items == patterns@.map_values(|p: String| pattern_md(p)),
            out@ == old(out)@ + concat_all(items.take(i as int)),
        decreases patterns.len() - i,
    {
        push_str(out, "- ");
        push_str(out, patterns[i].as_str());
        push_str(out, "\n");
        proof {
            lemma_take_step(items, i as int);
            lemma_concat_push(items.take(i as int), items[i as int]);
        }
        i = i + 1;
    }
    assert(items.take(patterns.len() as int) =~= items);
}

fn push_apis_section(out: &mut String, apis: &Vec<PublicApi>)
    ensures
        final(out)@ == old(out)@ + apis_section(apis@),
{
    if apis.len() == 0 {
        push_str(out, "なし\n\n");
    } else {
        push_str(out, "| 名称 | 種別 | 説明 |\n|---|---|---|\n");
        let ghost base = out@;
        let ghost items = apis@.map_values(|a: PublicApi| api_row_md(a));
        let mut i: usize = 0;
        while i < apis.len()
            invariant
                i <= apis.len(),
                items == apis@.map_values(|a: PublicApi| api_row_md(a)),
                out@ == base + concat_all(items.take(i as int)),
            decreases apis.len() - i,
        {
            let a = &apis[i];
            push_str(out, "| ");
            push_str(out, a.name.as_str());
            push_str(out, " | ");
            push_str(out, a.kind.as_str());
            push_str(out, " | ");
            push_str(out, a.description.as_str());
            push_str(out, " |\n");
            proof {
                lemma_take_step(items, i as int);
                lemma_concat_push(items.take(i as int), items[i as int]);
            }
            i = i + 1;
        }
        assert(items.take(apis.len() as int) =~= items);
        push_str(out, "\n");
    }
    assert(out@ =~= old(out)@ + apis_section(apis@));
}

fn push_patterns_section(out: &mut String, patterns: &Vec<String>)
    ensures
        final(out)@ == old(out)@ + patterns_section(patterns@),
{
    if patterns.len() == 0 {
        push_str(out, "検出なし\n\n");
    } else {
        push_pattern_lines(out, patterns);
        push_str(out, "\n");
    }
    assert(out@ =~= old(out)@ + patterns_section(patterns@));
}

fn push_issues_section(out: &mut String, issues: &Vec<Issue>)
    ensures
        final(out)@ == old(out)@ + issues_section(issues@),
{
    if issues.len() == 0 {
        push_str(out, "検出なし\n\n");
    } else {
        push_str(out, "| 重大度 | 内容 | 改善提案 |\n|---|---|---|\n");
        push_issue_rows(out, issues);
        push_str(out, "\n");
    }
    assert(out@ =~= old(out)@ + issues_section(issues@));
}

fn push_metrics_section(out: &mut String, static_result: Option<&StaticAnalysisResult>)
    ensures
        final(out)@ == old(out)@ + metrics_section(match static_result {
            Some(sr) => Some(*sr),
            None => None,
        }),
{
    match static_result {
        Some(sr) => {
            push_str(out, "## 静的解析メトリクス\n\n");
            push_str(out, "- 行数: ");
            let t = u32_to_decimal(sr.metrics.loc);
            push_str(out, t.as_str());
            push_str(out, "\n- 循環的複雑度: ");
            let t = u32_to_decimal(sr.metrics.cyclomatic_complexity);
            push_str(out, t.as_str());
            push_str(out, "\n- 最大ネスト深度: ");
            let t = u32_to_decimal(sr.metrics.max_nest_depth);
            push_str(out, t.as_str());
            push_str(out, "\n- 関数: ");
            push_function_names(out, sr);
            push_str(out, "\n- クラス: ");
            push_class_names(out, sr);
            push_str(out, "\n\n");
            assert(out@ =~= old(out)@ + metrics_section(Some(*sr)));
        },
        None => {
            assert(out@ =~= old(out)@ + metrics_section(None));
        },
    }
}

/// The detail design document of one source file, with the static metrics when known.
pub fn detail_design_for_file(file_result: &FileAnalysisResult, static_result: Option<&StaticAnalysisResult>) -> (res: String)
    ensures
        res@ == detail_design_file_md(*file_result, match static_result {
            Some(sr) => Some(*sr),
            None => None,
        }),
{
    let fr = file_result;
    let mut out = String::new();
    push_str(&mut out, "# 詳細設計書: ");
    push_str(&mut out, fr.file_path.as_str());
    push_str(&mut out, "\n\n");
    push_str(&mut out, "## 役割要約\n\n");
    push_str(&mut out, fr.role_summary.as_str());
    push_str(&mut out, "\n\n## 公開API\n\n");
    push_apis_section(&mut out, &fr.public_apis);
    push_str(&mut out, "## 設計パターン\n\n");
    push_patterns_section(&mut out, &fr.design_patterns);
    push_str(&mut out, "## 重要度スコア\n\n");
    let score = u64_to_decimal(fr.importance_score as u64);
    push_str(&mut out, score.as_str());
    push_str(&mut out, "/10\n\n");
    push_str(&mut out, "## 潜在的問題\n\n");
    push_issues_section(&mut out, &fr.potential_issues);
    push_metrics_section(&mut out, static_result);
    assert(out@ =~= detail_design_file_md(*file_result, match static_result {
        Some(sr) => Some(*sr),
        None => None,
    }));
    out
}

// ---------------------------------------------------------------------
// Detail design of an RPA component
// ---------------------------------------------------------------------

pub open spec fn action_line_md(a: PublicApi) -> Seq<char> {
    "- "@ + a.name@ + ": "@ + a.description@ + "\n"@
}

pub open spec fn issue_line_md(i: Issue) -> Seq<char> {
    "- ["@ + severity_label(i.severity) + "] "@ + i.description@ + "（提案: "@ + i.suggestion@ + "）\n"@
}

pub open spec fn actions_section(apis: Seq<PublicApi>) -> Seq<char> {
    if apis.len() == 0 {
        "なし\n\n"@
    } else {
        concat_all(apis.map_values(|a: PublicApi| action_line_md(a))) + "\n"@
    }
}

pub open spec fn detail_design_rpa_md(fr: FileAnalysisResult, c: RpaComponent) -> Seq<char> {
    "# 詳細設計書（RPA）: "@ + c.component_path@ + "\n\n"@
        + "- ツール: "@ + c.tool@ + "\n- フロー名: "@ + c.flow_name@ + "\n- 種別: "@ + c.flow_kind@ + "\n\n"@
        + "## 役割要約\n\n"@ + fr.role_summary@ + "\n\n## トリガー/主要アクション\n\n"@
        + actions_section(fr.public_apis@)
        + "## フローパターン\n\n"@ + concat_all(fr.design_patterns@.map_values(|p: String| pattern_md(p)))
        + "\n## 構造\n\n- 分岐/ループ数: "@ + decimal(c.branch_or_loop_count as nat)
        + "\n- 外部接続: "@ + join(strs(c.external_connections@), ", "@)
        + "\n- 依存関係: "@ + join(strs(c.dependencies@), ", "@) + "\n\n"@
        + "## 潜在的問題\n\n"@ + concat_all(fr.potential_issues@.map_values(|i: Issue| issue_line_md(i)))
}

/// The detail design document of one RPA component.
pub fn detail_design_for_rpa(file_result: &FileAnalysisResult, component: &RpaComponent) -> (res: String)
    ensures
        res@ == detail_design_rpa_md(*file_result, *component),
{
    let fr = file_result;
    let c = component;
    let mut out = String::new();
    push_str(&mut out, "# 詳細設計書（RPA）: ");
    push_str(&mut out, c.component_path.as_str());
    push_str(&mut out, "\n\n");
    push_str(&mut out, "- ツール: ");
    push_str(&mut out, c.tool.as_str());
    push_str(&mut out, "\n- フロー名: ");
    push_str(&mut out, c.flow_name.as_str());
    push_str(&mut out, "\n- 種別: ");
    push_str(&mut out, c.flow_kind.as_str());
    push_str(&mut out, "\n\n");
    push_str(&mut out, "## 役割要約\n\n");
    push_str(&mut out, fr.role_summary.as_str());
    push_str(&mut out, "\n\n## トリガー/主要アクション\n\n");
    let ghost b0 = out@;
    if fr.public_apis.len() == 0 {
        push_str(&mut out, "なし\n\n");
    } else {
        let ghost base = out@;
        let ghost items = fr.public_apis@.map_values(|a: PublicApi| action_line_md(a));
        let mut i: usize = 0;
        while i < fr.public_apis.len()
            invariant
                i <= fr.public_apis.len(),
                items == fr.public_apis@.map_values(|a: PublicApi| action_line_md(a)),
                out@ == base + concat_all(items.take(i as int)),
            decreases fr.public_apis.len() - i,
        {
            let a = &fr.public_apis[i];
            push_str(&mut out, "- ");
            push_str(&mut out, a.name.as_str());
            push_str(&mut out, ": ");
            push_str(&mut out, a.description.as_str());
            push_str(&mut out, "\n");
            proof {
                lemma_take_step(items, i as int);
                lemma_concat_push(items.take(i as int), items[i as int]);
            }
            i = i + 1;
        }
        assert(items.take(fr.public_apis.len() as int) =~= items);
        push_str(&mut out, "\n");
    }
    assert(out@ =~= b0 + actions_section(fr.public_apis@));
    push_str(&mut out, "## フローパターン\n\n");
    push_pattern_lines(&mut out, &fr.design_patterns);
    push_str(&mut out, "\n## 構造\n\n- 分岐/ループ数: ");
    let t = u32_to_decimal(c.branch_or_loop_count);
    push_str(&mut out, t.as_str());
    push_str(&mut out, "\n- 外部接続: ");
    let t = join_strings(c.external_connections.as_slice(), ", ");
    push_str(&mut out, t.as_str());
    push_str(&mut out, "\n- 依存関係: ");
    let t = join_strings(c.dependencies.as_slice(), ", ");
    push_str(&mut out, t.as_str());
    push_str(&mut out, "\n\n");
    push_str(&mut out, "## 潜在的問題\n\n");
    let ghost base = out@;
    let ghost items = fr.potential_issues@.map_values(|i: Issue| issue_line_md(i));
    let mut i: usize = 0;
    while i < fr.potential_issues.len()
        invariant
            i <= fr.potential_issues.len(),
            items == fr.potential_issues@.map_values(|i: Issue| issue_line_md(i)),
            out@ == base + concat_all(items.take(i as int)),
        decreases fr.potential_issues.len() - i,
    {
        let it = &fr.potential_issues[i];
        push_str(&mut out, "- [");
        push_str(&mut out, severity_ja(&it.severity));
        push_str(&mut out, "] ");
        push_str(&mut out, it.description.as_str());
        push_str(&mut out, "（提案: ");
        push_str(&mut out, it.suggestion.as_str());
        push_str(&mut out, "）\n");
        proof {
            lemma_take_step(items, i as int);
            lemma_concat_push(items.take(i as int), items[i as int]);
        }
        i = i + 1;
    }
    assert(items.take(fr.potential_issues.len() as int) =~= items);
    assert(out@ =~= detail_design_rpa_md(*file_result, *component));
    out
}

} // verus!
