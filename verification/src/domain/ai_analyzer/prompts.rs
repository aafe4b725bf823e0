//! Prompt texts of the AI analysis. A change of a prompt text must come with a change
//! of the matching prompt version constant, which is part of the cache key.
use crate::text::{decimal, join, join_strings, push_str, strs, u32_to_decimal, usize_to_decimal};
use vstd::prelude::*;

verus! {

pub const FILE_SCHEMA: &'static str = r#"{
  "roleSummary": "string: このファイルの責務の要約（日本語・200字以内）",
  "publicApis": [
    { "name": "string", "kind": "function|class|const|type", "description": "string" }
  ],
  "designPatterns": ["string"],
  "importanceScore": 5,
  "potentialIssues": [
    { "severity": "high|medium|low", "description": "string", "suggestion": "string" }
  ]
}"#;

pub const PROJECT_SCHEMA: &'static str = r#"{
  "systemSpec": {
    "purpose": "string: システムが解決する課題・存在意義（平易な日本語、非エンジニアが読める表現）",
    "mainFeatures": [
      { "name": "string: 機能名（平易な日本語）", "description": "string: 何ができるかの説明（平易な日本語）" }
    ],
    "userFlows": "string: 主要な利用シーン・業務の流れの説明（平易な日本語）"
  },
  "basicDesign": {
    "architecturePattern": "string",
    "modules": [
      { "name": "string", "responsibility": "string", "keyFiles": ["string"] }
    ],
    "techStack": ["string"],
    "dataFlow": "string: データの流れの説明（技術者向け）",
    "technicalDebts": [
      { "severity": "high|medium|low", "area": "string", "description": "string", "recommendation": "string" }
    ],
    "mermaidDiagrams": [
      { "type": "architecture|dependency|dataflow", "title": "string", "source": "string: mermaidソース" }
    ]
  }
}"#;

pub const FILE_PROMPT_0: &'static str = "あなたはソフトウェアアーキテクチャの専門家です。以下のソースコードファイルを解析してください。\n\n# 制約\n- 応答は指定するJSON形式のみで返すこと。前置き・説明文・コードフェンスは一切含めないこと\n- すべての文字列値は日本語で記述すること\n- 推測で断定せず、コードから読み取れる事実に基づくこと\n\n# 出力JSON形式\n";

pub const FILE_PROMPT_1: &'static str = "\n\n# ファイル情報\n- パス: ";

pub const FILE_PROMPT_2: &'static str = "\n- 言語: ";

pub const FILE_PROMPT_3: &'static str = "\n- 静的解析結果: 行数=";

pub const FILE_PROMPT_4: &'static str = ", 循環的複雑度=";

pub const FILE_PROMPT_5: &'static str = ", 関数=";

pub const FILE_PROMPT_6: &'static str = ", クラス=";

pub const FILE_PROMPT_7: &'static str = "\n\n# ソースコード\n";

pub const FILE_PROMPT_8: &'static str = "\n";


pub open spec fn file_prompt_text(file_path: Seq<char>, language: Seq<char>, loc: nat, complexity: nat, functions: Seq<Seq<char>>, classes: Seq<Seq<char>>, file_content: Seq<char>) -> Seq<char> {
    FILE_PROMPT_0@
        + FILE_SCHEMA@
        + FILE_PROMPT_1@
        + file_path
        + FILE_PROMPT_2@
        + language
        + FILE_PROMPT_3@
        + decimal(loc)
        + FILE_PROMPT_4@
        + decimal(complexity)
        + FILE_PROMPT_5@
        + join(functions, ", "@)
        + FILE_PROMPT_6@
        + join(classes, ", "@)
        + FILE_PROMPT_7@
        + file_content
        + FILE_PROMPT_8@
}

/// Prompt for the analysis of one source file.
pub fn file_analysis_prompt(input: &FileAnalysisInput) -> (res: String)
    ensures
        res@ == file_prompt_text(input.file_path@, input.language@, input.loc as nat, input.complexity as nat, strs(input.functions@), strs(input.classes@), input.file_content@),
{
    let mut s = String::new();
    push_str(&mut s, FILE_PROMPT_0);
    push_str(&mut s, FILE_SCHEMA);
    push_str(&mut s, FILE_PROMPT_1);
    push_str(&mut s, input.file_path);
    push_str(&mut s, FILE_PROMPT_2);
    push_str(&mut s, input.language);
    push_str(&mut s, FILE_PROMPT_3);
    let t3 = u32_to_decimal(input.loc);
    push_str(&mut s, t3.as_str());
    push_str(&mut s, FILE_PROMPT_4);
    let t4 = u32_to_decimal(input.complexity);
    push_str(&mut s, t4.as_str());
    push_str(&mut s, FILE_PROMPT_5);
    let t5 = join_strings(input.functions, ", ");
    push_str(&mut s, t5.as_str());
    push_str(&mut s, FILE_PROMPT_6);
    let t6 = join_strings(input.classes, ", ");
    push_str(&mut s, t6.as_str());
    push_str(&mut s, FILE_PROMPT_7);
    push_str(&mut s, input.file_content);
    push_str(&mut s, FILE_PROMPT_8);
    assert(s@ =~= file_prompt_text(input.file_path@, input.language@, input.loc as nat, input.complexity as nat, strs(input.functions@), strs(input.classes@), input.file_content@));
    s
}

/// Inputs of the file analysis prompt.
pub struct FileAnalysisInput<'a> {
    pub file_path: &'a str,
    pub language: &'a str,
    pub loc: u32,
    pub complexity: u32,
    pub functions: &'a [String],
    pub classes: &'a [String],
    pub file_content: &'a str,
}

pub const PROJECT_PROMPT_0: &'static str = "あなたはソフトウェアアーキテクチャの専門家です。以下のプロジェクト情報全体を俯瞰し、「システム仕様書」と「システム基本設計書」の元データをそれぞれ生成してください。\n\n# 制約\n- 応答は指定するJSON形式のみで返すこと。前置き・説明文・コードフェンスは一切含めないこと\n- すべての文字列値は日本語で記述すること\n- `systemSpec` 配下は非エンジニアが読んでも理解できる平易な日本語で記述し、専門用語（アーキテクチャパターン名・モジュール名等のコード上の固有名詞を除く）は避けること\n- `basicDesign` 配下は開発者向けとして、技術用語を正確に用いて記述すること\n- mermaidDiagrams.source は有効なMermaid記法であること\n\n# 出力JSON形式\n";

pub const PROJECT_PROMPT_1: &'static str = "\n\n# プロジェクト情報\n- ルート: ";

pub const PROJECT_PROMPT_2: &'static str = "\n- ファイル数: ";

pub const PROJECT_PROMPT_3: &'static str = " / 言語構成: ";

pub const PROJECT_PROMPT_4: &'static str = "\n- 依存関係グラフ要約: ";

pub const PROJECT_PROMPT_5: &'static str = "（循環依存: ";

pub const PROJECT_PROMPT_6: &'static str = "）\n- 各ファイルの解析要約:\n";

pub const PROJECT_PROMPT_7: &'static str = "\n";


pub open spec fn project_prompt_text(project_root: Seq<char>, file_count: nat, language_stats: Seq<char>, dependency_summary: Seq<char>, cycles: Seq<char>, file_summaries: Seq<char>) -> Seq<char> {
    PROJECT_PROMPT_0@
        + PROJECT_SCHEMA@
        + PROJECT_PROMPT_1@
        + project_root
        + PROJECT_PROMPT_2@
        + decimal(file_count)
        + PROJECT_PROMPT_3@
        + language_stats
        + PROJECT_PROMPT_4@
        + dependency_summary
        + PROJECT_PROMPT_5@
        + cycles
        + PROJECT_PROMPT_6@
        + file_summaries
        + PROJECT_PROMPT_7@
}

/// Prompt for the analysis of the whole project.
pub fn project_analysis_prompt(input: &ProjectAnalysisInput) -> (res: String)
    ensures
        res@ == project_prompt_text(input.project_root@, input.file_count as nat, input.language_stats@, input.dependency_summary@, input.cycles@, input.file_summaries@),
{
    let mut s = String::new();
    push_str(&mut s, PROJECT_PROMPT_0);
    push_str(&mut s, PROJECT_SCHEMA);
    push_str(&mut s, PROJECT_PROMPT_1);
    push_str(&mut s, input.project_root);
    push_str(&mut s, PROJECT_PROMPT_2);
    let t2 = usize_to_decimal(input.file_count);
    push_str(&mut s, t2.as_str());
    push_str(&mut s, PROJECT_PROMPT_3);
    push_str(&mut s, input.language_stats);
    push_str(&mut s, PROJECT_PROMPT_4);
    push_str(&mut s, input.dependency_summary);
    push_str(&mut s, PROJECT_PROMPT_5);
    push_str(&mut s, input.cycles);
    push_str(&mut s, PROJECT_PROMPT_6);
    push_str(&mut s, input.file_summaries);
    push_str(&mut s, PROJECT_PROMPT_7);
    assert(s@ =~= project_prompt_text(input.project_root@, input.file_count as nat, input.language_stats@, input.dependency_summary@, input.cycles@, input.file_summaries@));
    s
}

/// Inputs of the project analysis prompt.
pub struct ProjectAnalysisInput<'a> {
    pub project_root: &'a str,
    pub file_count: usize,
    pub language_stats: &'a str,
    pub dependency_summary: &'a str,
    pub cycles: &'a str,
    pub file_summaries: &'a str,
}

pub const RPA_PROMPT_0: &'static str = "あなたはRPA（Robotic Process Automation）の専門家です。以下のRPA定義ファイルを解析してください。\n\n# 制約\n- 応答は指定するJSON形式のみで返すこと。前置き・説明文・コードフェンスは一切含めないこと\n- すべての文字列値は日本語で記述すること\n- publicApisには「トリガー/主要アクション」を、designPatternsには「フローパターン（承認フロー/通知/データ同期/画面自動操作等）」を記述すること\n\n# 出力JSON形式\n";

pub const RPA_PROMPT_1: &'static str = "\n\n# コンポーネント情報\n- パス: ";

pub const RPA_PROMPT_2: &'static str = "\n- ツール: ";

pub const RPA_PROMPT_3: &'static str = "\n- 構造解析結果（共通中間表現）: ";

pub const RPA_PROMPT_4: &'static str = "\n\n# 定義ファイル原文\n";

pub const RPA_PROMPT_5: &'static str = "\n";


pub open spec fn rpa_prompt_text(component_path: Seq<char>, tool: Seq<char>, intermediate_repr_json: Seq<char>, raw_content: Seq<char>) -> Seq<char> {
    RPA_PROMPT_0@
        + FILE_SCHEMA@
        + RPA_PROMPT_1@
        + component_path
        + RPA_PROMPT_2@
        + tool
        + RPA_PROMPT_3@
        + intermediate_repr_json
        + RPA_PROMPT_4@
        + raw_content
        + RPA_PROMPT_5@
}

/// Prompt for one RPA definition file; the file schema is reused, with public APIs read
/// as triggers/main actions and design patterns as flow patterns.
pub fn rpa_analysis_prompt(component_path: &str, tool: &str, intermediate_repr_json: &str, raw_content: &str) -> (res: String)
    ensures
        res@ == rpa_prompt_text(component_path@, tool@, intermediate_repr_json@, raw_content@),
{
    let mut s = String::new();
    push_str(&mut s, RPA_PROMPT_0);
    push_str(&mut s, FILE_SCHEMA);
    push_str(&mut s, RPA_PROMPT_1);
    push_str(&mut s, component_path);
    push_str(&mut s, RPA_PROMPT_2);
    push_str(&mut s, tool);
    push_str(&mut s, RPA_PROMPT_3);
    push_str(&mut s, intermediate_repr_json);
    push_str(&mut s, RPA_PROMPT_4);
    push_str(&mut s, raw_content);
    push_str(&mut s, RPA_PROMPT_5);
    assert(s@ =~= rpa_prompt_text(component_path@, tool@, intermediate_repr_json@, raw_content@));
    s
}

pub const VBA_PROMPT_0: &'static str = "あなたはVBA（Visual Basic for Applications）マクロの専門家です。以下のExcelワークブックに含まれるVBAマクロを解析してください。\n\n# 制約\n- 応答は指定するJSON形式のみで返すこと。前置き・説明文・コードフェンスは一切含めないこと\n- すべての文字列値は日本語で記述すること\n- publicApisには「公開Sub/Function（Public宣言のプロシージャ）」を、designPatternsには「マクロの処理パターン（自動化/データ加工/UI操作/外部アプリ連携等）」を記述すること\n- 複数モジュールで構成される場合は、モジュール間の呼び出し関係も踏まえて役割要約を記述すること\n\n# 出力JSON形式\n";

pub const VBA_PROMPT_1: &'static str = "\n\n# ワークブック情報\n- パス: ";

pub const VBA_PROMPT_2: &'static str = "\n- ワークブック名: ";

pub const VBA_PROMPT_3: &'static str = "\n- モジュール構成（共通中間表現）: ";

pub const VBA_PROMPT_4: &'static str = "\n\n# VBAソース（全モジュール結合）\n";

pub const VBA_PROMPT_5: &'static str = "\n";


pub open spec fn vba_prompt_text(component_path: Seq<char>, workbook_name: Seq<char>, modules_json: Seq<char>, combined_source: Seq<char>) -> Seq<char> {
    VBA_PROMPT_0@
        + FILE_SCHEMA@
        + VBA_PROMPT_1@
        + component_path
        + VBA_PROMPT_2@
        + workbook_name
        + VBA_PROMPT_3@
        + modules_json
        + VBA_PROMPT_4@
        + combined_source
        + VBA_PROMPT_5@
}

/// Prompt for the VBA project of one workbook; the file schema is reused, with public APIs
/// read as public procedures and design patterns as macro processing patterns.
pub fn vba_analysis_prompt(component_path: &str, workbook_name: &str, modules_json: &str, combined_source: &str) -> (res: String)
    ensures
        res@ == vba_prompt_text(component_path@, workbook_name@, modules_json@, combined_source@),
{
    let mut s = String::new();
    push_str(&mut s, VBA_PROMPT_0);
    push_str(&mut s, FILE_SCHEMA);
    push_str(&mut s, VBA_PROMPT_1);
    push_str(&mut s, component_path);
    push_str(&mut s, VBA_PROMPT_2);
    push_str(&mut s, workbook_name);
    push_str(&mut s, VBA_PROMPT_3);
    push_str(&mut s, modules_json);
    push_str(&mut s, VBA_PROMPT_4);
    push_str(&mut s, combined_source);
    push_str(&mut s, VBA_PROMPT_5);
    assert(s@ =~= vba_prompt_text(component_path@, workbook_name@, modules_json@, combined_source@));
    s
}

} // verus!
