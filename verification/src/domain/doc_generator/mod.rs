//! Document generation: system specification, basic design and per-file detail design,
//! rendered from one Markdown intermediate representation to Markdown, HTML or JSON.
//!
//! The functions here decide what is written where; creating directories and writing
//! files is left to the caller, which performs the plan in its order.

pub mod directory_tree;
pub mod markdown;

use crate::domain::doc_generator::markdown::{
    basic_design, basic_design_md, detail_design_file_md, detail_design_for_file,
    detail_design_for_rpa, detail_design_rpa_md, system_spec, system_spec_md,
};
use crate::models::analysis::{
    ExportResult, ExportedFile, FileAnalysisResult, ProjectAnalysisResult, RpaComponent,
    StaticAnalysisResult,
};
use crate::models::config::ExportConfig;
use crate::models::constants::{doc_types, export_paths};
use crate::models::error::{AppError, AppResult};
use crate::paths::{join_path, join_path_exec, main_separator, platform_sep};
use crate::text::{chars_of, push_str, str_eq, strs, string_of};
use vstd::prelude::*;
use vstd::string::StringExecFns;

verus! {

pub const HTML_HEAD: &'static str = "<!doctype html>\n<html lang=\"ja\"><head><meta charset=\"utf-8\">\n<script src=\"https://cdn.jsdelivr.net/npm/mermaid/dist/mermaid.min.js\"></script>\n<script>window.addEventListener('DOMContentLoaded',()=>{if(window.mermaid){mermaid.initialize({startOnLoad:true});}});</script>\n<style>body{font-family:sans-serif;max-width:960px;margin:2rem auto;padding:0 1rem;}table{border-collapse:collapse;}td,th{border:1px solid #ccc;padding:4px 8px;}</style>\n</head><body>\n";

pub const HTML_TAIL: &'static str = "\n</body></html>\n";

/// The output directory: the configured one, or a fixed directory inside the project
/// (joined with the platform's main separator `sep`).
pub open spec fn output_dir_of(project_path: Seq<char>, configured: Seq<char>, sep: char) -> Seq<char> {
    if configured.len() == 0 {
        join_path(project_path, export_paths::DEFAULT_OUTPUT_DIR_NAME@, sep)
    } else {
        configured
    }
}

/// The output directory, with `sep` as the main path separator.
pub fn resolve_output_dir_with(project_path: &str, configured: &str, sep: char) -> (res: String)
    ensures
        res@ == output_dir_of(project_path@, configured@, sep),
{
    if configured.unicode_len() == 0 {
        join_path_exec(project_path, export_paths::DEFAULT_OUTPUT_DIR_NAME, sep)
    } else {
        String::from_str(configured)
    }
}

/// The output directory, joined with the separator of the platform the program runs on.
pub fn resolve_output_dir(project_path: &str, configured: &str) -> (res: String)
    ensures
        exists|sep: char| platform_sep(sep) && res@ == #[trigger] output_dir_of(project_path@, configured@, sep),
{
    let sep = main_separator();
    resolve_output_dir_with(project_path, configured, sep)
}

/// File extension of an output format, `None` for a format that is not supported.
pub open spec fn extension_for(format: Seq<char>) -> Option<Seq<char>> {
    if format == "markdown"@ {
        Some("md"@)
    } else if format == "html"@ {
        Some("html"@)
    } else if format == "json"@ {
        Some("json"@)
    } else {
        None
    }
}

pub open spec fn unsupported_format_error(format: Seq<char>) -> Seq<char> {
    "未対応の出力形式です: "@ + format
}

fn unsupported_format(format: &str) -> (e: AppError)
    ensures
        e is Export && !e.is_recoverable(),
        e.message_view() == unsupported_format_error(format@),
{
    let mut m = String::from_str("未対応の出力形式です: ");
    push_str(&mut m, format);
    AppError::export(m)
}

pub fn format_extension(format: &str) -> (res: AppResult<&'static str>)
    ensures
        match res {
            Ok(ext) => extension_for(format@) == Some(ext@),
            Err(e) => extension_for(format@) is None && e is Export && !e.is_recoverable()
                && e.message_view() == unsupported_format_error(format@),
        },
{
    proof {
        reveal_strlit("markdown");
        reveal_strlit("html");
        reveal_strlit("json");
    }
    if str_eq(format, "markdown") {
        Ok("md")
    } else if str_eq(format, "html") {
        Ok("html")
    } else if str_eq(format, "json") {
        Ok("json")
    } else {
        Err(unsupported_format(format))
    }
}

/// The HTML that pulldown-cmark renders from a Markdown text, tables enabled.
pub uninterp spec fn cmark_html(markdown: Seq<char>) -> Seq<char>;

/// `pulldown_cmark::Parser::new_ext` with `Options::ENABLE_TABLES`, rendered by
/// `pulldown_cmark::html::push_html` into an empty buffer. The rendering is named, not
/// described: it depends on the Markdown text alone.
#[verifier::external_body]
fn markdown_to_html(markdown_source: &str) -> (html: String)
    ensures
        html@ == cmark_html(markdown_source@),
{
    let parser = pulldown_cmark::Parser::new_ext(markdown_source, pulldown_cmark::Options::ENABLE_TABLES);
    let mut body = String::new();
    pulldown_cmark::html::push_html(&mut body, parser);
    body
}

/// A standalone HTML page around a rendered body; the page loads mermaid for the diagrams.
pub fn html_document(body: &str) -> (page: String)
    ensures
        page@ == HTML_HEAD@ + body@ + HTML_TAIL@,
{
    let mut page = String::from_str(HTML_HEAD);
    push_str(&mut page, body);
    push_str(&mut page, HTML_TAIL);
    page
}

pub fn render_html(markdown_source: &str) -> (page: String)
    ensures
        page@ == HTML_HEAD@ + cmark_html(markdown_source@) + HTML_TAIL@,
{
    let body = markdown_to_html(markdown_source);
    html_document(body.as_str())
}

/// The text written for a document: the Markdown itself, or its HTML page. `Ok(None)`
/// for JSON, whose content is the serialised analysis result rather than the Markdown.
pub fn render_content(format: &str, markdown_source: &str) -> (res: AppResult<Option<String>>)
    ensures
        match res {
            Ok(Some(text)) => (format@ == "markdown"@ && text@ == markdown_source@)
                || (format@ == "html"@ && text@ == HTML_HEAD@ + cmark_html(markdown_source@) + HTML_TAIL@),
            Ok(None) => format@ == "json"@,
            Err(e) => extension_for(format@) is None && e is Export && !e.is_recoverable()
                && e.message_view() == unsupported_format_error(format@),
        },
{
    proof {
        reveal_strlit("markdown");
        reveal_strlit("html");
        reveal_strlit("json");
    }
    if str_eq(format, "markdown") {
        Ok(Some(String::from_str(markdown_source)))
    } else if str_eq(format, "html") {
        Ok(Some(render_html(markdown_source)))
    } else if str_eq(format, "json") {
        Ok(None)
    } else {
        Err(unsupported_format(format))
    }
}

/// A relative path made into one file name: every separator becomes '_'.
pub open spec fn sanitized(path: Seq<char>) -> Seq<char> {
    path.map_values(|c: char| if c == '/' || c == '\\' { '_' } else { c })
}

pub fn sanitize_filename(relative_path: &str) -> (res: String)
    ensures
        res@ == sanitized(relative_path@),
{
    let cs = chars_of(relative_path);
    let mut out: Vec<char> = Vec::new();
    let mut i: usize = 0;
    while i < cs.len()
        invariant
            cs@ == relative_path@,
            i <= cs.len(),
            out@ == sanitized(cs@.take(i as int)),
        decreases cs.len() - i,
    {
        let c = cs[i];
        out.push(if c == '/' || c == '\\' { '_' } else { c });
        assert(sanitized(cs@.take(i + 1)) =~= sanitized(cs@.take(i as int)).push(out@.last()));
        i = i + 1;
    }
    assert(cs@.take(cs.len() as int) =~= cs@);
    string_of(out.as_slice())
}

/// Which analysis result a document renders; the JSON output serialises it.
#[derive(Debug, Clone, Copy, PartialEq, Eq, Structural)]
pub enum DocSource {
    SystemSpec,
    BasicDesign,
    /// The file result at the first index, detailed as the RPA component at the second.
    RpaDetail(usize, usize),
    /// The file result at the first index, with the static result at the second, if any.
    FileDetail(usize, Option<usize>),
}

/// One document to write.
#[derive(Debug, Clone)]
pub struct PlannedDocument {
    pub markdown: String,
    pub source: DocSource,
}

/// What an export writes: the result to report (one entry per file, in writing order),
/// the Markdown and source of each of those files, and the directory of the detail
/// documents, created before the first of them when detail documents are asked for.
#[derive(Debug, Clone)]
pub struct ExportPlan {
    pub result: ExportResult,
    pub documents: Vec<PlannedDocument>,
    pub detail_dir: Option<String>,
}

/// One exported document as the contracts see it.
pub struct DocView {
    pub doc_type: Seq<char>,
    pub path: Seq<char>,
    pub source_file_path: Option<Seq<char>>,
    pub markdown: Seq<char>,
    pub source: DocSource,
}

pub open spec fn requested(list: Seq<Seq<char>>, doc_type: Seq<char>) -> bool {
    exists|i: int| 0 <= i < list.len() && list[i] == doc_type
}

/// The last of the first `n` RPA components whose path is `path` (a later component
/// with the same path takes the place of an earlier one).
pub open spec fn last_component(rcs: Seq<RpaComponent>, path: Seq<char>, n: int) -> Option<int>
    decreases n,
{
    if n <= 0 {
        None
    } else if rcs[n - 1].component_path@ == path {
        Some(n - 1)
    } else {
        last_component(rcs, path, n - 1)
    }
}

/// The last of the first `n` static results whose path is `path`.
pub open spec fn last_static(srs: Seq<StaticAnalysisResult>, path: Seq<char>, n: int) -> Option<int>
    decreases n,
{
    if n <= 0 {
        None
    } else if srs[n - 1].file_path@ == path {
        Some(n - 1)
    } else {
        last_static(srs, path, n - 1)
    }
}

pub open spec fn detail_dir_of(output_dir: Seq<char>, sep: char) -> Seq<char> {
    join_path(output_dir, export_paths::DETAIL_DESIGN_SUBDIR@, sep)
}

pub open spec fn head_doc_path(output_dir: Seq<char>, stem: Seq<char>, ext: Seq<char>, sep: char) -> Seq<char> {
    join_path(output_dir, stem + "."@ + ext, sep)
}

pub open spec fn detail_doc(
    output_dir: Seq<char>,
    ext: Seq<char>,
    frs: Seq<FileAnalysisResult>,
    k: int,
    srs: Seq<StaticAnalysisResult>,
    rcs: Seq<RpaComponent>,
    sep: char,
) -> DocView {
    let fr = frs[k];
    let path = join_path(detail_dir_of(output_dir, sep), sanitized(fr.file_path@) + "."@ + ext, sep);
    match last_component(rcs, fr.file_path@, rcs.len() as int) {
        Some(j) => DocView {
            doc_type: doc_types::DETAIL_DESIGN@,
            path,
            source_file_path: Some(fr.file_path@),
            markdown: detail_design_rpa_md(fr, rcs[j]),
            source: DocSource::RpaDetail(k as usize, j as usize),
        },
        None => {
            let s = last_static(srs, fr.file_path@, srs.len() as int);
            DocView {
                doc_type: doc_types::DETAIL_DESIGN@,
                path,
                source_file_path: Some(fr.file_path@),
                markdown: detail_design_file_md(fr, match s { Some(j) => Some(srs[j]), None => None }),
                source: DocSource::FileDetail(k as usize, match s { Some(j) => Some(j as usize), None => None }),
            }
        },
    }
}

/// The documents of an export, in writing order.
pub open spec fn export_docs(
    output_dir: Seq<char>,
    doc_type_list: Seq<Seq<char>>,
    ext: Seq<char>,
    embed_mermaid: bool,
    pr: ProjectAnalysisResult,
    srs: Seq<StaticAnalysisResult>,
    frs: Seq<FileAnalysisResult>,
    rcs: Seq<RpaComponent>,
    sep: char,
) -> Seq<DocView> {
    let sys = if requested(doc_type_list, doc_types::SYSTEM_SPEC@) {
        seq![DocView {
            doc_type: doc_types::SYSTEM_SPEC@,
            path: head_doc_path(output_dir, export_paths::SYSTEM_SPEC_FILENAME@, ext, sep),
            source_file_path: None,
            markdown: system_spec_md(pr.system_spec),
            source: DocSource::SystemSpec,
        }]
    } else {
        Seq::empty()
    };
    let basic = if requested(doc_type_list, doc_types::BASIC_DESIGN@) {
        seq![DocView {
            doc_type: doc_types::BASIC_DESIGN@,
            path: head_doc_path(output_dir, export_paths::BASIC_DESIGN_FILENAME@, ext, sep),
            source_file_path: None,
            markdown: basic_design_md(pr.basic_design, embed_mermaid),
            source: DocSource::BasicDesign,
        }]
    } else {
        Seq::empty()
    };
    let details = if requested(doc_type_list, doc_types::DETAIL_DESIGN@) {
        Seq::new(frs.len(), |k: int| detail_doc(output_dir, ext, frs, k, srs, rcs, sep))
    } else {
        Seq::empty()
    };
    sys + basic + details
}

pub open spec fn exported_view(f: ExportedFile) -> (Seq<char>, Seq<char>, Option<Seq<char>>) {
    (f.doc_type@, f.path@, match f.source_file_path { Some(p) => Some(p@), None => None })
}

/// Whether the listed files and documents are exactly the given documents.
pub open spec fn docs_match(files: Seq<ExportedFile>, documents: Seq<PlannedDocument>, docs: Seq<DocView>) -> bool {
    &&& files.len() == docs.len()
    &&& documents.len() == docs.len()
    &&& forall|i: int| 0 <= i < docs.len() ==> {
        &&& #[trigger] exported_view(files[i]) == (docs[i].doc_type, docs[i].path, docs[i].source_file_path)
        &&& documents[i].markdown@ == docs[i].markdown
        &&& documents[i].source == docs[i].source
    }
}

/// Whether a plan holds exactly the given documents.
pub open spec fn plan_matches(plan: ExportPlan, docs: Seq<DocView>) -> bool {
    docs_match(plan.result.files@, plan.documents@, docs)
}

pub fn is_requested(list: &[String], doc_type: &str) -> (res: bool)
    ensures
        res == requested(strs(list@), doc_type@),
{
    let mut i: usize = 0;
    while i < list.len()
        invariant
            i <= list.len(),
            forall|j: int| 0 <= j < i ==> list@[j]@ != doc_type@,
        decreases list.len() - i,
    {
        if str_eq(list[i].as_str(), doc_type) {
            assert(strs(list@)[i as int] == doc_type@);
            return true;
        }
        i = i + 1;
    }
    false
}

fn find_component(rcs: &[RpaComponent], path: &str) -> (res: Option<usize>)
    ensures
        res matches Some(j) ==> j < rcs.len(),
        match last_component(rcs@, path@, rcs@.len() as int) {
            Some(j) => 0 <= j < rcs.len() && res == Some(j as usize),
            None => res is None,
        },
{
    let mut n: usize = rcs.len();
    while n > 0
        invariant
            n <= rcs.len(),
            last_component(rcs@, path@, rcs@.len() as int) == last_component(rcs@, path@, n as int),
        decreases n,
    {
        if str_eq(rcs[n - 1].component_path.as_str(), path) {
            return Some(n - 1);
        }
        n = n - 1;
    }
    None
}

fn find_static(srs: &[StaticAnalysisResult], path: &str) -> (res: Option<usize>)
    ensures
        res matches Some(j) ==> j < srs.len(),
        match last_static(srs@, path@, srs@.len() as int) {
            Some(j) => 0 <= j < srs.len() && res == Some(j as usize),
            None => res is None,
        },
{
    let mut n: usize = srs.len();
    while n > 0
        invariant
            n <= srs.len(),
            last_static(srs@, path@, srs@.len() as int) == last_static(srs@, path@, n as int),
        decreases n,
    {
        if str_eq(srs[n - 1].file_path.as_str(), path) {
            return Some(n - 1);
        }
        n = n - 1;
    }
    None
}

fn doc_file_name(stem: &str, ext: &str) -> (res: String)
    ensures
        res@ == stem@ + "."@ + ext@,
{
    let mut name = String::from_str(stem);
    push_str(&mut name, ".");
    push_str(&mut name, ext);
    name
}

fn exported(doc_type: &str, path: String, source_file_path: Option<String>) -> (f: ExportedFile)
    ensures
        f.doc_type@ == doc_type@,
        f.path == path,
        f.source_file_path == source_file_path,
{
    ExportedFile { doc_type: String::from_str(doc_type), path, source_file_path }
}

/// What an export of the documents `doc_type_list` in `format` gives, with `sep` as the
/// main path separator: the plan of `export_docs` and its detail directory, or the
/// unsupported-format error.
pub open spec fn export_outcome(
    res: AppResult<ExportPlan>,
    sep: char,
    output_dir: Seq<char>,
    doc_type_list: Seq<Seq<char>>,
    format: Seq<char>,
    embed_mermaid: bool,
    pr: ProjectAnalysisResult,
    srs: Seq<StaticAnalysisResult>,
    frs: Seq<FileAnalysisResult>,
    rcs: Seq<RpaComponent>,
) -> bool {
    match res {
        Ok(plan) => {
            &&& extension_for(format) is Some
            &&& plan.result.output_dir@ == output_dir
            &&& plan_matches(plan, export_docs(output_dir, doc_type_list, extension_for(format).unwrap(),
                embed_mermaid, pr, srs, frs, rcs, sep))
            &&& match plan.detail_dir {
                Some(d) => requested(doc_type_list, doc_types::DETAIL_DESIGN@) && d@ == detail_dir_of(output_dir, sep),
                None => !requested(doc_type_list, doc_types::DETAIL_DESIGN@),
            }
        },
        Err(e) => extension_for(format) is None && e is Export && !e.is_recoverable()
            && e.message_view() == unsupported_format_error(format),
    }
}

/// The export of the selected documents in the given format, with `sep` as the main path
/// separator: the system specification, the basic design, and one detail document per
/// file result (an RPA component with the same path details it if there is one;
/// otherwise the static result with that path, if any, completes it). An unsupported
/// format is refused before anything is planned.
pub fn generate_with_separator(
    sep: char,
    output_dir: &str,
    doc_type_list: &[String],
    format: &str,
    embed_mermaid: bool,
    project_result: &ProjectAnalysisResult,
    static_results: &[StaticAnalysisResult],
    file_results: &[FileAnalysisResult],
    rpa_components: &[RpaComponent],
) -> (res: AppResult<ExportPlan>)
    ensures
        export_outcome(res, sep, output_dir@, strs(doc_type_list@), format@, embed_mermaid, *project_result,
            static_results@, file_results@, rpa_components@),
{
    let ext = match format_extension(format) {
        Ok(ext) => ext,
        Err(e) => return Err(e),
    };
    let ghost docs = export_docs(output_dir@, strs(doc_type_list@), ext@, embed_mermaid, *project_result,
        static_results@, file_results@, rpa_components@, sep);
    let mut files: Vec<ExportedFile> = Vec::new();
    let mut documents: Vec<PlannedDocument> = Vec::new();
    let ghost mut done: Seq<DocView> = Seq::empty();

    if is_requested(doc_type_list, doc_types::SYSTEM_SPEC) {
        let md = system_spec(&project_result.system_spec);
        let path = join_path_exec(output_dir, doc_file_name(export_paths::SYSTEM_SPEC_FILENAME, ext).as_str(), sep);
        files.push(exported(doc_types::SYSTEM_SPEC, path, None));
        documents.push(PlannedDocument { markdown: md, source: DocSource::SystemSpec });
        proof {
            done = done.push(DocView {
                doc_type: doc_types::SYSTEM_SPEC@,
                path: head_doc_path(output_dir@, export_paths::SYSTEM_SPEC_FILENAME@, ext@, sep),
                source_file_path: None,
                markdown: system_spec_md(project_result.system_spec),
                source: DocSource::SystemSpec,
            });
        }
    }
    if is_requested(doc_type_list, doc_types::BASIC_DESIGN) {
        let md = basic_design(&project_result.basic_design, embed_mermaid);
        let path = join_path_exec(output_dir, doc_file_name(export_paths::BASIC_DESIGN_FILENAME, ext).as_str(), sep);
        files.push(exported(doc_types::BASIC_DESIGN, path, None));
        documents.push(PlannedDocument { markdown: md, source: DocSource::BasicDesign });
        proof {
            done = done.push(DocView {
                doc_type: doc_types::BASIC_DESIGN@,
                path: head_doc_path(output_dir@, export_paths::BASIC_DESIGN_FILENAME@, ext@, sep),
                source_file_path: None,
                markdown: basic_design_md(project_result.basic_design, embed_mermaid),
                source: DocSource::BasicDesign,
            });
        }
    }
    let ghost head = done;
    let mut detail_dir: Option<String> = None;
    if is_requested(doc_type_list, doc_types::DETAIL_DESIGN) {
        let dir = join_path_exec(output_dir, export_paths::DETAIL_DESIGN_SUBDIR, sep);
        let mut k: usize = 0;
        while k < file_results.len()
            invariant
                k <= file_results.len(),
                dir@ == detail_dir_of(output_dir@, sep),
                head.len() + k == done.len(),
                done == head + Seq::new(k as nat, |i: int| detail_doc(output_dir@, ext@, file_results@, i, static_results@, rpa_components@, sep)),
                docs_match(files@, documents@, done),
            decreases file_results.len() - k,
        {
            let ghost files0 = files@;
            let ghost docs0 = documents@;
            let fr = &file_results[k];
            let name = doc_file_name(sanitize_filename(fr.file_path.as_str()).as_str(), ext);
            let path = join_path_exec(dir.as_str(), name.as_str(), sep);
            let ghost view = detail_doc(output_dir@, ext@, file_results@, k as int, static_results@, rpa_components@, sep);
            match find_component(rpa_components, fr.file_path.as_str()) {
                Some(j) => {
                    let md = detail_design_for_rpa(fr, &rpa_components[j]);
                    assert(md@ == view.markdown);
                    documents.push(PlannedDocument { markdown: md, source: DocSource::RpaDetail(k, j) });
                },
                None => {
                    let sj = find_static(static_results, fr.file_path.as_str());
                    let md = match sj {
                        Some(j) => detail_design_for_file(fr, Some(&static_results[j])),
                        None => detail_design_for_file(fr, None),
                    };
                    assert(md@ == view.markdown);
                    documents.push(PlannedDocument { markdown: md, source: DocSource::FileDetail(k, sj) });
                },
            }
            files.push(exported(doc_types::DETAIL_DESIGN, path, Some(fr.file_path.clone())));
            proof {
                let old_done = done;
                done = done.push(view);
                assert(done =~= head + Seq::new((k + 1) as nat, |i: int| detail_doc(output_dir@, ext@, file_results@, i, static_results@, rpa_components@, sep)));
                let n = old_done.len() as int;
                assert(exported_view(files@[n]) == (view.doc_type, view.path, view.source_file_path));
                assert(documents@[n].markdown@ == view.markdown);
                assert(documents@[n].source == view.source);
                assert forall|i: int| 0 <= i < done.len() implies {
                    &&& #[trigger] exported_view(files@[i]) == (done[i].doc_type, done[i].path, done[i].source_file_path)
                    &&& documents@[i].markdown@ == done[i].markdown
                    &&& documents@[i].source == done[i].source
                } by {
                    if i < n {
                        assert(done[i] == old_done[i]);
                        assert(files@[i] == files0[i]);
                        assert(documents@[i] == docs0[i]);
                        assert(exported_view(files0[i]) == (old_done[i].doc_type, old_done[i].path, old_done[i].source_file_path));
                    }
                }
            }
            k = k + 1;
        }
        detail_dir = Some(dir);
    }
    proof {
        assert(done =~= docs);
    }
    let result = ExportResult { output_dir: String::from_str(output_dir), files };
    Ok(ExportPlan { result, documents, detail_dir })
}

/// The export of the selected documents in the given format, with the main path separator
/// of the platform the program runs on (see `generate_with_separator`).
pub fn generate(
    output_dir: &str,
    doc_type_list: &[String],
    format: &str,
    embed_mermaid: bool,
    project_result: &ProjectAnalysisResult,
    static_results: &[StaticAnalysisResult],
    file_results: &[FileAnalysisResult],
    rpa_components: &[RpaComponent],
) -> (res: AppResult<ExportPlan>)
    ensures
        exists|sep: char| platform_sep(sep) && #[trigger] export_outcome(res, sep, output_dir@, strs(doc_type_list@),
            format@, embed_mermaid, *project_result, static_results@, file_results@, rpa_components@),
{
    let sep = main_separator();
    generate_with_separator(sep, output_dir, doc_type_list, format, embed_mermaid, project_result, static_results,
        file_results, rpa_components)
}

/// The export that the settings ask for by default.
pub fn generate_all(
    output_dir: &str,
    project_result: &ProjectAnalysisResult,
    static_results: &[StaticAnalysisResult],
    file_results: &[FileAnalysisResult],
    rpa_components: &[RpaComponent],
    export_config: &ExportConfig,
) -> (res: AppResult<ExportPlan>)
    ensures
        exists|sep: char| platform_sep(sep) && #[trigger] export_outcome(res, sep, output_dir@,
            strs(export_config.default_doc_types@), export_config.default_format@, export_config.embed_mermaid,
            *project_result, static_results@, file_results@, rpa_components@),
{
    generate(
        output_dir,
        export_config.default_doc_types.as_slice(),
        export_config.default_format.as_str(),
        export_config.embed_mermaid,
        project_result,
        static_results,
        file_results,
        rpa_components,
    )
}

} // verus!
