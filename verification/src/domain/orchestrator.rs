//! The decisions of the four-phase analysis (scan, static analysis, AI analysis,
//! document generation): cancellation, which analysis a scanned file goes to, the
//! texts handed to the project analysis, the project hash, the summary and the history
//! status. Running the phases, the events and the waiting are the application's.
use crate::digest::{lemma_encode_concat, push_utf8, sha256_hex, sha256_hex_text};
use crate::domain::doc_generator::directory_tree::{name_lt, lemma_name_lt_irreflexive, lemma_name_lt_total, lemma_name_lt_transitive};
use crate::models::analysis::{
    AnalysisSummary, DependencyGraph, FileAnalysisResult, ProgressPayload, ProjectAnalysisResult, RpaComponent, ScannedFile,
    StaticAnalysisResult,
};
use crate::models::error::{AppError, AppResult};
use crate::text::{chars_of, decimal, join, push_str, str_eq, u64_to_decimal, usize_to_decimal};
use vstd::prelude::*;
use vstd::string::StringExecFns;
use vstd::utf8::encode_utf8;

verus! {

/// Everything a completed analysis produced.
pub struct FullAnalysisOutput {
    pub summary: AnalysisSummary,
    pub static_results: Vec<StaticAnalysisResult>,
    pub file_results: Vec<FileAnalysisResult>,
    pub rpa_components: Vec<RpaComponent>,
    pub project_result: ProjectAnalysisResult,
    pub dependency_graph: DependencyGraph,
}

pub open spec fn cancelled_error(e: AppError) -> bool {
    e matches AppError::Scan { message, recoverable } && recoverable && message@ == "解析はキャンセルされました"@
}

/// A cancelled analysis stops with a recoverable scan error.
pub fn check_cancelled(cancelled: bool) -> (res: AppResult<()>)
    ensures
        cancelled ==> (res matches Err(e) && cancelled_error(e)),
        !cancelled ==> res is Ok,
{
    if cancelled {
        Err(AppError::scan(String::from_str("解析はキャンセルされました")))
    } else {
        Ok(())
    }
}

// ---------------------------------------------------------------------
// Language statistics
// ---------------------------------------------------------------------

/// The distinct languages among the first `n` results, in order of first appearance.
pub open spec fn languages(rs: Seq<StaticAnalysisResult>, n: int) -> Seq<Seq<char>>
    decreases n,
{
    if n <= 0 {
        Seq::empty()
    } else {
        let prev = languages(rs, n - 1);
        if prev.contains(rs[n - 1].language@) { prev } else { prev.push(rs[n - 1].language@) }
    }
}

/// The number of results among the first `n` whose language is `lang`.
pub open spec fn language_count(rs: Seq<StaticAnalysisResult>, lang: Seq<char>, n: int) -> nat
    decreases n,
{
    if n <= 0 {
        0
    } else {
        language_count(rs, lang, n - 1) + if rs[n - 1].language@ == lang { 1nat } else { 0nat }
    }
}

/// "language:count" for each language, joined by ", ".
pub open spec fn language_stats_text(rs: Seq<StaticAnalysisResult>) -> Seq<char> {
    let langs = languages(rs, rs.len() as int);
    join(langs.map_values(|l: Seq<char>| l + ":"@ + decimal(language_count(rs, l, rs.len() as int))), ", "@)
}

/// The language statistics handed to the project analysis. The languages are listed in
/// order of first appearance.
pub fn language_stats_summary(results: &[StaticAnalysisResult]) -> (s: String)
    ensures
        s@ == language_stats_text(results@),
{
    let ghost rs = results@;
    let mut langs: Vec<String> = Vec::new();
    let mut counts: Vec<usize> = Vec::new();
    let mut i: usize = 0;
    while i < results.len()
        invariant
            rs == results@,
            i <= results.len(),
            langs.len() == counts.len(),
            langs@.map_values(|l: String| l@) == languages(rs, i as int),
            forall|k: int| 0 <= k < counts.len() ==> counts@[k] == language_count(rs, langs@[k]@, i as int),
            forall|k: int| 0 <= k < counts.len() ==> counts@[k] <= i,
            forall|k1: int, k2: int| 0 <= k1 < k2 < langs.len() ==> langs@[k1]@ != langs@[k2]@,
        decreases results.len() - i,
    {
        let lang = results[i].language.as_str();
        let ghost lv = langs@.map_values(|l: String| l@);
        let mut k: usize = 0;
        let mut found = false;
        while k < langs.len()
            invariant_except_break
                k <= langs.len(),
                !found,
                forall|j: int| 0 <= j < k ==> langs@[j]@ != lang@,
            ensures
                found ==> k < langs.len() && langs@[k as int]@ == lang@,
                !found ==> k == langs.len() && forall|j: int| 0 <= j < langs.len() ==> langs@[j]@ != lang@,
            decreases langs.len() - k,
        {
            if str_eq(langs[k].as_str(), lang) {
                found = true;
                break;
            }
            k = k + 1;
        }
        let ghost old_counts = counts@;
        if found {
            let c = counts[k];
            counts.set(k, c + 1);
            proof {
                assert(lv.contains(lang@)) by {
                    assert(lv[k as int] == lang@);
                }
            }
        } else {
            let ghost old_langs = langs@;
            langs.push(String::from_str(lang));
            counts.push(1);
            proof {
                assert(!lv.contains(lang@)) by {
                    if lv.contains(lang@) {
                        let j = choose|j: int| 0 <= j < lv.len() && lv[j] == lang@;
                        assert(langs@[j]@ == lang@);
                    }
                }
                assert(langs@.map_values(|l: String| l@) =~= lv.push(lang@));
                assert(language_count(rs, lang@, i as int) == 0) by {
                    lemma_count_absent(rs, lang@, i as int);
                }
            }
        }
        proof {
            assert(rs[i as int].language@ == lang@);
            assert forall|k2: int| 0 <= k2 < counts.len() implies counts@[k2] == language_count(rs, langs@[k2]@, i + 1) by {
                if k2 < old_counts.len() {
                    assert(langs@[k2]@ == lv[k2]);
                    if found && k2 != k {
                        if k2 < k {
                            assert(langs@[k2]@ != langs@[k as int]@);
                        } else {
                            assert(langs@[k as int]@ != langs@[k2]@);
                        }
                    }
                }
            }
            assert forall|k1: int, k2: int| 0 <= k1 < k2 < langs.len() implies langs@[k1]@ != langs@[k2]@ by {
                if k2 < old_counts.len() {
                    assert(langs@[k1]@ == lv[k1] && langs@[k2]@ == lv[k2]);
                } else {
                    assert(langs@[k1]@ == lv[k1]);
                }
            }
        }
        i = i + 1;
    }
    let ghost lv = langs@.map_values(|l: String| l@);
    let mut parts: Vec<String> = Vec::new();
    let mut k: usize = 0;
    while k < langs.len()
        invariant
            k <= langs.len(),
            langs.len() == counts.len(),
            lv == langs@.map_values(|l: String| l@),
            lv == languages(rs, rs.len() as int),
            forall|k2: int| 0 <= k2 < counts.len() ==> counts@[k2] == language_count(rs, langs@[k2]@, rs.len() as int),
            parts@.map_values(|p: String| p@) == lv.take(k as int).map_values(|l: Seq<char>| l + ":"@ + decimal(language_count(rs, l, rs.len() as int))),
        decreases langs.len() - k,
    {
        let mut p = String::from_str(langs[k].as_str());
        push_str(&mut p, ":");
        push_str(&mut p, usize_to_decimal(counts[k]).as_str());
        let ghost prev = parts@.map_values(|q: String| q@);
        parts.push(p);
        assert(parts@.map_values(|q: String| q@) =~= prev.push(p@));
        assert(lv.take(k + 1).map_values(|l: Seq<char>| l + ":"@ + decimal(language_count(rs, l, rs.len() as int)))
            =~= lv.take(k as int).map_values(|l: Seq<char>| l + ":"@ + decimal(language_count(rs, l, rs.len() as int))).push(p@));
        k = k + 1;
    }
    assert(lv.take(langs.len() as int) =~= lv);
    crate::text::join_strings(parts.as_slice(), ", ")
}

proof fn lemma_count_absent(rs: Seq<StaticAnalysisResult>, lang: Seq<char>, n: int)
    requires
        !languages(rs, n).contains(lang),
    ensures
        language_count(rs, lang, n) == 0,
    decreases n,
{
    if n > 0 {
        let prev = languages(rs, n - 1);
        if prev.contains(lang) {
            let j = choose|j: int| 0 <= j < prev.len() && prev[j] == lang;
            if !prev.contains(rs[n - 1].language@) {
                assert(prev.push(rs[n - 1].language@)[j] == lang);
            }
        }
        if rs[n - 1].language@ == lang {
            if prev.contains(lang) {
            } else {
                assert(prev.push(rs[n - 1].language@)[prev.len() as int] == lang);
            }
        }
        lemma_count_absent(rs, lang, n - 1);
    }
}

// ---------------------------------------------------------------------
// File summaries
// ---------------------------------------------------------------------

/// The results whose importance is `score`, in their order.
pub open spec fn with_score(rs: Seq<FileAnalysisResult>, score: u8) -> Seq<FileAnalysisResult> {
    rs.filter(|r: FileAnalysisResult| r.importance_score == score)
}

/// The results by decreasing importance, results of equal importance in their order:
/// those of importance 255 first, then 254, and so on down to `low`.
pub open spec fn by_importance(rs: Seq<FileAnalysisResult>, low: int) -> Seq<FileAnalysisResult>
    decreases 256 - low,
{
    if low > 255 || low < 0 {
        Seq::empty()
    } else {
        by_importance(rs, low + 1) + with_score(rs, low as u8)
    }
}

pub open spec fn summary_line(r: FileAnalysisResult) -> Seq<char> {
    "- "@ + r.file_path@ + " (重要度"@ + decimal(r.importance_score as nat) + "): "@ + r.role_summary@
}

/// One line per result, most important first, joined by newlines.
pub open spec fn file_summaries(rs: Seq<FileAnalysisResult>) -> Seq<char> {
    join(by_importance(rs, 0).map_values(|r: FileAnalysisResult| summary_line(r)), "\n"@)
}

fn summary_line_exec(r: &FileAnalysisResult) -> (s: String)
    ensures
        s@ == summary_line(*r),
{
    let mut s = String::from_str("- ");
    push_str(&mut s, r.file_path.as_str());
    push_str(&mut s, " (重要度");
    push_str(&mut s, u64_to_decimal(r.importance_score as u64).as_str());
    push_str(&mut s, "): ");
    push_str(&mut s, r.role_summary.as_str());
    s
}

/// The file summaries handed to the project analysis.
pub fn file_summaries_text(results: &[FileAnalysisResult]) -> (s: String)
    ensures
        s@ == file_summaries(results@),
{
    let ghost rs = results@;
    let mut lines: Vec<String> = Vec::new();
    let mut score: u32 = 256;
    while score > 0
        invariant
            score <= 256,
            rs == results@,
            lines@.map_values(|l: String| l@) == by_importance(rs, score as int).map_values(|r: FileAnalysisResult| summary_line(r)),
        decreases score,
    {
        let sc: u8 = (score - 1) as u8;
        let ghost before = lines@.map_values(|l: String| l@);
        let mut i: usize = 0;
        while i < results.len()
            invariant
                rs == results@,
                i <= results.len(),
                lines@.map_values(|l: String| l@) == before + rs.take(i as int).filter(|r: FileAnalysisResult| r.importance_score == sc)
                    .map_values(|r: FileAnalysisResult| summary_line(r)),
            decreases results.len() - i,
        {
            proof {
                reveal_with_fuel(Seq::filter, 1);
                assert(rs.take(i + 1).drop_last() =~= rs.take(i as int));
            }
            if results[i].importance_score == sc {
                let ghost prev = lines@.map_values(|l: String| l@);
                let line = summary_line_exec(&results[i]);
                lines.push(line);
                assert(lines@.map_values(|l: String| l@) =~= prev.push(line@));
                assert(rs.take(i + 1).filter(|r: FileAnalysisResult| r.importance_score == sc)
                    =~= rs.take(i as int).filter(|r: FileAnalysisResult| r.importance_score == sc).push(rs[i as int]));
            } else {
                assert(rs.take(i + 1).filter(|r: FileAnalysisResult| r.importance_score == sc)
                    =~= rs.take(i as int).filter(|r: FileAnalysisResult| r.importance_score == sc));
            }
            i = i + 1;
        }
        assert(rs.take(results.len() as int) =~= rs);
        assert(by_importance(rs, sc as int) == by_importance(rs, sc + 1) + with_score(rs, sc));
        assert(lines@.map_values(|l: String| l@) =~= by_importance(rs, sc as int).map_values(|r: FileAnalysisResult| summary_line(r)));
        score = score - 1;
    }
    crate::text::join_strings(lines.as_slice(), "\n")
}

// ---------------------------------------------------------------------
// Summary and history
// ---------------------------------------------------------------------

/// The number of results among the first `n` that came from the cache.
pub open spec fn cache_hit_count(rs: Seq<FileAnalysisResult>, n: int) -> nat
    decreases n,
{
    if n <= 0 {
        0
    } else {
        cache_hit_count(rs, n - 1) + if rs[n - 1].cache_hit { 1nat } else { 0nat }
    }
}

/// The summary of a completed analysis, before its duration is known.
pub fn analysis_summary(total_files: usize, file_results: &[FileAnalysisResult]) -> (s: AnalysisSummary)
    ensures
        s.total_files == total_files,
        s.analyzed_files == file_results@.len(),
        s.cache_hits == cache_hit_count(file_results@, file_results@.len() as int),
        s.total_tokens == 0,
        s.duration_ms == 0,
        s.status@ == "completed"@,
{
    let mut hits: u64 = 0;
    let mut i: usize = 0;
    while i < file_results.len()
        invariant
            i <= file_results.len(),
            hits == cache_hit_count(file_results@, i as int),
            hits <= i,
        decreases file_results.len() - i,
    {
        if file_results[i].cache_hit {
            hits = hits + 1;
        }
        i = i + 1;
    }
    AnalysisSummary {
        total_files: total_files as u64,
        analyzed_files: file_results.len() as u64,
        cache_hits: hits,
        total_tokens: 0,
        duration_ms: 0,
        status: String::from_str("completed"),
    }
}

/// The history status of an analysis that did not complete.
pub fn failure_status(cancelled: bool) -> (s: &'static str)
    ensures
        s@ == if cancelled { "cancelled"@ } else { "error"@ },
{
    if cancelled { "cancelled" } else { "error" }
}

/// The duration between two instants in milliseconds, 0 when the clock went back.
pub fn elapsed_ms(started_ms: i64, finished_ms: i64) -> (d: u64)
    ensures
        d == if finished_ms - started_ms < 0 { 0 } else if finished_ms - started_ms > u64::MAX { u64::MAX as int } else { finished_ms - started_ms },
{
    if finished_ms < started_ms {
        0
    } else {
        let d: i128 = (finished_ms as i128) - (started_ms as i128);
        d as u64
    }
}

/// The progress event of a phase.
pub fn progress(phase: &str, processed: u64, total: u64, current_file: Option<String>) -> (p: ProgressPayload)
    ensures
        p.phase@ == phase@,
        p.processed == processed,
        p.total == total,
        p.current_file == current_file,
{
    ProgressPayload { phase: String::from_str(phase), processed, total, current_file }
}

/// The number of AI requests in flight at once: the configured concurrency, at least 1.
pub fn ai_permits(concurrency: u32) -> (n: u32)
    ensures
        n == if concurrency < 1 { 1 } else { concurrency },
{
    if concurrency < 1 { 1 } else { concurrency }
}

// ---------------------------------------------------------------------
// Project hash
// ---------------------------------------------------------------------

/// File `a` comes before file `b`: its path is smaller, or the paths are equal and it
/// was listed first.
pub open spec fn path_before(files: Seq<ScannedFile>, a: int, b: int) -> bool {
    name_lt(files[a].path@, files[b].path@) || (files[a].path@ == files[b].path@ && a < b)
}

pub open spec fn listed(order: Seq<usize>, i: int) -> bool {
    exists|r: int| 0 <= r < order.len() && order[r] == i
}

/// `order` lists every file index once, sorted by path; files with equal paths keep
/// their order.
pub open spec fn path_order(files: Seq<ScannedFile>, order: Seq<usize>) -> bool {
    &&& order.len() == files.len()
    &&& forall|r: int| 0 <= r < order.len() ==> order[r] < files.len()
    &&& forall|i: int| 0 <= i < files.len() ==> #[trigger] listed(order, i)
    &&& forall|r1: int, r2: int| #![trigger order[r1], order[r2]]
        0 <= r1 < r2 < order.len() ==> path_before(files, order[r1] as int, order[r2] as int)
}

/// The bytes of the paths and hashes of the files, in the given order.
pub open spec fn files_bytes(files: Seq<ScannedFile>, order: Seq<usize>, n: int) -> Seq<u8>
    decreases n,
{
    if n <= 0 {
        Seq::empty()
    } else {
        files_bytes(files, order, n - 1) + encode_utf8(files[order[n - 1] as int].path@) + encode_utf8(files[order[n - 1] as int].hash@)
    }
}

/// The project hash: the digest of the project path followed by each file's path and
/// hash, files in path order.
pub open spec fn project_hash_text(project_path: Seq<char>, files: Seq<ScannedFile>, order: Seq<usize>) -> Seq<char> {
    sha256_hex_text(encode_utf8(project_path) + files_bytes(files, order, order.len() as int))
}

proof fn lemma_path_before_transitive(files: Seq<ScannedFile>, a: int, b: int, c: int)
    requires
        path_before(files, a, b),
        path_before(files, b, c),
    ensures
        path_before(files, a, c),
{
    let pa = files[a].path@;
    let pb = files[b].path@;
    let pc = files[c].path@;
    if name_lt(pa, pb) && name_lt(pb, pc) {
        lemma_name_lt_transitive(pa, pb, pc);
    }
}

proof fn lemma_path_before_asymmetric(files: Seq<ScannedFile>, a: int, b: int)
    requires
        path_before(files, a, b),
    ensures
        !path_before(files, b, a),
{
    if path_before(files, b, a) {
        lemma_path_before_transitive(files, a, b, a);
        lemma_name_lt_irreflexive(files[a].path@);
    }
}

/// The file indices sorted by path, files with equal paths in their order.
#[verifier::rlimit(40)]
fn sort_by_path(files: &[ScannedFile]) -> (order: Vec<usize>)
    ensures
        path_order(files@, order@),
{
    let ghost fs = files@;
    let n = files.len();
    let mut order: Vec<usize> = Vec::new();
    let ghost mut inv: Seq<int> = Seq::empty();
    let mut k: usize = 0;
    while k < n
        invariant
            fs == files@,
            n == files.len(),
            k <= n,
            order.len() == k,
            forall|m: int| 0 <= m < order.len() ==> order@[m] < k,
            forall|m1: int, m2: int| #![trigger order@[m1], order@[m2]]
                0 <= m1 < m2 < order.len() ==> path_before(fs, order@[m1] as int, order@[m2] as int),
            inv.len() == k,
            forall|j: int| #![trigger inv[j]] 0 <= j < k ==> 0 <= inv[j] < order.len() && order@[inv[j]] == j,
        decreases n - k,
    {
        let key = chars_of(files[k].path.as_str());
        let mut pos: usize = 0;
        while pos < order.len()
            && !crate::domain::doc_generator::directory_tree::name_less_pub(key.as_slice(), chars_of(files[order[pos]].path.as_str()).as_slice())
            invariant
                fs == files@,
                n == files.len(),
                key@ == fs[k as int].path@,
                k < n,
                pos <= order.len(),
                forall|m: int| 0 <= m < order.len() ==> order@[m] < k,
                forall|m: int| 0 <= m < pos ==> !name_lt(fs[k as int].path@, fs[order@[m] as int].path@),
            decreases order.len() - pos,
        {
            pos = pos + 1;
        }
        let ghost old_order = order@;
        let ghost old_inv = inv;
        order.insert(pos, k);
        proof {
            old_order.insert_ensures(pos as int, k);
            assert forall|m1: int, m2: int| #![trigger order@[m1], order@[m2]] 0 <= m1 < m2 < order.len()
                implies path_before(fs, order@[m1] as int, order@[m2] as int) by {
                let a = order@[m1] as int;
                let b = order@[m2] as int;
                if m2 == pos {
                    assert(a == old_order[m1]);
                    assert(a < k);
                    assert(!name_lt(fs[k as int].path@, fs[a].path@));
                    if fs[a].path@ != fs[k as int].path@ {
                        lemma_name_lt_total(fs[a].path@, fs[k as int].path@);
                    }
                } else if m1 == pos {
                    assert(b == old_order[m2 - 1]);
                    let c = old_order[pos as int] as int;
                    assert(name_lt(fs[k as int].path@, fs[c].path@));
                    assert(path_before(fs, k as int, c));
                    if m2 - 1 > pos {
                        assert(path_before(fs, old_order[pos as int] as int, old_order[m2 - 1] as int));
                        lemma_path_before_transitive(fs, k as int, c, b);
                    }
                } else {
                    let o1 = if m1 < pos { m1 } else { m1 - 1 };
                    let o2 = if m2 < pos { m2 } else { m2 - 1 };
                    assert(a == old_order[o1]);
                    assert(b == old_order[o2]);
                    assert(path_before(fs, old_order[o1] as int, old_order[o2] as int));
                }
            }
            inv = Seq::new((k + 1) as nat, |j: int| if j == k { pos as int } else if old_inv[j] >= pos { old_inv[j] + 1 } else { old_inv[j] });
            assert forall|j: int| #![trigger inv[j]] 0 <= j < k + 1 implies 0 <= inv[j] < order.len() && order@[inv[j]] == j by {
                if j < k {
                    assert(old_order[old_inv[j]] == j);
                }
            }
        }
        k = k + 1;
    }
    proof {
        assert forall|i: int| 0 <= i < fs.len() implies #[trigger] listed(order@, i) by {
            assert(order@[inv[i]] == i);
        }
    }
    order
}

/// The project hash of a scan: the digest of the project path and of every file's path
/// and content hash, files sorted by path.
pub fn project_hash(project_path: &str, files: &[ScannedFile]) -> (h: String)
    ensures
        exists|order: Seq<usize>| path_order(files@, order) && h@ == project_hash_text(project_path@, files@, order),
{
    let order = sort_by_path(files);
    let mut bytes: Vec<u8> = Vec::new();
    push_utf8(&mut bytes, project_path);
    let mut r: usize = 0;
    while r < order.len()
        invariant
            path_order(files@, order@),
            r <= order.len(),
            bytes@ == encode_utf8(project_path@) + files_bytes(files@, order@, r as int),
        decreases order.len() - r,
    {
        let f = &files[order[r]];
        push_utf8(&mut bytes, f.path.as_str());
        push_utf8(&mut bytes, f.hash.as_str());
        assert(bytes@ =~= encode_utf8(project_path@) + files_bytes(files@, order@, r + 1));
        r = r + 1;
    }
    sha256_hex(bytes.as_slice())
}

/// Two orders that both sort the files by path are the same: the project hash does not
/// depend on the order in which the scan listed the files, only on their paths and
/// hashes.
pub proof fn lemma_path_order_unique(files: Seq<ScannedFile>, o1: Seq<usize>, o2: Seq<usize>)
    requires
        path_order(files, o1),
        path_order(files, o2),
    ensures
        o1 == o2,
{
    lemma_orders_agree_from(files, o1, o2, 0);
}

proof fn lemma_unique_position(files: Seq<ScannedFile>, o: Seq<usize>, q1: int, q2: int)
    requires
        path_order(files, o),
        0 <= q1 < o.len(),
        0 <= q2 < o.len(),
        o[q1] == o[q2],
    ensures
        q1 == q2,
{
    if q1 < q2 {
        assert(path_before(files, o[q1] as int, o[q2] as int));
        lemma_path_before_asymmetric(files, o[q1] as int, o[q2] as int);
    } else if q2 < q1 {
        assert(path_before(files, o[q2] as int, o[q1] as int));
        lemma_path_before_asymmetric(files, o[q2] as int, o[q1] as int);
    }
}

proof fn lemma_orders_agree_from(files: Seq<ScannedFile>, o1: Seq<usize>, o2: Seq<usize>, r: int)
    requires
        path_order(files, o1),
        path_order(files, o2),
        0 <= r <= o1.len(),
        forall|q: int| 0 <= q < r ==> o1[q] == o2[q],
    ensures
        o1 == o2,
    decreases o1.len() - r,
{
    if r == o1.len() {
        assert(o1 =~= o2);
    } else {
        let x = o1[r] as int;
        let y = o2[r] as int;
        if x != y {
            assert(listed(o1, y));
            assert(listed(o2, x));
            let q = choose|q: int| 0 <= q < o1.len() && o1[q] == y;
            let q2 = choose|q2: int| 0 <= q2 < o2.len() && o2[q2] == x;
            if q < r {
                assert(o2[q] == y);
                lemma_unique_position(files, o2, q, r);
            }
            if q2 < r {
                assert(o1[q2] == x);
                lemma_unique_position(files, o1, q2, r);
            }
            assert(q != r);
            assert(q2 != r);
            assert(path_before(files, o1[r] as int, o1[q] as int));
            assert(path_before(files, o2[r] as int, o2[q2] as int));
            lemma_path_before_asymmetric(files, x, y);
        }
        lemma_orders_agree_from(files, o1, o2, r + 1);
    }
}

/// Index of the first scanned file with path `path`.
pub open spec fn first_with_path(files: Seq<ScannedFile>, path: Seq<char>) -> Option<int>
    decreases files.len(),
{
    if files.len() == 0 {
        None
    } else if files[0].path@ == path {
        Some(0)
    } else {
        match first_with_path(files.drop_first(), path) {
            Some(i) => Some(i + 1),
            None => None,
        }
    }
}

/// The content hash the scan recorded for the file at `path` (the first such file); empty
/// when the scan has no file there.
pub fn file_hash_for(files: &[ScannedFile], path: &str) -> (h: String)
    ensures
        match first_with_path(files@, path@) {
            Some(i) => h@ == files@[i].hash@,
            None => h@ == Seq::<char>::empty(),
        },
{
    let mut i: usize = 0;
    assert(files@.skip(0) =~= files@);
    while i < files.len()
        invariant
            i <= files.len(),
            first_with_path(files@, path@) == match first_with_path(files@.skip(i as int), path@) {
                Some(k) => Some(k + i),
                None => None,
            },
        decreases files.len() - i,
    {
        assert(files@.skip(i as int).drop_first() =~= files@.skip(i + 1));
        if str_eq(files[i].path.as_str(), path) {
            return String::from_str(files[i].hash.as_str());
        }
        i = i + 1;
    }
    proof {
        reveal_strlit("");
    }
    String::from_str("")
}

} // verus!
