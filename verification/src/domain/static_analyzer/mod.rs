//! Static analysis: language table, per-file metrics, import/export and function/class
//! extraction, and the dependency graph. The differences between languages live in the
//! language table; the walk over the syntax tree is one implementation for all of them.
pub mod dependency_graph;
pub mod language_spec;

use crate::domain::static_analyzer::language_spec::{
    find_spec_for_extension, language_for, lists, strs_view, Grammar, LanguageSpec, LanguageSpecView,
};
use crate::models::analysis::{ClassInfo, CodeMetrics, FunctionInfo, StaticAnalysisResult};
use crate::models::error::{AppError, AppResult};
use crate::text::{chars_of, line_count, line_count_exec, push_str, string_of, trim, trim_exec};
use vstd::prelude::*;
use vstd::string::StringExecFns;

verus! {

#[verifier::external_type_specification]
#[verifier::external_body]
pub struct ExLanguage(tree_sitter::Language);

#[verifier::external_type_specification]
#[verifier::external_body]
pub struct ExParser(tree_sitter::Parser);

/// One node of a syntax tree as the analysis reads it. The nodes of a tree are listed
/// in the order of a depth-first walk from the root; `depth` counts the steps from the
/// root and `field` is the field name under which the node hangs in its parent.
#[derive(Debug, Clone)]
pub struct SyntaxNode {
    pub kind: String,
    pub field: Option<String>,
    pub depth: u32,
    pub start_byte: usize,
    pub end_byte: usize,
    pub start_row: usize,
    pub end_row: usize,
}

/// Depths of a depth-first walk: the root first at depth 0, each next node at most one
/// step deeper than the one before it.
pub open spec fn walk_order(ns: Seq<SyntaxNode>) -> bool {
    &&& ns.len() > 0
    &&& ns[0].depth == 0
    &&& forall|i: int| 0 < i < ns.len() ==> #[trigger] ns[i].depth <= ns[i - 1].depth + 1
}

/// The grammar of a language as tree-sitter's `Language` (the `LANGUAGE` constant of the
/// grammar crate, `LANGUAGE_TYPESCRIPT` for TypeScript).
#[verifier::external_body]
fn grammar_language(grammar: Grammar) -> tree_sitter::Language {
    match grammar {
        Grammar::TypeScript => tree_sitter_typescript::LANGUAGE_TYPESCRIPT.into(),
        Grammar::JavaScript => tree_sitter_javascript::LANGUAGE.into(),
        Grammar::Rust => tree_sitter_rust::LANGUAGE.into(),
        Grammar::Python => tree_sitter_python::LANGUAGE.into(),
        Grammar::Java => tree_sitter_java::LANGUAGE.into(),
        Grammar::Go => tree_sitter_go::LANGUAGE.into(),
        Grammar::CSharp => tree_sitter_c_sharp::LANGUAGE.into(),
        Grammar::C => tree_sitter_c::LANGUAGE.into(),
        Grammar::Cpp => tree_sitter_cpp::LANGUAGE.into(),
    }
}

/// Whether tree-sitter accepts the grammar (`Parser::set_language` succeeds; it fails
/// only when the grammar was generated for an incompatible tree-sitter version).
pub uninterp spec fn grammar_loads(grammar: Grammar) -> bool;

/// The nodes of the syntax tree that tree-sitter builds for a source with a grammar, in
/// the order of a depth-first walk.
pub uninterp spec fn syntax_nodes(grammar: Grammar, source: Seq<char>) -> Seq<SyntaxNode>;

/// A tree-sitter parser together with the grammar it was given.
struct GrammarParser {
    grammar: Grammar,
    parser: tree_sitter::Parser,
}

/// `tree_sitter::Parser::new` and `Parser::set_language` with the grammar's language; the
/// message of the `LanguageError` when the grammar is refused.
#[verifier::external_body]
fn parser_for(grammar: Grammar) -> (res: Result<GrammarParser, String>)
    ensures
        res is Ok == grammar_loads(grammar),
        res matches Ok(p) ==> p.grammar == grammar,
{
    let mut parser = tree_sitter::Parser::new();
    match parser.set_language(&grammar_language(grammar)) {
        Ok(()) => Ok(GrammarParser { grammar, parser }),
        Err(e) => Err(e.to_string()),
    }
}

/// `tree_sitter::Parser::parse` (which gives a tree whenever a language is set, as it is
/// for every `GrammarParser`), then the nodes of the tree read with a `TreeCursor`
/// (`goto_first_child`, `goto_next_sibling`, `goto_parent`), each with its kind, field
/// name, cursor depth, byte range and rows.
#[verifier::external_body]
fn parse_syntax(p: &mut GrammarParser, source: &str) -> (res: Vec<SyntaxNode>)
    ensures
        res@ == syntax_nodes(old(p).grammar, source@),
        walk_order(res@),
        final(p).grammar == old(p).grammar,
{
    let tree = p.parser.parse(source, None).unwrap();
    let (mut cursor, mut nodes) = (tree.walk(), Vec::new());
    loop {
        let n = cursor.node();
        nodes.push(SyntaxNode { kind: n.kind().to_string(), field: cursor.field_name().map(|f| f.to_string()),
            depth: cursor.depth(), start_byte: n.start_byte(), end_byte: n.end_byte(),
            start_row: n.start_position().row, end_row: n.end_position().row });
        if cursor.goto_first_child() { continue; }
        while !cursor.goto_next_sibling() {
            if !cursor.goto_parent() { return nodes; }
        }
    }
}

/// The text of a source between two byte offsets (std `str::get`), empty when the
/// offsets are out of range or not on character boundaries.
pub open spec fn source_slice(source: Seq<char>, start: nat, end: nat) -> Seq<char> {
    let b = vstd::utf8::encode_utf8(source);
    if start <= end && end <= b.len() && vstd::utf8::is_char_boundary(b, start as int)
        && vstd::utf8::is_char_boundary(b, end as int) {
        vstd::utf8::decode_utf8(b.subrange(start as int, end as int))
    } else {
        Seq::empty()
    }
}

/// std `str::get` with a byte range, the empty text where it gives `None`.
#[verifier::external_body]
fn slice_text(source: &str, start: usize, end: usize) -> (text: String)
    ensures
        text@ == source_slice(source@, start as nat, end as nat),
{
    source.get(start..end).unwrap_or_default().to_string()
}

// ---------------------------------------------------------------------
// What the walk computes
// ---------------------------------------------------------------------

pub open spec fn kind_in(kinds: Seq<Seq<char>>, node: SyntaxNode) -> bool {
    kinds.contains(node.kind@)
}

/// Number of decision points among the first `n` nodes.
pub open spec fn decisions(ns: Seq<SyntaxNode>, sv: LanguageSpecView, n: int) -> nat
    decreases n,
{
    if n <= 0 {
        0
    } else {
        decisions(ns, sv, n - 1) + if kind_in(sv.decision_kinds, ns[n - 1]) { 1nat } else { 0nat }
    }
}

/// The last node before index `j` at depth `d`.
pub open spec fn last_at_depth(ns: Seq<SyntaxNode>, d: int, j: int) -> Option<int>
    decreases j,
{
    if j <= 0 {
        None
    } else if ns[j - 1].depth == d {
        Some(j - 1)
    } else {
        last_at_depth(ns, d, j - 1)
    }
}

/// The parent of a node: the last node before it one step shallower.
pub open spec fn parent_of(ns: Seq<SyntaxNode>, i: int) -> Option<int> {
    last_at_depth(ns, ns[i].depth - 1, i)
}

proof fn lemma_last_at_depth_range(ns: Seq<SyntaxNode>, d: int, j: int)
    ensures
        last_at_depth(ns, d, j) matches Some(k) ==> 0 <= k < j && ns[k].depth == d,
    decreases j,
{
    if j > 0 {
        lemma_last_at_depth_range(ns, d, j - 1);
    }
}

/// Nesting depth of a node: the number of block nodes among the node and its ancestors.
pub open spec fn block_depth(ns: Seq<SyntaxNode>, sv: LanguageSpecView, i: int) -> nat
    decreases i,
{
    if i < 0 || i >= ns.len() {
        0
    } else {
        (if kind_in(sv.block_kinds, ns[i]) { 1nat } else { 0nat }) + match last_at_depth(ns, ns[i].depth - 1, i) {
            Some(j) => if 0 <= j < i { block_depth(ns, sv, j) } else { 0 },
            None => 0,
        }
    }
}

/// The deepest nesting among the first `n` nodes (0 for none).
pub open spec fn max_block_depth(ns: Seq<SyntaxNode>, sv: LanguageSpecView, n: int) -> nat
    decreases n,
{
    if n <= 0 {
        0
    } else {
        let m = max_block_depth(ns, sv, n - 1);
        let b = block_depth(ns, sv, n - 1);
        if b > m { b } else { m }
    }
}

pub open spec fn is_name_field(field: Option<String>) -> bool {
    match field {
        Some(f) => f@ == "name"@,
        None => false,
    }
}

/// The first child of node `i`, from index `j` on, that hangs under the field "name".
pub open spec fn name_child_from(ns: Seq<SyntaxNode>, i: int, j: int) -> Option<int>
    decreases ns.len() - j,
{
    if j <= i || j >= ns.len() || ns[j].depth <= ns[i].depth {
        None
    } else if ns[j].depth == ns[i].depth + 1 && is_name_field(ns[j].field) {
        Some(j)
    } else {
        name_child_from(ns, i, j + 1)
    }
}

/// The trimmed source text of a node.
pub open spec fn node_text(source: Seq<char>, node: SyntaxNode) -> Seq<char> {
    trim(source_slice(source, node.start_byte as nat, node.end_byte as nat))
}

/// The name of a function or class node: the text of its "name" child, or "<anonymous>".
pub open spec fn node_name(source: Seq<char>, ns: Seq<SyntaxNode>, i: int) -> Seq<char> {
    match name_child_from(ns, i, i + 1) {
        Some(j) => node_text(source, ns[j]),
        None => "<anonymous>"@,
    }
}

/// The next 32-bit value, wrapping around.
pub open spec fn succ_u32(r: u32) -> u32 {
    if r == u32::MAX { 0 } else { (r + 1) as u32 }
}

/// One-based line number of a zero-based row, in 32 bits.
pub open spec fn line_no(row: usize) -> u32 {
    succ_u32(row as u32)
}

/// (name, first line, last line) of the nodes of the given kinds among the first `n`.
pub open spec fn spans(ns: Seq<SyntaxNode>, kinds: Seq<Seq<char>>, source: Seq<char>, n: int) -> Seq<(Seq<char>, u32, u32)>
    decreases n,
{
    if n <= 0 {
        Seq::empty()
    } else {
        spans(ns, kinds, source, n - 1) + if kind_in(kinds, ns[n - 1]) {
            seq![(node_name(source, ns, n - 1), line_no(ns[n - 1].start_row), line_no(ns[n - 1].end_row))]
        } else {
            Seq::empty()
        }
    }
}

/// The trimmed texts of the nodes of the given kinds among the first `n`.
pub open spec fn texts(ns: Seq<SyntaxNode>, kinds: Seq<Seq<char>>, source: Seq<char>, n: int) -> Seq<Seq<char>>
    decreases n,
{
    if n <= 0 {
        Seq::empty()
    } else {
        texts(ns, kinds, source, n - 1) + if kind_in(kinds, ns[n - 1]) {
            seq![node_text(source, ns[n - 1])]
        } else {
            Seq::empty()
        }
    }
}

pub open spec fn function_view(f: FunctionInfo) -> (Seq<char>, u32, u32) {
    (f.name@, f.start_line, f.end_line)
}

pub open spec fn class_view(c: ClassInfo) -> (Seq<char>, u32, u32) {
    (c.name@, c.start_line, c.end_line)
}

/// The static analysis result of a file from its syntax nodes.
pub open spec fn analysis_matches(
    r: StaticAnalysisResult,
    file_path: Seq<char>,
    source: Seq<char>,
    sv: LanguageSpecView,
    ns: Seq<SyntaxNode>,
) -> bool {
    let n = ns.len() as int;
    &&& r.file_path@ == file_path
    &&& r.language@ == sv.name
    &&& r.metrics.loc == line_count(source) as u32
    &&& r.metrics.cyclomatic_complexity == succ_u32(decisions(ns, sv, n) as u32)
    &&& r.metrics.max_nest_depth == max_block_depth(ns, sv, n) as u32
    &&& r.imports@.map_values(|s: String| s@) == texts(ns, sv.import_kinds, source, n)
    &&& r.exports@.map_values(|s: String| s@) == texts(ns, sv.export_kinds, source, n)
    &&& r.functions@.map_values(|f: FunctionInfo| function_view(f)) == spans(ns, sv.function_kinds, source, n)
    &&& r.classes@.map_values(|c: ClassInfo| class_view(c)) == spans(ns, sv.class_kinds, source, n)
}

/// The nodes may come from a depth-first walk: the first at depth 0, each next one at
/// most one step deeper than the one before it.
pub open spec fn depths_ok(ns: Seq<SyntaxNode>) -> bool {
    &&& ns.len() > 0 ==> ns[0].depth == 0
    &&& forall|i: int| 0 < i < ns.len() ==> #[trigger] ns[i].depth <= ns[i - 1].depth + 1
}

fn kind_listed(kinds: &Vec<&'static str>, node: &SyntaxNode) -> (res: bool)
    ensures
        res == strs_view(kinds@).contains(node.kind@),
{
    lists(kinds, chars_of(node.kind.as_str()).as_slice())
}

fn is_name_field_exec(field: &Option<String>) -> (res: bool)
    ensures
        res == is_name_field(*field),
{
    match field {
        Some(f) => {
            let cs = chars_of(f.as_str());
            proof {
                reveal_strlit("name");
            }
            let r = cs.len() == 4 && cs[0] == 'n' && cs[1] == 'a' && cs[2] == 'm' && cs[3] == 'e';
            proof {
                if r {
                    assert(cs@ =~= "name"@);
                }
                if f@ == "name"@ {
                    assert(cs@[0] == 'n' && cs@[1] == 'a' && cs@[2] == 'm' && cs@[3] == 'e');
                }
            }
            r
        },
        None => false,
    }
}

fn node_text_exec(source: &str, node: &SyntaxNode) -> (res: String)
    ensures
        res@ == node_text(source@, *node),
{
    let raw = slice_text(source, node.start_byte, node.end_byte);
    let t = trim_exec(chars_of(raw.as_str()).as_slice());
    string_of(t.as_slice())
}

fn node_name_exec(source: &str, ns: &Vec<SyntaxNode>, i: usize) -> (res: String)
    requires
        i < ns.len(),
    ensures
        res@ == node_name(source@, ns@, i as int),
{
    let d = ns[i].depth;
    let mut j: usize = i + 1;
    while j < ns.len() && ns[j].depth > d
        invariant
            i < j <= ns.len(),
            d == ns@[i as int].depth,
            name_child_from(ns@, i as int, i + 1) == name_child_from(ns@, i as int, j as int),
        decreases ns.len() - j,
    {
        if ns[j].depth - 1 == d && is_name_field_exec(&ns[j].field) {
            return node_text_exec(source, &ns[j]);
        }
        j = j + 1;
    }
    proof {
        reveal_strlit("<anonymous>");
    }
    String::from_str("<anonymous>")
}

fn line_no_exec(row: usize) -> (n: u32)
    ensures
        n == line_no(row),
{
    let r = row as u32;
    if r == u32::MAX { 0 } else { r + 1 }
}

proof fn lemma_no_negative_depth(ns: Seq<SyntaxNode>, j: int)
    ensures
        last_at_depth(ns, -1, j) is None,
{
    lemma_last_at_depth_range(ns, -1, j);
}

/// `stack[l]` is the nesting depth of the last node at depth `l` before index `i`.
pub open spec fn stack_ok(stack: Seq<u64>, ns: Seq<SyntaxNode>, sv: LanguageSpecView, i: int) -> bool {
    &&& i == 0 ==> stack.len() == 0
    &&& i > 0 ==> stack.len() == ns[i - 1].depth + 1
    &&& forall|l: int| #![trigger stack[l]] 0 <= l < stack.len() ==> {
        &&& last_at_depth(ns, l, i) matches Some(k)
        &&& stack[l] == block_depth(ns, sv, k)
        &&& stack[l] <= l + 1
    }
}

/// The nesting depth of node `i`, from the depths of the last nodes at each level.
fn nest_step(stack: &mut Vec<u64>, Ghost(ns): Ghost<Seq<SyntaxNode>>, Ghost(sv): Ghost<LanguageSpecView>, i: usize, d: u32, is_block: bool) -> (bd: u64)
    requires
        depths_ok(ns),
        i < ns.len(),
        d == ns[i as int].depth,
        is_block == kind_in(sv.block_kinds, ns[i as int]),
        stack_ok(old(stack)@, ns, sv, i as int),
    ensures
        stack_ok(final(stack)@, ns, sv, i + 1),
        bd == block_depth(ns, sv, i as int),
        bd <= d + 1,
{
    let parent_depth: u64 = if d == 0 {
        proof {
            lemma_no_negative_depth(ns, i as int);
        }
        0
    } else {
        proof {
            if i == 0 {
                assert(ns[0].depth == 0);
            } else {
                assert(ns[i as int].depth <= ns[i - 1].depth + 1);
            }
        }
        let p = stack[(d - 1) as usize];
        proof {
            lemma_last_at_depth_range(ns, d - 1, i as int);
        }
        p
    };
    let bd: u64 = if is_block { parent_depth + 1 } else { parent_depth };
    let ghost old_stack = stack@;
    proof {
        if i > 0 {
            assert(ns[i as int].depth <= ns[i - 1].depth + 1);
        }
    }
    stack.truncate(d as usize);
    stack.push(bd);
    proof {
        assert forall|l: int| #![trigger stack@[l]] 0 <= l < stack.len() implies {
            &&& last_at_depth(ns, l, i + 1) matches Some(k)
            &&& stack@[l] == block_depth(ns, sv, k)
            &&& stack@[l] <= l + 1
        } by {
            if l < d {
                assert(stack@[l] == old_stack[l]);
            }
        }
    }
    bd
}

/// The static analysis of a file from the nodes of its syntax tree: line count,
/// cyclomatic complexity (one plus the decision points), deepest block nesting, the
/// texts of the import and export nodes and the function and class nodes with their
/// names and lines, all in walk order.
#[verifier::rlimit(40)]
pub fn analyze_nodes(file_path: &str, source: &str, spec: &LanguageSpec, nodes: &Vec<SyntaxNode>) -> (r: StaticAnalysisResult)
    requires
        depths_ok(nodes@),
    ensures
        analysis_matches(r, file_path@, source@, spec.view(), nodes@),
{
    let ghost sv = spec.view();
    let ghost ns = nodes@;
    let mut decision_count: u64 = 0;
    let mut max_depth: u64 = 0;
    let mut stack: Vec<u64> = Vec::new();
    let mut imports: Vec<String> = Vec::new();
    let mut exports: Vec<String> = Vec::new();
    let mut functions: Vec<FunctionInfo> = Vec::new();
    let mut classes: Vec<ClassInfo> = Vec::new();
    let mut i: usize = 0;
    while i < nodes.len()
        invariant
            sv == spec.view(),
            ns == nodes@,
            depths_ok(ns),
            i <= nodes.len(),
            decision_count == decisions(ns, sv, i as int),
            decision_count <= i,
            max_depth == max_block_depth(ns, sv, i as int),
            stack_ok(stack@, ns, sv, i as int),
            max_depth <= u32::MAX + 1,
            imports@.map_values(|s: String| s@) == texts(ns, sv.import_kinds, source@, i as int),
            exports@.map_values(|s: String| s@) == texts(ns, sv.export_kinds, source@, i as int),
            functions@.map_values(|f: FunctionInfo| function_view(f)) == spans(ns, sv.function_kinds, source@, i as int),
            classes@.map_values(|c: ClassInfo| class_view(c)) == spans(ns, sv.class_kinds, source@, i as int),
        decreases nodes.len() - i,
    {
        let node = &nodes[i];
        let d = node.depth;
        if kind_listed(&spec.decision_kinds, node) {
            decision_count = decision_count + 1;
        }
        let is_block = kind_listed(&spec.block_kinds, node);
        let bd = nest_step(&mut stack, Ghost(ns), Ghost(sv), i, d, is_block);
        if bd > max_depth {
            max_depth = bd;
        }
        if kind_listed(&spec.function_kinds, node) {
            let name = node_name_exec(source, nodes, i);
            let ghost prev = functions@.map_values(|f: FunctionInfo| function_view(f));
            functions.push(FunctionInfo { name, start_line: line_no_exec(node.start_row), end_line: line_no_exec(node.end_row) });
            assert(functions@.map_values(|f: FunctionInfo| function_view(f)) =~= prev.push(function_view(functions@.last())));
        }
        if kind_listed(&spec.class_kinds, node) {
            let name = node_name_exec(source, nodes, i);
            let ghost prev = classes@.map_values(|c: ClassInfo| class_view(c));
            classes.push(ClassInfo { name, start_line: line_no_exec(node.start_row), end_line: line_no_exec(node.end_row) });
            assert(classes@.map_values(|c: ClassInfo| class_view(c)) =~= prev.push(class_view(classes@.last())));
        }
        if kind_listed(&spec.import_kinds, node) {
            let ghost prev = imports@.map_values(|s: String| s@);
            imports.push(node_text_exec(source, node));
            assert(imports@.map_values(|s: String| s@) =~= prev.push(imports@.last()@));
        }
        if kind_listed(&spec.export_kinds, node) {
            let ghost prev = exports@.map_values(|s: String| s@);
            exports.push(node_text_exec(source, node));
            assert(exports@.map_values(|s: String| s@) =~= prev.push(exports@.last()@));
        }
        i = i + 1;
    }
    let loc = line_count_exec(chars_of(source).as_slice()) as u32;
    let dc = decision_count as u32;
    let cyclomatic = if dc == u32::MAX { 0 } else { dc + 1 };
    let nest = max_depth as u32;
    StaticAnalysisResult {
        file_path: String::from_str(file_path),
        language: String::from_str(spec.name),
        metrics: CodeMetrics { loc, cyclomatic_complexity: cyclomatic, max_nest_depth: nest },
        imports,
        exports,
        functions,
        classes,
    }
}

pub open spec fn unsupported_extension_error(ext: Seq<char>) -> Seq<char> {
    "未対応の拡張子です: "@ + ext
}

pub open spec fn parser_setup_error(message: Seq<char>) -> Seq<char> {
    "パーサ初期化に失敗しました: "@ + message
}

fn static_error(prefix: &str, detail: &str) -> (e: AppError)
    ensures
        e is Static && e.is_recoverable(),
        e.message_view() == prefix@ + detail@,
{
    let mut m = String::from_str(prefix);
    push_str(&mut m, detail);
    AppError::static_analysis(m)
}

pub struct StaticAnalyzer;

impl StaticAnalyzer {
    /// Whether the language of a file extension is known.
    pub fn supports_extension(ext: &str) -> (res: bool)
        ensures
            res == language_for(ext@) is Some,
    {
        find_spec_for_extension(ext).is_some()
    }

    /// Analyses one file. Its extension selects the language; the file is parsed with
    /// that language's grammar and its syntax nodes analysed. An unknown extension and a
    /// grammar that cannot be loaded are recoverable static-analysis errors.
    pub fn analyze(file_path: &str, source: &str, extension: &str) -> (res: AppResult<StaticAnalysisResult>)
        ensures
            match language_for(extension@) {
                None => res matches Err(e) && e is Static && e.is_recoverable()
                    && e.message_view() == unsupported_extension_error(extension@),
                Some(sv) => if grammar_loads(sv.grammar) {
                    res matches Ok(r) && analysis_matches(r, file_path@, source@, sv, syntax_nodes(sv.grammar, source@))
                } else {
                    res matches Err(e) && e is Static && e.is_recoverable()
                        && exists|m: Seq<char>| e.message_view() == parser_setup_error(m)
                },
            },
    {
        let spec = match find_spec_for_extension(extension) {
            Some(s) => s,
            None => return Err(static_error("未対応の拡張子です: ", extension)),
        };
        let mut parser = match parser_for(spec.grammar) {
            Ok(p) => p,
            Err(message) => {
                let e = static_error("パーサ初期化に失敗しました: ", message.as_str());
                assert(e.message_view() == parser_setup_error(message@));
                return Err(e);
            },
        };
        let nodes = parse_syntax(&mut parser, source);
        assert(depths_ok(nodes@));
        Ok(analyze_nodes(file_path, source, &spec, &nodes))
    }
}

} // verus!
