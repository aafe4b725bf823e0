//! The per-language tree-sitter settings. Adding a language is adding one entry to the
//! table; the walk over the syntax tree is the same for every language.
use crate::text::{ascii_lower_seq, ascii_lower_chars, chars_of};
use vstd::prelude::*;

verus! {

/// The tree-sitter grammar of a language.
#[derive(Debug, Clone, Copy, PartialEq, Eq, Structural)]
pub enum Grammar {
    TypeScript,
    JavaScript,
    Rust,
    Python,
    Java,
    Go,
    CSharp,
    C,
    Cpp,
}

/// Settings of one language: its file extensions, its grammar, and the node kinds that
/// count as functions, classes, decision points (cyclomatic complexity), blocks (nesting
/// depth), imports and exports.
#[derive(Debug, Clone)]
pub struct LanguageSpec {
    pub name: &'static str,
    pub extensions: Vec<&'static str>,
    pub grammar: Grammar,
    pub function_kinds: Vec<&'static str>,
    pub class_kinds: Vec<&'static str>,
    pub decision_kinds: Vec<&'static str>,
    pub block_kinds: Vec<&'static str>,
    pub import_kinds: Vec<&'static str>,
    pub export_kinds: Vec<&'static str>,
}

pub struct LanguageSpecView {
    pub name: Seq<char>,
    pub extensions: Seq<Seq<char>>,
    pub grammar: Grammar,
    pub function_kinds: Seq<Seq<char>>,
    pub class_kinds: Seq<Seq<char>>,
    pub decision_kinds: Seq<Seq<char>>,
    pub block_kinds: Seq<Seq<char>>,
    pub import_kinds: Seq<Seq<char>>,
    pub export_kinds: Seq<Seq<char>>,
}

pub open spec fn strs_view(v: Seq<&'static str>) -> Seq<Seq<char>> {
    v.map_values(|s: &'static str| s@)
}

impl LanguageSpec {
    pub open spec fn view(&self) -> LanguageSpecView {
        LanguageSpecView {
            name: self.name@,
            extensions: strs_view(self.extensions@),
            grammar: self.grammar,
            function_kinds: strs_view(self.function_kinds@),
            class_kinds: strs_view(self.class_kinds@),
            decision_kinds: strs_view(self.decision_kinds@),
            block_kinds: strs_view(self.block_kinds@),
            import_kinds: strs_view(self.import_kinds@),
            export_kinds: strs_view(self.export_kinds@),
        }
    }
}
pub open spec fn typescript_spec() -> LanguageSpecView {
    LanguageSpecView {
        name: "typescript"@,
        extensions: seq!["ts"@, "tsx"@],
        grammar: Grammar::TypeScript,
        function_kinds: seq!["function_declaration"@, "method_definition"@, "arrow_function"@],
        class_kinds: seq!["class_declaration"@, "interface_declaration"@],
        decision_kinds: seq!["if_statement"@, "for_statement"@, "for_in_statement"@, "while_statement"@, "do_statement"@, "case_clause"@, "catch_clause"@, "ternary_expression"@, "binary_expression"@],
        block_kinds: seq!["statement_block"@],
        import_kinds: seq!["import_statement"@],
        export_kinds: seq!["export_statement"@],
    }
}

pub open spec fn javascript_spec() -> LanguageSpecView {
    LanguageSpecView {
        name: "javascript"@,
        extensions: seq!["js"@, "jsx"@],
        grammar: Grammar::JavaScript,
        function_kinds: seq!["function_declaration"@, "method_definition"@, "arrow_function"@],
        class_kinds: seq!["class_declaration"@],
        decision_kinds: seq!["if_statement"@, "for_statement"@, "for_in_statement"@, "while_statement"@, "do_statement"@, "switch_case"@, "catch_clause"@, "ternary_expression"@],
        block_kinds: seq!["statement_block"@],
        import_kinds: seq!["import_statement"@],
        export_kinds: seq!["export_statement"@],
    }
}

pub open spec fn rust_spec() -> LanguageSpecView {
    LanguageSpecView {
        name: "rust"@,
        extensions: seq!["rs"@],
        grammar: Grammar::Rust,
        function_kinds: seq!["function_item"@],
        class_kinds: seq!["struct_item"@, "enum_item"@, "trait_item"@],
        decision_kinds: seq!["if_expression"@, "if_let_expression"@, "for_expression"@, "while_expression"@, "while_let_expression"@, "match_arm"@],
        block_kinds: seq!["block"@],
        import_kinds: seq!["use_declaration"@],
        export_kinds: Seq::empty(),
    }
}

pub open spec fn python_spec() -> LanguageSpecView {
    LanguageSpecView {
        name: "python"@,
        extensions: seq!["py"@],
        grammar: Grammar::Python,
        function_kinds: seq!["function_definition"@],
        class_kinds: seq!["class_definition"@],
        decision_kinds: seq!["if_statement"@, "for_statement"@, "while_statement"@, "except_clause"@, "conditional_expression"@],
        block_kinds: seq!["block"@],
        import_kinds: seq!["import_statement"@, "import_from_statement"@],
        export_kinds: Seq::empty(),
    }
}

pub open spec fn java_spec() -> LanguageSpecView {
    LanguageSpecView {
        name: "java"@,
        extensions: seq!["java"@],
        grammar: Grammar::Java,
        function_kinds: seq!["method_declaration"@, "constructor_declaration"@],
        class_kinds: seq!["class_declaration"@, "interface_declaration"@],
        decision_kinds: seq!["if_statement"@, "for_statement"@, "enhanced_for_statement"@, "while_statement"@, "do_statement"@, "switch_label"@, "catch_clause"@, "ternary_expression"@],
        block_kinds: seq!["block"@],
        import_kinds: seq!["import_declaration"@],
        export_kinds: Seq::empty(),
    }
}

pub open spec fn go_spec() -> LanguageSpecView {
    LanguageSpecView {
        name: "go"@,
        extensions: seq!["go"@],
        grammar: Grammar::Go,
        function_kinds: seq!["function_declaration"@, "method_declaration"@],
        class_kinds: seq!["type_declaration"@],
        decision_kinds: seq!["if_statement"@, "for_statement"@, "expression_switch_statement"@, "type_switch_statement"@, "select_statement"@],
        block_kinds: seq!["block"@],
        import_kinds: seq!["import_spec"@],
        export_kinds: Seq::empty(),
    }
}

pub open spec fn csharp_spec() -> LanguageSpecView {
    LanguageSpecView {
        name: "csharp"@,
        extensions: seq!["cs"@],
        grammar: Grammar::CSharp,
        function_kinds: seq!["method_declaration"@, "constructor_declaration"@],
        class_kinds: seq!["class_declaration"@, "interface_declaration"@, "struct_declaration"@],
        decision_kinds: seq!["if_statement"@, "for_statement"@, "foreach_statement"@, "while_statement"@, "do_statement"@, "switch_section"@, "catch_clause"@, "conditional_expression"@],
        block_kinds: seq!["block"@],
        import_kinds: seq!["using_directive"@],
        export_kinds: Seq::empty(),
    }
}

pub open spec fn c_spec() -> LanguageSpecView {
    LanguageSpecView {
        name: "c"@,
        extensions: seq!["c"@, "h"@],
        grammar: Grammar::C,
        function_kinds: seq!["function_definition"@],
        class_kinds: seq!["struct_specifier"@],
        decision_kinds: seq!["if_statement"@, "for_statement"@, "while_statement"@, "do_statement"@, "case_statement"@],
        block_kinds: seq!["compound_statement"@],
        import_kinds: seq!["preproc_include"@],
        export_kinds: Seq::empty(),
    }
}

pub open spec fn cpp_spec() -> LanguageSpecView {
    LanguageSpecView {
        name: "cpp"@,
        extensions: seq!["cpp"@, "hpp"@, "cc"@, "cxx"@],
        grammar: Grammar::Cpp,
        function_kinds: seq!["function_definition"@],
        class_kinds: seq!["class_specifier"@, "struct_specifier"@],
        decision_kinds: seq!["if_statement"@, "for_statement"@, "for_range_loop"@, "while_statement"@, "do_statement"@, "case_statement"@, "catch_clause"@],
        block_kinds: seq!["compound_statement"@],
        import_kinds: seq!["preproc_include"@],
        export_kinds: Seq::empty(),
    }
}

/// The language table, in lookup order.
pub open spec fn language_table() -> Seq<LanguageSpecView> {
    seq![typescript_spec(), javascript_spec(), rust_spec(), python_spec(), java_spec(), go_spec(), csharp_spec(), c_spec(), cpp_spec()]
}

fn make_typescript() -> (s: LanguageSpec)
    ensures
        s.view() == typescript_spec(),
{
    let s = LanguageSpec {
        name: "typescript",
        extensions: vec!["ts", "tsx"],
        grammar: Grammar::TypeScript,
        function_kinds: vec!["function_declaration", "method_definition", "arrow_function"],
        class_kinds: vec!["class_declaration", "interface_declaration"],
        decision_kinds: vec!["if_statement", "for_statement", "for_in_statement", "while_statement", "do_statement", "case_clause", "catch_clause", "ternary_expression", "binary_expression"],
        block_kinds: vec!["statement_block"],
        import_kinds: vec!["import_statement"],
        export_kinds: vec!["export_statement"],
    };
    assert(strs_view(s.extensions@) =~= typescript_spec().extensions);
    assert(strs_view(s.function_kinds@) =~= typescript_spec().function_kinds);
    assert(strs_view(s.class_kinds@) =~= typescript_spec().class_kinds);
    assert(strs_view(s.decision_kinds@) =~= typescript_spec().decision_kinds);
    assert(strs_view(s.block_kinds@) =~= typescript_spec().block_kinds);
    assert(strs_view(s.import_kinds@) =~= typescript_spec().import_kinds);
    assert(strs_view(s.export_kinds@) =~= typescript_spec().export_kinds);
    s
}

fn make_javascript() -> (s: LanguageSpec)
    ensures
        s.view() == javascript_spec(),
{
    let s = LanguageSpec {
        name: "javascript",
        extensions: vec!["js", "jsx"],
        grammar: Grammar::JavaScript,
        function_kinds: vec!["function_declaration", "method_definition", "arrow_function"],
        class_kinds: vec!["class_declaration"],
        decision_kinds: vec!["if_statement", "for_statement", "for_in_statement", "while_statement", "do_statement", "switch_case", "catch_clause", "ternary_expression"],
        block_kinds: vec!["statement_block"],
        import_kinds: vec!["import_statement"],
        export_kinds: vec!["export_statement"],
    };
    assert(strs_view(s.extensions@) =~= javascript_spec().extensions);
    assert(strs_view(s.function_kinds@) =~= javascript_spec().function_kinds);
    assert(strs_view(s.class_kinds@) =~= javascript_spec().class_kinds);
    assert(strs_view(s.decision_kinds@) =~= javascript_spec().decision_kinds);
    assert(strs_view(s.block_kinds@) =~= javascript_spec().block_kinds);
    assert(strs_view(s.import_kinds@) =~= javascript_spec().import_kinds);
    assert(strs_view(s.export_kinds@) =~= javascript_spec().export_kinds);
    s
}

fn make_rust() -> (s: LanguageSpec)
    ensures
        s.view() == rust_spec(),
{
    let s = LanguageSpec {
        name: "rust",
        extensions: vec!["rs"],
        grammar: Grammar::Rust,
        function_kinds: vec!["function_item"],
        class_kinds: vec!["struct_item", "enum_item", "trait_item"],
        decision_kinds: vec!["if_expression", "if_let_expression", "for_expression", "while_expression", "while_let_expression", "match_arm"],
        block_kinds: vec!["block"],
        import_kinds: vec!["use_declaration"],
        export_kinds: vec![],
    };
    assert(strs_view(s.extensions@) =~= rust_spec().extensions);
    assert(strs_view(s.function_kinds@) =~= rust_spec().function_kinds);
    assert(strs_view(s.class_kinds@) =~= rust_spec().class_kinds);
    assert(strs_view(s.decision_kinds@) =~= rust_spec().decision_kinds);
    assert(strs_view(s.block_kinds@) =~= rust_spec().block_kinds);
    assert(strs_view(s.import_kinds@) =~= rust_spec().import_kinds);
    assert(strs_view(s.export_kinds@) =~= rust_spec().export_kinds);
    s
}

fn make_python() -> (s: LanguageSpec)
    ensures
        s.view() == python_spec(),
{
    let s = LanguageSpec {
        name: "python",
        extensions: vec!["py"],
        grammar: Grammar::Python,
        function_kinds: vec!["function_definition"],
        class_kinds: vec!["class_definition"],
        decision_kinds: vec!["if_statement", "for_statement", "while_statement", "except_clause", "conditional_expression"],
        block_kinds: vec!["block"],
        import_kinds: vec!["import_statement", "import_from_statement"],
        export_kinds: vec![],
    };
    assert(strs_view(s.extensions@) =~= python_spec().extensions);
    assert(strs_view(s.function_kinds@) =~= python_spec().function_kinds);
    assert(strs_view(s.class_kinds@) =~= python_spec().class_kinds);
    assert(strs_view(s.decision_kinds@) =~= python_spec().decision_kinds);
    assert(strs_view(s.block_kinds@) =~= python_spec().block_kinds);
    assert(strs_view(s.import_kinds@) =~= python_spec().import_kinds);
    assert(strs_view(s.export_kinds@) =~= python_spec().export_kinds);
    s
}

fn make_java() -> (s: LanguageSpec)
    ensures
        s.view() == java_spec(),
{
    let s = LanguageSpec {
        name: "java",
        extensions: vec!["java"],
        grammar: Grammar::Java,
        function_kinds: vec!["method_declaration", "constructor_declaration"],
        class_kinds: vec!["class_declaration", "interface_declaration"],
        decision_kinds: vec!["if_statement", "for_statement", "enhanced_for_statement", "while_statement", "do_statement", "switch_label", "catch_clause", "ternary_expression"],
        block_kinds: vec!["block"],
        import_kinds: vec!["import_declaration"],
        export_kinds: vec![],
    };
    assert(strs_view(s.extensions@) =~= java_spec().extensions);
    assert(strs_view(s.function_kinds@) =~= java_spec().function_kinds);
    assert(strs_view(s.class_kinds@) =~= java_spec().class_kinds);
    assert(strs_view(s.decision_kinds@) =~= java_spec().decision_kinds);
    assert(strs_view(s.block_kinds@) =~= java_spec().block_kinds);
    assert(strs_view(s.import_kinds@) =~= java_spec().import_kinds);
    assert(strs_view(s.export_kinds@) =~= java_spec().export_kinds);
    s
}

fn make_go() -> (s: LanguageSpec)
    ensures
        s.view() == go_spec(),
{
    let s = LanguageSpec {
        name: "go",
        extensions: vec!["go"],
        grammar: Grammar::Go,
        function_kinds: vec!["function_declaration", "method_declaration"],
        class_kinds: vec!["type_declaration"],
        decision_kinds: vec!["if_statement", "for_statement", "expression_switch_statement", "type_switch_statement", "select_statement"],
        block_kinds: vec!["block"],
        import_kinds: vec!["import_spec"],
        export_kinds: vec![],
    };
    assert(strs_view(s.extensions@) =~= go_spec().extensions);
    assert(strs_view(s.function_kinds@) =~= go_spec().function_kinds);
    assert(strs_view(s.class_kinds@) =~= go_spec().class_kinds);
    assert(strs_view(s.decision_kinds@) =~= go_spec().decision_kinds);
    assert(strs_view(s.block_kinds@) =~= go_spec().block_kinds);
    assert(strs_view(s.import_kinds@) =~= go_spec().import_kinds);
    assert(strs_view(s.export_kinds@) =~= go_spec().export_kinds);
    s
}

fn make_csharp() -> (s: LanguageSpec)
    ensures
        s.view() == csharp_spec(),
{
    let s = LanguageSpec {
        name: "csharp",
        extensions: vec!["cs"],
        grammar: Grammar::CSharp,
        function_kinds: vec!["method_declaration", "constructor_declaration"],
        class_kinds: vec!["class_declaration", "interface_declaration", "struct_declaration"],
        decision_kinds: vec!["if_statement", "for_statement", "foreach_statement", "while_statement", "do_statement", "switch_section", "catch_clause", "conditional_expression"],
        block_kinds: vec!["block"],
        import_kinds: vec!["using_directive"],
        export_kinds: vec![],
    };
    assert(strs_view(s.extensions@) =~= csharp_spec().extensions);
    assert(strs_view(s.function_kinds@) =~= csharp_spec().function_kinds);
    assert(strs_view(s.class_kinds@) =~= csharp_spec().class_kinds);
    assert(strs_view(s.decision_kinds@) =~= csharp_spec().decision_kinds);
    assert(strs_view(s.block_kinds@) =~= csharp_spec().block_kinds);
    assert(strs_view(s.import_kinds@) =~= csharp_spec().import_kinds);
    assert(strs_view(s.export_kinds@) =~= csharp_spec().export_kinds);
    s
}

fn make_c() -> (s: LanguageSpec)
    ensures
        s.view() == c_spec(),
{
    let s = LanguageSpec {
        name: "c",
        extensions: vec!["c", "h"],
        grammar: Grammar::C,
        function_kinds: vec!["function_definition"],
        class_kinds: vec!["struct_specifier"],
        decision_kinds: vec!["if_statement", "for_statement", "while_statement", "do_statement", "case_statement"],
        block_kinds: vec!["compound_statement"],
        import_kinds: vec!["preproc_include"],
        export_kinds: vec![],
    };
    assert(strs_view(s.extensions@) =~= c_spec().extensions);
    assert(strs_view(s.function_kinds@) =~= c_spec().function_kinds);
    assert(strs_view(s.class_kinds@) =~= c_spec().class_kinds);
    assert(strs_view(s.decision_kinds@) =~= c_spec().decision_kinds);
    assert(strs_view(s.block_kinds@) =~= c_spec().block_kinds);
    assert(strs_view(s.import_kinds@) =~= c_spec().import_kinds);
    assert(strs_view(s.export_kinds@) =~= c_spec().export_kinds);
    s
}

fn make_cpp() -> (s: LanguageSpec)
    ensures
        s.view() == cpp_spec(),
{
    let s = LanguageSpec {
        name: "cpp",
        extensions: vec!["cpp", "hpp", "cc", "cxx"],
        grammar: Grammar::Cpp,
        function_kinds: vec!["function_definition"],
        class_kinds: vec!["class_specifier", "struct_specifier"],
        decision_kinds: vec!["if_statement", "for_statement", "for_range_loop", "while_statement", "do_statement", "case_statement", "catch_clause"],
        block_kinds: vec!["compound_statement"],
        import_kinds: vec!["preproc_include"],
        export_kinds: vec![],
    };
    assert(strs_view(s.extensions@) =~= cpp_spec().extensions);
    assert(strs_view(s.function_kinds@) =~= cpp_spec().function_kinds);
    assert(strs_view(s.class_kinds@) =~= cpp_spec().class_kinds);
    assert(strs_view(s.decision_kinds@) =~= cpp_spec().decision_kinds);
    assert(strs_view(s.block_kinds@) =~= cpp_spec().block_kinds);
    assert(strs_view(s.import_kinds@) =~= cpp_spec().import_kinds);
    assert(strs_view(s.export_kinds@) =~= cpp_spec().export_kinds);
    s
}

/// Every language the static analysis knows, in lookup order.
pub fn all_specs() -> (specs: Vec<LanguageSpec>)
    ensures
        specs@.len() == language_table().len(),
        forall|i: int| 0 <= i < specs@.len() ==> #[trigger] specs@[i].view() == language_table()[i],
{
    let specs = vec![make_typescript(), make_javascript(), make_rust(), make_python(), make_java(), make_go(), make_csharp(), make_c(), make_cpp()];
    specs
}

/// The text without its leading '.' characters (std `str::trim_start_matches('.')`).
pub open spec fn strip_leading_dots(s: Seq<char>) -> Seq<char>
    decreases s.len(),
{
    if s.len() > 0 && s[0] == '.' {
        strip_leading_dots(s.drop_first())
    } else {
        s
    }
}

/// The extension as the table lists it: no leading dots, ASCII lower case.
pub open spec fn normalized_extension(ext: Seq<char>) -> Seq<char> {
    ascii_lower_seq(strip_leading_dots(ext))
}

/// The first entry of the table, from index `k` on, that lists the extension `e`.
pub open spec fn lookup_from(e: Seq<char>, k: int) -> Option<int>
    decreases language_table().len() - k,
{
    if k < 0 || k >= language_table().len() {
        None
    } else if language_table()[k].extensions.contains(e) {
        Some(k)
    } else {
        lookup_from(e, k + 1)
    }
}

/// The language of a file extension (with or without its dot, in any ASCII case).
pub open spec fn language_for(ext: Seq<char>) -> Option<LanguageSpecView> {
    match lookup_from(normalized_extension(ext), 0) {
        Some(k) => Some(language_table()[k]),
        None => None,
    }
}

pub fn strip_leading_dots_exec(s: &[char]) -> (res: Vec<char>)
    ensures
        res@ == strip_leading_dots(s@),
{
    let mut i: usize = 0;
    assert(s@.skip(0) =~= s@);
    while i < s.len() && s[i] == '.'
        invariant
            i <= s.len(),
            strip_leading_dots(s@) == strip_leading_dots(s@.skip(i as int)),
        decreases s.len() - i,
    {
        assert(s@.skip(i as int).drop_first() =~= s@.skip(i + 1));
        i = i + 1;
    }
    let mut res: Vec<char> = Vec::new();
    let mut j: usize = i;
    while j < s.len()
        invariant
            i <= j <= s.len(),
            res@ == s@.subrange(i as int, j as int),
        decreases s.len() - j,
    {
        res.push(s[j]);
        assert(res@ =~= s@.subrange(i as int, j + 1));
        j = j + 1;
    }
    assert(s@.skip(i as int) =~= s@.subrange(i as int, s.len() as int));
    res
}

fn chars_eq_str(a: &[char], b: &str) -> (res: bool)
    ensures
        res == (a@ == b@),
{
    let bs = chars_of(b);
    if a.len() != bs.len() {
        return false;
    }
    let mut i: usize = 0;
    while i < a.len()
        invariant
            bs@ == b@,
            a.len() == bs.len(),
            i <= a.len(),
            forall|j: int| 0 <= j < i ==> a@[j] == bs@[j],
        decreases a.len() - i,
    {
        if a[i] != bs[i] {
            return false;
        }
        i = i + 1;
    }
    assert(a@ =~= bs@);
    true
}

pub fn lists(v: &Vec<&'static str>, e: &[char]) -> (res: bool)
    ensures
        res == strs_view(v@).contains(e@),
{
    let mut i: usize = 0;
    while i < v.len()
        invariant
            i <= v.len(),
            forall|j: int| 0 <= j < i ==> v@[j]@ != e@,
        decreases v.len() - i,
    {
        if chars_eq_str(e, v[i]) {
            assert(strs_view(v@)[i as int] == e@);
            return true;
        }
        i = i + 1;
    }
    proof {
        if strs_view(v@).contains(e@) {
            let j = choose|j: int| 0 <= j < strs_view(v@).len() && strs_view(v@)[j] == e@;
            assert(v@[j]@ == e@);
        }
    }
    false
}

/// The language settings for a file extension, if the extension is supported.
pub fn find_spec_for_extension(ext: &str) -> (res: Option<LanguageSpec>)
    ensures
        match res {
            Some(s) => language_for(ext@) == Some(s.view()),
            None => language_for(ext@) is None,
        },
{
    let e = ascii_lower_chars(strip_leading_dots_exec(chars_of(ext).as_slice()).as_slice());
    let mut specs = all_specs();
    let mut k: usize = 0;
    while k < specs.len()
        invariant
            e@ == normalized_extension(ext@),
            specs@.len() == language_table().len(),
            forall|i: int| 0 <= i < specs@.len() ==> #[trigger] specs@[i].view() == language_table()[i],
            k <= specs.len(),
            lookup_from(e@, 0) == lookup_from(e@, k as int),
        decreases specs.len() - k,
    {
        assert(specs@[k as int].view() == language_table()[k as int]);
        if lists(&specs[k].extensions, e.as_slice()) {
            let s = specs.swap_remove(k);
            return Some(s);
        }
        k = k + 1;
    }
    None
}

} // verus!
