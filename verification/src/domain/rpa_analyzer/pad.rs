//! Power Automate for Desktop: Robin script flow files (*.robin, *.pad.txt).
use super::{normalized_path, normalized_path_exec, name_or, name_or_exec, stem_or_unknown, stem_or_unknown_exec, RpaAnalyzer};
use crate::models::analysis::{step_view, RpaComponent, RpaComponentView, RpaStep};
use crate::models::constants::rpa_tools;
use crate::models::error::AppResult;
use crate::text::{chars_of, count_from, count_matches, count_matches_exec, ends_with, ends_with_str, occurs_at};
use vstd::prelude::*;
use vstd::string::StringExecFns;

verus! {

/// Whether the Robin action notation `[A-Z][A-Za-z0-9]*\.[A-Z][A-Za-z0-9]*`
/// (for example `Display.ShowMessage`) occurs in the text.
pub open spec fn has_action_notation(content: Seq<char>) -> bool {
    exists|i: int, k: int|
        #![trigger content[i], content[k]]
        0 <= i < k && k + 1 < content.len() && is_upper_ascii(content[i]) && content[k] == '.'
            && is_upper_ascii(content[k + 1])
            && forall|j: int| i < j < k ==> is_alnum_ascii(#[trigger] content[j])
}

pub open spec fn is_upper_ascii(c: char) -> bool {
    'A' <= c && c <= 'Z'
}

pub open spec fn is_alnum_ascii(c: char) -> bool {
    ('A' <= c && c <= 'Z') || ('a' <= c && c <= 'z') || ('0' <= c && c <= '9')
}

/// The end of the run of ASCII letters and digits that starts at `j`.
pub open spec fn alnum_run_end(s: Seq<char>, j: int) -> int
    decreases s.len() - j,
{
    if j < 0 || j >= s.len() || !is_alnum_ascii(s[j]) {
        j
    } else {
        alnum_run_end(s, j + 1)
    }
}

pub proof fn lemma_alnum_run_end(s: Seq<char>, j: int)
    ensures
        alnum_run_end(s, j) >= j,
        j <= s.len() ==> alnum_run_end(s, j) <= s.len(),
    decreases s.len() - j,
{
    if !(j < 0 || j >= s.len() || !is_alnum_ascii(s[j])) {
        lemma_alnum_run_end(s, j + 1);
    }
}

/// Where the dot of a notation starting at `i` must stand: after the longest run of
/// letters and digits that follows the first letter.
pub open spec fn notation_dot(s: Seq<char>, i: int) -> int {
    alnum_run_end(s, i + 1)
}

/// The action notation matches at `i` (the pattern is greedy, so its first run of letters
/// and digits is the longest one).
pub open spec fn notation_at(s: Seq<char>, i: int) -> bool {
    &&& 0 <= i < s.len()
    &&& is_upper_ascii(s[i])
    &&& notation_dot(s, i) + 1 < s.len()
    &&& s[notation_dot(s, i)] == '.'
    &&& is_upper_ascii(s[notation_dot(s, i) + 1])
}

/// The successive leftmost, non-overlapping matches of the action notation from `i` on.
pub open spec fn notations_from(s: Seq<char>, i: int) -> Seq<Seq<char>>
    decreases s.len() - i,
{
    if i < 0 || i >= s.len() {
        Seq::empty()
    } else if notation_at(s, i) {
        let end = alnum_run_end(s, notation_dot(s, i) + 2);
        proof {
            lemma_alnum_run_end(s, i + 1);
            lemma_alnum_run_end(s, notation_dot(s, i) + 2);
            assert(i < end <= s.len());
        }
        seq![s.subrange(i, end)] + notations_from(s, end)
    } else {
        notations_from(s, i + 1)
    }
}

/// The successive non-overlapping matches of the Robin action notation in the text.
#[verifier::opaque]
pub open spec fn action_notations(content: Seq<char>) -> Seq<Seq<char>> {
    notations_from(content, 0)
}

/// `regex::Regex::is_match` with the action notation pattern.
#[verifier::external_body]
fn action_notation_found(content: &str) -> (res: bool)
    ensures
        res == has_action_notation(content@),
{
    regex::Regex::new(r"[A-Z][A-Za-z0-9]*\.[A-Z][A-Za-z0-9]*").unwrap().is_match(content)
}

/// `regex::Regex::find_iter` with the action notation pattern; the text of each match.
#[verifier::external_body]
fn action_notation_matches(content: &str) -> (res: Vec<String>)
    ensures
        res@.map_values(|s: String| s@) == action_notations(content@),
{
    regex::Regex::new(r"[A-Z][A-Za-z0-9]*\.[A-Z][A-Za-z0-9]*").unwrap().find_iter(content).map(|m| m.as_str().to_string()).collect()
}

pub struct PadAnalyzer;

/// Number of branch, loop and error-handling keywords of a Robin script.
pub open spec fn pad_branch_count(content: Seq<char>) -> nat {
    count_matches(content, "IF "@) + count_matches(content, "LOOP"@) + count_matches(content, "ON ERROR"@)
}

proof fn lemma_count_shift(x: Seq<char>, s: Seq<char>, needle: Seq<char>, i: int)
    requires
        0 <= i,
    ensures
        count_from(x + s, needle, x.len() + i) == count_from(s, needle, i),
    decreases s.len() - i,
{
    let h = x + s;
    if needle.len() == 0 || i + needle.len() > s.len() {
    } else {
        assert(h.subrange(x.len() + i, x.len() + i + needle.len()) =~= s.subrange(i, i + needle.len()));
        if occurs_at(s, needle, i) {
            lemma_count_shift(x, s, needle, i + needle.len());
        } else {
            lemma_count_shift(x, s, needle, i + 1);
        }
    }
}

/// With no occurrence of `needle` starting in the prefix `x`, counting from the start of
/// `x + s` counts the occurrences in `s`.
proof fn lemma_count_skip(x: Seq<char>, s: Seq<char>, needle: Seq<char>, i: int)
    requires
        0 <= i <= x.len(),
        needle.len() > 0,
        forall|j: int| i <= j < x.len() ==> !#[trigger] occurs_at(x + s, needle, j),
    ensures
        count_from(x + s, needle, i) == count_from(s, needle, 0),
    decreases x.len() - i,
{
    if i == x.len() {
        lemma_count_shift(x, s, needle, 0);
    } else {
        assert(!occurs_at(x + s, needle, i));
        lemma_count_skip(x, s, needle, i + 1);
        if i + needle.len() > (x + s).len() {
            lemma_count_shift(x, s, needle, 0);
        }
    }
}

/// Every LOOP of a Robin script counts as one branch or loop: a script with a LOOP line
/// put in front has one more.
pub proof fn lemma_loop_counted(content: Seq<char>)
    ensures
        pad_branch_count("LOOP\n"@ + content) == pad_branch_count(content) + 1,
{
    reveal_strlit("LOOP\n");
    reveal_strlit("LOOP");
    reveal_strlit("IF ");
    reveal_strlit("ON ERROR");
    let x = "LOOP\n"@;
    let h = x + content;
    assert(h[0] == 'L' && h[1] == 'O' && h[2] == 'O' && h[3] == 'P' && h[4] == '\n');
    assert(h.subrange(0, 4) =~= "LOOP"@);
    assert(count_from(h, "LOOP"@, 0) == 1 + count_from(h, "LOOP"@, 4));
    assert forall|j: int| 4 <= j < x.len() implies !#[trigger] occurs_at(h, "LOOP"@, j) by {
        if occurs_at(h, "LOOP"@, j) {
            assert(h.subrange(j, j + 4)[0] == h[j]);
        }
    }
    lemma_count_skip(x, content, "LOOP"@, 4);
    assert forall|j: int| 0 <= j < x.len() implies !#[trigger] occurs_at(h, "IF "@, j) by {
        if occurs_at(h, "IF "@, j) {
            assert(h.subrange(j, j + 3)[0] == h[j]);
        }
    }
    lemma_count_skip(x, content, "IF "@, 0);
    assert forall|j: int| 0 <= j < x.len() implies !#[trigger] occurs_at(h, "ON ERROR"@, j) by {
        if occurs_at(h, "ON ERROR"@, j) {
            assert(h.subrange(j, j + 8)[0] == h[j]);
            assert(h.subrange(j, j + 8)[1] == h[j + 1]);
        }
    }
    lemma_count_skip(x, content, "ON ERROR"@, 0);
}

impl RpaAnalyzer for PadAnalyzer {
    open spec fn tool(&self) -> Seq<char> {
        rpa_tools::PAD@
    }

    open spec fn detects(&self, relative_path: Seq<char>, content: Seq<char>) -> bool {
        let name = name_or(relative_path, Seq::empty());
        (ends_with(name, ".robin"@) || ends_with(name, ".pad.txt"@)) && has_action_notation(content)
    }

    open spec fn parsed(&self, relative_path: Seq<char>, content: Seq<char>) -> RpaComponentView {
        RpaComponentView {
            component_path: normalized_path(relative_path),
            tool: rpa_tools::PAD@,
            flow_name: stem_or_unknown(relative_path),
            flow_kind: "desktop_flow"@,
            triggers: Seq::empty(),
            steps: action_notations(content).map_values(|m: Seq<char>| (m, "action"@)),
            branch_or_loop_count: pad_branch_count(content) as u32,
            external_connections: Seq::empty(),
            dependencies: Seq::empty(),
        }
    }

    fn tool_name(&self) -> (res: &'static str) {
        rpa_tools::PAD
    }

    fn detect(&self, relative_path: &str, content: &str) -> (res: bool) {
        let pc = chars_of(relative_path);
        let name = name_or_exec(pc.as_slice(), "");
        proof {
            reveal_strlit("");
            assert(""@ =~= Seq::<char>::empty());
        }
        let is_candidate_ext = ends_with_str(name.as_slice(), ".robin") || ends_with_str(name.as_slice(), ".pad.txt");
        if !is_candidate_ext {
            return false;
        }
        action_notation_found(content)
    }

    fn parse(&self, relative_path: &str, content: &str) -> (res: AppResult<RpaComponent>) {
        let pc = chars_of(relative_path);
        let flow_name = stem_or_unknown_exec(pc.as_slice());
        let matches = action_notation_matches(content);
        let ghost mv = matches@.map_values(|s: String| s@);
        let mut steps: Vec<RpaStep> = Vec::new();
        let mut i: usize = 0;
        while i < matches.len()
            invariant
                i <= matches.len(),
                mv == matches@.map_values(|s: String| s@),
                steps@.map_values(|s: RpaStep| step_view(s)) == mv.take(i as int).map_values(|m: Seq<char>| (m, "action"@)),
            decreases matches.len() - i,
        {
            let ghost prev = steps@.map_values(|s: RpaStep| step_view(s));
            let step = RpaStep { name: matches[i].clone(), kind: String::from_str("action") };
            steps.push(step);
            assert(steps@.map_values(|s: RpaStep| step_view(s)) =~= prev.push((mv[i as int], "action"@)));
            assert(mv.take(i + 1).map_values(|m: Seq<char>| (m, "action"@)) =~= mv.take(i as int).map_values(|m: Seq<char>| (m, "action"@)).push((mv[i as int], "action"@)));
            i = i + 1;
        }
        assert(mv.take(matches.len() as int) =~= mv);
        let cc = chars_of(content);
        let n_if = count_matches_exec(cc.as_slice(), "IF ");
        let n_loop = count_matches_exec(cc.as_slice(), "LOOP");
        let n_err = count_matches_exec(cc.as_slice(), "ON ERROR");
        let total: u128 = (n_if as u128) + (n_loop as u128) + (n_err as u128);
        let c = RpaComponent {
            component_path: normalized_path_exec(pc.as_slice()),
            tool: String::from_str(rpa_tools::PAD),
            flow_name,
            flow_kind: String::from_str("desktop_flow"),
            triggers: Vec::new(),
            steps,
            branch_or_loop_count: total as u32,
            external_connections: Vec::new(),
            dependencies: Vec::new(),
        };
        assert(c.triggers@.map_values(|s: String| s@) =~= Seq::<Seq<char>>::empty());
        assert(c.external_connections@.map_values(|s: String| s@) =~= Seq::<Seq<char>>::empty());
        assert(c.dependencies@.map_values(|s: String| s@) =~= Seq::<Seq<char>>::empty());
        Ok(c)
    }
}

} // verus!
