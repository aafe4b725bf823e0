//! Import dependency graph: fan-in/fan-out per file and detection of circular
//! dependencies. Import resolution is a best effort for relative specifiers
//! (`./foo`, `../foo/bar`) as used by TypeScript, JavaScript and Python; package or
//! namespace based imports (Java, Go, C#) are left unresolved.
use crate::graph::{adj_edge, adj_ok, adjacency, all_cycles, dfs_cycles, find_cycles, index_cycle_through, is_index_cycle};
use crate::models::analysis::{DependencyEdge, DependencyGraph, DependencyNode, StaticAnalysisResult};
use crate::paths::{components, components_exec, pieces, pieces_exec};
use crate::text::{strs, chars_of, ends_with, ends_with_str, join, lemma_join_push, push_chars, string_of};
use vstd::prelude::*;

verus! {

// ---------------------------------------------------------------------
// Import specifier extraction (regex crate)
// ---------------------------------------------------------------------

/// The text of the first capture group of the first match of the pattern
/// `['"](\.[^'"]*)['"]` in an import statement (a quoted specifier starting with '.').
#[verifier::opaque]
pub open spec fn relative_import_capture(stmt: Seq<char>) -> Option<Seq<char>> {
    if exists|i: int| import_match_at(stmt, i) {
        let i = choose|i: int| import_match_at(stmt, i) && forall|i2: int| 0 <= i2 < i ==> !import_match_at(stmt, i2);
        let j = choose|j: int| i + 1 < j < stmt.len() && is_quote(stmt[j])
            && forall|j2: int| i + 1 < j2 < j ==> !is_quote(stmt[j2]);
        Some(stmt.subrange(i + 1, j))
    } else {
        None
    }
}

pub open spec fn is_quote(c: char) -> bool {
    c == '\'' || c == '"'
}

/// A match of the pattern starts at `i`: a quote, then '.', then later another quote.
pub open spec fn import_match_at(s: Seq<char>, i: int) -> bool {
    &&& 0 <= i && i + 1 < s.len()
    &&& is_quote(s[i])
    &&& s[i + 1] == '.'
    &&& exists|j: int| i + 1 < j < s.len() && is_quote(#[trigger] s[j])
}

/// `regex::Regex::captures` with the relative-specifier pattern, group 1.
#[verifier::external_body]
fn capture_relative_import(stmt: &str) -> (res: Option<String>)
    ensures
        match res {
            Some(r) => relative_import_capture(stmt@) == Some(r@),
            None => relative_import_capture(stmt@) is None,
        },
{
    let re = regex::Regex::new(r#"['"](\.[^'"]*)['"]"#).unwrap();
    match re.captures(stmt) {
        Some(caps) => Some(caps[1].to_string()),
        None => None,
    }
}

// ---------------------------------------------------------------------
// Path resolution
// ---------------------------------------------------------------------

/// Lexical normalization of a list of pieces: ".." drops the previous component,
/// "." and empty pieces are skipped.
pub open spec fn normalize_pieces(ps: Seq<Seq<char>>) -> Seq<Seq<char>>
    decreases ps.len(),
{
    if ps.len() == 0 {
        Seq::empty()
    } else {
        let acc = normalize_pieces(ps.drop_last());
        let p = ps.last();
        if p == seq!['.', '.'] {
            if acc.len() > 0 { acc.drop_last() } else { acc }
        } else if p.len() == 0 || p == seq!['.'] {
            acc
        } else {
            acc.push(p)
        }
    }
}

/// The normalized '/'-joined path that `rel_import` designates from the directory of
/// `from_file`; `None` when `from_file` has no parent.
pub open spec fn resolve_target(from_file: Seq<char>, rel_import: Seq<char>) -> Option<Seq<char>> {
    let cs = components(from_file);
    if cs.len() == 0 {
        None
    } else {
        Some(join(normalize_pieces(cs.drop_last() + pieces(rel_import)), seq!['/']))
    }
}

/// `path` without the suffix `ext`.
pub open spec fn without_suffix(path: Seq<char>, ext: Seq<char>) -> Seq<char> {
    path.subrange(0, path.len() - ext.len())
}

/// The path without the first of the extensions .ts, .tsx, .js, .jsx, .py, .rs that ends it.
pub open spec fn strip_known_extension_spec(path: Seq<char>) -> Seq<char> {
    if ends_with(path, ".ts"@) {
        without_suffix(path, ".ts"@)
    } else if ends_with(path, ".tsx"@) {
        without_suffix(path, ".tsx"@)
    } else if ends_with(path, ".js"@) {
        without_suffix(path, ".js"@)
    } else if ends_with(path, ".jsx"@) {
        without_suffix(path, ".jsx"@)
    } else if ends_with(path, ".py"@) {
        without_suffix(path, ".py"@)
    } else if ends_with(path, ".rs"@) {
        without_suffix(path, ".rs"@)
    } else {
        path
    }
}

proof fn lemma_not_ends_with(h: Seq<char>, x: Seq<char>, j: int)
    requires
        1 <= j <= x.len(),
        j <= h.len(),
        h[h.len() - j] != x[x.len() - j],
    ensures
        !ends_with(h, x),
{
    if ends_with(h, x) {
        assert(h.subrange(h.len() - x.len(), h.len() as int)[x.len() - j] == h[h.len() - j]);
    }
}

proof fn lemma_ends_with_own(p: Seq<char>, e: Seq<char>)
    ensures
        ends_with(p + e, e),
        without_suffix(p + e, e) == p,
{
    assert((p + e).subrange(p.len() as int, (p + e).len() as int) =~= e);
    assert((p + e).subrange(0, p.len() as int) =~= p);
}

/// Each known extension is left off whole: a path with `.ts`, `.tsx`, `.js`, `.jsx`,
/// `.py` or `.rs` appended, stripped, is the path again, so an import written without
/// the extension designates the file.
pub proof fn lemma_strip_known_extension(path: Seq<char>)
    ensures
        strip_known_extension_spec(path + ".ts"@) == path,
        strip_known_extension_spec(path + ".tsx"@) == path,
        strip_known_extension_spec(path + ".js"@) == path,
        strip_known_extension_spec(path + ".jsx"@) == path,
        strip_known_extension_spec(path + ".py"@) == path,
        strip_known_extension_spec(path + ".rs"@) == path,
        designates(path + ".js"@, path),
{
    reveal_strlit(".ts");
    reveal_strlit(".tsx");
    reveal_strlit(".js");
    reveal_strlit(".jsx");
    reveal_strlit(".py");
    reveal_strlit(".rs");
    let exts = seq![".ts"@, ".tsx"@, ".js"@, ".jsx"@, ".py"@, ".rs"@];
    assert forall|i: int| 0 <= i < 6 implies strip_known_extension_spec(path + #[trigger] exts[i]) == path by {
        let e = exts[i];
        let h = path + e;
        lemma_ends_with_own(path, e);
        assert(h[h.len() - 1] == e[e.len() - 1]);
        assert(h[h.len() - 2] == e[e.len() - 2]);
        if i != 0 {
            if i == 2 || i == 5 {
                lemma_not_ends_with(h, ".ts"@, 2);
            } else {
                lemma_not_ends_with(h, ".ts"@, 1);
            }
        }
        if i > 1 {
            if i == 3 {
                assert(h[h.len() - 3] == e[e.len() - 3]);
                lemma_not_ends_with(h, ".tsx"@, 3);
            } else {
                lemma_not_ends_with(h, ".tsx"@, 1);
            }
        }
        if i > 2 {
            if i == 5 {
                lemma_not_ends_with(h, ".js"@, 2);
            } else {
                lemma_not_ends_with(h, ".js"@, 1);
            }
        }
        if i > 3 {
            lemma_not_ends_with(h, ".jsx"@, 1);
        }
        if i > 4 {
            lemma_not_ends_with(h, ".py"@, 1);
        }
    }
    assert(strip_known_extension_spec(path + exts[0]) == path);
    assert(strip_known_extension_spec(path + exts[1]) == path);
    assert(strip_known_extension_spec(path + exts[2]) == path);
    assert(strip_known_extension_spec(path + exts[3]) == path);
    assert(strip_known_extension_spec(path + exts[4]) == path);
    assert(strip_known_extension_spec(path + exts[5]) == path);
}

/// A known path designates `target` itself or with an extension left off.
pub open spec fn designates(known: Seq<char>, target: Seq<char>) -> bool {
    strip_known_extension_spec(known) == target || known == target
}

/// First known path (in order) that `target` designates.
pub open spec fn first_designated(known: Seq<Seq<char>>, target: Seq<char>) -> Option<Seq<char>>
    decreases known.len(),
{
    if known.len() == 0 {
        None
    } else if designates(known[0], target) {
        Some(known[0])
    } else {
        first_designated(known.drop_first(), target)
    }
}

pub open spec fn spec_resolve_relative(from_file: Seq<char>, rel_import: Seq<char>, known: Seq<Seq<char>>) -> Option<Seq<char>> {
    match resolve_target(from_file, rel_import) {
        Some(t) => first_designated(known, t),
        None => None,
    }
}

/// `path` without the suffix `ext`, when it ends with it.
fn strip_suffix(path: &[char], ext: &str) -> (res: Option<Vec<char>>)
    ensures
        match res {
            Some(r) => ends_with(path@, ext@) && r@ == without_suffix(path@, ext@),
            None => !ends_with(path@, ext@),
        },
{
    let e = chars_of(ext);
    if crate::text::ends_with_exec(path, e.as_slice()) {
        Some(crate::text::slice_chars(path, 0, path.len() - e.len()))
    } else {
        None
    }
}

/// Removes the first matching extension of .ts, .tsx, .js, .jsx, .py, .rs.
pub fn strip_known_extension(path: &[char]) -> (res: Vec<char>)
    ensures
        res@ == strip_known_extension_spec(path@),
{
    if let Some(r) = strip_suffix(path, ".ts") {
        return r;
    }
    if let Some(r) = strip_suffix(path, ".tsx") {
        return r;
    }
    if let Some(r) = strip_suffix(path, ".js") {
        return r;
    }
    if let Some(r) = strip_suffix(path, ".jsx") {
        return r;
    }
    if let Some(r) = strip_suffix(path, ".py") {
        return r;
    }
    if let Some(r) = strip_suffix(path, ".rs") {
        return r;
    }
    crate::text::slice_chars(path, 0, path.len())
}

fn chars_eq(a: &[char], b: &[char]) -> (res: bool)
    ensures
        res == (a@ == b@),
{
    if a.len() != b.len() {
        return false;
    }
    let mut i: usize = 0;
    while i < a.len()
        invariant
            a.len() == b.len(),
            i <= a.len(),
            forall|j: int| 0 <= j < i ==> a@[j] == b@[j],
        decreases a.len() - i,
    {
        if a[i] != b[i] {
            return false;
        }
        i = i + 1;
    }
    assert(a@ =~= b@);
    true
}

/// Lexically normalized, '/'-joined form of a list of pieces.
pub fn normalize_path(ps: &Vec<Vec<char>>) -> (res: Vec<char>)
    ensures
        res@ == join(normalize_pieces(ps@.map_values(|p: Vec<char>| p@)), seq!['/']),
{
    let ghost pv = ps@.map_values(|p: Vec<char>| p@);
    let mut acc: Vec<Vec<char>> = Vec::new();
    let mut i: usize = 0;
    let dotdot: [char; 2] = ['.', '.'];
    let dot: [char; 1] = ['.'];
    while i < ps.len()
        invariant
            i <= ps.len(),
            pv == ps@.map_values(|p: Vec<char>| p@),
            acc@.map_values(|p: Vec<char>| p@) == normalize_pieces(pv.take(i as int)),
            dotdot@ == seq!['.', '.'],
            dot@ == seq!['.'],
        decreases ps.len() - i,
    {
        assert(pv.take(i + 1).drop_last() =~= pv.take(i as int));
        let ghost prev = acc@.map_values(|p: Vec<char>| p@);
        let p = &ps[i];
        if chars_eq(p.as_slice(), dotdot.as_slice()) {
            if acc.len() > 0 {
                acc.pop();
                assert(acc@.map_values(|p: Vec<char>| p@) =~= prev.drop_last());
            }
        } else if p.len() == 0 || chars_eq(p.as_slice(), dot.as_slice()) {
        } else {
            acc.push(p.clone());
            assert(acc@.map_values(|p: Vec<char>| p@) =~= prev.push(pv[i as int]));
        }
        i = i + 1;
    }
    assert(pv.take(ps.len() as int) =~= pv);
    let ghost av = acc@.map_values(|p: Vec<char>| p@);
    let mut res: Vec<char> = Vec::new();
    let mut k: usize = 0;
    while k < acc.len()
        invariant
            k <= acc.len(),
            av == acc@.map_values(|p: Vec<char>| p@),
            res@ == join(av.take(k as int), seq!['/']),
        decreases acc.len() - k,
    {
        proof {
            lemma_join_push(av.take(k as int), seq!['/'], av[k as int]);
            assert(av.take(k + 1) =~= av.take(k as int).push(av[k as int]));
        }
        if k > 0 {
            res.push('/');
        }
        let part = &acc[k];
        let mut m: usize = 0;
        let ghost base = res@;
        while m < part.len()
            invariant
                m <= part.len(),
                res@ == base + part@.take(m as int),
            decreases part.len() - m,
        {
            res.push(part[m]);
            assert(part@.take(m + 1) =~= part@.take(m as int).push(part@[m as int]));
            m = m + 1;
        }
        assert(part@.take(part.len() as int) =~= part@);
        proof {
            if k > 0 {
                assert(res@ =~= join(av.take(k as int), seq!['/']) + seq!['/'] + av[k as int]);
            } else {
                assert(res@ =~= av[k as int]);
            }
        }
        k = k + 1;
    }
    assert(av.take(acc.len() as int) =~= av);
    res
}

/// Resolves a relative import specifier of `from_file` to one of the known paths, letting
/// the specifier leave off a known extension. The first matching known path is chosen.
pub fn resolve_relative(from_file: &str, rel_import: &str, known_paths: &Vec<String>) -> (res: Option<String>)
    ensures
        match res {
            Some(r) => spec_resolve_relative(from_file@, rel_import@, known_paths@.map_values(|s: String| s@)) == Some(r@),
            None => spec_resolve_relative(from_file@, rel_import@, known_paths@.map_values(|s: String| s@)) is None,
        },
{
    let ghost kv = known_paths@.map_values(|s: String| s@);
    let fc = chars_of(from_file);
    let cs = components_exec(fc.as_slice());
    if cs.len() == 0 {
        return None;
    }
    let ghost cv = cs@.map_values(|p: Vec<char>| p@);
    let rc = chars_of(rel_import);
    let rp = pieces_exec(rc.as_slice());
    let mut joined: Vec<Vec<char>> = Vec::new();
    let mut i: usize = 0;
    while i + 1 < cs.len()
        invariant
            i + 1 <= cs.len(),
            cv == cs@.map_values(|p: Vec<char>| p@),
            joined@.map_values(|p: Vec<char>| p@) == cv.take(i as int),
        decreases cs.len() - i,
    {
        let ghost prev = joined@.map_values(|p: Vec<char>| p@);
        joined.push(cs[i].clone());
        assert(joined@.map_values(|p: Vec<char>| p@) =~= prev.push(cv[i as int]));
        assert(cv.take(i + 1) =~= cv.take(i as int).push(cv[i as int]));
        i = i + 1;
    }
    assert(cv.take(i as int) =~= cv.drop_last());
    let ghost rv = rp@.map_values(|p: Vec<char>| p@);
    let mut j: usize = 0;
    while j < rp.len()
        invariant
            j <= rp.len(),
            rv == rp@.map_values(|p: Vec<char>| p@),
            joined@.map_values(|p: Vec<char>| p@) == cv.drop_last() + rv.take(j as int),
        decreases rp.len() - j,
    {
        let ghost prev = joined@.map_values(|p: Vec<char>| p@);
        joined.push(rp[j].clone());
        assert(joined@.map_values(|p: Vec<char>| p@) =~= prev.push(rv[j as int]));
        assert(rv.take(j + 1) =~= rv.take(j as int).push(rv[j as int]));
        j = j + 1;
    }
    assert(rv.take(rp.len() as int) =~= rv);
    let normalized = normalize_path(&joined);
    assert(resolve_target(from_file@, rel_import@) == Some(normalized@));
    let mut k: usize = 0;
    assert(kv.skip(0) =~= kv);
    while k < known_paths.len()
        invariant
            k <= known_paths.len(),
            kv == known_paths@.map_values(|s: String| s@),
            first_designated(kv, normalized@) == first_designated(kv.skip(k as int), normalized@),
            resolve_target(from_file@, rel_import@) == Some(normalized@),
        decreases known_paths.len() - k,
    {
        assert(kv.skip(k as int).drop_first() =~= kv.skip(k + 1));
        let pc = chars_of(known_paths[k].as_str());
        let stripped = strip_known_extension(pc.as_slice());
        if chars_eq(stripped.as_slice(), normalized.as_slice()) || chars_eq(pc.as_slice(), normalized.as_slice()) {
            assert(kv[k as int] == pc@);
            assert(designates(kv.skip(k as int)[0], normalized@));
            assert(first_designated(kv.skip(k as int), normalized@) == Some(kv[k as int]));
            return Some(known_paths[k].clone());
        }
        k = k + 1;
    }
    None
}

// ---------------------------------------------------------------------
// Graph construction
// ---------------------------------------------------------------------

pub open spec fn edge_view(e: DependencyEdge) -> (Seq<char>, Seq<char>) {
    (e.from@, e.to@)
}

/// Edges contributed by the first `n` import statements of a file.
pub open spec fn file_edges(from: Seq<char>, imports: Seq<Seq<char>>, known: Seq<Seq<char>>) -> Seq<(Seq<char>, Seq<char>)>
    decreases imports.len(),
{
    if imports.len() == 0 {
        Seq::empty()
    } else {
        let prev = file_edges(from, imports.drop_last(), known);
        match relative_import_capture(imports.last()) {
            Some(rel) => match spec_resolve_relative(from, rel, known) {
                Some(to) => if to == from { prev } else { prev.push((from, to)) },
                None => prev,
            },
            None => prev,
        }
    }
}

pub open spec fn result_path(r: StaticAnalysisResult) -> Seq<char> {
    r.file_path@
}

pub open spec fn result_imports(r: StaticAnalysisResult) -> Seq<Seq<char>> {
    r.imports@.map_values(|s: String| s@)
}

/// All edges of the graph: for each file in order, for each import in order, an edge to
/// the file that the import resolves to (self-imports left out).
pub open spec fn all_edges(results: Seq<StaticAnalysisResult>, known: Seq<Seq<char>>) -> Seq<(Seq<char>, Seq<char>)>
    decreases results.len(),
{
    if results.len() == 0 {
        Seq::empty()
    } else {
        all_edges(results.drop_last(), known) + file_edges(result_path(results.last()), result_imports(results.last()), known)
    }
}

/// Number of edges whose target (`incoming`) or source (not `incoming`) is `id`.
pub open spec fn degree(edges: Seq<(Seq<char>, Seq<char>)>, id: Seq<char>, incoming: bool) -> nat
    decreases edges.len(),
{
    if edges.len() == 0 {
        0
    } else {
        degree(edges.drop_last(), id, incoming) + if (if incoming { edges.last().1 } else { edges.last().0 }) == id { 1nat } else { 0nat }
    }
}

/// There is an edge from `a` to `b`.
pub open spec fn has_edge(edges: Seq<(Seq<char>, Seq<char>)>, a: Seq<char>, b: Seq<char>) -> bool {
    exists|k: int| 0 <= k < edges.len() && edges[k] == (a, b)
}

/// `c` is a circular dependency: distinct files, each importing the next, the last the first.
pub open spec fn is_cycle(edges: Seq<(Seq<char>, Seq<char>)>, c: Seq<Seq<char>>) -> bool {
    &&& c.len() > 0
    &&& c.no_duplicates()
    &&& forall|k: int| 0 <= k < c.len() - 1 ==> has_edge(edges, #[trigger] c[k], c[k + 1])
    &&& has_edge(edges, c.last(), c[0])
}

pub open spec fn edge_views(edges: Seq<DependencyEdge>) -> Seq<(Seq<char>, Seq<char>)> {
    edges.map_values(|e: DependencyEdge| edge_view(e))
}

pub open spec fn node_ids(nodes: Seq<DependencyNode>) -> Seq<Seq<char>> {
    nodes.map_values(|n: DependencyNode| n.id@)
}

/// `c` is a circular dependency that passes through one of the files `ids`.
pub open spec fn cycle_through(edges: Seq<(Seq<char>, Seq<char>)>, ids: Seq<Seq<char>>, c: Seq<Seq<char>>) -> bool {
    &&& is_cycle(edges, c)
    &&& exists|k: int| 0 <= k < c.len() && ids.contains(#[trigger] c[k])
}

/// The vertex named `s`.
spec fn vertex_of(vv: Seq<Seq<char>>, s: Seq<char>) -> usize {
    choose|i: usize| i < vv.len() && vv[i as int] == s
}

/// Each vertex of a circular dependency, as the index of its name: a simple cycle of
/// the index graph, through a root when the dependency passes through a node.
proof fn lemma_cycle_indices(
    ev: Seq<(Seq<char>, Seq<char>)>,
    vv: Seq<Seq<char>>,
    ends: Seq<(usize, usize)>,
    av: Seq<Seq<usize>>,
    ids: Seq<Seq<char>>,
    roots: Seq<usize>,
    c: Seq<Seq<char>>,
) -> (ic: Seq<usize>)
    requires
        vv.no_duplicates(),
        ends.len() == ev.len(),
        forall|m: int| 0 <= m < ends.len() ==> {
            &&& (#[trigger] ends[m]).0 < vv.len()
            &&& ends[m].1 < vv.len()
            &&& vv[ends[m].0 as int] == ev[m].0
            &&& vv[ends[m].1 as int] == ev[m].1
            &&& adj_edge(av, ends[m].0, ends[m].1)
        },
        roots.len() == ids.len(),
        forall|r: int| 0 <= r < roots.len() ==> (#[trigger] roots[r]) < vv.len() && vv[roots[r] as int] == ids[r],
        cycle_through(ev, ids, c),
    ensures
        index_cycle_through(av, roots, ic),
{
    let ic = Seq::new(c.len(), |k: int| vertex_of(vv, c[k]));
    // the edge leaving c[k], as the index of an edge
    assert forall|k: int, m: int| #![trigger ic[k], ends[m]] 0 <= k < c.len() && 0 <= m < ev.len() && ev[m].0 == c[k] implies
        ic[k] == ends[m].0 by {
        assert(vv[ends[m].0 as int] == c[k]);
        let i = vertex_of(vv, c[k]);
        assert(i < vv.len() && vv[i as int] == c[k]);
    }
    assert forall|k: int, m: int| #![trigger ic[k], ends[m]] 0 <= k < c.len() && 0 <= m < ev.len() && ev[m].1 == c[k] implies
        ic[k] == ends[m].1 by {
        assert(vv[ends[m].1 as int] == c[k]);
        let i = vertex_of(vv, c[k]);
        assert(i < vv.len() && vv[i as int] == c[k]);
    }
    assert forall|k: int| 0 <= k < c.len() - 1 implies adj_edge(av, #[trigger] ic[k], ic[k + 1]) by {
        assert(has_edge(ev, c[k], c[k + 1]));
        let m = choose|m: int| 0 <= m < ev.len() && ev[m] == (c[k], c[k + 1]);
        assert(ic[k] == ends[m].0);
        assert(ic[k + 1] == ends[m].1);
        assert(adj_edge(av, ends[m].0, ends[m].1));
    }
    let last = c.len() - 1;
    assert(adj_edge(av, ic.last(), ic[0])) by {
        assert(has_edge(ev, c.last(), c[0]));
        let m = choose|m: int| 0 <= m < ev.len() && ev[m] == (c.last(), c[0]);
        assert(ic[last] == ends[m].0);
        assert(ic[0] == ends[m].1);
        assert(adj_edge(av, ends[m].0, ends[m].1));
    }
    // every vertex of the cycle is named, so distinct names give distinct indices
    assert forall|k: int| 0 <= k < c.len() implies (#[trigger] ic[k]) < vv.len() && vv[ic[k] as int] == c[k] by {
        if k < last {
            assert(has_edge(ev, c[k], c[k + 1]));
            let m = choose|m: int| 0 <= m < ev.len() && ev[m] == (c[k], c[k + 1]);
            assert(ic[k] == ends[m].0);
        } else {
            assert(has_edge(ev, c.last(), c[0]));
            let m = choose|m: int| 0 <= m < ev.len() && ev[m] == (c.last(), c[0]);
            assert(ic[k] == ends[m].0);
        }
    }
    assert(ic.no_duplicates()) by {
        assert forall|a: int, b: int| 0 <= a < ic.len() && 0 <= b < ic.len() && a != b implies ic[a] != ic[b] by {
            assert(vv[ic[a] as int] == c[a] && vv[ic[b] as int] == c[b]);
        }
    }
    let k = choose|k: int| 0 <= k < c.len() && ids.contains(#[trigger] c[k]);
    let r = choose|r: int| 0 <= r < ids.len() && ids[r] == c[k];
    assert(vv[roots[r] as int] == c[k]);
    assert(ic[k] < vv.len() && vv[ic[k] as int] == c[k]);
    assert(ic[k] == roots[r]);
    assert(roots.contains(ic[k]));
    ic
}

fn index_of(vs: &Vec<Vec<char>>, s: &[char]) -> (res: Option<usize>)
    ensures
        match res {
            Some(i) => i < vs.len() && vs@[i as int]@ == s@,
            None => forall|i: int| 0 <= i < vs.len() ==> vs@[i]@ != s@,
        },
{
    let mut i: usize = 0;
    while i < vs.len()
        invariant
            i <= vs.len(),
            forall|j: int| 0 <= j < i ==> vs@[j]@ != s@,
        decreases vs.len() - i,
    {
        if chars_eq(vs[i].as_slice(), s) {
            return Some(i);
        }
        i = i + 1;
    }
    None
}

/// `vs` extended by `x` unless it holds it already.
pub open spec fn intern_name(vs: Seq<Seq<char>>, x: Seq<char>) -> Seq<Seq<char>> {
    if vs.contains(x) { vs } else { vs.push(x) }
}

pub open spec fn intern_names(vs: Seq<Seq<char>>, xs: Seq<Seq<char>>) -> Seq<Seq<char>>
    decreases xs.len(),
{
    if xs.len() == 0 {
        vs
    } else {
        intern_name(intern_names(vs, xs.drop_last()), xs.last())
    }
}

/// The source and target of each edge, in edge order.
pub open spec fn endpoints(ev: Seq<(Seq<char>, Seq<char>)>) -> Seq<Seq<char>>
    decreases ev.len(),
{
    if ev.len() == 0 {
        Seq::empty()
    } else {
        endpoints(ev.drop_last()) + seq![ev.last().0, ev.last().1]
    }
}

/// The vertices of the search: the node ids, then the edge endpoints, each once, in order
/// of first appearance.
pub open spec fn vertices(ids: Seq<Seq<char>>, ev: Seq<(Seq<char>, Seq<char>)>) -> Seq<Seq<char>> {
    intern_names(intern_names(Seq::empty(), ids), endpoints(ev))
}

pub open spec fn vertex_index(vs: Seq<Seq<char>>, x: Seq<char>) -> usize {
    choose|i: usize| (i as int) < vs.len() && vs[i as int] == x
}

/// The targets of the edges leaving vertex `a`, in edge order.
pub open spec fn targets(vs: Seq<Seq<char>>, ev: Seq<(Seq<char>, Seq<char>)>, a: int) -> Seq<usize>
    decreases ev.len(),
{
    if ev.len() == 0 {
        Seq::empty()
    } else {
        targets(vs, ev.drop_last(), a) + if ev.last().0 == vs[a] { seq![vertex_index(vs, ev.last().1)] } else { Seq::empty() }
    }
}

pub open spec fn vertex_graph(vs: Seq<Seq<char>>, ev: Seq<(Seq<char>, Seq<char>)>) -> Seq<Seq<usize>> {
    Seq::new(vs.len(), |a: int| targets(vs, ev, a))
}

pub open spec fn vertex_roots(vs: Seq<Seq<char>>, ids: Seq<Seq<char>>) -> Seq<usize> {
    ids.map_values(|id: Seq<char>| vertex_index(vs, id))
}

pub open spec fn named(vs: Seq<Seq<char>>, c: Seq<usize>) -> Seq<Seq<char>> {
    c.map_values(|i: usize| vs[i as int])
}

/// The cycles of the depth-first search over the files: from each node in order, along
/// the edges in order, each cycle listed from the file first reached.
pub open spec fn search_cycles(ids: Seq<Seq<char>>, ev: Seq<(Seq<char>, Seq<char>)>) -> Seq<Seq<Seq<char>>> {
    let vs = vertices(ids, ev);
    dfs_cycles(vertex_graph(vs, ev), vertex_roots(vs, ids)).map_values(|c: Seq<usize>| named(vs, c))
}

proof fn lemma_index_unique(vs: Seq<Seq<char>>, i: usize, x: Seq<char>)
    requires
        vs.no_duplicates(),
        (i as int) < vs.len(),
        vs[i as int] == x,
    ensures
        vertex_index(vs, x) == i,
{
    let j = vertex_index(vs, x);
    assert((j as int) < vs.len() && vs[j as int] == x);
}

/// Vertex list without duplicates, extended by `s` when new; returns the index of `s`.
fn intern(vs: &mut Vec<Vec<char>>, s: &[char]) -> (res: usize)
    requires
        old(vs)@.map_values(|p: Vec<char>| p@).no_duplicates(),
    ensures
        final(vs)@.map_values(|p: Vec<char>| p@).no_duplicates(),
        res < final(vs)@.len(),
        final(vs)@[res as int]@ == s@,
        final(vs)@.len() >= old(vs)@.len(),
        forall|i: int| 0 <= i < old(vs)@.len() ==> #[trigger] final(vs)@[i]@ == old(vs)@[i]@,
        final(vs)@.map_values(|p: Vec<char>| p@) == intern_name(old(vs)@.map_values(|p: Vec<char>| p@), s@),
{
    match index_of(vs, s) {
        Some(i) => {
            assert(vs@.map_values(|p: Vec<char>| p@)[i as int] == s@);
            i
        },
        None => {
            let ghost prev = vs@.map_values(|p: Vec<char>| p@);
            assert(!prev.contains(s@)) by {
                if prev.contains(s@) {
                    let j = choose|j: int| 0 <= j < prev.len() && prev[j] == s@;
                    assert(vs@[j]@ == s@);
                }
            }
            let copy = crate::text::slice_chars(s, 0, s.len());
            assert(copy@ =~= s@);
            vs.push(copy);
            assert(vs@.map_values(|p: Vec<char>| p@) =~= prev.push(s@));
            vs.len() - 1
        },
    }
}

/// Circular dependencies found by a depth-first search that starts from each node in
/// order and follows edges in order; each cycle lists the files on it starting from the
/// file first reached. Every reported cycle is a circular dependency of `edges`, and when
/// none is reported, no circular dependency passes through a node.
pub fn detect_cycles(nodes: &[DependencyNode], edges: &[DependencyEdge]) -> (res: Vec<Vec<String>>)
    ensures
        forall|i: int| 0 <= i < res@.len() ==> is_cycle(
            edges@.map_values(|e: DependencyEdge| edge_view(e)),
            strs((#[trigger] res@[i])@),
        ),
        res@.len() == 0 ==> forall|c: Seq<Seq<char>>| !#[trigger] cycle_through(edge_views(edges@), node_ids(nodes@), c),
        res@.map_values(|c: Vec<String>| strs(c@)) == search_cycles(node_ids(nodes@), edge_views(edges@)),
{
    let ghost ev = edges@.map_values(|e: DependencyEdge| edge_view(e));
    let mut vs: Vec<Vec<char>> = Vec::new();
    let mut roots: Vec<usize> = Vec::new();
    let mut i: usize = 0;
    assert(vs@.map_values(|p: Vec<char>| p@) =~= Seq::<Seq<char>>::empty());
    while i < nodes.len()
        invariant
            i <= nodes.len(),
            roots@.len() == i,
            vs@.map_values(|p: Vec<char>| p@) == intern_names(Seq::empty(), node_ids(nodes@).take(i as int)),
            vs@.map_values(|p: Vec<char>| p@).no_duplicates(),
            forall|r: int| 0 <= r < roots@.len() ==> #[trigger] roots@[r] < vs@.len() && vs@[roots@[r] as int]@ == nodes@[r].id@,
        decreases nodes.len() - i,
    {
        let c = chars_of(nodes[i].id.as_str());
        let ghost vs_before = vs@;
        let ghost roots_before = roots@;
        let idx = intern(&mut vs, c.as_slice());
        roots.push(idx);
        assert(node_ids(nodes@).take(i + 1).drop_last() =~= node_ids(nodes@).take(i as int));
        assert(node_ids(nodes@)[i as int] == c@);
        assert forall|r: int| 0 <= r < roots@.len() implies #[trigger] roots@[r] < vs@.len() && vs@[roots@[r] as int]@ == nodes@[r].id@ by {
            if r < i {
                assert(roots@[r] == roots_before[r]);
                assert(vs@[roots@[r] as int]@ == vs_before[roots@[r] as int]@);
            }
        }
        i = i + 1;
    }
    assert(node_ids(nodes@).take(nodes.len() as int) =~= node_ids(nodes@));
    assert(ev.take(0) =~= Seq::<(Seq<char>, Seq<char>)>::empty());
    // endpoints of every edge, as vertex indices
    let mut ends: Vec<(usize, usize)> = Vec::new();
    let mut k: usize = 0;
    while k < edges.len()
        invariant
            k <= edges.len(),
            roots@.len() == nodes@.len(),
            vs@.map_values(|p: Vec<char>| p@) == intern_names(intern_names(Seq::empty(), node_ids(nodes@)), endpoints(ev.take(k as int))),
            ev == edges@.map_values(|e: DependencyEdge| edge_view(e)),
            vs@.map_values(|p: Vec<char>| p@).no_duplicates(),
            forall|r: int| 0 <= r < roots@.len() ==> #[trigger] roots@[r] < vs@.len() && vs@[roots@[r] as int]@ == nodes@[r].id@,
            ends@.len() == k,
            forall|m: int| 0 <= m < k ==> {
                &&& (#[trigger] ends@[m]).0 < vs@.len()
                &&& ends@[m].1 < vs@.len()
                &&& vs@[ends@[m].0 as int]@ == ev[m].0
                &&& vs@[ends@[m].1 as int]@ == ev[m].1
            },
        decreases edges.len() - k,
    {
        let ghost vs_before = vs@;
        let fc = chars_of(edges[k].from.as_str());
        let ghost v0 = vs@.map_values(|p: Vec<char>| p@);
        let f = intern(&mut vs, fc.as_slice());
        let ghost v1 = vs@.map_values(|p: Vec<char>| p@);
        let tc = chars_of(edges[k].to.as_str());
        let t = intern(&mut vs, tc.as_slice());
        let ghost ends_before = ends@;
        ends.push((f, t));
        proof {
            let base = intern_names(Seq::empty(), node_ids(nodes@));
            let e0 = endpoints(ev.take(k as int));
            assert(ev.take(k + 1).drop_last() =~= ev.take(k as int));
            assert(endpoints(ev.take(k + 1)) == e0 + seq![ev[k as int].0, ev[k as int].1]);
            let e2 = e0 + seq![ev[k as int].0, ev[k as int].1];
            assert(e2.drop_last() =~= e0.push(ev[k as int].0));
            assert(e0.push(ev[k as int].0).drop_last() =~= e0);
            assert(fc@ == ev[k as int].0 && tc@ == ev[k as int].1);
            assert(e2.last() == ev[k as int].1);
            assert(e0.push(ev[k as int].0).last() == ev[k as int].0);
            assert(intern_names(base, e0.push(ev[k as int].0)) == intern_name(intern_names(base, e0), ev[k as int].0));
            assert(intern_names(base, e2) == intern_name(intern_names(base, e0.push(ev[k as int].0)), ev[k as int].1));
            assert(v1 == intern_name(v0, fc@));
            assert(vs@.map_values(|p: Vec<char>| p@) == intern_name(v1, tc@));
        }
        assert forall|r: int| 0 <= r < roots@.len() implies #[trigger] roots@[r] < vs@.len() && vs@[roots@[r] as int]@ == nodes@[r].id@ by {
            assert(vs@[roots@[r] as int]@ == vs_before[roots@[r] as int]@);
        }
        assert forall|m: int| 0 <= m < k + 1 implies {
            &&& (#[trigger] ends@[m]).0 < vs@.len()
            &&& ends@[m].1 < vs@.len()
            &&& vs@[ends@[m].0 as int]@ == ev[m].0
            &&& vs@[ends@[m].1 as int]@ == ev[m].1
        } by {
            if m < k {
                assert(ends@[m] == ends_before[m]);
            }
        }
        k = k + 1;
    }
    assert(ev.take(edges.len() as int) =~= ev);
    let ghost vv = vs@.map_values(|p: Vec<char>| p@);
    assert(vv == vertices(node_ids(nodes@), ev));
    let n = vs.len();
    let mut adj: Vec<Vec<usize>> = Vec::new();
    let mut v: usize = 0;
    while v < n
        invariant
            v <= n,
            n == vs@.len(),
            adj@.len() == v,
            forall|a: int| 0 <= a < v ==> (#[trigger] adj@[a])@.len() == 0,
        decreases n - v,
    {
        adj.push(Vec::new());
        v = v + 1;
    }
    let mut m: usize = 0;
    assert(ev.take(0) =~= Seq::<(Seq<char>, Seq<char>)>::empty());
    while m < ends.len()
        invariant
            m <= ends.len(),
            n == vs@.len(),
            adj@.len() == n,
            ev == edges@.map_values(|e: DependencyEdge| edge_view(e)),
            ends@.len() == edges@.len(),
            forall|q: int| 0 <= q < ends@.len() ==> {
                &&& (#[trigger] ends@[q]).0 < vs@.len()
                &&& ends@[q].1 < vs@.len()
                &&& vs@[ends@[q].0 as int]@ == ev[q].0
                &&& vs@[ends@[q].1 as int]@ == ev[q].1
            },
            adj_ok(adj@.map_values(|a: Vec<usize>| a@), n as nat),
            forall|a: int, b: int| 0 <= a < n && 0 <= b < adj@[a]@.len() ==>
                has_edge(ev, vs@[a]@, vs@[#[trigger] adj@[a]@[b] as int]@),
            forall|q: int| 0 <= q < m ==> adj_edge(adjacency(adj@), (#[trigger] ends@[q]).0, ends@[q].1),
            vv == vs@.map_values(|p: Vec<char>| p@),
            vv.no_duplicates(),
            forall|a: int| 0 <= a < n ==> (#[trigger] adj@[a])@ == targets(vv, ev.take(m as int), a),
        decreases ends.len() - m,
    {
        let (f, t) = ends[m];
        let ghost adj_before = adj@;
        let mut row = adj[f].clone();
        row.push(t);
        adj.set(f, row);
        proof {
            assert(ev[m as int] == (vs@[f as int]@, vs@[t as int]@));
            assert(ev.take(m + 1).drop_last() =~= ev.take(m as int));
            assert(ev.take(m + 1).last() == ev[m as int]);
            lemma_index_unique(vv, t, ev[m as int].1);
            assert forall|a: int| 0 <= a < n implies (#[trigger] adj@[a])@ == targets(vv, ev.take(m + 1), a) by {
                if a == f as int {
                    assert(adj@[a]@ =~= adj_before[a]@.push(t));
                } else {
                    assert(adj@[a] == adj_before[a]);
                    assert(vv[a] != vv[f as int]);
                    assert(targets(vv, ev.take(m + 1), a) =~= targets(vv, ev.take(m as int), a));
                }
            }
            assert forall|a: int, b: int| 0 <= a < n && 0 <= b < adj@[a]@.len() implies
                has_edge(ev, vs@[a]@, vs@[#[trigger] adj@[a]@[b] as int]@) by {
                if a != f as int {
                    assert(adj@[a] == adj_before[a]);
                } else if b < adj_before[a]@.len() {
                    assert(adj@[a]@[b] == adj_before[a]@[b]);
                } else {
                    assert(adj@[a]@[b] == t);
                }
            }
            let av = adj@.map_values(|a: Vec<usize>| a@);
            assert forall|q: int| 0 <= q < m + 1 implies adj_edge(adjacency(adj@), (#[trigger] ends@[q]).0, ends@[q].1) by {
                let (fq, tq) = ends@[q];
                if q == m as int {
                    assert(adj@[f as int]@[adj@[f as int]@.len() - 1] == t);
                    assert(adjacency(adj@)[f as int] == adj@[f as int]@);
                } else {
                    assert(adj_edge(adjacency(adj_before), fq, tq));
                    let b = choose|b: int| 0 <= b < adjacency(adj_before)[fq as int].len() && adjacency(adj_before)[fq as int][b] == tq;
                    assert(adjacency(adj_before)[fq as int] == adj_before[fq as int]@);
                    assert(adjacency(adj@)[fq as int] == adj@[fq as int]@);
                    if fq != f {
                        assert(adj@[fq as int] == adj_before[fq as int]);
                    } else {
                        assert(adj@[fq as int]@[b] == adj_before[fq as int]@[b]);
                    }
                    assert(adjacency(adj@)[fq as int][b] == tq);
                }
            }
            assert forall|a: int, b: int| 0 <= a < n && 0 <= b < av[a].len() implies #[trigger] av[a][b] < n by {
                let abv = adj_before.map_values(|a: Vec<usize>| a@);
                if a != f as int {
                    assert(adj@[a] == adj_before[a]);
                    assert(av[a] == abv[a]);
                } else if b < adj_before[a]@.len() {
                    assert(adj@[a]@[b] == adj_before[a]@[b]);
                    assert(abv[a][b] == adj_before[a]@[b]);
                } else {
                    assert(adj@[a]@[b] == t);
                }
            }
        }
        m = m + 1;
    }
    proof {
        assert(ev.take(ends.len() as int) =~= ev);
        assert(adjacency(adj@) =~= vertex_graph(vv, ev));
        assert forall|r: int| 0 <= r < roots@.len() implies roots@[r] == #[trigger] vertex_roots(vv, node_ids(nodes@))[r] by {
            lemma_index_unique(vv, roots@[r], node_ids(nodes@)[r]);
        }
        assert(roots@ =~= vertex_roots(vv, node_ids(nodes@)));
    }
    let index_cycles = find_cycles(n, &adj, &roots);
    let ghost av = adj@.map_values(|a: Vec<usize>| a@);
    let ghost icv = index_cycles@.map_values(|c: Vec<usize>| c@);
    assert(icv == dfs_cycles(vertex_graph(vv, ev), vertex_roots(vv, node_ids(nodes@))));
    proof {
        if index_cycles@.len() == 0 {
            assert forall|c: Seq<Seq<char>>| !#[trigger] cycle_through(ev, node_ids(nodes@), c) by {
                if cycle_through(ev, node_ids(nodes@), c) {
                    let ic = lemma_cycle_indices(ev, vs@.map_values(|p: Vec<char>| p@), ends@, av, node_ids(nodes@), roots@, c);
                    assert(adjacency(adj@) == av);
                }
            }
        }
    }
    let mut res: Vec<Vec<String>> = Vec::new();
    let mut c: usize = 0;
    while c < index_cycles.len()
        invariant
            c <= index_cycles.len(),
            n == vs@.len(),
            av == adj@.map_values(|a: Vec<usize>| a@),
            adj@.len() == n,
            vs@.map_values(|p: Vec<char>| p@).no_duplicates(),
            all_cycles(av, index_cycles@.map_values(|c: Vec<usize>| c@)),
            forall|a: int, b: int| 0 <= a < n && 0 <= b < adj@[a]@.len() ==>
                has_edge(ev, vs@[a]@, vs@[#[trigger] adj@[a]@[b] as int]@),
            adj_ok(av, n as nat),
            res@.len() == c,
            forall|i: int| 0 <= i < c ==> is_cycle(ev, strs((#[trigger] res@[i])@)),
            index_cycles@.len() == 0 ==> forall|c: Seq<Seq<char>>| !#[trigger] cycle_through(ev, node_ids(nodes@), c),
            vv == vs@.map_values(|p: Vec<char>| p@),
            icv == index_cycles@.map_values(|c: Vec<usize>| c@),
            forall|i: int| 0 <= i < c ==> strs(#[trigger] res@[i]@) == named(vv, icv[i]),
        decreases index_cycles.len() - c,
    {
        let cyc = &index_cycles[c];
        assert(is_index_cycle(av, cyc@)) by {
            assert(index_cycles@.map_values(|c: Vec<usize>| c@)[c as int] == cyc@);
        }
        let mut names: Vec<String> = Vec::new();
        let mut q: usize = 0;
        while q < cyc.len()
            invariant
                q <= cyc.len(),
                n == vs@.len(),
                adj@.len() == n,
                is_index_cycle(av, cyc@),
                av == adj@.map_values(|a: Vec<usize>| a@),
                names@.len() == q,
                forall|j: int| 0 <= j < q ==> cyc@[j] < n && (#[trigger] names@[j])@ == vs@[cyc@[j] as int]@,
            decreases cyc.len() - q,
        {
            let vi = cyc[q];
            assert(vi < n) by {
                if q + 1 < cyc.len() {
                    assert(adj_edge(av, cyc@[q as int], cyc@[q + 1]));
                } else {
                    assert(adj_edge(av, cyc@.last(), cyc@[0]));
                }
            }
            names.push(string_of(vs[vi].as_slice()));
            q = q + 1;
        }
        proof {
            let nv = strs(names@);
            let cv = cyc@;
            assert forall|j: int| 0 <= j < cv.len() implies #[trigger] nv[j] == vs@[cv[j] as int]@ by {}
            assert forall|j: int| 0 <= j < cv.len() - 1 implies has_edge(ev, #[trigger] nv[j], nv[j + 1]) by {
                assert(adj_edge(av, cv[j], cv[j + 1]));
                let b = choose|b: int| 0 <= b < av[cv[j] as int].len() && av[cv[j] as int][b] == cv[j + 1];
                assert(adj@[cv[j] as int]@[b] == cv[j + 1]);
            }
            assert(has_edge(ev, nv.last(), nv[0])) by {
                assert(adj_edge(av, cv.last(), cv[0]));
                let b = choose|b: int| 0 <= b < av[cv.last() as int].len() && av[cv.last() as int][b] == cv[0];
                assert(adj@[cv.last() as int]@[b] == cv[0]);
            }
            assert(nv.no_duplicates()) by {
                let vv = vs@.map_values(|p: Vec<char>| p@);
                assert forall|a: int, b: int| 0 <= a < nv.len() && 0 <= b < nv.len() && a != b implies nv[a] != nv[b] by {
                    assert(cv[a] != cv[b]);
                    assert(nv[a] == vv[cv[a] as int] && nv[b] == vv[cv[b] as int]);
                }
            }
        }
        assert(strs(names@) =~= named(vv, icv[c as int]));
        let ghost res_before = res@;
        res.push(names);
        assert forall|i: int| 0 <= i < c + 1 implies is_cycle(ev, strs((#[trigger] res@[i])@)) by {
            if i < c {
                assert(res@[i] == res_before[i]);
            }
        }
        assert forall|i: int| 0 <= i < c + 1 implies strs(#[trigger] res@[i]@) == named(vv, icv[i]) by {
            if i < c {
                assert(res@[i] == res_before[i]);
            }
        }
        c = c + 1;
    }
    assert(res@.map_values(|c: Vec<String>| strs(c@)) =~= icv.map_values(|c: Seq<usize>| named(vv, c)));
    res
}

/// The edges of the graph of the analyzed files.
pub open spec fn graph_edges(results: Seq<StaticAnalysisResult>) -> Seq<(Seq<char>, Seq<char>)> {
    all_edges(results, results.map_values(|r: StaticAnalysisResult| result_path(r)))
}

proof fn lemma_file_edges_from(from: Seq<char>, imports: Seq<Seq<char>>, known: Seq<Seq<char>>)
    ensures
        forall|m: int| 0 <= m < file_edges(from, imports, known).len() ==> (#[trigger] file_edges(from, imports, known)[m]).0 == from,
    decreases imports.len(),
{
    if imports.len() > 0 {
        let prev = file_edges(from, imports.drop_last(), known);
        lemma_file_edges_from(from, imports.drop_last(), known);
        let fe = file_edges(from, imports, known);
        assert forall|m: int| 0 <= m < fe.len() implies (#[trigger] fe[m]).0 == from by {
            if m < prev.len() {
                assert(fe[m] == prev[m]);
            }
        }
    }
}

/// Every edge leaves an analyzed file.
proof fn lemma_edge_sources(results: Seq<StaticAnalysisResult>, known: Seq<Seq<char>>)
    ensures
        forall|m: int| 0 <= m < all_edges(results, known).len() ==>
            exists|i: int| 0 <= i < results.len() && result_path(results[i]) == (#[trigger] all_edges(results, known)[m]).0,
    decreases results.len(),
{
    if results.len() > 0 {
        let prev = results.drop_last();
        let last = results.len() - 1;
        lemma_edge_sources(prev, known);
        lemma_file_edges_from(result_path(results[last]), result_imports(results[last]), known);
        let a = all_edges(prev, known);
        let f = file_edges(result_path(results[last]), result_imports(results[last]), known);
        assert(all_edges(results, known) == a + f);
        assert forall|m: int| 0 <= m < all_edges(results, known).len() implies
            exists|i: int| 0 <= i < results.len() && result_path(results[i]) == (#[trigger] all_edges(results, known)[m]).0 by {
            if m < a.len() {
                assert(all_edges(results, known)[m] == a[m]);
                let i = choose|i: int| 0 <= i < prev.len() && result_path(prev[i]) == a[m].0;
                assert(results[i] == prev[i]);
            } else {
                assert(all_edges(results, known)[m] == f[m - a.len()]);
                assert(result_path(results[last]) == all_edges(results, known)[m].0);
            }
        }
    }
}

/// Builds the dependency graph of the analyzed files: an edge for each relative import
/// that resolves to another analyzed file, the fan-in/fan-out of each file (counts cut
/// to 32 bits), and the circular dependencies.
pub fn build(results: &[StaticAnalysisResult]) -> (res: DependencyGraph)
    ensures
        ({
            let known = results@.map_values(|r: StaticAnalysisResult| result_path(r));
            let edges = all_edges(results@, known);
            &&& res.edges@.map_values(|e: DependencyEdge| edge_view(e)) == edges
            &&& res.nodes@.len() == results@.len()
            &&& forall|i: int| 0 <= i < results@.len() ==> {
                &&& (#[trigger] res.nodes@[i]).id@ == results@[i].file_path@
                &&& res.nodes@[i].fan_in == degree(edges, results@[i].file_path@, true) as u32
                &&& res.nodes@[i].fan_out == degree(edges, results@[i].file_path@, false) as u32
            }
            &&& forall|i: int| 0 <= i < res.cycles@.len() ==> is_cycle(edges, strs((#[trigger] res.cycles@[i])@))
            &&& res.cycles@.len() == 0 ==> forall|c: Seq<Seq<char>>| !#[trigger] is_cycle(graph_edges(results@), c)
            &&& res.cycles@.map_values(|c: Vec<String>| strs(c@)) == search_cycles(known, edges)
        }),
{
    let ghost known = results@.map_values(|r: StaticAnalysisResult| result_path(r));
    let mut known_paths: Vec<String> = Vec::new();
    let mut i: usize = 0;
    while i < results.len()
        invariant
            i <= results.len(),
            known == results@.map_values(|r: StaticAnalysisResult| result_path(r)),
            known_paths@.map_values(|s: String| s@) == known.take(i as int),
        decreases results.len() - i,
    {
        let ghost prev = known_paths@.map_values(|s: String| s@);
        known_paths.push(results[i].file_path.clone());
        assert(known_paths@.map_values(|s: String| s@) =~= prev.push(known[i as int]));
        assert(known.take(i + 1) =~= known.take(i as int).push(known[i as int]));
        i = i + 1;
    }
    assert(known.take(results.len() as int) =~= known);
    let mut edges: Vec<DependencyEdge> = Vec::new();
    let mut r: usize = 0;
    while r < results.len()
        invariant
            r <= results.len(),
            known == results@.map_values(|r: StaticAnalysisResult| result_path(r)),
            known_paths@.map_values(|s: String| s@) == known,
            edges@.map_values(|e: DependencyEdge| edge_view(e)) == all_edges(results@.take(r as int), known),
        decreases results.len() - r,
    {
        let result = &results[r];
        let ghost before = edges@.map_values(|e: DependencyEdge| edge_view(e));
        let ghost iv = result.imports@.map_values(|s: String| s@);
        let ghost from = result.file_path@;
        let mut s: usize = 0;
        while s < result.imports.len()
            invariant
                s <= result.imports.len(),
                known_paths@.map_values(|s: String| s@) == known,
                iv == result.imports@.map_values(|s: String| s@),
                from == result.file_path@,
                edges@.map_values(|e: DependencyEdge| edge_view(e)) == before + file_edges(from, iv.take(s as int), known),
            decreases result.imports.len() - s,
        {
            assert(iv.take(s + 1).drop_last() =~= iv.take(s as int));
            let ghost prev = edges@.map_values(|e: DependencyEdge| edge_view(e));
            match capture_relative_import(result.imports[s].as_str()) {
                Some(rel) => {
                    match resolve_relative(result.file_path.as_str(), rel.as_str(), &known_paths) {
                        Some(resolved) => {
                            let rc = chars_of(resolved.as_str());
                            let fc = chars_of(result.file_path.as_str());
                            if !chars_eq(rc.as_slice(), fc.as_slice()) {
                                edges.push(DependencyEdge { from: result.file_path.clone(), to: resolved });
                                assert(edges@.map_values(|e: DependencyEdge| edge_view(e)) =~= prev.push((from, rc@)));
                            }
                        },
                        None => {},
                    }
                },
                None => {},
            }
            s = s + 1;
        }
        assert(iv.take(result.imports.len() as int) =~= iv);
        assert(results@.take(r + 1).drop_last() =~= results@.take(r as int));
        r = r + 1;
    }
    assert(results@.take(results.len() as int) =~= results@);
    let ghost ev = edges@.map_values(|e: DependencyEdge| edge_view(e));
    let mut nodes: Vec<DependencyNode> = Vec::new();
    let mut i: usize = 0;
    while i < results.len()
        invariant
            i <= results.len(),
            ev == edges@.map_values(|e: DependencyEdge| edge_view(e)),
            nodes@.len() == i,
            forall|j: int| 0 <= j < i ==> {
                &&& (#[trigger] nodes@[j]).id@ == results@[j].file_path@
                &&& nodes@[j].fan_in == degree(ev, results@[j].file_path@, true) as u32
                &&& nodes@[j].fan_out == degree(ev, results@[j].file_path@, false) as u32
            },
        decreases results.len() - i,
    {
        let pc = chars_of(results[i].file_path.as_str());
        let mut fan_in: usize = 0;
        let mut fan_out: usize = 0;
        let mut k: usize = 0;
        while k < edges.len()
            invariant
                k <= edges.len(),
                ev == edges@.map_values(|e: DependencyEdge| edge_view(e)),
                fan_in == degree(ev.take(k as int), pc@, true),
                fan_out == degree(ev.take(k as int), pc@, false),
                fan_in <= k,
                fan_out <= k,
            decreases edges.len() - k,
        {
            assert(ev.take(k + 1).drop_last() =~= ev.take(k as int));
            let tc = chars_of(edges[k].to.as_str());
            let fc = chars_of(edges[k].from.as_str());
            if chars_eq(tc.as_slice(), pc.as_slice()) {
                fan_in = fan_in + 1;
            }
            if chars_eq(fc.as_slice(), pc.as_slice()) {
                fan_out = fan_out + 1;
            }
            k = k + 1;
        }
        assert(ev.take(edges.len() as int) =~= ev);
        let ghost nodes_before = nodes@;
        nodes.push(DependencyNode { id: results[i].file_path.clone(), fan_in: fan_in as u32, fan_out: fan_out as u32 });
        assert forall|j: int| 0 <= j < i + 1 implies {
            &&& (#[trigger] nodes@[j]).id@ == results@[j].file_path@
            &&& nodes@[j].fan_in == degree(ev, results@[j].file_path@, true) as u32
            &&& nodes@[j].fan_out == degree(ev, results@[j].file_path@, false) as u32
        } by {
            if j < i {
                assert(nodes@[j] == nodes_before[j]);
            }
        }
        i = i + 1;
    }
    let cycles = detect_cycles(nodes.as_slice(), edges.as_slice());
    proof {
        let known = results@.map_values(|r: StaticAnalysisResult| result_path(r));
        assert(node_ids(nodes@) =~= known);
        assert(edge_views(edges@) == ev);
        if cycles@.len() == 0 {
            let known = results@.map_values(|r: StaticAnalysisResult| result_path(r));
            lemma_edge_sources(results@, known);
            assert(edge_views(edges@) == ev);
            assert forall|c: Seq<Seq<char>>| !#[trigger] is_cycle(graph_edges(results@), c) by {
                if is_cycle(graph_edges(results@), c) {
                    let last = c.len() - 1;
                    assert(has_edge(ev, c.last(), c[0]));
                    let m = choose|m: int| 0 <= m < ev.len() && ev[m] == (c.last(), c[0]);
                    assert(ev[m] == all_edges(results@, known)[m]);
                    let i = choose|i: int| 0 <= i < results@.len() && result_path(results@[i]) == all_edges(results@, known)[m].0;
                    assert(node_ids(nodes@)[i] == c[last]);
                    assert(node_ids(nodes@).contains(c[last]));
                    assert(cycle_through(edge_views(edges@), node_ids(nodes@), c));
                }
            }
        }
    }
    DependencyGraph { nodes, edges, cycles }
}

} // verus!
