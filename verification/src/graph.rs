//! Depth-first search for cycles of a directed graph on vertex indices.
use vstd::prelude::*;

verus! {

/// Vertex states of the search.
pub const UNVISITED: u8 = 0;
pub const VISITING: u8 = 1;
pub const DONE: u8 = 2;

/// `adj` is an adjacency list over `n` vertices.
pub open spec fn adj_ok(adj: Seq<Seq<usize>>, n: nat) -> bool {
    adj.len() == n && forall|v: int, k: int| 0 <= v < n && 0 <= k < adj[v].len() ==> #[trigger] adj[v][k] < n
}

pub open spec fn adj_edge(adj: Seq<Seq<usize>>, a: usize, b: usize) -> bool {
    a < adj.len() && adj[a as int].contains(b)
}

/// `c` is a simple cycle: distinct vertices, each joined to the next, the last to the first.
pub open spec fn is_index_cycle(adj: Seq<Seq<usize>>, c: Seq<usize>) -> bool {
    &&& c.len() > 0
    &&& c.no_duplicates()
    &&& forall|k: int| 0 <= k < c.len() - 1 ==> adj_edge(adj, #[trigger] c[k], c[k + 1])
    &&& adj_edge(adj, c.last(), c[0])
}

/// `p` is a path: each vertex joined to the next.
pub open spec fn is_path(adj: Seq<Seq<usize>>, p: Seq<usize>) -> bool {
    forall|k: int| 0 <= k < p.len() - 1 ==> adj_edge(adj, #[trigger] p[k], p[k + 1])
}

pub open spec fn count_unvisited(state: Seq<u8>) -> nat
    decreases state.len(),
{
    if state.len() == 0 {
        0
    } else {
        count_unvisited(state.drop_last()) + if state.last() == UNVISITED { 1nat } else { 0nat }
    }
}

/// The search invariant: VISITING vertices are exactly those on the stack, which is a
/// duplicate-free path; every vertex index is in range.
pub open spec fn search_ok(adj: Seq<Seq<usize>>, state: Seq<u8>, stack: Seq<usize>) -> bool {
    &&& state.len() == adj.len()
    &&& adj_ok(adj, adj.len())
    &&& stack.no_duplicates()
    &&& is_path(adj, stack)
    &&& forall|k: int| 0 <= k < stack.len() ==> #[trigger] stack[k] < state.len()
    &&& forall|x: usize| x < state.len() ==> (#[trigger] state[x as int] == VISITING <==> stack.contains(x))
    &&& forall|x: int| 0 <= x < state.len() ==> #[trigger] state[x] <= DONE
}

/// Finishing times of a search that has found no cycle: every finished vertex has all
/// its successors finished, and earlier; all times are below `clock`.
pub open spec fn finish_ok(adj: Seq<Seq<usize>>, state: Seq<u8>, fin: Seq<int>, clock: int) -> bool {
    &&& fin.len() == state.len()
    &&& forall|x: int| 0 <= x < state.len() && #[trigger] state[x] == DONE ==> fin[x] < clock
    &&& forall|x: int, k: int| 0 <= x < state.len() && state[x] == DONE && 0 <= k < adj[x].len() ==>
        state[#[trigger] adj[x][k] as int] == DONE && fin[adj[x][k] as int] < fin[x]
}

/// The adjacency lists of a graph held in vectors.
pub open spec fn adjacency(adj: Seq<Vec<usize>>) -> Seq<Seq<usize>> {
    adj.map_values(|a: Vec<usize>| a@)
}

/// `c` is a simple cycle that passes through one of `roots`.
pub open spec fn index_cycle_through(adj: Seq<Seq<usize>>, roots: Seq<usize>, c: Seq<usize>) -> bool {
    &&& is_index_cycle(adj, c)
    &&& exists|k: int| 0 <= k < c.len() && roots.contains(#[trigger] c[k])
}

proof fn lemma_edge_done(adj: Seq<Seq<usize>>, state: Seq<u8>, fin: Seq<int>, clock: int, a: usize, b: usize)
    requires
        finish_ok(adj, state, fin, clock),
        adj_ok(adj, state.len()),
        a < state.len(),
        state[a as int] == DONE,
        adj_edge(adj, a, b),
    ensures
        b < state.len(),
        state[b as int] == DONE,
        fin[b as int] < fin[a as int],
{
    let kk = choose|kk: int| 0 <= kk < adj[a as int].len() && adj[a as int][kk] == b;
    assert(adj[a as int][kk] == b);
}

proof fn lemma_done_along(adj: Seq<Seq<usize>>, state: Seq<u8>, fin: Seq<int>, clock: int, c: Seq<usize>, s: int, j: int)
    requires
        finish_ok(adj, state, fin, clock),
        adj_ok(adj, state.len()),
        is_index_cycle(adj, c),
        0 <= s <= j < c.len(),
        c[s] < state.len(),
        state[c[s] as int] == DONE,
    ensures
        c[j] < state.len(),
        state[c[j] as int] == DONE,
        fin[c[j] as int] <= fin[c[s] as int] - (j - s),
    decreases j - s,
{
    if j > s {
        lemma_done_along(adj, state, fin, clock, c, s, j - 1);
        assert(adj_edge(adj, c[j - 1], c[j]));
        lemma_edge_done(adj, state, fin, clock, c[j - 1], c[j]);
    }
}

/// A search that has found no cycle has finished no vertex on a cycle.
proof fn lemma_no_done_cycle(adj: Seq<Seq<usize>>, state: Seq<u8>, fin: Seq<int>, clock: int, c: Seq<usize>, k: int)
    requires
        finish_ok(adj, state, fin, clock),
        adj_ok(adj, state.len()),
        is_index_cycle(adj, c),
        0 <= k < c.len(),
        c[k] < state.len(),
    ensures
        state[c[k] as int] != DONE,
{
    if state[c[k] as int] == DONE {
        let last = c.len() - 1;
        lemma_done_along(adj, state, fin, clock, c, k, last);
        lemma_edge_done(adj, state, fin, clock, c[last], c[0]);
        lemma_done_along(adj, state, fin, clock, c, 0, last);
        lemma_edge_done(adj, state, fin, clock, c[last], c[0]);
    }
}

pub open spec fn all_cycles(adj: Seq<Seq<usize>>, cycles: Seq<Seq<usize>>) -> bool {
    forall|i: int| 0 <= i < cycles.len() ==> is_index_cycle(adj, #[trigger] cycles[i])
}

/// No vertex became unvisited between `s0` and `s1`.
pub open spec fn no_new_unvisited(s0: Seq<u8>, s1: Seq<u8>) -> bool {
    s0.len() == s1.len() && forall|x: int| 0 <= x < s1.len() && #[trigger] s1[x] == UNVISITED ==> s0[x] == UNVISITED
}

proof fn lemma_count_monotone(s0: Seq<u8>, s1: Seq<u8>)
    requires
        no_new_unvisited(s0, s1),
    ensures
        count_unvisited(s1) <= count_unvisited(s0),
    decreases s0.len(),
{
    if s0.len() > 0 {
        assert(no_new_unvisited(s0.drop_last(), s1.drop_last())) by {
            assert forall|x: int| 0 <= x < s1.drop_last().len() && #[trigger] s1.drop_last()[x] == UNVISITED
                implies s0.drop_last()[x] == UNVISITED by {
                assert(s1[x] == UNVISITED);
            }
        }
        lemma_count_monotone(s0.drop_last(), s1.drop_last());
        assert(s1.last() == UNVISITED ==> s0.last() == UNVISITED) by {
            assert(s1[s1.len() - 1] == s1.last());
        }
    }
}

proof fn lemma_count_mark(s: Seq<u8>, v: int, val: u8)
    requires
        0 <= v < s.len(),
        s[v] == UNVISITED,
        val != UNVISITED,
    ensures
        count_unvisited(s.update(v, val)) + 1 == count_unvisited(s),
    decreases s.len(),
{
    if v < s.len() - 1 {
        assert(s.update(v, val).drop_last() =~= s.drop_last().update(v, val));
        lemma_count_mark(s.drop_last(), v, val);
    } else {
        assert(s.update(v, val).drop_last() =~= s.drop_last());
    }
}

/// The first position of `x` on the stack.
pub open spec fn stack_pos(stack: Seq<usize>, x: usize) -> int {
    choose|i: int| 0 <= i < stack.len() && stack[i] == x
}

/// The depth-first search from `v`, with at most `f` nested visits: the vertex states and
/// the cycles found after it. `v` is marked visiting and pushed, its successors are
/// handled in order, then it is marked done.
pub open spec fn visit(adj: Seq<Seq<usize>>, f: nat, v: usize, st: Seq<u8>, stack: Seq<usize>, cyc: Seq<Seq<usize>>) -> (Seq<u8>, Seq<Seq<usize>>)
    decreases f, adj[v as int].len() + 1,
{
    if f == 0 {
        (st, cyc)
    } else {
        let r = visit_from(adj, f, v, 0, st.update(v as int, VISITING), stack.push(v), cyc);
        (r.0.update(v as int, DONE), r.1)
    }
}

/// The successors of `v` from the `k`-th on: an unvisited one is visited; an edge to a
/// vertex on the stack records the stack from that vertex as a cycle; a done one is passed.
pub open spec fn visit_from(adj: Seq<Seq<usize>>, f: nat, v: usize, k: nat, st: Seq<u8>, stack: Seq<usize>, cyc: Seq<Seq<usize>>) -> (Seq<u8>, Seq<Seq<usize>>)
    decreases f, adj[v as int].len() - k,
{
    if f == 0 || k >= adj[v as int].len() {
        (st, cyc)
    } else {
        let next = adj[v as int][k as int];
        if st[next as int] == UNVISITED {
            let r = visit(adj, (f - 1) as nat, next, st, stack, cyc);
            visit_from(adj, f, v, k + 1, r.0, stack, r.1)
        } else if st[next as int] == VISITING {
            visit_from(adj, f, v, k + 1, st, stack, cyc.push(stack.subrange(stack_pos(stack, next), stack.len() as int)))
        } else {
            visit_from(adj, f, v, k + 1, st, stack, cyc)
        }
    }
}

/// The search from the roots from the `r`-th on, each root not yet visited starting a visit.
pub open spec fn search_from(adj: Seq<Seq<usize>>, roots: Seq<usize>, r: nat, st: Seq<u8>, cyc: Seq<Seq<usize>>) -> Seq<Seq<usize>>
    decreases roots.len() - r,
{
    if r >= roots.len() {
        cyc
    } else {
        let v = roots[r as int];
        if st[v as int] == UNVISITED {
            let x = visit(adj, adj.len(), v, st, Seq::empty(), cyc);
            search_from(adj, roots, r + 1, x.0, x.1)
        } else {
            search_from(adj, roots, r + 1, st, cyc)
        }
    }
}

/// The cycles that the depth-first search from the roots, in order, finds.
pub open spec fn dfs_cycles(adj: Seq<Seq<usize>>, roots: Seq<usize>) -> Seq<Seq<usize>> {
    search_from(adj, roots, 0, Seq::new(adj.len(), |i: int| UNVISITED), Seq::empty())
}

/// Distinct values below `n` are at most `n`.
proof fn lemma_distinct_bound(s: Seq<usize>, n: nat)
    requires
        s.no_duplicates(),
        forall|i: int| 0 <= i < s.len() ==> #[trigger] s[i] < n,
    ensures
        s.len() <= n,
    decreases n,
{
    if s.len() > 0 {
        if n == 0 {
            assert(s[0] < n);
        } else {
            let top = (n - 1) as usize;
            let x = s.last();
            let rest = s.drop_last();
            let moved = rest.map_values(|y: usize| if y == top { x } else { y });
            assert forall|i: int| 0 <= i < moved.len() implies #[trigger] moved[i] < n - 1 by {
                assert(rest[i] == s[i]);
                assert(s[i] != s[s.len() - 1]);
            }
            assert(moved.no_duplicates()) by {
                assert forall|a: int, b: int| 0 <= a < moved.len() && 0 <= b < moved.len() && a != b implies moved[a] != moved[b] by {
                    assert(rest[a] == s[a] && rest[b] == s[b]);
                    assert(s[a] != s[s.len() - 1] && s[b] != s[s.len() - 1]);
                }
            }
            lemma_distinct_bound(moved, (n - 1) as nat);
        }
    }
}

/// Position of `x` in the stack.
fn position_of(stack: &Vec<usize>, x: usize) -> (res: usize)
    requires
        stack@.contains(x),
    ensures
        res < stack.len(),
        stack@[res as int] == x,
{
    let mut i: usize = 0;
    while i < stack.len()
        invariant
            i <= stack.len(),
            stack@.contains(x),
            forall|j: int| 0 <= j < i ==> stack@[j] != x,
        decreases stack.len() - i,
    {
        if stack[i] == x {
            return i;
        }
        i = i + 1;
    }
    proof {
        let j = choose|j: int| 0 <= j < stack@.len() && stack@[j] == x;
        assert(stack@[j] == x);
    }
    0
}

/// Visits `v` and everything reachable through unvisited vertices; each edge back to a
/// vertex on the stack records the stack suffix from that vertex as a cycle.
/// While no cycle has been found, the search also keeps finishing times (`fin`, below
/// `clock` before the call; the new ones are returned).
#[verifier::rlimit(40)]
fn dfs(
    v: usize,
    adj: &Vec<Vec<usize>>,
    state: &mut Vec<u8>,
    stack: &mut Vec<usize>,
    cycles: &mut Vec<Vec<usize>>,
    Ghost(fin): Ghost<Seq<int>>,
    Ghost(clock): Ghost<int>,
) -> (times: Ghost<(Seq<int>, int)>)
    requires
        search_ok(adj@.map_values(|a: Vec<usize>| a@), old(state)@, old(stack)@),
        v < old(state)@.len(),
        old(state)@[v as int] == UNVISITED,
        old(stack)@.len() > 0 ==> adj_edge(adj@.map_values(|a: Vec<usize>| a@), old(stack)@.last(), v),
        all_cycles(adj@.map_values(|a: Vec<usize>| a@), old(cycles)@.map_values(|c: Vec<usize>| c@)),
        old(cycles)@.len() == 0 ==> finish_ok(adj@.map_values(|a: Vec<usize>| a@), old(state)@, fin, clock),
    ensures
        search_ok(adj@.map_values(|a: Vec<usize>| a@), final(state)@, final(stack)@),
        final(stack)@ == old(stack)@,
        final(state)@[v as int] == DONE,
        no_new_unvisited(old(state)@, final(state)@),
        all_cycles(adj@.map_values(|a: Vec<usize>| a@), final(cycles)@.map_values(|c: Vec<usize>| c@)),
        final(cycles)@.len() >= old(cycles)@.len(),
        (final(state)@, final(cycles)@.map_values(|c: Vec<usize>| c@)) == visit(adj@.map_values(|a: Vec<usize>| a@),
            (old(state)@.len() - old(stack)@.len()) as nat, v, old(state)@, old(stack)@, old(cycles)@.map_values(|c: Vec<usize>| c@)),
        forall|x: int| 0 <= x < old(state)@.len() && old(state)@[x] == DONE ==> #[trigger] final(state)@[x] == DONE,
        final(cycles)@.len() == 0 ==> {
            &&& finish_ok(adj@.map_values(|a: Vec<usize>| a@), final(state)@, times@.0, times@.1)
            &&& times@.1 >= clock
            &&& forall|x: int| 0 <= x < old(state)@.len() && old(state)@[x] == DONE ==> #[trigger] times@.0[x] == fin[x]
        },
    decreases count_unvisited(old(state)@),
{
    let ghost av = adj@.map_values(|a: Vec<usize>| a@);
    let ghost state0 = state@;
    let ghost stack0 = stack@;
    let ghost cycles0_len = cycles@.len();
    let ghost cycles0 = cycles@.map_values(|c: Vec<usize>| c@);
    let ghost f: nat = (state0.len() - stack0.len()) as nat;
    proof {
        assert(stack0.push(v).no_duplicates()) by {
            assert(!stack0.contains(v));
        }
        assert forall|i: int| 0 <= i < stack0.push(v).len() implies #[trigger] stack0.push(v)[i] < state0.len() by {
            if i < stack0.len() {
                assert(stack0.push(v)[i] == stack0[i]);
            }
        }
        lemma_distinct_bound(stack0.push(v), state0.len());
        assert(f >= 1);
    }
    let ghost mut gfin = fin;
    let ghost mut gclock = clock;
    state.set(v, VISITING);
    stack.push(v);
    proof {
        lemma_count_mark(state0, v as int, VISITING);
        assert(stack@.no_duplicates()) by {
            assert(!stack0.contains(v));
        }
        assert forall|x: usize| x < state@.len() implies (#[trigger] state@[x as int] == VISITING <==> stack@.contains(x)) by {
            if x == v {
                assert(stack@[stack@.len() - 1] == v);
            } else {
                if stack0.contains(x) {
                    let j = choose|j: int| 0 <= j < stack0.len() && stack0[j] == x;
                    assert(stack@[j] == x);
                }
                if stack@.contains(x) {
                    let j = choose|j: int| 0 <= j < stack@.len() && stack@[j] == x;
                    if j == stack0.len() {
                        assert(stack@[j] == v);
                    }
                    assert(stack0[j] == x);
                }
            }
        }
        assert(is_path(av, stack@)) by {
            assert forall|k: int| 0 <= k < stack@.len() - 1 implies adj_edge(av, #[trigger] stack@[k], stack@[k + 1]) by {
                if k < stack0.len() - 1 {
                    assert(stack@[k] == stack0[k] && stack@[k + 1] == stack0[k + 1]);
                } else {
                    assert(stack@[k] == stack0.last());
                }
            }
        }
    }
    let ghost state_marked = state@;
    let ghost stack_v = stack@;
    assert(state_marked == state0.update(v as int, VISITING));
    assert(stack_v == stack0.push(v));
    let neighbors = &adj[v];
    assert(neighbors@ == av[v as int]);
    let mut k: usize = 0;
    while k < neighbors.len()
        invariant
            av == adj@.map_values(|a: Vec<usize>| a@),
            neighbors@ == av[v as int],
            v < state@.len(),
            k <= neighbors.len(),
            search_ok(av, state@, stack@),
            stack@ == stack_v,
            stack_v.len() > 0 && stack_v.last() == v,
            no_new_unvisited(state_marked, state@),
            no_new_unvisited(state0, state@),
            count_unvisited(state_marked) + 1 == count_unvisited(state0),
            state0 == old(state)@,
            all_cycles(av, cycles@.map_values(|c: Vec<usize>| c@)),
            state@[v as int] == VISITING,
            f >= 1,
            f == state0.len() - stack0.len(),
            stack_v == stack0.push(v),
            state_marked == state0.update(v as int, VISITING),
            cycles0 == old(cycles)@.map_values(|c: Vec<usize>| c@),
            visit_from(av, f, v, 0, state_marked, stack_v, cycles0)
                == visit_from(av, f, v, k as nat, state@, stack_v, cycles@.map_values(|c: Vec<usize>| c@)),
            cycles0_len == old(cycles)@.len(),
            cycles@.len() >= cycles0_len,
            forall|x: int| 0 <= x < state0.len() && state0[x] == DONE ==> #[trigger] state@[x] == DONE,
            cycles@.len() == 0 ==> {
                &&& finish_ok(av, state@, gfin, gclock)
                &&& gclock >= clock
                &&& forall|x: int| 0 <= x < state0.len() && state0[x] == DONE ==> #[trigger] gfin[x] == fin[x]
                &&& forall|j: int| 0 <= j < k ==> state@[#[trigger] av[v as int][j] as int] == DONE
            },
        decreases neighbors.len() - k,
    {
        let next = neighbors[k];
        assert(av[v as int][k as int] == next);
        assert(next < state@.len());
        assert(adj_edge(av, v, next));
        let st = state[next];
        if st == UNVISITED {
            proof {
                lemma_count_monotone(state_marked, state@);
                assert(count_unvisited(state@) < count_unvisited(state0));
                assert(state0 == old(state)@);
            }
            let ghost before = state@;
            let times = dfs(next, adj, state, stack, cycles, Ghost(gfin), Ghost(gclock));
            proof {
                if cycles@.len() == 0 {
                    gfin = times@.0;
                    gclock = times@.1;
                }
                assert forall|x: int| 0 <= x < state@.len() && #[trigger] state@[x] == UNVISITED implies state_marked[x] == UNVISITED by {
                    assert(before[x] == UNVISITED);
                }
                assert forall|x: int| 0 <= x < state@.len() && #[trigger] state@[x] == UNVISITED implies state0[x] == UNVISITED by {
                    assert(before[x] == UNVISITED);
                }
                assert(state@[v as int] == VISITING) by {
                    assert(stack@.contains(v)) by {
                        assert(stack@[stack@.len() - 1] == v);
                    }
                }
            }
        } else if st == VISITING {
            assert(stack@.contains(next));
            let pos = position_of(stack, next);
            let mut cycle: Vec<usize> = Vec::new();
            let mut j: usize = pos;
            while j < stack.len()
                invariant
                    pos <= j <= stack@.len(),
                    cycle@ == stack@.subrange(pos as int, j as int),
                decreases stack.len() - j,
            {
                cycle.push(stack[j]);
                assert(stack@.subrange(pos as int, j + 1) =~= stack@.subrange(pos as int, j as int).push(stack@[j as int]));
                j = j + 1;
            }
            proof {
                let c = cycle@;
                assert(c.len() > 0);
                assert(c.no_duplicates()) by {
                    assert forall|a: int, b: int| 0 <= a < c.len() && 0 <= b < c.len() && a != b implies c[a] != c[b] by {
                        assert(c[a] == stack@[pos + a] && c[b] == stack@[pos + b]);
                    }
                }
                assert forall|m: int| 0 <= m < c.len() - 1 implies adj_edge(av, #[trigger] c[m], c[m + 1]) by {
                    assert(c[m] == stack@[pos + m] && c[m + 1] == stack@[pos + m + 1]);
                }
                assert(c.last() == v);
                assert(c[0] == next);
                let ghost old_cycles = cycles@.map_values(|c: Vec<usize>| c@);
            }
            let ghost old_cv = cycles@.map_values(|c: Vec<usize>| c@);
            cycles.push(cycle);
            assert(cycles@.map_values(|c: Vec<usize>| c@) =~= old_cv.push(cycle@));
        }
        k = k + 1;
    }
    let ghost state_end = state@;
    stack.pop();
    state.set(v, DONE);
    let ghost fin_end = gfin.update(v as int, gclock);
    proof {
        if cycles@.len() == 0 {
            assert(finish_ok(av, state@, fin_end, gclock + 1)) by {
                assert forall|x: int, j: int| 0 <= x < state@.len() && state@[x] == DONE && 0 <= j < av[x].len() implies
                    state@[#[trigger] av[x][j] as int] == DONE && fin_end[av[x][j] as int] < fin_end[x] by {
                    let y = av[x][j];
                    if x == v as int {
                        assert(state_end[y as int] == DONE);
                    } else {
                        assert(state_end[x] == DONE);
                        assert(state_end[y as int] == DONE);
                    }
                }
            }
        }
        assert(stack@ =~= stack0);
        assert forall|x: usize| x < state@.len() implies (#[trigger] state@[x as int] == VISITING <==> stack@.contains(x)) by {
            if x != v {
                assert(state@[x as int] == state_end[x as int]);
                if stack_v.contains(x) {
                    let j = choose|j: int| 0 <= j < stack_v.len() && stack_v[j] == x;
                    if j == stack_v.len() - 1 {
                        assert(stack_v[j] == v);
                    }
                    assert(stack@[j] == x);
                }
                if stack@.contains(x) {
                    let j = choose|j: int| 0 <= j < stack@.len() && stack@[j] == x;
                    assert(stack_v[j] == x);
                }
            } else {
                assert(!stack0.contains(v));
            }
        }
        assert forall|x: int| 0 <= x < state@.len() && #[trigger] state@[x] == UNVISITED implies state0[x] == UNVISITED by {
            assert(state_end[x] == UNVISITED);
        }
    }
    Ghost((fin_end, gclock + 1))
}

/// Runs the search from each root in order, skipping roots already visited; returns
/// the cycles found, each a list of vertex indices.
pub fn find_cycles(n: usize, adj: &Vec<Vec<usize>>, roots: &Vec<usize>) -> (res: Vec<Vec<usize>>)
    requires
        adj_ok(adj@.map_values(|a: Vec<usize>| a@), n as nat),
        forall|i: int| 0 <= i < roots@.len() ==> #[trigger] roots@[i] < n,
    ensures
        all_cycles(adj@.map_values(|a: Vec<usize>| a@), res@.map_values(|c: Vec<usize>| c@)),
        res@.len() == 0 ==> forall|c: Seq<usize>| !#[trigger] index_cycle_through(adjacency(adj@), roots@, c),
        res@.map_values(|c: Vec<usize>| c@) == dfs_cycles(adjacency(adj@), roots@),
{
    let ghost av = adj@.map_values(|a: Vec<usize>| a@);
    let mut state: Vec<u8> = Vec::new();
    let mut i: usize = 0;
    while i < n
        invariant
            i <= n,
            state@.len() == i,
            forall|x: int| 0 <= x < i ==> state@[x] == UNVISITED,
        decreases n - i,
    {
        state.push(UNVISITED);
        i = i + 1;
    }
    let mut stack: Vec<usize> = Vec::new();
    let mut cycles: Vec<Vec<usize>> = Vec::new();
    let ghost mut gfin: Seq<int> = Seq::new(n as nat, |x: int| 0int);
    let ghost mut gclock: int = 0;
    assert(state@ =~= Seq::new(av.len(), |i: int| UNVISITED));
    assert(cycles@.map_values(|c: Vec<usize>| c@) =~= Seq::<Seq<usize>>::empty());
    assert(cycles@.map_values(|c: Vec<usize>| c@) =~= Seq::<Seq<usize>>::empty());
    let mut r: usize = 0;
    while r < roots.len()
        invariant
            av == adj@.map_values(|a: Vec<usize>| a@),
            adj_ok(av, n as nat),
            forall|i: int| 0 <= i < roots@.len() ==> #[trigger] roots@[i] < n,
            search_ok(av, state@, stack@),
            stack@.len() == 0,
            all_cycles(av, cycles@.map_values(|c: Vec<usize>| c@)),
            r <= roots@.len(),
            forall|i: int| 0 <= i < r ==> state@[#[trigger] roots@[i] as int] == DONE,
            cycles@.len() == 0 ==> finish_ok(av, state@, gfin, gclock),
            av == adjacency(adj@),
            av.len() == n,
            dfs_cycles(av, roots@) == search_from(av, roots@, r as nat, state@, cycles@.map_values(|c: Vec<usize>| c@)),
        decreases roots.len() - r,
    {
        let root = roots[r];
        assert(root < n);
        if state[root] == UNVISITED {
            let ghost before = state@;
            let ghost cyc_before = cycles@.map_values(|c: Vec<usize>| c@);
            let times = dfs(root, adj, &mut state, &mut stack, &mut cycles, Ghost(gfin), Ghost(gclock));
            proof {
                assert(before.len() - Seq::<usize>::empty().len() == av.len());
                assert(stack@ =~= Seq::<usize>::empty());
                let x = visit(av, av.len(), root, before, Seq::empty(), cyc_before);
                assert(x == (state@, cycles@.map_values(|c: Vec<usize>| c@)));
                assert(search_from(av, roots@, r as nat, before, cyc_before) == search_from(av, roots@, (r + 1) as nat, x.0, x.1));
                if cycles@.len() == 0 {
                    gfin = times@.0;
                    gclock = times@.1;
                }
                assert forall|i: int| 0 <= i < r implies state@[#[trigger] roots@[i] as int] == DONE by {
                    assert(before[roots@[i] as int] == DONE);
                }
            }
        } else {
            assert(!stack@.contains(root));
        }
        r = r + 1;
    }
    proof {
        if cycles@.len() == 0 {
            assert forall|c: Seq<usize>| !#[trigger] index_cycle_through(av, roots@, c) by {
                if index_cycle_through(av, roots@, c) {
                    let k = choose|k: int| 0 <= k < c.len() && roots@.contains(#[trigger] c[k]);
                    let i = choose|i: int| 0 <= i < roots@.len() && roots@[i] == c[k];
                    assert(state@[roots@[i] as int] == DONE);
                    lemma_no_done_cycle(av, state@, gfin, gclock, c, k);
                }
            }
        }
    }
    cycles
}

} // verus!
