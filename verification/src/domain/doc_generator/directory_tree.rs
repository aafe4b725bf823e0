//! Directory tree of a project for the documents. It is built from the files the scan
//! kept, with no new walk of the disk.
use crate::models::analysis::{DirectoryNode, ScannedFile};
use crate::text::{chars_of, join, lemma_join_push, push_char, push_chars, string_of};
use vstd::prelude::*;
use vstd::string::StringExecFns;

verus! {

// ---------------------------------------------------------------------
// Paths as component lists
// ---------------------------------------------------------------------

/// The non-empty runs of a text between '/' characters; `cur` is the run being read.
pub open spec fn parts_acc(s: Seq<char>, cur: Seq<char>) -> Seq<Seq<char>>
    decreases s.len(),
{
    if s.len() == 0 {
        if cur.len() > 0 { seq![cur] } else { Seq::empty() }
    } else if s[0] == '/' {
        (if cur.len() > 0 { seq![cur] } else { Seq::empty() }) + parts_acc(s.drop_first(), Seq::empty())
    } else {
        parts_acc(s.drop_first(), cur.push(s[0]))
    }
}

/// The components of a relative path: its non-empty pieces between '/'.
pub open spec fn path_parts(s: Seq<char>) -> Seq<Seq<char>> {
    parts_acc(s, Seq::empty())
}

proof fn lemma_parts_step(s: Seq<char>, cur: Seq<char>, i: int)
    requires
        0 <= i < s.len(),
    ensures
        parts_acc(s.subrange(i, s.len() as int), cur) == if s[i] == '/' {
            (if cur.len() > 0 { seq![cur] } else { Seq::empty() }) + parts_acc(s.subrange(i + 1, s.len() as int), Seq::empty())
        } else {
            parts_acc(s.subrange(i + 1, s.len() as int), cur.push(s[i]))
        },
{
    assert(s.subrange(i, s.len() as int).drop_first() =~= s.subrange(i + 1, s.len() as int));
}

pub open spec fn parts_view(v: Seq<Vec<char>>) -> Seq<Seq<char>> {
    v.map_values(|p: Vec<char>| p@)
}

fn path_parts_exec(s: &str) -> (res: Vec<Vec<char>>)
    ensures
        parts_view(res@) == path_parts(s@),
{
    let cs = chars_of(s);
    let mut res: Vec<Vec<char>> = Vec::new();
    let mut cur: Vec<char> = Vec::new();
    let mut i: usize = 0;
    assert(cs@.subrange(0, cs@.len() as int) =~= cs@);
    while i < cs.len()
        invariant
            cs@ == s@,
            i <= cs.len(),
            parts_view(res@) + parts_acc(cs@.subrange(i as int, cs@.len() as int), cur@) == path_parts(s@),
        decreases cs.len() - i,
    {
        proof {
            lemma_parts_step(cs@, cur@, i as int);
        }
        if cs[i] == '/' {
            if cur.len() > 0 {
                let ghost prev = parts_view(res@);
                res.push(cur);
                assert(parts_view(res@) =~= prev.push(cur@));
                assert(prev.push(cur@) == prev + seq![cur@]);
            } else {
                assert(seq![cur@].len() == 1);
            }
            cur = Vec::new();
            proof {
                assert(parts_view(res@) + parts_acc(cs@.subrange(i + 1, cs@.len() as int), cur@) == path_parts(s@)) by {
                    assert(cur@ =~= Seq::<char>::empty());
                }
            }
        } else {
            cur.push(cs[i]);
        }
        i = i + 1;
    }
    assert(cs@.subrange(cs@.len() as int, cs@.len() as int) =~= Seq::<char>::empty());
    if cur.len() > 0 {
        let ghost prev = parts_view(res@);
        res.push(cur);
        assert(parts_view(res@) =~= prev.push(cur@));
    } else {
        assert(parts_view(res@) + Seq::<Seq<char>>::empty() =~= parts_view(res@));
    }
    res
}

/// The files of a scan as component lists with their sizes, in scan order.
pub open spec fn entries_of(files: Seq<ScannedFile>) -> Seq<(Seq<Seq<char>>, u64)> {
    files.map_values(|f: ScannedFile| (path_parts(f.path@), f.size_bytes))
}

/// An entry goes through (or ends at) the node whose components are `p`.
pub open spec fn reaches(parts: Seq<Seq<char>>, p: Seq<Seq<char>>) -> bool {
    p.len() <= parts.len() && parts.subrange(0, p.len() as int) == p
}

proof fn lemma_reaches_push(parts: Seq<Seq<char>>, p: Seq<Seq<char>>, n: Seq<char>)
    ensures
        reaches(parts, p.push(n)) <==> (reaches(parts, p) && parts.len() > p.len() && parts[p.len() as int] == n),
{
    assert(p.push(n).drop_last() =~= p);
    if reaches(parts, p.push(n)) {
        assert(parts.subrange(0, p.len() as int) =~= parts.subrange(0, (p.len() + 1) as int).drop_last());
        assert(parts[p.len() as int] == parts.subrange(0, (p.len() + 1) as int)[p.len() as int]);
    }
    if reaches(parts, p) && parts.len() > p.len() && parts[p.len() as int] == n {
        assert(parts.subrange(0, (p.len() + 1) as int) =~= p.push(n));
    }
}

/// The first entry, from index `i` on, that reaches the node `p`.
pub open spec fn first_reaching(es: Seq<(Seq<Seq<char>>, u64)>, p: Seq<Seq<char>>, i: nat) -> Option<nat>
    decreases es.len() - i,
{
    if i >= es.len() {
        None
    } else if reaches(es[i as int].0, p) {
        Some(i)
    } else {
        first_reaching(es, p, i + 1)
    }
}

proof fn lemma_first_reaching(es: Seq<(Seq<Seq<char>>, u64)>, p: Seq<Seq<char>>, f: nat, i: nat)
    requires
        i <= f < es.len(),
        reaches(es[f as int].0, p),
        forall|j: int| i <= j < f ==> !reaches(#[trigger] es[j].0, p),
    ensures
        first_reaching(es, p, i) == Some(f),
    decreases f - i,
{
    if i < f {
        lemma_first_reaching(es, p, f, i + 1);
    }
}

/// The node `p` is a file: the first entry that reaches it ends there. A node is made by
/// the first entry that reaches it, as a file if that entry ends there.
pub open spec fn is_file_at(es: Seq<(Seq<Seq<char>>, u64)>, p: Seq<Seq<char>>) -> bool {
    match first_reaching(es, p, 0) {
        Some(i) => es[i as int].0.len() == p.len(),
        None => false,
    }
}

/// The size shown for the node `p`: that of the entry that made it a file.
pub open spec fn size_at(es: Seq<(Seq<Seq<char>>, u64)>, p: Seq<Seq<char>>) -> Option<u64> {
    match first_reaching(es, p, 0) {
        Some(i) => if es[i as int].0.len() == p.len() { Some(es[i as int].1) } else { None },
        None => None,
    }
}

/// The node `p` has a child named `n`.
pub open spec fn has_child(es: Seq<(Seq<Seq<char>>, u64)>, p: Seq<Seq<char>>, n: Seq<char>) -> bool {
    exists|i: int| 0 <= i < es.len() && #[trigger] reaches(es[i].0, p.push(n))
}

// ---------------------------------------------------------------------
// Order of the children
// ---------------------------------------------------------------------

/// Lexicographic order of names by character (the byte order of their UTF-8 form).
pub open spec fn name_lt(a: Seq<char>, b: Seq<char>) -> bool
    decreases a.len(),
{
    if b.len() == 0 {
        false
    } else if a.len() == 0 {
        true
    } else if a[0] != b[0] {
        a[0] < b[0]
    } else {
        name_lt(a.drop_first(), b.drop_first())
    }
}

pub proof fn lemma_name_lt_irreflexive(a: Seq<char>)
    ensures
        !name_lt(a, a),
    decreases a.len(),
{
    if a.len() > 0 {
        lemma_name_lt_irreflexive(a.drop_first());
    }
}

pub proof fn lemma_name_lt_transitive(a: Seq<char>, b: Seq<char>, c: Seq<char>)
    requires
        name_lt(a, b),
        name_lt(b, c),
    ensures
        name_lt(a, c),
    decreases a.len(),
{
    if a.len() > 0 && b.len() > 0 && c.len() > 0 && a[0] == b[0] && b[0] == c[0] {
        lemma_name_lt_transitive(a.drop_first(), b.drop_first(), c.drop_first());
    }
}

pub proof fn lemma_name_lt_total(a: Seq<char>, b: Seq<char>)
    requires
        a != b,
    ensures
        name_lt(a, b) || name_lt(b, a),
    decreases a.len(),
{
    if a.len() > 0 && b.len() > 0 && a[0] == b[0] {
        if a.drop_first() == b.drop_first() {
            assert(a =~= seq![a[0]] + a.drop_first());
            assert(b =~= seq![b[0]] + b.drop_first());
        }
        lemma_name_lt_total(a.drop_first(), b.drop_first());
    } else if a.len() > 0 && b.len() > 0 {
    } else if a.len() == 0 && b.len() == 0 {
        assert(a =~= b);
    }
}

/// Directories come before files; within one kind, names are in order.
pub open spec fn key_lt(a_file: bool, a_name: Seq<char>, b_file: bool, b_name: Seq<char>) -> bool {
    (!a_file && b_file) || (a_file == b_file && name_lt(a_name, b_name))
}

pub open spec fn is_file_kind(kind: Seq<char>) -> bool {
    kind == "file"@
}

pub open spec fn node_lt(a: DirectoryNode, b: DirectoryNode) -> bool {
    key_lt(is_file_kind(a.kind@), a.name@, is_file_kind(b.kind@), b.name@)
}

fn name_less(a: &[char], b: &[char]) -> (res: bool)
    ensures
        res == name_lt(a@, b@),
{
    let mut i: usize = 0;
    assert(a@.skip(0) =~= a@);
    assert(b@.skip(0) =~= b@);
    while i < a.len() && i < b.len() && a[i] == b[i]
        invariant
            i <= a.len(),
            i <= b.len(),
            name_lt(a@, b@) == name_lt(a@.skip(i as int), b@.skip(i as int)),
        decreases a.len() - i,
    {
        assert(a@.skip(i as int).drop_first() =~= a@.skip(i + 1));
        assert(b@.skip(i as int).drop_first() =~= b@.skip(i + 1));
        i = i + 1;
    }
    if i == b.len() {
        assert(b@.skip(i as int).len() == 0);
        false
    } else if i == a.len() {
        assert(a@.skip(i as int).len() == 0);
        true
    } else {
        assert(a@.skip(i as int)[0] == a@[i as int]);
        assert(b@.skip(i as int)[0] == b@[i as int]);
        a[i] < b[i]
    }
}

/// Lexicographic comparison of two names by character.
pub fn name_less_pub(a: &[char], b: &[char]) -> (res: bool)
    ensures
        res == name_lt(a@, b@),
{
    name_less(a, b)
}

fn key_less(a_file: bool, a_name: &[char], b_file: bool, b_name: &[char]) -> (res: bool)
    ensures
        res == key_lt(a_file, a_name@, b_file, b_name@),
{
    (!a_file && b_file) || (a_file == b_file && name_less(a_name, b_name))
}

fn seq_eq(a: &[char], b: &[char]) -> (res: bool)
    ensures
        res == (a@ == b@),
{
    if a.len() != b.len() {
        return false;
    }
    let mut i: usize = 0;
    while i < a.len()
        invariant
            a.len() == b.len(),
            i <= a.len(),
            forall|j: int| 0 <= j < i ==> a@[j] == b@[j],
        decreases a.len() - i,
    {
        if a[i] != b[i] {
            return false;
        }
        i = i + 1;
    }
    assert(a@ =~= b@);
    true
}

// ---------------------------------------------------------------------
// The tree
// ---------------------------------------------------------------------

/// The node reached from `node` by following the children at the indices `ix`.
pub open spec fn subnode(node: DirectoryNode, ix: Seq<int>) -> Option<DirectoryNode>
    decreases ix.len(),
{
    if ix.len() == 0 {
        Some(node)
    } else if 0 <= ix[0] < node.children.len() {
        subnode(node.children@[ix[0]], ix.drop_first())
    } else {
        None
    }
}

/// The names of the nodes passed when following the indices `ix` from `node`.
pub open spec fn names_along(node: DirectoryNode, ix: Seq<int>) -> Seq<Seq<char>>
    decreases ix.len(),
{
    if ix.len() == 0 || !(0 <= ix[0] < node.children.len()) {
        Seq::empty()
    } else {
        seq![node.children@[ix[0]].name@] + names_along(node.children@[ix[0]], ix.drop_first())
    }
}

/// The node is, by itself, the one at components `p` of the tree of the entries `es`:
/// its path is `p` joined by '/', its name the last component, its kind and size those
/// of the entry that made it; its children are in order and are exactly the names
/// below `p`.
pub open spec fn local_ok(node: DirectoryNode, es: Seq<(Seq<Seq<char>>, u64)>, p: Seq<Seq<char>>) -> bool {
    &&& node.path@ == join(p, "/"@)
    &&& p.len() > 0 ==> node.name@ == p.last()
    &&& p.len() > 0 ==> node.kind@ == (if is_file_at(es, p) { "file"@ } else { "dir"@ })
    &&& p.len() > 0 ==> node.size_bytes == size_at(es, p)
    &&& forall|i: int, j: int| 0 <= i < j < node.children.len() ==> node_lt(node.children@[i], node.children@[j])
    &&& forall|n: Seq<char>| has_child(es, p, n) <==>
        (exists|i: int| 0 <= i < node.children.len() && #[trigger] node.children@[i].name@ == n)
}

/// Every node of the subtree is the one at its components: those of `node` (`p`)
/// followed by the names on the way down to it.
pub open spec fn tree_ok(node: DirectoryNode, es: Seq<(Seq<Seq<char>>, u64)>, p: Seq<Seq<char>>) -> bool {
    forall|ix: Seq<int>| #[trigger] subnode(node, ix) is Some ==> local_ok(subnode(node, ix).unwrap(), es, p + names_along(node, ix))
}

// ---------------------------------------------------------------------
// Building the tree
// ---------------------------------------------------------------------

pub open spec fn entry_view(e: (Vec<Vec<char>>, u64)) -> (Seq<Seq<char>>, u64) {
    (parts_view(e.0@), e.1)
}

pub open spec fn entries_view(es: Seq<(Vec<Vec<char>>, u64)>) -> Seq<(Seq<Seq<char>>, u64)> {
    es.map_values(|e: (Vec<Vec<char>>, u64)| entry_view(e))
}

pub open spec fn in_ids(ids: Seq<usize>, i: int) -> bool {
    exists|t: int| 0 <= t < ids.len() && ids[t] as int == i
}

/// `ids` lists, in increasing order, exactly the entries strictly below the node `p`.
pub open spec fn ids_below(ev: Seq<(Seq<Seq<char>>, u64)>, ids: Seq<usize>, p: Seq<Seq<char>>) -> bool {
    &&& forall|t: int| 0 <= t < ids.len() ==> (ids[t] as int) < ev.len()
    &&& forall|t1: int, t2: int| 0 <= t1 < t2 < ids.len() ==> ids[t1] < ids[t2]
    &&& forall|i: int| in_ids(ids, i) <==> (0 <= i < ev.len() && reaches(ev[i].0, p) && ev[i].0.len() > p.len())
}

fn part_at(es: &Vec<(Vec<Vec<char>>, u64)>, Ghost(ev): Ghost<Seq<(Seq<Seq<char>>, u64)>>, i: usize, d: usize) -> (r: &Vec<char>)
    requires
        ev == entries_view(es@),
        i < es.len(),
        d < ev[i as int].0.len(),
    ensures
        r@ == ev[i as int].0[d as int],
{
    assert(ev[i as int] == entry_view(es@[i as int]));
    &es[i].0[d]
}

fn parts_len(es: &Vec<(Vec<Vec<char>>, u64)>, Ghost(ev): Ghost<Seq<(Seq<Seq<char>>, u64)>>, i: usize) -> (r: usize)
    requires
        ev == entries_view(es@),
        i < es.len(),
    ensures
        r == ev[i as int].0.len(),
{
    assert(ev[i as int] == entry_view(es@[i as int]));
    es[i].0.len()
}

fn find_name(names: &Vec<Vec<char>>, part: &[char]) -> (res: Option<usize>)
    ensures
        match res {
            Some(k) => k < names.len() && names@[k as int]@ == part@,
            None => forall|j: int| 0 <= j < names.len() ==> names@[j]@ != part@,
        },
{
    let mut k: usize = 0;
    while k < names.len()
        invariant
            k <= names.len(),
            forall|j: int| 0 <= j < k ==> names@[j]@ != part@,
        decreases names.len() - k,
    {
        if seq_eq(names[k].as_slice(), part) {
            return Some(k);
        }
        k = k + 1;
    }
    None
}

/// The distinct names just below `p`, in order of first appearance, each with the first
/// entry that has it; and for each listed entry, the index of its name.
fn collect_names(
    es: &Vec<(Vec<Vec<char>>, u64)>,
    Ghost(ev): Ghost<Seq<(Seq<Seq<char>>, u64)>>,
    ids: &Vec<usize>,
    Ghost(p): Ghost<Seq<Seq<char>>>,
    d: usize,
) -> (res: (Vec<Vec<char>>, Vec<usize>, Ghost<Seq<int>>))
    requires
        ev == entries_view(es@),
        d == p.len(),
        ids_below(ev, ids@, p),
    ensures
        res.0.len() == res.1.len(),
        forall|k: int| 0 <= k < res.1.len() ==> {
            &&& in_ids(ids@, res.1@[k] as int)
            &&& #[trigger] res.0@[k]@ == ev[res.1@[k] as int].0[d as int]
        },
        forall|k1: int, k2: int| 0 <= k1 < k2 < res.0.len() ==> res.0@[k1]@ != res.0@[k2]@,
        forall|k: int, t: int| #![trigger res.1@[k], ids@[t]]
            0 <= k < res.0.len() && 0 <= t < ids.len() && ev[ids@[t] as int].0[d as int] == res.0@[k]@
            ==> res.1@[k] <= ids@[t],
        res.2@.len() == ids.len(),
        forall|t: int| #![trigger res.2@[t]] 0 <= t < ids.len() ==> {
            &&& 0 <= res.2@[t] < res.0.len()
            &&& res.0@[res.2@[t]]@ == ev[ids@[t] as int].0[d as int]
        },
{
    let mut names: Vec<Vec<char>> = Vec::new();
    let mut firsts: Vec<usize> = Vec::new();
    let ghost mut which: Seq<int> = Seq::empty();
    let mut t: usize = 0;
    while t < ids.len()
        invariant
            ev == entries_view(es@),
            d == p.len(),
            ids_below(ev, ids@, p),
            t <= ids.len(),
            names.len() == firsts.len(),
            forall|k: int| 0 <= k < firsts.len() ==> {
                &&& in_ids(ids@, firsts@[k] as int)
                &&& #[trigger] names@[k]@ == ev[firsts@[k] as int].0[d as int]
            },
            forall|k1: int, k2: int| 0 <= k1 < k2 < names.len() ==> names@[k1]@ != names@[k2]@,
            forall|k: int, s: int| #![trigger firsts@[k], ids@[s]]
                0 <= k < names.len() && 0 <= s < t && ev[ids@[s] as int].0[d as int] == names@[k]@
                ==> firsts@[k] <= ids@[s],
            forall|k: int| #![trigger firsts@[k]] 0 <= k < firsts.len() ==> exists|s: int| 0 <= s < t && #[trigger] ids@[s] == firsts@[k],
            which.len() == t,
            forall|s: int| #![trigger which[s]] 0 <= s < t ==> {
                &&& 0 <= which[s] < names.len()
                &&& names@[which[s]]@ == ev[ids@[s] as int].0[d as int]
            },
        decreases ids.len() - t,
    {
        let i = ids[t];
        assert(in_ids(ids@, i as int));
        let part = part_at(es, Ghost(ev), i, d);
        let found_at = find_name(&names, part.as_slice());
        match found_at {
            None => {
                let ghost old_names = names@;
                let ghost old_firsts = firsts@;
                let ghost old_which = which;
                names.push(part.clone());
                firsts.push(i);
                proof {
                    which = which.push(old_names.len() as int);
                    assert(names@[old_names.len() as int]@ == part@);
                    assert forall|k1: int, k2: int| 0 <= k1 < k2 < names.len() implies names@[k1]@ != names@[k2]@ by {
                        assert(names@[k1] == old_names[k1]);
                        if k2 < old_names.len() {
                            assert(names@[k2] == old_names[k2]);
                        }
                    }
                    assert forall|k2: int| #![trigger firsts@[k2]] 0 <= k2 < firsts.len() implies exists|s: int| 0 <= s < t + 1 && #[trigger] ids@[s] == firsts@[k2] by {
                        if k2 < old_firsts.len() {
                            assert(firsts@[k2] == old_firsts[k2]);
                        } else {
                            assert(ids@[t as int] == firsts@[k2]);
                        }
                    }
                    assert forall|s: int| #![trigger which[s]] 0 <= s < t + 1 implies {
                        &&& 0 <= which[s] < names.len()
                        &&& names@[which[s]]@ == ev[ids@[s] as int].0[d as int]
                    } by {
                        if s < t {
                            assert(which[s] == old_which[s]);
                            assert(names@[which[s]] == old_names[which[s]]);
                        }
                    }
                    assert forall|k2: int, s: int| #![trigger firsts@[k2], ids@[s]]
                        0 <= k2 < names.len() && 0 <= s < t + 1 && ev[ids@[s] as int].0[d as int] == names@[k2]@
                        implies firsts@[k2] <= ids@[s] by {
                        if k2 == old_names.len() {
                            if s < t {
                                let k3 = old_which[s];
                                assert(old_names[k3]@ == part@);
                            }
                            assert(firsts@[k2] == i);
                        } else {
                            assert(names@[k2] == old_names[k2]);
                            assert(firsts@[k2] == old_firsts[k2]);
                            if s == t {
                                assert(old_names[k2]@ == part@);
                            }
                        }
                    }
                }
            },
            Some(k) => {
                proof {
                    which = which.push(k as int);
                    assert(names@[k as int]@ == ev[ids@[t as int] as int].0[d as int]);
                    assert forall|k2: int, s: int| #![trigger firsts@[k2], ids@[s]]
                        0 <= k2 < names.len() && 0 <= s < t + 1 && ev[ids@[s] as int].0[d as int] == names@[k2]@
                        implies firsts@[k2] <= ids@[s] by {
                        if s == t {
                            assert(names@[k2]@ == names@[k as int]@);
                            let s2 = choose|s2: int| 0 <= s2 < t && #[trigger] ids@[s2] == firsts@[k2];
                            assert(ids@[s2] < ids@[s]);
                        }
                    }
                }
            },
        }
        t = t + 1;
    }
    (names, firsts, Ghost(which))
}

pub proof fn lemma_key_lt_transitive(af: bool, a: Seq<char>, bf: bool, b: Seq<char>, cf: bool, c: Seq<char>)
    requires
        key_lt(af, a, bf, b),
        key_lt(bf, b, cf, c),
    ensures
        key_lt(af, a, cf, c),
{
    if af == bf && bf == cf {
        lemma_name_lt_transitive(a, b, c);
    }
}

pub proof fn lemma_key_lt_total(af: bool, a: Seq<char>, bf: bool, b: Seq<char>)
    requires
        a != b,
    ensures
        key_lt(af, a, bf, b) || key_lt(bf, b, af, a),
{
    lemma_name_lt_total(a, b);
}

pub open spec fn key_sorted(order: Seq<usize>, files: Seq<bool>, nv: Seq<Seq<char>>) -> bool {
    forall|m1: int, m2: int| #![trigger order[m1], order[m2]]
        0 <= m1 < m2 < order.len() ==> key_lt(
            files[order[m1] as int], nv[order[m1] as int], files[order[m2] as int], nv[order[m2] as int])
}

#[verifier::rlimit(40)]
/// The indices `0..n` ordered by (kind, name): directories first, then names in order.
fn sort_order(files: &Vec<bool>, names: &Vec<Vec<char>>, Ghost(nv): Ghost<Seq<Seq<char>>>) -> (res: (Vec<usize>, Ghost<Seq<int>>))
    requires
        files.len() == names.len(),
        nv == names@.map_values(|v: Vec<char>| v@),
        forall|k1: int, k2: int| 0 <= k1 < k2 < nv.len() ==> nv[k1] != nv[k2],
    ensures
        res.0.len() == names.len(),
        forall|m: int| 0 <= m < res.0.len() ==> res.0@[m] < names.len(),
        key_sorted(res.0@, files@, nv),
        res.1@.len() == names.len(),
        forall|k: int| #![trigger res.1@[k]] 0 <= k < names.len() ==> 0 <= res.1@[k] < res.0.len() && res.0@[res.1@[k]] == k,
{
    let n = names.len();
    let mut order: Vec<usize> = Vec::new();
    let ghost mut inv: Seq<int> = Seq::empty();
    let mut k: usize = 0;
    while k < n
        invariant
            n == names.len(),
            files.len() == n,
            nv == names@.map_values(|v: Vec<char>| v@),
            forall|k1: int, k2: int| 0 <= k1 < k2 < nv.len() ==> nv[k1] != nv[k2],
            k <= n,
            order.len() == k,
            forall|m: int| 0 <= m < order.len() ==> order@[m] < k,
            key_sorted(order@, files@, nv),
            inv.len() == k,
            forall|j: int| #![trigger inv[j]] 0 <= j < k ==> 0 <= inv[j] < order.len() && order@[inv[j]] == j,
        decreases n - k,
    {
        let mut pos: usize = 0;
        while pos < order.len() && !key_less(files[k], names[k].as_slice(), files[order[pos]], names[order[pos]].as_slice())
            invariant
                n == names.len(),
                files.len() == n,
                nv == names@.map_values(|v: Vec<char>| v@),
                k < n,
                pos <= order.len(),
                forall|m: int| 0 <= m < order.len() ==> order@[m] < k,
                forall|m: int| 0 <= m < pos ==> !key_lt(files@[k as int], nv[k as int], files@[order@[m] as int], nv[order@[m] as int]),
            decreases order.len() - pos,
        {
            pos = pos + 1;
        }
        let ghost old_order = order@;
        let ghost old_inv = inv;
        order.insert(pos, k);
        proof {
            old_order.insert_ensures(pos as int, k);
            let fk = files@[k as int];
            let nk = nv[k as int];
            assert forall|m1: int, m2: int| #![trigger order@[m1], order@[m2]] 0 <= m1 < m2 < order.len() implies key_lt(
                files@[order@[m1] as int], nv[order@[m1] as int], files@[order@[m2] as int], nv[order@[m2] as int]) by {
                let a = order@[m1] as int;
                let b = order@[m2] as int;
                if m2 == pos {
                    assert(a == old_order[m1]);
                    assert(nv[a] != nk);
                    lemma_key_lt_total(files@[a], nv[a], fk, nk);
                } else if m1 == pos {
                    assert(b == old_order[m2 - 1]);
                    let c = old_order[pos as int] as int;
                    if m2 - 1 > pos {
                        assert(key_lt(files@[c], nv[c], files@[b], nv[b])) by {
                            assert(old_order[pos as int] == old_order[pos as int]);
                            assert(key_lt(files@[old_order[pos as int] as int], nv[old_order[pos as int] as int],
                                files@[old_order[m2 - 1] as int], nv[old_order[m2 - 1] as int]));
                        }
                        lemma_key_lt_transitive(fk, nk, files@[c], nv[c], files@[b], nv[b]);
                    }
                } else {
                    let o1 = if m1 < pos { m1 } else { m1 - 1 };
                    let o2 = if m2 < pos { m2 } else { m2 - 1 };
                    assert(a == old_order[o1]);
                    assert(b == old_order[o2]);
                    assert(key_lt(files@[old_order[o1] as int], nv[old_order[o1] as int],
                        files@[old_order[o2] as int], nv[old_order[o2] as int]));
                }
            }
            inv = Seq::new((k + 1) as nat, |j: int| if j == k { pos as int } else if old_inv[j] >= pos { old_inv[j] + 1 } else { old_inv[j] });
            assert forall|j: int| #![trigger inv[j]] 0 <= j < k + 1 implies 0 <= inv[j] < order.len() && order@[inv[j]] == j by {
                if j < k {
                    assert(old_order[old_inv[j]] == j);
                }
            }
        }
        k = k + 1;
    }
    (order, Ghost(inv))
}

proof fn lemma_in_ids_push(ids: Seq<usize>, x: usize, i: int)
    ensures
        in_ids(ids.push(x), i) <==> (in_ids(ids, i) || i == x as int),
{
    if in_ids(ids.push(x), i) {
        let t = choose|t: int| 0 <= t < ids.push(x).len() && ids.push(x)[t] as int == i;
        if t < ids.len() {
            assert(ids[t] as int == i);
        }
    }
    if in_ids(ids, i) {
        let t = choose|t: int| 0 <= t < ids.len() && ids[t] as int == i;
        assert(ids.push(x)[t] as int == i);
    }
    if i == x as int {
        assert(ids.push(x)[ids.len() as int] as int == i);
    }
}

/// The entries strictly below the child `name` of the node `p`.
fn select_below(
    es: &Vec<(Vec<Vec<char>>, u64)>,
    Ghost(ev): Ghost<Seq<(Seq<Seq<char>>, u64)>>,
    ids: &Vec<usize>,
    Ghost(p): Ghost<Seq<Seq<char>>>,
    d: usize,
    name: &Vec<char>,
) -> (sub: Vec<usize>)
    requires
        ev == entries_view(es@),
        d == p.len(),
        ids_below(ev, ids@, p),
    ensures
        ids_below(ev, sub@, p.push(name@)),
{
    let mut sub: Vec<usize> = Vec::new();
    let mut t: usize = 0;
    while t < ids.len()
        invariant
            ev == entries_view(es@),
            d == p.len(),
            ids_below(ev, ids@, p),
            t <= ids.len(),
            forall|m: int| 0 <= m < sub.len() ==> (sub@[m] as int) < ev.len(),
            forall|m1: int, m2: int| 0 <= m1 < m2 < sub.len() ==> sub@[m1] < sub@[m2],
            forall|m: int| 0 <= m < sub.len() ==> t > 0 && sub@[m] <= ids@[t - 1],
            forall|i: int| in_ids(sub@, i) <==> (in_ids(ids@.take(t as int), i) && reaches(ev[i].0, p.push(name@))
                && ev[i].0.len() > p.len() + 1),
        decreases ids.len() - t,
    {
        let i = ids[t];
        assert(in_ids(ids@, i as int));
        proof {
            assert(ids@.take(t + 1) =~= ids@.take(t as int).push(i));
        }
        let len = parts_len(es, Ghost(ev), i);
        let ghost old_sub = sub@;
        let keep = len > d + 1 && seq_eq(part_at(es, Ghost(ev), i, d).as_slice(), name.as_slice());
        proof {
            lemma_reaches_push(ev[i as int].0, p, name@);
            assert(keep == (reaches(ev[i as int].0, p.push(name@)) && ev[i as int].0.len() > p.len() + 1));
        }
        if keep {
            sub.push(i);
        }
        proof {
            assert forall|j: int| in_ids(sub@, j) <==> (in_ids(ids@.take(t + 1), j) && reaches(ev[j].0, p.push(name@))
                && ev[j].0.len() > p.len() + 1) by {
                lemma_in_ids_push(ids@.take(t as int), i, j);
                if keep {
                    lemma_in_ids_push(old_sub, i, j);
                }
            }
            assert forall|m: int| 0 <= m < sub.len() implies sub@[m] <= ids@[t as int] by {
                if m < old_sub.len() {
                    assert(sub@[m] == old_sub[m]);
                    assert(t > 0 && old_sub[m] <= ids@[t - 1]);
                    let a: int = t - 1;
                    let b: int = t as int;
                    assert(0 <= a < b < ids@.len());
                    assert(ids@[a] < ids@[b]);
                }
            }
        }
        t = t + 1;
    }
    proof {
        assert(ids@.take(ids.len() as int) =~= ids@);
        assert forall|i: int| in_ids(sub@, i) <==> (0 <= i < ev.len() && reaches(ev[i].0, p.push(name@))
            && ev[i].0.len() > p.push(name@).len()) by {
            if reaches(ev[i].0, p.push(name@)) && 0 <= i < ev.len() {
                lemma_reaches_push(ev[i].0, p, name@);
            }
            if in_ids(sub@, i) {
                let m = choose|m: int| 0 <= m < sub.len() && sub@[m] as int == i;
            }
        }
    }
    sub
}

/// Whether a child list is the one of the node `p`: in order, exactly the names below
/// `p`, each child the node at its components.
pub open spec fn children_ok(children: Seq<DirectoryNode>, es: Seq<(Seq<Seq<char>>, u64)>, p: Seq<Seq<char>>) -> bool {
    &&& forall|i: int, j: int| 0 <= i < j < children.len() ==> node_lt(children[i], children[j])
    &&& forall|n: Seq<char>| has_child(es, p, n) <==>
        (exists|i: int| 0 <= i < children.len() && #[trigger] children[i].name@ == n)
    &&& forall|i: int| 0 <= i < children.len() ==> #[trigger] tree_ok(children[i], es, p.push(children[i].name@))
}

proof fn lemma_tree_ok_intro(node: DirectoryNode, es: Seq<(Seq<Seq<char>>, u64)>, p: Seq<Seq<char>>)
    requires
        node.path@ == join(p, "/"@),
        p.len() > 0 ==> node.name@ == p.last(),
        p.len() > 0 ==> node.kind@ == (if is_file_at(es, p) { "file"@ } else { "dir"@ }),
        p.len() > 0 ==> node.size_bytes == size_at(es, p),
        children_ok(node.children@, es, p),
    ensures
        tree_ok(node, es, p),
{
    assert forall|ix: Seq<int>| #[trigger] subnode(node, ix) is Some implies local_ok(subnode(node, ix).unwrap(), es, p + names_along(node, ix)) by {
        if ix.len() == 0 {
            assert(p + names_along(node, ix) =~= p);
        } else {
            let i = ix[0];
            let c = node.children@[i];
            assert(tree_ok(c, es, p.push(c.name@)));
            assert(subnode(c, ix.drop_first()) == subnode(node, ix));
            assert(p + names_along(node, ix) =~= p.push(c.name@) + names_along(c, ix.drop_first()));
        }
    }
}

fn kind_text(is_file: bool) -> (k: String)
    ensures
        k@ == (if is_file { "file"@ } else { "dir"@ }),
        is_file_kind(k@) == is_file,
{
    proof {
        reveal_strlit("file");
        reveal_strlit("dir");
    }
    if is_file {
        String::from_str("file")
    } else {
        let k = String::from_str("dir");
        assert(k@ != "file"@) by {
            assert(k@.len() != "file"@.len());
        }
        k
    }
}

/// The children of the node `p`, built from the entries strictly below it.
fn level(
    es: &Vec<(Vec<Vec<char>>, u64)>,
    Ghost(ev): Ghost<Seq<(Seq<Seq<char>>, u64)>>,
    ids: Vec<usize>,
    Ghost(p): Ghost<Seq<Seq<char>>>,
    d: usize,
    path: &str,
    fuel: usize,
) -> (children: Vec<DirectoryNode>)
    requires
        ev == entries_view(es@),
        d == p.len(),
        path@ == join(p, "/"@),
        ids_below(ev, ids@, p),
        forall|i: int| 0 <= i < ev.len() && reaches(#[trigger] ev[i].0, p) ==> ev[i].0.len() <= p.len() + fuel,
    ensures
        children_ok(children@, ev, p),
    decreases fuel,
{
    if ids.len() == 0 {
        proof {
            assert forall|n: Seq<char>| !has_child(ev, p, n) by {
                if has_child(ev, p, n) {
                    let i = choose|i: int| 0 <= i < ev.len() && #[trigger] reaches(ev[i].0, p.push(n));
                    lemma_reaches_push(ev[i].0, p, n);
                    assert(in_ids(ids@, i));
                }
            }
        }
        return Vec::new();
    }
    proof {
        let i0 = ids@[0] as int;
        assert(in_ids(ids@, i0));
        assert(reaches(ev[i0].0, p));
    }
    let l0 = parts_len(es, Ghost(ev), ids[0]);
    assert(d < l0);
    let (names, firsts, Ghost(which)) = collect_names(es, Ghost(ev), &ids, Ghost(p), d);
    let ghost nv = names@.map_values(|v: Vec<char>| v@);
    let mut files: Vec<bool> = Vec::new();
    let mut k: usize = 0;
    while k < firsts.len()
        invariant
            ev == entries_view(es@),
            k <= firsts.len(),
            files.len() == k,
            d < usize::MAX,
            forall|k2: int| 0 <= k2 < firsts.len() ==> (firsts@[k2] as int) < ev.len(),
            forall|k2: int| 0 <= k2 < k ==> files@[k2] == (ev[firsts@[k2] as int].0.len() == d + 1),
        decreases firsts.len() - k,
    {
        let len = parts_len(es, Ghost(ev), firsts[k]);
        files.push(len == d + 1);
        k = k + 1;
    }
    proof {
        assert forall|k1: int, k2: int| 0 <= k1 < k2 < nv.len() implies nv[k1] != nv[k2] by {
            assert(names@[k1]@ != names@[k2]@);
        }
    }
    let (order, Ghost(inv)) = sort_order(&files, &names, Ghost(nv));
    let mut out: Vec<DirectoryNode> = Vec::new();
    let mut m: usize = 0;
    while m < order.len()
        invariant
            ev == entries_view(es@),
            d == p.len(),
            path@ == join(p, "/"@),
            ids_below(ev, ids@, p),
            forall|i: int| 0 <= i < ev.len() && reaches(#[trigger] ev[i].0, p) ==> ev[i].0.len() <= p.len() + fuel,
            fuel >= 1,
            d < usize::MAX,
            nv == names@.map_values(|v: Vec<char>| v@),
            names.len() == firsts.len(),
            files.len() == names.len(),
            order.len() == names.len(),
            forall|m2: int| 0 <= m2 < order.len() ==> order@[m2] < names.len(),
            forall|k2: int| 0 <= k2 < firsts.len() ==> {
                &&& in_ids(ids@, firsts@[k2] as int)
                &&& #[trigger] names@[k2]@ == ev[firsts@[k2] as int].0[d as int]
            },
            forall|k2: int, t: int| #![trigger firsts@[k2], ids@[t]]
                0 <= k2 < names.len() && 0 <= t < ids.len() && ev[ids@[t] as int].0[d as int] == names@[k2]@
                ==> firsts@[k2] <= ids@[t],
            forall|k2: int| 0 <= k2 < firsts.len() ==> files@[k2] == (ev[firsts@[k2] as int].0.len() == d + 1),
            m <= order.len(),
            out.len() == m,
            forall|j: int| #![trigger out@[j]] 0 <= j < m ==> {
                &&& out@[j].name@ == nv[order@[j] as int]
                &&& is_file_kind(out@[j].kind@) == files@[order@[j] as int]
                &&& tree_ok(out@[j], ev, p.push(out@[j].name@))
            },
        decreases order.len() - m,
    {
        let k = order[m];
        let name = &names[k];
        let ghost q = p.push(name@);
        let f = firsts[k];
        let sub = select_below(es, Ghost(ev), &ids, Ghost(p), d, name);
        let child_path = if d == 0 {
            string_of(name.as_slice())
        } else {
            let mut cp = String::from_str(path);
            push_char(&mut cp, '/');
            push_chars(&mut cp, name.as_slice());
            cp
        };
        proof {
            reveal_strlit("/");
            lemma_join_push(p, "/"@, name@);
            assert("/"@ == seq!['/']);
            if d > 0 {
                assert(child_path@ == path@ + seq!['/'] + name@);
            }
            assert(child_path@ == join(q, "/"@));
            assert forall|i: int| 0 <= i < ev.len() && reaches(#[trigger] ev[i].0, q) implies ev[i].0.len() <= q.len() + (fuel - 1) by {
                lemma_reaches_push(ev[i].0, p, name@);
            }
        }
        let children = level(es, Ghost(ev), sub, Ghost(q), d + 1, child_path.as_str(), fuel - 1);
        let is_file = files[k];
        let size_bytes = if is_file {
            assert(ev[f as int] == entry_view(es@[f as int]));
            Some(es[f].1)
        } else {
            None
        };
        let node = DirectoryNode {
            name: string_of(name.as_slice()),
            path: child_path,
            kind: kind_text(is_file),
            children,
            size_bytes,
        };
        proof {
            let fi = f as int;
            assert(in_ids(ids@, fi));
            lemma_reaches_push(ev[fi].0, p, name@);
            assert(reaches(ev[fi].0, q));
            assert forall|j: int| 0 <= j < fi implies !reaches(#[trigger] ev[j].0, q) by {
                if reaches(ev[j].0, q) {
                    lemma_reaches_push(ev[j].0, p, name@);
                    assert(in_ids(ids@, j));
                    let t = choose|t: int| 0 <= t < ids@.len() && ids@[t] as int == j;
                    assert(firsts@[k as int] <= ids@[t]);
                }
            }
            lemma_first_reaching(ev, q, fi as nat, 0);
            assert(node.path@ == join(q, "/"@));
            assert(node.name@ == q.last());
            assert(is_file_at(ev, q) == is_file);
            assert(node.kind@ == (if is_file_at(ev, q) { "file"@ } else { "dir"@ }));
            assert(node.size_bytes == size_at(ev, q));
            assert(children_ok(node.children@, ev, q));
            lemma_tree_ok_intro(node, ev, q);
            let ghost old_out = out@;
        }
        let ghost old_out = out@;
        out.push(node);
        proof {
            assert forall|j: int| #![trigger out@[j]] 0 <= j < m + 1 implies {
                &&& out@[j].name@ == nv[order@[j] as int]
                &&& is_file_kind(out@[j].kind@) == files@[order@[j] as int]
                &&& tree_ok(out@[j], ev, p.push(out@[j].name@))
            } by {
                if j < m {
                    assert(out@[j] == old_out[j]);
                }
            }
        }
        m = m + 1;
    }
    proof {
        assert forall|i: int, j: int| 0 <= i < j < out.len() implies node_lt(out@[i], out@[j]) by {
            assert(key_lt(files@[order@[i] as int], nv[order@[i] as int], files@[order@[j] as int], nv[order@[j] as int]));
            assert(out@[i].name@ == nv[order@[i] as int]);
            assert(out@[j].name@ == nv[order@[j] as int]);
        }
        assert forall|n: Seq<char>| has_child(ev, p, n) <==>
            (exists|i: int| 0 <= i < out.len() && #[trigger] out@[i].name@ == n) by {
            if has_child(ev, p, n) {
                let i = choose|i: int| 0 <= i < ev.len() && #[trigger] reaches(ev[i].0, p.push(n));
                lemma_reaches_push(ev[i].0, p, n);
                assert(in_ids(ids@, i));
                let t = choose|t: int| 0 <= t < ids@.len() && ids@[t] as int == i;
                let k2 = which[t];
                assert(names@[k2]@ == ev[ids@[t] as int].0[d as int]);
                let m2 = inv[k2];
                assert(out@[m2].name@ == nv[order@[m2] as int]);
                assert(out@[m2].name@ == n);
            }
            if exists|i: int| 0 <= i < out.len() && #[trigger] out@[i].name@ == n {
                let i = choose|i: int| 0 <= i < out.len() && #[trigger] out@[i].name@ == n;
                let k2 = order@[i] as int;
                assert(names@[k2]@ == ev[firsts@[k2] as int].0[d as int]);
                let fi = firsts@[k2] as int;
                assert(in_ids(ids@, fi));
                lemma_reaches_push(ev[fi].0, p, n);
                assert(reaches(ev[fi].0, p.push(n)));
            }
        }
    }
    out
}

/// The directory tree of the scanned files under a root named `root_name`. Each node
/// is made by the first file whose path goes through it, as a file node if that path
/// ends there; children list directories first, then files, each kind by name.
pub fn build(files: &[ScannedFile], root_name: &str) -> (root: DirectoryNode)
    ensures
        root.name@ == root_name@,
        root.path@ == Seq::<char>::empty(),
        root.kind@ == "dir"@,
        root.size_bytes is None,
        tree_ok(root, entries_of(files@), Seq::empty()),
{
    let ghost ev = entries_of(files@);
    let mut es: Vec<(Vec<Vec<char>>, u64)> = Vec::new();
    let mut ids: Vec<usize> = Vec::new();
    let mut fuel: usize = 0;
    let mut i: usize = 0;
    while i < files.len()
        invariant
            i <= files.len(),
            ev == entries_of(files@),
            entries_view(es@) == ev.take(i as int),
            forall|t: int| 0 <= t < ids.len() ==> (ids@[t] as int) < i,
            forall|t1: int, t2: int| 0 <= t1 < t2 < ids.len() ==> ids@[t1] < ids@[t2],
            forall|j: int| in_ids(ids@, j) <==> (0 <= j < i && ev[j].0.len() > 0),
            forall|j: int| 0 <= j < i ==> ev[j].0.len() <= fuel,
        decreases files.len() - i,
    {
        let parts = path_parts_exec(files[i].path.as_str());
        let n = parts.len();
        let ghost pv = parts_view(parts@);
        assert(es@.len() == i) by {
            assert(entries_view(es@).len() == es@.len());
        }
        let ghost old_ids = ids@;
        let ghost old_es = es@;
        es.push((parts, files[i].size_bytes));
        proof {
            assert(ev[i as int] == (path_parts(files@[i as int].path@), files@[i as int].size_bytes));
            assert(es@[i as int].0@ == parts@);
            assert(entry_view(es@[i as int]) == ev[i as int]);
            assert(entries_view(es@) =~= ev.take(i + 1));
        }
        if n > 0 {
            ids.push(i);
        }
        if n > fuel {
            fuel = n;
        }
        proof {
            assert forall|j: int| in_ids(ids@, j) <==> (0 <= j < i + 1 && ev[j].0.len() > 0) by {
                if n > 0 {
                    lemma_in_ids_push(old_ids, i, j);
                }
                if in_ids(old_ids, j) {
                    let t = choose|t: int| 0 <= t < old_ids.len() && old_ids[t] as int == j;
                }
            }
        }
        i = i + 1;
    }
    proof {
        assert(ev.take(files.len() as int) =~= ev);
        assert forall|j: int| in_ids(ids@, j) <==> (0 <= j < ev.len() && reaches(ev[j].0, Seq::empty())
            && ev[j].0.len() > 0) by {
            if 0 <= j < ev.len() {
                assert(ev[j].0.subrange(0, 0) =~= Seq::<Seq<char>>::empty());
            }
        }
        assert(join(Seq::<Seq<char>>::empty(), "/"@) == Seq::<char>::empty());
        reveal_strlit("");
    }
    let no_path = String::new();
    let children = level(&es, Ghost(ev), ids, Ghost(Seq::empty()), 0, no_path.as_str(), fuel);
    let root = DirectoryNode {
        name: String::from_str(root_name),
        path: String::new(),
        kind: kind_text(false),
        children,
        size_bytes: None,
    };
    proof {
        assert(root.path@ == join(Seq::<Seq<char>>::empty(), "/"@));
        lemma_tree_ok_intro(root, ev, Seq::empty());
    }
    root
}

} // verus!
