//! Relative-path handling on character sequences. Both '/' and '\\' separate components,
//! as on the Windows target of the application.
use crate::text::{chars_of, last_index_of, push_char, push_str, rfind_char, slice_chars, string_of};
use vstd::prelude::*;

verus! {

pub open spec fn is_sep(c: char) -> bool {
    c == '/' || c == '\\'
}

/// The pieces between separators, empty ones included; `cur` is the piece being read.
pub open spec fn pieces_acc(s: Seq<char>, cur: Seq<char>) -> Seq<Seq<char>>
    decreases s.len(),
{
    if s.len() == 0 {
        seq![cur]
    } else if is_sep(s[0]) {
        seq![cur] + pieces_acc(s.drop_first(), Seq::empty())
    } else {
        pieces_acc(s.drop_first(), cur.push(s[0]))
    }
}

pub open spec fn pieces(s: Seq<char>) -> Seq<Seq<char>> {
    pieces_acc(s, Seq::empty())
}

/// A piece that names a component (not empty and not ".").
pub open spec fn is_component(p: Seq<char>) -> bool {
    p.len() > 0 && p != seq!['.']
}

/// The path components (std `Path::components` for relative paths, `.` dropped).
pub open spec fn components(s: Seq<char>) -> Seq<Seq<char>> {
    pieces(s).filter(|p: Seq<char>| is_component(p))
}

/// std `Path::file_name`: the last component unless it is "..".
pub open spec fn file_name(s: Seq<char>) -> Option<Seq<char>> {
    let cs = components(s);
    if cs.len() == 0 || cs.last() == seq!['.', '.'] {
        None
    } else {
        Some(cs.last())
    }
}

/// std `Path::file_stem` applied to a file name: the part before the last '.', unless
/// that '.' starts the name.
pub open spec fn stem_of(name: Seq<char>) -> Seq<char> {
    match last_index_of(name, '.') {
        Some(i) => if i == 0 { name } else { name.subrange(0, i) },
        None => name,
    }
}

/// std `Path::extension` applied to a file name.
pub open spec fn extension_of(name: Seq<char>) -> Option<Seq<char>> {
    match last_index_of(name, '.') {
        Some(i) => if i == 0 { None } else { Some(name.subrange(i + 1, name.len() as int)) },
        None => None,
    }
}

pub open spec fn file_stem(s: Seq<char>) -> Option<Seq<char>> {
    match file_name(s) {
        Some(n) => Some(stem_of(n)),
        None => None,
    }
}

pub open spec fn extension(s: Seq<char>) -> Option<Seq<char>> {
    match file_name(s) {
        Some(n) => extension_of(n),
        None => None,
    }
}

proof fn lemma_pieces_step(s: Seq<char>, cur: Seq<char>, i: int)
    requires
        0 <= i < s.len(),
    ensures
        pieces_acc(s.subrange(i, s.len() as int), cur) == if is_sep(s[i]) {
            seq![cur] + pieces_acc(s.subrange(i + 1, s.len() as int), Seq::empty())
        } else {
            pieces_acc(s.subrange(i + 1, s.len() as int), cur.push(s[i]))
        },
{
    assert(s.subrange(i, s.len() as int).drop_first() =~= s.subrange(i + 1, s.len() as int));
}

/// The pieces between separators.
pub fn pieces_exec(s: &[char]) -> (res: Vec<Vec<char>>)
    ensures
        res@.map_values(|p: Vec<char>| p@) == pieces(s@),
{
    let mut res: Vec<Vec<char>> = Vec::new();
    let mut cur: Vec<char> = Vec::new();
    let mut i: usize = 0;
    assert(s@.subrange(0, s@.len() as int) =~= s@);
    while i < s.len()
        invariant
            i <= s.len(),
            res@.map_values(|p: Vec<char>| p@) + pieces_acc(s@.subrange(i as int, s@.len() as int), cur@) == pieces(s@),
        decreases s.len() - i,
    {
        proof {
            lemma_pieces_step(s@, cur@, i as int);
        }
        if s[i] == '/' || s[i] == '\\' {
            let ghost prev = res@.map_values(|p: Vec<char>| p@);
            res.push(cur);
            assert(res@.map_values(|p: Vec<char>| p@) =~= prev.push(cur@));
            cur = Vec::new();
        } else {
            cur.push(s[i]);
        }
        i = i + 1;
    }
    let ghost prev = res@.map_values(|p: Vec<char>| p@);
    assert(s@.subrange(s@.len() as int, s@.len() as int) =~= Seq::<char>::empty());
    res.push(cur);
    assert(res@.map_values(|p: Vec<char>| p@) =~= prev.push(cur@));
    res
}

pub fn is_component_exec(p: &[char]) -> (res: bool)
    ensures
        res == is_component(p@),
{
    if p.len() == 0 {
        false
    } else if p.len() == 1 && p[0] == '.' {
        assert(p@ =~= seq!['.']);
        false
    } else {
        proof {
            if p@ == seq!['.'] {
                assert(p@[0] == '.');
            }
        }
        true
    }
}

/// The path components.
pub fn components_exec(s: &[char]) -> (res: Vec<Vec<char>>)
    ensures
        res@.map_values(|p: Vec<char>| p@) == components(s@),
{
    let ps = pieces_exec(s);
    let ghost pv = ps@.map_values(|p: Vec<char>| p@);
    let mut res: Vec<Vec<char>> = Vec::new();
    let mut i: usize = 0;
    while i < ps.len()
        invariant
            i <= ps.len(),
            pv == ps@.map_values(|p: Vec<char>| p@),
            res@.map_values(|p: Vec<char>| p@) == pv.take(i as int).filter(|p: Seq<char>| is_component(p)),
        decreases ps.len() - i,
    {
        let ghost prev = res@.map_values(|p: Vec<char>| p@);
        proof {
            reveal_with_fuel(Seq::filter, 1);
            assert(pv.take(i + 1).drop_last() =~= pv.take(i as int));
        }
        if is_component_exec(ps[i].as_slice()) {
            res.push(ps[i].clone());
            assert(res@.map_values(|p: Vec<char>| p@) =~= prev.push(pv[i as int]));
        }
        i = i + 1;
    }
    assert(pv.take(ps.len() as int) =~= pv);
    res
}

fn is_dot_dot(p: &[char]) -> (res: bool)
    ensures
        res == (p@ == seq!['.', '.']),
{
    if p.len() == 2 && p[0] == '.' && p[1] == '.' {
        assert(p@ =~= seq!['.', '.']);
        true
    } else {
        proof {
            if p@ == seq!['.', '.'] {
                assert(p@[0] == '.' && p@[1] == '.');
            }
        }
        false
    }
}

/// std `Path::file_name`.
pub fn file_name_exec(s: &[char]) -> (res: Option<Vec<char>>)
    ensures
        match res {
            Some(n) => file_name(s@) == Some(n@),
            None => file_name(s@) is None,
        },
{
    let cs = components_exec(s);
    let ghost cv = cs@.map_values(|p: Vec<char>| p@);
    if cs.len() == 0 {
        return None;
    }
    let last = cs.len() - 1;
    assert(cv.last() == cs@[last as int]@);
    if is_dot_dot(cs[last].as_slice()) {
        None
    } else {
        Some(cs[last].clone())
    }
}

/// std `Path::file_stem` of a file name.
pub fn stem_of_exec(name: &[char]) -> (res: Vec<char>)
    ensures
        res@ == stem_of(name@),
{
    match rfind_char(name, '.') {
        Some(i) => if i == 0 { slice_chars(name, 0, name.len()) } else { slice_chars(name, 0, i) },
        None => slice_chars(name, 0, name.len()),
    }
}

/// std `Path::extension` of a file name.
pub fn extension_of_exec(name: &[char]) -> (res: Option<Vec<char>>)
    ensures
        match res {
            Some(e) => extension_of(name@) == Some(e@),
            None => extension_of(name@) is None,
        },
{
    match rfind_char(name, '.') {
        Some(i) => if i == 0 { None } else {
            Some(slice_chars(name, i + 1, name.len()))
        },
        None => None,
    }
}

/// The main path separator of a platform: '\\' on Windows, '/' elsewhere.
pub open spec fn platform_sep(sep: char) -> bool {
    sep == '/' || sep == '\\'
}

/// Whether `c` ends a path component on the platform whose main separator is `sep`:
/// '/' everywhere, '\\' too on Windows.
pub open spec fn ends_component(c: char, sep: char) -> bool {
    c == '/' || (sep == '\\' && c == '\\')
}

/// std `PathBuf::join` of a relative name, as text: the main separator `sep` is put
/// between them unless the path is empty or already ends with a separator.
pub open spec fn join_path(base: Seq<char>, name: Seq<char>, sep: char) -> Seq<char> {
    if base.len() == 0 || ends_component(base.last(), sep) {
        base + name
    } else {
        base + seq![sep] + name
    }
}

/// std `std::path::MAIN_SEPARATOR`, which depends on the target platform.
#[verifier::external_body]
pub(crate) fn main_separator() -> (sep: char)
    ensures
        platform_sep(sep),
{
    std::path::MAIN_SEPARATOR
}

pub fn join_path_exec(base: &str, name: &str, sep: char) -> (res: String)
    ensures
        res@ == join_path(base@, name@, sep),
{
    let bs = chars_of(base);
    let mut res = string_of(bs.as_slice());
    if bs.len() > 0 {
        let c = bs[bs.len() - 1];
        if !(c == '/' || (sep == '\\' && c == '\\')) {
            push_char(&mut res, sep);
        }
    }
    push_str(&mut res, name);
    res
}

} // verus!
