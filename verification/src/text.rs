//! Character-sequence utilities shared by the analyzers and document builders.
//! Every executable helper is tied to a spec function over `Seq<char>`.
use vstd::prelude::*;
use vstd::string::StringExecFns;

verus! {

// ---------------------------------------------------------------------
// Specifications
// ---------------------------------------------------------------------

/// The character sequences of a list of strings.
pub open spec fn strs(v: Seq<String>) -> Seq<Seq<char>> {
    v.map_values(|s: String| s@)
}

/// `needle` occurs in `hay` starting at position `i`.
pub open spec fn occurs_at(hay: Seq<char>, needle: Seq<char>, i: int) -> bool {
    0 <= i && i + needle.len() <= hay.len() && hay.subrange(i, i + needle.len()) == needle
}

/// `needle` occurs somewhere in `hay` (std `str::contains`).
pub open spec fn contains_seq(hay: Seq<char>, needle: Seq<char>) -> bool {
    exists|i: int| occurs_at(hay, needle, i)
}

/// `hay` begins with `prefix` (std `str::starts_with`).
pub open spec fn starts_with(hay: Seq<char>, prefix: Seq<char>) -> bool {
    prefix.len() <= hay.len() && hay.subrange(0, prefix.len() as int) == prefix
}

/// `hay` ends with `suffix` (std `str::ends_with`).
pub open spec fn ends_with(hay: Seq<char>, suffix: Seq<char>) -> bool {
    suffix.len() <= hay.len() && hay.subrange(hay.len() - suffix.len(), hay.len() as int) == suffix
}

/// Number of non-overlapping occurrences of `needle` in `hay`, scanning from
/// position `i` leftwards-first (std `str::matches(..).count()`).
pub open spec fn count_from(hay: Seq<char>, needle: Seq<char>, i: int) -> nat
    decreases hay.len() - i,
{
    if needle.len() == 0 || i < 0 || i + needle.len() > hay.len() {
        0
    } else if occurs_at(hay, needle, i) {
        1 + count_from(hay, needle, i + needle.len())
    } else {
        count_from(hay, needle, i + 1)
    }
}

pub open spec fn count_matches(hay: Seq<char>, needle: Seq<char>) -> nat {
    count_from(hay, needle, 0)
}

/// ASCII lower-casing of one character (std `char::to_ascii_lowercase`).
pub open spec fn ascii_lower(c: char) -> char {
    if 'A' <= c && c <= 'Z' {
        ((c as u32) + 32) as char
    } else {
        c
    }
}

pub open spec fn ascii_lower_seq(s: Seq<char>) -> Seq<char> {
    s.map_values(|c: char| ascii_lower(c))
}

/// std `str::eq_ignore_ascii_case`.
pub open spec fn eq_ignore_ascii_case(a: Seq<char>, b: Seq<char>) -> bool {
    ascii_lower_seq(a) == ascii_lower_seq(b)
}

/// Replace every occurrence of character `from` with `to`.
pub open spec fn replace_char(s: Seq<char>, from: char, to: char) -> Seq<char> {
    s.map_values(|c: char| if c == from { to } else { c })
}

/// Join `parts` with `sep` between consecutive elements (std `[String]::join`).
pub open spec fn join(parts: Seq<Seq<char>>, sep: Seq<char>) -> Seq<char>
    decreases parts.len(),
{
    if parts.len() == 0 {
        Seq::empty()
    } else if parts.len() == 1 {
        parts[0]
    } else {
        join(parts.drop_last(), sep) + sep + parts.last()
    }
}

/// Decimal digit character.
pub open spec fn digit_char(d: nat) -> char {
    ((d % 10) + 48) as char
}

/// Decimal rendering of a natural number (std `Display` for unsigned integers).
pub open spec fn decimal(n: nat) -> Seq<char>
    decreases n,
{
    if n < 10 {
        seq![digit_char(n)]
    } else {
        decimal(n / 10).push(digit_char(n % 10))
    }
}

/// Index of the last occurrence of `c` in `s`, if any.
pub open spec fn last_index_of(s: Seq<char>, c: char) -> Option<int>
    decreases s.len(),
{
    if s.len() == 0 {
        None
    } else if s.last() == c {
        Some(s.len() - 1)
    } else {
        last_index_of(s.drop_last(), c)
    }
}

/// Index of the first occurrence of `c` in `s`, if any.
pub open spec fn first_index_of(s: Seq<char>, c: char) -> Option<int>
    decreases s.len(),
{
    if s.len() == 0 {
        None
    } else if s[0] == c {
        Some(0)
    } else {
        match first_index_of(s.drop_first(), c) {
            Some(i) => Some(i + 1),
            None => None,
        }
    }
}

/// Number of lines (std `str::lines().count()`): every '\n' ends a line, and a
/// non-empty tail without a final '\n' is one more line.
pub open spec fn line_count(s: Seq<char>) -> nat {
    newline_count(s) + if s.len() > 0 && s.last() != '\n' { 1nat } else { 0nat }
}

/// Number of '\n' characters.
pub open spec fn newline_count(s: Seq<char>) -> nat
    decreases s.len(),
{
    if s.len() == 0 {
        0
    } else {
        newline_count(s.drop_last()) + if s.last() == '\n' { 1nat } else { 0nat }
    }
}

/// Drop one trailing '\r' (the line terminator "\r\n" of std `str::lines`).
pub open spec fn strip_cr(line: Seq<char>) -> Seq<char> {
    if line.len() > 0 && line.last() == '\r' {
        line.drop_last()
    } else {
        line
    }
}

/// The lines of `s` (std `str::lines`): pieces between '\n', each without a trailing
/// '\r'; no empty piece after a final '\n'. `cur` is the piece being read.
pub open spec fn lines_acc(s: Seq<char>, cur: Seq<char>) -> Seq<Seq<char>>
    decreases s.len(),
{
    if s.len() == 0 {
        if cur.len() == 0 {
            Seq::empty()
        } else {
            seq![strip_cr(cur)]
        }
    } else if s[0] == '\n' {
        seq![strip_cr(cur)] + lines_acc(s.drop_first(), Seq::empty())
    } else {
        lines_acc(s.drop_first(), cur.push(s[0]))
    }
}

pub open spec fn lines(s: Seq<char>) -> Seq<Seq<char>> {
    lines_acc(s, Seq::empty())
}

/// Unicode White_Space (std `char::is_whitespace`).
pub open spec fn is_whitespace(c: char) -> bool {
    ||| ('\t' <= c && c <= '\r')
    ||| c == ' '
    ||| c == '\u{85}'
    ||| c == '\u{A0}'
    ||| c == '\u{1680}'
    ||| ('\u{2000}' <= c && c <= '\u{200A}')
    ||| c == '\u{2028}'
    ||| c == '\u{2029}'
    ||| c == '\u{202F}'
    ||| c == '\u{205F}'
    ||| c == '\u{3000}'
}

/// Leading whitespace removed.
pub open spec fn trim_start(s: Seq<char>) -> Seq<char>
    decreases s.len(),
{
    if s.len() > 0 && is_whitespace(s[0]) {
        trim_start(s.drop_first())
    } else {
        s
    }
}

/// Trailing whitespace removed.
pub open spec fn trim_end(s: Seq<char>) -> Seq<char>
    decreases s.len(),
{
    if s.len() > 0 && is_whitespace(s.last()) {
        trim_end(s.drop_last())
    } else {
        s
    }
}

/// std `str::trim`.
pub open spec fn trim(s: Seq<char>) -> Seq<char> {
    trim_end(trim_start(s))
}

/// The part before the first `c`, or all of `s` (std `str::split(c).next()`).
pub open spec fn before_first(s: Seq<char>, c: char) -> Seq<char> {
    match first_index_of(s, c) {
        Some(i) => s.subrange(0, i),
        None => s,
    }
}

// ---------------------------------------------------------------------
// Lemmas
// ---------------------------------------------------------------------

proof fn lemma_trim_start_shape(s: Seq<char>)
    ensures
        trim_start(s).len() > 0 ==> !is_whitespace(trim_start(s)[0]),
        trim_start(s).len() > 0 ==> trim_start(s).last() == s.last(),
        s.len() > 0 && !is_whitespace(s[0]) ==> trim_start(s) == s,
    decreases s.len(),
{
    if s.len() > 0 && is_whitespace(s[0]) {
        lemma_trim_start_shape(s.drop_first());
    }
}

proof fn lemma_trim_end_shape(s: Seq<char>)
    ensures
        trim_end(s).len() > 0 ==> !is_whitespace(trim_end(s).last()),
        trim_end(s).len() > 0 ==> trim_end(s)[0] == s[0],
        s.len() > 0 && !is_whitespace(s.last()) ==> trim_end(s) == s,
    decreases s.len(),
{
    if s.len() > 0 && is_whitespace(s.last()) {
        lemma_trim_end_shape(s.drop_last());
    }
}

/// A trimmed text starts and ends with non-whitespace, and trimming a text that already
/// does gives it back.
pub proof fn lemma_trim_shape(s: Seq<char>)
    ensures
        trim(s).len() > 0 ==> !is_whitespace(trim(s)[0]) && !is_whitespace(trim(s).last()),
        s.len() > 0 && !is_whitespace(s[0]) && !is_whitespace(s.last()) ==> trim(s) == s,
        s.len() == 0 ==> trim(s) == s,
{
    lemma_trim_start_shape(s);
    lemma_trim_end_shape(trim_start(s));
}

/// Trimming twice is trimming once.
pub proof fn lemma_trim_idempotent(s: Seq<char>)
    ensures
        trim(trim(s)) == trim(s),
{
    lemma_trim_shape(s);
    lemma_trim_shape(trim(s));
}


pub proof fn lemma_first_index_of(s: Seq<char>, c: char)
    ensures
        match first_index_of(s, c) {
            Some(i) => 0 <= i < s.len() && s[i] == c && forall|j: int| 0 <= j < i ==> s[j] != c,
            None => forall|j: int| 0 <= j < s.len() ==> s[j] != c,
        },
    decreases s.len(),
{
    if s.len() > 0 && s[0] != c {
        lemma_first_index_of(s.drop_first(), c);
        match first_index_of(s.drop_first(), c) {
            Some(i) => {
                assert forall|j: int| 0 <= j < i + 1 implies s[j] != c by {
                    if j > 0 {
                        assert(s[j] == s.drop_first()[j - 1]);
                    }
                }
            },
            None => {
                assert forall|j: int| 0 <= j < s.len() implies s[j] != c by {
                    if j > 0 {
                        assert(s[j] == s.drop_first()[j - 1]);
                    }
                }
            },
        }
    }
}

pub proof fn lemma_last_index_of(s: Seq<char>, c: char)
    ensures
        match last_index_of(s, c) {
            Some(i) => 0 <= i < s.len() && s[i] == c && forall|j: int| i < j < s.len() ==> s[j] != c,
            None => forall|j: int| 0 <= j < s.len() ==> s[j] != c,
        },
    decreases s.len(),
{
    if s.len() > 0 && s.last() != c {
        lemma_last_index_of(s.drop_last(), c);
        assert forall|j: int| 0 <= j < s.len() - 1 implies s[j] == s.drop_last()[j] by {}
    }
}

pub proof fn lemma_join_push(parts: Seq<Seq<char>>, sep: Seq<char>, p: Seq<char>)
    ensures
        join(parts.push(p), sep) == if parts.len() == 0 {
            p
        } else {
            join(parts, sep) + sep + p
        },
{
    assert(parts.push(p).drop_last() =~= parts);
}

// ---------------------------------------------------------------------
// Executable helpers
// ---------------------------------------------------------------------

/// Whether two texts are equal.
pub fn str_eq(a: &str, b: &str) -> (res: bool)
    ensures
        res == (a@ == b@),
{
    let x = chars_of(a);
    let y = chars_of(b);
    if x.len() != y.len() {
        return false;
    }
    let mut i: usize = 0;
    while i < x.len()
        invariant
            x@ == a@,
            y@ == b@,
            x.len() == y.len(),
            i <= x.len(),
            forall|j: int| 0 <= j < i ==> x@[j] == y@[j],
        decreases x.len() - i,
    {
        if x[i] != y[i] {
            return false;
        }
        i = i + 1;
    }
    assert(x@ =~= y@);
    true
}

/// Appends one character to a `String` (std `String::push`).
#[verifier::external_body]
pub(crate) fn push_char(s: &mut String, c: char)
    ensures
        final(s)@ == old(s)@.push(c),
{
    s.push(c);
}

/// Appends a string slice.
pub fn push_str(s: &mut String, t: &str)
    ensures
        final(s)@ == old(s)@ + t@,
{
    s.append(t);
}

/// The characters of a string slice, in order.
pub fn chars_of(s: &str) -> (res: Vec<char>)
    ensures
        res@ == s@,
{
    let mut res: Vec<char> = Vec::new();
    for c in it: s.chars()
        invariant
            res@ == it.seq().take(it.index() as int),
    {
        res.push(c);
    }
    res
}

/// A `String` holding exactly the given characters.
pub fn string_of(cs: &[char]) -> (res: String)
    ensures
        res@ == cs@,
{
    let mut res = String::new();
    let mut i: usize = 0;
    while i < cs.len()
        invariant
            i <= cs.len(),
            res@ == cs@.take(i as int),
        decreases cs.len() - i,
    {
        push_char(&mut res, cs[i]);
        assert(cs@.take(i + 1) == cs@.take(i as int).push(cs@[i as int]));
        i = i + 1;
    }
    assert(cs@.take(cs.len() as int) == cs@);
    res
}

/// Appends a sequence of characters to a `String`.
pub fn push_chars(s: &mut String, cs: &[char])
    ensures
        final(s)@ == old(s)@ + cs@,
{
    let mut i: usize = 0;
    while i < cs.len()
        invariant
            i <= cs.len(),
            s@ == old(s)@ + cs@.take(i as int),
        decreases cs.len() - i,
    {
        push_char(s, cs[i]);
        assert(cs@.take(i + 1) == cs@.take(i as int).push(cs@[i as int]));
        i = i + 1;
    }
    assert(cs@.take(cs.len() as int) == cs@);
}

/// Whether `needle` occurs at position `i` of `hay`.
pub fn occurs_at_exec(hay: &[char], needle: &[char], i: usize) -> (res: bool)
    ensures
        res == occurs_at(hay@, needle@, i as int),
{
    if i > hay.len() || needle.len() > hay.len() - i {
        return false;
    }
    let mut k: usize = 0;
    while k < needle.len()
        invariant
            i + needle.len() <= hay.len(),
            k <= needle.len(),
            forall|j: int| 0 <= j < k ==> hay@[i + j] == needle@[j],
        decreases needle.len() - k,
    {
        if hay[i + k] != needle[k] {
            assert(hay@.subrange(i as int, i + needle.len())[k as int] != needle@[k as int]);
            return false;
        }
        k = k + 1;
    }
    assert(hay@.subrange(i as int, i + needle.len()) =~= needle@);
    true
}

/// std `str::contains` for a character sequence and a pattern.
pub fn contains_exec(hay: &[char], needle: &[char]) -> (res: bool)
    ensures
        res == contains_seq(hay@, needle@),
{
    if needle.len() > hay.len() {
        return false;
    }
    let last = hay.len() - needle.len();
    let mut i: usize = 0;
    loop
        invariant
            needle.len() <= hay.len(),
            last == hay.len() - needle.len(),
            i <= last,
            forall|j: int| 0 <= j < i ==> !occurs_at(hay@, needle@, j),
        decreases last - i,
    {
        if occurs_at_exec(hay, needle, i) {
            return true;
        }
        if i == last {
            return false;
        }
        i = i + 1;
    }
}

/// `contains_exec` for a string-slice pattern.
pub fn contains_str(hay: &[char], needle: &str) -> (res: bool)
    ensures
        res == contains_seq(hay@, needle@),
{
    let n = chars_of(needle);
    contains_exec(hay, n.as_slice())
}

/// std `str::starts_with`.
pub fn starts_with_exec(hay: &[char], prefix: &[char]) -> (res: bool)
    ensures
        res == starts_with(hay@, prefix@),
{
    occurs_at_exec(hay, prefix, 0)
}

/// std `str::ends_with`.
pub fn ends_with_exec(hay: &[char], suffix: &[char]) -> (res: bool)
    ensures
        res == ends_with(hay@, suffix@),
{
    if suffix.len() > hay.len() {
        false
    } else {
        occurs_at_exec(hay, suffix, hay.len() - suffix.len())
    }
}

pub fn ends_with_str(hay: &[char], suffix: &str) -> (res: bool)
    ensures
        res == ends_with(hay@, suffix@),
{
    let s = chars_of(suffix);
    ends_with_exec(hay, s.as_slice())
}

proof fn lemma_count_from_bound(hay: Seq<char>, needle: Seq<char>, i: int)
    requires
        needle.len() > 0,
        0 <= i,
    ensures
        count_from(hay, needle, i) <= if i <= hay.len() { hay.len() - i } else { 0 },
    decreases hay.len() - i,
{
    if i + needle.len() <= hay.len() {
        if occurs_at(hay, needle, i) {
            lemma_count_from_bound(hay, needle, i + needle.len());
        } else {
            lemma_count_from_bound(hay, needle, i + 1);
        }
    }
}

/// std `str::matches(pattern).count()`: non-overlapping occurrences, leftmost first.
pub fn count_matches_exec(hay: &[char], needle: &str) -> (res: usize)
    ensures
        res == count_matches(hay@, needle@),
{
    let n = chars_of(needle);
    if n.len() == 0 {
        return 0;
    }
    let mut i: usize = 0;
    let mut count: usize = 0;
    proof {
        lemma_count_from_bound(hay@, n@, 0);
    }
    while i < hay.len() && n.len() <= hay.len() - i
        invariant
            n@ == needle@,
            n.len() > 0,
            i <= hay.len(),
            count + count_from(hay@, n@, i as int) == count_from(hay@, n@, 0),
            count_from(hay@, n@, 0) <= hay.len(),
        decreases hay.len() - i,
    {
        proof {
            lemma_count_from_bound(hay@, n@, i as int);
        }
        if occurs_at_exec(hay, n.as_slice(), i) {
            count = count + 1;
            i = i + n.len();
        } else {
            i = i + 1;
        }
    }
    count
}

/// std `char::to_ascii_lowercase`.
pub fn ascii_lower_exec(c: char) -> (res: char)
    ensures
        res == ascii_lower(c),
{
    if 'A' <= c && c <= 'Z' {
        let v: u32 = (c as u32) + 32;
        assert(v < 0xD800);
        char_from_u32(v)
    } else {
        c
    }
}

/// A valid scalar value below the surrogate range as a `char` (std `char::from_u32`).
#[verifier::external_body]
fn char_from_u32(v: u32) -> (res: char)
    requires
        v < 0xD800,
    ensures
        res == v as char,
{
    char::from_u32(v).unwrap()
}

/// std `str::to_ascii_lowercase` on a character sequence.
pub fn ascii_lower_chars(s: &[char]) -> (res: Vec<char>)
    ensures
        res@ == ascii_lower_seq(s@),
{
    let mut res: Vec<char> = Vec::new();
    let mut i: usize = 0;
    while i < s.len()
        invariant
            i <= s.len(),
            res@ == ascii_lower_seq(s@.take(i as int)),
        decreases s.len() - i,
    {
        let c = ascii_lower_exec(s[i]);
        res.push(c);
        assert(ascii_lower_seq(s@.take(i + 1)) =~= ascii_lower_seq(s@.take(i as int)).push(c));
        i = i + 1;
    }
    assert(s@.take(s.len() as int) == s@);
    res
}

/// std `str::eq_ignore_ascii_case`.
pub fn eq_ignore_ascii_case_exec(a: &[char], b: &str) -> (res: bool)
    ensures
        res == eq_ignore_ascii_case(a@, b@),
{
    let bc = chars_of(b);
    let la = ascii_lower_chars(a);
    let lb = ascii_lower_chars(bc.as_slice());
    if la.len() != lb.len() {
        assert(la@.len() != lb@.len());
        return false;
    }
    let mut i: usize = 0;
    while i < la.len()
        invariant
            la@ == ascii_lower_seq(a@),
            lb@ == ascii_lower_seq(b@),
            la.len() == lb.len(),
            i <= la.len(),
            forall|j: int| 0 <= j < i ==> la@[j] == lb@[j],
        decreases la.len() - i,
    {
        if la[i] != lb[i] {
            proof {
                if la@ == lb@ {
                    assert(la@[i as int] == lb@[i as int]);
                }
            }
            return false;
        }
        i = i + 1;
    }
    assert(la@ =~= lb@);
    true
}

/// Copy of `s` with every `from` replaced by `to` (std `str::replace` with one-character patterns).
pub fn replace_char_exec(s: &[char], from: char, to: char) -> (res: Vec<char>)
    ensures
        res@ == replace_char(s@, from, to),
{
    let mut res: Vec<char> = Vec::new();
    let mut i: usize = 0;
    while i < s.len()
        invariant
            i <= s.len(),
            res@ == replace_char(s@.take(i as int), from, to),
        decreases s.len() - i,
    {
        let c = if s[i] == from { to } else { s[i] };
        res.push(c);
        assert(replace_char(s@.take(i + 1), from, to) =~= replace_char(s@.take(i as int), from, to).push(c));
        i = i + 1;
    }
    assert(s@.take(s.len() as int) == s@);
    res
}

/// Join strings with a separator (std `[String]::join`).
pub fn join_strings(parts: &[String], sep: &str) -> (res: String)
    ensures
        res@ == join(parts@.map_values(|p: String| p@), sep@),
{
    let ghost views = parts@.map_values(|p: String| p@);
    let mut res = String::new();
    let mut i: usize = 0;
    while i < parts.len()
        invariant
            i <= parts.len(),
            views == parts@.map_values(|p: String| p@),
            res@ == join(views.take(i as int), sep@),
        decreases parts.len() - i,
    {
        proof {
            lemma_join_push(views.take(i as int), sep@, views[i as int]);
            assert(views.take(i + 1) =~= views.take(i as int).push(views[i as int]));
        }
        if i > 0 {
            res.append(sep);
        }
        res.append(parts[i].as_str());
        i = i + 1;
    }
    assert(views.take(parts.len() as int) =~= views);
    res
}

proof fn lemma_decimal_len(n: nat)
    ensures
        decimal(n).len() >= 1,
        n < 10 ==> decimal(n).len() == 1,
    decreases n,
{
    if n >= 10 {
        lemma_decimal_len(n / 10);
    }
}

/// Decimal rendering of an unsigned integer (std `u64::to_string`).
pub fn u64_to_decimal(n: u64) -> (res: String)
    ensures
        res@ == decimal(n as nat),
{
    let mut digits: Vec<char> = Vec::new();
    let mut m: u64 = n;
    let ghost mut suffix: Seq<char> = Seq::empty();
    // digits holds the low-order digits, least significant first
    while m >= 10
        invariant
            decimal(n as nat) == decimal(m as nat) + digits@.reverse(),
        decreases m,
    {
        let d = m % 10;
        let c = char_from_u32((d as u32) + 48);
        proof {
            assert(decimal(m as nat) == decimal((m / 10) as nat).push(digit_char((m % 10) as nat)));
            assert(digits@.push(c).reverse() =~= seq![c] + digits@.reverse());
        }
        digits.push(c);
        m = m / 10;
    }
    let c0 = char_from_u32((m as u32) + 48);
    digits.push(c0);
    proof {
        assert(decimal(m as nat) == seq![c0]);
        assert(digits@.reverse() =~= seq![c0] + digits@.drop_last().reverse());
    }
    let mut res = String::new();
    let mut k: usize = digits.len();
    while k > 0
        invariant
            k <= digits.len(),
            res@ == digits@.subrange(k as int, digits.len() as int).reverse(),
        decreases k,
    {
        k = k - 1;
        push_char(&mut res, digits[k]);
        assert(digits@.subrange(k as int, digits.len() as int).reverse() =~=
            digits@.subrange(k + 1, digits.len() as int).reverse().push(digits@[k as int]));
    }
    assert(digits@.subrange(0, digits.len() as int) =~= digits@);
    res
}

pub fn u32_to_decimal(n: u32) -> (res: String)
    ensures
        res@ == decimal(n as nat),
{
    u64_to_decimal(n as u64)
}

pub fn usize_to_decimal(n: usize) -> (res: String)
    ensures
        res@ == decimal(n as nat),
{
    u64_to_decimal(n as u64)
}

/// Position of the last occurrence of `c` (std `str::rfind` with a character pattern).
pub fn rfind_char(s: &[char], c: char) -> (res: Option<usize>)
    ensures
        match res {
            Some(i) => last_index_of(s@, c) == Some(i as int) && i < s.len() && s@[i as int] == c,
            None => last_index_of(s@, c) is None,
        },
{
    proof {
        lemma_last_index_of(s@, c);
    }
    let mut i: usize = s.len();
    assert(s@.take(i as int) =~= s@);
    while i > 0
        invariant
            i <= s.len(),
            last_index_of(s@, c) == last_index_of(s@.take(i as int), c),
        decreases i,
    {
        assert(s@.take(i as int).drop_last() =~= s@.take(i - 1));
        if s[i - 1] == c {
            return Some(i - 1);
        }
        i = i - 1;
    }
    None
}

/// Position of the first occurrence of `c` (std `str::find` with a character pattern).
pub fn find_char(s: &[char], c: char) -> (res: Option<usize>)
    ensures
        match res {
            Some(i) => first_index_of(s@, c) == Some(i as int) && i < s.len() && s@[i as int] == c,
            None => first_index_of(s@, c) is None,
        },
{
    proof {
        lemma_first_index_of(s@, c);
    }
    let mut i: usize = 0;
    while i < s.len()
        invariant
            i <= s.len(),
            forall|j: int| 0 <= j < i ==> s@[j] != c,
            match first_index_of(s@, c) {
                Some(k) => 0 <= k < s@.len() && s@[k] == c && forall|j: int| 0 <= j < k ==> s@[j] != c,
                None => forall|j: int| 0 <= j < s@.len() ==> s@[j] != c,
            },
        decreases s.len() - i,
    {
        if s[i] == c {
            return Some(i);
        }
        i = i + 1;
    }
    None
}

/// Number of lines of a character sequence (std `str::lines().count()`).
pub fn line_count_exec(s: &[char]) -> (res: usize)
    ensures
        res == line_count(s@),
{
    if s.len() == 0 {
        return 0;
    }
    let n = s.len() - 1;
    let mut newlines: usize = 0;
    let mut i: usize = 0;
    while i < n
        invariant
            n == s.len() - 1,
            i <= n,
            newlines == newline_count(s@.take(i as int)),
            newlines <= i,
        decreases n - i,
    {
        assert(s@.take(i + 1).drop_last() =~= s@.take(i as int));
        if s[i] == '\n' {
            newlines = newlines + 1;
        }
        i = i + 1;
    }
    assert(s@.drop_last() =~= s@.take(n as int));
    newlines + 1
}

proof fn lemma_lines_acc_step(s: Seq<char>, cur: Seq<char>, i: int)
    requires
        0 <= i < s.len(),
    ensures
        lines_acc(s.subrange(i, s.len() as int), cur) == if s[i] == '\n' {
            seq![strip_cr(cur)] + lines_acc(s.subrange(i + 1, s.len() as int), Seq::empty())
        } else {
            lines_acc(s.subrange(i + 1, s.len() as int), cur.push(s[i]))
        },
{
    assert(s.subrange(i, s.len() as int).drop_first() =~= s.subrange(i + 1, s.len() as int));
}

/// Trailing '\r' removed from a line.
fn strip_cr_exec(line: Vec<char>) -> (res: Vec<char>)
    ensures
        res@ == strip_cr(line@),
{
    let mut line = line;
    if line.len() > 0 && line[line.len() - 1] == '\r' {
        line.pop();
    }
    line
}

/// The lines of a character sequence (std `str::lines`).
pub fn lines_exec(s: &[char]) -> (res: Vec<Vec<char>>)
    ensures
        res@.map_values(|l: Vec<char>| l@) == lines(s@),
{
    let mut res: Vec<Vec<char>> = Vec::new();
    let mut cur: Vec<char> = Vec::new();
    let mut i: usize = 0;
    assert(s@.subrange(0, s@.len() as int) =~= s@);
    while i < s.len()
        invariant
            i <= s.len(),
            res@.map_values(|l: Vec<char>| l@) + lines_acc(s@.subrange(i as int, s@.len() as int), cur@) == lines(s@),
        decreases s.len() - i,
    {
        proof {
            lemma_lines_acc_step(s@, cur@, i as int);
        }
        if s[i] == '\n' {
            let done = strip_cr_exec(cur);
            let ghost prev = res@.map_values(|l: Vec<char>| l@);
            res.push(done);
            assert(res@.map_values(|l: Vec<char>| l@) =~= prev.push(done@));
            cur = Vec::new();
        } else {
            cur.push(s[i]);
        }
        i = i + 1;
    }
    let ghost prev = res@.map_values(|l: Vec<char>| l@);
    assert(s@.subrange(s@.len() as int, s@.len() as int) =~= Seq::<char>::empty());
    if cur.len() > 0 {
        let done = strip_cr_exec(cur);
        res.push(done);
        assert(res@.map_values(|l: Vec<char>| l@) =~= prev.push(done@));
    } else {
        assert(prev + Seq::<Seq<char>>::empty() =~= prev);
    }
    res
}

/// std `char::is_whitespace`.
pub fn is_whitespace_exec(c: char) -> (res: bool)
    ensures
        res == is_whitespace(c),
{
    ('\t' <= c && c <= '\r') || c == ' ' || c == '\u{85}' || c == '\u{A0}' || c == '\u{1680}'
        || ('\u{2000}' <= c && c <= '\u{200A}') || c == '\u{2028}' || c == '\u{2029}'
        || c == '\u{202F}' || c == '\u{205F}' || c == '\u{3000}'
}

proof fn lemma_trim_start_skip(s: Seq<char>, i: int)
    requires
        0 <= i <= s.len(),
        forall|j: int| 0 <= j < i ==> is_whitespace(s[j]),
    ensures
        trim_start(s) == trim_start(s.subrange(i, s.len() as int)),
    decreases i,
{
    if i > 0 {
        assert(s.drop_first().subrange(i - 1, s.drop_first().len() as int) =~= s.subrange(i, s.len() as int));
        lemma_trim_start_skip(s.drop_first(), i - 1);
    } else {
        assert(s.subrange(0, s.len() as int) =~= s);
    }
}

proof fn lemma_trim_end_skip(s: Seq<char>, k: int)
    requires
        0 <= k <= s.len(),
        forall|j: int| k <= j < s.len() ==> is_whitespace(s[j]),
    ensures
        trim_end(s) == trim_end(s.subrange(0, k)),
    decreases s.len() - k,
{
    if k < s.len() {
        assert(s.drop_last().subrange(0, k) =~= s.subrange(0, k));
        lemma_trim_end_skip(s.drop_last(), k);
    } else {
        assert(s.subrange(0, s.len() as int) =~= s);
    }
}

/// std `str::trim` on a character sequence.
pub fn trim_exec(s: &[char]) -> (res: Vec<char>)
    ensures
        res@ == trim(s@),
{
    let mut i: usize = 0;
    while i < s.len() && is_whitespace_exec(s[i])
        invariant
            i <= s.len(),
            forall|j: int| 0 <= j < i ==> is_whitespace(s@[j]),
        decreases s.len() - i,
    {
        i = i + 1;
    }
    proof {
        lemma_trim_start_skip(s@, i as int);
    }
    let mut k: usize = s.len();
    while k > i && is_whitespace_exec(s[k - 1])
        invariant
            i <= k <= s.len(),
            forall|j: int| k <= j < s.len() ==> is_whitespace(s@[j]),
        decreases k,
    {
        k = k - 1;
    }
    let ghost t = s@.subrange(i as int, s@.len() as int);
    proof {
        assert(trim_start(t) == t);
        lemma_trim_end_skip(t, k - i);
        assert(t.subrange(0, k - i) =~= s@.subrange(i as int, k as int));
        if k > i {
            assert(!is_whitespace(s@[k - 1]));
        }
    }
    let mut res: Vec<char> = Vec::new();
    let mut m: usize = i;
    while m < k
        invariant
            i <= m <= k <= s.len(),
            res@ == s@.subrange(i as int, m as int),
        decreases k - m,
    {
        res.push(s[m]);
        assert(s@.subrange(i as int, m + 1) =~= s@.subrange(i as int, m as int).push(s@[m as int]));
        m = m + 1;
    }
    res
}

/// A copy of `s[from..to]`.
pub fn slice_chars(s: &[char], from: usize, to: usize) -> (res: Vec<char>)
    requires
        from <= to <= s.len(),
    ensures
        res@ == s@.subrange(from as int, to as int),
{
    let mut res: Vec<char> = Vec::new();
    let mut m: usize = from;
    while m < to
        invariant
            from <= m <= to <= s.len(),
            res@ == s@.subrange(from as int, m as int),
        decreases to - m,
    {
        res.push(s[m]);
        assert(s@.subrange(from as int, m + 1) =~= s@.subrange(from as int, m as int).push(s@[m as int]));
        m = m + 1;
    }
    res
}

} // verus!
