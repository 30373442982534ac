//! Character-level text helpers shared by the protocol, SDP and message code.

use vstd::prelude::*;

verus! {

/// The characters of `s`, in order.
pub fn str_chars(s: &str) -> (v: Vec<char>)
    ensures
        v@ == s@,
{
    let mut v: Vec<char> = Vec::new();
    for c in it: s.chars()
        invariant
            v@ == it.seq().take(it.index() as int),
    {
        v.push(c);
    }
    v
}

} // verus!

verus! {

/// `c` with ASCII upper-case letters mapped to lower case, as `char::to_ascii_lowercase`.
pub open spec fn lower_char(c: char) -> char {
    if 'A' <= c && c <= 'Z' {
        ((c as u32) + 32) as char
    } else {
        c
    }
}

/// `s` with every ASCII upper-case letter mapped to lower case, as `str::to_ascii_lowercase`.
pub open spec fn ascii_lowercase(s: Seq<char>) -> Seq<char> {
    s.map_values(|c: char| lower_char(c))
}

fn lower_char_exec(c: char) -> (r: char)
    ensures
        r == lower_char(c),
{
    if 'A' <= c && c <= 'Z' {
        let b: u8 = c as u8;
        assert(b as u32 == c as u32);
        ((b + 32) as char)
    } else {
        c
    }
}

/// The characters of `v` with ASCII letters in lower case.
pub fn ascii_lowercase_chars(v: &Vec<char>) -> (r: Vec<char>)
    ensures
        r@ == ascii_lowercase(v@),
{
    let mut r: Vec<char> = Vec::new();
    let n = v.len();
    for i in 0..n
        invariant
            n == v@.len(),
            r@ == ascii_lowercase(v@.take(i as int)),
    {
        let c = lower_char_exec(v[i]);
        r.push(c);
        assert(v@.take(i + 1) == v@.take(i as int).push(v@[i as int]));
    }
    assert(v@.take(n as int) == v@);
    r
}

/// `needle` occurs in `hay` starting at position `i`.
pub open spec fn occurs_at(hay: Seq<char>, needle: Seq<char>, i: int) -> bool {
    0 <= i && i + needle.len() <= hay.len() && hay.subrange(i, i + needle.len()) == needle
}

/// `needle` occurs somewhere in `hay`, as `str::contains` with a string pattern.
pub open spec fn has_substring(hay: Seq<char>, needle: Seq<char>) -> bool {
    exists|i: int| occurs_at(hay, needle, i)
}

/// Whether `needle` occurs in `hay` starting at position `i`.
pub fn occurs_at_exec(hay: &Vec<char>, needle: &Vec<char>, i: usize) -> (r: bool)
    requires
        i <= hay@.len(),
    ensures
        r == occurs_at(hay@, needle@, i as int),
{
    if needle.len() > hay.len() - i {
        return false;
    }
    let m = needle.len();
    let hl = hay.len();
    for k in 0..m
        invariant
            m == needle@.len(),
            hl == hay@.len(),
            i + m <= hay@.len(),
            i <= hay@.len(),
            forall|j: int| 0 <= j < k ==> hay@[i + j] == needle@[j],
    {
        if hay[i + k] != needle[k] {
            assert(hay@.subrange(i as int, i + m)[k as int] != needle@[k as int]);
            return false;
        }
    }
    assert(hay@.subrange(i as int, i + m) =~= needle@);
    true
}

/// Whether `needle` occurs anywhere in `hay`.
pub fn contains_chars(hay: &Vec<char>, needle: &Vec<char>) -> (r: bool)
    ensures
        r == has_substring(hay@, needle@),
{
    let n = hay.len();
    let mut i: usize = 0;
    while i <= n
        invariant
            n == hay@.len(),
            i <= n + 1,
            forall|j: int| 0 <= j < i ==> !occurs_at(hay@, needle@, j),
        decreases n + 1 - i,
    {
        if occurs_at_exec(hay, needle, i) {
            return true;
        }
        if i == n {
            assert forall|j: int| #![trigger occurs_at(hay@, needle@, j)] occurs_at(hay@, needle@, j) implies j <= n by {}
            return false;
        }
        i = i + 1;
    }
    false
}

/// Whether the string `hay` contains the string `needle`.
pub fn str_contains(hay: &str, needle: &str) -> (r: bool)
    ensures
        r == has_substring(hay@, needle@),
{
    let h = str_chars(hay);
    let n = str_chars(needle);
    contains_chars(&h, &n)
}

/// Whether the strings `a` and `b` hold the same characters.
pub fn str_eq(a: &str, b: &str) -> (r: bool)
    ensures
        r == (a@ == b@),
{
    let x = str_chars(a);
    let y = str_chars(b);
    if x.len() != y.len() {
        return false;
    }
    let n = x.len();
    for k in 0..n
        invariant
            n == x@.len(),
            n == y@.len(),
            x@ == a@,
            y@ == b@,
            forall|j: int| 0 <= j < k ==> x@[j] == y@[j],
    {
        if x[k] != y[k] {
            assert(x@[k as int] != y@[k as int]);
            return false;
        }
    }
    assert(x@ =~= y@);
    true
}

} // verus!

verus! {

/// Position of the first `'\n'` in `s` at or after `start`, or `s.len()` when there is none.
pub open spec fn next_newline(s: Seq<char>, start: int) -> int
    decreases s.len() - start,
{
    if start < 0 || start >= s.len() {
        s.len() as int
    } else if s[start] == '\n' {
        start
    } else {
        next_newline(s, start + 1)
    }
}

pub proof fn lemma_next_newline_bounds(s: Seq<char>, start: int)
    requires
        0 <= start <= s.len(),
    ensures
        start <= next_newline(s, start) <= s.len(),
        next_newline(s, start) < s.len() ==> s[next_newline(s, start)] == '\n',
        forall|j: int| start <= j < next_newline(s, start) ==> s[j] != '\n',
    decreases s.len() - start,
{
    if start < s.len() && s[start] != '\n' {
        lemma_next_newline_bounds(s, start + 1);
    }
}

/// The line that starts at `start`, without its line ending: a final `"\r"` is
/// dropped only where a `'\n'` follows it.
pub open spec fn line_at(s: Seq<char>, start: int) -> Seq<char> {
    let e = next_newline(s, start);
    let raw = s.subrange(start, e);
    if e < s.len() && raw.len() > 0 && raw.last() == '\r' {
        raw.drop_last()
    } else {
        raw
    }
}

/// The lines of `s` from position `start` on, as `str::lines` yields them.
pub open spec fn lines_from(s: Seq<char>, start: int) -> Seq<Seq<char>>
    decreases s.len() + 1 - start,
{
    if start < 0 || start >= s.len() {
        Seq::empty()
    } else {
        proof {
            lemma_next_newline_bounds(s, start);
        }
        seq![line_at(s, start)] + lines_from(s, next_newline(s, start) + 1)
    }
}

/// The lines of `s`, as `str::lines` yields them.
pub open spec fn str_lines(s: Seq<char>) -> Seq<Seq<char>> {
    lines_from(s, 0)
}

/// Position of the first `'\n'` at or after `start`, or the length.
pub fn next_newline_exec(v: &Vec<char>, start: usize) -> (e: usize)
    requires
        start <= v@.len(),
    ensures
        e == next_newline(v@, start as int),
{
    let n = v.len();
    let mut i = start;
    proof {
        lemma_next_newline_bounds(v@, start as int);
    }
    while i < n
        invariant
            n == v@.len(),
            start <= i <= n,
            next_newline(v@, i as int) == next_newline(v@, start as int),
        decreases n - i,
    {
        if v[i] == '\n' {
            return i;
        }
        i = i + 1;
    }
    i
}

/// End of the line that starts at `start` and ends at the newline position `e`:
/// the position after its last character once a `"\r"` before the `'\n'` is dropped.
pub fn line_content_end(v: &Vec<char>, start: usize, e: usize) -> (end: usize)
    requires
        start <= v@.len(),
        e == next_newline(v@, start as int),
    ensures
        start <= end <= e,
        v@.subrange(start as int, end as int) == line_at(v@, start as int),
{
    proof {
        lemma_next_newline_bounds(v@, start as int);
    }
    if e < v.len() && e > start && v[e - 1] == '\r' {
        assert(v@.subrange(start as int, (e - 1) as int) =~= v@.subrange(start as int, e as int).drop_last());
        e - 1
    } else {
        e
    }
}

/// In `p + q`, the first newline at or after a position of `q` is found in `q`.
pub proof fn lemma_next_newline_shift(p: Seq<char>, q: Seq<char>, j: int)
    requires
        0 <= j <= q.len(),
    ensures
        next_newline(p + q, p.len() + j) == p.len() + next_newline(q, j),
    decreases q.len() - j,
{
    let s = p + q;
    if j < q.len() {
        assert(s[p.len() + j] == q[j]);
        if q[j] != '\n' {
            lemma_next_newline_shift(p, q, j + 1);
        }
    }
}

/// The lines of `p + q` from a position of `q` on are the lines of `q` from there.
pub proof fn lemma_lines_from_shift(p: Seq<char>, q: Seq<char>, j: int)
    requires
        0 <= j,
    ensures
        lines_from(p + q, p.len() + j) == lines_from(q, j),
    decreases q.len() + 1 - j,
{
    let s = p + q;
    if j < q.len() {
        lemma_next_newline_shift(p, q, j);
        lemma_next_newline_bounds(q, j);
        let e = next_newline(q, j);
        assert(s.subrange(p.len() + j, p.len() + e) =~= q.subrange(j, e));
        assert(line_at(s, p.len() + j) == line_at(q, j));
        lemma_lines_from_shift(p, q, e + 1);
        assert(p.len() + e + 1 == p.len() + (e + 1));
    }
}

/// In `a + "\n" + b`, the first newline at or after a position of `a` is the
/// one of `a`, or the added one where `a` has none.
pub proof fn lemma_next_newline_before_join(a: Seq<char>, b: Seq<char>, i: int)
    requires
        0 <= i <= a.len(),
    ensures
        next_newline(a + seq!['\n'] + b, i) == next_newline(a, i),
    decreases a.len() - i,
{
    let s = a + seq!['\n'] + b;
    if i < a.len() {
        assert(s[i] == a[i]);
        if a[i] != '\n' {
            lemma_next_newline_before_join(a, b, i + 1);
        }
    } else {
        assert(s[i] == '\n');
    }
}

} // verus!
