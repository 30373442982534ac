//! ICE candidate lines of the server's answer: recognising them and writing
//! them again with the address resolved to an IP (the ICE agent expects IP
//! addresses in candidates). Resolving host names is the caller's work.

use vstd::prelude::*;
use crate::text::{
    line_at, line_content_end, lines_from, next_newline_exec, occurs_at, occurs_at_exec, str_chars,
    str_lines, lemma_next_newline_bounds,
};
use crate::webrtc_client::{opt_string_view, strings_view};

verus! {

/// Whether `c` has the Unicode `White_Space` property, as `char::is_whitespace`.
pub open spec fn is_white_space(c: char) -> bool {
    ||| '\u{9}' <= c <= '\u{d}'
    ||| c == ' '
    ||| c == '\u{85}'
    ||| c == '\u{a0}'
    ||| c == '\u{1680}'
    ||| '\u{2000}' <= c <= '\u{200a}'
    ||| c == '\u{2028}'
    ||| c == '\u{2029}'
    ||| c == '\u{202f}'
    ||| c == '\u{205f}'
    ||| c == '\u{3000}'
}

/// Whether `c` is white space (Unicode `White_Space`).
pub fn char_is_white_space(c: char) -> (r: bool)
    ensures
        r == is_white_space(c),
{
    ('\u{9}' <= c && c <= '\u{d}') || c == ' ' || c == '\u{85}' || c == '\u{a0}' || c == '\u{1680}'
        || ('\u{2000}' <= c && c <= '\u{200a}') || c == '\u{2028}' || c == '\u{2029}' || c
        == '\u{202f}' || c == '\u{205f}' || c == '\u{3000}'
}

/// The first position at or after `i` that is not white space, or the length.
pub open spec fn skip_white(s: Seq<char>, i: int) -> int
    decreases s.len() - i,
{
    if i < 0 || i >= s.len() {
        s.len() as int
    } else if is_white_space(s[i]) {
        skip_white(s, i + 1)
    } else {
        i
    }
}

/// The first position at or after `i` that is white space, or the length.
pub open spec fn word_end(s: Seq<char>, i: int) -> int
    decreases s.len() - i,
{
    if i < 0 || i >= s.len() {
        s.len() as int
    } else if is_white_space(s[i]) {
        i
    } else {
        word_end(s, i + 1)
    }
}

pub proof fn lemma_word_end_bounds(s: Seq<char>, i: int)
    requires
        0 <= i <= s.len(),
    ensures
        i <= word_end(s, i) <= s.len(),
        i < s.len() && !is_white_space(s[i]) ==> i < word_end(s, i),
    decreases s.len() - i,
{
    if i < s.len() && !is_white_space(s[i]) {
        lemma_word_end_bounds(s, i + 1);
    }
}

/// The words of `s` from position `i` on: the maximal runs of characters that
/// are not white space, as `str::split_whitespace` yields them.
pub open spec fn words_from(s: Seq<char>, i: int) -> Seq<Seq<char>>
    decreases s.len() - i,
{
    if i < 0 || i >= s.len() {
        Seq::empty()
    } else if is_white_space(s[i]) {
        words_from(s, i + 1)
    } else {
        proof {
            lemma_word_end_bounds(s, i);
        }
        seq![s.subrange(i, word_end(s, i))] + words_from(s, word_end(s, i))
    }
}

/// The words after `a=candidate:` in a line that starts with it once leading
/// white space is dropped; `None` for any other line.
pub open spec fn candidate_words(line: Seq<char>) -> Option<Seq<Seq<char>>> {
    let st = skip_white(line, 0);
    if occurs_at(line, "a=candidate:"@, st) {
        Some(words_from(line, st + "a=candidate:"@.len()))
    } else {
        None
    }
}

fn skip_white_exec(v: &Vec<char>, i: usize) -> (r: usize)
    requires
        i <= v@.len(),
    ensures
        r == skip_white(v@, i as int),
        i <= r <= v@.len(),
{
    let n = v.len();
    let mut j = i;
    while j < n
        invariant
            n == v@.len(),
            i <= j <= n,
            skip_white(v@, j as int) == skip_white(v@, i as int),
        decreases n - j,
    {
        if !char_is_white_space(v[j]) {
            return j;
        }
        j = j + 1;
    }
    j
}

fn word_end_exec(v: &Vec<char>, i: usize) -> (r: usize)
    requires
        i <= v@.len(),
    ensures
        r == word_end(v@, i as int),
        i <= r <= v@.len(),
{
    let n = v.len();
    let mut j = i;
    while j < n
        invariant
            n == v@.len(),
            i <= j <= n,
            word_end(v@, j as int) == word_end(v@, i as int),
        decreases n - j,
    {
        if char_is_white_space(v[j]) {
            return j;
        }
        j = j + 1;
    }
    j
}

/// The words of an `a=candidate:` line (foundation, component, transport,
/// priority, address, port, then the rest); `None` for any other line.
pub fn candidate_words_of(line: &str) -> (r: Option<Vec<String>>)
    ensures
        match candidate_words(line@) {
            Some(w) => r matches Some(v) && strings_view(v@) == w,
            None => r is None,
        },
{
    let v = str_chars(line);
    let prefix = str_chars("a=candidate:");
    let st = skip_white_exec(&v, 0);
    if !occurs_at_exec(&v, &prefix, st) {
        return None;
    }
    let n = v.len();
    let first = st + prefix.len();
    let mut out: Vec<String> = Vec::new();
    let mut i = first;
    while i < n
        invariant
            n == v@.len(),
            v@ == line@,
            first <= i <= n,
            strings_view(out@) + words_from(v@, i as int) == words_from(v@, first as int),
        decreases n - i,
    {
        if char_is_white_space(v[i]) {
            i = i + 1;
        } else {
            let e = word_end_exec(&v, i);
            proof {
                lemma_word_end_bounds(v@, i as int);
            }
            let w: &str = line.substring_char(i, e);
            let ghost before = out@;
            out.push(w.to_owned());
            assert(strings_view(out@) =~= strings_view(before) + seq![v@.subrange(i as int, e as int)]);
            i = e;
        }
    }
    assert(strings_view(out@) + Seq::<Seq<char>>::empty() =~= strings_view(out@));
    Some(out)
}

/// The words of `ws`, each behind a space.
pub open spec fn spaced(ws: Seq<Seq<char>>) -> Seq<char>
    decreases ws.len(),
{
    if ws.len() == 0 {
        Seq::empty()
    } else {
        spaced(ws.drop_last()) + " "@ + ws.last()
    }
}

/// A candidate line written again with `ip` as its address: foundation,
/// component, transport, priority, the IP, the port and the remaining words,
/// separated by single spaces.
pub open spec fn candidate_line_with_ip(w: Seq<Seq<char>>, ip: Seq<char>) -> Seq<char> {
    "a=candidate:"@ + w[0] + " "@ + w[1] + " "@ + w[2] + " "@ + w[3] + " "@ + ip + " "@ + w[5] + spaced(
        w.skip(6),
    )
}

/// The candidate that is added for the server's own address: the first six
/// fields of a candidate of the answer with `ip` as its address, of type host.
pub open spec fn host_candidate_with_ip(w: Seq<Seq<char>>, ip: Seq<char>) -> Seq<char> {
    "candidate:"@ + w[0] + " "@ + w[1] + " "@ + w[2] + " "@ + w[3] + " "@ + ip + " "@ + w[5] + " typ host"@
}

/// Appends the first four fields, then `ip`, then the port.
fn push_fields_with_ip(out: &mut String, w: &Vec<String>, ip: &str)
    requires
        w@.len() >= 6,
    ensures
        final(out)@ == old(out)@ + w@[0]@ + " "@ + w@[1]@ + " "@ + w@[2]@ + " "@ + w@[3]@ + " "@ + ip@
            + " "@ + w@[5]@,
{
    out.append(w[0].as_str());
    out.append(" ");
    out.append(w[1].as_str());
    out.append(" ");
    out.append(w[2].as_str());
    out.append(" ");
    out.append(w[3].as_str());
    out.append(" ");
    out.append(ip);
    out.append(" ");
    out.append(w[5].as_str());
}

/// Writes a candidate line of the answer again with its address replaced by
/// `ip`, keeping the words after the port.
pub fn candidate_with_ip(w: &Vec<String>, ip: &str) -> (r: String)
    requires
        w@.len() >= 6,
    ensures
        r@ == candidate_line_with_ip(strings_view(w@), ip@),
{
    let mut out = String::new();
    out.append("a=candidate:");
    push_fields_with_ip(&mut out, w, ip);
    let ghost head = out@;
    let n = w.len();
    let mut i: usize = 6;
    while i < n
        invariant
            n == w@.len(),
            6 <= i <= n,
            out@ == head + spaced(strings_view(w@).subrange(6, i as int)),
        decreases n - i,
    {
        out.append(" ");
        out.append(w[i].as_str());
        assert(strings_view(w@).subrange(6, i + 1).drop_last() =~= strings_view(w@).subrange(6, i as int));
        i = i + 1;
    }
    assert(strings_view(w@).subrange(6, n as int) =~= strings_view(w@).skip(6));
    out
}

/// The host candidate for the server's own address `ip`, from the fields of
/// a candidate of the answer.
pub fn host_candidate(w: &Vec<String>, ip: &str) -> (r: String)
    requires
        w@.len() >= 6,
    ensures
        r@ == host_candidate_with_ip(strings_view(w@), ip@),
{
    let mut out = String::new();
    out.append("candidate:");
    push_fields_with_ip(&mut out, w, ip);
    out.append(" typ host");
    out
}

/// A word as `str::split_whitespace` yields it: not empty, without white space.
pub open spec fn is_word(w: Seq<char>) -> bool {
    w.len() > 0 && forall|k: int| 0 <= k < w.len() ==> !is_white_space(#[trigger] w[k])
}

proof fn lemma_word_end_shift(p: Seq<char>, q: Seq<char>, j: int)
    requires
        0 <= j <= q.len(),
    ensures
        word_end(p + q, p.len() + j) == p.len() + word_end(q, j),
    decreases q.len() - j,
{
    let s = p + q;
    if j < q.len() {
        assert(s[p.len() + j] == q[j]);
        if !is_white_space(q[j]) {
            lemma_word_end_shift(p, q, j + 1);
        }
    }
}

/// The words of `p + q` from a position of `q` on are the words of `q` from there.
proof fn lemma_words_from_shift(p: Seq<char>, q: Seq<char>, j: int)
    requires
        0 <= j,
    ensures
        words_from(p + q, p.len() + j) == words_from(q, j),
    decreases q.len() - j,
{
    let s = p + q;
    if j < q.len() {
        assert(s[p.len() + j] == q[j]);
        if is_white_space(q[j]) {
            lemma_words_from_shift(p, q, j + 1);
        } else {
            lemma_word_end_shift(p, q, j);
            lemma_word_end_bounds(q, j);
            let e = word_end(q, j);
            assert(s.subrange(p.len() + j, p.len() + e) =~= q.subrange(j, e));
            lemma_words_from_shift(p, q, e);
        }
    }
}

proof fn lemma_word_end_of_word(u: Seq<char>, i: int)
    requires
        is_word(u),
        0 <= i <= u.len(),
    ensures
        word_end(u, i) == u.len(),
    decreases u.len() - i,
{
    if i < u.len() {
        assert(!is_white_space(u[i]));
        lemma_word_end_of_word(u, i + 1);
    }
}

/// A word is its own only word.
proof fn lemma_words_of_word(u: Seq<char>)
    requires
        is_word(u),
    ensures
        words_from(u, 0) == seq![u],
{
    lemma_word_end_of_word(u, 0);
    assert(!is_white_space(u[0]));
    assert(u.subrange(0, u.len() as int) =~= u);
    assert(words_from(u, u.len() as int) == Seq::<Seq<char>>::empty());
    assert(seq![u] + Seq::<Seq<char>>::empty() =~= seq![u]);
}

proof fn lemma_word_end_prefix(a: Seq<char>, t: Seq<char>, i: int)
    requires
        0 <= i <= a.len(),
        t.len() == 0 || is_white_space(t[0]),
    ensures
        word_end(a + t, i) == word_end(a, i),
    decreases a.len() - i,
{
    let s = a + t;
    if i < a.len() {
        assert(s[i] == a[i]);
        if !is_white_space(a[i]) {
            lemma_word_end_prefix(a, t, i + 1);
        }
    } else if t.len() > 0 {
        assert(s[i] == t[0]);
    }
}

/// The words of `a + t`, where `t` is empty or starts with white space, from
/// a position of `a` on: those of `a`, then those from the end of `a` on.
proof fn lemma_words_from_prefix(a: Seq<char>, t: Seq<char>, i: int)
    requires
        0 <= i <= a.len(),
        t.len() == 0 || is_white_space(t[0]),
    ensures
        words_from(a + t, i) == words_from(a, i) + words_from(a + t, a.len() as int),
    decreases a.len() - i,
{
    let s = a + t;
    let tail = words_from(s, a.len() as int);
    if i == a.len() {
        assert(Seq::<Seq<char>>::empty() + tail =~= tail);
    } else {
        assert(s[i] == a[i]);
        if is_white_space(a[i]) {
            lemma_words_from_prefix(a, t, i + 1);
        } else {
            lemma_word_end_prefix(a, t, i);
            lemma_word_end_bounds(a, i);
            let e = word_end(a, i);
            assert(s.subrange(i, e) =~= a.subrange(i, e));
            lemma_words_from_prefix(a, t, e);
            assert(seq![a.subrange(i, e)] + (words_from(a, e) + tail) =~= (seq![a.subrange(i, e)]
                + words_from(a, e)) + tail);
        }
    }
}

/// The words of two texts joined by a space are those of the first, then
/// those of the second.
proof fn lemma_words_of_join(a: Seq<char>, b: Seq<char>)
    ensures
        words_from(a + " "@ + b, 0) == words_from(a, 0) + words_from(b, 0),
{
    reveal_strlit(" ");
    let t = " "@ + b;
    let s = a + t;
    assert(a + " "@ + b =~= s);
    assert(t[0] == ' ');
    lemma_words_from_prefix(a, t, 0);
    assert(s[a.len() as int] == ' ');
    assert(words_from(s, a.len() as int) == words_from(s, a.len() + 1int));
    lemma_words_from_shift(a + " "@, b, 0);
    assert((a + " "@) + b =~= s);
}

/// Words joined with single spaces split into the same words.
proof fn lemma_words_of_spaced(ws: Seq<Seq<char>>)
    requires
        forall|k: int| 0 <= k < ws.len() ==> is_word(#[trigger] ws[k]),
    ensures
        words_from(spaced(ws), 0) == ws,
    decreases ws.len(),
{
    if ws.len() == 0 {
        assert(words_from(Seq::<char>::empty(), 0) == Seq::<Seq<char>>::empty());
    } else {
        let dl = ws.drop_last();
        assert forall|k: int| 0 <= k < dl.len() implies is_word(#[trigger] dl[k]) by {
            assert(dl[k] == ws[k]);
        }
        lemma_words_of_spaced(dl);
        lemma_words_of_join(spaced(dl), ws.last());
        assert(is_word(ws[ws.len() - 1]));
        lemma_words_of_word(ws.last());
        assert(dl + seq![ws.last()] =~= ws);
    }
}

/// Joining with spaces distributes over concatenation.
proof fn lemma_spaced_add(a: Seq<Seq<char>>, b: Seq<Seq<char>>)
    ensures
        spaced(a + b) == spaced(a) + spaced(b),
    decreases b.len(),
{
    if b.len() == 0 {
        assert(a + b =~= a);
        assert(spaced(a) + Seq::<char>::empty() =~= spaced(a));
    } else {
        lemma_spaced_add(a, b.drop_last());
        assert((a + b).drop_last() =~= a + b.drop_last());
        assert((a + b).last() == b.last());
        assert(spaced(a) + spaced(b.drop_last()) + " "@ + b.last() =~= spaced(a) + (spaced(
            b.drop_last(),
        ) + " "@ + b.last()));
    }
}

proof fn lemma_spaced_cons(x: Seq<char>, b: Seq<Seq<char>>)
    ensures
        spaced(seq![x] + b) == " "@ + x + spaced(b),
{
    lemma_spaced_add(seq![x], b);
    assert(seq![x].drop_last() =~= Seq::<Seq<char>>::empty());
    assert(spaced(Seq::<Seq<char>>::empty()) == Seq::<char>::empty());
    assert(seq![x].last() == x);
    assert(spaced(seq![x]) == spaced(seq![x].drop_last()) + " "@ + seq![x].last());
    assert(spaced(seq![x]) =~= Seq::<char>::empty() + " "@ + x);
    assert(Seq::<char>::empty() + " "@ + x =~= " "@ + x);
}

/// A candidate line written again with an IP splits into the same words as
/// the line it came from, with the address replaced by the IP: foundation,
/// component, transport, priority, the IP, the port and every later word, in
/// order.
pub proof fn law_candidate_line_keeps_its_words(w: Seq<Seq<char>>, ip: Seq<char>)
    requires
        w.len() >= 6,
        forall|k: int| 0 <= k < w.len() ==> is_word(#[trigger] w[k]),
        is_word(ip),
    ensures
        candidate_words(candidate_line_with_ip(w, ip)) == Some(w.update(4, ip)),
{
    reveal_strlit("a=candidate:");
    reveal_strlit(" ");
    let w2 = w.update(4, ip);
    let c = "a=candidate:"@;
    assert forall|k: int| 0 <= k < w2.len() implies is_word(#[trigger] w2[k]) by {
        if k != 4 {
            assert(w2[k] == w[k]);
        }
    }
    assert(w2 =~= seq![w2[0]] + w2.skip(1));
    assert(w2.skip(1) =~= seq![w2[1]] + w2.skip(2));
    assert(w2.skip(2) =~= seq![w2[2]] + w2.skip(3));
    assert(w2.skip(3) =~= seq![w2[3]] + w2.skip(4));
    assert(w2.skip(4) =~= seq![w2[4]] + w2.skip(5));
    assert(w2.skip(5) =~= seq![w2[5]] + w2.skip(6));
    assert(w2.skip(6) =~= w.skip(6));
    lemma_spaced_cons(w2[0], w2.skip(1));
    lemma_spaced_cons(w2[1], w2.skip(2));
    lemma_spaced_cons(w2[2], w2.skip(3));
    lemma_spaced_cons(w2[3], w2.skip(4));
    lemma_spaced_cons(w2[4], w2.skip(5));
    lemma_spaced_cons(w2[5], w2.skip(6));
    let x = w[0] + " "@ + w[1] + " "@ + w[2] + " "@ + w[3] + " "@ + ip + " "@ + w[5] + spaced(
        w.skip(6),
    );
    assert(spaced(w2) =~= " "@ + x);
    let line = candidate_line_with_ip(w, ip);
    assert(line =~= c + x);
    assert(line[0] == 'a');
    assert(skip_white(line, 0) == 0);
    assert(line.subrange(0, 12) =~= c);
    assert(occurs_at(line, c, 0));
    lemma_words_from_shift(c, x, 0);
    lemma_words_from_shift(" "@, x, 0);
    assert((" "@ + x)[0] == ' ');
    assert(words_from(" "@ + x, 0) == words_from(" "@ + x, 1));
    lemma_words_of_spaced(w2);
}

/// The lines of a text, as `str::lines` yields them.
pub fn lines_of(text: &str) -> (r: Vec<String>)
    ensures
        strings_view(r@) == str_lines(text@),
{
    let v = str_chars(text);
    let mut out: Vec<String> = Vec::new();
    let n = v.len();
    let mut start: usize = 0;
    while start < n
        invariant
            n == v@.len(),
            v@ == text@,
            start <= n,
            strings_view(out@) + lines_from(v@, start as int) == lines_from(v@, 0),
        decreases n - start,
    {
        let e = next_newline_exec(&v, start);
        let end = line_content_end(&v, start, e);
        proof {
            lemma_next_newline_bounds(v@, start as int);
        }
        let line: &str = text.substring_char(start, end);
        let ghost before = out@;
        out.push(line.to_owned());
        proof {
            assert(strings_view(out@) =~= strings_view(before) + seq![line_at(v@, start as int)]);
            assert(lines_from(v@, start as int) == seq![line_at(v@, start as int)] + lines_from(
                v@,
                e + 1,
            ));
        }
        if e < n {
            start = e + 1;
        } else {
            proof {
                assert(lines_from(v@, e + 1) == Seq::<Seq<char>>::empty());
            }
            start = n;
        }
    }
    proof {
        assert(lines_from(v@, start as int) == Seq::<Seq<char>>::empty());
        assert(strings_view(out@) + Seq::<Seq<char>>::empty() =~= strings_view(out@));
    }
    out
}

/// Whether a line is a candidate line with at least the six fields up to the
/// port; shorter candidate lines cannot be written again and are dropped.
pub open spec fn is_full_candidate(line: Seq<char>) -> bool {
    candidate_words(line) matches Some(w) && w.len() >= 6
}

/// The address field of each full candidate line, in order: the addresses
/// that the caller resolves before the answer is written again.
pub open spec fn candidate_addresses(lines: Seq<Seq<char>>) -> Seq<Seq<char>>
    decreases lines.len(),
{
    if lines.len() == 0 {
        Seq::empty()
    } else {
        let rest = candidate_addresses(lines.drop_first());
        match candidate_words(lines[0]) {
            Some(w) => if w.len() >= 6 {
                seq![w[4]] + rest
            } else {
                rest
            },
            None => rest,
        }
    }
}

/// The answer written again line by line, each line ending in `"\n"`: other
/// lines as they are; each full candidate line with its address replaced by
/// the next of `ips`, or dropped where that is `None` (it did not resolve);
/// candidate lines with fewer than six fields dropped.
pub open spec fn rewritten_answer(lines: Seq<Seq<char>>, ips: Seq<Option<Seq<char>>>) -> Seq<char>
    decreases lines.len(),
{
    if lines.len() == 0 {
        Seq::empty()
    } else {
        let l = lines[0];
        let rest = lines.drop_first();
        match candidate_words(l) {
            None => l + "\n"@ + rewritten_answer(rest, ips),
            Some(w) => if w.len() < 6 {
                rewritten_answer(rest, ips)
            } else {
                match ips[0] {
                    Some(ip) => candidate_line_with_ip(w, ip) + "\n"@ + rewritten_answer(
                        rest,
                        ips.drop_first(),
                    ),
                    None => rewritten_answer(rest, ips.drop_first()),
                }
            },
        }
    }
}

/// The characters of each optional string.
pub open spec fn opt_strings_view(v: Seq<Option<String>>) -> Seq<Option<Seq<char>>> {
    v.map_values(|o: Option<String>| opt_string_view(o))
}

/// The address of each full candidate line of an answer, in order.
pub fn candidate_addresses_of(sdp: &str) -> (r: Vec<String>)
    ensures
        strings_view(r@) == candidate_addresses(str_lines(sdp@)),
{
    let lines = lines_of(sdp);
    let ghost ls = strings_view(lines@);
    let mut out: Vec<String> = Vec::new();
    let n = lines.len();
    let mut i: usize = 0;
    assert(ls.skip(0) =~= ls);
    assert(strings_view(out@) =~= Seq::<Seq<char>>::empty());
    assert(strings_view(out@) + candidate_addresses(ls.skip(0)) =~= candidate_addresses(ls));
    while i < n
        invariant
            n == lines@.len(),
            ls == strings_view(lines@),
            ls == str_lines(sdp@),
            i <= n,
            strings_view(out@) + candidate_addresses(ls.skip(i as int)) == candidate_addresses(ls),
        decreases n - i,
    {
        assert(ls.skip(i as int).drop_first() =~= ls.skip(i + 1));
        assert(ls.skip(i as int)[0] == lines@[i as int]@);
        let ghost before = out@;
        match candidate_words_of(lines[i].as_str()) {
            Some(w) => {
                if w.len() >= 6 {
                    out.push(w[4].clone());
                    assert(strings_view(out@) =~= strings_view(before) + seq![strings_view(w@)[4]]);
                }
            },
            None => {},
        }
        i = i + 1;
    }
    assert(ls.skip(n as int) =~= Seq::<Seq<char>>::empty());
    assert(strings_view(out@) + Seq::<Seq<char>>::empty() =~= strings_view(out@));
    out
}

/// The answer written again with the addresses of its candidates replaced by
/// the IPs they resolved to, one entry of `ips` per address of
/// `candidate_addresses_of`, in order (`None`: did not resolve, the candidate
/// is dropped). Every line ends in `"\n"`.
pub fn rewrite_answer_candidates(sdp: &str, ips: &Vec<Option<String>>) -> (r: String)
    requires
        ips@.len() == candidate_addresses(str_lines(sdp@)).len(),
    ensures
        r@ == rewritten_answer(str_lines(sdp@), opt_strings_view(ips@)),
{
    let lines = lines_of(sdp);
    let ghost ls = strings_view(lines@);
    let ghost ipv = opt_strings_view(ips@);
    let mut out = String::new();
    let n = lines.len();
    let mut i: usize = 0;
    let mut k: usize = 0;
    let m = ips.len();
    assert(ls.skip(0) =~= ls);
    assert(ipv.skip(0) =~= ipv);
    assert(out@ + rewritten_answer(ls, ipv) =~= rewritten_answer(ls, ipv));
    while i < n
        invariant
            n == lines@.len(),
            ls == strings_view(lines@),
            ls == str_lines(sdp@),
            ipv == opt_strings_view(ips@),
            m == ips@.len(),
            i <= n,
            k + candidate_addresses(ls.skip(i as int)).len() == ips@.len(),
            out@ + rewritten_answer(ls.skip(i as int), ipv.skip(k as int)) == rewritten_answer(
                ls,
                ipv,
            ),
        decreases n - i,
    {
        assert(ls.skip(i as int).drop_first() =~= ls.skip(i + 1));
        assert(ls.skip(i as int)[0] == lines@[i as int]@);
        let line = lines[i].as_str();
        match candidate_words_of(line) {
            None => {
                out.append(line);
                out.append("\n");
            },
            Some(w) => {
                if w.len() >= 6 {
                    assert(k < ips@.len());
                    assert(ipv.skip(k as int)[0] == opt_string_view(ips@[k as int]));
                    assert(ipv.skip(k as int).drop_first() =~= ipv.skip(k + 1));
                    match &ips[k] {
                        Some(ip) => {
                            let c = candidate_with_ip(&w, ip.as_str());
                            out.append(c.as_str());
                            out.append("\n");
                        },
                        None => {},
                    }
                    k = k + 1;
                }
            },
        }
        i = i + 1;
    }
    assert(ls.skip(n as int) =~= Seq::<Seq<char>>::empty());
    out
}

/// The first candidate line of an answer, as `a=candidate:` lines are found
/// once leading white space is dropped: its words; `None` where there is none.
pub open spec fn first_candidate(lines: Seq<Seq<char>>) -> Option<Seq<Seq<char>>>
    decreases lines.len(),
{
    if lines.len() == 0 {
        None
    } else {
        match candidate_words(lines[0]) {
            Some(w) => Some(w),
            None => first_candidate(lines.drop_first()),
        }
    }
}

/// The words of the first candidate line of an answer (the candidate for the
/// server's own address takes its fields).
pub fn first_candidate_words(sdp: &str) -> (r: Option<Vec<String>>)
    ensures
        match first_candidate(str_lines(sdp@)) {
            Some(w) => r matches Some(v) && strings_view(v@) == w,
            None => r is None,
        },
{
    let lines = lines_of(sdp);
    let ghost ls = strings_view(lines@);
    let n = lines.len();
    let mut i: usize = 0;
    assert(ls.skip(0) =~= ls);
    while i < n
        invariant
            n == lines@.len(),
            ls == strings_view(lines@),
            ls == str_lines(sdp@),
            i <= n,
            first_candidate(ls.skip(i as int)) == first_candidate(ls),
        decreases n - i,
    {
        assert(ls.skip(i as int).drop_first() =~= ls.skip(i + 1));
        assert(ls.skip(i as int)[0] == lines@[i as int]@);
        match candidate_words_of(lines[i].as_str()) {
            Some(w) => {
                return Some(w);
            },
            None => {},
        }
        i = i + 1;
    }
    assert(ls.skip(n as int) =~= Seq::<Seq<char>>::empty());
    None
}

} // verus!
