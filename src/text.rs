//! Character-level text operations shared by the extractors and synthesizers.
use vstd::prelude::*;

verus! {

/// ASCII whitespace, as a C header spells it.
pub open spec fn is_space(c: char) -> bool {
    c == ' ' || c == '\t' || c == '\n' || c == '\r' || c == '\u{b}' || c == '\u{c}'
}

/// A character of a C identifier.
pub open spec fn is_word(c: char) -> bool {
    ('a' <= c && c <= 'z') || ('A' <= c && c <= 'Z') || ('0' <= c && c <= '9') || c == '_'
}

/// The pieces of `s` between separators, empty pieces included; always at least one.
pub open spec fn pieces(s: Seq<char>, sep: spec_fn(char) -> bool) -> Seq<Seq<char>>
    decreases s.len(),
{
    if s.len() == 0 {
        seq![Seq::empty()]
    } else {
        let init = pieces(s.drop_last(), sep);
        if sep(s.last()) {
            init.push(Seq::empty())
        } else {
            init.update(init.len() - 1, init.last().push(s.last()))
        }
    }
}

/// Separation at one given character.
pub open spec fn at_char(sep: char) -> spec_fn(char) -> bool {
    |c: char| c == sep
}

/// Separation at whitespace.
pub open spec fn at_space() -> spec_fn(char) -> bool {
    |c: char| is_space(c)
}

/// Keeps the pieces that hold at least one character.
pub open spec fn non_empty() -> spec_fn(Seq<char>) -> bool {
    |w: Seq<char>| w.len() > 0
}

/// The maximal runs of non-whitespace characters of `s`, in order.
pub open spec fn words(s: Seq<char>) -> Seq<Seq<char>> {
    pieces(s, at_space()).filter(non_empty())
}

/// The items of `ws` with `sep` between each two neighbours.
pub open spec fn join(ws: Seq<Seq<char>>, sep: Seq<char>) -> Seq<char>
    decreases ws.len(),
{
    if ws.len() == 0 {
        Seq::empty()
    } else if ws.len() == 1 {
        ws[0]
    } else {
        join(ws.drop_last(), sep) + sep + ws.last()
    }
}

/// `s` with leading and trailing whitespace removed and every inner run of
/// whitespace written as one space.
pub open spec fn normalized(s: Seq<char>) -> Seq<char> {
    join(words(s), seq![' '])
}

/// `s` without its trailing whitespace.
pub open spec fn trim_end(s: Seq<char>) -> Seq<char>
    decreases s.len(),
{
    if s.len() > 0 && is_space(s.last()) {
        trim_end(s.drop_last())
    } else {
        s
    }
}

/// `s` without its leading whitespace.
pub open spec fn trim_start(s: Seq<char>) -> Seq<char>
    decreases s.len(),
{
    if s.len() > 0 && is_space(s[0]) {
        trim_start(s.drop_first())
    } else {
        s
    }
}

/// `s` without leading and trailing whitespace.
pub open spec fn trim(s: Seq<char>) -> Seq<char> {
    trim_start(trim_end(s))
}

/// The character sequences held by a list of character vectors.
pub open spec fn views(v: Seq<Vec<char>>) -> Seq<Seq<char>> {
    v.map_values(|x: Vec<char>| x@)
}

/// `l` without one trailing carriage return.
pub open spec fn strip_cr(l: Seq<char>) -> Seq<char> {
    if l.len() > 0 && l.last() == '\r' {
        l.drop_last()
    } else {
        l
    }
}

/// The lines of `s`: split at each newline, a final empty piece dropped, and a
/// carriage return before a newline taken off.
pub open spec fn lines(s: Seq<char>) -> Seq<Seq<char>> {
    let p = pieces(s, at_char('\n'));
    let q = if p.last().len() == 0 {
        p.drop_last()
    } else {
        p
    };
    q.map_values(|l: Seq<char>| strip_cr(l))
}

/// Whether `m` occurs in `s` as a contiguous run.
pub open spec fn contains(s: Seq<char>, m: Seq<char>) -> bool {
    exists|k: int| 0 <= k && k + m.len() <= s.len() && #[trigger] s.subrange(k, k + m.len()) == m
}

/// Splitting yields at least one piece.
pub proof fn lemma_pieces_len(s: Seq<char>, sep: spec_fn(char) -> bool)
    ensures
        pieces(s, sep).len() >= 1,
    decreases s.len(),
{
    if s.len() > 0 {
        lemma_pieces_len(s.drop_last(), sep);
    }
}

/// Where the identifier that ends `s` begins (`s.len()` when `s` does not end in one).
pub open spec fn word_tail_start(s: Seq<char>) -> int
    decreases s.len(),
{
    if s.len() > 0 && is_word(s.last()) {
        word_tail_start(s.drop_last())
    } else {
        s.len() as int
    }
}

/// Filtering a sequence with one more item at its end.
pub proof fn lemma_filter_push(a: Seq<Seq<char>>, x: Seq<char>, f: spec_fn(Seq<char>) -> bool)
    ensures
        a.push(x).filter(f) == (if f(x) {
            a.filter(f).push(x)
        } else {
            a.filter(f)
        }),
{
    reveal(Seq::filter);
    assert(a.push(x).drop_last() =~= a);
}

/// Whether `c` is ASCII whitespace.
pub fn char_is_space(c: char) -> (r: bool)
    ensures
        r == is_space(c),
{
    c == ' ' || c == '\t' || c == '\n' || c == '\r' || c == '\u{b}' || c == '\u{c}'
}

/// Whether `c` may stand in a C identifier.
pub fn char_is_word(c: char) -> (r: bool)
    ensures
        r == is_word(c),
{
    ('a' <= c && c <= 'z') || ('A' <= c && c <= 'Z') || ('0' <= c && c <= '9') || c == '_'
}

/// The characters of `s`, in order.
pub fn chars_of(s: &str) -> (r: Vec<char>)
    ensures
        r@ == s@,
{
    broadcast use vstd::string::group_string_axioms;
    let mut r: Vec<char> = Vec::new();
    for c in it: s.chars()
        invariant
            it.seq() == s@,
            r@ == s@.take(it.index() as int),
    {
        assert(s@.take(it.index() + 1) =~= s@.take(it.index() as int).push(c));
        r.push(c);
    }
    assert(r@ =~= s@);
    r
}

/// Relies on `String::push`, which appends one character to the end.
pub assume_specification[ String::push ](s: &mut String, ch: char)
    ensures
        final(s)@ == old(s)@.push(ch),
;

/// A string of exactly the given characters.
pub fn string_of(v: &Vec<char>) -> (r: String)
    ensures
        r@ == v@,
{
    let mut r = String::new();
    let mut i: usize = 0;
    while i < v.len()
        invariant
            i <= v@.len(),
            r@ == v@.take(i as int),
        decreases v@.len() - i,
    {
        r.push(v[i]);
        assert(v@.take(i + 1) =~= v@.take(i as int).push(v@[i as int]));
        i += 1;
    }
    assert(v@.take(v@.len() as int) =~= v@);
    r
}

/// The characters of `s` from `lo` up to `hi`.
pub fn slice(s: &Vec<char>, lo: usize, hi: usize) -> (r: Vec<char>)
    requires
        lo <= hi <= s@.len(),
    ensures
        r@ == s@.subrange(lo as int, hi as int),
{
    let mut r: Vec<char> = Vec::new();
    let mut i: usize = lo;
    while i < hi
        invariant
            lo <= i <= hi <= s@.len(),
            r@ == s@.subrange(lo as int, i as int),
        decreases hi - i,
    {
        r.push(s[i]);
        assert(s@.subrange(lo as int, i + 1) =~= s@.subrange(lo as int, i as int).push(s@[i as int]));
        i += 1;
    }
    r
}

/// Appends the characters of `s` to `out`.
pub fn push_all(out: &mut Vec<char>, s: &Vec<char>)
    ensures
        final(out)@ == old(out)@ + s@,
{
    let mut i: usize = 0;
    while i < s.len()
        invariant
            i <= s@.len(),
            out@ == old(out)@ + s@.subrange(0, i as int),
        decreases s@.len() - i,
    {
        out.push(s[i]);
        assert(s@.subrange(0, i + 1) =~= s@.subrange(0, i as int).push(s@[i as int]));
        i += 1;
    }
    assert(s@.subrange(0, s@.len() as int) =~= s@);
}

/// Appends the characters of a string slice to `out`.
pub fn push_str(out: &mut Vec<char>, s: &str)
    ensures
        final(out)@ == old(out)@ + s@,
{
    let v = chars_of(s);
    push_all(out, &v);
}

/// Splits `s` at every occurrence of `sep`.
pub fn split_at_char(s: &Vec<char>, sep: char) -> (r: Vec<Vec<char>>)
    ensures
        views(r@) == pieces(s@, at_char(sep)),
{
    let mut done: Vec<Vec<char>> = Vec::new();
    let mut cur: Vec<char> = Vec::new();
    let mut i: usize = 0;
    while i < s.len()
        invariant
            i <= s@.len(),
            views(done@).push(cur@) == pieces(s@.subrange(0, i as int), at_char(sep)),
        decreases s@.len() - i,
    {
        let ghost before = s@.subrange(0, i as int);
        assert(s@.subrange(0, i + 1).drop_last() =~= before);
        let c = s[i];
        if c == sep {
            done.push(cur);
            cur = Vec::new();
            assert(views(done@).push(cur@) =~= pieces(before, at_char(sep)).push(Seq::empty()));
        } else {
            cur.push(c);
            assert(views(done@).push(cur@) =~= pieces(before, at_char(sep)).update(
                pieces(before, at_char(sep)).len() - 1,
                pieces(before, at_char(sep)).last().push(c),
            ));
        }
        i += 1;
    }
    assert(s@.subrange(0, s@.len() as int) =~= s@);
    done.push(cur);
    assert(views(done@) =~= pieces(s@, at_char(sep)));
    done
}

/// The maximal runs of non-whitespace characters of `s`.
pub fn split_words(s: &Vec<char>) -> (r: Vec<Vec<char>>)
    ensures
        views(r@) == words(s@),
{
    let ghost all: Seq<Seq<char>> = Seq::empty();
    let mut out: Vec<Vec<char>> = Vec::new();
    let mut cur: Vec<char> = Vec::new();
    let mut i: usize = 0;
    proof {
        reveal(Seq::filter);
    }
    while i < s.len()
        invariant
            i <= s@.len(),
            all.push(cur@) == pieces(s@.subrange(0, i as int), at_space()),
            views(out@) == all.filter(non_empty()),
        decreases s@.len() - i,
    {
        let ghost before = s@.subrange(0, i as int);
        assert(s@.subrange(0, i + 1).drop_last() =~= before);
        let c = s[i];
        if char_is_space(c) {
            proof {
                lemma_filter_push(all, cur@, non_empty());
            }
            let ghost piece = cur@;
            if cur.len() > 0 {
                out.push(cur);
                assert(views(out@) =~= all.filter(non_empty()).push(piece));
            }
            proof {
                all = all.push(piece);
            }
            cur = Vec::new();
            assert(all.push(cur@) =~= pieces(before, at_space()).push(Seq::empty()));
        } else {
            cur.push(c);
            assert(all.push(cur@) =~= pieces(before, at_space()).update(
                pieces(before, at_space()).len() - 1,
                pieces(before, at_space()).last().push(c),
            ));
        }
        i += 1;
    }
    assert(s@.subrange(0, s@.len() as int) =~= s@);
    proof {
        lemma_filter_push(all, cur@, non_empty());
    }
    if cur.len() > 0 {
        let ghost piece = cur@;
        out.push(cur);
        assert(views(out@) =~= all.filter(non_empty()).push(piece));
    }
    out
}

/// The items of `ws` with `sep` between each two neighbours.
pub fn join_with(ws: &Vec<Vec<char>>, sep: &Vec<char>) -> (r: Vec<char>)
    ensures
        r@ == join(views(ws@), sep@),
{
    let mut r: Vec<char> = Vec::new();
    let mut i: usize = 0;
    while i < ws.len()
        invariant
            i <= ws@.len(),
            r@ == join(views(ws@).subrange(0, i as int), sep@),
        decreases ws@.len() - i,
    {
        let ghost pre = views(ws@).subrange(0, i as int);
        assert(views(ws@).subrange(0, i + 1).drop_last() =~= pre);
        assert(views(ws@).subrange(0, i + 1).last() == ws@[i as int]@);
        if i > 0 {
            push_all(&mut r, sep);
        }
        push_all(&mut r, &ws[i]);
        i += 1;
    }
    assert(views(ws@).subrange(0, ws@.len() as int) =~= views(ws@));
    r
}

/// `s` trimmed, with every inner run of whitespace written as one space.
pub fn normalize(s: &Vec<char>) -> (r: Vec<char>)
    ensures
        r@ == normalized(s@),
{
    let ws = split_words(s);
    let sep: Vec<char> = vec![' '];
    assert(sep@ =~= seq![' ']);
    join_with(&ws, &sep)
}

/// The bounds of `s` without its leading and trailing whitespace.
pub fn trim_bounds(s: &Vec<char>) -> (r: (usize, usize))
    ensures
        r.0 <= r.1 <= s@.len(),
        s@.subrange(r.0 as int, r.1 as int) == trim(s@),
{
    let mut hi: usize = s.len();
    assert(s@.subrange(0, hi as int) =~= s@);
    while hi > 0 && char_is_space(s[hi - 1])
        invariant
            hi <= s@.len(),
            trim_end(s@) == trim_end(s@.subrange(0, hi as int)),
        decreases hi,
    {
        assert(s@.subrange(0, hi as int).drop_last() =~= s@.subrange(0, hi - 1));
        hi -= 1;
    }
    let mut lo: usize = 0;
    while lo < hi && char_is_space(s[lo])
        invariant
            lo <= hi <= s@.len(),
            trim_end(s@) == s@.subrange(0, hi as int),
            trim_start(s@.subrange(0, hi as int)) == trim_start(s@.subrange(lo as int, hi as int)),
        decreases hi - lo,
    {
        assert(s@.subrange(lo as int, hi as int).drop_first() =~= s@.subrange(lo + 1, hi as int));
        lo += 1;
    }
    (lo, hi)
}

/// Whether `m` occurs in `s` starting at `k`.
pub fn matches_at(s: &Vec<char>, m: &Vec<char>, k: usize) -> (r: bool)
    requires
        k + m@.len() <= s@.len(),
    ensures
        r == (s@.subrange(k as int, k + m@.len()) == m@),
{
    let n = s.len();
    let mut j: usize = 0;
    while j < m.len()
        invariant
            j <= m@.len(),
            n == s@.len(),
            k + m@.len() <= s@.len(),
            forall|t: int| 0 <= t < j ==> s@[k + t] == m@[t],
        decreases m@.len() - j,
    {
        if s[k + j] != m[j] {
            assert(s@.subrange(k as int, k + m@.len())[j as int] != m@[j as int]);
            return false;
        }
        j += 1;
    }
    assert(s@.subrange(k as int, k + m@.len()) =~= m@);
    true
}

/// Whether `m` occurs anywhere in `s`.
pub fn occurs(s: &Vec<char>, m: &Vec<char>) -> (r: bool)
    ensures
        r == contains(s@, m@),
{
    if m.len() > s.len() {
        return false;
    }
    let last = s.len() - m.len();
    let mut k: usize = 0;
    while k <= last
        invariant
            last + m@.len() == s@.len(),
            forall|t: int| 0 <= t < k ==> #[trigger] s@.subrange(t, t + m@.len()) != m@,
        decreases last + 1 - k,
    {
        if matches_at(s, m, k) {
            return true;
        }
        if k == last {
            return false;
        }
        k += 1;
    }
    false
}

/// The lines of `s`.
pub fn split_lines(s: &Vec<char>) -> (r: Vec<Vec<char>>)
    ensures
        views(r@) == lines(s@),
{
    let p = split_at_char(s, '\n');
    proof {
        lemma_pieces_len(s@, at_char('\n'));
    }
    let count = if p[p.len() - 1].len() == 0 {
        p.len() - 1
    } else {
        p.len()
    };
    let ghost q = views(p@).subrange(0, count as int);
    assert(q =~= (if views(p@).last().len() == 0 {
        views(p@).drop_last()
    } else {
        views(p@)
    }));
    let mut r: Vec<Vec<char>> = Vec::new();
    let mut i: usize = 0;
    while i < count
        invariant
            count <= p@.len(),
            i <= count,
            q == views(p@).subrange(0, count as int),
            views(r@) == q.subrange(0, i as int).map_values(|l: Seq<char>| strip_cr(l)),
        decreases count - i,
    {
        let line = &p[i];
        let n = line.len();
        let stripped = if n > 0 && line[n - 1] == '\r' {
            slice(line, 0, n - 1)
        } else {
            slice(line, 0, n)
        };
        assert(line@.subrange(0, n as int) =~= line@);
        if n > 0 {
            assert(line@.drop_last() =~= line@.subrange(0, n - 1));
        }
        assert(stripped@ == strip_cr(q[i as int]));
        let ghost before = views(r@);
        r.push(stripped);
        assert(views(r@) =~= before.push(stripped@));
        assert(views(r@) =~= q.subrange(0, i + 1).map_values(|l: Seq<char>| strip_cr(l)));
        i += 1;
    }
    assert(q.subrange(0, count as int) =~= q);
    r
}

/// Where the identifier that ends `s` begins.
pub fn word_tail(s: &Vec<char>) -> (r: usize)
    ensures
        r == word_tail_start(s@),
{
    let mut j: usize = s.len();
    assert(s@.subrange(0, j as int) =~= s@);
    while j > 0 && char_is_word(s[j - 1])
        invariant
            j <= s@.len(),
            word_tail_start(s@) == word_tail_start(s@.subrange(0, j as int)),
        decreases j,
    {
        assert(s@.subrange(0, j as int).drop_last() =~= s@.subrange(0, j - 1));
        j -= 1;
    }
    j
}

} // verus!
