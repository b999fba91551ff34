//! Recognition of exported-function declarations and their decomposition into
//! a return type, a name and a parameter list.
use vstd::prelude::*;
use crate::text::{
    at_char, char_is_space, char_is_word, chars_of, is_space, is_word, lines,
    matches_at, normalize, normalized, pieces, slice, split_at_char, split_lines, string_of,
    trim, trim_bounds, views, word_tail, word_tail_start,
};

verus! {

/// One exported function: its return type, its name and its parameters, each
/// parameter written as its type followed by its name.
pub struct FunctionSignature {
    pub return_type: String,
    pub name: String,
    pub parameters: Vec<String>,
}

/// What a [`FunctionSignature`] holds, as character sequences.
pub struct SignatureModel {
    pub return_type: Seq<char>,
    pub name: Seq<char>,
    pub parameters: Seq<Seq<char>>,
}

/// The character sequences held by a list of strings.
pub open spec fn string_views(v: Seq<String>) -> Seq<Seq<char>> {
    v.map_values(|x: String| x@)
}

impl View for FunctionSignature {
    type V = SignatureModel;

    open spec fn view(&self) -> SignatureModel {
        SignatureModel {
            return_type: self.return_type@,
            name: self.name@,
            parameters: string_views(self.parameters@),
        }
    }
}

/// The signatures held by a list of them.
pub open spec fn signature_views(v: Seq<FunctionSignature>) -> Seq<SignatureModel> {
    v.map_values(|x: FunctionSignature| x@)
}

/// A character that may stand in a return type.
pub open spec fn is_type_char(c: char) -> bool {
    is_word(c) || is_space(c) || c == '*'
}

/// `t` reads `EXPORT`, whitespace, a head, `(` at `k`, an argument list and
/// `);`, with no other parenthesis after the marker.
pub open spec fn export_shape(t: Seq<char>, k: int) -> bool {
    &&& t.len() >= 9
    &&& t.subrange(0, 6) == "EXPORT"@
    &&& is_space(t[6])
    &&& t[t.len() - 2] == ')'
    &&& t[t.len() - 1] == ';'
    &&& 7 <= k < t.len() - 2
    &&& t[k] == '('
    &&& forall|j: int| 7 <= j < t.len() - 2 && j != k ==> #[trigger] t[j] != '(' && t[j] != ')'
}

/// A trimmed head `h` ends in a name that follows whitespace or `*`, and what
/// comes before the name is a non-blank return type.
pub open spec fn head_shape(h: Seq<char>) -> bool {
    let p = word_tail_start(h);
    &&& 0 < p < h.len()
    &&& (is_space(h[p - 1]) || h[p - 1] == '*')
    &&& forall|j: int| 0 <= j < p ==> is_type_char(#[trigger] h[j])
    &&& normalized(h.subrange(0, p)).len() > 0
}

/// The parameters of an argument list: none when it is blank, otherwise each
/// comma-separated piece with its whitespace normalized.
pub open spec fn parameters(args: Seq<char>) -> Seq<Seq<char>> {
    if normalized(args).len() == 0 {
        Seq::empty()
    } else {
        pieces(args, at_char(',')).map_values(|a: Seq<char>| normalized(a))
    }
}

/// The signature built from a head and an argument list of the right shape.
pub open spec fn signature_of(h: Seq<char>, args: Seq<char>) -> SignatureModel {
    let p = word_tail_start(h);
    SignatureModel {
        return_type: normalized(h.subrange(0, p)),
        name: h.subrange(p, h.len() as int),
        parameters: parameters(args),
    }
}

/// The signature that a line declares, if it is an export line.
pub open spec fn parse_line(line: Seq<char>) -> Option<SignatureModel> {
    let t = trim(line);
    if exists|k: int| export_shape(t, k) {
        let k = choose|k: int| export_shape(t, k);
        let h = trim(t.subrange(7, k));
        if head_shape(h) {
            Some(signature_of(h, t.subrange(k + 1, t.len() - 2)))
        } else {
            None
        }
    } else {
        None
    }
}

/// The signatures declared by a sequence of lines, in the order of the lines.
pub open spec fn signatures_of_lines(ls: Seq<Seq<char>>) -> Seq<SignatureModel>
    decreases ls.len(),
{
    if ls.len() == 0 {
        Seq::empty()
    } else {
        signatures_of_lines(ls.drop_last()) + match parse_line(ls.last()) {
            Some(sig) => seq![sig],
            None => Seq::empty(),
        }
    }
}

/// The signatures declared by a text, in the order of its lines.
pub open spec fn signatures(text: Seq<char>) -> Seq<SignatureModel> {
    signatures_of_lines(lines(text))
}

/// The parameters of an argument list.
fn parameters_of(args: &Vec<char>) -> (r: Vec<String>)
    ensures
        string_views(r@) == parameters(args@),
{
    let all = normalize(args);
    if all.len() == 0 {
        let r: Vec<String> = Vec::new();
        assert(string_views(r@) =~= Seq::<Seq<char>>::empty());
        return r;
    }
    let ps = split_at_char(args, ',');
    let ghost want = views(ps@).map_values(|a: Seq<char>| normalized(a));
    let mut r: Vec<String> = Vec::new();
    let mut i: usize = 0;
    while i < ps.len()
        invariant
            i <= ps@.len(),
            want == views(ps@).map_values(|a: Seq<char>| normalized(a)),
            string_views(r@) == want.subrange(0, i as int),
        decreases ps@.len() - i,
    {
        let p = normalize(&ps[i]);
        let s = string_of(&p);
        let ghost before = string_views(r@);
        r.push(s);
        assert(string_views(r@) =~= before.push(s@));
        assert(want.subrange(0, i + 1) =~= want.subrange(0, i as int).push(want[i as int]));
        i += 1;
    }
    assert(want.subrange(0, ps@.len() as int) =~= want);
    r
}

/// The parameters of a comma-separated argument list, each with its
/// whitespace normalized; none when the list is blank.
pub fn parse_parameters(args: &str) -> (r: Vec<String>)
    ensures
        string_views(r@) == parameters(args@),
{
    let a = chars_of(args);
    parameters_of(&a)
}

/// Whether every character of `h` before `p` may stand in a return type.
fn type_chars_before(h: &Vec<char>, p: usize) -> (r: bool)
    requires
        p <= h@.len(),
    ensures
        r == forall|j: int| 0 <= j < p ==> is_type_char(#[trigger] h@[j]),
{
    let mut j: usize = 0;
    while j < p
        invariant
            j <= p <= h@.len(),
            forall|t: int| 0 <= t < j ==> is_type_char(#[trigger] h@[t]),
        decreases p - j,
    {
        let c = h[j];
        if !(char_is_word(c) || char_is_space(c) || c == '*') {
            return false;
        }
        j += 1;
    }
    true
}

/// Where the single `(` of an export line stands, if the line has the
/// shape of one.
fn find_open_paren(t: &Vec<char>) -> (r: Option<usize>)
    ensures
        match r {
            Some(k) => export_shape(t@, k as int),
            None => !exists|k: int| export_shape(t@, k),
        },
{
    let n = t.len();
    if n < 9 {
        return None;
    }
    let marker = chars_of("EXPORT");
    proof {
        reveal_strlit("EXPORT");
    }
    if !matches_at(t, &marker, 0) || !char_is_space(t[6]) || t[n - 2] != ')' || t[n - 1] != ';' {
        return None;
    }
    let mut found: Option<usize> = None;
    let mut j: usize = 7;
    while j < n - 2
        invariant
            n == t@.len(),
            n >= 9,
            7 <= j <= n - 2,
            forall|x: int| 7 <= x < j ==> #[trigger] t@[x] != ')',
            match found {
                Some(k) => 7 <= k < j && t@[k as int] == '(' && forall|x: int|
                    7 <= x < j && x != k ==> #[trigger] t@[x] != '(',
                None => forall|x: int| 7 <= x < j ==> #[trigger] t@[x] != '(',
            },
        decreases n - 2 - j,
    {
        let c = t[j];
        if c == ')' {
            assert forall|k: int| !export_shape(t@, k) by {
                if export_shape(t@, k) {
                    assert(t@[j as int] != ')');
                }
            }
            return None;
        }
        if c == '(' {
            match found {
                Some(first) => {
                    assert forall|k: int| !export_shape(t@, k) by {
                        if export_shape(t@, k) {
                            if k == j {
                                assert(t@[first as int] != '(');
                            } else {
                                assert(t@[j as int] != '(');
                            }
                        }
                    }
                    return None;
                },
                None => {
                    found = Some(j);
                },
            }
        }
        j += 1;
    }
    match found {
        Some(k) => Some(k),
        None => {
            assert forall|k: int| !export_shape(t@, k) by {
                if export_shape(t@, k) {
                    assert(t@[k] == '(');
                }
            }
            None
        },
    }
}

/// The signature that an export line declares; `None` for any other line.
pub fn parse_export_line(line: &Vec<char>) -> (r: Option<FunctionSignature>)
    ensures
        match r {
            Some(sig) => parse_line(line@) == Some(sig@),
            None => parse_line(line@) is None,
        },
{
    let (lo, hi) = trim_bounds(line);
    let t = slice(line, lo, hi);
    let k = match find_open_paren(&t) {
        Some(k) => k,
        None => return None,
    };
    assert forall|k2: int| export_shape(t@, k2) implies k2 == k by {
        if k2 != k {
            assert(t@[k as int] != '(');
        }
    }
    let head = slice(&t, 7, k);
    let (a, b) = trim_bounds(&head);
    let h = slice(&head, a, b);
    let p = word_tail(&h);
    if p == 0 || p >= h.len() {
        return None;
    }
    if !(char_is_space(h[p - 1]) || h[p - 1] == '*') {
        return None;
    }
    if !type_chars_before(&h, p) {
        return None;
    }
    let ret = normalize(&slice(&h, 0, p));
    if ret.len() == 0 {
        return None;
    }
    let name = slice(&h, p, h.len());
    let args = slice(&t, k + 1, t.len() - 2);
    let parameters = parameters_of(&args);
    let sig = FunctionSignature {
        return_type: string_of(&ret),
        name: string_of(&name),
        parameters,
    };
    Some(sig)
}

/// The signatures declared by lines, in their order.
pub fn signatures_in_lines(ls: &Vec<Vec<char>>) -> (r: Vec<FunctionSignature>)
    ensures
        signature_views(r@) == signatures_of_lines(views(ls@)),
{
    let mut r: Vec<FunctionSignature> = Vec::new();
    let mut i: usize = 0;
    while i < ls.len()
        invariant
            i <= ls@.len(),
            signature_views(r@) == signatures_of_lines(views(ls@).subrange(0, i as int)),
        decreases ls@.len() - i,
    {
        assert(views(ls@).subrange(0, i + 1).drop_last() =~= views(ls@).subrange(0, i as int));
        assert(views(ls@).subrange(0, i + 1).last() == ls@[i as int]@);
        let ghost before = signature_views(r@);
        match parse_export_line(&ls[i]) {
            Some(sig) => {
                r.push(sig);
                assert(signature_views(r@) =~= before + seq![r@.last()@]);
            },
            None => {
                assert(before + Seq::<SignatureModel>::empty() =~= before);
            },
        }
        i += 1;
    }
    assert(views(ls@).subrange(0, ls@.len() as int) =~= views(ls@));
    r
}

/// A line that, trimmed, begins with the export marker.
pub open spec fn export_like(line: Seq<char>) -> bool {
    let t = trim(line);
    t.len() >= 6 && t.subrange(0, 6) == "EXPORT"@
}

/// The indices, among the first `n` lines, of those that begin with the export
/// marker but do not declare a signature, in increasing order.
pub open spec fn malformed_upto(ls: Seq<Seq<char>>, n: int) -> Seq<int>
    decreases n,
{
    if n <= 0 {
        Seq::empty()
    } else {
        malformed_upto(ls, n - 1) + if export_like(ls[n - 1]) && parse_line(ls[n - 1]) is None {
            seq![n - 1]
        } else {
            Seq::empty()
        }
    }
}

/// The indices of the lines of a text that begin with the export marker but
/// do not declare a signature.
pub open spec fn malformed_exports(text: Seq<char>) -> Seq<int> {
    malformed_upto(lines(text), lines(text).len() as int)
}

/// Whether a line, trimmed, begins with the export marker.
fn is_export_like(line: &Vec<char>) -> (r: bool)
    ensures
        r == export_like(line@),
{
    let (lo, hi) = trim_bounds(line);
    let t = slice(line, lo, hi);
    if t.len() < 6 {
        return false;
    }
    let marker = chars_of("EXPORT");
    proof {
        reveal_strlit("EXPORT");
    }
    matches_at(&t, &marker, 0)
}

/// The indices of the lines of a text (counted from zero) that begin with the
/// export marker but do not declare a signature, in increasing order: lines
/// that extraction skips and a reader should look at.
pub fn find_malformed_exports(contents: &str) -> (r: Vec<usize>)
    ensures
        r@.map_values(|i: usize| i as int) == malformed_exports(contents@),
{
    let text = chars_of(contents);
    let ls = split_lines(&text);
    let mut r: Vec<usize> = Vec::new();
    let mut i: usize = 0;
    while i < ls.len()
        invariant
            i <= ls@.len(),
            r@.map_values(|x: usize| x as int) == malformed_upto(views(ls@), i as int),
        decreases ls@.len() - i,
    {
        let ghost before = r@.map_values(|x: usize| x as int);
        assert(views(ls@)[i as int] == ls@[i as int]@);
        if is_export_like(&ls[i]) && parse_export_line(&ls[i]).is_none() {
            r.push(i);
            assert(r@.map_values(|x: usize| x as int) =~= before + seq![i as int]);
        } else {
            assert(before + Seq::<int>::empty() =~= before);
        }
        i += 1;
    }
    r
}

/// The signatures of the export lines of a text, in the order of the lines.
pub fn extract_signatures(contents: &str) -> (r: Vec<FunctionSignature>)
    ensures
        signature_views(r@) == signatures(contents@),
{
    let text = chars_of(contents);
    let ls = split_lines(&text);
    signatures_in_lines(&ls)
}

} // verus!
