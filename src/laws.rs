//! Properties that relate the extractor and the synthesizers.
use vstd::prelude::*;
use crate::bridge::{bridge_files, declarations, generation_succeeds};
use crate::signature::{
    export_shape, head_shape, is_type_char, parameters, parse_line, signatures_of_lines,
    SignatureModel,
};
use crate::text::{
    at_char, at_space, is_space, is_word, lemma_filter_push, non_empty, normalized, pieces,
    trim, trim_end, trim_start, word_tail_start, words,
};

verus! {

/// The number of occurrences of `c` in `s`.
pub open spec fn count_char(s: Seq<char>, c: char) -> nat
    decreases s.len(),
{
    if s.len() == 0 {
        0
    } else {
        count_char(s.drop_last(), c) + if s.last() == c {
            1nat
        } else {
            0nat
        }
    }
}

/// The line `EXPORT <ret> <name>(<args>);`.
pub open spec fn export_line(ret: Seq<char>, name: Seq<char>, args: Seq<char>) -> Seq<char> {
    "EXPORT "@ + ret + " "@ + name + "("@ + args + ");"@
}

proof fn lemma_pieces_count(s: Seq<char>, c: char)
    ensures
        pieces(s, at_char(c)).len() == count_char(s, c) + 1,
    decreases s.len(),
{
    if s.len() > 0 {
        lemma_pieces_count(s.drop_last(), c);
    }
}

proof fn lemma_word_tail_after(x: Seq<char>, w: Seq<char>)
    requires
        x.len() > 0,
        !is_word(x.last()),
        forall|j: int| 0 <= j < w.len() ==> is_word(#[trigger] w[j]),
    ensures
        word_tail_start(x + w) == x.len(),
    decreases w.len(),
{
    if w.len() == 0 {
        assert(x + w =~= x);
    } else {
        assert((x + w).drop_last() =~= x + w.drop_last());
        assert((x + w).last() == w.last());
        lemma_word_tail_after(x, w.drop_last());
    }
}

proof fn lemma_words_trailing_space(s: Seq<char>)
    ensures
        words(s.push(' ')) == words(s),
{
    assert(s.push(' ').drop_last() =~= s);
    assert(pieces(s.push(' '), at_space()) == pieces(s, at_space()).push(Seq::empty()));
    lemma_filter_push(pieces(s, at_space()), Seq::empty(), non_empty());
}

/// Every well-formed line `EXPORT T name(args);` (the return type `T` starts
/// with a non-blank character, is made of identifier characters, blanks and
/// `*`, and is not blank; the name is an identifier; the argument list holds
/// no parenthesis) declares the signature with return type `T` normalized,
/// that name, and the parsed arguments: one per comma plus one, or none for a
/// blank list.
pub proof fn lemma_export_line_extracts(ret: Seq<char>, name: Seq<char>, args: Seq<char>)
    requires
        ret.len() > 0,
        !is_space(ret[0]),
        forall|j: int| 0 <= j < ret.len() ==> is_type_char(#[trigger] ret[j]),
        normalized(ret).len() > 0,
        name.len() > 0,
        forall|j: int| 0 <= j < name.len() ==> is_word(#[trigger] name[j]),
        forall|j: int| 0 <= j < args.len() ==> #[trigger] args[j] != '(' && args[j] != ')',
    ensures
        parse_line(export_line(ret, name, args)) == Some(
            SignatureModel { return_type: normalized(ret), name, parameters: parameters(args) },
        ),
        parameters(args).len() == if normalized(args).len() == 0 {
            0
        } else {
            count_char(args, ',') + 1
        },
{
    reveal_strlit("EXPORT ");
    reveal_strlit("EXPORT");
    reveal_strlit(" ");
    reveal_strlit("(");
    reveal_strlit(");");
    let l = export_line(ret, name, args);
    let head = ret + " "@ + name;
    assert(l =~= "EXPORT "@ + head + "("@ + args + ");"@);
    let n = l.len() as int;
    let k = 7 + head.len() as int;
    // the line is its own trim
    assert(l[0] == 'E');
    assert(l[n - 1] == ';');
    assert(trim_end(l) == l);
    assert(trim_start(l) == l);
    assert(trim(l) == l);
    // its shape, with the one `(` at k
    assert(l.subrange(0, 6) =~= "EXPORT"@);
    assert forall|j: int| 7 <= j < n - 2 && j != k implies #[trigger] l[j] != '(' && l[j] != ')' by {
        if j < 7 + ret.len() {
            assert(l[j] == ret[j - 7]);
            assert(is_type_char(ret[j - 7]));
        } else if j == 7 + ret.len() {
            assert(l[j] == ' ');
        } else if j < k {
            assert(l[j] == name[j - 8 - ret.len()]);
            assert(is_word(name[j - 8 - ret.len()]));
        } else {
            assert(l[j] == args[j - k - 1]);
        }
    }
    assert(l[k] == '(');
    assert(export_shape(l, k));
    assert forall|k2: int| export_shape(l, k2) implies k2 == k by {
        if k2 != k {
            assert(l[k] != '(');
        }
    }
    let chosen = choose|k2: int| export_shape(l, k2);
    assert(chosen == k);
    // the head, its name and its return type
    assert(l.subrange(7, k) =~= head);
    assert(head[0] == ret[0]);
    assert(head.last() == name.last());
    assert(trim_end(head) == head);
    assert(trim_start(head) == head);
    let x = ret + " "@;
    assert(head =~= x + name);
    assert(x.last() == ' ');
    lemma_word_tail_after(x, name);
    let p = word_tail_start(head);
    assert(head.subrange(0, p) =~= ret.push(' '));
    lemma_words_trailing_space(ret);
    assert(normalized(head.subrange(0, p)) == normalized(ret));
    assert(head.subrange(p, head.len() as int) =~= name);
    assert forall|j: int| 0 <= j < p implies is_type_char(#[trigger] head[j]) by {
        if j < ret.len() {
            assert(head[j] == ret[j]);
        }
    }
    assert(head_shape(head));
    assert(l.subrange(k + 1, n - 2) =~= args);
    lemma_pieces_count(args, ',');
}

/// Declarations follow the order of the lines: those of earlier lines come
/// first, those of later lines after them.
pub proof fn lemma_declarations_follow_line_order(a: Seq<Seq<char>>, b: Seq<Seq<char>>)
    ensures
        signatures_of_lines(a + b) == signatures_of_lines(a) + signatures_of_lines(b),
        declarations(signatures_of_lines(a + b)) == declarations(signatures_of_lines(a))
            + declarations(signatures_of_lines(b)),
    decreases b.len(),
{
    if b.len() == 0 {
        assert(a + b =~= a);
        assert(signatures_of_lines(a) + signatures_of_lines(b) =~= signatures_of_lines(a));
    } else {
        assert((a + b).drop_last() =~= a + b.drop_last());
        lemma_declarations_follow_line_order(a, b.drop_last());
        assert(signatures_of_lines(a + b) =~= signatures_of_lines(a) + signatures_of_lines(b));
    }
    lemma_declarations_concat(signatures_of_lines(a), signatures_of_lines(b));
}

proof fn lemma_declarations_concat(x: Seq<SignatureModel>, y: Seq<SignatureModel>)
    ensures
        declarations(x + y) == declarations(x) + declarations(y),
    decreases y.len(),
{
    if y.len() == 0 {
        assert(x + y =~= x);
        assert(declarations(x) + declarations(y) =~= declarations(x));
    } else {
        assert((x + y).drop_last() =~= x + y.drop_last());
        lemma_declarations_concat(x, y.drop_last());
        assert(declarations(x + y) =~= declarations(x) + declarations(y));
    }
}

/// Generating twice from the same text succeeds or fails alike and yields
/// the same two files, character for character.
pub proof fn lemma_regeneration_identical(first: Seq<char>, second: Seq<char>)
    requires
        first == second,
    ensures
        generation_succeeds(first) == generation_succeeds(second),
        bridge_files(first) == bridge_files(second),
{
}

} // verus!
