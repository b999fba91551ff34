//! The type block, the header of declarations, the source of trampolines, and
//! the generation of both from one generated interface text.
use vstd::prelude::*;
use crate::signature::{
    string_views, signature_views, signatures, signatures_in_lines, FunctionSignature, SignatureModel,
};
use crate::text::{
    chars_of, contains, join, lines, occurs, push_all, push_str, split_lines, string_of, views,
    word_tail, word_tail_start,
};

verus! {

/// The line that opens the namespace holding the type declarations.
pub open spec fn namespace_marker() -> Seq<char> {
    "namespace Rust {"@
}

/// The line that ends the type declarations.
pub open spec fn block_end_marker() -> Seq<char> {
    "extern \"C\" {"@
}

/// The index of the first line at or after `from` that contains `m`;
/// `ls.len()` when there is none.
pub open spec fn first_containing(ls: Seq<Seq<char>>, from: int, m: Seq<char>) -> int
    decreases ls.len() - from,
{
    if from >= ls.len() {
        ls.len() as int
    } else if contains(ls[from], m) {
        from
    } else {
        first_containing(ls, from + 1, m)
    }
}

/// The lines strictly between the first line holding the namespace marker
/// and the next line holding the block-end marker (or the end), joined by
/// newlines; `None` when no line holds the namespace marker.
pub open spec fn type_block(text: Seq<char>) -> Option<Seq<char>> {
    let ls = lines(text);
    let open = first_containing(ls, 0, namespace_marker());
    if open >= ls.len() {
        None
    } else {
        let close = first_containing(ls, open + 1, block_end_marker());
        Some(join(ls.subrange(open + 1, close), "\n"@))
    }
}

/// The first line at or after `from` that contains `m`.
fn find_line(ls: &Vec<Vec<char>>, from: usize, m: &Vec<char>) -> (r: usize)
    requires
        from <= ls@.len(),
    ensures
        r == first_containing(views(ls@), from as int, m@),
        from <= r <= ls@.len(),
{
    let mut j: usize = from;
    while j < ls.len()
        invariant
            from <= j <= ls@.len(),
            first_containing(views(ls@), from as int, m@) == first_containing(
                views(ls@),
                j as int,
                m@,
            ),
        decreases ls@.len() - j,
    {
        if occurs(&ls[j], m) {
            return j;
        }
        j += 1;
    }
    j
}

/// The lines from `lo` up to `hi`, joined by newlines.
fn join_lines(ls: &Vec<Vec<char>>, lo: usize, hi: usize) -> (r: Vec<char>)
    requires
        lo <= hi <= ls@.len(),
    ensures
        r@ == join(views(ls@).subrange(lo as int, hi as int), "\n"@),
{
    let mut r: Vec<char> = Vec::new();
    let mut i: usize = lo;
    while i < hi
        invariant
            lo <= i <= hi <= ls@.len(),
            r@ == join(views(ls@).subrange(lo as int, i as int), "\n"@),
        decreases hi - i,
    {
        let ghost pre = views(ls@).subrange(lo as int, i as int);
        assert(views(ls@).subrange(lo as int, i + 1).drop_last() =~= pre);
        assert(views(ls@).subrange(lo as int, i + 1).last() == ls@[i as int]@);
        if i > lo {
            push_str(&mut r, "\n");
        }
        push_all(&mut r, &ls[i]);
        i += 1;
    }
    r
}

/// The type block of a text split into lines.
fn type_block_of_lines(ls: &Vec<Vec<char>>) -> (r: Option<Vec<char>>)
    ensures
        match r {
            Some(b) => {
                let open = first_containing(views(ls@), 0, namespace_marker());
                &&& open < ls@.len()
                &&& b@ == join(
                    views(ls@).subrange(
                        open + 1,
                        first_containing(views(ls@), open + 1, block_end_marker()),
                    ),
                    "\n"@,
                )
            },
            None => first_containing(views(ls@), 0, namespace_marker()) >= ls@.len(),
        },
{
    let ns = chars_of("namespace Rust {");
    let open = find_line(ls, 0, &ns);
    if open >= ls.len() {
        return None;
    }
    let end = chars_of("extern \"C\" {");
    let close = find_line(ls, open + 1, &end);
    Some(join_lines(ls, open + 1, close))
}

/// The type block of a generated interface text, if it has a namespace marker.
pub fn extract_type_block(contents: &str) -> (r: Option<String>)
    ensures
        match r {
            Some(b) => type_block(contents@) == Some(b@),
            None => type_block(contents@) is None,
        },
{
    let text = chars_of(contents);
    let ls = split_lines(&text);
    match type_block_of_lines(&ls) {
        Some(b) => Some(string_of(&b)),
        None => None,
    }
}

/// One declaration: `<return type> <name>(<parameters>);`.
pub open spec fn declaration(s: SignatureModel) -> Seq<char> {
    s.return_type + " "@ + s.name + "("@ + join(s.parameters, ", "@) + ");"@
}

/// The declarations of the header, one indented line and a blank line each,
/// in the order of `sigs`.
pub open spec fn declarations(sigs: Seq<SignatureModel>) -> Seq<char>
    decreases sigs.len(),
{
    if sigs.len() == 0 {
        Seq::empty()
    } else {
        declarations(sigs.drop_last()) + "    "@ + declaration(sigs.last()) + "\n\n"@
    }
}

/// The header: guard, library include, and in the namespace the type block,
/// the loader accessor and the declarations.
pub open spec fn header_text(types: Seq<char>, sigs: Seq<SignatureModel>) -> Seq<char> {
    "#pragma once\n#include <choc/platform/choc_DynamicLibrary.h>\n\nnamespace Rust {\n"@ + types
        + "\n    choc::file::DynamicLibrary* loadRustDll();\n"@ + declarations(sigs) + "}\n"@
}

/// A parameter names its argument when it ends in an identifier that follows
/// its type (a lone `void` or an unnamed type names none).
pub open spec fn has_name(p: Seq<char>) -> bool {
    0 < word_tail_start(p) < p.len()
}

/// The identifier that ends a parameter.
pub open spec fn parameter_name(p: Seq<char>) -> Seq<char> {
    p.subrange(word_tail_start(p), p.len() as int)
}

/// The names that a call forwards, in parameter order.
pub open spec fn call_names(ps: Seq<Seq<char>>) -> Seq<Seq<char>>
    decreases ps.len(),
{
    if ps.len() == 0 {
        Seq::empty()
    } else {
        call_names(ps.drop_last()) + if has_name(ps.last()) {
            seq![parameter_name(ps.last())]
        } else {
            Seq::empty()
        }
    }
}

/// The forwarding call `fn(<names>)`.
pub open spec fn forward_call(ps: Seq<Seq<char>>) -> Seq<char> {
    "fn("@ + join(call_names(ps), ", "@) + ")"@
}

/// The statement that makes the forwarding call: it returns the result, or
/// discards it when the return type is `void`.
pub open spec fn call_statement(s: SignatureModel) -> Seq<char> {
    (if s.return_type == "void"@ {
        "        "@
    } else {
        "        return "@
    }) + forward_call(s.parameters) + ";\n"@
}

/// The function-pointer alias `<name>_t` and the trampoline of one signature:
/// load the library, fail if it is absent, look the symbol up by its exact
/// name, fail if it is absent, and forward the call.
pub open spec fn trampoline(s: SignatureModel) -> Seq<char> {
    pointer_alias(s) + trampoline_opening(s) + symbol_lookup(s) + call_statement(s) + "    }\n\n"@
}

/// `typedef <return type> (*<name>_t)(<parameters>);`
pub open spec fn pointer_alias(s: SignatureModel) -> Seq<char> {
    "    typedef "@ + s.return_type + " (*"@ + s.name + "_t)("@ + join(s.parameters, ", "@)
        + ");\n"@
}

/// The trampoline's own signature, opening its body.
pub open spec fn trampoline_opening(s: SignatureModel) -> Seq<char> {
    "    "@ + s.return_type + " "@ + s.name + "("@ + join(s.parameters, ", "@) + ") {\n"@
}

/// Loading the library and looking the symbol up, each failing explicitly
/// when what it asks for is absent.
pub open spec fn symbol_lookup(s: SignatureModel) -> Seq<char> {
    "        auto rust = Rust::loadRustDll();\n"@
        + "        if (rust == nullptr) {\n            throw std::runtime_error(\"Rust library could not be loaded\");\n        }\n"@
        + "        auto fn = ("@ + s.name + "_t)rust->findFunction(\""@ + s.name + "\");\n"@
        + "        if (fn == nullptr) {\n            throw std::runtime_error(\"Rust symbol not found: "@
        + s.name + "\");\n        }\n"@
}

/// The trampolines of `sigs`, in their order.
pub open spec fn trampolines(sigs: Seq<SignatureModel>) -> Seq<char>
    decreases sigs.len(),
{
    if sigs.len() == 0 {
        Seq::empty()
    } else {
        trampolines(sigs.drop_last()) + trampoline(sigs.last())
    }
}

/// The source: the header's include, the exception include, and in the
/// namespace the trampolines.
pub open spec fn source_text(sigs: Seq<SignatureModel>) -> Seq<char> {
    "#include \"rust_bridge.generated.hpp\"\n#include <stdexcept>\n\nnamespace Rust {\n"@
        + trampolines(sigs) + "}\n"@
}

/// Appends the strings of `items` with `sep` between neighbours.
fn push_joined(out: &mut Vec<char>, items: &Vec<String>, sep: &str)
    ensures
        final(out)@ == old(out)@ + join(string_views(items@), sep@),
{
    let ghost start = out@;
    let mut i: usize = 0;
    while i < items.len()
        invariant
            i <= items@.len(),
            out@ == start + join(string_views(items@).subrange(0, i as int), sep@),
        decreases items@.len() - i,
    {
        let ghost pre = string_views(items@).subrange(0, i as int);
        assert(string_views(items@).subrange(0, i + 1).drop_last() =~= pre);
        assert(string_views(items@).subrange(0, i + 1).last() == items@[i as int]@);
        if i > 0 {
            push_str(out, sep);
        }
        push_str(out, items[i].as_str());
        if i > 0 {
            assert(out@ =~= start + (join(pre, sep@) + sep@ + items@[i as int]@));
        } else {
            assert(out@ =~= start + items@[i as int]@);
        }
        i += 1;
    }
    assert(string_views(items@).subrange(0, items@.len() as int) =~= string_views(items@));
}

/// The names that a call forwards: of each parameter that ends in a name
/// after its type, that name, in parameter order.
pub fn parameter_names(params: &Vec<String>) -> (r: Vec<String>)
    ensures
        string_views(r@) == call_names(string_views(params@)),
{
    let mut r: Vec<String> = Vec::new();
    let mut i: usize = 0;
    while i < params.len()
        invariant
            i <= params@.len(),
            string_views(r@) == call_names(string_views(params@).subrange(0, i as int)),
        decreases params@.len() - i,
    {
        let ghost pre = string_views(params@).subrange(0, i as int);
        assert(string_views(params@).subrange(0, i + 1).drop_last() =~= pre);
        assert(string_views(params@).subrange(0, i + 1).last() == params@[i as int]@);
        let p = chars_of(params[i].as_str());
        let start = word_tail(&p);
        let ghost before = string_views(r@);
        if 0 < start && start < p.len() {
            let name = string_of(&crate::text::slice(&p, start, p.len()));
            r.push(name);
            assert(string_views(r@) =~= before + seq![parameter_name(p@)]);
        } else {
            assert(before + Seq::<Seq<char>>::empty() =~= before);
        }
        i += 1;
    }
    assert(string_views(params@).subrange(0, params@.len() as int) =~= string_views(params@));
    r
}

/// The call that forwards `params` by name: `fn(<names>)`.
pub fn forwarding_call(params: &Vec<String>) -> (r: String)
    ensures
        r@ == forward_call(string_views(params@)),
{
    let names = parameter_names(params);
    let mut out: Vec<char> = Vec::new();
    push_str(&mut out, "fn(");
    push_joined(&mut out, &names, ", ");
    push_str(&mut out, ")");
    assert(out@ =~= forward_call(string_views(params@)));
    string_of(&out)
}

/// Appends one indented declaration and a blank line.
fn push_declaration(out: &mut Vec<char>, sig: &FunctionSignature)
    ensures
        final(out)@ == old(out)@ + "    "@ + declaration(sig@) + "\n\n"@,
{
    let ghost start = out@;
    push_str(out, "    ");
    push_str(out, sig.return_type.as_str());
    push_str(out, " ");
    push_str(out, sig.name.as_str());
    push_str(out, "(");
    push_joined(out, &sig.parameters, ", ");
    push_str(out, ");");
    push_str(out, "\n\n");
    assert(out@ =~= start + "    "@ + declaration(sig@) + "\n\n"@);
}

/// The header that declares the type block, the loader accessor and each
/// signature, in the order of `sigs`.
pub fn render_header(types: &str, sigs: &Vec<FunctionSignature>) -> (r: String)
    ensures
        r@ == header_text(types@, signature_views(sigs@)),
{
    let mut out: Vec<char> = Vec::new();
    push_str(
        &mut out,
        "#pragma once\n#include <choc/platform/choc_DynamicLibrary.h>\n\nnamespace Rust {\n",
    );
    push_str(&mut out, types);
    push_str(&mut out, "\n    choc::file::DynamicLibrary* loadRustDll();\n");
    let ghost start = out@;
    let mut i: usize = 0;
    while i < sigs.len()
        invariant
            i <= sigs@.len(),
            out@ == start + declarations(signature_views(sigs@).subrange(0, i as int)),
        decreases sigs@.len() - i,
    {
        let ghost pre = signature_views(sigs@).subrange(0, i as int);
        assert(signature_views(sigs@).subrange(0, i + 1).drop_last() =~= pre);
        assert(signature_views(sigs@).subrange(0, i + 1).last() == sigs@[i as int]@);
        push_declaration(&mut out, &sigs[i]);
        assert(out@ =~= start + (declarations(pre) + "    "@ + declaration(sigs@[i as int]@)
            + "\n\n"@));
        i += 1;
    }
    assert(signature_views(sigs@).subrange(0, sigs@.len() as int) =~= signature_views(sigs@));
    push_str(&mut out, "}\n");
    assert(out@ =~= header_text(types@, signature_views(sigs@)));
    string_of(&out)
}

/// Appends the alias and the trampoline of one signature.
fn push_trampoline(out: &mut Vec<char>, sig: &FunctionSignature)
    ensures
        final(out)@ == old(out)@ + trampoline(sig@),
{
    let ghost start = out@;
    push_alias_and_opening(out, sig);
    push_lookup(out, sig);
    push_call(out, sig);
    push_str(out, "    }\n\n");
    assert(out@ =~= start + trampoline(sig@));
}

/// Appends the pointer alias and the trampoline's opening line.
fn push_alias_and_opening(out: &mut Vec<char>, sig: &FunctionSignature)
    ensures
        final(out)@ == old(out)@ + pointer_alias(sig@) + trampoline_opening(sig@),
{
    let ghost start = out@;
    let name = sig.name.as_str();
    let ret = sig.return_type.as_str();
    let mut args: Vec<char> = Vec::new();
    push_joined(&mut args, &sig.parameters, ", ");
    push_str(out, "    typedef ");
    push_str(out, ret);
    push_str(out, " (*");
    push_str(out, name);
    push_str(out, "_t)(");
    push_all(out, &args);
    push_str(out, ");\n");
    push_str(out, "    ");
    push_str(out, ret);
    push_str(out, " ");
    push_str(out, name);
    push_str(out, "(");
    push_all(out, &args);
    push_str(out, ") {\n");
    assert(out@ =~= start + pointer_alias(sig@) + trampoline_opening(sig@));
}

/// Appends the library load and the symbol lookup, with their checks.
fn push_lookup(out: &mut Vec<char>, sig: &FunctionSignature)
    ensures
        final(out)@ == old(out)@ + symbol_lookup(sig@),
{
    let ghost start = out@;
    let name = sig.name.as_str();
    push_str(out, "        auto rust = Rust::loadRustDll();\n");
    push_str(
        out,
        "        if (rust == nullptr) {\n            throw std::runtime_error(\"Rust library could not be loaded\");\n        }\n",
    );
    push_str(out, "        auto fn = (");
    push_str(out, name);
    push_str(out, "_t)rust->findFunction(\"");
    push_str(out, name);
    push_str(out, "\");\n");
    push_str(
        out,
        "        if (fn == nullptr) {\n            throw std::runtime_error(\"Rust symbol not found: ",
    );
    push_str(out, name);
    push_str(out, "\");\n        }\n");
    assert(out@ =~= start + symbol_lookup(sig@));
}

/// Appends the forwarding call statement.
fn push_call(out: &mut Vec<char>, sig: &FunctionSignature)
    ensures
        final(out)@ == old(out)@ + call_statement(sig@),
{
    let ghost start = out@;
    let void = String::from_str("void");
    if sig.return_type == void {
        push_str(out, "        ");
    } else {
        push_str(out, "        return ");
    }
    let call = forwarding_call(&sig.parameters);
    push_str(out, call.as_str());
    push_str(out, ";\n");
    assert(out@ =~= start + call_statement(sig@));
}

/// The source that defines a trampoline for each signature, in the order of
/// `sigs`.
pub fn render_source(sigs: &Vec<FunctionSignature>) -> (r: String)
    ensures
        r@ == source_text(signature_views(sigs@)),
{
    let mut out: Vec<char> = Vec::new();
    push_str(
        &mut out,
        "#include \"rust_bridge.generated.hpp\"\n#include <stdexcept>\n\nnamespace Rust {\n",
    );
    let ghost start = out@;
    let mut i: usize = 0;
    while i < sigs.len()
        invariant
            i <= sigs@.len(),
            out@ == start + trampolines(signature_views(sigs@).subrange(0, i as int)),
        decreases sigs@.len() - i,
    {
        let ghost pre = signature_views(sigs@).subrange(0, i as int);
        assert(signature_views(sigs@).subrange(0, i + 1).drop_last() =~= pre);
        assert(signature_views(sigs@).subrange(0, i + 1).last() == sigs@[i as int]@);
        push_trampoline(&mut out, &sigs[i]);
        assert(out@ =~= start + (trampolines(pre) + trampoline(sigs@[i as int]@)));
        i += 1;
    }
    assert(signature_views(sigs@).subrange(0, sigs@.len() as int) =~= signature_views(sigs@));
    push_str(&mut out, "}\n");
    assert(out@ =~= source_text(signature_views(sigs@)));
    string_of(&out)
}

/// Why a bridge could not be generated.
pub enum BridgeError {
    /// No line holds the namespace marker.
    MissingNamespace,
    /// The type block between the markers is empty.
    EmptyTypeBlock,
    /// No line is an export line.
    NoExports,
    /// Two export lines declare this name.
    DuplicateName(String),
}

/// The two generated files.
pub struct BridgeFiles {
    pub header: String,
    pub source: String,
}

/// No two signatures share a name.
pub open spec fn distinct_names(sigs: Seq<SignatureModel>) -> bool {
    forall|i: int, j: int| 0 <= i < j < sigs.len() ==> sigs[i].name != sigs[j].name
}

/// Whether a text has what generation needs: a non-empty type block, at
/// least one export line, and no name exported twice.
pub open spec fn generation_succeeds(text: Seq<char>) -> bool {
    &&& type_block(text) is Some
    &&& type_block(text)->0.len() > 0
    &&& signatures(text).len() > 0
    &&& distinct_names(signatures(text))
}

/// The header and the source generated from a text.
pub open spec fn bridge_files(text: Seq<char>) -> (Seq<char>, Seq<char>) {
    (
        header_text(type_block(text)->0, signatures(text)),
        source_text(signatures(text)),
    )
}

/// The name of the first signature whose name an earlier one already has.
fn first_duplicate(sigs: &Vec<FunctionSignature>) -> (r: Option<String>)
    ensures
        match r {
            Some(n) => exists|i: int, j: int|
                0 <= i < j < sigs@.len() && signature_views(sigs@)[i].name == n@
                    && signature_views(sigs@)[j].name == n@,
            None => distinct_names(signature_views(sigs@)),
        },
{
    let mut j: usize = 0;
    while j < sigs.len()
        invariant
            j <= sigs@.len(),
            forall|a: int, b: int| 0 <= a < b < j ==> sigs@[a]@.name != sigs@[b]@.name,
        decreases sigs@.len() - j,
    {
        let mut i: usize = 0;
        while i < j
            invariant
                i <= j < sigs@.len(),
                forall|a: int| 0 <= a < i ==> sigs@[a]@.name != sigs@[j as int]@.name,
            decreases j - i,
        {
            if sigs[i].name == sigs[j].name {
                let n = sigs[j].name.clone();
                assert(signature_views(sigs@)[i as int].name == n@);
                assert(signature_views(sigs@)[j as int].name == n@);
                return Some(n);
            }
            i += 1;
        }
        j += 1;
    }
    None
}

/// Generates the header and the source from a generated interface text.
/// Fails, before anything is produced, when the namespace marker is missing,
/// when the type block is empty, when there is no export line, or when a name
/// is exported twice, checked in that order.
pub fn generate_bridge(contents: &str) -> (r: Result<BridgeFiles, BridgeError>)
    ensures
        match r {
            Ok(files) => {
                &&& generation_succeeds(contents@)
                &&& files.header@ == bridge_files(contents@).0
                &&& files.source@ == bridge_files(contents@).1
            },
            Err(BridgeError::MissingNamespace) => type_block(contents@) is None,
            Err(BridgeError::EmptyTypeBlock) => type_block(contents@) == Some(Seq::<char>::empty()),
            Err(BridgeError::NoExports) => {
                &&& type_block(contents@) is Some
                &&& type_block(contents@)->0.len() > 0
                &&& signatures(contents@).len() == 0
            },
            Err(BridgeError::DuplicateName(n)) => {
                let sigs = signatures(contents@);
                &&& type_block(contents@) is Some
                &&& type_block(contents@)->0.len() > 0
                &&& sigs.len() > 0
                &&& exists|i: int, j: int|
                    0 <= i < j < sigs.len() && sigs[i].name == n@ && sigs[j].name == n@
            },
        },
{
    let text = chars_of(contents);
    let ls = split_lines(&text);
    let types = match type_block_of_lines(&ls) {
        Some(b) => b,
        None => return Err(BridgeError::MissingNamespace),
    };
    if types.len() == 0 {
        assert(types@ =~= Seq::<char>::empty());
        return Err(BridgeError::EmptyTypeBlock);
    }
    let sigs = signatures_in_lines(&ls);
    if sigs.len() == 0 {
        return Err(BridgeError::NoExports);
    }
    match first_duplicate(&sigs) {
        Some(n) => {
            return Err(BridgeError::DuplicateName(n));
        },
        None => {},
    }
    let types_text = string_of(&types);
    let header = render_header(types_text.as_str(), &sigs);
    let source = render_source(&sigs);
    Ok(BridgeFiles { header, source })
}

} // verus!
