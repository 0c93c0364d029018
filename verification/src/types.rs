//! The declared-type sublanguage: the tokens of a field's declared type are
//! resolved into a shape — a leaf kind, a list, an option, a tuple of leaf
//! kinds, or the (possibly path-qualified) name of another structure.
//!
//! Tuples only ever hold leaf kinds: tuple values come from regex capture
//! groups, and each group is converted by a leaf conversion.

use vstd::prelude::*;
use vstd::string::*;

use crate::lexer::{toks_view, SpecTok, SpecTokKind, TokKind, Token};
use crate::parser::tok_is_punct;
use crate::strutil::str_eq;

verus! {

/// The built-in leaf types a raw string can be converted to. The integer
/// kinds carry the bounds of the declared type, so each width rejects
/// exactly the values its type cannot hold.
#[derive(Debug, Clone, Copy, PartialEq, Eq, Structural)]
pub enum LeafKind {
    UintLeaf { max: u64 },
    IntLeaf { min: i64, max: i64 },
    BoolLeaf,
    TextLeaf,
}

/// The resolved shape of a declared type.
#[derive(Debug)]
pub enum TypeShape {
    Leaf(LeafKind),
    ListOf(Box<TypeShape>),
    OptionOf(Box<TypeShape>),
    TupleOf(Vec<LeafKind>),
    Named(String),
}

/// The mathematical form of `TypeShape`.
pub enum SpecTypeShape {
    LeafS(LeafKind),
    ListS(Box<SpecTypeShape>),
    OptionS(Box<SpecTypeShape>),
    TupleS(Seq<LeafKind>),
    NamedS(Seq<char>),
}

/// The mathematical form of a shape.
pub open spec fn ty_view(t: TypeShape) -> SpecTypeShape
    decreases t,
{
    match t {
        TypeShape::Leaf(k) => SpecTypeShape::LeafS(k),
        TypeShape::ListOf(b) => SpecTypeShape::ListS(Box::new(ty_view(*b))),
        TypeShape::OptionOf(b) => SpecTypeShape::OptionS(Box::new(ty_view(*b))),
        TypeShape::TupleOf(v) => SpecTypeShape::TupleS(v@),
        TypeShape::Named(s) => SpecTypeShape::NamedS(s@),
    }
}

/// The leaf kind named by an identifier, if any, with the named type's own
/// bounds.
pub open spec fn leaf_of(w: Seq<char>) -> Option<LeafKind> {
    if w == "u8"@ {
        Some(LeafKind::UintLeaf { max: u8::MAX as u64 })
    } else if w == "u16"@ {
        Some(LeafKind::UintLeaf { max: u16::MAX as u64 })
    } else if w == "u32"@ {
        Some(LeafKind::UintLeaf { max: u32::MAX as u64 })
    } else if w == "u64"@ {
        Some(LeafKind::UintLeaf { max: u64::MAX })
    } else if w == "usize"@ {
        Some(LeafKind::UintLeaf { max: usize::MAX as u64 })
    } else if w == "i8"@ {
        Some(LeafKind::IntLeaf { min: i8::MIN as i64, max: i8::MAX as i64 })
    } else if w == "i16"@ {
        Some(LeafKind::IntLeaf { min: i16::MIN as i64, max: i16::MAX as i64 })
    } else if w == "i32"@ {
        Some(LeafKind::IntLeaf { min: i32::MIN as i64, max: i32::MAX as i64 })
    } else if w == "i64"@ {
        Some(LeafKind::IntLeaf { min: i64::MIN, max: i64::MAX })
    } else if w == "isize"@ {
        Some(LeafKind::IntLeaf { min: isize::MIN as i64, max: isize::MAX as i64 })
    } else if w == "bool"@ {
        Some(LeafKind::BoolLeaf)
    } else if w == "String"@ {
        Some(LeafKind::TextLeaf)
    } else {
        None
    }
}

fn leaf_of_exec(w: &str) -> (r: Option<LeafKind>)
    ensures
        r == leaf_of(w@),
{
    if str_eq(w, "u8") {
        Some(LeafKind::UintLeaf { max: u8::MAX as u64 })
    } else if str_eq(w, "u16") {
        Some(LeafKind::UintLeaf { max: u16::MAX as u64 })
    } else if str_eq(w, "u32") {
        Some(LeafKind::UintLeaf { max: u32::MAX as u64 })
    } else if str_eq(w, "u64") {
        Some(LeafKind::UintLeaf { max: u64::MAX })
    } else if str_eq(w, "usize") {
        Some(LeafKind::UintLeaf { max: usize::MAX as u64 })
    } else if str_eq(w, "i8") {
        Some(LeafKind::IntLeaf { min: i8::MIN as i64, max: i8::MAX as i64 })
    } else if str_eq(w, "i16") {
        Some(LeafKind::IntLeaf { min: i16::MIN as i64, max: i16::MAX as i64 })
    } else if str_eq(w, "i32") {
        Some(LeafKind::IntLeaf { min: i32::MIN as i64, max: i32::MAX as i64 })
    } else if str_eq(w, "i64") {
        Some(LeafKind::IntLeaf { min: i64::MIN, max: i64::MAX })
    } else if str_eq(w, "isize") {
        Some(LeafKind::IntLeaf { min: isize::MIN as i64, max: isize::MAX as i64 })
    } else if str_eq(w, "bool") {
        Some(LeafKind::BoolLeaf)
    } else if str_eq(w, "String") {
        Some(LeafKind::TextLeaf)
    } else {
        None
    }
}

/// Whether a `:: identifier` continuation follows position `i`.
pub open spec fn path_continues(ts: Seq<SpecTok>, i: int) -> bool {
    i + 3 < ts.len() && tok_is_punct(ts[i + 1], ':') && tok_is_punct(ts[i + 2], ':')
        && ts[i + 3].kind is IdentK
}

/// The position after the path whose first identifier stands at `i`.
pub open spec fn path_end(ts: Seq<SpecTok>, i: int) -> int
    decreases ts.len() - i when 0 <= i <= ts.len()
{
    if i < ts.len() && path_continues(ts, i) {
        path_end(ts, i + 3)
    } else {
        i + 1
    }
}

/// The text of the path whose first identifier stands at `i`, segments
/// joined with `::`.
pub open spec fn path_text(ts: Seq<SpecTok>, i: int) -> Seq<char>
    decreases ts.len() - i when 0 <= i <= ts.len()
{
    if i < ts.len() && ts[i].kind is IdentK {
        if path_continues(ts, i) {
            ts[i].kind->IdentK_0 + "::"@ + path_text(ts, i + 3)
        } else {
            ts[i].kind->IdentK_0
        }
    } else {
        Seq::empty()
    }
}

/// Reads a parenthesized list of leaf-kind names, starting just after the
/// `(`, up to and past the `)`. A trailing comma is allowed.
pub open spec fn spec_parse_leaf_list(ts: Seq<SpecTok>, i: int) -> Option<(Seq<LeafKind>, int)>
    decreases ts.len() - i when 0 <= i <= ts.len()
{
    if i >= ts.len() {
        None
    } else if tok_is_punct(ts[i], ')') {
        Some((Seq::empty(), i + 1))
    } else if ts[i].kind is IdentK && leaf_of(ts[i].kind->IdentK_0) is Some {
        let k = leaf_of(ts[i].kind->IdentK_0)->0;
        if i + 1 < ts.len() && tok_is_punct(ts[i + 1], ',') {
            match spec_parse_leaf_list(ts, i + 2) {
                Some((rest, j)) => Some((seq![k] + rest, j)),
                None => None,
            }
        } else if i + 1 < ts.len() && tok_is_punct(ts[i + 1], ')') {
            Some((seq![k], i + 2))
        } else {
            None
        }
    } else {
        None
    }
}

/// Reads one type at position `i`: `Vec<T>`, `Option<T>`, a tuple of leaf
/// kinds, a leaf name, or a path naming another structure.
pub open spec fn spec_parse_ty_at(ts: Seq<SpecTok>, i: int) -> Option<(SpecTypeShape, int)>
    decreases ts.len() - i when 0 <= i <= ts.len()
{
    if i >= ts.len() {
        None
    } else if ts[i].kind is IdentK {
        let w = ts[i].kind->IdentK_0;
        if w == "Vec"@ {
            if i + 1 < ts.len() && tok_is_punct(ts[i + 1], '<') {
                match spec_parse_ty_at(ts, i + 2) {
                    Some((inner, j)) => if 0 <= j < ts.len() && tok_is_punct(ts[j], '>') {
                        Some((SpecTypeShape::ListS(Box::new(inner)), j + 1))
                    } else {
                        None
                    },
                    None => None,
                }
            } else {
                None
            }
        } else if w == "Option"@ {
            if i + 1 < ts.len() && tok_is_punct(ts[i + 1], '<') {
                match spec_parse_ty_at(ts, i + 2) {
                    Some((inner, j)) => if 0 <= j < ts.len() && tok_is_punct(ts[j], '>') {
                        Some((SpecTypeShape::OptionS(Box::new(inner)), j + 1))
                    } else {
                        None
                    },
                    None => None,
                }
            } else {
                None
            }
        } else {
            match leaf_of(w) {
                Some(k) => Some((SpecTypeShape::LeafS(k), i + 1)),
                None => Some((SpecTypeShape::NamedS(path_text(ts, i)), path_end(ts, i))),
            }
        }
    } else if tok_is_punct(ts[i], '(') {
        match spec_parse_leaf_list(ts, i + 1) {
            Some((ks, j)) => Some((SpecTypeShape::TupleS(ks), j)),
            None => None,
        }
    } else {
        None
    }
}

/// The shape of a whole declared-type token run, which must be exactly one
/// type.
pub open spec fn spec_resolve_ty(ty: Seq<SpecTok>) -> Option<SpecTypeShape> {
    match spec_parse_ty_at(ty, 0) {
        Some((s, j)) => if j == ty.len() {
            Some(s)
        } else {
            None
        },
        None => None,
    }
}

pub proof fn lemma_path_end_bounds(ts: Seq<SpecTok>, i: int)
    requires
        0 <= i <= ts.len(),
    ensures
        i < path_end(ts, i) <= ts.len() + 1,
        i < ts.len() ==> path_end(ts, i) <= ts.len(),
    decreases ts.len() - i,
{
    if i < ts.len() && path_continues(ts, i) {
        lemma_path_end_bounds(ts, i + 3);
    }
}

pub proof fn lemma_parse_leaf_list_bounds(ts: Seq<SpecTok>, i: int)
    requires
        0 <= i <= ts.len(),
    ensures
        spec_parse_leaf_list(ts, i) matches Some((ks, j)) ==> i < j <= ts.len(),
    decreases ts.len() - i,
{
    if i < ts.len() && !tok_is_punct(ts[i], ')') && ts[i].kind is IdentK && leaf_of(
        ts[i].kind->IdentK_0,
    ) is Some {
        if i + 1 < ts.len() && tok_is_punct(ts[i + 1], ',') {
            lemma_parse_leaf_list_bounds(ts, i + 2);
        }
    }
}

/// Reads the path starting at identifier `i`: its joined text and its end.
pub(crate) fn read_path(ts: &Vec<Token>, i: usize) -> (r: (String, usize))
    requires
        i < ts@.len(),
        toks_view(ts@)[i as int].kind is IdentK,
    ensures
        r.0@ == path_text(toks_view(ts@), i as int),
        r.1 as int == path_end(toks_view(ts@), i as int),
        i < r.1 <= ts@.len(),
    decreases ts@.len() - i,
{
    let ghost tsv = toks_view(ts@);
    let n = ts.len();
    let head = match &ts[i].kind {
        TokKind::IdentTok(s) => s.clone(),
        _ => String::new(),
    };
    let cont = n - i > 3 && peek_punct_local(ts, i + 1, ':') && peek_punct_local(ts, i + 2, ':')
        && matches!(&ts[i + 3].kind, TokKind::IdentTok(_));
    proof {
        assert(cont == path_continues(tsv, i as int));
        lemma_path_end_bounds(tsv, i as int);
    }
    if cont {
        proof {
            assert(tsv[i as int + 3].kind is IdentK);
        }
        let (rest, end) = read_path(ts, i + 3);
        let mut out = head;
        out.append("::");
        out.append(rest.as_str());
        (out, end)
    } else {
        (head, i + 1)
    }
}

/// Whether token `i` exists and is the punctuation character `c`.
fn peek_punct_local(ts: &Vec<Token>, i: usize, c: char) -> (r: bool)
    ensures
        r == (i < ts@.len() && tok_is_punct(toks_view(ts@)[i as int], c)),
{
    if i < ts.len() {
        match &ts[i].kind {
            TokKind::PunctTok(p) => *p == c,
            _ => false,
        }
    } else {
        false
    }
}

/// Reads a parenthesized list of leaf-kind names.
fn parse_leaf_list(ts: &Vec<Token>, i: usize) -> (r: Option<(Vec<LeafKind>, usize)>)
    requires
        i <= ts@.len(),
    ensures
        match r {
            Some(p) => spec_parse_leaf_list(toks_view(ts@), i as int) == Some(
                (p.0@, p.1 as int),
            ) && i < p.1 <= ts@.len(),
            None => spec_parse_leaf_list(toks_view(ts@), i as int) is None,
        },
    decreases ts@.len() - i,
{
    let ghost tsv = toks_view(ts@);
    let n = ts.len();
    if i >= n {
        return None;
    }
    if peek_punct_local(ts, i, ')') {
        return Some((Vec::new(), i + 1));
    }
    let k = match &ts[i].kind {
        TokKind::IdentTok(s) => match leaf_of_exec(s.as_str()) {
            Some(k) => k,
            None => {
                return None;
            },
        },
        _ => {
            return None;
        },
    };
    if peek_punct_local(ts, i + 1, ',') {
        match parse_leaf_list(ts, i + 2) {
            Some((rest, j)) => {
                let ghost restv = rest@;
                let mut out: Vec<LeafKind> = Vec::new();
                out.push(k);
                let mut rest = rest;
                out.append(&mut rest);
                proof {
                    assert(out@ =~= seq![k] + restv);
                }
                Some((out, j))
            },
            None => None,
        }
    } else if peek_punct_local(ts, i + 1, ')') {
        let mut out: Vec<LeafKind> = Vec::new();
        out.push(k);
        proof {
            assert(out@ =~= seq![k]);
        }
        Some((out, i + 2))
    } else {
        None
    }
}

/// Reads one type at position `i`.
fn parse_ty_at(ts: &Vec<Token>, i: usize) -> (r: Option<(TypeShape, usize)>)
    requires
        i <= ts@.len(),
    ensures
        match r {
            Some(p) => spec_parse_ty_at(toks_view(ts@), i as int) == Some(
                (ty_view(p.0), p.1 as int),
            ) && i < p.1 <= ts@.len(),
            None => spec_parse_ty_at(toks_view(ts@), i as int) is None,
        },
    decreases ts@.len() - i,
{
    let ghost tsv = toks_view(ts@);
    let n = ts.len();
    if i >= n {
        return None;
    }
    match &ts[i].kind {
        TokKind::IdentTok(w) => {
            if str_eq(w.as_str(), "Vec") || str_eq(w.as_str(), "Option") {
                let is_vec = str_eq(w.as_str(), "Vec");
                if peek_punct_local(ts, i + 1, '<') {
                    match parse_ty_at(ts, i + 2) {
                        Some((inner, j)) => {
                            if peek_punct_local(ts, j, '>') {
                                if is_vec {
                                    Some((TypeShape::ListOf(Box::new(inner)), j + 1))
                                } else {
                                    Some((TypeShape::OptionOf(Box::new(inner)), j + 1))
                                }
                            } else {
                                None
                            }
                        },
                        None => None,
                    }
                } else {
                    None
                }
            } else {
                match leaf_of_exec(w.as_str()) {
                    Some(k) => Some((TypeShape::Leaf(k), i + 1)),
                    None => {
                        let (text, end) = read_path(ts, i);
                        Some((TypeShape::Named(text), end))
                    },
                }
            }
        },
        TokKind::PunctTok(c) => {
            if *c == '(' {
                match parse_leaf_list(ts, i + 1) {
                    Some((ks, j)) => Some((TypeShape::TupleOf(ks), j)),
                    None => None,
                }
            } else {
                None
            }
        },
        _ => None,
    }
}

/// Resolves a whole declared-type token run into its shape; the run must be
/// exactly one type.
pub fn resolve_ty(ty: &Vec<Token>) -> (r: Option<TypeShape>)
    ensures
        match r {
            Some(s) => spec_resolve_ty(toks_view(ty@)) == Some(ty_view(s)),
            None => spec_resolve_ty(toks_view(ty@)) is None,
        },
{
    match parse_ty_at(ty, 0) {
        Some((s, j)) => {
            if j == ty.len() {
                Some(s)
            } else {
                None
            }
        },
        None => None,
    }
}

} // verus!
