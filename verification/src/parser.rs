//! The grammar parser: turns the token sequence into structure definitions,
//! and the extractor clause parser: turns the parenthesized clause after `=`
//! into a structured extractor.
//!
//! Every executable function returns exactly what its mathematical mirror
//! (`spec_parse_*`) says, including the position and content of the first
//! parse error.

use vstd::prelude::*;
use vstd::string::*;

use crate::ast::{
    structs_view, CollectorMode, ExtractorSpec, FieldSpec, ParserRef, SingleDecl,
    SpecExtractorSpec, SpecFieldSpec, SpecParserRef, SpecSingleDecl, SpecStructSpec,
    SpecTargetSpec, SpecVisibility, StructSpec, TargetSpec, Visibility,
};
use crate::lexer::{toks_view, SpecTok, SpecTokKind, TokKind, Token};
use crate::strutil::str_eq;

verus! {

/// What the parser was looking for when it failed.
#[derive(Debug, Clone, Copy, PartialEq, Eq, Structural)]
pub enum Expected {
    ExpIdent,
    ExpBody,
    ExpColon,
    ExpEq,
    ExpComma,
    ExpCloseParen,
    ExpCloseBracket,
    ExpCloseBrace,
    ExpExtractor,
    ExpClauseKeyword,
    ExpOf,
    ExpWith,
    ExpStrLit,
    ExpBracketOrOf,
    ExpIndex,
    ExpAttrOpen,
    ExpTarget,
    ExpNoProgress,
}

/// A location-tagged parse error, naming what was expected at the character
/// position `pos`.
#[derive(Debug, Clone, Copy, PartialEq, Eq, Structural)]
pub struct ParseError {
    pub pos: usize,
    pub expected: Expected,
}

/// Whether token `t` is the punctuation character `c`.
pub open spec fn tok_is_punct(t: SpecTok, c: char) -> bool {
    t.kind == SpecTokKind::PunctK(c)
}

/// Whether token `t` is the identifier `w`.
pub open spec fn tok_is_ident(t: SpecTok, w: Seq<char>) -> bool {
    t.kind == SpecTokKind::IdentK(w)
}

/// The character position of token `i`, or of the last token when the
/// sequence is exhausted.
pub open spec fn pos_at(ts: Seq<SpecTok>, i: int) -> usize {
    if 0 <= i && i < ts.len() {
        ts[i].pos as usize
    } else if ts.len() > 0 {
        ts[ts.len() - 1].pos as usize
    } else {
        0
    }
}

/// The error used by the well-foundedness guards of the list parsers. A
/// successfully parsed item always consumes at least one token, so it is
/// never produced; the guards only make the recursions visibly terminating.
pub open spec fn no_progress(ts: Seq<SpecTok>, i: int) -> ParseError {
    ParseError { pos: pos_at(ts, i), expected: Expected::ExpNoProgress }
}

/// Which close delimiter a balanced scan was looking for.
pub open spec fn close_expected(close: char) -> Expected {
    if close == ')' {
        Expected::ExpCloseParen
    } else if close == ']' {
        Expected::ExpCloseBracket
    } else {
        Expected::ExpCloseBrace
    }
}

/// Scans past the close delimiter matching an already-consumed open one,
/// tracking nesting of the same pair. Yields the position after the close.
pub open spec fn spec_scan_balanced(
    ts: Seq<SpecTok>,
    i: int,
    open: char,
    close: char,
    depth: nat,
) -> Result<int, ParseError>
    decreases ts.len() - i when 0 <= i <= ts.len()
{
    if i >= ts.len() {
        Err(ParseError { pos: pos_at(ts, i), expected: close_expected(close) })
    } else if tok_is_punct(ts[i], close) {
        if depth == 0 {
            Ok(i + 1)
        } else {
            spec_scan_balanced(ts, i + 1, open, close, (depth - 1) as nat)
        }
    } else if tok_is_punct(ts[i], open) {
        spec_scan_balanced(ts, i + 1, open, close, depth + 1)
    } else {
        spec_scan_balanced(ts, i + 1, open, close, depth)
    }
}

pub proof fn lemma_scan_balanced_bounds(
    ts: Seq<SpecTok>,
    i: int,
    open: char,
    close: char,
    depth: nat,
)
    requires
        0 <= i <= ts.len(),
    ensures
        spec_scan_balanced(ts, i, open, close, depth) matches Ok(j) ==> i < j <= ts.len(),
    decreases ts.len() - i,
{
    if i < ts.len() {
        if tok_is_punct(ts[i], close) && depth == 0 {
        } else if tok_is_punct(ts[i], close) {
            lemma_scan_balanced_bounds(ts, i + 1, open, close, (depth - 1) as nat);
        } else if tok_is_punct(ts[i], open) {
            lemma_scan_balanced_bounds(ts, i + 1, open, close, depth + 1);
        } else {
            lemma_scan_balanced_bounds(ts, i + 1, open, close, depth);
        }
    }
}

/// Reads zero or more leading attributes, each `#` followed by a
/// bracket-delimited token run, kept as raw tokens.
pub open spec fn spec_parse_attrs(ts: Seq<SpecTok>, i: int) -> Result<
    (Seq<SpecTok>, int),
    ParseError,
>
    decreases ts.len() - i when 0 <= i <= ts.len()
{
    if i < ts.len() && tok_is_punct(ts[i], '#') {
        if i + 1 < ts.len() && tok_is_punct(ts[i + 1], '[') {
            match spec_scan_balanced(ts, i + 2, '[', ']', 0) {
                Ok(j) => if j <= i + 2 || j > ts.len() {
                    Err(no_progress(ts, i))
                } else {
                    match spec_parse_attrs(ts, j) {
                        Ok((rest, e)) => Ok((ts.subrange(i, j) + rest, e)),
                        Err(x) => Err(x),
                    }
                },
                Err(x) => Err(x),
            }
        } else {
            Err(ParseError { pos: pos_at(ts, i + 1), expected: Expected::ExpAttrOpen })
        }
    } else {
        Ok((Seq::empty(), i))
    }
}

pub proof fn lemma_parse_attrs_bounds(ts: Seq<SpecTok>, i: int)
    requires
        0 <= i <= ts.len(),
    ensures
        spec_parse_attrs(ts, i) matches Ok((a, j)) ==> i <= j <= ts.len(),
    decreases ts.len() - i,
{
    if i < ts.len() && tok_is_punct(ts[i], '#') && i + 1 < ts.len() && tok_is_punct(
        ts[i + 1],
        '[',
    ) {
        match spec_scan_balanced(ts, i + 2, '[', ']', 0) {
            Ok(j) => {
                if i + 2 < j <= ts.len() {
                    lemma_parse_attrs_bounds(ts, j);
                }
            },
            Err(_) => {},
        }
    }
}

/// Reads the visibility: absent, `pub`, or `pub` with a parenthesized scope.
pub open spec fn spec_parse_vis(ts: Seq<SpecTok>, i: int) -> Result<
    (SpecVisibility, int),
    ParseError,
> {
    if i < ts.len() && tok_is_ident(ts[i], "pub"@) {
        if i + 1 < ts.len() && tok_is_punct(ts[i + 1], '(') {
            match spec_scan_balanced(ts, i + 2, '(', ')', 0) {
                Ok(j) => if j <= i + 2 || j > ts.len() {
                    Err(no_progress(ts, i))
                } else {
                    Ok((SpecVisibility::PublicScopedV(ts.subrange(i + 2, j - 1)), j))
                },
                Err(x) => Err(x),
            }
        } else {
            Ok((SpecVisibility::PublicV, i + 1))
        }
    } else {
        Ok((SpecVisibility::PrivateV, i))
    }
}

pub proof fn lemma_parse_vis_bounds(ts: Seq<SpecTok>, i: int)
    requires
        0 <= i <= ts.len(),
    ensures
        spec_parse_vis(ts, i) matches Ok((v, j)) ==> i <= j <= ts.len(),
{
    if i < ts.len() && tok_is_ident(ts[i], "pub"@) && i + 1 < ts.len() && tok_is_punct(
        ts[i + 1],
        '(',
    ) {
        lemma_scan_balanced_bounds(ts, i + 2, '(', ')', 0);
    }
}

/// Scans the token run of a declared type: everything up to a `,`, `=` or
/// `)` at nesting depth zero, where `()`, `[]` and `<>` nest.
pub open spec fn spec_scan_ty(ts: Seq<SpecTok>, i: int, depth: nat) -> int
    decreases ts.len() - i when 0 <= i <= ts.len()
{
    if i >= ts.len() {
        i
    } else if depth == 0 && (tok_is_punct(ts[i], ',') || tok_is_punct(ts[i], '=') || tok_is_punct(
        ts[i],
        ')',
    )) {
        i
    } else {
        let d2 = if tok_is_punct(ts[i], '(') || tok_is_punct(ts[i], '[') || tok_is_punct(
            ts[i],
            '<',
        ) {
            depth + 1
        } else if (tok_is_punct(ts[i], ')') || tok_is_punct(ts[i], ']') || tok_is_punct(
            ts[i],
            '>',
        )) && depth > 0 {
            (depth - 1) as nat
        } else {
            depth
        };
        spec_scan_ty(ts, i + 1, d2)
    }
}

pub proof fn lemma_scan_ty_bounds(ts: Seq<SpecTok>, i: int, depth: nat)
    requires
        0 <= i <= ts.len(),
    ensures
        i <= spec_scan_ty(ts, i, depth) <= ts.len(),
    decreases ts.len() - i,
{
    if i < ts.len() && !(depth == 0 && (tok_is_punct(ts[i], ',') || tok_is_punct(ts[i], '=')
        || tok_is_punct(ts[i], ')'))) {
        let d2 = if tok_is_punct(ts[i], '(') || tok_is_punct(ts[i], '[') || tok_is_punct(
            ts[i],
            '<',
        ) {
            depth + 1
        } else if (tok_is_punct(ts[i], ')') || tok_is_punct(ts[i], ']') || tok_is_punct(
            ts[i],
            '>',
        )) && depth > 0 {
            (depth - 1) as nat
        } else {
            depth
        };
        lemma_scan_ty_bounds(ts, i + 1, d2);
    }
}

/// Reads one declaration: attributes, visibility, name, `:`, type tokens.
pub open spec fn spec_parse_single_decl(ts: Seq<SpecTok>, i: int) -> Result<
    (SpecSingleDecl, int),
    ParseError,
> {
    match spec_parse_attrs(ts, i) {
        Err(x) => Err(x),
        Ok((attrs, i1)) => match spec_parse_vis(ts, i1) {
            Err(x) => Err(x),
            Ok((vis, i2)) => if i2 < ts.len() && ts[i2].kind is IdentK {
                let name = ts[i2].kind->IdentK_0;
                if i2 + 1 < ts.len() && tok_is_punct(ts[i2 + 1], ':') {
                    let j = spec_scan_ty(ts, i2 + 2, 0);
                    Ok(
                        (
                            SpecSingleDecl {
                                attrs,
                                vis,
                                name,
                                name_pos: ts[i2].pos,
                                ty: ts.subrange(i2 + 2, j),
                            },
                            j,
                        ),
                    )
                } else {
                    Err(ParseError { pos: pos_at(ts, i2 + 1), expected: Expected::ExpColon })
                }
            } else {
                Err(ParseError { pos: pos_at(ts, i2), expected: Expected::ExpIdent })
            },
        },
    }
}

pub proof fn lemma_parse_single_decl_bounds(ts: Seq<SpecTok>, i: int)
    requires
        0 <= i <= ts.len(),
    ensures
        spec_parse_single_decl(ts, i) matches Ok((d, j)) ==> i < j <= ts.len(),
{
    lemma_parse_attrs_bounds(ts, i);
    match spec_parse_attrs(ts, i) {
        Ok((attrs, i1)) => {
            lemma_parse_vis_bounds(ts, i1);
            match spec_parse_vis(ts, i1) {
                Ok((vis, i2)) => {
                    if i2 + 2 <= ts.len() {
                        lemma_scan_ty_bounds(ts, i2 + 2, 0);
                    }
                },
                Err(_) => {},
            }
        },
        Err(_) => {},
    }
}

/// The running state of the clause parser: later clauses overwrite earlier
/// ones.
pub struct SpecClauseState {
    pub target: Option<SpecTargetSpec>,
    pub capture: Option<Seq<char>>,
    pub collector: CollectorMode,
    pub parser: SpecParserRef,
}

/// The state before any clause: no target, no capture, first-match
/// collection, the ambient parser.
pub open spec fn init_clause_state() -> SpecClauseState {
    SpecClauseState {
        target: None,
        capture: None,
        collector: CollectorMode::First,
        parser: SpecParserRef::DefaultP,
    }
}

/// Reads `of STRING` at `i`; yields the string and the next position.
pub open spec fn spec_expect_kw_str(ts: Seq<SpecTok>, i: int, kw: Seq<char>, exp: Expected)
    -> Result<(Seq<char>, int), ParseError> {
    if i < ts.len() && tok_is_ident(ts[i], kw) {
        if i + 1 < ts.len() && ts[i + 1].kind is StrK {
            Ok((ts[i + 1].kind->StrK_0, i + 2))
        } else {
            Err(ParseError { pos: pos_at(ts, i + 1), expected: Expected::ExpStrLit })
        }
    } else {
        Err(ParseError { pos: pos_at(ts, i), expected: exp })
    }
}

/// Reads exactly one clause at `i` (which holds neither `)` nor the end) and
/// folds it into the state.
pub open spec fn spec_parse_clause(ts: Seq<SpecTok>, i: int, st: SpecClauseState) -> Result<
    (SpecClauseState, int),
    ParseError,
>
    recommends
        0 <= i < ts.len(),
{
    if !(ts[i].kind is IdentK) {
        Err(ParseError { pos: pos_at(ts, i), expected: Expected::ExpClauseKeyword })
    } else {
        let w = ts[i].kind->IdentK_0;
        if w == "elem"@ {
            match spec_expect_kw_str(ts, i + 1, "of"@, Expected::ExpOf) {
                Ok((sel, j)) => Ok(
                    (
                        SpecClauseState {
                            target: Some(SpecTargetSpec::ElementT { selector: sel }),
                            ..st
                        },
                        j,
                    ),
                ),
                Err(x) => Err(x),
            }
        } else if w == "attr"@ {
            if i + 1 < ts.len() && tok_is_punct(ts[i + 1], '[') {
                if i + 2 < ts.len() && ts[i + 2].kind is StrK {
                    let name = ts[i + 2].kind->StrK_0;
                    if i + 3 < ts.len() && tok_is_punct(ts[i + 3], ']') {
                        match spec_expect_kw_str(ts, i + 4, "of"@, Expected::ExpOf) {
                            Ok((sel, j)) => Ok(
                                (
                                    SpecClauseState {
                                        target: Some(
                                            SpecTargetSpec::AttributeT {
                                                attr_name: name,
                                                selector: sel,
                                            },
                                        ),
                                        ..st
                                    },
                                    j,
                                ),
                            ),
                            Err(x) => Err(x),
                        }
                    } else {
                        Err(
                            ParseError {
                                pos: pos_at(ts, i + 3),
                                expected: Expected::ExpCloseBracket,
                            },
                        )
                    }
                } else {
                    Err(ParseError { pos: pos_at(ts, i + 2), expected: Expected::ExpStrLit })
                }
            } else {
                Err(ParseError { pos: pos_at(ts, i + 1), expected: Expected::ExpAttrOpen })
            }
        } else if w == "text"@ {
            if i + 1 < ts.len() && tok_is_punct(ts[i + 1], '[') {
                if i + 2 < ts.len() && ts[i + 2].kind is IntK {
                    let idx = ts[i + 2].kind->IntK_0;
                    if i + 3 < ts.len() && tok_is_punct(ts[i + 3], ']') {
                        match spec_expect_kw_str(ts, i + 4, "of"@, Expected::ExpOf) {
                            Ok((sel, j)) => Ok(
                                (
                                    SpecClauseState {
                                        target: Some(
                                            SpecTargetSpec::TextNodeT {
                                                index: idx,
                                                selector: sel,
                                            },
                                        ),
                                        ..st
                                    },
                                    j,
                                ),
                            ),
                            Err(x) => Err(x),
                        }
                    } else {
                        Err(
                            ParseError {
                                pos: pos_at(ts, i + 3),
                                expected: Expected::ExpCloseBracket,
                            },
                        )
                    }
                } else {
                    Err(ParseError { pos: pos_at(ts, i + 2), expected: Expected::ExpIndex })
                }
            } else if i + 1 < ts.len() && tok_is_ident(ts[i + 1], "of"@) {
                match spec_expect_kw_str(ts, i + 1, "of"@, Expected::ExpOf) {
                    Ok((sel, j)) => Ok(
                        (
                            SpecClauseState {
                                target: Some(
                                    SpecTargetSpec::TextNodeT { index: 0, selector: sel },
                                ),
                                ..st
                            },
                            j,
                        ),
                    ),
                    Err(x) => Err(x),
                }
            } else {
                Err(ParseError { pos: pos_at(ts, i + 1), expected: Expected::ExpBracketOrOf })
            }
        } else if w == "inner_html"@ {
            match spec_expect_kw_str(ts, i + 1, "of"@, Expected::ExpOf) {
                Ok((sel, j)) => Ok(
                    (
                        SpecClauseState {
                            target: Some(SpecTargetSpec::InnerHtmlT { selector: sel }),
                            ..st
                        },
                        j,
                    ),
                ),
                Err(x) => Err(x),
            }
        } else if w == "presence"@ {
            match spec_expect_kw_str(ts, i + 1, "of"@, Expected::ExpOf) {
                Ok((sel, j)) => Ok(
                    (
                        SpecClauseState {
                            target: Some(SpecTargetSpec::PresenceOfT { selector: sel }),
                            ..st
                        },
                        j,
                    ),
                ),
                Err(x) => Err(x),
            }
        } else if w == "capture"@ {
            match spec_expect_kw_str(ts, i + 1, "with"@, Expected::ExpWith) {
                Ok((re, j)) => Ok((SpecClauseState { capture: Some(re), ..st }, j)),
                Err(x) => Err(x),
            }
        } else if w == "collect"@ {
            Ok((SpecClauseState { collector: CollectorMode::All, ..st }, i + 1))
        } else if w == "optional"@ {
            Ok((SpecClauseState { collector: CollectorMode::Optional, ..st }, i + 1))
        } else if w == "parse"@ {
            if i + 1 < ts.len() && tok_is_ident(ts[i + 1], "with"@) {
                let j = spec_scan_ty(ts, i + 2, 0);
                Ok(
                    (
                        SpecClauseState {
                            parser: SpecParserRef::CustomP(ts.subrange(i + 2, j)),
                            ..st
                        },
                        j,
                    ),
                )
            } else {
                Err(ParseError { pos: pos_at(ts, i + 1), expected: Expected::ExpWith })
            }
        } else {
            Err(ParseError { pos: pos_at(ts, i), expected: Expected::ExpClauseKeyword })
        }
    }
}

/// Reads the comma-separated clauses of one extractor up to and past the
/// closing `)`, folding them into the state, later clauses overwriting
/// earlier ones.
pub open spec fn spec_parse_clauses(ts: Seq<SpecTok>, i: int, st: SpecClauseState) -> Result<
    (SpecClauseState, int),
    ParseError,
>
    decreases ts.len() - i when 0 <= i <= ts.len()
{
    if i >= ts.len() {
        Err(ParseError { pos: pos_at(ts, i), expected: Expected::ExpCloseParen })
    } else if tok_is_punct(ts[i], ')') {
        Ok((st, i + 1))
    } else {
        match spec_parse_clause(ts, i, st) {
            Err(x) => Err(x),
            Ok((st2, j)) => if j <= i || j > ts.len() {
                Err(no_progress(ts, i))
            } else if j < ts.len() && tok_is_punct(ts[j], ',') {
                spec_parse_clauses(ts, j + 1, st2)
            } else if j < ts.len() && tok_is_punct(ts[j], ')') {
                Ok((st2, j + 1))
            } else {
                Err(ParseError { pos: pos_at(ts, j), expected: Expected::ExpComma })
            },
        }
    }
}

/// Reads one whole extractor: `(` clauses `)`, requiring a target.
pub open spec fn spec_parse_extractor(ts: Seq<SpecTok>, i: int) -> Result<
    (SpecExtractorSpec, int),
    ParseError,
> {
    if i < ts.len() && tok_is_punct(ts[i], '(') {
        match spec_parse_clauses(ts, i + 1, init_clause_state()) {
            Err(x) => Err(x),
            Ok((st, j)) => match st.target {
                Some(t) => Ok(
                    (
                        SpecExtractorSpec {
                            target: t,
                            capture: st.capture,
                            collector: st.collector,
                            parser: st.parser,
                        },
                        j,
                    ),
                ),
                None => Err(ParseError { pos: pos_at(ts, i), expected: Expected::ExpTarget }),
            },
        }
    } else {
        Err(ParseError { pos: pos_at(ts, i), expected: Expected::ExpExtractor })
    }
}

pub proof fn lemma_parse_clauses_bounds(ts: Seq<SpecTok>, i: int, st: SpecClauseState)
    requires
        0 <= i <= ts.len(),
    ensures
        spec_parse_clauses(ts, i, st) matches Ok((st2, j)) ==> i < j <= ts.len(),
    decreases ts.len() - i,
{
    if i < ts.len() && !tok_is_punct(ts[i], ')') {
        match spec_parse_clause(ts, i, st) {
            Ok((st2, j)) => {
                if i < j <= ts.len() {
                    if j < ts.len() && tok_is_punct(ts[j], ',') {
                        lemma_parse_clauses_bounds(ts, j + 1, st2);
                    }
                }
            },
            Err(_) => {},
        }
    }
}

pub proof fn lemma_parse_extractor_bounds(ts: Seq<SpecTok>, i: int)
    requires
        0 <= i <= ts.len(),
    ensures
        spec_parse_extractor(ts, i) matches Ok((e, j)) ==> i < j <= ts.len(),
{
    if i < ts.len() && tok_is_punct(ts[i], '(') {
        lemma_parse_clauses_bounds(ts, i + 1, init_clause_state());
    }
}

/// Reads the member declarations of a tuple field up to and past the closing
/// `)`.
pub open spec fn spec_parse_members(ts: Seq<SpecTok>, i: int) -> Result<
    (Seq<SpecSingleDecl>, int),
    ParseError,
>
    decreases ts.len() - i when 0 <= i <= ts.len()
{
    if i >= ts.len() {
        Err(ParseError { pos: pos_at(ts, i), expected: Expected::ExpCloseParen })
    } else if tok_is_punct(ts[i], ')') {
        Ok((Seq::empty(), i + 1))
    } else {
        match spec_parse_single_decl(ts, i) {
            Err(x) => Err(x),
            Ok((d, j)) => if j <= i || j > ts.len() {
                Err(no_progress(ts, i))
            } else if j < ts.len() && tok_is_punct(ts[j], ',') {
                match spec_parse_members(ts, j + 1) {
                    Ok((rest, e)) => Ok((seq![d] + rest, e)),
                    Err(x) => Err(x),
                }
            } else if j < ts.len() && tok_is_punct(ts[j], ')') {
                Ok((seq![d], j + 1))
            } else {
                Err(ParseError { pos: pos_at(ts, j), expected: Expected::ExpComma })
            },
        }
    }
}

pub proof fn lemma_parse_members_bounds(ts: Seq<SpecTok>, i: int)
    requires
        0 <= i <= ts.len(),
    ensures
        spec_parse_members(ts, i) matches Ok((ms, j)) ==> i < j <= ts.len(),
    decreases ts.len() - i,
{
    if i < ts.len() && !tok_is_punct(ts[i], ')') {
        match spec_parse_single_decl(ts, i) {
            Ok((d, j)) => {
                if i < j <= ts.len() {
                    if j < ts.len() && tok_is_punct(ts[j], ',') {
                        lemma_parse_members_bounds(ts, j + 1);
                    }
                }
            },
            Err(_) => {},
        }
    }
}

/// Reads one field: a tuple of member declarations or a single declaration,
/// then `=` and the extractor.
pub open spec fn spec_parse_field(ts: Seq<SpecTok>, i: int) -> Result<
    (SpecFieldSpec, int),
    ParseError,
> {
    if i < ts.len() && tok_is_punct(ts[i], '(') {
        match spec_parse_members(ts, i + 1) {
            Err(x) => Err(x),
            Ok((ms, j)) => if ms.len() == 0 {
                Err(ParseError { pos: pos_at(ts, i + 1), expected: Expected::ExpIdent })
            } else if j < ts.len() && tok_is_punct(ts[j], '=') {
                match spec_parse_extractor(ts, j + 1) {
                    Ok((e, j2)) => Ok((SpecFieldSpec::TupleF { members: ms, extractor: e }, j2)),
                    Err(x) => Err(x),
                }
            } else {
                Err(ParseError { pos: pos_at(ts, j), expected: Expected::ExpEq })
            },
        }
    } else {
        match spec_parse_single_decl(ts, i) {
            Err(x) => Err(x),
            Ok((d, j)) => if j < ts.len() && tok_is_punct(ts[j], '=') {
                match spec_parse_extractor(ts, j + 1) {
                    Ok((e, j2)) => Ok((SpecFieldSpec::SingleF { decl: d, extractor: e }, j2)),
                    Err(x) => Err(x),
                }
            } else {
                Err(ParseError { pos: pos_at(ts, j), expected: Expected::ExpEq })
            },
        }
    }
}

pub proof fn lemma_parse_field_bounds(ts: Seq<SpecTok>, i: int)
    requires
        0 <= i <= ts.len(),
    ensures
        spec_parse_field(ts, i) matches Ok((f, j)) ==> i < j <= ts.len(),
{
    if i < ts.len() && tok_is_punct(ts[i], '(') {
        lemma_parse_members_bounds(ts, i + 1);
        match spec_parse_members(ts, i + 1) {
            Ok((ms, j)) => {
                if j < ts.len() && tok_is_punct(ts[j], '=') {
                    lemma_parse_extractor_bounds(ts, j + 1);
                }
            },
            Err(_) => {},
        }
    } else {
        lemma_parse_single_decl_bounds(ts, i);
        match spec_parse_single_decl(ts, i) {
            Ok((d, j)) => {
                if j < ts.len() && tok_is_punct(ts[j], '=') {
                    lemma_parse_extractor_bounds(ts, j + 1);
                }
            },
            Err(_) => {},
        }
    }
}

/// Reads the fields of one structure body up to and past the closing `}`.
/// Each field is followed by `,` or by the closing brace.
pub open spec fn spec_parse_fields(ts: Seq<SpecTok>, i: int) -> Result<
    (Seq<SpecFieldSpec>, int),
    ParseError,
>
    decreases ts.len() - i when 0 <= i <= ts.len()
{
    if i >= ts.len() {
        Err(ParseError { pos: pos_at(ts, i), expected: Expected::ExpCloseBrace })
    } else if tok_is_punct(ts[i], '}') {
        Ok((Seq::empty(), i + 1))
    } else {
        match spec_parse_field(ts, i) {
            Err(x) => Err(x),
            Ok((f, j)) => if j <= i || j > ts.len() {
                Err(no_progress(ts, i))
            } else if j < ts.len() && tok_is_punct(ts[j], ',') {
                match spec_parse_fields(ts, j + 1) {
                    Ok((rest, e)) => Ok((seq![f] + rest, e)),
                    Err(x) => Err(x),
                }
            } else if j < ts.len() && tok_is_punct(ts[j], '}') {
                Ok((seq![f], j + 1))
            } else {
                Err(ParseError { pos: pos_at(ts, j), expected: Expected::ExpComma })
            },
        }
    }
}

pub proof fn lemma_parse_fields_bounds(ts: Seq<SpecTok>, i: int)
    requires
        0 <= i <= ts.len(),
    ensures
        spec_parse_fields(ts, i) matches Ok((fs, j)) ==> i < j <= ts.len(),
    decreases ts.len() - i,
{
    if i < ts.len() && !tok_is_punct(ts[i], '}') {
        lemma_parse_field_bounds(ts, i);
        match spec_parse_field(ts, i) {
            Ok((f, j)) => {
                if i < j <= ts.len() {
                    if j < ts.len() && tok_is_punct(ts[j], ',') {
                        lemma_parse_fields_bounds(ts, j + 1);
                    }
                }
            },
            Err(_) => {},
        }
    }
}

/// Reads one structure definition: attributes, visibility, name, braced
/// field list.
pub open spec fn spec_parse_struct(ts: Seq<SpecTok>, i: int) -> Result<
    (SpecStructSpec, int),
    ParseError,
> {
    match spec_parse_attrs(ts, i) {
        Err(x) => Err(x),
        Ok((attrs, i1)) => match spec_parse_vis(ts, i1) {
            Err(x) => Err(x),
            Ok((vis, i2)) => if i2 < ts.len() && ts[i2].kind is IdentK {
                let name = ts[i2].kind->IdentK_0;
                if i2 + 1 < ts.len() && tok_is_punct(ts[i2 + 1], '{') {
                    match spec_parse_fields(ts, i2 + 2) {
                        Ok((fs, j)) => Ok(
                            (
                                SpecStructSpec {
                                    attrs,
                                    vis,
                                    name,
                                    name_pos: ts[i2].pos,
                                    fields: fs,
                                },
                                j,
                            ),
                        ),
                        Err(x) => Err(x),
                    }
                } else {
                    Err(ParseError { pos: pos_at(ts, i2 + 1), expected: Expected::ExpBody })
                }
            } else {
                Err(ParseError { pos: pos_at(ts, i2), expected: Expected::ExpIdent })
            },
        },
    }
}

/// A successfully parsed structure definition always consumes at least one
/// token: the well-foundedness guards of the list parsers (`no_progress`)
/// are never taken.
pub proof fn lemma_parse_struct_bounds(ts: Seq<SpecTok>, i: int)
    requires
        0 <= i <= ts.len(),
    ensures
        spec_parse_struct(ts, i) matches Ok((d, j)) ==> i < j <= ts.len(),
{
    lemma_parse_attrs_bounds(ts, i);
    match spec_parse_attrs(ts, i) {
        Ok((attrs, i1)) => {
            if i <= i1 <= ts.len() {
                lemma_parse_vis_bounds(ts, i1);
                match spec_parse_vis(ts, i1) {
                    Ok((vis, i2)) => {
                        if i2 + 2 <= ts.len() {
                            lemma_parse_fields_bounds(ts, i2 + 2);
                        }
                    },
                    Err(_) => {},
                }
            }
        },
        Err(_) => {},
    }
}

/// Reads structure definitions until the tokens are exhausted.
pub open spec fn spec_parse_structs(ts: Seq<SpecTok>, i: int) -> Result<
    Seq<SpecStructSpec>,
    ParseError,
>
    decreases ts.len() - i when 0 <= i <= ts.len()
{
    if i >= ts.len() {
        Ok(Seq::empty())
    } else {
        match spec_parse_struct(ts, i) {
            Err(x) => Err(x),
            Ok((d, j)) => if j <= i || j > ts.len() {
                Err(no_progress(ts, i))
            } else {
                match spec_parse_structs(ts, j) {
                    Ok(rest) => Ok(seq![d] + rest),
                    Err(x) => Err(x),
                }
            },
        }
    }
}

/// What the whole token sequence means: the parsed structure definitions.
pub open spec fn spec_parse_spec(ts: Seq<SpecTok>) -> Result<Seq<SpecStructSpec>, ParseError> {
    spec_parse_structs(ts, 0)
}

} // verus!

// ---------------------------------------------------------------------------
// Executable token helpers
// ---------------------------------------------------------------------------

use vstd::prelude::*;

verus! {

/// Copies one token.
fn tok_dup(t: &Token) -> (r: Token)
    ensures
        r@ == t@,
{
    Token {
        pos: t.pos,
        kind: match &t.kind {
            TokKind::IdentTok(s) => TokKind::IdentTok(s.clone()),
            TokKind::IntTok(v) => TokKind::IntTok(*v),
            TokKind::StrTok(s) => TokKind::StrTok(s.clone()),
            TokKind::PunctTok(c) => TokKind::PunctTok(*c),
        },
    }
}

/// Copies the tokens of positions `a .. b`.
fn toks_slice(ts: &Vec<Token>, a: usize, b: usize) -> (r: Vec<Token>)
    requires
        a <= b <= ts@.len(),
    ensures
        r@.map_values(|t: Token| t@) == toks_view(ts@).subrange(a as int, b as int),
{
    let mut r: Vec<Token> = Vec::new();
    let mut k: usize = a;
    while k < b
        invariant
            a <= k <= b <= ts@.len(),
            r@.map_values(|t: Token| t@) =~= toks_view(ts@).subrange(a as int, k as int),
        decreases b - k,
    {
        let t = tok_dup(&ts[k]);
        let ghost prev = r@;
        r.push(t);
        proof {
            assert(r@.map_values(|t: Token| t@) =~= prev.map_values(|t: Token| t@).push(t@));
            assert(prev.map_values(|t: Token| t@).push(t@) =~= toks_view(ts@).subrange(
                a as int,
                k + 1,
            ));
        }
        k = k + 1;
    }
    proof {
        assert(r@.map_values(|t: Token| t@) =~= toks_view(ts@).subrange(a as int, b as int));
    }
    r
}

/// Whether token `i` exists and is the punctuation character `c`.
fn peek_punct(ts: &Vec<Token>, i: usize, c: char) -> (r: bool)
    ensures
        r == (i < ts@.len() && tok_is_punct(toks_view(ts@)[i as int], c)),
{
    if i < ts.len() {
        match &ts[i].kind {
            TokKind::PunctTok(p) => *p == c,
            _ => false,
        }
    } else {
        false
    }
}

/// Whether token `i` exists and is the identifier `w`.
fn peek_kw(ts: &Vec<Token>, i: usize, w: &str) -> (r: bool)
    ensures
        r == (i < ts@.len() && tok_is_ident(toks_view(ts@)[i as int], w@)),
{
    if i < ts.len() {
        match &ts[i].kind {
            TokKind::IdentTok(s) => str_eq(s.as_str(), w),
            _ => false,
        }
    } else {
        false
    }
}

/// Reads token `i` as an identifier, with its position.
fn take_ident(ts: &Vec<Token>, i: usize) -> (r: Option<(String, usize)>)
    ensures
        match r {
            Some(sp) => i < ts@.len() && toks_view(ts@)[i as int].kind == SpecTokKind::IdentK(
                sp.0@,
            ) && sp.1 as int == toks_view(ts@)[i as int].pos,
            None => !(i < ts@.len() && toks_view(ts@)[i as int].kind is IdentK),
        },
{
    if i < ts.len() {
        match &ts[i].kind {
            TokKind::IdentTok(s) => Some((s.clone(), ts[i].pos)),
            _ => None,
        }
    } else {
        None
    }
}

/// Reads token `i` as a string literal.
fn take_str(ts: &Vec<Token>, i: usize) -> (r: Option<String>)
    ensures
        match r {
            Some(s) => i < ts@.len() && toks_view(ts@)[i as int].kind == SpecTokKind::StrK(s@),
            None => !(i < ts@.len() && toks_view(ts@)[i as int].kind is StrK),
        },
{
    if i < ts.len() {
        match &ts[i].kind {
            TokKind::StrTok(s) => Some(s.clone()),
            _ => None,
        }
    } else {
        None
    }
}

/// Reads token `i` as an integer literal.
fn take_int(ts: &Vec<Token>, i: usize) -> (r: Option<u64>)
    ensures
        match r {
            Some(v) => i < ts@.len() && toks_view(ts@)[i as int].kind == SpecTokKind::IntK(v),
            None => !(i < ts@.len() && toks_view(ts@)[i as int].kind is IntK),
        },
{
    if i < ts.len() {
        match &ts[i].kind {
            TokKind::IntTok(v) => Some(*v),
            _ => None,
        }
    } else {
        None
    }
}

/// The character position of token `i`, or of the last token at the end.
fn pos_at_exec(ts: &Vec<Token>, i: usize) -> (r: usize)
    ensures
        r == pos_at(toks_view(ts@), i as int),
{
    if i < ts.len() {
        ts[i].pos
    } else if ts.len() > 0 {
        ts[ts.len() - 1].pos
    } else {
        0
    }
}

} // verus!

// ---------------------------------------------------------------------------
// Executable parser
// ---------------------------------------------------------------------------

verus! {

/// The running state of the executable clause parser.
pub struct ClauseState {
    pub target: Option<TargetSpec>,
    pub capture: Option<String>,
    pub collector: CollectorMode,
    pub parser: ParserRef,
}

impl View for ClauseState {
    type V = SpecClauseState;

    open spec fn view(&self) -> SpecClauseState {
        SpecClauseState {
            target: match &self.target {
                Some(t) => Some(t@),
                None => None,
            },
            capture: match &self.capture {
                Some(s) => Some(s@),
                None => None,
            },
            collector: self.collector,
            parser: self.parser@,
        }
    }
}

/// Scans past the close delimiter matching an already-consumed open one.
fn scan_balanced(ts: &Vec<Token>, i: usize, open: char, close: char) -> (r: Result<
    usize,
    ParseError,
>)
    requires
        i <= ts@.len(),
    ensures
        match r {
            Ok(j) => spec_scan_balanced(toks_view(ts@), i as int, open, close, 0)
                == Ok::<int, ParseError>(j as int) && i < j <= ts@.len(),
            Err(e) => spec_scan_balanced(toks_view(ts@), i as int, open, close, 0)
                == Err::<int, ParseError>(e),
        },
{
    let mut k: usize = i;
    let mut depth: usize = 0;
    while k < ts.len()
        invariant
            i <= k <= ts@.len(),
            depth <= k - i,
            spec_scan_balanced(toks_view(ts@), i as int, open, close, 0) == spec_scan_balanced(
                toks_view(ts@),
                k as int,
                open,
                close,
                depth as nat,
            ),
        decreases ts@.len() - k,
    {
        if peek_punct(ts, k, close) {
            if depth == 0 {
                return Ok(k + 1);
            }
            depth = depth - 1;
            k = k + 1;
        } else if peek_punct(ts, k, open) {
            depth = depth + 1;
            k = k + 1;
        } else {
            k = k + 1;
        }
    }
    let p = pos_at_exec(ts, k);
    if close == ')' {
        Err(ParseError { pos: p, expected: Expected::ExpCloseParen })
    } else if close == ']' {
        Err(ParseError { pos: p, expected: Expected::ExpCloseBracket })
    } else {
        Err(ParseError { pos: p, expected: Expected::ExpCloseBrace })
    }
}

/// Joins already-read attribute tokens before the rest of an attribute scan.
pub open spec fn attrs_join(
    pre: Seq<SpecTok>,
    rest: Result<(Seq<SpecTok>, int), ParseError>,
) -> Result<(Seq<SpecTok>, int), ParseError> {
    match rest {
        Ok((a, e)) => Ok((pre + a, e)),
        Err(x) => Err(x),
    }
}

/// Reads zero or more leading attributes.
fn parse_attrs(ts: &Vec<Token>, i: usize) -> (r: Result<(Vec<Token>, usize), ParseError>)
    requires
        i <= ts@.len(),
    ensures
        match r {
            Ok(p) => spec_parse_attrs(toks_view(ts@), i as int) == Ok::<_, ParseError>(
                (p.0@.map_values(|t: Token| t@), p.1 as int),
            ) && i <= p.1 <= ts@.len(),
            Err(e) => spec_parse_attrs(toks_view(ts@), i as int) == Err::<(Seq<SpecTok>, int), _>(
                e,
            ),
        },
{
    let ghost tsv = toks_view(ts@);
    let n = ts.len();
    let mut acc: Vec<Token> = Vec::new();
    let mut k: usize = i;
    while peek_punct(ts, k, '#')
        invariant
            i <= k <= ts@.len(),
            n == ts@.len(),
            tsv == toks_view(ts@),
            spec_parse_attrs(tsv, i as int) == attrs_join(
                acc@.map_values(|t: Token| t@),
                spec_parse_attrs(tsv, k as int),
            ),
        decreases ts@.len() - k,
    {
        if !peek_punct(ts, k + 1, '[') {
            let p = pos_at_exec(ts, k + 1);
            return Err(ParseError { pos: p, expected: Expected::ExpAttrOpen });
        }
        match scan_balanced(ts, k + 2, '[', ']') {
            Ok(j) => {
                let ghost pre = acc@.map_values(|t: Token| t@);
                let mut piece = toks_slice(ts, k, j);
                acc.append(&mut piece);
                proof {
                    assert(acc@.map_values(|t: Token| t@) =~= pre + tsv.subrange(
                        k as int,
                        j as int,
                    ));
                    match spec_parse_attrs(tsv, j as int) {
                        Ok((rest, e)) => {
                            assert(pre + (tsv.subrange(k as int, j as int) + rest) =~= (pre
                                + tsv.subrange(k as int, j as int)) + rest);
                        },
                        Err(_) => {},
                    }
                }
                k = j;
            },
            Err(e) => {
                return Err(e);
            },
        }
    }
    proof {
        match spec_parse_attrs(tsv, k as int) {
            Ok((a, e)) => {
                assert(acc@.map_values(|t: Token| t@) + Seq::<SpecTok>::empty() =~= acc@.map_values(
                    |t: Token| t@,
                ));
            },
            Err(_) => {},
        }
    }
    Ok((acc, k))
}

/// Reads the visibility.
fn parse_vis(ts: &Vec<Token>, i: usize) -> (r: Result<(Visibility, usize), ParseError>)
    requires
        i <= ts@.len(),
    ensures
        match r {
            Ok(p) => spec_parse_vis(toks_view(ts@), i as int) == Ok::<_, ParseError>(
                (p.0@, p.1 as int),
            ) && i <= p.1 <= ts@.len(),
            Err(e) => spec_parse_vis(toks_view(ts@), i as int) == Err::<(SpecVisibility, int), _>(
                e,
            ),
        },
{
    // records that the token count fits in usize, for the position arithmetic
    let _n = ts.len();
    if peek_kw(ts, i, "pub") {
        if peek_punct(ts, i + 1, '(') {
            match scan_balanced(ts, i + 2, '(', ')') {
                Ok(j) => {
                    let scope = toks_slice(ts, i + 2, j - 1);
                    Ok((Visibility::PublicScoped(scope), j))
                },
                Err(e) => Err(e),
            }
        } else {
            Ok((Visibility::Public, i + 1))
        }
    } else {
        Ok((Visibility::Private, i))
    }
}

/// Scans the token run of a declared type.
fn scan_ty(ts: &Vec<Token>, i: usize) -> (j: usize)
    requires
        i <= ts@.len(),
    ensures
        j as int == spec_scan_ty(toks_view(ts@), i as int, 0),
        i <= j <= ts@.len(),
{
    let ghost tsv = toks_view(ts@);
    let mut k: usize = i;
    let mut depth: usize = 0;
    loop
        invariant
            i <= k <= ts@.len(),
            depth <= k - i,
            tsv == toks_view(ts@),
            spec_scan_ty(tsv, i as int, 0) == spec_scan_ty(tsv, k as int, depth as nat),
        decreases ts@.len() - k,
    {
        if k >= ts.len() {
            return k;
        }
        if depth == 0 && (peek_punct(ts, k, ',') || peek_punct(ts, k, '=') || peek_punct(
            ts,
            k,
            ')',
        )) {
            return k;
        }
        if peek_punct(ts, k, '(') || peek_punct(ts, k, '[') || peek_punct(ts, k, '<') {
            depth = depth + 1;
        } else if (peek_punct(ts, k, ')') || peek_punct(ts, k, ']') || peek_punct(ts, k, '>'))
            && depth > 0 {
            depth = depth - 1;
        }
        k = k + 1;
    }
}

/// Reads one declaration: attributes, visibility, name, `:`, type tokens.
fn parse_single_decl(ts: &Vec<Token>, i: usize) -> (r: Result<(SingleDecl, usize), ParseError>)
    requires
        i <= ts@.len(),
    ensures
        match r {
            Ok(p) => spec_parse_single_decl(toks_view(ts@), i as int) == Ok::<_, ParseError>(
                (p.0@, p.1 as int),
            ) && i < p.1 <= ts@.len(),
            Err(e) => spec_parse_single_decl(toks_view(ts@), i as int) == Err::<
                (SpecSingleDecl, int),
                _,
            >(e),
        },
{
    // records that the token count fits in usize, for the position arithmetic
    let _n = ts.len();
    let (attrs, i1) = match parse_attrs(ts, i) {
        Ok(p) => p,
        Err(e) => {
            return Err(e);
        },
    };
    let (vis, i2) = match parse_vis(ts, i1) {
        Ok(p) => p,
        Err(e) => {
            return Err(e);
        },
    };
    match take_ident(ts, i2) {
        Some((name, name_pos)) => {
            if peek_punct(ts, i2 + 1, ':') {
                let j = scan_ty(ts, i2 + 2);
                let ty = toks_slice(ts, i2 + 2, j);
                Ok((SingleDecl { attrs, vis, name, name_pos, ty }, j))
            } else {
                Err(ParseError { pos: pos_at_exec(ts, i2 + 1), expected: Expected::ExpColon })
            }
        },
        None => Err(ParseError { pos: pos_at_exec(ts, i2), expected: Expected::ExpIdent }),
    }
}

} // verus!

// ---------------------------------------------------------------------------
// Executable clause and field parsers
// ---------------------------------------------------------------------------

verus! {

/// Reads `of STRING` (or `with STRING`) at `i`.
fn expect_kw_str(ts: &Vec<Token>, i: usize, kw: &str, exp: Expected) -> (r: Result<
    (String, usize),
    ParseError,
>)
    requires
        i <= ts@.len(),
    ensures
        match r {
            Ok(p) => spec_expect_kw_str(toks_view(ts@), i as int, kw@, exp) == Ok::<_, ParseError>(
                (p.0@, p.1 as int),
            ) && i < p.1 <= ts@.len(),
            Err(e) => spec_expect_kw_str(toks_view(ts@), i as int, kw@, exp) == Err::<
                (Seq<char>, int),
                _,
            >(e),
        },
{
    // records that the token count fits in usize, for the position arithmetic
    let _n = ts.len();
    if peek_kw(ts, i, kw) {
        match take_str(ts, i + 1) {
            Some(s) => Ok((s, i + 2)),
            None => Err(ParseError { pos: pos_at_exec(ts, i + 1), expected: Expected::ExpStrLit }),
        }
    } else {
        Err(ParseError { pos: pos_at_exec(ts, i), expected: exp })
    }
}

/// Reads exactly one clause at `i` and folds it into the state.
fn parse_clause(ts: &Vec<Token>, i: usize, st: ClauseState) -> (r: Result<
    (ClauseState, usize),
    ParseError,
>)
    requires
        i < ts@.len(),
    ensures
        match r {
            Ok(p) => spec_parse_clause(toks_view(ts@), i as int, st@) == Ok::<_, ParseError>(
                (p.0@, p.1 as int),
            ) && i < p.1 <= ts@.len(),
            Err(e) => spec_parse_clause(toks_view(ts@), i as int, st@) == Err::<
                (SpecClauseState, int),
                _,
            >(e),
        },
{
    // records that the token count fits in usize, for the position arithmetic
    let _n = ts.len();
    let w = match take_ident(ts, i) {
        Some((w, _)) => w,
        None => {
            return Err(
                ParseError { pos: pos_at_exec(ts, i), expected: Expected::ExpClauseKeyword },
            );
        },
    };
    if str_eq(w.as_str(), "elem") {
        match expect_kw_str(ts, i + 1, "of", Expected::ExpOf) {
            Ok((sel, j)) => Ok(
                (
                    ClauseState { target: Some(TargetSpec::Element { selector: sel }), ..st },
                    j,
                ),
            ),
            Err(e) => Err(e),
        }
    } else if str_eq(w.as_str(), "attr") {
        if peek_punct(ts, i + 1, '[') {
            match take_str(ts, i + 2) {
                Some(name) => {
                    if peek_punct(ts, i + 3, ']') {
                        match expect_kw_str(ts, i + 4, "of", Expected::ExpOf) {
                            Ok((sel, j)) => Ok(
                                (
                                    ClauseState {
                                        target: Some(
                                            TargetSpec::Attribute {
                                                attr_name: name,
                                                selector: sel,
                                            },
                                        ),
                                        ..st
                                    },
                                    j,
                                ),
                            ),
                            Err(e) => Err(e),
                        }
                    } else {
                        Err(
                            ParseError {
                                pos: pos_at_exec(ts, i + 3),
                                expected: Expected::ExpCloseBracket,
                            },
                        )
                    }
                },
                None => Err(
                    ParseError { pos: pos_at_exec(ts, i + 2), expected: Expected::ExpStrLit },
                ),
            }
        } else {
            Err(ParseError { pos: pos_at_exec(ts, i + 1), expected: Expected::ExpAttrOpen })
        }
    } else if str_eq(w.as_str(), "text") {
        if peek_punct(ts, i + 1, '[') {
            match take_int(ts, i + 2) {
                Some(idx) => {
                    if peek_punct(ts, i + 3, ']') {
                        match expect_kw_str(ts, i + 4, "of", Expected::ExpOf) {
                            Ok((sel, j)) => Ok(
                                (
                                    ClauseState {
                                        target: Some(
                                            TargetSpec::TextNode { index: idx, selector: sel },
                                        ),
                                        ..st
                                    },
                                    j,
                                ),
                            ),
                            Err(e) => Err(e),
                        }
                    } else {
                        Err(
                            ParseError {
                                pos: pos_at_exec(ts, i + 3),
                                expected: Expected::ExpCloseBracket,
                            },
                        )
                    }
                },
                None => Err(
                    ParseError { pos: pos_at_exec(ts, i + 2), expected: Expected::ExpIndex },
                ),
            }
        } else if peek_kw(ts, i + 1, "of") {
            match expect_kw_str(ts, i + 1, "of", Expected::ExpOf) {
                Ok((sel, j)) => Ok(
                    (
                        ClauseState {
                            target: Some(TargetSpec::TextNode { index: 0, selector: sel }),
                            ..st
                        },
                        j,
                    ),
                ),
                Err(e) => Err(e),
            }
        } else {
            Err(ParseError { pos: pos_at_exec(ts, i + 1), expected: Expected::ExpBracketOrOf })
        }
    } else if str_eq(w.as_str(), "inner_html") {
        match expect_kw_str(ts, i + 1, "of", Expected::ExpOf) {
            Ok((sel, j)) => Ok(
                (
                    ClauseState { target: Some(TargetSpec::InnerHtml { selector: sel }), ..st },
                    j,
                ),
            ),
            Err(e) => Err(e),
        }
    } else if str_eq(w.as_str(), "presence") {
        match expect_kw_str(ts, i + 1, "of", Expected::ExpOf) {
            Ok((sel, j)) => Ok(
                (
                    ClauseState { target: Some(TargetSpec::PresenceOf { selector: sel }), ..st },
                    j,
                ),
            ),
            Err(e) => Err(e),
        }
    } else if str_eq(w.as_str(), "capture") {
        match expect_kw_str(ts, i + 1, "with", Expected::ExpWith) {
            Ok((re, j)) => Ok((ClauseState { capture: Some(re), ..st }, j)),
            Err(e) => Err(e),
        }
    } else if str_eq(w.as_str(), "collect") {
        Ok((ClauseState { collector: CollectorMode::All, ..st }, i + 1))
    } else if str_eq(w.as_str(), "optional") {
        Ok((ClauseState { collector: CollectorMode::Optional, ..st }, i + 1))
    } else if str_eq(w.as_str(), "parse") {
        if peek_kw(ts, i + 1, "with") {
            let j = scan_ty(ts, i + 2);
            let run = toks_slice(ts, i + 2, j);
            Ok((ClauseState { parser: ParserRef::CustomParser(run), ..st }, j))
        } else {
            Err(ParseError { pos: pos_at_exec(ts, i + 1), expected: Expected::ExpWith })
        }
    } else {
        Err(ParseError { pos: pos_at_exec(ts, i), expected: Expected::ExpClauseKeyword })
    }
}

/// Reads one whole extractor: `(` clauses `)`, requiring a target.
pub fn parse_extractor(ts: &Vec<Token>, i: usize) -> (r: Result<
    (ExtractorSpec, usize),
    ParseError,
>)
    requires
        i <= ts@.len(),
    ensures
        match r {
            Ok(p) => spec_parse_extractor(toks_view(ts@), i as int) == Ok::<_, ParseError>(
                (p.0@, p.1 as int),
            ) && i < p.1 <= ts@.len(),
            Err(e) => spec_parse_extractor(toks_view(ts@), i as int) == Err::<
                (SpecExtractorSpec, int),
                _,
            >(e),
        },
{
    let ghost tsv = toks_view(ts@);
    let n = ts.len();
    if !peek_punct(ts, i, '(') {
        return Err(ParseError { pos: pos_at_exec(ts, i), expected: Expected::ExpExtractor });
    }
    let mut st = ClauseState {
        target: None,
        capture: None,
        collector: CollectorMode::First,
        parser: ParserRef::DefaultParser,
    };
    let mut k: usize = i + 1;
    proof {
        assert(st@ == init_clause_state());
    }
    loop
        invariant
            i + 1 <= k <= ts@.len(),
            n == ts@.len(),
            i < ts@.len(),
            tsv == toks_view(ts@),
            tok_is_punct(tsv[i as int], '('),
            spec_parse_clauses(tsv, i + 1, init_clause_state()) == spec_parse_clauses(
                tsv,
                k as int,
                st@,
            ),
        decreases ts@.len() - k,
    {
        if k >= n {
            return Err(ParseError { pos: pos_at_exec(ts, k), expected: Expected::ExpCloseParen });
        }
        if peek_punct(ts, k, ')') {
            match st.target {
                Some(t) => {
                    return Ok(
                        (
                            ExtractorSpec {
                                target: t,
                                capture: st.capture,
                                collector: st.collector,
                                parser: st.parser,
                            },
                            k + 1,
                        ),
                    );
                },
                None => {
                    return Err(
                        ParseError { pos: pos_at_exec(ts, i), expected: Expected::ExpTarget },
                    );
                },
            }
        }
        match parse_clause(ts, k, st) {
            Ok((st2, j)) => {
                if peek_punct(ts, j, ',') {
                    st = st2;
                    k = j + 1;
                } else if peek_punct(ts, j, ')') {
                    match st2.target {
                        Some(t) => {
                            return Ok(
                                (
                                    ExtractorSpec {
                                        target: t,
                                        capture: st2.capture,
                                        collector: st2.collector,
                                        parser: st2.parser,
                                    },
                                    j + 1,
                                ),
                            );
                        },
                        None => {
                            return Err(
                                ParseError {
                                    pos: pos_at_exec(ts, i),
                                    expected: Expected::ExpTarget,
                                },
                            );
                        },
                    }
                } else {
                    return Err(
                        ParseError { pos: pos_at_exec(ts, j), expected: Expected::ExpComma },
                    );
                }
            },
            Err(e) => {
                return Err(e);
            },
        }
    }
}

} // verus!

// ---------------------------------------------------------------------------
// Executable structure parsers
// ---------------------------------------------------------------------------

verus! {

/// Joins already-read members before the rest of a member-list parse.
pub open spec fn members_join(
    pre: Seq<SpecSingleDecl>,
    rest: Result<(Seq<SpecSingleDecl>, int), ParseError>,
) -> Result<(Seq<SpecSingleDecl>, int), ParseError> {
    match rest {
        Ok((ms, e)) => Ok((pre + ms, e)),
        Err(x) => Err(x),
    }
}

/// Reads the member declarations of a tuple field up to and past `)`.
fn parse_members(ts: &Vec<Token>, i: usize) -> (r: Result<(Vec<SingleDecl>, usize), ParseError>)
    requires
        i <= ts@.len(),
    ensures
        match r {
            Ok(p) => spec_parse_members(toks_view(ts@), i as int) == Ok::<_, ParseError>(
                (p.0@.map_values(|d: SingleDecl| d@), p.1 as int),
            ) && i < p.1 <= ts@.len(),
            Err(e) => spec_parse_members(toks_view(ts@), i as int) == Err::<
                (Seq<SpecSingleDecl>, int),
                _,
            >(e),
        },
{
    let ghost tsv = toks_view(ts@);
    let n = ts.len();
    let mut acc: Vec<SingleDecl> = Vec::new();
    let mut k: usize = i;
    loop
        invariant
            i <= k <= ts@.len(),
            n == ts@.len(),
            tsv == toks_view(ts@),
            spec_parse_members(tsv, i as int) == members_join(
                acc@.map_values(|d: SingleDecl| d@),
                spec_parse_members(tsv, k as int),
            ),
        decreases ts@.len() - k,
    {
        if k >= n {
            return Err(ParseError { pos: pos_at_exec(ts, k), expected: Expected::ExpCloseParen });
        }
        if peek_punct(ts, k, ')') {
            let ghost pre = acc@.map_values(|d: SingleDecl| d@);
            proof {
                assert(pre + Seq::<SpecSingleDecl>::empty() =~= pre);
            }
            return Ok((acc, k + 1));
        }
        match parse_single_decl(ts, k) {
            Ok((d, j)) => {
                let ghost pre = acc@.map_values(|d: SingleDecl| d@);
                let ghost dv = d@;
                if peek_punct(ts, j, ',') {
                    acc.push(d);
                    proof {
                        assert(acc@.map_values(|d: SingleDecl| d@) =~= pre.push(dv));
                        match spec_parse_members(tsv, j + 1) {
                            Ok((rest, e)) => {
                                assert(pre + (seq![dv] + rest) =~= pre.push(dv) + rest);
                            },
                            Err(_) => {},
                        }
                    }
                    k = j + 1;
                } else if peek_punct(ts, j, ')') {
                    acc.push(d);
                    proof {
                        assert(acc@.map_values(|d: SingleDecl| d@) =~= pre.push(dv));
                        assert(pre + seq![dv] =~= pre.push(dv));
                    }
                    return Ok((acc, j + 1));
                } else {
                    return Err(
                        ParseError { pos: pos_at_exec(ts, j), expected: Expected::ExpComma },
                    );
                }
            },
            Err(e) => {
                return Err(e);
            },
        }
    }
}

/// Reads one field: a tuple of members or a single declaration, `=`, the
/// extractor.
pub fn parse_field(ts: &Vec<Token>, i: usize) -> (r: Result<(FieldSpec, usize), ParseError>)
    requires
        i <= ts@.len(),
    ensures
        match r {
            Ok(p) => spec_parse_field(toks_view(ts@), i as int) == Ok::<_, ParseError>(
                (p.0@, p.1 as int),
            ) && i < p.1 <= ts@.len(),
            Err(e) => spec_parse_field(toks_view(ts@), i as int) == Err::<(SpecFieldSpec, int), _>(
                e,
            ),
        },
{
    // records that the token count fits in usize, for the position arithmetic
    let _n = ts.len();
    if peek_punct(ts, i, '(') {
        match parse_members(ts, i + 1) {
            Ok((ms, j)) => {
                if ms.len() == 0 {
                    Err(ParseError { pos: pos_at_exec(ts, i + 1), expected: Expected::ExpIdent })
                } else if peek_punct(ts, j, '=') {
                    match parse_extractor(ts, j + 1) {
                        Ok((e, j2)) => Ok(
                            (FieldSpec::Tuple { members: ms, extractor: e }, j2),
                        ),
                        Err(x) => Err(x),
                    }
                } else {
                    Err(ParseError { pos: pos_at_exec(ts, j), expected: Expected::ExpEq })
                }
            },
            Err(e) => Err(e),
        }
    } else {
        match parse_single_decl(ts, i) {
            Ok((d, j)) => {
                if peek_punct(ts, j, '=') {
                    match parse_extractor(ts, j + 1) {
                        Ok((e, j2)) => Ok((FieldSpec::Single { decl: d, extractor: e }, j2)),
                        Err(x) => Err(x),
                    }
                } else {
                    Err(ParseError { pos: pos_at_exec(ts, j), expected: Expected::ExpEq })
                }
            },
            Err(e) => Err(e),
        }
    }
}

/// Joins already-read fields before the rest of a field-list parse.
pub open spec fn fields_join(
    pre: Seq<SpecFieldSpec>,
    rest: Result<(Seq<SpecFieldSpec>, int), ParseError>,
) -> Result<(Seq<SpecFieldSpec>, int), ParseError> {
    match rest {
        Ok((fs, e)) => Ok((pre + fs, e)),
        Err(x) => Err(x),
    }
}

/// Reads the fields of one structure body up to and past `}`.
fn parse_fields(ts: &Vec<Token>, i: usize) -> (r: Result<(Vec<FieldSpec>, usize), ParseError>)
    requires
        i <= ts@.len(),
    ensures
        match r {
            Ok(p) => spec_parse_fields(toks_view(ts@), i as int) == Ok::<_, ParseError>(
                (p.0@.map_values(|f: FieldSpec| f@), p.1 as int),
            ) && i < p.1 <= ts@.len(),
            Err(e) => spec_parse_fields(toks_view(ts@), i as int) == Err::<
                (Seq<SpecFieldSpec>, int),
                _,
            >(e),
        },
{
    let ghost tsv = toks_view(ts@);
    let n = ts.len();
    let mut acc: Vec<FieldSpec> = Vec::new();
    let mut k: usize = i;
    loop
        invariant
            i <= k <= ts@.len(),
            n == ts@.len(),
            tsv == toks_view(ts@),
            spec_parse_fields(tsv, i as int) == fields_join(
                acc@.map_values(|f: FieldSpec| f@),
                spec_parse_fields(tsv, k as int),
            ),
        decreases ts@.len() - k,
    {
        if k >= n {
            return Err(ParseError { pos: pos_at_exec(ts, k), expected: Expected::ExpCloseBrace });
        }
        if peek_punct(ts, k, '}') {
            let ghost pre = acc@.map_values(|f: FieldSpec| f@);
            proof {
                assert(pre + Seq::<SpecFieldSpec>::empty() =~= pre);
            }
            return Ok((acc, k + 1));
        }
        match parse_field(ts, k) {
            Ok((f, j)) => {
                let ghost pre = acc@.map_values(|f: FieldSpec| f@);
                let ghost fv = f@;
                if peek_punct(ts, j, ',') {
                    acc.push(f);
                    proof {
                        assert(acc@.map_values(|f: FieldSpec| f@) =~= pre.push(fv));
                        match spec_parse_fields(tsv, j + 1) {
                            Ok((rest, e)) => {
                                assert(pre + (seq![fv] + rest) =~= pre.push(fv) + rest);
                            },
                            Err(_) => {},
                        }
                    }
                    k = j + 1;
                } else if peek_punct(ts, j, '}') {
                    acc.push(f);
                    proof {
                        assert(acc@.map_values(|f: FieldSpec| f@) =~= pre.push(fv));
                        assert(pre + seq![fv] =~= pre.push(fv));
                    }
                    return Ok((acc, j + 1));
                } else {
                    return Err(
                        ParseError { pos: pos_at_exec(ts, j), expected: Expected::ExpComma },
                    );
                }
            },
            Err(e) => {
                return Err(e);
            },
        }
    }
}

/// Reads one structure definition.
pub fn parse_struct(ts: &Vec<Token>, i: usize) -> (r: Result<(StructSpec, usize), ParseError>)
    requires
        i <= ts@.len(),
    ensures
        match r {
            Ok(p) => spec_parse_struct(toks_view(ts@), i as int) == Ok::<_, ParseError>(
                (p.0@, p.1 as int),
            ) && i < p.1 <= ts@.len(),
            Err(e) => spec_parse_struct(toks_view(ts@), i as int) == Err::<
                (SpecStructSpec, int),
                _,
            >(e),
        },
{
    // records that the token count fits in usize, for the position arithmetic
    let _n = ts.len();
    let (attrs, i1) = match parse_attrs(ts, i) {
        Ok(p) => p,
        Err(e) => {
            return Err(e);
        },
    };
    let (vis, i2) = match parse_vis(ts, i1) {
        Ok(p) => p,
        Err(e) => {
            return Err(e);
        },
    };
    match take_ident(ts, i2) {
        Some((name, name_pos)) => {
            if peek_punct(ts, i2 + 1, '{') {
                match parse_fields(ts, i2 + 2) {
                    Ok((fields, j)) => Ok(
                        (StructSpec { attrs, vis, name, name_pos, fields }, j),
                    ),
                    Err(e) => Err(e),
                }
            } else {
                Err(ParseError { pos: pos_at_exec(ts, i2 + 1), expected: Expected::ExpBody })
            }
        },
        None => Err(ParseError { pos: pos_at_exec(ts, i2), expected: Expected::ExpIdent }),
    }
}

/// Joins already-read structure definitions before the rest of the parse.
pub open spec fn structs_join(
    pre: Seq<SpecStructSpec>,
    rest: Result<Seq<SpecStructSpec>, ParseError>,
) -> Result<Seq<SpecStructSpec>, ParseError> {
    match rest {
        Ok(ds) => Ok(pre + ds),
        Err(x) => Err(x),
    }
}

/// Reads structure definitions until the tokens are exhausted.
pub fn parse_structs(ts: &Vec<Token>) -> (r: Result<Vec<StructSpec>, ParseError>)
    ensures
        match r {
            Ok(v) => spec_parse_spec(toks_view(ts@)) == Ok::<_, ParseError>(structs_view(v@)),
            Err(e) => spec_parse_spec(toks_view(ts@)) == Err::<Seq<SpecStructSpec>, _>(e),
        },
{
    let ghost tsv = toks_view(ts@);
    let n = ts.len();
    let mut acc: Vec<StructSpec> = Vec::new();
    let mut k: usize = 0;
    while k < n
        invariant
            0 <= k <= ts@.len(),
            n == ts@.len(),
            tsv == toks_view(ts@),
            spec_parse_structs(tsv, 0) == structs_join(
                structs_view(acc@),
                spec_parse_structs(tsv, k as int),
            ),
        decreases ts@.len() - k,
    {
        match parse_struct(ts, k) {
            Ok((d, j)) => {
                let ghost pre = structs_view(acc@);
                let ghost dv = d@;
                acc.push(d);
                proof {
                    assert(structs_view(acc@) =~= pre.push(dv));
                    match spec_parse_structs(tsv, j as int) {
                        Ok(rest) => {
                            assert(pre + (seq![dv] + rest) =~= pre.push(dv) + rest);
                        },
                        Err(_) => {},
                    }
                }
                k = j;
            },
            Err(e) => {
                return Err(e);
            },
        }
    }
    proof {
        assert(structs_view(acc@) + Seq::<SpecStructSpec>::empty() =~= structs_view(acc@));
    }
    Ok(acc)
}

} // verus!

verus! {

/// The text naming what was expected.
pub open spec fn expected_text(e: Expected) -> Seq<char> {
    match e {
        Expected::ExpIdent => "expected identifier"@,
        Expected::ExpBody => "expected `{`"@,
        Expected::ExpColon => "expected `:`"@,
        Expected::ExpEq => "expected `=`"@,
        Expected::ExpComma => "expected `,`"@,
        Expected::ExpCloseParen => "expected `)`"@,
        Expected::ExpCloseBracket => "expected `]`"@,
        Expected::ExpCloseBrace => "expected `}`"@,
        Expected::ExpExtractor => "expected `(`"@,
        Expected::ExpClauseKeyword => "expected `elem`, `attr`, `text`, `inner_html`, `presence`, `capture`, `collect`, `optional` or `parse`"@,
        Expected::ExpOf => "expected `of`"@,
        Expected::ExpWith => "expected `with`"@,
        Expected::ExpStrLit => "expected literal string"@,
        Expected::ExpBracketOrOf => "expected `[` or `of`"@,
        Expected::ExpIndex => "expected integer index"@,
        Expected::ExpAttrOpen => "expected `[`"@,
        Expected::ExpTarget => "target is not specified"@,
        Expected::ExpNoProgress => "no progress"@,
    }
}

impl Expected {
    /// The text naming what was expected.
    pub fn describe(&self) -> (r: &'static str)
        ensures
            r@ == expected_text(*self),
    {
        match self {
            Expected::ExpIdent => "expected identifier",
            Expected::ExpBody => "expected `{`",
            Expected::ExpColon => "expected `:`",
            Expected::ExpEq => "expected `=`",
            Expected::ExpComma => "expected `,`",
            Expected::ExpCloseParen => "expected `)`",
            Expected::ExpCloseBracket => "expected `]`",
            Expected::ExpCloseBrace => "expected `}`",
            Expected::ExpExtractor => "expected `(`",
            Expected::ExpClauseKeyword => "expected `elem`, `attr`, `text`, `inner_html`, `presence`, `capture`, `collect`, `optional` or `parse`",
            Expected::ExpOf => "expected `of`",
            Expected::ExpWith => "expected `with`",
            Expected::ExpStrLit => "expected literal string",
            Expected::ExpBracketOrOf => "expected `[` or `of`",
            Expected::ExpIndex => "expected integer index",
            Expected::ExpAttrOpen => "expected `[`",
            Expected::ExpTarget => "target is not specified",
            Expected::ExpNoProgress => "no progress",
        }
    }
}

/// The text of a whole parse error: what was expected, and the character
/// position where the parse stopped.
pub open spec fn parse_error_text(e: ParseError) -> Seq<char> {
    expected_text(e.expected) + " at position "@ + crate::strutil::dec_of(e.pos as nat)
}

impl ParseError {
    /// The text of the error: what was expected, and where.
    pub fn message(&self) -> (r: String)
        ensures
            r@ == parse_error_text(*self),
    {
        let mut m = String::from_str(self.expected.describe());
        m.append(" at position ");
        let d = crate::strutil::u64_to_dec(self.pos as u64);
        m.append(d.as_str());
        m
    }
}

} // verus!
