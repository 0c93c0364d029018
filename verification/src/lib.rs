//! Pulls structured, typed values out of HTML documents, driven by a small
//! textual specification language.
//!
//! A specification declares, per structure and field, which elements to
//! select, what facet of each element to read (an attribute, a text node,
//! inner markup, element presence, or a nested structure), how to turn the
//! raw text into a typed value, and how to collect zero, one or many results.
//! The specification text is compiled once into an executable plan; the plan
//! is then run against parsed HTML documents.

use vstd::prelude::*;
use vstd::string::*;

pub mod error;
pub mod strutil;
pub mod lexer;
pub mod ast;
pub mod types;
pub mod outside;
pub mod value;
pub mod plan;
pub mod engine;
pub mod parser;

use crate::ast::structs_view;
use crate::error::Error;
use crate::engine::{extract_struct, ParseOverride};
use crate::lexer::{spec_lex, toks_view, LexError};
use crate::outside::{parse_html, root_of};
use crate::parser::{spec_parse_spec, ParseError};
use crate::plan::{build_spec, plans_match, spec_build_ok, spec_wf, CompiledSpec, ValidateError};
use crate::strutil::str_eq;
use crate::value::StructValue;

verus! {

/// Why a specification failed to load: the text does not lex, does not
/// parse, or does not validate. A specification-time failure never reaches a
/// caller of extraction as a value.
#[derive(Debug)]
pub enum SpecError {
    LexFailure(LexError),
    ParseFailure(ParseError),
    ValidateFailure(ValidateError),
}

/// Compiles specification text into executable extraction plans: lexes it,
/// parses the structure definitions, validates them and builds the plans.
/// Succeeds exactly when the text lexes, parses, and passes the static
/// validator.
pub fn compile_spec(src: &str) -> (r: Result<CompiledSpec, SpecError>)
    ensures
        ({
            match spec_lex(src@) {
                Err(le) => r matches Err(SpecError::LexFailure(e)) && e == le,
                Ok(toks) => match spec_parse_spec(toks) {
                    Err(pe) => r matches Err(SpecError::ParseFailure(e)) && e == pe,
                    Ok(defs) => {
                        &&& (r is Ok <==> spec_build_ok(defs))
                        &&& (r matches Ok(cs) ==> spec_wf(cs) && plans_match(cs, defs))
                        &&& (r is Err ==> r matches Err(SpecError::ValidateFailure(_)))
                    },
                },
            }
        }),
{
    let toks = match crate::lexer::lex(src) {
        Ok(ts) => ts,
        Err(e) => {
            return Err(SpecError::LexFailure(e));
        },
    };
    let defs = match crate::parser::parse_structs(&toks) {
        Ok(ds) => ds,
        Err(e) => {
            return Err(SpecError::ParseFailure(e));
        },
    };
    match build_spec(&defs) {
        Ok(cs) => {
            proof {
                assert(spec_parse_spec(toks_view(toks@)) == Ok::<_, ParseError>(
                    structs_view(defs@),
                ));
            }
            Ok(cs)
        },
        Err(e) => Err(SpecError::ValidateFailure(e)),
    }
}

/// The index of the plan for the structure of this name, if the compiled
/// specification defines one.
pub fn find_plan(cs: &CompiledSpec, name: &str) -> (r: Option<usize>)
    ensures
        match r {
            Some(i) => i < cs.plans@.len() && cs.plans@[i as int].name@ == name@,
            None => forall|i: int|
                0 <= i < cs.plans@.len() ==> (#[trigger] cs.plans@[i]).name@ != name@,
        },
{
    let mut i: usize = 0;
    while i < cs.plans.len()
        invariant
            0 <= i <= cs.plans@.len(),
            forall|a: int| 0 <= a < i ==> (#[trigger] cs.plans@[a]).name@ != name@,
        decreases cs.plans@.len() - i,
    {
        if str_eq(cs.plans[i].name.as_str(), name) {
            return Some(i);
        }
        i = i + 1;
    }
    None
}

/// Parses `html` into a document tree and extracts the structure at plan
/// index `idx` from its root element.
pub fn extract_from_str<P: ParseOverride>(
    cs: &CompiledSpec,
    idx: usize,
    html: &str,
    reg: &P,
) -> (r: Result<StructValue, Error>)
    requires
        spec_wf(*cs),
        idx < cs.plans@.len(),
    ensures
        r matches Ok(sv) ==> sv.name@ == cs.plans@[idx as int].name@,
{
    let doc = parse_html(html);
    let root = root_of(&doc);
    extract_struct(cs, idx, &root, reg)
}

/// Parses `html` into a document tree and extracts the structure named
/// `name` from its root element. When the specification defines no structure
/// of that name, it fails with exactly the unknown-name message, before any
/// document is touched.
pub fn extract_named<P: ParseOverride>(
    cs: &CompiledSpec,
    name: &str,
    html: &str,
    reg: &P,
) -> (r: Result<StructValue, Error>)
    requires
        spec_wf(*cs),
    ensures
        r matches Ok(sv) ==> sv.name@ == name@,
        (forall|i: int| 0 <= i < cs.plans@.len() ==> (#[trigger] cs.plans@[i]).name@ != name@)
            ==> (r matches Err(e) && e.msg() == "no structure named `"@ + name@
            + "` in the specification"@),
{
    match find_plan(cs, name) {
        Some(idx) => extract_from_str(cs, idx, html, reg),
        None => {
            let mut m = String::from_str("no structure named `");
            m.append(name);
            m.append("` in the specification");
            Err(crate::error::invalid_input(m))
        },
    }
}

/// A type that knows how to extract itself from an HTML element. The
/// reference implementation for any extractable type; implementors typically
/// run a compiled specification and convert the resulting value.
pub trait HtmlExtractor where Self: Sized {
    /// Extracts the value from an already-located element.
    fn extract<'a>(elem: &scraper::ElementRef<'a>) -> Result<Self, Error>;

    /// Parses an HTML string and extracts the value from its root element.
    fn extract_from_str(html_str: &str) -> Result<Self, Error> {
        let doc = parse_html(html_str);
        let root = root_of(&doc);
        Self::extract(&root)
    }
}

} // verus!
