//! The validated intermediate representation of a specification: structure
//! definitions, field definitions and extractor clauses, together with their
//! mathematical forms.

use vstd::prelude::*;

use crate::lexer::{SpecTok, Token};

verus! {

/// The declared visibility of a structure or field.
#[derive(Debug)]
pub enum Visibility {
    Private,
    Public,
    PublicScoped(Vec<Token>),
}

/// The mathematical form of `Visibility`.
pub enum SpecVisibility {
    PrivateV,
    PublicV,
    PublicScopedV(Seq<SpecTok>),
}

impl View for Visibility {
    type V = SpecVisibility;

    open spec fn view(&self) -> SpecVisibility {
        match self {
            Visibility::Private => SpecVisibility::PrivateV,
            Visibility::Public => SpecVisibility::PublicV,
            Visibility::PublicScoped(ts) => SpecVisibility::PublicScopedV(
                ts@.map_values(|t: Token| t@),
            ),
        }
    }
}

/// How many selector matches feed a field, per its collector.
#[derive(Debug, Clone, Copy, PartialEq, Eq, Structural)]
pub enum CollectorMode {
    First,
    All,
    Optional,
}

/// Which facet of a matched element feeds extraction.
#[derive(Debug)]
pub enum TargetSpec {
    Element { selector: String },
    Attribute { attr_name: String, selector: String },
    TextNode { index: u64, selector: String },
    InnerHtml { selector: String },
    PresenceOf { selector: String },
}

/// The mathematical form of `TargetSpec`.
pub enum SpecTargetSpec {
    ElementT { selector: Seq<char> },
    AttributeT { attr_name: Seq<char>, selector: Seq<char> },
    TextNodeT { index: u64, selector: Seq<char> },
    InnerHtmlT { selector: Seq<char> },
    PresenceOfT { selector: Seq<char> },
}

impl View for TargetSpec {
    type V = SpecTargetSpec;

    open spec fn view(&self) -> SpecTargetSpec {
        match self {
            TargetSpec::Element { selector } => SpecTargetSpec::ElementT { selector: selector@ },
            TargetSpec::Attribute { attr_name, selector } => SpecTargetSpec::AttributeT {
                attr_name: attr_name@,
                selector: selector@,
            },
            TargetSpec::TextNode { index, selector } => SpecTargetSpec::TextNodeT {
                index: *index,
                selector: selector@,
            },
            TargetSpec::InnerHtml { selector } => SpecTargetSpec::InnerHtmlT {
                selector: selector@,
            },
            TargetSpec::PresenceOf { selector } => SpecTargetSpec::PresenceOfT {
                selector: selector@,
            },
        }
    }
}

impl TargetSpec {
    /// The selector of this target.
    pub open spec fn spec_selector(&self) -> Seq<char> {
        match self {
            TargetSpec::Element { selector } => selector@,
            TargetSpec::Attribute { selector, .. } => selector@,
            TargetSpec::TextNode { selector, .. } => selector@,
            TargetSpec::InnerHtml { selector } => selector@,
            TargetSpec::PresenceOf { selector } => selector@,
        }
    }

    /// The selector of this target.
    pub fn selector(&self) -> (r: &String)
        ensures
            r@ == self.spec_selector(),
    {
        match self {
            TargetSpec::Element { selector } => selector,
            TargetSpec::Attribute { selector, .. } => selector,
            TargetSpec::TextNode { selector, .. } => selector,
            TargetSpec::InnerHtml { selector } => selector,
            TargetSpec::PresenceOf { selector } => selector,
        }
    }
}

impl SpecTargetSpec {
    /// The selector of this target.
    pub open spec fn sel(&self) -> Seq<char> {
        match self {
            SpecTargetSpec::ElementT { selector } => *selector,
            SpecTargetSpec::AttributeT { selector, .. } => *selector,
            SpecTargetSpec::TextNodeT { selector, .. } => *selector,
            SpecTargetSpec::InnerHtmlT { selector } => *selector,
            SpecTargetSpec::PresenceOfT { selector } => *selector,
        }
    }
}

/// How a raw string becomes a value: the ambient conversion for the declared
/// type, or a named conversion supplied by the caller.
#[derive(Debug)]
pub enum ParserRef {
    DefaultParser,
    CustomParser(Vec<Token>),
}

/// The mathematical form of `ParserRef`.
pub enum SpecParserRef {
    DefaultP,
    CustomP(Seq<SpecTok>),
}

impl View for ParserRef {
    type V = SpecParserRef;

    open spec fn view(&self) -> SpecParserRef {
        match self {
            ParserRef::DefaultParser => SpecParserRef::DefaultP,
            ParserRef::CustomParser(ts) => SpecParserRef::CustomP(ts@.map_values(|t: Token| t@)),
        }
    }
}

/// One parsed extractor clause: target, optional capture regex, collector
/// mode and parser.
#[derive(Debug)]
pub struct ExtractorSpec {
    pub target: TargetSpec,
    pub capture: Option<String>,
    pub collector: CollectorMode,
    pub parser: ParserRef,
}

/// The mathematical form of `ExtractorSpec`.
pub struct SpecExtractorSpec {
    pub target: SpecTargetSpec,
    pub capture: Option<Seq<char>>,
    pub collector: CollectorMode,
    pub parser: SpecParserRef,
}

impl View for ExtractorSpec {
    type V = SpecExtractorSpec;

    open spec fn view(&self) -> SpecExtractorSpec {
        SpecExtractorSpec {
            target: self.target@,
            capture: match &self.capture {
                Some(s) => Some(s@),
                None => None,
            },
            collector: self.collector,
            parser: self.parser@,
        }
    }
}

/// The declaration part of a single field, or of one tuple member:
/// attributes, visibility, name and declared type (as tokens).
#[derive(Debug)]
pub struct SingleDecl {
    pub attrs: Vec<Token>,
    pub vis: Visibility,
    pub name: String,
    pub name_pos: usize,
    pub ty: Vec<Token>,
}

/// The mathematical form of `SingleDecl`.
pub struct SpecSingleDecl {
    pub attrs: Seq<SpecTok>,
    pub vis: SpecVisibility,
    pub name: Seq<char>,
    pub name_pos: int,
    pub ty: Seq<SpecTok>,
}

impl View for SingleDecl {
    type V = SpecSingleDecl;

    open spec fn view(&self) -> SpecSingleDecl {
        SpecSingleDecl {
            attrs: self.attrs@.map_values(|t: Token| t@),
            vis: self.vis@,
            name: self.name@,
            name_pos: self.name_pos as int,
            ty: self.ty@.map_values(|t: Token| t@),
        }
    }
}

/// One field of a structure: a single declaration, or the aligned members of
/// a tuple, each with one extractor.
#[derive(Debug)]
pub enum FieldSpec {
    Single { decl: SingleDecl, extractor: ExtractorSpec },
    Tuple { members: Vec<SingleDecl>, extractor: ExtractorSpec },
}

/// The mathematical form of `FieldSpec`.
pub enum SpecFieldSpec {
    SingleF { decl: SpecSingleDecl, extractor: SpecExtractorSpec },
    TupleF { members: Seq<SpecSingleDecl>, extractor: SpecExtractorSpec },
}

impl View for FieldSpec {
    type V = SpecFieldSpec;

    open spec fn view(&self) -> SpecFieldSpec {
        match self {
            FieldSpec::Single { decl, extractor } => SpecFieldSpec::SingleF {
                decl: decl@,
                extractor: extractor@,
            },
            FieldSpec::Tuple { members, extractor } => SpecFieldSpec::TupleF {
                members: members@.map_values(|d: SingleDecl| d@),
                extractor: extractor@,
            },
        }
    }
}

impl SpecFieldSpec {
    /// The extractor of this field.
    pub open spec fn ext(&self) -> SpecExtractorSpec {
        match self {
            SpecFieldSpec::SingleF { extractor, .. } => *extractor,
            SpecFieldSpec::TupleF { extractor, .. } => *extractor,
        }
    }
}

/// One structure definition of a specification.
#[derive(Debug)]
pub struct StructSpec {
    pub attrs: Vec<Token>,
    pub vis: Visibility,
    pub name: String,
    pub name_pos: usize,
    pub fields: Vec<FieldSpec>,
}

/// The mathematical form of `StructSpec`.
pub struct SpecStructSpec {
    pub attrs: Seq<SpecTok>,
    pub vis: SpecVisibility,
    pub name: Seq<char>,
    pub name_pos: int,
    pub fields: Seq<SpecFieldSpec>,
}

impl View for StructSpec {
    type V = SpecStructSpec;

    open spec fn view(&self) -> SpecStructSpec {
        SpecStructSpec {
            attrs: self.attrs@.map_values(|t: Token| t@),
            vis: self.vis@,
            name: self.name@,
            name_pos: self.name_pos as int,
            fields: self.fields@.map_values(|f: FieldSpec| f@),
        }
    }
}

/// The view of a sequence of structure definitions.
pub open spec fn structs_view(ds: Seq<StructSpec>) -> Seq<SpecStructSpec> {
    ds.map_values(|d: StructSpec| d@)
}

} // verus!
