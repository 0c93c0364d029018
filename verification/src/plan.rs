//! The static validator and the extraction-plan builder.
//!
//! A validated specification is compiled once into a `CompiledSpec`: one
//! `StructPlan` per structure definition, holding per field the compiled
//! selector, the compiled capture regex, the resolved conversion, and, for a
//! nested structure target, the index of the referenced plan. Ranks make the
//! reference graph visibly acyclic: every reference leads to a plan of
//! strictly smaller rank.

use vstd::prelude::*;
use vstd::string::*;

use crate::ast::{
    structs_view, CollectorMode, FieldSpec, ParserRef, SingleDecl, SpecFieldSpec, SpecParserRef,
    SpecSingleDecl, SpecStructSpec, SpecTargetSpec, StructSpec,
};
use crate::lexer::{SpecTok, TokKind, Token};
use crate::outside::{
    compile_regex, compile_selector, group_count, regex_group_count, regex_valid, selector_valid,
    CompiledRegex, CompiledSelector,
};
use crate::strutil::str_eq;
use crate::types::{
    path_end, path_text, read_path, resolve_ty, spec_resolve_ty, ty_view, LeafKind, SpecTypeShape,
    TypeShape,
};

verus! {

// ---------------------------------------------------------------------------
// Validation errors
// ---------------------------------------------------------------------------

/// Why a specification was rejected at validation time.
#[derive(Debug)]
pub enum ProblemKind {
    /// The selector engine rejected the selector; its description follows.
    BadSelector(String),
    /// The regex engine rejected the capture pattern; its description
    /// follows.
    BadRegex(String),
    /// An element target cannot be combined with a capture regex.
    ElementWithCapture,
    /// A presence target cannot be combined with any other specifier, and
    /// its field must be declared `bool`.
    PresenceWithOther,
    /// A tuple field needs a capture regex.
    TupleWithoutCapture,
    /// A tuple field cannot collect into a container.
    TupleWithCollect,
    /// Capture without `collect` needs a tuple field.
    CaptureNeedsTuple,
    /// The tuple member count must be one less than the capture-group count.
    CaptureArityMismatch,
    /// The declared type does not fit the target and collector.
    BadType,
    /// An element target names a structure that the specification does not
    /// define.
    UnknownStructRef,
    /// Two structure definitions share a name.
    DuplicateStructName,
    /// Two fields (or tuple members) of one structure share a name.
    DuplicateFieldName,
    /// Element targets form a reference cycle among the structures.
    CyclicReference,
    /// A custom parser must be named by a single identifier.
    CustomParserShape,
}

/// A validation failure, naming the offending structure and field.
#[derive(Debug)]
pub struct ValidateError {
    pub structure: String,
    pub field: String,
    pub problem: ProblemKind,
}

// ---------------------------------------------------------------------------
// Plan data
// ---------------------------------------------------------------------------

/// Which facet of a candidate element the engine reads as a raw string.
pub enum ReadPlan {
    AttrRead(String),
    TextRead(u64),
    InnerHtmlRead,
}

/// How each capture group becomes a value: the ambient conversion per a
/// leaf kind, or a named caller-supplied parser.
pub enum CaptureConvert {
    KindConv(Vec<LeafKind>),
    CustomConv(String),
}

/// What the engine does with one candidate element.
pub enum StepPlan {
    /// The value is the presence of any candidate; nothing is read.
    PresenceStep,
    /// Recurse into the plan at this index of the compiled specification.
    ElemStep(usize),
    /// Read a raw string, apply the capture regex, convert each of the
    /// `count` groups after group 0.
    CaptureStep { read: ReadPlan, regex: CompiledRegex, count: usize, convert: CaptureConvert },
    /// Read a raw string and convert the whole of it.
    PlainStep { read: ReadPlan, kind: LeafKind },
    /// Read a raw string and hand it to the named caller-supplied parser.
    CustomStep { read: ReadPlan, parser_name: String },
}

/// The compiled recipe of one field.
pub struct FieldPlan {
    /// The slot names this field fills: one for a single field, one per
    /// member for a tuple field.
    pub names: Vec<String>,
    pub selector: CompiledSelector,
    pub collector: CollectorMode,
    pub step: StepPlan,
}

/// The compiled recipe of one structure.
pub struct StructPlan {
    pub name: String,
    /// Strictly larger than the rank of every plan this one references.
    pub rank: usize,
    pub fields: Vec<FieldPlan>,
}

/// A whole compiled specification: one plan per structure definition, in
/// definition order.
pub struct CompiledSpec {
    pub plans: Vec<StructPlan>,
}

// ---------------------------------------------------------------------------
// Plan well-formedness (what the engine relies on)
// ---------------------------------------------------------------------------

/// What one field plan guarantees the engine, inside a specification whose
/// plans are `all` and whose own plan has rank `rank`.
pub open spec fn field_plan_wf(f: FieldPlan, rank: nat, all: Seq<StructPlan>) -> bool {
    match f.step {
        StepPlan::PresenceStep => f.names@.len() == 1 && f.collector == CollectorMode::First,
        StepPlan::ElemStep(j) => f.names@.len() == 1 && j < all.len() && all[j as int].rank < rank,
        StepPlan::CaptureStep { read, regex, count, convert } => {
            &&& count + 1 == regex_group_count(regex.pat())
            &&& (convert matches CaptureConvert::KindConv(ks) ==> ks@.len() == count)
            &&& (f.collector != CollectorMode::All ==> f.names@.len() == count)
            &&& (f.collector == CollectorMode::All ==> f.names@.len() == 1)
        },
        StepPlan::PlainStep { read, kind } => f.names@.len() == 1,
        StepPlan::CustomStep { read, parser_name } => f.names@.len() == 1,
    }
}

/// What one structure plan guarantees the engine.
pub open spec fn struct_plan_wf(p: StructPlan, all: Seq<StructPlan>) -> bool {
    forall|k: int|
        0 <= k < p.fields@.len() ==> field_plan_wf(#[trigger] p.fields@[k], p.rank as nat, all)
}

/// What a whole compiled specification guarantees the engine.
pub open spec fn spec_wf(cs: CompiledSpec) -> bool {
    forall|i: int|
        0 <= i < cs.plans@.len() ==> struct_plan_wf(#[trigger] cs.plans@[i], cs.plans@)
}

// ---------------------------------------------------------------------------
// The validation rules, mathematically
// ---------------------------------------------------------------------------

/// The first definition with this name, or -1.
pub open spec fn find_struct(defs: Seq<SpecStructSpec>, n: Seq<char>) -> int
    decreases defs.len(),
{
    if defs.len() == 0 {
        -1
    } else if defs[0].name == n {
        0
    } else {
        let r = find_struct(defs.subrange(1, defs.len() as int), n);
        if r < 0 {
            -1
        } else {
            r + 1
        }
    }
}

pub proof fn lemma_find_struct(defs: Seq<SpecStructSpec>, n: Seq<char>)
    ensures
        find_struct(defs, n) >= 0 ==> find_struct(defs, n) < defs.len() && defs[find_struct(
            defs,
            n,
        )].name == n,
        find_struct(defs, n) < 0 ==> forall|i: int| 0 <= i < defs.len() ==> (#[trigger] defs[i]).name != n,
    decreases defs.len(),
{
    if defs.len() > 0 && !(defs[0].name == n) {
        lemma_find_struct(defs.subrange(1, defs.len() as int), n);
        let r = find_struct(defs.subrange(1, defs.len() as int), n);
        if r >= 0 {
            assert(defs.subrange(1, defs.len() as int)[r] == defs[r + 1]);
        } else {
            assert forall|i: int| 0 <= i < defs.len() implies (#[trigger] defs[i]).name != n by {
                if i > 0 {
                    assert(defs.subrange(1, defs.len() as int)[i - 1] == defs[i]);
                }
            }
        }
    }
}

/// How many slot names a field declares: one for a single field, one per
/// member for a tuple field.
pub open spec fn field_slot_len(f: SpecFieldSpec) -> int {
    match f {
        SpecFieldSpec::SingleF { decl, extractor } => 1,
        SpecFieldSpec::TupleF { members, extractor } => members.len() as int,
    }
}

/// The `s`-th slot name a field declares.
pub open spec fn field_slot_name(f: SpecFieldSpec, s: int) -> Seq<char> {
    match f {
        SpecFieldSpec::SingleF { decl, extractor } => decl.name,
        SpecFieldSpec::TupleF { members, extractor } => members[s].name,
    }
}

/// Whether no two declared field or member names of one definition collide.
pub open spec fn struct_names_unique(d: SpecStructSpec) -> bool {
    forall|k1: int, s1: int, k2: int, s2: int|
        0 <= k1 < d.fields.len() && 0 <= s1 < field_slot_len(d.fields[k1]) && 0 <= k2
            < d.fields.len() && 0 <= s2 < field_slot_len(d.fields[k2]) && !(k1 == k2 && s1 == s2)
            ==> #[trigger] field_slot_name(d.fields[k1], s1) != #[trigger] field_slot_name(
            d.fields[k2],
            s2,
        )
}

/// The `s`-th slot name of field plan `k`.
pub open spec fn plan_slot_name(fps: Seq<FieldPlan>, k: int, s: int) -> Seq<char> {
    fps[k].names@[s]@
}

/// Whether no two slot names of these field plans collide.
pub open spec fn plan_names_unique(fps: Seq<FieldPlan>) -> bool {
    forall|k1: int, s1: int, k2: int, s2: int|
        0 <= k1 < fps.len() && 0 <= s1 < fps[k1].names@.len() && 0 <= k2 < fps.len() && 0 <= s2
            < fps[k2].names@.len() && !(k1 == k2 && s1 == s2) ==> #[trigger] plan_slot_name(
            fps,
            k1,
            s1,
        ) != #[trigger] plan_slot_name(fps, k2, s2)
}

/// Whether no two definitions share a name.
pub open spec fn no_dup_names(defs: Seq<SpecStructSpec>) -> bool {
    forall|i: int, j: int|
        0 <= i < j < defs.len() ==> (#[trigger] defs[i]).name != (#[trigger] defs[j]).name
}

/// Whether a custom-parser token run is a single (possibly path-qualified)
/// name for the parser: an identifier, continued only by `:: identifier`
/// segments, and nothing else.
pub open spec fn custom_name_ok(run: Seq<SpecTok>) -> bool {
    run.len() > 0 && run[0].kind is IdentK && path_end(run, 0) == run.len()
}

/// The name of a custom parser: the path's segments joined with `::`.
pub open spec fn custom_name_of(run: Seq<SpecTok>) -> Seq<char>
    recommends
        custom_name_ok(run),
{
    path_text(run, 0)
}

/// The structure name a nested element target refers to, per the declared
/// type and the collector: the bare name, a list of it, or an option of it.
pub open spec fn elem_ref_name(ty: Seq<SpecTok>, col: CollectorMode) -> Option<Seq<char>> {
    match spec_resolve_ty(ty) {
        Some(sh) => match col {
            CollectorMode::First => match sh {
                SpecTypeShape::NamedS(n) => Some(n),
                _ => None,
            },
            CollectorMode::All => match sh {
                SpecTypeShape::ListS(b) => match *b {
                    SpecTypeShape::NamedS(n) => Some(n),
                    _ => None,
                },
                _ => None,
            },
            CollectorMode::Optional => match sh {
                SpecTypeShape::OptionS(b) => match *b {
                    SpecTypeShape::NamedS(n) => Some(n),
                    _ => None,
                },
                _ => None,
            },
        },
        None => None,
    }
}

/// The leaf kind a plainly-converted single field must declare, per the
/// collector: the bare leaf, a list of it, or an option of it.
pub open spec fn leaf_shape_of(ty: Seq<SpecTok>, col: CollectorMode) -> Option<LeafKind> {
    match spec_resolve_ty(ty) {
        Some(sh) => match col {
            CollectorMode::First => match sh {
                SpecTypeShape::LeafS(k) => Some(k),
                _ => None,
            },
            CollectorMode::All => match sh {
                SpecTypeShape::ListS(b) => match *b {
                    SpecTypeShape::LeafS(k) => Some(k),
                    _ => None,
                },
                _ => None,
            },
            CollectorMode::Optional => match sh {
                SpecTypeShape::OptionS(b) => match *b {
                    SpecTypeShape::LeafS(k) => Some(k),
                    _ => None,
                },
                _ => None,
            },
        },
        None => None,
    }
}

/// The tuple leaf kinds a collected capture field must declare: a list of a
/// tuple of leaf kinds.
pub open spec fn list_tuple_kinds(ty: Seq<SpecTok>) -> Option<Seq<LeafKind>> {
    match spec_resolve_ty(ty) {
        Some(sh) => match sh {
            SpecTypeShape::ListS(b) => match *b {
                SpecTypeShape::TupleS(ks) => Some(ks),
                _ => None,
            },
            _ => None,
        },
        None => None,
    }
}

/// Whether every member's declared type resolves to a leaf kind.
pub open spec fn members_all_leaf(ms: Seq<SpecSingleDecl>) -> bool {
    forall|i: int|
        0 <= i < ms.len() ==> spec_resolve_ty((#[trigger] ms[i]).ty) matches Some(
            SpecTypeShape::LeafS(_),
        )
}

/// The compatibility rules for one field whose capture regex has `g` groups
/// (group 0 included).
pub open spec fn capture_rules(defs: Seq<SpecStructSpec>, f: SpecFieldSpec, g: usize) -> bool {
    let e = f.ext();
    &&& !(e.target is ElementT)
    &&& !(e.target is PresenceOfT)
    &&& match f {
        SpecFieldSpec::TupleF { members, extractor } => {
            &&& extractor.collector != CollectorMode::All
            &&& members.len() == g - 1
            &&& g >= 1
            &&& match extractor.parser {
                SpecParserRef::DefaultP => members_all_leaf(members),
                SpecParserRef::CustomP(run) => custom_name_ok(run),
            }
        },
        SpecFieldSpec::SingleF { decl, extractor } => {
            &&& extractor.collector == CollectorMode::All
            &&& match extractor.parser {
                SpecParserRef::DefaultP => list_tuple_kinds(decl.ty) matches Some(ks) && ks.len()
                    == g - 1 && g >= 1,
                SpecParserRef::CustomP(run) => custom_name_ok(run),
            }
        },
    }
}

/// The rules for one field without a capture regex.
pub open spec fn nocapture_rules(defs: Seq<SpecStructSpec>, f: SpecFieldSpec) -> bool {
    match f {
        SpecFieldSpec::TupleF { members, extractor } => false,
        SpecFieldSpec::SingleF { decl, extractor } => match extractor.target {
            SpecTargetSpec::PresenceOfT { selector } => {
                &&& extractor.collector == CollectorMode::First
                &&& extractor.parser is DefaultP
                &&& spec_resolve_ty(decl.ty) == Some(SpecTypeShape::LeafS(LeafKind::BoolLeaf))
            },
            SpecTargetSpec::ElementT { selector } => {
                elem_ref_name(decl.ty, extractor.collector) matches Some(n) && find_struct(defs, n)
                    >= 0
            },
            _ => match extractor.parser {
                SpecParserRef::DefaultP => leaf_shape_of(decl.ty, extractor.collector) is Some,
                SpecParserRef::CustomP(run) => custom_name_ok(run),
            },
        },
    }
}

/// Whether one field passes the static validator: the selector compiles, the
/// capture regex (if any) compiles, and the specifier-compatibility rules
/// hold.
pub open spec fn field_ok(defs: Seq<SpecStructSpec>, f: SpecFieldSpec) -> bool {
    let e = f.ext();
    &&& selector_valid(e.target.sel())
    &&& match e.capture {
        Some(p) => regex_valid(p) && capture_rules(defs, f, regex_group_count(p)),
        None => nocapture_rules(defs, f),
    }
}

/// Whether every field of the definition passes the validator.
pub open spec fn struct_fields_ok(defs: Seq<SpecStructSpec>, d: SpecStructSpec) -> bool {
    forall|k: int| 0 <= k < d.fields.len() ==> field_ok(defs, #[trigger] d.fields[k])
}

/// The definition index a field references through an element target, if
/// any: a single field, no capture, an element target whose declared type
/// names a defined structure (bare, list or option, per the collector).
pub open spec fn elem_target_of(defs: Seq<SpecStructSpec>, f: SpecFieldSpec) -> Option<int> {
    match f {
        SpecFieldSpec::SingleF { decl, extractor } => match extractor.target {
            SpecTargetSpec::ElementT { selector } => if extractor.capture is None {
                match elem_ref_name(decl.ty, extractor.collector) {
                    Some(n) => if find_struct(defs, n) >= 0 {
                        Some(find_struct(defs, n))
                    } else {
                        None
                    },
                    None => None,
                }
            } else {
                None
            },
            _ => None,
        },
        SpecFieldSpec::TupleF { members, extractor } => None,
    }
}

/// Whether `rk` ranks the definitions so that every element-target reference
/// points to a strictly smaller rank.
pub open spec fn ranks_ok_nat(defs: Seq<SpecStructSpec>, rk: Seq<nat>) -> bool {
    &&& rk.len() == defs.len()
    &&& forall|i: int, m: int|
        0 <= i < defs.len() && 0 <= m < defs[i].fields.len() ==> (#[trigger] elem_target_of(
            defs,
            defs[i].fields[m],
        ) matches Some(j) ==> 0 <= j < defs.len() && rk[j] < rk[i])
}

/// Whether the element-target references among the definitions are free of
/// cycles: some ranking makes every reference strictly decreasing.
pub open spec fn refs_acyclic(defs: Seq<SpecStructSpec>) -> bool {
    exists|rk: Seq<nat>| ranks_ok_nat(defs, rk)
}

/// Whether a whole parsed specification passes the validator and can be
/// compiled: names unique, every field valid, and the nested-structure
/// references free of cycles.
pub open spec fn spec_build_ok(defs: Seq<SpecStructSpec>) -> bool {
    &&& no_dup_names(defs)
    &&& forall|i: int| 0 <= i < defs.len() ==> struct_fields_ok(defs, #[trigger] defs[i])
    &&& forall|i: int| 0 <= i < defs.len() ==> struct_names_unique(#[trigger] defs[i])
    &&& refs_acyclic(defs)
}

} // verus!

// ---------------------------------------------------------------------------
// How a compiled plan corresponds to the definitions it was built from
// ---------------------------------------------------------------------------

verus! {

/// Whether the read step matches the target.
pub open spec fn read_matches(rp: ReadPlan, t: SpecTargetSpec) -> bool {
    match t {
        SpecTargetSpec::AttributeT { attr_name, selector } => rp matches ReadPlan::AttrRead(a)
            && a@ == attr_name,
        SpecTargetSpec::TextNodeT { index, selector } => rp matches ReadPlan::TextRead(x) && x
            == index,
        SpecTargetSpec::InnerHtmlT { selector } => rp is InnerHtmlRead,
        _ => false,
    }
}

/// Whether the slot names are the declared field or member names, in order.
pub open spec fn names_match(ns: Seq<String>, f: SpecFieldSpec) -> bool {
    match f {
        SpecFieldSpec::SingleF { decl, extractor } => ns.len() == 1 && ns[0]@ == decl.name,
        SpecFieldSpec::TupleF { members, extractor } => ns.len() == members.len() && forall|i: int|
            0 <= i < ns.len() ==> (#[trigger] ns[i])@ == members[i].name,
    }
}

/// The leaf kinds of the capture groups, per the declaration: the members'
/// kinds of a tuple field, or the tuple kinds inside a collected list type.
pub open spec fn capture_kinds_of(f: SpecFieldSpec) -> Seq<LeafKind> {
    match f {
        SpecFieldSpec::TupleF { members, extractor } => Seq::new(
            members.len(),
            |i: int| spec_resolve_ty(members[i].ty)->Some_0->LeafS_0,
        ),
        SpecFieldSpec::SingleF { decl, extractor } => list_tuple_kinds(decl.ty)->0,
    }
}

/// Whether one field plan is the compilation of one field definition.
pub open spec fn field_plan_matches(
    fp: FieldPlan,
    f: SpecFieldSpec,
    defs: Seq<SpecStructSpec>,
) -> bool {
    let e = f.ext();
    &&& fp.selector.src() == e.target.sel()
    &&& fp.collector == e.collector
    &&& names_match(fp.names@, f)
    &&& match e.capture {
        Some(p) => {
            &&& fp.step matches StepPlan::CaptureStep { read, regex, count, convert }
            &&& (fp.step matches StepPlan::CaptureStep { read, regex, count, convert } ==> {
                &&& regex.pat() == p
                &&& read_matches(read, e.target)
                &&& count == regex_group_count(p) - 1
                &&& match e.parser {
                    SpecParserRef::DefaultP => convert matches CaptureConvert::KindConv(ks) && ks@
                        == capture_kinds_of(f),
                    SpecParserRef::CustomP(run) => convert matches CaptureConvert::CustomConv(n)
                        && n@ == custom_name_of(run),
                }
            })
        },
        None => match e.target {
            SpecTargetSpec::ElementT { selector } => fp.step matches StepPlan::ElemStep(j) && Some(
                j as int,
            ) == elem_target_of(defs, f),
            SpecTargetSpec::PresenceOfT { selector } => fp.step is PresenceStep,
            _ => match e.parser {
                SpecParserRef::DefaultP => fp.step matches StepPlan::PlainStep { read, kind }
                    && read_matches(read, e.target) && Some(kind) == leaf_shape_of(
                    f->SingleF_decl.ty,
                    e.collector,
                ),
                SpecParserRef::CustomP(run) => fp.step matches StepPlan::CustomStep {
                    read,
                    parser_name,
                } && read_matches(read, e.target) && parser_name@ == custom_name_of(run),
            },
        },
    }
}

/// Whether one structure plan is the compilation of one definition.
pub open spec fn plan_matches(p: StructPlan, d: SpecStructSpec, defs: Seq<SpecStructSpec>) -> bool {
    &&& p.name@ == d.name
    &&& p.fields@.len() == d.fields.len()
    &&& forall|k: int|
        0 <= k < p.fields@.len() ==> field_plan_matches(#[trigger] p.fields@[k], d.fields[k], defs)
}

/// Whether a whole compiled specification is the compilation of the parsed
/// definitions, plan by plan, in order.
pub open spec fn plans_match(cs: CompiledSpec, defs: Seq<SpecStructSpec>) -> bool {
    &&& cs.plans@.len() == defs.len()
    &&& forall|i: int|
        0 <= i < defs.len() ==> plan_matches(#[trigger] cs.plans@[i], defs[i], defs)
}

} // verus!

// ---------------------------------------------------------------------------
// Executable validator and builder
// ---------------------------------------------------------------------------

verus! {

proof fn lemma_find_struct_first(defs: Seq<SpecStructSpec>, n: Seq<char>, i: int)
    requires
        0 <= i < defs.len(),
        defs[i].name == n,
        forall|k: int| 0 <= k < i ==> (#[trigger] defs[k]).name != n,
    ensures
        find_struct(defs, n) == i,
    decreases defs.len(),
{
    if i == 0 {
    } else {
        assert(defs[0].name != n);
        let tail = defs.subrange(1, defs.len() as int);
        assert(tail[i - 1] == defs[i]);
        assert forall|k: int| 0 <= k < i - 1 implies (#[trigger] tail[k]).name != n by {
            assert(tail[k] == defs[k + 1]);
        }
        lemma_find_struct_first(tail, n, i - 1);
    }
}

/// Finds the first definition with this name.
fn find_struct_exec(defs: &Vec<StructSpec>, n: &str) -> (r: Option<usize>)
    ensures
        match r {
            Some(j) => find_struct(structs_view(defs@), n@) == j as int && j < defs@.len(),
            None => find_struct(structs_view(defs@), n@) < 0,
        },
{
    let ghost dv = structs_view(defs@);
    let mut i: usize = 0;
    while i < defs.len()
        invariant
            0 <= i <= defs@.len(),
            dv == structs_view(defs@),
            forall|k: int| 0 <= k < i ==> (#[trigger] dv[k]).name != n@,
        decreases defs@.len() - i,
    {
        if str_eq(defs[i].name.as_str(), n) {
            proof {
                lemma_find_struct_first(dv, n@, i as int);
            }
            return Some(i);
        }
        i = i + 1;
    }
    proof {
        lemma_find_struct(dv, n@);
        if find_struct(dv, n@) >= 0 {
            assert(dv[find_struct(dv, n@)].name == n@);
        }
    }
    None
}

/// Rejects specifications in which two structure definitions share a name.
fn check_no_dup(defs: &Vec<StructSpec>) -> (r: Result<(), ValidateError>)
    ensures
        r is Ok <==> no_dup_names(structs_view(defs@)),
{
    let ghost dv = structs_view(defs@);
    let mut i: usize = 0;
    while i < defs.len()
        invariant
            0 <= i <= defs@.len(),
            dv == structs_view(defs@),
            forall|a: int, b: int| 0 <= a < b < i ==> (#[trigger] dv[a]).name != (#[trigger] dv[b]).name,
        decreases defs@.len() - i,
    {
        let mut j: usize = 0;
        while j < i
            invariant
                0 <= j <= i < defs@.len(),
                dv == structs_view(defs@),
                forall|b: int| 0 <= b < j ==> (#[trigger] dv[b]).name != dv[i as int].name,
            decreases i - j,
        {
            if str_eq(defs[j].name.as_str(), defs[i].name.as_str()) {
                proof {
                    assert(dv[j as int] == defs@[j as int]@);
                    assert(dv[i as int] == defs@[i as int]@);
                    assert(dv[j as int].name == dv[i as int].name);
                }
                return Err(
                    ValidateError {
                        structure: defs[i].name.clone(),
                        field: String::new(),
                        problem: ProblemKind::DuplicateStructName,
                    },
                );
            }
            j = j + 1;
        }
        i = i + 1;
    }
    Ok(())
}

/// The definition index a field references through an element target, if
/// any.
fn elem_target_exec(defs: &Vec<StructSpec>, f: &FieldSpec) -> (r: Option<usize>)
    ensures
        match r {
            Some(j) => elem_target_of(structs_view(defs@), f@) == Some(j as int) && j
                < defs@.len(),
            None => elem_target_of(structs_view(defs@), f@) is None,
        },
{
    match f {
        FieldSpec::Single { decl, extractor } => {
            match &extractor.target {
                crate::ast::TargetSpec::Element { selector } => {
                    if extractor.capture.is_some() {
                        return None;
                    }
                    proof {
                        assert(decl@.ty =~= crate::lexer::toks_view(decl.ty@));
                    }
                    match resolve_ty(&decl.ty) {
                        Some(shape) => {
                            proof {
                                assert(spec_resolve_ty(decl@.ty) == Some(ty_view(shape)));
                            }
                            match (&shape, extractor.collector) {
                                (TypeShape::Named(nm), CollectorMode::First) => {
                                    proof {
                                        assert(elem_ref_name(decl@.ty, extractor@.collector)
                                            == Some(nm@));
                                    }
                                    match find_struct_exec(defs, nm.as_str()) {
                                        Some(j) => Some(j),
                                        None => None,
                                    }
                                },
                                (TypeShape::ListOf(b), CollectorMode::All) => match &**b {
                                    TypeShape::Named(nm) => {
                                        proof {
                                            assert(ty_view(shape) == SpecTypeShape::ListS(
                                                Box::new(ty_view(**b))));
                                            assert(elem_ref_name(decl@.ty, extractor@.collector)
                                                == Some(nm@));
                                        }
                                        match find_struct_exec(defs, nm.as_str()) {
                                            Some(j) => Some(j),
                                            None => None,
                                        }
                                    },
                                    _ => {
                                        proof {
                                            assert(ty_view(shape) == SpecTypeShape::ListS(
                                                Box::new(ty_view(**b))));
                                            assert(elem_ref_name(decl@.ty, extractor@.collector)
                                                is None);
                                        }
                                        None
                                    },
                                },
                                (TypeShape::OptionOf(b), CollectorMode::Optional) => match &**b {
                                    TypeShape::Named(nm) => {
                                        proof {
                                            assert(ty_view(shape) == SpecTypeShape::OptionS(
                                                Box::new(ty_view(**b))));
                                            assert(elem_ref_name(decl@.ty, extractor@.collector)
                                                == Some(nm@));
                                        }
                                        match find_struct_exec(defs, nm.as_str()) {
                                            Some(j) => Some(j),
                                            None => None,
                                        }
                                    },
                                    _ => {
                                        proof {
                                            assert(ty_view(shape) == SpecTypeShape::OptionS(
                                                Box::new(ty_view(**b))));
                                            assert(elem_ref_name(decl@.ty, extractor@.collector)
                                                is None);
                                        }
                                        None
                                    },
                                },
                                _ => {
                                    proof {
                                        assert(elem_ref_name(decl@.ty, extractor@.collector)
                                            is None);
                                    }
                                    None
                                },
                            }
                        },
                        None => None,
                    }
                },
                _ => None,
            }
        },
        FieldSpec::Tuple { members, extractor } => None,
    }
}

} // verus!

// ---------------------------------------------------------------------------
// Rank computation: making the reference graph visibly acyclic
// ---------------------------------------------------------------------------

verus! {

/// Whether `rk` (one rank per definition) makes every reference strictly
/// decreasing.
pub open spec fn ranks_strict(defs: Seq<SpecStructSpec>, rk: Seq<usize>) -> bool {
    &&& rk.len() == defs.len()
    &&& forall|i: int, m: int|
        0 <= i < defs.len() && 0 <= m < defs[i].fields.len() ==> (#[trigger] elem_target_of(
            defs,
            defs[i].fields[m],
        ) matches Some(j) ==> 0 <= j < defs.len() && rk[j] < rk[i])
}

/// The running state of the rank rounds: ranked definitions reference only
/// ranked definitions of strictly smaller rank.
pub open spec fn partial_ok(defs: Seq<SpecStructSpec>, st: Seq<Option<usize>>) -> bool {
    &&& st.len() == defs.len()
    &&& forall|a: int, m: int|
        0 <= a < defs.len() && 0 <= m < defs[a].fields.len() && st[a] is Some ==> (
        #[trigger] elem_target_of(defs, defs[a].fields[m]) matches Some(j) ==> (0 <= j
            < defs.len() && st[j] is Some && st[j]->0 < st[a]->0))
}

/// Whether definition `a` has an element-target reference to a definition
/// that the state leaves unranked.
pub open spec fn has_none_child(
    defs: Seq<SpecStructSpec>,
    st: Seq<Option<usize>>,
    a: int,
) -> bool {
    exists|m: int|
        0 <= m < defs[a].fields.len() && (#[trigger] elem_target_of(
            defs,
            defs[a].fields[m],
        ) matches Some(j) && 0 <= j < st.len() && st[j] is None)
}

/// A state the rounds cannot improve: every unranked definition references
/// an unranked one.
pub open spec fn stuck(defs: Seq<SpecStructSpec>, st: Seq<Option<usize>>) -> bool {
    forall|a: int| 0 <= a < defs.len() && (#[trigger] st[a]) is None ==> has_none_child(defs, st, a)
}

/// How many definitions the state ranks.
pub open spec fn count_some(st: Seq<Option<usize>>) -> int
    decreases st.len(),
{
    if st.len() == 0 {
        0
    } else {
        count_some(st.drop_last()) + if st.last() is Some {
            1int
        } else {
            0int
        }
    }
}

proof fn lemma_count_some_le_len(st: Seq<Option<usize>>)
    ensures
        0 <= count_some(st) <= st.len(),
    decreases st.len(),
{
    if st.len() > 0 {
        lemma_count_some_le_len(st.drop_last());
    }
}

proof fn lemma_count_some_update(st: Seq<Option<usize>>, i: int, v: usize)
    requires
        0 <= i < st.len(),
        st[i] is None,
    ensures
        count_some(st.update(i, Some(v))) == count_some(st) + 1,
    decreases st.len(),
{
    let st2 = st.update(i, Some(v));
    if i == st.len() - 1 {
        assert(st2.drop_last() =~= st.drop_last());
    } else {
        assert(st2.drop_last() =~= st.drop_last().update(i, Some(v)));
        lemma_count_some_update(st.drop_last(), i, v);
    }
}

proof fn lemma_count_some_full(st: Seq<Option<usize>>)
    requires
        count_some(st) >= st.len(),
    ensures
        forall|i: int| 0 <= i < st.len() ==> (#[trigger] st[i]) is Some,
    decreases st.len(),
{
    lemma_count_some_le_len(st);
    if st.len() > 0 {
        lemma_count_some_le_len(st.drop_last());
        lemma_count_some_full(st.drop_last());
        assert forall|i: int| 0 <= i < st.len() implies (#[trigger] st[i]) is Some by {
            if i < st.len() - 1 {
                assert(st.drop_last()[i] == st[i]);
            }
        }
    }
}

/// In a stuck state, an unranked definition rules out every strict ranking:
/// following unranked references would descend for ever.
proof fn lemma_stuck_no_ranking(
    defs: Seq<SpecStructSpec>,
    st: Seq<Option<usize>>,
    rk: Seq<nat>,
    u: int,
)
    requires
        st.len() == defs.len(),
        stuck(defs, st),
        0 <= u < defs.len(),
        st[u] is None,
    ensures
        !ranks_ok_nat(defs, rk),
    decreases rk[u],
{
    if ranks_ok_nat(defs, rk) {
        let m = choose|m: int|
            0 <= m < defs[u].fields.len() && (#[trigger] elem_target_of(
                defs,
                defs[u].fields[m],
            ) matches Some(j) && 0 <= j < st.len() && st[j] is None);
        let j = elem_target_of(defs, defs[u].fields[m])->0;
        lemma_stuck_no_ranking(defs, st, rk, j);
    }
}

/// Whether every element-target reference of definition `i` points to a
/// definition ranked in an earlier round.
fn deps_ready(defs: &Vec<StructSpec>, state: &Vec<Option<usize>>, i: usize, round: usize) -> (r:
    bool)
    requires
        i < defs@.len(),
        state@.len() == defs@.len(),
    ensures
        ({
            let dv = structs_view(defs@);
            if r {
                forall|m: int|
                    0 <= m < dv[i as int].fields.len() ==> (#[trigger] elem_target_of(
                        dv,
                        dv[i as int].fields[m],
                    ) matches Some(j) ==> (0 <= j < state@.len() && (state@[j] matches Some(v) && v
                        < round)))
            } else {
                exists|m: int|
                    0 <= m < dv[i as int].fields.len() && (#[trigger] elem_target_of(
                        dv,
                        dv[i as int].fields[m],
                    ) matches Some(j) && 0 <= j < state@.len() && (state@[j] is None || state@[j]->0
                        >= round))
            }
        }),
{
    let ghost dv = structs_view(defs@);
    let nf = defs[i].fields.len();
    proof {
        assert(dv[i as int] == defs@[i as int]@);
    }
    let mut m: usize = 0;
    while m < nf
        invariant
            0 <= m <= nf,
            i < defs@.len(),
            state@.len() == defs@.len(),
            dv == structs_view(defs@),
            dv[i as int] == defs@[i as int]@,
            nf == defs@[i as int]@.fields.len(),
            forall|k: int|
                0 <= k < m ==> (#[trigger] elem_target_of(dv, dv[i as int].fields[k]) matches Some(
                    j,
                ) ==> (0 <= j < state@.len() && (state@[j] matches Some(v) && v < round))),
        decreases nf - m,
    {
        proof {
            assert(dv[i as int].fields[m as int] == defs@[i as int]@.fields[m as int]);
            assert(defs@[i as int]@.fields[m as int] == defs[i as int].fields@[m as int]@);
        }
        match elem_target_exec(defs, &defs[i].fields[m]) {
            Some(j) => {
                let sj = state[j];
                match sj {
                    Some(v) => {
                        if v >= round {
                            return false;
                        }
                    },
                    None => {
                        return false;
                    },
                }
            },
            None => {},
        }
        m = m + 1;
    }
    true
}

/// Assigns each definition a rank under which every element-target reference
/// strictly decreases, by rounds of relaxation. Fails exactly when the
/// references admit no such ranking: a cycle.
#[verifier::rlimit(50)]
fn compute_ranks(defs: &Vec<StructSpec>) -> (r: Result<Vec<usize>, ValidateError>)
    ensures
        match r {
            Ok(rks) => ranks_strict(structs_view(defs@), rks@) && refs_acyclic(structs_view(defs@)),
            Err(_) => !refs_acyclic(structs_view(defs@)),
        },
{
    let ghost dv = structs_view(defs@);
    let n = defs.len();
    let mut state: Vec<Option<usize>> = Vec::new();
    let mut z: usize = 0;
    while z < n
        invariant
            0 <= z <= n,
            state@.len() == z,
            forall|a: int| 0 <= a < z ==> (#[trigger] state@[a]) is None,
        decreases n - z,
    {
        state.push(None);
        z = z + 1;
    }
    proof {
        lemma_count_some_le_len(state@);
        assert(count_some(state@) >= 0);
    }
    let mut round: usize = 0;
    let mut changed: bool = true;
    while changed
        invariant
            n == defs@.len(),
            dv == structs_view(defs@),
            state@.len() == n,
            partial_ok(dv, state@),
            forall|a: int|
                0 <= a < n ==> ((#[trigger] state@[a]) matches Some(v) ==> 1 <= v <= round),
            changed ==> round <= count_some(state@),
            !changed ==> round <= count_some(state@) + 1,
            count_some(state@) <= n,
            !changed ==> stuck(dv, state@),
        decreases n + 1 - round, (if changed { 1int } else { 0int }),
    {
        if round >= n {
            proof {
                lemma_count_some_full(state@);
            }
            changed = false;
        } else {
        round = round + 1;
        changed = false;
        let ghost start = state@;
        let mut i: usize = 0;
        while i < n
            invariant
                0 <= i <= n,
                n == defs@.len(),
                dv == structs_view(defs@),
                state@.len() == n,
                partial_ok(dv, state@),
                round >= 1,
                forall|a: int|
                    0 <= a < n ==> ((#[trigger] state@[a]) matches Some(v) ==> 1 <= v <= round),
                changed ==> count_some(state@) >= round,
                !changed ==> state@ == start && count_some(state@) >= round - 1,
                forall|a: int|
                    0 <= a < n ==> ((#[trigger] start[a]) matches Some(v) ==> 1 <= v < round),
                !changed ==> forall|a: int|
                    0 <= a < i && (#[trigger] state@[a]) is None ==> has_none_child(
                        dv,
                        state@,
                        a,
                    ),
            decreases n - i,
        {
            let already = state[i].is_some();
            if !already {
                if deps_ready(defs, &state, i, round) {
                    proof {
                        lemma_count_some_update(state@, i as int, round);
                    }
                    let ghost before = state@;
                    state.set(i, Some(round));
                    proof {
                        if !changed {
                            assert(count_some(before) >= round - 1);
                        }
                        assert(count_some(state@) == count_some(before) + 1);
                        lemma_count_some_le_len(state@);
                    }
                    changed = true;
                }
            }
            i = i + 1;
        }
        proof {
            lemma_count_some_le_len(state@);
        }
        }
    }
    // the rounds reached a fixpoint; collect the ranks, or report the cycle
    let mut out: Vec<usize> = Vec::new();
    let mut k: usize = 0;
    while k < n
        invariant
            0 <= k <= n,
            n == defs@.len(),
            dv == structs_view(defs@),
            state@.len() == n,
            partial_ok(dv, state@),
            stuck(dv, state@),
            out@.len() == k,
            forall|a: int| 0 <= a < k ==> ((#[trigger] state@[a]) matches Some(v) && out@[a] == v),
        decreases n - k,
    {
        let sk = state[k];
        match sk {
            Some(v) => {
                out.push(v);
            },
            None => {
                proof {
                    if refs_acyclic(dv) {
                        let rk = choose|rk: Seq<nat>| ranks_ok_nat(dv, rk);
                        lemma_stuck_no_ranking(dv, state@, rk, k as int);
                    }
                }
                return Err(
                    ValidateError {
                        structure: defs[k].name.clone(),
                        field: String::new(),
                        problem: ProblemKind::CyclicReference,
                    },
                );
            },
        }
        k = k + 1;
    }
    proof {
        assert(ranks_strict(dv, out@)) by {
            assert forall|i2: int, m: int|
                0 <= i2 < dv.len() && 0 <= m < dv[i2].fields.len() implies (#[trigger] elem_target_of(
                dv,
                dv[i2].fields[m],
            ) matches Some(j) ==> 0 <= j < dv.len() && out@[j] < out@[i2]) by {
                match elem_target_of(dv, dv[i2].fields[m]) {
                    Some(j) => {
                        assert(state@[i2] is Some);
                    },
                    None => {},
                }
            }
        }
        let rkn = out@.map_values(|v: usize| v as nat);
        assert(ranks_ok_nat(dv, rkn)) by {
            assert(rkn.len() == dv.len());
            assert forall|i2: int, m: int|
                0 <= i2 < dv.len() && 0 <= m < dv[i2].fields.len() implies (#[trigger] elem_target_of(
                dv,
                dv[i2].fields[m],
            ) matches Some(j) ==> 0 <= j < dv.len() && rkn[j] < rkn[i2]) by {
                match elem_target_of(dv, dv[i2].fields[m]) {
                    Some(j) => {
                        if 0 <= j < dv.len() {
                            assert(rkn[j] == out@[j] as nat);
                            assert(rkn[i2] == out@[i2] as nat);
                        }
                    },
                    None => {},
                }
            }
        }
    }
    Ok(out)
}

} // verus!

// ---------------------------------------------------------------------------
// Per-field validation and plan construction
// ---------------------------------------------------------------------------

verus! {

/// The read step of a target, if it reads a raw string.
fn read_of(t: &crate::ast::TargetSpec) -> (r: Option<ReadPlan>)
    ensures
        match r {
            Some(rp) => read_matches(rp, t@),
            None => t@ is ElementT || t@ is PresenceOfT,
        },
{
    match t {
        crate::ast::TargetSpec::Attribute { attr_name, selector } => Some(
            ReadPlan::AttrRead(attr_name.clone()),
        ),
        crate::ast::TargetSpec::TextNode { index, selector } => Some(ReadPlan::TextRead(*index)),
        crate::ast::TargetSpec::InnerHtml { selector } => Some(ReadPlan::InnerHtmlRead),
        crate::ast::TargetSpec::Element { selector } => None,
        crate::ast::TargetSpec::PresenceOf { selector } => None,
    }
}

/// The leaf kind of a plainly-converted declared type, per the collector.
fn leaf_shape_exec(ty: &Vec<Token>, col: CollectorMode) -> (r: Option<LeafKind>)
    ensures
        r == leaf_shape_of(crate::lexer::toks_view(ty@), col),
{
    let ghost tyv = crate::lexer::toks_view(ty@);
    match resolve_ty(ty) {
        Some(shape) => {
            proof {
                assert(spec_resolve_ty(tyv) == Some(ty_view(shape)));
            }
            match (&shape, col) {
                (TypeShape::Leaf(k), CollectorMode::First) => Some(*k),
                (TypeShape::ListOf(b), CollectorMode::All) => match &**b {
                    TypeShape::Leaf(k) => {
                        proof {
                            assert(ty_view(shape) == SpecTypeShape::ListS(
                                Box::new(ty_view(**b))));
                        }
                        Some(*k)
                    },
                    _ => {
                        proof {
                            assert(ty_view(shape) == SpecTypeShape::ListS(
                                Box::new(ty_view(**b))));
                        }
                        None
                    },
                },
                (TypeShape::OptionOf(b), CollectorMode::Optional) => match &**b {
                    TypeShape::Leaf(k) => {
                        proof {
                            assert(ty_view(shape) == SpecTypeShape::OptionS(
                                Box::new(ty_view(**b))));
                        }
                        Some(*k)
                    },
                    _ => {
                        proof {
                            assert(ty_view(shape) == SpecTypeShape::OptionS(
                                Box::new(ty_view(**b))));
                        }
                        None
                    },
                },
                _ => None,
            }
        },
        None => None,
    }
}

/// The tuple leaf kinds inside a collected list type, if the declared type
/// has that shape.
fn list_tuple_kinds_exec(ty: &Vec<Token>) -> (r: Option<Vec<LeafKind>>)
    ensures
        match r {
            Some(ks) => list_tuple_kinds(crate::lexer::toks_view(ty@)) == Some(ks@),
            None => list_tuple_kinds(crate::lexer::toks_view(ty@)) is None,
        },
{
    let ghost tyv = crate::lexer::toks_view(ty@);
    match resolve_ty(ty) {
        Some(shape) => {
            proof {
                assert(spec_resolve_ty(tyv) == Some(ty_view(shape)));
            }
            match shape {
                TypeShape::ListOf(b) => {
                    proof {
                        assert(ty_view(TypeShape::ListOf(b)) == SpecTypeShape::ListS(
                            Box::new(ty_view(*b))));
                    }
                    match *b {
                        TypeShape::TupleOf(ks) => Some(ks),
                        _ => None,
                    }
                },
                _ => None,
            }
        },
        None => None,
    }
}

/// Whether the declared type is exactly `bool`.
fn bool_ty_exec(ty: &Vec<Token>) -> (r: bool)
    ensures
        r == (spec_resolve_ty(crate::lexer::toks_view(ty@)) == Some(
            SpecTypeShape::LeafS(LeafKind::BoolLeaf),
        )),
{
    match resolve_ty(ty) {
        Some(shape) => match shape {
            TypeShape::Leaf(k) => match k {
                LeafKind::BoolLeaf => true,
                _ => false,
            },
            _ => false,
        },
        None => false,
    }
}

/// The name of a custom parser, when its token run is one path-shaped name.
fn custom_name_exec(run: &Vec<Token>) -> (r: Option<String>)
    ensures
        match r {
            Some(s) => custom_name_ok(crate::lexer::toks_view(run@)) && s@ == custom_name_of(
                crate::lexer::toks_view(run@),
            ),
            None => !custom_name_ok(crate::lexer::toks_view(run@)),
        },
{
    if run.len() == 0 {
        return None;
    }
    let starts_with_ident = match &run[0].kind {
        TokKind::IdentTok(s) => true,
        _ => false,
    };
    if !starts_with_ident {
        return None;
    }
    let (text, end) = read_path(run, 0);
    if end == run.len() {
        Some(text)
    } else {
        None
    }
}

/// The leaf kinds of a tuple field's members, when every member's declared
/// type is a leaf.
fn members_kinds(members: &Vec<SingleDecl>) -> (r: Option<Vec<LeafKind>>)
    ensures
        ({
            let ms = members@.map_values(|d: SingleDecl| d@);
            match r {
                Some(ks) => members_all_leaf(ms) && ks@ =~= Seq::new(
                    ms.len(),
                    |i: int| spec_resolve_ty(ms[i].ty)->Some_0->LeafS_0,
                ),
                None => !members_all_leaf(ms),
            }
        }),
{
    let ghost ms = members@.map_values(|d: SingleDecl| d@);
    let mut ks: Vec<LeafKind> = Vec::new();
    let mut i: usize = 0;
    while i < members.len()
        invariant
            0 <= i <= members@.len(),
            ms == members@.map_values(|d: SingleDecl| d@),
            ks@.len() == i,
            forall|a: int|
                0 <= a < i ==> spec_resolve_ty(ms[a].ty) == Some(
                    SpecTypeShape::LeafS(ks@[a]),
                ),
        decreases members@.len() - i,
    {
        proof {
            assert(ms[i as int] == members@[i as int]@);
            assert(ms[i as int].ty =~= crate::lexer::toks_view(members@[i as int].ty@));
        }
        match resolve_ty(&members[i].ty) {
            Some(shape) => {
                proof {
                    assert(spec_resolve_ty(ms[i as int].ty) == Some(ty_view(shape)));
                }
                match shape {
                    TypeShape::Leaf(k) => {
                        ks.push(k);
                    },
                    _ => {
                        return None;
                    },
                }
            },
            None => {
                return None;
            },
        }
        i = i + 1;
    }
    proof {
        assert(ks@ =~= Seq::new(ms.len(), |i: int| spec_resolve_ty(ms[i].ty)->Some_0->LeafS_0));
    }
    Some(ks)
}

} // verus!

verus! {

/// Validates one field and builds its recipe: the selector must compile, the
/// capture regex (if any) must compile and agree with the declaration, and
/// the specifier-compatibility rules of the data model must hold.
pub fn build_field_plan(defs: &Vec<StructSpec>, f: &FieldSpec) -> (r: Result<
    FieldPlan,
    ProblemKind,
>)
    ensures
        r is Ok <==> field_ok(structs_view(defs@), f@),
        r is Ok ==> field_plan_matches(r->Ok_0, f@, structs_view(defs@)),
{
    let ghost dv = structs_view(defs@);
    let ghost fv = f@;
    let ext = match f {
        FieldSpec::Single { decl, extractor } => extractor,
        FieldSpec::Tuple { members, extractor } => extractor,
    };
    proof {
        assert(fv.ext() == ext@);
        assert(ext@.target.sel() == ext.target.spec_selector());
    }
    let sel_str = ext.target.selector();
    let cs = match compile_selector(sel_str.as_str()) {
        Ok(cs) => cs,
        Err(m) => {
            return Err(ProblemKind::BadSelector(m));
        },
    };
    let mut names: Vec<String> = Vec::new();
    match f {
        FieldSpec::Single { decl, extractor } => {
            names.push(decl.name.clone());
        },
        FieldSpec::Tuple { members, extractor } => {
            let ghost ms = members@.map_values(|d: SingleDecl| d@);
            let mut i: usize = 0;
            while i < members.len()
                invariant
                    0 <= i <= members@.len(),
                    ms == members@.map_values(|d: SingleDecl| d@),
                    names@.len() == i,
                    forall|a: int| 0 <= a < i ==> (#[trigger] names@[a])@ == ms[a].name,
                decreases members@.len() - i,
            {
                proof {
                    assert(ms[i as int] == members@[i as int]@);
                }
                names.push(members[i].name.clone());
                i = i + 1;
            }
        },
    }
    proof {
        assert(names_match(names@, fv));
    }
    let step: StepPlan = match &ext.capture {
        Some(p) => {
            let re = match compile_regex(p.as_str()) {
                Ok(re) => re,
                Err(m) => {
                    return Err(ProblemKind::BadRegex(m));
                },
            };
            let g = group_count(&re);
            let read = match read_of(&ext.target) {
                Some(rp) => rp,
                None => {
                    let is_elem = match &ext.target {
                        crate::ast::TargetSpec::Element { selector } => true,
                        _ => false,
                    };
                    if is_elem {
                        return Err(ProblemKind::ElementWithCapture);
                    } else {
                        return Err(ProblemKind::PresenceWithOther);
                    }
                },
            };
            let convert: CaptureConvert = match f {
                FieldSpec::Tuple { members, extractor } => {
                    if extractor.collector == CollectorMode::All {
                        return Err(ProblemKind::TupleWithCollect);
                    }
                    if !(members.len() == g - 1) {
                        return Err(ProblemKind::CaptureArityMismatch);
                    }
                    match &extractor.parser {
                        ParserRef::DefaultParser => match members_kinds(members) {
                            Some(ks) => CaptureConvert::KindConv(ks),
                            None => {
                                return Err(ProblemKind::BadType);
                            },
                        },
                        ParserRef::CustomParser(run) => {
                            proof {
                                assert(crate::lexer::toks_view(run@) =~= ext@.parser->CustomP_0);
                            }
                            match custom_name_exec(run) {
                                Some(nm) => CaptureConvert::CustomConv(nm),
                                None => {
                                    return Err(ProblemKind::CustomParserShape);
                                },
                            }
                        },
                    }
                },
                FieldSpec::Single { decl, extractor } => {
                    if !(extractor.collector == CollectorMode::All) {
                        return Err(ProblemKind::CaptureNeedsTuple);
                    }
                    proof {
                        assert(decl@.ty =~= crate::lexer::toks_view(decl.ty@));
                    }
                    match &extractor.parser {
                        ParserRef::DefaultParser => match list_tuple_kinds_exec(&decl.ty) {
                            Some(ks) => {
                                if !(ks.len() == g - 1) {
                                    return Err(ProblemKind::CaptureArityMismatch);
                                }
                                CaptureConvert::KindConv(ks)
                            },
                            None => {
                                return Err(ProblemKind::BadType);
                            },
                        },
                        ParserRef::CustomParser(run) => {
                            proof {
                                assert(crate::lexer::toks_view(run@) =~= ext@.parser->CustomP_0);
                            }
                            match custom_name_exec(run) {
                                Some(nm) => CaptureConvert::CustomConv(nm),
                                None => {
                                    return Err(ProblemKind::CustomParserShape);
                                },
                            }
                        },
                    }
                },
            };
            StepPlan::CaptureStep { read, regex: re, count: g - 1, convert }
        },
        None => {
            match f {
                FieldSpec::Tuple { members, extractor } => {
                    return Err(ProblemKind::TupleWithoutCapture);
                },
                FieldSpec::Single { decl, extractor } => {
                    proof {
                        assert(decl@.ty =~= crate::lexer::toks_view(decl.ty@));
                    }
                    match &extractor.target {
                        crate::ast::TargetSpec::PresenceOf { selector } => {
                            let col_first = extractor.collector == CollectorMode::First;
                            let parser_default = match &extractor.parser {
                                ParserRef::DefaultParser => true,
                                ParserRef::CustomParser(run) => false,
                            };
                            if !col_first || !parser_default {
                                return Err(ProblemKind::PresenceWithOther);
                            }
                            if !bool_ty_exec(&decl.ty) {
                                return Err(ProblemKind::BadType);
                            }
                            StepPlan::PresenceStep
                        },
                        crate::ast::TargetSpec::Element { selector } => {
                            match elem_target_exec(defs, f) {
                                Some(j) => StepPlan::ElemStep(j),
                                None => {
                                    return Err(ProblemKind::UnknownStructRef);
                                },
                            }
                        },
                        _ => {
                            let read = match read_of(&extractor.target) {
                                Some(rp) => rp,
                                None => {
                                    proof {
                                        assert(false);
                                    }
                                    return Err(ProblemKind::BadType);
                                },
                            };
                            match &extractor.parser {
                                ParserRef::DefaultParser => {
                                    match leaf_shape_exec(&decl.ty, extractor.collector) {
                                        Some(k) => StepPlan::PlainStep { read, kind: k },
                                        None => {
                                            return Err(ProblemKind::BadType);
                                        },
                                    }
                                },
                                ParserRef::CustomParser(run) => {
                                    proof {
                                        assert(crate::lexer::toks_view(run@)
                                            =~= ext@.parser->CustomP_0);
                                    }
                                    match custom_name_exec(run) {
                                        Some(nm) => StepPlan::CustomStep {
                                            read,
                                            parser_name: nm,
                                        },
                                        None => {
                                            return Err(ProblemKind::CustomParserShape);
                                        },
                                    }
                                },
                            }
                        },
                    }
                },
            }
        },
    };
    Ok(FieldPlan { names, selector: cs, collector: ext.collector, step })
}

} // verus!

verus! {

/// A plan built from a valid field is well-formed for the engine, given that
/// a nested reference points below the plan's own rank.
proof fn lemma_matches_gives_wf(
    fp: FieldPlan,
    f: SpecFieldSpec,
    dv: Seq<SpecStructSpec>,
    rank: nat,
    all: Seq<StructPlan>,
)
    requires
        field_ok(dv, f),
        field_plan_matches(fp, f, dv),
        fp.step matches StepPlan::ElemStep(j) ==> (j < all.len() && all[j as int].rank < rank),
    ensures
        field_plan_wf(fp, rank, all),
{
    let e = f.ext();
    match e.capture {
        Some(p) => {
            assert(regex_valid(p) && capture_rules(dv, f, regex_group_count(p)));
            match f {
                SpecFieldSpec::TupleF { members, extractor } => {
                    assert(fp.names@.len() == members.len());
                },
                SpecFieldSpec::SingleF { decl, extractor } => {},
            }
        },
        None => {},
    }
}

/// The first declared name of a field, for error messages.
fn field_name_of(f: &FieldSpec) -> (r: String) {
    match f {
        FieldSpec::Single { decl, extractor } => decl.name.clone(),
        FieldSpec::Tuple { members, extractor } => {
            if members.len() > 0 {
                members[0].name.clone()
            } else {
                String::new()
            }
        },
    }
}

/// The static validator and plan builder: checks every definition and
/// compiles the whole specification into executable plans. Succeeds exactly
/// when the structure names are unique, every field passes the validator,
/// and the nested-structure references are free of cycles.
pub fn build_spec(defs: &Vec<StructSpec>) -> (r: Result<CompiledSpec, ValidateError>)
    ensures
        r is Ok <==> spec_build_ok(structs_view(defs@)),
        r is Ok ==> spec_wf(r->Ok_0) && plans_match(r->Ok_0, structs_view(defs@)),
{
    let ghost dv = structs_view(defs@);
    let n = defs.len();
    match check_no_dup(defs) {
        Ok(()) => {},
        Err(e) => {
            return Err(e);
        },
    }
    let ranks = match compute_ranks(defs) {
        Ok(rks) => rks,
        Err(e) => {
            return Err(e);
        },
    };
    let mut plans: Vec<StructPlan> = Vec::new();
    let mut i: usize = 0;
    while i < n
        invariant
            0 <= i <= n,
            n == defs@.len(),
            dv == structs_view(defs@),
            ranks@.len() == n,
            ranks_strict(dv, ranks@),
            plans@.len() == i,
            forall|a: int| 0 <= a < i ==> struct_names_unique(#[trigger] dv[a]),
            forall|a: int|
                0 <= a < i ==> {
                    let p = #[trigger] plans@[a];
                    &&& p.name@ == dv[a].name
                    &&& p.rank == ranks@[a]
                    &&& p.fields@.len() == dv[a].fields.len()
                    &&& forall|k: int|
                        0 <= k < p.fields@.len() ==> field_plan_matches(
                            #[trigger] p.fields@[k],
                            dv[a].fields[k],
                            dv,
                        )
                    &&& forall|k: int|
                        0 <= k < dv[a].fields.len() ==> field_ok(dv, #[trigger] dv[a].fields[k])
                },
        decreases n - i,
    {
        proof {
            assert(dv[i as int] == defs@[i as int]@);
        }
        let d = &defs[i];
        let nf = d.fields.len();
        let mut fps: Vec<FieldPlan> = Vec::new();
        let mut k: usize = 0;
        while k < nf
            invariant
                0 <= k <= nf,
                i < n,
                n == defs@.len(),
                dv == structs_view(defs@),
                dv[i as int] == defs@[i as int]@,
                d == &defs[i as int],
                nf == dv[i as int].fields.len(),
                fps@.len() == k,
                forall|b: int|
                    0 <= b < k ==> field_plan_matches(
                        #[trigger] fps@[b],
                        dv[i as int].fields[b],
                        dv,
                    ),
                forall|b: int| 0 <= b < k ==> field_ok(dv, #[trigger] dv[i as int].fields[b]),
            decreases nf - k,
        {
            proof {
                assert(dv[i as int].fields[k as int] == defs[i as int].fields@[k as int]@);
            }
            match build_field_plan(defs, &d.fields[k]) {
                Ok(fp) => {
                    fps.push(fp);
                },
                Err(pk) => {
                    proof {
                        if spec_build_ok(dv) {
                            assert(struct_fields_ok(dv, dv[i as int]));
                            assert(field_ok(dv, dv[i as int].fields[k as int]));
                        }
                    }
                    return Err(
                        ValidateError {
                            structure: d.name.clone(),
                            field: field_name_of(&d.fields[k]),
                            problem: pk,
                        },
                    );
                },
            }
            k = k + 1;
        }
        proof {
            assert forall|b: int| 0 <= b < fps@.len() implies names_match(
                (#[trigger] fps@[b]).names@,
                dv[i as int].fields[b],
            ) by {
                assert(field_plan_matches(fps@[b], dv[i as int].fields[b], dv));
            }
            lemma_plan_names_bridge(fps@, dv[i as int]);
        }
        if !slot_names_unique_exec(&fps) {
            proof {
                if spec_build_ok(dv) {
                    assert(struct_names_unique(dv[i as int]));
                }
            }
            return Err(
                ValidateError {
                    structure: d.name.clone(),
                    field: String::new(),
                    problem: ProblemKind::DuplicateFieldName,
                },
            );
        }
        let rank_i = ranks[i];
        plans.push(StructPlan { name: d.name.clone(), rank: rank_i, fields: fps });
        i = i + 1;
    }
    let cs = CompiledSpec { plans };
    proof {
        assert forall|a: int| 0 <= a < dv.len() implies struct_fields_ok(dv, #[trigger] dv[a]) by {
            assert(cs.plans@[a].name@ == dv[a].name);
        }
        assert(plans_match(cs, dv));
        assert forall|a: int|
            0 <= a < cs.plans@.len() implies struct_plan_wf(#[trigger] cs.plans@[a], cs.plans@) by {
            let p = cs.plans@[a];
            assert forall|k: int|
                0 <= k < p.fields@.len() implies field_plan_wf(
                #[trigger] p.fields@[k],
                p.rank as nat,
                cs.plans@,
            ) by {
                let fp = p.fields@[k];
                assert(field_plan_matches(fp, dv[a].fields[k], dv));
                assert(field_ok(dv, dv[a].fields[k]));
                match fp.step {
                    StepPlan::ElemStep(j) => {
                        assert(Some(j as int) == elem_target_of(dv, dv[a].fields[k]));
                        assert(ranks@[j as int] < ranks@[a]);
                        assert(cs.plans@[j as int].rank == ranks@[j as int]);
                        lemma_matches_gives_wf(fp, dv[a].fields[k], dv, p.rank as nat, cs.plans@);
                    },
                    _ => {
                        lemma_matches_gives_wf(fp, dv[a].fields[k], dv, p.rank as nat, cs.plans@);
                    },
                }
            }
        }
    }
    Ok(cs)
}

} // verus!

// ---------------------------------------------------------------------------
// Laws of the validator
// ---------------------------------------------------------------------------

verus! {

/// Law: in a field that passes the validator with a capture regex set and a
/// collector other than `All`, the field is a tuple field whose member count
/// is one less than the regex's capture-group count.
pub proof fn lemma_capture_without_collect_needs_tuple(
    defs: Seq<SpecStructSpec>,
    f: SpecFieldSpec,
)
    requires
        field_ok(defs, f),
        f.ext().capture is Some,
        f.ext().collector != CollectorMode::All,
    ensures
        f matches SpecFieldSpec::TupleF { members, extractor } && members.len()
            == regex_group_count(f.ext().capture->0) - 1,
{
}

/// Law: a specification holding a field whose capture regex is set without
/// `collect` and which is not a tuple field of matching member count is
/// rejected before any extraction runs.
pub proof fn lemma_capture_arity_rejected(defs: Seq<SpecStructSpec>, i: int, k: int)
    requires
        0 <= i < defs.len(),
        0 <= k < defs[i].fields.len(),
        defs[i].fields[k].ext().capture is Some,
        defs[i].fields[k].ext().collector != CollectorMode::All,
        !(defs[i].fields[k] matches SpecFieldSpec::TupleF { members, extractor } && members.len()
            == regex_group_count(defs[i].fields[k].ext().capture->0) - 1),
    ensures
        !spec_build_ok(defs),
{
    if spec_build_ok(defs) {
        assert(struct_fields_ok(defs, defs[i]));
        assert(field_ok(defs, defs[i].fields[k]));
        lemma_capture_without_collect_needs_tuple(defs, defs[i].fields[k]);
    }
}

/// Law: a presence target combined with any other specifier — a capture
/// regex, a collector other than the default, or a custom parser — is
/// rejected at validation time, whatever order the clauses were written in
/// (the clause parser folds them into one extractor, later clauses
/// overwriting earlier ones, so only the folded result matters).
pub proof fn lemma_presence_exclusive(defs: Seq<SpecStructSpec>, i: int, k: int)
    requires
        0 <= i < defs.len(),
        0 <= k < defs[i].fields.len(),
        defs[i].fields[k].ext().target is PresenceOfT,
        defs[i].fields[k].ext().capture is Some || defs[i].fields[k].ext().collector
            != CollectorMode::First || defs[i].fields[k].ext().parser is CustomP,
    ensures
        !spec_build_ok(defs),
{
    if spec_build_ok(defs) {
        assert(struct_fields_ok(defs, defs[i]));
        assert(field_ok(defs, defs[i].fields[k]));
    }
}

} // verus!

verus! {

/// The text describing one validation problem.
pub open spec fn problem_text(p: ProblemKind) -> Seq<char> {
    match p {
        ProblemKind::BadSelector(d) => "cannot parse the selector: "@ + d@,
        ProblemKind::BadRegex(d) => "cannot parse the regex: "@ + d@,
        ProblemKind::ElementWithCapture => "`elem of ..` and `capture with ..` cannot be used for the same field"@,
        ProblemKind::PresenceWithOther => "`presence of ..` cannot be used with any other specifier"@,
        ProblemKind::TupleWithoutCapture => "parsing to tuple fields requires capturing with regex"@,
        ProblemKind::TupleWithCollect => "a tuple field cannot collect into a container"@,
        ProblemKind::CaptureNeedsTuple => "capturing without `collect` requires a tuple field"@,
        ProblemKind::CaptureArityMismatch => "the tuple member count must be one less than the capture-group count"@,
        ProblemKind::BadType => "the declared type does not fit the target and collector"@,
        ProblemKind::UnknownStructRef => "the element target names no structure of the specification"@,
        ProblemKind::DuplicateStructName => "two structure definitions share this name"@,
        ProblemKind::DuplicateFieldName => "two fields of this structure share a name"@,
        ProblemKind::CyclicReference => "element targets form a reference cycle"@,
        ProblemKind::CustomParserShape => "a custom parser must be named by a single identifier"@,
    }
}

/// The text of a whole validation error, naming the offending structure and
/// field.
pub open spec fn validate_error_text(e: ValidateError) -> Seq<char> {
    "in struct `"@ + e.structure@ + "`, field `"@ + e.field@ + "`: "@ + problem_text(e.problem)
}

impl ValidateError {
    /// The text of the error, naming the offending structure and field.
    pub fn message(&self) -> (r: String)
        ensures
            r@ == validate_error_text(*self),
    {
        let mut m = String::from_str("in struct `");
        m.append(self.structure.as_str());
        m.append("`, field `");
        m.append(self.field.as_str());
        m.append("`: ");
        match &self.problem {
            ProblemKind::BadSelector(d) => {
                m.append("cannot parse the selector: ");
                m.append(d.as_str());
            },
            ProblemKind::BadRegex(d) => {
                m.append("cannot parse the regex: ");
                m.append(d.as_str());
            },
            ProblemKind::ElementWithCapture => {
                m.append("`elem of ..` and `capture with ..` cannot be used for the same field");
            },
            ProblemKind::PresenceWithOther => {
                m.append("`presence of ..` cannot be used with any other specifier");
            },
            ProblemKind::TupleWithoutCapture => {
                m.append("parsing to tuple fields requires capturing with regex");
            },
            ProblemKind::TupleWithCollect => {
                m.append("a tuple field cannot collect into a container");
            },
            ProblemKind::CaptureNeedsTuple => {
                m.append("capturing without `collect` requires a tuple field");
            },
            ProblemKind::CaptureArityMismatch => {
                m.append("the tuple member count must be one less than the capture-group count");
            },
            ProblemKind::BadType => {
                m.append("the declared type does not fit the target and collector");
            },
            ProblemKind::UnknownStructRef => {
                m.append("the element target names no structure of the specification");
            },
            ProblemKind::DuplicateStructName => {
                m.append("two structure definitions share this name");
            },
            ProblemKind::DuplicateFieldName => {
                m.append("two fields of this structure share a name");
            },
            ProblemKind::CyclicReference => {
                m.append("element targets form a reference cycle");
            },
            ProblemKind::CustomParserShape => {
                m.append("a custom parser must be named by a single identifier");
            },
        }
        m
    }
}

} // verus!

verus! {

/// Whether the slot names of these field plans are pairwise distinct.
fn slot_names_unique_exec(fps: &Vec<FieldPlan>) -> (r: bool)
    ensures
        r == plan_names_unique(fps@),
{
    let nf = fps.len();
    let mut k1: usize = 0;
    while k1 < nf
        invariant
            0 <= k1 <= nf,
            nf == fps@.len(),
            forall|a1: int, b1: int, a2: int, b2: int|
                0 <= a1 < k1 && 0 <= b1 < fps@[a1].names@.len() && 0 <= a2 < fps@.len() && 0 <= b2
                    < fps@[a2].names@.len() && !(a1 == a2 && b1 == b2)
                    ==> #[trigger] plan_slot_name(fps@, a1, b1) != #[trigger] plan_slot_name(
                    fps@,
                    a2,
                    b2,
                ),
        decreases nf - k1,
    {
        let ns1 = fps[k1].names.len();
        let mut s1: usize = 0;
        while s1 < ns1
            invariant
                0 <= k1 < nf,
                0 <= s1 <= ns1,
                nf == fps@.len(),
                ns1 == fps@[k1 as int].names@.len(),
                forall|a1: int, b1: int, a2: int, b2: int|
                    0 <= a1 < k1 && 0 <= b1 < fps@[a1].names@.len() && 0 <= a2 < fps@.len() && 0
                        <= b2 < fps@[a2].names@.len() && !(a1 == a2 && b1 == b2)
                        ==> #[trigger] plan_slot_name(fps@, a1, b1) != #[trigger] plan_slot_name(
                        fps@,
                        a2,
                        b2,
                    ),
                forall|b1: int, a2: int, b2: int|
                    0 <= b1 < s1 && 0 <= a2 < fps@.len() && 0 <= b2 < fps@[a2].names@.len() && !(
                    k1 == a2 && b1 == b2) ==> #[trigger] plan_slot_name(fps@, k1 as int, b1)
                        != #[trigger] plan_slot_name(fps@, a2, b2),
            decreases ns1 - s1,
        {
            let mut k2: usize = 0;
            while k2 < nf
                invariant
                    0 <= k1 < nf,
                    0 <= s1 < ns1,
                    0 <= k2 <= nf,
                    nf == fps@.len(),
                    ns1 == fps@[k1 as int].names@.len(),
                    forall|a2: int, b2: int|
                        0 <= a2 < k2 && 0 <= b2 < fps@[a2].names@.len() && !(k1 == a2 && s1 == b2)
                            ==> #[trigger] plan_slot_name(fps@, k1 as int, s1 as int)
                            != plan_slot_name(fps@, a2, b2),
                decreases nf - k2,
            {
                let ns2 = fps[k2].names.len();
                let mut s2: usize = 0;
                while s2 < ns2
                    invariant
                        0 <= k1 < nf,
                        0 <= s1 < ns1,
                        0 <= k2 < nf,
                        0 <= s2 <= ns2,
                        nf == fps@.len(),
                        ns1 == fps@[k1 as int].names@.len(),
                        ns2 == fps@[k2 as int].names@.len(),
                        forall|b2: int|
                            0 <= b2 < s2 && !(k1 == k2 && s1 == b2) ==> #[trigger] plan_slot_name(
                                fps@,
                                k1 as int,
                                s1 as int,
                            ) != plan_slot_name(fps@, k2 as int, b2),
                    decreases ns2 - s2,
                {
                    if !(k1 == k2 && s1 == s2) {
                        if str_eq(fps[k1].names[s1].as_str(), fps[k2].names[s2].as_str()) {
                            proof {
                                assert(plan_slot_name(fps@, k1 as int, s1 as int)
                                    == plan_slot_name(fps@, k2 as int, s2 as int));
                            }
                            return false;
                        }
                    }
                    s2 = s2 + 1;
                }
                k2 = k2 + 1;
            }
            s1 = s1 + 1;
        }
        k1 = k1 + 1;
    }
    true
}

/// Field plans whose slot names mirror the declarations have pairwise
/// distinct names exactly when the declarations do.
proof fn lemma_plan_names_bridge(fps: Seq<FieldPlan>, d: SpecStructSpec)
    requires
        fps.len() == d.fields.len(),
        forall|k: int| 0 <= k < fps.len() ==> names_match((#[trigger] fps[k]).names@, d.fields[k]),
    ensures
        plan_names_unique(fps) == struct_names_unique(d),
{
    assert forall|k: int, s: int|
        0 <= k < fps.len() && 0 <= s < fps[k].names@.len() implies #[trigger] plan_slot_name(
        fps,
        k,
        s,
    ) == field_slot_name(d.fields[k], s) && fps[k].names@.len() == field_slot_len(
        d.fields[k],
    ) by {
        assert(names_match(fps[k].names@, d.fields[k]));
        match d.fields[k] {
            SpecFieldSpec::SingleF { decl, extractor } => {},
            SpecFieldSpec::TupleF { members, extractor } => {
                assert((fps[k].names@[s])@ == members[s].name);
            },
        }
    }
    assert forall|k: int|
        0 <= k < fps.len() implies (#[trigger] fps[k]).names@.len() == field_slot_len(
        d.fields[k],
    ) by {
        assert(names_match(fps[k].names@, d.fields[k]));
    }
    if plan_names_unique(fps) {
        assert forall|k1: int, s1: int, k2: int, s2: int|
            0 <= k1 < d.fields.len() && 0 <= s1 < field_slot_len(d.fields[k1]) && 0 <= k2
                < d.fields.len() && 0 <= s2 < field_slot_len(d.fields[k2]) && !(k1 == k2 && s1
                == s2) implies #[trigger] field_slot_name(d.fields[k1], s1)
            != #[trigger] field_slot_name(d.fields[k2], s2) by {
            assert(plan_slot_name(fps, k1, s1) != plan_slot_name(fps, k2, s2));
        }
    }
    if struct_names_unique(d) {
        assert forall|k1: int, s1: int, k2: int, s2: int|
            0 <= k1 < fps.len() && 0 <= s1 < fps[k1].names@.len() && 0 <= k2 < fps.len() && 0 <= s2
                < fps[k2].names@.len() && !(k1 == k2 && s1 == s2) implies #[trigger] plan_slot_name(
            fps,
            k1,
            s1,
        ) != #[trigger] plan_slot_name(fps, k2, s2) by {
            assert(field_slot_name(d.fields[k1], s1) != field_slot_name(d.fields[k2], s2));
        }
    }
}

} // verus!
