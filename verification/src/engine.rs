//! The extraction engine: runs a compiled plan against a live HTML element.
//!
//! Per field: select candidates, dispatch on the collector, read the raw
//! facet of each chosen candidate, and parse it into a typed value —
//! recursing into the referenced plan for nested-structure targets. The
//! first failing field aborts the enclosing structure's extraction.

use vstd::prelude::*;
use vstd::string::*;

use crate::ast::CollectorMode;
use crate::error::{invalid_input, Error};
use crate::outside::{attr_of, captures_of, inner_html_of, select_within, text_node_of};
use crate::plan::{
    field_plan_wf, spec_wf, struct_plan_wf, CaptureConvert, CompiledSpec, FieldPlan, ReadPlan,
    StepPlan,
};
use crate::strutil::{dec_of, parse_i64, parse_i64_of, parse_u64, parse_u64_of, str_eq, trim,
    trim_of, u64_to_dec};
use crate::types::LeafKind;
use crate::value::{StructValue, Value};

verus! {

// ---------------------------------------------------------------------------
// The runtime error messages, mathematically and executably
// ---------------------------------------------------------------------------

/// The context prefix every runtime failure message carries: the failing
/// field and its enclosing structure.
pub open spec fn ctx_msg(st: Seq<char>, fld: Seq<char>) -> Seq<char> {
    "extracting the data of field `"@ + fld + "` in struct `"@ + st + "`, "@
}

/// No element matched the field's selector.
pub open spec fn no_elem_msg(st: Seq<char>, fld: Seq<char>) -> Seq<char> {
    ctx_msg(st, fld) + "no element matched the selector"@
}

/// The named attribute is missing from the matched element.
pub open spec fn attr_missing_msg(st: Seq<char>, fld: Seq<char>, attr: Seq<char>) -> Seq<char> {
    ctx_msg(st, fld) + "attribute `"@ + attr + "` is not found"@
}

/// The element has no text node at the wanted index.
pub open spec fn text_missing_msg(st: Seq<char>, fld: Seq<char>, nth: u64) -> Seq<char> {
    ctx_msg(st, fld) + dec_of(nth as nat) + "th text node is not found"@
}

/// The capture regex matched nothing in the raw string.
pub open spec fn nothing_captured_msg(st: Seq<char>, fld: Seq<char>) -> Seq<char> {
    ctx_msg(st, fld) + "nothing is captured with regex"@
}

/// Converting one capture group failed; `idx` is the group's position.
pub open spec fn group_parse_msg(st: Seq<char>, fld: Seq<char>, idx: u64, cause: Seq<char>)
    -> Seq<char> {
    ctx_msg(st, fld) + "cannot parse for the "@ + dec_of(idx as nat) + "th field: "@ + cause
}

/// Converting the whole raw string failed.
pub open spec fn plain_parse_msg(st: Seq<char>, fld: Seq<char>, data: Seq<char>, cause: Seq<char>)
    -> Seq<char> {
    ctx_msg(st, fld) + "cannot parse `"@ + data + "`: "@ + cause
}

/// A nested structure's failure, wrapped with the outer field's context.
pub open spec fn nested_msg(st: Seq<char>, fld: Seq<char>, inner: Seq<char>) -> Seq<char> {
    ctx_msg(st, fld) + inner
}

fn build_ctx(st: &str, fld: &str) -> (r: String)
    ensures
        r@ == ctx_msg(st@, fld@),
{
    let mut r = String::from_str("extracting the data of field `");
    r.append(fld);
    r.append("` in struct `");
    r.append(st);
    r.append("`, ");
    r
}

fn build_no_elem(st: &str, fld: &str) -> (r: Error)
    ensures
        r.msg() == no_elem_msg(st@, fld@),
{
    let mut m = build_ctx(st, fld);
    m.append("no element matched the selector");
    invalid_input(m)
}

fn build_attr_missing(st: &str, fld: &str, attr: &str) -> (r: Error)
    ensures
        r.msg() == attr_missing_msg(st@, fld@, attr@),
{
    let mut m = build_ctx(st, fld);
    m.append("attribute `");
    m.append(attr);
    m.append("` is not found");
    invalid_input(m)
}

fn build_text_missing(st: &str, fld: &str, nth: u64) -> (r: Error)
    ensures
        r.msg() == text_missing_msg(st@, fld@, nth),
{
    let mut m = build_ctx(st, fld);
    let d = u64_to_dec(nth);
    m.append(d.as_str());
    m.append("th text node is not found");
    invalid_input(m)
}

fn build_nothing_captured(st: &str, fld: &str) -> (r: Error)
    ensures
        r.msg() == nothing_captured_msg(st@, fld@),
{
    let mut m = build_ctx(st, fld);
    m.append("nothing is captured with regex");
    invalid_input(m)
}

fn build_group_parse(st: &str, fld: &str, idx: u64, cause: &str) -> (r: Error)
    ensures
        r.msg() == group_parse_msg(st@, fld@, idx, cause@),
{
    let mut m = build_ctx(st, fld);
    m.append("cannot parse for the ");
    let d = u64_to_dec(idx);
    m.append(d.as_str());
    m.append("th field: ");
    m.append(cause);
    invalid_input(m)
}

fn build_plain_parse(st: &str, fld: &str, data: &str, cause: &str) -> (r: Error)
    ensures
        r.msg() == plain_parse_msg(st@, fld@, data@, cause@),
{
    let mut m = build_ctx(st, fld);
    m.append("cannot parse `");
    m.append(data);
    m.append("`: ");
    m.append(cause);
    invalid_input(m)
}

fn build_nested(st: &str, fld: &str, inner: Error) -> (r: Error)
    ensures
        r.msg() == nested_msg(st@, fld@, inner.msg()),
{
    let mut m = build_ctx(st, fld);
    m.append(inner.message().as_str());
    invalid_input(m)
}

// ---------------------------------------------------------------------------
// Leaf conversion: the ambient string-to-value conversions
// ---------------------------------------------------------------------------

/// Whether the ambient conversion for `kind` accepts the raw string: a
/// decimal that fits the declared type's own bounds, `true`/`false`, or any
/// text.
pub open spec fn leaf_ok(kind: LeafKind, raw: Seq<char>) -> bool {
    match kind {
        LeafKind::UintLeaf { max } => parse_u64_of(raw) matches Some(v) && v <= max,
        LeafKind::IntLeaf { min, max } => parse_i64_of(raw) matches Some(v) && min <= v && v
            <= max,
        LeafKind::BoolLeaf => raw == "true"@ || raw == "false"@,
        LeafKind::TextLeaf => true,
    }
}

/// Whether `v` is the value the ambient conversion for `kind` gives `raw`.
pub open spec fn is_leaf_value(kind: LeafKind, raw: Seq<char>, v: Value) -> bool {
    match kind {
        LeafKind::UintLeaf { max } => v == Value::UintVal(parse_u64_of(raw)->0),
        LeafKind::IntLeaf { min, max } => v == Value::IntVal(parse_i64_of(raw)->0),
        LeafKind::BoolLeaf => v == Value::BoolVal(raw == "true"@),
        LeafKind::TextLeaf => v matches Value::StrVal(s) && s@ == raw,
    }
}

/// The cause text when the ambient conversion for `kind` rejects a string:
/// for the integer kinds it covers both a malformed decimal and a value out
/// of the declared type's range.
pub open spec fn leaf_cause(kind: LeafKind) -> Seq<char> {
    match kind {
        LeafKind::UintLeaf { max } => "not an unsigned integer"@,
        LeafKind::IntLeaf { min, max } => "not an integer"@,
        LeafKind::BoolLeaf => "not a boolean"@,
        LeafKind::TextLeaf => ""@,
    }
}

/// Applies the ambient conversion for `kind` to the raw string: decimal
/// within the declared type's bounds for the integer kinds, `true`/`false`
/// for the boolean kind, the text itself for the text kind.
pub fn parse_leaf(kind: LeafKind, raw: &str) -> (r: Result<Value, &'static str>)
    ensures
        r is Ok <==> leaf_ok(kind, raw@),
        r matches Ok(v) ==> is_leaf_value(kind, raw@, v),
        r matches Err(c) ==> c@ == leaf_cause(kind),
{
    match kind {
        LeafKind::UintLeaf { max } => match parse_u64(raw) {
            Some(v) => if v <= max {
                Ok(Value::UintVal(v))
            } else {
                Err("not an unsigned integer")
            },
            None => Err("not an unsigned integer"),
        },
        LeafKind::IntLeaf { min, max } => match parse_i64(raw) {
            Some(v) => if min <= v && v <= max {
                Ok(Value::IntVal(v))
            } else {
                Err("not an integer")
            },
            None => Err("not an integer"),
        },
        LeafKind::BoolLeaf => {
            if str_eq(raw, "true") {
                Ok(Value::BoolVal(true))
            } else if str_eq(raw, "false") {
                Ok(Value::BoolVal(false))
            } else {
                Err("not a boolean")
            }
        },
        LeafKind::TextLeaf => Ok(Value::StrVal(raw.to_owned())),
    }
}

// ---------------------------------------------------------------------------
// The pure steps of the engine, with exact contracts
// ---------------------------------------------------------------------------

/// Turns the result of an attribute read into the raw string, or the exact
/// missing-attribute failure. Attribute values are not trimmed.
pub fn attr_result_to_raw(got: Option<String>, st: &str, fld: &str, attr: &str) -> (r: Result<
    String,
    Error,
>)
    ensures
        got matches Some(s) ==> (r matches Ok(o) && o@ == s@),
        got is None ==> (r matches Err(e) && e.msg() == attr_missing_msg(st@, fld@, attr@)),
{
    match got {
        Some(s) => Ok(s),
        None => Err(build_attr_missing(st, fld, attr)),
    }
}

/// Turns the result of a text-node read into the raw string with leading and
/// trailing whitespace removed, or the exact missing-text-node failure.
pub fn text_result_to_raw(got: Option<String>, st: &str, fld: &str, nth: u64) -> (r: Result<
    String,
    Error,
>)
    ensures
        got matches Some(s) ==> (r matches Ok(o) && o@ == trim_of(s@)),
        got is None ==> (r matches Err(e) && e.msg() == text_missing_msg(st@, fld@, nth)),
{
    match got {
        Some(s) => Ok(trim(s.as_str())),
        None => Err(build_text_missing(st, fld, nth)),
    }
}

/// Turns the result of an inner-markup read into the raw string with leading
/// and trailing whitespace removed. Reading the inner markup never fails.
pub fn inner_result_to_raw(got: String) -> (r: String)
    ensures
        r@ == trim_of(got@),
{
    trim(got.as_str())
}

/// Wraps the outcome of a nested structure's extraction for the outer field:
/// the delegate's value is passed through unchanged; the delegate's failure
/// is surfaced wrapped with the outer field's context.
pub fn wrap_nested_outcome(st: &str, fld: &str, inner: Result<StructValue, Error>) -> (r: Result<
    Value,
    Error,
>)
    ensures
        inner matches Ok(sv) ==> r == Ok::<Value, Error>(Value::StructVal(sv)),
        inner matches Err(e) ==> (r matches Err(e2) && e2.msg() == nested_msg(
            st@,
            fld@,
            e.msg(),
        )),
{
    match inner {
        Ok(sv) => Ok(Value::StructVal(sv)),
        Err(e) => Err(build_nested(st, fld, e)),
    }
}

} // verus!

// ---------------------------------------------------------------------------
// Caller-supplied parsers
// ---------------------------------------------------------------------------

verus! {

/// Caller-supplied string-to-value parsers, looked up by the name written in
/// a `parse with` clause. The error is the cause text that ends up in the
/// failure message.
pub trait ParseOverride {
    fn run_parser(&self, name: &str, raw: &str) -> Result<Value, String>;
}

/// The empty registry: every custom-parser name is unknown.
pub struct NoOverrides;

impl ParseOverride for NoOverrides {
    fn run_parser(&self, name: &str, raw: &str) -> Result<Value, String> {
        Err(String::from_str("unknown parser"))
    }
}

// ---------------------------------------------------------------------------
// Capture conversion
// ---------------------------------------------------------------------------

/// Whether group `i` (after group 0) is present and convertible.
pub open spec fn group_ok(g: Seq<Option<String>>, ks: Seq<LeafKind>, i: int) -> bool {
    g[i + 1] matches Some(s) && leaf_ok(ks[i], s@)
}

/// The first group (after group 0) that is absent or unconvertible, or
/// `count` when none is.
pub open spec fn first_bad_group(
    g: Seq<Option<String>>,
    ks: Seq<LeafKind>,
    count: int,
    i: int,
) -> int
    decreases count - i when 0 <= i <= count
{
    if i >= count {
        count
    } else if !group_ok(g, ks, i) {
        i
    } else {
        first_bad_group(g, ks, count, i + 1)
    }
}

/// Whether group `a` (after group 0) is present and `vs[a]` is its converted
/// value.
pub open spec fn group_val_ok(
    g: Seq<Option<String>>,
    ks: Seq<LeafKind>,
    vs: Seq<Value>,
    a: int,
) -> bool {
    g[a + 1] is Some && is_leaf_value(ks[a], (g[a + 1]->0)@, vs[a])
}

/// The first group (after group 0) that is absent from the match, or `count`
/// when all are present.
pub open spec fn first_absent(g: Seq<Option<String>>, count: int, i: int) -> int
    decreases count - i when 0 <= i <= count
{
    if i >= count {
        count
    } else if g[i + 1] is None {
        i
    } else {
        first_absent(g, count, i + 1)
    }
}

proof fn lemma_first_absent_all(g: Seq<Option<String>>, count: int, i: int)
    requires
        0 <= i <= count,
        first_absent(g, count, i) == count,
    ensures
        forall|a: int| i <= a < count ==> (#[trigger] g[a + 1]) is Some,
    decreases count - i,
{
    if i < count {
        lemma_first_absent_all(g, count, i + 1);
    }
}

/// The cause text for a bad group: absent from the match, or rejected by the
/// ambient conversion.
pub open spec fn bad_group_cause(g: Seq<Option<String>>, ks: Seq<LeafKind>, i: int) -> Seq<char> {
    if g[i + 1] is None {
        "the group took no part in the match"@
    } else {
        leaf_cause(ks[i])
    }
}

/// Turns a capture outcome into the tuple's component values. A regex that
/// matched nothing gives the exact nothing-captured failure; otherwise each
/// group after group 0 is converted in order — by the ambient conversion for
/// its declared leaf kind, or by the named caller-supplied parser — and the
/// first absent or unconvertible group gives the exact per-group failure.
/// Under a caller-supplied parser, the groups are first all checked for
/// presence, so an absent group gives its exact failure before any parser
/// runs, and a success means every group took part in the match.
pub fn captures_to_tuple<P: ParseOverride>(
    caps: Option<Vec<Option<String>>>,
    convert: &CaptureConvert,
    count: usize,
    st: &str,
    fld: &str,
    reg: &P,
) -> (r: Result<Vec<Value>, Error>)
    requires
        caps matches Some(g) ==> g@.len() == count + 1,
        convert matches CaptureConvert::KindConv(ks) ==> ks@.len() == count,
    ensures
        caps is None ==> (r matches Err(e) && e.msg() == nothing_captured_msg(st@, fld@)),
        r matches Ok(vs) ==> vs@.len() == count,
        ({
            match (&caps, convert) {
                (Some(g), CaptureConvert::KindConv(ks)) => {
                    &&& (r is Ok <==> first_bad_group(g@, ks@, count as int, 0) == count)
                    &&& (r matches Ok(vs) ==> (forall|a: int|
                        0 <= a < count ==> #[trigger] group_val_ok(g@, ks@, vs@, a)))
                    &&& (r matches Err(e) ==> ({
                        let b = first_bad_group(g@, ks@, count as int, 0);
                        b < count && e.msg() == group_parse_msg(
                            st@,
                            fld@,
                            (b + 1) as u64,
                            bad_group_cause(g@, ks@, b),
                        )
                    }))
                },
                (Some(g), CaptureConvert::CustomConv(nm)) => {
                    &&& (first_absent(g@, count as int, 0) < count ==> (r matches Err(e)
                        && e.msg() == group_parse_msg(
                        st@,
                        fld@,
                        (first_absent(g@, count as int, 0) + 1) as u64,
                        "the group took no part in the match"@,
                    )))
                    &&& (r is Ok ==> first_absent(g@, count as int, 0) == count)
                },
                _ => true,
            }
        }),
{
    let groups = match &caps {
        Some(g) => g,
        None => {
            return Err(build_nothing_captured(st, fld));
        },
    };
    // under a caller-supplied parser, check first that every group took part
    let is_custom = match convert {
        CaptureConvert::CustomConv(nm) => true,
        _ => false,
    };
    if is_custom {
        let mut b: usize = 0;
        while b < count
            invariant
                0 <= b <= count,
                caps matches Some(g) && g == groups,
                groups@.len() == count + 1,
                convert matches CaptureConvert::CustomConv(nm),
                first_absent(groups@, count as int, 0) == first_absent(
                    groups@,
                    count as int,
                    b as int,
                ),
            decreases count - b,
        {
            let missing = match &groups[b + 1] {
                Some(s) => false,
                None => true,
            };
            if missing {
                proof {
                    assert(first_absent(groups@, count as int, b as int) == b as int);
                }
                let cause = "the group took no part in the match";
                return Err(build_group_parse(st, fld, (b + 1) as u64, cause));
            }
            b = b + 1;
        }
    }
    let mut vs: Vec<Value> = Vec::new();
    let mut i: usize = 0;
    while i < count
        invariant
            0 <= i <= count,
            caps matches Some(g) && g == groups,
            groups@.len() == count + 1,
            vs@.len() == i,
            convert matches CaptureConvert::CustomConv(nm) ==> first_absent(
                groups@,
                count as int,
                0,
            ) == count,
            convert matches CaptureConvert::KindConv(ks) ==> ks@.len() == count,
            convert matches CaptureConvert::KindConv(ks) ==> (first_bad_group(
                groups@,
                ks@,
                count as int,
                0,
            ) == first_bad_group(groups@, ks@, count as int, i as int) && (forall|a: int|
                0 <= a < i ==> #[trigger] group_val_ok(groups@, ks@, vs@, a))),
        decreases count - i,
    {
        let got: Option<&String> = match &groups[i + 1] {
            Some(s) => Some(s),
            None => None,
        };
        match got {
            Some(s) => {
                match convert {
                    CaptureConvert::KindConv(ks) => {
                        match parse_leaf(ks[i], s.as_str()) {
                            Ok(v) => {
                                let ghost vs0 = vs@;
                                let ghost vnew = v;
                                vs.push(v);
                                proof {
                                    assert(groups@[i + 1] == Some(*s));
                                    assert(group_ok(groups@, ks@, i as int));
                                    assert(first_bad_group(groups@, ks@, count as int, i as int)
                                        == first_bad_group(
                                        groups@,
                                        ks@,
                                        count as int,
                                        i as int + 1,
                                    ));
                                    assert(vs@ == vs0.push(vnew));
                                    assert forall|a: int|
                                        0 <= a < i + 1 implies #[trigger] group_val_ok(
                                        groups@,
                                        ks@,
                                        vs@,
                                        a,
                                    ) by {
                                        if a < i {
                                            assert(vs@[a] == vs0[a]);
                                            assert(group_val_ok(groups@, ks@, vs0, a));
                                        } else {
                                            assert(vs@[a] == vnew);
                                            assert(groups@[a + 1] == Some(*s));
                                            assert(is_leaf_value(ks@[a], (*s)@, vnew));
                                        }
                                    }
                                }
                            },
                            Err(cause) => {
                                proof {
                                    assert(groups@[i + 1] == Some(*s));
                                    assert(!group_ok(groups@, ks@, i as int));
                                    assert(first_bad_group(groups@, ks@, count as int, i as int)
                                        == i as int);
                                    assert(bad_group_cause(groups@, ks@, i as int) == leaf_cause(
                                        ks@[i as int],
                                    ));
                                }
                                return Err(build_group_parse(st, fld, (i + 1) as u64, cause));
                            },
                        }
                    },
                    CaptureConvert::CustomConv(name) => {
                        match reg.run_parser(name.as_str(), s.as_str()) {
                            Ok(v) => {
                                vs.push(v);
                            },
                            Err(cause) => {
                                return Err(
                                    build_group_parse(st, fld, (i + 1) as u64, cause.as_str()),
                                );
                            },
                        }
                    },
                }
            },
            None => {
                proof {
                    assert(groups@[i + 1] is None);
                    match convert {
                        CaptureConvert::KindConv(ks) => {
                            assert(!group_ok(groups@, ks@, i as int));
                            assert(first_bad_group(groups@, ks@, count as int, i as int)
                                == i as int);
                        },
                        CaptureConvert::CustomConv(name) => {
                            // the presence scan above rules this arm out
                            lemma_first_absent_all(groups@, count as int, 0);
                        },
                    }
                }
                let cause = "the group took no part in the match";
                return Err(build_group_parse(st, fld, (i + 1) as u64, cause));
            },
        }
        i = i + 1;
    }
    Ok(vs)
}

} // verus!

// ---------------------------------------------------------------------------
// The engine proper
// ---------------------------------------------------------------------------

verus! {

/// The field's name for messages: the first slot name.
fn first_name(fp: &FieldPlan) -> (r: &str)
    ensures
        fp.names@.len() > 0 ==> r@ == fp.names@[0]@,
{
    if fp.names.len() > 0 {
        fp.names[0].as_str()
    } else {
        ""
    }
}

/// Reads the raw string of one candidate element per the read step: an
/// attribute value (untrimmed), a text node (trimmed), or the inner markup
/// (trimmed). Reading the inner markup never fails.
fn read_raw<'a>(
    elem: &scraper::ElementRef<'a>,
    read: &ReadPlan,
    st: &str,
    fld: &str,
) -> (r: Result<String, Error>)
    ensures
        read is InnerHtmlRead ==> r is Ok,
{
    match read {
        ReadPlan::AttrRead(a) => attr_result_to_raw(attr_of(elem, a.as_str()), st, fld, a.as_str()),
        ReadPlan::TextRead(nth) => {
            if *nth > (usize::MAX as u64) {
                // no element has that many text nodes; the read misses
                text_result_to_raw(None, st, fld, *nth)
            } else {
                text_result_to_raw(text_node_of(elem, *nth as usize), st, fld, *nth)
            }
        },
        ReadPlan::InnerHtmlRead => Ok(inner_result_to_raw(inner_html_of(elem))),
    }
}

/// How many slots the first `n` field recipes of a plan fill altogether.
pub open spec fn slot_count(fields: Seq<FieldPlan>, n: int) -> int
    decreases n when 0 <= n <= fields.len()
{
    if n <= 0 {
        0
    } else {
        slot_count(fields, n - 1) + fields[n - 1].names@.len()
    }
}

pub proof fn lemma_slot_count_mono(fields: Seq<FieldPlan>, a: int, b: int)
    requires
        0 <= a <= b <= fields.len(),
    ensures
        slot_count(fields, a) <= slot_count(fields, b),
    decreases b - a,
{
    if a < b {
        lemma_slot_count_mono(fields, a, b - 1);
    }
}

/// Extracts one structure value from `elem` per the plan at `idx`: every
/// field recipe in order, fail-fast on the first failing field. A success
/// carries the structure's name and exactly one slot per declared field
/// name, in declaration order.
pub fn extract_struct<'a, P: ParseOverride>(
    cs: &CompiledSpec,
    idx: usize,
    elem: &scraper::ElementRef<'a>,
    reg: &P,
) -> (r: Result<StructValue, Error>)
    requires
        spec_wf(*cs),
        idx < cs.plans@.len(),
    ensures
        r matches Ok(sv) ==> ({
            let pf = cs.plans@[idx as int].fields@;
            &&& sv.name@ == cs.plans@[idx as int].name@
            &&& sv.fields@.len() == slot_count(pf, pf.len() as int)
            &&& (forall|k: int, s: int|
                0 <= k < pf.len() && 0 <= s < pf[k].names@.len() ==> ({
                    let slot = #[trigger] sv.fields@[slot_count(pf, k) + s];
                    slot.0@ == pf[k].names@[s]@
                }))
        }),
    decreases cs.plans@[idx as int].rank, 2int, 0int,
{
    let ghost pf = cs.plans@[idx as int].fields@;
    let nf = cs.plans[idx].fields.len();
    let mut fields: Vec<(String, Value)> = Vec::new();
    let mut k: usize = 0;
    while k < nf
        invariant
            spec_wf(*cs),
            idx < cs.plans@.len(),
            pf == cs.plans@[idx as int].fields@,
            nf == pf.len(),
            0 <= k <= nf,
            fields@.len() == slot_count(pf, k as int),
            forall|k2: int, s: int|
                0 <= k2 < k && 0 <= s < pf[k2].names@.len() ==> (#[trigger] fields@[slot_count(
                    pf,
                    k2,
                ) + s]).0@ == pf[k2].names@[s]@,
        decreases nf - k,
    {
        match extract_field(cs, idx, k, elem, reg) {
            Ok(mut slots) => {
                let ghost before = fields@;
                let ghost sl = slots@;
                fields.append(&mut slots);
                proof {
                    assert(fields@ == before + sl);
                    assert forall|k2: int, s: int|
                        0 <= k2 < k + 1 && 0 <= s < pf[k2].names@.len() implies (
                    #[trigger] fields@[slot_count(pf, k2) + s]).0@ == pf[k2].names@[s]@ by {
                        lemma_slot_count_mono(pf, 0, k2);
                        if k2 < k {
                            lemma_slot_count_mono(pf, k2 + 1, k as int);
                            assert(slot_count(pf, k2) + s < slot_count(pf, k2 + 1));
                            assert(fields@[slot_count(pf, k2) + s] == before[slot_count(pf, k2)
                                + s]);
                        } else {
                            assert(slot_count(pf, k2) == before.len());
                            assert(fields@[slot_count(pf, k2) + s] == sl[s]);
                        }
                    }
                }
            },
            Err(e) => {
                return Err(e);
            },
        }
        k = k + 1;
    }
    Ok(StructValue { name: cs.plans[idx].name.clone(), fields })
}

/// Extracts the slots of one field: selects the candidates under `elem` with
/// the field's compiled selector, then dispatches on the collector.
pub fn extract_field<'a, P: ParseOverride>(
    cs: &CompiledSpec,
    idx: usize,
    fidx: usize,
    elem: &scraper::ElementRef<'a>,
    reg: &P,
) -> (r: Result<Vec<(String, Value)>, Error>)
    requires
        spec_wf(*cs),
        idx < cs.plans@.len(),
        fidx < cs.plans@[idx as int].fields@.len(),
    ensures
        r matches Ok(slots) ==> ({
            let fp = cs.plans@[idx as int].fields@[fidx as int];
            slots@.len() == fp.names@.len() && (forall|s: int|
                0 <= s < slots@.len() ==> (#[trigger] slots@[s]).0@ == fp.names@[s]@)
        }),
    decreases cs.plans@[idx as int].rank, 1int, 1int,
{
    let candidates = select_within(elem, &cs.plans[idx].fields[fidx].selector);
    extract_with_candidates(cs, idx, fidx, &candidates, reg)
}

/// Dispatches one field's extraction over the already-selected candidate
/// elements, per the collector:
/// - `First` takes the first candidate and fails on none — unless the target
///   is a presence test, whose value is just whether any candidate exists;
/// - `All` maps every candidate and collects into a list, an empty candidate
///   sequence giving an empty list, never a failure;
/// - `Optional` takes the first candidate if any, absence giving an absent
///   value, never a failure.
pub fn extract_with_candidates<'a, P: ParseOverride>(
    cs: &CompiledSpec,
    idx: usize,
    fidx: usize,
    candidates: &Vec<scraper::ElementRef<'a>>,
    reg: &P,
) -> (r: Result<Vec<(String, Value)>, Error>)
    requires
        spec_wf(*cs),
        idx < cs.plans@.len(),
        fidx < cs.plans@[idx as int].fields@.len(),
    ensures
        ({
            let plan = cs.plans@[idx as int];
            let fp = plan.fields@[fidx as int];
            &&& (r matches Ok(slots) ==> slots@.len() == fp.names@.len() && (forall|s: int|
                0 <= s < slots@.len() ==> (#[trigger] slots@[s]).0@ == fp.names@[s]@))
            &&& (fp.step is PresenceStep ==> (r matches Ok(slots) && slots@.len() == 1
                && slots@[0].1 == Value::BoolVal(candidates@.len() > 0)))
            &&& ((fp.collector == CollectorMode::First && !(fp.step is PresenceStep)
                && candidates@.len() == 0) ==> (r matches Err(e) && (fp.names@.len() > 0
                ==> e.msg() == no_elem_msg(plan.name@, fp.names@[0]@))))
            &&& ((fp.collector == CollectorMode::All && candidates@.len() == 0) ==> (r matches Ok(
                slots,
            ) && slots@.len() == 1 && (slots@[0].1 matches Value::ListVal(items) && items@.len()
                == 0)))
            &&& ((fp.collector == CollectorMode::All && r is Ok) ==> (r matches Ok(slots)
                && slots@.len() == 1 && (slots@[0].1 matches Value::ListVal(items) && items@.len()
                == candidates@.len())))
            &&& ((fp.collector == CollectorMode::Optional && candidates@.len() == 0) ==> (r
                matches Ok(slots) && forall|s: int|
                0 <= s < slots@.len() ==> (#[trigger] slots@[s]).1 == Value::OptVal(None)))
        }),
    decreases cs.plans@[idx as int].rank, 1int, 0int,
{
    let fp = &cs.plans[idx].fields[fidx];
    let is_presence = match &fp.step {
        StepPlan::PresenceStep => true,
        _ => false,
    };
    if is_presence {
        proof {
            assert(struct_plan_wf(cs.plans@[idx as int], cs.plans@));
            assert(field_plan_wf(cs.plans@[idx as int].fields@[fidx as int], cs.plans@[idx as int].rank as nat, cs.plans@));
        }
        let mut slots: Vec<(String, Value)> = Vec::new();
        slots.push((fp.names[0].clone(), Value::BoolVal(candidates.len() > 0)));
        return Ok(slots);
    }
    match fp.collector {
        CollectorMode::First => {
            if candidates.len() == 0 {
                let st = cs.plans[idx].name.as_str();
                return Err(build_no_elem(st, first_name(fp)));
            }
            match extract_one(cs, idx, fidx, &candidates[0], reg) {
                Ok(v) => distribute_slots(cs, idx, fidx, v, false),
                Err(e) => Err(e),
            }
        },
        CollectorMode::All => {
            let n = candidates.len();
            let mut items: Vec<Value> = Vec::new();
            let mut c: usize = 0;
            while c < n
                invariant
                    spec_wf(*cs),
                    idx < cs.plans@.len(),
                    fidx < cs.plans@[idx as int].fields@.len(),
                    !(cs.plans@[idx as int].fields@[fidx as int].step is PresenceStep),
                    cs.plans@[idx as int].fields@[fidx as int].collector == CollectorMode::All,
                    n == candidates@.len(),
                    items@.len() == c,
                    0 <= c <= n,
                decreases n - c,
            {
                match extract_one(cs, idx, fidx, &candidates[c], reg) {
                    Ok(v) => {
                        items.push(v);
                    },
                    Err(e) => {
                        return Err(e);
                    },
                }
                c = c + 1;
            }
            proof {
                assert(struct_plan_wf(cs.plans@[idx as int], cs.plans@));
                assert(field_plan_wf(cs.plans@[idx as int].fields@[fidx as int], cs.plans@[idx as int].rank as nat, cs.plans@));
            }
            let mut slots: Vec<(String, Value)> = Vec::new();
            slots.push((fp.names[0].clone(), Value::ListVal(items)));
            Ok(slots)
        },
        CollectorMode::Optional => {
            if candidates.len() == 0 {
                let mut slots: Vec<(String, Value)> = Vec::new();
                let nn = fp.names.len();
                let mut s: usize = 0;
                while s < nn
                    invariant
                        spec_wf(*cs),
                        idx < cs.plans@.len(),
                        fidx < cs.plans@[idx as int].fields@.len(),
                        nn == cs.plans@[idx as int].fields@[fidx as int].names@.len(),
                        fp == &cs.plans@[idx as int].fields@[fidx as int],
                        slots@.len() == s,
                        0 <= s <= nn,
                        forall|t: int|
                            0 <= t < s ==> (#[trigger] slots@[t]).0@ == fp.names@[t]@
                                && slots@[t].1 == Value::OptVal(None),
                    decreases nn - s,
                {
                    slots.push((fp.names[s].clone(), Value::OptVal(None)));
                    s = s + 1;
                }
                return Ok(slots);
            }
            match extract_one(cs, idx, fidx, &candidates[0], reg) {
                Ok(v) => distribute_slots(cs, idx, fidx, v, true),
                Err(e) => Err(e),
            }
        },
    }
}

/// Distributes one extracted value over the field's slots: the single slot
/// takes the value itself, the members of a tuple field each take their
/// component; under the optional collector each slot value is wrapped as
/// present.
fn distribute_slots(
    cs: &CompiledSpec,
    idx: usize,
    fidx: usize,
    v: Value,
    optional: bool,
) -> (r: Result<Vec<(String, Value)>, Error>)
    requires
        spec_wf(*cs),
        idx < cs.plans@.len(),
        fidx < cs.plans@[idx as int].fields@.len(),
        ({
            let fp = cs.plans@[idx as int].fields@[fidx as int];
            fp.step matches StepPlan::CaptureStep { read, regex, count, convert }
                && fp.collector != CollectorMode::All ==> (v matches Value::TupleVal(parts)
                && parts@.len() == fp.names@.len())
        }),
    ensures
        r matches Ok(slots) ==> ({
            let fp = cs.plans@[idx as int].fields@[fidx as int];
            slots@.len() == fp.names@.len() && (forall|s: int|
                0 <= s < slots@.len() ==> (#[trigger] slots@[s]).0@ == fp.names@[s]@)
        }),
{
    let fp = &cs.plans[idx].fields[fidx];
    let is_tuple_slots = match &fp.step {
        StepPlan::CaptureStep { read, regex, count, convert } => match fp.collector {
            CollectorMode::All => false,
            _ => true,
        },
        _ => false,
    };
    proof {
        assert(struct_plan_wf(cs.plans@[idx as int], cs.plans@));
        assert(field_plan_wf(
            cs.plans@[idx as int].fields@[fidx as int],
            cs.plans@[idx as int].rank as nat,
            cs.plans@,
        ));
    }
    let mut slots: Vec<(String, Value)> = Vec::new();
    if is_tuple_slots {
        let mut parts = match v {
            Value::TupleVal(parts) => parts,
            _ => {
                proof {
                    assert(false);
                }
                return Ok(slots);
            },
        };
        let nn = fp.names.len();
        let mut s: usize = 0;
        while s < nn
            invariant
                idx < cs.plans@.len(),
                fidx < cs.plans@[idx as int].fields@.len(),
                fp == &cs.plans@[idx as int].fields@[fidx as int],
                nn == fp.names@.len(),
                0 <= s <= nn,
                parts@.len() == nn - s,
                slots@.len() == s,
                forall|t: int| 0 <= t < s ==> (#[trigger] slots@[t]).0@ == fp.names@[t]@,
            decreases nn - s,
        {
            let part = parts.remove(0);
            if optional {
                slots.push((fp.names[s].clone(), Value::OptVal(Some(Box::new(part)))));
            } else {
                slots.push((fp.names[s].clone(), part));
            }
            s = s + 1;
        }
        Ok(slots)
    } else {
        if optional {
            slots.push((fp.names[0].clone(), Value::OptVal(Some(Box::new(v)))));
        } else {
            slots.push((fp.names[0].clone(), v));
        }
        Ok(slots)
    }
}

/// Extracts the value of one candidate element per the field's step: reads
/// the raw facet and converts it, or recurses into the referenced plan for a
/// nested-structure target — a nested failure is surfaced wrapped with the
/// outer field's context.
fn extract_one<'a, P: ParseOverride>(
    cs: &CompiledSpec,
    idx: usize,
    fidx: usize,
    elem: &scraper::ElementRef<'a>,
    reg: &P,
) -> (r: Result<Value, Error>)
    requires
        spec_wf(*cs),
        idx < cs.plans@.len(),
        fidx < cs.plans@[idx as int].fields@.len(),
        !(cs.plans@[idx as int].fields@[fidx as int].step is PresenceStep),
    ensures
        ({
            let fp = cs.plans@[idx as int].fields@[fidx as int];
            fp.step matches StepPlan::CaptureStep { read, regex, count, convert } ==> (r matches Ok(
                v,
            ) ==> (v matches Value::TupleVal(parts) && parts@.len() == count))
        }),
    decreases cs.plans@[idx as int].rank, 0int, 0int,
{
    proof {
        assert(struct_plan_wf(cs.plans@[idx as int], cs.plans@));
        assert(field_plan_wf(
            cs.plans@[idx as int].fields@[fidx as int],
            cs.plans@[idx as int].rank as nat,
            cs.plans@,
        ));
    }
    let plan = &cs.plans[idx];
    let fp = &plan.fields[fidx];
    let st = plan.name.as_str();
    let fld = first_name(fp);
    match &fp.step {
        StepPlan::PresenceStep => {
            proof {
                assert(false);
            }
            Err(invalid_input(String::new()))
        },
        StepPlan::ElemStep(j) => {
            wrap_nested_outcome(st, fld, extract_struct(cs, *j, elem, reg))
        },
        StepPlan::CaptureStep { read, regex, count, convert } => {
            let raw = match read_raw(elem, read, st, fld) {
                Ok(raw) => raw,
                Err(e) => {
                    return Err(e);
                },
            };
            let caps = captures_of(regex, raw.as_str());
            match captures_to_tuple(caps, convert, *count, st, fld, reg) {
                Ok(parts) => Ok(Value::TupleVal(parts)),
                Err(e) => Err(e),
            }
        },
        StepPlan::PlainStep { read, kind } => {
            let raw = match read_raw(elem, read, st, fld) {
                Ok(raw) => raw,
                Err(e) => {
                    return Err(e);
                },
            };
            match parse_leaf(*kind, raw.as_str()) {
                Ok(v) => Ok(v),
                Err(cause) => Err(build_plain_parse(st, fld, raw.as_str(), cause)),
            }
        },
        StepPlan::CustomStep { read, parser_name } => {
            let raw = match read_raw(elem, read, st, fld) {
                Ok(raw) => raw,
                Err(e) => {
                    return Err(e);
                },
            };
            match reg.run_parser(parser_name.as_str(), raw.as_str()) {
                Ok(v) => Ok(v),
                Err(cause) => Err(build_plain_parse(st, fld, raw.as_str(), cause.as_str())),
            }
        },
    }
}

} // verus!
