//! Running compiled specifications against documents.

use html_extractor::compile_spec;
use html_extractor::engine::{NoOverrides, ParseOverride};
use html_extractor::error::{Error, ErrorKind};
use html_extractor::extract_named;
use html_extractor::value::{StructValue, Value};

fn run(spec: &str, name: &str, html: &str) -> Result<StructValue, Error> {
    let cs = compile_spec(spec).unwrap();
    extract_named(&cs, name, html, &NoOverrides)
}

fn get<'a>(sv: &'a StructValue, name: &str) -> &'a Value {
    sv.get(name).unwrap()
}

fn msg(e: &Error) -> &str {
    match e.kind() {
        ErrorKind::InvalidInput(m) => m.as_str(),
    }
}

#[test]
fn round_trip_single_text_value() {
    let sv = run(
        r##"Foo { foo: usize = (text of "#foo") }"##,
        "Foo",
        r##"<div id="foo">1</div>"##,
    )
    .unwrap();
    assert_eq!(sv.name, "Foo");
    assert_eq!(get(&sv, "foo"), &Value::UintVal(1));
}

#[test]
fn collection_in_document_order() {
    let html = r##"
        <div class="foo">1</div>
        <div class="foo">2</div>
        <div class="foo">3</div>
        <div class="foo">4</div>
    "##;
    let sv = run(
        r##"Foo { foo: Vec<usize> = (text of ".foo", collect) }"##,
        "Foo",
        html,
    )
    .unwrap();
    assert_eq!(
        get(&sv, "foo"),
        &Value::ListVal(vec![
            Value::UintVal(1),
            Value::UintVal(2),
            Value::UintVal(3),
            Value::UintVal(4),
        ]),
    );
}

#[test]
fn capture_into_tuple_members() {
    let sv = run(
        r##"M { (foo: usize, bar: usize) = (text of "#x", capture with "foo=(.*), bar=(.*)") }"##,
        "M",
        r##"<div id="x">foo=1, bar=2</div>"##,
    )
    .unwrap();
    assert_eq!(get(&sv, "foo"), &Value::UintVal(1));
    assert_eq!(get(&sv, "bar"), &Value::UintVal(2));
}

#[test]
fn capture_that_matches_nothing_fails() {
    let e = run(
        r##"M { (foo: usize, bar: usize) = (text of "#x", capture with "foo=(\\d+), bar=(\\d+)") }"##,
        "M",
        r##"<div id="x">nothing here</div>"##,
    )
    .unwrap_err();
    assert_eq!(
        msg(&e),
        "extracting the data of field `foo` in struct `M`, nothing is captured with regex",
    );
}

#[test]
fn missing_attribute_names_field_struct_and_attribute() {
    let e = run(
        r##"Main { z: usize = (attr["data-z"] of "#y") }"##,
        "Main",
        r##"<div id="y"></div>"##,
    )
    .unwrap_err();
    assert_eq!(
        msg(&e),
        "extracting the data of field `z` in struct `Main`, attribute `data-z` is not found",
    );
}

#[test]
fn nested_struct_recursion() {
    let spec = r##"
        Outer { q: Q = (elem of "#q") }
        Q { corge: usize = (text of "#corge") }
    "##;
    let sv = run(spec, "Outer", r##"<div id="q"><div id="corge">4</div></div>"##).unwrap();
    match get(&sv, "q") {
        Value::StructVal(inner) => {
            assert_eq!(inner.name, "Q");
            assert_eq!(get(inner, "corge"), &Value::UintVal(4));
        },
        other => panic!("expected a nested structure, got {:?}", other),
    }
}

#[test]
fn nested_failure_is_wrapped_with_outer_context() {
    let spec = r##"
        Outer { q: Q = (elem of "#q") }
        Q { n: usize = (text of ".n") }
    "##;
    let e = run(spec, "Outer", r##"<div id="q"><span>no n here</span></div>"##).unwrap_err();
    assert_eq!(
        msg(&e),
        "extracting the data of field `q` in struct `Outer`, \
         extracting the data of field `n` in struct `Q`, no element matched the selector",
    );
}

#[test]
fn first_collector_fails_on_zero_matches() {
    let e = run(
        r##"Foo { a: usize = (text of "#missing") }"##,
        "Foo",
        r##"<div id="other">1</div>"##,
    )
    .unwrap_err();
    assert_eq!(
        msg(&e),
        "extracting the data of field `a` in struct `Foo`, no element matched the selector",
    );
}

#[test]
fn all_collector_yields_empty_container_on_zero_matches() {
    let sv = run(
        r##"Foo { a: Vec<usize> = (text of ".missing", collect) }"##,
        "Foo",
        r##"<div id="other">1</div>"##,
    )
    .unwrap();
    assert_eq!(get(&sv, "a"), &Value::ListVal(vec![]));
}

#[test]
fn optional_collector_yields_absent_on_zero_matches() {
    let sv = run(
        r##"Foo { a: Option<usize> = (text of ".missing", optional) }"##,
        "Foo",
        r##"<div id="other">1</div>"##,
    )
    .unwrap();
    assert_eq!(get(&sv, "a"), &Value::OptVal(None));
}

#[test]
fn optional_collector_yields_present_value() {
    let sv = run(
        r##"Foo { a: Option<usize> = (text of "#a", optional) }"##,
        "Foo",
        r##"<div id="a">2</div>"##,
    )
    .unwrap();
    assert_eq!(
        get(&sv, "a"),
        &Value::OptVal(Some(Box::new(Value::UintVal(2)))),
    );
}

#[test]
fn optional_capture_tuple_members_are_each_optional() {
    let spec = r##"M {
        (a: usize, b: usize) = (text of "#x", capture with "(\\d+)-(\\d+)", optional),
        (c: usize, d: usize) = (text of "#missing", capture with "(\\d+)-(\\d+)", optional),
    }"##;
    let sv = run(spec, "M", r##"<div id="x">7-27</div>"##).unwrap();
    assert_eq!(get(&sv, "a"), &Value::OptVal(Some(Box::new(Value::UintVal(7)))));
    assert_eq!(get(&sv, "b"), &Value::OptVal(Some(Box::new(Value::UintVal(27)))));
    assert_eq!(get(&sv, "c"), &Value::OptVal(None));
    assert_eq!(get(&sv, "d"), &Value::OptVal(None));
}

#[test]
fn text_extraction_trims_whitespace() {
    let sv = run(
        r##"Foo { a: usize = (text of "#a"), s: String = (text of "#s") }"##,
        "Foo",
        "<div id=\"a\">\n   7   \n</div><div id=\"s\">  padded words  </div>",
    )
    .unwrap();
    assert_eq!(get(&sv, "a"), &Value::UintVal(7));
    assert_eq!(get(&sv, "s"), &Value::StrVal(String::from("padded words")));
}

#[test]
fn inner_html_extraction_trims_whitespace() {
    let sv = run(
        r##"Foo { h: String = (inner_html of "#h") }"##,
        "Foo",
        "<div id=\"h\">\n    inner<br>html\n</div>",
    )
    .unwrap();
    assert_eq!(get(&sv, "h"), &Value::StrVal(String::from("inner<br>html")));
}

#[test]
fn attribute_values_are_not_trimmed() {
    let sv = run(
        r##"Foo { a: String = (attr["data-a"] of "#a") }"##,
        "Foo",
        r##"<div id="a" data-a="  spaced  "></div>"##,
    )
    .unwrap();
    assert_eq!(get(&sv, "a"), &Value::StrVal(String::from("  spaced  ")));
}

#[test]
fn indexed_text_node() {
    let sv = run(
        r##"Foo { bar: usize = (text[2] of "#bar") }"##,
        "Foo",
        r##"<div id="bar">ignore first<br>ignore second<br>2</div>"##,
    )
    .unwrap();
    assert_eq!(get(&sv, "bar"), &Value::UintVal(2));
}

#[test]
fn missing_text_node_names_the_index() {
    let e = run(
        r##"Foo { bar: usize = (text[3] of "#bar") }"##,
        "Foo",
        r##"<div id="bar">only one</div>"##,
    )
    .unwrap_err();
    assert_eq!(
        msg(&e),
        "extracting the data of field `bar` in struct `Foo`, 3th text node is not found",
    );
}

#[test]
fn presence_is_true_and_false_without_failing() {
    let spec = r##"Foo {
        here: bool = (presence of "#here"),
        gone: bool = (presence of "#gone"),
    }"##;
    let sv = run(spec, "Foo", r##"<div id="here"></div>"##).unwrap();
    assert_eq!(get(&sv, "here"), &Value::BoolVal(true));
    assert_eq!(get(&sv, "gone"), &Value::BoolVal(false));
}

#[test]
fn collected_capture_tuples() {
    let spec = r##"Foo {
        rows: Vec<(usize, usize)> = (text of ".row", capture with "(\\d+):(\\d+)", collect),
    }"##;
    let html = r##"
        <div class="row">1:5</div>
        <div class="row">2:6</div>
        <div class="row">3:7</div>
    "##;
    let sv = run(spec, "Foo", html).unwrap();
    assert_eq!(
        get(&sv, "rows"),
        &Value::ListVal(vec![
            Value::TupleVal(vec![Value::UintVal(1), Value::UintVal(5)]),
            Value::TupleVal(vec![Value::UintVal(2), Value::UintVal(6)]),
            Value::TupleVal(vec![Value::UintVal(3), Value::UintVal(7)]),
        ]),
    );
}

#[test]
fn attribute_capture() {
    let sv = run(
        r##"Foo { (a: usize,) = (attr["data-8"] of "#d", capture with "%%%(.*)%%%") }"##,
        "Foo",
        r##"<div id="d" data-8="%%%8%%%"></div>"##,
    )
    .unwrap();
    assert_eq!(get(&sv, "a"), &Value::UintVal(8));
}

#[test]
fn group_conversion_failure_names_the_group() {
    let e = run(
        r##"Foo { (a: usize, b: usize) = (text of "#x", capture with "(.*)=(.*)") }"##,
        "Foo",
        r##"<div id="x">seven=8</div>"##,
    )
    .unwrap_err();
    assert_eq!(
        msg(&e),
        "extracting the data of field `a` in struct `Foo`, \
         cannot parse for the 1th field: not an unsigned integer",
    );
}

#[test]
fn plain_conversion_failure_carries_the_data_and_cause() {
    let e = run(
        r##"Foo { a: usize = (text of "#a") }"##,
        "Foo",
        r##"<div id="a">seven</div>"##,
    )
    .unwrap_err();
    assert_eq!(
        msg(&e),
        "extracting the data of field `a` in struct `Foo`, \
         cannot parse `seven`: not an unsigned integer",
    );
}

#[test]
fn integer_overflow_is_a_conversion_failure() {
    let e = run(
        r##"Foo { a: usize = (text of "#a") }"##,
        "Foo",
        r##"<div id="a">99999999999999999999999</div>"##,
    )
    .unwrap_err();
    assert!(msg(&e).contains("cannot parse `99999999999999999999999`"));
}

#[test]
fn leaf_kinds_signed_bool_and_plus_sign() {
    let spec = r##"Foo {
        neg: i64 = (text of "#neg"),
        plus: usize = (text of "#plus"),
        flag: bool = (text of "#flag"),
    }"##;
    let html = r##"
        <div id="neg">-42</div>
        <div id="plus">+17</div>
        <div id="flag">true</div>
    "##;
    let sv = run(spec, "Foo", html).unwrap();
    assert_eq!(get(&sv, "neg"), &Value::IntVal(-42));
    assert_eq!(get(&sv, "plus"), &Value::UintVal(17));
    assert_eq!(get(&sv, "flag"), &Value::BoolVal(true));
}

#[test]
fn fail_fast_stops_at_the_first_failing_field() {
    let spec = r##"Foo {
        a: usize = (text of "#missing"),
        b: usize = (text of "#b"),
    }"##;
    let e = run(spec, "Foo", r##"<div id="b">2</div>"##).unwrap_err();
    assert!(msg(&e).contains("field `a`"));
}

#[test]
fn collected_extraction_fails_fast_on_a_bad_item() {
    let spec = r##"Foo { a: Vec<usize> = (text of ".n", collect) }"##;
    let html = r##"<i class="n">1</i><i class="n">oops</i><i class="n">3</i>"##;
    let e = run(spec, "Foo", html).unwrap_err();
    assert!(msg(&e).contains("cannot parse `oops`"));
}

#[test]
fn elements_collected_recursively() {
    let spec = r##"
        Foo { bars: Vec<Bar> = (elem of ".bar", collect) }
        Bar { n: usize = (text of ".bar-data") }
    "##;
    let html = r##"
        <div class="bar"><div class="bar-data">1</div></div>
        <div class="bar"><div class="bar-data">2</div></div>
    "##;
    let sv = run(spec, "Foo", html).unwrap();
    match get(&sv, "bars") {
        Value::ListVal(items) => {
            assert_eq!(items.len(), 2);
            match &items[1] {
                Value::StructVal(b) => assert_eq!(get(b, "n"), &Value::UintVal(2)),
                other => panic!("expected a structure, got {:?}", other),
            }
        },
        other => panic!("expected a list, got {:?}", other),
    }
}

struct SignParser;

impl ParseOverride for SignParser {
    fn run_parser(&self, name: &str, raw: &str) -> Result<Value, String> {
        if name == "sign_of" {
            match raw {
                "<" => Ok(Value::StrVal(String::from("less"))),
                ">" => Ok(Value::StrVal(String::from("greater"))),
                "=" => Ok(Value::StrVal(String::from("equal"))),
                _ => Err(String::from("not a sign")),
            }
        } else {
            Err(String::from("unknown parser"))
        }
    }
}

#[test]
fn custom_parser_is_applied_by_name() {
    let cs = compile_spec(r##"Foo { s: String = (text of "#s", parse with sign_of) }"##).unwrap();
    let sv = extract_named(&cs, "Foo", r##"<div id="s">&lt;</div>"##, &SignParser).unwrap();
    assert_eq!(sv.get("s").unwrap(), &Value::StrVal(String::from("less")));
}

#[test]
fn custom_parser_failure_carries_its_cause() {
    let cs = compile_spec(r##"Foo { s: String = (text of "#s", parse with sign_of) }"##).unwrap();
    let e = extract_named(&cs, "Foo", r##"<div id="s">7</div>"##, &SignParser).unwrap_err();
    assert_eq!(
        msg(&e),
        "extracting the data of field `s` in struct `Foo`, cannot parse `7`: not a sign",
    );
}

#[test]
fn unknown_structure_name_is_reported() {
    let cs = compile_spec(r##"Foo { a: usize = (text of "#a") }"##).unwrap();
    let e = extract_named(&cs, "Missing", "<div></div>", &NoOverrides).unwrap_err();
    assert_eq!(msg(&e), "no structure named `Missing` in the specification");
}

#[test]
fn wide_extraction_over_one_document() {
    let spec = r##"
        TestData {
            data1: InnerData = (elem of "#data1"),
            data2: usize = (text of "#data2"),
            data3: usize = (attr["data-3"] of "#data3"),
            data4: Vec<InnerData> = (elem of "#data4 > div", collect),
            data5: Vec<usize> = (text of "#data5 > div", collect),
            data6: Vec<usize> = (attr["data-6"] of "#data6 > div", collect),
            (data7: usize,) = (text of "#data7", capture with "%%%(.*)%%%"),
            data9: Vec<(usize, usize)> = (text[1] of "#data9 > div", capture with "%%%(.*)%%%(.*)%%%", collect),
            (data11_1: usize, data11_2: usize) = (text[2] of "#data11", capture with "%%%(.*)%%%(.*)%%%"),
            none1: Option<usize> = (text of "#none", optional),
            data15: String = (inner_html of "#data15"),
            presence_of_data15: bool = (presence of "#data15"),
        }
        InnerData {
            data1_1: usize = (text of ".data1-1"),
        }
    "##;
    let html = r##"
        <div id="data1"><div class="data1-1">1</div></div>
        <div id="data2">2</div>
        <div id="data3" data-3="3"></div>
        <div id="data4">
            <div><div class="data1-1">1</div></div>
            <div><div class="data1-1">2</div></div>
        </div>
        <div id="data5"><div>1</div><div>2</div><div>3</div><div>4</div></div>
        <div id="data6"><div data-6="1"></div><div data-6="2"></div></div>
        <div id="data7">%%%7%%%</div>
        <div id="data9">
            <div>ignore<br />%%%1%%%5%%%</div>
            <div>ignore<br />%%%2%%%6%%%</div>
        </div>
        <div id="data11">ignore<br />ignore<br />%%%7%%%27%%%</div>
        <div id="data15">
            inner<br>html
        </div>
    "##;
    let sv = run(spec, "TestData", html).unwrap();
    match get(&sv, "data1") {
        Value::StructVal(inner) => assert_eq!(get(inner, "data1_1"), &Value::UintVal(1)),
        other => panic!("expected a structure, got {:?}", other),
    }
    assert_eq!(get(&sv, "data2"), &Value::UintVal(2));
    assert_eq!(get(&sv, "data3"), &Value::UintVal(3));
    match get(&sv, "data4") {
        Value::ListVal(items) => assert_eq!(items.len(), 2),
        other => panic!("expected a list, got {:?}", other),
    }
    assert_eq!(
        get(&sv, "data5"),
        &Value::ListVal(vec![
            Value::UintVal(1),
            Value::UintVal(2),
            Value::UintVal(3),
            Value::UintVal(4),
        ]),
    );
    assert_eq!(
        get(&sv, "data6"),
        &Value::ListVal(vec![Value::UintVal(1), Value::UintVal(2)]),
    );
    assert_eq!(get(&sv, "data7"), &Value::UintVal(7));
    assert_eq!(
        get(&sv, "data9"),
        &Value::ListVal(vec![
            Value::TupleVal(vec![Value::UintVal(1), Value::UintVal(5)]),
            Value::TupleVal(vec![Value::UintVal(2), Value::UintVal(6)]),
        ]),
    );
    assert_eq!(get(&sv, "data11_1"), &Value::UintVal(7));
    assert_eq!(get(&sv, "data11_2"), &Value::UintVal(27));
    assert_eq!(get(&sv, "none1"), &Value::OptVal(None));
    assert_eq!(get(&sv, "data15"), &Value::StrVal(String::from("inner<br>html")));
    assert_eq!(get(&sv, "presence_of_data15"), &Value::BoolVal(true));
}

#[test]
fn integer_widths_follow_the_declared_type() {
    let spec = r##"Foo {
        small: u8 = (text of "#small"),
        wide: u64 = (text of "#wide"),
    }"##;
    let html = r##"<div id="small">200</div><div id="wide">300</div>"##;
    let sv = run(spec, "Foo", html).unwrap();
    assert_eq!(get(&sv, "small"), &Value::UintVal(200));
    assert_eq!(get(&sv, "wide"), &Value::UintVal(300));

    let e = run(
        r##"Foo { small: u8 = (text of "#small") }"##,
        "Foo",
        r##"<div id="small">300</div>"##,
    )
    .unwrap_err();
    assert!(msg(&e).contains("cannot parse `300`"));
}

#[test]
fn signed_widths_follow_the_declared_type() {
    let sv = run(
        r##"Foo { t: i8 = (text of "#t") }"##,
        "Foo",
        r##"<div id="t">-128</div>"##,
    )
    .unwrap();
    assert_eq!(get(&sv, "t"), &Value::IntVal(-128));

    let e = run(
        r##"Foo { t: i8 = (text of "#t") }"##,
        "Foo",
        r##"<div id="t">-129</div>"##,
    )
    .unwrap_err();
    assert!(msg(&e).contains("cannot parse `-129`"));
}

#[test]
fn custom_parser_under_a_path_name() {
    struct PathReg;
    impl ParseOverride for PathReg {
        fn run_parser(&self, name: &str, raw: &str) -> Result<Value, String> {
            if name == "my::double" {
                match raw.parse::<u64>() {
                    Ok(v) => Ok(Value::UintVal(v * 2)),
                    Err(_) => Err(String::from("not a number")),
                }
            } else {
                Err(String::from("unknown parser"))
            }
        }
    }
    let cs = compile_spec(r##"Foo { d: usize = (text of "#d", parse with my::double) }"##)
        .unwrap();
    let sv = extract_named(&cs, "Foo", r##"<div id="d">21</div>"##, &PathReg).unwrap();
    assert_eq!(sv.get("d").unwrap(), &Value::UintVal(42));
}

#[test]
fn three_group_attribute_capture() {
    let sv = run(
        r##"Foo { (a: usize, b: usize, c: usize) = (attr["data-12"] of "#data12", capture with "%%%(.*)%%%(.*)%%%(.*)%%%") }"##,
        "Foo",
        r##"<div id="data12" data-12="%%%8%%%18%%%46%%%"></div>"##,
    )
    .unwrap();
    assert_eq!(get(&sv, "a"), &Value::UintVal(8));
    assert_eq!(get(&sv, "b"), &Value::UintVal(18));
    assert_eq!(get(&sv, "c"), &Value::UintVal(46));
}

#[test]
fn four_group_capture_collected() {
    let spec = r##"Foo {
        rows: Vec<(usize, usize, usize, usize)> = (text of "#data13 > div", capture with "%%%(.*)%%%(.*)%%%(.*)%%%(.*)%%%", collect),
    }"##;
    let html = r##"
        <div id="data13">
            <div>%%%1%%%5%%%9%%%13%%%</div>
            <div>%%%2%%%6%%%10%%%14%%%</div>
            <div>%%%3%%%7%%%11%%%15%%%</div>
            <div>%%%4%%%8%%%12%%%16%%%</div>
        </div>
    "##;
    let sv = run(spec, "Foo", html).unwrap();
    assert_eq!(
        get(&sv, "rows"),
        &Value::ListVal(vec![
            Value::TupleVal(vec![
                Value::UintVal(1),
                Value::UintVal(5),
                Value::UintVal(9),
                Value::UintVal(13),
            ]),
            Value::TupleVal(vec![
                Value::UintVal(2),
                Value::UintVal(6),
                Value::UintVal(10),
                Value::UintVal(14),
            ]),
            Value::TupleVal(vec![
                Value::UintVal(3),
                Value::UintVal(7),
                Value::UintVal(11),
                Value::UintVal(15),
            ]),
            Value::TupleVal(vec![
                Value::UintVal(4),
                Value::UintVal(8),
                Value::UintVal(12),
                Value::UintVal(16),
            ]),
        ]),
    );
}

#[test]
fn five_group_attribute_capture_collected() {
    let spec = r##"Foo {
        rows: Vec<(usize, usize, usize, usize, usize)> = (attr["data-14"] of "#data14 > div", capture with "%%%(.*)%%%(.*)%%%(.*)%%%(.*)%%%(.*)%%%", collect),
    }"##;
    let html = r##"
        <div id="data14">
            <div data-14="%%%1%%%5%%%9%%%13%%%17%%%"></div>
            <div data-14="%%%2%%%6%%%10%%%14%%%18%%%"></div>
            <div data-14="%%%3%%%7%%%11%%%15%%%19%%%"></div>
            <div data-14="%%%4%%%8%%%12%%%16%%%20%%%"></div>
        </div>
    "##;
    let sv = run(spec, "Foo", html).unwrap();
    assert_eq!(
        get(&sv, "rows"),
        &Value::ListVal(vec![
            Value::TupleVal(vec![
                Value::UintVal(1),
                Value::UintVal(5),
                Value::UintVal(9),
                Value::UintVal(13),
                Value::UintVal(17),
            ]),
            Value::TupleVal(vec![
                Value::UintVal(2),
                Value::UintVal(6),
                Value::UintVal(10),
                Value::UintVal(14),
                Value::UintVal(18),
            ]),
            Value::TupleVal(vec![
                Value::UintVal(3),
                Value::UintVal(7),
                Value::UintVal(11),
                Value::UintVal(15),
                Value::UintVal(19),
            ]),
            Value::TupleVal(vec![
                Value::UintVal(4),
                Value::UintVal(8),
                Value::UintVal(12),
                Value::UintVal(16),
                Value::UintVal(20),
            ]),
        ]),
    );
}
