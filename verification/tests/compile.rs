//! Specification loading: lexing, parsing and static validation.

use html_extractor::compile_spec;
use html_extractor::lexer::LexErrKind;
use html_extractor::parser::Expected;
use html_extractor::plan::ProblemKind;
use html_extractor::SpecError;

#[test]
fn compile_minimal_spec() {
    let cs = compile_spec(r##"Foo { foo: usize = (text of "#foo") }"##).unwrap();
    assert_eq!(cs.plans.len(), 1);
    assert_eq!(cs.plans[0].name, "Foo");
    assert_eq!(cs.plans[0].fields.len(), 1);
}

#[test]
fn compile_accepts_attributes_visibility_and_trailing_commas() {
    let src = r##"
        #[derive(Debug, PartialEq)]
        pub Foo {
            pub(crate) a: usize = (text of "#a"),
            pub b: Option<u64> = (attr["data-b"] of "#b", optional),
            c: Vec<String> = (inner_html of ".c", collect),
        }
    "##;
    let cs = compile_spec(src).unwrap();
    assert_eq!(cs.plans.len(), 1);
    assert_eq!(cs.plans[0].fields.len(), 3);
}

#[test]
fn compile_accepts_several_structs_and_nesting() {
    let src = r##"
        Outer {
            q: Inner = (elem of "#q"),
            all: Vec<Inner> = (elem of ".q", collect),
            maybe: Option<Inner> = (elem of "#q", optional),
        }
        Inner { n: usize = (text of ".n") }
    "##;
    let cs = compile_spec(src).unwrap();
    assert_eq!(cs.plans.len(), 2);
}

#[test]
fn lex_error_unterminated_string() {
    let r = compile_spec(r##"Foo { a: usize = (text of "#a) }"##);
    match r {
        Err(SpecError::LexFailure(e)) => assert_eq!(e.kind, LexErrKind::UnterminatedString),
        other => panic!("expected a lex failure, got {:?}", other.is_ok()),
    }
}

#[test]
fn lex_error_bad_escape() {
    let r = compile_spec("Foo { a: usize = (text of \"\\x\") }");
    match r {
        Err(SpecError::LexFailure(e)) => assert_eq!(e.kind, LexErrKind::BadEscape),
        other => panic!("expected a lex failure, got {:?}", other.is_ok()),
    }
}

#[test]
fn lex_error_integer_too_large() {
    let r = compile_spec(r##"Foo { a: usize = (text[99999999999999999999999] of "#a") }"##);
    match r {
        Err(SpecError::LexFailure(e)) => assert_eq!(e.kind, LexErrKind::IntTooLarge),
        other => panic!("expected a lex failure, got {:?}", other.is_ok()),
    }
}

#[test]
fn lex_string_escapes_are_processed() {
    // the pattern reaches the plan with the backslash-quote unescaped
    let cs = compile_spec(r##"Foo { (a: usize,) = (text of "#a", capture with "x\"(\\d)") }"##)
        .unwrap();
    assert_eq!(cs.plans[0].fields.len(), 1);
}

#[test]
fn parse_error_missing_colon() {
    let r = compile_spec(r##"Foo { a = (text of "#a") }"##);
    match r {
        Err(SpecError::ParseFailure(e)) => assert_eq!(e.expected, Expected::ExpColon),
        other => panic!("expected a parse failure, got {:?}", other.is_ok()),
    }
}

#[test]
fn parse_error_missing_eq() {
    let r = compile_spec(r##"Foo { a: usize (text of "#a") }"##);
    match r {
        Err(SpecError::ParseFailure(e)) => assert_eq!(e.expected, Expected::ExpEq),
        other => panic!("expected a parse failure, got {:?}", other.is_ok()),
    }
}

#[test]
fn parse_error_position_is_character_position() {
    //                0123456
    let r = compile_spec(r##"Foo 77 { }"##);
    match r {
        Err(SpecError::ParseFailure(e)) => {
            assert_eq!(e.expected, Expected::ExpBody);
            assert_eq!(e.pos, 4);
        },
        other => panic!("expected a parse failure, got {:?}", other.is_ok()),
    }
}

#[test]
fn parse_error_unknown_clause_keyword() {
    let r = compile_spec(r##"Foo { a: usize = (texts of "#a") }"##);
    match r {
        Err(SpecError::ParseFailure(e)) => assert_eq!(e.expected, Expected::ExpClauseKeyword),
        other => panic!("expected a parse failure, got {:?}", other.is_ok()),
    }
}

#[test]
fn parse_error_no_target() {
    let r = compile_spec(r##"Foo { a: Vec<usize> = (collect) }"##);
    match r {
        Err(SpecError::ParseFailure(e)) => assert_eq!(e.expected, Expected::ExpTarget),
        other => panic!("expected a parse failure, got {:?}", other.is_ok()),
    }
}

#[test]
fn parse_error_message_names_what_was_expected() {
    let r = compile_spec(r##"Foo { a: usize (text of "#a") }"##);
    match r {
        Err(SpecError::ParseFailure(e)) => {
            assert!(e.message().starts_with("expected `=`"));
        },
        other => panic!("expected a parse failure, got {:?}", other.is_ok()),
    }
}

fn expect_problem(src: &str) -> (String, String, ProblemKind) {
    match compile_spec(src) {
        Err(SpecError::ValidateFailure(e)) => (e.structure, e.field, e.problem),
        Ok(_) => panic!("specification was accepted"),
        Err(e) => panic!("wrong failure channel: {:?}", e),
    }
}

#[test]
fn validate_rejects_bad_selector() {
    let (s, f, p) = expect_problem(r##"Foo { a: usize = (text of "#a <<<") }"##);
    assert_eq!(s, "Foo");
    assert_eq!(f, "a");
    assert!(matches!(p, ProblemKind::BadSelector(_)));
}

#[test]
fn validate_rejects_bad_regex() {
    let (s, f, p) = expect_problem(r##"Foo { (a: usize,) = (text of "#a", capture with "(") }"##);
    assert_eq!(s, "Foo");
    assert_eq!(f, "a");
    assert!(matches!(p, ProblemKind::BadRegex(_)));
}

#[test]
fn validate_rejects_element_with_capture() {
    let (_, _, p) =
        expect_problem(r##"Foo { (a: usize,) = (elem of "#a", capture with "(.*)") } "##);
    assert!(matches!(p, ProblemKind::ElementWithCapture));
}

#[test]
fn validate_rejects_presence_with_collector() {
    let (_, _, p) = expect_problem(r##"Foo { a: bool = (presence of "#a", collect) }"##);
    assert!(matches!(p, ProblemKind::PresenceWithOther));
}

#[test]
fn validate_rejects_presence_with_capture() {
    let (_, _, p) =
        expect_problem(r##"Foo { (a: bool,) = (presence of "#a", capture with "(.*)") }"##);
    assert!(matches!(p, ProblemKind::PresenceWithOther));
}

#[test]
fn validate_rejects_presence_with_custom_parser() {
    let (_, _, p) = expect_problem(r##"Foo { a: bool = (presence of "#a", parse with myparser) }"##);
    assert!(matches!(p, ProblemKind::PresenceWithOther));
}

#[test]
fn validate_rejects_presence_on_non_bool_field() {
    let (_, _, p) = expect_problem(r##"Foo { a: usize = (presence of "#a") }"##);
    assert!(matches!(p, ProblemKind::BadType));
}

#[test]
fn validate_rejects_tuple_without_capture() {
    let (_, _, p) = expect_problem(r##"Foo { (a: usize, b: usize) = (text of "#a") }"##);
    assert!(matches!(p, ProblemKind::TupleWithoutCapture));
}

#[test]
fn validate_rejects_tuple_with_collect() {
    let (_, _, p) = expect_problem(
        r##"Foo { (a: usize,) = (text of "#a", capture with "(.*)", collect) }"##,
    );
    assert!(matches!(p, ProblemKind::TupleWithCollect));
}

#[test]
fn validate_rejects_capture_on_single_field_without_collect() {
    let (_, _, p) = expect_problem(r##"Foo { a: usize = (text of "#a", capture with "(.*)") }"##);
    assert!(matches!(p, ProblemKind::CaptureNeedsTuple));
}

#[test]
fn validate_rejects_capture_arity_mismatch() {
    // two groups after group 0, but only one tuple member
    let (_, _, p) =
        expect_problem(r##"Foo { (a: usize,) = (text of "#a", capture with "(.*)x(.*)") }"##);
    assert!(matches!(p, ProblemKind::CaptureArityMismatch));
}

#[test]
fn validate_rejects_collected_capture_arity_mismatch() {
    let (_, _, p) = expect_problem(
        r##"Foo { a: Vec<(usize, usize)> = (text of ".a", capture with "(.*)", collect) }"##,
    );
    assert!(matches!(p, ProblemKind::CaptureArityMismatch));
}

#[test]
fn validate_rejects_collector_type_mismatch() {
    // `collect` needs a container type
    let (_, _, p) = expect_problem(r##"Foo { a: usize = (text of ".a", collect) }"##);
    assert!(matches!(p, ProblemKind::BadType));
}

#[test]
fn validate_rejects_unknown_struct_reference() {
    let (_, _, p) = expect_problem(r##"Foo { q: Missing = (elem of "#q") }"##);
    assert!(matches!(p, ProblemKind::UnknownStructRef));
}

#[test]
fn validate_rejects_duplicate_struct_names() {
    let (_, _, p) = expect_problem(
        r##"Foo { a: usize = (text of "#a") } Foo { b: usize = (text of "#b") }"##,
    );
    assert!(matches!(p, ProblemKind::DuplicateStructName));
}

#[test]
fn validate_rejects_reference_cycle() {
    let src = r##"
        A { b: B = (elem of "#b") }
        B { a: A = (elem of "#a") }
    "##;
    let (_, _, p) = expect_problem(src);
    assert!(matches!(p, ProblemKind::CyclicReference));
}

#[test]
fn validate_rejects_self_reference() {
    let (_, _, p) = expect_problem(r##"A { a: A = (elem of "#a") }"##);
    assert!(matches!(p, ProblemKind::CyclicReference));
}

#[test]
fn validate_rejects_multi_token_custom_parser() {
    let (_, _, p) =
        expect_problem(r##"Foo { a: usize = (text of "#a", parse with some path) }"##);
    assert!(matches!(p, ProblemKind::CustomParserShape));
}

#[test]
fn validate_error_message_pinpoints_struct_and_field() {
    match compile_spec(r##"Good { ok: usize = (text of "#ok") } Bad { broken: usize = (presence of "#x") }"##) {
        Err(SpecError::ValidateFailure(e)) => {
            let m = e.message();
            assert!(m.contains("`Bad`"));
            assert!(m.contains("`broken`"));
        },
        other => panic!("expected a validation failure, got {:?}", other.is_ok()),
    }
}

#[test]
fn later_clauses_overwrite_earlier_ones() {
    // the second selector and the second collector win
    let cs = compile_spec(
        r##"Foo { a: Vec<usize> = (text of "#first", optional, text of "#second", collect) }"##,
    )
    .unwrap();
    assert_eq!(cs.plans[0].fields.len(), 1);
}

#[test]
fn dag_references_are_accepted() {
    let src = r##"
        A { b: B = (elem of "#b"), c: C = (elem of "#c") }
        B { c: C = (elem of "#c") }
        C { n: usize = (text of ".n") }
    "##;
    let cs = compile_spec(src).unwrap();
    assert_eq!(cs.plans.len(), 3);
}

#[test]
fn presence_rejection_does_not_depend_on_clause_order() {
    // the other specifier written before the presence target
    let (_, _, p) = expect_problem(r##"Foo { a: bool = (collect, presence of "#a") }"##);
    assert!(matches!(p, ProblemKind::PresenceWithOther));
    let (_, _, p2) = expect_problem(r##"Foo { a: bool = (optional, presence of "#a") }"##);
    assert!(matches!(p2, ProblemKind::PresenceWithOther));
}

#[test]
fn capture_without_collect_needs_matching_tuple_arity_in_any_shape() {
    // three members against two groups after group 0
    let (_, _, p) = expect_problem(
        r##"Foo { (a: usize, b: usize, c: usize) = (text of "#x", capture with "(.*)=(.*)") }"##,
    );
    assert!(matches!(p, ProblemKind::CaptureArityMismatch));
    // matching arity is accepted
    let cs = compile_spec(
        r##"Foo { (a: usize, b: usize) = (text of "#x", capture with "(.*)=(.*)") }"##,
    )
    .unwrap();
    assert_eq!(cs.plans[0].fields.len(), 1);
}

#[test]
fn validate_rejects_duplicate_field_names() {
    let (_, _, p) = expect_problem(
        r##"Foo { a: usize = (text of "#a"), a: usize = (text of "#b") }"##,
    );
    assert!(matches!(p, ProblemKind::DuplicateFieldName));
}

#[test]
fn validate_rejects_member_name_colliding_with_field_name() {
    let (_, _, p) = expect_problem(
        r##"Foo { a: usize = (text of "#a"), (b: usize, a: usize) = (text of "#x", capture with "(.*)=(.*)") }"##,
    );
    assert!(matches!(p, ProblemKind::DuplicateFieldName));
}

#[test]
fn validate_accepts_path_qualified_custom_parser() {
    let cs = compile_spec(r##"Foo { a: usize = (text of "#a", parse with my::parser) }"##)
        .unwrap();
    assert_eq!(cs.plans[0].fields.len(), 1);
}
