//! Units for the single stages: lexer, number parsing and rendering,
//! tokenizer, evaluator, and the test-sidecar format.

use fey::diag::DiagKind;
use fey::evaluator::evaluate_tokens;
use fey::lexer::parse_lines_into_words;
use fey::numfmt::{parse_u32, u32_to_string, u64_to_string};
use fey::test::{parse_test_file, test_text_output};
use fey::tokenizer::{parse_words_into_tokens, Op, TokenizeOutcome};

fn lines_of(src: &str) -> Vec<String> {
    src.split('\n').map(|l| l.to_string()).collect()
}

fn lex(src: &str) -> Vec<fey::lexer::Word> {
    parse_lines_into_words(String::from("t.fey"), lines_of(src)).unwrap()
}

fn texts(src: &str) -> Vec<String> {
    lex(src).into_iter().map(|w| w.txt).collect()
}

#[test]
fn lexer_splits_on_whitespace() {
    assert_eq!(texts("1 2 +\n dump"), vec!["1", "2", "+", "dump"]);
}

#[test]
fn lexer_strips_line_comments() {
    assert_eq!(texts("1 // one\n2"), vec!["1", "2"]);
    assert_eq!(texts("ab//cd"), vec!["ab"]);
    assert_eq!(texts("//only a comment"), Vec::<String>::new());
}

#[test]
fn lexer_locates_words() {
    let ws = lex("1\n  2");
    assert_eq!((ws[0].row, ws[0].col), (0, 0));
    assert_eq!((ws[1].row, ws[1].col), (1, 2));
    assert_eq!(ws[0].file, "t.fey");
}

#[test]
fn lexer_char_literals_become_codepoints() {
    assert_eq!(texts("'a' 'A'"), vec!["97", "65"]);
    assert_eq!(texts("'\\n' '\\t'"), vec!["10", "9"]);
}

#[test]
fn lexer_rejects_long_char_literals() {
    let r = parse_lines_into_words(String::from("t.fey"), lines_of("'ab'"));
    match r {
        Err(d) => assert!(matches!(d.kind, DiagKind::InvalidCharacterLiteral)),
        Ok(_) => panic!("expected an invalid character literal"),
    }
}

#[test]
fn lexer_keeps_string_literals_whole() {
    assert_eq!(texts("\"a b\" c"), vec!["\"a b\"", "c"]);
}

#[test]
fn lexer_joins_multi_line_strings() {
    assert_eq!(texts("\"a\nb\" c"), vec!["\"a\nb\"", "c"]);
}

#[test]
fn lexer_rejects_unterminated_strings() {
    let r = parse_lines_into_words(String::from("t.fey"), lines_of("\"open\nstill open"));
    match r {
        Err(d) => assert!(matches!(d.kind, DiagKind::UnterminatedString)),
        Ok(_) => panic!("expected an unterminated string"),
    }
}

#[test]
fn parse_u32_accepts_plain_and_signed_forms() {
    assert_eq!(parse_u32("42"), Some(42));
    assert_eq!(parse_u32("+7"), Some(7));
    assert_eq!(parse_u32("0"), Some(0));
    assert_eq!(parse_u32("4294967295"), Some(u32::MAX));
}

#[test]
fn parse_u32_rejects_junk_and_overflow() {
    assert_eq!(parse_u32(""), None);
    assert_eq!(parse_u32("+"), None);
    assert_eq!(parse_u32("1a"), None);
    assert_eq!(parse_u32("-1"), None);
    assert_eq!(parse_u32("4294967296"), None);
}

#[test]
fn numbers_render_in_decimal() {
    assert_eq!(u64_to_string(0), "0");
    assert_eq!(u64_to_string(1234), "1234");
    assert_eq!(u64_to_string(u64::MAX), "18446744073709551615");
    assert_eq!(u32_to_string(305419896), "305419896");
}

fn tokenize(src: &str) -> fey::tokenizer::ParserContext {
    match parse_words_into_tokens(lex(src)) {
        TokenizeOutcome::Done(ctx) => ctx,
        _ => panic!("expected a finished tokenizing run"),
    }
}

#[test]
fn tokenizer_classifies_words() {
    let ctx = tokenize("1 true \"s\" + if end");
    let ops: Vec<&Op> = ctx.result.iter().map(|t| &t.op).collect();
    assert!(matches!(ops[0], Op::PushInt(1)));
    assert!(matches!(ops[1], Op::PushBool(true)));
    assert!(matches!(ops[2], Op::PushString(s) if s == "s"));
    assert!(matches!(ops[3], Op::Intrinsic(_)));
    assert!(matches!(ops[4], Op::If));
    assert!(matches!(ops[5], Op::End));
}

#[test]
fn tokenizer_rejects_unknown_words() {
    match parse_words_into_tokens(lex("mystery")) {
        TokenizeOutcome::Fail(d) => assert!(matches!(d.kind, DiagKind::UnknownWord)),
        _ => panic!("expected an unknown word"),
    }
}

#[test]
fn tokenizer_rejects_trailing_control_words() {
    match parse_words_into_tokens(lex("1 if")) {
        TokenizeOutcome::Fail(d) => assert!(matches!(d.kind, DiagKind::IncompleteControl)),
        _ => panic!("expected an incomplete control"),
    }
}

#[test]
fn tokenizer_rejects_duplicate_names() {
    match parse_words_into_tokens(lex("const a 1 end const a 2 end")) {
        TokenizeOutcome::Fail(d) => assert!(matches!(d.kind, DiagKind::DuplicateName)),
        _ => panic!("expected a duplicate name"),
    }
}

#[test]
fn tokenizer_reads_function_signatures() {
    let ctx = tokenize("function f (int ptr -> bool) drop drop false end");
    assert_eq!(ctx.functions.len(), 1);
    assert_eq!(ctx.functions[0].0, "f");
    assert_eq!(ctx.functions[0].1.ins.len(), 2);
    assert_eq!(ctx.functions[0].1.outs.len(), 1);
    assert!(matches!(
        ctx.functions[0].1.ins[0].typ,
        fey::checker::DataType::INT
    ));
    assert!(matches!(
        ctx.functions[0].1.ins[1].typ,
        fey::checker::DataType::PTR
    ));
    assert!(matches!(
        ctx.functions[0].1.outs[0].typ,
        fey::checker::DataType::BOOL
    ));
}

#[test]
fn tokenizer_rejects_bad_type_names() {
    match parse_words_into_tokens(lex("function f (int -> float) end")) {
        TokenizeOutcome::Fail(d) => assert!(matches!(d.kind, DiagKind::BadTypeName)),
        _ => panic!("expected a bad type name"),
    }
}

#[test]
fn evaluator_computes_constants_and_removes_their_blocks() {
    let mut ctx = tokenize("const n 2 3 + end const m n 2 * end m");
    evaluate_tokens(&mut ctx).unwrap();
    assert_eq!(ctx.constants.len(), 2);
    assert_eq!(ctx.constants[0].1.val, 5);
    assert_eq!(ctx.constants[1].1.val, 10);
    // only the reference remains in the stream
    assert_eq!(ctx.result.len(), 1);
    assert!(matches!(&ctx.result[0].op, Op::ConstRef(n) if n == "m"));
}

#[test]
fn evaluator_subtraction_order_and_wrapping() {
    let mut ctx = tokenize("const a 7 2 - end const b 0 1 - end a b");
    evaluate_tokens(&mut ctx).unwrap();
    assert_eq!(ctx.constants[0].1.val, 5);
    assert_eq!(ctx.constants[1].1.val, u32::MAX);
}

#[test]
fn evaluator_rejects_undefined_constants() {
    // the name is known to the tokenizer as soon as `const a` is read, but
    // has no value yet while its own body is evaluated
    let mut ctx = tokenize("const a a end a");
    match evaluate_tokens(&mut ctx) {
        Err(d) => assert!(matches!(d.kind, DiagKind::UndefinedConstant)),
        Ok(_) => panic!("expected an undefined constant"),
    }
}

#[test]
fn evaluator_rejects_division_in_constants() {
    let mut ctx = tokenize("const a 4 2 / end a");
    match evaluate_tokens(&mut ctx) {
        Err(d) => assert!(matches!(d.kind, DiagKind::IllegalIntrinsicInConstExpr)),
        Ok(_) => panic!("expected an illegal intrinsic"),
    }
}

#[test]
fn evaluator_requires_a_single_value() {
    let mut ctx = tokenize("const a 1 2 end a");
    match evaluate_tokens(&mut ctx) {
        Err(d) => assert!(matches!(d.kind, DiagKind::ConstExprNotSingleValue)),
        Ok(_) => panic!("expected a non-single value"),
    }
}

#[test]
fn sidecar_parses_exit_code_and_streams() {
    let lines = lines_of("0\nhello\nerr:\noops\nout:\nworld");
    let tf = parse_test_file(&lines).unwrap();
    assert_eq!(tf.exit_code, 0);
    assert_eq!(tf.stdout, vec!["hello", "world"]);
    assert_eq!(tf.stderr, vec!["oops"]);
}

#[test]
fn sidecar_accepts_negative_exit_codes() {
    let tf = parse_test_file(&lines_of("-3")).unwrap();
    assert_eq!(tf.exit_code, -3);
    assert!(tf.stdout.is_empty());
    assert!(tf.stderr.is_empty());
}

#[test]
fn sidecar_rejects_a_bad_first_line() {
    assert!(parse_test_file(&lines_of("nope\n1")).is_none());
    assert!(parse_test_file(&Vec::new()).is_none());
}

#[test]
fn text_output_compares_line_by_line() {
    let a = lines_of("a\nb");
    let b = lines_of("a\nb");
    let c = lines_of("a\nc");
    assert!(test_text_output(&a, &b));
    assert!(!test_text_output(&a, &c));
    assert!(!test_text_output(&a, &lines_of("a")));
    assert!(test_text_output(&Vec::new(), &Vec::new()));
}
