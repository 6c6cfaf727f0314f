//! Units for the linker's variable blocks, the textual backend, and the
//! helpers around the core.

use fey::checker::{check_types, get_data_type_by_text, tp, CheckOutcome, DataType};
use fey::compiler::compile;
use fey::compiler_string::{new_string_representation_compiler, render_program, stringify_op};
use fey::lexer::Word;
use fey::linker::{link_tokens, Instruction, LinkedToken, LinkedTokenData, LinkerContext};
use fey::simulator::{simulate_tokens, SimOutcome};
use fey::strutil::str_eq;
use fey::tokenizer::{Op, ParserContext, Token, VarDef};

fn word(txt: &str) -> Word {
    Word {
        file: String::from("t.fey"),
        row: 0,
        col: 0,
        txt: String::from(txt),
    }
}

fn token(txt: &str, op: Op) -> Token {
    Token {
        word: word(txt),
        op,
    }
}

fn empty_context(result: Vec<Token>) -> ParserContext {
    ParserContext {
        result,
        constants: Vec::new(),
        functions: Vec::new(),
        memories: Vec::new(),
        vars: Vec::new(),
        total_memory_size: 0,
        known_constants: Vec::new(),
        known_memories: Vec::new(),
    }
}

#[test]
fn variable_blocks_link_to_slot_operations() {
    // a block declaring x and y; the body pushes y back
    let mut ctx = empty_context(vec![
        token("10", Op::PushInt(10)),
        token("20", Op::PushInt(20)),
        token("vars", Op::Var(0)),
        token("y", Op::VarRef(String::from("y"))),
        token("dump", Op::Intrinsic(fey::tokenizer::Intrinsic::Dump)),
        token("end", Op::End),
    ]);
    ctx.vars.push(VarDef {
        names: vec![word("x"), word("y")],
    });
    let lc = link_tokens(ctx).unwrap();
    assert!(matches!(lc.result[2].instruction, Instruction::PushVars));
    assert!(matches!(lc.result[2].data, LinkedTokenData::Count(2)));
    assert!(matches!(lc.result[3].instruction, Instruction::ApplyVar));
    // y is the last name pushed, so it sits on top of the variable stack
    assert!(matches!(lc.result[3].data, LinkedTokenData::Index(0)));
    assert!(matches!(lc.result[5].instruction, Instruction::PopVars));
    assert!(matches!(lc.result[5].data, LinkedTokenData::Count(2)));
    match check_types(&lc, 0, 1_000_000) {
        CheckOutcome::Accepted => {}
        _ => panic!("expected the block to check"),
    }
    match simulate_tokens(&lc, 1_000_000) {
        SimOutcome::Done(out) => {
            // pushing the variables reverses them onto the variable stack:
            // the top of the value stack becomes the first variable slot
            assert_eq!(out.output, vec![10]);
            assert!(out.stack.is_empty());
        }
        _ => panic!("expected a clean run"),
    }
}

#[test]
fn undefined_reference_is_a_linker_diagnostic() {
    let ctx = empty_context(vec![token("f", Op::FunctionRef(String::from("f")))]);
    match link_tokens(ctx) {
        Err(d) => assert!(matches!(d.kind, fey::diag::DiagKind::UndefinedReference)),
        Ok(_) => panic!("expected an undefined reference"),
    }
}

#[test]
fn unevaluated_definitions_are_refused_by_the_linker() {
    let ctx = empty_context(vec![token("const", Op::Const(String::from("n")))]);
    match link_tokens(ctx) {
        Err(d) => assert!(matches!(d.kind, fey::diag::DiagKind::UnevaluatedDefinition)),
        Ok(_) => panic!("expected an unevaluated definition"),
    }
}

#[test]
fn constructors_build_linked_tokens() {
    let t = LinkedToken::new(word("x"), 3, Instruction::Return);
    assert_eq!(t.self_ptr, 3);
    assert!(matches!(t.data, LinkedTokenData::Empty));
    let t2 = LinkedToken::new_with_data(word("x"), 4, Instruction::Jump, LinkedTokenData::JumpAddr(9));
    assert!(matches!(t2.data, LinkedTokenData::JumpAddr(9)));
    let c = LinkerContext::new(Vec::new(), 16);
    assert_eq!(c.mem_size, 16);
    assert!(c.result.is_empty());
}

#[test]
fn data_types_are_recognized_by_keyword() {
    assert!(matches!(get_data_type_by_text("int"), Some(DataType::INT)));
    assert!(matches!(get_data_type_by_text("ptr"), Some(DataType::PTR)));
    assert!(matches!(get_data_type_by_text("bool"), Some(DataType::BOOL)));
    assert!(get_data_type_by_text("float").is_none());
    let p = tp(&word("x"), DataType::INT);
    assert!(matches!(p.typ, DataType::INT));
    assert_eq!(p.word.txt, "x");
}

#[test]
fn stringify_renders_mnemonics_and_operands() {
    let t = LinkedToken::new(word("1"), 0, Instruction::PushInt(1));
    assert_eq!(stringify_op(&t), "PUSH_INT(1)");
    let j = LinkedToken::new_with_data(word("if"), 1, Instruction::JumpNeq, LinkedTokenData::JumpAddr(7));
    assert_eq!(stringify_op(&j), "JUMP_NEQ(addr=7)");
    let pv = LinkedToken::new_with_data(word("v"), 2, Instruction::PushVars, LinkedTokenData::Count(2));
    assert_eq!(stringify_op(&pv), "PUSH_VARS(count=2)");
    let av = LinkedToken::new_with_data(word("v"), 3, Instruction::ApplyVar, LinkedTokenData::Index(1));
    assert_eq!(stringify_op(&av), "APPLY_VAR(index=1)");
}

#[test]
fn rendering_matches_the_line_format() {
    let mut c = LinkerContext::new(Vec::new(), 0);
    c.result.push(LinkedToken::new(word("1"), 0, Instruction::PushInt(1)));
    let expected = format!("[0]{:32} //t.fey:1:1\n", "PUSH_INT(1)");
    assert_eq!(render_program(&c), expected);
}

#[test]
fn compile_dispatches_only_the_textual_backend() {
    let mut c = LinkerContext::new(Vec::new(), 0);
    c.result.push(LinkedToken::new(word("1"), 0, Instruction::PushInt(1)));
    match compile("string", "prog.fey", &c) {
        Some((path, text)) => {
            assert_eq!(path, "prog.fey.cfc");
            assert_eq!(text, render_program(&c));
        }
        None => panic!("expected the textual artifact"),
    }
    assert!(compile("fasm-linux-amd64", "prog.fey", &c).is_none());
    let backend = new_string_representation_compiler("dir/prog.fey");
    assert_eq!(backend.file_path, "dir/prog.fey.cfc");
}

#[test]
fn string_equality_helper_compares_contents() {
    assert!(str_eq("abc", "abc"));
    assert!(!str_eq("abc", "abd"));
    assert!(!str_eq("abc", "ab"));
    assert!(str_eq("", ""));
}
