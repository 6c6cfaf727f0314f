//! End-to-end runs of the pipeline: lex, tokenize, evaluate, link, check,
//! interpret.

use fey::checker::{check_types, CheckOutcome};
use fey::diag::DiagKind;
use fey::linker::{Instruction, LinkedTokenData, LinkerContext};
use fey::pipeline::{parse_program, resume_program, ParseOutcome};
use fey::simulator::{simulate_tokens, SimOutcome};

fn lines_of(src: &str) -> Vec<String> {
    src.split('\n').map(|l| l.to_string()).collect()
}

fn build(src: &str) -> LinkerContext {
    match parse_program(String::from("t.fey"), lines_of(src)) {
        ParseOutcome::Program(lc) => lc,
        ParseOutcome::Import(_, _, _) => panic!("unexpected import"),
        ParseOutcome::Fail(d) => panic!("unexpected diagnostic at {}:{}", d.word.row, d.word.col),
    }
}

fn run(src: &str) -> (Vec<u64>, Vec<u64>) {
    let lc = build(src);
    match check_types(&lc, 0, 1_000_000) {
        CheckOutcome::Accepted => {}
        CheckOutcome::Rejected(_) => panic!("type checker rejected the program"),
        CheckOutcome::OutOfSteps => panic!("type checker ran out of steps"),
    }
    match simulate_tokens(&lc, 1_000_000) {
        SimOutcome::Done(out) => (out.output, out.stack),
        SimOutcome::Fault(f) => panic!("runtime fault {:?}", f),
        SimOutcome::OutOfSteps => panic!("interpreter ran out of steps"),
    }
}

#[test]
fn arithmetic_program() {
    let lc = build("1 2 + dump");
    assert_eq!(lc.result.len(), 4);
    assert!(matches!(lc.result[0].instruction, Instruction::PushInt(1)));
    assert!(matches!(lc.result[1].instruction, Instruction::PushInt(2)));
    assert!(matches!(lc.result[2].instruction, Instruction::Intrinsic(_)));
    assert!(matches!(lc.result[3].instruction, Instruction::Intrinsic(_)));
    let (output, stack) = run("1 2 + dump");
    assert_eq!(output, vec![3]);
    assert!(stack.is_empty());
}

#[test]
fn if_else_takes_the_false_branch() {
    let lc = build("1 2 > if 7 dump else 8 dump end");
    let jumpneqs = lc
        .result
        .iter()
        .filter(|t| matches!(t.instruction, Instruction::JumpNeq))
        .count();
    let jumps = lc
        .result
        .iter()
        .filter(|t| matches!(t.instruction, Instruction::Jump))
        .count();
    assert_eq!(jumpneqs, 1);
    assert_eq!(jumps, 1);
    let (output, _) = run("1 2 > if 7 dump else 8 dump end");
    assert_eq!(output, vec![8]);
}

#[test]
fn while_loop_counts_down() {
    let (output, stack) = run("3 while dup 0 > do dup dump 1 - end drop");
    assert_eq!(output, vec![3, 2, 1]);
    assert!(stack.is_empty());
}

#[test]
fn constant_is_evaluated_and_inlined() {
    let lc = build("const N 10 end N 2 * dump");
    assert!(matches!(lc.result[0].instruction, Instruction::PushInt(10)));
    let (output, _) = run("const N 10 end N 2 * dump");
    assert_eq!(output, vec![20]);
}

#[test]
fn function_layout_and_call() {
    let src = "function add (int int -> int) + end\n2 3 add dump";
    let lc = build(src);
    assert_eq!(lc.result.len(), 8);
    assert!(matches!(lc.result[0].instruction, Instruction::Jump));
    assert!(matches!(lc.result[0].data, LinkedTokenData::JumpAddr(4)));
    assert!(matches!(lc.result[1].instruction, Instruction::Function));
    assert!(matches!(lc.result[2].instruction, Instruction::Intrinsic(_)));
    assert!(matches!(lc.result[3].instruction, Instruction::Return));
    assert!(matches!(lc.result[4].instruction, Instruction::PushInt(2)));
    assert!(matches!(lc.result[5].instruction, Instruction::PushInt(3)));
    assert!(matches!(lc.result[6].instruction, Instruction::Call));
    assert!(matches!(lc.result[6].data, LinkedTokenData::JumpAddr(1)));
    let (output, _) = run(src);
    assert_eq!(output, vec![5]);
}

#[test]
fn type_mismatch_is_rejected() {
    let lc = build("1 true +");
    match check_types(&lc, 1_000_000, 1_000_000) {
        CheckOutcome::Rejected(d) => {
            assert!(matches!(d.kind, DiagKind::TypeMismatch { .. }));
        }
        _ => panic!("expected a type mismatch"),
    }
}

#[test]
fn unhandled_stack_data_is_rejected_without_overflow_allowance() {
    let lc = build("1 2");
    match check_types(&lc, 0, 1_000_000) {
        CheckOutcome::Rejected(d) => {
            assert!(matches!(d.kind, DiagKind::UnhandledStackData));
        }
        _ => panic!("expected unhandled stack data"),
    }
    match check_types(&lc, 2, 1_000_000) {
        CheckOutcome::Accepted => {}
        _ => panic!("expected acceptance with allowed overflow"),
    }
}

#[test]
fn loop_that_mutates_the_stack_is_rejected() {
    let lc = build("1 while dup 0 > do 7 end drop");
    match check_types(&lc, 0, 1_000_000) {
        CheckOutcome::Rejected(d) => {
            assert!(matches!(d.kind, DiagKind::LoopMutatesStack));
        }
        _ => panic!("expected a loop shape complaint"),
    }
}

#[test]
fn memory_store_and_load_round_trip() {
    let src = "memory cell 8 end\n300 cell store16 cell load16 dump";
    let (output, _) = run(src);
    assert_eq!(output, vec![300]);
}

#[test]
fn memory_regions_are_laid_out_in_declaration_order() {
    let lc = build("memory one 8 end memory two 4 end one two drop drop");
    assert_eq!(lc.mem_size, 12);
    // the references link to the regions' byte offsets
    assert!(matches!(lc.result[0].instruction, Instruction::PushMem(0)));
    assert!(matches!(lc.result[1].instruction, Instruction::PushMem(8)));
}

#[test]
fn pipeline_is_deterministic() {
    let src = "const N 4 end function add (int int -> int) + end\n1 N add dump";
    let a = build(src);
    let b = build(src);
    assert_eq!(
        fey::compiler_string::render_program(&a),
        fey::compiler_string::render_program(&b)
    );
}

#[test]
fn import_is_surfaced_and_resumed() {
    let src = "import \"lib.fey\"\n1 2 add2 dump";
    match parse_program(String::from("t.fey"), lines_of(src)) {
        ParseOutcome::Import(state, word, path) => {
            assert_eq!(path, "lib.fey");
            assert_eq!(word.txt, "\"lib.fey\"");
            let imported = fey::lexer::parse_lines_into_words(
                String::from("lib.fey"),
                lines_of("function add2 (int int -> int) + end"),
            )
            .unwrap();
            match resume_program(state, imported) {
                ParseOutcome::Program(lc) => match simulate_tokens(&lc, 1_000_000) {
                    SimOutcome::Done(out) => assert_eq!(out.output, vec![3]),
                    _ => panic!("expected a clean run"),
                },
                _ => panic!("expected a program after the import"),
            }
        }
        _ => panic!("expected an import"),
    }
}

#[test]
fn division_by_zero_is_a_runtime_fault() {
    let lc = build("1 0 / dump");
    match simulate_tokens(&lc, 1_000_000) {
        SimOutcome::Fault(f) => {
            assert!(matches!(f, fey::simulator::SimFault::DivisionByZero));
        }
        _ => panic!("expected a division fault"),
    }
}

#[test]
fn out_of_steps_is_reported() {
    let lc = build("1 while dup 0 > do dup dump end drop");
    match simulate_tokens(&lc, 3) {
        SimOutcome::OutOfSteps => {}
        _ => panic!("expected the step budget to run out"),
    }
}

#[test]
fn string_literal_pushes_length_then_pointer() {
    let (output, stack) = run("\"hi\" drop dump");
    // the pointer is dropped, the byte length dumped
    assert_eq!(output, vec![2]);
    assert!(stack.is_empty());
}

#[test]
fn dangling_end_is_a_linker_diagnostic() {
    match parse_program(String::from("t.fey"), lines_of("1 end")) {
        ParseOutcome::Fail(d) => assert!(matches!(d.kind, DiagKind::DanglingEnd)),
        _ => panic!("expected a dangling end"),
    }
}

#[test]
fn dangling_else_is_a_linker_diagnostic() {
    match parse_program(String::from("t.fey"), lines_of("1 else 2 end")) {
        ParseOutcome::Fail(d) => assert!(matches!(d.kind, DiagKind::DanglingElse)),
        _ => panic!("expected a dangling else"),
    }
}

#[test]
fn modular_arithmetic_wraps_at_word_width() {
    // 0 1 - wraps to the largest 64-bit word
    let (output, _) = run("0 1 - dump");
    assert_eq!(output, vec![u64::MAX]);
}
