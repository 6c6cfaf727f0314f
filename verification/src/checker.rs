//! The type checker: data types, typed stack positions, and the abstract
//! interpretation of a linked instruction stream over type stacks.

use vstd::prelude::*;

use crate::diag::{Diag, DiagKind, DiagV, DiagKindV};
use crate::lexer::{Word, WordV};
use crate::linker::{
    FunctionRefV, Instruction, InstructionV, LinkedTokenData, LinkedTokenV, LinkerContext,
    LinkerContextV, lookup_fnref, lookup_fnref_from,
};
use crate::strutil::str_eq;
use crate::tokenizer::Intrinsic;

verus! {

/// The data types of the language's type system.
#[derive(Clone, Copy, PartialEq, Eq, Structural, Debug)]
#[allow(non_camel_case_types)]
pub enum DataType {
    INT,
    PTR,
    BOOL,
}

/// The mapping from a type keyword in a function signature to its data type.
pub open spec fn data_type_of_text(txt: Seq<char>) -> Option<DataType> {
    if txt == "int"@ {
        Some(DataType::INT)
    } else if txt == "ptr"@ {
        Some(DataType::PTR)
    } else if txt == "bool"@ {
        Some(DataType::BOOL)
    } else {
        None
    }
}

/// Recognizes the type keywords `int`, `ptr` and `bool`.
pub fn get_data_type_by_text(txt: &str) -> (r: Option<DataType>)
    ensures
        r == data_type_of_text(txt@),
{
    if crate::strutil::str_eq(txt, "int") {
        Some(DataType::INT)
    } else if crate::strutil::str_eq(txt, "ptr") {
        Some(DataType::PTR)
    } else if crate::strutil::str_eq(txt, "bool") {
        Some(DataType::BOOL)
    } else {
        None
    }
}

/// A type together with the source word that placed it, for diagnostics.
pub struct TypedPos {
    pub word: Word,
    pub typ: DataType,
}

impl Clone for TypedPos {
    fn clone(&self) -> (r: Self)
        ensures
            r.deep_view() == self.deep_view(),
    {
        TypedPos { word: self.word.clone(), typ: self.typ }
    }
}

/// The mathematical value of a [`TypedPos`].
pub ghost struct TypedPosV {
    pub word: WordV,
    pub typ: DataType,
}

impl DeepView for TypedPos {
    type V = TypedPosV;

    open spec fn deep_view(&self) -> TypedPosV {
        TypedPosV { word: self.word.deep_view(), typ: self.typ }
    }
}

/// Builds a typed position from a word and a type.
pub fn tp(word: &Word, typ: DataType) -> (r: TypedPos)
    ensures
        r.deep_view() == (TypedPosV { word: word.deep_view(), typ }),
{
    TypedPos { word: word.clone(), typ }
}

/// A typed position standing for the given operation word.
pub open spec fn tpv(w: WordV, t: DataType) -> TypedPosV {
    TypedPosV { word: w, typ: t }
}

/// Consumes one value of type `t` from the abstract stack.
pub open spec fn consume1(stack: Seq<TypedPosV>, t: DataType, w: WordV) -> Result<
    Seq<TypedPosV>,
    DiagV,
> {
    if stack.len() == 0 {
        Err(DiagV { word: w, kind: DiagKindV::ArityUnderflow })
    } else if stack.last().typ != t {
        Err(
            DiagV {
                word: w,
                kind: DiagKindV::TypeMismatch {
                    arg: 0,
                    expected: t,
                    expected_at: w,
                    actual: stack.last().typ,
                    actual_at: stack.last().word,
                },
            },
        )
    } else {
        Ok(stack.drop_last())
    }
}

/// Consumes two values from the abstract stack: `t2` on top, `t1` below it.
pub open spec fn consume2(stack: Seq<TypedPosV>, t1: DataType, t2: DataType, w: WordV) -> Result<
    Seq<TypedPosV>,
    DiagV,
> {
    if stack.len() == 0 {
        Err(DiagV { word: w, kind: DiagKindV::ArityUnderflow })
    } else if stack.last().typ != t2 {
        Err(
            DiagV {
                word: w,
                kind: DiagKindV::TypeMismatch {
                    arg: 0,
                    expected: t2,
                    expected_at: w,
                    actual: stack.last().typ,
                    actual_at: stack.last().word,
                },
            },
        )
    } else if stack.len() == 1 {
        Err(DiagV { word: w, kind: DiagKindV::ArityUnderflow })
    } else if stack[stack.len() - 2].typ != t1 {
        Err(
            DiagV {
                word: w,
                kind: DiagKindV::TypeMismatch {
                    arg: 1,
                    expected: t1,
                    expected_at: w,
                    actual: stack[stack.len() - 2].typ,
                    actual_at: stack[stack.len() - 2].word,
                },
            },
        )
    } else {
        Ok(stack.take(stack.len() - 2))
    }
}

/// Consumes a declared input list from the abstract stack, top of the stack
/// against the last input.
pub open spec fn consume_list(
    stack: Seq<TypedPosV>,
    ins: Seq<TypedPosV>,
    argn: int,
    w: WordV,
) -> Result<Seq<TypedPosV>, DiagV>
    decreases ins.len(),
{
    if ins.len() == 0 {
        Ok(stack)
    } else if stack.len() == 0 {
        Err(DiagV { word: w, kind: DiagKindV::ArityUnderflow })
    } else if stack.last().typ != ins.last().typ {
        Err(
            DiagV {
                word: w,
                kind: DiagKindV::TypeMismatch {
                    arg: argn,
                    expected: ins.last().typ,
                    expected_at: ins.last().word,
                    actual: stack.last().typ,
                    actual_at: stack.last().word,
                },
            },
        )
    } else {
        consume_list(stack.drop_last(), ins.drop_last(), argn + 1, w)
    }
}

/// What one intrinsic does to the abstract stack. Arithmetic and bitwise
/// intrinsics take integers; `+` and `-` alternatively take a pointer with
/// an integer offset and yield a pointer; comparisons take a matching pair
/// and yield a boolean; loads take a pointer, stores a value and a pointer.
pub open spec fn intrinsic_step(i: Intrinsic, stack: Seq<TypedPosV>, w: WordV) -> Result<
    Seq<TypedPosV>,
    DiagV,
> {
    match i {
        Intrinsic::Dump => if stack.len() == 0 {
            Err(DiagV { word: w, kind: DiagKindV::ArityUnderflow })
        } else {
            Ok(stack.drop_last())
        },
        Intrinsic::Drop => if stack.len() == 0 {
            Err(DiagV { word: w, kind: DiagKindV::ArityUnderflow })
        } else {
            Ok(stack.drop_last())
        },
        Intrinsic::Dup => if stack.len() == 0 {
            Err(DiagV { word: w, kind: DiagKindV::ArityUnderflow })
        } else {
            Ok(stack.push(stack.last()))
        },
        Intrinsic::Over => if stack.len() < 2 {
            Err(DiagV { word: w, kind: DiagKindV::ArityUnderflow })
        } else {
            Ok(stack.push(stack[stack.len() - 2]))
        },
        Intrinsic::Swap => if stack.len() < 2 {
            Err(DiagV { word: w, kind: DiagKindV::ArityUnderflow })
        } else {
            Ok(
                stack.take(stack.len() - 2).push(stack.last()).push(stack[stack.len() - 2]),
            )
        },
        Intrinsic::Rot => if stack.len() < 3 {
            Err(DiagV { word: w, kind: DiagKindV::ArityUnderflow })
        } else {
            Ok(
                stack.take(stack.len() - 3).push(stack[stack.len() - 2]).push(
                    stack[stack.len() - 3],
                ).push(stack.last()),
            )
        },
        Intrinsic::Add | Intrinsic::Subtract => match consume2(stack, DataType::INT, DataType::INT, w) {
            Ok(s) => Ok(s.push(tpv(w, DataType::INT))),
            Err(e) => match consume2(stack, DataType::PTR, DataType::INT, w) {
                Ok(s) => Ok(s.push(tpv(w, DataType::PTR))),
                Err(_) => Err(e),
            },
        },
        Intrinsic::Multiply | Intrinsic::Divide | Intrinsic::Modulo | Intrinsic::ShiftLeft
            | Intrinsic::ShiftRight | Intrinsic::BitAnd | Intrinsic::BitOr
            | Intrinsic::BitXor => match consume2(stack, DataType::INT, DataType::INT, w) {
            Ok(s) => Ok(s.push(tpv(w, DataType::INT))),
            Err(e) => Err(e),
        },
        Intrinsic::Equals | Intrinsic::NotEquals | Intrinsic::Less | Intrinsic::Greater
            | Intrinsic::LessOrEqual | Intrinsic::GreaterOrEqual => match consume2(
            stack,
            DataType::INT,
            DataType::INT,
            w,
        ) {
            Ok(s) => Ok(s.push(tpv(w, DataType::BOOL))),
            Err(e) => match consume2(stack, DataType::PTR, DataType::PTR, w) {
                Ok(s) => Ok(s.push(tpv(w, DataType::BOOL))),
                Err(_) => match consume2(stack, DataType::BOOL, DataType::BOOL, w) {
                    Ok(s) => Ok(s.push(tpv(w, DataType::BOOL))),
                    Err(_) => Err(e),
                },
            },
        },
        Intrinsic::Store8 | Intrinsic::Store16 | Intrinsic::Store32 => match consume2(
            stack,
            DataType::INT,
            DataType::PTR,
            w,
        ) {
            Ok(s) => Ok(s),
            Err(e) => Err(e),
        },
        Intrinsic::Load8 | Intrinsic::Load16 | Intrinsic::Load32 => match consume1(
            stack,
            DataType::PTR,
            w,
        ) {
            Ok(s) => Ok(s.push(tpv(w, DataType::INT))),
            Err(e) => Err(e),
        },
    }
}

/// Output validation: the stack against the expected outputs, allowing
/// `ovf` extra values to remain.
pub open spec fn check_outputs_spec(
    stack: Seq<TypedPosV>,
    outs: Seq<TypedPosV>,
    ovf: int,
) -> Result<(), DiagV>
    decreases stack.len() + outs.len(),
{
    if stack.len() > 0 && outs.len() > 0 {
        if stack.last().typ != outs.last().typ {
            Err(
                DiagV {
                    word: stack.last().word,
                    kind: DiagKindV::TypeMismatch {
                        arg: 0,
                        expected: outs.last().typ,
                        expected_at: outs.last().word,
                        actual: stack.last().typ,
                        actual_at: stack.last().word,
                    },
                },
            )
        } else {
            check_outputs_spec(stack.drop_last(), outs.drop_last(), ovf)
        }
    } else if stack.len() > outs.len() + ovf {
        Err(DiagV { word: stack.last().word, kind: DiagKindV::UnhandledStackData })
    } else if stack.len() < outs.len() {
        Err(DiagV { word: outs.last().word, kind: DiagKindV::MissingStackData })
    } else {
        Ok(())
    }
}

/// One control-flow path the checker still has to trace: its abstract
/// stack, its instruction pointer, and the outputs owed when it ends.
pub struct CheckCtx {
    pub stack: Vec<TypedPos>,
    pub ptr: usize,
    pub outs: Vec<TypedPos>,
}

/// The mathematical value of a [`CheckCtx`].
#[verifier::ext_equal]
pub ghost struct CheckCtxV {
    pub stack: Seq<TypedPosV>,
    pub ptr: usize,
    pub outs: Seq<TypedPosV>,
}

impl DeepView for CheckCtx {
    type V = CheckCtxV;

    open spec fn deep_view(&self) -> CheckCtxV {
        CheckCtxV { stack: self.stack.deep_view(), ptr: self.ptr, outs: self.outs.deep_view() }
    }
}

/// The checker's whole state: the pending paths and the loop heads already
/// visited with the stack shape recorded there.
#[verifier::ext_equal]
pub ghost struct CheckStateV {
    pub contexts: Seq<CheckCtxV>,
    pub visited: Seq<(usize, Seq<TypedPosV>)>,
}

/// What one checker step yields: a new state, or a verdict.
pub ghost enum CheckStepV {
    More(CheckStateV),
    Stop(Result<(), DiagV>),
}

/// The recorded stack shape for a loop head, if any.
pub open spec fn lookup_visited_from(
    visited: Seq<(usize, Seq<TypedPosV>)>,
    i: int,
    p: usize,
) -> Option<Seq<TypedPosV>>
    decreases visited.len() - i,
{
    if i < 0 || i >= visited.len() {
        None
    } else if visited[i].0 == p {
        Some(visited[i].1)
    } else {
        lookup_visited_from(visited, i + 1, p)
    }
}

/// The recorded stack shape for a loop head, if any.
pub open spec fn lookup_visited(visited: Seq<(usize, Seq<TypedPosV>)>, p: usize) -> Option<
    Seq<TypedPosV>,
> {
    lookup_visited_from(visited, 0, p)
}

/// The types of a stack shape, locations stripped.
pub open spec fn types_of(s: Seq<TypedPosV>) -> Seq<DataType> {
    Seq::new(s.len(), |i: int| s[i].typ)
}

/// One step of the checker: take the most recently forked path and trace
/// one instruction of it. This is the type checker's defining equation.
pub open spec fn check_step(
    prog: Seq<LinkedTokenV>,
    sigs: Seq<(Seq<char>, FunctionRefV)>,
    ovf: int,
    st: CheckStateV,
) -> CheckStepV {
    let ctx = st.contexts.last();
    let rest = st.contexts.drop_last();
    if ctx.ptr >= prog.len() {
        match check_outputs_spec(ctx.stack, ctx.outs, ovf) {
            Ok(_) => CheckStepV::More(CheckStateV { contexts: rest, ..st }),
            Err(d) => CheckStepV::Stop(Err(d)),
        }
    } else {
        let op = prog[ctx.ptr as int];
        let w = op.word;
        match op.instruction {
            InstructionV::PushInt(_) => CheckStepV::More(
                CheckStateV {
                    contexts: rest.push(
                        CheckCtxV {
                            stack: ctx.stack.push(tpv(w, DataType::INT)),
                            ptr: (ctx.ptr + 1) as usize,
                            ..ctx
                        },
                    ),
                    ..st
                },
            ),
            InstructionV::PushPtr(_) => CheckStepV::More(
                CheckStateV {
                    contexts: rest.push(
                        CheckCtxV {
                            stack: ctx.stack.push(tpv(w, DataType::PTR)),
                            ptr: (ctx.ptr + 1) as usize,
                            ..ctx
                        },
                    ),
                    ..st
                },
            ),
            InstructionV::PushMem(_) => CheckStepV::More(
                CheckStateV {
                    contexts: rest.push(
                        CheckCtxV {
                            stack: ctx.stack.push(tpv(w, DataType::PTR)),
                            ptr: (ctx.ptr + 1) as usize,
                            ..ctx
                        },
                    ),
                    ..st
                },
            ),
            InstructionV::PushBool(_) => CheckStepV::More(
                CheckStateV {
                    contexts: rest.push(
                        CheckCtxV {
                            stack: ctx.stack.push(tpv(w, DataType::BOOL)),
                            ptr: (ctx.ptr + 1) as usize,
                            ..ctx
                        },
                    ),
                    ..st
                },
            ),
            InstructionV::PushString(_) => CheckStepV::More(
                CheckStateV {
                    contexts: rest.push(
                        CheckCtxV {
                            stack: ctx.stack.push(tpv(w, DataType::INT)).push(tpv(w, DataType::PTR)),
                            ptr: (ctx.ptr + 1) as usize,
                            ..ctx
                        },
                    ),
                    ..st
                },
            ),
            InstructionV::Intrinsic(i) => match intrinsic_step(i, ctx.stack, w) {
                Err(d) => CheckStepV::Stop(Err(d)),
                Ok(s) => CheckStepV::More(
                    CheckStateV {
                        contexts: rest.push(
                            CheckCtxV { stack: s, ptr: (ctx.ptr + 1) as usize, ..ctx },
                        ),
                        ..st
                    },
                ),
            },
            InstructionV::Function => match op.data {
                LinkedTokenData::JumpAddr(p) => CheckStepV::More(
                    CheckStateV { contexts: rest.push(CheckCtxV { ptr: p, ..ctx }), ..st },
                ),
                _ => CheckStepV::Stop(Err(DiagV { word: w, kind: DiagKindV::MissingEnd })),
            },
            InstructionV::Call => match lookup_fnref(sigs, w.txt) {
                None => CheckStepV::Stop(
                    Err(DiagV { word: w, kind: DiagKindV::UndefinedReference }),
                ),
                Some(fr) => match consume_list(ctx.stack, fr.ins, 0, w) {
                    Err(d) => CheckStepV::Stop(Err(d)),
                    Ok(s) => CheckStepV::More(
                        CheckStateV {
                            contexts: rest.push(
                                CheckCtxV {
                                    stack: s + fr.outs,
                                    ptr: (ctx.ptr + 1) as usize,
                                    ..ctx
                                },
                            ),
                            ..st
                        },
                    ),
                },
            },
            InstructionV::Return => match check_outputs_spec(ctx.stack, ctx.outs, 0) {
                Ok(_) => CheckStepV::More(CheckStateV { contexts: rest, ..st }),
                Err(d) => CheckStepV::Stop(Err(d)),
            },
            InstructionV::PushVars => match op.data {
                LinkedTokenData::Count(k) => if ctx.stack.len() < k {
                    CheckStepV::Stop(Err(DiagV { word: w, kind: DiagKindV::ArityUnderflow }))
                } else {
                    CheckStepV::More(
                        CheckStateV {
                            contexts: rest.push(
                                CheckCtxV {
                                    stack: ctx.stack.take(ctx.stack.len() - k),
                                    ptr: (ctx.ptr + 1) as usize,
                                    ..ctx
                                },
                            ),
                            ..st
                        },
                    )
                },
                _ => CheckStepV::Stop(Err(DiagV { word: w, kind: DiagKindV::MissingEnd })),
            },
            InstructionV::PopVars => CheckStepV::More(
                CheckStateV {
                    contexts: rest.push(CheckCtxV { ptr: (ctx.ptr + 1) as usize, ..ctx }),
                    ..st
                },
            ),
            InstructionV::ApplyVar => CheckStepV::More(
                CheckStateV {
                    contexts: rest.push(
                        CheckCtxV {
                            stack: ctx.stack.push(tpv(w, DataType::INT)),
                            ptr: (ctx.ptr + 1) as usize,
                            ..ctx
                        },
                    ),
                    ..st
                },
            ),
            InstructionV::Jump => match op.data {
                LinkedTokenData::JumpAddr(p) => CheckStepV::More(
                    CheckStateV { contexts: rest.push(CheckCtxV { ptr: p, ..ctx }), ..st },
                ),
                _ => CheckStepV::Stop(Err(DiagV { word: w, kind: DiagKindV::MissingEnd })),
            },
            InstructionV::JumpNeq => match consume1(ctx.stack, DataType::BOOL, w) {
                Err(d) => CheckStepV::Stop(Err(d)),
                Ok(s) => match op.data {
                    LinkedTokenData::JumpAddr(p) => CheckStepV::More(
                        CheckStateV {
                            contexts: rest.push(
                                CheckCtxV { stack: s, ptr: (ctx.ptr + 1) as usize, ..ctx },
                            ).push(CheckCtxV { stack: s, ptr: p, outs: ctx.outs }),
                            ..st
                        },
                    ),
                    _ => CheckStepV::Stop(Err(DiagV { word: w, kind: DiagKindV::MissingEnd })),
                },
            },
            InstructionV::Do => match consume1(ctx.stack, DataType::BOOL, w) {
                Err(d) => CheckStepV::Stop(Err(d)),
                Ok(s) => match lookup_visited(st.visited, ctx.ptr) {
                    None => match op.data {
                        LinkedTokenData::JumpAddr(p) => CheckStepV::More(
                            CheckStateV {
                                contexts: rest.push(
                                    CheckCtxV { stack: s, ptr: (ctx.ptr + 1) as usize, ..ctx },
                                ).push(CheckCtxV { stack: s, ptr: p, outs: ctx.outs }),
                                visited: st.visited.push((ctx.ptr, s)),
                            },
                        ),
                        _ => CheckStepV::Stop(
                            Err(DiagV { word: w, kind: DiagKindV::MissingEnd }),
                        ),
                    },
                    Some(recorded) => if types_of(recorded) == types_of(s) {
                        CheckStepV::More(CheckStateV { contexts: rest, ..st })
                    } else {
                        CheckStepV::Stop(
                            Err(DiagV { word: w, kind: DiagKindV::LoopMutatesStack }),
                        )
                    },
                },
            },
        }
    }
}

/// Running the checker for at most `fuel` steps: the verdict, or `None`
/// when the paths were not exhausted within the budget.
pub open spec fn check_run(
    prog: Seq<LinkedTokenV>,
    sigs: Seq<(Seq<char>, FunctionRefV)>,
    ovf: int,
    st: CheckStateV,
    fuel: nat,
) -> Option<Result<(), DiagV>>
    decreases fuel,
{
    if st.contexts.len() == 0 {
        Some(Ok(()))
    } else if fuel == 0 {
        None
    } else {
        match check_step(prog, sigs, ovf, st) {
            CheckStepV::Stop(r) => Some(r),
            CheckStepV::More(st2) => check_run(prog, sigs, ovf, st2, (fuel - 1) as nat),
        }
    }
}

/// The checker's starting state: one path at the start of the stream with
/// an empty stack and no owed outputs.
pub open spec fn init_check_state() -> CheckStateV {
    CheckStateV {
        contexts: seq![CheckCtxV { stack: Seq::empty(), ptr: 0, outs: Seq::empty() }],
        visited: Seq::empty(),
    }
}

/// What a full type check of a linked stream yields, with a step budget.
pub open spec fn check_types_spec(lc: LinkerContextV, ovf: int, fuel: nat) -> Option<
    Result<(), DiagV>,
> {
    check_run(lc.result, lc.functions, ovf, init_check_state(), fuel)
}

/// The checker's verdict.
pub enum CheckOutcome {
    /// Every traced path matches its declared stack shape.
    Accepted,
    /// A diagnostic.
    Rejected(Diag),
    /// The step budget ran out before all paths were traced.
    OutOfSteps,
}

/// Relates an executable verdict to the specification's.
pub open spec fn check_matches(r: CheckOutcome, s: Option<Result<(), DiagV>>) -> bool {
    match r {
        CheckOutcome::Accepted => s == Some(Ok::<(), DiagV>(())),
        CheckOutcome::Rejected(d) => s == Some(Err::<(), DiagV>(d.deep_view())),
        CheckOutcome::OutOfSteps => s is None,
    }
}

/// Clones a typed stack.
pub(crate) fn clone_typed_vec(v: &Vec<TypedPos>) -> (r: Vec<TypedPos>)
    ensures
        r.deep_view() == v.deep_view(),
{
    let mut r: Vec<TypedPos> = Vec::new();
    let mut i: usize = 0;
    while i < v.len()
        invariant
            i <= v@.len(),
            r@.len() == i,
            forall|j: int| 0 <= j < i ==> r.deep_view()[j] == v.deep_view()[j],
        decreases v@.len() - i,
    {
        r.push(v[i].clone());
        i += 1;
    }
    proof {
        assert(r.deep_view() =~= v.deep_view());
    }
    r
}

/// Decides [`consume1`], yielding the new stack.
fn consume1_try(stack: &Vec<TypedPos>, t: DataType, w: &Word) -> (r: Result<Vec<TypedPos>, Diag>)
    ensures
        match r {
            Ok(ns) => consume1(stack.deep_view(), t, w.deep_view()) == Ok::<Seq<TypedPosV>, DiagV>(
                ns.deep_view(),
            ),
            Err(d) => consume1(stack.deep_view(), t, w.deep_view()) == Err::<
                Seq<TypedPosV>,
                DiagV,
            >(d.deep_view()),
        },
{
    let n = stack.len();
    if n == 0 {
        return Err(Diag { word: w.clone(), kind: DiagKind::ArityUnderflow });
    }
    let a = &stack[n - 1];
    proof {
        assert(a.deep_view() == stack.deep_view().last());
    }
    if !datatype_eq(a.typ, t) {
        return Err(
            Diag {
                word: w.clone(),
                kind: DiagKind::TypeMismatch {
                    arg: 0,
                    expected: t,
                    expected_at: w.clone(),
                    actual: a.typ,
                    actual_at: a.word.clone(),
                },
            },
        );
    }
    let mut ns = clone_typed_vec(stack);
    let ghost pre = ns.deep_view();
    ns.pop();
    proof {
        assert(ns.deep_view() =~= pre.drop_last());
    }
    Ok(ns)
}

/// Decides [`consume2`], yielding the new stack.
fn consume2_try(stack: &Vec<TypedPos>, t1: DataType, t2: DataType, w: &Word) -> (r: Result<
    Vec<TypedPos>,
    Diag,
>)
    ensures
        match r {
            Ok(ns) => consume2(stack.deep_view(), t1, t2, w.deep_view()) == Ok::<
                Seq<TypedPosV>,
                DiagV,
            >(ns.deep_view()),
            Err(d) => consume2(stack.deep_view(), t1, t2, w.deep_view()) == Err::<
                Seq<TypedPosV>,
                DiagV,
            >(d.deep_view()),
        },
{
    let n = stack.len();
    if n == 0 {
        return Err(Diag { word: w.clone(), kind: DiagKind::ArityUnderflow });
    }
    let a = &stack[n - 1];
    proof {
        assert(a.deep_view() == stack.deep_view().last());
    }
    if !datatype_eq(a.typ, t2) {
        return Err(
            Diag {
                word: w.clone(),
                kind: DiagKind::TypeMismatch {
                    arg: 0,
                    expected: t2,
                    expected_at: w.clone(),
                    actual: a.typ,
                    actual_at: a.word.clone(),
                },
            },
        );
    }
    if n == 1 {
        return Err(Diag { word: w.clone(), kind: DiagKind::ArityUnderflow });
    }
    let b = &stack[n - 2];
    proof {
        assert(b.deep_view() == stack.deep_view()[n - 2]);
    }
    if !datatype_eq(b.typ, t1) {
        return Err(
            Diag {
                word: w.clone(),
                kind: DiagKind::TypeMismatch {
                    arg: 1,
                    expected: t1,
                    expected_at: w.clone(),
                    actual: b.typ,
                    actual_at: b.word.clone(),
                },
            },
        );
    }
    let mut ns = clone_typed_vec(stack);
    let ghost pre = ns.deep_view();
    ns.truncate(n - 2);
    proof {
        assert(ns.deep_view() =~= pre.take(n - 2));
    }
    Ok(ns)
}

/// Compares two data types.
fn datatype_eq(a: DataType, b: DataType) -> (r: bool)
    ensures
        r == (a == b),
{
    match (a, b) {
        (DataType::INT, DataType::INT) => true,
        (DataType::PTR, DataType::PTR) => true,
        (DataType::BOOL, DataType::BOOL) => true,
        _ => false,
    }
}

/// Decides [`consume_list`], yielding the new stack.
fn consume_list_try(stack: &Vec<TypedPos>, ins: &Vec<TypedPos>, w: &Word) -> (r: Result<
    Vec<TypedPos>,
    Diag,
>)
    ensures
        match r {
            Ok(ns) => consume_list(stack.deep_view(), ins.deep_view(), 0, w.deep_view()) == Ok::<
                Seq<TypedPosV>,
                DiagV,
            >(ns.deep_view()),
            Err(d) => consume_list(stack.deep_view(), ins.deep_view(), 0, w.deep_view()) == Err::<
                Seq<TypedPosV>,
                DiagV,
            >(d.deep_view()),
        },
{
    let ghost s0 = stack.deep_view();
    let ghost i0 = ins.deep_view();
    let ghost wv = w.deep_view();
    let sn = stack.len();
    let inn = ins.len();
    let mut j: usize = 0;
    proof {
        assert(s0.take(sn as int) =~= s0);
        assert(i0.take(inn as int) =~= i0);
    }
    while j < inn
        invariant
            j <= inn,
            j <= sn,
            sn == s0.len(),
            inn == i0.len(),
            s0 == stack.deep_view(),
            i0 == ins.deep_view(),
            wv == w.deep_view(),
            consume_list(s0, i0, 0, wv) == consume_list(
                s0.take(sn - j),
                i0.take(inn - j),
                j as int,
                wv,
            ),
        decreases inn - j,
    {
        proof {
            assert(i0.take(inn - j).last() == i0[inn - j - 1]);
        }
        if j >= sn {
            proof {
                assert(s0.take(sn - j).len() == 0);
            }
            return Err(Diag { word: w.clone(), kind: DiagKind::ArityUnderflow });
        }
        let a = &stack[sn - 1 - j];
        let e = &ins[inn - 1 - j];
        proof {
            assert(a.deep_view() == s0.take(sn - j).last());
            assert(e.deep_view() == i0.take(inn - j).last());
        }
        if !datatype_eq(a.typ, e.typ) {
            return Err(
                Diag {
                    word: w.clone(),
                    kind: DiagKind::TypeMismatch {
                        arg: j,
                        expected: e.typ,
                        expected_at: e.word.clone(),
                        actual: a.typ,
                        actual_at: a.word.clone(),
                    },
                },
            );
        }
        proof {
            assert(s0.take(sn - j).drop_last() =~= s0.take(sn - (j + 1)));
            assert(i0.take(inn - j).drop_last() =~= i0.take(inn - (j + 1)));
        }
        j += 1;
    }
    proof {
        assert(i0.take(inn - j).len() == 0);
    }
    let mut ns = clone_typed_vec(stack);
    let ghost pre = ns.deep_view();
    ns.truncate(sn - inn);
    proof {
        assert(ns.deep_view() =~= pre.take(sn - inn));
    }
    Ok(ns)
}

/// Decides [`check_outputs_spec`].
fn check_outputs_try(stack: &Vec<TypedPos>, outs: &Vec<TypedPos>, ovf: usize) -> (r: Result<
    (),
    Diag,
>)
    ensures
        match r {
            Ok(_) => check_outputs_spec(stack.deep_view(), outs.deep_view(), ovf as int) == Ok::<
                (),
                DiagV,
            >(()),
            Err(d) => check_outputs_spec(stack.deep_view(), outs.deep_view(), ovf as int) == Err::<
                (),
                DiagV,
            >(d.deep_view()),
        },
{
    let ghost s0 = stack.deep_view();
    let ghost o0 = outs.deep_view();
    let sn = stack.len();
    let on = outs.len();
    let m = if sn < on {
        sn
    } else {
        on
    };
    let mut j: usize = 0;
    proof {
        assert(s0.take(sn as int) =~= s0);
        assert(o0.take(on as int) =~= o0);
    }
    while j < m
        invariant
            j <= m,
            m <= sn,
            m <= on,
            sn == s0.len(),
            on == o0.len(),
            s0 == stack.deep_view(),
            o0 == outs.deep_view(),
            check_outputs_spec(s0, o0, ovf as int) == check_outputs_spec(
                s0.take(sn - j),
                o0.take(on - j),
                ovf as int,
            ),
        decreases m - j,
    {
        let a = &stack[sn - 1 - j];
        let e = &outs[on - 1 - j];
        proof {
            assert(a.deep_view() == s0.take(sn - j).last());
            assert(e.deep_view() == o0.take(on - j).last());
        }
        if !datatype_eq(a.typ, e.typ) {
            return Err(
                Diag {
                    word: a.word.clone(),
                    kind: DiagKind::TypeMismatch {
                        arg: 0,
                        expected: e.typ,
                        expected_at: e.word.clone(),
                        actual: a.typ,
                        actual_at: a.word.clone(),
                    },
                },
            );
        }
        proof {
            assert(s0.take(sn - j).drop_last() =~= s0.take(sn - (j + 1)));
            assert(o0.take(on - j).drop_last() =~= o0.take(on - (j + 1)));
        }
        j += 1;
    }
    if sn > ovf && sn - ovf > on {
        proof {
            assert(sn - m > 0);
            assert(s0.take(sn - m).last() == s0[sn - m - 1]);
        }
        let worst = &stack[sn - m - 1];
        return Err(Diag { word: worst.word.clone(), kind: DiagKind::UnhandledStackData });
    }
    if sn < on {
        proof {
            assert(o0.take(on - m).last() == o0[on - m - 1]);
        }
        let missing = &outs[on - m - 1];
        return Err(Diag { word: missing.word.clone(), kind: DiagKind::MissingStackData });
    }
    Ok(())
}

/// Scans the function table for the signature a call word names.
fn find_signature(sigs: &Vec<(String, crate::linker::FunctionRef)>, name: &str) -> (r: Option<
    (Vec<TypedPos>, Vec<TypedPos>),
>)
    ensures
        match r {
            Some(io) => lookup_fnref(sigs.deep_view(), name@) is Some && lookup_fnref(
                sigs.deep_view(),
                name@,
            )->Some_0.ins == io.0.deep_view() && lookup_fnref(
                sigs.deep_view(),
                name@,
            )->Some_0.outs == io.1.deep_view(),
            None => lookup_fnref(sigs.deep_view(), name@) is None,
        },
{
    let ghost fv = sigs.deep_view();
    let mut i: usize = 0;
    while i < sigs.len()
        invariant
            i <= sigs@.len(),
            fv == sigs.deep_view(),
            lookup_fnref(fv, name@) == lookup_fnref_from(fv, i as int, name@),
        decreases sigs@.len() - i,
    {
        if str_eq(sigs[i].0.as_str(), name) {
            let ins = clone_typed_vec(&sigs[i].1.ins);
            let outs = clone_typed_vec(&sigs[i].1.outs);
            return Some((ins, outs));
        }
        i += 1;
    }
    None
}

/// Scans the visited-loop table for an instruction index.
fn find_visited(visited: &Vec<(usize, Vec<TypedPos>)>, p: usize) -> (r: Option<usize>)
    ensures
        match r {
            Some(ix) => ix < visited@.len() && visited.deep_view()[ix as int].0 == p
                && lookup_visited(visited.deep_view(), p) == Some(
                visited.deep_view()[ix as int].1,
            ),
            None => lookup_visited(visited.deep_view(), p) is None,
        },
{
    let ghost vv = visited.deep_view();
    let mut i: usize = 0;
    while i < visited.len()
        invariant
            i <= visited@.len(),
            vv == visited.deep_view(),
            lookup_visited(vv, p) == lookup_visited_from(vv, i as int, p),
        decreases visited@.len() - i,
    {
        if visited[i].0 == p {
            return Some(i);
        }
        i += 1;
    }
    None
}

/// Compares two stack shapes by their types alone.
fn types_eq(a: &Vec<TypedPos>, b: &Vec<TypedPos>) -> (r: bool)
    ensures
        r == (types_of(a.deep_view()) == types_of(b.deep_view())),
{
    if a.len() != b.len() {
        proof {
            assert(types_of(a.deep_view()).len() != types_of(b.deep_view()).len());
        }
        return false;
    }
    let n = a.len();
    let mut i: usize = 0;
    while i < n
        invariant
            i <= n,
            n == a@.len(),
            n == b@.len(),
            forall|j: int| 0 <= j < i ==> a.deep_view()[j].typ == b.deep_view()[j].typ,
        decreases n - i,
    {
        if !datatype_eq(a[i].typ, b[i].typ) {
            proof {
                assert(types_of(a.deep_view())[i as int] != types_of(b.deep_view())[i as int]);
            }
            return false;
        }
        i += 1;
    }
    proof {
        assert(types_of(a.deep_view()) =~= types_of(b.deep_view()));
    }
    true
}

/// Type-checks a linked stream by abstract interpretation over type stacks,
/// tracing every control-flow path, within a step budget.
#[verifier::rlimit(60)]
pub fn check_types(
    linker_context: &LinkerContext,
    allowed_overflow: usize,
    max_steps: u64,
) -> (r: CheckOutcome)
    ensures
        check_matches(
            r,
            check_types_spec(linker_context.deep_view(), allowed_overflow as int, max_steps as nat),
        ),
{
    let ghost lcv = linker_context.deep_view();
    let ghost target = check_types_spec(lcv, allowed_overflow as int, max_steps as nat);
    let mut contexts: Vec<CheckCtx> = Vec::new();
    contexts.push(CheckCtx { stack: Vec::new(), ptr: 0, outs: Vec::new() });
    let mut visited: Vec<(usize, Vec<TypedPos>)> = Vec::new();
    let mut fuel: u64 = max_steps;
    proof {
        assert(contexts.deep_view() =~~= init_check_state().contexts);
        assert(visited.deep_view() =~= init_check_state().visited);
        assert((CheckStateV { contexts: contexts.deep_view(), visited: visited.deep_view() })
            =~~= init_check_state());
    }
    while contexts.len() > 0 && fuel > 0
        invariant
            lcv == linker_context.deep_view(),
            target == check_types_spec(lcv, allowed_overflow as int, max_steps as nat),
            target == check_run(
                lcv.result,
                lcv.functions,
                allowed_overflow as int,
                CheckStateV { contexts: contexts.deep_view(), visited: visited.deep_view() },
                fuel as nat,
            ),
        decreases fuel,
    {
        let ghost st = CheckStateV { contexts: contexts.deep_view(), visited: visited.deep_view() };
        let ghost step = check_step(lcv.result, lcv.functions, allowed_overflow as int, st);
        let mut cur = match contexts.pop() {
            Some(c) => c,
            None => {
                proof {
                    assert(false);
                }
                return CheckOutcome::OutOfSteps;
            },
        };
        proof {
            assert(contexts.deep_view() =~= st.contexts.drop_last());
            assert(cur.deep_view() == st.contexts.last());
        }
        let ghost rest = st.contexts.drop_last();
        let ghost ctxv = st.contexts.last();
        if cur.ptr >= linker_context.result.len() {
            match check_outputs_try(&cur.stack, &cur.outs, allowed_overflow) {
                Ok(_) => {},
                Err(d) => {
                    return CheckOutcome::Rejected(d);
                },
            }
        } else {
            let op = &linker_context.result[cur.ptr];
            proof {
                assert(op.deep_view() == lcv.result[cur.ptr as int]);
            }
            match &op.instruction {
                Instruction::PushInt(_) => {
                    cur.stack.push(tp(&op.word, DataType::INT));
                    cur.ptr = cur.ptr + 1;
                    proof {
                        assert(cur.deep_view() =~= (CheckCtxV {
                            stack: ctxv.stack.push(tpv(lcv.result[ctxv.ptr as int].word, DataType::INT)),
                            ptr: (ctxv.ptr + 1) as usize,
                            ..ctxv
                        }));
                    }
                    contexts.push(cur);
                },
                Instruction::PushPtr(_) => {
                    cur.stack.push(tp(&op.word, DataType::PTR));
                    cur.ptr = cur.ptr + 1;
                    proof {
                        assert(cur.deep_view() =~= (CheckCtxV {
                            stack: ctxv.stack.push(tpv(lcv.result[ctxv.ptr as int].word, DataType::PTR)),
                            ptr: (ctxv.ptr + 1) as usize,
                            ..ctxv
                        }));
                    }
                    contexts.push(cur);
                },
                Instruction::PushMem(_) => {
                    cur.stack.push(tp(&op.word, DataType::PTR));
                    cur.ptr = cur.ptr + 1;
                    proof {
                        assert(cur.deep_view() =~= (CheckCtxV {
                            stack: ctxv.stack.push(tpv(lcv.result[ctxv.ptr as int].word, DataType::PTR)),
                            ptr: (ctxv.ptr + 1) as usize,
                            ..ctxv
                        }));
                    }
                    contexts.push(cur);
                },
                Instruction::PushBool(_) => {
                    cur.stack.push(tp(&op.word, DataType::BOOL));
                    cur.ptr = cur.ptr + 1;
                    proof {
                        assert(cur.deep_view() =~= (CheckCtxV {
                            stack: ctxv.stack.push(tpv(lcv.result[ctxv.ptr as int].word, DataType::BOOL)),
                            ptr: (ctxv.ptr + 1) as usize,
                            ..ctxv
                        }));
                    }
                    contexts.push(cur);
                },
                Instruction::PushString(_) => {
                    cur.stack.push(tp(&op.word, DataType::INT));
                    cur.stack.push(tp(&op.word, DataType::PTR));
                    cur.ptr = cur.ptr + 1;
                    proof {
                        assert(cur.deep_view() =~= (CheckCtxV {
                            stack: ctxv.stack.push(tpv(lcv.result[ctxv.ptr as int].word, DataType::INT)).push(
                                tpv(lcv.result[ctxv.ptr as int].word, DataType::PTR),
                            ),
                            ptr: (ctxv.ptr + 1) as usize,
                            ..ctxv
                        }));
                    }
                    contexts.push(cur);
                },
                Instruction::Intrinsic(intr) => {
                    let intr = *intr;
                    match intrinsic_try(intr, &cur.stack, &op.word) {
                        Err(d) => {
                            return CheckOutcome::Rejected(d);
                        },
                        Ok(ns) => {
                            cur.stack = ns;
                            cur.ptr = cur.ptr + 1;
                            contexts.push(cur);
                        },
                    }
                },
                Instruction::Function => {
                    match op.data {
                        LinkedTokenData::JumpAddr(p) => {
                            cur.ptr = p;
                            contexts.push(cur);
                        },
                        _ => {
                            return CheckOutcome::Rejected(
                                Diag { word: op.word.clone(), kind: DiagKind::MissingEnd },
                            );
                        },
                    }
                },
                Instruction::Call => {
                    match find_signature(&linker_context.functions, op.word.txt.as_str()) {
                        None => {
                            return CheckOutcome::Rejected(
                                Diag { word: op.word.clone(), kind: DiagKind::UndefinedReference },
                            );
                        },
                        Some(io) => {
                            match consume_list_try(&cur.stack, &io.0, &op.word) {
                                Err(d) => {
                                    return CheckOutcome::Rejected(d);
                                },
                                Ok(mut ns) => {
                                    let ghost nsv = ns.deep_view();
                                    let mut o = io.1;
                                    let ghost ov = o.deep_view();
                                    ns.append(&mut o);
                                    proof {
                                        assert(ns.deep_view() =~= nsv + ov);
                                    }
                                    cur.stack = ns;
                                    cur.ptr = cur.ptr + 1;
                                    contexts.push(cur);
                                },
                            }
                        },
                    }
                },
                Instruction::Return => {
                    match check_outputs_try(&cur.stack, &cur.outs, 0) {
                        Ok(_) => {},
                        Err(d) => {
                            return CheckOutcome::Rejected(d);
                        },
                    }
                },
                Instruction::PushVars => {
                    match op.data {
                        LinkedTokenData::Count(k) => {
                            if cur.stack.len() < k {
                                return CheckOutcome::Rejected(
                                    Diag { word: op.word.clone(), kind: DiagKind::ArityUnderflow },
                                );
                            }
                            let ghost pre = cur.stack.deep_view();
                            let newlen = cur.stack.len() - k;
                            cur.stack.truncate(newlen);
                            proof {
                                assert(cur.stack.deep_view() =~= pre.take(pre.len() - k));
                            }
                            cur.ptr = cur.ptr + 1;
                            contexts.push(cur);
                        },
                        _ => {
                            return CheckOutcome::Rejected(
                                Diag { word: op.word.clone(), kind: DiagKind::MissingEnd },
                            );
                        },
                    }
                },
                Instruction::PopVars => {
                    cur.ptr = cur.ptr + 1;
                    contexts.push(cur);
                },
                Instruction::ApplyVar => {
                    cur.stack.push(tp(&op.word, DataType::INT));
                    cur.ptr = cur.ptr + 1;
                    proof {
                        assert(cur.deep_view() =~= (CheckCtxV {
                            stack: ctxv.stack.push(tpv(lcv.result[ctxv.ptr as int].word, DataType::INT)),
                            ptr: (ctxv.ptr + 1) as usize,
                            ..ctxv
                        }));
                    }
                    contexts.push(cur);
                },
                Instruction::Jump => {
                    match op.data {
                        LinkedTokenData::JumpAddr(p) => {
                            cur.ptr = p;
                            contexts.push(cur);
                        },
                        _ => {
                            return CheckOutcome::Rejected(
                                Diag { word: op.word.clone(), kind: DiagKind::MissingEnd },
                            );
                        },
                    }
                },
                Instruction::JumpNeq => {
                    match consume1_try(&cur.stack, DataType::BOOL, &op.word) {
                        Err(d) => {
                            return CheckOutcome::Rejected(d);
                        },
                        Ok(ns) => {
                            match op.data {
                                LinkedTokenData::JumpAddr(p) => {
                                    let fork = CheckCtx {
                                        stack: clone_typed_vec(&ns),
                                        ptr: p,
                                        outs: clone_typed_vec(&cur.outs),
                                    };
                                    cur.stack = ns;
                                    cur.ptr = cur.ptr + 1;
                                    contexts.push(cur);
                                    contexts.push(fork);
                                },
                                _ => {
                                    return CheckOutcome::Rejected(
                                        Diag { word: op.word.clone(), kind: DiagKind::MissingEnd },
                                    );
                                },
                            }
                        },
                    }
                },
                Instruction::Do => {
                    match consume1_try(&cur.stack, DataType::BOOL, &op.word) {
                        Err(d) => {
                            return CheckOutcome::Rejected(d);
                        },
                        Ok(ns) => {
                            match find_visited(&visited, cur.ptr) {
                                None => {
                                    match op.data {
                                        LinkedTokenData::JumpAddr(p) => {
                                            let here = cur.ptr;
                                            let fork = CheckCtx {
                                                stack: clone_typed_vec(&ns),
                                                ptr: p,
                                                outs: clone_typed_vec(&cur.outs),
                                            };
                                            let recorded = clone_typed_vec(&ns);
                                            cur.stack = ns;
                                            cur.ptr = cur.ptr + 1;
                                            contexts.push(cur);
                                            contexts.push(fork);
                                            let ghost vpre = visited.deep_view();
                                            visited.push((here, recorded));
                                            proof {
                                                assert(visited.deep_view() =~= vpre.push(
                                                    (here, recorded.deep_view()),
                                                ));
                                            }
                                        },
                                        _ => {
                                            return CheckOutcome::Rejected(
                                                Diag {
                                                    word: op.word.clone(),
                                                    kind: DiagKind::MissingEnd,
                                                },
                                            );
                                        },
                                    }
                                },
                                Some(ix) => {
                                    if !types_eq(&visited[ix].1, &ns) {
                                        return CheckOutcome::Rejected(
                                            Diag {
                                                word: op.word.clone(),
                                                kind: DiagKind::LoopMutatesStack,
                                            },
                                        );
                                    }
                                },
                            }
                        },
                    }
                },
            }
        }
        proof {
            match step {
                CheckStepV::More(st2) => {
                    assert(st2 =~= (CheckStateV {
                        contexts: contexts.deep_view(),
                        visited: visited.deep_view(),
                    }));
                },
                CheckStepV::Stop(_) => {
                    assert(false);
                },
            }
        }
        fuel = fuel - 1;
    }
    if contexts.len() == 0 {
        CheckOutcome::Accepted
    } else {
        CheckOutcome::OutOfSteps
    }
}

/// Decides [`intrinsic_step`], yielding the new stack.
fn intrinsic_try(i: Intrinsic, stack: &Vec<TypedPos>, w: &Word) -> (r: Result<Vec<TypedPos>, Diag>)
    ensures
        match r {
            Ok(ns) => intrinsic_step(i, stack.deep_view(), w.deep_view()) == Ok::<
                Seq<TypedPosV>,
                DiagV,
            >(ns.deep_view()),
            Err(d) => intrinsic_step(i, stack.deep_view(), w.deep_view()) == Err::<
                Seq<TypedPosV>,
                DiagV,
            >(d.deep_view()),
        },
{
    let n = stack.len();
    match i {
        Intrinsic::Dump | Intrinsic::Drop => {
            if n == 0 {
                return Err(Diag { word: w.clone(), kind: DiagKind::ArityUnderflow });
            }
            let mut ns = clone_typed_vec(stack);
            let ghost pre = ns.deep_view();
            ns.pop();
            proof {
                assert(ns.deep_view() =~= pre.drop_last());
            }
            Ok(ns)
        },
        Intrinsic::Dup => {
            if n == 0 {
                return Err(Diag { word: w.clone(), kind: DiagKind::ArityUnderflow });
            }
            let mut ns = clone_typed_vec(stack);
            let ghost pre = ns.deep_view();
            let top = ns[n - 1].clone();
            ns.push(top);
            proof {
                assert(ns.deep_view() =~= pre.push(pre.last()));
            }
            Ok(ns)
        },
        Intrinsic::Over => {
            if n < 2 {
                return Err(Diag { word: w.clone(), kind: DiagKind::ArityUnderflow });
            }
            let mut ns = clone_typed_vec(stack);
            let ghost pre = ns.deep_view();
            let snd = ns[n - 2].clone();
            ns.push(snd);
            proof {
                assert(ns.deep_view() =~= pre.push(pre[pre.len() - 2]));
            }
            Ok(ns)
        },
        Intrinsic::Swap => {
            if n < 2 {
                return Err(Diag { word: w.clone(), kind: DiagKind::ArityUnderflow });
            }
            let ghost pre = stack.deep_view();
            let a = stack[n - 2].clone();
            let b = stack[n - 1].clone();
            let mut ns = clone_typed_vec(stack);
            ns.truncate(n - 2);
            proof {
                assert(ns.deep_view() =~= pre.take(pre.len() - 2));
            }
            ns.push(b);
            ns.push(a);
            proof {
                assert(ns.deep_view() =~= pre.take(pre.len() - 2).push(pre.last()).push(
                    pre[pre.len() - 2],
                ));
            }
            Ok(ns)
        },
        Intrinsic::Rot => {
            if n < 3 {
                return Err(Diag { word: w.clone(), kind: DiagKind::ArityUnderflow });
            }
            let ghost pre = stack.deep_view();
            let a = stack[n - 3].clone();
            let b = stack[n - 2].clone();
            let c = stack[n - 1].clone();
            let mut ns = clone_typed_vec(stack);
            ns.truncate(n - 3);
            proof {
                assert(ns.deep_view() =~= pre.take(pre.len() - 3));
            }
            ns.push(b);
            ns.push(a);
            ns.push(c);
            proof {
                assert(ns.deep_view() =~= pre.take(pre.len() - 3).push(pre[pre.len() - 2]).push(
                    pre[pre.len() - 3],
                ).push(pre.last()));
            }
            Ok(ns)
        },
        Intrinsic::Add | Intrinsic::Subtract => {
            match consume2_try(stack, DataType::INT, DataType::INT, w) {
                Ok(mut ns) => {
                    ns.push(tp(w, DataType::INT));
                    proof {
                        assert(ns.deep_view() =~= consume2(
                            stack.deep_view(),
                            DataType::INT,
                            DataType::INT,
                            w.deep_view(),
                        )->Ok_0.push(tpv(w.deep_view(), DataType::INT)));
                    }
                    Ok(ns)
                },
                Err(e) => {
                    match consume2_try(stack, DataType::PTR, DataType::INT, w) {
                        Ok(mut ns) => {
                            ns.push(tp(w, DataType::PTR));
                            proof {
                                assert(ns.deep_view() =~= consume2(
                                    stack.deep_view(),
                                    DataType::PTR,
                                    DataType::INT,
                                    w.deep_view(),
                                )->Ok_0.push(tpv(w.deep_view(), DataType::PTR)));
                            }
                            Ok(ns)
                        },
                        Err(_) => Err(e),
                    }
                },
            }
        },
        Intrinsic::Multiply | Intrinsic::Divide | Intrinsic::Modulo | Intrinsic::ShiftLeft
            | Intrinsic::ShiftRight | Intrinsic::BitAnd | Intrinsic::BitOr | Intrinsic::BitXor => {
            match consume2_try(stack, DataType::INT, DataType::INT, w) {
                Ok(mut ns) => {
                    ns.push(tp(w, DataType::INT));
                    proof {
                        assert(ns.deep_view() =~= consume2(
                            stack.deep_view(),
                            DataType::INT,
                            DataType::INT,
                            w.deep_view(),
                        )->Ok_0.push(tpv(w.deep_view(), DataType::INT)));
                    }
                    Ok(ns)
                },
                Err(e) => Err(e),
            }
        },
        Intrinsic::Equals | Intrinsic::NotEquals | Intrinsic::Less | Intrinsic::Greater
            | Intrinsic::LessOrEqual | Intrinsic::GreaterOrEqual => {
            match consume2_try(stack, DataType::INT, DataType::INT, w) {
                Ok(mut ns) => {
                    ns.push(tp(w, DataType::BOOL));
                    proof {
                        assert(ns.deep_view() =~= consume2(
                            stack.deep_view(),
                            DataType::INT,
                            DataType::INT,
                            w.deep_view(),
                        )->Ok_0.push(tpv(w.deep_view(), DataType::BOOL)));
                    }
                    Ok(ns)
                },
                Err(e) => {
                    match consume2_try(stack, DataType::PTR, DataType::PTR, w) {
                        Ok(mut ns) => {
                            ns.push(tp(w, DataType::BOOL));
                            proof {
                                assert(ns.deep_view() =~= consume2(
                                    stack.deep_view(),
                                    DataType::PTR,
                                    DataType::PTR,
                                    w.deep_view(),
                                )->Ok_0.push(tpv(w.deep_view(), DataType::BOOL)));
                            }
                            Ok(ns)
                        },
                        Err(_) => {
                            match consume2_try(stack, DataType::BOOL, DataType::BOOL, w) {
                                Ok(mut ns) => {
                                    ns.push(tp(w, DataType::BOOL));
                                    proof {
                                        assert(ns.deep_view() =~= consume2(
                                            stack.deep_view(),
                                            DataType::BOOL,
                                            DataType::BOOL,
                                            w.deep_view(),
                                        )->Ok_0.push(tpv(w.deep_view(), DataType::BOOL)));
                                    }
                                    Ok(ns)
                                },
                                Err(_) => Err(e),
                            }
                        },
                    }
                },
            }
        },
        Intrinsic::Store8 | Intrinsic::Store16 | Intrinsic::Store32 => {
            consume2_try(stack, DataType::INT, DataType::PTR, w)
        },
        Intrinsic::Load8 | Intrinsic::Load16 | Intrinsic::Load32 => {
            match consume1_try(stack, DataType::PTR, w) {
                Ok(mut ns) => {
                    ns.push(tp(w, DataType::INT));
                    proof {
                        assert(ns.deep_view() =~= consume1(
                            stack.deep_view(),
                            DataType::PTR,
                            w.deep_view(),
                        )->Ok_0.push(tpv(w.deep_view(), DataType::INT)));
                    }
                    Ok(ns)
                },
                Err(e) => Err(e),
            }
        },
    }
}

} // verus!
