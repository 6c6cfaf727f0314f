//! Compile-time evaluation: constant and memory-size expressions (a
//! restricted subset of the language over a small value stack) are evaluated,
//! their definition blocks removed from the token stream, and the memory
//! regions laid out one after the other in declaration order.

use vstd::prelude::*;

use crate::checker::DataType;
use crate::diag::{Diag, DiagKind, DiagV, DiagKindV};
use crate::lexer::{Word, WordV};
use crate::tokenizer::{
    ConstDef, Intrinsic, MemoryDef, Op, OpV, ParserContext, ParserContextV, Token, TokenV,
};

verus! {

/// Addition modulo 2^32.
pub open spec fn w32add(a: u32, b: u32) -> u32 {
    if a + b <= u32::MAX {
        (a + b) as u32
    } else {
        (a + b - 0x1_0000_0000) as u32
    }
}

/// Subtraction modulo 2^32.
pub open spec fn w32sub(b: u32, a: u32) -> u32 {
    if b >= a {
        (b - a) as u32
    } else {
        (b - a + 0x1_0000_0000) as u32
    }
}

/// Multiplication modulo 2^32.
pub open spec fn w32mul(a: u32, b: u32) -> u32 {
    ((a * b) % 0x1_0000_0000) as u32
}

/// Computes [`w32add`].
fn w32add_exec(a: u32, b: u32) -> (r: u32)
    ensures
        r == w32add(a, b),
{
    if a <= u32::MAX - b {
        a + b
    } else {
        let s = (a as u64) + (b as u64) - 0x1_0000_0000;
        proof {
            assert(s < 0x1_0000_0000);
        }
        s as u32
    }
}

/// Computes [`w32sub`].
fn w32sub_exec(b: u32, a: u32) -> (r: u32)
    ensures
        r == w32sub(b, a),
{
    if b >= a {
        b - a
    } else {
        let s = (b as u64) + 0x1_0000_0000 - (a as u64);
        proof {
            assert(s < 0x1_0000_0000);
        }
        s as u32
    }
}

/// Computes [`w32mul`].
fn w32mul_exec(a: u32, b: u32) -> (r: u32)
    ensures
        r == w32mul(a, b),
{
    proof {
        assert((a as int) * (b as int) < 0x1_0000_0000 * 0x1_0000_0000) by (nonlinear_arith)
            requires
                a < 0x1_0000_0000 && b < 0x1_0000_0000,
        ;
    }
    let p = (a as u64) * (b as u64);
    let m = p % 0x1_0000_0000;
    proof {
        assert(m < 0x1_0000_0000);
        assert(m == (a * b) % 0x1_0000_0000);
    }
    m as u32
}

/// The first table entry with the given name, scanning from `i`.
pub open spec fn lookup_const_from(
    consts: Seq<(Seq<char>, ConstDef)>,
    i: int,
    name: Seq<char>,
) -> Option<ConstDef>
    decreases consts.len() - i,
{
    if i < 0 || i >= consts.len() {
        None
    } else if consts[i].0 == name {
        Some(consts[i].1)
    } else {
        lookup_const_from(consts, i + 1, name)
    }
}

/// The constant a name refers to, if any.
pub open spec fn lookup_const(consts: Seq<(Seq<char>, ConstDef)>, name: Seq<char>) -> Option<
    ConstDef,
> {
    lookup_const_from(consts, 0, name)
}

/// Scans the constant table for `name`.
pub fn get_constant(consts: &Vec<(String, ConstDef)>, name: &str) -> (r: Option<ConstDef>)
    ensures
        r == lookup_const(consts.deep_view(), name@),
{
    let ghost cv = consts.deep_view();
    let mut i: usize = 0;
    while i < consts.len()
        invariant
            i <= consts@.len(),
            cv == consts.deep_view(),
            lookup_const(cv, name@) == lookup_const_from(cv, i as int, name@),
        decreases consts@.len() - i,
    {
        if crate::strutil::str_eq(consts[i].0.as_str(), name) {
            return Some(consts[i].1);
        }
        i += 1;
    }
    None
}

/// The result of evaluating one constant or memory-size expression: the
/// value it leaves and the index just past its `end`, or the diagnostic.
/// The expression may use integer literals, references to already-evaluated
/// constants, and `+`, `-`, `*` (modulo 2^32); anything else is rejected.
pub open spec fn eval_expr(
    toks: Seq<TokenV>,
    i: int,
    consts: Seq<(Seq<char>, ConstDef)>,
    stack: Seq<ConstDef>,
    defw: WordV,
) -> Result<(ConstDef, int), DiagV>
    decreases toks.len() - i,
{
    if i < 0 || i >= toks.len() {
        if stack.len() == 1 {
            Ok((stack[0], toks.len() as int))
        } else {
            Err(DiagV { word: defw, kind: DiagKindV::ConstExprNotSingleValue })
        }
    } else {
        let t = toks[i];
        match t.op {
            OpV::End => if stack.len() == 1 {
                Ok((stack[0], i + 1))
            } else {
                Err(DiagV { word: defw, kind: DiagKindV::ConstExprNotSingleValue })
            },
            OpV::PushInt(v) => eval_expr(
                toks,
                i + 1,
                consts,
                stack.push(ConstDef { typ: DataType::INT, val: v }),
                defw,
            ),
            OpV::ConstRef(n) => match lookup_const(consts, n) {
                Some(d) => eval_expr(toks, i + 1, consts, stack.push(d), defw),
                None => Err(DiagV { word: t.word, kind: DiagKindV::UndefinedConstant }),
            },
            OpV::Intrinsic(intr) => if intr == Intrinsic::Add || intr == Intrinsic::Subtract
                || intr == Intrinsic::Multiply {
                if stack.len() < 2 {
                    Err(DiagV { word: t.word, kind: DiagKindV::ConstExprNotSingleValue })
                } else {
                    let a = stack[stack.len() - 1];
                    let b = stack[stack.len() - 2];
                    if a.typ != DataType::INT || b.typ != DataType::INT {
                        Err(DiagV { word: t.word, kind: DiagKindV::IllegalTokenInConstExpr })
                    } else {
                        let v = if intr == Intrinsic::Add {
                            w32add(a.val, b.val)
                        } else if intr == Intrinsic::Subtract {
                            w32sub(b.val, a.val)
                        } else {
                            w32mul(a.val, b.val)
                        };
                        eval_expr(
                            toks,
                            i + 1,
                            consts,
                            stack.take(stack.len() - 2).push(ConstDef { typ: DataType::INT, val: v }),
                            defw,
                        )
                    }
                }
            } else {
                Err(DiagV { word: t.word, kind: DiagKindV::IllegalIntrinsicInConstExpr })
            },
            _ => Err(DiagV { word: t.word, kind: DiagKindV::IllegalTokenInConstExpr }),
        }
    }
}

proof fn lemma_eval_expr_advances(
    toks: Seq<TokenV>,
    i: int,
    consts: Seq<(Seq<char>, ConstDef)>,
    stack: Seq<ConstDef>,
    defw: WordV,
)
    requires
        0 <= i <= toks.len(),
    ensures
        match eval_expr(toks, i, consts, stack, defw) {
            Ok(r) => i <= r.1 <= toks.len(),
            Err(_) => true,
        },
    decreases toks.len() - i,
{
    if 0 <= i < toks.len() {
        let t = toks[i];
        match t.op {
            OpV::PushInt(v) => {
                lemma_eval_expr_advances(
                    toks,
                    i + 1,
                    consts,
                    stack.push(ConstDef { typ: DataType::INT, val: v }),
                    defw,
                );
            },
            OpV::ConstRef(n) => {
                match lookup_const(consts, n) {
                    Some(d) => {
                        lemma_eval_expr_advances(toks, i + 1, consts, stack.push(d), defw);
                    },
                    None => {},
                }
            },
            OpV::Intrinsic(intr) => {
                if (intr == Intrinsic::Add || intr == Intrinsic::Subtract || intr
                    == Intrinsic::Multiply) && stack.len() >= 2 {
                    let a = stack[stack.len() - 1];
                    let b = stack[stack.len() - 2];
                    if a.typ == DataType::INT && b.typ == DataType::INT {
                        let v = if intr == Intrinsic::Add {
                            w32add(a.val, b.val)
                        } else if intr == Intrinsic::Subtract {
                            w32sub(b.val, a.val)
                        } else {
                            w32mul(a.val, b.val)
                        };
                        lemma_eval_expr_advances(
                            toks,
                            i + 1,
                            consts,
                            stack.take(stack.len() - 2).push(ConstDef { typ: DataType::INT, val: v }),
                            defw,
                        );
                    }
                }
            },
            _ => {},
        }
    }
}

/// What one evaluation pass accumulates: the surviving tokens, the constant
/// table, and the memory declarations (name, size, defining word) in order.
#[verifier::ext_equal]
pub ghost struct EvalPassV {
    pub out: Seq<TokenV>,
    pub consts: Seq<(Seq<char>, ConstDef)>,
    pub mems: Seq<(Seq<char>, u32, WordV)>,
}

/// The evaluation pass over the token stream: `const` and `memory` blocks
/// are evaluated and removed, every other token is kept in order.
pub open spec fn eval_from(
    toks: Seq<TokenV>,
    i: int,
    out: Seq<TokenV>,
    consts: Seq<(Seq<char>, ConstDef)>,
    mems: Seq<(Seq<char>, u32, WordV)>,
) -> Result<EvalPassV, DiagV>
    decreases toks.len() - i,
    via eval_from_dec
{
    if i < 0 || i >= toks.len() {
        Ok(EvalPassV { out, consts, mems })
    } else {
        let t = toks[i];
        match t.op {
            OpV::Const(name) => match eval_expr(toks, i + 1, consts, Seq::empty(), t.word) {
                Err(d) => Err(d),
                Ok(r) => eval_from(toks, r.1, out, consts.push((name, r.0)), mems),
            },
            OpV::Mem(name) => match eval_expr(toks, i + 1, consts, Seq::empty(), t.word) {
                Err(d) => Err(d),
                Ok(r) => eval_from(toks, r.1, out, consts, mems.push((name, r.0.val, t.word))),
            },
            _ => eval_from(toks, i + 1, out.push(t), consts, mems),
        }
    }
}

#[via_fn]
proof fn eval_from_dec(
    toks: Seq<TokenV>,
    i: int,
    out: Seq<TokenV>,
    consts: Seq<(Seq<char>, ConstDef)>,
    mems: Seq<(Seq<char>, u32, WordV)>,
) {
    if 0 <= i < toks.len() {
        lemma_eval_expr_advances(toks, i + 1, consts, Seq::empty(), toks[i].word);
    }
}

/// Lays the collected memory regions out one after the other, starting at
/// `base`: each region's offset is the running total of the sizes before it.
/// Fails when the area would outgrow the address space.
pub open spec fn assign_mems(
    mems: Seq<(Seq<char>, u32, WordV)>,
    i: int,
    base: int,
    placed: Seq<(Seq<char>, MemoryDef)>,
) -> Result<(Seq<(Seq<char>, MemoryDef)>, int), DiagV>
    decreases mems.len() - i,
{
    if i < 0 || i >= mems.len() {
        Ok((placed, base))
    } else if base + mems[i].1 > usize::MAX {
        Err(DiagV { word: mems[i].2, kind: DiagKindV::MemoryTooLarge })
    } else {
        assign_mems(
            mems,
            i + 1,
            base + mems[i].1,
            placed.push((mems[i].0, MemoryDef { ptr: base as usize, size: mems[i].1 as usize })),
        )
    }
}

/// What compile-time evaluation does to a parser context: the token stream
/// loses its `const` and `memory` blocks, the constant table gains the
/// evaluated constants, and the memory table and total size gain the declared
/// regions in declaration order.
pub open spec fn eval_spec(ctx: ParserContextV) -> Result<ParserContextV, DiagV> {
    match eval_from(ctx.result, 0, Seq::empty(), ctx.constants, Seq::empty()) {
        Err(d) => Err(d),
        Ok(p) => match assign_mems(p.mems, 0, ctx.total_memory_size, Seq::empty()) {
            Err(d) => Err(d),
            Ok(placed) => Ok(
                ParserContextV {
                    result: p.out,
                    constants: p.consts,
                    memories: ctx.memories + placed.0,
                    total_memory_size: placed.1,
                    ..ctx
                },
            ),
        },
    }
}

/// Evaluates one expression; on success returns the value and the index
/// just past the expression's `end`.
fn eval_expr_exec(
    toks: &Vec<Token>,
    start: usize,
    consts: &Vec<(String, ConstDef)>,
    defw: &Word,
) -> (r: Result<(ConstDef, usize), Diag>)
    requires
        start <= toks.deep_view().len(),
    ensures
        match r {
            Ok(p) => start <= p.1 <= toks.deep_view().len() && eval_expr(
                toks.deep_view(),
                start as int,
                consts.deep_view(),
                Seq::empty(),
                defw.deep_view(),
            ) == Ok::<(ConstDef, int), DiagV>((p.0, p.1 as int)),
            Err(d) => eval_expr(
                toks.deep_view(),
                start as int,
                consts.deep_view(),
                Seq::empty(),
                defw.deep_view(),
            ) == Err::<(ConstDef, int), DiagV>(d.deep_view()),
        },
{
    let ghost toksv = toks.deep_view();
    let ghost constsv = consts.deep_view();
    let ghost defwv = defw.deep_view();
    let ghost target = eval_expr(toksv, start as int, constsv, Seq::empty(), defwv);
    let mut stack: Vec<ConstDef> = Vec::new();
    let mut i: usize = start;
    proof {
        assert(stack@ =~= Seq::<ConstDef>::empty());
    }
    while i < toks.len()
        invariant
            start <= i <= toksv.len(),
            toksv == toks.deep_view(),
            constsv == consts.deep_view(),
            defwv == defw.deep_view(),
            target == eval_expr(toksv, start as int, constsv, Seq::empty(), defwv),
            target == eval_expr(toksv, i as int, constsv, stack@, defwv),
        decreases toksv.len() - i,
    {
        let t = &toks[i];
        proof {
            assert(t.deep_view() == toksv[i as int]);
        }
        match &t.op {
            Op::End => {
                if stack.len() == 1 {
                    let d = stack[0];
                    return Ok((d, i + 1));
                } else {
                    return Err(
                        Diag { word: defw.clone(), kind: DiagKind::ConstExprNotSingleValue },
                    );
                }
            },
            Op::PushInt(v) => {
                let ghost s0 = stack@;
                stack.push(ConstDef { typ: DataType::INT, val: *v });
                proof {
                    assert(stack@ =~= s0.push(ConstDef { typ: DataType::INT, val: toksv[i as int].op->PushInt_0 }));
                }
                i += 1;
            },
            Op::ConstRef(n) => {
                match get_constant(consts, n.as_str()) {
                    Some(d) => {
                        let ghost s0 = stack@;
                        stack.push(d);
                        proof {
                            assert(stack@ =~= s0.push(d));
                        }
                        i += 1;
                    },
                    None => {
                        return Err(
                            Diag { word: t.word.clone(), kind: DiagKind::UndefinedConstant },
                        );
                    },
                }
            },
            Op::Intrinsic(intr) => {
                let intr = *intr;
                if intr == Intrinsic::Add || intr == Intrinsic::Subtract || intr
                    == Intrinsic::Multiply {
                    if stack.len() < 2 {
                        return Err(
                            Diag { word: t.word.clone(), kind: DiagKind::ConstExprNotSingleValue },
                        );
                    }
                    let a = stack[stack.len() - 1];
                    let b = stack[stack.len() - 2];
                    if !(matches!(a.typ, DataType::INT) && matches!(b.typ, DataType::INT)) {
                        return Err(
                            Diag { word: t.word.clone(), kind: DiagKind::IllegalTokenInConstExpr },
                        );
                    }
                    let v = if intr == Intrinsic::Add {
                        w32add_exec(a.val, b.val)
                    } else if intr == Intrinsic::Subtract {
                        w32sub_exec(b.val, a.val)
                    } else {
                        w32mul_exec(a.val, b.val)
                    };
                    let ghost s0 = stack@;
                    stack.truncate(stack.len() - 2);
                    proof {
                        assert(stack@ =~= s0.take(s0.len() - 2));
                    }
                    let ghost s1 = stack@;
                    stack.push(ConstDef { typ: DataType::INT, val: v });
                    proof {
                        assert(stack@ =~= s1.push(ConstDef { typ: DataType::INT, val: v }));
                    }
                    i += 1;
                } else {
                    return Err(
                        Diag { word: t.word.clone(), kind: DiagKind::IllegalIntrinsicInConstExpr },
                    );
                }
            },
            _ => {
                return Err(
                    Diag { word: t.word.clone(), kind: DiagKind::IllegalTokenInConstExpr },
                );
            },
        }
    }
    if stack.len() == 1 {
        let d = stack[0];
        Ok((d, toks.len()))
    } else {
        Err(Diag { word: defw.clone(), kind: DiagKind::ConstExprNotSingleValue })
    }
}

/// Evaluates all `const` and `memory` definitions in the context's token
/// stream, removing them from the stream, filling the constant table, and
/// laying out the memory regions in declaration order after the ones the
/// context already holds.
pub fn evaluate_tokens(ctx: &mut ParserContext) -> (r: Result<(), Diag>)
    ensures
        match r {
            Ok(_) => eval_spec(old(ctx).deep_view()) == Ok::<ParserContextV, DiagV>(
                final(ctx).deep_view(),
            ),
            Err(d) => eval_spec(old(ctx).deep_view()) == Err::<ParserContextV, DiagV>(
                d.deep_view(),
            ),
        },
{
    let ghost c0 = old(ctx).deep_view();
    let mut toks: Vec<Token> = Vec::new();
    core::mem::swap(&mut toks, &mut ctx.result);
    let ghost toksv = toks.deep_view();
    proof {
        assert(toksv == c0.result);
    }
    let ghost target = eval_from(toksv, 0, Seq::empty(), c0.constants, Seq::empty());
    let mut out: Vec<Token> = Vec::new();
    let mut mems: Vec<(String, u32, Word)> = Vec::new();
    let mut i: usize = 0;
    proof {
        assert(out.deep_view() =~= Seq::<TokenV>::empty());
        assert(mems.deep_view() =~= Seq::<(Seq<char>, u32, WordV)>::empty());
    }
    while i < toks.len()
        invariant
            i <= toksv.len(),
            c0 == old(ctx).deep_view(),
            toksv == toks.deep_view(),
            toksv == c0.result,
            target == eval_from(toksv, 0, Seq::empty(), c0.constants, Seq::empty()),
            target == eval_from(
                toksv,
                i as int,
                out.deep_view(),
                ctx.constants.deep_view(),
                mems.deep_view(),
            ),
            ctx.result@.len() == 0,
            ctx.functions.deep_view() == c0.functions,
            ctx.memories.deep_view() == c0.memories,
            ctx.vars.deep_view() == c0.vars,
            ctx.total_memory_size as int == c0.total_memory_size,
            ctx.known_constants.deep_view() == c0.known_constants,
            ctx.known_memories.deep_view() == c0.known_memories,
        decreases toksv.len() - i,
    {
        let t = &toks[i];
        proof {
            assert(t.deep_view() == toksv[i as int]);
        }
        match &t.op {
            Op::Const(name) => {
                match eval_expr_exec(&toks, i + 1, &ctx.constants, &t.word) {
                    Ok(p) => {
                        let ghost kdv = ctx.constants.deep_view();
                        ctx.constants.push((name.clone(), p.0));
                        proof {
                            assert(ctx.constants.deep_view() =~= kdv.push(
                                (toksv[i as int].op->Const_0, p.0),
                            ));
                        }
                        i = p.1;
                    },
                    Err(d) => {
                        return Err(d);
                    },
                }
            },
            Op::Mem(name) => {
                match eval_expr_exec(&toks, i + 1, &ctx.constants, &t.word) {
                    Ok(p) => {
                        let ghost mdv = mems.deep_view();
                        mems.push((name.clone(), p.0.val, t.word.clone()));
                        proof {
                            assert(mems.deep_view() =~= mdv.push(
                                (toksv[i as int].op->Mem_0, p.0.val, toksv[i as int].word),
                            ));
                        }
                        i = p.1;
                    },
                    Err(d) => {
                        return Err(d);
                    },
                }
            },
            _ => {
                let ghost odv = out.deep_view();
                out.push(t.clone());
                proof {
                    assert(out.deep_view() =~= odv.push(toksv[i as int]));
                }
                i += 1;
            },
        }
    }
    let ghost pass = EvalPassV {
        out: out.deep_view(),
        consts: ctx.constants.deep_view(),
        mems: mems.deep_view(),
    };
    proof {
        assert(target == Ok::<EvalPassV, DiagV>(pass));
    }
    // lay the memory regions out in declaration order
    let ghost memsv = mems.deep_view();
    let ghost base0 = ctx.total_memory_size as int;
    let ghost atarget = assign_mems(memsv, 0, base0, Seq::empty());
    let mut base: usize = ctx.total_memory_size;
    let mut k: usize = 0;
    let ghost mut placed: Seq<(Seq<char>, MemoryDef)> = Seq::empty();
    proof {
        assert(ctx.memories.deep_view() =~= c0.memories + placed);
    }
    while k < mems.len()
        invariant
            k <= memsv.len(),
            c0 == old(ctx).deep_view(),
            memsv == mems.deep_view(),
            base0 == c0.total_memory_size,
            eval_from(c0.result, 0, Seq::empty(), c0.constants, Seq::empty()) == Ok::<
                EvalPassV,
                DiagV,
            >(pass),
            pass.mems == memsv,
            pass.out == out.deep_view(),
            atarget == assign_mems(memsv, 0, base0, Seq::empty()),
            ctx.memories.deep_view() == c0.memories + placed,
            atarget == assign_mems(memsv, k as int, base as int, placed),
            ctx.result@.len() == 0,
            ctx.constants.deep_view() == pass.consts,
            ctx.functions.deep_view() == c0.functions,
            ctx.vars.deep_view() == c0.vars,
            ctx.known_constants.deep_view() == c0.known_constants,
            ctx.known_memories.deep_view() == c0.known_memories,
        decreases memsv.len() - k,
    {
        let entry_size = mems[k].1;
        if entry_size as usize > usize::MAX - base {
            return Err(Diag { word: mems[k].2.clone(), kind: DiagKind::MemoryTooLarge });
        }
        let name = mems[k].0.clone();
        let ghost mdv = ctx.memories.deep_view();
        ctx.memories.push((name, MemoryDef { ptr: base, size: entry_size as usize }));
        proof {
            placed = placed.push(
                (memsv[k as int].0, MemoryDef { ptr: base as usize, size: memsv[k as int].1 as usize }),
            );
            assert(ctx.memories.deep_view() =~= mdv.push(
                (memsv[k as int].0, MemoryDef { ptr: base, size: entry_size as usize }),
            ));
            assert(ctx.memories.deep_view() =~= c0.memories + placed);
        }
        base = base + entry_size as usize;
        k += 1;
    }
    ctx.total_memory_size = base;
    core::mem::swap(&mut ctx.result, &mut out);
    proof {
        assert(atarget == Ok::<(Seq<(Seq<char>, MemoryDef)>, int), DiagV>((placed, base as int)));
        assert(ctx.deep_view() =~= (ParserContextV {
            result: pass.out,
            constants: pass.consts,
            memories: c0.memories + placed,
            total_memory_size: base as int,
            ..c0
        }));
    }
    Ok(())
}

} // verus!
