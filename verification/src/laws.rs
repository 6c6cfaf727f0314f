//! The laws the pipeline obeys, each proved against the defining equations
//! of the stages that it speaks of.

use vstd::prelude::*;

use crate::checker::{consume1, intrinsic_step, DataType, TypedPosV};
use crate::evaluator::assign_mems;
use crate::lexer::WordV;
use crate::pipeline::{parse_matches, parse_program_spec, ParseOutcome};
use crate::linker::{
    link_from, link_spec, link_step, lookup_fdef, lookup_fnref, lookup_fnref_from,
    FunctionRefV, InstructionV, LinkedTokenData, LinkedTokenV, LinkerContextV,
};
use crate::simulator::{sim_intrinsic, SimFault, SimStateV};
use crate::tokenizer::{ConstDef, FunctionDefV, Intrinsic, MemoryDef, OpV, ParserContextV, TokenV};

verus! {

/// Every resolved jump address in the stream lies within it, at most one
/// instruction past its end; every linked function's entry index lies
/// within it; and every `Function` instruction sits right after the jump
/// that skips its body.
pub open spec fn linked_wf(c: LinkerContextV) -> bool {
    &&& forall|j: int|
        0 <= j < c.result.len() ==> (#[trigger] c.result[j].data matches
            LinkedTokenData::JumpAddr(k) ==> k <= c.result.len())
    &&& forall|f: int|
        0 <= f < c.functions.len() ==> (#[trigger] c.functions[f].1.ptr) < c.result.len()
    &&& forall|j: int|
        0 <= j < c.result.len() ==> (#[trigger] c.result[j].instruction is Function ==> j >= 1
            && c.result[j - 1].instruction is Jump)
}

#[verifier::rlimit(100)]
proof fn lemma_link_step_wf(
    c: LinkerContextV,
    consts: Seq<(Seq<char>, ConstDef)>,
    mems: Seq<(Seq<char>, MemoryDef)>,
    fdefs: Seq<(Seq<char>, FunctionDefV)>,
    vars: Seq<Seq<WordV>>,
    t: TokenV,
)
    requires
        linked_wf(c),
        link_step(c, consts, mems, fdefs, vars, t) is Ok,
    ensures
        linked_wf(link_step(c, consts, mems, fdefs, vars, t)->Ok_0),
        c.result.len() <= link_step(c, consts, mems, fdefs, vars, t)->Ok_0.result.len(),
{
    let c2 = link_step(c, consts, mems, fdefs, vars, t)->Ok_0;
    match t.op {
        OpV::FunctionRef(name) => {
            lemma_lookup_fnref_is_entry(c.functions, name);
            if lookup_fnref(c.functions, name) is Some {
                let fr = lookup_fnref(c.functions, name)->Some_0;
                let j = choose|j: int|
                    0 <= j < c.functions.len() && #[trigger] c.functions[j] == (name, fr);
                assert(c.functions[j].1.ptr < c.result.len());
            }
        },
        _ => {},
    }
    assert forall|j: int|
        0 <= j < c2.result.len() implies (#[trigger] c2.result[j].data matches
        LinkedTokenData::JumpAddr(k) ==> k <= c2.result.len()) by {
        if j < c.result.len() {
            assert(c.result[j].data matches LinkedTokenData::JumpAddr(k) ==> k
                <= c.result.len());
        }
    }
    assert forall|j: int|
        0 <= j < c2.result.len() implies (#[trigger] c2.result[j].instruction is Function ==> j
        >= 1 && c2.result[j - 1].instruction is Jump) by {
        if j < c.result.len() {
            assert(c.result[j].instruction is Function ==> j >= 1 && c.result[j
                - 1].instruction is Jump);
            if 0 <= j - 1 < c.result.len() {
                assert(c.result[j - 1].data matches LinkedTokenData::JumpAddr(k) ==> k
                    <= c.result.len());
            }
        }
    }
}

/// A successful name lookup yields some entry of the table.
proof fn lemma_lookup_fnref_is_entry(table: Seq<(Seq<char>, FunctionRefV)>, name: Seq<char>)
    ensures
        lookup_fnref(table, name) matches Some(fr) ==> exists|i: int|
            0 <= i < table.len() && #[trigger] table[i] == (name, fr),
{
    lemma_lookup_fnref_is_entry_from(table, 0, name);
}

proof fn lemma_lookup_fnref_is_entry_from(
    table: Seq<(Seq<char>, FunctionRefV)>,
    i: int,
    name: Seq<char>,
)
    ensures
        lookup_fnref_from(table, i, name) matches Some(fr) ==> exists|j: int|
            0 <= j < table.len() && #[trigger] table[j] == (name, fr),
    decreases table.len() - i,
{
    if 0 <= i < table.len() {
        if table[i].0 == name {
            assert(table[i] == (name, table[i].1));
        } else {
            lemma_lookup_fnref_is_entry_from(table, i + 1, name);
        }
    }
}

proof fn lemma_link_from_wf(
    toks: Seq<TokenV>,
    i: int,
    c: LinkerContextV,
    consts: Seq<(Seq<char>, ConstDef)>,
    mems: Seq<(Seq<char>, MemoryDef)>,
    fdefs: Seq<(Seq<char>, FunctionDefV)>,
    vars: Seq<Seq<WordV>>,
)
    requires
        linked_wf(c),
        link_from(toks, i, c, consts, mems, fdefs, vars) is Ok,
    ensures
        linked_wf(link_from(toks, i, c, consts, mems, fdefs, vars)->Ok_0),
    decreases toks.len() - i,
{
    if 0 <= i < toks.len() {
        let c2 = link_step(c, consts, mems, fdefs, vars, toks[i])->Ok_0;
        lemma_link_step_wf(c, consts, mems, fdefs, vars, toks[i]);
        lemma_link_from_wf(toks, i + 1, c2, consts, mems, fdefs, vars);
    }
}

/// Law: in a linked stream, every resolved jump address `k` satisfies
/// `0 <= k <= len`: targets are absolute indices into the stream, where the
/// index one past the end means normal termination.
pub proof fn lemma_linked_addrs_in_range(pc: ParserContextV)
    requires
        link_spec(pc) is Ok,
    ensures
        forall|j: int|
            0 <= j < link_spec(pc)->Ok_0.result.len() ==> (#[trigger] link_spec(
                pc,
            )->Ok_0.result[j].data matches LinkedTokenData::JumpAddr(k) ==> 0 <= k <= link_spec(
                pc,
            )->Ok_0.result.len()),
{
    lemma_link_from_wf(
        pc.result,
        0,
        crate::linker::init_link_ctx(pc),
        pc.constants,
        pc.memories,
        pc.functions,
        pc.vars,
    );
}

/// Law: the linked stream's length grows by exactly one instruction per
/// token, except that `function` emits two (the skipping jump and the
/// entry), `while` emits none, and an `end` emits one when it closes a
/// function, a variable block, or a loop, and none when it closes an `if`
/// or an `else` (those it only patches).
pub proof fn lemma_link_step_emission(
    c: LinkerContextV,
    consts: Seq<(Seq<char>, ConstDef)>,
    mems: Seq<(Seq<char>, MemoryDef)>,
    fdefs: Seq<(Seq<char>, FunctionDefV)>,
    vars: Seq<Seq<WordV>>,
    t: TokenV,
)
    requires
        link_step(c, consts, mems, fdefs, vars, t) is Ok,
    ensures
        ({
            let c2 = link_step(c, consts, mems, fdefs, vars, t)->Ok_0;
            c2.result.len() == c.result.len() + (match t.op {
                OpV::Function(_) => 2int,
                OpV::While => 0int,
                OpV::End => {
                    let head = c.result[c.call_stack.last() as int].instruction;
                    if head is Jump || head is JumpNeq {
                        0int
                    } else {
                        1int
                    }
                },
                _ => 1int,
            })
        }),
{
}

/// Law: when an `end` closes a variable block, the `PopVars` it emits
/// carries exactly the count that the closed `PushVars` carries: the block's
/// variables are taken back off the variable stack in full.
///
/// The matching holds of each closing step; a stream in which a variable
/// block is closed by a `do` or an `else` instead of its own `end` never
/// gets a matching `PopVars` for it.
pub proof fn lemma_end_matches_pushvars(
    c: LinkerContextV,
    consts: Seq<(Seq<char>, ConstDef)>,
    mems: Seq<(Seq<char>, MemoryDef)>,
    fdefs: Seq<(Seq<char>, FunctionDefV)>,
    vars: Seq<Seq<WordV>>,
    t: TokenV,
)
    requires
        t.op is End,
        c.call_stack.len() > 0,
        c.call_stack.last() < c.result.len(),
        c.result[c.call_stack.last() as int].instruction is PushVars,
        link_step(c, consts, mems, fdefs, vars, t) is Ok,
    ensures
        ({
            let c2 = link_step(c, consts, mems, fdefs, vars, t)->Ok_0;
            let head = c.result[c.call_stack.last() as int];
            &&& c2.result.len() == c.result.len() + 1
            &&& c2.result.last().instruction is PopVars
            &&& c2.result.last().data == head.data
            &&& head.data matches LinkedTokenData::Count(_)
        }),
{
}

/// Law: the linker's function table is faithful to the declared signatures:
/// every linked function entry carries exactly the input and output lists
/// that the parser context declares for that name. The type checker resolves
/// every `Call` against this table, so the signature it applies at a call
/// site is the called function's declared signature.
pub proof fn lemma_call_signatures_declared(pc: ParserContextV)
    requires
        link_spec(pc) is Ok,
    ensures
        forall|f: int|
            0 <= f < link_spec(pc)->Ok_0.functions.len() ==> lookup_fdef(
                pc.functions,
                (#[trigger] link_spec(pc)->Ok_0.functions[f]).0,
            ) == Some(
                FunctionDefV {
                    ins: link_spec(pc)->Ok_0.functions[f].1.ins,
                    outs: link_spec(pc)->Ok_0.functions[f].1.outs,
                },
            ),
{
    lemma_link_from_sigs(
        pc.result,
        0,
        crate::linker::init_link_ctx(pc),
        pc.constants,
        pc.memories,
        pc.functions,
        pc.vars,
    );
}

/// The function table's faithfulness to the declared signatures.
pub open spec fn sigs_declared(c: LinkerContextV, fdefs: Seq<(Seq<char>, FunctionDefV)>) -> bool {
    forall|f: int|
        0 <= f < c.functions.len() ==> lookup_fdef(fdefs, (#[trigger] c.functions[f]).0) == Some(
            FunctionDefV { ins: c.functions[f].1.ins, outs: c.functions[f].1.outs },
        )
}

proof fn lemma_link_from_sigs(
    toks: Seq<TokenV>,
    i: int,
    c: LinkerContextV,
    consts: Seq<(Seq<char>, ConstDef)>,
    mems: Seq<(Seq<char>, MemoryDef)>,
    fdefs: Seq<(Seq<char>, FunctionDefV)>,
    vars: Seq<Seq<WordV>>,
)
    requires
        sigs_declared(c, fdefs),
        link_from(toks, i, c, consts, mems, fdefs, vars) is Ok,
    ensures
        sigs_declared(link_from(toks, i, c, consts, mems, fdefs, vars)->Ok_0, fdefs),
    decreases toks.len() - i,
{
    if 0 <= i < toks.len() {
        let c2 = link_step(c, consts, mems, fdefs, vars, toks[i])->Ok_0;
        assert(sigs_declared(c2, fdefs));
        lemma_link_from_sigs(toks, i + 1, c2, consts, mems, fdefs, vars);
    }
}

/// The sum of the first `k` declared memory sizes.
pub open spec fn mem_total(mems: Seq<(Seq<char>, u32, WordV)>, k: int) -> int
    decreases k,
{
    if k <= 0 {
        0
    } else {
        mem_total(mems, k - 1) + mems[k - 1].1
    }
}

/// Law: memory layout. When the declared regions are laid out from `base`,
/// each region's offset is `base` plus the sizes of the regions declared
/// before it, so the regions are disjoint and ordered by declaration, and
/// the total memory size is `base` plus the sum of all declared sizes.
pub proof fn lemma_memory_layout(mems: Seq<(Seq<char>, u32, WordV)>, base: int)
    requires
        0 <= base,
        assign_mems(mems, 0, base, Seq::empty()) is Ok,
    ensures
        ({
            let placed = assign_mems(mems, 0, base, Seq::empty())->Ok_0.0;
            let total = assign_mems(mems, 0, base, Seq::empty())->Ok_0.1;
            &&& placed.len() == mems.len()
            &&& total == base + mem_total(mems, mems.len() as int)
            &&& forall|k: int|
                0 <= k < placed.len() ==> (#[trigger] placed[k]).1.ptr == base + mem_total(mems, k)
                    && placed[k].1.size == mems[k].1
            &&& forall|k1: int, k2: int|
                0 <= k1 < k2 < placed.len() ==> #[trigger] placed[k1].1.ptr + placed[k1].1.size
                    <= #[trigger] placed[k2].1.ptr
        }),
{
    lemma_assign_mems_general(mems, 0, base, Seq::empty(), base);
    let placed = assign_mems(mems, 0, base, Seq::empty())->Ok_0.0;
    assert forall|k1: int, k2: int|
        0 <= k1 < k2 < placed.len() implies #[trigger] placed[k1].1.ptr + placed[k1].1.size
        <= #[trigger] placed[k2].1.ptr by {
        lemma_mem_total_mono(mems, k1 + 1, k2);
    }
}

proof fn lemma_mem_total_mono(mems: Seq<(Seq<char>, u32, WordV)>, a: int, b: int)
    requires
        0 <= a <= b,
    ensures
        mem_total(mems, a) <= mem_total(mems, b),
    decreases b - a,
{
    if a < b {
        lemma_mem_total_mono(mems, a, b - 1);
    }
}

proof fn lemma_assign_mems_general(
    mems: Seq<(Seq<char>, u32, WordV)>,
    i: int,
    base: int,
    placed: Seq<(Seq<char>, MemoryDef)>,
    base0: int,
)
    requires
        0 <= i <= mems.len(),
        0 <= base0 <= base,
        base == base0 + mem_total(mems, i),
        placed.len() == i,
        forall|k: int|
            0 <= k < i ==> (#[trigger] placed[k]).1.ptr == base0 + mem_total(mems, k)
                && placed[k].1.size == mems[k].1,
        assign_mems(mems, i, base, placed) is Ok,
    ensures
        ({
            let fin = assign_mems(mems, i, base, placed)->Ok_0;
            &&& fin.0.len() == mems.len()
            &&& fin.1 == base0 + mem_total(mems, mems.len() as int)
            &&& forall|k: int|
                0 <= k < fin.0.len() ==> (#[trigger] fin.0[k]).1.ptr == base0 + mem_total(mems, k)
                    && fin.0[k].1.size == mems[k].1
        }),
    decreases mems.len() - i,
{
    if i < mems.len() {
        let np = placed.push(
            (mems[i].0, MemoryDef { ptr: base as usize, size: mems[i].1 as usize }),
        );
        lemma_assign_mems_general(mems, i + 1, base + mems[i].1, np, base0);
    }
}

/// Law (checker and interpreter agreement, one intrinsic): when the type
/// checker accepts an intrinsic on an abstract stack, the interpreter, run
/// on a value stack of the same height, never underflows on it: it either
/// succeeds, leaving a stack of exactly the height the checker computed and
/// stepping to the next instruction, or stops at a division by zero or an
/// out-of-bounds memory access, which the type discipline does not rule out.
pub proof fn lemma_intrinsic_agreement(
    i: Intrinsic,
    tstack: Seq<TypedPosV>,
    w: WordV,
    op: LinkedTokenV,
    st: SimStateV,
)
    requires
        op.instruction == InstructionV::Intrinsic(i),
        intrinsic_step(i, tstack, w) is Ok,
        st.stack.len() == tstack.len(),
        st.pc < usize::MAX,
    ensures
        sim_intrinsic(i, op, st) is Ok || sim_intrinsic(i, op, st) == Err::<SimStateV, SimFault>(
            SimFault::DivisionByZero,
        ) || sim_intrinsic(i, op, st) == Err::<SimStateV, SimFault>(SimFault::MemoryOutOfBounds),
        sim_intrinsic(i, op, st) matches Ok(st2) ==> st2.stack.len() == intrinsic_step(
            i,
            tstack,
            w,
        )->Ok_0.len() && st2.pc == st.pc + 1,
{
    let n = st.stack.len() as int;
    let tn = tstack.len() as int;
    match i {
        Intrinsic::Add | Intrinsic::Subtract => {
            assert(tn >= 2);
        },
        Intrinsic::Equals | Intrinsic::NotEquals | Intrinsic::Less | Intrinsic::Greater
            | Intrinsic::LessOrEqual | Intrinsic::GreaterOrEqual => {
            assert(tn >= 2);
        },
        Intrinsic::Multiply | Intrinsic::Divide | Intrinsic::Modulo | Intrinsic::ShiftLeft
            | Intrinsic::ShiftRight | Intrinsic::BitAnd | Intrinsic::BitOr | Intrinsic::BitXor => {
            assert(tn >= 2);
        },
        Intrinsic::Store8 | Intrinsic::Store16 | Intrinsic::Store32 => {
            assert(tn >= 2);
        },
        Intrinsic::Load8 | Intrinsic::Load16 | Intrinsic::Load32 => {
            assert(tn >= 1);
        },
        _ => {},
    }
}

/// Law (checker and interpreter agreement, a conditional jump): when the
/// type checker accepts a `JumpNeq` — a boolean on top of the abstract
/// stack and a resolved target — the interpreter, run on a value stack of
/// the same height, pops the flag and continues at one of the two program
/// points the checker traces: the fall-through or the target.
pub proof fn lemma_jumpneq_agreement(
    tstack: Seq<TypedPosV>,
    w: WordV,
    op: LinkedTokenV,
    st: SimStateV,
    prog: Seq<LinkedTokenV>,
)
    requires
        st.pc < prog.len(),
        st.pc < usize::MAX,
        prog[st.pc as int] == op,
        op.instruction is JumpNeq,
        op.data matches LinkedTokenData::JumpAddr(_),
        consume1(tstack, DataType::BOOL, w) is Ok,
        st.stack.len() == tstack.len(),
    ensures
        crate::simulator::sim_step(prog, st) is Ok,
        ({
            let st2 = crate::simulator::sim_step(prog, st)->Ok_0;
            &&& st2.stack.len() == consume1(tstack, DataType::BOOL, w)->Ok_0.len()
            &&& (st2.pc == st.pc + 1 || op.data == LinkedTokenData::JumpAddr(st2.pc))
        }),
{
    assert(tstack.len() >= 1);
    assert(st.stack.len() >= 1);
}


/// Law (checker and interpreter agreement, a loop test): when the type
/// checker accepts a `Do` — a boolean on top of the abstract stack and a
/// resolved target — the interpreter, run on a value stack of the same
/// height, pops the flag and continues at one of the two program points the
/// checker traces: the loop body behind the `Do`, or its exit target.
pub proof fn lemma_do_agreement(
    tstack: Seq<TypedPosV>,
    w: WordV,
    op: LinkedTokenV,
    st: SimStateV,
    prog: Seq<LinkedTokenV>,
)
    requires
        st.pc < prog.len(),
        st.pc < usize::MAX,
        prog[st.pc as int] == op,
        op.instruction is Do,
        op.data matches LinkedTokenData::JumpAddr(_),
        consume1(tstack, DataType::BOOL, w) is Ok,
        st.stack.len() == tstack.len(),
    ensures
        crate::simulator::sim_step(prog, st) is Ok,
        ({
            let st2 = crate::simulator::sim_step(prog, st)->Ok_0;
            &&& st2.stack.len() == consume1(tstack, DataType::BOOL, w)->Ok_0.len()
            &&& (st2.pc == st.pc + 1 || op.data == LinkedTokenData::JumpAddr(st2.pc))
        }),
{
    assert(tstack.len() >= 1);
    assert(st.stack.len() >= 1);
}


/// The number of instructions of one kind in the stream: `PushVars` when
/// `pv` holds, `PopVars` otherwise.
pub open spec fn count_kind(result: Seq<LinkedTokenV>, pv: bool) -> int
    decreases result.len(),
{
    if result.len() == 0 {
        0
    } else {
        count_kind(result.drop_last(), pv) + (
        if (pv && result.last().instruction is PushVars) || (!pv
            && result.last().instruction is PopVars) {
            1int
        } else {
            0int
        })
    }
}

proof fn lemma_count_push(result: Seq<LinkedTokenV>, x: LinkedTokenV, pv: bool)
    ensures
        count_kind(result.push(x), pv) == count_kind(result, pv) + (
        if (pv && x.instruction is PushVars) || (!pv && x.instruction is PopVars) {
            1int
        } else {
            0int
        }),
{
    assert(result.push(x).drop_last() =~= result);
    assert(result.push(x).last() == x);
}

proof fn lemma_count_update(result: Seq<LinkedTokenV>, j: int, x: LinkedTokenV, pv: bool)
    requires
        0 <= j < result.len(),
        x.instruction == result[j].instruction,
    ensures
        count_kind(result.update(j, x), pv) == count_kind(result, pv),
    decreases result.len(),
{
    if j == result.len() - 1 {
        assert(result.update(j, x).drop_last() =~= result.drop_last());
        assert(result.update(j, x).last() == x);
    } else {
        assert(result.update(j, x).drop_last() =~= result.drop_last().update(j, x));
        assert(result.update(j, x).last() == result.last());
        lemma_count_update(result.drop_last(), j, x, pv);
    }
}

/// The quantity each linking step preserves: pushed blocks, minus popped
/// blocks, minus the blocks still open.
pub open spec fn var_balance(c: LinkerContextV) -> int {
    count_kind(c.result, true) - count_kind(c.result, false) - c.var_stack.len()
}

#[verifier::rlimit(100)]
proof fn lemma_link_step_var_balance(
    c: LinkerContextV,
    consts: Seq<(Seq<char>, ConstDef)>,
    mems: Seq<(Seq<char>, MemoryDef)>,
    fdefs: Seq<(Seq<char>, FunctionDefV)>,
    vars: Seq<Seq<WordV>>,
    t: TokenV,
)
    requires
        link_step(c, consts, mems, fdefs, vars, t) is Ok,
    ensures
        var_balance(link_step(c, consts, mems, fdefs, vars, t)->Ok_0) == var_balance(c),
{
    let c2 = link_step(c, consts, mems, fdefs, vars, t)->Ok_0;
    match t.op {
        OpV::Function(name) => {
            match lookup_fdef(fdefs, name) {
                Some(def) => {
                    let c1 = crate::linker::emit_v(
                        c,
                        t.word,
                        InstructionV::Jump,
                        LinkedTokenData::Empty,
                    );
                    lemma_count_push(c.result, c1.result.last(), true);
                    lemma_count_push(c.result, c1.result.last(), false);
                    lemma_count_push(c1.result, c2.result.last(), true);
                    lemma_count_push(c1.result, c2.result.last(), false);
                },
                None => {},
            }
        },
        OpV::Else => {
            if c.call_stack.len() > 0 && c.call_stack.last() < c.result.len() {
                let ref_ptr = c.call_stack.last() as int;
                let c1 = LinkerContextV { call_stack: c.call_stack.drop_last(), ..c };
                let c2a = LinkerContextV {
                    call_stack: c1.call_stack.push(c1.result.len() as usize),
                    ..c1
                };
                let c3 = crate::linker::emit_v(
                    c2a,
                    t.word,
                    InstructionV::Jump,
                    LinkedTokenData::Empty,
                );
                lemma_count_push(c.result, c3.result.last(), true);
                lemma_count_push(c.result, c3.result.last(), false);
                lemma_count_update(c3.result, ref_ptr, c2.result[ref_ptr], true);
                lemma_count_update(c3.result, ref_ptr, c2.result[ref_ptr], false);
            }
        },
        OpV::End => {
            if c.call_stack.len() > 0 && c.call_stack.last() < c.result.len() {
                let ref_ptr = c.call_stack.last() as int;
                let c1 = LinkerContextV { call_stack: c.call_stack.drop_last(), ..c };
                let head = c1.result[ref_ptr];
                match head.instruction {
                    InstructionV::Function => {
                        if ref_ptr >= 1 {
                            let c2a = crate::linker::emit_v(
                                c1,
                                t.word,
                                InstructionV::Return,
                                LinkedTokenData::Empty,
                            );
                            lemma_count_push(c.result, c2a.result.last(), true);
                            lemma_count_push(c.result, c2a.result.last(), false);
                            lemma_count_update(
                                c2a.result,
                                ref_ptr - 1,
                                c2.result[ref_ptr - 1],
                                true,
                            );
                            lemma_count_update(
                                c2a.result,
                                ref_ptr - 1,
                                c2.result[ref_ptr - 1],
                                false,
                            );
                        }
                    },
                    InstructionV::PushVars => {
                        lemma_count_push(c.result, c2.result.last(), true);
                        lemma_count_push(c.result, c2.result.last(), false);
                    },
                    InstructionV::Jump => {
                        lemma_count_update(c1.result, ref_ptr, c2.result[ref_ptr], true);
                        lemma_count_update(c1.result, ref_ptr, c2.result[ref_ptr], false);
                    },
                    InstructionV::JumpNeq => {
                        lemma_count_update(c1.result, ref_ptr, c2.result[ref_ptr], true);
                        lemma_count_update(c1.result, ref_ptr, c2.result[ref_ptr], false);
                    },
                    InstructionV::Do => {
                        let c2a = crate::linker::emit_v(c1, t.word, InstructionV::Jump, head.data);
                        lemma_count_push(c.result, c2a.result.last(), true);
                        lemma_count_push(c.result, c2a.result.last(), false);
                        lemma_count_update(c2a.result, ref_ptr, c2.result[ref_ptr], true);
                        lemma_count_update(c2a.result, ref_ptr, c2.result[ref_ptr], false);
                    },
                    _ => {},
                }
            }
        },
        OpV::While => {},
        _ => {
            if c2.result.len() == c.result.len() + 1 {
                lemma_count_push(c.result, c2.result.last(), true);
                lemma_count_push(c.result, c2.result.last(), false);
            }
        },
    }
}

proof fn lemma_link_from_var_balance(
    toks: Seq<TokenV>,
    i: int,
    c: LinkerContextV,
    consts: Seq<(Seq<char>, ConstDef)>,
    mems: Seq<(Seq<char>, MemoryDef)>,
    fdefs: Seq<(Seq<char>, FunctionDefV)>,
    vars: Seq<Seq<WordV>>,
)
    requires
        link_from(toks, i, c, consts, mems, fdefs, vars) is Ok,
    ensures
        var_balance(link_from(toks, i, c, consts, mems, fdefs, vars)->Ok_0) == var_balance(c),
    decreases toks.len() - i,
{
    if 0 <= i < toks.len() {
        let c2 = link_step(c, consts, mems, fdefs, vars, toks[i])->Ok_0;
        lemma_link_step_var_balance(c, consts, mems, fdefs, vars, toks[i]);
        lemma_link_from_var_balance(toks, i + 1, c2, consts, mems, fdefs, vars);
    }
}

/// Law: in a linked stream that left no variable block open, every pushed
/// block of variables is popped: the stream holds exactly as many `PopVars`
/// as `PushVars` instructions. Each closing `end` also matches the count of
/// the `PushVars` it closes (see [`lemma_end_matches_pushvars`]).
pub proof fn lemma_pushvars_balanced(pc: ParserContextV)
    requires
        link_spec(pc) is Ok,
        link_spec(pc)->Ok_0.var_stack.len() == 0,
    ensures
        count_kind(link_spec(pc)->Ok_0.result, true) == count_kind(
            link_spec(pc)->Ok_0.result,
            false,
        ),
{
    lemma_link_from_var_balance(
        pc.result,
        0,
        crate::linker::init_link_ctx(pc),
        pc.constants,
        pc.memories,
        pc.functions,
        pc.vars,
    );
}

/// Law: the pipeline is a function of the source alone. Any two runs on the
/// same file name and lines yield the same outcome; in particular, when both
/// yield a program, the two linked streams are identical.
pub proof fn lemma_pipeline_deterministic(
    r1: ParseOutcome,
    r2: ParseOutcome,
    file: Seq<char>,
    lines: Seq<Seq<char>>,
)
    requires
        parse_matches(r1, parse_program_spec(file, lines)),
        parse_matches(r2, parse_program_spec(file, lines)),
    ensures
        r1 is Program <==> r2 is Program,
        r1 is Fail <==> r2 is Fail,
        r1 is Program ==> r1->Program_0.deep_view() == r2->Program_0.deep_view(),
        r1 is Fail ==> r1->Fail_0.deep_view() == r2->Fail_0.deep_view(),
{
}

} // verus!
