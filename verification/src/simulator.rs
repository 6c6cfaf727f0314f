//! The reference interpreter: runs a linked stream over a value stack of
//! unsigned 64-bit words (all arithmetic modulo 2^64), a call stack, a
//! variable stack, a linear byte memory, and a string pool. `dump` appends
//! to an output list instead of printing, so a caller owns all effects.

use vstd::prelude::*;

use crate::linker::{Instruction, InstructionV, LinkedTokenData, LinkedTokenV, LinkerContext, LinkerContextV};
use crate::tokenizer::Intrinsic;
use vstd::string::StrSliceExecFns;

verus! {

/// The byte size of the string pool.
pub open spec fn pool_size() -> int {
    65536
}

/// The UTF-8 encoding of one character.
pub open spec fn utf8_char(c: char) -> Seq<u8> {
    let cp = c as int;
    if cp < 0x80 {
        seq![cp as u8]
    } else if cp < 0x800 {
        seq![(0xC0 + cp / 0x40) as u8, (0x80 + cp % 0x40) as u8]
    } else if cp < 0x10000 {
        seq![
            (0xE0 + cp / 0x1000) as u8,
            (0x80 + (cp / 0x40) % 0x40) as u8,
            (0x80 + cp % 0x40) as u8,
        ]
    } else {
        seq![
            (0xF0 + cp / 0x40000) as u8,
            (0x80 + (cp / 0x1000) % 0x40) as u8,
            (0x80 + (cp / 0x40) % 0x40) as u8,
            (0x80 + cp % 0x40) as u8,
        ]
    }
}

/// The UTF-8 encoding of a character sequence.
pub open spec fn utf8_seq(s: Seq<char>) -> Seq<u8>
    decreases s.len(),
{
    if s.len() == 0 {
        Seq::empty()
    } else {
        utf8_char(s[0]) + utf8_seq(s.skip(1))
    }
}

/// Encodes a string's characters as UTF-8 bytes.
pub fn utf8_encode(s: &str) -> (r: Vec<u8>)
    ensures
        r@ == utf8_seq(s@),
{
    let n = s.unicode_len();
    let mut r: Vec<u8> = Vec::new();
    let mut i: usize = 0;
    proof {
        assert(s@.skip(0) =~= s@);
        assert(r@ + utf8_seq(s@.skip(0)) =~= utf8_seq(s@));
    }
    while i < n
        invariant
            i <= n,
            n == s@.len(),
            utf8_seq(s@) == r@ + utf8_seq(s@.skip(i as int)),
        decreases n - i,
    {
        let c = s.get_char(i);
        let cp = c as u32;
        let ghost pre = r@;
        if cp < 0x80 {
            r.push(cp as u8);
            proof {
                assert(r@ =~= pre + utf8_char(c));
            }
        } else if cp < 0x800 {
            r.push((0xC0 + cp / 0x40) as u8);
            r.push((0x80 + cp % 0x40) as u8);
            proof {
                assert(r@ =~= pre + utf8_char(c));
            }
        } else if cp < 0x10000 {
            r.push((0xE0 + cp / 0x1000) as u8);
            r.push((0x80 + (cp / 0x40) % 0x40) as u8);
            r.push((0x80 + cp % 0x40) as u8);
            proof {
                assert(r@ =~= pre + utf8_char(c));
            }
        } else {
            r.push((0xF0 + cp / 0x40000) as u8);
            r.push((0x80 + (cp / 0x1000) % 0x40) as u8);
            r.push((0x80 + (cp / 0x40) % 0x40) as u8);
            r.push((0x80 + cp % 0x40) as u8);
            proof {
                assert(r@ =~= pre + utf8_char(c));
            }
        }
        proof {
            assert(s@.skip(i as int)[0] == s@[i as int]);
            assert(s@.skip(i as int).skip(1) =~= s@.skip(i as int + 1));
            assert(utf8_seq(s@.skip(i as int)) == utf8_char(s@[i as int]) + utf8_seq(
                s@.skip(i as int + 1),
            ));
            assert(r@ + utf8_seq(s@.skip(i as int + 1)) =~= pre + utf8_seq(s@.skip(i as int)));
        }
        i += 1;
    }
    proof {
        assert(utf8_seq(s@.skip(n as int)) =~= Seq::<u8>::empty());
        assert(r@ + Seq::<u8>::empty() =~= r@);
    }
    r
}

/// Addition modulo 2^64.
pub open spec fn w64add(a: u64, b: u64) -> u64 {
    if a + b <= u64::MAX {
        (a + b) as u64
    } else {
        (a + b - 0x1_0000_0000_0000_0000) as u64
    }
}

/// Subtraction modulo 2^64.
pub open spec fn w64sub(b: u64, a: u64) -> u64 {
    if b >= a {
        (b - a) as u64
    } else {
        (b - a + 0x1_0000_0000_0000_0000) as u64
    }
}

/// Multiplication modulo 2^64.
pub open spec fn w64mul(a: u64, b: u64) -> u64 {
    ((a * b) % 0x1_0000_0000_0000_0000) as u64
}

/// Computes [`w64add`].
fn w64add_exec(a: u64, b: u64) -> (r: u64)
    ensures
        r == w64add(a, b),
{
    if a <= u64::MAX - b {
        a + b
    } else {
        let s = (a as u128) + (b as u128) - 0x1_0000_0000_0000_0000;
        proof {
            assert(s < 0x1_0000_0000_0000_0000);
        }
        s as u64
    }
}

/// Computes [`w64sub`].
fn w64sub_exec(b: u64, a: u64) -> (r: u64)
    ensures
        r == w64sub(b, a),
{
    if b >= a {
        b - a
    } else {
        let s = (b as u128) + 0x1_0000_0000_0000_0000 - (a as u128);
        proof {
            assert(s < 0x1_0000_0000_0000_0000);
        }
        s as u64
    }
}

/// Computes [`w64mul`].
fn w64mul_exec(a: u64, b: u64) -> (r: u64)
    ensures
        r == w64mul(a, b),
{
    proof {
        assert((a as int) * (b as int) < 0x1_0000_0000_0000_0000 * 0x1_0000_0000_0000_0000)
            by (nonlinear_arith)
            requires
                a < 0x1_0000_0000_0000_0000 && b < 0x1_0000_0000_0000_0000,
        ;
    }
    let p = (a as u128) * (b as u128);
    let m = p % 0x1_0000_0000_0000_0000;
    proof {
        assert(m < 0x1_0000_0000_0000_0000);
        assert(m == (a * b) % 0x1_0000_0000_0000_0000);
    }
    m as u64
}

/// The memory with `width` bytes of `v` stored at `p`, least significant
/// byte first.
pub open spec fn store_bytes(mem: Seq<u8>, p: int, v: int, width: int) -> Seq<u8>
    decreases width,
{
    if width <= 0 {
        mem
    } else {
        store_bytes(mem.update(p, (v % 256) as u8), p + 1, v / 256, width - 1)
    }
}

/// The `width`-byte value stored at `p`, least significant byte first.
pub open spec fn load_bytes(mem: Seq<u8>, p: int, width: int) -> int
    decreases width,
{
    if width <= 0 {
        0
    } else {
        mem[p] + 256 * load_bytes(mem, p + 1, width - 1)
    }
}

/// 256 to the `w`.
pub open spec fn pow256(w: int) -> int
    decreases w,
{
    if w <= 0 {
        1
    } else {
        256 * pow256(w - 1)
    }
}

proof fn lemma_load_bytes_bound(mem: Seq<u8>, p: int, width: int)
    ensures
        0 <= load_bytes(mem, p, width) < pow256(width),
    decreases width,
{
    if width > 0 {
        lemma_load_bytes_bound(mem, p + 1, width - 1);
    }
}

/// A runtime fault. The language is deliberately unsafe at runtime: these
/// faults abort the simulation.
#[derive(Clone, Copy, PartialEq, Eq, Structural, Debug)]
pub enum SimFault {
    /// An instruction needed more values than the stack held.
    StackUnderflow,
    /// A `return` with no return address.
    CallStackUnderflow,
    /// Division or remainder by zero.
    DivisionByZero,
    /// A load or store outside the linear memory.
    MemoryOutOfBounds,
    /// A string literal did not fit in the string pool.
    StringPoolOverflow,
    /// An instruction missing its resolved operand.
    MissingOperand,
    /// A variable slot index beyond the variable stack.
    VariableOutOfRange,
}

/// The running machine: value stack, variable stack, call stack, linear
/// memory, string pool, program counter, and the values dumped so far.
#[verifier::ext_equal]
pub ghost struct SimStateV {
    pub stack: Seq<u64>,
    pub vars: Seq<u64>,
    pub call_stack: Seq<usize>,
    pub mem: Seq<u8>,
    pub pool: Seq<u8>,
    pub pool_ptr: int,
    pub pc: usize,
    pub output: Seq<u64>,
}

/// The starting machine for a program with the given memory size.
pub open spec fn init_sim_state(mem_size: int) -> SimStateV {
    SimStateV {
        stack: Seq::empty(),
        vars: Seq::empty(),
        call_stack: Seq::empty(),
        mem: Seq::new(mem_size as nat, |i: int| 0u8),
        pool: Seq::new(pool_size() as nat, |i: int| 0u8),
        pool_ptr: 0,
        pc: 0,
        output: Seq::empty(),
    }
}

/// The pool with `bs` written at `p`.
pub open spec fn splice(pool: Seq<u8>, p: int, bs: Seq<u8>) -> Seq<u8> {
    Seq::new(pool.len(), |i: int| if p <= i < p + bs.len() {
        bs[i - p]
    } else {
        pool[i]
    })
}

/// What one instruction does to the running machine. `JumpNeq` and `Do`
/// jump on zero and fall through otherwise. This is the interpreter's
/// defining equation.
pub open spec fn sim_step(prog: Seq<LinkedTokenV>, st: SimStateV) -> Result<SimStateV, SimFault> {
    let op = prog[st.pc as int];
    let n = st.stack.len() as int;
    match op.instruction {
        InstructionV::PushInt(x) => Ok(
            SimStateV { stack: st.stack.push(x as u64), pc: (st.pc + 1) as usize, ..st },
        ),
        InstructionV::PushPtr(x) => Ok(
            SimStateV { stack: st.stack.push(x as u64), pc: (st.pc + 1) as usize, ..st },
        ),
        InstructionV::PushMem(x) => Ok(
            SimStateV { stack: st.stack.push(x as u64), pc: (st.pc + 1) as usize, ..st },
        ),
        InstructionV::PushBool(x) => Ok(
            SimStateV {
                stack: st.stack.push(if x { 1u64 } else { 0u64 }),
                pc: (st.pc + 1) as usize,
                ..st
            },
        ),
        InstructionV::PushString(s) => {
            let bs = utf8_seq(s);
            if st.pool_ptr + bs.len() > st.pool.len() {
                Err(SimFault::StringPoolOverflow)
            } else {
                Ok(
                    SimStateV {
                        stack: st.stack.push(bs.len() as u64).push(st.pool_ptr as u64),
                        pool: splice(st.pool, st.pool_ptr, bs),
                        pool_ptr: st.pool_ptr + bs.len(),
                        pc: (st.pc + 1) as usize,
                        ..st
                    },
                )
            }
        },
        InstructionV::Intrinsic(i) => sim_intrinsic(i, op, st),
        InstructionV::Function => Ok(SimStateV { pc: (st.pc + 1) as usize, ..st }),
        InstructionV::Call => match op.data {
            LinkedTokenData::JumpAddr(p) => Ok(
                SimStateV {
                    call_stack: st.call_stack.push((st.pc + 1) as usize),
                    pc: p,
                    ..st
                },
            ),
            _ => Err(SimFault::MissingOperand),
        },
        InstructionV::Return => {
            if st.call_stack.len() == 0 {
                Err(SimFault::CallStackUnderflow)
            } else {
                Ok(
                    SimStateV {
                        call_stack: st.call_stack.drop_last(),
                        pc: st.call_stack.last(),
                        ..st
                    },
                )
            }
        },
        InstructionV::PushVars => match op.data {
            LinkedTokenData::Count(k) => {
                if n < k {
                    Err(SimFault::StackUnderflow)
                } else {
                    Ok(
                        SimStateV {
                            stack: st.stack.take(n - k),
                            vars: st.vars + Seq::new(k as nat, |x: int| st.stack[n - 1 - x]),
                            pc: (st.pc + 1) as usize,
                            ..st
                        },
                    )
                }
            },
            _ => Err(SimFault::MissingOperand),
        },
        InstructionV::PopVars => match op.data {
            LinkedTokenData::Count(k) => {
                let keep = if st.vars.len() >= k {
                    st.vars.len() - k
                } else {
                    0
                };
                Ok(SimStateV { vars: st.vars.take(keep as int), pc: (st.pc + 1) as usize, ..st })
            },
            _ => Err(SimFault::MissingOperand),
        },
        InstructionV::ApplyVar => match op.data {
            LinkedTokenData::Index(ix) => {
                if ix >= st.vars.len() {
                    Err(SimFault::VariableOutOfRange)
                } else {
                    Ok(
                        SimStateV {
                            stack: st.stack.push(st.vars[st.vars.len() - 1 - ix]),
                            pc: (st.pc + 1) as usize,
                            ..st
                        },
                    )
                }
            },
            _ => Err(SimFault::MissingOperand),
        },
        InstructionV::Jump => match op.data {
            LinkedTokenData::JumpAddr(p) => Ok(SimStateV { pc: p, ..st }),
            _ => Err(SimFault::MissingOperand),
        },
        InstructionV::JumpNeq => {
            if n == 0 {
                Err(SimFault::StackUnderflow)
            } else {
                let flag = st.stack.last();
                let popped = SimStateV { stack: st.stack.drop_last(), ..st };
                if flag == 0 {
                    match op.data {
                        LinkedTokenData::JumpAddr(p) => Ok(SimStateV { pc: p, ..popped }),
                        _ => Err(SimFault::MissingOperand),
                    }
                } else {
                    Ok(SimStateV { pc: (st.pc + 1) as usize, ..popped })
                }
            }
        },
        InstructionV::Do => {
            if n == 0 {
                Err(SimFault::StackUnderflow)
            } else {
                let flag = st.stack.last();
                let popped = SimStateV { stack: st.stack.drop_last(), ..st };
                if flag == 0 {
                    match op.data {
                        LinkedTokenData::JumpAddr(p) => Ok(SimStateV { pc: p, ..popped }),
                        _ => Err(SimFault::MissingOperand),
                    }
                } else {
                    Ok(SimStateV { pc: (st.pc + 1) as usize, ..popped })
                }
            }
        },
    }
}

/// What one intrinsic does to the running machine.
pub open spec fn sim_intrinsic(i: Intrinsic, op: LinkedTokenV, st: SimStateV) -> Result<
    SimStateV,
    SimFault,
> {
    let n = st.stack.len() as int;
    let next = SimStateV { pc: (st.pc + 1) as usize, ..st };
    match i {
        Intrinsic::Dump => {
            if n < 1 {
                Err(SimFault::StackUnderflow)
            } else {
                Ok(
                    SimStateV {
                        stack: st.stack.drop_last(),
                        output: st.output.push(st.stack.last()),
                        ..next
                    },
                )
            }
        },
        Intrinsic::Drop => {
            if n < 1 {
                Err(SimFault::StackUnderflow)
            } else {
                Ok(SimStateV { stack: st.stack.drop_last(), ..next })
            }
        },
        Intrinsic::Dup => {
            if n < 1 {
                Err(SimFault::StackUnderflow)
            } else {
                Ok(SimStateV { stack: st.stack.push(st.stack.last()), ..next })
            }
        },
        Intrinsic::Over => {
            if n < 2 {
                Err(SimFault::StackUnderflow)
            } else {
                Ok(SimStateV { stack: st.stack.push(st.stack[n - 2]), ..next })
            }
        },
        Intrinsic::Swap => {
            if n < 2 {
                Err(SimFault::StackUnderflow)
            } else {
                Ok(
                    SimStateV {
                        stack: st.stack.take(n - 2).push(st.stack[n - 1]).push(st.stack[n - 2]),
                        ..next
                    },
                )
            }
        },
        Intrinsic::Rot => {
            if n < 3 {
                Err(SimFault::StackUnderflow)
            } else {
                Ok(
                    SimStateV {
                        stack: st.stack.take(n - 3).push(st.stack[n - 2]).push(st.stack[n - 3]).push(
                            st.stack[n - 1],
                        ),
                        ..next
                    },
                )
            }
        },
        Intrinsic::Add | Intrinsic::Subtract | Intrinsic::Multiply | Intrinsic::Divide
            | Intrinsic::Modulo | Intrinsic::ShiftLeft | Intrinsic::ShiftRight
            | Intrinsic::BitAnd | Intrinsic::BitOr | Intrinsic::BitXor | Intrinsic::Equals
            | Intrinsic::NotEquals | Intrinsic::Less | Intrinsic::Greater
            | Intrinsic::LessOrEqual | Intrinsic::GreaterOrEqual => {
            if n < 2 {
                Err(SimFault::StackUnderflow)
            } else {
                let a = st.stack[n - 1];
                let b = st.stack[n - 2];
                if (i == Intrinsic::Divide || i == Intrinsic::Modulo) && a == 0 {
                    Err(SimFault::DivisionByZero)
                } else {
                    let v = sim_binop(i, b, a);
                    Ok(SimStateV { stack: st.stack.take(n - 2).push(v), ..next })
                }
            }
        },
        Intrinsic::Store8 | Intrinsic::Store16 | Intrinsic::Store32 => {
            let width: int = if i == Intrinsic::Store8 {
                1
            } else if i == Intrinsic::Store16 {
                2
            } else {
                4
            };
            if n < 2 {
                Err(SimFault::StackUnderflow)
            } else {
                let p = st.stack[n - 1] as int;
                let v = st.stack[n - 2] as int;
                if p + width > st.mem.len() {
                    Err(SimFault::MemoryOutOfBounds)
                } else {
                    Ok(
                        SimStateV {
                            stack: st.stack.take(n - 2),
                            mem: store_bytes(st.mem, p, v, width),
                            ..next
                        },
                    )
                }
            }
        },
        Intrinsic::Load8 | Intrinsic::Load16 | Intrinsic::Load32 => {
            let width: int = if i == Intrinsic::Load8 {
                1
            } else if i == Intrinsic::Load16 {
                2
            } else {
                4
            };
            if n < 1 {
                Err(SimFault::StackUnderflow)
            } else {
                let p = st.stack[n - 1] as int;
                if p + width > st.mem.len() {
                    Err(SimFault::MemoryOutOfBounds)
                } else {
                    Ok(
                        SimStateV {
                            stack: st.stack.take(n - 1).push(load_bytes(st.mem, p, width) as u64),
                            ..next
                        },
                    )
                }
            }
        },
    }
}

/// A binary intrinsic's value: `b` below `a` on the stack.
pub open spec fn sim_binop(i: Intrinsic, b: u64, a: u64) -> u64 {
    if i == Intrinsic::Add {
        w64add(a, b)
    } else if i == Intrinsic::Subtract {
        w64sub(b, a)
    } else if i == Intrinsic::Multiply {
        w64mul(a, b)
    } else if i == Intrinsic::Divide {
        b / a
    } else if i == Intrinsic::Modulo {
        b % a
    } else if i == Intrinsic::ShiftLeft {
        b << (a % 64)
    } else if i == Intrinsic::ShiftRight {
        b >> (a % 64)
    } else if i == Intrinsic::BitAnd {
        b & a
    } else if i == Intrinsic::BitOr {
        b | a
    } else if i == Intrinsic::BitXor {
        b ^ a
    } else if i == Intrinsic::Equals {
        if a == b { 1u64 } else { 0u64 }
    } else if i == Intrinsic::NotEquals {
        if a != b { 1u64 } else { 0u64 }
    } else if i == Intrinsic::Less {
        if b < a { 1u64 } else { 0u64 }
    } else if i == Intrinsic::Greater {
        if b > a { 1u64 } else { 0u64 }
    } else if i == Intrinsic::LessOrEqual {
        if b <= a { 1u64 } else { 0u64 }
    } else {
        if b >= a { 1u64 } else { 0u64 }
    }
}

/// The machine run for at most `fuel` steps.
pub ghost enum SimResV {
    /// The program ran off the end: the dumped values and the final stack.
    Done(Seq<u64>, Seq<u64>),
    /// A runtime fault.
    Fault(SimFault),
    /// The step budget ran out.
    Out,
}

/// Running the machine for at most `fuel` steps.
pub open spec fn sim_run(prog: Seq<LinkedTokenV>, st: SimStateV, fuel: nat) -> SimResV
    decreases fuel,
{
    if st.pc >= prog.len() {
        SimResV::Done(st.output, st.stack)
    } else if fuel == 0 {
        SimResV::Out
    } else {
        match sim_step(prog, st) {
            Err(f) => SimResV::Fault(f),
            Ok(st2) => sim_run(prog, st2, (fuel - 1) as nat),
        }
    }
}

/// What simulating a linked program yields.
pub open spec fn sim_spec(lc: LinkerContextV, fuel: nat) -> SimResV {
    sim_run(lc.result, init_sim_state(lc.mem_size), fuel)
}

/// The observable result of a finished simulation: the values `dump`
/// printed, in order, and whatever was left on the value stack.
pub struct SimOutput {
    pub output: Vec<u64>,
    pub stack: Vec<u64>,
}

/// The interpreter's verdict.
pub enum SimOutcome {
    /// The program ran to completion.
    Done(SimOutput),
    /// A runtime fault aborted it.
    Fault(SimFault),
    /// The step budget ran out first.
    OutOfSteps,
}

/// Relates an executable verdict to the specification's.
pub open spec fn sim_matches(r: SimOutcome, s: SimResV) -> bool {
    match r {
        SimOutcome::Done(o) => s == SimResV::Done(o.output@, o.stack@),
        SimOutcome::Fault(f) => s == SimResV::Fault(f),
        SimOutcome::OutOfSteps => s == SimResV::Out,
    }
}

/// Computes [`sim_binop`]. The divisor must have been checked.
fn sim_binop_exec(i: Intrinsic, b: u64, a: u64) -> (r: u64)
    requires
        (i == Intrinsic::Divide || i == Intrinsic::Modulo) ==> a != 0,
    ensures
        r == sim_binop(i, b, a),
{
    match i {
        Intrinsic::Add => w64add_exec(a, b),
        Intrinsic::Subtract => w64sub_exec(b, a),
        Intrinsic::Multiply => w64mul_exec(a, b),
        Intrinsic::Divide => b / a,
        Intrinsic::Modulo => b % a,
        Intrinsic::ShiftLeft => b << (a % 64),
        Intrinsic::ShiftRight => b >> (a % 64),
        Intrinsic::BitAnd => b & a,
        Intrinsic::BitOr => b | a,
        Intrinsic::BitXor => b ^ a,
        Intrinsic::Equals => if a == b { 1 } else { 0 },
        Intrinsic::NotEquals => if a != b { 1 } else { 0 },
        Intrinsic::Less => if b < a { 1 } else { 0 },
        Intrinsic::Greater => if b > a { 1 } else { 0 },
        Intrinsic::LessOrEqual => if b <= a { 1 } else { 0 },
        _ => if b >= a { 1 } else { 0 },
    }
}

/// Runs a linked program on the stack machine, within a step budget.
#[verifier::rlimit(80)]
pub fn simulate_tokens(linker_context: &LinkerContext, max_steps: u64) -> (r: SimOutcome)
    ensures
        sim_matches(r, sim_spec(linker_context.deep_view(), max_steps as nat)),
{
    let ghost lcv = linker_context.deep_view();
    let ghost target = sim_spec(lcv, max_steps as nat);
    let mut stack: Vec<u64> = Vec::new();
    let mut vars: Vec<u64> = Vec::new();
    let mut call_stack: Vec<usize> = Vec::new();
    let mut mem: Vec<u8> = vec![0u8; linker_context.mem_size];
    let mut pool: Vec<u8> = vec![0u8; 65536];
    let mut pool_ptr: usize = 0;
    let mut pc: usize = 0;
    let mut output: Vec<u64> = Vec::new();
    let mut fuel: u64 = max_steps;
    proof {
        assert(mem@ =~= init_sim_state(lcv.mem_size).mem);
        assert(pool@ =~= init_sim_state(lcv.mem_size).pool);
        assert((SimStateV {
            stack: stack@,
            vars: vars@,
            call_stack: call_stack@,
            mem: mem@,
            pool: pool@,
            pool_ptr: pool_ptr as int,
            pc,
            output: output@,
        }) =~= init_sim_state(lcv.mem_size));
    }
    while pc < linker_context.result.len() && fuel > 0
        invariant
            lcv == linker_context.deep_view(),
            target == sim_spec(lcv, max_steps as nat),
            pool@.len() == pool_size(),
            pool_ptr <= pool@.len(),
            target == sim_run(
                lcv.result,
                SimStateV {
                    stack: stack@,
                    vars: vars@,
                    call_stack: call_stack@,
                    mem: mem@,
                    pool: pool@,
                    pool_ptr: pool_ptr as int,
                    pc,
                    output: output@,
                },
                fuel as nat,
            ),
        decreases fuel,
    {
        let ghost st = SimStateV {
            stack: stack@,
            vars: vars@,
            call_stack: call_stack@,
            mem: mem@,
            pool: pool@,
            pool_ptr: pool_ptr as int,
            pc,
            output: output@,
        };
        let ghost step = sim_step(lcv.result, st);
        let op = &linker_context.result[pc];
        proof {
            assert(op.deep_view() == lcv.result[pc as int]);
        }
        let n = stack.len();
        match &op.instruction {
            Instruction::PushInt(x) => {
                stack.push(*x as u64);
                pc = pc + 1;
            },
            Instruction::PushPtr(x) => {
                stack.push(*x as u64);
                pc = pc + 1;
            },
            Instruction::PushMem(x) => {
                stack.push(*x as u64);
                pc = pc + 1;
            },
            Instruction::PushBool(x) => {
                stack.push(if *x { 1 } else { 0 });
                pc = pc + 1;
            },
            Instruction::PushString(strval) => {
                let bytes = utf8_encode(strval.as_str());
                let blen = bytes.len();
                if blen > pool.len() - pool_ptr {
                    return SimOutcome::Fault(SimFault::StringPoolOverflow);
                }
                let ghost p0 = pool@;
                let mut k: usize = 0;
                while k < blen
                    invariant
                        k <= blen,
                        blen == bytes@.len(),
                        pool_ptr + blen <= pool@.len(),
                        pool@.len() == p0.len(),
                        pool@.len() == pool_size(),
                        pool@ =~= splice(p0, pool_ptr as int, bytes@.take(k as int)),
                    decreases blen - k,
                {
                    pool[pool_ptr + k] = bytes[k];
                    proof {
                        assert(pool@ =~= splice(p0, pool_ptr as int, bytes@.take(k as int + 1)));
                    }
                    k += 1;
                }
                proof {
                    assert(bytes@.take(blen as int) =~= bytes@);
                    assert(pool@ =~= splice(p0, pool_ptr as int, bytes@));
                }
                stack.push(blen as u64);
                stack.push(pool_ptr as u64);
                pool_ptr = pool_ptr + blen;
                pc = pc + 1;
            },
            Instruction::Intrinsic(intr) => {
                let intr = *intr;
                match intr {
                    Intrinsic::Dump => {
                        if n < 1 {
                            return SimOutcome::Fault(SimFault::StackUnderflow);
                        }
                        let v = stack[n - 1];
                        stack.truncate(n - 1);
                        proof {
                            assert(stack@ =~= st.stack.drop_last());
                        }
                        output.push(v);
                        pc = pc + 1;
                    },
                    Intrinsic::Drop => {
                        if n < 1 {
                            return SimOutcome::Fault(SimFault::StackUnderflow);
                        }
                        stack.truncate(n - 1);
                        proof {
                            assert(stack@ =~= st.stack.drop_last());
                        }
                        pc = pc + 1;
                    },
                    Intrinsic::Dup => {
                        if n < 1 {
                            return SimOutcome::Fault(SimFault::StackUnderflow);
                        }
                        let v = stack[n - 1];
                        stack.push(v);
                        pc = pc + 1;
                    },
                    Intrinsic::Over => {
                        if n < 2 {
                            return SimOutcome::Fault(SimFault::StackUnderflow);
                        }
                        let v = stack[n - 2];
                        stack.push(v);
                        pc = pc + 1;
                    },
                    Intrinsic::Swap => {
                        if n < 2 {
                            return SimOutcome::Fault(SimFault::StackUnderflow);
                        }
                        let a = stack[n - 1];
                        let b = stack[n - 2];
                        stack.truncate(n - 2);
                        proof {
                            assert(stack@ =~= st.stack.take(st.stack.len() - 2));
                        }
                        stack.push(a);
                        stack.push(b);
                        pc = pc + 1;
                    },
                    Intrinsic::Rot => {
                        if n < 3 {
                            return SimOutcome::Fault(SimFault::StackUnderflow);
                        }
                        let a = stack[n - 3];
                        let b = stack[n - 2];
                        let c = stack[n - 1];
                        stack.truncate(n - 3);
                        proof {
                            assert(stack@ =~= st.stack.take(st.stack.len() - 3));
                        }
                        stack.push(b);
                        stack.push(a);
                        stack.push(c);
                        pc = pc + 1;
                    },
                    Intrinsic::Store8 | Intrinsic::Store16 | Intrinsic::Store32 => {
                        let width: usize = match intr {
                            Intrinsic::Store8 => 1,
                            Intrinsic::Store16 => 2,
                            _ => 4,
                        };
                        if n < 2 {
                            return SimOutcome::Fault(SimFault::StackUnderflow);
                        }
                        let pt = stack[n - 1];
                        let v = stack[n - 2];
                        if (mem.len() as u64) < (width as u64) || pt > (mem.len() as u64) - (
                        width as u64) {
                            return SimOutcome::Fault(SimFault::MemoryOutOfBounds);
                        }
                        let p = pt as usize;
                        let ghost m0 = mem@;
                        proof {
                            reveal_with_fuel(store_bytes, 5);
                        }
                        mem[p] = (v % 256) as u8;
                        if width >= 2 {
                            mem[p + 1] = ((v / 256) % 256) as u8;
                        }
                        if width >= 4 {
                            mem[p + 2] = ((v / 0x10000) % 256) as u8;
                            mem[p + 3] = ((v / 0x1000000) % 256) as u8;
                        }
                        proof {
                            assert(mem@ =~= store_bytes(m0, pt as int, v as int, width as int));
                        }
                        stack.truncate(n - 2);
                        proof {
                            assert(stack@ =~= st.stack.take(st.stack.len() - 2));
                        }
                        pc = pc + 1;
                    },
                    Intrinsic::Load8 | Intrinsic::Load16 | Intrinsic::Load32 => {
                        let width: usize = match intr {
                            Intrinsic::Load8 => 1,
                            Intrinsic::Load16 => 2,
                            _ => 4,
                        };
                        if n < 1 {
                            return SimOutcome::Fault(SimFault::StackUnderflow);
                        }
                        let pt = stack[n - 1];
                        if (mem.len() as u64) < (width as u64) || pt > (mem.len() as u64) - (
                        width as u64) {
                            return SimOutcome::Fault(SimFault::MemoryOutOfBounds);
                        }
                        let p = pt as usize;
                        proof {
                            reveal_with_fuel(load_bytes, 5);
                        }
                        let v: u64 = if width == 1 {
                            mem[p] as u64
                        } else if width == 2 {
                            (mem[p] as u64) + 256 * (mem[p + 1] as u64)
                        } else {
                            (mem[p] as u64) + 256 * ((mem[p + 1] as u64) + 256 * ((mem[p + 2] as u64)
                                + 256 * (mem[p + 3] as u64)))
                        };
                        proof {
                            assert(v == load_bytes(mem@, pt as int, width as int));
                        }
                        stack.truncate(n - 1);
                        proof {
                            assert(stack@ =~= st.stack.take(st.stack.len() - 1));
                            assert(st.stack.take(st.stack.len() - 1) =~= st.stack.drop_last());
                        }
                        stack.push(v);
                        pc = pc + 1;
                    },
                    _ => {
                        // the binary arithmetic, bitwise and comparison intrinsics
                        if n < 2 {
                            return SimOutcome::Fault(SimFault::StackUnderflow);
                        }
                        let a = stack[n - 1];
                        let b = stack[n - 2];
                        if (matches!(intr, Intrinsic::Divide) || matches!(intr, Intrinsic::Modulo))
                            && a == 0 {
                            return SimOutcome::Fault(SimFault::DivisionByZero);
                        }
                        let v = sim_binop_exec(intr, b, a);
                        stack.truncate(n - 2);
                        proof {
                            assert(stack@ =~= st.stack.take(st.stack.len() - 2));
                        }
                        stack.push(v);
                        pc = pc + 1;
                    },
                }
            },
            Instruction::Function => {
                pc = pc + 1;
            },
            Instruction::Call => {
                match op.data {
                    LinkedTokenData::JumpAddr(p) => {
                        call_stack.push(pc + 1);
                        pc = p;
                    },
                    _ => {
                        return SimOutcome::Fault(SimFault::MissingOperand);
                    },
                }
            },
            Instruction::Return => {
                match call_stack.pop() {
                    Some(ret) => {
                        proof {
                            assert(call_stack@ =~= st.call_stack.drop_last());
                        }
                        pc = ret;
                    },
                    None => {
                        return SimOutcome::Fault(SimFault::CallStackUnderflow);
                    },
                }
            },
            Instruction::PushVars => {
                match op.data {
                    LinkedTokenData::Count(k) => {
                        if n < k {
                            return SimOutcome::Fault(SimFault::StackUnderflow);
                        }
                        let ghost v0 = vars@;
                        let mut j: usize = 0;
                        while j < k
                            invariant
                                j <= k,
                                k <= n,
                                n == st.stack.len(),
                                stack@ == st.stack,
                                vars@ =~= v0 + Seq::new(j as nat, |x: int| st.stack[n - 1 - x]),
                            decreases k - j,
                        {
                            let v = stack[n - 1 - j];
                            vars.push(v);
                            proof {
                                assert(vars@ =~= v0 + Seq::new(
                                    (j + 1) as nat,
                                    |x: int| st.stack[n - 1 - x],
                                ));
                            }
                            j += 1;
                        }
                        stack.truncate(n - k);
                        proof {
                            assert(stack@ =~= st.stack.take(st.stack.len() - k));
                        }
                        pc = pc + 1;
                    },
                    _ => {
                        return SimOutcome::Fault(SimFault::MissingOperand);
                    },
                }
            },
            Instruction::PopVars => {
                match op.data {
                    LinkedTokenData::Count(k) => {
                        let keep = if vars.len() >= k {
                            vars.len() - k
                        } else {
                            0
                        };
                        vars.truncate(keep);
                        proof {
                            assert(vars@ =~= st.vars.take(keep as int));
                        }
                        pc = pc + 1;
                    },
                    _ => {
                        return SimOutcome::Fault(SimFault::MissingOperand);
                    },
                }
            },
            Instruction::ApplyVar => {
                match op.data {
                    LinkedTokenData::Index(ix) => {
                        if ix >= vars.len() {
                            return SimOutcome::Fault(SimFault::VariableOutOfRange);
                        }
                        let v = vars[vars.len() - 1 - ix];
                        stack.push(v);
                        pc = pc + 1;
                    },
                    _ => {
                        return SimOutcome::Fault(SimFault::MissingOperand);
                    },
                }
            },
            Instruction::Jump => {
                match op.data {
                    LinkedTokenData::JumpAddr(p) => {
                        pc = p;
                    },
                    _ => {
                        return SimOutcome::Fault(SimFault::MissingOperand);
                    },
                }
            },
            Instruction::JumpNeq => {
                if n < 1 {
                    return SimOutcome::Fault(SimFault::StackUnderflow);
                }
                let flag = stack[n - 1];
                stack.truncate(n - 1);
                proof {
                    assert(stack@ =~= st.stack.drop_last());
                }
                if flag == 0 {
                    match op.data {
                        LinkedTokenData::JumpAddr(p) => {
                            pc = p;
                        },
                        _ => {
                            return SimOutcome::Fault(SimFault::MissingOperand);
                        },
                    }
                } else {
                    pc = pc + 1;
                }
            },
            Instruction::Do => {
                if n < 1 {
                    return SimOutcome::Fault(SimFault::StackUnderflow);
                }
                let flag = stack[n - 1];
                stack.truncate(n - 1);
                proof {
                    assert(stack@ =~= st.stack.drop_last());
                }
                if flag == 0 {
                    match op.data {
                        LinkedTokenData::JumpAddr(p) => {
                            pc = p;
                        },
                        _ => {
                            return SimOutcome::Fault(SimFault::MissingOperand);
                        },
                    }
                } else {
                    pc = pc + 1;
                }
            },
        }
        proof {
            let st2 = SimStateV {
                stack: stack@,
                vars: vars@,
                call_stack: call_stack@,
                mem: mem@,
                pool: pool@,
                pool_ptr: pool_ptr as int,
                pc,
                output: output@,
            };
            assert(step == Ok::<SimStateV, SimFault>(st2) || step is Err) by {
                match step {
                    Ok(se) => {
                        assert(st2 =~= se);
                    },
                    Err(_) => {},
                }
            }
            match step {
                Ok(se) => {
                    assert(st2 =~= se);
                },
                Err(_) => {
                    assert(false);
                },
            }
        }
        fuel = fuel - 1;
    }
    if pc >= linker_context.result.len() {
        SimOutcome::Done(SimOutput { output, stack })
    } else {
        SimOutcome::OutOfSteps
    }
}

} // verus!
