//! The linker: turns the evaluated token stream into a linear array of
//! instructions with resolved numeric operands. Jump targets become absolute
//! instruction indices, calls reference function entry points, variable
//! references become slot indices, and memory references become byte offsets.

use vstd::prelude::*;

use crate::checker::{DataType, TypedPos, TypedPosV};
use crate::diag::{Diag, DiagKind, DiagV, DiagKindV};
use crate::lexer::{Word, WordV};
use crate::evaluator::lookup_const;
use crate::strutil::str_eq;
use crate::tokenizer::{
    ConstDef, FunctionDef, FunctionDefV, Intrinsic, MemoryDef, Op, OpV, ParserContext,
    ParserContextV, Token, TokenV, VarDef,
};

verus! {

/// The resolved operand an instruction carries.
#[derive(Clone, Copy, PartialEq, Eq, Structural, Debug)]
pub enum LinkedTokenData {
    Empty,
    /// An absolute index into the linked stream.
    JumpAddr(usize),
    /// A number of variable slots.
    Count(usize),
    /// A slot index from the top of the variable stack.
    Index(usize),
}

/// The linked instructions.
pub enum Instruction {
    PushInt(u32),
    PushPtr(usize),
    PushMem(usize),
    PushBool(bool),
    PushString(String),
    Intrinsic(Intrinsic),
    Function,
    Call,
    Return,
    PushVars,
    PopVars,
    ApplyVar,
    Jump,
    JumpNeq,
    Do,
}

/// The mathematical value of an [`Instruction`].
pub ghost enum InstructionV {
    PushInt(u32),
    PushPtr(int),
    PushMem(int),
    PushBool(bool),
    PushString(Seq<char>),
    Intrinsic(Intrinsic),
    Function,
    Call,
    Return,
    PushVars,
    PopVars,
    ApplyVar,
    Jump,
    JumpNeq,
    Do,
}

impl DeepView for Instruction {
    type V = InstructionV;

    open spec fn deep_view(&self) -> InstructionV {
        match self {
            Instruction::PushInt(x) => InstructionV::PushInt(*x),
            Instruction::PushPtr(x) => InstructionV::PushPtr(*x as int),
            Instruction::PushMem(x) => InstructionV::PushMem(*x as int),
            Instruction::PushBool(x) => InstructionV::PushBool(*x),
            Instruction::PushString(s) => InstructionV::PushString(s@),
            Instruction::Intrinsic(i) => InstructionV::Intrinsic(*i),
            Instruction::Function => InstructionV::Function,
            Instruction::Call => InstructionV::Call,
            Instruction::Return => InstructionV::Return,
            Instruction::PushVars => InstructionV::PushVars,
            Instruction::PopVars => InstructionV::PopVars,
            Instruction::ApplyVar => InstructionV::ApplyVar,
            Instruction::Jump => InstructionV::Jump,
            Instruction::JumpNeq => InstructionV::JumpNeq,
            Instruction::Do => InstructionV::Do,
        }
    }
}

impl Clone for Instruction {
    fn clone(&self) -> (r: Self)
        ensures
            r.deep_view() == self.deep_view(),
    {
        match self {
            Instruction::PushInt(x) => Instruction::PushInt(*x),
            Instruction::PushPtr(x) => Instruction::PushPtr(*x),
            Instruction::PushMem(x) => Instruction::PushMem(*x),
            Instruction::PushBool(x) => Instruction::PushBool(*x),
            Instruction::PushString(s) => Instruction::PushString(s.clone()),
            Instruction::Intrinsic(i) => Instruction::Intrinsic(*i),
            Instruction::Function => Instruction::Function,
            Instruction::Call => Instruction::Call,
            Instruction::Return => Instruction::Return,
            Instruction::PushVars => Instruction::PushVars,
            Instruction::PopVars => Instruction::PopVars,
            Instruction::ApplyVar => Instruction::ApplyVar,
            Instruction::Jump => Instruction::Jump,
            Instruction::JumpNeq => Instruction::JumpNeq,
            Instruction::Do => Instruction::Do,
        }
    }
}

/// One linked instruction: the source word it came from, its own index,
/// the instruction, and its resolved operand.
pub struct LinkedToken {
    pub word: Word,
    pub self_ptr: usize,
    pub instruction: Instruction,
    pub data: LinkedTokenData,
}

/// The mathematical value of a [`LinkedToken`].
#[verifier::ext_equal]
pub ghost struct LinkedTokenV {
    pub word: WordV,
    pub self_ptr: usize,
    pub instruction: InstructionV,
    pub data: LinkedTokenData,
}

impl DeepView for LinkedToken {
    type V = LinkedTokenV;

    open spec fn deep_view(&self) -> LinkedTokenV {
        LinkedTokenV {
            word: self.word.deep_view(),
            self_ptr: self.self_ptr,
            instruction: self.instruction.deep_view(),
            data: self.data,
        }
    }
}

impl Clone for LinkedToken {
    fn clone(&self) -> (r: Self)
        ensures
            r.deep_view() == self.deep_view(),
    {
        LinkedToken {
            word: self.word.clone(),
            self_ptr: self.self_ptr,
            instruction: self.instruction.clone(),
            data: self.data,
        }
    }
}

impl LinkedToken {
    /// Builds a linked instruction with an operand.
    pub fn new_with_data(
        word: Word,
        self_ptr: usize,
        instruction: Instruction,
        data: LinkedTokenData,
    ) -> (r: LinkedToken)
        ensures
            r.deep_view() == (LinkedTokenV {
                word: word.deep_view(),
                self_ptr,
                instruction: instruction.deep_view(),
                data,
            }),
    {
        LinkedToken { word, self_ptr, instruction, data }
    }

    /// Builds a linked instruction without an operand.
    pub fn new(word: Word, self_ptr: usize, instruction: Instruction) -> (r: LinkedToken)
        ensures
            r.deep_view() == (LinkedTokenV {
                word: word.deep_view(),
                self_ptr,
                instruction: instruction.deep_view(),
                data: LinkedTokenData::Empty,
            }),
    {
        LinkedToken::new_with_data(word, self_ptr, instruction, LinkedTokenData::Empty)
    }
}

/// A linked function: its signature and its entry index.
pub struct FunctionRef {
    pub ins: Vec<TypedPos>,
    pub outs: Vec<TypedPos>,
    pub ptr: usize,
}

/// The mathematical value of a [`FunctionRef`].
#[verifier::ext_equal]
pub ghost struct FunctionRefV {
    pub ins: Seq<TypedPosV>,
    pub outs: Seq<TypedPosV>,
    pub ptr: usize,
}

impl DeepView for FunctionRef {
    type V = FunctionRefV;

    open spec fn deep_view(&self) -> FunctionRefV {
        FunctionRefV { ins: self.ins.deep_view(), outs: self.outs.deep_view(), ptr: self.ptr }
    }
}

/// The linker's state and output: the linked stream, the function table,
/// and the open-block bookkeeping.
pub struct LinkerContext {
    pub tokens: Vec<Token>,
    pub result: Vec<LinkedToken>,
    pub functions: Vec<(String, FunctionRef)>,
    pub call_stack: Vec<usize>,
    pub var_stack: Vec<usize>,
    pub var_name_stack: Vec<String>,
    pub mem_size: usize,
}

/// The mathematical value of a [`LinkerContext`].
#[verifier::ext_equal]
pub ghost struct LinkerContextV {
    pub tokens: Seq<TokenV>,
    pub result: Seq<LinkedTokenV>,
    pub functions: Seq<(Seq<char>, FunctionRefV)>,
    pub call_stack: Seq<usize>,
    pub var_stack: Seq<usize>,
    pub var_name_stack: Seq<Seq<char>>,
    pub mem_size: int,
}

impl DeepView for LinkerContext {
    type V = LinkerContextV;

    open spec fn deep_view(&self) -> LinkerContextV {
        LinkerContextV {
            tokens: self.tokens.deep_view(),
            result: self.result.deep_view(),
            functions: self.functions.deep_view(),
            call_stack: self.call_stack.deep_view(),
            var_stack: self.var_stack.deep_view(),
            var_name_stack: self.var_name_stack.deep_view(),
            mem_size: self.mem_size as int,
        }
    }
}

impl LinkerContext {
    /// A fresh linker state over a token stream and a total memory size.
    pub fn new(tokens: Vec<Token>, mem_size: usize) -> (r: LinkerContext)
        ensures
            r.deep_view() == (LinkerContextV {
                tokens: tokens.deep_view(),
                result: Seq::empty(),
                functions: Seq::empty(),
                call_stack: Seq::empty(),
                var_stack: Seq::empty(),
                var_name_stack: Seq::empty(),
                mem_size: mem_size as int,
            }),
    {
        let r = LinkerContext {
            tokens,
            result: Vec::new(),
            functions: Vec::new(),
            call_stack: Vec::new(),
            var_stack: Vec::new(),
            var_name_stack: Vec::new(),
            mem_size,
        };
        proof {
            assert(r.deep_view() =~= (LinkerContextV {
                tokens: r.tokens.deep_view(),
                result: Seq::empty(),
                functions: Seq::empty(),
                call_stack: Seq::empty(),
                var_stack: Seq::empty(),
                var_name_stack: Seq::empty(),
                mem_size: mem_size as int,
            }));
        }
        r
    }
}

/// The context with one more instruction appended, indexed at the previous
/// length of the stream.
pub open spec fn emit_v(
    c: LinkerContextV,
    w: WordV,
    ins: InstructionV,
    data: LinkedTokenData,
) -> LinkerContextV {
    LinkerContextV {
        result: c.result.push(
            LinkedTokenV { word: w, self_ptr: c.result.len() as usize, instruction: ins, data },
        ),
        ..c
    }
}

/// The first memory-table entry with the given name, scanning from `i`.
pub open spec fn lookup_mem_from(
    mems: Seq<(Seq<char>, MemoryDef)>,
    i: int,
    name: Seq<char>,
) -> Option<MemoryDef>
    decreases mems.len() - i,
{
    if i < 0 || i >= mems.len() {
        None
    } else if mems[i].0 == name {
        Some(mems[i].1)
    } else {
        lookup_mem_from(mems, i + 1, name)
    }
}

/// The memory region a name refers to, if any.
pub open spec fn lookup_mem(mems: Seq<(Seq<char>, MemoryDef)>, name: Seq<char>) -> Option<
    MemoryDef,
> {
    lookup_mem_from(mems, 0, name)
}

/// The first declared-function entry with the given name, scanning from `i`.
pub open spec fn lookup_fdef_from(
    fdefs: Seq<(Seq<char>, FunctionDefV)>,
    i: int,
    name: Seq<char>,
) -> Option<FunctionDefV>
    decreases fdefs.len() - i,
{
    if i < 0 || i >= fdefs.len() {
        None
    } else if fdefs[i].0 == name {
        Some(fdefs[i].1)
    } else {
        lookup_fdef_from(fdefs, i + 1, name)
    }
}

/// The declared signature a function name refers to, if any.
pub open spec fn lookup_fdef(fdefs: Seq<(Seq<char>, FunctionDefV)>, name: Seq<char>) -> Option<
    FunctionDefV,
> {
    lookup_fdef_from(fdefs, 0, name)
}

/// The first linked-function entry with the given name, scanning from `i`.
pub open spec fn lookup_fnref_from(
    table: Seq<(Seq<char>, FunctionRefV)>,
    i: int,
    name: Seq<char>,
) -> Option<FunctionRefV>
    decreases table.len() - i,
{
    if i < 0 || i >= table.len() {
        None
    } else if table[i].0 == name {
        Some(table[i].1)
    } else {
        lookup_fnref_from(table, i + 1, name)
    }
}

/// The linked function a name refers to, if any.
pub open spec fn lookup_fnref(table: Seq<(Seq<char>, FunctionRefV)>, name: Seq<char>) -> Option<
    FunctionRefV,
> {
    lookup_fnref_from(table, 0, name)
}

/// The position of the topmost occurrence of `name` on the variable-name
/// stack, if any.
pub open spec fn rfind_name(names: Seq<Seq<char>>, name: Seq<char>) -> Option<int>
    decreases names.len(),
{
    if names.len() == 0 {
        None
    } else if names.last() == name {
        Some(names.len() - 1)
    } else {
        rfind_name(names.drop_last(), name)
    }
}

/// The variable-name stack with the topmost occurrence of `name` removed.
pub open spec fn remove_last_name(names: Seq<Seq<char>>, name: Seq<char>) -> Seq<Seq<char>> {
    match rfind_name(names, name) {
        Some(j) => names.remove(j),
        None => names,
    }
}

/// The variable-name stack after a block's names are taken back off it,
/// each by its topmost occurrence, in declaration order.
pub open spec fn remove_block_names(
    var_names: Seq<Seq<char>>,
    names: Seq<WordV>,
    k: int,
) -> Seq<Seq<char>>
    decreases names.len() - k,
{
    if k < 0 || k >= names.len() {
        var_names
    } else {
        remove_block_names(remove_last_name(var_names, names[k].txt), names, k + 1)
    }
}

/// The variable-name stack with a block's names pushed, in declaration order.
pub open spec fn push_block_names(var_names: Seq<Seq<char>>, names: Seq<WordV>) -> Seq<Seq<char>> {
    var_names + Seq::new(names.len(), |k: int| names[k].txt)
}

/// What linking one token does to the linker state, over the evaluated
/// name tables. This is the linker's defining equation.
pub open spec fn link_step(
    c: LinkerContextV,
    consts: Seq<(Seq<char>, ConstDef)>,
    mems: Seq<(Seq<char>, MemoryDef)>,
    fdefs: Seq<(Seq<char>, FunctionDefV)>,
    vars: Seq<Seq<WordV>>,
    t: TokenV,
) -> Result<LinkerContextV, DiagV> {
    let len = c.result.len() as int;
    match t.op {
        OpV::PushInt(v) => Ok(emit_v(c, t.word, InstructionV::PushInt(v), LinkedTokenData::Empty)),
        OpV::PushPtr(v) => Ok(
            emit_v(c, t.word, InstructionV::PushPtr(v), LinkedTokenData::Empty),
        ),
        OpV::PushBool(v) => Ok(
            emit_v(c, t.word, InstructionV::PushBool(v), LinkedTokenData::Empty),
        ),
        OpV::PushString(s) => Ok(
            emit_v(c, t.word, InstructionV::PushString(s), LinkedTokenData::Empty),
        ),
        OpV::Intrinsic(i) => Ok(
            emit_v(c, t.word, InstructionV::Intrinsic(i), LinkedTokenData::Empty),
        ),
        OpV::Const(_) => Err(DiagV { word: t.word, kind: DiagKindV::UnevaluatedDefinition }),
        OpV::Mem(_) => Err(DiagV { word: t.word, kind: DiagKindV::UnevaluatedDefinition }),
        OpV::ConstRef(name) => match lookup_const(consts, name) {
            None => Err(DiagV { word: t.word, kind: DiagKindV::UndefinedReference }),
            Some(d) => match d.typ {
                DataType::INT => Ok(
                    emit_v(c, t.word, InstructionV::PushInt(d.val), LinkedTokenData::Empty),
                ),
                DataType::BOOL => Ok(
                    emit_v(c, t.word, InstructionV::PushBool(d.val != 0), LinkedTokenData::Empty),
                ),
                DataType::PTR => Ok(
                    emit_v(c, t.word, InstructionV::PushPtr(d.val as int), LinkedTokenData::Empty),
                ),
            },
        },
        OpV::MemRef(name) => match lookup_mem(mems, name) {
            None => Err(DiagV { word: t.word, kind: DiagKindV::UndefinedReference }),
            Some(d) => Ok(
                emit_v(c, t.word, InstructionV::PushMem(d.ptr as int), LinkedTokenData::Empty),
            ),
        },
        OpV::Function(name) => match lookup_fdef(fdefs, name) {
            None => Err(DiagV { word: t.word, kind: DiagKindV::UndefinedReference }),
            Some(def) => {
                let c1 = emit_v(c, t.word, InstructionV::Jump, LinkedTokenData::Empty);
                let entry = c1.result.len() as usize;
                let c2 = LinkerContextV { call_stack: c1.call_stack.push(entry), ..c1 };
                let c3 = emit_v(c2, t.word, InstructionV::Function, LinkedTokenData::Empty);
                Ok(
                    LinkerContextV {
                        functions: c3.functions.push(
                            (name, FunctionRefV { ins: def.ins, outs: def.outs, ptr: entry }),
                        ),
                        ..c3
                    },
                )
            },
        },
        OpV::FunctionRef(name) => match lookup_fnref(c.functions, name) {
            None => Err(DiagV { word: t.word, kind: DiagKindV::UndefinedReference }),
            Some(fr) => Ok(
                emit_v(c, t.word, InstructionV::Call, LinkedTokenData::JumpAddr(fr.ptr)),
            ),
        },
        OpV::Var(id) => {
            if id < 0 || id >= vars.len() {
                Err(DiagV { word: t.word, kind: DiagKindV::UndefinedReference })
            } else {
                let names = vars[id];
                let c1 = LinkerContextV {
                    call_stack: c.call_stack.push(c.result.len() as usize),
                    var_stack: c.var_stack.push(id as usize),
                    var_name_stack: push_block_names(c.var_name_stack, names),
                    ..c
                };
                Ok(
                    emit_v(
                        c1,
                        t.word,
                        InstructionV::PushVars,
                        LinkedTokenData::Count(names.len() as usize),
                    ),
                )
            }
        },
        OpV::VarRef(name) => {
            if c.var_stack.len() == 0 {
                Err(DiagV { word: t.word, kind: DiagKindV::UndefinedReference })
            } else {
                match rfind_name(c.var_name_stack, name) {
                    None => Err(DiagV { word: t.word, kind: DiagKindV::UndefinedReference }),
                    Some(j) => Ok(
                        emit_v(
                            c,
                            t.word,
                            InstructionV::ApplyVar,
                            LinkedTokenData::Index((c.var_name_stack.len() - 1 - j) as usize),
                        ),
                    ),
                }
            }
        },
        OpV::If => {
            let c1 = LinkerContextV {
                call_stack: c.call_stack.push(c.result.len() as usize),
                ..c
            };
            Ok(emit_v(c1, t.word, InstructionV::JumpNeq, LinkedTokenData::Empty))
        },
        OpV::Else => {
            if c.call_stack.len() == 0 {
                Err(DiagV { word: t.word, kind: DiagKindV::DanglingElse })
            } else {
                let ref_ptr = c.call_stack.last();
                let c1 = LinkerContextV { call_stack: c.call_stack.drop_last(), ..c };
                if ref_ptr >= c1.result.len() {
                    Err(DiagV { word: t.word, kind: DiagKindV::InvalidEndTarget })
                } else {
                    let c2 = LinkerContextV {
                        call_stack: c1.call_stack.push(c1.result.len() as usize),
                        ..c1
                    };
                    let c3 = emit_v(c2, t.word, InstructionV::Jump, LinkedTokenData::Empty);
                    let old = c3.result[ref_ptr as int];
                    Ok(
                        LinkerContextV {
                            result: c3.result.update(
                                ref_ptr as int,
                                LinkedTokenV {
                                    data: LinkedTokenData::JumpAddr(c3.result.len() as usize),
                                    ..old
                                },
                            ),
                            ..c3
                        },
                    )
                }
            }
        },
        OpV::While => Ok(
            LinkerContextV { call_stack: c.call_stack.push(c.result.len() as usize), ..c },
        ),
        OpV::Do => {
            if c.call_stack.len() == 0 {
                Err(DiagV { word: t.word, kind: DiagKindV::DanglingDo })
            } else {
                let ref_ptr = c.call_stack.last();
                let c1 = LinkerContextV { call_stack: c.call_stack.drop_last(), ..c };
                if ref_ptr >= c1.result.len() {
                    Err(DiagV { word: t.word, kind: DiagKindV::InvalidEndTarget })
                } else {
                    let c2 = LinkerContextV {
                        call_stack: c1.call_stack.push(c1.result.len() as usize),
                        ..c1
                    };
                    Ok(emit_v(c2, t.word, InstructionV::Do, LinkedTokenData::JumpAddr(ref_ptr)))
                }
            }
        },
        OpV::End => {
            if c.call_stack.len() == 0 {
                Err(DiagV { word: t.word, kind: DiagKindV::DanglingEnd })
            } else {
                let ref_ptr = c.call_stack.last();
                let c1 = LinkerContextV { call_stack: c.call_stack.drop_last(), ..c };
                if ref_ptr >= c1.result.len() {
                    Err(DiagV { word: t.word, kind: DiagKindV::InvalidEndTarget })
                } else {
                    let head = c1.result[ref_ptr as int];
                    match head.instruction {
                        InstructionV::Function => {
                            if ref_ptr < 1 {
                                Err(DiagV { word: t.word, kind: DiagKindV::InvalidEndTarget })
                            } else {
                                let c2 = emit_v(
                                    c1,
                                    t.word,
                                    InstructionV::Return,
                                    LinkedTokenData::Empty,
                                );
                                let jt = c2.result[ref_ptr - 1];
                                Ok(
                                    LinkerContextV {
                                        result: c2.result.update(
                                            ref_ptr - 1,
                                            LinkedTokenV {
                                                data: LinkedTokenData::JumpAddr(
                                                    c2.result.len() as usize,
                                                ),
                                                ..jt
                                            },
                                        ),
                                        ..c2
                                    },
                                )
                            }
                        },
                        InstructionV::PushVars => {
                            if c1.var_stack.len() == 0 {
                                Err(DiagV { word: t.word, kind: DiagKindV::InvalidEndTarget })
                            } else {
                                let id = c1.var_stack.last();
                                if id >= vars.len() {
                                    Err(
                                        DiagV { word: t.word, kind: DiagKindV::UndefinedReference },
                                    )
                                } else {
                                    match head.data {
                                        LinkedTokenData::Count(count) => {
                                            let c2 = LinkerContextV {
                                                var_stack: c1.var_stack.drop_last(),
                                                var_name_stack: remove_block_names(
                                                    c1.var_name_stack,
                                                    vars[id as int],
                                                    0,
                                                ),
                                                ..c1
                                            };
                                            Ok(
                                                emit_v(
                                                    c2,
                                                    t.word,
                                                    InstructionV::PopVars,
                                                    LinkedTokenData::Count(count),
                                                ),
                                            )
                                        },
                                        _ => Err(
                                            DiagV {
                                                word: t.word,
                                                kind: DiagKindV::InvalidEndTarget,
                                            },
                                        ),
                                    }
                                }
                            }
                        },
                        InstructionV::Jump => Ok(
                            LinkerContextV {
                                result: c1.result.update(
                                    ref_ptr as int,
                                    LinkedTokenV {
                                        data: LinkedTokenData::JumpAddr(c1.result.len() as usize),
                                        ..head
                                    },
                                ),
                                ..c1
                            },
                        ),
                        InstructionV::JumpNeq => Ok(
                            LinkerContextV {
                                result: c1.result.update(
                                    ref_ptr as int,
                                    LinkedTokenV {
                                        data: LinkedTokenData::JumpAddr(c1.result.len() as usize),
                                        ..head
                                    },
                                ),
                                ..c1
                            },
                        ),
                        InstructionV::Do => {
                            let c2 = emit_v(c1, t.word, InstructionV::Jump, head.data);
                            Ok(
                                LinkerContextV {
                                    result: c2.result.update(
                                        ref_ptr as int,
                                        LinkedTokenV {
                                            data: LinkedTokenData::JumpAddr(
                                                c2.result.len() as usize,
                                            ),
                                            ..head
                                        },
                                    ),
                                    ..c2
                                },
                            )
                        },
                        _ => Err(DiagV { word: t.word, kind: DiagKindV::InvalidEndTarget }),
                    }
                }
            }
        },
    }
}

/// Linking the tokens from `i` onward.
pub open spec fn link_from(
    toks: Seq<TokenV>,
    i: int,
    c: LinkerContextV,
    consts: Seq<(Seq<char>, ConstDef)>,
    mems: Seq<(Seq<char>, MemoryDef)>,
    fdefs: Seq<(Seq<char>, FunctionDefV)>,
    vars: Seq<Seq<WordV>>,
) -> Result<LinkerContextV, DiagV>
    decreases toks.len() - i,
{
    if i < 0 || i >= toks.len() {
        Ok(c)
    } else {
        match link_step(c, consts, mems, fdefs, vars, toks[i]) {
            Err(d) => Err(d),
            Ok(c1) => link_from(toks, i + 1, c1, consts, mems, fdefs, vars),
        }
    }
}

/// The fresh linker state for an evaluated parser context.
pub open spec fn init_link_ctx(pc: ParserContextV) -> LinkerContextV {
    LinkerContextV {
        tokens: Seq::empty(),
        result: Seq::empty(),
        functions: Seq::empty(),
        call_stack: Seq::empty(),
        var_stack: Seq::empty(),
        var_name_stack: Seq::empty(),
        mem_size: pc.total_memory_size,
    }
}

/// What linking an evaluated parser context yields.
pub open spec fn link_spec(pc: ParserContextV) -> Result<LinkerContextV, DiagV> {
    link_from(pc.result, 0, init_link_ctx(pc), pc.constants, pc.memories, pc.functions, pc.vars)
}

/// Scans the memory table for `name`.
fn get_mem(mems: &Vec<(String, MemoryDef)>, name: &str) -> (r: Option<MemoryDef>)
    ensures
        r == lookup_mem(mems.deep_view(), name@),
{
    let ghost mv = mems.deep_view();
    let mut i: usize = 0;
    while i < mems.len()
        invariant
            i <= mems@.len(),
            mv == mems.deep_view(),
            lookup_mem(mv, name@) == lookup_mem_from(mv, i as int, name@),
        decreases mems@.len() - i,
    {
        if str_eq(mems[i].0.as_str(), name) {
            return Some(mems[i].1);
        }
        i += 1;
    }
    None
}

/// Scans the declared-function table for `name`.
fn get_fdef(fdefs: &Vec<(String, FunctionDef)>, name: &str) -> (r: Option<FunctionDef>)
    ensures
        match r {
            Some(d) => lookup_fdef(fdefs.deep_view(), name@) == Some(d.deep_view()),
            None => lookup_fdef(fdefs.deep_view(), name@) is None,
        },
{
    let ghost fv = fdefs.deep_view();
    let mut i: usize = 0;
    while i < fdefs.len()
        invariant
            i <= fdefs@.len(),
            fv == fdefs.deep_view(),
            lookup_fdef(fv, name@) == lookup_fdef_from(fv, i as int, name@),
        decreases fdefs@.len() - i,
    {
        if str_eq(fdefs[i].0.as_str(), name) {
            return Some(fdefs[i].1.clone());
        }
        i += 1;
    }
    None
}

/// Scans the linked-function table for `name` and yields its entry index.
fn get_fnref_ptr(table: &Vec<(String, FunctionRef)>, name: &str) -> (r: Option<usize>)
    ensures
        match r {
            Some(p) => lookup_fnref(table.deep_view(), name@) is Some && lookup_fnref(
                table.deep_view(),
                name@,
            )->Some_0.ptr == p,
            None => lookup_fnref(table.deep_view(), name@) is None,
        },
{
    let ghost fv = table.deep_view();
    let mut i: usize = 0;
    while i < table.len()
        invariant
            i <= table@.len(),
            fv == table.deep_view(),
            lookup_fnref(fv, name@) == lookup_fnref_from(fv, i as int, name@),
        decreases table@.len() - i,
    {
        if str_eq(table[i].0.as_str(), name) {
            return Some(table[i].1.ptr);
        }
        i += 1;
    }
    None
}

/// Scans the variable-name stack from the top for `name`.
fn rfind_var(names: &Vec<String>, name: &str) -> (r: Option<usize>)
    ensures
        match r {
            Some(j) => rfind_name(names.deep_view(), name@) == Some(j as int) && j
                < names.deep_view().len(),
            None => rfind_name(names.deep_view(), name@) is None,
        },
{
    let ghost nv = names.deep_view();
    let mut j: usize = names.len();
    proof {
        assert(nv.take(names@.len() as int) =~= nv);
    }
    while j > 0
        invariant
            j <= nv.len(),
            nv == names.deep_view(),
            rfind_name(nv, name@) == rfind_name(nv.take(j as int)
            , name@),
        decreases j,
    {
        if str_eq(names[j - 1].as_str(), name) {
            proof {
                assert(nv.take(j as int).last() == nv[j - 1]);
            }
            return Some(j - 1);
        }
        proof {
            assert(nv.take(j as int).drop_last() =~= nv.take(j - 1));
        }
        j -= 1;
    }
    None
}

/// Pops a block's names off the variable-name stack, each by its topmost
/// occurrence, in declaration order.
fn remove_block(var_names: &mut Vec<String>, names: &Vec<Word>)
    ensures
        final(var_names).deep_view() == remove_block_names(
            old(var_names).deep_view(),
            names.deep_view(),
            0,
        ),
{
    let ghost v0 = old(var_names).deep_view();
    let ghost nv = names.deep_view();
    let mut k: usize = 0;
    while k < names.len()
        invariant
            k <= nv.len(),
            nv == names.deep_view(),
            remove_block_names(v0, nv, 0) == remove_block_names(
                var_names.deep_view(),
                nv,
                k as int,
            ),
        decreases nv.len() - k,
    {
        let ghost pre = var_names.deep_view();
        match rfind_var(var_names, names[k].txt.as_str()) {
            Some(j) => {
                var_names.remove(j);
                proof {
                    assert(var_names.deep_view() =~= pre.remove(j as int));
                    assert(remove_last_name(pre, nv[k as int].txt) == pre.remove(j as int));
                }
            },
            None => {
                proof {
                    assert(remove_last_name(pre, nv[k as int].txt) == pre);
                }
            },
        }
        k += 1;
    }
}

/// Appends one instruction to the linked stream, indexed at its position.
fn emit(ctx: &mut LinkerContext, word: Word, instruction: Instruction, data: LinkedTokenData)
    ensures
        final(ctx).deep_view() == emit_v(
            old(ctx).deep_view(),
            word.deep_view(),
            instruction.deep_view(),
            data,
        ),
{
    let ghost c0 = old(ctx).deep_view();
    let p = ctx.result.len();
    let lt = LinkedToken::new_with_data(word, p, instruction, data);
    let ghost lv = lt.deep_view();
    ctx.result.push(lt);
    proof {
        assert(ctx.result.deep_view() =~= c0.result.push(lv));
        assert(ctx.deep_view() =~= emit_v(c0, lv.word, lv.instruction, data));
    }
}

/// Links an evaluated token stream into a linear instruction array with
/// fully resolved operands: jump targets and call targets become absolute
/// indices, variable references become slot indices, memory references
/// become byte offsets.
#[verifier::rlimit(60)]
pub fn link_tokens(parser_context: ParserContext) -> (r: Result<LinkerContext, Diag>)
    ensures
        match r {
            Ok(lc) => link_spec(parser_context.deep_view()) == Ok::<LinkerContextV, DiagV>(
                lc.deep_view(),
            ),
            Err(d) => link_spec(parser_context.deep_view()) == Err::<LinkerContextV, DiagV>(
                d.deep_view(),
            ),
        },
{
    let ghost pcv = parser_context.deep_view();
    let ghost target = link_spec(pcv);
    let ParserContext {
        result: toks,
        constants,
        functions: fdefs,
        memories: mems,
        vars,
        total_memory_size,
        known_constants: _,
        known_memories: _,
    } = parser_context;
    let mut ctx = LinkerContext::new(Vec::new(), total_memory_size);
    proof {
        assert(ctx.deep_view() =~= init_link_ctx(pcv));
    }
    let mut i: usize = 0;
    while i < toks.len()
        invariant
            i <= toks@.len(),
            pcv == parser_context.deep_view(),
            toks.deep_view() == pcv.result,
            constants.deep_view() == pcv.constants,
            mems.deep_view() == pcv.memories,
            fdefs.deep_view() == pcv.functions,
            vars.deep_view() == pcv.vars,
            target == link_spec(pcv),
            target == link_from(
                pcv.result,
                i as int,
                ctx.deep_view(),
                pcv.constants,
                pcv.memories,
                pcv.functions,
                pcv.vars,
            ),
        decreases toks@.len() - i,
    {
        let ghost cdv = ctx.deep_view();
        let ghost tv = pcv.result[i as int];
        let t = toks[i].clone();
        proof {
            assert(t.deep_view() == tv);
        }
        let ghost step = link_step(cdv, pcv.constants, pcv.memories, pcv.functions, pcv.vars, tv);
        match t.op {
            Op::PushInt(val) => {
                emit(&mut ctx, t.word, Instruction::PushInt(val), LinkedTokenData::Empty);
                proof { assert(step == Ok::<LinkerContextV, DiagV>(ctx.deep_view())); }
            },
            Op::PushPtr(val) => {
                emit(&mut ctx, t.word, Instruction::PushPtr(val), LinkedTokenData::Empty);
                proof { assert(step == Ok::<LinkerContextV, DiagV>(ctx.deep_view())); }
            },
            Op::PushBool(val) => {
                emit(&mut ctx, t.word, Instruction::PushBool(val), LinkedTokenData::Empty);
                proof { assert(step == Ok::<LinkerContextV, DiagV>(ctx.deep_view())); }
            },
            Op::PushString(val) => {
                emit(&mut ctx, t.word, Instruction::PushString(val), LinkedTokenData::Empty);
                proof { assert(step == Ok::<LinkerContextV, DiagV>(ctx.deep_view())); }
            },
            Op::Intrinsic(val) => {
                emit(&mut ctx, t.word, Instruction::Intrinsic(val), LinkedTokenData::Empty);
                proof { assert(step == Ok::<LinkerContextV, DiagV>(ctx.deep_view())); }
            },
            Op::Const(_) => {
                return Err(Diag { word: t.word, kind: DiagKind::UnevaluatedDefinition });
            },
            Op::Mem(_) => {
                return Err(Diag { word: t.word, kind: DiagKind::UnevaluatedDefinition });
            },
            Op::ConstRef(name) => {
                match crate::evaluator::get_constant(&constants, name.as_str()) {
                    None => {
                        return Err(Diag { word: t.word, kind: DiagKind::UndefinedReference });
                    },
                    Some(d) => {
                        match d.typ {
                            DataType::INT => {
                                emit(
                                    &mut ctx,
                                    t.word,
                                    Instruction::PushInt(d.val),
                                    LinkedTokenData::Empty,
                                );
                            },
                            DataType::BOOL => {
                                emit(
                                    &mut ctx,
                                    t.word,
                                    Instruction::PushBool(d.val != 0),
                                    LinkedTokenData::Empty,
                                );
                            },
                            DataType::PTR => {
                                emit(
                                    &mut ctx,
                                    t.word,
                                    Instruction::PushPtr(d.val as usize),
                                    LinkedTokenData::Empty,
                                );
                            },
                        }
                    },
                }
            },
            Op::MemRef(name) => {
                match get_mem(&mems, name.as_str()) {
                    None => {
                        return Err(Diag { word: t.word, kind: DiagKind::UndefinedReference });
                    },
                    Some(d) => {
                        emit(&mut ctx, t.word, Instruction::PushMem(d.ptr), LinkedTokenData::Empty);
                    },
                }
            },
            Op::Function(name) => {
                match get_fdef(&fdefs, name.as_str()) {
                    None => {
                        return Err(Diag { word: t.word, kind: DiagKind::UndefinedReference });
                    },
                    Some(def) => {
                        emit(&mut ctx, t.word.clone(), Instruction::Jump, LinkedTokenData::Empty);
                        let entry = ctx.result.len();
                        let ghost c1 = ctx.deep_view();
                        ctx.call_stack.push(entry);
                        proof {
                            assert(ctx.call_stack.deep_view() =~= c1.call_stack.push(entry));
                            assert(ctx.deep_view() =~= (LinkerContextV {
                                call_stack: c1.call_stack.push(entry),
                                ..c1
                            }));
                        }
                        emit(&mut ctx, t.word, Instruction::Function, LinkedTokenData::Empty);
                        let ghost c3 = ctx.deep_view();
                        let fr = FunctionRef { ins: def.ins, outs: def.outs, ptr: entry };
                        let ghost frv = fr.deep_view();
                        ctx.functions.push((name, fr));
                        proof {
                            assert(ctx.functions.deep_view() =~= c3.functions.push(
                                (tv.op->Function_0, frv),
                            ));
                            assert(ctx.deep_view() =~= (LinkerContextV {
                                functions: c3.functions.push((tv.op->Function_0, frv)),
                                ..c3
                            }));
                        }
                    },
                }
            },
            Op::FunctionRef(name) => {
                match get_fnref_ptr(&ctx.functions, name.as_str()) {
                    None => {
                        return Err(Diag { word: t.word, kind: DiagKind::UndefinedReference });
                    },
                    Some(p) => {
                        emit(&mut ctx, t.word, Instruction::Call, LinkedTokenData::JumpAddr(p));
                    },
                }
            },
            Op::Var(id) => {
                if id >= vars.len() {
                    return Err(Diag { word: t.word, kind: DiagKind::UndefinedReference });
                }
                let ghost c0v = ctx.deep_view();
                let here = ctx.result.len();
                ctx.call_stack.push(here);
                ctx.var_stack.push(id);
                let namesv_len = vars[id].names.len();
                let mut k: usize = 0;
                let ghost base_names = c0v.var_name_stack;
                let ghost block = pcv.vars[id as int];
                while k < vars[id].names.len()
                    invariant
                        k <= block.len(),
                        id < vars@.len(),
                        vars.deep_view() == pcv.vars,
                        block == pcv.vars[id as int],
                        ctx.var_name_stack.deep_view() == base_names + Seq::new(
                            k as nat,
                            |x: int| block[x].txt,
                        ),
                        ctx.deep_view() == (LinkerContextV {
                            call_stack: c0v.call_stack.push(here),
                            var_stack: c0v.var_stack.push(id),
                            var_name_stack: ctx.var_name_stack.deep_view(),
                            ..c0v
                        }),
                    decreases block.len() - k,
                {
                    let ghost pre = ctx.var_name_stack.deep_view();
                    ctx.var_name_stack.push(vars[id].names[k].txt.clone());
                    proof {
                        assert(ctx.var_name_stack.deep_view() =~= pre.push(block[k as int].txt));
                        assert(pre.push(block[k as int].txt) =~= base_names + Seq::new(
                            (k + 1) as nat,
                            |x: int| block[x].txt,
                        ));
                    }
                    k += 1;
                }
                proof {
                    assert(ctx.var_name_stack.deep_view() =~= push_block_names(
                        base_names,
                        block,
                    ));
                    assert(ctx.deep_view() =~= (LinkerContextV {
                        call_stack: c0v.call_stack.push(here),
                        var_stack: c0v.var_stack.push(id),
                        var_name_stack: push_block_names(base_names, block),
                        ..c0v
                    }));
                }
                emit(
                    &mut ctx,
                    t.word,
                    Instruction::PushVars,
                    LinkedTokenData::Count(namesv_len),
                );
            },
            Op::VarRef(name) => {
                if ctx.var_stack.len() == 0 {
                    return Err(Diag { word: t.word, kind: DiagKind::UndefinedReference });
                }
                match rfind_var(&ctx.var_name_stack, name.as_str()) {
                    None => {
                        return Err(Diag { word: t.word, kind: DiagKind::UndefinedReference });
                    },
                    Some(j) => {
                        let idx = ctx.var_name_stack.len() - 1 - j;
                        emit(
                            &mut ctx,
                            t.word,
                            Instruction::ApplyVar,
                            LinkedTokenData::Index(idx),
                        );
                    },
                }
            },
            Op::If => {
                let ghost c0v = ctx.deep_view();
                let here = ctx.result.len();
                ctx.call_stack.push(here);
                proof {
                    assert(ctx.deep_view() =~= (LinkerContextV {
                        call_stack: c0v.call_stack.push(here),
                        ..c0v
                    }));
                }
                emit(&mut ctx, t.word, Instruction::JumpNeq, LinkedTokenData::Empty);
            },
            Op::Else => {
                let ref_ptr = match ctx.call_stack.pop() {
                    Some(p) => p,
                    None => {
                        return Err(Diag { word: t.word, kind: DiagKind::DanglingElse });
                    },
                };
                let ghost c1v = ctx.deep_view();
                proof {
                    assert(ctx.call_stack.deep_view() =~= cdv.call_stack.drop_last());
                    assert(c1v =~= (LinkerContextV { call_stack: cdv.call_stack.drop_last(), ..cdv }));
                }
                if ref_ptr >= ctx.result.len() {
                    return Err(Diag { word: t.word, kind: DiagKind::InvalidEndTarget });
                }
                let here = ctx.result.len();
                ctx.call_stack.push(here);
                proof {
                    assert(ctx.deep_view() =~= (LinkerContextV {
                        call_stack: c1v.call_stack.push(here),
                        ..c1v
                    }));
                }
                emit(&mut ctx, t.word, Instruction::Jump, LinkedTokenData::Empty);
                let ghost c3v = ctx.deep_view();
                let new_len = ctx.result.len();
                ctx.result[ref_ptr].data = LinkedTokenData::JumpAddr(new_len);
                proof {
                    assert(ctx.result.deep_view() =~= c3v.result.update(
                        ref_ptr as int,
                        LinkedTokenV {
                            data: LinkedTokenData::JumpAddr((c3v.result.len()) as usize),
                            ..c3v.result[ref_ptr as int]
                        },
                    ));
                    assert(ctx.deep_view() =~= (LinkerContextV {
                        result: ctx.result.deep_view(),
                        ..c3v
                    }));
                }
            },
            Op::While => {
                let ghost c0v = ctx.deep_view();
                let here = ctx.result.len();
                ctx.call_stack.push(here);
                proof {
                    assert(ctx.deep_view() =~= (LinkerContextV {
                        call_stack: c0v.call_stack.push(here),
                        ..c0v
                    }));
                }
            },
            Op::Do => {
                let ref_ptr = match ctx.call_stack.pop() {
                    Some(p) => p,
                    None => {
                        return Err(Diag { word: t.word, kind: DiagKind::DanglingDo });
                    },
                };
                let ghost c1v = ctx.deep_view();
                proof {
                    assert(ctx.call_stack.deep_view() =~= cdv.call_stack.drop_last());
                    assert(c1v =~= (LinkerContextV { call_stack: cdv.call_stack.drop_last(), ..cdv }));
                }
                if ref_ptr >= ctx.result.len() {
                    return Err(Diag { word: t.word, kind: DiagKind::InvalidEndTarget });
                }
                let here = ctx.result.len();
                ctx.call_stack.push(here);
                proof {
                    assert(ctx.deep_view() =~= (LinkerContextV {
                        call_stack: c1v.call_stack.push(here),
                        ..c1v
                    }));
                }
                emit(&mut ctx, t.word, Instruction::Do, LinkedTokenData::JumpAddr(ref_ptr));
            },
            Op::End => {
                let ref_ptr = match ctx.call_stack.pop() {
                    Some(p) => p,
                    None => {
                        return Err(Diag { word: t.word, kind: DiagKind::DanglingEnd });
                    },
                };
                let ghost c1v = ctx.deep_view();
                proof {
                    assert(ctx.call_stack.deep_view() =~= cdv.call_stack.drop_last());
                    assert(c1v =~= (LinkerContextV { call_stack: cdv.call_stack.drop_last(), ..cdv }));
                }
                if ref_ptr >= ctx.result.len() {
                    return Err(Diag { word: t.word, kind: DiagKind::InvalidEndTarget });
                }
                let head_instruction = ctx.result[ref_ptr].instruction.clone();
                let head_data = ctx.result[ref_ptr].data;
                match head_instruction {
                    Instruction::Function => {
                        if ref_ptr < 1 {
                            return Err(Diag { word: t.word, kind: DiagKind::InvalidEndTarget });
                        }
                        emit(&mut ctx, t.word, Instruction::Return, LinkedTokenData::Empty);
                        let ghost c2v = ctx.deep_view();
                        let new_len = ctx.result.len();
                        ctx.result[ref_ptr - 1].data = LinkedTokenData::JumpAddr(new_len);
                        proof {
                            assert(ctx.result.deep_view() =~= c2v.result.update(
                                ref_ptr - 1,
                                LinkedTokenV {
                                    data: LinkedTokenData::JumpAddr((c2v.result.len()) as usize),
                                    ..c2v.result[ref_ptr - 1]
                                },
                            ));
                            assert(ctx.deep_view() =~= (LinkerContextV {
                                result: ctx.result.deep_view(),
                                ..c2v
                            }));
                        }
                    },
                    Instruction::PushVars => {
                        let id = match ctx.var_stack.pop() {
                            Some(v) => v,
                            None => {
                                return Err(
                                    Diag { word: t.word, kind: DiagKind::InvalidEndTarget },
                                );
                            },
                        };
                        if id >= vars.len() {
                            return Err(Diag { word: t.word, kind: DiagKind::UndefinedReference });
                        }
                        match head_data {
                            LinkedTokenData::Count(count) => {
                                let ghost c2v = ctx.deep_view();
                                proof {
                                    assert(ctx.var_stack.deep_view() =~= c1v.var_stack.drop_last());
                                    assert(c2v =~= (LinkerContextV {
                                        var_stack: c1v.var_stack.drop_last(),
                                        ..c1v
                                    }));
                                    assert(vars[id as int].deep_view() == pcv.vars[id as int]);
                                }
                                remove_block(&mut ctx.var_name_stack, &vars[id].names);
                                proof {
                                    assert(ctx.deep_view() =~= (LinkerContextV {
                                        var_name_stack: remove_block_names(
                                            c2v.var_name_stack,
                                            pcv.vars[id as int],
                                            0,
                                        ),
                                        ..c2v
                                    }));
                                }
                                emit(
                                    &mut ctx,
                                    t.word,
                                    Instruction::PopVars,
                                    LinkedTokenData::Count(count),
                                );
                            },
                            _ => {
                                return Err(
                                    Diag { word: t.word, kind: DiagKind::InvalidEndTarget },
                                );
                            },
                        }
                    },
                    Instruction::Jump => {
                        let new_len = ctx.result.len();
                        ctx.result[ref_ptr].data = LinkedTokenData::JumpAddr(new_len);
                        proof {
                            assert(ctx.result.deep_view() =~= c1v.result.update(
                                ref_ptr as int,
                                LinkedTokenV {
                                    data: LinkedTokenData::JumpAddr((c1v.result.len()) as usize),
                                    ..c1v.result[ref_ptr as int]
                                },
                            ));
                            assert(ctx.deep_view() =~= (LinkerContextV {
                                result: ctx.result.deep_view(),
                                ..c1v
                            }));
                        }
                    },
                    Instruction::JumpNeq => {
                        let new_len = ctx.result.len();
                        ctx.result[ref_ptr].data = LinkedTokenData::JumpAddr(new_len);
                        proof {
                            assert(ctx.result.deep_view() =~= c1v.result.update(
                                ref_ptr as int,
                                LinkedTokenV {
                                    data: LinkedTokenData::JumpAddr((c1v.result.len()) as usize),
                                    ..c1v.result[ref_ptr as int]
                                },
                            ));
                            assert(ctx.deep_view() =~= (LinkerContextV {
                                result: ctx.result.deep_view(),
                                ..c1v
                            }));
                        }
                    },
                    Instruction::Do => {
                        emit(&mut ctx, t.word, Instruction::Jump, head_data);
                        let ghost c2v = ctx.deep_view();
                        let new_len = ctx.result.len();
                        ctx.result[ref_ptr].data = LinkedTokenData::JumpAddr(new_len);
                        proof {
                            assert(ctx.result.deep_view() =~= c2v.result.update(
                                ref_ptr as int,
                                LinkedTokenV {
                                    data: LinkedTokenData::JumpAddr((c2v.result.len()) as usize),
                                    ..c2v.result[ref_ptr as int]
                                },
                            ));
                            assert(ctx.deep_view() =~= (LinkerContextV {
                                result: ctx.result.deep_view(),
                                ..c2v
                            }));
                        }
                    },
                    _ => {
                        return Err(Diag { word: t.word, kind: DiagKind::InvalidEndTarget });
                    },
                }
            },
        }
        proof {
            assert(step == Ok::<LinkerContextV, DiagV>(ctx.deep_view()));
        }
        i += 1;
    }
    Ok(ctx)
}

} // verus!
