//! The tokenizer: classifies words into tokens (literals, intrinsics, control
//! keywords, named definitions and references), accumulates the name tables,
//! and surfaces `import` so that the caller can splice in the imported file's
//! words and resume.

use vstd::prelude::*;
use vstd::string::StrSliceExecFns;
use vstd::string::StringExecFns;

use crate::checker::{DataType, TypedPos, TypedPosV, data_type_of_text, get_data_type_by_text};
use crate::diag::{Diag, DiagKind, DiagV, DiagKindV};
use crate::lexer::{Word, WordV};
use crate::numfmt::{parse_u32, parse_u32_spec};
use crate::strutil::{contains_char, str_contains_char, str_eq};

verus! {

/// A named constant's evaluated value.
#[derive(Clone, Copy, PartialEq, Eq, Structural, Debug)]
pub struct ConstDef {
    pub typ: DataType,
    pub val: u32,
}

impl DeepView for ConstDef {
    type V = ConstDef;

    open spec fn deep_view(&self) -> ConstDef {
        *self
    }
}

/// A memory region: its byte offset into the shared area and its size.
#[derive(Clone, Copy, PartialEq, Eq, Structural, Debug)]
pub struct MemoryDef {
    pub ptr: usize,
    pub size: usize,
}

impl DeepView for MemoryDef {
    type V = MemoryDef;

    open spec fn deep_view(&self) -> MemoryDef {
        *self
    }
}

/// A function's declared signature.
pub struct FunctionDef {
    pub ins: Vec<TypedPos>,
    pub outs: Vec<TypedPos>,
}

/// The mathematical value of a [`FunctionDef`].
#[verifier::ext_equal]
pub ghost struct FunctionDefV {
    pub ins: Seq<TypedPosV>,
    pub outs: Seq<TypedPosV>,
}

impl DeepView for FunctionDef {
    type V = FunctionDefV;

    open spec fn deep_view(&self) -> FunctionDefV {
        FunctionDefV { ins: self.ins.deep_view(), outs: self.outs.deep_view() }
    }
}

impl Clone for FunctionDef {
    fn clone(&self) -> (r: Self)
        ensures
            r.deep_view() == self.deep_view(),
    {
        let r = FunctionDef {
            ins: crate::checker::clone_typed_vec(&self.ins),
            outs: crate::checker::clone_typed_vec(&self.outs),
        };
        proof {
            assert(r.deep_view() =~= self.deep_view());
        }
        r
    }
}

/// One block of local variable names.
pub struct VarDef {
    pub names: Vec<Word>,
}

impl DeepView for VarDef {
    type V = Seq<WordV>;

    open spec fn deep_view(&self) -> Seq<WordV> {
        self.names.deep_view()
    }
}

/// The operations a token can carry.
pub enum Op {
    PushInt(u32),
    PushPtr(usize),
    PushBool(bool),
    PushString(String),
    Intrinsic(Intrinsic),
    Const(String),
    ConstRef(String),
    Mem(String),
    MemRef(String),
    Function(String),
    FunctionRef(String),
    Var(usize),
    VarRef(String),
    End,
    If,
    Else,
    While,
    Do,
}

/// The mathematical value of an [`Op`].
pub ghost enum OpV {
    PushInt(u32),
    PushPtr(int),
    PushBool(bool),
    PushString(Seq<char>),
    Intrinsic(Intrinsic),
    Const(Seq<char>),
    ConstRef(Seq<char>),
    Mem(Seq<char>),
    MemRef(Seq<char>),
    Function(Seq<char>),
    FunctionRef(Seq<char>),
    Var(int),
    VarRef(Seq<char>),
    End,
    If,
    Else,
    While,
    Do,
}

impl DeepView for Op {
    type V = OpV;

    open spec fn deep_view(&self) -> OpV {
        match self {
            Op::PushInt(x) => OpV::PushInt(*x),
            Op::PushPtr(x) => OpV::PushPtr(*x as int),
            Op::PushBool(x) => OpV::PushBool(*x),
            Op::PushString(s) => OpV::PushString(s@),
            Op::Intrinsic(i) => OpV::Intrinsic(*i),
            Op::Const(s) => OpV::Const(s@),
            Op::ConstRef(s) => OpV::ConstRef(s@),
            Op::Mem(s) => OpV::Mem(s@),
            Op::MemRef(s) => OpV::MemRef(s@),
            Op::Function(s) => OpV::Function(s@),
            Op::FunctionRef(s) => OpV::FunctionRef(s@),
            Op::Var(x) => OpV::Var(*x as int),
            Op::VarRef(s) => OpV::VarRef(s@),
            Op::End => OpV::End,
            Op::If => OpV::If,
            Op::Else => OpV::Else,
            Op::While => OpV::While,
            Op::Do => OpV::Do,
        }
    }
}

impl Clone for Op {
    fn clone(&self) -> (r: Self)
        ensures
            r.deep_view() == self.deep_view(),
    {
        match self {
            Op::PushInt(x) => Op::PushInt(*x),
            Op::PushPtr(x) => Op::PushPtr(*x),
            Op::PushBool(x) => Op::PushBool(*x),
            Op::PushString(s) => Op::PushString(s.clone()),
            Op::Intrinsic(i) => Op::Intrinsic(*i),
            Op::Const(s) => Op::Const(s.clone()),
            Op::ConstRef(s) => Op::ConstRef(s.clone()),
            Op::Mem(s) => Op::Mem(s.clone()),
            Op::MemRef(s) => Op::MemRef(s.clone()),
            Op::Function(s) => Op::Function(s.clone()),
            Op::FunctionRef(s) => Op::FunctionRef(s.clone()),
            Op::Var(x) => Op::Var(*x),
            Op::VarRef(s) => Op::VarRef(s.clone()),
            Op::End => Op::End,
            Op::If => Op::If,
            Op::Else => Op::Else,
            Op::While => Op::While,
            Op::Do => Op::Do,
        }
    }
}

/// A classified word.
pub struct Token {
    pub word: Word,
    pub op: Op,
}

impl Clone for Token {
    fn clone(&self) -> (r: Self)
        ensures
            r.deep_view() == self.deep_view(),
    {
        Token { word: self.word.clone(), op: self.op.clone() }
    }
}

/// The mathematical value of a [`Token`].
#[verifier::ext_equal]
pub ghost struct TokenV {
    pub word: WordV,
    pub op: OpV,
}

impl DeepView for Token {
    type V = TokenV;

    open spec fn deep_view(&self) -> TokenV {
        TokenV { word: self.word.deep_view(), op: self.op.deep_view() }
    }
}

/// The closed set of built-in operations.
#[derive(Clone, Copy, PartialEq, Eq, Structural, Debug)]
pub enum Intrinsic {
    Dump,
    Drop,
    Dup,
    Over,
    Swap,
    Rot,
    Add,
    Subtract,
    Multiply,
    Divide,
    Modulo,
    ShiftLeft,
    ShiftRight,
    BitAnd,
    BitOr,
    BitXor,
    Equals,
    NotEquals,
    Less,
    Greater,
    LessOrEqual,
    GreaterOrEqual,
    Store8,
    Store16,
    Store32,
    Load8,
    Load16,
    Load32,
}

/// The tokenizer's output: the token stream and the name tables.
pub struct ParserContext {
    pub result: Vec<Token>,
    pub constants: Vec<(String, ConstDef)>,
    pub functions: Vec<(String, FunctionDef)>,
    pub memories: Vec<(String, MemoryDef)>,
    pub vars: Vec<VarDef>,
    pub total_memory_size: usize,
    pub known_constants: Vec<String>,
    pub known_memories: Vec<String>,
}

/// The mathematical value of a [`ParserContext`].
#[verifier::ext_equal]
pub ghost struct ParserContextV {
    pub result: Seq<TokenV>,
    pub constants: Seq<(Seq<char>, ConstDef)>,
    pub functions: Seq<(Seq<char>, FunctionDefV)>,
    pub memories: Seq<(Seq<char>, MemoryDef)>,
    pub vars: Seq<Seq<WordV>>,
    pub total_memory_size: int,
    pub known_constants: Seq<Seq<char>>,
    pub known_memories: Seq<Seq<char>>,
}

impl DeepView for ParserContext {
    type V = ParserContextV;

    open spec fn deep_view(&self) -> ParserContextV {
        ParserContextV {
            result: self.result.deep_view(),
            constants: self.constants.deep_view(),
            functions: self.functions.deep_view(),
            memories: self.memories.deep_view(),
            vars: self.vars.deep_view(),
            total_memory_size: self.total_memory_size as int,
            known_constants: self.known_constants.deep_view(),
            known_memories: self.known_memories.deep_view(),
        }
    }
}

/// The empty context every tokenizing run starts from.
pub open spec fn init_ctx() -> ParserContextV {
    ParserContextV {
        result: Seq::empty(),
        constants: Seq::empty(),
        functions: Seq::empty(),
        memories: Seq::empty(),
        vars: Seq::empty(),
        total_memory_size: 0,
        known_constants: Seq::empty(),
        known_memories: Seq::empty(),
    }
}

/// The context with one more token in the stream.
pub open spec fn ctx_emit(ctx: ParserContextV, t: TokenV) -> ParserContextV {
    ParserContextV { result: ctx.result.push(t), ..ctx }
}

/// Whether `name` occurs in a list of names.
pub open spec fn name_in(names: Seq<Seq<char>>, name: Seq<char>) -> bool {
    exists|i: int| 0 <= i < names.len() && names[i] == name
}

/// Whether a name table holds `name` as a key.
pub open spec fn fn_table_contains(table: Seq<(Seq<char>, FunctionDefV)>, name: Seq<char>) -> bool {
    exists|i: int| 0 <= i < table.len() && table[i].0 == name
}

/// The intrinsic a keyword denotes, if any.
pub open spec fn intrinsic_of_text(t: Seq<char>) -> Option<Intrinsic> {
    if t == "dump"@ {
        Some(Intrinsic::Dump)
    } else if t == "drop"@ {
        Some(Intrinsic::Drop)
    } else if t == "dup"@ {
        Some(Intrinsic::Dup)
    } else if t == "over"@ {
        Some(Intrinsic::Over)
    } else if t == "swap"@ {
        Some(Intrinsic::Swap)
    } else if t == "rot"@ {
        Some(Intrinsic::Rot)
    } else if t == "+"@ {
        Some(Intrinsic::Add)
    } else if t == "-"@ {
        Some(Intrinsic::Subtract)
    } else if t == "*"@ {
        Some(Intrinsic::Multiply)
    } else if t == "/"@ {
        Some(Intrinsic::Divide)
    } else if t == "%"@ {
        Some(Intrinsic::Modulo)
    } else if t == "<<"@ {
        Some(Intrinsic::ShiftLeft)
    } else if t == ">>"@ {
        Some(Intrinsic::ShiftRight)
    } else if t == "&"@ {
        Some(Intrinsic::BitAnd)
    } else if t == "|"@ {
        Some(Intrinsic::BitOr)
    } else if t == "^"@ {
        Some(Intrinsic::BitXor)
    } else if t == "="@ {
        Some(Intrinsic::Equals)
    } else if t == "!="@ {
        Some(Intrinsic::NotEquals)
    } else if t == "<"@ {
        Some(Intrinsic::Less)
    } else if t == ">"@ {
        Some(Intrinsic::Greater)
    } else if t == "<="@ {
        Some(Intrinsic::LessOrEqual)
    } else if t == ">="@ {
        Some(Intrinsic::GreaterOrEqual)
    } else if t == "store8"@ || t == "store"@ {
        Some(Intrinsic::Store8)
    } else if t == "store16"@ {
        Some(Intrinsic::Store16)
    } else if t == "store32"@ {
        Some(Intrinsic::Store32)
    } else if t == "load8"@ || t == "load"@ {
        Some(Intrinsic::Load8)
    } else if t == "load16"@ {
        Some(Intrinsic::Load16)
    } else if t == "load32"@ {
        Some(Intrinsic::Load32)
    } else {
        None
    }
}

/// Recognizes intrinsic keywords.
pub fn get_intrinsic_by_word(word: &str) -> (r: Option<Intrinsic>)
    ensures
        r == intrinsic_of_text(word@),
{
    if str_eq(word, "dump") {
        Some(Intrinsic::Dump)
    } else if str_eq(word, "drop") {
        Some(Intrinsic::Drop)
    } else if str_eq(word, "dup") {
        Some(Intrinsic::Dup)
    } else if str_eq(word, "over") {
        Some(Intrinsic::Over)
    } else if str_eq(word, "swap") {
        Some(Intrinsic::Swap)
    } else if str_eq(word, "rot") {
        Some(Intrinsic::Rot)
    } else if str_eq(word, "+") {
        Some(Intrinsic::Add)
    } else if str_eq(word, "-") {
        Some(Intrinsic::Subtract)
    } else if str_eq(word, "*") {
        Some(Intrinsic::Multiply)
    } else if str_eq(word, "/") {
        Some(Intrinsic::Divide)
    } else if str_eq(word, "%") {
        Some(Intrinsic::Modulo)
    } else if str_eq(word, "<<") {
        Some(Intrinsic::ShiftLeft)
    } else if str_eq(word, ">>") {
        Some(Intrinsic::ShiftRight)
    } else if str_eq(word, "&") {
        Some(Intrinsic::BitAnd)
    } else if str_eq(word, "|") {
        Some(Intrinsic::BitOr)
    } else if str_eq(word, "^") {
        Some(Intrinsic::BitXor)
    } else if str_eq(word, "=") {
        Some(Intrinsic::Equals)
    } else if str_eq(word, "!=") {
        Some(Intrinsic::NotEquals)
    } else if str_eq(word, "<") {
        Some(Intrinsic::Less)
    } else if str_eq(word, ">") {
        Some(Intrinsic::Greater)
    } else if str_eq(word, "<=") {
        Some(Intrinsic::LessOrEqual)
    } else if str_eq(word, ">=") {
        Some(Intrinsic::GreaterOrEqual)
    } else if str_eq(word, "store8") || str_eq(word, "store") {
        Some(Intrinsic::Store8)
    } else if str_eq(word, "store16") {
        Some(Intrinsic::Store16)
    } else if str_eq(word, "store32") {
        Some(Intrinsic::Store32)
    } else if str_eq(word, "load8") || str_eq(word, "load") {
        Some(Intrinsic::Load8)
    } else if str_eq(word, "load16") {
        Some(Intrinsic::Load16)
    } else if str_eq(word, "load32") {
        Some(Intrinsic::Load32)
    } else {
        None
    }
}

/// The control keyword a word denotes, if any.
pub open spec fn operation_of_text(t: Seq<char>) -> Option<OpV> {
    if t == "end"@ {
        Some(OpV::End)
    } else if t == "if"@ {
        Some(OpV::If)
    } else if t == "else"@ {
        Some(OpV::Else)
    } else if t == "while"@ {
        Some(OpV::While)
    } else if t == "do"@ {
        Some(OpV::Do)
    } else {
        None
    }
}

/// Recognizes control keywords.
pub fn get_operation_by_word(word: &str) -> (r: Option<Op>)
    ensures
        match r {
            Some(op) => operation_of_text(word@) == Some(op.deep_view()),
            None => operation_of_text(word@) is None,
        },
{
    if str_eq(word, "end") {
        Some(Op::End)
    } else if str_eq(word, "if") {
        Some(Op::If)
    } else if str_eq(word, "else") {
        Some(Op::Else)
    } else if str_eq(word, "while") {
        Some(Op::While)
    } else if str_eq(word, "do") {
        Some(Op::Do)
    } else {
        None
    }
}

/// Whether a word's text has the shape of a string literal: at least two
/// characters, the first and last a double quote.
pub open spec fn is_string_shape(t: Seq<char>) -> bool {
    t.len() >= 2 && t[0] == '"' && t[t.len() - 1] == '"'
}

/// The text with the surrounding quotes stripped.
pub open spec fn strip_quotes(t: Seq<char>) -> Seq<char> {
    t.subrange(1, t.len() - 1)
}

/// Decides [`is_string_shape`] and strips the quotes.
fn string_shape(t: &str) -> (r: Option<String>)
    ensures
        match r {
            Some(s) => is_string_shape(t@) && s@ == strip_quotes(t@),
            None => !is_string_shape(t@),
        },
{
    let n = t.unicode_len();
    if n >= 2 && t.get_char(0) == '"' && t.get_char(n - 1) == '"' {
        Some(t.substring_char(1, n - 1).to_owned())
    } else {
        None
    }
}

/// Scans a list of names for `name`.
fn names_contain(names: &Vec<String>, name: &str) -> (r: bool)
    ensures
        r == name_in(names.deep_view(), name@),
{
    let mut i: usize = 0;
    while i < names.len()
        invariant
            i <= names@.len(),
            forall|j: int| 0 <= j < i ==> names.deep_view()[j] != name@,
        decreases names@.len() - i,
    {
        if str_eq(names[i].as_str(), name) {
            proof {
                assert(names.deep_view()[i as int] == name@);
            }
            return true;
        }
        i += 1;
    }
    false
}

/// Scans the function table for `name`.
fn functions_contain(table: &Vec<(String, FunctionDef)>, name: &str) -> (r: bool)
    ensures
        r == fn_table_contains(table.deep_view(), name@),
{
    let mut i: usize = 0;
    while i < table.len()
        invariant
            i <= table@.len(),
            forall|j: int| 0 <= j < i ==> table.deep_view()[j].0 != name@,
        decreases table@.len() - i,
    {
        if str_eq(table[i].0.as_str(), name) {
            proof {
                assert(table.deep_view()[i as int].0 == name@);
            }
            return true;
        }
        i += 1;
    }
    false
}

/// The parts a signature word contributes, scanning its text from `j` with
/// the run since the last separator starting at `b`; and whether the closing
/// parenthesis was reached in this word.
pub open spec fn sig_parts_of_word(t: Seq<char>, j: int, b: int) -> (Seq<Seq<char>>, bool)
    decreases t.len() - j,
{
    let buf: Seq<Seq<char>> = if b < j {
        seq![t.subrange(b, j)]
    } else {
        seq![]
    };
    if j < 0 || j >= t.len() {
        (buf, false)
    } else if t[j] == '(' || t[j] == ' ' || t[j] == ')' {
        if t[j] == ')' {
            (buf, true)
        } else {
            let r = sig_parts_of_word(t, j + 1, j + 1);
            (buf + r.0, r.1)
        }
    } else if t[j] == '-' && j + 1 < t.len() && t[j + 1] == '>' {
        let r = sig_parts_of_word(t, j + 2, j + 2);
        (buf + seq![seq!['-', '>']] + r.0, r.1)
    } else {
        sig_parts_of_word(t, j + 1, b)
    }
}

/// The parts of one word, each located at that word.
pub open spec fn wordify(w: WordV, ts: Seq<Seq<char>>) -> Seq<WordV> {
    Seq::new(ts.len(), |k: int| WordV { file: w.file, row: w.row, col: w.col, txt: ts[k] })
}

/// The signature parts collected from `words[i..]` until a closing
/// parenthesis, each carrying its word's location; `None` when the words run
/// out first. On success also yields the index after the last consumed word.
pub open spec fn collect_parts(words: Seq<WordV>, i: int, parts: Seq<WordV>) -> Option<
    (Seq<WordV>, int),
>
    decreases words.len() - i,
{
    if i < 0 || i >= words.len() {
        None
    } else {
        let w = words[i];
        let r = sig_parts_of_word(w.txt, 0, 0);
        if r.1 {
            Some((parts + wordify(w, r.0), i + 1))
        } else {
            collect_parts(words, i + 1, parts + wordify(w, r.0))
        }
    }
}

proof fn lemma_collect_parts_advances(words: Seq<WordV>, i: int, parts: Seq<WordV>)
    ensures
        match collect_parts(words, i, parts) {
            Some(r) => i < r.1 <= words.len(),
            None => true,
        },
    decreases words.len() - i,
{
    if 0 <= i < words.len() {
        let w = words[i];
        let r = sig_parts_of_word(w.txt, 0, 0);
        if !r.1 {
            lemma_collect_parts_advances(words, i + 1, parts + wordify(w, r.0));
        }
    }
}

/// The input and output type lists a part list denotes, or the first part
/// that is not a type keyword.
pub open spec fn sig_from_parts(
    parts: Seq<WordV>,
    i: int,
    ins: Seq<TypedPosV>,
    outs: Seq<TypedPosV>,
    input: bool,
) -> Result<(Seq<TypedPosV>, Seq<TypedPosV>), WordV>
    decreases parts.len() - i,
{
    if i < 0 || i >= parts.len() {
        Ok((ins, outs))
    } else {
        let p = parts[i];
        if p.txt == seq!['-', '>'] {
            sig_from_parts(parts, i + 1, ins, outs, false)
        } else {
            match data_type_of_text(p.txt) {
                Some(t) => if input {
                    sig_from_parts(parts, i + 1, ins.push(TypedPosV { word: p, typ: t }), outs, true)
                } else {
                    sig_from_parts(parts, i + 1, ins, outs.push(TypedPosV { word: p, typ: t }), false)
                },
                None => Err(p),
            }
        }
    }
}

/// What one tokenizing run yields: a finished context, a pending `import`,
/// or a diagnostic.
pub ghost enum TokOutcomeV {
    Done(ParserContextV),
    Import { ctx: ParserContextV, rest: Seq<WordV>, word: WordV, path: Seq<char> },
    Fail(DiagV),
}

/// What a `function` keyword at `words[i]` does to the context: collect the
/// signature parts up to the closing parenthesis, interpret them as the name
/// and the typed inputs and outputs, register the function, emit its token,
/// and continue after the signature.
pub open spec fn function_case(ctx: ParserContextV, words: Seq<WordV>, i: int) -> TokOutcomeV
    decreases words.len() - i, 0int,
    via function_case_dec
{
    let w = words[i];
    if i < 0 || i + 2 > words.len() {
        TokOutcomeV::Fail(DiagV { word: w, kind: DiagKindV::IncompleteFunction })
    } else if contains_char(words[i + 1].txt, '"') || contains_char(words[i + 1].txt, '\'') {
        TokOutcomeV::Fail(DiagV { word: words[i + 1], kind: DiagKindV::BadFunctionSignature })
    } else {
        match collect_parts(words, i + 1, Seq::empty()) {
            None => TokOutcomeV::Fail(DiagV { word: w, kind: DiagKindV::IncompleteFunction }),
            Some(pr) => {
                let parts = pr.0;
                let ni = pr.1;
                if parts.len() == 0 {
                    TokOutcomeV::Fail(DiagV { word: w, kind: DiagKindV::BadFunctionSignature })
                } else {
                    let namew = parts[0];
                    match sig_from_parts(parts, 1, Seq::empty(), Seq::empty(), true) {
                        Err(p) => TokOutcomeV::Fail(DiagV { word: p, kind: DiagKindV::BadTypeName }),
                        Ok(io) => {
                            if fn_table_contains(ctx.functions, namew.txt) {
                                TokOutcomeV::Fail(DiagV { word: namew, kind: DiagKindV::DuplicateName })
                            } else {
                                let ctx1 = ParserContextV {
                                    functions: ctx.functions.push(
                                        (namew.txt, FunctionDefV { ins: io.0, outs: io.1 }),
                                    ),
                                    ..ctx
                                };
                                let tword = WordV { file: w.file, row: w.row, col: w.col, txt: namew.txt };
                                tok_from(
                                    ctx_emit(ctx1, TokenV { word: tword, op: OpV::Function(namew.txt) }),
                                    words,
                                    ni,
                                )
                            }
                        },
                    }
                }
            },
        }
    }
}

#[via_fn]
proof fn function_case_dec(ctx: ParserContextV, words: Seq<WordV>, i: int) {
    lemma_collect_parts_advances(words, i + 1, Seq::empty());
}

/// The tokenizer's defining equation: classify `words[i]`, extend the
/// context, and continue.
pub open spec fn tok_from(ctx: ParserContextV, words: Seq<WordV>, i: int) -> TokOutcomeV
    decreases words.len() - i, 1int,
{
    if i < 0 || i >= words.len() {
        TokOutcomeV::Done(ctx)
    } else {
        let w = words[i];
        if parse_u32_spec(w.txt) is Some {
            let x = parse_u32_spec(w.txt)->Some_0;
            tok_from(ctx_emit(ctx, TokenV { word: w, op: OpV::PushInt(x) }), words, i + 1)
        } else if is_string_shape(w.txt) {
            tok_from(
                ctx_emit(ctx, TokenV { word: w, op: OpV::PushString(strip_quotes(w.txt)) }),
                words,
                i + 1,
            )
        } else if w.txt == "import"@ {
            if i + 2 > words.len() {
                TokOutcomeV::Fail(DiagV { word: w, kind: DiagKindV::IncompleteImport })
            } else {
                let w2 = words[i + 1];
                if is_string_shape(w2.txt) {
                    TokOutcomeV::Import {
                        ctx,
                        rest: words.skip(i + 2),
                        word: w2,
                        path: strip_quotes(w2.txt),
                    }
                } else {
                    TokOutcomeV::Fail(DiagV { word: w2, kind: DiagKindV::ImportPathNotString })
                }
            }
        } else if w.txt == "true"@ || w.txt == "false"@ {
            tok_from(
                ctx_emit(ctx, TokenV { word: w, op: OpV::PushBool(w.txt == "true"@) }),
                words,
                i + 1,
            )
        } else if intrinsic_of_text(w.txt) is Some {
            let intr = intrinsic_of_text(w.txt)->Some_0;
            tok_from(ctx_emit(ctx, TokenV { word: w, op: OpV::Intrinsic(intr) }), words, i + 1)
        } else if operation_of_text(w.txt) is Some {
            let op = operation_of_text(w.txt)->Some_0;
            if !(op is End) && i + 2 > words.len() {
                TokOutcomeV::Fail(DiagV { word: w, kind: DiagKindV::IncompleteControl })
            } else {
                tok_from(ctx_emit(ctx, TokenV { word: w, op }), words, i + 1)
            }
        } else if w.txt == "const"@ {
            if i + 2 > words.len() {
                TokOutcomeV::Fail(DiagV { word: w, kind: DiagKindV::IncompleteConst })
            } else {
                let namew = words[i + 1];
                if name_in(ctx.known_constants, namew.txt) {
                    TokOutcomeV::Fail(DiagV { word: namew, kind: DiagKindV::DuplicateName })
                } else {
                    let ctx1 = ParserContextV {
                        known_constants: ctx.known_constants.push(namew.txt),
                        ..ctx
                    };
                    tok_from(
                        ctx_emit(ctx1, TokenV { word: w, op: OpV::Const(namew.txt) }),
                        words,
                        i + 2,
                    )
                }
            }
        } else if w.txt == "memory"@ {
            if i + 2 > words.len() {
                TokOutcomeV::Fail(DiagV { word: w, kind: DiagKindV::IncompleteMemory })
            } else {
                let namew = words[i + 1];
                if name_in(ctx.known_memories, namew.txt) {
                    TokOutcomeV::Fail(DiagV { word: namew, kind: DiagKindV::DuplicateName })
                } else {
                    let ctx1 = ParserContextV {
                        known_memories: ctx.known_memories.push(namew.txt),
                        ..ctx
                    };
                    tok_from(
                        ctx_emit(ctx1, TokenV { word: w, op: OpV::Mem(namew.txt) }),
                        words,
                        i + 2,
                    )
                }
            }
        } else if w.txt == "function"@ {
            function_case(ctx, words, i)
        } else if name_in(ctx.known_constants, w.txt) {
            tok_from(ctx_emit(ctx, TokenV { word: w, op: OpV::ConstRef(w.txt) }), words, i + 1)
        } else if name_in(ctx.known_memories, w.txt) {
            tok_from(ctx_emit(ctx, TokenV { word: w, op: OpV::MemRef(w.txt) }), words, i + 1)
        } else if fn_table_contains(ctx.functions, w.txt) {
            tok_from(ctx_emit(ctx, TokenV { word: w, op: OpV::FunctionRef(w.txt) }), words, i + 1)
        } else {
            TokOutcomeV::Fail(DiagV { word: w, kind: DiagKindV::UnknownWord })
        }
    }
}

/// What tokenizing a fresh word list yields.
pub open spec fn tok_spec(words: Seq<WordV>) -> TokOutcomeV {
    tok_from(init_ctx(), words, 0)
}

/// The tokenizer state handed back to the caller when an `import` is found:
/// the context so far and the words that follow the import.
pub struct TokenizeState {
    pub ctx: ParserContext,
    pub pending: Vec<Word>,
}

/// The result of one tokenizing run.
pub enum TokenizeOutcome {
    /// All words consumed; the finished context.
    Done(ParserContext),
    /// An `import` was found: the state to resume from, the path's word,
    /// and the path with its quotes stripped. Lex the imported file and
    /// resume with [`resume_tokenize`].
    Import(TokenizeState, Word, String),
    /// A diagnostic.
    Fail(Diag),
}

/// Relates an executable outcome to the specification's.
pub open spec fn tok_matches(r: TokenizeOutcome, s: TokOutcomeV) -> bool {
    match r {
        TokenizeOutcome::Done(ctx) => s == TokOutcomeV::Done(ctx.deep_view()),
        TokenizeOutcome::Import(st, w, p) => s == (TokOutcomeV::Import {
            ctx: st.ctx.deep_view(),
            rest: st.pending.deep_view(),
            word: w.deep_view(),
            path: p@,
        }),
        TokenizeOutcome::Fail(d) => s == TokOutcomeV::Fail(d.deep_view()),
    }
}

proof fn lemma_seq_append_push<A>(a: Seq<A>, b: Seq<A>, x: A)
    ensures
        a + b.push(x) == (a + b).push(x),
{
    assert(a + b.push(x) =~= (a + b).push(x));
}

proof fn lemma_wordify_push(w: WordV, ts: Seq<Seq<char>>, x: Seq<char>)
    ensures
        wordify(w, ts.push(x)) == wordify(w, ts).push(
            WordV { file: w.file, row: w.row, col: w.col, txt: x },
        ),
{
    assert(wordify(w, ts.push(x)) =~= wordify(w, ts).push(
        WordV { file: w.file, row: w.row, col: w.col, txt: x },
    ));
}

/// Appends a token to the context's stream.
fn push_token(ctx: &mut ParserContext, t: Token, Ghost(cdv): Ghost<ParserContextV>)
    requires
        old(ctx).deep_view() == cdv,
    ensures
        final(ctx).deep_view() == ctx_emit(cdv, t.deep_view()),
{
    let ghost tv = t.deep_view();
    ctx.result.push(t);
    proof {
        assert(ctx.result.deep_view() =~= cdv.result.push(tv));
        assert(ctx.deep_view() =~= ctx_emit(cdv, tv));
    }
}

/// Appends the run `cw.txt[from..to]` as a signature part located at `cw`.
fn push_part(parts: &mut Vec<Word>, cw: &Word, from: usize, to: usize)
    requires
        from <= to <= cw.txt@.len(),
    ensures
        final(parts).deep_view() == old(parts).deep_view().push(
            WordV {
                file: cw.deep_view().file,
                row: cw.deep_view().row,
                col: cw.deep_view().col,
                txt: cw.txt@.subrange(from as int, to as int),
            },
        ),
{
    let ghost pre = parts.deep_view();
    let part = Word {
        file: cw.file.clone(),
        row: cw.row,
        col: cw.col,
        txt: cw.txt.as_str().substring_char(from, to).to_owned(),
    };
    let ghost pv = part.deep_view();
    parts.push(part);
    proof {
        assert(parts.deep_view() =~= pre.push(pv));
    }
}

/// Parses a function definition starting at `words[i]` (the `function`
/// keyword); on success returns the index just past the signature, with the
/// function registered in the context and its token emitted.
fn parse_function(
    ctx: &mut ParserContext,
    words: &Vec<Word>,
    i: usize,
    w: Word,
    Ghost(wordsv): Ghost<Seq<WordV>>,
    Ghost(cdv): Ghost<ParserContextV>,
) -> (r: Result<usize, Diag>)
    requires
        wordsv == words.deep_view(),
        old(ctx).deep_view() == cdv,
        i < wordsv.len(),
        w.deep_view() == wordsv[i as int],
    ensures
        match r {
            Ok(ni) => i < ni <= wordsv.len() && function_case(cdv, wordsv, i as int) == tok_from(
                final(ctx).deep_view(),
                wordsv,
                ni as int,
            ),
            Err(d) => final(ctx).deep_view() == cdv && function_case(cdv, wordsv, i as int)
                == TokOutcomeV::Fail(d.deep_view()),
        },
{
    let wl = words.len();
    if i + 1 >= wl {
        return Err(Diag { word: w, kind: DiagKind::IncompleteFunction });
    }
    {
        let first = &words[i + 1];
        proof {
            assert(first.deep_view() == wordsv[i as int + 1]);
        }
        if str_contains_char(first.txt.as_str(), '"') || str_contains_char(
            first.txt.as_str(),
            '\'',
        ) {
            return Err(Diag { word: first.clone(), kind: DiagKind::BadFunctionSignature });
        }
    }
    // collect the signature parts up to the closing parenthesis
    let mut parts: Vec<Word> = Vec::new();
    let mut j: usize = i + 1;
    let mut sawclose: bool = false;
    proof {
        assert(parts.deep_view() =~= Seq::<WordV>::empty());
    }
    while j < wl && !sawclose
        invariant
            i as int + 1 <= j as int <= wordsv.len(),
            wl == wordsv.len(),
            wordsv == words.deep_view(),
            !sawclose ==> collect_parts(wordsv, i as int + 1, Seq::empty()) == collect_parts(
                wordsv,
                j as int,
                parts.deep_view(),
            ),
            sawclose ==> collect_parts(wordsv, i as int + 1, Seq::empty()) == Some(
                (parts.deep_view(), j as int),
            ),
        decreases wordsv.len() - j, (if sawclose { 0int } else { 1int }),
    {
        let ghost pdv0 = parts.deep_view();
        let cw = &words[j];
        let ghost cwv = wordsv[j as int];
        proof {
            assert(cwv == cw.deep_view());
        }
        let ghost t = cwv.txt;
        let n = cw.txt.as_str().unicode_len();
        let mut jj: usize = 0;
        let mut b: usize = 0;
        let mut sc: bool = false;
        let ghost mut acc: Seq<Seq<char>> = Seq::empty();
        proof {
            assert(pdv0 + wordify(cwv, acc) =~= pdv0);
        }
        while jj < n && !sc
            invariant
                b <= jj <= n,
                n == t.len(),
                t == cw.txt@,
                cwv == cw.deep_view(),
                !sc ==> sig_parts_of_word(t, 0, 0) == (
                    acc + sig_parts_of_word(t, jj as int, b as int).0,
                    sig_parts_of_word(t, jj as int, b as int).1,
                ),
                sc ==> sig_parts_of_word(t, 0, 0) == (acc, true),
                parts.deep_view() == pdv0 + wordify(cwv, acc),
            decreases n - jj, (if sc { 0int } else { 1int }),
        {
            let ghost acc0 = acc;
            let ghost bufs: Seq<Seq<char>> = if b < jj {
                seq![t.subrange(b as int, jj as int)]
            } else {
                seq![]
            };
            let c = cw.txt.as_str().get_char(jj);
            if c == '(' || c == ' ' || c == ')' {
                if b < jj {
                    push_part(&mut parts, cw, b, jj);
                    proof {
                        lemma_wordify_push(cwv, acc, t.subrange(b as int, jj as int));
                        lemma_seq_append_push(pdv0, wordify(cwv, acc), wordify(cwv, acc.push(t.subrange(b as int, jj as int))).last());
                        acc = acc.push(t.subrange(b as int, jj as int));
                        assert(acc =~= acc0 + bufs);
                    }
                } else {
                    proof {
                        assert(acc =~= acc0 + bufs);
                    }
                }
                if c == ')' {
                    sc = true;
                    proof {
                        assert(sig_parts_of_word(t, jj as int, b as int) == (bufs, true));
                    }
                } else {
                    proof {
                        let r2 = sig_parts_of_word(t, jj as int + 1, jj as int + 1);
                        assert(sig_parts_of_word(t, jj as int, b as int) == (bufs + r2.0, r2.1));
                        assert(acc0 + (bufs + r2.0) =~= acc + r2.0);
                    }
                    jj += 1;
                    b = jj;
                }
            } else if c == '-' && jj + 1 < n && cw.txt.as_str().get_char(jj + 1) == '>' {
                if b < jj {
                    push_part(&mut parts, cw, b, jj);
                    proof {
                        lemma_wordify_push(cwv, acc, t.subrange(b as int, jj as int));
                        lemma_seq_append_push(pdv0, wordify(cwv, acc), wordify(cwv, acc.push(t.subrange(b as int, jj as int))).last());
                        acc = acc.push(t.subrange(b as int, jj as int));
                    }
                }
                let arrow = Word {
                    file: cw.file.clone(),
                    row: cw.row,
                    col: cw.col,
                    txt: String::from_str("->"),
                };
                let ghost av = arrow.deep_view();
                let ghost acc1 = acc;
                let ghost prev = parts.deep_view();
                parts.push(arrow);
                proof {
                    reveal_strlit("->");
                    assert(av.txt =~= seq!['-', '>']);
                    acc = acc.push(seq!['-', '>']);
                    lemma_wordify_push(cwv, acc1, seq!['-', '>']);
                    assert(parts.deep_view() =~= prev.push(av));
                    lemma_seq_append_push(pdv0, wordify(cwv, acc1), wordify(cwv, acc).last());
                    assert(parts.deep_view() == pdv0 + wordify(cwv, acc));
                    let r2 = sig_parts_of_word(t, jj as int + 2, jj as int + 2);
                    assert(sig_parts_of_word(t, jj as int, b as int) == (
                        bufs + seq![seq!['-', '>']] + r2.0,
                        r2.1,
                    ));
                    assert(acc0 + (bufs + seq![seq!['-', '>']] + r2.0) =~= acc + r2.0);
                }
                jj += 2;
                b = jj;
            } else {
                proof {
                    assert(sig_parts_of_word(t, jj as int, b as int) == sig_parts_of_word(
                        t,
                        jj as int + 1,
                        b as int,
                    ));
                }
                jj += 1;
            }
        }
        if !sc {
            proof {
                let bufs: Seq<Seq<char>> = if b < n {
                    seq![t.subrange(b as int, n as int)]
                } else {
                    seq![]
                };
                assert(sig_parts_of_word(t, n as int, b as int) == (bufs, false));
            }
            if b < n {
                let ghost acc0 = acc;
                push_part(&mut parts, cw, b, n);
                proof {
                    lemma_wordify_push(cwv, acc, t.subrange(b as int, n as int));
                    lemma_seq_append_push(pdv0, wordify(cwv, acc), wordify(cwv, acc.push(t.subrange(b as int, n as int))).last());
                    acc = acc.push(t.subrange(b as int, n as int));
                    assert(acc =~= acc0 + seq![t.subrange(b as int, n as int)]);
                }
            } else {
                proof {
                    assert(acc =~= acc + Seq::<Seq<char>>::empty());
                }
            }
        }
        proof {
            let r = sig_parts_of_word(t, 0, 0);
            assert(r.0 == acc);
            assert(wordify(cwv, r.0) == wordify(cwv, acc));
            assert(pdv0 + wordify(cwv, acc) == parts.deep_view());
        }
        if sc {
            sawclose = true;
        }
        j += 1;
    }
    if !sawclose {
        return Err(Diag { word: w, kind: DiagKind::IncompleteFunction });
    }
    if parts.len() == 0 {
        return Err(Diag { word: w, kind: DiagKind::BadFunctionSignature });
    }
    let ghost partsv = parts.deep_view();
    // interpret the parts: the name, then typed inputs and outputs
    let mut ins: Vec<TypedPos> = Vec::new();
    let mut outs: Vec<TypedPos> = Vec::new();
    let mut input: bool = true;
    let mut k: usize = 1;
    proof {
        assert(ins.deep_view() =~= Seq::<TypedPosV>::empty());
        assert(outs.deep_view() =~= Seq::<TypedPosV>::empty());
    }
    while k < parts.len()
        invariant
            1 <= k <= partsv.len(),
            partsv == parts.deep_view(),
            i + 2 <= wordsv.len(),
            wordsv == words.deep_view(),
            w.deep_view() == wordsv[i as int],
            !contains_char(wordsv[i as int + 1].txt, '"'),
            !contains_char(wordsv[i as int + 1].txt, '\''),
            collect_parts(wordsv, i as int + 1, Seq::empty()) == Some((partsv, j as int)),
            partsv.len() > 0,
            ctx.deep_view() == cdv,
            sig_from_parts(partsv, 1, Seq::empty(), Seq::empty(), true) == sig_from_parts(
                partsv,
                k as int,
                ins.deep_view(),
                outs.deep_view(),
                input,
            ),
        decreases partsv.len() - k,
    {
        let p = &parts[k];
        proof {
            assert(p.deep_view() == partsv[k as int]);
            reveal_strlit("->");
            assert("->"@ =~= seq!['-', '>']);
        }
        if str_eq(p.txt.as_str(), "->") {
            input = false;
        } else {
            match get_data_type_by_text(p.txt.as_str()) {
                Some(ty) => {
                    let pos = TypedPos { word: p.clone(), typ: ty };
                    if input {
                        let ghost idv = ins.deep_view();
                        ins.push(pos);
                        proof {
                            assert(ins.deep_view() =~= idv.push(
                                TypedPosV { word: partsv[k as int], typ: ty },
                            ));
                        }
                    } else {
                        let ghost odv = outs.deep_view();
                        outs.push(pos);
                        proof {
                            assert(outs.deep_view() =~= odv.push(
                                TypedPosV { word: partsv[k as int], typ: ty },
                            ));
                        }
                    }
                },
                None => {
                    proof {
                        assert(sig_from_parts(
                            partsv,
                            k as int,
                            ins.deep_view(),
                            outs.deep_view(),
                            input,
                        ) == Err::<(Seq<TypedPosV>, Seq<TypedPosV>), WordV>(partsv[k as int]));
                        assert(function_case(cdv, wordsv, i as int) == TokOutcomeV::Fail(
                            DiagV { word: partsv[k as int], kind: DiagKindV::BadTypeName },
                        ));
                    }
                    return Err(Diag { word: p.clone(), kind: DiagKind::BadTypeName });
                },
            }
        }
        k += 1;
    }
    let ghost io = sig_from_parts(partsv, 1, Seq::empty(), Seq::empty(), true)->Ok_0;
    let namew = &parts[0];
    proof {
        assert(namew.deep_view() == partsv[0]);
    }
    if functions_contain(&ctx.functions, namew.txt.as_str()) {
        return Err(Diag { word: namew.clone(), kind: DiagKind::DuplicateName });
    }
    let ghost fdv = ctx.functions.deep_view();
    let fname = namew.txt.clone();
    ctx.functions.push((fname.clone(), FunctionDef { ins, outs }));
    proof {
        assert(ctx.functions.deep_view() =~= fdv.push(
            (partsv[0].txt, FunctionDefV { ins: io.0, outs: io.1 }),
        ));
    }
    let ghost cdv1 = ctx.deep_view();
    proof {
        assert(cdv1 =~= (ParserContextV {
            functions: cdv.functions.push(
                (partsv[0].txt, FunctionDefV { ins: io.0, outs: io.1 }),
            ),
            ..cdv
        }));
    }
    let tword = Word { file: w.file, row: w.row, col: w.col, txt: fname.clone() };
    let t = Token { word: tword, op: Op::Function(fname) };
    push_token(ctx, t, Ghost(cdv1));
    Ok(j)
}

/// Runs the tokenizer over `words`, starting from the context `ctx0`.
fn tokenize_core(ctx0: ParserContext, words0: Vec<Word>) -> (r: TokenizeOutcome)
    ensures
        tok_matches(r, tok_from(ctx0.deep_view(), words0.deep_view(), 0)),
{
    let ghost target = tok_from(ctx0.deep_view(), words0.deep_view(), 0);
    let ghost wordsv = words0.deep_view();
    let mut ctx = ctx0;
    let mut words = words0;
    let mut i: usize = 0;
    while i < words.len()
        invariant
            i <= words@.len(),
            wordsv == words.deep_view(),
            target == tok_from(ctx0.deep_view(), words0.deep_view(), 0),
            target == tok_from(ctx.deep_view(), wordsv, i as int),
        decreases words@.len() - i,
    {
        let ghost cdv = ctx.deep_view();
        let w = words[i].clone();
        proof {
            assert(w.deep_view() == wordsv[i as int]);
        }
        if let Some(x) = parse_u32(w.txt.as_str()) {
            let t = Token { word: w, op: Op::PushInt(x) };
            proof {
                assert(tok_from(cdv, wordsv, i as int) == tok_from(
                    ctx_emit(cdv, t.deep_view()),
                    wordsv,
                    i as int + 1,
                ));
            }
            push_token(&mut ctx, t, Ghost(cdv));
            i += 1;
        } else if let Some(content) = string_shape(w.txt.as_str()) {
            let t = Token { word: w, op: Op::PushString(content) };
            proof {
                assert(tok_from(cdv, wordsv, i as int) == tok_from(
                    ctx_emit(cdv, t.deep_view()),
                    wordsv,
                    i as int + 1,
                ));
            }
            push_token(&mut ctx, t, Ghost(cdv));
            i += 1;
        } else if str_eq(w.txt.as_str(), "import") {
            if i + 1 >= words.len() {
                return TokenizeOutcome::Fail(Diag { word: w, kind: DiagKind::IncompleteImport });
            }
            let w2 = words[i + 1].clone();
            proof {
                assert(w2.deep_view() == wordsv[i as int + 1]);
            }
            match string_shape(w2.txt.as_str()) {
                Some(path) => {
                    let pending = words.split_off(i + 2);
                    proof {
                        assert(pending.deep_view() =~= wordsv.skip(i as int + 2));
                    }
                    return TokenizeOutcome::Import(TokenizeState { ctx, pending }, w2, path);
                },
                None => {
                    return TokenizeOutcome::Fail(
                        Diag { word: w2, kind: DiagKind::ImportPathNotString },
                    );
                },
            }
        } else if str_eq(w.txt.as_str(), "true") || str_eq(w.txt.as_str(), "false") {
            let val = str_eq(w.txt.as_str(), "true");
            let t = Token { word: w, op: Op::PushBool(val) };
            proof {
                assert(tok_from(cdv, wordsv, i as int) == tok_from(
                    ctx_emit(cdv, t.deep_view()),
                    wordsv,
                    i as int + 1,
                ));
            }
            push_token(&mut ctx, t, Ghost(cdv));
            i += 1;
        } else if let Some(intr) = get_intrinsic_by_word(w.txt.as_str()) {
            let t = Token { word: w, op: Op::Intrinsic(intr) };
            proof {
                assert(tok_from(cdv, wordsv, i as int) == tok_from(
                    ctx_emit(cdv, t.deep_view()),
                    wordsv,
                    i as int + 1,
                ));
            }
            push_token(&mut ctx, t, Ghost(cdv));
            i += 1;
        } else if let Some(op) = get_operation_by_word(w.txt.as_str()) {
            let is_end = matches!(op, Op::End);
            if !is_end && i + 1 >= words.len() {
                return TokenizeOutcome::Fail(Diag { word: w, kind: DiagKind::IncompleteControl });
            }
            let t = Token { word: w, op };
            proof {
                assert(tok_from(cdv, wordsv, i as int) == tok_from(
                    ctx_emit(cdv, t.deep_view()),
                    wordsv,
                    i as int + 1,
                ));
            }
            push_token(&mut ctx, t, Ghost(cdv));
            i += 1;
        } else if str_eq(w.txt.as_str(), "const") {
            if i + 1 >= words.len() {
                return TokenizeOutcome::Fail(Diag { word: w, kind: DiagKind::IncompleteConst });
            }
            let namew = words[i + 1].clone();
            proof {
                assert(namew.deep_view() == wordsv[i as int + 1]);
            }
            if names_contain(&ctx.known_constants, namew.txt.as_str()) {
                return TokenizeOutcome::Fail(Diag { word: namew, kind: DiagKind::DuplicateName });
            }
            let ghost kdv = ctx.known_constants.deep_view();
            ctx.known_constants.push(namew.txt.clone());
            proof {
                assert(ctx.known_constants.deep_view() =~= kdv.push(namew.txt@));
            }
            let ghost cdv1 = ctx.deep_view();
            proof {
                assert(cdv1 =~= (ParserContextV {
                    known_constants: cdv.known_constants.push(wordsv[i as int + 1].txt),
                    ..cdv
                }));
            }
            let t = Token { word: w, op: Op::Const(namew.txt) };
            proof {
                assert(tok_from(cdv, wordsv, i as int) == tok_from(
                    ctx_emit(cdv1, t.deep_view()),
                    wordsv,
                    i as int + 2,
                ));
            }
            push_token(&mut ctx, t, Ghost(cdv1));
            i += 2;
        } else if str_eq(w.txt.as_str(), "memory") {
            if i + 1 >= words.len() {
                return TokenizeOutcome::Fail(Diag { word: w, kind: DiagKind::IncompleteMemory });
            }
            let namew = words[i + 1].clone();
            proof {
                assert(namew.deep_view() == wordsv[i as int + 1]);
            }
            if names_contain(&ctx.known_memories, namew.txt.as_str()) {
                return TokenizeOutcome::Fail(Diag { word: namew, kind: DiagKind::DuplicateName });
            }
            let ghost kdv = ctx.known_memories.deep_view();
            ctx.known_memories.push(namew.txt.clone());
            proof {
                assert(ctx.known_memories.deep_view() =~= kdv.push(namew.txt@));
            }
            let ghost cdv1 = ctx.deep_view();
            proof {
                assert(cdv1 =~= (ParserContextV {
                    known_memories: cdv.known_memories.push(wordsv[i as int + 1].txt),
                    ..cdv
                }));
            }
            let t = Token { word: w, op: Op::Mem(namew.txt) };
            proof {
                assert(tok_from(cdv, wordsv, i as int) == tok_from(
                    ctx_emit(cdv1, t.deep_view()),
                    wordsv,
                    i as int + 2,
                ));
            }
            push_token(&mut ctx, t, Ghost(cdv1));
            i += 2;
        } else if str_eq(w.txt.as_str(), "function") {
            proof {
                assert(tok_from(cdv, wordsv, i as int) == function_case(cdv, wordsv, i as int));
            }
            match parse_function(&mut ctx, &words, i, w, Ghost(wordsv), Ghost(cdv)) {
                Ok(ni) => {
                    i = ni;
                },
                Err(d) => {
                    return TokenizeOutcome::Fail(d);
                },
            }
        } else if names_contain(&ctx.known_constants, w.txt.as_str()) {
            let name = w.txt.clone();
            let t = Token { word: w, op: Op::ConstRef(name) };
            proof {
                assert(tok_from(cdv, wordsv, i as int) == tok_from(
                    ctx_emit(cdv, t.deep_view()),
                    wordsv,
                    i as int + 1,
                ));
            }
            push_token(&mut ctx, t, Ghost(cdv));
            i += 1;
        } else if names_contain(&ctx.known_memories, w.txt.as_str()) {
            let name = w.txt.clone();
            let t = Token { word: w, op: Op::MemRef(name) };
            proof {
                assert(tok_from(cdv, wordsv, i as int) == tok_from(
                    ctx_emit(cdv, t.deep_view()),
                    wordsv,
                    i as int + 1,
                ));
            }
            push_token(&mut ctx, t, Ghost(cdv));
            i += 1;
        } else if functions_contain(&ctx.functions, w.txt.as_str()) {
            let name = w.txt.clone();
            let t = Token { word: w, op: Op::FunctionRef(name) };
            proof {
                assert(tok_from(cdv, wordsv, i as int) == tok_from(
                    ctx_emit(cdv, t.deep_view()),
                    wordsv,
                    i as int + 1,
                ));
            }
            push_token(&mut ctx, t, Ghost(cdv));
            i += 1;
        } else {
            return TokenizeOutcome::Fail(Diag { word: w, kind: DiagKind::UnknownWord });
        }
    }
    TokenizeOutcome::Done(ctx)
}

/// Tokenizes a word list from the empty context.
pub fn parse_words_into_tokens(words: Vec<Word>) -> (r: TokenizeOutcome)
    ensures
        tok_matches(r, tok_spec(words.deep_view())),
{
    let ctx = ParserContext {
        result: Vec::new(),
        constants: Vec::new(),
        functions: Vec::new(),
        memories: Vec::new(),
        vars: Vec::new(),
        total_memory_size: 0,
        known_constants: Vec::new(),
        known_memories: Vec::new(),
    };
    proof {
        assert(ctx.deep_view() =~= init_ctx());
    }
    tokenize_core(ctx, words)
}

/// Resumes tokenizing after an `import`: the imported file's words are
/// spliced in front of the words that followed the import.
pub fn resume_tokenize(state: TokenizeState, imported: Vec<Word>) -> (r: TokenizeOutcome)
    ensures
        tok_matches(
            r,
            tok_from(state.ctx.deep_view(), imported.deep_view() + state.pending.deep_view(), 0),
        ),
{
    let ghost pdv = state.pending.deep_view();
    let TokenizeState { ctx, pending } = state;
    let mut ws = imported;
    let ghost iv = ws.deep_view();
    let mut rest = pending;
    ws.append(&mut rest);
    proof {
        assert(ws.deep_view() =~= iv + pdv);
    }
    tokenize_core(ctx, ws)
}

} // verus!
