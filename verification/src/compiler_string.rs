//! The textual backend: renders a linked program as one line per
//! instruction, `[<index>]<mnemonic>(<operand>) //<source location>`.

use vstd::prelude::*;
use vstd::string::StrSliceExecFns;
use vstd::string::StringExecFns;

use crate::lexer::WordV;
use crate::linker::{Instruction, InstructionV, LinkedToken, LinkedTokenData, LinkedTokenV, LinkerContext};
use crate::numfmt::{dec_str, u32_to_string, u64_to_string, usize_to_string};
use crate::tokenizer::Intrinsic;

verus! {

/// The mnemonic of an intrinsic.
pub open spec fn intrinsic_name_spec(i: Intrinsic) -> Seq<char> {
    match i {
        Intrinsic::Dump => "DUMP"@,
        Intrinsic::Drop => "DROP"@,
        Intrinsic::Dup => "DUP"@,
        Intrinsic::Over => "OVER"@,
        Intrinsic::Swap => "SWAP"@,
        Intrinsic::Rot => "ROT"@,
        Intrinsic::Add => "ADD"@,
        Intrinsic::Subtract => "SUBTRACT"@,
        Intrinsic::Multiply => "MULTIPLY"@,
        Intrinsic::Divide => "DIVIDE"@,
        Intrinsic::Modulo => "MODULO"@,
        Intrinsic::ShiftLeft => "SHIFT_LEFT"@,
        Intrinsic::ShiftRight => "SHIFT_RIGHT"@,
        Intrinsic::BitAnd => "BIT_AND"@,
        Intrinsic::BitOr => "BIT_OR"@,
        Intrinsic::BitXor => "BIT_XOR"@,
        Intrinsic::Equals => "EQUALS"@,
        Intrinsic::NotEquals => "NOT_EQUALS"@,
        Intrinsic::Less => "LESS"@,
        Intrinsic::Greater => "GREATER"@,
        Intrinsic::LessOrEqual => "LESS_OR_EQUAL"@,
        Intrinsic::GreaterOrEqual => "GREATER_OR_EQUAL"@,
        Intrinsic::Store8 => "STORE_8"@,
        Intrinsic::Store16 => "STORE_16"@,
        Intrinsic::Store32 => "STORE_32"@,
        Intrinsic::Load8 => "LOAD_8"@,
        Intrinsic::Load16 => "LOAD_16"@,
        Intrinsic::Load32 => "LOAD_32"@,
    }
}

/// The mnemonic of an intrinsic.
pub fn intrinsic_name(i: Intrinsic) -> (r: &'static str)
    ensures
        r@ == intrinsic_name_spec(i),
{
    match i {
        Intrinsic::Dump => "DUMP",
        Intrinsic::Drop => "DROP",
        Intrinsic::Dup => "DUP",
        Intrinsic::Over => "OVER",
        Intrinsic::Swap => "SWAP",
        Intrinsic::Rot => "ROT",
        Intrinsic::Add => "ADD",
        Intrinsic::Subtract => "SUBTRACT",
        Intrinsic::Multiply => "MULTIPLY",
        Intrinsic::Divide => "DIVIDE",
        Intrinsic::Modulo => "MODULO",
        Intrinsic::ShiftLeft => "SHIFT_LEFT",
        Intrinsic::ShiftRight => "SHIFT_RIGHT",
        Intrinsic::BitAnd => "BIT_AND",
        Intrinsic::BitOr => "BIT_OR",
        Intrinsic::BitXor => "BIT_XOR",
        Intrinsic::Equals => "EQUALS",
        Intrinsic::NotEquals => "NOT_EQUALS",
        Intrinsic::Less => "LESS",
        Intrinsic::Greater => "GREATER",
        Intrinsic::LessOrEqual => "LESS_OR_EQUAL",
        Intrinsic::GreaterOrEqual => "GREATER_OR_EQUAL",
        Intrinsic::Store8 => "STORE_8",
        Intrinsic::Store16 => "STORE_16",
        Intrinsic::Store32 => "STORE_32",
        Intrinsic::Load8 => "LOAD_8",
        Intrinsic::Load16 => "LOAD_16",
        Intrinsic::Load32 => "LOAD_32",
    }
}

/// The mnemonic of an instruction that carries no inline value.
pub open spec fn instruction_name_spec(i: InstructionV) -> Seq<char> {
    match i {
        InstructionV::PushInt(_) => "PUSH_INT"@,
        InstructionV::PushPtr(_) => "PUSH_POINTER"@,
        InstructionV::PushMem(_) => "PUSH_MEMORY"@,
        InstructionV::PushBool(_) => "PUSH_BOOL"@,
        InstructionV::PushString(_) => "PUSH_STRING"@,
        InstructionV::Intrinsic(_) => "INTRINSIC"@,
        InstructionV::Function => "FUNCTION"@,
        InstructionV::Call => "CALL"@,
        InstructionV::Return => "RETURN"@,
        InstructionV::PushVars => "PUSH_VARS"@,
        InstructionV::PopVars => "POP_VARS"@,
        InstructionV::ApplyVar => "APPLY_VAR"@,
        InstructionV::Jump => "JUMP"@,
        InstructionV::JumpNeq => "JUMP_NEQ"@,
        InstructionV::Do => "DO"@,
    }
}

/// The mnemonic of an instruction.
pub fn instruction_name(i: &Instruction) -> (r: &'static str)
    ensures
        r@ == instruction_name_spec(i.deep_view()),
{
    match i {
        Instruction::PushInt(_) => "PUSH_INT",
        Instruction::PushPtr(_) => "PUSH_POINTER",
        Instruction::PushMem(_) => "PUSH_MEMORY",
        Instruction::PushBool(_) => "PUSH_BOOL",
        Instruction::PushString(_) => "PUSH_STRING",
        Instruction::Intrinsic(_) => "INTRINSIC",
        Instruction::Function => "FUNCTION",
        Instruction::Call => "CALL",
        Instruction::Return => "RETURN",
        Instruction::PushVars => "PUSH_VARS",
        Instruction::PopVars => "POP_VARS",
        Instruction::ApplyVar => "APPLY_VAR",
        Instruction::Jump => "JUMP",
        Instruction::JumpNeq => "JUMP_NEQ",
        Instruction::Do => "DO",
    }
}

/// The mnemonic with its inline value, for an instruction that carries one.
pub open spec fn stringify_base_spec(i: InstructionV) -> Seq<char> {
    match i {
        InstructionV::PushInt(v) => "PUSH_INT("@ + dec_str(v as nat) + ")"@,
        InstructionV::PushString(s) => "PUSH_STRING("@ + s + ")"@,
        InstructionV::Intrinsic(intr) => intrinsic_name_spec(intr),
        _ => instruction_name_spec(i),
    }
}

/// The operand's rendering, empty when there is none.
pub open spec fn stringify_data_spec(d: LinkedTokenData) -> Seq<char> {
    match d {
        LinkedTokenData::Empty => Seq::empty(),
        LinkedTokenData::JumpAddr(a) => "addr="@ + dec_str(a as nat),
        LinkedTokenData::Count(c) => "count="@ + dec_str(c as nat),
        LinkedTokenData::Index(i) => "index="@ + dec_str(i as nat),
    }
}

/// One instruction's mnemonic with its values.
pub open spec fn stringify_op_spec(op: LinkedTokenV) -> Seq<char> {
    let base = stringify_base_spec(op.instruction);
    let add = stringify_data_spec(op.data);
    if add.len() == 0 {
        base
    } else {
        base + "("@ + add + ")"@
    }
}

/// Renders one instruction's mnemonic with its values.
pub fn stringify_op(op: &LinkedToken) -> (r: String)
    ensures
        r@ == stringify_op_spec(op.deep_view()),
{
    let mut base: String = match &op.instruction {
        Instruction::PushInt(v) => {
            let mut s = String::from_str("PUSH_INT(");
            s.append(u32_to_string(*v).as_str());
            s.append(")");
            s
        },
        Instruction::PushString(v) => {
            let mut s = String::from_str("PUSH_STRING(");
            s.append(v.as_str());
            s.append(")");
            s
        },
        Instruction::Intrinsic(intr) => String::from_str(intrinsic_name(*intr)),
        _ => String::from_str(instruction_name(&op.instruction)),
    };
    let add: String = match op.data {
        LinkedTokenData::Empty => String::new(),
        LinkedTokenData::JumpAddr(a) => {
            let mut s = String::from_str("addr=");
            s.append(usize_to_string(a).as_str());
            s
        },
        LinkedTokenData::Count(c) => {
            let mut s = String::from_str("count=");
            s.append(usize_to_string(c).as_str());
            s
        },
        LinkedTokenData::Index(i) => {
            let mut s = String::from_str("index=");
            s.append(usize_to_string(i).as_str());
            s
        },
    };
    proof {
        reveal_strlit("");
    }
    if add.as_str().is_empty() {
        proof {
            assert(add@.len() == 0);
            assert(base@ =~= stringify_op_spec(op.deep_view()));
        }
        base
    } else {
        base.append("(");
        base.append(add.as_str());
        base.append(")");
        proof {
            assert(base@ =~= stringify_op_spec(op.deep_view()));
        }
        base
    }
}

/// The source location a word points at, one-based.
pub open spec fn location_spec(w: WordV) -> Seq<char> {
    w.file + ":"@ + dec_str((w.row + 1) as nat) + ":"@ + dec_str((w.col + 1) as nat)
}

/// Renders a word's source location, one-based.
pub fn location_string(w: &crate::lexer::Word) -> (r: String)
    ensures
        r@ == location_spec(w.deep_view()),
{
    let mut s = w.file.clone();
    s.append(":");
    s.append(u64_to_string(w.row as u64 + 1).as_str());
    s.append(":");
    s.append(u64_to_string(w.col as u64 + 1).as_str());
    proof {
        assert(s@ =~= location_spec(w.deep_view()));
    }
    s
}

/// `n` spaces.
pub open spec fn spaces(n: int) -> Seq<char>
    decreases n,
{
    if n <= 0 {
        Seq::empty()
    } else {
        spaces(n - 1).push(' ')
    }
}

/// The text padded with spaces to at least 32 characters.
pub open spec fn pad32(s: Seq<char>) -> Seq<char> {
    s + spaces(32 - s.len())
}

proof fn lemma_spaces_len(n: int)
    ensures
        spaces(n).len() == if n <= 0 {
            0
        } else {
            n
        },
    decreases n,
{
    if n > 0 {
        lemma_spaces_len(n - 1);
    }
}

/// Pads the text with spaces to at least 32 characters.
fn pad_to_32(s: String) -> (r: String)
    ensures
        r@ == pad32(s@),
{
    let mut r = s;
    let mut n = r.as_str().unicode_len();
    let ghost s0 = r@;
    proof {
        reveal_strlit(" ");
        assert(" "@ =~= Seq::<char>::empty().push(' '));
        assert(r@ =~= s0 + spaces(n - s0.len()));
    }
    while n < 32
        invariant
            n == r@.len(),
            r@ == s0 + spaces(n - s0.len()),
            s0.len() <= n,
            s0.len() >= 32 ==> n == s0.len(),
            s0.len() < 32 ==> n <= 32,
        decreases 32 - n,
    {
        r.append(" ");
        proof {
            reveal_strlit(" ");
            assert(" "@ =~= Seq::<char>::empty().push(' '));
            assert(spaces(n + 1 - s0.len()) =~= spaces(n - s0.len()).push(' '));
            assert(r@ =~= s0 + spaces(n + 1 - s0.len()));
        }
        n = n + 1;
    }
    proof {
        assert(spaces(0) =~= Seq::<char>::empty());
        lemma_spaces_len(32 - s0.len());
        if s0.len() >= 32 {
            assert(n - s0.len() == 0);
            assert(r@ =~= s0);
            assert(pad32(s0) =~= s0);
        } else {
            assert(n == 32);
            assert(r@ =~= pad32(s0));
        }
    }
    r
}

/// One line of the textual representation.
pub open spec fn render_line_spec(op: LinkedTokenV) -> Seq<char> {
    "["@ + dec_str(op.self_ptr as nat) + "]"@ + pad32(stringify_op_spec(op)) + " //"@
        + location_spec(op.word) + "\n"@
}

/// The whole textual representation, one line per instruction.
pub open spec fn render_program_spec(result: Seq<LinkedTokenV>, i: int) -> Seq<char>
    decreases result.len() - i,
{
    if i < 0 || i >= result.len() {
        Seq::empty()
    } else {
        render_line_spec(result[i]) + render_program_spec(result, i + 1)
    }
}

/// Renders a linked program, one line per instruction.
pub fn render_program(ctx: &LinkerContext) -> (r: String)
    ensures
        r@ == render_program_spec(ctx.result.deep_view(), 0),
{
    let ghost rv = ctx.result.deep_view();
    let mut out = String::new();
    let mut i: usize = 0;
    proof {
        assert(out@ + render_program_spec(rv, 0) =~= render_program_spec(rv, 0));
    }
    while i < ctx.result.len()
        invariant
            i <= rv.len(),
            rv == ctx.result.deep_view(),
            render_program_spec(rv, 0) == out@ + render_program_spec(rv, i as int),
        decreases rv.len() - i,
    {
        let ghost pre = out@;
        let op = &ctx.result[i];
        proof {
            assert(op.deep_view() == rv[i as int]);
        }
        out.append("[");
        out.append(usize_to_string(op.self_ptr).as_str());
        out.append("]");
        out.append(pad_to_32(stringify_op(op)).as_str());
        out.append(" //");
        out.append(location_string(&op.word).as_str());
        out.append("\n");
        proof {
            assert(out@ =~= pre + render_line_spec(rv[i as int]));
            assert(out@ + render_program_spec(rv, i as int + 1) =~= pre + render_program_spec(
                rv,
                i as int,
            ));
        }
        i += 1;
    }
    proof {
        assert(out@ + render_program_spec(rv, rv.len() as int) =~= out@);
    }
    out
}

/// The textual backend: remembers where the rendering belongs on disk.
pub struct StringRepresentationCompiler {
    pub file_path: String,
}

/// Builds the textual backend for a source path: the output path is the
/// source path with `.cfc` appended.
pub fn new_string_representation_compiler(input_path: &str) -> (r: StringRepresentationCompiler)
    ensures
        r.file_path@ == input_path@ + ".cfc"@,
{
    let mut p = input_path.to_owned();
    p.append(".cfc");
    StringRepresentationCompiler { file_path: p }
}

impl StringRepresentationCompiler {
    /// Renders the program this backend would write to its file.
    pub fn render(&self, ctx: &LinkerContext) -> (r: String)
        ensures
            r@ == render_program_spec(ctx.result.deep_view(), 0),
    {
        render_program(ctx)
    }
}

} // verus!
