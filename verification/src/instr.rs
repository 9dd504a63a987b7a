//! Decoded-instruction entries for the registry's opcode cache, and
//! the annotation rules the tracer applies when it prints an
//! instruction: which operands of which mnemonics are shown, and at
//! what address a memory operand lives.

use vstd::prelude::*;

use crate::context::{spec_get_reg, ThreadContext};

verus! {

#[verifier::external_type_specification]
#[verifier::external_body]
pub struct ExInstruction(iced_x86::Instruction);

/// One decoded instruction: the decoder's value, kept for formatting,
/// and its length in bytes, which the cache walks by.
pub struct InstrEntry {
    pub instr: iced_x86::Instruction,
    pub len: usize,
}

/// The total byte length of a run of decoded instructions.
pub open spec fn spec_total_len(s: Seq<InstrEntry>) -> int
    decreases s.len(),
{
    if s.len() == 0 {
        0
    } else {
        spec_total_len(s.drop_last()) + s.last().len
    }
}

/// A run's total length is never negative.
pub proof fn lemma_total_len_nonneg(s: Seq<InstrEntry>)
    ensures
        spec_total_len(s) >= 0,
    decreases s.len(),
{
    if s.len() > 0 {
        lemma_total_len_nonneg(s.drop_last());
    }
}

/// Taking one more instruction adds exactly its length.
pub proof fn lemma_total_len_take_succ(s: Seq<InstrEntry>, k: int)
    requires
        0 <= k < s.len(),
    ensures
        spec_total_len(s.take(k + 1)) == spec_total_len(s.take(k)) + s[k].len,
{
    assert(s.take(k + 1).drop_last() =~= s.take(k));
    assert(s.take(k + 1).last() == s[k]);
}

/// A prefix of a run is never longer than the whole run.
pub proof fn lemma_total_len_take_le(s: Seq<InstrEntry>, k: int)
    requires
        0 <= k <= s.len(),
    ensures
        spec_total_len(s.take(k)) <= spec_total_len(s),
    decreases s.len() - k,
{
    if k == s.len() {
        assert(s.take(k) =~= s);
    } else {
        lemma_total_len_take_succ(s, k);
        lemma_total_len_take_le(s, k + 1);
    }
}

/// Relies on iced_x86's `Decoder::new(32, ..)`, `can_decode`,
/// `decode_out` and `Instruction::len`: the decoder consumes the whole
/// buffer, each decoded instruction's length is the number of bytes it
/// consumed, always between 1 and 15.
#[verifier::external_body]
pub fn decode_code32(bytes: &Vec<u8>) -> (r: Vec<InstrEntry>)
    ensures
        spec_total_len(r@) == bytes@.len(),
        forall|i: int| 0 <= i < r@.len() ==> 1 <= (#[trigger] r@[i]).len <= 15,
{
    let mut decoder = iced_x86::Decoder::new(32, bytes.as_slice(), iced_x86::DecoderOptions::NONE);
    let mut out = Vec::new();
    while decoder.can_decode() {
        let mut instruction = iced_x86::Instruction::default();
        decoder.decode_out(&mut instruction);
        out.push(InstrEntry { instr: instruction, len: instruction.len() });
    }
    out
}

/// The numeric codes an instruction's operands are described by,
/// numbered as the decoder numbers its `Mnemonic`, `OpKind` and
/// `Register` values.
#[derive(Clone, Copy, Debug, PartialEq, Eq, Structural)]
pub struct InstrDetails {
    pub mnemonic: u32,
    pub op_count: u32,
    pub op0_kind: u32,
    pub op1_kind: u32,
    pub op0_register: u32,
    pub op1_register: u32,
    pub memory_base: u32,
    pub memory_displacement: u32,
}

/// Relies on iced_x86's `Instruction` getters `mnemonic`, `op_count`,
/// `op0_kind`, `op1_kind`, `op0_register`, `op1_register`,
/// `memory_base` and `memory_displacement32`: each field carries the
/// numeric code of the corresponding getter's value.
#[verifier::external_body]
pub fn instr_details(i: &iced_x86::Instruction) -> InstrDetails {
    InstrDetails {
        mnemonic: i.mnemonic() as u32,
        op_count: i.op_count(),
        op0_kind: i.op0_kind() as u32,
        op1_kind: i.op1_kind() as u32,
        op0_register: i.op0_register() as u32,
        op1_register: i.op1_register() as u32,
        memory_base: i.memory_base() as u32,
        memory_displacement: i.memory_displacement32(),
    }
}

// Operand-kind codes, numbered as the decoder numbers its `OpKind`.
pub const OPKIND_REGISTER: u32 = 0;

pub const OPKIND_MEMORY: u32 = 24;

// Mnemonic codes, numbered as the decoder numbers its `Mnemonic`.
pub const MNEMONIC_ADD: u32 = 7;

pub const MNEMONIC_AND: u32 = 21;

pub const MNEMONIC_CMP: u32 = 93;

pub const MNEMONIC_FLD: u32 = 204;

pub const MNEMONIC_FST: u32 = 239;

pub const MNEMONIC_FSTP: u32 = 243;

pub const MNEMONIC_IMUL: u32 = 277;

pub const MNEMONIC_LEA: u32 = 374;

pub const MNEMONIC_MOV: u32 = 414;

pub const MNEMONIC_MOVZX: u32 = 454;

pub const MNEMONIC_MUL: u32 = 456;

pub const MNEMONIC_OR: u32 = 467;

pub const MNEMONIC_POP: u32 = 590;

pub const MNEMONIC_PUSH: u32 = 640;

pub const MNEMONIC_SHL: u32 = 712;

pub const MNEMONIC_SHR: u32 = 715;

pub const MNEMONIC_SUB: u32 = 740;

pub const MNEMONIC_TEST: u32 = 751;

pub const MNEMONIC_XOR: u32 = 1518;

/// How the tracer annotates an instruction's operands when it prints
/// it.
#[derive(Clone, Copy, Debug, PartialEq, Eq, Structural)]
pub enum AnnotationStyle {
    /// Both operands are shown (data-moving and arithmetic forms).
    TwoOps,
    /// Only the first operand is shown (stack forms).
    OneOp,
    /// The first operand is shown as a floating-point cell.
    FloatOp,
    /// Nothing is annotated.
    Plain,
}

/// The annotation style a mnemonic calls for.
pub open spec fn spec_annotation_style(m: u32) -> AnnotationStyle {
    if m == MNEMONIC_MOV || m == MNEMONIC_MOVZX || m == MNEMONIC_ADD || m == MNEMONIC_SUB || m
        == MNEMONIC_XOR || m == MNEMONIC_MUL || m == MNEMONIC_IMUL || m == MNEMONIC_AND || m
        == MNEMONIC_OR || m == MNEMONIC_SHL || m == MNEMONIC_SHR || m == MNEMONIC_TEST || m
        == MNEMONIC_CMP || m == MNEMONIC_LEA {
        AnnotationStyle::TwoOps
    } else if m == MNEMONIC_PUSH || m == MNEMONIC_POP {
        AnnotationStyle::OneOp
    } else if m == MNEMONIC_FLD || m == MNEMONIC_FST || m == MNEMONIC_FSTP {
        AnnotationStyle::FloatOp
    } else {
        AnnotationStyle::Plain
    }
}

/// The annotation style a mnemonic calls for.
pub fn annotation_style(m: u32) -> (r: AnnotationStyle)
    ensures
        r == spec_annotation_style(m),
{
    if m == MNEMONIC_MOV || m == MNEMONIC_MOVZX || m == MNEMONIC_ADD || m == MNEMONIC_SUB || m
        == MNEMONIC_XOR || m == MNEMONIC_MUL || m == MNEMONIC_IMUL || m == MNEMONIC_AND || m
        == MNEMONIC_OR || m == MNEMONIC_SHL || m == MNEMONIC_SHR || m == MNEMONIC_TEST || m
        == MNEMONIC_CMP || m == MNEMONIC_LEA {
        AnnotationStyle::TwoOps
    } else if m == MNEMONIC_PUSH || m == MNEMONIC_POP {
        AnnotationStyle::OneOp
    } else if m == MNEMONIC_FLD || m == MNEMONIC_FST || m == MNEMONIC_FSTP {
        AnnotationStyle::FloatOp
    } else {
        AnnotationStyle::Plain
    }
}

/// One note the tracer prints beside an instruction.
#[derive(Clone, Copy, Debug, PartialEq, Eq, Structural)]
pub enum OperandNote {
    /// The operand reads memory: show the 32-bit cell at `addr`.
    MemoryU32 { addr: u64 },
    /// The operand reads memory as a floating-point cell at `addr`.
    MemoryF32 { addr: u64 },
    /// The operand is a register: show its code and current value.
    Register { code: u32, value: u64 },
}

/// The address a memory operand names: the base register's value plus
/// the displacement, wrapped to 64 bits.
pub open spec fn spec_mem_operand_addr(ctx: ThreadContext, base: u32, disp: u32) -> u64 {
    vstd::wrapping::u64_specs::wrapping_add(
        match spec_get_reg(ctx, base) {
            Some(v) => v,
            None => 0,
        },
        disp as u64,
    )
}

/// The note one operand gets: a memory cell's address for memory
/// operands (floating-point when the style says so), the register's
/// value for register operands, nothing otherwise.
pub open spec fn spec_operand_note(
    ctx: ThreadContext,
    kind: u32,
    reg: u32,
    base: u32,
    disp: u32,
    as_float: bool,
) -> Option<OperandNote> {
    if kind == OPKIND_MEMORY && as_float {
        Some(OperandNote::MemoryF32 { addr: spec_mem_operand_addr(ctx, base, disp) })
    } else if kind == OPKIND_MEMORY {
        Some(OperandNote::MemoryU32 { addr: spec_mem_operand_addr(ctx, base, disp) })
    } else if kind == OPKIND_REGISTER && !as_float {
        match spec_get_reg(ctx, reg) {
            Some(v) => Some(OperandNote::Register { code: reg, value: v }),
            None => None,
        }
    } else {
        None
    }
}

/// The note one operand gets.
pub fn operand_note(ctx: &ThreadContext, kind: u32, reg: u32, base: u32, disp: u32, as_float: bool)
    -> (r: Option<OperandNote>)
    ensures
        r == spec_operand_note(*ctx, kind, reg, base, disp, as_float),
{
    if kind == OPKIND_MEMORY {
        let base_val = match ctx.get(base) {
            Some(v) => v,
            None => 0u64,
        };
        let addr = base_val.wrapping_add(disp as u64);
        if as_float {
            Some(OperandNote::MemoryF32 { addr })
        } else {
            Some(OperandNote::MemoryU32 { addr })
        }
    } else if kind == OPKIND_REGISTER && !as_float {
        match ctx.get(reg) {
            Some(v) => Some(OperandNote::Register { code: reg, value: v }),
            None => None,
        }
    } else {
        None
    }
}

/// The notes an instruction gets when printed: per the mnemonic's
/// style, both operands, the first alone, the first as floating point,
/// or none.
pub fn annotation_notes(d: &InstrDetails, ctx: &ThreadContext) -> (r: (
    Option<OperandNote>,
    Option<OperandNote>,
))
    ensures
        ({
            let style = spec_annotation_style(d.mnemonic);
            match style {
                AnnotationStyle::TwoOps => r.0 == spec_operand_note(
                    *ctx,
                    d.op0_kind,
                    d.op0_register,
                    d.memory_base,
                    d.memory_displacement,
                    false,
                ) && r.1 == spec_operand_note(
                    *ctx,
                    d.op1_kind,
                    d.op1_register,
                    d.memory_base,
                    d.memory_displacement,
                    false,
                ),
                AnnotationStyle::OneOp => r.0 == spec_operand_note(
                    *ctx,
                    d.op0_kind,
                    d.op0_register,
                    d.memory_base,
                    d.memory_displacement,
                    false,
                ) && r.1 is None,
                AnnotationStyle::FloatOp => r.0 == spec_operand_note(
                    *ctx,
                    d.op0_kind,
                    d.op0_register,
                    d.memory_base,
                    d.memory_displacement,
                    true,
                ) && r.1 is None,
                AnnotationStyle::Plain => r.0 is None && r.1 is None,
            }
        }),
{
    match annotation_style(d.mnemonic) {
        AnnotationStyle::TwoOps => (
            operand_note(ctx, d.op0_kind, d.op0_register, d.memory_base, d.memory_displacement, false),
            operand_note(ctx, d.op1_kind, d.op1_register, d.memory_base, d.memory_displacement, false),
        ),
        AnnotationStyle::OneOp => (
            operand_note(ctx, d.op0_kind, d.op0_register, d.memory_base, d.memory_displacement, false),
            None,
        ),
        AnnotationStyle::FloatOp => (
            operand_note(ctx, d.op0_kind, d.op0_register, d.memory_base, d.memory_displacement, true),
            None,
        ),
        AnnotationStyle::Plain => (None, None),
    }
}

} // verus!
