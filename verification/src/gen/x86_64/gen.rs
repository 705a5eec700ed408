//! The generator: lowers the instructions of a function to machine code,
//! block by block, and resolves the jumps between the blocks once every
//! block's offset is known.

use vstd::prelude::*;
use crate::gen::x86_64::x86_64_allocator::{AllocatorView, X86Register, X86_64Allocator};
use crate::gen::x86_64::x86_64_caller::{CallerView, CallingConvention, MarshalState, X86_64Caller};
use crate::gen::x86_64::x86_64_encoder::{
    bytes_add_reg_reg,
    bytes_add_xmm_xmm,
    bytes_call,
    bytes_cond_jmp,
    bytes_div_reg_reg,
    bytes_div_stack,
    bytes_div_xmm_xmm,
    bytes_eq_reg_reg,
    bytes_extend_accumulator,
    bytes_jmp,
    bytes_mov_mem_to_reg,
    bytes_mov_reg_to_mem,
    bytes_mov_reg_to_reg,
    bytes_mov_xmm_to_xmm,
    bytes_move_reg_i64,
    bytes_move_reg_to_xmm,
    bytes_mul_reg_reg,
    bytes_mul_xmm_xmm,
    bytes_pop_reg,
    bytes_pop_shadow,
    bytes_push_reg,
    bytes_push_shadow,
    bytes_ret,
    bytes_set_condition,
    bytes_sub_reg_reg,
    bytes_sub_xmm_xmm,
    bytes_zero_extend_byte,
    Condition,
    X86_64Encoder,
};
use crate::lang::builder::{from_builder, views_of};
use crate::lang::function::{Function, FunctionView};
use crate::lang::instr::Instr;
use crate::gen::x86_64::gen_proof::{blocks_wf, lemma_relocations_resolved};
use crate::lang::validate::{
    is_first_fault,
    lemma_first_fault_unique,
    lemma_well_formed_targets,
    well_formed,
    IrFault,
};
use crate::lang::value::Value;
use crate::misc::byte_writer::{le_bytes, lemma_le_bytes_len, overwrite, ByteWriter};

verus! {

/// A pending relocation: the offset of a four-byte displacement field and the
/// block that the jump it belongs to leads to.
#[derive(Clone, Copy, PartialEq, Eq, Structural, Debug)]
pub struct BlockOffset {
    pub offset: usize,
    pub block: usize,
}

/// A recorded call site: a call by name to `func_name`, met at byte `offset`
/// of the code of the function numbered `func_id`.
#[derive(Debug, PartialEq, Eq)]
pub struct FunctionOffset {
    pub func_name: String,
    pub offset: usize,
    pub func_id: usize,
}

/// Why no code was generated.
#[derive(Clone, Copy, PartialEq, Eq, Structural, Debug)]
pub enum GenError {
    /// The instructions of the function numbered `func_id` are ill-formed;
    /// `fault` is their first fault.
    IllFormed { func_id: usize, fault: IrFault },
    /// The function numbered `func_id` has, at some point, more values of
    /// one class than the pool has registers of that class.
    RegisterPressure { func_id: usize },
}

impl GenError {
    /// The number of the function that the error is about.
    pub open spec fn spec_func_id(&self) -> usize {
        match self {
            GenError::IllFormed { func_id, .. } => *func_id,
            GenError::RegisterPressure { func_id } => *func_id,
        }
    }

    /// The number of the function that the error is about.
    #[verifier::when_used_as_spec(spec_func_id)]
    pub fn func_id(&self) -> (id: usize)
        ensures
            id == self.spec_func_id(),
    {
        match self {
            GenError::IllFormed { func_id, .. } => *func_id,
            GenError::RegisterPressure { func_id } => *func_id,
        }
    }
}

/// What generation yields for one function: its code, the offset at which
/// the code of each block begins, and the sites of its calls by name.
#[derive(Debug, PartialEq, Eq)]
pub struct GeneratedCode {
    pub code: Vec<u8>,
    pub block_offsets: Vec<usize>,
    pub calls: Vec<FunctionOffset>,
}

/// Where the generation of one function stands: the allocator, the code
/// emitted so far, the pending relocations and the recorded call sites.
pub struct GenState {
    pub alloc: AllocatorView,
    pub code: Seq<u8>,
    pub relocs: Seq<BlockOffset>,
    pub calls: Seq<FunctionOffset>,
}

/// The four arithmetic operations.
#[derive(Clone, Copy, PartialEq, Eq, Structural, Debug)]
pub enum Arith {
    Add,
    Sub,
    Mul,
    Div,
}

impl GenState {
    /// The state in which the generation of a function begins: a fresh
    /// allocator, and nothing emitted or recorded.
    pub open spec fn initial() -> GenState {
        GenState {
            alloc: AllocatorView::initial(),
            code: Seq::empty(),
            relocs: Seq::empty(),
            calls: Seq::empty(),
        }
    }

    /// The state with `alloc` for its allocator.
    pub open spec fn with_alloc(self, alloc: AllocatorView) -> GenState {
        GenState { alloc, ..self }
    }

    /// `bytes` are appended to the code.
    pub open spec fn emit(self, bytes: Seq<u8>) -> GenState {
        GenState { code: self.code + bytes, ..self }
    }

    /// `bytes` are appended to the code where `wanted` holds.
    pub open spec fn emit_if(self, wanted: bool, bytes: Seq<u8>) -> GenState {
        if wanted {
            self.emit(bytes)
        } else {
            self
        }
    }

    /// A relocation to `block` is recorded for the displacement field that
    /// ends the code.
    pub open spec fn reloc_last_field(self, block: usize) -> GenState {
        GenState {
            relocs: self.relocs.push(
                BlockOffset { offset: (self.code.len() - 4) as usize, block },
            ),
            ..self
        }
    }

    /// A register is obtained for `value`.
    pub open spec fn obtain(self, value: Value) -> GenState {
        self.with_alloc(self.alloc.obtain(value))
    }

    /// The register in which `value` is found in this state.
    pub open spec fn reg(self, value: Value) -> X86Register {
        self.alloc.obtain_result(value)
    }

    /// The register for a result: a newly allocated one, the accumulator
    /// where the pool has none of the class left.
    pub open spec fn result_reg(self, value: Value) -> X86Register {
        match self.alloc.allocate_result(value) {
            Some(reg) => reg,
            None => X86Register::RAX,
        }
    }

    /// A register is allocated for the result `value`.
    pub open spec fn allocate(self, value: Value) -> GenState {
        self.with_alloc(self.alloc.allocate(value))
    }

    /// A constant is moved into the register of `gen_value`: at once where
    /// that is a general-purpose register, through the accumulator where the
    /// value is of a floating-point type and lives in a vector register.
    pub open spec fn lower_const(self, value: i64, gen_value: Value) -> GenState {
        if gen_value.value_type.spec_is_float() {
            self.obtain(gen_value).emit(bytes_move_reg_i64(X86Register::RAX, value)).emit(
                bytes_move_reg_to_xmm(X86Register::RAX, self.reg(gen_value)),
            )
        } else {
            self.obtain(gen_value).emit(bytes_move_reg_i64(self.reg(gen_value), value))
        }
    }

    /// What an arithmetic instruction on vector registers emits: `left` is
    /// moved into `result` and the operation is applied to `result` and
    /// `right`.
    pub open spec fn emit_vector_arith(
        self,
        op: Arith,
        left: X86Register,
        right: X86Register,
        result: X86Register,
    ) -> GenState {
        self.emit(bytes_mov_xmm_to_xmm(left, result)).emit(
            match op {
                Arith::Add => bytes_add_xmm_xmm(result, right),
                Arith::Sub => bytes_sub_xmm_xmm(result, right),
                Arith::Mul => bytes_mul_xmm_xmm(result, right),
                Arith::Div => bytes_div_xmm_xmm(result, right),
            },
        )
    }

    /// What an arithmetic instruction emits, the operands being in `left`
    /// and `right` and the result going to `result`.  Where `left` is a
    /// vector register, see `emit_vector_arith`.  Else, for an addition, a
    /// subtraction or a multiplication, `left` is moved into `result` and the
    /// operation is applied to `result` and `right`, so that the operands
    /// keep their values.  For a division, `left` is moved into the
    /// accumulator and extended into the remainder register, the pair is
    /// divided by `right`, and the quotient is moved from the accumulator
    /// into `result`; `saved` says whether the remainder register holds a
    /// value, which is then pushed before and popped after the division, and
    /// where `right` is the remainder register the division is by the pushed
    /// copy.
    pub open spec fn emit_arith(
        self,
        op: Arith,
        left: X86Register,
        right: X86Register,
        result: X86Register,
        saved: bool,
    ) -> GenState {
        if left.spec_is_xmm() {
            self.emit_vector_arith(op, left, right, result)
        } else {
            self.emit_general_arith(op, left, right, result, saved)
        }
    }

    /// What an arithmetic instruction on general-purpose registers emits.
    pub open spec fn emit_general_arith(
        self,
        op: Arith,
        left: X86Register,
        right: X86Register,
        result: X86Register,
        saved: bool,
    ) -> GenState {
        match op {
            Arith::Add => self.emit(bytes_mov_reg_to_reg(left, result)).emit(
                bytes_add_reg_reg(result, right),
            ),
            Arith::Sub => self.emit(bytes_mov_reg_to_reg(left, result)).emit(
                bytes_sub_reg_reg(result, right),
            ),
            Arith::Mul => self.emit(bytes_mov_reg_to_reg(left, result)).emit(
                bytes_mul_reg_reg(result, right),
            ),
            Arith::Div => self.emit_if(saved, bytes_push_reg(X86Register::RDX)).emit(
                bytes_mov_reg_to_reg(left, X86Register::RAX),
            ).emit(bytes_extend_accumulator()).emit(
                if right == X86Register::RDX {
                    bytes_div_stack()
                } else {
                    bytes_div_reg_reg(right)
                },
            ).emit_if(saved, bytes_pop_reg(X86Register::RDX)).emit(
                bytes_mov_reg_to_reg(X86Register::RAX, result),
            ),
        }
    }

    /// An arithmetic instruction: registers are obtained for both operands,
    /// one is allocated for the result, and the operation is emitted.
    pub open spec fn lower_arith(self, op: Arith, left: Value, right: Value, gen_value: Value)
        -> GenState {
        let s1 = self.obtain(left);
        let s2 = s1.obtain(right);
        let s3 = s2.allocate(gen_value);
        s3.emit_arith(
            op,
            self.reg(left),
            s1.reg(right),
            s2.result_reg(gen_value),
            s3.alloc.holds(X86Register::RDX),
        )
    }

    /// A comparison: registers are obtained for both operands, one is
    /// allocated for the result, the operands are compared, and the result's
    /// register is set to 1 where the comparison had the outcome
    /// `condition`, to 0 where it had not.
    pub open spec fn lower_compare(
        self,
        condition: Condition,
        left: Value,
        right: Value,
        gen_value: Value,
    ) -> GenState {
        let s1 = self.obtain(left);
        let s2 = s1.obtain(right);
        let s3 = s2.allocate(gen_value);
        s3.emit(bytes_eq_reg_reg(self.reg(left), s1.reg(right))).emit(
            bytes_set_condition(condition, s2.result_reg(gen_value)),
        ).emit(bytes_zero_extend_byte(s2.result_reg(gen_value)))
    }

    /// A load through the pointer in `value_to_load`.
    pub open spec fn lower_load(self, value_to_load: Value, gen_value: Value) -> GenState {
        self.obtain(value_to_load).obtain(gen_value).emit(
            bytes_mov_mem_to_reg(self.reg(value_to_load), self.obtain(value_to_load).reg(gen_value)),
        )
    }

    /// A store of `value_to_store` through the pointer in `value_ptr`.
    pub open spec fn lower_store(self, value_ptr: Value, value_to_store: Value) -> GenState {
        self.obtain(value_ptr).obtain(value_to_store).emit(
            bytes_mov_reg_to_mem(self.obtain(value_ptr).reg(value_to_store), self.reg(value_ptr)),
        )
    }

    /// An unconditional jump: emitted with a zero displacement, with a
    /// relocation to the target.
    pub open spec fn lower_br(self, block: usize) -> GenState {
        self.emit(bytes_jmp()).reloc_last_field(block)
    }

    /// A conditional jump: the condition is compared with zero; a jump taken
    /// where it is zero gets a relocation to `block_false`, and the jump that
    /// follows it one to `block_true`.
    pub open spec fn lower_cond_br(self, cond: Value, block_true: usize, block_false: usize)
        -> GenState {
        self.obtain(cond).emit(bytes_cond_jmp(self.reg(cond))).reloc_last_field(block_false).emit(
            bytes_jmp(),
        ).reloc_last_field(block_true)
    }

    /// A return of `value`: it is moved into the return register of its
    /// class, then the return is emitted.
    pub open spec fn lower_ret(self, value: Value) -> GenState {
        if value.value_type.spec_is_float() {
            self.obtain(value).emit(bytes_mov_xmm_to_xmm(self.reg(value), X86Register::XMM0)).emit(
                bytes_ret(),
            )
        } else {
            self.obtain(value).emit(bytes_mov_reg_to_reg(self.reg(value), X86Register::RAX)).emit(
                bytes_ret(),
            )
        }
    }

    /// The state in which the arguments of a call through `ptr_to_call` are
    /// marshalled: the callee's address has been moved to the accumulator.
    pub open spec fn before_marshal(self, ptr_to_call: Value) -> GenState {
        self.obtain(ptr_to_call).emit(
            bytes_mov_reg_to_reg(self.reg(ptr_to_call), X86Register::RAX),
        )
    }

    /// A call through a pointer: the callee's address goes to the
    /// accumulator, the arguments are marshalled, the call is emitted (between
    /// reservation and release of the shadow space where the convention has
    /// one), the registers that the marshalling pushed are popped in reverse
    /// order, and the result is moved from the return register of its class
    /// into the register of `gen_value`.
    pub open spec fn lower_call_ptr(
        self,
        conv: CallerView,
        ptr_to_call: Value,
        args: Seq<Value>,
        return_float: bool,
        gen_value: Value,
    ) -> GenState {
        let s1 = self.before_marshal(ptr_to_call);
        let m = conv.place(MarshalState::start(s1.alloc, s1.code), args, args.len());
        let s2 = (GenState { alloc: m.alloc, code: m.code, ..s1 });
        let s3 = s2.emit_if(conv.shadow_space, bytes_push_shadow()).emit(
            bytes_call(X86Register::RAX),
        ).emit_if(conv.shadow_space, bytes_pop_shadow()).emit(bytes_pop_all(m.pushed));
        if return_float {
            s3.obtain(gen_value).emit(bytes_mov_xmm_to_xmm(X86Register::XMM0, s3.reg(gen_value)))
        } else {
            s3.obtain(gen_value).emit(bytes_mov_reg_to_reg(X86Register::RAX, s3.reg(gen_value)))
        }
    }

    /// A call by name emits nothing yet; its site is recorded.
    pub open spec fn lower_call_func(self, func_id: usize, func_name: String) -> GenState {
        GenState {
            calls: self.calls.push(
                FunctionOffset { func_name, offset: self.code.len() as usize, func_id },
            ),
            ..self
        }
    }

    /// The state after `instr`, an instruction of the function numbered
    /// `func_id`, was lowered under the convention `conv`.
    pub open spec fn lower(self, func_id: usize, instr: Instr, conv: CallerView) -> GenState {
        match instr {
            Instr::ConstInt128 { .. } => self,
            Instr::ConstInt64 { const_value, gen_value } => self.lower_const(
                const_value,
                gen_value,
            ),
            Instr::ConstInt32 { const_value, gen_value } => self.lower_const(
                const_value as i64,
                gen_value,
            ),
            Instr::ConstInt16 { const_value, gen_value } => self.lower_const(
                const_value as i64,
                gen_value,
            ),
            Instr::ConstInt8 { const_value, gen_value } => self.lower_const(
                const_value as i64,
                gen_value,
            ),
            Instr::ConstPtr { const_value, gen_value } => self.lower_const(
                const_value as i64,
                gen_value,
            ),
            Instr::Add { left_value, right_value, gen_value } => self.lower_arith(
                Arith::Add,
                left_value,
                right_value,
                gen_value,
            ),
            Instr::Sub { left_value, right_value, gen_value } => self.lower_arith(
                Arith::Sub,
                left_value,
                right_value,
                gen_value,
            ),
            Instr::Div { left_value, right_value, gen_value } => self.lower_arith(
                Arith::Div,
                left_value,
                right_value,
                gen_value,
            ),
            Instr::Mul { left_value, right_value, gen_value } => self.lower_arith(
                Arith::Mul,
                left_value,
                right_value,
                gen_value,
            ),
            Instr::Eq { left_value, right_value, gen_value } => self.lower_compare(
                Condition::Equal,
                left_value,
                right_value,
                gen_value,
            ),
            Instr::Diff { left_value, right_value, gen_value } => self.lower_compare(
                Condition::NotEqual,
                left_value,
                right_value,
                gen_value,
            ),
            Instr::Larger { left_value, right_value, gen_value } => self.lower_compare(
                Condition::Greater,
                left_value,
                right_value,
                gen_value,
            ),
            Instr::LargerEq { left_value, right_value, gen_value } => self.lower_compare(
                Condition::GreaterEqual,
                left_value,
                right_value,
                gen_value,
            ),
            Instr::Smaller { left_value, right_value, gen_value } => self.lower_compare(
                Condition::Less,
                left_value,
                right_value,
                gen_value,
            ),
            Instr::SmallerEq { left_value, right_value, gen_value } => self.lower_compare(
                Condition::LessEqual,
                left_value,
                right_value,
                gen_value,
            ),
            Instr::Not { .. } => self,
            Instr::Load { value_to_load, gen_value } => self.lower_load(value_to_load, gen_value),
            Instr::Store { value_ptr, value_to_store } => self.lower_store(
                value_ptr,
                value_to_store,
            ),
            Instr::Br { block_to_br } => self.lower_br(block_to_br.id),
            Instr::CondBr { block_to_br_true, block_to_br_false, value_cond } => self.lower_cond_br(
                value_cond,
                block_to_br_true.id,
                block_to_br_false.id,
            ),
            Instr::CallPtr { ptr_to_call, args, return_type, gen_value } => self.lower_call_ptr(
                conv,
                ptr_to_call,
                args@,
                return_type.spec_is_float(),
                gen_value,
            ),
            Instr::CallFunc { func_to_call, .. } => self.lower_call_func(func_id, func_to_call),
            Instr::Ret { value_to_return } => self.lower_ret(value_to_return),
            Instr::RetVoid => self.emit(bytes_ret()),
        }
    }

    /// Whether each argument of a call through `ptr_to_call` finds an
    /// argument register.
    pub open spec fn can_marshal(self, conv: CallerView, ptr_to_call: Value, args: Seq<Value>)
        -> bool {
        let s1 = self.before_marshal(ptr_to_call);
        conv.fits(MarshalState::start(s1.alloc, s1.code), args, args.len())
    }

    /// Whether `instr` can be lowered in this state: the arguments of a call
    /// through a pointer must find argument registers.
    pub open spec fn can_lower(self, instr: Instr, conv: CallerView) -> bool {
        match instr {
            Instr::CallPtr { ptr_to_call, args, .. } => self.can_marshal(conv, ptr_to_call, args@),
            _ => true,
        }
    }
}

/// The state after the first `n` of `instrs` were lowered, in order.
pub open spec fn emit_instrs(
    s: GenState,
    func_id: usize,
    instrs: Seq<Instr>,
    n: nat,
    conv: CallerView,
) -> GenState
    decreases n,
{
    if n == 0 {
        s
    } else {
        emit_instrs(s, func_id, instrs, (n - 1) as nat, conv).lower(func_id, instrs[n - 1], conv)
    }
}

/// The state after the first `n` of `blocks` were lowered, in order, each
/// with all its instructions.
pub open spec fn emit_blocks(func_id: usize, blocks: Seq<Seq<Instr>>, n: nat, conv: CallerView)
    -> GenState
    decreases n,
{
    if n == 0 {
        GenState::initial()
    } else {
        emit_instrs(
            emit_blocks(func_id, blocks, (n - 1) as nat, conv),
            func_id,
            blocks[n - 1],
            blocks[n - 1].len(),
            conv,
        )
    }
}

/// The offset at which the code of each block begins: the length of the code
/// of the blocks before it.
pub open spec fn block_offsets(func_id: usize, blocks: Seq<Seq<Instr>>, conv: CallerView) -> Seq<
    usize,
> {
    Seq::new(blocks.len(), |b: int| emit_blocks(func_id, blocks, b as nat, conv).code.len() as usize)
}

/// The displacement that leads from the jump whose displacement field is at
/// offset `site` to the code at offset `target`: the distance from the byte
/// behind the four bytes of the field, cut to 32 bits.
pub open spec fn displacement(target: usize, site: usize) -> i32 {
    (target - site - 4) as i32
}

/// `code` after the first `n` of `relocs` were resolved: the displacement
/// field of each holds the displacement to the block it names.
pub open spec fn patch(code: Seq<u8>, relocs: Seq<BlockOffset>, n: nat, offsets: Seq<usize>) -> Seq<
    u8,
>
    decreases n,
{
    if n == 0 {
        code
    } else {
        overwrite(
            patch(code, relocs, (n - 1) as nat, offsets),
            relocs[n - 1].offset as int,
            le_bytes(
                displacement(offsets[relocs[n - 1].block as int], relocs[n - 1].offset) as int,
                4,
            ),
        )
    }
}

/// The machine code of a function with the given blocks: what lowering all
/// blocks emits, with every jump resolved.
pub open spec fn generated_code(func_id: usize, blocks: Seq<Seq<Instr>>, conv: CallerView) -> Seq<
    u8,
> {
    let emitted = emit_blocks(func_id, blocks, blocks.len(), conv);
    patch(emitted.code, emitted.relocs, emitted.relocs.len(), block_offsets(func_id, blocks, conv))
}

/// Whether the jumps of the generated code are resolved: the four bytes at
/// the site of every jump hold the displacement `target offset - site offset
/// - 4`, where the target offset is the offset at which the code of the
/// block that the jump leads to begins; every byte outside these fields is
/// as it was emitted; and the code is as long as what was emitted.
pub open spec fn relocations_resolved(func_id: usize, blocks: Seq<Seq<Instr>>, conv: CallerView)
    -> bool {
    let emitted = emit_blocks(func_id, blocks, blocks.len(), conv);
    let code = generated_code(func_id, blocks, conv);
    let offsets = block_offsets(func_id, blocks, conv);
    &&& code.len() == emitted.code.len()
    &&& forall|k: int|
        0 <= k < emitted.relocs.len() ==> {
            &&& (#[trigger] emitted.relocs[k]).block < blocks.len()
            &&& emitted.relocs[k].offset + 4 <= code.len()
            &&& code.subrange(emitted.relocs[k].offset as int, emitted.relocs[k].offset + 4)
                == le_bytes(
                offsets[emitted.relocs[k].block as int] - emitted.relocs[k].offset - 4,
                4,
            )
        }
    &&& forall|j: int|
        0 <= j < code.len() && (forall|k: int|
            0 <= k < emitted.relocs.len() ==> !((#[trigger] emitted.relocs[k]).offset <= j
                < emitted.relocs[k].offset + 4)) ==> #[trigger] code[j] == emitted.code[j]
}

/// Whether the generated code is laid out as it should be: it is no longer
/// than memory can hold, the offset recorded for each block is where the
/// code of the block begins, and the jumps are resolved.
pub open spec fn laid_out(func_id: usize, blocks: Seq<Seq<Instr>>, conv: CallerView) -> bool {
    &&& generated_code(func_id, blocks, conv).len() <= usize::MAX
    &&& forall|b: int|
        0 <= b < blocks.len() ==> (#[trigger] block_offsets(func_id, blocks, conv)[b])
            == emit_blocks(func_id, blocks, b as nat, conv).code.len()
    &&& relocations_resolved(func_id, blocks, conv)
}

/// The function `f` after code was generated for it: it has its code, and
/// every block its offset.
pub open spec fn generated(f: FunctionView, func_id: usize, conv: CallerView) -> FunctionView {
    FunctionView {
        code: generated_code(func_id, f.builder.instructions(), conv),
        builder: f.builder.with_offsets(block_offsets(func_id, f.builder.instructions(), conv)),
        ..f
    }
}

/// Whether code can be generated for the function numbered `func_id` with
/// the given blocks: the instructions are well-formed, and no value is
/// refused a register.
pub open spec fn can_generate(func_id: usize, blocks: Seq<Seq<Instr>>, conv: CallerView) -> bool {
    &&& well_formed(blocks)
    &&& !emit_blocks(func_id, blocks, blocks.len(), conv).alloc.exhausted
}

/// Whether `error` is what the generation for the function numbered
/// `func_id` fails with: the first fault of ill-formed instructions, or else
/// the refusal of a register.
pub open spec fn fails_with(
    func_id: usize,
    blocks: Seq<Seq<Instr>>,
    conv: CallerView,
    error: GenError,
) -> bool {
    match error {
        GenError::IllFormed { func_id: id, fault } => id == func_id && is_first_fault(
            blocks,
            fault,
        ),
        GenError::RegisterPressure { func_id: id } => {
            &&& id == func_id
            &&& well_formed(blocks)
            &&& emit_blocks(func_id, blocks, blocks.len(), conv).alloc.exhausted
        },
    }
}

/// Generation fails in one way at most, and not at all where code can be
/// generated.
pub proof fn lemma_failure_unique(
    func_id: usize,
    blocks: Seq<Seq<Instr>>,
    conv: CallerView,
    first: GenError,
    second: GenError,
)
    requires
        fails_with(func_id, blocks, conv, first),
        fails_with(func_id, blocks, conv, second),
    ensures
        first == second,
        !can_generate(func_id, blocks, conv),
{
    match (first, second) {
        (GenError::IllFormed { fault: f, .. }, GenError::IllFormed { fault: g, .. }) => {
            lemma_first_fault_unique(blocks, f, g);
        },
        (GenError::IllFormed { fault: f, .. }, _) => {
            lemma_first_fault_unique(blocks, f, f);
        },
        (_, GenError::IllFormed { fault: g, .. }) => {
            lemma_first_fault_unique(blocks, g, g);
        },
        _ => {},
    }
}

/// Whether every pending relocation of `s` has its field inside the code and
/// names one of the first `block_count` blocks.
pub open spec fn relocs_within(s: GenState, block_count: nat) -> bool {
    forall|k: int|
        0 <= k < s.relocs.len() ==> {
            &&& (#[trigger] s.relocs[k]).offset + 4 <= s.code.len()
            &&& s.relocs[k].block < block_count
        }
}

/// What an arithmetic operation emits is appended to the code; nothing
/// else of the state changes.
#[verifier::rlimit(50)]
proof fn lemma_emit_arith_keeps(
    t: GenState,
    op: Arith,
    left: X86Register,
    right: X86Register,
    result: X86Register,
    saved: bool,
)
    ensures
        t.emit_arith(op, left, right, result, saved).relocs == t.relocs,
        t.emit_arith(op, left, right, result, saved).calls == t.calls,
        t.emit_arith(op, left, right, result, saved).alloc == t.alloc,
        t.code.len() <= t.emit_arith(op, left, right, result, saved).code.len(),
{
    if left.spec_is_xmm() {
        assert(t.emit_arith(op, left, right, result, saved) == t.emit_vector_arith(
            op,
            left,
            right,
            result,
        ));
    } else {
        assert(t.emit_arith(op, left, right, result, saved) == t.emit_general_arith(
            op,
            left,
            right,
            result,
            saved,
        ));
        match op {
            Arith::Add => {},
            Arith::Sub => {},
            Arith::Mul => {},
            Arith::Div => {},
        }
    }
}

/// An arithmetic instruction records no relocation and never shortens the
/// code.
#[verifier::rlimit(50)]
proof fn lemma_arith_keeps_relocs(s: GenState, op: Arith, left: Value, right: Value, gen: Value)
    ensures
        s.lower_arith(op, left, right, gen).relocs == s.relocs,
        s.lower_arith(op, left, right, gen).calls == s.calls,
        s.code.len() <= s.lower_arith(op, left, right, gen).code.len(),
{
    let s1 = s.obtain(left);
    let s2 = s1.obtain(right);
    let s3 = s2.allocate(gen);
    lemma_emit_arith_keeps(
        s3,
        op,
        s.reg(left),
        s1.reg(right),
        s2.result_reg(gen),
        s3.alloc.holds(X86Register::RDX),
    );
}

/// A comparison records no relocation and never shortens the code.
#[verifier::rlimit(50)]
proof fn lemma_compare_keeps_relocs(
    s: GenState,
    condition: Condition,
    left: Value,
    right: Value,
    gen: Value,
)
    ensures
        s.lower_compare(condition, left, right, gen).relocs == s.relocs,
        s.lower_compare(condition, left, right, gen).calls == s.calls,
        s.code.len() <= s.lower_compare(condition, left, right, gen).code.len(),
{
}

/// A constant and a return record no relocation and never shorten the code.
#[verifier::rlimit(50)]
proof fn lemma_move_keeps_relocs(s: GenState, value: i64, named: Value)
    ensures
        s.lower_const(value, named).relocs == s.relocs,
        s.lower_const(value, named).calls == s.calls,
        s.code.len() <= s.lower_const(value, named).code.len(),
        s.lower_ret(named).relocs == s.relocs,
        s.lower_ret(named).calls == s.calls,
        s.code.len() <= s.lower_ret(named).code.len(),
{
}

/// An instruction of a builder that is no jump records no relocation and
/// never shortens the code.
#[verifier::rlimit(50)]
pub proof fn lemma_computation_keeps_relocs(s: GenState, func_id: usize, instr: Instr, conv: CallerView)
    requires
        from_builder(instr),
        !(instr is Br),
        !(instr is CondBr),
    ensures
        s.lower(func_id, instr, conv).relocs == s.relocs,
        s.lower(func_id, instr, conv).calls == s.calls,
        s.code.len() <= s.lower(func_id, instr, conv).code.len(),
{
    match instr {
        Instr::ConstInt64 { const_value, gen_value } => {
            lemma_move_keeps_relocs(s, const_value, gen_value);
        },
        Instr::ConstInt32 { const_value, gen_value } => {
            lemma_move_keeps_relocs(s, const_value as i64, gen_value);
        },
        Instr::ConstInt16 { const_value, gen_value } => {
            lemma_move_keeps_relocs(s, const_value as i64, gen_value);
        },
        Instr::ConstInt8 { const_value, gen_value } => {
            lemma_move_keeps_relocs(s, const_value as i64, gen_value);
        },
        Instr::Add { left_value, right_value, gen_value } => {
            lemma_arith_keeps_relocs(s, Arith::Add, left_value, right_value, gen_value);
        },
        Instr::Sub { left_value, right_value, gen_value } => {
            lemma_arith_keeps_relocs(s, Arith::Sub, left_value, right_value, gen_value);
        },
        Instr::Mul { left_value, right_value, gen_value } => {
            lemma_arith_keeps_relocs(s, Arith::Mul, left_value, right_value, gen_value);
        },
        Instr::Div { left_value, right_value, gen_value } => {
            lemma_arith_keeps_relocs(s, Arith::Div, left_value, right_value, gen_value);
        },
        Instr::Eq { left_value, right_value, gen_value } => {
            lemma_compare_keeps_relocs(s, Condition::Equal, left_value, right_value, gen_value);
        },
        Instr::Diff { left_value, right_value, gen_value } => {
            lemma_compare_keeps_relocs(s, Condition::NotEqual, left_value, right_value, gen_value);
        },
        Instr::Larger { left_value, right_value, gen_value } => {
            lemma_compare_keeps_relocs(s, Condition::Greater, left_value, right_value, gen_value);
        },
        Instr::LargerEq { left_value, right_value, gen_value } => {
            lemma_compare_keeps_relocs(
                s,
                Condition::GreaterEqual,
                left_value,
                right_value,
                gen_value,
            );
        },
        Instr::Smaller { left_value, right_value, gen_value } => {
            lemma_compare_keeps_relocs(s, Condition::Less, left_value, right_value, gen_value);
        },
        Instr::SmallerEq { left_value, right_value, gen_value } => {
            lemma_compare_keeps_relocs(s, Condition::LessEqual, left_value, right_value, gen_value);
        },
        Instr::Ret { value_to_return } => {
            lemma_move_keeps_relocs(s, 0, value_to_return);
        },
        _ => {},
    }
}

/// A jump lengthens the code by the jump, records the relocations of its
/// fields, which lie in what it emitted, and records no call.
#[verifier::rlimit(50)]
pub proof fn lemma_jump_keeps_relocs(s: GenState, func_id: usize, instr: Instr, conv: CallerView)
    requires
        instr is Br || instr is CondBr,
    ensures
        ({
            let after = s.lower(func_id, instr, conv);
            &&& after.calls == s.calls
            &&& s.code.len() < after.code.len()
            &&& s.relocs.len() <= after.relocs.len()
            &&& forall|k: int| 0 <= k < s.relocs.len() ==> #[trigger] after.relocs[k] == s.relocs[k]
            &&& after.code.len() <= usize::MAX ==> forall|k: int|
                s.relocs.len() <= k < after.relocs.len() ==> {
                    &&& s.code.len() <= (#[trigger] after.relocs[k]).offset
                    &&& after.relocs[k].offset + 4 <= after.code.len()
                }
            &&& after.code.len() <= usize::MAX ==> forall|i: int, j: int|
                s.relocs.len() <= i < j < after.relocs.len() ==> (#[trigger] after.relocs[i]).offset
                    + 4 <= (#[trigger] after.relocs[j]).offset
        }),
{
    lemma_le_bytes_len(0, 4);
    match instr {
        Instr::Br { block_to_br } => {
            assert(s.lower(func_id, instr, conv) == s.lower_br(block_to_br.id));
        },
        Instr::CondBr { block_to_br_true, block_to_br_false, value_cond } => {
            assert(s.lower(func_id, instr, conv) == s.lower_cond_br(
                value_cond,
                block_to_br_true.id,
                block_to_br_false.id,
            ));
        },
        _ => {},
    }
}

/// Lowering an instruction of a builder never shortens the code, needs no
/// argument registers, and keeps every relocation's field inside the code.
#[verifier::rlimit(50)]
pub proof fn lemma_lower_keeps_relocs(
    s: GenState,
    func_id: usize,
    instr: Instr,
    conv: CallerView,
    block_count: nat,
)
    requires
        relocs_within(s, block_count),
        from_builder(instr),
        instr.targets_within(block_count),
        s.lower(func_id, instr, conv).code.len() <= usize::MAX,
    ensures
        s.can_lower(instr, conv),
        relocs_within(s.lower(func_id, instr, conv), block_count),
        s.code.len() <= s.lower(func_id, instr, conv).code.len(),
{
    lemma_le_bytes_len(0, 4);
    let after = s.lower(func_id, instr, conv);
    if !(instr is Br) && !(instr is CondBr) {
        lemma_computation_keeps_relocs(s, func_id, instr, conv);
    }
    assert(s.code.len() <= after.code.len());
    assert forall|k: int| 0 <= k < after.relocs.len() implies {
        &&& (#[trigger] after.relocs[k]).offset + 4 <= after.code.len()
        &&& after.relocs[k].block < block_count
    } by {
        if k < s.relocs.len() {
            assert(after.relocs[k] == s.relocs[k]);
        }
    }
}

/// Computes the displacement from the field at `site` to `target`.
fn displacement_of(target: usize, site: usize) -> (d: i32)
    ensures
        d == displacement(target, site),
{
    #[verifier::truncate]
    (((target as i128) - (site as i128) - 4) as i32)
}

/// What pops `pushed`, last pushed first.
pub open spec fn bytes_pop_all(pushed: Seq<X86Register>) -> Seq<u8>
    decreases pushed.len(),
{
    if pushed.len() == 0 {
        Seq::empty()
    } else {
        bytes_pop_reg(pushed.last()) + bytes_pop_all(pushed.drop_last())
    }
}

/// The code generator for one calling convention.
pub struct X86_64Gen {
    convention: CallingConvention,
}

impl X86_64Gen {
    /// The convention that calls out of generated code follow.
    pub closed spec fn spec_convention(&self) -> CallingConvention {
        self.convention
    }

    /// A generator whose calls follow `convention`.
    pub fn new(convention: CallingConvention) -> (g: Self)
        ensures
            g.spec_convention() == convention,
    {
        X86_64Gen { convention }
    }

    /// The convention that calls out of generated code follow.
    #[verifier::when_used_as_spec(spec_convention)]
    pub fn convention(&self) -> (c: CallingConvention)
        ensures
            c == self.spec_convention(),
    {
        self.convention
    }

    /// Generates the code of every function of `funcs`, the function at
    /// position `i` as the function numbered `i`.  Either every function
    /// gets its code, or, where the generation fails for one of them, none is
    /// changed and the failure of the first such function is returned.
    /// Functions whose instructions come from a builder hold no calls by
    /// name, so no call site is left to resolve between them.
    #[verifier::rlimit(50)]
    pub fn gen(&mut self, funcs: &mut Vec<Function>) -> (result: Result<(), GenError>)
        requires
            forall|i: int| 0 <= i < old(funcs)@.len() ==> (#[trigger] old(funcs)@[i]).wf(),
        ensures
            final(self).spec_convention() == old(self).spec_convention(),
            final(funcs)@.len() == old(funcs)@.len(),
            forall|i: int| 0 <= i < old(funcs)@.len() ==> (#[trigger] final(funcs)@[i]).wf(),
            result is Ok <==> forall|i: int|
                0 <= i < old(funcs)@.len() ==> can_generate(
                    i as usize,
                    (#[trigger] old(funcs)@[i])@.builder.instructions(),
                    CallerView::of(old(self).spec_convention()),
                ),
            result is Ok ==> forall|i: int|
                0 <= i < old(funcs)@.len() ==> (#[trigger] final(funcs)@[i])@ == generated(
                    old(funcs)@[i]@,
                    i as usize,
                    CallerView::of(old(self).spec_convention()),
                ) && laid_out(
                    i as usize,
                    old(funcs)@[i]@.builder.instructions(),
                    CallerView::of(old(self).spec_convention()),
                ),
            result matches Err(error) ==> {
                &&& forall|i: int|
                    0 <= i < old(funcs)@.len() ==> (#[trigger] final(funcs)@[i])@ == old(
                        funcs,
                    )@[i]@
                &&& error.spec_func_id() < old(funcs)@.len()
                &&& fails_with(
                    error.spec_func_id(),
                    old(funcs)@[error.spec_func_id() as int]@.builder.instructions(),
                    CallerView::of(old(self).spec_convention()),
                    error,
                )
                &&& forall|i: int|
                    0 <= i < error.spec_func_id() ==> can_generate(
                        i as usize,
                        (#[trigger] old(funcs)@[i])@.builder.instructions(),
                        CallerView::of(old(self).spec_convention()),
                    )
            },
    {
        let ghost conv = CallerView::of(self.spec_convention());
        let count = funcs.len();
        let mut results: Vec<GeneratedCode> = Vec::new();
        let mut i: usize = 0;
        while i < count
            invariant
                i <= count,
                count == funcs@.len(),
                *funcs == *old(funcs),
                self.spec_convention() == old(self).spec_convention(),
                conv == CallerView::of(self.spec_convention()),
                forall|x: int| 0 <= x < count ==> (#[trigger] funcs@[x]).wf(),
                results@.len() == i,
                forall|x: int|
                    0 <= x < i ==> {
                        &&& can_generate(
                            x as usize,
                            (#[trigger] funcs@[x])@.builder.instructions(),
                            conv,
                        )
                        &&& laid_out(x as usize, funcs@[x]@.builder.instructions(), conv)
                        &&& results@[x].code@ == generated_code(
                            x as usize,
                            funcs@[x]@.builder.instructions(),
                            conv,
                        )
                        &&& results@[x].block_offsets@ == block_offsets(
                            x as usize,
                            funcs@[x]@.builder.instructions(),
                            conv,
                        )
                    },
            decreases count - i,
        {
            match self.lower_func(&funcs[i], i) {
                Ok(generated) => {
                    results.push(generated);
                },
                Err(error) => {
                    proof {
                        lemma_failure_unique(
                            i,
                            funcs@[i as int]@.builder.instructions(),
                            conv,
                            error,
                            error,
                        );
                    }
                    return Err(error);
                },
            }
            i += 1;
        }
        let mut j: usize = 0;
        while j < count
            invariant
                j <= count,
                count == funcs@.len(),
                count == old(funcs)@.len(),
                results@.len() == count,
                self.spec_convention() == old(self).spec_convention(),
                conv == CallerView::of(self.spec_convention()),
                forall|x: int| 0 <= x < count ==> (#[trigger] funcs@[x]).wf(),
                forall|x: int| j <= x < count ==> (#[trigger] funcs@[x]) == old(funcs)@[x],
                forall|x: int|
                    0 <= x < count ==> {
                        &&& can_generate(
                            x as usize,
                            (#[trigger] old(funcs)@[x])@.builder.instructions(),
                            conv,
                        )
                        &&& laid_out(x as usize, old(funcs)@[x]@.builder.instructions(), conv)
                        &&& results@[x].code@ == generated_code(
                            x as usize,
                            old(funcs)@[x]@.builder.instructions(),
                            conv,
                        )
                        &&& results@[x].block_offsets@ == block_offsets(
                            x as usize,
                            old(funcs)@[x]@.builder.instructions(),
                            conv,
                        )
                    },
                forall|x: int|
                    0 <= x < j ==> (#[trigger] funcs@[x])@ == generated(
                        old(funcs)@[x]@,
                        x as usize,
                        conv,
                    ),
            decreases count - j,
        {
            funcs[j].set_code(&results[j].code);
            funcs[j].record_offsets(&results[j].block_offsets);
            j += 1;
        }
        Ok(())
    }

    /// Generates the code of `func`, the function numbered `func_id`, and
    /// stores it: the function gets its code and each of its blocks the
    /// offset at which its code begins, and the sites of its calls by name
    /// are appended to `func_offsets`.  Where the generation fails, the
    /// failure is returned and nothing is changed.
    #[verifier::rlimit(50)]
    pub fn gen_func(
        &mut self,
        func: &mut Function,
        func_id: usize,
        func_offsets: &mut Vec<FunctionOffset>,
    ) -> (result: Result<(), GenError>)
        requires
            old(func).wf(),
        ensures
            final(self).spec_convention() == old(self).spec_convention(),
            final(func).wf(),
            result is Ok <==> can_generate(
                func_id,
                old(func)@.builder.instructions(),
                CallerView::of(old(self).spec_convention()),
            ),
            result is Ok ==> {
                &&& laid_out(
                    func_id,
                    old(func)@.builder.instructions(),
                    CallerView::of(old(self).spec_convention()),
                )
                &&& final(func)@ == generated(
                    old(func)@,
                    func_id,
                    CallerView::of(old(self).spec_convention()),
                )
                &&& final(func_offsets)@ == old(func_offsets)@ + emit_blocks(
                    func_id,
                    old(func)@.builder.instructions(),
                    old(func)@.builder.blocks.len(),
                    CallerView::of(old(self).spec_convention()),
                ).calls
            },
            result matches Err(error) ==> {
                &&& final(func)@ == old(func)@
                &&& final(func_offsets)@ == old(func_offsets)@
                &&& fails_with(
                    func_id,
                    old(func)@.builder.instructions(),
                    CallerView::of(old(self).spec_convention()),
                    error,
                )
            },
    {
        let generated = match self.lower_func(func, func_id) {
            Ok(generated) => generated,
            Err(error) => {
                proof {
                    lemma_failure_unique(
                        func_id,
                        func@.builder.instructions(),
                        CallerView::of(self.spec_convention()),
                        error,
                        error,
                    );
                }
                return Err(error);
            },
        };
        func.set_code(&generated.code);
        func.record_offsets(&generated.block_offsets);
        let mut calls = generated.calls;
        func_offsets.append(&mut calls);
        Ok(())
    }

    /// Generates the code of `func`, the function numbered `func_id`,
    /// without storing it: checks the instructions, lowers the blocks in
    /// creation order, and resolves the jumps between them.
    #[verifier::rlimit(50)]
    pub fn lower_func(&self, func: &Function, func_id: usize) -> (result: Result<
        GeneratedCode,
        GenError,
    >)
        requires
            func.wf(),
        ensures
            result is Ok <==> can_generate(
                func_id,
                func@.builder.instructions(),
                CallerView::of(self.spec_convention()),
            ),
            result matches Ok(generated) ==> {
                &&& generated.code@ == generated_code(
                    func_id,
                    func@.builder.instructions(),
                    CallerView::of(self.spec_convention()),
                )
                &&& generated.block_offsets@ == block_offsets(
                    func_id,
                    func@.builder.instructions(),
                    CallerView::of(self.spec_convention()),
                )
                &&& generated.calls@ == emit_blocks(
                    func_id,
                    func@.builder.instructions(),
                    func@.builder.blocks.len(),
                    CallerView::of(self.spec_convention()),
                ).calls
                &&& laid_out(
                    func_id,
                    func@.builder.instructions(),
                    CallerView::of(self.spec_convention()),
                )
            },
            result matches Err(error) ==> fails_with(
                func_id,
                func@.builder.instructions(),
                CallerView::of(self.spec_convention()),
                error,
            ),
    {
        let ghost conv = CallerView::of(self.spec_convention());
        let ghost ir = func@.builder.instructions();
        let builder = func.ir();
        match builder.check() {
            Ok(()) => {},
            Err(fault) => {
                proof {
                    lemma_first_fault_unique(ir, fault, fault);
                }
                return Err(GenError::IllFormed { func_id, fault });
            },
        }
        let mut allocator = X86_64Allocator::new();
        let mut encoder = X86_64Encoder::new();
        let mut block_offset: Vec<BlockOffset> = Vec::new();
        let mut calls: Vec<FunctionOffset> = Vec::new();
        let mut starts: Vec<usize> = Vec::new();
        let blocks = builder.blocks();
        let count = blocks.len();
        let mut b: usize = 0;
        while b < count
            invariant
                b <= count,
                count == ir.len(),
                builder@.wf(),
                well_formed(ir),
                allocator@.inv(),
                builder@.instructions() == ir,
                views_of(blocks@) == builder@.blocks,
                forall|x: int|
                    0 <= x < b ==> (#[trigger] block_offsets(func_id, ir, conv)[x]) == emit_blocks(
                        func_id,
                        ir,
                        x as nat,
                        conv,
                    ).code.len(),
                conv == CallerView::of(self.spec_convention()),
                starts@ == block_offsets(func_id, ir, conv).subrange(0, b as int),
                (GenState {
                    alloc: allocator@,
                    code: encoder@,
                    relocs: block_offset@,
                    calls: calls@,
                }) == emit_blocks(func_id, ir, b as nat, conv),
                relocs_within(emit_blocks(func_id, ir, b as nat, conv), count as nat),
            decreases count - b,
        {
            let ghost at_block = emit_blocks(func_id, ir, b as nat, conv);
            proof {
                encoder.lemma_len_bounded();
            }
            starts.push(encoder.bytes().len());
            let instrs = blocks[b].instructions();
            assert(instrs@ == ir[b as int]) by {
                assert(views_of(blocks@)[b as int] == blocks@[b as int]@);
            }
            let mut k: usize = 0;
            while k < instrs.len()
                invariant
                    k <= instrs.len(),
                    b < count,
                    count == ir.len(),
                    builder@.wf(),
                    well_formed(ir),
                    allocator@.inv(),
                    builder@.instructions() == ir,
                    instrs@ == ir[b as int],
                    conv == CallerView::of(self.spec_convention()),
                    (GenState {
                        alloc: allocator@,
                        code: encoder@,
                        relocs: block_offset@,
                        calls: calls@,
                    }) == emit_instrs(at_block, func_id, instrs@, k as nat, conv),
                    relocs_within(
                        emit_instrs(at_block, func_id, instrs@, k as nat, conv),
                        count as nat,
                    ),
                decreases instrs.len() - k,
            {
                let ghost before = emit_instrs(at_block, func_id, instrs@, k as nat, conv);
                proof {
                    assert(instrs@[k as int] == builder@.blocks[b as int].instructions[k as int]);
                    assert(from_builder(instrs@[k as int]));
                    assert(before.can_lower(instrs@[k as int], conv));
                }
                self.gen_instr(
                    func_id,
                    &instrs[k],
                    &mut allocator,
                    &mut encoder,
                    &mut calls,
                    &mut block_offset,
                );
                proof {
                    encoder.lemma_len_bounded();
                    lemma_well_formed_targets(ir, b as int, k as int);
                    lemma_lower_keeps_relocs(before, func_id, instrs@[k as int], conv, count as nat);
                }
                k += 1;
            }
            proof {
                let offsets = block_offsets(func_id, ir, conv);
                assert(starts@ =~= offsets.subrange(0, b + 1));
            }
            b += 1;
        }
        proof {
            let offsets = block_offsets(func_id, ir, conv);
            assert(offsets.subrange(0, count as int) == offsets);
        }
        if allocator.pool_exhausted() {
            return Err(GenError::RegisterPressure { func_id });
        }
        proof {
            encoder.lemma_len_bounded();
            assert(blocks_wf(ir)) by {
                assert forall|x: int, k: int| 0 <= x < ir.len() && 0 <= k < ir[x].len() implies {
                    &&& from_builder(#[trigger] ir[x][k])
                    &&& ir[x][k].targets_within(ir.len())
                } by {
                    assert(ir[x][k] == builder@.blocks[x].instructions[k]);
                    lemma_well_formed_targets(ir, x, k);
                }
            }
            lemma_relocations_resolved(func_id, ir, conv);
        }
        let ghost emitted = emit_blocks(func_id, ir, count as nat, conv);
        let mut writer = ByteWriter::from_bytes(encoder.bytes());
        let mut r: usize = 0;
        while r < block_offset.len()
            invariant
                r <= block_offset.len(),
                block_offset@ == emitted.relocs,
                encoder@ == emitted.code,
                starts@.len() == count,
                relocs_within(emitted, count as nat),
                writer@.len() == emitted.code.len(),
                writer@ == patch(emitted.code, emitted.relocs, r as nat, starts@),
            decreases block_offset.len() - r,
        {
            let site = block_offset[r].offset;
            let target = starts[block_offset[r].block];
            let value = displacement_of(target, site);
            proof {
                lemma_le_bytes_len(value as int, 4);
            }
            writer.rewrite_i32(site, value);
            r += 1;
        }
        let mut code: Vec<u8> = Vec::new();
        let written = writer.bytes();
        let mut c: usize = 0;
        while c < written.len()
            invariant
                c <= written.len(),
                code@ == written@.subrange(0, c as int),
            decreases written.len() - c,
        {
            code.push(written[c]);
            c += 1;
        }
        assert(written@.subrange(0, written@.len() as int) == written@);
        Ok(GeneratedCode { code, block_offsets: starts, calls })
    }

    /// A register for the result `value`: a newly allocated one, or the
    /// accumulator where the pool has none of the class left.
    fn result_register(allocator: &mut X86_64Allocator, value: Value) -> (reg: X86Register)
        requires
            old(allocator)@.inv(),
        ensures
            final(allocator)@.inv(),
            final(allocator)@ == old(allocator)@.allocate(value),
            reg == (match old(allocator)@.allocate_result(value) {
                Some(r) => r,
                None => X86Register::RAX,
            }),
    {
        match allocator.allocate_register(value) {
            Some(reg) => reg,
            None => X86Register::RAX,
        }
    }

    /// Lowers a constant.
    fn gen_const(
        value: i64,
        gen_value: Value,
        allocator: &mut X86_64Allocator,
        encode: &mut X86_64Encoder,
        Ghost(pre): Ghost<GenState>,
    )
        requires
            pre.alloc == old(allocator)@,
            old(allocator)@.inv(),
            pre.code == old(encode)@,
        ensures
            final(allocator)@.inv(),
            final(allocator)@ == pre.lower_const(value, gen_value).alloc,
            final(encode)@ == pre.lower_const(value, gen_value).code,
    {
        let const_reg = allocator.obtain_register_for_value(gen_value);
        if gen_value.get_type().is_float() {
            encode.move_reg_i64(X86Register::RAX, value);
            encode.move_reg_to_xmm(X86Register::RAX, const_reg);
        } else {
            encode.move_reg_i64(const_reg, value);
        }
    }

    /// Lowers an arithmetic instruction.
    #[verifier::rlimit(50)]
    fn gen_arith(
        op: Arith,
        left_value: Value,
        right_value: Value,
        gen_value: Value,
        allocator: &mut X86_64Allocator,
        encode: &mut X86_64Encoder,
        Ghost(pre): Ghost<GenState>,
    )
        requires
            pre.alloc == old(allocator)@,
            old(allocator)@.inv(),
            pre.code == old(encode)@,
        ensures
            final(allocator)@.inv(),
            final(allocator)@ == pre.lower_arith(op, left_value, right_value, gen_value).alloc,
            final(encode)@ == pre.lower_arith(op, left_value, right_value, gen_value).code,
    {
        let left_reg = allocator.obtain_register_for_value(left_value);
        let right_reg = allocator.obtain_register_for_value(right_value);
        let result_reg = Self::result_register(allocator, gen_value);
        if left_reg.is_xmm() {
            encode.mov_xmm_to_xmm(left_reg, result_reg);
            match op {
                Arith::Add => {
                    encode.add_xmm_xmm(result_reg, right_reg);
                },
                Arith::Sub => {
                    encode.sub_xmm_xmm(result_reg, right_reg);
                },
                Arith::Mul => {
                    encode.mul_xmm_xmm(result_reg, right_reg);
                },
                Arith::Div => {
                    encode.div_xmm_xmm(result_reg, right_reg);
                },
            }
            return ;
        }
        match op {
            Arith::Add => {
                encode.mov_reg_to_reg(left_reg, result_reg);
                encode.add_reg_reg(result_reg, right_reg);
            },
            Arith::Sub => {
                encode.mov_reg_to_reg(left_reg, result_reg);
                encode.sub_reg_reg(result_reg, right_reg);
            },
            Arith::Mul => {
                encode.mov_reg_to_reg(left_reg, result_reg);
                encode.mul_reg_reg(result_reg, right_reg);
            },
            Arith::Div => {
                let saved = allocator.is_register_allocated(X86Register::RDX);
                if saved {
                    encode.push_reg(X86Register::RDX);
                }
                encode.mov_reg_to_reg(left_reg, X86Register::RAX);
                encode.extend_accumulator();
                if right_reg == X86Register::RDX {
                    encode.div_stack();
                } else {
                    encode.div_reg_reg(right_reg);
                }
                if saved {
                    encode.pop_reg(X86Register::RDX);
                }
                encode.mov_reg_to_reg(X86Register::RAX, result_reg);
            },
        }
    }

    /// Lowers a comparison.
    fn gen_compare(
        condition: Condition,
        left_value: Value,
        right_value: Value,
        gen_value: Value,
        allocator: &mut X86_64Allocator,
        encode: &mut X86_64Encoder,
        Ghost(pre): Ghost<GenState>,
    )
        requires
            pre.alloc == old(allocator)@,
            old(allocator)@.inv(),
            pre.code == old(encode)@,
        ensures
            final(allocator)@.inv(),
            final(allocator)@ == pre.lower_compare(
                condition,
                left_value,
                right_value,
                gen_value,
            ).alloc,
            final(encode)@ == pre.lower_compare(condition, left_value, right_value, gen_value).code,
    {
        let left_reg = allocator.obtain_register_for_value(left_value);
        let right_reg = allocator.obtain_register_for_value(right_value);
        let result_reg = Self::result_register(allocator, gen_value);
        encode.eq_reg_reg(left_reg, right_reg);
        encode.set_condition(condition, result_reg);
        encode.zero_extend_byte(result_reg);
    }

    /// Lowers a load.
    fn gen_load(
        value_to_load: Value,
        gen_value: Value,
        allocator: &mut X86_64Allocator,
        encode: &mut X86_64Encoder,
        Ghost(pre): Ghost<GenState>,
    )
        requires
            pre.alloc == old(allocator)@,
            old(allocator)@.inv(),
            pre.code == old(encode)@,
        ensures
            final(allocator)@.inv(),
            final(allocator)@ == pre.lower_load(value_to_load, gen_value).alloc,
            final(encode)@ == pre.lower_load(value_to_load, gen_value).code,
    {
        let mem_reg = allocator.obtain_register_for_value(value_to_load);
        let reg = allocator.obtain_register_for_value(gen_value);
        encode.mov_mem_to_reg(mem_reg, reg);
    }

    /// Lowers a store.
    fn gen_store(
        value_ptr: Value,
        value_to_store: Value,
        allocator: &mut X86_64Allocator,
        encode: &mut X86_64Encoder,
        Ghost(pre): Ghost<GenState>,
    )
        requires
            pre.alloc == old(allocator)@,
            old(allocator)@.inv(),
            pre.code == old(encode)@,
        ensures
            final(allocator)@.inv(),
            final(allocator)@ == pre.lower_store(value_ptr, value_to_store).alloc,
            final(encode)@ == pre.lower_store(value_ptr, value_to_store).code,
    {
        let reg = allocator.obtain_register_for_value(value_ptr);
        let value = allocator.obtain_register_for_value(value_to_store);
        encode.mov_reg_to_mem(value, reg);
    }

    /// Lowers an unconditional jump to `block`.
    fn gen_br(
        block: usize,
        encode: &mut X86_64Encoder,
        block_offsets: &mut Vec<BlockOffset>,
        Ghost(pre): Ghost<GenState>,
    )
        requires
            pre.code == old(encode)@,
            pre.relocs == old(block_offsets)@,
        ensures
            final(encode)@ == pre.lower_br(block).code,
            final(block_offsets)@ == pre.lower_br(block).relocs,
    {
        proof {
            lemma_le_bytes_len(0, 4);
        }
        let offset = BlockOffset { block, offset: encode.jmp() };
        block_offsets.push(offset);
    }

    /// Lowers a conditional jump.
    fn gen_cond_br(
        value_cond: Value,
        block_true: usize,
        block_false: usize,
        allocator: &mut X86_64Allocator,
        encode: &mut X86_64Encoder,
        block_offsets: &mut Vec<BlockOffset>,
        Ghost(pre): Ghost<GenState>,
    )
        requires
            pre.alloc == old(allocator)@,
            old(allocator)@.inv(),
            pre.code == old(encode)@,
            pre.relocs == old(block_offsets)@,
        ensures
            final(allocator)@.inv(),
            final(allocator)@ == pre.lower_cond_br(value_cond, block_true, block_false).alloc,
            final(encode)@ == pre.lower_cond_br(value_cond, block_true, block_false).code,
            final(block_offsets)@ == pre.lower_cond_br(value_cond, block_true, block_false).relocs,
    {
        proof {
            lemma_le_bytes_len(0, 4);
        }
        let cond_reg = allocator.obtain_register_for_value(value_cond);
        let true_offset = encode.cond_jmp(cond_reg);
        block_offsets.push(BlockOffset { block: block_false, offset: true_offset });
        let false_offset = encode.jmp();
        block_offsets.push(BlockOffset { block: block_true, offset: false_offset });
    }

    /// Lowers a return of `value`.
    fn gen_ret(
        value: Value,
        allocator: &mut X86_64Allocator,
        encode: &mut X86_64Encoder,
        Ghost(pre): Ghost<GenState>,
    )
        requires
            pre.alloc == old(allocator)@,
            old(allocator)@.inv(),
            pre.code == old(encode)@,
        ensures
            final(allocator)@.inv(),
            final(allocator)@ == pre.lower_ret(value).alloc,
            final(encode)@ == pre.lower_ret(value).code,
    {
        let reg_to_return = allocator.obtain_register_for_value(value);
        if value.get_type().is_float() {
            encode.mov_xmm_to_xmm(reg_to_return, X86Register::XMM0);
        } else {
            encode.mov_reg_to_reg(reg_to_return, X86Register::RAX);
        }
        encode.ret();
    }

    /// Emits what pops `regs_to_pop`, last pushed first.
    fn gen_pops(regs_to_pop: &Vec<X86Register>, encode: &mut X86_64Encoder)
        ensures
            final(encode)@ == old(encode)@ + bytes_pop_all(regs_to_pop@),
    {
        let mut k: usize = regs_to_pop.len();
        assert(regs_to_pop@.subrange(0, k as int) == regs_to_pop@);
        while k > 0
            invariant
                k <= regs_to_pop.len(),
                encode@ + bytes_pop_all(regs_to_pop@.subrange(0, k as int)) == old(encode)@
                    + bytes_pop_all(regs_to_pop@),
            decreases k,
        {
            let ghost upto = regs_to_pop@.subrange(0, k as int);
            let ghost emitted = encode@;
            k -= 1;
            encode.pop_reg(regs_to_pop[k]);
            proof {
                assert(upto.last() == regs_to_pop@[k as int]);
                assert(upto.drop_last() == regs_to_pop@.subrange(0, k as int));
                assert(encode@ + bytes_pop_all(upto.drop_last()) == emitted + (bytes_pop_reg(
                    upto.last(),
                ) + bytes_pop_all(upto.drop_last())));
            }
        }
        proof {
            assert(bytes_pop_all(regs_to_pop@.subrange(0, 0)) == Seq::<u8>::empty());
            assert(encode@ + Seq::<u8>::empty() == encode@);
        }
    }

    /// Lowers a call through a pointer.
    #[verifier::rlimit(50)]
    fn gen_call_ptr(
        &self,
        ptr_to_call: Value,
        args: &Vec<Value>,
        return_float: bool,
        gen_value: Value,
        allocator: &mut X86_64Allocator,
        encode: &mut X86_64Encoder,
        Ghost(pre): Ghost<GenState>,
    )
        requires
            pre.alloc == old(allocator)@,
            old(allocator)@.inv(),
            pre.code == old(encode)@,
            pre.can_marshal(CallerView::of(self.spec_convention()), ptr_to_call, args@),
        ensures
            final(allocator)@.inv(),
            final(allocator)@ == pre.lower_call_ptr(
                CallerView::of(self.spec_convention()),
                ptr_to_call,
                args@,
                return_float,
                gen_value,
            ).alloc,
            final(encode)@ == pre.lower_call_ptr(
                CallerView::of(self.spec_convention()),
                ptr_to_call,
                args@,
                return_float,
                gen_value,
            ).code,
    {
        let caller = X86_64Caller::new(self.convention);
        let call_reg = allocator.obtain_register_for_value(ptr_to_call);
        encode.mov_reg_to_reg(call_reg, X86Register::RAX);
        let regs_to_pop = caller.generate_call(encode, allocator, args);
        if caller.needs_shadow_space() {
            encode.push_shadow();
        }
        encode.call(X86Register::RAX);
        if caller.needs_shadow_space() {
            encode.pop_shadow();
        }
        Self::gen_pops(&regs_to_pop, encode);
        let ret_reg = allocator.obtain_register_for_value(gen_value);
        if return_float {
            encode.mov_xmm_to_xmm(X86Register::XMM0, ret_reg);
        } else {
            encode.mov_reg_to_reg(X86Register::RAX, ret_reg);
        }
    }

    /// Lowers one instruction of the function numbered `func_id`: registers
    /// are obtained from `allocator`, bytes are emitted through `encode`, a
    /// jump adds a relocation to `block_offsets`, and a call by name adds its
    /// site to `func_offsets`.
    #[verifier::rlimit(50)]
    pub fn gen_instr(
        &self,
        func_id: usize,
        instr: &Instr,
        allocator: &mut X86_64Allocator,
        encode: &mut X86_64Encoder,
        func_offsets: &mut Vec<FunctionOffset>,
        block_offsets: &mut Vec<BlockOffset>,
    )
        requires
            old(allocator)@.inv(),
            (GenState {
                alloc: old(allocator)@,
                code: old(encode)@,
                relocs: old(block_offsets)@,
                calls: old(func_offsets)@,
            }).can_lower(*instr, CallerView::of(self.spec_convention())),
        ensures
            final(allocator)@.inv(),
            ({
                let after = (GenState {
                    alloc: old(allocator)@,
                    code: old(encode)@,
                    relocs: old(block_offsets)@,
                    calls: old(func_offsets)@,
                }).lower(func_id, *instr, CallerView::of(self.spec_convention()));
                &&& final(allocator)@ == after.alloc
                &&& final(encode)@ == after.code
                &&& final(block_offsets)@ == after.relocs
                &&& final(func_offsets)@ == after.calls
            }),
    {
        let pre = Ghost(
            GenState {
                alloc: allocator@,
                code: encode@,
                relocs: block_offsets@,
                calls: func_offsets@,
            },
        );
        match instr {
            Instr::ConstInt128 { .. } => {},
            Instr::ConstInt64 { const_value, gen_value } => {
                Self::gen_const(*const_value, *gen_value, allocator, encode, pre);
            },
            Instr::ConstInt32 { const_value, gen_value } => {
                Self::gen_const(*const_value as i64, *gen_value, allocator, encode, pre);
            },
            Instr::ConstInt16 { const_value, gen_value } => {
                Self::gen_const(*const_value as i64, *gen_value, allocator, encode, pre);
            },
            Instr::ConstInt8 { const_value, gen_value } => {
                Self::gen_const(*const_value as i64, *gen_value, allocator, encode, pre);
            },
            Instr::ConstPtr { const_value, gen_value } => {
                Self::gen_const(
                    #[verifier::truncate]
                    (*const_value as i64),
                    *gen_value,
                    allocator,
                    encode,
                    pre,
                );
            },
            Instr::Add { left_value, right_value, gen_value } => {
                Self::gen_arith(
                    Arith::Add,
                    *left_value,
                    *right_value,
                    *gen_value,
                    allocator,
                    encode,
                    pre,
                );
            },
            Instr::Sub { left_value, right_value, gen_value } => {
                Self::gen_arith(
                    Arith::Sub,
                    *left_value,
                    *right_value,
                    *gen_value,
                    allocator,
                    encode,
                    pre,
                );
            },
            Instr::Div { left_value, right_value, gen_value } => {
                Self::gen_arith(
                    Arith::Div,
                    *left_value,
                    *right_value,
                    *gen_value,
                    allocator,
                    encode,
                    pre,
                );
            },
            Instr::Mul { left_value, right_value, gen_value } => {
                Self::gen_arith(
                    Arith::Mul,
                    *left_value,
                    *right_value,
                    *gen_value,
                    allocator,
                    encode,
                    pre,
                );
            },
            Instr::Eq { left_value, right_value, gen_value } => {
                Self::gen_compare(
                    Condition::Equal,
                    *left_value,
                    *right_value,
                    *gen_value,
                    allocator,
                    encode,
                    pre,
                );
            },
            Instr::Diff { left_value, right_value, gen_value } => {
                Self::gen_compare(
                    Condition::NotEqual,
                    *left_value,
                    *right_value,
                    *gen_value,
                    allocator,
                    encode,
                    pre,
                );
            },
            Instr::Larger { left_value, right_value, gen_value } => {
                Self::gen_compare(
                    Condition::Greater,
                    *left_value,
                    *right_value,
                    *gen_value,
                    allocator,
                    encode,
                    pre,
                );
            },
            Instr::LargerEq { left_value, right_value, gen_value } => {
                Self::gen_compare(
                    Condition::GreaterEqual,
                    *left_value,
                    *right_value,
                    *gen_value,
                    allocator,
                    encode,
                    pre,
                );
            },
            Instr::Smaller { left_value, right_value, gen_value } => {
                Self::gen_compare(
                    Condition::Less,
                    *left_value,
                    *right_value,
                    *gen_value,
                    allocator,
                    encode,
                    pre,
                );
            },
            Instr::SmallerEq { left_value, right_value, gen_value } => {
                Self::gen_compare(
                    Condition::LessEqual,
                    *left_value,
                    *right_value,
                    *gen_value,
                    allocator,
                    encode,
                    pre,
                );
            },
            Instr::Not { .. } => {},
            Instr::Load { value_to_load, gen_value } => {
                Self::gen_load(*value_to_load, *gen_value, allocator, encode, pre);
            },
            Instr::Store { value_ptr, value_to_store } => {
                Self::gen_store(*value_ptr, *value_to_store, allocator, encode, pre);
            },
            Instr::Br { block_to_br } => {
                Self::gen_br(block_to_br.get_id(), encode, block_offsets, pre);
            },
            Instr::CondBr { value_cond, block_to_br_true, block_to_br_false } => {
                Self::gen_cond_br(
                    *value_cond,
                    block_to_br_true.get_id(),
                    block_to_br_false.get_id(),
                    allocator,
                    encode,
                    block_offsets,
                    pre,
                );
            },
            Instr::CallPtr { ptr_to_call, args, return_type, gen_value } => {
                self.gen_call_ptr(
                    *ptr_to_call,
                    args,
                    return_type.is_float(),
                    *gen_value,
                    allocator,
                    encode,
                    pre,
                );
            },
            Instr::CallFunc { func_to_call, .. } => {
                let site = FunctionOffset {
                    func_name: func_to_call.clone(),
                    offset: encode.bytes().len(),
                    func_id,
                };
                func_offsets.push(site);
            },
            Instr::Ret { value_to_return } => {
                Self::gen_ret(*value_to_return, allocator, encode, pre);
            },
            Instr::RetVoid => {
                encode.ret();
            },
        }
    }
}

} // verus!
