//! The exact code of the simplest functions: one that returns a constant,
//! one that first jumps to the block that does, one that adds two constants,
//! and one that returns one of two constants after testing a third.

use vstd::prelude::*;
use crate::gen::x86_64::gen::{
    block_offsets,
    can_generate,
    displacement,
    emit_blocks,
    emit_instrs,
    generated_code,
    patch,
    BlockOffset,
    GenState,
};
use crate::gen::x86_64::x86_64_allocator::{
    initial_pool,
    lemma_first_free,
    lemma_initial_inv,
    other_than,
    AllocatorView,
    X86Register,
};
use crate::gen::x86_64::x86_64_caller::CallerView;
use crate::gen::x86_64::x86_64_encoder::{
    bytes_add_reg_reg,
    bytes_cond_jmp_to,
    bytes_jmp_to,
    bytes_mov_reg_to_reg,
    bytes_move_reg_i64,
    bytes_ret,
};
use crate::lang::block::Block;
use crate::lang::builder::BuilderView;
use crate::lang::instr::Instr;
use crate::lang::lang_type::Type;
use crate::lang::validate::{
    defined_before,
    defines_at,
    fault_at,
    in_range,
    operands,
    precedes,
    reads_undefined,
    well_formed,
};
use crate::lang::value::Value;
use crate::misc::byte_writer::{le_bytes, lemma_le_bytes_len, overwrite};

verus! {

/// The constant that an instruction of one of the four integer widths
/// materializes, widened to 64 bits.
pub open spec fn constant64(instr: Instr) -> i64 {
    match instr {
        Instr::ConstInt64 { const_value, .. } => const_value,
        Instr::ConstInt32 { const_value, .. } => const_value as i64,
        Instr::ConstInt16 { const_value, .. } => const_value as i64,
        Instr::ConstInt8 { const_value, .. } => const_value as i64,
        _ => 0,
    }
}

/// The constant that an instruction of one of the four integer widths
/// materializes.
pub open spec fn constant_of(instr: Instr) -> int {
    constant64(instr) as int
}

/// Whether `instr` materializes an integer constant of one of the four
/// widths as the value `value`.
pub open spec fn defines_constant(instr: Instr, value: Value) -> bool {
    match instr {
        Instr::ConstInt64 { gen_value, .. }
        | Instr::ConstInt32 { gen_value, .. }
        | Instr::ConstInt16 { gen_value, .. }
        | Instr::ConstInt8 { gen_value, .. } => gen_value == value,
        _ => false,
    }
}

/// The blocks of the function that materializes a constant and returns it.
pub open spec fn constant_blocks(instr: Instr, value: Value) -> Seq<Seq<Instr>> {
    seq![seq![instr, Instr::Ret { value_to_return: value }]]
}

/// The blocks of the function whose entry block only jumps to a second
/// block, which materializes a constant and returns it.
pub open spec fn jump_blocks(instr: Instr, value: Value) -> Seq<Seq<Instr>> {
    seq![
        seq![Instr::Br { block_to_br: Block { id: 1 } }],
        seq![instr, Instr::Ret { value_to_return: value }],
    ]
}

/// The blocks of the function that adds the values of `first` and `second`
/// and returns the sum.
pub open spec fn sum_blocks(
    first: Instr,
    left: Value,
    second: Instr,
    right: Value,
    sum: Value,
) -> Seq<Seq<Instr>> {
    seq![
        seq![
            first,
            second,
            Instr::Add { left_value: left, right_value: right, gen_value: sum },
            Instr::Ret { value_to_return: sum },
        ],
    ]
}

/// The blocks of the function that tests the value of `test`: where it is
/// not zero, control goes to block 1, which returns the value of `yes`;
/// where it is zero, to block 2, which returns the value of `no`.
pub open spec fn branch_blocks(
    test: Instr,
    tested: Value,
    yes: Instr,
    yes_value: Value,
    no: Instr,
    no_value: Value,
) -> Seq<Seq<Instr>> {
    seq![
        seq![
            test,
            Instr::CondBr {
                block_to_br_true: Block { id: 1 },
                block_to_br_false: Block { id: 2 },
                value_cond: tested,
            },
        ],
        seq![yes, Instr::Ret { value_to_return: yes_value }],
        seq![no, Instr::Ret { value_to_return: no_value }],
    ]
}

/// The code that returns the constant `c` through the register `reg`: the
/// move of `c` into `reg`, the move of `reg` into the accumulator, and the
/// return.
pub open spec fn return_through(reg: X86Register, c: i64) -> Seq<u8> {
    bytes_move_reg_i64(reg, c) + bytes_mov_reg_to_reg(reg, X86Register::RAX) + bytes_ret()
}

/// The code that returns the constant `c` through the first register of the
/// pool.
pub open spec fn constant_return_code(c: i64) -> Seq<u8> {
    return_through(X86Register::RCX, c)
}

/// The code of the function that adds the constants `c1` and `c2` and
/// returns the sum: the moves of the constants into the first two registers
/// of the pool, the move of the first into the third, the addition of the
/// second to the third, the move of the third into the accumulator, and the
/// return.
pub open spec fn sum_code(c1: i64, c2: i64) -> Seq<u8> {
    bytes_move_reg_i64(X86Register::RCX, c1) + bytes_move_reg_i64(X86Register::RDX, c2)
        + bytes_mov_reg_to_reg(X86Register::RCX, X86Register::RBP) + bytes_add_reg_reg(
        X86Register::RBP,
        X86Register::RDX,
    ) + bytes_mov_reg_to_reg(X86Register::RBP, X86Register::RAX) + bytes_ret()
}

/// The code of the function that tests the constant `c` and returns `a`
/// where `c` is not zero and `b` where it is: the move of `c` into the first
/// register of the pool, its comparison with zero, a jump over 19 bytes that
/// is taken where they are equal, a jump to the byte that follows it, the
/// code that returns `a` through the second register of the pool, and the
/// code that returns `b` through the third.
pub open spec fn branch_code(c: i64, a: i64, b: i64) -> Seq<u8> {
    bytes_move_reg_i64(X86Register::RCX, c) + bytes_cond_jmp_to(X86Register::RCX, 19)
        + bytes_jmp_to(0) + return_through(X86Register::RDX, a) + return_through(
        X86Register::RBP,
        b,
    )
}

/// A fresh builder on which a constant was materialized and returned holds
/// the blocks of the function that returns the constant.
pub proof fn lemma_builder_constant_blocks(instr: Instr, value: Value)
    requires
        defines_constant(instr, value),
    ensures
        BuilderView::fresh().mint(value.value_type).append(instr).append(
            Instr::Ret { value_to_return: value },
        ).instructions() == constant_blocks(instr, value),
{
    let built = BuilderView::fresh().mint(value.value_type).append(instr).append(
        Instr::Ret { value_to_return: value },
    );
    assert(built.blocks.len() == 1);
    assert(built.blocks[0].instructions =~= seq![instr, Instr::Ret { value_to_return: value }]);
    assert(built.instructions() =~= constant_blocks(instr, value));
}

/// The lengths of the pieces of which the codes below consist.
pub proof fn lemma_piece_lengths(reg: X86Register, other: X86Register, c: i64, d: int)
    ensures
        bytes_move_reg_i64(reg, c).len() == 10,
        reg != other ==> bytes_mov_reg_to_reg(reg, other).len() == 3,
        bytes_add_reg_reg(reg, other).len() == 3,
        bytes_cond_jmp_to(reg, d).len() == 10,
        bytes_jmp_to(d).len() == 5,
        bytes_ret().len() == 1,
        reg != X86Register::RAX ==> return_through(reg, c).len() == 14,
{
    lemma_le_bytes_len(c as int, 8);
    lemma_le_bytes_len(d, 4);
}

/// Taking the first register out of a pool without duplicates leaves the
/// rest of the pool in its order.
proof fn lemma_filter_head(pool: Seq<X86Register>)
    requires
        pool.len() > 0,
        pool.no_duplicates(),
    ensures
        pool.filter(other_than(pool[0])) == pool.subrange(1, pool.len() as int),
    decreases pool.len(),
{
    reveal(Seq::filter);
    let keep = other_than(pool[0]);
    if pool.len() == 1 {
        assert(pool.drop_last().filter(keep) =~= Seq::<X86Register>::empty());
        assert(pool.filter(keep) =~= pool.subrange(1, 1));
    } else {
        let front = pool.drop_last();
        assert(front[0] == pool[0]);
        lemma_filter_head(front);
        assert(pool.last() != pool[0]);
        assert(pool.filter(keep) == front.filter(keep).push(pool.last()));
        assert(front.subrange(1, front.len() as int).push(pool.last()) =~= pool.subrange(
            1,
            pool.len() as int,
        ));
    }
}

/// Whether `a` is the allocator after the first `taken` general-purpose
/// registers of the pool were handed out, in order, and no value was
/// refused.
pub open spec fn general_taken(a: AllocatorView, taken: int) -> bool {
    &&& 0 <= taken <= 13
    &&& a.free == initial_pool().subrange(taken, 29)
    &&& !a.exhausted
}

/// A fresh allocator has handed out nothing.
pub proof fn lemma_nothing_taken()
    ensures
        general_taken(AllocatorView::initial(), 0),
        initial_pool()[0] == X86Register::RCX,
        initial_pool()[1] == X86Register::RDX,
        initial_pool()[2] == X86Register::RBP,
{
    assert(initial_pool().subrange(0, 29) =~= initial_pool());
}

/// Where the first `taken` general-purpose registers are handed out, a value
/// of an integer type that has no register yet gets the next one of the pool.
pub proof fn lemma_next_general_register(a: AllocatorView, taken: int, value: Value)
    requires
        general_taken(a, taken),
        taken < 13,
        !value.value_type.spec_is_float(),
        !a.assigned.contains_key(value.id),
    ensures
        a.obtain_result(value) == initial_pool()[taken],
        a.allocate_result(value) == Some(initial_pool()[taken]),
        a.allocate(value) == a.obtain(value),
        general_taken(a.obtain(value), taken + 1),
        a.obtain(value).assigned == a.assigned.insert(value.id, initial_pool()[taken]),
{
    let pool = initial_pool();
    assert(a.free[0] == pool[taken]);
    assert(!pool[taken].spec_is_xmm());
    lemma_first_free(a, false, 0);
    assert(a.free.no_duplicates());
    lemma_filter_head(a.free);
    assert(a.free.subrange(1, a.free.len() as int) =~= pool.subrange(taken + 1, 29));
}

/// Lowering the materialization of an integer constant, where the first
/// `taken` general-purpose registers are handed out and the value has none
/// yet, emits the move of the constant into the next register of the pool.
pub proof fn lemma_constant_step(
    s: GenState,
    func_id: usize,
    instr: Instr,
    value: Value,
    conv: CallerView,
    taken: int,
)
    requires
        defines_constant(instr, value),
        !value.value_type.spec_is_float(),
        general_taken(s.alloc, taken),
        taken < 13,
        !s.alloc.assigned.contains_key(value.id),
    ensures
        s.lower(func_id, instr, conv).code == s.code + bytes_move_reg_i64(
            initial_pool()[taken],
            constant64(instr),
        ),
        s.lower(func_id, instr, conv).relocs == s.relocs,
        general_taken(s.lower(func_id, instr, conv).alloc, taken + 1),
        s.lower(func_id, instr, conv).alloc.assigned == s.alloc.assigned.insert(
            value.id,
            initial_pool()[taken],
        ),
{
    lemma_next_general_register(s.alloc, taken, value);
}

/// Lowering the return of an integer value that has a register emits the
/// move of that register into the accumulator and the return.
pub proof fn lemma_return_step(s: GenState, func_id: usize, value: Value, conv: CallerView)
    requires
        !value.value_type.spec_is_float(),
        s.alloc.assigned.contains_key(value.id),
    ensures
        s.lower(func_id, Instr::Ret { value_to_return: value }, conv).code == s.code
            + bytes_mov_reg_to_reg(s.alloc.assigned[value.id], X86Register::RAX) + bytes_ret(),
        s.lower(func_id, Instr::Ret { value_to_return: value }, conv).relocs == s.relocs,
        s.lower(func_id, Instr::Ret { value_to_return: value }, conv).alloc == s.alloc,
{
}

/// Lowering a conditional jump on a value that has a register emits the
/// comparison of the register with zero and the jump that is taken where
/// they are equal, with a relocation to the block of the false branch, and
/// the jump behind it, with a relocation to the block of the true branch.
pub proof fn lemma_cond_br_step(
    s: GenState,
    func_id: usize,
    cond: Value,
    block_true: Block,
    block_false: Block,
    conv: CallerView,
)
    requires
        s.alloc.assigned.contains_key(cond.id),
        s.code.len() + 15 <= usize::MAX,
    ensures
        ({
            let after = s.lower(
                func_id,
                Instr::CondBr {
                    block_to_br_true: block_true,
                    block_to_br_false: block_false,
                    value_cond: cond,
                },
                conv,
            );
            &&& after.code == s.code + bytes_cond_jmp_to(s.alloc.assigned[cond.id], 0)
                + bytes_jmp_to(0)
            &&& after.relocs == s.relocs.push(
                BlockOffset { offset: (s.code.len() + 6) as usize, block: block_false.id },
            ).push(BlockOffset { offset: (s.code.len() + 11) as usize, block: block_true.id })
            &&& after.alloc == s.alloc
        }),
{
    lemma_le_bytes_len(0, 4);
}

/// Writing a displacement into the field of a jump: the field that ends
/// `head` is overwritten.
#[verifier::rlimit(50)]
proof fn lemma_field_written(
    pre: Seq<u8>,
    opcode: Seq<u8>,
    post: Seq<u8>,
    before: int,
    after: int,
)
    ensures
        overwrite(
            pre + (opcode + le_bytes(before, 4)) + post,
            (pre.len() + opcode.len()) as int,
            le_bytes(after, 4),
        ) == pre + (opcode + le_bytes(after, 4)) + post,
{
    lemma_le_bytes_len(before, 4);
    lemma_le_bytes_len(after, 4);
    let old_code = pre + (opcode + le_bytes(before, 4)) + post;
    let new_code = pre + (opcode + le_bytes(after, 4)) + post;
    let at: int = (pre.len() + opcode.len()) as int;
    let written = overwrite(old_code, at, le_bytes(after, 4));
    assert(written.len() == new_code.len());
    assert forall|j: int| 0 <= j < written.len() implies written[j] == new_code[j] by {
        if j < at {
            assert(written[j] == old_code[j]);
        } else if j < at + 4 {
            assert(written[j] == le_bytes(after, 4)[j - at]);
        } else {
            assert(written[j] == old_code[j]);
            assert(old_code[j] == post[j - at - 4]);
        }
    }
    assert(written =~= new_code);
}

/// The block "materialize a constant, return it" has no fault where it
/// stands, whatever comes before it.
proof fn lemma_constant_block_faultless(
    blocks: Seq<Seq<Instr>>,
    b: int,
    instr: Instr,
    value: Value,
)
    requires
        0 <= b < blocks.len(),
        defines_constant(instr, value),
        blocks[b] == seq![instr, Instr::Ret { value_to_return: value }],
    ensures
        fault_at(blocks, b, 0) is None,
        fault_at(blocks, b, 1) is None,
{
    assert(operands(blocks[b][0]).len() == 0);
    assert(operands(blocks[b][1]) =~= seq![value]);
    assert(precedes(b, 0, b, 1) && defines_at(blocks, b, 0, value));
    assert(defined_before(blocks, b, 1, value));
    assert(!reads_undefined(blocks, b, 1)) by {
        if reads_undefined(blocks, b, 1) {
            let i = choose|i: int|
                0 <= i < operands(blocks[b][1]).len() && !defined_before(
                    blocks,
                    b,
                    1,
                    #[trigger] operands(blocks[b][1])[i],
                );
            assert(operands(blocks[b][1])[i] == value);
        }
    }
}

/// A function whose entry block materializes an integer constant of any of
/// the four widths and returns it can be generated and has, for every value
/// of the constant, the code that returns that constant.
#[verifier::rlimit(50)]
pub proof fn lemma_constant_function_code(
    func_id: usize,
    instr: Instr,
    value: Value,
    conv: CallerView,
)
    requires
        defines_constant(instr, value),
        !value.value_type.spec_is_float(),
    ensures
        can_generate(func_id, constant_blocks(instr, value), conv),
        generated_code(func_id, constant_blocks(instr, value), conv) == constant_return_code(
            constant64(instr),
        ),
{
    let blocks = constant_blocks(instr, value);
    let start = GenState::initial();
    lemma_nothing_taken();
    reveal_with_fuel(emit_blocks, 2);
    reveal_with_fuel(emit_instrs, 3);
    let s1 = start.lower(func_id, instr, conv);
    lemma_constant_step(start, func_id, instr, value, conv, 0);
    let s2 = s1.lower(func_id, Instr::Ret { value_to_return: value }, conv);
    lemma_return_step(s1, func_id, value, conv);
    let emitted = emit_blocks(func_id, blocks, 1, conv);
    assert(emitted == s2);
    assert(emitted.code =~= constant_return_code(constant64(instr)));
    assert(emitted.relocs.len() == 0);
    assert(well_formed(blocks)) by {
        lemma_constant_block_faultless(blocks, 0, instr, value);
        assert forall|b: int, k: int| in_range(blocks, b, k) implies (#[trigger] fault_at(
            blocks,
            b,
            k,
        )) is None by {
            assert(b == 0 && (k == 0 || k == 1));
        }
    }
}

/// Relocation at work.  A function whose entry block only jumps to a second
/// block, which returns a constant, can be generated and has the code of
/// the function that returns the constant at once, behind a jump with
/// displacement 0: the jump leads to the byte that follows it.
#[verifier::rlimit(50)]
pub proof fn lemma_jump_function_code(func_id: usize, instr: Instr, value: Value, conv: CallerView)
    requires
        defines_constant(instr, value),
        !value.value_type.spec_is_float(),
    ensures
        can_generate(func_id, jump_blocks(instr, value), conv),
        generated_code(func_id, jump_blocks(instr, value), conv) == bytes_jmp_to(0)
            + generated_code(func_id, constant_blocks(instr, value), conv),
        block_offsets(func_id, jump_blocks(instr, value), conv) == seq![0usize, 5usize],
{
    let blocks = jump_blocks(instr, value);
    let start = GenState::initial();
    let tail = constant_return_code(constant64(instr));
    lemma_constant_function_code(func_id, instr, value, conv);
    lemma_nothing_taken();
    lemma_le_bytes_len(0, 4);
    reveal_with_fuel(emit_blocks, 3);
    reveal_with_fuel(emit_instrs, 3);
    reveal_with_fuel(patch, 2);
    let after_jump = emit_blocks(func_id, blocks, 1, conv);
    assert(after_jump == emit_instrs(start, func_id, blocks[0], 1, conv));
    assert(after_jump.code =~= bytes_jmp_to(0));
    assert(after_jump.relocs =~= seq![BlockOffset { offset: 1, block: 1 }]);
    assert(after_jump.alloc == AllocatorView::initial());
    let s1 = after_jump.lower(func_id, instr, conv);
    lemma_constant_step(after_jump, func_id, instr, value, conv, 0);
    let s2 = s1.lower(func_id, Instr::Ret { value_to_return: value }, conv);
    lemma_return_step(s1, func_id, value, conv);
    let emitted = emit_blocks(func_id, blocks, 2, conv);
    assert(emitted == s2);
    assert(emitted.code =~= after_jump.code + tail);
    assert(emitted.relocs == after_jump.relocs);
    let offsets = block_offsets(func_id, blocks, conv);
    assert(emit_blocks(func_id, blocks, 0, conv).code.len() == 0);
    assert(offsets =~= seq![0usize, 5usize]);
    assert(displacement(5, 1) == 0);
    let code = generated_code(func_id, blocks, conv);
    assert(code == overwrite(emitted.code, 1, le_bytes(0, 4)));
    lemma_field_written(Seq::empty(), seq![0xE9u8], tail, 0, 0);
    assert(emitted.code =~= Seq::<u8>::empty() + (seq![0xE9u8] + le_bytes(0, 4)) + tail);
    assert(code =~= bytes_jmp_to(0) + tail);
    assert(well_formed(blocks)) by {
        lemma_constant_block_faultless(blocks, 1, instr, value);
        assert(operands(blocks[0][0]).len() == 0);
        assert forall|b: int, k: int| in_range(blocks, b, k) implies (#[trigger] fault_at(
            blocks,
            b,
            k,
        )) is None by {
            assert((b == 0 && k == 0) || (b == 1 && (k == 0 || k == 1)));
        }
    }
}

/// A function that adds two integer constants of one type and returns the
/// sum can be generated and has, whatever the constants are, the code
/// `sum_code`.
#[verifier::rlimit(50)]
pub proof fn lemma_sum_function_code(
    func_id: usize,
    first: Instr,
    left: Value,
    second: Instr,
    right: Value,
    sum: Value,
    conv: CallerView,
)
    requires
        defines_constant(first, left),
        defines_constant(second, right),
        left.value_type == right.value_type,
        !left.value_type.spec_is_float(),
        !sum.value_type.spec_is_float(),
        left.id != right.id,
        left.id != sum.id,
        right.id != sum.id,
    ensures
        can_generate(func_id, sum_blocks(first, left, second, right, sum), conv),
        generated_code(func_id, sum_blocks(first, left, second, right, sum), conv) == sum_code(
            constant64(first),
            constant64(second),
        ),
{
    let blocks = sum_blocks(first, left, second, right, sum);
    let start = GenState::initial();
    lemma_nothing_taken();
    reveal_with_fuel(emit_blocks, 2);
    reveal_with_fuel(emit_instrs, 5);
    let s1 = start.lower(func_id, first, conv);
    lemma_constant_step(start, func_id, first, left, conv, 0);
    let s2 = s1.lower(func_id, second, conv);
    lemma_constant_step(s1, func_id, second, right, conv, 1);
    let add = Instr::Add { left_value: left, right_value: right, gen_value: sum };
    let s3 = s2.lower(func_id, add, conv);
    lemma_next_general_register(s2.alloc, 2, sum);
    assert(s2.reg(left) == X86Register::RCX);
    assert(s2.obtain(left) == s2);
    assert(s2.reg(right) == X86Register::RDX);
    assert(s2.obtain(right) == s2);
    assert(s2.result_reg(sum) == X86Register::RBP);
    assert(s3.code == s2.code + bytes_mov_reg_to_reg(X86Register::RCX, X86Register::RBP)
        + bytes_add_reg_reg(X86Register::RBP, X86Register::RDX));
    assert(s3.alloc.assigned.contains_key(sum.id));
    assert(s3.relocs == s2.relocs);
    assert(!s3.alloc.exhausted);
    let s4 = s3.lower(func_id, Instr::Ret { value_to_return: sum }, conv);
    lemma_return_step(s3, func_id, sum, conv);
    let emitted = emit_blocks(func_id, blocks, 1, conv);
    assert(emitted == s4);
    assert(s4.code =~= sum_code(constant64(first), constant64(second)));
    assert(emitted.relocs.len() == 0);
    assert(well_formed(blocks)) by {
        lemma_sum_block_faultless(first, left, second, right, sum);
    }
}

/// The instructions of the adding function are well-formed.
proof fn lemma_sum_block_faultless(
    first: Instr,
    left: Value,
    second: Instr,
    right: Value,
    sum: Value,
)
    requires
        defines_constant(first, left),
        defines_constant(second, right),
        left.value_type == right.value_type,
    ensures
        well_formed(sum_blocks(first, left, second, right, sum)),
{
    let blocks = sum_blocks(first, left, second, right, sum);
    assert(operands(blocks[0][0]).len() == 0);
    assert(operands(blocks[0][1]).len() == 0);
    assert(operands(blocks[0][2]) =~= seq![left, right]);
    assert(operands(blocks[0][3]) =~= seq![sum]);
    assert(precedes(0, 0, 0, 2) && defines_at(blocks, 0, 0, left));
    assert(precedes(0, 1, 0, 2) && defines_at(blocks, 0, 1, right));
    assert(precedes(0, 2, 0, 3) && defines_at(blocks, 0, 2, sum));
    assert(defined_before(blocks, 0, 2, left));
    assert(defined_before(blocks, 0, 2, right));
    assert(defined_before(blocks, 0, 3, sum));
    assert(!reads_undefined(blocks, 0, 2)) by {
        if reads_undefined(blocks, 0, 2) {
            let i = choose|i: int|
                0 <= i < operands(blocks[0][2]).len() && !defined_before(
                    blocks,
                    0,
                    2,
                    #[trigger] operands(blocks[0][2])[i],
                );
            assert(i == 0 || i == 1);
        }
    }
    assert(!reads_undefined(blocks, 0, 3)) by {
        if reads_undefined(blocks, 0, 3) {
            let i = choose|i: int|
                0 <= i < operands(blocks[0][3]).len() && !defined_before(
                    blocks,
                    0,
                    3,
                    #[trigger] operands(blocks[0][3])[i],
                );
            assert(i == 0);
        }
    }
    assert forall|b: int, k: int| in_range(blocks, b, k) implies (#[trigger] fault_at(
        blocks,
        b,
        k,
    )) is None by {
        assert(b == 0 && (k == 0 || k == 1 || k == 2 || k == 3));
    }
}

/// What lowering the three blocks of the branching function emits before
/// the jumps are resolved.
#[verifier::rlimit(50)]
proof fn lemma_branch_emitted(
    func_id: usize,
    test: Instr,
    tested: Value,
    yes: Instr,
    yes_value: Value,
    no: Instr,
    no_value: Value,
    conv: CallerView,
)
    requires
        defines_constant(test, tested),
        defines_constant(yes, yes_value),
        defines_constant(no, no_value),
        !tested.value_type.spec_is_float(),
        !yes_value.value_type.spec_is_float(),
        !no_value.value_type.spec_is_float(),
        tested.id != yes_value.id,
        tested.id != no_value.id,
        yes_value.id != no_value.id,
    ensures
        ({
            let blocks = branch_blocks(test, tested, yes, yes_value, no, no_value);
            let head = bytes_move_reg_i64(X86Register::RCX, constant64(test)) + bytes_cond_jmp_to(
                X86Register::RCX,
                0,
            ) + bytes_jmp_to(0);
            &&& emit_blocks(func_id, blocks, 1, conv).code == head
            &&& emit_blocks(func_id, blocks, 2, conv).code == head + return_through(
                X86Register::RDX,
                constant64(yes),
            )
            &&& emit_blocks(func_id, blocks, 3, conv).code == head + return_through(
                X86Register::RDX,
                constant64(yes),
            ) + return_through(X86Register::RBP, constant64(no))
            &&& emit_blocks(func_id, blocks, 3, conv).relocs == seq![
                BlockOffset { offset: 16, block: 2 },
                BlockOffset { offset: 21, block: 1 },
            ]
            &&& !emit_blocks(func_id, blocks, 3, conv).alloc.exhausted
        }),
{
    let blocks = branch_blocks(test, tested, yes, yes_value, no, no_value);
    let start = GenState::initial();
    let jump = Instr::CondBr {
        block_to_br_true: Block { id: 1 },
        block_to_br_false: Block { id: 2 },
        value_cond: tested,
    };
    lemma_nothing_taken();
    lemma_le_bytes_len(constant64(test) as int, 8);
    reveal_with_fuel(emit_blocks, 4);
    reveal_with_fuel(emit_instrs, 3);
    let s1 = start.lower(func_id, test, conv);
    lemma_constant_step(start, func_id, test, tested, conv, 0);
    assert(s1.code =~= bytes_move_reg_i64(X86Register::RCX, constant64(test)));
    let s2 = s1.lower(func_id, jump, conv);
    lemma_cond_br_step(s1, func_id, tested, Block { id: 1 }, Block { id: 2 }, conv);
    let head = bytes_move_reg_i64(X86Register::RCX, constant64(test)) + bytes_cond_jmp_to(
        X86Register::RCX,
        0,
    ) + bytes_jmp_to(0);
    assert(s2.code =~= head);
    assert(s2.relocs =~= seq![
        BlockOffset { offset: 16, block: 2 },
        BlockOffset { offset: 21, block: 1 },
    ]);
    assert(emit_blocks(func_id, blocks, 1, conv) == s2);
    let s3 = s2.lower(func_id, yes, conv);
    lemma_constant_step(s2, func_id, yes, yes_value, conv, 1);
    let s4 = s3.lower(func_id, Instr::Ret { value_to_return: yes_value }, conv);
    lemma_return_step(s3, func_id, yes_value, conv);
    assert(s4.code =~= head + return_through(X86Register::RDX, constant64(yes)));
    assert(emit_blocks(func_id, blocks, 2, conv) == s4);
    let s5 = s4.lower(func_id, no, conv);
    lemma_constant_step(s4, func_id, no, no_value, conv, 2);
    let s6 = s5.lower(func_id, Instr::Ret { value_to_return: no_value }, conv);
    lemma_return_step(s5, func_id, no_value, conv);
    assert(s6.code =~= head + return_through(X86Register::RDX, constant64(yes)) + return_through(
        X86Register::RBP,
        constant64(no),
    ));
    assert(emit_blocks(func_id, blocks, 3, conv) == s6);
}

/// The instructions of the branching function are well-formed.
proof fn lemma_branch_blocks_faultless(
    test: Instr,
    tested: Value,
    yes: Instr,
    yes_value: Value,
    no: Instr,
    no_value: Value,
)
    requires
        defines_constant(test, tested),
        defines_constant(yes, yes_value),
        defines_constant(no, no_value),
    ensures
        well_formed(branch_blocks(test, tested, yes, yes_value, no, no_value)),
{
    let blocks = branch_blocks(test, tested, yes, yes_value, no, no_value);
    lemma_constant_block_faultless(blocks, 1, yes, yes_value);
    lemma_constant_block_faultless(blocks, 2, no, no_value);
    assert(operands(blocks[0][0]).len() == 0);
    assert(operands(blocks[0][1]) =~= seq![tested]);
    assert(precedes(0, 0, 0, 1) && defines_at(blocks, 0, 0, tested));
    assert(defined_before(blocks, 0, 1, tested));
    assert(!reads_undefined(blocks, 0, 1)) by {
        if reads_undefined(blocks, 0, 1) {
            let i = choose|i: int|
                0 <= i < operands(blocks[0][1]).len() && !defined_before(
                    blocks,
                    0,
                    1,
                    #[trigger] operands(blocks[0][1])[i],
                );
            assert(i == 0);
        }
    }
    assert forall|b: int, k: int| in_range(blocks, b, k) implies (#[trigger] fault_at(
        blocks,
        b,
        k,
    )) is None by {
        assert((b == 0 || b == 1 || b == 2) && (k == 0 || k == 1));
    }
}

/// Two functions that differ only in the constant they test have codes that
/// differ only in that constant: whatever the three constants are, the
/// function can be generated and its code is `branch_code`.  In it the jump
/// that is taken where the tested value is zero leads to the block of the
/// false branch, and the jump behind it to the block of the true branch.
#[verifier::rlimit(50)]
pub proof fn lemma_branch_function_code(
    func_id: usize,
    test: Instr,
    tested: Value,
    yes: Instr,
    yes_value: Value,
    no: Instr,
    no_value: Value,
    conv: CallerView,
)
    requires
        defines_constant(test, tested),
        defines_constant(yes, yes_value),
        defines_constant(no, no_value),
        !tested.value_type.spec_is_float(),
        !yes_value.value_type.spec_is_float(),
        !no_value.value_type.spec_is_float(),
        tested.id != yes_value.id,
        tested.id != no_value.id,
        yes_value.id != no_value.id,
    ensures
        can_generate(func_id, branch_blocks(test, tested, yes, yes_value, no, no_value), conv),
        generated_code(
            func_id,
            branch_blocks(test, tested, yes, yes_value, no, no_value),
            conv,
        ) == branch_code(constant64(test), constant64(yes), constant64(no)),
        block_offsets(func_id, branch_blocks(test, tested, yes, yes_value, no, no_value), conv)
            == seq![0usize, 25usize, 39usize],
{
    let blocks = branch_blocks(test, tested, yes, yes_value, no, no_value);
    let c = constant64(test);
    let a = constant64(yes);
    let b = constant64(no);
    lemma_branch_emitted(func_id, test, tested, yes, yes_value, no, no_value, conv);
    lemma_branch_blocks_faultless(test, tested, yes, yes_value, no, no_value);
    lemma_piece_lengths(X86Register::RCX, X86Register::RAX, c, 0);
    lemma_piece_lengths(X86Register::RDX, X86Register::RAX, a, 0);
    lemma_piece_lengths(X86Register::RBP, X86Register::RAX, b, 19);
    let emitted = emit_blocks(func_id, blocks, 3, conv);
    let offsets = block_offsets(func_id, blocks, conv);
    assert(emit_blocks(func_id, blocks, 0, conv).code.len() == 0);
    assert(offsets =~= seq![0usize, 25usize, 39usize]);
    assert(displacement(39, 16) == 19);
    assert(displacement(25, 21) == 0);
    reveal_with_fuel(patch, 3);
    let mov = bytes_move_reg_i64(X86Register::RCX, c);
    let test_op = seq![
        crate::gen::x86_64::x86_64_encoder::rex_w(0, X86Register::RCX.spec_encode()),
        0x83u8,
        0xF8u8 | (X86Register::RCX.spec_encode() & 7),
        0x00u8,
        0x0Fu8,
        0x84u8,
    ];
    let tail = return_through(X86Register::RDX, a) + return_through(X86Register::RBP, b);
    let once = overwrite(emitted.code, 16, le_bytes(19, 4));
    assert(emitted.code =~= mov + (test_op + le_bytes(0, 4)) + (bytes_jmp_to(0) + tail));
    lemma_field_written(mov, test_op, bytes_jmp_to(0) + tail, 0, 19);
    assert(once == mov + (test_op + le_bytes(19, 4)) + (bytes_jmp_to(0) + tail));
    let pre = mov + bytes_cond_jmp_to(X86Register::RCX, 19);
    assert(once =~= pre + (seq![0xE9u8] + le_bytes(0, 4)) + tail);
    lemma_field_written(pre, seq![0xE9u8], tail, 0, 0);
    assert(generated_code(func_id, blocks, conv) == overwrite(once, 21, le_bytes(0, 4)));
    assert(branch_code(c, a, b) =~= pre + (seq![0xE9u8] + le_bytes(0, 4)) + tail);
}

} // verus!
