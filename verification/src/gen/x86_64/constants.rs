//! Functions that materialize any number of constants, up to the number of
//! general-purpose registers in the pool, and return one of them: their
//! code, and what they return on the model of the processor.

use vstd::prelude::*;
use crate::gen::x86_64::code_shapes::{
    constant64,
    defines_constant,
    general_taken,
    lemma_constant_step,
    lemma_nothing_taken,
    lemma_piece_lengths,
    lemma_return_step,
};
use crate::gen::x86_64::gen::{can_generate, emit_blocks, emit_instrs, generated_code, GenState};
use crate::gen::x86_64::machine::{
    at_entry,
    bits64,
    general,
    has_at,
    lemma_has_all,
    lemma_piece_within,
    lemma_run_after_steps,
    lemma_signed_bits,
    lemma_step_mov,
    lemma_step_move_imm,
    lemma_step_ret,
    lemma_steps_after_steps,
    run,
    signed64,
    step,
    steps,
    Machine,
};
use crate::gen::x86_64::x86_64_allocator::{initial_pool, lemma_encode_injective, X86Register};
use crate::gen::x86_64::x86_64_caller::CallerView;
use crate::gen::x86_64::x86_64_encoder::{bytes_mov_reg_to_reg, bytes_move_reg_i64, bytes_ret};
use crate::lang::instr::Instr;
use crate::lang::validate::{
    defined_before,
    defines_at,
    fault_at,
    in_range,
    operands,
    precedes,
    reads_undefined,
    well_formed,
};
use crate::lang::value::Value;

verus! {

/// Whether `consts` are materializations of integer constants, the `i`th of
/// them as `values[i]`, no two as values of one id, and no more of them than
/// the pool has general-purpose registers.
pub open spec fn are_constants(consts: Seq<Instr>, values: Seq<Value>) -> bool {
    &&& consts.len() == values.len()
    &&& consts.len() <= 13
    &&& forall|i: int|
        0 <= i < consts.len() ==> defines_constant(#[trigger] consts[i], values[i])
            && !values[i].value_type.spec_is_float()
    &&& forall|i: int, k: int|
        0 <= i < values.len() && 0 <= k < values.len() && i != k ==> (#[trigger] values[i]).id != (
        #[trigger] values[k]).id
}

/// The blocks of the function that materializes `consts` and returns
/// `returned`.
pub open spec fn constants_blocks(consts: Seq<Instr>, returned: Value) -> Seq<Seq<Instr>> {
    seq![consts.push(Instr::Ret { value_to_return: returned })]
}

/// The moves of the first `n` of the constants, each into the register of
/// the pool at its position.
pub open spec fn constant_moves(consts: Seq<Instr>, n: nat) -> Seq<u8>
    decreases n,
{
    if n == 0 {
        Seq::empty()
    } else {
        constant_moves(consts, (n - 1) as nat) + bytes_move_reg_i64(
            initial_pool()[n - 1],
            constant64(consts[n - 1]),
        )
    }
}

/// The code of the function that materializes `consts` and returns the
/// `j`th of them: the moves, the move of the `j`th register of the pool into
/// the accumulator, and the return.
pub open spec fn constants_code(consts: Seq<Instr>, j: int) -> Seq<u8> {
    constant_moves(consts, consts.len()) + bytes_mov_reg_to_reg(initial_pool()[j], X86Register::RAX)
        + bytes_ret()
}

/// The moves of `n` constants are `10 * n` bytes.
pub proof fn lemma_moves_len(consts: Seq<Instr>, n: nat)
    ensures
        constant_moves(consts, n).len() == 10 * n,
    decreases n,
{
    if n > 0 {
        lemma_moves_len(consts, (n - 1) as nat);
        lemma_piece_lengths(initial_pool()[n - 1], X86Register::RAX, constant64(consts[n - 1]), 0);
    }
}

/// What lowering the first `n` constants emits and assigns.
#[verifier::rlimit(50)]
proof fn lemma_constants_emitted(
    func_id: usize,
    consts: Seq<Instr>,
    values: Seq<Value>,
    body: Seq<Instr>,
    n: nat,
    conv: CallerView,
)
    requires
        are_constants(consts, values),
        n <= consts.len(),
        body.len() > consts.len(),
        forall|i: int| 0 <= i < consts.len() ==> body[i] == consts[i],
    ensures
        ({
            let st = emit_instrs(GenState::initial(), func_id, body, n, conv);
            &&& st.code == constant_moves(consts, n)
            &&& st.relocs.len() == 0
            &&& general_taken(st.alloc, n as int)
            &&& forall|k: int|
                0 <= k < n ==> st.alloc.assigned.contains_key((#[trigger] values[k]).id)
                    && st.alloc.assigned[values[k].id] == initial_pool()[k]
            &&& forall|id: usize|
                st.alloc.assigned.contains_key(id) ==> exists|k: int|
                    0 <= k < n && (#[trigger] values[k]).id == id
        }),
    decreases n,
{
    if n == 0 {
        lemma_nothing_taken();
    } else {
        lemma_constants_emitted(func_id, consts, values, body, (n - 1) as nat, conv);
        let before = emit_instrs(GenState::initial(), func_id, body, (n - 1) as nat, conv);
        let value = values[n - 1];
        assert(!before.alloc.assigned.contains_key(value.id)) by {
            if before.alloc.assigned.contains_key(value.id) {
                let k = choose|k: int| 0 <= k < n - 1 && (#[trigger] values[k]).id == value.id;
                assert(values[k].id != values[n - 1].id);
            }
        }
        assert(defines_constant(consts[n - 1], values[n - 1]));
        lemma_constant_step(before, func_id, consts[n - 1], value, conv, n - 1);
        let st = emit_instrs(GenState::initial(), func_id, body, n, conv);
        assert(st == before.lower(func_id, body[n - 1], conv));
        assert forall|k: int| 0 <= k < n implies st.alloc.assigned.contains_key(
            (#[trigger] values[k]).id,
        ) && st.alloc.assigned[values[k].id] == initial_pool()[k] by {
            if k < n - 1 {
                assert(values[k].id != values[n - 1].id);
            }
        }
        assert forall|id: usize| st.alloc.assigned.contains_key(id) implies exists|k: int|
            0 <= k < n && (#[trigger] values[k]).id == id by {
            if id == value.id {
                assert(values[n - 1].id == id);
            } else {
                assert(before.alloc.assigned.contains_key(id));
                let k = choose|k: int| 0 <= k < n - 1 && (#[trigger] values[k]).id == id;
                assert(values[k].id == id);
            }
        }
    }
}

/// A function that materializes any constants and returns one of them can
/// be generated, and its code consists of the moves of the constants, the
/// move of the returned one's register into the accumulator, and the return.
#[verifier::rlimit(50)]
pub proof fn lemma_constants_function_code(
    func_id: usize,
    consts: Seq<Instr>,
    values: Seq<Value>,
    j: int,
    conv: CallerView,
)
    requires
        are_constants(consts, values),
        0 <= j < consts.len(),
    ensures
        can_generate(func_id, constants_blocks(consts, values[j]), conv),
        generated_code(func_id, constants_blocks(consts, values[j]), conv) == constants_code(
            consts,
            j,
        ),
{
    let ret = Instr::Ret { value_to_return: values[j] };
    let body = consts.push(ret);
    let blocks = constants_blocks(consts, values[j]);
    let n = consts.len();
    lemma_constants_emitted(func_id, consts, values, body, n, conv);
    let st = emit_instrs(GenState::initial(), func_id, body, n, conv);
    lemma_return_step(st, func_id, values[j], conv);
    reveal_with_fuel(emit_blocks, 2);
    reveal_with_fuel(emit_instrs, 2);
    let emitted = emit_blocks(func_id, blocks, 1, conv);
    assert(emitted == emit_instrs(GenState::initial(), func_id, body, (n + 1) as nat, conv));
    assert(emitted == st.lower(func_id, body[n as int], conv));
    assert(emitted.relocs.len() == 0);
    assert(emitted.alloc == st.alloc);
    assert(well_formed(blocks)) by {
        assert forall|b: int, k: int| in_range(blocks, b, k) implies (#[trigger] fault_at(
            blocks,
            b,
            k,
        )) is None by {
            assert(b == 0);
            if k < n {
                assert(blocks[0][k] == consts[k]);
                assert(defines_constant(consts[k], values[k]));
                assert(operands(blocks[0][k]).len() == 0);
            } else {
                assert(blocks[0][k] == ret);
                assert(operands(blocks[0][k]) =~= seq![values[j]]);
                assert(blocks[0][j] == consts[j]);
                assert(defines_constant(consts[j], values[j]));
                assert(precedes(0, j, 0, k) && defines_at(blocks, 0, j, values[j]));
                assert(defined_before(blocks, 0, k, values[j]));
                if reads_undefined(blocks, 0, k) {
                    let i = choose|i: int|
                        0 <= i < operands(blocks[0][k]).len() && !defined_before(
                            blocks,
                            0,
                            k,
                            #[trigger] operands(blocks[0][k])[i],
                        );
                    assert(i == 0);
                }
            }
        }
    }
}

/// Whether the first `n` registers of the pool hold the 64 bits of the
/// first `n` constants.
pub open spec fn holds_constants(regs: Seq<int>, consts: Seq<Instr>, n: int) -> bool {
    forall|k: int|
        0 <= k < n ==> regs[(#[trigger] initial_pool()[k]).spec_encode() as int] == bits64(
            constant64(consts[k]) as int,
        )
}

/// The moves of the first `n` constants leave each in its register.
#[verifier::rlimit(50)]
proof fn lemma_moves_run(code: Seq<u8>, m: Machine, consts: Seq<Instr>, n: nat)
    requires
        m.regs.len() == 16,
        n <= consts.len(),
        consts.len() <= 13,
        has_at(code, m.pc, constant_moves(consts, n)),
    ensures
        steps(code, m, n) is Some,
        steps(code, m, n)->0.pc == m.pc + 10 * n,
        steps(code, m, n)->0.regs.len() == 16,
        holds_constants(steps(code, m, n)->0.regs, consts, n as int),
    decreases n,
{
    if n > 0 {
        let front = constant_moves(consts, (n - 1) as nat);
        let reg = initial_pool()[n - 1];
        let last = bytes_move_reg_i64(reg, constant64(consts[n - 1]));
        lemma_moves_len(consts, (n - 1) as nat);
        lemma_piece_within(code, m.pc, front + last, Seq::empty(), front, last);
        lemma_piece_within(code, m.pc, front + last, front, last, Seq::empty());
        lemma_moves_run(code, m, consts, (n - 1) as nat);
        let mid = steps(code, m, (n - 1) as nat)->0;
        assert(general(reg));
        lemma_step_move_imm(code, mid, reg, constant64(consts[n - 1]));
        let end = step(code, mid)->Next_0;
        assert(steps(code, mid, 1) == Some(end)) by {
            reveal_with_fuel(steps, 2);
        }
        lemma_steps_after_steps(code, m, (n - 1) as nat, mid, 1);
        assert forall|k: int| 0 <= k < n implies end.regs[(
        #[trigger] initial_pool()[k]).spec_encode() as int] == bits64(
            constant64(consts[k]) as int,
        ) by {
            if k < n - 1 {
                lemma_encode_injective(initial_pool()[k], reg);
                assert(general(initial_pool()[k]));
                assert(initial_pool()[k] != reg);
            }
        }
    }
}

/// A function that materializes any constants, up to thirteen, and returns
/// one of them returns, on the model, exactly that constant, whatever the
/// constants are and whatever the registers hold on entry.
#[verifier::rlimit(50)]
pub proof fn lemma_constants_function_returns(
    func_id: usize,
    consts: Seq<Instr>,
    values: Seq<Value>,
    j: int,
    conv: CallerView,
    m: Machine,
)
    requires
        are_constants(consts, values),
        0 <= j < consts.len(),
        at_entry(m),
    ensures
        run(
            generated_code(func_id, constants_blocks(consts, values[j]), conv),
            m,
            consts.len() + 2,
        ) == Some(bits64(constant64(consts[j]) as int)),
        signed64(bits64(constant64(consts[j]) as int)) == constant64(consts[j]),
{
    let code = generated_code(func_id, constants_blocks(consts, values[j]), conv);
    let n = consts.len();
    let reg = initial_pool()[j];
    let moves = constant_moves(consts, n);
    let mov = bytes_mov_reg_to_reg(reg, X86Register::RAX);
    lemma_constants_function_code(func_id, consts, values, j, conv);
    lemma_moves_len(consts, n);
    lemma_has_all(code);
    lemma_piece_within(code, 0, code, Seq::empty(), moves, mov + bytes_ret());
    lemma_piece_within(code, 0, code, moves, mov, bytes_ret());
    lemma_piece_within(code, 0, code, moves + mov, bytes_ret(), Seq::empty());
    lemma_moves_run(code, m, consts, n);
    let m1 = steps(code, m, n)->0;
    assert(general(reg) && reg != X86Register::RAX);
    lemma_piece_lengths(reg, X86Register::RAX, 0, 0);
    lemma_step_mov(code, m1, reg, X86Register::RAX);
    let m2 = step(code, m1)->Next_0;
    lemma_step_ret(code, m2);
    assert(m1.regs[initial_pool()[j].spec_encode() as int] == bits64(
        constant64(consts[j]) as int,
    ));
    assert(run(code, m1, 2) == Some(bits64(constant64(consts[j]) as int))) by {
        reveal_with_fuel(run, 3);
    }
    lemma_run_after_steps(code, m, n, m1, 2);
    lemma_signed_bits(constant64(consts[j]) as int);
}

} // verus!
