//! What holds of the code that the generator produces.

use vstd::prelude::*;
use crate::gen::x86_64::gen::{
    block_offsets,
    displacement,
    emit_blocks,
    emit_instrs,
    generated_code,
    laid_out,
    lemma_computation_keeps_relocs,
    lemma_jump_keeps_relocs,
    lemma_lower_keeps_relocs,
    patch,
    relocs_within,
    BlockOffset,
    FunctionOffset,
    GenState,
};
use crate::gen::x86_64::x86_64_caller::CallerView;
use crate::lang::builder::from_builder;
use crate::lang::instr::Instr;
use crate::misc::byte_writer::{le_bytes, lemma_le_bytes_len, lemma_overwrite, overwrite};

verus! {

/// Whether the displacement fields of the pending relocations lie one behind
/// the other without overlap.
pub open spec fn relocs_apart(relocs: Seq<BlockOffset>) -> bool {
    forall|i: int, j: int|
        0 <= i < j < relocs.len() ==> (#[trigger] relocs[i]).offset + 4 <= (
        #[trigger] relocs[j]).offset
}

/// Whether every instruction of every block is of a kind that a builder
/// appends and jumps only to blocks that exist.
pub open spec fn blocks_wf(blocks: Seq<Seq<Instr>>) -> bool {
    forall|b: int, k: int|
        0 <= b < blocks.len() && 0 <= k < blocks[b].len() ==> {
            &&& from_builder(#[trigger] blocks[b][k])
            &&& blocks[b][k].targets_within(blocks.len())
        }
}

/// Lowering an instruction of a builder never shortens the code.
#[verifier::rlimit(50)]
pub proof fn lemma_lower_grows(s: GenState, func_id: usize, instr: Instr, conv: CallerView)
    requires
        from_builder(instr),
    ensures
        s.code.len() <= s.lower(func_id, instr, conv).code.len(),
{
    if instr is Br || instr is CondBr {
        lemma_jump_keeps_relocs(s, func_id, instr, conv);
    } else {
        lemma_computation_keeps_relocs(s, func_id, instr, conv);
    }
}

/// Lowering an instruction of a builder puts the fields of its relocations
/// behind all earlier ones.
#[verifier::rlimit(50)]
pub proof fn lemma_lower_keeps_apart(
    s: GenState,
    func_id: usize,
    instr: Instr,
    conv: CallerView,
    block_count: nat,
)
    requires
        relocs_within(s, block_count),
        relocs_apart(s.relocs),
        from_builder(instr),
        instr.targets_within(block_count),
        s.lower(func_id, instr, conv).code.len() <= usize::MAX,
    ensures
        relocs_within(s.lower(func_id, instr, conv), block_count),
        relocs_apart(s.lower(func_id, instr, conv).relocs),
{
    lemma_lower_keeps_relocs(s, func_id, instr, conv, block_count);
    let after = s.lower(func_id, instr, conv);
    if instr is Br || instr is CondBr {
        lemma_jump_keeps_relocs(s, func_id, instr, conv);
        assert forall|i: int, j: int| 0 <= i < j < after.relocs.len() implies (
        #[trigger] after.relocs[i]).offset + 4 <= (#[trigger] after.relocs[j]).offset by {
            if j < s.relocs.len() {
                assert(after.relocs[i] == s.relocs[i]);
                assert(after.relocs[j] == s.relocs[j]);
            } else if i < s.relocs.len() {
                assert(after.relocs[i] == s.relocs[i]);
                assert(s.relocs[i].offset + 4 <= s.code.len());
            }
        }
    } else {
        lemma_computation_keeps_relocs(s, func_id, instr, conv);
    }
}

/// Lowering instructions of a builder, one after the other, never shortens
/// the code and keeps the fields of the relocations apart and inside the code.
pub proof fn lemma_emit_instrs_keeps_apart(
    s: GenState,
    func_id: usize,
    instrs: Seq<Instr>,
    n: nat,
    conv: CallerView,
    block_count: nat,
)
    requires
        n <= instrs.len(),
        relocs_within(s, block_count),
        relocs_apart(s.relocs),
        forall|k: int|
            0 <= k < n ==> from_builder(#[trigger] instrs[k]) && instrs[k].targets_within(
                block_count,
            ),
        emit_instrs(s, func_id, instrs, n, conv).code.len() <= usize::MAX,
    ensures
        s.code.len() <= emit_instrs(s, func_id, instrs, n, conv).code.len(),
        relocs_within(emit_instrs(s, func_id, instrs, n, conv), block_count),
        relocs_apart(emit_instrs(s, func_id, instrs, n, conv).relocs),
    decreases n,
{
    if n > 0 {
        let before = emit_instrs(s, func_id, instrs, (n - 1) as nat, conv);
        lemma_lower_grows(before, func_id, instrs[n - 1], conv);
        lemma_emit_instrs_keeps_apart(s, func_id, instrs, (n - 1) as nat, conv, block_count);
        lemma_lower_keeps_apart(before, func_id, instrs[n - 1], conv, block_count);
    }
}

/// Lowering instructions of a builder never shortens the code.
pub proof fn lemma_emit_instrs_grows(
    s: GenState,
    func_id: usize,
    instrs: Seq<Instr>,
    n: nat,
    conv: CallerView,
)
    requires
        n <= instrs.len(),
        forall|k: int| 0 <= k < n ==> from_builder(#[trigger] instrs[k]),
    ensures
        s.code.len() <= emit_instrs(s, func_id, instrs, n, conv).code.len(),
    decreases n,
{
    if n > 0 {
        let before = emit_instrs(s, func_id, instrs, (n - 1) as nat, conv);
        lemma_lower_grows(before, func_id, instrs[n - 1], conv);
        lemma_emit_instrs_grows(s, func_id, instrs, (n - 1) as nat, conv);
    }
}

/// The code only grows from block to block.
pub proof fn lemma_emit_blocks_grows(
    func_id: usize,
    blocks: Seq<Seq<Instr>>,
    m: nat,
    n: nat,
    conv: CallerView,
)
    requires
        m <= n <= blocks.len(),
        blocks_wf(blocks),
    ensures
        emit_blocks(func_id, blocks, m, conv).code.len() <= emit_blocks(
            func_id,
            blocks,
            n,
            conv,
        ).code.len(),
    decreases n,
{
    if m < n {
        lemma_emit_blocks_grows(func_id, blocks, m, (n - 1) as nat, conv);
        lemma_emit_instrs_grows(
            emit_blocks(func_id, blocks, (n - 1) as nat, conv),
            func_id,
            blocks[n - 1],
            blocks[n - 1].len(),
            conv,
        );
    }
}

/// After any number of blocks the fields of the relocations lie apart and
/// inside the code, and each relocation names a block that exists.
pub proof fn lemma_emit_blocks_keeps_apart(
    func_id: usize,
    blocks: Seq<Seq<Instr>>,
    n: nat,
    conv: CallerView,
)
    requires
        n <= blocks.len(),
        blocks_wf(blocks),
        emit_blocks(func_id, blocks, n, conv).code.len() <= usize::MAX,
    ensures
        relocs_within(emit_blocks(func_id, blocks, n, conv), blocks.len()),
        relocs_apart(emit_blocks(func_id, blocks, n, conv).relocs),
    decreases n,
{
    if n > 0 {
        let before = emit_blocks(func_id, blocks, (n - 1) as nat, conv);
        lemma_emit_blocks_grows(func_id, blocks, (n - 1) as nat, n, conv);
        lemma_emit_blocks_keeps_apart(func_id, blocks, (n - 1) as nat, conv);
        lemma_emit_instrs_keeps_apart(
            before,
            func_id,
            blocks[n - 1],
            blocks[n - 1].len(),
            conv,
            blocks.len(),
        );
    }
}

/// Lowering an instruction of a builder records no call site.
#[verifier::rlimit(50)]
pub proof fn lemma_lower_records_no_call(
    s: GenState,
    func_id: usize,
    instr: Instr,
    conv: CallerView,
)
    requires
        from_builder(instr),
    ensures
        s.lower(func_id, instr, conv).calls == s.calls,
{
    if instr is Br || instr is CondBr {
        lemma_jump_keeps_relocs(s, func_id, instr, conv);
    } else {
        lemma_computation_keeps_relocs(s, func_id, instr, conv);
    }
}

/// Lowering instructions of a builder records no call site.
pub proof fn lemma_emit_instrs_records_no_call(
    s: GenState,
    func_id: usize,
    instrs: Seq<Instr>,
    n: nat,
    conv: CallerView,
)
    requires
        n <= instrs.len(),
        forall|k: int| 0 <= k < n ==> from_builder(#[trigger] instrs[k]),
    ensures
        emit_instrs(s, func_id, instrs, n, conv).calls == s.calls,
    decreases n,
{
    if n > 0 {
        lemma_emit_instrs_records_no_call(s, func_id, instrs, (n - 1) as nat, conv);
        lemma_lower_records_no_call(
            emit_instrs(s, func_id, instrs, (n - 1) as nat, conv),
            func_id,
            instrs[n - 1],
            conv,
        );
    }
}

/// The blocks of a builder hold no call by name: generating their code
/// records no call site.
pub proof fn lemma_builder_blocks_record_no_call(
    func_id: usize,
    blocks: Seq<Seq<Instr>>,
    n: nat,
    conv: CallerView,
)
    requires
        n <= blocks.len(),
        blocks_wf(blocks),
    ensures
        emit_blocks(func_id, blocks, n, conv).calls == Seq::<FunctionOffset>::empty(),
    decreases n,
{
    if n > 0 {
        lemma_builder_blocks_record_no_call(func_id, blocks, (n - 1) as nat, conv);
        lemma_emit_instrs_records_no_call(
            emit_blocks(func_id, blocks, (n - 1) as nat, conv),
            func_id,
            blocks[n - 1],
            blocks[n - 1].len(),
            conv,
        );
    }
}

/// Resolving relocations whose fields lie apart and inside the code keeps
/// the length of the code, leaves in each resolved field the displacement to
/// the block that the relocation names, and changes no byte outside the
/// resolved fields.
#[verifier::rlimit(50)]
pub proof fn lemma_patch(code: Seq<u8>, relocs: Seq<BlockOffset>, n: nat, offsets: Seq<usize>)
    requires
        n <= relocs.len(),
        relocs_apart(relocs),
        forall|k: int| 0 <= k < relocs.len() ==> (#[trigger] relocs[k]).offset + 4 <= code.len(),
    ensures
        patch(code, relocs, n, offsets).len() == code.len(),
        forall|k: int|
            0 <= k < n ==> patch(code, relocs, n, offsets).subrange(
                (#[trigger] relocs[k]).offset as int,
                relocs[k].offset + 4,
            ) == le_bytes(
                displacement(offsets[relocs[k].block as int], relocs[k].offset) as int,
                4,
            ),
        forall|j: int|
            0 <= j < code.len() && (forall|k: int|
                0 <= k < n ==> !((#[trigger] relocs[k]).offset <= j < relocs[k].offset + 4))
                ==> #[trigger] patch(code, relocs, n, offsets)[j] == code[j],
    decreases n,
{
    if n > 0 {
        let before = patch(code, relocs, (n - 1) as nat, offsets);
        let last = relocs[n - 1];
        let field = le_bytes(displacement(offsets[last.block as int], last.offset) as int, 4);
        let after = patch(code, relocs, n, offsets);
        lemma_patch(code, relocs, (n - 1) as nat, offsets);
        lemma_le_bytes_len(displacement(offsets[last.block as int], last.offset) as int, 4);
        lemma_overwrite(before, last.offset as int, field);
        assert forall|k: int| 0 <= k < n implies after.subrange(
            (#[trigger] relocs[k]).offset as int,
            relocs[k].offset + 4,
        ) == le_bytes(
            displacement(offsets[relocs[k].block as int], relocs[k].offset) as int,
            4,
        ) by {
            let want = le_bytes(
                displacement(offsets[relocs[k].block as int], relocs[k].offset) as int,
                4,
            );
            lemma_le_bytes_len(
                displacement(offsets[relocs[k].block as int], relocs[k].offset) as int,
                4,
            );
            if k < n - 1 {
                let earlier = before.subrange(relocs[k].offset as int, relocs[k].offset + 4);
                assert(relocs[k].offset + 4 <= last.offset);
                assert forall|x: int| 0 <= x < 4 implies after.subrange(
                    relocs[k].offset as int,
                    relocs[k].offset + 4,
                )[x] == earlier[x] by {
                    assert(after[relocs[k].offset + x] == before[relocs[k].offset + x]);
                }
                assert(after.subrange(relocs[k].offset as int, relocs[k].offset + 4) =~= earlier);
            } else {
                assert forall|x: int| 0 <= x < 4 implies after.subrange(
                    last.offset as int,
                    last.offset + 4,
                )[x] == field[x] by {
                    assert(after[last.offset + x] == field[x]);
                }
                assert(after.subrange(last.offset as int, last.offset + 4) =~= field);
            }
        }
        assert forall|j: int|
            0 <= j < code.len() && (forall|k: int|
                0 <= k < n ==> !((#[trigger] relocs[k]).offset <= j < relocs[k].offset
                    + 4)) implies #[trigger] after[j] == code[j] by {
            assert(!(relocs[n - 1].offset <= j < relocs[n - 1].offset + 4));
            assert(after[j] == before[j]);
            assert forall|k: int| 0 <= k < n - 1 implies !((#[trigger] relocs[k]).offset <= j
                < relocs[k].offset + 4) by {
            }
        }
    }
}

/// Relocation correctness.  In the code generated for the blocks of a
/// builder whose jumps lead to blocks that exist, the four bytes at the site
/// of every jump hold the displacement `target offset - site offset - 4`,
/// where the target offset is the offset at which the code of the block that
/// the jump leads to begins; every byte outside these fields is as it was
/// emitted.
#[verifier::rlimit(50)]
pub proof fn lemma_relocations_resolved(func_id: usize, blocks: Seq<Seq<Instr>>, conv: CallerView)
    requires
        blocks_wf(blocks),
        emit_blocks(func_id, blocks, blocks.len(), conv).code.len() <= usize::MAX,
    ensures
        laid_out(func_id, blocks, conv),
{
    let emitted = emit_blocks(func_id, blocks, blocks.len(), conv);
    let code = generated_code(func_id, blocks, conv);
    let offsets = block_offsets(func_id, blocks, conv);
    lemma_emit_blocks_keeps_apart(func_id, blocks, blocks.len(), conv);
    lemma_patch(emitted.code, emitted.relocs, emitted.relocs.len(), offsets);
    assert forall|k: int| 0 <= k < emitted.relocs.len() implies code.subrange(
        (#[trigger] emitted.relocs[k]).offset as int,
        emitted.relocs[k].offset + 4,
    ) == le_bytes(offsets[emitted.relocs[k].block as int] - emitted.relocs[k].offset - 4, 4) by {
        let site = emitted.relocs[k].offset;
        let target = offsets[emitted.relocs[k].block as int];
        lemma_displacement_fits(target, site);
    }
    assert forall|b: int| 0 <= b < blocks.len() implies (#[trigger] offsets[b]) == emit_blocks(
        func_id,
        blocks,
        b as nat,
        conv,
    ).code.len() by {
        lemma_emit_blocks_grows(func_id, blocks, b as nat, blocks.len(), conv);
    }
}

/// Between offsets of less than 2 GiB the displacement is the plain
/// distance: nothing is cut off.
pub proof fn lemma_displacement_exact(target: usize, site: usize)
    requires
        target <= 0x7fff_ffff,
        site <= 0x7fff_fff0,
    ensures
        displacement(target, site) == target - site - 4,
{
}

/// The four bytes of a displacement are those of the plain distance, also
/// where the distance does not fit into 32 bits.
pub proof fn lemma_displacement_fits(target: usize, site: usize)
    ensures
        le_bytes(displacement(target, site) as int, 4) == le_bytes(target - site - 4, 4),
{
    let d: int = target - site - 4;
    assert(displacement(target, site) == d as i32);
    lemma_low_bytes_of_cut(d);
}

/// Cutting a number to 32 bits keeps its four low-order bytes.
proof fn lemma_low_bytes_of_cut(d: int)
    requires
        -0x2_0000_0000_0000_0000 <= d < 0x2_0000_0000_0000_0000,
    ensures
        le_bytes((d as i32) as int, 4) == le_bytes(d, 4),
{
    let c: int = (d as i32) as int;
    let wide: i128 = d as i128;
    assert(wide as int == d);
    assert((wide as i32) as int == c);
    assert(((wide as i32) as i128 - wide) % 0x1_0000_0000 == 0) by (bit_vector);
    assert(pow256(4) == 0x1_0000_0000) by {
        reveal_with_fuel(pow256, 5);
    }
    lemma_le_bytes_congruent(c, d, 4);
}

/// Numbers that differ by a multiple of `256^n` have the same `n` low-order
/// bytes.
proof fn lemma_le_bytes_congruent(a: int, b: int, n: nat)
    requires
        (a - b) % pow256(n) == 0,
    ensures
        le_bytes(a, n) == le_bytes(b, n),
    decreases n,
{
    if n > 0 {
        let p = pow256((n - 1) as nat);
        lemma_pow256_positive((n - 1) as nat);
        assert(pow256(n) == 256 * p);
        let q = (a - b) / (256 * p);
        assert(a - b == q * (256 * p)) by (nonlinear_arith)
            requires
                (a - b) % (256 * p) == 0,
                q == (a - b) / (256 * p),
                p > 0,
        ;
        assert(a == b + 256 * (q * p)) by (nonlinear_arith)
            requires
                a - b == q * (256 * p),
        ;
        assert(a % 256 == b % 256 && a / 256 == b / 256 + q * p) by {
            lemma_shift_by_multiple(b, q * p);
        }
        assert((a / 256 - b / 256) % p == 0) by (nonlinear_arith)
            requires
                a / 256 == b / 256 + q * p,
                p > 0,
        ;
        lemma_le_bytes_congruent(a / 256, b / 256, (n - 1) as nat);
    }
}

/// Adding a multiple of 256 changes the quotient by 256 and not the rest.
proof fn lemma_shift_by_multiple(b: int, k: int)
    ensures
        (b + 256 * k) % 256 == b % 256,
        (b + 256 * k) / 256 == b / 256 + k,
{
}

/// The `n`th power of 256.
pub open spec fn pow256(n: nat) -> int
    decreases n,
{
    if n == 0 {
        1
    } else {
        256 * pow256((n - 1) as nat)
    }
}

/// Every power of 256 is positive.
pub proof fn lemma_pow256_positive(n: nat)
    ensures
        pow256(n) > 0,
    decreases n,
{
    if n > 0 {
        lemma_pow256_positive((n - 1) as nat);
    }
}

} // verus!
