//! Structural checks on the instructions of a function: what makes them
//! ill-formed, and the search for the first fault.

use vstd::prelude::*;
use crate::lang::block::LangBlock;
use crate::lang::instr::Instr;
use crate::lang::value::Value;

verus! {

/// What can be wrong with an instruction where it stands.
#[derive(Clone, Copy, PartialEq, Eq, Structural, Debug)]
pub enum IrFaultKind {
    /// The two operands of an arithmetic instruction or a comparison differ
    /// in type.
    OperandTypeMismatch,
    /// The instruction reads a value that no earlier instruction defines.
    ForwardReference,
    /// A jump or a return is followed by another instruction of its block.
    MisplacedTerminator,
    /// A comparison is not immediately followed by a conditional jump.
    DanglingComparison,
    /// A jump leads to a block that does not exist.
    MissingTarget,
}

/// A fault and the place of the instruction that has it: the index of its
/// block and its index in the block.
#[derive(Clone, Copy, PartialEq, Eq, Structural, Debug)]
pub struct IrFault {
    pub kind: IrFaultKind,
    pub block: usize,
    pub index: usize,
}

/// Whether `instr` is one of the six comparisons.
pub open spec fn is_comparison(instr: Instr) -> bool {
    instr is Eq || instr is Diff || instr is Larger || instr is LargerEq || instr is Smaller
        || instr is SmallerEq
}

/// The two operands of an arithmetic instruction or a comparison.
pub open spec fn binary_operands(instr: Instr) -> Option<(Value, Value)> {
    match instr {
        Instr::Add { left_value, right_value, .. }
        | Instr::Sub { left_value, right_value, .. }
        | Instr::Div { left_value, right_value, .. }
        | Instr::Mul { left_value, right_value, .. }
        | Instr::Eq { left_value, right_value, .. }
        | Instr::Diff { left_value, right_value, .. }
        | Instr::Larger { left_value, right_value, .. }
        | Instr::LargerEq { left_value, right_value, .. }
        | Instr::Smaller { left_value, right_value, .. }
        | Instr::SmallerEq { left_value, right_value, .. } => Some((left_value, right_value)),
        _ => None,
    }
}

/// Whether `instr` has two operands of different types.
pub open spec fn mismatched(instr: Instr) -> bool {
    binary_operands(instr) matches Some((left, right)) && left.value_type != right.value_type
}

/// The values that `instr` reads, in the order in which it names them.
pub open spec fn operands(instr: Instr) -> Seq<Value> {
    match instr {
        Instr::Add { left_value, right_value, .. }
        | Instr::Sub { left_value, right_value, .. }
        | Instr::Div { left_value, right_value, .. }
        | Instr::Mul { left_value, right_value, .. }
        | Instr::Eq { left_value, right_value, .. }
        | Instr::Diff { left_value, right_value, .. }
        | Instr::Larger { left_value, right_value, .. }
        | Instr::LargerEq { left_value, right_value, .. }
        | Instr::Smaller { left_value, right_value, .. }
        | Instr::SmallerEq { left_value, right_value, .. } => seq![left_value, right_value],
        Instr::Not { value, right_value, .. } => seq![value, right_value],
        Instr::Load { value_to_load, .. } => seq![value_to_load],
        Instr::Store { value_ptr, value_to_store } => seq![value_ptr, value_to_store],
        Instr::CondBr { value_cond, .. } => seq![value_cond],
        Instr::CallPtr { ptr_to_call, args, .. } => seq![ptr_to_call] + args@,
        Instr::CallFunc { args, .. } => args@,
        Instr::Ret { value_to_return } => seq![value_to_return],
        _ => Seq::empty(),
    }
}

/// The value that `instr` defines, if it defines one.
pub open spec fn defined_value(instr: Instr) -> Option<Value> {
    match instr {
        Instr::ConstInt128 { gen_value, .. }
        | Instr::ConstInt64 { gen_value, .. }
        | Instr::ConstInt32 { gen_value, .. }
        | Instr::ConstInt16 { gen_value, .. }
        | Instr::ConstInt8 { gen_value, .. }
        | Instr::ConstPtr { gen_value, .. }
        | Instr::Add { gen_value, .. }
        | Instr::Sub { gen_value, .. }
        | Instr::Div { gen_value, .. }
        | Instr::Mul { gen_value, .. }
        | Instr::Eq { gen_value, .. }
        | Instr::Diff { gen_value, .. }
        | Instr::Larger { gen_value, .. }
        | Instr::LargerEq { gen_value, .. }
        | Instr::Smaller { gen_value, .. }
        | Instr::SmallerEq { gen_value, .. }
        | Instr::Not { gen_value, .. }
        | Instr::Load { gen_value, .. }
        | Instr::CallPtr { gen_value, .. }
        | Instr::CallFunc { gen_value, .. } => Some(gen_value),
        _ => None,
    }
}

/// Whether `blocks` holds an instruction at index `k` of block `b`.
pub open spec fn in_range(blocks: Seq<Seq<Instr>>, b: int, k: int) -> bool {
    0 <= b < blocks.len() && 0 <= k < blocks[b].len()
}

/// Whether the place `(b1, k1)` comes before `(b2, k2)` where the blocks are
/// walked in creation order and each block from its first instruction on.
pub open spec fn precedes(b1: int, k1: int, b2: int, k2: int) -> bool {
    b1 < b2 || (b1 == b2 && k1 < k2)
}

/// Whether the instruction at `(b, k)` defines `value`.
pub open spec fn defines_at(blocks: Seq<Seq<Instr>>, b: int, k: int, value: Value) -> bool {
    in_range(blocks, b, k) && defined_value(blocks[b][k]) == Some(value)
}

/// Whether an instruction before the place `(b, k)` defines `value`.
pub open spec fn defined_before(blocks: Seq<Seq<Instr>>, b: int, k: int, value: Value) -> bool {
    exists|b1: int, k1: int| precedes(b1, k1, b, k) && #[trigger] defines_at(blocks, b1, k1, value)
}

/// Whether the instruction at `(b, k)` reads a value that no instruction
/// before it defines.
pub open spec fn reads_undefined(blocks: Seq<Seq<Instr>>, b: int, k: int) -> bool {
    exists|i: int|
        0 <= i < operands(blocks[b][k]).len() && !defined_before(
            blocks,
            b,
            k,
            #[trigger] operands(blocks[b][k])[i],
        )
}

/// Whether the instruction at `(b, k)` is followed, in its block, by a
/// conditional jump.
pub open spec fn followed_by_cond_br(blocks: Seq<Seq<Instr>>, b: int, k: int) -> bool {
    k + 1 < blocks[b].len() && blocks[b][k + 1] is CondBr
}

/// What is wrong with the instruction at `(b, k)`, if anything.  Of several
/// faults the first in the order of `IrFaultKind` counts.
pub open spec fn fault_at(blocks: Seq<Seq<Instr>>, b: int, k: int) -> Option<IrFaultKind> {
    let instr = blocks[b][k];
    if mismatched(instr) {
        Some(IrFaultKind::OperandTypeMismatch)
    } else if reads_undefined(blocks, b, k) {
        Some(IrFaultKind::ForwardReference)
    } else if instr.is_terminator() && k + 1 < blocks[b].len() {
        Some(IrFaultKind::MisplacedTerminator)
    } else if is_comparison(instr) && !followed_by_cond_br(blocks, b, k) {
        Some(IrFaultKind::DanglingComparison)
    } else if !instr.targets_within(blocks.len()) {
        Some(IrFaultKind::MissingTarget)
    } else {
        None
    }
}

/// Whether no instruction before the place `(b, k)` has a fault.
pub open spec fn faultless_before(blocks: Seq<Seq<Instr>>, b: int, k: int) -> bool {
    forall|b1: int, k1: int|
        in_range(blocks, b1, k1) && precedes(b1, k1, b, k) ==> (#[trigger] fault_at(
            blocks,
            b1,
            k1,
        )) is None
}

/// Whether the instructions are well-formed: operands of one type, no value
/// read before it is defined, a jump or return only at the end of a block,
/// a conditional jump behind every comparison, and no jump to a block that
/// does not exist.
pub open spec fn well_formed(blocks: Seq<Seq<Instr>>) -> bool {
    forall|b: int, k: int| in_range(blocks, b, k) ==> (#[trigger] fault_at(blocks, b, k)) is None
}

/// Whether `fault` is the first fault of `blocks`: the instruction at its
/// place has that fault, and no instruction before it has any.
pub open spec fn is_first_fault(blocks: Seq<Seq<Instr>>, fault: IrFault) -> bool {
    &&& in_range(blocks, fault.block as int, fault.index as int)
    &&& fault_at(blocks, fault.block as int, fault.index as int) == Some(fault.kind)
    &&& faultless_before(blocks, fault.block as int, fault.index as int)
}

/// The instructions of each of `blocks`.
pub open spec fn ir_of(blocks: Seq<LangBlock>) -> Seq<Seq<Instr>> {
    Seq::new(blocks.len(), |b: int| blocks[b]@.instructions)
}

/// In well-formed instructions every jump leads to a block that exists.
pub proof fn lemma_well_formed_targets(blocks: Seq<Seq<Instr>>, b: int, k: int)
    requires
        well_formed(blocks),
        in_range(blocks, b, k),
    ensures
        blocks[b][k].targets_within(blocks.len()),
{
    assert(fault_at(blocks, b, k) is None);
}

/// Ill-formed instructions have exactly one first fault.
pub proof fn lemma_first_fault_unique(blocks: Seq<Seq<Instr>>, f: IrFault, g: IrFault)
    requires
        is_first_fault(blocks, f),
        is_first_fault(blocks, g),
    ensures
        f == g,
        !well_formed(blocks),
{
    if precedes(f.block as int, f.index as int, g.block as int, g.index as int) {
        assert(fault_at(blocks, f.block as int, f.index as int) is None);
    }
    if precedes(g.block as int, g.index as int, f.block as int, f.index as int) {
        assert(fault_at(blocks, g.block as int, g.index as int) is None);
    }
}

/// `listed` with the value that `instr` defines, if it defines one.
pub open spec fn with_defined(listed: Seq<Value>, instr: Instr) -> Seq<Value> {
    match defined_value(instr) {
        Some(value) => listed.push(value),
        None => listed,
    }
}

/// What an instruction defines is defined before every later place.
proof fn lemma_defined_step(blocks: Seq<Seq<Instr>>, b: int, k: int, listed: Seq<Value>)
    requires
        in_range(blocks, b, k),
        forall|v: Value| listed.contains(v) <==> defined_before(blocks, b, k, v),
    ensures
        forall|v: Value|
            #[trigger] with_defined(listed, blocks[b][k]).contains(v) <==> defined_before(
                blocks,
                b,
                k + 1,
                v,
            ),
{
    let after = with_defined(listed, blocks[b][k]);
    assert forall|v: Value| after.contains(v) <==> defined_before(blocks, b, k + 1, v) by {
        if after.contains(v) {
            if listed.contains(v) {
                let (b1, k1) = choose|b1: int, k1: int|
                    precedes(b1, k1, b, k) && #[trigger] defines_at(blocks, b1, k1, v);
                assert(precedes(b1, k1, b, k + 1) && defines_at(blocks, b1, k1, v));
            } else {
                let i = choose|i: int| 0 <= i < after.len() && after[i] == v;
                assert(i == listed.len());
                assert(precedes(b, k, b, k + 1) && defines_at(blocks, b, k, v));
            }
        }
        if defined_before(blocks, b, k + 1, v) {
            let (b1, k1) = choose|b1: int, k1: int|
                precedes(b1, k1, b, k + 1) && #[trigger] defines_at(blocks, b1, k1, v);
            if precedes(b1, k1, b, k) {
                assert(listed.contains(v));
                let i = choose|i: int| 0 <= i < listed.len() && listed[i] == v;
                assert(after[i] == v);
            } else {
                assert(b1 == b && k1 == k);
                assert(after[listed.len() as int] == v);
            }
        }
    }
}

/// What is defined before the end of a block is what is defined before the
/// beginning of the next.
proof fn lemma_defined_next_block(blocks: Seq<Seq<Instr>>, b: int, listed: Seq<Value>)
    requires
        0 <= b < blocks.len(),
        forall|v: Value| listed.contains(v) <==> defined_before(blocks, b, blocks[b].len() as int, v),
    ensures
        forall|v: Value| listed.contains(v) <==> defined_before(blocks, b + 1, 0, v),
{
    assert forall|v: Value| listed.contains(v) <==> defined_before(blocks, b + 1, 0, v) by {
        if listed.contains(v) {
            let (b1, k1) = choose|b1: int, k1: int|
                precedes(b1, k1, b, blocks[b].len() as int) && #[trigger] defines_at(
                    blocks,
                    b1,
                    k1,
                    v,
                );
            assert(precedes(b1, k1, b + 1, 0) && defines_at(blocks, b1, k1, v));
        }
        if defined_before(blocks, b + 1, 0, v) {
            let (b1, k1) = choose|b1: int, k1: int|
                precedes(b1, k1, b + 1, 0) && #[trigger] defines_at(blocks, b1, k1, v);
            assert(precedes(b1, k1, b, blocks[b].len() as int) && defines_at(blocks, b1, k1, v));
        }
    }
}

/// Whether `value` is among `listed`.
fn is_listed(listed: &Vec<Value>, value: Value) -> (found: bool)
    ensures
        found == listed@.contains(value),
{
    let mut i: usize = 0;
    while i < listed.len()
        invariant
            i <= listed.len(),
            forall|j: int| 0 <= j < i ==> listed@[j] != value,
        decreases listed.len() - i,
    {
        if listed[i] == value {
            return true;
        }
        i += 1;
    }
    false
}

/// The two operands of an arithmetic instruction or a comparison.
fn binary_operands_of(instr: &Instr) -> (pair: Option<(Value, Value)>)
    ensures
        pair == binary_operands(*instr),
{
    match instr {
        Instr::Add { left_value, right_value, .. }
        | Instr::Sub { left_value, right_value, .. }
        | Instr::Div { left_value, right_value, .. }
        | Instr::Mul { left_value, right_value, .. }
        | Instr::Eq { left_value, right_value, .. }
        | Instr::Diff { left_value, right_value, .. }
        | Instr::Larger { left_value, right_value, .. }
        | Instr::LargerEq { left_value, right_value, .. }
        | Instr::Smaller { left_value, right_value, .. }
        | Instr::SmallerEq { left_value, right_value, .. } => Some((*left_value, *right_value)),
        _ => None,
    }
}

/// The values that `instr` reads.
fn operands_of(instr: &Instr) -> (values: Vec<Value>)
    ensures
        values@ == operands(*instr),
{
    let mut values: Vec<Value> = Vec::new();
    match instr {
        Instr::Add { left_value, right_value, .. }
        | Instr::Sub { left_value, right_value, .. }
        | Instr::Div { left_value, right_value, .. }
        | Instr::Mul { left_value, right_value, .. }
        | Instr::Eq { left_value, right_value, .. }
        | Instr::Diff { left_value, right_value, .. }
        | Instr::Larger { left_value, right_value, .. }
        | Instr::LargerEq { left_value, right_value, .. }
        | Instr::Smaller { left_value, right_value, .. }
        | Instr::SmallerEq { left_value, right_value, .. } => {
            values.push(*left_value);
            values.push(*right_value);
        },
        Instr::Not { value, right_value, .. } => {
            values.push(*value);
            values.push(*right_value);
        },
        Instr::Load { value_to_load, .. } => {
            values.push(*value_to_load);
        },
        Instr::Store { value_ptr, value_to_store } => {
            values.push(*value_ptr);
            values.push(*value_to_store);
        },
        Instr::CondBr { value_cond, .. } => {
            values.push(*value_cond);
        },
        Instr::CallPtr { ptr_to_call, args, .. } => {
            values.push(*ptr_to_call);
            append_values(&mut values, args);
        },
        Instr::CallFunc { args, .. } => {
            append_values(&mut values, args);
        },
        Instr::Ret { value_to_return } => {
            values.push(*value_to_return);
        },
        _ => {},
    }
    assert(values@ =~= operands(*instr));
    values
}

/// Appends `more` to `values`.
fn append_values(values: &mut Vec<Value>, more: &Vec<Value>)
    ensures
        final(values)@ == old(values)@ + more@,
{
    let mut i: usize = 0;
    while i < more.len()
        invariant
            i <= more.len(),
            values@ == old(values)@ + more@.subrange(0, i as int),
        decreases more.len() - i,
    {
        values.push(more[i]);
        i += 1;
    }
    assert(more@.subrange(0, more@.len() as int) == more@);
}

/// The value that `instr` defines.
fn defined_value_of(instr: &Instr) -> (value: Option<Value>)
    ensures
        value == defined_value(*instr),
{
    match instr {
        Instr::ConstInt128 { gen_value, .. }
        | Instr::ConstInt64 { gen_value, .. }
        | Instr::ConstInt32 { gen_value, .. }
        | Instr::ConstInt16 { gen_value, .. }
        | Instr::ConstInt8 { gen_value, .. }
        | Instr::ConstPtr { gen_value, .. }
        | Instr::Add { gen_value, .. }
        | Instr::Sub { gen_value, .. }
        | Instr::Div { gen_value, .. }
        | Instr::Mul { gen_value, .. }
        | Instr::Eq { gen_value, .. }
        | Instr::Diff { gen_value, .. }
        | Instr::Larger { gen_value, .. }
        | Instr::LargerEq { gen_value, .. }
        | Instr::Smaller { gen_value, .. }
        | Instr::SmallerEq { gen_value, .. }
        | Instr::Not { gen_value, .. }
        | Instr::Load { gen_value, .. }
        | Instr::CallPtr { gen_value, .. }
        | Instr::CallFunc { gen_value, .. } => Some(*gen_value),
        _ => None,
    }
}

/// Whether `instr` is a jump or a return.
fn ends_block(instr: &Instr) -> (b: bool)
    ensures
        b == instr.is_terminator(),
{
    match instr {
        Instr::Br { .. } | Instr::CondBr { .. } | Instr::Ret { .. } | Instr::RetVoid => true,
        _ => false,
    }
}

/// Whether `instr` is a comparison.
fn compares(instr: &Instr) -> (b: bool)
    ensures
        b == is_comparison(*instr),
{
    match instr {
        Instr::Eq { .. }
        | Instr::Diff { .. }
        | Instr::Larger { .. }
        | Instr::LargerEq { .. }
        | Instr::Smaller { .. }
        | Instr::SmallerEq { .. } => true,
        _ => false,
    }
}

/// Whether every block that `instr` may jump to is one of the first `count`
/// blocks.
fn targets_exist(instr: &Instr, count: usize) -> (b: bool)
    ensures
        b == instr.targets_within(count as nat),
{
    match instr {
        Instr::Br { block_to_br } => block_to_br.get_id() < count,
        Instr::CondBr { block_to_br_true, block_to_br_false, .. } => {
            block_to_br_true.get_id() < count && block_to_br_false.get_id() < count
        },
        _ => true,
    }
}

/// Whether `instr` is a conditional jump.
fn jumps_on_condition(instr: &Instr) -> (b: bool)
    ensures
        b == (*instr is CondBr),
{
    match instr {
        Instr::CondBr { .. } => true,
        _ => false,
    }
}

/// What is wrong with the instruction at index `k` of block `b`, given the
/// values that the instructions before it define.
fn fault_of(
    instrs: &Vec<Instr>,
    k: usize,
    defined: &Vec<Value>,
    count: usize,
    Ghost(blocks): Ghost<Seq<Seq<Instr>>>,
    Ghost(b): Ghost<int>,
) -> (fault: Option<IrFaultKind>)
    requires
        0 <= b < blocks.len(),
        count == blocks.len(),
        blocks[b] == instrs@,
        k < instrs@.len(),
        forall|v: Value| defined@.contains(v) <==> defined_before(blocks, b, k as int, v),
    ensures
        fault == fault_at(blocks, b, k as int),
{
    let instr = &instrs[k];
    if let Some((left, right)) = binary_operands_of(instr) {
        if left.get_type() != right.get_type() {
            return Some(IrFaultKind::OperandTypeMismatch);
        }
    }
    let values = operands_of(instr);
    let mut i: usize = 0;
    while i < values.len()
        invariant
            i <= values.len(),
            0 <= b < blocks.len(),
            blocks[b] == instrs@,
            k < instrs.len(),
            !mismatched(instrs@[k as int]),
            values@ == operands(instrs@[k as int]),
            forall|v: Value| defined@.contains(v) <==> defined_before(blocks, b, k as int, v),
            forall|j: int| 0 <= j < i ==> defined@.contains(#[trigger] values@[j]),
        decreases values.len() - i,
    {
        if !is_listed(defined, values[i]) {
            assert(!defined_before(blocks, b, k as int, operands(blocks[b][k as int])[i as int]));
            return Some(IrFaultKind::ForwardReference);
        }
        i += 1;
    }
    assert(!reads_undefined(blocks, b, k as int)) by {
        if reads_undefined(blocks, b, k as int) {
            let j = choose|j: int|
                0 <= j < operands(blocks[b][k as int]).len() && !defined_before(
                    blocks,
                    b,
                    k as int,
                    #[trigger] operands(blocks[b][k as int])[j],
                );
            assert(defined@.contains(values@[j]));
        }
    }
    if ends_block(instr) && k + 1 < instrs.len() {
        return Some(IrFaultKind::MisplacedTerminator);
    }
    if compares(instr) && !(k + 1 < instrs.len() && jumps_on_condition(&instrs[k + 1])) {
        return Some(IrFaultKind::DanglingComparison);
    }
    if !targets_exist(instr, count) {
        return Some(IrFaultKind::MissingTarget);
    }
    None
}

/// Looks for the first fault of `blocks`, walking the blocks in creation
/// order.  `Ok` means that the instructions are well-formed.
pub fn check_blocks(blocks: &Vec<LangBlock>) -> (result: Result<(), IrFault>)
    ensures
        result is Ok <==> well_formed(ir_of(blocks@)),
        result matches Err(fault) ==> is_first_fault(ir_of(blocks@), fault),
{
    let ghost ir = ir_of(blocks@);
    let mut defined: Vec<Value> = Vec::new();
    let mut b: usize = 0;
    assert forall|v: Value| defined@.contains(v) <==> defined_before(ir, 0, 0, v) by {
    }
    while b < blocks.len()
        invariant
            b <= blocks.len(),
            ir == ir_of(blocks@),
            faultless_before(ir, b as int, 0),
            forall|v: Value| defined@.contains(v) <==> defined_before(ir, b as int, 0, v),
        decreases blocks.len() - b,
    {
        let instrs = blocks[b].instructions();
        assert(instrs@ == ir[b as int]);
        let mut k: usize = 0;
        while k < instrs.len()
            invariant
                k <= instrs.len(),
                b < blocks.len(),
                ir == ir_of(blocks@),
                instrs@ == ir[b as int],
                faultless_before(ir, b as int, k as int),
                forall|v: Value| defined@.contains(v) <==> defined_before(ir, b as int, k as int, v),
            decreases instrs.len() - k,
        {
            match fault_of(instrs, k, &defined, blocks.len(), Ghost(ir), Ghost(b as int)) {
                Some(kind) => {
                    let fault = IrFault { kind, block: b, index: k };
                    assert(!well_formed(ir)) by {
                        assert(in_range(ir, b as int, k as int));
                        assert(fault_at(ir, b as int, k as int) is Some);
                    }
                    return Err(fault);
                },
                None => {},
            }
            let ghost old_defined = defined@;
            proof {
                lemma_defined_step(ir, b as int, k as int, defined@);
            }
            match defined_value_of(&instrs[k]) {
                Some(value) => {
                    defined.push(value);
                },
                None => {},
            }
            assert(defined@ == with_defined(old_defined, ir[b as int][k as int]));
            assert(faultless_before(ir, b as int, k + 1)) by {
                assert forall|b1: int, k1: int|
                    in_range(ir, b1, k1) && precedes(b1, k1, b as int, k + 1) implies (
                #[trigger] fault_at(ir, b1, k1)) is None by {
                    if !precedes(b1, k1, b as int, k as int) {
                        assert(b1 == b && k1 == k);
                    }
                }
            }
            k += 1;
        }
        proof {
            lemma_defined_next_block(ir, b as int, defined@);
            assert forall|b1: int, k1: int|
                in_range(ir, b1, k1) && precedes(b1, k1, b + 1, 0) implies (#[trigger] fault_at(
                ir,
                b1,
                k1,
            )) is None by {
                assert(precedes(b1, k1, b as int, instrs@.len() as int));
            }
        }
        b += 1;
    }
    assert(well_formed(ir)) by {
        assert forall|b1: int, k1: int| in_range(ir, b1, k1) implies (#[trigger] fault_at(
            ir,
            b1,
            k1,
        )) is None by {
            assert(precedes(b1, k1, blocks@.len() as int, 0));
        }
    }
    Ok(())
}

} // verus!
