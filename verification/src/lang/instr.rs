//! The instruction set of the intermediate representation.

use vstd::prelude::*;
use crate::lang::block::Block;
use crate::lang::lang_type::Type;
use crate::lang::value::Value;

verus! {

/// One operation of the intermediate representation.  Each variant names the
/// values it reads, the blocks it may jump to, its immediate if it has one, and
/// (as `gen_value`) the value it defines.  The control-flow variants `Br`,
/// `CondBr`, `Ret` and `RetVoid` define no value, and neither does `Store`.
#[allow(inconsistent_fields)]
#[derive(Debug, PartialEq, Eq)]
pub enum Instr {
    ConstInt128 { const_value: i128, gen_value: Value },
    ConstInt64 { const_value: i64, gen_value: Value },
    ConstInt32 { const_value: i32, gen_value: Value },
    ConstInt16 { const_value: i16, gen_value: Value },
    ConstInt8 { const_value: i8, gen_value: Value },
    ConstPtr { const_value: usize, gen_value: Value },
    Add { left_value: Value, right_value: Value, gen_value: Value },
    Sub { left_value: Value, right_value: Value, gen_value: Value },
    Div { left_value: Value, right_value: Value, gen_value: Value },
    Mul { left_value: Value, right_value: Value, gen_value: Value },
    Eq { left_value: Value, right_value: Value, gen_value: Value },
    Diff { left_value: Value, right_value: Value, gen_value: Value },
    Larger { left_value: Value, right_value: Value, gen_value: Value },
    LargerEq { left_value: Value, right_value: Value, gen_value: Value },
    Smaller { left_value: Value, right_value: Value, gen_value: Value },
    SmallerEq { left_value: Value, right_value: Value, gen_value: Value },
    Not { value: Value, right_value: Value, gen_value: Value },
    Load { value_to_load: Value, gen_value: Value },
    Store { value_ptr: Value, value_to_store: Value },
    Br { block_to_br: Block },
    CondBr { block_to_br_true: Block, block_to_br_false: Block, value_cond: Value },
    CallPtr { ptr_to_call: Value, args: Vec<Value>, return_type: Type, gen_value: Value },
    CallFunc { func_to_call: String, args: Vec<Value>, gen_value: Value },
    Ret { value_to_return: Value },
    RetVoid,
}

impl Instr {
    /// Whether the instruction ends a block: a jump or a return.
    pub open spec fn is_terminator(self) -> bool {
        self is Br || self is CondBr || self is Ret || self is RetVoid
    }

    /// Whether every block the instruction may jump to is one of the first
    /// `block_count` blocks.
    pub open spec fn targets_within(self, block_count: nat) -> bool {
        match self {
            Instr::Br { block_to_br } => block_to_br.id < block_count,
            Instr::CondBr { block_to_br_true, block_to_br_false, .. } => {
                block_to_br_true.id < block_count && block_to_br_false.id < block_count
            },
            _ => true,
        }
    }
}

} // verus!
