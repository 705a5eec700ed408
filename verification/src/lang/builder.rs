//! The builder: the one component that changes the instructions of a
//! function.  It creates blocks, keeps the block that instructions are
//! appended to, and mints the values that instructions define.

use vstd::prelude::*;
use crate::lang::block::{Block, LangBlock, LangBlockView};
use crate::lang::instr::Instr;
use crate::lang::lang_type::{LangDataType, Type};
use crate::lang::validate::{check_blocks, ir_of, is_first_fault, well_formed, IrFault};
use crate::lang::value::Value;

verus! {

/// What a builder holds: the blocks in creation order, the values minted so
/// far in creation order, and the index of the block that receives the next
/// instruction.
pub struct BuilderView {
    pub blocks: Seq<LangBlockView>,
    pub values: Seq<Value>,
    pub current_block: usize,
}

/// Whether `instr` is of a kind that the builder appends.
pub open spec fn from_builder(instr: Instr) -> bool {
    match instr {
        Instr::ConstInt64 { .. }
        | Instr::ConstInt32 { .. }
        | Instr::ConstInt16 { .. }
        | Instr::ConstInt8 { .. }
        | Instr::Add { .. }
        | Instr::Sub { .. }
        | Instr::Div { .. }
        | Instr::Mul { .. }
        | Instr::Eq { .. }
        | Instr::Diff { .. }
        | Instr::Larger { .. }
        | Instr::LargerEq { .. }
        | Instr::Smaller { .. }
        | Instr::SmallerEq { .. }
        | Instr::Br { .. }
        | Instr::CondBr { .. }
        | Instr::Ret { .. }
        | Instr::RetVoid => true,
        _ => false,
    }
}

impl BuilderView {
    /// A builder with the empty entry block, which is also the current block,
    /// and no values.
    pub open spec fn fresh() -> BuilderView {
        BuilderView {
            blocks: seq![LangBlockView { instructions: Seq::empty(), offset: 0 }],
            values: Seq::empty(),
            current_block: 0,
        }
    }

    /// The invariant of a builder: the entry block exists, the current block
    /// exists, the value minted as the `i`th has the id `i`, and every
    /// instruction is of a kind the builder appends.
    pub open spec fn wf(self) -> bool {
        &&& self.blocks.len() >= 1
        &&& self.current_block < self.blocks.len()
        &&& forall|i: int| 0 <= i < self.values.len() ==> (#[trigger] self.values[i]).id == i
        &&& forall|b: int, k: int|
            0 <= b < self.blocks.len() && 0 <= k < self.blocks[b].instructions.len()
                ==> from_builder(#[trigger] self.blocks[b].instructions[k])
    }

    /// The value that is minted next, given the type it is to have.
    pub open spec fn next_value(self, value_type: Type) -> Value {
        Value { id: self.values.len() as usize, value_type }
    }

    /// The builder after a value of type `value_type` was minted.
    pub open spec fn mint(self, value_type: Type) -> BuilderView {
        BuilderView { values: self.values.push(self.next_value(value_type)), ..self }
    }

    /// The builder after `instr` was appended to the current block.
    pub open spec fn append(self, instr: Instr) -> BuilderView {
        BuilderView {
            blocks: self.blocks.update(
                self.current_block as int,
                LangBlockView {
                    instructions: self.blocks[self.current_block as int].instructions.push(instr),
                    ..self.blocks[self.current_block as int]
                },
            ),
            ..self
        }
    }

    /// The builder after an empty block was added behind the others.
    pub open spec fn with_new_block(self) -> BuilderView {
        BuilderView {
            blocks: self.blocks.push(LangBlockView { instructions: Seq::empty(), offset: 0 }),
            ..self
        }
    }

    /// The builder after the offset of block `block` was set to `offset`.
    pub open spec fn with_offset(self, block: int, offset: usize) -> BuilderView {
        BuilderView {
            blocks: self.blocks.update(block, LangBlockView { offset, ..self.blocks[block] }),
            ..self
        }
    }

    /// The builder after block `b` got the offset `offsets[b]`, for every
    /// block.
    pub open spec fn with_offsets(self, offsets: Seq<usize>) -> BuilderView {
        BuilderView {
            blocks: Seq::new(
                self.blocks.len(),
                |b: int| LangBlockView { offset: offsets[b], ..self.blocks[b] },
            ),
            ..self
        }
    }

    /// The instructions of each block, in order.
    pub open spec fn instructions(self) -> Seq<Seq<Instr>> {
        Seq::new(self.blocks.len(), |b: int| self.blocks[b].instructions)
    }
}

/// The views of `blocks`, in order.
pub open spec fn views_of(blocks: Seq<LangBlock>) -> Seq<LangBlockView> {
    Seq::new(blocks.len(), |b: int| blocks[b]@)
}

/// Appending an instruction of a builder's kind keeps the invariant.
pub proof fn lemma_append_keeps_wf(b: BuilderView, instr: Instr)
    requires
        b.wf(),
        from_builder(instr),
    ensures
        b.append(instr).wf(),
{
    let after = b.append(instr);
    assert forall|x: int, k: int|
        0 <= x < after.blocks.len() && 0 <= k < after.blocks[x].instructions.len() implies from_builder(
        #[trigger] after.blocks[x].instructions[k],
    ) by {
        if x == b.current_block && k == b.blocks[x].instructions.len() {
        } else {
            assert(after.blocks[x].instructions[k] == b.blocks[x].instructions[k]);
        }
    }
}

/// Adding an empty block keeps the invariant.
pub proof fn lemma_new_block_keeps_wf(b: BuilderView)
    requires
        b.wf(),
    ensures
        b.with_new_block().wf(),
{
    let after = b.with_new_block();
    assert forall|x: int, k: int|
        0 <= x < after.blocks.len() && 0 <= k < after.blocks[x].instructions.len() implies from_builder(
        #[trigger] after.blocks[x].instructions[k],
    ) by {
        assert(after.blocks[x].instructions[k] == b.blocks[x].instructions[k]);
    }
}

/// Recording a block's offset keeps the invariant and the instructions.
pub proof fn lemma_offset_keeps_wf(b: BuilderView, block: int, offset: usize)
    requires
        b.wf(),
        0 <= block < b.blocks.len(),
    ensures
        b.with_offset(block, offset).wf(),
        b.with_offset(block, offset).instructions() == b.instructions(),
{
    let after = b.with_offset(block, offset);
    assert forall|x: int, k: int|
        0 <= x < after.blocks.len() && 0 <= k < after.blocks[x].instructions.len() implies from_builder(
        #[trigger] after.blocks[x].instructions[k],
    ) by {
        assert(after.blocks[x].instructions[k] == b.blocks[x].instructions[k]);
    }
    assert(after.instructions() =~= b.instructions());
}

/// Minting a value keeps the invariant.
pub proof fn lemma_mint_keeps_wf(b: BuilderView, value_type: Type)
    requires
        b.wf(),
        b.values.len() <= usize::MAX,
    ensures
        b.mint(value_type).wf(),
{
    let after = b.mint(value_type);
    assert forall|i: int| 0 <= i < after.values.len() implies (#[trigger] after.values[i]).id
        == i by {
        if i < b.values.len() {
            assert(after.values[i] == b.values[i]);
        }
    }
}

/// The IR constructor of one function.
pub struct Builder {
    blocks: Vec<LangBlock>,
    values: Vec<Value>,
    current_block: usize,
}

impl View for Builder {
    type V = BuilderView;

    closed spec fn view(&self) -> BuilderView {
        BuilderView {
            blocks: views_of(self.blocks@),
            values: self.values@,
            current_block: self.current_block,
        }
    }
}

impl Builder {
    /// Whether the builder's invariant holds.  Every constructor establishes
    /// it and every method keeps it.
    pub open spec fn wf(&self) -> bool {
        self@.wf()
    }

    /// A builder with the empty entry block, which is also the current block,
    /// and no values.
    pub fn new() -> (builder: Self)
        ensures
            builder.wf(),
            builder@ == BuilderView::fresh(),
    {
        let mut builder = Builder { blocks: Vec::new(), values: Vec::new(), current_block: 0 };
        builder.blocks.push(LangBlock::new());
        assert(builder@.blocks =~= BuilderView::fresh().blocks);
        builder
    }

    /// Adds an empty block behind the others and returns its handle.  The
    /// current block stays what it was.
    pub fn create_block(&mut self) -> (block: Block)
        requires
            old(self).wf(),
        ensures
            final(self).wf(),
            block.id == old(self)@.blocks.len(),
            final(self)@ == old(self)@.with_new_block(),
    {
        proof {
            lemma_new_block_keeps_wf(self@);
        }
        self.blocks.push(LangBlock::new());
        assert(self@.blocks =~= old(self)@.with_new_block().blocks);
        Block::new(self.blocks.len() - 1)
    }

    /// Makes `block` the block that receives the following instructions.
    pub fn set_current_block(&mut self, block: Block)
        requires
            old(self).wf(),
            block.id < old(self)@.blocks.len(),
        ensures
            final(self).wf(),
            final(self)@ == (BuilderView { current_block: block.id, ..old(self)@ }),
    {
        self.current_block = block.get_id()
    }

    /// Mints a value of type `value_type`.
    fn mint(&mut self, value_type: Type) -> (value: Value)
        requires
            old(self).wf(),
        ensures
            final(self).wf(),
            value == old(self)@.next_value(value_type),
            final(self)@ == old(self)@.mint(value_type),
    {
        let new_value = Value::new(self.values.len(), value_type);
        proof {
            lemma_mint_keeps_wf(self@, value_type);
        }
        self.values.push(new_value);
        new_value
    }

    /// Appends `instr` to the current block.
    fn append(&mut self, instr: Instr)
        requires
            old(self).wf(),
            from_builder(instr),
        ensures
            final(self).wf(),
            final(self)@ == old(self)@.append(instr),
    {
        proof {
            lemma_append_keeps_wf(self@, instr);
        }
        let current = self.current_block;
        self.blocks[current].add_instr(instr);
        assert(self@.blocks =~= old(self)@.append(instr).blocks);
    }

    /// Appends the materialization of the 8-bit constant `value` to the
    /// current block and returns the value it defines, of type `i8`.
    pub fn const_i8(&mut self, value: i8) -> (new_value: Value)
        requires
            old(self).wf(),
        ensures
            final(self).wf(),
            new_value == old(self)@.next_value(Type { data_type: LangDataType::DataTypeI8 }),
            final(self)@ == old(self)@.mint(new_value.value_type).append(
                Instr::ConstInt8 { const_value: value, gen_value: new_value },
            ),
    {
        let new_value = self.mint(Type::i8());
        self.append(Instr::ConstInt8 { const_value: value, gen_value: new_value });
        new_value
    }

    /// Appends the materialization of the 16-bit constant `value` to the
    /// current block and returns the value it defines, of type `i16`.
    pub fn const_i16(&mut self, value: i16) -> (new_value: Value)
        requires
            old(self).wf(),
        ensures
            final(self).wf(),
            new_value == old(self)@.next_value(Type { data_type: LangDataType::DataTypeI16 }),
            final(self)@ == old(self)@.mint(new_value.value_type).append(
                Instr::ConstInt16 { const_value: value, gen_value: new_value },
            ),
    {
        let new_value = self.mint(Type::i16());
        self.append(Instr::ConstInt16 { const_value: value, gen_value: new_value });
        new_value
    }

    /// Appends the materialization of the 32-bit constant `value` to the
    /// current block and returns the value it defines, of type `i32`.
    pub fn const_i32(&mut self, value: i32) -> (new_value: Value)
        requires
            old(self).wf(),
        ensures
            final(self).wf(),
            new_value == old(self)@.next_value(Type { data_type: LangDataType::DataTypeI32 }),
            final(self)@ == old(self)@.mint(new_value.value_type).append(
                Instr::ConstInt32 { const_value: value, gen_value: new_value },
            ),
    {
        let new_value = self.mint(Type::i32());
        self.append(Instr::ConstInt32 { const_value: value, gen_value: new_value });
        new_value
    }

    /// Appends the materialization of the 64-bit constant `value` to the
    /// current block and returns the value it defines, of type `i64`.
    pub fn const_i64(&mut self, value: i64) -> (new_value: Value)
        requires
            old(self).wf(),
        ensures
            final(self).wf(),
            new_value == old(self)@.next_value(Type { data_type: LangDataType::DataTypeI64 }),
            final(self)@ == old(self)@.mint(new_value.value_type).append(
                Instr::ConstInt64 { const_value: value, gen_value: new_value },
            ),
    {
        let new_value = self.mint(Type::i64());
        self.append(Instr::ConstInt64 { const_value: value, gen_value: new_value });
        new_value
    }

    /// Appends an addition of `left_value` and `right_value` to the
    /// current block and returns the value it defines, which has the type of
    /// `left_value`.
    pub fn add(&mut self, left_value: Value, right_value: Value) -> (new_value: Value)
        requires
            old(self).wf(),
        ensures
            final(self).wf(),
            new_value == old(self)@.next_value(left_value.value_type),
            final(self)@ == old(self)@.mint(left_value.value_type).append(
                Instr::Add { left_value, right_value, gen_value: new_value },
            ),
    {
        let new_value = self.mint(left_value.get_type());
        self.append(Instr::Add { left_value, right_value, gen_value: new_value });
        new_value
    }

    /// Appends a subtraction of `left_value` and `right_value` to the
    /// current block and returns the value it defines, which has the type of
    /// `left_value`.
    pub fn sub(&mut self, left_value: Value, right_value: Value) -> (new_value: Value)
        requires
            old(self).wf(),
        ensures
            final(self).wf(),
            new_value == old(self)@.next_value(left_value.value_type),
            final(self)@ == old(self)@.mint(left_value.value_type).append(
                Instr::Sub { left_value, right_value, gen_value: new_value },
            ),
    {
        let new_value = self.mint(left_value.get_type());
        self.append(Instr::Sub { left_value, right_value, gen_value: new_value });
        new_value
    }

    /// Appends a multiplication of `left_value` and `right_value` to the
    /// current block and returns the value it defines, which has the type of
    /// `left_value`.
    pub fn mul(&mut self, left_value: Value, right_value: Value) -> (new_value: Value)
        requires
            old(self).wf(),
        ensures
            final(self).wf(),
            new_value == old(self)@.next_value(left_value.value_type),
            final(self)@ == old(self)@.mint(left_value.value_type).append(
                Instr::Mul { left_value, right_value, gen_value: new_value },
            ),
    {
        let new_value = self.mint(left_value.get_type());
        self.append(Instr::Mul { left_value, right_value, gen_value: new_value });
        new_value
    }

    /// Appends a division of `left_value` and `right_value` to the
    /// current block and returns the value it defines, which has the type of
    /// `left_value`.
    pub fn div(&mut self, left_value: Value, right_value: Value) -> (new_value: Value)
        requires
            old(self).wf(),
        ensures
            final(self).wf(),
            new_value == old(self)@.next_value(left_value.value_type),
            final(self)@ == old(self)@.mint(left_value.value_type).append(
                Instr::Div { left_value, right_value, gen_value: new_value },
            ),
    {
        let new_value = self.mint(left_value.get_type());
        self.append(Instr::Div { left_value, right_value, gen_value: new_value });
        new_value
    }

    /// Appends a test for equality of `left_value` and `right_value` to the
    /// current block and returns the value it defines, which has the type of
    /// `left_value`.
    pub fn eq(&mut self, left_value: Value, right_value: Value) -> (new_value: Value)
        requires
            old(self).wf(),
        ensures
            final(self).wf(),
            new_value == old(self)@.next_value(left_value.value_type),
            final(self)@ == old(self)@.mint(left_value.value_type).append(
                Instr::Eq { left_value, right_value, gen_value: new_value },
            ),
    {
        let new_value = self.mint(left_value.get_type());
        self.append(Instr::Eq { left_value, right_value, gen_value: new_value });
        new_value
    }

    /// Appends a test for difference of `left_value` and `right_value` to the
    /// current block and returns the value it defines, which has the type of
    /// `left_value`.
    pub fn diff(&mut self, left_value: Value, right_value: Value) -> (new_value: Value)
        requires
            old(self).wf(),
        ensures
            final(self).wf(),
            new_value == old(self)@.next_value(left_value.value_type),
            final(self)@ == old(self)@.mint(left_value.value_type).append(
                Instr::Diff { left_value, right_value, gen_value: new_value },
            ),
    {
        let new_value = self.mint(left_value.get_type());
        self.append(Instr::Diff { left_value, right_value, gen_value: new_value });
        new_value
    }

    /// Appends a test for greater of `left_value` and `right_value` to the
    /// current block and returns the value it defines, which has the type of
    /// `left_value`.
    pub fn larger(&mut self, left_value: Value, right_value: Value) -> (new_value: Value)
        requires
            old(self).wf(),
        ensures
            final(self).wf(),
            new_value == old(self)@.next_value(left_value.value_type),
            final(self)@ == old(self)@.mint(left_value.value_type).append(
                Instr::Larger { left_value, right_value, gen_value: new_value },
            ),
    {
        let new_value = self.mint(left_value.get_type());
        self.append(Instr::Larger { left_value, right_value, gen_value: new_value });
        new_value
    }

    /// Appends a test for greater or equal of `left_value` and `right_value` to the
    /// current block and returns the value it defines, which has the type of
    /// `left_value`.
    pub fn larger_eq(&mut self, left_value: Value, right_value: Value) -> (new_value: Value)
        requires
            old(self).wf(),
        ensures
            final(self).wf(),
            new_value == old(self)@.next_value(left_value.value_type),
            final(self)@ == old(self)@.mint(left_value.value_type).append(
                Instr::LargerEq { left_value, right_value, gen_value: new_value },
            ),
    {
        let new_value = self.mint(left_value.get_type());
        self.append(Instr::LargerEq { left_value, right_value, gen_value: new_value });
        new_value
    }

    /// Appends a test for less of `left_value` and `right_value` to the
    /// current block and returns the value it defines, which has the type of
    /// `left_value`.
    pub fn smaller(&mut self, left_value: Value, right_value: Value) -> (new_value: Value)
        requires
            old(self).wf(),
        ensures
            final(self).wf(),
            new_value == old(self)@.next_value(left_value.value_type),
            final(self)@ == old(self)@.mint(left_value.value_type).append(
                Instr::Smaller { left_value, right_value, gen_value: new_value },
            ),
    {
        let new_value = self.mint(left_value.get_type());
        self.append(Instr::Smaller { left_value, right_value, gen_value: new_value });
        new_value
    }

    /// Appends a test for less or equal of `left_value` and `right_value` to the
    /// current block and returns the value it defines, which has the type of
    /// `left_value`.
    pub fn smaller_eq(&mut self, left_value: Value, right_value: Value) -> (new_value: Value)
        requires
            old(self).wf(),
        ensures
            final(self).wf(),
            new_value == old(self)@.next_value(left_value.value_type),
            final(self)@ == old(self)@.mint(left_value.value_type).append(
                Instr::SmallerEq { left_value, right_value, gen_value: new_value },
            ),
    {
        let new_value = self.mint(left_value.get_type());
        self.append(Instr::SmallerEq { left_value, right_value, gen_value: new_value });
        new_value
    }

    /// Ends the current block with an unconditional jump to `block`.
    /// Whether `block` exists is looked at when code is generated.
    pub fn br(&mut self, block: Block)
        requires
            old(self).wf(),
        ensures
            final(self).wf(),
            final(self)@ == old(self)@.append(Instr::Br { block_to_br: block }),
    {
        let instr = Instr::Br { block_to_br: block };
        self.append(instr);
    }

    /// Ends the current block with a conditional jump: to `block_true` where
    /// `value_cond` is not zero, to `block_false` where it is.  Whether the
    /// two blocks exist is looked at when code is generated.
    pub fn cond_br(&mut self, block_true: Block, block_false: Block, value_cond: Value)
        requires
            old(self).wf(),
        ensures
            final(self).wf(),
            final(self)@ == old(self)@.append(
                Instr::CondBr {
                    block_to_br_true: block_true,
                    block_to_br_false: block_false,
                    value_cond,
                },
            ),
    {
        let instr = Instr::CondBr {
            block_to_br_true: block_true,
            block_to_br_false: block_false,
            value_cond,
        };
        self.append(instr);
    }

    /// Ends the current block with a return of `value`.  The instruction
    /// defines no value and none is minted; what is handed back is `value`
    /// itself.
    pub fn ret(&mut self, value: Value) -> (returned: Value)
        requires
            old(self).wf(),
        ensures
            final(self).wf(),
            returned == value,
            final(self)@ == old(self)@.append(Instr::Ret { value_to_return: value }),
    {
        self.append(Instr::Ret { value_to_return: value });
        value
    }

    /// Ends the current block with a return without a value.
    pub fn ret_void(&mut self)
        requires
            old(self).wf(),
        ensures
            final(self).wf(),
            final(self)@ == old(self)@.append(Instr::RetVoid),
    {
        self.append(Instr::RetVoid);
    }

    /// Looks for the first fault of the instructions, walking the blocks in
    /// creation order.  `Ok` means that the instructions are well-formed.
    pub fn check(&self) -> (result: Result<(), IrFault>)
        ensures
            result is Ok <==> well_formed(self@.instructions()),
            result matches Err(fault) ==> is_first_fault(self@.instructions(), fault),
    {
        assert(ir_of(self.blocks@) =~= self@.instructions());
        check_blocks(&self.blocks)
    }

    /// The blocks, in creation order.
    pub fn blocks(&self) -> (blocks: &Vec<LangBlock>)
        ensures
            views_of(blocks@) == self@.blocks,
    {
        &self.blocks
    }

    /// Records `offset` as the byte offset at which the code of block
    /// `block` begins.
    pub fn set_block_offset(&mut self, block: usize, offset: usize)
        requires
            old(self).wf(),
            block < old(self)@.blocks.len(),
        ensures
            final(self).wf(),
            final(self)@ == old(self)@.with_offset(block as int, offset),
    {
        proof {
            lemma_offset_keeps_wf(self@, block as int, offset);
        }
        self.blocks[block].set_offset(offset);
        assert(self@.blocks =~= old(self)@.with_offset(block as int, offset).blocks);
    }

    /// Records, for every block, the byte offset at which its code begins.
    pub fn record_offsets(&mut self, offsets: &Vec<usize>)
        requires
            old(self).wf(),
            offsets@.len() == old(self)@.blocks.len(),
        ensures
            final(self).wf(),
            final(self)@ == old(self)@.with_offsets(offsets@),
    {
        let count = self.blocks.len();
        let mut b: usize = 0;
        while b < count
            invariant
                b <= count,
                count == offsets@.len(),
                self.wf(),
                self@.blocks.len() == count,
                self@.values == old(self)@.values,
                self@.current_block == old(self)@.current_block,
                forall|x: int|
                    0 <= x < count ==> (#[trigger] self@.blocks[x]).instructions == old(
                        self,
                    )@.blocks[x].instructions,
                forall|x: int| 0 <= x < b ==> (#[trigger] self@.blocks[x]).offset == offsets@[x],
            decreases count - b,
        {
            self.set_block_offset(b, offsets[b]);
            b += 1;
        }
        assert(self@.blocks =~= old(self)@.with_offsets(offsets@).blocks);
    }
}

} // verus!
