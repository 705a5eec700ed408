//! Blocks: the handle by which a block is named, and the block's contents.

use vstd::prelude::*;
use crate::lang::instr::Instr;

verus! {

/// Names a block by its position in its function's block list.  Positions are
/// assigned in creation order from 0, the entry block, and never change.
#[derive(Clone, Copy, PartialEq, Eq, Structural, Debug)]
pub struct Block {
    pub id: usize,
}

impl Block {
    /// The handle of the block at position `id`.
    pub fn new(id: usize) -> (b: Self)
        ensures
            b.id == id,
    {
        Block { id }
    }

    /// The position of the block in its function's block list.
    pub fn get_id(&self) -> (id: usize)
        ensures
            id == self.id,
    {
        self.id
    }
}

/// What a block is: its instructions in order, and the byte offset at which
/// its first instruction begins in the encoded stream (0 until code has been
/// generated).
pub struct LangBlockView {
    pub instructions: Seq<Instr>,
    pub offset: usize,
}

/// An ordered sequence of instructions.
pub struct LangBlock {
    instructions: Vec<Instr>,
    offset: usize,
}

impl View for LangBlock {
    type V = LangBlockView;

    closed spec fn view(&self) -> LangBlockView {
        LangBlockView { instructions: self.instructions@, offset: self.offset }
    }
}

impl LangBlock {
    /// An empty block at offset 0.
    pub fn new() -> (b: Self)
        ensures
            b@.instructions == Seq::<Instr>::empty(),
            b@.offset == 0,
    {
        LangBlock { instructions: Vec::new(), offset: 0 }
    }

    /// Appends `instruction` at the end of the block.
    pub fn add_instr(&mut self, instruction: Instr)
        ensures
            final(self)@.instructions == old(self)@.instructions.push(instruction),
            final(self)@.offset == old(self)@.offset,
    {
        self.instructions.push(instruction)
    }

    /// The instructions of the block, in order.
    pub fn instructions(&self) -> (instrs: &Vec<Instr>)
        ensures
            instrs@ == self@.instructions,
    {
        &self.instructions
    }

    /// Records the byte offset at which the block's code begins.
    pub fn set_offset(&mut self, offset: usize)
        ensures
            final(self)@.offset == offset,
            final(self)@.instructions == old(self)@.instructions,
    {
        self.offset = offset
    }

    /// The byte offset recorded by the last `set_offset`, 0 if there was none.
    pub fn offset(&self) -> (offset: usize)
        ensures
            offset == self@.offset,
    {
        self.offset
    }
}

} // verus!
