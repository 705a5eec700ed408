//! Functions: a name, a signature, the builder that holds the instructions,
//! and, once code has been generated, the machine code and its address.

use vstd::prelude::*;
use crate::lang::builder::{Builder, BuilderView};
use crate::lang::lang_type::Type;

verus! {

/// What a function is.  `code` is empty until code has been generated;
/// `jit_ptr` is the address of the executable copy of the code, 0 until
/// there is one.
pub struct FunctionView {
    pub name: Seq<char>,
    pub args: Seq<Type>,
    pub return_type: Type,
    pub builder: BuilderView,
    pub code: Seq<u8>,
    pub jit_ptr: usize,
}

/// A named, typed unit of compilation.
pub struct Function {
    name: String,
    args: Vec<Type>,
    return_type: Type,
    builder: Builder,
    code: Vec<u8>,
    jit_ptr: usize,
}

impl View for Function {
    type V = FunctionView;

    closed spec fn view(&self) -> FunctionView {
        FunctionView {
            name: self.name@,
            args: self.args@,
            return_type: self.return_type,
            builder: self.builder@,
            code: self.code@,
            jit_ptr: self.jit_ptr,
        }
    }
}

impl FunctionView {
    /// A function without instructions, code or address.
    pub open spec fn fresh(name: Seq<char>, args: Seq<Type>, return_type: Type) -> FunctionView {
        FunctionView {
            name,
            args,
            return_type,
            builder: BuilderView::fresh(),
            code: Seq::empty(),
            jit_ptr: 0,
        }
    }
}

impl Function {
    /// Whether the function's builder satisfies its invariant.
    pub open spec fn wf(&self) -> bool {
        self@.builder.wf()
    }

    /// A function named `name` with the given signature, an empty entry
    /// block, no code and no address.
    pub fn new(name: &str, args: &Vec<Type>, return_type: Type) -> (f: Self)
        ensures
            f.wf(),
            f@ == FunctionView::fresh(name@, args@, return_type),
    {
        let mut copied: Vec<Type> = Vec::new();
        let mut i: usize = 0;
        while i < args.len()
            invariant
                i <= args.len(),
                copied@ == args@.subrange(0, i as int),
            decreases args.len() - i,
        {
            copied.push(args[i]);
            i += 1;
        }
        assert(args@.subrange(0, args@.len() as int) == args@);
        Function {
            name: name.to_owned(),
            args: copied,
            return_type,
            builder: Builder::new(),
            code: Vec::new(),
            jit_ptr: 0,
        }
    }

    /// The types of the arguments.
    pub fn args(&self) -> (args: &Vec<Type>)
        ensures
            args@ == self@.args,
    {
        &self.args
    }

    /// The type of the result.
    pub fn return_type(&self) -> (t: Type)
        ensures
            t == self@.return_type,
    {
        self.return_type
    }

    /// The builder through which the function's instructions are written.
    /// What the caller does to the builder is done to the function; nothing
    /// else of the function changes.
    pub fn builder(&mut self) -> (builder: &mut Builder)
        ensures
            builder@ == old(self)@.builder,
            final(self)@ == (FunctionView { builder: final(builder)@, ..old(self)@ }),
    {
        &mut self.builder
    }

    /// The function's instructions, for reading.
    pub fn ir(&self) -> (builder: &Builder)
        ensures
            builder@ == self@.builder,
    {
        &self.builder
    }

    /// Records, for every block, the byte offset at which its code begins.
    pub fn record_offsets(&mut self, offsets: &Vec<usize>)
        requires
            old(self).wf(),
            offsets@.len() == old(self)@.builder.blocks.len(),
        ensures
            final(self).wf(),
            final(self)@ == (FunctionView {
                builder: old(self)@.builder.with_offsets(offsets@),
                ..old(self)@
            }),
    {
        self.builder.record_offsets(offsets);
    }

    /// Replaces the function's code by a copy of `code`.
    pub fn set_code(&mut self, code: &Vec<u8>)
        ensures
            final(self)@ == (FunctionView { code: code@, ..old(self)@ }),
    {
        let mut copied: Vec<u8> = Vec::new();
        let mut i: usize = 0;
        while i < code.len()
            invariant
                i <= code.len(),
                copied@ == code@.subrange(0, i as int),
            decreases code.len() - i,
        {
            copied.push(code[i]);
            i += 1;
        }
        assert(code@.subrange(0, code@.len() as int) == code@);
        self.code = copied;
    }

    /// The machine code; empty until code has been generated.
    pub fn code(&self) -> (code: &Vec<u8>)
        ensures
            code@ == self@.code,
    {
        &self.code
    }

    /// The function's name.
    pub fn name(&self) -> (name: &String)
        ensures
            name@ == self@.name,
    {
        &self.name
    }

    /// Records the address of the executable copy of the code.
    pub fn set_jit_ptr(&mut self, ptr: usize)
        ensures
            final(self)@ == (FunctionView { jit_ptr: ptr, ..old(self)@ }),
    {
        self.jit_ptr = ptr;
    }

    /// The address of the executable copy of the code, 0 before there is one.
    pub fn jit_ptr(&self) -> (ptr: usize)
        ensures
            ptr == self@.jit_ptr,
    {
        self.jit_ptr
    }
}

} // verus!
