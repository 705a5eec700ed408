//! The registry of functions, and the unit of compilation: code is generated
//! for all registered functions at once.

use vstd::prelude::*;
use crate::gen::x86_64::gen::{
    can_generate,
    fails_with,
    generated,
    laid_out,
    GenError,
    X86_64Gen,
};
use crate::gen::x86_64::x86_64_caller::{CallerView, CallingConvention};
use crate::lang::function::{Function, FunctionView};
use crate::lang::lang_type::Type;

verus! {

/// What a compiler holds: the registered names in the order of their
/// registration, the function registered under each, and the convention
/// that calls out of generated code follow.
pub struct CompilerView {
    pub names: Seq<Seq<char>>,
    pub funcs: Seq<FunctionView>,
    pub convention: CallingConvention,
}

impl CompilerView {
    /// The invariant of the registry: each name has its function, and no name
    /// is registered twice.
    pub open spec fn wf(self) -> bool {
        &&& self.names.len() == self.funcs.len()
        &&& self.names.no_duplicates()
    }

    /// Whether the builder of every registered function satisfies its
    /// invariant.
    pub open spec fn ir_wf(self) -> bool {
        forall|i: int| 0 <= i < self.funcs.len() ==> (#[trigger] self.funcs[i]).builder.wf()
    }

    /// Whether a function is registered under `name`.
    pub open spec fn has(self, name: Seq<char>) -> bool {
        self.names.contains(name)
    }

    /// The position at which `name` is registered, where it is.
    pub open spec fn position(self, name: Seq<char>) -> int {
        choose|i: int| 0 <= i < self.names.len() && self.names[i] == name
    }

    /// The function registered under `name`, if there is one.
    pub open spec fn lookup(self, name: Seq<char>) -> Option<FunctionView> {
        if self.has(name) {
            Some(self.funcs[self.position(name)])
        } else {
            None
        }
    }

    /// The registry after `func` was registered under `name`, behind the
    /// functions that are already there.
    pub open spec fn with(self, name: Seq<char>, func: FunctionView) -> CompilerView {
        CompilerView { names: self.names.push(name), funcs: self.funcs.push(func), ..self }
    }

    /// The registry after an attempt to register a new function under
    /// `name`: unchanged where the name is taken.
    pub open spec fn register(self, name: Seq<char>, args: Seq<Type>, return_type: Type)
        -> CompilerView {
        if self.has(name) {
            self
        } else {
            self.with(name, FunctionView::fresh(name, args, return_type))
        }
    }

    /// Whether code can be generated for every registered function.
    pub open spec fn can_jit(self) -> bool {
        forall|i: int|
            0 <= i < self.funcs.len() ==> can_generate(
                i as usize,
                (#[trigger] self.funcs[i]).builder.instructions(),
                CallerView::of(self.convention),
            )
    }

    /// Whether `error` is what the generation for the registry fails with:
    /// the failure of the first function, in the order of registration, for
    /// which no code can be generated.
    pub open spec fn jit_fails_with(self, error: GenError) -> bool {
        &&& error.spec_func_id() < self.funcs.len()
        &&& fails_with(
            error.spec_func_id(),
            self.funcs[error.spec_func_id() as int].builder.instructions(),
            CallerView::of(self.convention),
            error,
        )
        &&& forall|i: int|
            0 <= i < error.spec_func_id() ==> can_generate(
                i as usize,
                (#[trigger] self.funcs[i]).builder.instructions(),
                CallerView::of(self.convention),
            )
    }

    /// Whether the code generated for every function is laid out as it
    /// should be: no longer than memory can hold, with the offset of each
    /// block where its code begins, and with every jump resolved.
    pub open spec fn all_laid_out(self) -> bool {
        forall|i: int|
            0 <= i < self.funcs.len() ==> laid_out(
                i as usize,
                (#[trigger] self.funcs[i]).builder.instructions(),
                CallerView::of(self.convention),
            )
    }

    /// The registry after code was generated for every function.
    pub open spec fn jitted(self) -> CompilerView {
        CompilerView {
            funcs: Seq::new(
                self.funcs.len(),
                |i: int| generated(self.funcs[i], i as usize, CallerView::of(self.convention)),
            ),
            ..self
        }
    }
}

/// In a registry that satisfies its invariant a name is registered at one
/// position only.
pub proof fn lemma_position(c: CompilerView, name: Seq<char>, i: int)
    requires
        c.wf(),
        0 <= i < c.names.len(),
        c.names[i] == name,
    ensures
        c.has(name),
        c.position(name) == i,
        c.lookup(name) == Some(c.funcs[i]),
{
    assert(c.names.contains(name));
}

/// Registering keeps the invariant of the registry, whatever becomes of the
/// new function afterwards.
pub proof fn lemma_with_keeps_wf(c: CompilerView, name: Seq<char>, func: FunctionView)
    requires
        c.wf(),
        !c.has(name),
    ensures
        c.with(name, func).wf(),
        c.with(name, func).lookup(name) == Some(func),
{
    let after = c.with(name, func);
    assert forall|i: int, j: int|
        0 <= i < after.names.len() && 0 <= j < after.names.len() && i != j implies after.names[i]
        != after.names[j] by {
        if i < c.names.len() {
            assert(c.names.contains(after.names[i]));
        }
        if j < c.names.len() {
            assert(c.names.contains(after.names[j]));
        }
    }
    lemma_position(after, name, c.names.len() as int);
}

/// A second registration under one name does not replace the first: the
/// registry after both attempts is the registry after the first, and where
/// the first succeeded the name still leads to the function with the first
/// attempt's argument and return types.
pub proof fn lemma_second_registration_changes_nothing(
    c: CompilerView,
    name: Seq<char>,
    first_args: Seq<Type>,
    first_return: Type,
    second_args: Seq<Type>,
    second_return: Type,
)
    requires
        c.wf(),
    ensures
        c.register(name, first_args, first_return).register(name, second_args, second_return)
            == c.register(name, first_args, first_return),
        !c.has(name) ==> c.register(name, first_args, first_return).register(
            name,
            second_args,
            second_return,
        ).lookup(name) == Some(FunctionView::fresh(name, first_args, first_return)),
{
    if !c.has(name) {
        lemma_with_keeps_wf(c, name, FunctionView::fresh(name, first_args, first_return));
    }
}

/// The registry of functions.
pub struct Compiler {
    names: Vec<String>,
    funcs: Vec<Function>,
    convention: CallingConvention,
}

impl View for Compiler {
    type V = CompilerView;

    closed spec fn view(&self) -> CompilerView {
        CompilerView {
            names: Seq::new(self.names@.len(), |i: int| self.names@[i]@),
            funcs: Seq::new(self.funcs@.len(), |i: int| self.funcs@[i]@),
            convention: self.convention,
        }
    }
}

impl Compiler {
    /// Whether the registry satisfies its invariant.  Every constructor
    /// establishes it and every method keeps it.
    pub open spec fn wf(&self) -> bool {
        self@.wf()
    }

    /// An empty registry whose generated calls follow the System V
    /// convention.
    pub fn new() -> (c: Self)
        ensures
            c.wf(),
            c@.names == Seq::<Seq<char>>::empty(),
            c@.funcs == Seq::<FunctionView>::empty(),
            c@.convention == CallingConvention::SystemV,
    {
        let c = Compiler {
            names: Vec::new(),
            funcs: Vec::new(),
            convention: CallingConvention::SystemV,
        };
        assert(c@.names =~= Seq::<Seq<char>>::empty());
        assert(c@.funcs =~= Seq::<FunctionView>::empty());
        c
    }

    /// Chooses the convention that calls out of generated code follow.
    pub fn set_convention(&mut self, convention: CallingConvention)
        ensures
            final(self)@ == (CompilerView { convention, ..old(self)@ }),
    {
        self.convention = convention;
    }

    /// The registered names, in the order of their registration.
    pub fn names(&self) -> (names: &Vec<String>)
        ensures
            names@.len() == self@.names.len(),
            forall|i: int| 0 <= i < names@.len() ==> (#[trigger] names@[i])@ == self@.names[i],
    {
        &self.names
    }

    /// The position at which `name` is registered.
    fn find(&self, name: &str) -> (found: Option<usize>)
        requires
            self.wf(),
        ensures
            found is Some == self@.has(name@),
            found matches Some(i) ==> i < self@.names.len() && self@.names[i as int] == name@
                && self@.position(name@) == i,
    {
        let key = name.to_owned();
        let mut i: usize = 0;
        while i < self.names.len()
            invariant
                i <= self.names.len(),
                self.wf(),
                key@ == name@,
                forall|j: int| 0 <= j < i ==> (#[trigger] self@.names[j]) != name@,
            decreases self.names.len() - i,
        {
            if self.names[i] == key {
                proof {
                    lemma_position(self@, name@, i as int);
                }
                return Some(i);
            }
            i += 1;
        }
        None
    }

    /// Registers a new function under `name` and returns it, so that its
    /// instructions can be built.  Where a function is already registered
    /// under `name`, nothing is returned and the registry stays as it is.
    pub fn add_func(&mut self, name: &str, args: &Vec<Type>, return_type: Type) -> (added: Option<
        &mut Function,
    >)
        requires
            old(self).wf(),
        ensures
            final(self).wf(),
            added is None == old(self)@.has(name@),
            added is None ==> final(self)@ == old(self)@,
            added matches Some(func) ==> {
                &&& func@ == FunctionView::fresh(name@, args@, return_type)
                &&& final(self)@.names == old(self)@.names.push(name@)
                &&& final(self)@.funcs == old(self)@.funcs.push(final(func)@)
                &&& final(self)@.convention == old(self)@.convention
            },
    {
        if self.find(name).is_some() {
            return None;
        }
        let new_func = Function::new(name, args, return_type);
        proof {
            lemma_with_keeps_wf(self@, name@, new_func@);
        }
        self.names.push(name.to_owned());
        self.funcs.push(new_func);
        let last = self.funcs.len() - 1;
        assert(self@.names =~= old(self)@.names.push(name@));
        Some(&mut self.funcs[last])
    }

    /// The function registered under `name`, if there is one.
    pub fn get_func_by_name(&self, name: &str) -> (found: Option<&Function>)
        requires
            self.wf(),
        ensures
            found is Some == self@.has(name@),
            found matches Some(func) ==> self@.lookup(name@) == Some(func@),
    {
        match self.find(name) {
            Some(i) => Some(&self.funcs[i]),
            None => None,
        }
    }

    /// The function registered under `name`, if there is one, for writing.
    /// What the caller does to the function is done to the registered
    /// function; the name under which it is registered stays.
    pub fn get_func_by_name_mut(&mut self, name: &str) -> (found: Option<&mut Function>)
        requires
            old(self).wf(),
        ensures
            final(self).wf(),
            found is Some == old(self)@.has(name@),
            found is None ==> final(self)@ == old(self)@,
            found matches Some(func) ==> {
                &&& old(self)@.lookup(name@) == Some(func@)
                &&& final(self)@.names == old(self)@.names
                &&& final(self)@.funcs == old(self)@.funcs.update(
                    old(self)@.position(name@),
                    final(func)@,
                )
                &&& final(self)@.convention == old(self)@.convention
            },
    {
        match self.find(name) {
            Some(i) => Some(&mut self.funcs[i]),
            None => None,
        }
    }

    /// Generates the machine code of every registered function.  The
    /// function registered as the `i`th is generated as the function
    /// numbered `i`.  Names, signatures, instructions and addresses stay as
    /// they are.  Where the generation fails for a function, the registry
    /// stays as it is and the failure of the first such function is
    /// returned.
    #[verifier::rlimit(50)]
    pub fn jit(&mut self) -> (result: Result<(), GenError>)
        requires
            old(self).wf(),
            old(self)@.ir_wf(),
        ensures
            final(self).wf(),
            final(self)@.ir_wf(),
            result is Ok <==> old(self)@.can_jit(),
            result is Ok ==> final(self)@ == old(self)@.jitted() && old(self)@.all_laid_out(),
            result matches Err(error) ==> final(self)@ == old(self)@ && old(self)@.jit_fails_with(
                error,
            ),
    {
        let mut gen = X86_64Gen::new(self.convention);
        assert forall|i: int| 0 <= i < self.funcs@.len() implies (#[trigger] self.funcs@[i]).wf() by {
            assert(self@.funcs[i].builder.wf());
        }
        let result = gen.gen(&mut self.funcs);
        proof {
            assert forall|i: int| 0 <= i < self@.funcs.len() implies (
            #[trigger] self@.funcs[i]).builder.wf() by {
                assert(self.funcs@[i].wf());
            }
            assert(old(self)@.can_jit() <==> forall|i: int|
                0 <= i < old(self).funcs@.len() ==> can_generate(
                    i as usize,
                    (#[trigger] old(self).funcs@[i])@.builder.instructions(),
                    CallerView::of(old(self).convention),
                )) by {
                if old(self)@.can_jit() {
                    assert forall|i: int| 0 <= i < old(self).funcs@.len() implies can_generate(
                        i as usize,
                        (#[trigger] old(self).funcs@[i])@.builder.instructions(),
                        CallerView::of(old(self).convention),
                    ) by {
                        assert(old(self)@.funcs[i] == old(self).funcs@[i]@);
                    }
                }
                if forall|i: int|
                    0 <= i < old(self).funcs@.len() ==> can_generate(
                        i as usize,
                        (#[trigger] old(self).funcs@[i])@.builder.instructions(),
                        CallerView::of(old(self).convention),
                    ) {
                    assert forall|i: int| 0 <= i < old(self)@.funcs.len() implies can_generate(
                        i as usize,
                        (#[trigger] old(self)@.funcs[i]).builder.instructions(),
                        CallerView::of(old(self)@.convention),
                    ) by {
                        assert(old(self)@.funcs[i] == old(self).funcs@[i]@);
                    }
                }
            }
            match result {
                Ok(()) => {
                    assert(self@.funcs =~= old(self)@.jitted().funcs);
                    assert forall|i: int| 0 <= i < old(self)@.funcs.len() implies laid_out(
                        i as usize,
                        (#[trigger] old(self)@.funcs[i]).builder.instructions(),
                        CallerView::of(old(self)@.convention),
                    ) by {
                        assert(old(self)@.funcs[i] == old(self).funcs@[i]@);
                        assert(self.funcs@[i]@ == generated(
                            old(self).funcs@[i]@,
                            i as usize,
                            CallerView::of(old(self).convention),
                        ));
                    }
                },
                Err(error) => {
                    assert(self@.funcs =~= old(self)@.funcs);
                    assert forall|i: int| 0 <= i < error.spec_func_id() implies can_generate(
                        i as usize,
                        (#[trigger] old(self)@.funcs[i]).builder.instructions(),
                        CallerView::of(old(self)@.convention),
                    ) by {
                        assert(old(self)@.funcs[i] == old(self).funcs@[i]@);
                    }
                },
            }
        }
        result
    }
}

} // verus!
