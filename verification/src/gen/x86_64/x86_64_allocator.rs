//! Physical registers and the pool allocator that hands them to values.

use vstd::prelude::*;
use std::collections::HashMap;
use crate::lang::value::Value;

verus! {

broadcast use vstd::std_specs::hash::group_hash_axioms;

/// A physical register: sixteen general-purpose and sixteen vector registers.
#[derive(Clone, Copy, PartialEq, Eq, Structural, Debug)]
pub enum X86Register {
    /// Scratch register and integer return register; never in the pool.
    RAX,
    RCX,
    RDX,
    RBX,
    /// Stack pointer.
    RSP,
    /// Base pointer.
    RBP,
    RDI,
    RSI,
    R8,
    R9,
    R10,
    R11,
    R12,
    R13,
    R14,
    R15,
    /// Vector return register.
    XMM0,
    XMM1,
    XMM2,
    XMM3,
    XMM4,
    XMM5,
    XMM6,
    XMM7,
    XMM8,
    XMM9,
    XMM10,
    XMM11,
    XMM12,
    XMM13,
    XMM14,
    XMM15,
}

impl X86Register {
    /// Whether this is a vector register.
    pub open spec fn spec_is_xmm(&self) -> bool {
        match self {
            X86Register::XMM0
            | X86Register::XMM1
            | X86Register::XMM2
            | X86Register::XMM3
            | X86Register::XMM4
            | X86Register::XMM5
            | X86Register::XMM6
            | X86Register::XMM7
            | X86Register::XMM8
            | X86Register::XMM9
            | X86Register::XMM10
            | X86Register::XMM11
            | X86Register::XMM12
            | X86Register::XMM13
            | X86Register::XMM14
            | X86Register::XMM15 => true,
            _ => false,
        }
    }

    /// The number by which the architecture names the register within its
    /// class.
    pub open spec fn spec_encode(&self) -> u8 {
        match self {
            X86Register::RAX => 0,
            X86Register::RCX => 1,
            X86Register::RDX => 2,
            X86Register::RBX => 3,
            X86Register::RSP => 4,
            X86Register::RBP => 5,
            X86Register::RDI => 7,
            X86Register::RSI => 6,
            X86Register::R8 => 8,
            X86Register::R9 => 9,
            X86Register::R10 => 10,
            X86Register::R11 => 11,
            X86Register::R12 => 12,
            X86Register::R13 => 13,
            X86Register::R14 => 14,
            X86Register::R15 => 15,
            X86Register::XMM0 => 0,
            X86Register::XMM1 => 1,
            X86Register::XMM2 => 2,
            X86Register::XMM3 => 3,
            X86Register::XMM4 => 4,
            X86Register::XMM5 => 5,
            X86Register::XMM6 => 6,
            X86Register::XMM7 => 7,
            X86Register::XMM8 => 8,
            X86Register::XMM9 => 9,
            X86Register::XMM10 => 10,
            X86Register::XMM11 => 11,
            X86Register::XMM12 => 12,
            X86Register::XMM13 => 13,
            X86Register::XMM14 => 14,
            X86Register::XMM15 => 15,
        }
    }

    /// Whether this is a vector register.
    #[verifier::when_used_as_spec(spec_is_xmm)]
    pub fn is_xmm(&self) -> (b: bool)
        ensures
            b == self.spec_is_xmm(),
    {
        match self {
            X86Register::RAX
            | X86Register::RCX
            | X86Register::RDX
            | X86Register::RBX
            | X86Register::RSP
            | X86Register::RBP
            | X86Register::RDI
            | X86Register::RSI
            | X86Register::R8
            | X86Register::R9
            | X86Register::R10
            | X86Register::R11
            | X86Register::R12
            | X86Register::R13
            | X86Register::R14
            | X86Register::R15 => false,
            _ => true,
        }
    }

    /// The number by which the encoder names the register.
    #[verifier::when_used_as_spec(spec_encode)]
    pub fn encode(&self) -> (n: u8)
        ensures
            n == self.spec_encode(),
            n < 16,
    {
        match self {
            X86Register::RAX => { 0 },
            X86Register::RCX => { 1 },
            X86Register::RDX => { 2 },
            X86Register::RBX => { 3 },
            X86Register::RSP => { 4 },
            X86Register::RBP => { 5 },
            X86Register::RDI => { 7 },
            X86Register::RSI => { 6 },
            X86Register::R8 => { 8 },
            X86Register::R9 => { 9 },
            X86Register::R10 => { 10 },
            X86Register::R11 => { 11 },
            X86Register::R12 => { 12 },
            X86Register::R13 => { 13 },
            X86Register::R14 => { 14 },
            X86Register::R15 => { 15 },
            X86Register::XMM0 => { 0 },
            X86Register::XMM1 => { 1 },
            X86Register::XMM2 => { 2 },
            X86Register::XMM3 => { 3 },
            X86Register::XMM4 => { 4 },
            X86Register::XMM5 => { 5 },
            X86Register::XMM6 => { 6 },
            X86Register::XMM7 => { 7 },
            X86Register::XMM8 => { 8 },
            X86Register::XMM9 => { 9 },
            X86Register::XMM10 => { 10 },
            X86Register::XMM11 => { 11 },
            X86Register::XMM12 => { 12 },
            X86Register::XMM13 => { 13 },
            X86Register::XMM14 => { 14 },
            X86Register::XMM15 => { 15 },
        }
    }
}

/// A register is known by its class and its number: two registers of one
/// class with one number are the same register, and every number is below 16.
pub proof fn lemma_encode_injective(a: X86Register, b: X86Register)
    ensures
        a.spec_encode() < 16,
        a.spec_is_xmm() == b.spec_is_xmm() && a.spec_encode() == b.spec_encode() ==> a == b,
{
}

/// The registers a fresh allocator can hand out, in the order in which it
/// tries them: thirteen general-purpose registers, then the sixteen vector
/// registers.  The accumulator, `RBX` and the stack pointer are never handed
/// out.
pub open spec fn initial_pool() -> Seq<X86Register> {
    seq![
        X86Register::RCX,
        X86Register::RDX,
        X86Register::RBP,
        X86Register::RDI,
        X86Register::RSI,
        X86Register::R8,
        X86Register::R9,
        X86Register::R10,
        X86Register::R11,
        X86Register::R12,
        X86Register::R13,
        X86Register::R14,
        X86Register::R15,
        X86Register::XMM0,
        X86Register::XMM1,
        X86Register::XMM2,
        X86Register::XMM3,
        X86Register::XMM4,
        X86Register::XMM5,
        X86Register::XMM6,
        X86Register::XMM7,
        X86Register::XMM8,
        X86Register::XMM9,
        X86Register::XMM10,
        X86Register::XMM11,
        X86Register::XMM12,
        X86Register::XMM13,
        X86Register::XMM14,
        X86Register::XMM15,
    ]
}

/// The test that holds of every register but `reg`.
pub open spec fn other_than(reg: X86Register) -> spec_fn(X86Register) -> bool {
    |r: X86Register| r != reg
}

/// The state of the allocator: the free registers in the order in which they
/// are tried, the register assigned to each value, by the value's id, and
/// whether a value has ever been refused a register because the pool had
/// none of its class left.
pub struct AllocatorView {
    pub free: Seq<X86Register>,
    pub assigned: Map<usize, X86Register>,
    pub exhausted: bool,
}

impl AllocatorView {
    /// The state of a fresh allocator.
    pub open spec fn initial() -> AllocatorView {
        AllocatorView { free: initial_pool(), assigned: Map::empty(), exhausted: false }
    }

    /// Whether position `i` holds the first free register of the class.
    pub open spec fn is_first_free(self, xmm: bool, i: int) -> bool {
        &&& 0 <= i < self.free.len()
        &&& self.free[i].spec_is_xmm() == xmm
        &&& forall|j: int| 0 <= j < i ==> (#[trigger] self.free[j]).spec_is_xmm() != xmm
    }

    /// Whether a register of the class (vector or general-purpose) is free.
    pub open spec fn has_free(self, xmm: bool) -> bool {
        exists|i: int| 0 <= i < self.free.len() && (#[trigger] self.free[i]).spec_is_xmm() == xmm
    }

    /// The first free register of the class, where there is one.
    pub open spec fn first_free(self, xmm: bool) -> X86Register {
        self.free[choose|i: int| self.is_first_free(xmm, i)]
    }

    /// `reg` leaves the free registers and belongs to the value `id` from now
    /// on.
    pub open spec fn assign(self, id: usize, reg: X86Register) -> AllocatorView {
        AllocatorView {
            free: self.free.filter(other_than(reg)),
            assigned: self.assigned.insert(id, reg),
            ..self
        }
    }

    /// The register that allocating for `value` yields: the first free one of
    /// the value's class, none if the class is exhausted.
    pub open spec fn allocate_result(self, value: Value) -> Option<X86Register> {
        if self.has_free(value.value_type.spec_is_float()) {
            Some(self.first_free(value.value_type.spec_is_float()))
        } else {
            None
        }
    }

    /// The state after allocating for `value`.  A refusal is remembered.
    pub open spec fn allocate(self, value: Value) -> AllocatorView {
        match self.allocate_result(value) {
            Some(reg) => self.assign(value.id, reg),
            None => AllocatorView { exhausted: true, ..self },
        }
    }

    /// The register in which `value` is found: the one it already has, else a
    /// newly allocated one, else the accumulator.
    pub open spec fn obtain_result(self, value: Value) -> X86Register {
        if self.assigned.contains_key(value.id) {
            self.assigned[value.id]
        } else {
            match self.allocate_result(value) {
                Some(reg) => reg,
                None => X86Register::RAX,
            }
        }
    }

    /// The state after obtaining a register for `value`.
    pub open spec fn obtain(self, value: Value) -> AllocatorView {
        if self.assigned.contains_key(value.id) {
            self
        } else {
            self.allocate(value)
        }
    }

    /// The state after the register of `value` was returned to the pool: the
    /// value has no register any more, and the register is free again,
    /// behind the registers that are free already.
    pub open spec fn release(self, value: Value) -> AllocatorView {
        if self.assigned.contains_key(value.id) {
            AllocatorView {
                free: self.free.push(self.assigned[value.id]),
                assigned: self.assigned.remove(value.id),
                ..self
            }
        } else {
            self
        }
    }

    /// The invariant of the allocator: every free register is a register of
    /// the pool, is free once, and is assigned to no value; every assigned
    /// register is a register of the pool; and no register is assigned to two
    /// values.
    pub open spec fn inv(self) -> bool {
        &&& self.free.no_duplicates()
        &&& forall|i: int| 0 <= i < self.free.len() ==> initial_pool().contains(#[trigger] self.free[i])
        &&& forall|i: int| 0 <= i < self.free.len() ==> !self.holds(#[trigger] self.free[i])
        &&& forall|id: usize| #[trigger]
            self.assigned.contains_key(id) ==> initial_pool().contains(self.assigned[id])
        &&& forall|a: usize, b: usize|
            self.assigned.contains_key(a) && self.assigned.contains_key(b) && a != b
                ==> #[trigger] self.assigned[a] != #[trigger] self.assigned[b]
    }

    /// Whether `reg` is assigned to some value.
    pub open spec fn holds(self, reg: X86Register) -> bool {
        self.assigned.contains_value(reg)
    }
}

/// What is left of `s` without `reg` are the members of `s` other than
/// `reg`, each once if each was there once.
#[verifier::rlimit(50)]
pub proof fn lemma_without(s: Seq<X86Register>, reg: X86Register)
    ensures
        forall|x: X86Register|
            #[trigger] s.filter(other_than(reg)).contains(x) <==> s.contains(x) && x != reg,
        s.no_duplicates() ==> s.filter(other_than(reg)).no_duplicates(),
    decreases s.len(),
{
    reveal(Seq::filter);
    let keep = other_than(reg);
    let out = s.filter(keep);
    if s.len() > 0 {
        let front = s.drop_last();
        let last = s.last();
        lemma_without(front, reg);
        assert forall|x: X86Register| #[trigger] out.contains(x) <==> s.contains(x) && x
            != reg by {
            if out.contains(x) {
                let i = choose|i: int| 0 <= i < out.len() && out[i] == x;
                if keep(last) && i == out.len() - 1 {
                    assert(s[s.len() - 1] == x);
                } else {
                    assert(front.filter(keep)[i] == x);
                    assert(front.filter(keep).contains(x));
                    let j = choose|j: int| 0 <= j < front.len() && front[j] == x;
                    assert(s[j] == x);
                }
            }
            if s.contains(x) && x != reg {
                let j = choose|j: int| 0 <= j < s.len() && s[j] == x;
                if j == s.len() - 1 {
                    assert(out[out.len() - 1] == x);
                } else {
                    assert(front[j] == x);
                    assert(front.contains(x));
                    assert(front.filter(keep).contains(x));
                    let i = choose|i: int|
                        0 <= i < front.filter(keep).len() && front.filter(keep)[i] == x;
                    assert(out[i] == x);
                }
            }
        }
        if s.no_duplicates() {
            assert(front.no_duplicates());
            if keep(last) {
                assert(!front.contains(last)) by {
                    if front.contains(last) {
                        let j = choose|j: int| 0 <= j < front.len() && front[j] == last;
                        assert(s[j] == s[s.len() - 1]);
                    }
                }
                assert(!front.filter(keep).contains(last));
                assert forall|i: int, j: int|
                    0 <= i < out.len() && 0 <= j < out.len() && i != j implies out[i]
                    != out[j] by {
                    if i == out.len() - 1 {
                        assert(front.filter(keep)[j] == out[j]);
                        assert(front.filter(keep).contains(out[j]));
                    } else if j == out.len() - 1 {
                        assert(front.filter(keep)[i] == out[i]);
                        assert(front.filter(keep).contains(out[i]));
                    } else {
                        assert(front.filter(keep)[i] == out[i]);
                        assert(front.filter(keep)[j] == out[j]);
                    }
                }
            }
        }
    }
}

/// Assigning a free register of the pool to a value keeps the invariant.
#[verifier::rlimit(50)]
pub proof fn lemma_assign_keeps_inv(a: AllocatorView, id: usize, i: int)
    requires
        a.inv(),
        0 <= i < a.free.len(),
    ensures
        a.assign(id, a.free[i]).inv(),
        !a.holds(a.free[i]),
        initial_pool().contains(a.free[i]),
{
    let reg = a.free[i];
    let after = a.assign(id, reg);
    lemma_without(a.free, reg);
    assert forall|k: int| 0 <= k < after.free.len() implies initial_pool().contains(
        #[trigger] after.free[k],
    ) && !after.holds(after.free[k]) by {
        let x = after.free[k];
        assert(after.free.contains(x));
        assert(a.free.contains(x) && x != reg);
        let j = choose|j: int| 0 <= j < a.free.len() && a.free[j] == x;
        assert(!a.holds(a.free[j]));
        if after.holds(x) {
            let w = choose|w: usize| after.assigned.contains_key(w) && after.assigned[w] == x;
            if w != id {
                assert(a.assigned.contains_key(w) && a.assigned[w] == x);
            }
        }
    }
    assert forall|w: usize| #[trigger] after.assigned.contains_key(w) implies initial_pool().contains(
        after.assigned[w],
    ) by {
        if w != id {
            assert(a.assigned.contains_key(w));
        }
    }
    assert forall|x: usize, y: usize|
        after.assigned.contains_key(x) && after.assigned.contains_key(y) && x != y implies (
    #[trigger] after.assigned[x]) != (#[trigger] after.assigned[y]) by {
        if x == id {
            assert(a.assigned.contains_key(y));
            if a.assigned[y] == reg {
                assert(a.holds(a.free[i]));
            }
        } else if y == id {
            assert(a.assigned.contains_key(x));
            if a.assigned[x] == reg {
                assert(a.holds(a.free[i]));
            }
        } else {
            assert(a.assigned.contains_key(x) && a.assigned.contains_key(y));
        }
    }
}

/// Allocating and obtaining keep the invariant.  A register that is handed
/// out for a value without one was assigned to no value before, has the
/// class of the value, and is a register of the pool: it is neither the
/// accumulator nor the stack pointer.
#[verifier::rlimit(50)]
pub proof fn lemma_allocate_keeps_inv(a: AllocatorView, value: Value)
    requires
        a.inv(),
    ensures
        a.allocate(value).inv(),
        a.obtain(value).inv(),
        a.allocate_result(value) matches Some(reg) ==> {
            &&& !a.holds(reg)
            &&& a.free.contains(reg)
            &&& initial_pool().contains(reg)
            &&& reg.spec_is_xmm() == value.value_type.spec_is_float()
            &&& reg != X86Register::RAX
            &&& reg != X86Register::RSP
            &&& reg != X86Register::RBX
            &&& a.allocate(value).assigned == a.assigned.insert(value.id, reg)
        },
        a.allocate_result(value) is None ==> a.allocate(value).free == a.free && a.allocate(
            value,
        ).assigned == a.assigned,
{
    let xmm = value.value_type.spec_is_float();
    if a.has_free(xmm) {
        let i = lemma_has_first_free(a, xmm);
        lemma_first_free(a, xmm, i);
        lemma_assign_keeps_inv(a, value.id, i);
        lemma_pool_members(a.free[i]);
    }
}

/// The pool holds neither the accumulator nor `RBX` nor the stack pointer.
pub proof fn lemma_pool_members(reg: X86Register)
    requires
        initial_pool().contains(reg),
    ensures
        reg != X86Register::RAX,
        reg != X86Register::RBX,
        reg != X86Register::RSP,
{
    let i = choose|i: int| 0 <= i < initial_pool().len() && initial_pool()[i] == reg;
    assert(initial_pool()[i] == reg);
}

/// Returning a register to the pool keeps the invariant; afterwards the
/// value has no register, the register is held by no value, and it is free
/// exactly once.
#[verifier::rlimit(50)]
pub proof fn lemma_release_keeps_inv(a: AllocatorView, value: Value)
    requires
        a.inv(),
    ensures
        a.release(value).inv(),
        !a.release(value).assigned.contains_key(value.id),
        a.assigned.contains_key(value.id) ==> {
            &&& !a.release(value).holds(a.assigned[value.id])
            &&& a.release(value).free.contains(a.assigned[value.id])
        },
{
    if a.assigned.contains_key(value.id) {
        let reg = a.assigned[value.id];
        let after = a.release(value);
        assert(!after.holds(reg)) by {
            if after.holds(reg) {
                let w = choose|w: usize| after.assigned.contains_key(w) && after.assigned[w] == reg;
                assert(a.assigned.contains_key(w) && w != value.id);
            }
        }
        assert(!a.free.contains(reg)) by {
            if a.free.contains(reg) {
                let j = choose|j: int| 0 <= j < a.free.len() && a.free[j] == reg;
                assert(a.holds(a.free[j]));
            }
        }
        assert(after.free[a.free.len() as int] == reg);
        assert forall|i: int, j: int|
            0 <= i < after.free.len() && 0 <= j < after.free.len() && i != j implies after.free[i]
            != after.free[j] by {
            if i == a.free.len() {
                assert(a.free[j] == after.free[j]);
                assert(a.free.contains(a.free[j]));
            } else if j == a.free.len() {
                assert(a.free[i] == after.free[i]);
                assert(a.free.contains(a.free[i]));
            }
        }
        assert forall|k: int| 0 <= k < after.free.len() implies initial_pool().contains(
            #[trigger] after.free[k],
        ) && !after.holds(after.free[k]) by {
            if k < a.free.len() {
                assert(after.free[k] == a.free[k]);
                assert(!a.holds(a.free[k]));
                if after.holds(after.free[k]) {
                    let w = choose|w: usize|
                        after.assigned.contains_key(w) && after.assigned[w] == after.free[k];
                    assert(a.assigned.contains_key(w) && a.assigned[w] == a.free[k]);
                }
            }
        }
        assert forall|w: usize| #[trigger] after.assigned.contains_key(w) implies initial_pool().contains(
            after.assigned[w],
        ) by {
            assert(a.assigned.contains_key(w));
        }
    }
}

/// A fresh allocator satisfies the invariant.
pub proof fn lemma_initial_inv()
    ensures
        AllocatorView::initial().inv(),
{
    let a = AllocatorView::initial();
    assert(a.free.no_duplicates());
    assert forall|i: int| 0 <= i < a.free.len() implies !a.holds(#[trigger] a.free[i]) by {
    }
}

/// The first free register of a class is determined by its position.
pub proof fn lemma_first_free(a: AllocatorView, xmm: bool, i: int)
    requires
        a.is_first_free(xmm, i),
    ensures
        a.has_free(xmm),
        a.first_free(xmm) == a.free[i],
{
    let k = choose|k: int| a.is_first_free(xmm, k);
    if k < i {
        assert(a.free[k].spec_is_xmm() != xmm);
    }
    if i < k {
        assert(a.free[i].spec_is_xmm() != xmm);
    }
}

/// Where a register of the class is free, one of them is the first.
pub proof fn lemma_has_first_free(a: AllocatorView, xmm: bool) -> (i: int)
    requires
        a.has_free(xmm),
    ensures
        a.is_first_free(xmm, i),
{
    let k = choose|k: int| 0 <= k < a.free.len() && (#[trigger] a.free[k]).spec_is_xmm() == xmm;
    lemma_first_below(a, xmm, k)
}

proof fn lemma_first_below(a: AllocatorView, xmm: bool, k: int) -> (i: int)
    requires
        0 <= k < a.free.len(),
        a.free[k].spec_is_xmm() == xmm,
    ensures
        a.is_first_free(xmm, i),
    decreases k,
{
    if exists|j: int| 0 <= j < k && (#[trigger] a.free[j]).spec_is_xmm() == xmm {
        let j = choose|j: int| 0 <= j < k && (#[trigger] a.free[j]).spec_is_xmm() == xmm;
        lemma_first_below(a, xmm, j)
    } else {
        k
    }
}

/// Simple pool allocator without spilling.
pub struct X86_64Allocator {
    free_registers: Vec<X86Register>,
    allocated_registers: HashMap<usize, X86Register>,
    exhausted: bool,
}

impl View for X86_64Allocator {
    type V = AllocatorView;

    closed spec fn view(&self) -> AllocatorView {
        AllocatorView {
            free: self.free_registers@,
            assigned: self.allocated_registers@,
            exhausted: self.exhausted,
        }
    }
}

impl X86_64Allocator {
    /// An allocator with every register of the pool free and no value placed.
    pub fn new() -> (a: Self)
        ensures
            a@ == AllocatorView::initial(),
            a@.inv(),
    {
        proof {
            lemma_initial_inv();
        }
        let registers = vec![
            X86Register::RCX,
            X86Register::RDX,
            X86Register::RBP,
            X86Register::RDI,
            X86Register::RSI,
            X86Register::R8,
            X86Register::R9,
            X86Register::R10,
            X86Register::R11,
            X86Register::R12,
            X86Register::R13,
            X86Register::R14,
            X86Register::R15,
            X86Register::XMM0,
            X86Register::XMM1,
            X86Register::XMM2,
            X86Register::XMM3,
            X86Register::XMM4,
            X86Register::XMM5,
            X86Register::XMM6,
            X86Register::XMM7,
            X86Register::XMM8,
            X86Register::XMM9,
            X86Register::XMM10,
            X86Register::XMM11,
            X86Register::XMM12,
            X86Register::XMM13,
            X86Register::XMM14,
            X86Register::XMM15,
        ];
        assert(registers@ =~= initial_pool());
        X86_64Allocator {
            free_registers: registers,
            allocated_registers: HashMap::new(),
            exhausted: false,
        }
    }

    /// The register that holds `value`.  A value that has none yet gets the
    /// first free register of its class; where none is free the accumulator
    /// is handed back, nothing is assigned and the refusal is remembered.
    pub fn obtain_register_for_value(&mut self, value: Value) -> (reg: X86Register)
        requires
            old(self)@.inv(),
        ensures
            final(self)@.inv(),
            reg == old(self)@.obtain_result(value),
            final(self)@ == old(self)@.obtain(value),
            old(self)@.assigned.contains_key(value.id) || old(self)@.has_free(
                value.value_type.spec_is_float(),
            ) ==> {
                &&& initial_pool().contains(reg)
                &&& reg != X86Register::RAX
                &&& reg != X86Register::RSP
                &&& final(self)@.assigned.contains_key(value.id)
                &&& final(self)@.assigned[value.id] == reg
            },
            !old(self)@.assigned.contains_key(value.id) && old(self)@.has_free(
                value.value_type.spec_is_float(),
            ) ==> {
                &&& !old(self)@.holds(reg)
                &&& reg.spec_is_xmm() == value.value_type.spec_is_float()
            },
    {
        proof {
            if self@.assigned.contains_key(value.id) {
                lemma_pool_members(self@.assigned[value.id]);
            }
        }
        proof {
            lemma_allocate_keeps_inv(self@, value);
        }
        if self.is_value_allocated(value) {
            let id = value.get_id();
            let found = self.allocated_registers.get(&id);
            return *found.unwrap();
        }
        let allocation = self.allocate_register(value);
        if allocation.is_some() {
            return allocation.unwrap();
        }
        X86Register::RAX
    }

    /// Assigns to `value` the first free register of its class (a vector
    /// register for a floating-point value, a general-purpose one otherwise).
    /// Where that class has none free, returns `None`, assigns nothing and
    /// remembers the refusal.
    pub fn allocate_register(&mut self, value: Value) -> (reg: Option<X86Register>)
        requires
            old(self)@.inv(),
        ensures
            final(self)@.inv(),
            reg == old(self)@.allocate_result(value),
            final(self)@ == old(self)@.allocate(value),
            reg is None <==> !old(self)@.has_free(value.value_type.spec_is_float()),
            reg matches Some(r) ==> {
                &&& r.spec_is_xmm() == value.value_type.spec_is_float()
                &&& old(self)@.free.contains(r)
                &&& !old(self)@.holds(r)
                &&& initial_pool().contains(r)
                &&& final(self)@.assigned == old(self)@.assigned.insert(value.id, r)
            },
            reg is None ==> final(self)@.free == old(self)@.free,
            reg is None ==> final(self)@.assigned == old(self)@.assigned,
    {
        proof {
            lemma_allocate_keeps_inv(self@, value);
        }
        let want_xmm = value.get_type().is_float();
        let mut idx: usize = 0;
        while idx < self.free_registers.len()
            invariant
                idx <= self.free_registers.len(),
                *self == *old(self),
                old(self)@.inv(),
                want_xmm == value.value_type.spec_is_float(),
                forall|j: int|
                    0 <= j < idx ==> (#[trigger] self.free_registers@[j]).spec_is_xmm()
                        != want_xmm,
            decreases self.free_registers.len() - idx,
        {
            if self.free_registers[idx].is_xmm() == want_xmm {
                let reg = self.free_registers[idx];
                proof {
                    lemma_first_free(self@, want_xmm, idx as int);
                    lemma_allocate_keeps_inv(self@, value);
                }
                return Some(self.setup_allocate_register(value, reg));
            }
            idx += 1;
        }
        self.exhausted = true;
        None
    }

    /// Returns the register of `value` to the pool, behind the registers that
    /// are already free; the value has no register afterwards.  Returns
    /// whether `value` had a register.
    pub fn free_register_from_value(&mut self, value: Value) -> (freed: bool)
        requires
            old(self)@.inv(),
        ensures
            final(self)@.inv(),
            freed == old(self)@.assigned.contains_key(value.id),
            final(self)@ == old(self)@.release(value),
            !final(self)@.assigned.contains_key(value.id),
            freed ==> !final(self)@.holds(old(self)@.assigned[value.id]),
            freed ==> final(self)@.free.contains(old(self)@.assigned[value.id]),
            !freed ==> final(self)@ == old(self)@,
    {
        proof {
            lemma_release_keeps_inv(self@, value);
        }
        let id = value.get_id();
        let removed = self.allocated_registers.remove(&id);
        assert(self.allocated_registers@ =~= old(self)@.release(value).assigned);
        match removed {
            Some(register_to_free) => {
                self.free_registers.push(register_to_free);
                true
            },
            None => false,
        }
    }

    /// Whether `value` has been assigned a register.
    pub fn is_value_allocated(&self, value: Value) -> (b: bool)
        ensures
            b == self@.assigned.contains_key(value.id),
    {
        let id = value.get_id();
        self.allocated_registers.contains_key(&id)
    }

    /// Whether a value has been refused a register since the allocator was
    /// made.
    pub fn pool_exhausted(&self) -> (b: bool)
        ensures
            b == self@.exhausted,
    {
        self.exhausted
    }

    /// Whether `reg` is assigned to some value.
    pub fn is_register_allocated(&self, reg: X86Register) -> (b: bool)
        ensures
            b == self@.holds(reg),
    {
        let mut found = false;
        for held in it: self.allocated_registers.values()
            invariant
                found == (exists|i: int| 0 <= i < it.index() && *it.seq()[i] == reg),
                it.seq().unref().to_set() == self.allocated_registers@.values(),
                it.index() == it.seq().len() ==> found == self.allocated_registers@.contains_value(
                    reg,
                ),
        {
            if *held == reg {
                found = true;
            }
            proof {
                lemma_listed_values(it.seq(), self.allocated_registers@.values(), reg);
            }
        }
        found
    }

    fn setup_allocate_register(&mut self, value: Value, reg: X86Register) -> (r: X86Register)
        ensures
            r == reg,
            final(self)@ == old(self)@.assign(value.id, reg),
    {
        let ghost keep = other_than(reg);
        let mut kept: Vec<X86Register> = Vec::new();
        let mut i: usize = 0;
        while i < self.free_registers.len()
            invariant
                i <= self.free_registers.len(),
                *self == *old(self),
                keep == other_than(reg),
                kept@ == self.free_registers@.subrange(0, i as int).filter(keep),
            decreases self.free_registers.len() - i,
        {
            let current = self.free_registers[i];
            proof {
                reveal(Seq::filter);
                let next = self.free_registers@.subrange(0, i + 1);
                assert(next.drop_last() == self.free_registers@.subrange(0, i as int));
                assert(next.last() == current);
            }
            if current != reg {
                kept.push(current);
            }
            i += 1;
        }
        assert(self.free_registers@.subrange(0, self.free_registers@.len() as int)
            == self.free_registers@);
        self.free_registers = kept;
        self.allocated_registers.insert(value.get_id(), reg);
        reg
    }
}

/// A value occurs in a listing of a set exactly when it is in the set.
proof fn lemma_listed_values(listing: Seq<&X86Register>, set: Set<X86Register>, x: X86Register)
    requires
        listing.unref().to_set() == set,
    ensures
        set.contains(x) <==> exists|i: int| 0 <= i < listing.len() && *listing[i] == x,
{
    if set.contains(x) {
        assert(listing.unref().contains(x));
        let i = choose|i: int| 0 <= i < listing.unref().len() && listing.unref()[i] == x;
        assert(*listing[i] == x);
    }
    if exists|i: int| 0 <= i < listing.len() && *listing[i] == x {
        let i = choose|i: int| 0 <= i < listing.len() && *listing[i] == x;
        assert(listing.unref()[i] == x);
        assert(listing.unref().contains(x));
    }
}

} // verus!
