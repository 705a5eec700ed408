//! The calling-convention adapter: places the arguments of a call in the
//! registers that the platform's convention names.

use vstd::prelude::*;
use crate::gen::x86_64::x86_64_allocator::{AllocatorView, X86Register, X86_64Allocator};
use crate::gen::x86_64::x86_64_encoder::{
    bytes_mov_reg_to_reg,
    bytes_mov_xmm_to_xmm,
    bytes_push_reg,
    X86_64Encoder,
};
use crate::lang::value::Value;

verus! {

/// The two supported conventions.
#[derive(Clone, Copy, PartialEq, Eq, Structural, Debug)]
pub enum CallingConvention {
    /// Four integer and four vector argument registers; a call is bracketed
    /// by the reservation and release of shadow space.
    Windows,
    /// Six integer and eight vector argument registers; no shadow space.
    SystemV,
}

/// What a convention lays down: the argument registers of each class in the
/// order in which they are used, the registers that a call may overwrite, and
/// whether a call needs shadow space.
pub struct CallerView {
    pub args_register: Seq<X86Register>,
    pub args_xmm: Seq<X86Register>,
    pub volatiles: Seq<X86Register>,
    pub shadow_space: bool,
}

impl CallerView {
    /// The tables of `convention`.
    pub open spec fn of(convention: CallingConvention) -> CallerView {
        match convention {
            CallingConvention::Windows => CallerView {
                args_register: seq![
                    X86Register::RCX,
                    X86Register::RDX,
                    X86Register::R8,
                    X86Register::R9,
                ],
                args_xmm: seq![
                    X86Register::XMM0,
                    X86Register::XMM1,
                    X86Register::XMM2,
                    X86Register::XMM3,
                ],
                volatiles: seq![
                    X86Register::RAX,
                    X86Register::RCX,
                    X86Register::RDX,
                    X86Register::R8,
                    X86Register::R9,
                    X86Register::R10,
                    X86Register::R11,
                ],
                shadow_space: true,
            },
            CallingConvention::SystemV => CallerView {
                args_register: seq![
                    X86Register::RDI,
                    X86Register::RSI,
                    X86Register::RDX,
                    X86Register::RCX,
                    X86Register::R8,
                    X86Register::R9,
                ],
                args_xmm: seq![
                    X86Register::XMM0,
                    X86Register::XMM1,
                    X86Register::XMM2,
                    X86Register::XMM3,
                    X86Register::XMM4,
                    X86Register::XMM5,
                    X86Register::XMM6,
                    X86Register::XMM7,
                ],
                volatiles: seq![
                    X86Register::RAX,
                    X86Register::RCX,
                    X86Register::RDX,
                    X86Register::RSI,
                    X86Register::RDI,
                    X86Register::R8,
                    X86Register::R9,
                    X86Register::R10,
                    X86Register::R11,
                    X86Register::XMM0,
                    X86Register::XMM1,
                    X86Register::XMM2,
                    X86Register::XMM3,
                    X86Register::XMM4,
                    X86Register::XMM5,
                    X86Register::XMM6,
                    X86Register::XMM7,
                    X86Register::XMM8,
                    X86Register::XMM9,
                    X86Register::XMM10,
                    X86Register::XMM11,
                    X86Register::XMM12,
                    X86Register::XMM13,
                    X86Register::XMM14,
                    X86Register::XMM15,
                ],
                shadow_space: false,
            },
        }
    }

    /// Whether the next argument, `value`, still finds an argument register
    /// of its class.  The class is that of the register the value lives in.
    pub open spec fn fits_one(self, s: MarshalState, value: Value) -> bool {
        if s.alloc.obtain_result(value).spec_is_xmm() {
            s.xmm_index < self.args_xmm.len()
        } else {
            s.arg_index < self.args_register.len()
        }
    }

    /// The state after `value` was placed: it takes the next argument
    /// register of its class.  If that register holds another value it is
    /// pushed first and recorded; then the argument is moved into it.
    pub open spec fn place_one(self, s: MarshalState, value: Value) -> MarshalState {
        let reg = s.alloc.obtain_result(value);
        let alloc = s.alloc.obtain(value);
        if reg.spec_is_xmm() {
            let slot = self.args_xmm[s.xmm_index as int];
            let save = alloc.holds(slot) && slot != reg;
            MarshalState {
                alloc,
                code: s.code + saved_bytes(save, slot) + bytes_mov_xmm_to_xmm(reg, slot),
                arg_index: s.arg_index,
                xmm_index: s.xmm_index + 1,
                pushed: if save {
                    s.pushed.push(slot)
                } else {
                    s.pushed
                },
            }
        } else {
            let slot = self.args_register[s.arg_index as int];
            let save = alloc.holds(slot) && slot != reg;
            MarshalState {
                alloc,
                code: s.code + saved_bytes(save, slot) + bytes_mov_reg_to_reg(reg, slot),
                arg_index: s.arg_index + 1,
                xmm_index: s.xmm_index,
                pushed: if save {
                    s.pushed.push(slot)
                } else {
                    s.pushed
                },
            }
        }
    }

    /// The state after the first `n` of `values` were placed, in order.
    pub open spec fn place(self, s: MarshalState, values: Seq<Value>, n: nat) -> MarshalState
        decreases n,
    {
        if n == 0 {
            s
        } else {
            self.place_one(self.place(s, values, (n - 1) as nat), values[n - 1])
        }
    }

    /// Whether each of the first `n` of `values` finds an argument register.
    pub open spec fn fits(self, s: MarshalState, values: Seq<Value>, n: nat) -> bool
        decreases n,
    {
        if n == 0 {
            true
        } else {
            &&& self.fits(s, values, (n - 1) as nat)
            &&& self.fits_one(self.place(s, values, (n - 1) as nat), values[n - 1])
        }
    }
}

/// What is emitted to save `slot` where it has to be saved.
pub open spec fn saved_bytes(save: bool, slot: X86Register) -> Seq<u8> {
    if save {
        bytes_push_reg(slot)
    } else {
        Seq::empty()
    }
}

/// Where the marshalling of a call stands: the allocator, the code emitted,
/// how many argument registers of each class are taken, and the registers
/// pushed so far, in push order.
pub struct MarshalState {
    pub alloc: AllocatorView,
    pub code: Seq<u8>,
    pub arg_index: nat,
    pub xmm_index: nat,
    pub pushed: Seq<X86Register>,
}

impl MarshalState {
    /// The state before the first argument.
    pub open spec fn start(alloc: AllocatorView, code: Seq<u8>) -> MarshalState {
        MarshalState { alloc, code, arg_index: 0, xmm_index: 0, pushed: Seq::empty() }
    }
}

/// Placing arguments uses one argument register each.
pub proof fn lemma_place_counts(c: CallerView, s: MarshalState, values: Seq<Value>, n: nat)
    requires
        n <= values.len(),
    ensures
        c.place(s, values, n).arg_index + c.place(s, values, n).xmm_index == s.arg_index
            + s.xmm_index + n,
        c.place(s, values, n).arg_index >= s.arg_index,
        c.place(s, values, n).xmm_index >= s.xmm_index,
    decreases n,
{
    if n > 0 {
        lemma_place_counts(c, s, values, (n - 1) as nat);
    }
}

/// Placing arguments pushes one register for each argument at most.
pub proof fn lemma_place_pushes(c: CallerView, s: MarshalState, values: Seq<Value>, n: nat)
    requires
        n <= values.len(),
    ensures
        c.place(s, values, n).pushed.len() <= s.pushed.len() + n,
    decreases n,
{
    if n > 0 {
        lemma_place_pushes(c, s, values, (n - 1) as nat);
    }
}

/// A call with no more arguments than the convention has registers of
/// either class can always be marshalled.
pub proof fn lemma_few_arguments_fit(
    c: CallerView,
    alloc: AllocatorView,
    code: Seq<u8>,
    values: Seq<Value>,
    n: nat,
)
    requires
        n <= values.len(),
        n <= c.args_register.len(),
        n <= c.args_xmm.len(),
    ensures
        c.fits(MarshalState::start(alloc, code), values, n),
    decreases n,
{
    if n > 0 {
        lemma_few_arguments_fit(c, alloc, code, values, (n - 1) as nat);
        lemma_place_counts(c, MarshalState::start(alloc, code), values, (n - 1) as nat);
    }
}

/// The calling-convention adapter.
pub struct X86_64Caller {
    args_register: Vec<X86Register>,
    args_xmm: Vec<X86Register>,
    volatiles: Vec<X86Register>,
    shadow_space: bool,
}

impl View for X86_64Caller {
    type V = CallerView;

    closed spec fn view(&self) -> CallerView {
        CallerView {
            args_register: self.args_register@,
            args_xmm: self.args_xmm@,
            volatiles: self.volatiles@,
            shadow_space: self.shadow_space,
        }
    }
}

impl X86_64Caller {
    /// The adapter for `convention`.
    pub fn new(convention: CallingConvention) -> (c: Self)
        ensures
            c@ == CallerView::of(convention),
    {
        match convention {
            CallingConvention::Windows => {
                let args = vec![
                    X86Register::RCX,
                    X86Register::RDX,
                    X86Register::R8,
                    X86Register::R9,
                ];
                let xmms = vec![
                    X86Register::XMM0,
                    X86Register::XMM1,
                    X86Register::XMM2,
                    X86Register::XMM3,
                ];
                let volatiles = vec![
                    X86Register::RAX,
                    X86Register::RCX,
                    X86Register::RDX,
                    X86Register::R8,
                    X86Register::R9,
                    X86Register::R10,
                    X86Register::R11,
                ];
                assert(args@ =~= CallerView::of(convention).args_register);
                assert(xmms@ =~= CallerView::of(convention).args_xmm);
                assert(volatiles@ =~= CallerView::of(convention).volatiles);
                Self { args_register: args, args_xmm: xmms, volatiles, shadow_space: true }
            },
            CallingConvention::SystemV => {
                let args = vec![
                    X86Register::RDI,
                    X86Register::RSI,
                    X86Register::RDX,
                    X86Register::RCX,
                    X86Register::R8,
                    X86Register::R9,
                ];
                let xmms = vec![
                    X86Register::XMM0,
                    X86Register::XMM1,
                    X86Register::XMM2,
                    X86Register::XMM3,
                    X86Register::XMM4,
                    X86Register::XMM5,
                    X86Register::XMM6,
                    X86Register::XMM7,
                ];
                let volatiles = vec![
                    X86Register::RAX,
                    X86Register::RCX,
                    X86Register::RDX,
                    X86Register::RSI,
                    X86Register::RDI,
                    X86Register::R8,
                    X86Register::R9,
                    X86Register::R10,
                    X86Register::R11,
                    X86Register::XMM0,
                    X86Register::XMM1,
                    X86Register::XMM2,
                    X86Register::XMM3,
                    X86Register::XMM4,
                    X86Register::XMM5,
                    X86Register::XMM6,
                    X86Register::XMM7,
                    X86Register::XMM8,
                    X86Register::XMM9,
                    X86Register::XMM10,
                    X86Register::XMM11,
                    X86Register::XMM12,
                    X86Register::XMM13,
                    X86Register::XMM14,
                    X86Register::XMM15,
                ];
                assert(args@ =~= CallerView::of(convention).args_register);
                assert(xmms@ =~= CallerView::of(convention).args_xmm);
                assert(volatiles@ =~= CallerView::of(convention).volatiles);
                Self { args_register: args, args_xmm: xmms, volatiles, shadow_space: false }
            },
        }
    }

    /// Whether a call is to be bracketed by shadow space.
    pub fn needs_shadow_space(&self) -> (b: bool)
        ensures
            b == self@.shadow_space,
    {
        self.shadow_space
    }

    /// Places `values`, in order, in the argument registers of the
    /// convention and returns the registers that had to be pushed, in push
    /// order; the caller of this function pops them in reverse order after
    /// the call.
    pub fn generate_call(
        &self,
        encoder: &mut X86_64Encoder,
        allocator: &mut X86_64Allocator,
        values: &Vec<Value>,
    ) -> (pushed_register: Vec<X86Register>)
        requires
            old(allocator)@.inv(),
            self@.fits(
                MarshalState::start(old(allocator)@, old(encoder)@),
                values@,
                values@.len(),
            ),
        ensures
            final(allocator)@.inv(),
            final(allocator)@ == self@.place(
                MarshalState::start(old(allocator)@, old(encoder)@),
                values@,
                values@.len(),
            ).alloc,
            final(encoder)@ == self@.place(
                MarshalState::start(old(allocator)@, old(encoder)@),
                values@,
                values@.len(),
            ).code,
            pushed_register@ == self@.place(
                MarshalState::start(old(allocator)@, old(encoder)@),
                values@,
                values@.len(),
            ).pushed,
            pushed_register@.len() <= values@.len(),
    {
        proof {
            lemma_place_pushes(
                self@,
                MarshalState::start(allocator@, encoder@),
                values@,
                values@.len(),
            );
        }
        let ghost start = MarshalState::start(allocator@, encoder@);
        let mut pushed_register: Vec<X86Register> = Vec::new();
        let mut arg_index: usize = 0;
        let mut xmm_index: usize = 0;
        let mut i: usize = 0;
        while i < values.len()
            invariant
                i <= values.len(),
                arg_index + xmm_index == i,
                allocator@.inv(),
                start == MarshalState::start(old(allocator)@, old(encoder)@),
                self@.fits(start, values@, values@.len()),
                self@.place(start, values@, i as nat) == (MarshalState {
                    alloc: allocator@,
                    code: encoder@,
                    arg_index: arg_index as nat,
                    xmm_index: xmm_index as nat,
                    pushed: pushed_register@,
                }),
            decreases values.len() - i,
        {
            proof {
                lemma_fits_prefix(self@, start, values@, values@.len(), (i + 1) as nat);
            }
            let ghost before = self@.place(start, values@, i as nat);
            let value = values[i];
            let reg = allocator.obtain_register_for_value(value);
            if reg.is_xmm() {
                let reg_to_mov = self.args_xmm[xmm_index];
                if allocator.is_register_allocated(reg_to_mov) && reg_to_mov != reg {
                    encoder.push_reg(reg_to_mov);
                    pushed_register.push(reg_to_mov);
                }
                encoder.mov_xmm_to_xmm(reg, reg_to_mov);
                xmm_index += 1;
            } else {
                let reg_to_mov = self.args_register[arg_index];
                if allocator.is_register_allocated(reg_to_mov) && reg_to_mov != reg {
                    encoder.push_reg(reg_to_mov);
                    pushed_register.push(reg_to_mov);
                }
                encoder.mov_reg_to_reg(reg, reg_to_mov);
                arg_index += 1;
            }
            proof {
                let after = self@.place_one(before, value);
                assert(encoder@ =~= after.code);
            }
            i += 1;
        }
        pushed_register
    }
}

/// What fits as a whole fits up to any point.
proof fn lemma_fits_prefix(c: CallerView, s: MarshalState, values: Seq<Value>, n: nat, k: nat)
    requires
        k <= n,
        c.fits(s, values, n),
    ensures
        c.fits(s, values, k),
    decreases n,
{
    if k < n {
        lemma_fits_prefix(c, s, values, (n - 1) as nat, k);
    }
}

} // verus!
