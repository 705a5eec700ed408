//! A model of the processor, as far as the instructions go that move,
//! add, subtract, multiply, divide, compare, push and pop general-purpose
//! registers, jump and return: the sixteen general-purpose registers, two flags, and the program
//! counter.  It says what the bytes of these emitters do, and what the
//! simplest functions return.  What is proved here is proved of this model.
//! Of the stack the model knows what the function itself pushed; memory,
//! calls and the vector registers are not modelled.

use vstd::prelude::*;
use vstd::arithmetic::div_mod::{lemma_fundamental_div_mod, lemma_fundamental_div_mod_converse};
use crate::gen::x86_64::code_shapes::{
    branch_blocks,
    branch_code,
    constant64,
    constant_blocks,
    defines_constant,
    jump_blocks,
    lemma_branch_function_code,
    lemma_constant_function_code,
    lemma_jump_function_code,
    lemma_piece_lengths,
    lemma_sum_function_code,
    return_through,
    sum_blocks,
    sum_code,
};
use crate::gen::x86_64::gen::{bytes_pop_all, generated_code, Arith, GenState};
use crate::gen::x86_64::gen_proof::{lemma_pow256_positive, pow256};
use crate::gen::x86_64::x86_64_allocator::X86Register;
use crate::gen::x86_64::x86_64_caller::CallerView;
use crate::gen::x86_64::x86_64_encoder::{
    bytes_add_reg_reg,
    bytes_cond_jmp_to,
    bytes_div_reg_reg,
    bytes_div_stack,
    bytes_eq_reg_reg,
    bytes_extend_accumulator,
    bytes_jmp_to,
    bytes_mov_reg_to_reg,
    bytes_move_reg_i64,
    bytes_mul_reg_reg,
    bytes_pop_reg,
    bytes_push_reg,
    bytes_ret,
    bytes_set_condition,
    bytes_sub_reg_reg,
    bytes_zero_extend_byte,
    lemma_fields,
    modrm_direct,
    rex,
    rex_w,
    Condition,
};
use crate::lang::instr::Instr;
use crate::lang::value::Value;
use crate::misc::byte_writer::{le_bytes, lemma_le_bytes_len};

verus! {

/// What the last comparison or addition left behind: whether the two
/// operands were equal (the result zero), and whether the first was less
/// than the second as signed numbers (the exact result negative).
pub struct Flags {
    pub zero: bool,
    pub less: bool,
}

/// The state of the model: the contents of the sixteen general-purpose
/// registers by number, each a number below 2^64; the flags, where the last
/// instruction that touched them defined them; the quadwords that the
/// function has pushed and not yet popped, the last pushed last; and the
/// offset in the code of the instruction that is executed next.
pub struct Machine {
    pub regs: Seq<int>,
    pub flags: Option<Flags>,
    pub stack: Seq<int>,
    pub pc: int,
}

/// What one instruction leads to.
pub enum Step {
    /// Execution goes on in the given state.
    Next(Machine),
    /// The function returns to its caller; the accumulator holds the given
    /// number.
    Return(int),
    /// The bytes at the program counter are none of the modelled
    /// instructions, or the instruction reads flags that are not defined.
    Stuck,
}

/// The byte at offset `at`.
pub open spec fn byte_at(code: Seq<u8>, at: int) -> int {
    code[at] as int
}

/// The number whose `n` bytes stand at offset `at`, least significant first.
pub open spec fn read_le(code: Seq<u8>, at: int, n: nat) -> int
    decreases n,
{
    if n == 0 {
        0
    } else {
        byte_at(code, at) + 256 * read_le(code, at + 1, (n - 1) as nat)
    }
}

/// The number below 2^32 read as a signed number of 32 bits.
pub open spec fn signed32(v: int) -> int {
    if v >= 0x8000_0000 {
        v - 0x1_0000_0000
    } else {
        v
    }
}

/// The number below 2^64 read as a signed number of 64 bits.
pub open spec fn signed64(v: int) -> int {
    if v >= 0x8000_0000_0000_0000 {
        v - 0x1_0000_0000_0000_0000
    } else {
        v
    }
}

/// The 64 bits that stand for `c`: `c` itself where it is not negative and
/// fits, else `c` plus or minus a multiple of 2^64.
pub open spec fn bits64(c: int) -> int {
    c % 0x1_0000_0000_0000_0000
}

/// Whether `b` is a REX prefix with the W bit set and the X bit clear.
pub open spec fn is_rex_w(b: int) -> bool {
    b == 0x48 || b == 0x49 || b == 0x4C || b == 0x4D
}

/// The R bit of the REX prefix `b` (its W bit set or not, its X bit clear).
pub open spec fn rex_r(b: int) -> int {
    ((b - 0x40) / 4) % 2
}

/// The B bit of the REX prefix `b`.
pub open spec fn rex_b(b: int) -> int {
    (b - 0x40) % 2
}

/// The register in the `reg` field of the register-direct ModRM byte `m`
/// behind the REX prefix `p`.
pub open spec fn field_reg(p: int, m: int) -> int {
    8 * rex_r(p) + (m - 0xC0) / 8
}

/// The register in the `rm` field of the register-direct ModRM byte `m`
/// behind the REX prefix `p`.
pub open spec fn field_rm(p: int, m: int) -> int {
    8 * rex_b(p) + (m - 0xC0) % 8
}

/// Whether the flags `f` show the outcome that the condition with the
/// architecture's number `code` stands for.
pub open spec fn condition_holds(code: int, f: Flags) -> bool {
    if code == 0x4 {
        f.zero
    } else if code == 0x5 {
        !f.zero
    } else if code == 0xC {
        f.less
    } else if code == 0xD {
        !f.less
    } else if code == 0xE {
        f.less || f.zero
    } else {
        !f.less && !f.zero
    }
}

/// Whether `code` is the number of one of the six modelled conditions.
pub open spec fn is_condition(code: int) -> bool {
    code == 0x4 || code == 0x5 || code == 0xC || code == 0xD || code == 0xE || code == 0xF
}

/// The quotient of `a` by `b`, rounded towards zero.
pub open spec fn quotient(a: int, b: int) -> int {
    if a >= 0 {
        if b > 0 {
            a / b
        } else {
            -(a / (-b))
        }
    } else {
        if b > 0 {
            -((-a) / b)
        } else {
            (-a) / (-b)
        }
    }
}

/// What a signed division of the pair of remainder register and
/// accumulator by `divisor` leads to, in an instruction of `length` bytes:
/// the accumulator receives the quotient, rounded towards zero, and the
/// remainder register the rest; the flags are left undefined.  The
/// processor traps, and the model is stuck, where the divisor is zero or the
/// quotient does not fit into 64 bits.
pub open spec fn step_divide(m: Machine, divisor: int, length: int) -> Step {
    let dividend = signed64(m.regs[2]) * 0x1_0000_0000_0000_0000 + m.regs[0];
    let d = signed64(divisor);
    let q = quotient(dividend, d);
    if d == 0 || !(-0x8000_0000_0000_0000 <= q < 0x8000_0000_0000_0000) {
        Step::Stuck
    } else {
        Step::Next(
            Machine {
                regs: m.regs.update(0, bits64(q)).update(2, bits64(dividend - q * d)),
                flags: None,
                pc: m.pc + length,
                ..m
            },
        )
    }
}

/// The register in the `rm` field, read.
pub open spec fn b_of(m: Machine, p: int, md: int) -> int {
    m.regs[field_rm(p, md)]
}

/// What a push or a pop of the register with the number `reg` leads to, in
/// an instruction of `length` bytes.
pub open spec fn step_stack(m: Machine, pop: bool, reg: int, length: int) -> Step {
    if pop {
        if m.stack.len() > 0 {
            Step::Next(
                Machine {
                    regs: m.regs.update(4, bits64(m.regs[4] + 8)).update(reg, m.stack.last()),
                    stack: m.stack.drop_last(),
                    pc: m.pc + length,
                    ..m
                },
            )
        } else {
            Step::Stuck
        }
    } else {
        Step::Next(
            Machine {
                regs: m.regs.update(4, bits64(m.regs[4] - 8)),
                stack: m.stack.push(m.regs[reg]),
                pc: m.pc + length,
                ..m
            },
        )
    }
}

/// What an instruction of three bytes, a REX.W prefix `p`, the opcode `op`
/// and the register-direct ModRM byte `md`, leads to: a move (`89`), an
/// addition (`01`), a subtraction (`29`) or a comparison (`39`) with the
/// register in the `rm` field as destination and first operand and the
/// register in the `reg` field as source, or a signed division (`F7` with 7
/// in the `reg` field) by the register in the `rm` field.
pub open spec fn step_two_registers(m: Machine, p: int, op: int, md: int) -> Step {
    let from = field_reg(p, md);
    let to = field_rm(p, md);
    let a = m.regs[to];
    let b = m.regs[from];
    if op == 0x89 {
        Step::Next(Machine { regs: m.regs.update(to, b), pc: m.pc + 3, ..m })
    } else if op == 0x01 {
        Step::Next(
            Machine {
                regs: m.regs.update(to, bits64(a + b)),
                flags: Some(
                    Flags { zero: bits64(a + b) == 0, less: signed64(a) + signed64(b) < 0 },
                ),
                pc: m.pc + 3,
                ..m
            },
        )
    } else if op == 0x29 {
        Step::Next(
            Machine {
                regs: m.regs.update(to, bits64(a - b)),
                flags: Some(Flags { zero: a == b, less: signed64(a) < signed64(b) }),
                pc: m.pc + 3,
                ..m
            },
        )
    } else if op == 0xF7 && (md - 0xC0) / 8 == 7 {
        step_divide(m, b_of(m, p, md), 3)
    } else if op == 0x39 {
        Step::Next(
            Machine {
                flags: Some(Flags { zero: a == b, less: signed64(a) < signed64(b) }),
                pc: m.pc + 3,
                ..m
            },
        )
    } else {
        Step::Stuck
    }
}

/// What an instruction of four bytes, a REX prefix `p`, `0F`, the opcode
/// `op` and the register-direct ModRM byte `md`, leads to: a signed
/// multiplication (`AF`, the register in the `reg` field receives its
/// product with the register in the `rm` field, and the flags are left
/// undefined), the widening of a low byte (`B6`), or the recording of a
/// condition in the low byte of the register in the `rm` field (`90` plus
/// the condition's number).
pub open spec fn step_long_opcode(m: Machine, p: int, op: int, md: int) -> Step {
    let reg = field_reg(p, md);
    let rm = field_rm(p, md);
    if is_rex_w(p) && op == 0xAF {
        Step::Next(
            Machine {
                regs: m.regs.update(reg, bits64(signed64(m.regs[reg]) * signed64(m.regs[rm]))),
                flags: None,
                pc: m.pc + 4,
                ..m
            },
        )
    } else if is_rex_w(p) && op == 0xB6 {
        Step::Next(Machine { regs: m.regs.update(reg, m.regs[rm] % 256), pc: m.pc + 4, ..m })
    } else if (p == 0x40 || p == 0x41) && 0x90 <= op <= 0x9F && is_condition(op - 0x90) && (md
        - 0xC0) / 8 == 0 {
        match m.flags {
            Some(f) => Step::Next(
                Machine {
                    regs: m.regs.update(
                        rm,
                        m.regs[rm] - m.regs[rm] % 256 + (if condition_holds(op - 0x90, f) {
                            1int
                        } else {
                            0int
                        }),
                    ),
                    pc: m.pc + 4,
                    ..m
                },
            ),
            None => Step::Stuck,
        }
    } else {
        Step::Stuck
    }
}

/// What the instruction at the program counter leads to:
///
/// * `C3`: return.
/// * `E9` and a displacement of 32 bits: jump.
/// * `0F 84` and a displacement of 32 bits: jump where the zero flag is set.
/// * a REX.W prefix, `B8` plus the low bits of a register number, and 64
///   bits: move of the immediate into the register.
/// * a REX.W prefix, `83`, `F8` plus the low bits of a register number, and
///   a byte below 128: comparison of the register with the byte.
/// * `50` to `57`, or `41` and `50` to `57`: push of a register; `58` to
///   `5F`, or `41` and `58` to `5F`: pop of a register.
/// * `48 99`: the accumulator is extended, with its sign, into the remainder
///   register.
/// * `48 F7 3C 24`: signed division by the quadword on top of the stack.
/// * a REX.W prefix, one of `89`, `01`, `29`, `39`, `F7`, and a
///   register-direct ModRM byte: see `step_two_registers`.
/// * a REX prefix, `0F`, an opcode byte and a register-direct ModRM byte:
///   see `step_long_opcode`.
#[verifier::opaque]
pub open spec fn step(code: Seq<u8>, m: Machine) -> Step {
    let pc = m.pc;
    if !(0 <= pc < code.len()) || m.regs.len() != 16 {
        Step::Stuck
    } else if byte_at(code, pc) == 0xC3 {
        Step::Return(m.regs[0])
    } else if 0x50 <= byte_at(code, pc) <= 0x5F {
        step_stack(m, byte_at(code, pc) >= 0x58, (byte_at(code, pc) - 0x50) % 8, 1)
    } else if pc + 2 <= code.len() && byte_at(code, pc) == 0x41 && 0x50 <= byte_at(code, pc + 1)
        <= 0x5F {
        step_stack(m, byte_at(code, pc + 1) >= 0x58, 8 + (byte_at(code, pc + 1) - 0x50) % 8, 2)
    } else if pc + 2 <= code.len() && byte_at(code, pc) == 0x48 && byte_at(code, pc + 1) == 0x99 {
        Step::Next(
            Machine {
                regs: m.regs.update(
                    2,
                    if signed64(m.regs[0]) < 0 {
                        0xFFFF_FFFF_FFFF_FFFFint
                    } else {
                        0int
                    },
                ),
                pc: pc + 2,
                ..m
            },
        )
    } else if pc + 4 <= code.len() && byte_at(code, pc) == 0x48 && byte_at(code, pc + 1) == 0xF7
        && byte_at(code, pc + 2) == 0x3C {
        if byte_at(code, pc + 3) == 0x24 && m.stack.len() > 0 {
            step_divide(m, m.stack.last(), 4)
        } else {
            Step::Stuck
        }
    } else if byte_at(code, pc) == 0xE9 {
        if pc + 5 <= code.len() {
            Step::Next(Machine { pc: pc + 5 + signed32(read_le(code, pc + 1, 4)), ..m })
        } else {
            Step::Stuck
        }
    } else if byte_at(code, pc) == 0x0F {
        if pc + 6 <= code.len() && byte_at(code, pc + 1) == 0x84 && m.flags is Some {
            if m.flags->0.zero {
                Step::Next(Machine { pc: pc + 6 + signed32(read_le(code, pc + 2, 4)), ..m })
            } else {
                Step::Next(Machine { pc: pc + 6, ..m })
            }
        } else {
            Step::Stuck
        }
    } else if pc + 3 <= code.len() && is_rex_w(byte_at(code, pc)) && 0xB8 <= byte_at(code, pc + 1)
        <= 0xBF {
        if pc + 10 <= code.len() {
            Step::Next(
                Machine {
                    regs: m.regs.update(
                        8 * rex_b(byte_at(code, pc)) + (byte_at(code, pc + 1) - 0xB8),
                        read_le(code, pc + 2, 8),
                    ),
                    pc: pc + 10,
                    ..m
                },
            )
        } else {
            Step::Stuck
        }
    } else if pc + 3 <= code.len() && is_rex_w(byte_at(code, pc)) && byte_at(code, pc + 1) == 0x83 {
        if pc + 4 <= code.len() && 0xF8 <= byte_at(code, pc + 2) && byte_at(code, pc + 3) < 0x80 {
            let reg = 8 * rex_b(byte_at(code, pc)) + (byte_at(code, pc + 2) - 0xF8);
            Step::Next(
                Machine {
                    flags: Some(
                        Flags {
                            zero: m.regs[reg] == byte_at(code, pc + 3),
                            less: signed64(m.regs[reg]) < byte_at(code, pc + 3),
                        },
                    ),
                    pc: pc + 4,
                    ..m
                },
            )
        } else {
            Step::Stuck
        }
    } else if pc + 4 <= code.len() && 0x40 <= byte_at(code, pc) <= 0x4F && byte_at(code, pc + 1)
        == 0x0F && 0xC0 <= byte_at(code, pc + 3) {
        step_long_opcode(m, byte_at(code, pc), byte_at(code, pc + 2), byte_at(code, pc + 3))
    } else if pc + 3 <= code.len() && is_rex_w(byte_at(code, pc)) && 0xC0 <= byte_at(code, pc + 2) {
        step_two_registers(m, byte_at(code, pc), byte_at(code, pc + 1), byte_at(code, pc + 2))
    } else {
        Step::Stuck
    }
}

/// The state after `n` instructions, if execution gets that far without
/// returning.
pub open spec fn steps(code: Seq<u8>, m: Machine, n: nat) -> Option<Machine>
    decreases n,
{
    if n == 0 {
        Some(m)
    } else {
        match step(code, m) {
            Step::Next(next) => steps(code, next, (n - 1) as nat),
            _ => None,
        }
    }
}

/// The number with which the function returns, if it returns within `fuel`
/// instructions.
pub open spec fn run(code: Seq<u8>, m: Machine, fuel: nat) -> Option<int>
    decreases fuel,
{
    if fuel == 0 {
        None
    } else {
        match step(code, m) {
            Step::Next(next) => run(code, next, (fuel - 1) as nat),
            Step::Return(result) => Some(result),
            Step::Stuck => None,
        }
    }
}

/// A state in which a function is entered: the program counter is at the
/// first byte of the code; the registers and flags hold anything.
pub open spec fn at_entry(m: Machine) -> bool {
    m.pc == 0 && m.regs.len() == 16
}

/// Whether execution gets, with `n` instructions, to the program counter
/// `pc` with the registers `regs`.
pub open spec fn reaches(code: Seq<u8>, m: Machine, n: nat, pc: int, regs: Seq<int>) -> bool {
    steps(code, m, n) matches Some(then) && then.pc == pc && then.regs == regs
}

/// Whether `bytes` stand in `code` from offset `at` on.
pub open spec fn has_at(code: Seq<u8>, at: int, bytes: Seq<u8>) -> bool {
    &&& 0 <= at
    &&& at + bytes.len() <= code.len()
    &&& code.subrange(at, at + bytes.len()) == bytes
}

/// A piece of what stands in the code stands in the code.
pub proof fn lemma_has_at_within(
    code: Seq<u8>,
    at: int,
    pre: Seq<u8>,
    piece: Seq<u8>,
    post: Seq<u8>,
)
    requires
        has_at(code, at, pre + piece + post),
    ensures
        has_at(code, at + pre.len(), piece),
        forall|i: int| 0 <= i < piece.len() ==> code[at + pre.len() + i] == #[trigger] piece[i],
{
    let whole = pre + piece + post;
    let region = code.subrange(at, at + whole.len());
    let part = code.subrange(at + pre.len(), at + pre.len() + piece.len());
    assert forall|i: int| 0 <= i < piece.len() implies code[at + pre.len() + i]
        == #[trigger] piece[i] by {
        assert(region[pre.len() + i] == code[at + pre.len() + i]);
        assert(whole[pre.len() + i] == piece[i]);
    }
    assert(part =~= piece);
}

/// A piece of a code stands in the code behind what precedes it.
pub proof fn lemma_piece_at(code: Seq<u8>, pre: Seq<u8>, piece: Seq<u8>, post: Seq<u8>)
    requires
        code =~= pre + piece + post,
    ensures
        has_at(code, pre.len() as int, piece),
{
    assert(code.subrange(pre.len() as int, (pre.len() + piece.len()) as int) =~= piece);
}

/// A piece of what stands in the code stands in the code behind what
/// precedes it.
pub proof fn lemma_piece_within(
    code: Seq<u8>,
    at: int,
    whole: Seq<u8>,
    pre: Seq<u8>,
    piece: Seq<u8>,
    post: Seq<u8>,
)
    requires
        has_at(code, at, whole),
        whole =~= pre + piece + post,
    ensures
        has_at(code, at + pre.len(), piece),
{
    lemma_has_at_within(code, at, pre, piece, post);
}

/// The whole of a code stands in it from its beginning on.
pub proof fn lemma_has_all(code: Seq<u8>)
    ensures
        has_at(code, 0, code),
{
    assert(code.subrange(0, code.len() as int) =~= code);
}

/// What runs on after some instructions returns what the whole returns.
pub proof fn lemma_run_after_steps(code: Seq<u8>, m: Machine, n: nat, then: Machine, fuel: nat)
    requires
        steps(code, m, n) == Some(then),
    ensures
        run(code, m, n + fuel) == run(code, then, fuel),
    decreases n,
{
    if n > 0 {
        match step(code, m) {
            Step::Next(next) => {
                lemma_run_after_steps(code, next, (n - 1) as nat, then, fuel);
            },
            _ => {},
        }
    }
}

/// Instructions after instructions.
pub proof fn lemma_steps_after_steps(
    code: Seq<u8>,
    m: Machine,
    n: nat,
    then: Machine,
    more: nat,
)
    requires
        steps(code, m, n) == Some(then),
    ensures
        steps(code, m, n + more) == steps(code, then, more),
    decreases n,
{
    if n > 0 {
        match step(code, m) {
            Step::Next(next) => {
                lemma_steps_after_steps(code, next, (n - 1) as nat, then, more);
            },
            _ => {},
        }
    }
}

/// For a divisor `p`, the rest of a division by `256 * p` is the rest of the
/// division by 256 and, above it, the rest of the quotient's division by `p`.
proof fn lemma_mod_split(v: int, p: int)
    requires
        p > 0,
    ensures
        v % (256 * p) == v % 256 + 256 * ((v / 256) % p),
{
    let q = v / 256;
    let r = v % 256;
    let q2 = q / p;
    let r2 = q % p;
    lemma_fundamental_div_mod(q, p);
    assert(q == p * q2 + r2);
    assert(v == q2 * (256 * p) + (256 * r2 + r)) by (nonlinear_arith)
        requires
            v == 256 * q + r,
            q == p * q2 + r2,
    ;
    assert(0 <= 256 * r2 + r < 256 * p) by (nonlinear_arith)
        requires
            0 <= r < 256,
            0 <= r2 < p,
    ;
    lemma_fundamental_div_mod_converse(v, 256 * p, q2, 256 * r2 + r);
}

/// Reading back the bytes of a number gives the number, cut to the bytes
/// that were written.
pub proof fn lemma_read_le(code: Seq<u8>, at: int, v: int, n: nat)
    requires
        has_at(code, at, le_bytes(v, n)),
    ensures
        read_le(code, at, n) == v % pow256(n),
    decreases n,
{
    lemma_le_bytes_len(v, n);
    if n > 0 {
        lemma_le_bytes_len(v / 256, (n - 1) as nat);
        let field = code.subrange(at, at + n);
        assert(code[at] == field[0]);
        assert(field[0] == (v % 256) as u8);
        let rest = code.subrange(at + 1, at + n);
        let tail = le_bytes(v / 256, (n - 1) as nat);
        assert(rest =~= tail) by {
            assert forall|i: int| 0 <= i < rest.len() implies #[trigger] rest[i] == tail[i] by {
                assert(rest[i] == field[i + 1]);
            }
        }
        lemma_read_le(code, at + 1, v / 256, (n - 1) as nat);
        lemma_pow256_positive((n - 1) as nat);
        lemma_mod_split(v, pow256((n - 1) as nat));
    }
}

/// Reading back the eight bytes of a number gives its 64 bits, and the four
/// bytes of a displacement the displacement.
pub proof fn lemma_read_fields(code: Seq<u8>, at: int, v: int)
    ensures
        has_at(code, at, le_bytes(v, 8)) ==> read_le(code, at, 8) == bits64(v),
        has_at(code, at, le_bytes(v, 4)) && -0x8000_0000 <= v < 0x8000_0000 ==> signed32(
            read_le(code, at, 4),
        ) == v,
        0 <= bits64(v) < 0x1_0000_0000_0000_0000,
{
    assert(pow256(8) == 0x1_0000_0000_0000_0000 && pow256(4) == 0x1_0000_0000) by {
        reveal_with_fuel(pow256, 9);
    }
    if has_at(code, at, le_bytes(v, 8)) {
        lemma_read_le(code, at, v, 8);
    }
    if has_at(code, at, le_bytes(v, 4)) {
        lemma_read_le(code, at, v, 4);
    }
}

/// The 64 bits of a number that fits into them, read as a signed number, are
/// the number.
pub proof fn lemma_signed_bits(c: int)
    requires
        -0x8000_0000_0000_0000 <= c < 0x8000_0000_0000_0000,
    ensures
        signed64(bits64(c)) == c,
        bits64(c) == 0 <==> c == 0,
{
}

/// Whether `reg` is a general-purpose register; its number is then below 16
/// and names it.
pub open spec fn general(reg: X86Register) -> bool {
    !reg.spec_is_xmm()
}

/// The move of an immediate sets the register to the 64 bits of the
/// immediate and touches nothing else.
#[verifier::rlimit(50)]
pub proof fn lemma_step_move_imm(code: Seq<u8>, m: Machine, dest: X86Register, v: i64)
    requires
        m.regs.len() == 16,
        general(dest),
        has_at(code, m.pc, bytes_move_reg_i64(dest, v)),
    ensures
        step(code, m) == Step::Next(
            Machine {
                regs: m.regs.update(dest.spec_encode() as int, bits64(v as int)),
                pc: m.pc + 10,
                ..m
            },
        ),
{
    reveal(step);
    let e = dest.spec_encode();
    lemma_fields(0, e);
    lemma_le_bytes_len(v as int, 8);
    lemma_has_at_within(
        code,
        m.pc,
        Seq::empty(),
        seq![rex_w(0, e), 0xB8u8 | (e & 0x7)],
        le_bytes(v as int, 8),
    );
    lemma_has_at_within(
        code,
        m.pc,
        seq![rex_w(0, e), 0xB8u8 | (e & 0x7)],
        le_bytes(v as int, 8),
        Seq::empty(),
    );
    assert(bytes_move_reg_i64(dest, v) =~= Seq::<u8>::empty() + seq![
        rex_w(0, e),
        0xB8u8 | (e & 0x7),
    ] + le_bytes(v as int, 8));
    assert(bytes_move_reg_i64(dest, v) =~= seq![rex_w(0, e), 0xB8u8 | (e & 0x7)] + le_bytes(
        v as int,
        8,
    ) + Seq::<u8>::empty());
    let pair = seq![rex_w(0, e), 0xB8u8 | (e & 0x7)];
    assert(code[m.pc + 0] == pair[0]);
    assert(code[m.pc + 1] == pair[1]);
    lemma_read_fields(code, m.pc + 2, v as int);
}

/// What the three bytes of an instruction on two registers are, as numbers.
proof fn lemma_two_register_bytes(
    code: Seq<u8>,
    at: int,
    opcode: u8,
    reg: X86Register,
    rm: X86Register,
)
    requires
        general(reg),
        general(rm),
        has_at(
            code,
            at,
            seq![
                rex_w(reg.spec_encode(), rm.spec_encode()),
                opcode,
                modrm_direct(reg.spec_encode(), rm.spec_encode()),
            ],
        ),
    ensures
        at + 3 <= code.len(),
        0 <= at,
        is_rex_w(byte_at(code, at)),
        byte_at(code, at + 1) == opcode,
        0xC0 <= byte_at(code, at + 2),
        field_reg(byte_at(code, at), byte_at(code, at + 2)) == reg.spec_encode(),
        field_rm(byte_at(code, at), byte_at(code, at + 2)) == rm.spec_encode(),
{
    let bytes = seq![
        rex_w(reg.spec_encode(), rm.spec_encode()),
        opcode,
        modrm_direct(reg.spec_encode(), rm.spec_encode()),
    ];
    lemma_fields(reg.spec_encode(), rm.spec_encode());
    lemma_has_at_within(code, at, Seq::empty(), bytes, Seq::empty());
    assert(bytes =~= Seq::<u8>::empty() + bytes + Seq::<u8>::empty());
    assert(code[at + 0] == bytes[0]);
    assert(code[at + 1] == bytes[1]);
    assert(code[at + 2] == bytes[2]);
}

/// The move between registers copies the source into the destination and
/// touches nothing else.
pub proof fn lemma_step_mov(code: Seq<u8>, m: Machine, src: X86Register, dst: X86Register)
    requires
        m.regs.len() == 16,
        general(src),
        general(dst),
        src != dst,
        has_at(code, m.pc, bytes_mov_reg_to_reg(src, dst)),
    ensures
        step(code, m) == Step::Next(
            Machine {
                regs: m.regs.update(dst.spec_encode() as int, m.regs[src.spec_encode() as int]),
                pc: m.pc + 3,
                ..m
            },
        ),
{
    reveal(step);
    lemma_two_register_bytes(code, m.pc, 0x89, src, dst);
}

/// The addition leaves in `left` the 64 bits of the sum of `left` and
/// `right`.
pub proof fn lemma_step_add(code: Seq<u8>, m: Machine, left: X86Register, right: X86Register)
    requires
        m.regs.len() == 16,
        general(left),
        general(right),
        has_at(code, m.pc, bytes_add_reg_reg(left, right)),
    ensures
        step(code, m) matches Step::Next(next) && next.pc == m.pc + 3 && next.regs
            == m.regs.update(
            left.spec_encode() as int,
            bits64(m.regs[left.spec_encode() as int] + m.regs[right.spec_encode() as int]),
        ),
{
    reveal(step);
    lemma_two_register_bytes(code, m.pc, 0x01, right, left);
}

/// The subtraction leaves in `left` the 64 bits of the difference of `left`
/// and `right`.
pub proof fn lemma_step_sub(code: Seq<u8>, m: Machine, left: X86Register, right: X86Register)
    requires
        m.regs.len() == 16,
        general(left),
        general(right),
        has_at(code, m.pc, bytes_sub_reg_reg(left, right)),
    ensures
        step(code, m) matches Step::Next(next) && next.pc == m.pc + 3 && next.regs
            == m.regs.update(
            left.spec_encode() as int,
            bits64(m.regs[left.spec_encode() as int] - m.regs[right.spec_encode() as int]),
        ),
{
    reveal(step);
    lemma_two_register_bytes(code, m.pc, 0x29, right, left);
}

/// The comparison changes no register and leaves the flags of `left`
/// against `right`.
pub proof fn lemma_step_compare(code: Seq<u8>, m: Machine, left: X86Register, right: X86Register)
    requires
        m.regs.len() == 16,
        general(left),
        general(right),
        has_at(code, m.pc, bytes_eq_reg_reg(left, right)),
    ensures
        step(code, m) == Step::Next(
            Machine {
                flags: Some(
                    Flags {
                        zero: m.regs[left.spec_encode() as int] == m.regs[right.spec_encode() as int],
                        less: signed64(m.regs[left.spec_encode() as int]) < signed64(
                            m.regs[right.spec_encode() as int],
                        ),
                    },
                ),
                pc: m.pc + 3,
                ..m
            },
        ),
{
    reveal(step);
    lemma_two_register_bytes(code, m.pc, 0x39, right, left);
}

/// What the four bytes of an instruction with a long opcode are, as
/// numbers.
proof fn lemma_long_opcode_bytes(
    code: Seq<u8>,
    at: int,
    prefix: u8,
    opcode: u8,
    reg: u8,
    rm: u8,
)
    requires
        reg < 16,
        rm < 16,
        prefix == rex_w(reg, rm) || prefix == rex(reg, rm),
        has_at(code, at, seq![prefix, 0x0Fu8, opcode, modrm_direct(reg, rm)]),
    ensures
        at + 4 <= code.len(),
        0 <= at,
        byte_at(code, at) == prefix,
        0x40 <= byte_at(code, at) <= 0x4F,
        prefix == rex_w(reg, rm) ==> is_rex_w(byte_at(code, at)),
        prefix == rex(reg, rm) && reg == 0 ==> byte_at(code, at) == 0x40 + rm / 8,
        byte_at(code, at + 1) == 0x0F,
        byte_at(code, at + 2) == opcode,
        0xC0 <= byte_at(code, at + 3),
        (byte_at(code, at + 3) - 0xC0) / 8 == reg % 8,
        field_reg(byte_at(code, at), byte_at(code, at + 3)) == reg,
        field_rm(byte_at(code, at), byte_at(code, at + 3)) == rm,
{
    let bytes = seq![prefix, 0x0Fu8, opcode, modrm_direct(reg, rm)];
    lemma_fields(reg, rm);
    lemma_has_at_within(code, at, Seq::empty(), bytes, Seq::empty());
    assert(bytes =~= Seq::<u8>::empty() + bytes + Seq::<u8>::empty());
    assert(code[at + 0] == bytes[0]);
    assert(code[at + 1] == bytes[1]);
    assert(code[at + 2] == bytes[2]);
    assert(code[at + 3] == bytes[3]);
}

/// The multiplication leaves in `left` the 64 bits of the product of `left`
/// and `right`, as signed numbers.
pub proof fn lemma_step_mul(code: Seq<u8>, m: Machine, left: X86Register, right: X86Register)
    requires
        m.regs.len() == 16,
        general(left),
        general(right),
        has_at(code, m.pc, bytes_mul_reg_reg(left, right)),
    ensures
        step(code, m) matches Step::Next(next) && next.pc == m.pc + 4 && next.regs
            == m.regs.update(
            left.spec_encode() as int,
            bits64(
                signed64(m.regs[left.spec_encode() as int]) * signed64(
                    m.regs[right.spec_encode() as int],
                ),
            ),
        ),
{
    reveal(step);
    lemma_long_opcode_bytes(
        code,
        m.pc,
        rex_w(left.spec_encode(), right.spec_encode()),
        0xAF,
        left.spec_encode(),
        right.spec_encode(),
    );
}

/// The widening leaves in `reg` what its low byte held.
pub proof fn lemma_step_zero_extend(code: Seq<u8>, m: Machine, reg: X86Register)
    requires
        m.regs.len() == 16,
        general(reg),
        has_at(code, m.pc, bytes_zero_extend_byte(reg)),
    ensures
        step(code, m) == Step::Next(
            Machine {
                regs: m.regs.update(
                    reg.spec_encode() as int,
                    m.regs[reg.spec_encode() as int] % 256,
                ),
                pc: m.pc + 4,
                ..m
            },
        ),
{
    reveal(step);
    lemma_long_opcode_bytes(
        code,
        m.pc,
        rex_w(reg.spec_encode(), reg.spec_encode()),
        0xB6,
        reg.spec_encode(),
        reg.spec_encode(),
    );
}

/// Recording a condition sets the low byte of `reg` to 1 where the flags
/// show the condition and to 0 where they do not, and keeps the rest of
/// `reg`.
pub proof fn lemma_step_set_condition(
    code: Seq<u8>,
    m: Machine,
    condition: Condition,
    reg: X86Register,
)
    requires
        m.regs.len() == 16,
        general(reg),
        m.flags is Some,
        has_at(code, m.pc, bytes_set_condition(condition, reg)),
    ensures
        step(code, m) == Step::Next(
            Machine {
                regs: m.regs.update(
                    reg.spec_encode() as int,
                    m.regs[reg.spec_encode() as int] - m.regs[reg.spec_encode() as int] % 256 + (
                    if condition_holds(condition.spec_code() as int, m.flags->0) {
                        1int
                    } else {
                        0int
                    }),
                ),
                pc: m.pc + 4,
                ..m
            },
        ),
{
    reveal(step);
    let c = condition.spec_code();
    assert(0x90u8 | c == 0x90 + c) by (bit_vector)
        requires
            c < 16,
    ;
    lemma_long_opcode_bytes(
        code,
        m.pc,
        rex(0, reg.spec_encode()),
        0x90u8 | c,
        0,
        reg.spec_encode(),
    );
}

/// The jump sets the program counter behind the jump plus the
/// displacement.
pub proof fn lemma_step_jmp(code: Seq<u8>, m: Machine, displacement: int)
    requires
        m.regs.len() == 16,
        -0x8000_0000 <= displacement < 0x8000_0000,
        has_at(code, m.pc, bytes_jmp_to(displacement)),
    ensures
        step(code, m) == Step::Next(Machine { pc: m.pc + 5 + displacement, ..m }),
{
    reveal(step);
    lemma_le_bytes_len(displacement, 4);
    lemma_has_at_within(code, m.pc, Seq::empty(), seq![0xE9u8], le_bytes(displacement, 4));
    lemma_has_at_within(code, m.pc, seq![0xE9u8], le_bytes(displacement, 4), Seq::empty());
    assert(bytes_jmp_to(displacement) =~= Seq::<u8>::empty() + seq![0xE9u8] + le_bytes(
        displacement,
        4,
    ));
    assert(bytes_jmp_to(displacement) =~= seq![0xE9u8] + le_bytes(displacement, 4) + Seq::<
        u8,
    >::empty());
    assert(code[m.pc + 0] == seq![0xE9u8][0]);
    lemma_read_fields(code, m.pc + 1, displacement);
}

/// The conditional jump, two instructions, goes on behind itself plus the
/// displacement where `reg` is zero, and behind itself where it is not; it
/// changes no register.
#[verifier::rlimit(50)]
pub proof fn lemma_steps_cond_jmp(code: Seq<u8>, m: Machine, reg: X86Register, displacement: int)
    requires
        m.regs.len() == 16,
        general(reg),
        -0x8000_0000 <= displacement < 0x8000_0000,
        has_at(code, m.pc, bytes_cond_jmp_to(reg, displacement)),
    ensures
        reaches(
            code,
            m,
            2,
            if m.regs[reg.spec_encode() as int] == 0 {
                m.pc + 10 + displacement
            } else {
                m.pc + 10
            },
            m.regs,
        ),
{
    reveal(step);
    let e = reg.spec_encode();
    lemma_fields(0, e);
    lemma_le_bytes_len(displacement, 4);
    let head = seq![rex_w(0, e), 0x83u8, 0xF8u8 | (e & 7), 0x00u8, 0x0Fu8, 0x84u8];
    lemma_has_at_within(code, m.pc, Seq::empty(), head, le_bytes(displacement, 4));
    lemma_has_at_within(code, m.pc, head, le_bytes(displacement, 4), Seq::empty());
    assert(bytes_cond_jmp_to(reg, displacement) =~= Seq::<u8>::empty() + head + le_bytes(
        displacement,
        4,
    ));
    assert(bytes_cond_jmp_to(reg, displacement) =~= head + le_bytes(displacement, 4) + Seq::<
        u8,
    >::empty());
    assert(code[m.pc + 0] == head[0]);
    assert(code[m.pc + 1] == head[1]);
    assert(code[m.pc + 2] == head[2]);
    assert(code[m.pc + 3] == head[3]);
    assert(code[m.pc + 4] == head[4]);
    assert(code[m.pc + 5] == head[5]);
    lemma_read_fields(code, m.pc + 6, displacement);
    let m1 = Machine {
        flags: Some(
            Flags { zero: m.regs[e as int] == 0, less: signed64(m.regs[e as int]) < 0 },
        ),
        pc: m.pc + 4,
        ..m
    };
    assert(step(code, m) == Step::Next(m1));
    reveal_with_fuel(steps, 3);
}

/// The return hands back what the accumulator holds.
pub proof fn lemma_step_ret(code: Seq<u8>, m: Machine)
    requires
        m.regs.len() == 16,
        has_at(code, m.pc, bytes_ret()),
    ensures
        step(code, m) == Step::Return(m.regs[0]),
{
    reveal(step);
    lemma_has_at_within(code, m.pc, Seq::empty(), bytes_ret(), Seq::empty());
    assert(bytes_ret() =~= Seq::<u8>::empty() + bytes_ret() + Seq::<u8>::empty());
    assert(code[m.pc + 0] == bytes_ret()[0]);
}

/// What an addition, a subtraction or a multiplication is lowered to, the
/// move of `left` into `result` and the operation on `result` and `right`,
/// leaves in `result` the sum, the difference or the product of what `left`
/// and `right` held, cut to 64 bits, and changes no other register.
#[verifier::rlimit(50)]
pub proof fn lemma_arithmetic_result(
    code: Seq<u8>,
    m: Machine,
    left: X86Register,
    right: X86Register,
    result: X86Register,
)
    requires
        m.regs.len() == 16,
        general(left),
        general(right),
        general(result),
        result != left,
        result != right,
    ensures
        has_at(
            code,
            m.pc,
            bytes_mov_reg_to_reg(left, result) + bytes_add_reg_reg(result, right),
        ) ==> reaches(
            code,
            m,
            2,
            m.pc + 6,
            m.regs.update(
                result.spec_encode() as int,
                bits64(m.regs[left.spec_encode() as int] + m.regs[right.spec_encode() as int]),
            ),
        ),
        has_at(
            code,
            m.pc,
            bytes_mov_reg_to_reg(left, result) + bytes_sub_reg_reg(result, right),
        ) ==> reaches(
            code,
            m,
            2,
            m.pc + 6,
            m.regs.update(
                result.spec_encode() as int,
                bits64(m.regs[left.spec_encode() as int] - m.regs[right.spec_encode() as int]),
            ),
        ),
        has_at(
            code,
            m.pc,
            bytes_mov_reg_to_reg(left, result) + bytes_mul_reg_reg(result, right),
        ) ==> reaches(
            code,
            m,
            2,
            m.pc + 7,
            m.regs.update(
                result.spec_encode() as int,
                bits64(
                    signed64(m.regs[left.spec_encode() as int]) * signed64(
                        m.regs[right.spec_encode() as int],
                    ),
                ),
            ),
        ),
{
    let mov = bytes_mov_reg_to_reg(left, result);
    let l = left.spec_encode() as int;
    let r = right.spec_encode() as int;
    let d = result.spec_encode() as int;
    crate::gen::x86_64::x86_64_allocator::lemma_encode_injective(result, left);
    crate::gen::x86_64::x86_64_allocator::lemma_encode_injective(result, right);
    let m1 = Machine { regs: m.regs.update(d, m.regs[l]), pc: m.pc + 3, ..m };
    reveal_with_fuel(steps, 3);
    if has_at(code, m.pc, mov + bytes_add_reg_reg(result, right)) {
        let op = bytes_add_reg_reg(result, right);
        lemma_piece_within(code, m.pc, mov + op, Seq::empty(), mov, op);
        lemma_piece_within(code, m.pc, mov + op, mov, op, Seq::empty());
        lemma_step_mov(code, m, left, result);
        lemma_step_add(code, m1, result, right);
        assert(m1.regs.update(d, bits64(m1.regs[d] + m1.regs[r])) =~= m.regs.update(
            d,
            bits64(m.regs[l] + m.regs[r]),
        ));
    }
    if has_at(code, m.pc, mov + bytes_sub_reg_reg(result, right)) {
        let op = bytes_sub_reg_reg(result, right);
        lemma_piece_within(code, m.pc, mov + op, Seq::empty(), mov, op);
        lemma_piece_within(code, m.pc, mov + op, mov, op, Seq::empty());
        lemma_step_mov(code, m, left, result);
        lemma_step_sub(code, m1, result, right);
        assert(m1.regs.update(d, bits64(m1.regs[d] - m1.regs[r])) =~= m.regs.update(
            d,
            bits64(m.regs[l] - m.regs[r]),
        ));
    }
    if has_at(code, m.pc, mov + bytes_mul_reg_reg(result, right)) {
        let op = bytes_mul_reg_reg(result, right);
        lemma_piece_within(code, m.pc, mov + op, Seq::empty(), mov, op);
        lemma_piece_within(code, m.pc, mov + op, mov, op, Seq::empty());
        lemma_step_mov(code, m, left, result);
        lemma_step_mul(code, m1, result, right);
        assert(m1.regs.update(d, bits64(signed64(m1.regs[d]) * signed64(m1.regs[r])))
            =~= m.regs.update(d, bits64(signed64(m.regs[l]) * signed64(m.regs[r]))));
    }
}

/// What a comparison is lowered to, the comparison of `left` with `right`,
/// the recording of the condition in `result` and the widening of
/// `result`, leaves 1 in `result` where the condition holds of what `left`
/// and `right` held, as signed numbers, and 0 where it does not, and changes
/// no other register.
#[verifier::rlimit(50)]
pub proof fn lemma_comparison_result(
    code: Seq<u8>,
    m: Machine,
    condition: Condition,
    left: X86Register,
    right: X86Register,
    result: X86Register,
)
    requires
        m.regs.len() == 16,
        general(left),
        general(right),
        general(result),
        0 <= m.regs[left.spec_encode() as int] < 0x1_0000_0000_0000_0000,
        0 <= m.regs[right.spec_encode() as int] < 0x1_0000_0000_0000_0000,
        has_at(
            code,
            m.pc,
            bytes_eq_reg_reg(left, right) + bytes_set_condition(condition, result)
                + bytes_zero_extend_byte(result),
        ),
    ensures
        reaches(
            code,
            m,
            3,
            m.pc + 11,
            m.regs.update(
                result.spec_encode() as int,
                if compares_as(
                    condition,
                    signed64(m.regs[left.spec_encode() as int]),
                    signed64(m.regs[right.spec_encode() as int]),
                ) {
                    1int
                } else {
                    0int
                },
            ),
        ),
{
    let a = bytes_eq_reg_reg(left, right);
    let b = bytes_set_condition(condition, result);
    let c = bytes_zero_extend_byte(result);
    let l = m.regs[left.spec_encode() as int];
    let r = m.regs[right.spec_encode() as int];
    let d = result.spec_encode() as int;
    lemma_fields(0, 0);
    assert(a.len() == 3 && b.len() == 4 && c.len() == 4);
    lemma_piece_within(code, m.pc, a + b + c, Seq::empty(), a, b + c);
    lemma_piece_within(code, m.pc, a + b + c, a, b, c);
    lemma_piece_within(code, m.pc, a + b + c, a + b, c, Seq::empty());
    let flags = Flags { zero: l == r, less: signed64(l) < signed64(r) };
    let m1 = Machine { flags: Some(flags), pc: m.pc + 3, ..m };
    lemma_step_compare(code, m, left, right);
    let bit = if condition_holds(condition.spec_code() as int, flags) {
        1int
    } else {
        0int
    };
    let m2 = Machine { regs: m1.regs.update(d, m.regs[d] - m.regs[d] % 256 + bit), pc: m.pc + 7, ..m1 };
    lemma_step_set_condition(code, m1, condition, result);
    lemma_step_zero_extend(code, m2, result);
    assert((m.regs[d] - m.regs[d] % 256 + bit) % 256 == bit) by {
        let q = m.regs[d] / 256;
        lemma_fundamental_div_mod(m.regs[d], 256);
        lemma_fundamental_div_mod_converse(m.regs[d] - m.regs[d] % 256 + bit, 256, q, bit);
    }
    assert(signed64(l) == signed64(r) <==> l == r);
    reveal_with_fuel(steps, 4);
    assert(m2.regs.update(d, m2.regs[d] % 256) =~= m.regs.update(d, bit));
}

/// Whether the condition holds of the signed numbers `a` and `b`.
pub open spec fn compares_as(condition: Condition, a: int, b: int) -> bool {
    match condition {
        Condition::Equal => a == b,
        Condition::NotEqual => a != b,
        Condition::Greater => a > b,
        Condition::GreaterEqual => a >= b,
        Condition::Less => a < b,
        Condition::LessEqual => a <= b,
    }
}

/// The push of a general-purpose register puts what it holds on the stack;
/// the pop of a register takes the quadword pushed last into the register.
/// So a pop of a register that follows its push, with the same pushes as
/// pops between them, restores what the register held.
pub proof fn lemma_step_push_pop(code: Seq<u8>, m: Machine, reg: X86Register)
    requires
        m.regs.len() == 16,
        general(reg),
    ensures
        has_at(code, m.pc, bytes_push_reg(reg)) ==> step(code, m) == step_stack(
            m,
            false,
            reg.spec_encode() as int,
            bytes_push_reg(reg).len() as int,
        ),
        has_at(code, m.pc, bytes_pop_reg(reg)) ==> step(code, m) == step_stack(
            m,
            true,
            reg.spec_encode() as int,
            bytes_pop_reg(reg).len() as int,
        ),
{
    reveal(step);
    let e = reg.spec_encode();
    if has_at(code, m.pc, bytes_push_reg(reg)) {
        let bytes = bytes_push_reg(reg);
        lemma_has_at_within(code, m.pc, Seq::empty(), bytes, Seq::empty());
        assert(bytes =~= Seq::<u8>::empty() + bytes + Seq::<u8>::empty());
        assert(code[m.pc + 0] == bytes[0]);
        if e >= 8 {
            assert(code[m.pc + 1] == bytes[1]);
        }
    }
    if has_at(code, m.pc, bytes_pop_reg(reg)) {
        let bytes = bytes_pop_reg(reg);
        lemma_has_at_within(code, m.pc, Seq::empty(), bytes, Seq::empty());
        assert(bytes =~= Seq::<u8>::empty() + bytes + Seq::<u8>::empty());
        assert(code[m.pc + 0] == bytes[0]);
        if e >= 8 {
            assert(code[m.pc + 1] == bytes[1]);
        }
    }
}

/// Popping restores what was pushed.  Where the stack holds, on top, the
/// quadwords that were pushed for the general-purpose registers `pushed`,
/// in push order, the pops that the generator emits behind a call, last
/// pushed first, leave in each of these registers the quadword that was
/// pushed for it, take exactly these quadwords off the stack, and change no
/// other register but the stack pointer.
#[verifier::rlimit(50)]
pub proof fn lemma_pops_restore(
    code: Seq<u8>,
    m: Machine,
    pushed: Seq<X86Register>,
    base: Seq<int>,
    values: Seq<int>,
)
    requires
        m.regs.len() == 16,
        values.len() == pushed.len(),
        m.stack == base + values,
        forall|i: int|
            0 <= i < pushed.len() ==> general(#[trigger] pushed[i]) && pushed[i]
                != X86Register::RSP,
        pushed.no_duplicates(),
        has_at(code, m.pc, bytes_pop_all(pushed)),
    ensures
        steps(code, m, pushed.len()) is Some,
        steps(code, m, pushed.len())->0.stack == base,
        steps(code, m, pushed.len())->0.pc == m.pc + bytes_pop_all(pushed).len(),
        steps(code, m, pushed.len())->0.regs.len() == 16,
        forall|i: int|
            0 <= i < pushed.len() ==> steps(code, m, pushed.len())->0.regs[(
            #[trigger] pushed[i]).spec_encode() as int] == values[i],
        forall|e: int|
            0 <= e < 16 && e != 4 && (forall|i: int|
                0 <= i < pushed.len() ==> (#[trigger] pushed[i]).spec_encode() != e) ==> (
            #[trigger] steps(code, m, pushed.len())->0.regs[e]) == m.regs[e],
    decreases pushed.len(),
{
    if pushed.len() == 0 {
        assert(base + values =~= base);
    } else {
        let last = pushed.last();
        let rest = pushed.drop_last();
        let first_pop = bytes_pop_reg(last);
        let others = bytes_pop_all(rest);
        assert(bytes_pop_all(pushed) == first_pop + others);
        lemma_piece_within(code, m.pc, first_pop + others, Seq::empty(), first_pop, others);
        lemma_piece_within(code, m.pc, first_pop + others, first_pop, others, Seq::empty());
        assert(general(pushed[pushed.len() - 1]));
        lemma_step_push_pop(code, m, last);
        crate::gen::x86_64::x86_64_allocator::lemma_encode_injective(last, X86Register::RSP);
        let m1 = step(code, m)->Next_0;
        assert(m.stack.last() == values.last());
        assert(m1.stack =~= base + values.drop_last());
        assert(m1.regs[last.spec_encode() as int] == values.last());
        assert forall|i: int| 0 <= i < rest.len() implies general(#[trigger] rest[i]) && rest[i]
            != X86Register::RSP by {
            assert(rest[i] == pushed[i]);
        }
        lemma_pops_restore(code, m1, rest, base, values.drop_last());
        let end = steps(code, m1, rest.len())->0;
        assert(steps(code, m, pushed.len()) == steps(code, m1, rest.len())) by {
            reveal_with_fuel(steps, 2);
        }
        assert forall|i: int| 0 <= i < pushed.len() implies end.regs[(
        #[trigger] pushed[i]).spec_encode() as int] == values[i] by {
            if i < rest.len() {
                assert(rest[i] == pushed[i]);
                assert(values.drop_last()[i] == values[i]);
            } else {
                let e = last.spec_encode() as int;
                assert forall|k: int| 0 <= k < rest.len() implies (
                #[trigger] rest[k]).spec_encode() != e by {
                    assert(rest[k] == pushed[k]);
                    assert(pushed[k] != pushed[pushed.len() - 1]);
                    crate::gen::x86_64::x86_64_allocator::lemma_encode_injective(
                        pushed[k],
                        last,
                    );
                    assert(general(pushed[k]));
                }
                assert(end.regs[e] == m1.regs[e]);
            }
        }
        assert forall|e: int|
            0 <= e < 16 && e != 4 && (forall|i: int|
                0 <= i < pushed.len() ==> (#[trigger] pushed[i]).spec_encode() != e) implies (
        #[trigger] end.regs[e]) == m.regs[e] by {
            assert forall|k: int| 0 <= k < rest.len() implies (#[trigger] rest[k]).spec_encode()
                != e by {
                assert(rest[k] == pushed[k]);
            }
            assert(pushed[pushed.len() - 1].spec_encode() != e);
            assert(end.regs[e] == m1.regs[e]);
        }
    }
}

/// The extension of the accumulator makes the pair of remainder register
/// and accumulator the accumulator's signed number.
pub proof fn lemma_step_extend(code: Seq<u8>, m: Machine)
    requires
        m.regs.len() == 16,
        0 <= m.regs[0] < 0x1_0000_0000_0000_0000,
        has_at(code, m.pc, bytes_extend_accumulator()),
    ensures
        step(code, m) matches Step::Next(next) && next.pc == m.pc + 2 && next.stack == m.stack
            && next.regs == m.regs.update(2, next.regs[2]) && signed64(next.regs[2])
            * 0x1_0000_0000_0000_0000 + next.regs[0] == signed64(m.regs[0]),
{
    reveal(step);
    let bytes = bytes_extend_accumulator();
    lemma_has_at_within(code, m.pc, Seq::empty(), bytes, Seq::empty());
    assert(bytes =~= Seq::<u8>::empty() + bytes + Seq::<u8>::empty());
    assert(code[m.pc + 0] == bytes[0]);
    assert(code[m.pc + 1] == bytes[1]);
}

/// The division by a register divides the pair by what the register holds.
pub proof fn lemma_step_divide(code: Seq<u8>, m: Machine, divisor: X86Register)
    requires
        m.regs.len() == 16,
        general(divisor),
        has_at(code, m.pc, bytes_div_reg_reg(divisor)),
    ensures
        step(code, m) == step_divide(m, m.regs[divisor.spec_encode() as int], 3),
{
    reveal(step);
    let e = divisor.spec_encode();
    lemma_fields(0, e);
    lemma_fields(7, e);
    let bytes = bytes_div_reg_reg(divisor);
    lemma_has_at_within(code, m.pc, Seq::empty(), bytes, Seq::empty());
    assert(bytes =~= Seq::<u8>::empty() + bytes + Seq::<u8>::empty());
    assert(code[m.pc + 0] == bytes[0]);
    assert(code[m.pc + 1] == bytes[1]);
    assert(code[m.pc + 2] == bytes[2]);
}

/// The division by the top of the stack divides the pair by the quadword
/// pushed last.
pub proof fn lemma_step_divide_stack(code: Seq<u8>, m: Machine)
    requires
        m.regs.len() == 16,
        m.stack.len() > 0,
        has_at(code, m.pc, bytes_div_stack()),
    ensures
        step(code, m) == step_divide(m, m.stack.last(), 4),
{
    reveal(step);
    let bytes = bytes_div_stack();
    lemma_has_at_within(code, m.pc, Seq::empty(), bytes, Seq::empty());
    assert(bytes =~= Seq::<u8>::empty() + bytes + Seq::<u8>::empty());
    assert(code[m.pc + 0] == bytes[0]);
    assert(code[m.pc + 1] == bytes[1]);
    assert(code[m.pc + 2] == bytes[2]);
    assert(code[m.pc + 3] == bytes[3]);
}

/// What a division is lowered to where the remainder register holds no
/// value: the move of `left` into the accumulator, its extension, the
/// division by `right`, and the move of the accumulator into `result`.
/// Where `right` is not zero and the quotient fits into 64 bits, `result`
/// holds the quotient of what `left` and `right` held, as signed numbers,
/// rounded towards zero.
#[verifier::rlimit(50)]
pub proof fn lemma_division_result(
    code: Seq<u8>,
    m: Machine,
    left: X86Register,
    right: X86Register,
    result: X86Register,
)
    requires
        m.regs.len() == 16,
        general(left),
        general(right),
        general(result),
        left != X86Register::RAX,
        result != X86Register::RAX,
        right != X86Register::RAX,
        right != X86Register::RDX,
        0 <= m.regs[left.spec_encode() as int] < 0x1_0000_0000_0000_0000,
        signed64(m.regs[right.spec_encode() as int]) != 0,
        -0x8000_0000_0000_0000 <= quotient(
            signed64(m.regs[left.spec_encode() as int]),
            signed64(m.regs[right.spec_encode() as int]),
        ) < 0x8000_0000_0000_0000,
        has_at(
            code,
            m.pc,
            bytes_mov_reg_to_reg(left, X86Register::RAX) + bytes_extend_accumulator()
                + bytes_div_reg_reg(right) + bytes_mov_reg_to_reg(X86Register::RAX, result),
        ),
    ensures
        steps(code, m, 4) matches Some(then) && then.pc == m.pc + 11 && then.stack == m.stack
            && then.regs[result.spec_encode() as int] == bits64(
            quotient(
                signed64(m.regs[left.spec_encode() as int]),
                signed64(m.regs[right.spec_encode() as int]),
            ),
        ),
{
    let p1 = bytes_mov_reg_to_reg(left, X86Register::RAX);
    let p2 = bytes_extend_accumulator();
    let p3 = bytes_div_reg_reg(right);
    let p4 = bytes_mov_reg_to_reg(X86Register::RAX, result);
    let whole = p1 + p2 + p3 + p4;
    let l = left.spec_encode() as int;
    let r = right.spec_encode() as int;
    let d = result.spec_encode() as int;
    crate::gen::x86_64::x86_64_allocator::lemma_encode_injective(right, X86Register::RAX);
    crate::gen::x86_64::x86_64_allocator::lemma_encode_injective(right, X86Register::RDX);
    crate::gen::x86_64::x86_64_allocator::lemma_encode_injective(left, X86Register::RAX);
    crate::gen::x86_64::x86_64_allocator::lemma_encode_injective(result, X86Register::RAX);
    lemma_piece_within(code, m.pc, whole, Seq::empty(), p1, p2 + p3 + p4);
    lemma_piece_within(code, m.pc, whole, p1, p2, p3 + p4);
    lemma_piece_within(code, m.pc, whole, p1 + p2, p3, p4);
    lemma_piece_within(code, m.pc, whole, p1 + p2 + p3, p4, Seq::empty());
    let m1 = Machine { regs: m.regs.update(0, m.regs[l]), pc: m.pc + 3, ..m };
    lemma_step_mov(code, m, left, X86Register::RAX);
    lemma_step_extend(code, m1);
    let m2 = step(code, m1)->Next_0;
    assert(m2.regs[r] == m.regs[r]);
    lemma_step_divide(code, m2, right);
    let q = quotient(signed64(m.regs[l]), signed64(m.regs[r]));
    let m3 = step(code, m2)->Next_0;
    assert(m3.regs[0] == bits64(q));
    assert(m3.pc == m.pc + 8);
    lemma_step_mov(code, m3, X86Register::RAX, result);
    reveal_with_fuel(steps, 5);
}

/// What a division by the value in the remainder register is lowered to:
/// the push of the remainder register, the move of `left` into the
/// accumulator, its extension, the division by the pushed quadword, the pop
/// of the remainder register, and the move of the accumulator into
/// `result`.  Where the divisor is not zero and the quotient fits into 64
/// bits, `result` holds the quotient of what `left` and the remainder
/// register held, as signed numbers, rounded towards zero; the stack is as
/// it was, and so is the remainder register unless it is `result`.
#[verifier::rlimit(50)]
pub proof fn lemma_division_by_saved_result(
    code: Seq<u8>,
    m: Machine,
    left: X86Register,
    result: X86Register,
)
    requires
        m.regs.len() == 16,
        general(left),
        general(result),
        left != X86Register::RAX,
        left != X86Register::RSP,
        left != X86Register::RDX,
        result != X86Register::RAX,
        result != X86Register::RSP,
        0 <= m.regs[left.spec_encode() as int] < 0x1_0000_0000_0000_0000,
        signed64(m.regs[2]) != 0,
        -0x8000_0000_0000_0000 <= quotient(
            signed64(m.regs[left.spec_encode() as int]),
            signed64(m.regs[2]),
        ) < 0x8000_0000_0000_0000,
        has_at(
            code,
            m.pc,
            bytes_push_reg(X86Register::RDX) + bytes_mov_reg_to_reg(left, X86Register::RAX)
                + bytes_extend_accumulator() + bytes_div_stack() + bytes_pop_reg(
                X86Register::RDX,
            ) + bytes_mov_reg_to_reg(X86Register::RAX, result),
        ),
    ensures
        steps(code, m, 6) matches Some(then) && then.pc == m.pc + 14 && then.stack == m.stack
            && then.regs[result.spec_encode() as int] == bits64(
            quotient(signed64(m.regs[left.spec_encode() as int]), signed64(m.regs[2])),
        ) && (result != X86Register::RDX ==> then.regs[2] == m.regs[2]),
{
    let p0 = bytes_push_reg(X86Register::RDX);
    let p1 = bytes_mov_reg_to_reg(left, X86Register::RAX);
    let p2 = bytes_extend_accumulator();
    let p3 = bytes_div_stack();
    let p4 = bytes_pop_reg(X86Register::RDX);
    let p5 = bytes_mov_reg_to_reg(X86Register::RAX, result);
    let whole = p0 + p1 + p2 + p3 + p4 + p5;
    let l = left.spec_encode() as int;
    let d = result.spec_encode() as int;
    crate::gen::x86_64::x86_64_allocator::lemma_encode_injective(left, X86Register::RAX);
    crate::gen::x86_64::x86_64_allocator::lemma_encode_injective(left, X86Register::RSP);
    crate::gen::x86_64::x86_64_allocator::lemma_encode_injective(left, X86Register::RDX);
    crate::gen::x86_64::x86_64_allocator::lemma_encode_injective(result, X86Register::RAX);
    crate::gen::x86_64::x86_64_allocator::lemma_encode_injective(result, X86Register::RSP);
    crate::gen::x86_64::x86_64_allocator::lemma_encode_injective(result, X86Register::RDX);
    lemma_piece_within(code, m.pc, whole, Seq::empty(), p0, p1 + p2 + p3 + p4 + p5);
    lemma_piece_within(code, m.pc, whole, p0, p1, p2 + p3 + p4 + p5);
    lemma_piece_within(code, m.pc, whole, p0 + p1, p2, p3 + p4 + p5);
    lemma_piece_within(code, m.pc, whole, p0 + p1 + p2, p3, p4 + p5);
    lemma_piece_within(code, m.pc, whole, p0 + p1 + p2 + p3, p4, p5);
    lemma_piece_within(code, m.pc, whole, p0 + p1 + p2 + p3 + p4, p5, Seq::empty());
    lemma_step_push_pop(code, m, X86Register::RDX);
    let m1 = step(code, m)->Next_0;
    assert(m1.pc == m.pc + 1 && m1.stack == m.stack.push(m.regs[2]));
    assert(m1.regs[l] == m.regs[l]);
    let m2 = Machine { regs: m1.regs.update(0, m1.regs[l]), pc: m.pc + 4, ..m1 };
    lemma_step_mov(code, m1, left, X86Register::RAX);
    lemma_step_extend(code, m2);
    let m3 = step(code, m2)->Next_0;
    lemma_step_divide_stack(code, m3);
    let q = quotient(signed64(m.regs[l]), signed64(m.regs[2]));
    assert(m3.stack.last() == m.regs[2]);
    let m4 = step(code, m3)->Next_0;
    assert(m4.regs[0] == bits64(q));
    assert(m4.pc == m.pc + 10);
    lemma_step_push_pop(code, m4, X86Register::RDX);
    let m5 = step(code, m4)->Next_0;
    assert(m5.stack =~= m.stack);
    assert(m5.regs[2] == m.regs[2]);
    assert(m5.regs[0] == bits64(q));
    assert(m5.pc == m.pc + 11);
    lemma_step_mov(code, m5, X86Register::RAX, result);
    reveal_with_fuel(steps, 7);
}

/// What the generator emits for arithmetic on general-purpose registers and
/// for a comparison are the byte sequences of which the lemmas above speak.
#[verifier::rlimit(50)]
pub proof fn lemma_lowering_emits(
    s: GenState,
    condition: Condition,
    left: X86Register,
    right: X86Register,
    result: X86Register,
)
    ensures
        s.emit_general_arith(Arith::Add, left, right, result, false).code == s.code + (
        bytes_mov_reg_to_reg(left, result) + bytes_add_reg_reg(result, right)),
        s.emit_general_arith(Arith::Sub, left, right, result, false).code == s.code + (
        bytes_mov_reg_to_reg(left, result) + bytes_sub_reg_reg(result, right)),
        s.emit_general_arith(Arith::Mul, left, right, result, false).code == s.code + (
        bytes_mov_reg_to_reg(left, result) + bytes_mul_reg_reg(result, right)),
        right != X86Register::RDX ==> s.emit_general_arith(Arith::Div, left, right, result, false).code
            == s.code + (bytes_mov_reg_to_reg(left, X86Register::RAX)
            + bytes_extend_accumulator() + bytes_div_reg_reg(right) + bytes_mov_reg_to_reg(
            X86Register::RAX,
            result,
        )),
        s.emit_general_arith(Arith::Div, left, X86Register::RDX, result, true).code == s.code + (
        bytes_push_reg(X86Register::RDX) + bytes_mov_reg_to_reg(left, X86Register::RAX)
            + bytes_extend_accumulator() + bytes_div_stack() + bytes_pop_reg(X86Register::RDX)
            + bytes_mov_reg_to_reg(X86Register::RAX, result)),
        s.emit(bytes_eq_reg_reg(left, right)).emit(bytes_set_condition(condition, result)).emit(
            bytes_zero_extend_byte(result),
        ).code == s.code + (bytes_eq_reg_reg(left, right) + bytes_set_condition(
            condition,
            result,
        ) + bytes_zero_extend_byte(result)),
{
    assert(s.emit_general_arith(Arith::Add, left, right, result, false).code =~= s.code + (
    bytes_mov_reg_to_reg(left, result) + bytes_add_reg_reg(result, right)));
    assert(s.emit_general_arith(Arith::Sub, left, right, result, false).code =~= s.code + (
    bytes_mov_reg_to_reg(left, result) + bytes_sub_reg_reg(result, right)));
    assert(s.emit_general_arith(Arith::Mul, left, right, result, false).code =~= s.code + (
    bytes_mov_reg_to_reg(left, result) + bytes_mul_reg_reg(result, right)));
    if right != X86Register::RDX {
        assert(s.emit_general_arith(Arith::Div, left, right, result, false).code =~= s.code + (
        bytes_mov_reg_to_reg(left, X86Register::RAX) + bytes_extend_accumulator()
            + bytes_div_reg_reg(right) + bytes_mov_reg_to_reg(X86Register::RAX, result)));
    }
    assert(s.emit_general_arith(Arith::Div, left, X86Register::RDX, result, true).code =~= s.code + (
    bytes_push_reg(X86Register::RDX) + bytes_mov_reg_to_reg(left, X86Register::RAX)
        + bytes_extend_accumulator() + bytes_div_stack() + bytes_pop_reg(X86Register::RDX)
        + bytes_mov_reg_to_reg(X86Register::RAX, result)));
    assert(s.emit(bytes_eq_reg_reg(left, right)).emit(
        bytes_set_condition(condition, result),
    ).emit(bytes_zero_extend_byte(result)).code =~= s.code + (bytes_eq_reg_reg(left, right)
        + bytes_set_condition(condition, result) + bytes_zero_extend_byte(result)));
}

/// Where the program counter stands at the code that returns `c` through
/// `reg`, the function returns the 64 bits of `c` after three instructions.
#[verifier::rlimit(50)]
pub proof fn lemma_runs_return_through(code: Seq<u8>, m: Machine, reg: X86Register, c: i64)
    requires
        m.regs.len() == 16,
        general(reg),
        reg != X86Register::RAX,
        has_at(code, m.pc, return_through(reg, c)),
    ensures
        run(code, m, 3) == Some(bits64(c as int)),
        signed64(bits64(c as int)) == c,
{
    let a = bytes_move_reg_i64(reg, c);
    let b = bytes_mov_reg_to_reg(reg, X86Register::RAX);
    let r = bytes_ret();
    let whole = return_through(reg, c);
    lemma_piece_lengths(reg, X86Register::RAX, c, 0);
    lemma_piece_within(code, m.pc, whole, Seq::empty(), a, b + r);
    lemma_piece_within(code, m.pc, whole, a, b, r);
    lemma_piece_within(code, m.pc, whole, a + b, r, Seq::empty());
    let e = reg.spec_encode() as int;
    let m1 = Machine { regs: m.regs.update(e, bits64(c as int)), pc: m.pc + 10, ..m };
    lemma_step_move_imm(code, m, reg, c);
    let m2 = Machine { regs: m1.regs.update(0, bits64(c as int)), pc: m.pc + 13, ..m1 };
    lemma_step_mov(code, m1, reg, X86Register::RAX);
    lemma_step_ret(code, m2);
    lemma_signed_bits(c as int);
    reveal_with_fuel(run, 4);
}

/// A function that materializes an integer constant of any width and
/// returns it returns, on the model, exactly that constant, whatever the
/// constant is and whatever the registers hold on entry.
pub proof fn lemma_constant_function_returns_constant(
    func_id: usize,
    instr: Instr,
    value: Value,
    conv: CallerView,
    m: Machine,
)
    requires
        defines_constant(instr, value),
        !value.value_type.spec_is_float(),
        at_entry(m),
    ensures
        run(generated_code(func_id, constant_blocks(instr, value), conv), m, 3) == Some(
            bits64(constant64(instr) as int),
        ),
        signed64(bits64(constant64(instr) as int)) == constant64(instr),
{
    let code = generated_code(func_id, constant_blocks(instr, value), conv);
    lemma_constant_function_code(func_id, instr, value, conv);
    lemma_has_all(code);
    lemma_runs_return_through(code, m, X86Register::RCX, constant64(instr));
}

/// A function whose entry block only jumps to the block that returns a
/// constant returns, on the model, what the function returns that returns
/// the constant at once: the constant.
#[verifier::rlimit(50)]
pub proof fn lemma_jump_function_returns_constant(
    func_id: usize,
    instr: Instr,
    value: Value,
    conv: CallerView,
    m: Machine,
)
    requires
        defines_constant(instr, value),
        !value.value_type.spec_is_float(),
        at_entry(m),
    ensures
        run(generated_code(func_id, jump_blocks(instr, value), conv), m, 4) == run(
            generated_code(func_id, constant_blocks(instr, value), conv),
            m,
            3,
        ),
        run(generated_code(func_id, jump_blocks(instr, value), conv), m, 4) == Some(
            bits64(constant64(instr) as int),
        ),
{
    let code = generated_code(func_id, jump_blocks(instr, value), conv);
    let c = constant64(instr);
    let tail = return_through(X86Register::RCX, c);
    lemma_jump_function_code(func_id, instr, value, conv);
    lemma_constant_function_code(func_id, instr, value, conv);
    lemma_constant_function_returns_constant(func_id, instr, value, conv, m);
    lemma_piece_lengths(X86Register::RCX, X86Register::RAX, c, 0);
    lemma_piece_at(code, Seq::empty(), bytes_jmp_to(0), tail);
    lemma_piece_at(code, bytes_jmp_to(0), tail, Seq::empty());
    lemma_step_jmp(code, m, 0);
    let m1 = Machine { pc: 5, ..m };
    lemma_runs_return_through(code, m1, X86Register::RCX, c);
    reveal_with_fuel(run, 2);
}

/// A function that adds two integer constants and returns the sum
/// returns, on the model, the sum, cut to 64 bits; for the constants 10
/// and 420 that is 430.
#[verifier::rlimit(50)]
pub proof fn lemma_sum_function_returns(
    func_id: usize,
    first: Instr,
    left: Value,
    second: Instr,
    right: Value,
    sum: Value,
    conv: CallerView,
    m: Machine,
)
    requires
        defines_constant(first, left),
        defines_constant(second, right),
        left.value_type == right.value_type,
        !left.value_type.spec_is_float(),
        !sum.value_type.spec_is_float(),
        left.id != right.id,
        left.id != sum.id,
        right.id != sum.id,
        at_entry(m),
    ensures
        run(generated_code(func_id, sum_blocks(first, left, second, right, sum), conv), m, 6)
            == Some(bits64(bits64(constant64(first) as int) + bits64(constant64(second) as int))),
        constant64(first) == 10 && constant64(second) == 420 ==> run(
            generated_code(func_id, sum_blocks(first, left, second, right, sum), conv),
            m,
            6,
        ) == Some(430int),
{
    let code = generated_code(func_id, sum_blocks(first, left, second, right, sum), conv);
    let c1 = constant64(first);
    let c2 = constant64(second);
    lemma_sum_function_code(func_id, first, left, second, right, sum, conv);
    let p1 = bytes_move_reg_i64(X86Register::RCX, c1);
    let p2 = bytes_move_reg_i64(X86Register::RDX, c2);
    let p3 = bytes_mov_reg_to_reg(X86Register::RCX, X86Register::RBP) + bytes_add_reg_reg(
        X86Register::RBP,
        X86Register::RDX,
    );
    let p4 = bytes_mov_reg_to_reg(X86Register::RBP, X86Register::RAX);
    let p5 = bytes_ret();
    lemma_piece_lengths(X86Register::RCX, X86Register::RBP, c1, 0);
    lemma_piece_lengths(X86Register::RDX, X86Register::RAX, c2, 0);
    lemma_piece_lengths(X86Register::RBP, X86Register::RAX, c2, 0);
    lemma_piece_at(code, Seq::empty(), p1, p2 + p3 + p4 + p5);
    lemma_piece_at(code, p1, p2, p3 + p4 + p5);
    lemma_piece_at(code, p1 + p2, p3, p4 + p5);
    lemma_piece_at(code, p1 + p2 + p3, p4, p5);
    lemma_piece_at(code, p1 + p2 + p3 + p4, p5, Seq::empty());
    let v1 = bits64(c1 as int);
    let v2 = bits64(c2 as int);
    let m1 = Machine { regs: m.regs.update(1, v1), pc: 10, ..m };
    lemma_step_move_imm(code, m, X86Register::RCX, c1);
    let m2 = Machine { regs: m1.regs.update(2, v2), pc: 20, ..m1 };
    lemma_step_move_imm(code, m1, X86Register::RDX, c2);
    lemma_arithmetic_result(code, m2, X86Register::RCX, X86Register::RDX, X86Register::RBP);
    let m4 = steps(code, m2, 2)->0;
    assert(m4.regs[5] == bits64(v1 + v2));
    assert(m4.pc == 26);
    let m5 = Machine { regs: m4.regs.update(0, bits64(v1 + v2)), pc: 29, ..m4 };
    lemma_step_mov(code, m4, X86Register::RBP, X86Register::RAX);
    lemma_step_ret(code, m5);
    assert(run(code, m4, 2) == Some(bits64(v1 + v2))) by {
        reveal_with_fuel(run, 3);
    }
    lemma_run_after_steps(code, m2, 2, m4, 2);
    assert(run(code, m, 6) == run(code, m2, 4)) by {
        reveal_with_fuel(run, 3);
    }
}

/// The function that tests a constant returns, on the model, the constant
/// of the true branch where the tested constant is not zero, and the
/// constant of the false branch where it is zero.
#[verifier::rlimit(50)]
pub proof fn lemma_branch_function_returns(
    func_id: usize,
    test: Instr,
    tested: Value,
    yes: Instr,
    yes_value: Value,
    no: Instr,
    no_value: Value,
    conv: CallerView,
    m: Machine,
)
    requires
        defines_constant(test, tested),
        defines_constant(yes, yes_value),
        defines_constant(no, no_value),
        !tested.value_type.spec_is_float(),
        !yes_value.value_type.spec_is_float(),
        !no_value.value_type.spec_is_float(),
        tested.id != yes_value.id,
        tested.id != no_value.id,
        yes_value.id != no_value.id,
        at_entry(m),
    ensures
        run(
            generated_code(
                func_id,
                branch_blocks(test, tested, yes, yes_value, no, no_value),
                conv,
            ),
            m,
            7,
        ) == Some(
            bits64(
                if constant64(test) != 0 {
                    constant64(yes) as int
                } else {
                    constant64(no) as int
                },
            ),
        ),
{
    let code = generated_code(
        func_id,
        branch_blocks(test, tested, yes, yes_value, no, no_value),
        conv,
    );
    let c = constant64(test);
    let a = constant64(yes);
    let b = constant64(no);
    lemma_branch_function_code(func_id, test, tested, yes, yes_value, no, no_value, conv);
    let p1 = bytes_move_reg_i64(X86Register::RCX, c);
    let p2 = bytes_cond_jmp_to(X86Register::RCX, 19);
    let p3 = bytes_jmp_to(0);
    let p4 = return_through(X86Register::RDX, a);
    let p5 = return_through(X86Register::RBP, b);
    lemma_piece_lengths(X86Register::RCX, X86Register::RAX, c, 19);
    lemma_piece_lengths(X86Register::RDX, X86Register::RAX, a, 0);
    lemma_piece_lengths(X86Register::RBP, X86Register::RAX, b, 0);
    lemma_piece_at(code, Seq::empty(), p1, p2 + p3 + p4 + p5);
    lemma_piece_at(code, p1, p2, p3 + p4 + p5);
    lemma_piece_at(code, p1 + p2, p3, p4 + p5);
    lemma_piece_at(code, p1 + p2 + p3, p4, p5);
    lemma_piece_at(code, p1 + p2 + p3 + p4, p5, Seq::empty());
    lemma_signed_bits(c as int);
    let m1 = Machine { regs: m.regs.update(1, bits64(c as int)), pc: 10, ..m };
    lemma_step_move_imm(code, m, X86Register::RCX, c);
    lemma_steps_cond_jmp(code, m1, X86Register::RCX, 19);
    let m3 = steps(code, m1, 2)->0;
    if c != 0 {
        assert(m3.pc == 20);
        let m4 = Machine { pc: 25, ..m3 };
        lemma_step_jmp(code, m3, 0);
        lemma_runs_return_through(code, m4, X86Register::RDX, a);
        assert(run(code, m3, 4) == Some(bits64(a as int))) by {
            reveal_with_fuel(run, 2);
        }
        lemma_run_after_steps(code, m1, 2, m3, 4);
        assert(run(code, m, 7) == run(code, m1, 6)) by {
            reveal_with_fuel(run, 2);
        }
    } else {
        assert(m3.pc == 39);
        lemma_runs_return_through(code, m3, X86Register::RBP, b);
        lemma_run_longer(code, m3, 3, 4);
        lemma_run_after_steps(code, m1, 2, m3, 4);
        assert(run(code, m, 7) == run(code, m1, 6)) by {
            reveal_with_fuel(run, 2);
        }
    }
}

/// A function that returns within some number of instructions returns the
/// same within any greater number.
pub proof fn lemma_run_longer(code: Seq<u8>, m: Machine, fuel: nat, more: nat)
    requires
        run(code, m, fuel) is Some,
        fuel <= more,
    ensures
        run(code, m, more) == run(code, m, fuel),
    decreases fuel,
{
    if fuel > 0 {
        match step(code, m) {
            Step::Next(next) => {
                lemma_run_longer(code, next, (fuel - 1) as nat, (more - 1) as nat);
            },
            _ => {},
        }
    }
}

} // verus!
