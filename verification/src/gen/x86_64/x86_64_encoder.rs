//! Emits the byte sequences of the x86-64 instructions that the generator
//! uses, and hands out the offsets of the fields that are patched later.

use vstd::prelude::*;
use crate::gen::x86_64::x86_64_allocator::X86Register;
use crate::misc::byte_writer::{le_bytes, ByteWriter};

verus! {

/// The outcomes of a comparison that a byte can record.
#[derive(Clone, Copy, PartialEq, Eq, Structural, Debug)]
pub enum Condition {
    Equal,
    NotEqual,
    Greater,
    GreaterEqual,
    Less,
    LessEqual,
}

impl Condition {
    /// The number by which the architecture names the condition, for signed
    /// operands.
    pub open spec fn spec_code(&self) -> u8 {
        match self {
            Condition::Equal => 0x4,
            Condition::NotEqual => 0x5,
            Condition::Less => 0xC,
            Condition::GreaterEqual => 0xD,
            Condition::LessEqual => 0xE,
            Condition::Greater => 0xF,
        }
    }

    /// The number by which the architecture names the condition.
    #[verifier::when_used_as_spec(spec_code)]
    pub fn code(&self) -> (n: u8)
        ensures
            n == self.spec_code(),
            n < 16,
    {
        match self {
            Condition::Equal => 0x4,
            Condition::NotEqual => 0x5,
            Condition::Less => 0xC,
            Condition::GreaterEqual => 0xD,
            Condition::LessEqual => 0xE,
            Condition::Greater => 0xF,
        }
    }
}

/// A ModRM byte in register-direct mode: the low three bits of `reg` in bits
/// 5..3, those of `rm` in bits 2..0.
pub open spec fn modrm_direct(reg: u8, rm: u8) -> u8 {
    0xC0u8 | ((reg & 7) << 3) | (rm & 7)
}

/// A ModRM byte for the memory at the address in the register `base`, with
/// a displacement of one byte: the low three bits of `reg` in bits 5..3,
/// those of `base` in bits 2..0.
pub open spec fn modrm_based(reg: u8, base: u8) -> u8 {
    0x40u8 | ((reg & 7) << 3) | (base & 7)
}

/// A REX prefix with the W bit set (64-bit operands), the R bit taken from
/// bit 3 of `reg` and the B bit from bit 3 of `rm`.
pub open spec fn rex_w(reg: u8, rm: u8) -> u8 {
    0x48u8 | ((reg & 8) >> 1) | ((rm & 8) >> 3)
}

/// A REX prefix with the W bit clear, R from bit 3 of `reg`, B from bit 3 of
/// `rm`.
pub open spec fn rex(reg: u8, rm: u8) -> u8 {
    0x40u8 | ((reg & 8) >> 1) | ((rm & 8) >> 3)
}

/// What names the memory at the address in `base` as an operand next to the
/// register `reg`: the ModRM byte, the SIB byte where the low bits of `base`
/// are those of the stack pointer, and a displacement of zero.
pub open spec fn bytes_based(reg: u8, base: u8) -> Seq<u8> {
    if base & 7 == 4 {
        seq![modrm_based(reg, base), 0x24u8, 0x00u8]
    } else {
        seq![modrm_based(reg, base), 0x00u8]
    }
}

/// Move of a 64-bit immediate into `dest`.
pub open spec fn bytes_move_reg_i64(dest: X86Register, value: i64) -> Seq<u8> {
    seq![rex_w(0, dest.spec_encode()), 0xB8u8 | (dest.spec_encode() & 0x7)] + le_bytes(
        value as int,
        8,
    )
}

/// 64-bit move from `src` to `dst`; nothing where they are the same register.
pub open spec fn bytes_mov_reg_to_reg(src: X86Register, dst: X86Register) -> Seq<u8> {
    if src == dst {
        Seq::empty()
    } else {
        seq![
            rex_w(src.spec_encode(), dst.spec_encode()),
            0x89u8,
            modrm_direct(src.spec_encode(), dst.spec_encode()),
        ]
    }
}

/// Move of the 64 bits of the general-purpose register `src` into the vector
/// register `dst`.
pub open spec fn bytes_move_reg_to_xmm(src: X86Register, dst: X86Register) -> Seq<u8> {
    seq![
        0x66u8,
        rex_w(dst.spec_encode(), src.spec_encode()),
        0x0Fu8,
        0x6Eu8,
        modrm_direct(dst.spec_encode(), src.spec_encode()),
    ]
}

/// Whether a move between vector registers takes a REX prefix: one of the
/// two is among the upper eight.
pub open spec fn xmm_move_is_extended(src: X86Register, dst: X86Register) -> bool {
    src.spec_encode() >= 8 || dst.spec_encode() >= 8
}

/// Move from the vector register `src` to the vector register `dst`; nothing
/// where they are the same register.
pub open spec fn bytes_mov_xmm_to_xmm(src: X86Register, dst: X86Register) -> Seq<u8> {
    if src == dst {
        Seq::empty()
    } else if xmm_move_is_extended(src, dst) {
        seq![
            rex(dst.spec_encode(), src.spec_encode()),
            0x0Fu8,
            0x28u8,
            modrm_direct(dst.spec_encode(), src.spec_encode()),
        ]
    } else {
        seq![0x0Fu8, 0x28u8, modrm_direct(dst.spec_encode(), src.spec_encode())]
    }
}

/// 64-bit load into `dest_reg` from the address in `mem_reg`.
pub open spec fn bytes_mov_mem_to_reg(mem_reg: X86Register, dest_reg: X86Register) -> Seq<u8> {
    seq![rex_w(dest_reg.spec_encode(), mem_reg.spec_encode()), 0x8Bu8] + bytes_based(
        dest_reg.spec_encode(),
        mem_reg.spec_encode(),
    )
}

/// 64-bit store of `reg` to the address in `mem_reg`.
pub open spec fn bytes_mov_reg_to_mem(reg: X86Register, mem_reg: X86Register) -> Seq<u8> {
    seq![rex_w(reg.spec_encode(), mem_reg.spec_encode()), 0x89u8] + bytes_based(
        reg.spec_encode(),
        mem_reg.spec_encode(),
    )
}

/// 64-bit addition of `right` to `left`.
pub open spec fn bytes_add_reg_reg(left: X86Register, right: X86Register) -> Seq<u8> {
    seq![
        rex_w(right.spec_encode(), left.spec_encode()),
        0x01u8,
        modrm_direct(right.spec_encode(), left.spec_encode()),
    ]
}

/// An operation with the opcode `opcode` on the vector registers `left`
/// and `right`, whose result `left` receives.
pub open spec fn bytes_xmm_xmm(opcode: u8, left: X86Register, right: X86Register) -> Seq<u8> {
    seq![
        0x66u8,
        rex(left.spec_encode(), right.spec_encode()),
        0x0Fu8,
        opcode,
        modrm_direct(left.spec_encode(), right.spec_encode()),
    ]
}

/// Addition of the vector register `right` to the vector register `left`.
pub open spec fn bytes_add_xmm_xmm(left: X86Register, right: X86Register) -> Seq<u8> {
    bytes_xmm_xmm(0x58, left, right)
}

/// Subtraction of the vector register `right` from the vector register
/// `left`.
pub open spec fn bytes_sub_xmm_xmm(left: X86Register, right: X86Register) -> Seq<u8> {
    bytes_xmm_xmm(0x5C, left, right)
}

/// Multiplication of the vector register `left` by the vector register
/// `right`.
pub open spec fn bytes_mul_xmm_xmm(left: X86Register, right: X86Register) -> Seq<u8> {
    bytes_xmm_xmm(0x59, left, right)
}

/// Division of the vector register `left` by the vector register `right`.
pub open spec fn bytes_div_xmm_xmm(left: X86Register, right: X86Register) -> Seq<u8> {
    bytes_xmm_xmm(0x5E, left, right)
}

/// 64-bit subtraction of `right` from `left`.
pub open spec fn bytes_sub_reg_reg(left: X86Register, right: X86Register) -> Seq<u8> {
    seq![
        rex_w(right.spec_encode(), left.spec_encode()),
        0x29u8,
        modrm_direct(right.spec_encode(), left.spec_encode()),
    ]
}

/// 64-bit signed multiplication of `left` by `right`; `left` receives the
/// product.
pub open spec fn bytes_mul_reg_reg(left: X86Register, right: X86Register) -> Seq<u8> {
    seq![
        rex_w(left.spec_encode(), right.spec_encode()),
        0x0Fu8,
        0xAFu8,
        modrm_direct(left.spec_encode(), right.spec_encode()),
    ]
}

/// 64-bit signed division of the accumulator pair by `divisor`.
pub open spec fn bytes_div_reg_reg(divisor: X86Register) -> Seq<u8> {
    seq![rex_w(0, divisor.spec_encode()), 0xF7u8, modrm_direct(7, divisor.spec_encode())]
}

/// Sign extension of the accumulator into the remainder register, which
/// makes the pair the dividend of a signed division.
pub open spec fn bytes_extend_accumulator() -> Seq<u8> {
    seq![0x48u8, 0x99u8]
}

/// 64-bit signed division of the accumulator pair by the quadword on top of
/// the stack.
pub open spec fn bytes_div_stack() -> Seq<u8> {
    seq![0x48u8, 0xF7u8, 0x3Cu8, 0x24u8]
}

/// 64-bit comparison of `left` with `right`.
pub open spec fn bytes_eq_reg_reg(left: X86Register, right: X86Register) -> Seq<u8> {
    seq![
        rex_w(right.spec_encode(), left.spec_encode()),
        0x39u8,
        modrm_direct(right.spec_encode(), left.spec_encode()),
    ]
}

/// The low byte of `reg` is set to 1 where the last comparison had the
/// outcome `condition`, to 0 where it had not.
pub open spec fn bytes_set_condition(condition: Condition, reg: X86Register) -> Seq<u8> {
    seq![
        rex(0, reg.spec_encode()),
        0x0Fu8,
        0x90u8 | condition.spec_code(),
        modrm_direct(0, reg.spec_encode()),
    ]
}

/// The low byte of `reg` is widened, with zeros, to the 64 bits of `reg`.
pub open spec fn bytes_zero_extend_byte(reg: X86Register) -> Seq<u8> {
    seq![
        rex_w(reg.spec_encode(), reg.spec_encode()),
        0x0Fu8,
        0xB6u8,
        modrm_direct(reg.spec_encode(), reg.spec_encode()),
    ]
}

/// Push of a general-purpose register; for a vector register, sixteen bytes
/// of stack are reserved and the register is stored there.
pub open spec fn bytes_push_reg(reg: X86Register) -> Seq<u8> {
    if reg.spec_is_xmm() {
        seq![
            0x48u8,
            0x83u8,
            0xECu8,
            0x10u8,
            rex(reg.spec_encode(), 0),
            0x0Fu8,
            0x11u8,
            0x04u8 | ((reg.spec_encode() & 7) << 3),
            0x24u8,
        ]
    } else if reg.spec_encode() < 8 {
        seq![(0x50 + reg.spec_encode()) as u8]
    } else {
        seq![0x41u8, (0x50 + (reg.spec_encode() - 8)) as u8]
    }
}

/// Pop of a general-purpose register; for a vector register, the load of the
/// register from the top of the stack and the release of sixteen bytes.
pub open spec fn bytes_pop_reg(reg: X86Register) -> Seq<u8> {
    if reg.spec_is_xmm() {
        seq![
            rex(reg.spec_encode(), 0),
            0x0Fu8,
            0x10u8,
            0x04u8 | ((reg.spec_encode() & 7) << 3),
            0x24u8,
            0x48u8,
            0x83u8,
            0xC4u8,
            0x10u8,
        ]
    } else if reg.spec_encode() < 8 {
        seq![(0x58 + reg.spec_encode()) as u8]
    } else {
        seq![0x41u8, (0x58 + (reg.spec_encode() - 8)) as u8]
    }
}

/// Unconditional near jump with the displacement `displacement`.
pub open spec fn bytes_jmp_to(displacement: int) -> Seq<u8> {
    seq![0xE9u8] + le_bytes(displacement, 4)
}

/// Unconditional near jump with a zero displacement.
pub open spec fn bytes_jmp() -> Seq<u8> {
    bytes_jmp_to(0)
}

/// Comparison of `reg` with zero, then a near jump that is taken where they
/// are equal, with the displacement `displacement`.
pub open spec fn bytes_cond_jmp_to(reg: X86Register, displacement: int) -> Seq<u8> {
    seq![
        rex_w(0, reg.spec_encode()),
        0x83u8,
        0xF8u8 | (reg.spec_encode() & 7),
        0x00u8,
        0x0Fu8,
        0x84u8,
    ] + le_bytes(displacement, 4)
}

/// Comparison of `reg` with zero, then a near jump that is taken where they
/// are equal, with a zero displacement.
pub open spec fn bytes_cond_jmp(reg: X86Register) -> Seq<u8> {
    bytes_cond_jmp_to(reg, 0)
}

/// Near return.
pub open spec fn bytes_ret() -> Seq<u8> {
    seq![0xC3u8]
}

/// Reservation of the 32 bytes of shadow space.
pub open spec fn bytes_push_shadow() -> Seq<u8> {
    seq![0x48u8, 0x83u8, 0xECu8, 0x20u8]
}

/// Release of the 32 bytes of shadow space.
pub open spec fn bytes_pop_shadow() -> Seq<u8> {
    seq![0x48u8, 0x83u8, 0xC4u8, 0x20u8]
}

/// Indirect call through `reg`.
pub open spec fn bytes_call(reg: X86Register) -> Seq<u8> {
    seq![rex_w(0, reg.spec_encode()), 0xFFu8, 0xD0u8 | (reg.spec_encode() & 0x07)]
}

/// The placeholder of a displacement field is four zero bytes.
pub proof fn lemma_zero_displacement()
    ensures
        le_bytes(0, 4) == seq![0u8, 0u8, 0u8, 0u8],
{
    reveal_with_fuel(le_bytes, 5);
    assert(le_bytes(0, 4) =~= seq![0u8, 0u8, 0u8, 0u8]);
}

/// The fields of the prefix and ModRM bytes, as numbers: for register
/// numbers below 16, the REX prefix is its base plus 4 for an upper `reg`
/// and 1 for an upper `rm`, and the ModRM byte is 192 plus eight times the
/// low three bits of `reg` plus those of `rm`.
pub proof fn lemma_fields(reg: u8, rm: u8)
    by (bit_vector)
    requires
        reg < 16,
        rm < 16,
    ensures
        rex_w(reg, rm) == 0x48 + 4 * (reg / 8) + rm / 8,
        rex(reg, rm) == 0x40 + 4 * (reg / 8) + rm / 8,
        modrm_direct(reg, rm) == 0xC0 + 8 * (reg % 8) + rm % 8,
        0xB8u8 | (rm & 7) == 0xB8 + rm % 8,
        0xF8u8 | (rm & 7) == 0xF8 + rm % 8,
{
}

fn rex_w_byte(reg: u8, rm: u8) -> (b: u8)
    ensures
        b == rex_w(reg, rm),
{
    0x48u8 | ((reg & 8) >> 1) | ((rm & 8) >> 3)
}

fn rex_byte(reg: u8, rm: u8) -> (b: u8)
    ensures
        b == rex(reg, rm),
{
    0x40u8 | ((reg & 8) >> 1) | ((rm & 8) >> 3)
}

fn modrm_direct_byte(reg: u8, rm: u8) -> (b: u8)
    ensures
        b == modrm_direct(reg, rm),
{
    0xC0u8 | ((reg & 7) << 3) | (rm & 7)
}

/// Instruction encoder over a byte writer.
pub struct X86_64Encoder {
    writer: ByteWriter,
}

impl View for X86_64Encoder {
    type V = Seq<u8>;

    /// The bytes emitted so far.
    closed spec fn view(&self) -> Seq<u8> {
        self.writer@
    }
}

impl X86_64Encoder {
    /// An encoder never holds more bytes than can be counted.
    pub proof fn lemma_len_bounded(&self)
        ensures
            self@.len() <= usize::MAX,
    {
        self.writer.lemma_len_bounded();
    }

    /// An encoder that has emitted nothing.
    pub fn new() -> (e: Self)
        ensures
            e@ == Seq::<u8>::empty(),
    {
        Self { writer: ByteWriter::new() }
    }

    /// Emits what names the memory at the address in `base` next to `reg`.
    fn write_based(&mut self, reg: u8, base: u8)
        ensures
            final(self)@ == old(self)@ + bytes_based(reg, base),
    {
        self.writer.write_u8(0x40u8 | ((reg & 7) << 3) | (base & 7));
        if base & 7 == 4 {
            self.writer.write_u8(0x24);
        }
        self.writer.write_u8(0x00);
        assert(self@ =~= old(self)@ + bytes_based(reg, base));
    }

    /// Emits a move of `value` into `dest` and returns the offset of the
    /// eight-byte immediate.
    pub fn move_reg_i64(&mut self, dest: X86Register, value: i64) -> (at: usize)
        ensures
            final(self)@ == old(self)@ + bytes_move_reg_i64(dest, value),
            at == old(self)@.len() + 2,
    {
        self.writer.write_u8(rex_w_byte(0, dest.encode()));
        self.writer.write_u8(0xB8 | (dest.encode() & 0x7));
        let at = self.writer.write_i64(value);
        assert(self@ =~= old(self)@ + bytes_move_reg_i64(dest, value));
        at
    }

    /// Emits a 64-bit register-to-register move, unless `src` is `dst`.
    pub fn mov_reg_to_reg(&mut self, src: X86Register, dst: X86Register)
        ensures
            final(self)@ == old(self)@ + bytes_mov_reg_to_reg(src, dst),
    {
        if src == dst {
            assert(self@ =~= old(self)@ + bytes_mov_reg_to_reg(src, dst));
            return ;
        }
        let src_reg: u8 = src.encode();
        let dest_reg: u8 = dst.encode();
        self.writer.write_u8(rex_w_byte(src_reg, dest_reg));
        self.writer.write_u8(0x89);
        self.writer.write_u8(modrm_direct_byte(src_reg, dest_reg));
        assert(self@ =~= old(self)@ + bytes_mov_reg_to_reg(src, dst));
    }

    /// Emits a move from a general-purpose register into a vector register.
    pub fn move_reg_to_xmm(&mut self, src: X86Register, dst: X86Register)
        ensures
            final(self)@ == old(self)@ + bytes_move_reg_to_xmm(src, dst),
    {
        self.writer.write_u8(0x66);
        self.writer.write_u8(rex_w_byte(dst.encode(), src.encode()));
        self.writer.write_u8(0x0F);
        self.writer.write_u8(0x6E);
        self.writer.write_u8(modrm_direct_byte(dst.encode(), src.encode()));
        assert(self@ =~= old(self)@ + bytes_move_reg_to_xmm(src, dst));
    }

    /// Emits a move between vector registers, unless `src` is `dst`.
    pub fn mov_xmm_to_xmm(&mut self, src: X86Register, dst: X86Register)
        ensures
            final(self)@ == old(self)@ + bytes_mov_xmm_to_xmm(src, dst),
    {
        if src == dst {
            assert(self@ =~= old(self)@ + bytes_mov_xmm_to_xmm(src, dst));
            return ;
        }
        let src_reg: u8 = src.encode();
        let dest_reg: u8 = dst.encode();
        if src_reg >= X86Register::XMM8.encode() || dest_reg >= X86Register::XMM8.encode() {
            self.writer.write_u8(rex_byte(dest_reg, src_reg));
        }
        self.writer.write_u8(0x0F);
        self.writer.write_u8(0x28);
        self.writer.write_u8(modrm_direct_byte(dest_reg, src_reg));
        assert(self@ =~= old(self)@ + bytes_mov_xmm_to_xmm(src, dst));
    }

    /// Emits a load of the 64 bits at the address in `mem_reg` into
    /// `dest_reg`.
    pub fn mov_mem_to_reg(&mut self, mem_reg: X86Register, dest_reg: X86Register)
        ensures
            final(self)@ == old(self)@ + bytes_mov_mem_to_reg(mem_reg, dest_reg),
    {
        self.writer.write_u8(rex_w_byte(dest_reg.encode(), mem_reg.encode()));
        self.writer.write_u8(0x8B);
        self.write_based(dest_reg.encode(), mem_reg.encode());
        assert(self@ =~= old(self)@ + bytes_mov_mem_to_reg(mem_reg, dest_reg));
    }

    /// Emits a store of `reg` to the address in `mem_reg`.
    pub fn mov_reg_to_mem(&mut self, reg: X86Register, mem_reg: X86Register)
        ensures
            final(self)@ == old(self)@ + bytes_mov_reg_to_mem(reg, mem_reg),
    {
        self.writer.write_u8(rex_w_byte(reg.encode(), mem_reg.encode()));
        self.writer.write_u8(0x89);
        self.write_based(reg.encode(), mem_reg.encode());
        assert(self@ =~= old(self)@ + bytes_mov_reg_to_mem(reg, mem_reg));
    }

    /// Emits what a two-register instruction with one opcode byte consists
    /// of: the prefix, the opcode and the ModRM byte.
    fn write_reg_rm(&mut self, opcode: u8, reg: u8, rm: u8)
        ensures
            final(self)@ == old(self)@ + seq![rex_w(reg, rm), opcode, modrm_direct(reg, rm)],
    {
        self.writer.write_u8(rex_w_byte(reg, rm));
        self.writer.write_u8(opcode);
        self.writer.write_u8(modrm_direct_byte(reg, rm));
        assert(self@ =~= old(self)@ + seq![rex_w(reg, rm), opcode, modrm_direct(reg, rm)]);
    }

    /// Emits an addition of `right` to `left`.
    pub fn add_reg_reg(&mut self, left: X86Register, right: X86Register)
        ensures
            final(self)@ == old(self)@ + bytes_add_reg_reg(left, right),
    {
        self.write_reg_rm(0x01, right.encode(), left.encode());
    }

    /// Emits an operation on two vector registers.
    fn write_xmm_xmm(&mut self, opcode: u8, left: X86Register, right: X86Register)
        ensures
            final(self)@ == old(self)@ + bytes_xmm_xmm(opcode, left, right),
    {
        self.writer.write_u8(0x66);
        self.writer.write_u8(rex_byte(left.encode(), right.encode()));
        self.writer.write_u8(0x0F);
        self.writer.write_u8(opcode);
        self.writer.write_u8(modrm_direct_byte(left.encode(), right.encode()));
        assert(self@ =~= old(self)@ + bytes_xmm_xmm(opcode, left, right));
    }

    /// Emits an addition of the vector register `right` to `left`.
    pub fn add_xmm_xmm(&mut self, left: X86Register, right: X86Register)
        ensures
            final(self)@ == old(self)@ + bytes_add_xmm_xmm(left, right),
    {
        self.write_xmm_xmm(0x58, left, right);
    }

    /// Emits a subtraction of the vector register `right` from `left`.
    pub fn sub_xmm_xmm(&mut self, left: X86Register, right: X86Register)
        ensures
            final(self)@ == old(self)@ + bytes_sub_xmm_xmm(left, right),
    {
        self.write_xmm_xmm(0x5C, left, right);
    }

    /// Emits a multiplication of the vector register `left` by `right`.
    pub fn mul_xmm_xmm(&mut self, left: X86Register, right: X86Register)
        ensures
            final(self)@ == old(self)@ + bytes_mul_xmm_xmm(left, right),
    {
        self.write_xmm_xmm(0x59, left, right);
    }

    /// Emits a division of the vector register `left` by `right`.
    pub fn div_xmm_xmm(&mut self, left: X86Register, right: X86Register)
        ensures
            final(self)@ == old(self)@ + bytes_div_xmm_xmm(left, right),
    {
        self.write_xmm_xmm(0x5E, left, right);
    }

    /// Emits a subtraction of `right` from `left`.
    pub fn sub_reg_reg(&mut self, left: X86Register, right: X86Register)
        ensures
            final(self)@ == old(self)@ + bytes_sub_reg_reg(left, right),
    {
        self.write_reg_rm(0x29, right.encode(), left.encode());
    }

    /// Emits a signed multiplication of `left` by `right`, which leaves the
    /// product in `left`.
    pub fn mul_reg_reg(&mut self, left: X86Register, right: X86Register)
        ensures
            final(self)@ == old(self)@ + bytes_mul_reg_reg(left, right),
    {
        self.writer.write_u8(rex_w_byte(left.encode(), right.encode()));
        self.writer.write_u8(0x0F);
        self.writer.write_u8(0xAF);
        self.writer.write_u8(modrm_direct_byte(left.encode(), right.encode()));
        assert(self@ =~= old(self)@ + bytes_mul_reg_reg(left, right));
    }

    /// Emits a signed division by `divisor`.  The dividend is taken from the
    /// accumulator pair, which also receives quotient and remainder.
    pub fn div_reg_reg(&mut self, divisor: X86Register)
        ensures
            final(self)@ == old(self)@ + bytes_div_reg_reg(divisor),
    {
        self.write_reg_rm(0xF7, 7, divisor.encode());
        assert(rex_w(7, divisor.spec_encode()) == rex_w(0, divisor.spec_encode())) by {
            let d = divisor.spec_encode();
            assert(0x48u8 | ((7u8 & 8) >> 1) | ((d & 8) >> 3) == 0x48u8 | ((0u8 & 8) >> 1) | ((d
                & 8) >> 3)) by (bit_vector);
        }
    }

    /// Emits the sign extension of the accumulator into the remainder
    /// register.
    pub fn extend_accumulator(&mut self)
        ensures
            final(self)@ == old(self)@ + bytes_extend_accumulator(),
    {
        self.writer.write_u8(0x48);
        self.writer.write_u8(0x99);
        assert(self@ =~= old(self)@ + bytes_extend_accumulator());
    }

    /// Emits a signed division by the quadword on top of the stack.
    pub fn div_stack(&mut self)
        ensures
            final(self)@ == old(self)@ + bytes_div_stack(),
    {
        self.writer.write_u8(0x48);
        self.writer.write_u8(0xF7);
        self.writer.write_u8(0x3C);
        self.writer.write_u8(0x24);
        assert(self@ =~= old(self)@ + bytes_div_stack());
    }

    /// Emits a comparison of `left` with `right`.
    pub fn eq_reg_reg(&mut self, left: X86Register, right: X86Register)
        ensures
            final(self)@ == old(self)@ + bytes_eq_reg_reg(left, right),
    {
        self.write_reg_rm(0x39, right.encode(), left.encode());
    }

    /// Emits what sets the low byte of `reg` to 1 where the last comparison
    /// had the outcome `condition`, and to 0 where it had not.
    pub fn set_condition(&mut self, condition: Condition, reg: X86Register)
        ensures
            final(self)@ == old(self)@ + bytes_set_condition(condition, reg),
    {
        self.writer.write_u8(rex_byte(0, reg.encode()));
        self.writer.write_u8(0x0F);
        self.writer.write_u8(0x90u8 | condition.code());
        self.writer.write_u8(modrm_direct_byte(0, reg.encode()));
        assert(self@ =~= old(self)@ + bytes_set_condition(condition, reg));
    }

    /// Emits what widens the low byte of `reg` to all of `reg`, with zeros.
    pub fn zero_extend_byte(&mut self, reg: X86Register)
        ensures
            final(self)@ == old(self)@ + bytes_zero_extend_byte(reg),
    {
        self.writer.write_u8(rex_w_byte(reg.encode(), reg.encode()));
        self.writer.write_u8(0x0F);
        self.writer.write_u8(0xB6);
        self.writer.write_u8(modrm_direct_byte(reg.encode(), reg.encode()));
        assert(self@ =~= old(self)@ + bytes_zero_extend_byte(reg));
    }

    /// Emits what saves `reg` on the stack.
    pub fn push_reg(&mut self, reg: X86Register)
        ensures
            final(self)@ == old(self)@ + bytes_push_reg(reg),
    {
        if reg.is_xmm() {
            self.writer.write_u8(0x48);
            self.writer.write_u8(0x83);
            self.writer.write_u8(0xEC);
            self.writer.write_u8(0x10);
            self.writer.write_u8(rex_byte(reg.encode(), 0));
            self.writer.write_u8(0x0F);
            self.writer.write_u8(0x11);
            self.writer.write_u8(0x04u8 | ((reg.encode() & 7) << 3));
            self.writer.write_u8(0x24);
        } else {
            if reg.encode() < X86Register::R8.encode() {
                self.writer.write_u8(0x50 + reg.encode());
            } else {
                self.writer.write_u8(0x41);
                self.writer.write_u8(0x50 + (reg.encode() - X86Register::R8.encode()));
            }
        }
        assert(self@ =~= old(self)@ + bytes_push_reg(reg));
    }

    /// Emits what restores `reg` from the stack.
    pub fn pop_reg(&mut self, reg: X86Register)
        ensures
            final(self)@ == old(self)@ + bytes_pop_reg(reg),
    {
        if reg.is_xmm() {
            self.writer.write_u8(rex_byte(reg.encode(), 0));
            self.writer.write_u8(0x0F);
            self.writer.write_u8(0x10);
            self.writer.write_u8(0x04u8 | ((reg.encode() & 7) << 3));
            self.writer.write_u8(0x24);
            self.writer.write_u8(0x48);
            self.writer.write_u8(0x83);
            self.writer.write_u8(0xC4);
            self.writer.write_u8(0x10);
        } else {
            if reg.encode() < X86Register::R8.encode() {
                self.writer.write_u8(0x58 + reg.encode());
            } else {
                self.writer.write_u8(0x41);
                self.writer.write_u8(0x58 + (reg.encode() - X86Register::R8.encode()));
            }
        }
        assert(self@ =~= old(self)@ + bytes_pop_reg(reg));
    }

    /// Emits an unconditional near jump with a zero displacement and returns
    /// the offset of the four-byte displacement field.
    pub fn jmp(&mut self) -> (at: usize)
        ensures
            final(self)@ == old(self)@ + bytes_jmp(),
            at == old(self)@.len() + 1,
    {
        self.writer.write_u8(0xE9);
        let at = self.writer.write_i32(0);
        assert(self@ =~= old(self)@ + bytes_jmp());
        at
    }

    /// Emits a comparison of `reg` with zero and a near jump, taken where
    /// `reg` is zero, with a zero displacement.  Returns the offset of the
    /// four-byte displacement field.
    pub fn cond_jmp(&mut self, reg: X86Register) -> (at: usize)
        ensures
            final(self)@ == old(self)@ + bytes_cond_jmp(reg),
            at == old(self)@.len() + 6,
    {
        self.writer.write_u8(rex_w_byte(0, reg.encode()));
        self.writer.write_u8(0x83);
        self.writer.write_u8(0xF8 | (reg.encode() & 7));
        self.writer.write_u8(0x00);
        self.writer.write_u8(0x0F);
        self.writer.write_u8(0x84);
        let at = self.writer.write_i32(0);
        assert(self@ =~= old(self)@ + bytes_cond_jmp(reg));
        at
    }

    /// Emits a near return.
    pub fn ret(&mut self)
        ensures
            final(self)@ == old(self)@ + bytes_ret(),
    {
        self.writer.write_u8(0xC3);
        assert(self@ =~= old(self)@ + bytes_ret());
    }

    /// Emits the reservation of the shadow space.
    pub fn push_shadow(&mut self)
        ensures
            final(self)@ == old(self)@ + bytes_push_shadow(),
    {
        self.writer.write_u8(0x48);
        self.writer.write_u8(0x83);
        self.writer.write_u8(0xec);
        self.writer.write_u8(0x20);
        assert(self@ =~= old(self)@ + bytes_push_shadow());
    }

    /// Emits the release of the shadow space.
    pub fn pop_shadow(&mut self)
        ensures
            final(self)@ == old(self)@ + bytes_pop_shadow(),
    {
        self.writer.write_u8(0x48);
        self.writer.write_u8(0x83);
        self.writer.write_u8(0xc4);
        self.writer.write_u8(0x20);
        assert(self@ =~= old(self)@ + bytes_pop_shadow());
    }

    /// Emits an indirect call through `reg`.
    pub fn call(&mut self, reg: X86Register)
        ensures
            final(self)@ == old(self)@ + bytes_call(reg),
    {
        self.writer.write_u8(rex_w_byte(0, reg.encode()));
        self.writer.write_u8(0xFF);
        self.writer.write_u8(0xD0 | (reg.encode() & 0x07));
        assert(self@ =~= old(self)@ + bytes_call(reg));
    }

    /// The bytes emitted so far.
    pub fn bytes(&self) -> (b: &Vec<u8>)
        ensures
            b@ == self@,
    {
        self.writer.bytes()
    }
}

} // verus!
