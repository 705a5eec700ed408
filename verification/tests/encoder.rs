use tiny_jit::gen::x86_64::x86_64_allocator::X86Register;
use tiny_jit::gen::x86_64::x86_64_encoder::{Condition, X86_64Encoder};

fn emitted(run: fn(&mut X86_64Encoder)) -> Vec<u8> {
    let mut encoder = X86_64Encoder::new();
    run(&mut encoder);
    encoder.bytes().clone()
}

#[test]
fn new_encoder_is_empty() {
    assert!(X86_64Encoder::new().bytes().is_empty());
}

#[test]
fn move_reg_i64_bytes() {
    let mut encoder = X86_64Encoder::new();
    assert_eq!(encoder.move_reg_i64(X86Register::RCX, 10), 2);
    assert_eq!(encoder.bytes(), &vec![0x48, 0xB9, 10, 0, 0, 0, 0, 0, 0, 0]);
    assert_eq!(encoder.move_reg_i64(X86Register::RAX, -1), 12);
    assert_eq!(
        encoder.bytes()[10..].to_vec(),
        vec![0x48, 0xB8, 0xFF, 0xFF, 0xFF, 0xFF, 0xFF, 0xFF, 0xFF, 0xFF]
    );
}

#[test]
fn move_reg_i64_names_every_register() {
    assert_eq!(
        emitted(|e| {
            e.move_reg_i64(X86Register::R9, 1);
        }),
        vec![0x49, 0xB9, 1, 0, 0, 0, 0, 0, 0, 0]
    );
    assert_eq!(
        emitted(|e| {
            e.move_reg_i64(X86Register::R8, 1);
        }),
        vec![0x49, 0xB8, 1, 0, 0, 0, 0, 0, 0, 0]
    );
    assert_eq!(
        emitted(|e| {
            e.move_reg_i64(X86Register::RSI, 0x0102);
        }),
        vec![0x48, 0xBE, 0x02, 0x01, 0, 0, 0, 0, 0, 0]
    );
    assert_eq!(
        emitted(|e| {
            e.move_reg_i64(X86Register::RDI, 0x0102);
        }),
        vec![0x48, 0xBF, 0x02, 0x01, 0, 0, 0, 0, 0, 0]
    );
}

#[test]
fn mov_reg_to_reg_bytes() {
    assert_eq!(
        emitted(|e| e.mov_reg_to_reg(X86Register::RCX, X86Register::RAX)),
        vec![0x48, 0x89, 0xC8]
    );
    assert_eq!(
        emitted(|e| e.mov_reg_to_reg(X86Register::RBP, X86Register::RAX)),
        vec![0x48, 0x89, 0xE8]
    );
    assert_eq!(
        emitted(|e| e.mov_reg_to_reg(X86Register::RCX, X86Register::RBP)),
        vec![0x48, 0x89, 0xCD]
    );
}

#[test]
fn mov_reg_to_reg_extended_registers() {
    assert_eq!(
        emitted(|e| e.mov_reg_to_reg(X86Register::R8, X86Register::RAX)),
        vec![0x4C, 0x89, 0xC0]
    );
    assert_eq!(
        emitted(|e| e.mov_reg_to_reg(X86Register::RAX, X86Register::R15)),
        vec![0x49, 0x89, 0xC7]
    );
    assert_eq!(
        emitted(|e| e.mov_reg_to_reg(X86Register::R9, X86Register::R10)),
        vec![0x4D, 0x89, 0xCA]
    );
}

#[test]
fn mov_reg_to_reg_of_one_register_emits_nothing() {
    assert!(emitted(|e| e.mov_reg_to_reg(X86Register::RDX, X86Register::RDX)).is_empty());
    assert!(emitted(|e| e.mov_reg_to_reg(X86Register::RAX, X86Register::RAX)).is_empty());
}

#[test]
fn move_reg_to_xmm_bytes() {
    assert_eq!(
        emitted(|e| e.move_reg_to_xmm(X86Register::RAX, X86Register::XMM0)),
        vec![0x66, 0x48, 0x0F, 0x6E, 0xC0]
    );
    assert_eq!(
        emitted(|e| e.move_reg_to_xmm(X86Register::RAX, X86Register::XMM1)),
        vec![0x66, 0x48, 0x0F, 0x6E, 0xC8]
    );
    assert_eq!(
        emitted(|e| e.move_reg_to_xmm(X86Register::RDX, X86Register::XMM3)),
        vec![0x66, 0x48, 0x0F, 0x6E, 0xDA]
    );
    assert_eq!(
        emitted(|e| e.move_reg_to_xmm(X86Register::R9, X86Register::XMM10)),
        vec![0x66, 0x4D, 0x0F, 0x6E, 0xD1]
    );
}

#[test]
fn mov_xmm_to_xmm_bytes() {
    assert_eq!(
        emitted(|e| e.mov_xmm_to_xmm(X86Register::XMM1, X86Register::XMM0)),
        vec![0x0F, 0x28, 0xC1]
    );
    assert_eq!(
        emitted(|e| e.mov_xmm_to_xmm(X86Register::XMM0, X86Register::XMM2)),
        vec![0x0F, 0x28, 0xD0]
    );
    assert!(emitted(|e| e.mov_xmm_to_xmm(X86Register::XMM4, X86Register::XMM4)).is_empty());
}

#[test]
fn mov_xmm_to_xmm_upper_registers() {
    assert_eq!(
        emitted(|e| e.mov_xmm_to_xmm(X86Register::XMM9, X86Register::XMM2)),
        vec![0x41, 0x0F, 0x28, 0xD1]
    );
    assert_eq!(
        emitted(|e| e.mov_xmm_to_xmm(X86Register::XMM0, X86Register::XMM9)),
        vec![0x44, 0x0F, 0x28, 0xC8]
    );
    assert_eq!(
        emitted(|e| e.mov_xmm_to_xmm(X86Register::XMM0, X86Register::XMM8)),
        vec![0x44, 0x0F, 0x28, 0xC0]
    );
    assert_ne!(
        emitted(|e| e.mov_xmm_to_xmm(X86Register::XMM1, X86Register::XMM8)),
        emitted(|e| e.mov_xmm_to_xmm(X86Register::XMM1, X86Register::XMM0))
    );
}

#[test]
fn load_and_store_bytes() {
    assert_eq!(
        emitted(|e| e.mov_mem_to_reg(X86Register::RCX, X86Register::RDX)),
        vec![0x48, 0x8B, 0x51, 0x00]
    );
    assert_eq!(
        emitted(|e| e.mov_reg_to_mem(X86Register::RDX, X86Register::RCX)),
        vec![0x48, 0x89, 0x51, 0x00]
    );
    assert_eq!(
        emitted(|e| e.mov_mem_to_reg(X86Register::R9, X86Register::R10)),
        vec![0x4D, 0x8B, 0x51, 0x00]
    );
    assert_eq!(
        emitted(|e| e.mov_mem_to_reg(X86Register::R12, X86Register::RAX)),
        vec![0x49, 0x8B, 0x44, 0x24, 0x00]
    );
    assert_eq!(
        emitted(|e| e.mov_reg_to_mem(X86Register::RAX, X86Register::RBP)),
        vec![0x48, 0x89, 0x45, 0x00]
    );
}

#[test]
fn integer_arithmetic_bytes() {
    assert_eq!(
        emitted(|e| e.add_reg_reg(X86Register::RCX, X86Register::RDX)),
        vec![0x48, 0x01, 0xD1]
    );
    assert_eq!(
        emitted(|e| e.sub_reg_reg(X86Register::RCX, X86Register::RDX)),
        vec![0x48, 0x29, 0xD1]
    );
    assert_eq!(
        emitted(|e| e.mul_reg_reg(X86Register::RCX, X86Register::RDX)),
        vec![0x48, 0x0F, 0xAF, 0xCA]
    );
    assert_eq!(
        emitted(|e| e.eq_reg_reg(X86Register::RCX, X86Register::RDX)),
        vec![0x48, 0x39, 0xD1]
    );
    assert_eq!(
        emitted(|e| e.add_reg_reg(X86Register::RAX, X86Register::RAX)),
        vec![0x48, 0x01, 0xC0]
    );
}

#[test]
fn integer_arithmetic_names_the_upper_registers() {
    assert_eq!(
        emitted(|e| e.add_reg_reg(X86Register::R9, X86Register::RCX)),
        vec![0x49, 0x01, 0xC9]
    );
    assert_eq!(
        emitted(|e| e.add_reg_reg(X86Register::RCX, X86Register::R15)),
        vec![0x4C, 0x01, 0xF9]
    );
    assert_eq!(
        emitted(|e| e.sub_reg_reg(X86Register::R8, X86Register::R9)),
        vec![0x4D, 0x29, 0xC8]
    );
    assert_eq!(
        emitted(|e| e.mul_reg_reg(X86Register::R8, X86Register::RAX)),
        vec![0x4C, 0x0F, 0xAF, 0xC0]
    );
    assert_ne!(
        emitted(|e| e.add_reg_reg(X86Register::R8, X86Register::RCX)),
        emitted(|e| e.add_reg_reg(X86Register::RAX, X86Register::RCX))
    );
}

#[test]
fn division_bytes() {
    assert_eq!(emitted(|e| e.div_reg_reg(X86Register::RCX)), vec![0x48, 0xF7, 0xF9]);
    assert_eq!(emitted(|e| e.div_reg_reg(X86Register::RBP)), vec![0x48, 0xF7, 0xFD]);
    assert_eq!(emitted(|e| e.div_reg_reg(X86Register::R9)), vec![0x49, 0xF7, 0xF9]);
    assert_eq!(emitted(|e| e.extend_accumulator()), vec![0x48, 0x99]);
    assert_eq!(emitted(|e| e.div_stack()), vec![0x48, 0xF7, 0x3C, 0x24]);
}

#[test]
fn condition_bytes() {
    assert_eq!(
        emitted(|e| e.set_condition(Condition::Equal, X86Register::RCX)),
        vec![0x40, 0x0F, 0x94, 0xC1]
    );
    assert_eq!(
        emitted(|e| e.set_condition(Condition::NotEqual, X86Register::RCX)),
        vec![0x40, 0x0F, 0x95, 0xC1]
    );
    assert_eq!(
        emitted(|e| e.set_condition(Condition::Less, X86Register::RBP)),
        vec![0x40, 0x0F, 0x9C, 0xC5]
    );
    assert_eq!(
        emitted(|e| e.set_condition(Condition::GreaterEqual, X86Register::RBP)),
        vec![0x40, 0x0F, 0x9D, 0xC5]
    );
    assert_eq!(
        emitted(|e| e.set_condition(Condition::LessEqual, X86Register::RSI)),
        vec![0x40, 0x0F, 0x9E, 0xC6]
    );
    assert_eq!(
        emitted(|e| e.set_condition(Condition::Greater, X86Register::R9)),
        vec![0x41, 0x0F, 0x9F, 0xC1]
    );
    assert_eq!(
        emitted(|e| e.zero_extend_byte(X86Register::RCX)),
        vec![0x48, 0x0F, 0xB6, 0xC9]
    );
    assert_eq!(
        emitted(|e| e.zero_extend_byte(X86Register::R9)),
        vec![0x4D, 0x0F, 0xB6, 0xC9]
    );
}

#[test]
fn add_xmm_xmm_bytes() {
    assert_eq!(
        emitted(|e| e.add_xmm_xmm(X86Register::XMM0, X86Register::XMM1)),
        vec![0x66, 0x40, 0x0F, 0x58, 0xC1]
    );
    assert_eq!(
        emitted(|e| e.add_xmm_xmm(X86Register::XMM8, X86Register::XMM9)),
        vec![0x66, 0x45, 0x0F, 0x58, 0xC1]
    );
    assert_eq!(
        emitted(|e| e.add_xmm_xmm(X86Register::XMM10, X86Register::XMM3)),
        vec![0x66, 0x44, 0x0F, 0x58, 0xD3]
    );
    assert_eq!(
        emitted(|e| e.add_xmm_xmm(X86Register::XMM3, X86Register::XMM10)),
        vec![0x66, 0x41, 0x0F, 0x58, 0xDA]
    );
}

#[test]
fn push_reg_bytes() {
    assert_eq!(emitted(|e| e.push_reg(X86Register::RAX)), vec![0x50]);
    assert_eq!(emitted(|e| e.push_reg(X86Register::RCX)), vec![0x51]);
    assert_eq!(emitted(|e| e.push_reg(X86Register::RSI)), vec![0x56]);
    assert_eq!(emitted(|e| e.push_reg(X86Register::RDI)), vec![0x57]);
    assert_eq!(emitted(|e| e.push_reg(X86Register::R8)), vec![0x41, 0x50]);
    assert_eq!(emitted(|e| e.push_reg(X86Register::R15)), vec![0x41, 0x57]);
}

#[test]
fn push_of_a_vector_register_stores_it() {
    assert_eq!(
        emitted(|e| e.push_reg(X86Register::XMM3)),
        vec![0x48, 0x83, 0xEC, 0x10, 0x40, 0x0F, 0x11, 0x1C, 0x24]
    );
    assert_eq!(
        emitted(|e| e.push_reg(X86Register::XMM9)),
        vec![0x48, 0x83, 0xEC, 0x10, 0x44, 0x0F, 0x11, 0x0C, 0x24]
    );
}

#[test]
fn pop_reg_bytes() {
    assert_eq!(emitted(|e| e.pop_reg(X86Register::RAX)), vec![0x58]);
    assert_eq!(emitted(|e| e.pop_reg(X86Register::RDX)), vec![0x5A]);
    assert_eq!(emitted(|e| e.pop_reg(X86Register::R9)), vec![0x41, 0x59]);
    assert_eq!(
        emitted(|e| e.pop_reg(X86Register::XMM1)),
        vec![0x40, 0x0F, 0x10, 0x0C, 0x24, 0x48, 0x83, 0xC4, 0x10]
    );
    assert_eq!(
        emitted(|e| e.pop_reg(X86Register::XMM0)),
        vec![0x40, 0x0F, 0x10, 0x04, 0x24, 0x48, 0x83, 0xC4, 0x10]
    );
    assert_eq!(
        emitted(|e| e.pop_reg(X86Register::XMM12)),
        vec![0x44, 0x0F, 0x10, 0x24, 0x24, 0x48, 0x83, 0xC4, 0x10]
    );
}

#[test]
fn jmp_returns_the_offset_of_its_field() {
    let mut encoder = X86_64Encoder::new();
    assert_eq!(encoder.jmp(), 1);
    assert_eq!(encoder.bytes(), &vec![0xE9, 0, 0, 0, 0]);
    assert_eq!(encoder.jmp(), 6);
    assert_eq!(encoder.bytes().len(), 10);
}

#[test]
fn cond_jmp_returns_the_offset_of_its_field() {
    let mut encoder = X86_64Encoder::new();
    assert_eq!(encoder.cond_jmp(X86Register::RCX), 6);
    assert_eq!(
        encoder.bytes(),
        &vec![0x48, 0x83, 0xF9, 0x00, 0x0F, 0x84, 0, 0, 0, 0]
    );
    assert_eq!(encoder.cond_jmp(X86Register::R9), 16);
    assert_eq!(
        encoder.bytes()[10..].to_vec(),
        vec![0x49, 0x83, 0xF9, 0x00, 0x0F, 0x84, 0, 0, 0, 0]
    );
}

#[test]
fn return_call_and_shadow_space_bytes() {
    assert_eq!(emitted(|e| e.ret()), vec![0xC3]);
    assert_eq!(emitted(|e| e.push_shadow()), vec![0x48, 0x83, 0xEC, 0x20]);
    assert_eq!(emitted(|e| e.pop_shadow()), vec![0x48, 0x83, 0xC4, 0x20]);
    assert_eq!(emitted(|e| e.call(X86Register::RAX)), vec![0x48, 0xFF, 0xD0]);
    assert_eq!(emitted(|e| e.call(X86Register::RDX)), vec![0x48, 0xFF, 0xD2]);
    assert_eq!(emitted(|e| e.call(X86Register::R9)), vec![0x49, 0xFF, 0xD1]);
}

#[test]
fn emissions_follow_one_another() {
    let mut encoder = X86_64Encoder::new();
    encoder.move_reg_i64(X86Register::RCX, 7);
    encoder.mov_reg_to_reg(X86Register::RCX, X86Register::RAX);
    encoder.ret();
    assert_eq!(
        encoder.bytes(),
        &vec![0x48, 0xB9, 7, 0, 0, 0, 0, 0, 0, 0, 0x48, 0x89, 0xC8, 0xC3]
    );
}

#[test]
fn vector_arithmetic_bytes() {
    assert_eq!(
        emitted(|e| e.sub_xmm_xmm(X86Register::XMM0, X86Register::XMM1)),
        vec![0x66, 0x40, 0x0F, 0x5C, 0xC1]
    );
    assert_eq!(
        emitted(|e| e.mul_xmm_xmm(X86Register::XMM9, X86Register::XMM1)),
        vec![0x66, 0x44, 0x0F, 0x59, 0xC9]
    );
    assert_eq!(
        emitted(|e| e.div_xmm_xmm(X86Register::XMM2, X86Register::XMM15)),
        vec![0x66, 0x41, 0x0F, 0x5E, 0xD7]
    );
}
