use tiny_jit::gen::x86_64::x86_64_allocator::{X86Register, X86_64Allocator};
use tiny_jit::lang::lang_type::Type;
use tiny_jit::lang::value::Value;

fn int_value(id: usize) -> Value {
    Value::new(id, Type::i64())
}

fn float_value(id: usize) -> Value {
    Value::new(id, Type::float64())
}

fn all_registers() -> Vec<X86Register> {
    vec![
        X86Register::RAX,
        X86Register::RCX,
        X86Register::RDX,
        X86Register::RBX,
        X86Register::RSP,
        X86Register::RBP,
        X86Register::RDI,
        X86Register::RSI,
        X86Register::R8,
        X86Register::R9,
        X86Register::R10,
        X86Register::R11,
        X86Register::R12,
        X86Register::R13,
        X86Register::R14,
        X86Register::R15,
        X86Register::XMM0,
        X86Register::XMM1,
        X86Register::XMM2,
        X86Register::XMM3,
        X86Register::XMM4,
        X86Register::XMM5,
        X86Register::XMM6,
        X86Register::XMM7,
        X86Register::XMM8,
        X86Register::XMM9,
        X86Register::XMM10,
        X86Register::XMM11,
        X86Register::XMM12,
        X86Register::XMM13,
        X86Register::XMM14,
        X86Register::XMM15,
    ]
}

#[test]
fn register_numbers() {
    let numbers: Vec<u8> = all_registers().iter().map(|r| r.encode()).collect();
    assert_eq!(
        numbers,
        vec![
            0, 1, 2, 3, 4, 5, 7, 6, 8, 9, 10, 11, 12, 13, 14, 15, 0, 1, 2, 3, 4, 5, 6, 7, 8, 9, 10,
            11, 12, 13, 14, 15
        ]
    );
    assert_eq!(X86Register::RDI.encode(), 7);
    assert_eq!(X86Register::RSI.encode(), 6);
}

#[test]
fn vector_registers_are_the_last_sixteen() {
    let registers = all_registers();
    for (i, reg) in registers.iter().enumerate() {
        assert_eq!(reg.is_xmm(), i >= 16);
    }
}

#[test]
fn class_and_number_name_a_register() {
    let registers = all_registers();
    for a in registers.iter() {
        for b in registers.iter() {
            if a.is_xmm() == b.is_xmm() && a.encode() == b.encode() {
                assert_eq!(a, b);
            }
        }
    }
}

#[test]
fn integer_values_take_the_pool_in_order() {
    let mut allocator = X86_64Allocator::new();
    let expected = vec![
        X86Register::RCX,
        X86Register::RDX,
        X86Register::RBP,
        X86Register::RDI,
        X86Register::RSI,
        X86Register::R8,
        X86Register::R9,
        X86Register::R10,
        X86Register::R11,
        X86Register::R12,
        X86Register::R13,
        X86Register::R14,
        X86Register::R15,
    ];
    for (id, reg) in expected.iter().enumerate() {
        assert_eq!(allocator.obtain_register_for_value(int_value(id)), *reg);
    }
}

#[test]
fn float_values_take_the_vector_registers_in_order() {
    let mut allocator = X86_64Allocator::new();
    let expected = vec![
        X86Register::XMM0,
        X86Register::XMM1,
        X86Register::XMM2,
        X86Register::XMM3,
        X86Register::XMM4,
        X86Register::XMM5,
        X86Register::XMM6,
        X86Register::XMM7,
        X86Register::XMM8,
        X86Register::XMM9,
        X86Register::XMM10,
        X86Register::XMM11,
        X86Register::XMM12,
        X86Register::XMM13,
        X86Register::XMM14,
        X86Register::XMM15,
    ];
    for (id, reg) in expected.iter().enumerate() {
        assert_eq!(allocator.obtain_register_for_value(float_value(id)), *reg);
    }
}

#[test]
fn the_two_pools_are_independent() {
    let mut allocator = X86_64Allocator::new();
    assert_eq!(allocator.obtain_register_for_value(float_value(0)), X86Register::XMM0);
    assert_eq!(allocator.obtain_register_for_value(int_value(1)), X86Register::RCX);
    assert_eq!(
        allocator.obtain_register_for_value(Value::new(2, Type::float32())),
        X86Register::XMM1
    );
    assert_eq!(
        allocator.obtain_register_for_value(Value::new(3, Type::ptr())),
        X86Register::RDX
    );
    assert_eq!(
        allocator.obtain_register_for_value(Value::new(4, Type::void())),
        X86Register::RBP
    );
}

#[test]
fn a_value_keeps_its_register() {
    let mut allocator = X86_64Allocator::new();
    let first = allocator.obtain_register_for_value(int_value(5));
    allocator.obtain_register_for_value(int_value(6));
    assert_eq!(allocator.obtain_register_for_value(int_value(5)), first);
    assert_eq!(allocator.obtain_register_for_value(int_value(5)), X86Register::RCX);
    assert_eq!(allocator.obtain_register_for_value(int_value(7)), X86Register::RBP);
}

#[test]
fn a_value_is_known_by_its_id_alone() {
    let mut allocator = X86_64Allocator::new();
    assert_eq!(allocator.obtain_register_for_value(int_value(0)), X86Register::RCX);
    assert_eq!(allocator.obtain_register_for_value(float_value(0)), X86Register::RCX);
}

#[test]
fn exhausted_pool_falls_back_to_the_accumulator() {
    let mut allocator = X86_64Allocator::new();
    for id in 0..13 {
        allocator.obtain_register_for_value(int_value(id));
    }
    assert_eq!(allocator.obtain_register_for_value(int_value(13)), X86Register::RAX);
    assert!(!allocator.is_value_allocated(int_value(13)));
    assert!(!allocator.is_register_allocated(X86Register::RAX));
    assert_eq!(allocator.obtain_register_for_value(int_value(14)), X86Register::RAX);
    assert_eq!(allocator.obtain_register_for_value(float_value(15)), X86Register::XMM0);
}

#[test]
fn exhausted_vector_pool_falls_back_to_the_accumulator() {
    let mut allocator = X86_64Allocator::new();
    for id in 0..16 {
        allocator.obtain_register_for_value(float_value(id));
    }
    assert_eq!(allocator.obtain_register_for_value(float_value(16)), X86Register::RAX);
    assert_eq!(allocator.obtain_register_for_value(int_value(17)), X86Register::RCX);
}

#[test]
fn allocate_register_reports_exhaustion() {
    let mut allocator = X86_64Allocator::new();
    for id in 0..13 {
        assert!(allocator.allocate_register(int_value(id)).is_some());
    }
    assert_eq!(allocator.allocate_register(int_value(13)), None);
    assert!(!allocator.is_value_allocated(int_value(13)));
    assert_eq!(allocator.allocate_register(float_value(14)), Some(X86Register::XMM0));
}

#[test]
fn allocate_register_gives_a_second_register_to_the_same_value() {
    let mut allocator = X86_64Allocator::new();
    assert_eq!(allocator.allocate_register(int_value(0)), Some(X86Register::RCX));
    assert_eq!(allocator.allocate_register(int_value(0)), Some(X86Register::RDX));
    assert_eq!(allocator.obtain_register_for_value(int_value(0)), X86Register::RDX);
    assert!(!allocator.is_register_allocated(X86Register::RCX));
}

#[test]
fn registers_handed_out_differ_and_are_of_the_pool() {
    let mut allocator = X86_64Allocator::new();
    let mut seen: Vec<X86Register> = vec![];
    for id in 0..13 {
        assert!(!allocator.is_value_allocated(int_value(id)));
        let reg = allocator.obtain_register_for_value(int_value(id));
        assert!(!reg.is_xmm());
        assert!(reg != X86Register::RAX && reg != X86Register::RSP && reg != X86Register::RBX);
        assert!(!seen.contains(&reg));
        seen.push(reg);
    }
    for id in 13..29 {
        let reg = allocator.obtain_register_for_value(float_value(id));
        assert!(reg.is_xmm());
        assert!(!seen.contains(&reg));
        seen.push(reg);
    }
}

#[test]
fn is_value_allocated_follows_allocation() {
    let mut allocator = X86_64Allocator::new();
    assert!(!allocator.is_value_allocated(int_value(3)));
    allocator.obtain_register_for_value(int_value(3));
    assert!(allocator.is_value_allocated(int_value(3)));
    assert!(!allocator.is_value_allocated(int_value(4)));
}

#[test]
fn is_register_allocated_follows_allocation() {
    let mut allocator = X86_64Allocator::new();
    assert!(!allocator.is_register_allocated(X86Register::RCX));
    allocator.obtain_register_for_value(int_value(0));
    assert!(allocator.is_register_allocated(X86Register::RCX));
    assert!(!allocator.is_register_allocated(X86Register::RDX));
    assert!(!allocator.is_register_allocated(X86Register::XMM0));
    allocator.obtain_register_for_value(float_value(1));
    assert!(allocator.is_register_allocated(X86Register::XMM0));
}

#[test]
fn freeing_an_unknown_value_does_nothing() {
    let mut allocator = X86_64Allocator::new();
    assert!(!allocator.free_register_from_value(int_value(0)));
    assert_eq!(allocator.obtain_register_for_value(int_value(0)), X86Register::RCX);
}

#[test]
fn a_freed_register_goes_behind_the_free_ones() {
    let mut allocator = X86_64Allocator::new();
    allocator.obtain_register_for_value(int_value(0));
    assert!(allocator.free_register_from_value(int_value(0)));
    assert_eq!(allocator.obtain_register_for_value(int_value(1)), X86Register::RDX);
    for id in 2..13 {
        allocator.obtain_register_for_value(int_value(id));
    }
    assert_eq!(allocator.obtain_register_for_value(int_value(13)), X86Register::RCX);
    assert_eq!(allocator.obtain_register_for_value(int_value(14)), X86Register::RAX);
}

#[test]
fn a_freed_value_has_no_register() {
    let mut allocator = X86_64Allocator::new();
    allocator.obtain_register_for_value(int_value(0));
    allocator.obtain_register_for_value(int_value(1));
    assert!(allocator.free_register_from_value(int_value(0)));
    assert!(!allocator.is_value_allocated(int_value(0)));
    assert!(!allocator.is_register_allocated(X86Register::RCX));
    assert!(allocator.is_value_allocated(int_value(1)));
    assert!(allocator.is_register_allocated(X86Register::RDX));
    assert_eq!(allocator.obtain_register_for_value(int_value(0)), X86Register::RBP);
}

#[test]
fn a_register_is_freed_once() {
    let mut allocator = X86_64Allocator::new();
    allocator.obtain_register_for_value(int_value(0));
    assert!(allocator.free_register_from_value(int_value(0)));
    assert!(!allocator.free_register_from_value(int_value(0)));
    for id in 1..13 {
        allocator.obtain_register_for_value(int_value(id));
    }
    assert_eq!(allocator.obtain_register_for_value(int_value(13)), X86Register::RCX);
    assert_eq!(allocator.allocate_register(int_value(14)), None);
}
