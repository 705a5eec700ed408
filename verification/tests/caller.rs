use tiny_jit::gen::x86_64::x86_64_allocator::{X86Register, X86_64Allocator};
use tiny_jit::gen::x86_64::x86_64_caller::{CallingConvention, X86_64Caller};
use tiny_jit::gen::x86_64::x86_64_encoder::X86_64Encoder;
use tiny_jit::lang::lang_type::Type;
use tiny_jit::lang::value::Value;

fn int_value(id: usize) -> Value {
    Value::new(id, Type::i64())
}

fn float_value(id: usize) -> Value {
    Value::new(id, Type::float64())
}

#[test]
fn shadow_space_belongs_to_the_four_register_convention() {
    assert!(X86_64Caller::new(CallingConvention::Windows).needs_shadow_space());
    assert!(!X86_64Caller::new(CallingConvention::SystemV).needs_shadow_space());
}

#[test]
fn no_arguments_emit_nothing() {
    let caller = X86_64Caller::new(CallingConvention::SystemV);
    let mut encoder = X86_64Encoder::new();
    let mut allocator = X86_64Allocator::new();
    let pushed = caller.generate_call(&mut encoder, &mut allocator, &vec![]);
    assert!(pushed.is_empty());
    assert!(encoder.bytes().is_empty());
}

#[test]
fn system_v_first_integer_argument() {
    let caller = X86_64Caller::new(CallingConvention::SystemV);
    let mut encoder = X86_64Encoder::new();
    let mut allocator = X86_64Allocator::new();
    let pushed = caller.generate_call(&mut encoder, &mut allocator, &vec![int_value(0)]);
    assert!(pushed.is_empty());
    assert_eq!(encoder.bytes(), &vec![0x48, 0x89, 0xCF]);
    assert!(allocator.is_value_allocated(int_value(0)));
}

#[test]
fn system_v_integer_arguments_in_order() {
    let caller = X86_64Caller::new(CallingConvention::SystemV);
    let mut encoder = X86_64Encoder::new();
    let mut allocator = X86_64Allocator::new();
    let args = vec![int_value(0), int_value(1)];
    let pushed = caller.generate_call(&mut encoder, &mut allocator, &args);
    assert!(pushed.is_empty());
    assert_eq!(
        encoder.bytes(),
        &vec![0x48, 0x89, 0xCF, 0x48, 0x89, 0xD6]
    );
}

#[test]
fn occupied_argument_register_is_pushed() {
    let caller = X86_64Caller::new(CallingConvention::SystemV);
    let mut encoder = X86_64Encoder::new();
    let mut allocator = X86_64Allocator::new();
    for id in 0..4 {
        allocator.obtain_register_for_value(int_value(id));
    }
    let pushed = caller.generate_call(&mut encoder, &mut allocator, &vec![int_value(0)]);
    assert_eq!(pushed, vec![X86Register::RDI]);
    assert_eq!(encoder.bytes(), &vec![0x57, 0x48, 0x89, 0xCF]);
}

#[test]
fn argument_already_in_place_is_left_alone() {
    let caller = X86_64Caller::new(CallingConvention::Windows);
    let mut encoder = X86_64Encoder::new();
    let mut allocator = X86_64Allocator::new();
    let pushed = caller.generate_call(&mut encoder, &mut allocator, &vec![int_value(0)]);
    assert!(pushed.is_empty());
    assert!(encoder.bytes().is_empty());
}

#[test]
fn windows_swapped_arguments_push_both_registers() {
    let caller = X86_64Caller::new(CallingConvention::Windows);
    let mut encoder = X86_64Encoder::new();
    let mut allocator = X86_64Allocator::new();
    allocator.obtain_register_for_value(int_value(0));
    allocator.obtain_register_for_value(int_value(1));
    let pushed = caller.generate_call(&mut encoder, &mut allocator, &vec![int_value(1), int_value(0)]);
    assert_eq!(pushed, vec![X86Register::RCX, X86Register::RDX]);
    assert_eq!(
        encoder.bytes(),
        &vec![0x51, 0x48, 0x89, 0xD1, 0x52, 0x48, 0x89, 0xCA]
    );
}

#[test]
fn windows_third_and_fourth_integer_arguments() {
    let caller = X86_64Caller::new(CallingConvention::Windows);
    let mut encoder = X86_64Encoder::new();
    let mut allocator = X86_64Allocator::new();
    let args = vec![int_value(0), int_value(1), int_value(2), int_value(3)];
    let pushed = caller.generate_call(&mut encoder, &mut allocator, &args);
    assert!(pushed.is_empty());
    assert_eq!(
        encoder.bytes(),
        &vec![0x49, 0x89, 0xE8, 0x49, 0x89, 0xF9]
    );
}

#[test]
fn float_arguments_use_the_vector_registers() {
    let caller = X86_64Caller::new(CallingConvention::SystemV);
    let mut encoder = X86_64Encoder::new();
    let mut allocator = X86_64Allocator::new();
    allocator.obtain_register_for_value(float_value(0));
    allocator.obtain_register_for_value(float_value(1));
    let pushed = caller.generate_call(&mut encoder, &mut allocator, &vec![float_value(1), float_value(0)]);
    assert_eq!(pushed, vec![X86Register::XMM0, X86Register::XMM1]);
    assert_eq!(
        encoder.bytes(),
        &vec![
            0x48, 0x83, 0xEC, 0x10, 0x40, 0x0F, 0x11, 0x04, 0x24, 0x0F, 0x28, 0xC1, 0x48, 0x83,
            0xEC, 0x10, 0x40, 0x0F, 0x11, 0x0C, 0x24, 0x0F, 0x28, 0xC8
        ]
    );
}

#[test]
fn classes_are_counted_separately() {
    let caller = X86_64Caller::new(CallingConvention::SystemV);
    let mut encoder = X86_64Encoder::new();
    let mut allocator = X86_64Allocator::new();
    let args = vec![float_value(0), int_value(1), float_value(2)];
    let pushed = caller.generate_call(&mut encoder, &mut allocator, &args);
    assert!(pushed.is_empty());
    assert_eq!(
        encoder.bytes(),
        &vec![0x48, 0x89, 0xCF]
    );
}

#[test]
fn system_v_takes_six_integer_arguments() {
    let caller = X86_64Caller::new(CallingConvention::SystemV);
    let mut encoder = X86_64Encoder::new();
    let mut allocator = X86_64Allocator::new();
    let args = vec![int_value(0), int_value(1), int_value(2), int_value(3), int_value(4), int_value(5)];
    let pushed = caller.generate_call(&mut encoder, &mut allocator, &args);
    assert_eq!(pushed, vec![X86Register::RDX, X86Register::RCX]);
    assert_eq!(allocator.obtain_register_for_value(int_value(5)), X86Register::R8);
    assert_eq!(
        encoder.bytes(),
        &vec![
            0x48, 0x89, 0xCF, 0x48, 0x89, 0xD6, 0x52, 0x48, 0x89, 0xEA, 0x51, 0x48, 0x89, 0xF9,
            0x49, 0x89, 0xF0, 0x4D, 0x89, 0xC1
        ]
    );
}
