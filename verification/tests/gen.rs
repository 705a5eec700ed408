use tiny_jit::gen::x86_64::gen::{BlockOffset, FunctionOffset, GenError, X86_64Gen};
use tiny_jit::gen::x86_64::x86_64_allocator::{X86Register, X86_64Allocator};
use tiny_jit::gen::x86_64::x86_64_caller::CallingConvention;
use tiny_jit::gen::x86_64::x86_64_encoder::X86_64Encoder;
use tiny_jit::lang::block::Block;
use tiny_jit::lang::function::Function;
use tiny_jit::lang::instr::Instr;
use tiny_jit::lang::lang_type::Type;
use tiny_jit::lang::validate::{IrFault, IrFaultKind};
use tiny_jit::lang::value::Value;

struct Lowered {
    code: Vec<u8>,
    relocs: Vec<BlockOffset>,
    calls: Vec<FunctionOffset>,
    allocator: X86_64Allocator,
}

fn lower_with(convention: CallingConvention, instrs: &Vec<Instr>) -> Lowered {
    let gen = X86_64Gen::new(convention);
    let mut allocator = X86_64Allocator::new();
    let mut encoder = X86_64Encoder::new();
    let mut calls = vec![];
    let mut relocs = vec![];
    for instr in instrs {
        gen.gen_instr(7, instr, &mut allocator, &mut encoder, &mut calls, &mut relocs);
    }
    Lowered { code: encoder.bytes().clone(), relocs, calls, allocator }
}

fn lower(instrs: &Vec<Instr>) -> Lowered {
    lower_with(CallingConvention::SystemV, instrs)
}

fn int_value(id: usize) -> Value {
    Value::new(id, Type::i64())
}

fn float_value(id: usize) -> Value {
    Value::new(id, Type::float64())
}

#[test]
fn generator_keeps_its_convention() {
    assert_eq!(
        X86_64Gen::new(CallingConvention::Windows).convention(),
        CallingConvention::Windows
    );
    assert_eq!(
        X86_64Gen::new(CallingConvention::SystemV).convention(),
        CallingConvention::SystemV
    );
}

#[test]
fn const_int64_moves_the_immediate() {
    let out = lower(&vec![Instr::ConstInt64 { const_value: 5, gen_value: int_value(0) }]);
    assert_eq!(out.code, vec![0x48, 0xB9, 5, 0, 0, 0, 0, 0, 0, 0]);
    assert!(out.relocs.is_empty());
    assert!(out.calls.is_empty());
}

#[test]
fn const_int64_of_float_type_goes_through_the_accumulator() {
    let bits = 1.5f64.to_bits() as i64;
    let out = lower(&vec![Instr::ConstInt64 { const_value: bits, gen_value: float_value(0) }]);
    let mut expected = vec![0x48, 0xB8];
    expected.extend_from_slice(&bits.to_le_bytes());
    expected.extend_from_slice(&[0x66, 0x48, 0x0F, 0x6E, 0xC0]);
    assert_eq!(out.code, expected);
}

#[test]
fn const_int32_is_widened() {
    let out = lower(&vec![Instr::ConstInt32 { const_value: -2, gen_value: int_value(0) }]);
    assert_eq!(
        out.code,
        vec![0x48, 0xB9, 0xFE, 0xFF, 0xFF, 0xFF, 0xFF, 0xFF, 0xFF, 0xFF]
    );
}

#[test]
fn const_int32_of_float_type_goes_through_the_accumulator() {
    let bits = 1.5f32.to_bits() as i32;
    let mut out = lower(&vec![Instr::ConstInt32 {
        const_value: bits,
        gen_value: Value::new(0, Type::float32()),
    }]);
    let mut expected = vec![0x48, 0xB8];
    expected.extend_from_slice(&(bits as i64).to_le_bytes());
    expected.extend_from_slice(&[0x66, 0x48, 0x0F, 0x6E, 0xC0]);
    assert_eq!(out.code, expected);
    assert_eq!(
        out.allocator.obtain_register_for_value(Value::new(0, Type::float32())),
        X86Register::XMM0
    );
}

#[test]
fn constants_name_the_upper_registers() {
    let mut instrs = vec![];
    for id in 0..6 {
        instrs.push(Instr::ConstInt64 { const_value: id as i64, gen_value: int_value(id) });
    }
    let out = lower(&instrs);
    assert_eq!(out.code[30..32].to_vec(), vec![0x48, 0xBF]);
    assert_eq!(out.code[40..42].to_vec(), vec![0x48, 0xBE]);
    assert_eq!(out.code[50..60].to_vec(), vec![0x49, 0xB8, 5, 0, 0, 0, 0, 0, 0, 0]);
}

#[test]
fn const_int16_and_int8_are_widened() {
    let out = lower(&vec![
        Instr::ConstInt16 { const_value: -300, gen_value: Value::new(0, Type::i16()) },
        Instr::ConstInt8 { const_value: -1, gen_value: Value::new(1, Type::i8()) },
    ]);
    let mut expected = vec![0x48, 0xB9];
    expected.extend_from_slice(&(-300i64).to_le_bytes());
    expected.extend_from_slice(&[0x48, 0xBA]);
    expected.extend_from_slice(&(-1i64).to_le_bytes());
    assert_eq!(out.code, expected);
}

#[test]
fn const_ptr_moves_the_address() {
    let out = lower(&vec![
        Instr::ConstPtr { const_value: 0x1000, gen_value: Value::new(0, Type::ptr()) },
        Instr::ConstPtr { const_value: usize::MAX, gen_value: Value::new(1, Type::ptr()) },
    ]);
    let mut expected = vec![0x48, 0xB9, 0x00, 0x10, 0, 0, 0, 0, 0, 0, 0x48, 0xBA];
    expected.extend_from_slice(&(usize::MAX as u64).to_le_bytes());
    assert_eq!(out.code, expected);
}

#[test]
fn const_int128_and_not_emit_nothing() {
    let out = lower(&vec![
        Instr::ConstInt128 { const_value: 1 << 100, gen_value: int_value(0) },
        Instr::Not { value: int_value(0), right_value: int_value(1), gen_value: int_value(2) },
    ]);
    assert!(out.code.is_empty());
    assert!(!out.allocator.is_value_allocated(int_value(0)));
    assert!(!out.allocator.is_value_allocated(int_value(2)));
}

#[test]
fn add_of_integers() {
    let out = lower(&vec![Instr::Add {
        left_value: int_value(0),
        right_value: int_value(1),
        gen_value: int_value(2),
    }]);
    assert_eq!(out.code, vec![0x48, 0x89, 0xCD, 0x48, 0x01, 0xD5]);
    assert!(out.allocator.is_value_allocated(int_value(2)));
}

#[test]
fn add_of_floats_moves_between_vector_registers() {
    let out = lower(&vec![Instr::Add {
        left_value: float_value(0),
        right_value: float_value(1),
        gen_value: float_value(2),
    }]);
    assert_eq!(
        out.code,
        vec![0x0F, 0x28, 0xD0, 0x66, 0x40, 0x0F, 0x58, 0xD1]
    );
}

#[test]
fn sub_of_integers() {
    let out = lower(&vec![Instr::Sub {
        left_value: int_value(0),
        right_value: int_value(1),
        gen_value: int_value(2),
    }]);
    assert_eq!(out.code, vec![0x48, 0x89, 0xCD, 0x48, 0x29, 0xD5]);
}

#[test]
fn mul_leaves_the_product_in_the_result_register() {
    let out = lower(&vec![Instr::Mul {
        left_value: int_value(0),
        right_value: int_value(1),
        gen_value: int_value(2),
    }]);
    assert_eq!(out.code, vec![0x48, 0x89, 0xCD, 0x48, 0x0F, 0xAF, 0xEA]);
}

#[test]
fn arithmetic_on_upper_registers() {
    let mut instrs = vec![];
    for id in 0..7 {
        instrs.push(Instr::ConstInt64 { const_value: 0, gen_value: int_value(id) });
    }
    instrs.push(Instr::Sub {
        left_value: int_value(5),
        right_value: int_value(6),
        gen_value: int_value(7),
    });
    let out = lower(&instrs);
    assert_eq!(out.code[70..].to_vec(), vec![0x4D, 0x89, 0xC2, 0x4D, 0x29, 0xCA]);
}

#[test]
fn div_by_the_remainder_register_divides_by_the_saved_copy() {
    let out = lower(&vec![Instr::Div {
        left_value: int_value(0),
        right_value: int_value(1),
        gen_value: int_value(2),
    }]);
    assert_eq!(
        out.code,
        vec![
            0x52, 0x48, 0x89, 0xC8, 0x48, 0x99, 0x48, 0xF7, 0x3C, 0x24, 0x5A, 0x48, 0x89, 0xC5
        ]
    );
}

#[test]
fn div_by_another_register_saves_the_remainder_register() {
    let out = lower(&vec![
        Instr::ConstInt64 { const_value: 1, gen_value: int_value(0) },
        Instr::ConstInt64 { const_value: 2, gen_value: int_value(1) },
        Instr::ConstInt64 { const_value: 3, gen_value: int_value(2) },
        Instr::Div { left_value: int_value(0), right_value: int_value(2), gen_value: int_value(3) },
    ]);
    assert_eq!(
        out.code[30..].to_vec(),
        vec![0x52, 0x48, 0x89, 0xC8, 0x48, 0x99, 0x48, 0xF7, 0xFD, 0x5A, 0x48, 0x89, 0xC7]
    );
}

#[test]
fn div_of_a_value_by_itself_saves_the_remainder_register() {
    let out = lower(&vec![
        Instr::ConstInt64 { const_value: 1, gen_value: int_value(0) },
        Instr::Div { left_value: int_value(0), right_value: int_value(0), gen_value: int_value(1) },
    ]);
    assert_eq!(
        out.code[10..].to_vec(),
        vec![0x52, 0x48, 0x89, 0xC8, 0x48, 0x99, 0x48, 0xF7, 0xF9, 0x5A, 0x48, 0x89, 0xC2]
    );
}

#[test]
fn float_arithmetic_uses_the_vector_operations() {
    let kinds: Vec<(fn(Value, Value, Value) -> Instr, u8)> = vec![
        (|l, r, g| Instr::Add { left_value: l, right_value: r, gen_value: g }, 0x58),
        (|l, r, g| Instr::Sub { left_value: l, right_value: r, gen_value: g }, 0x5C),
        (|l, r, g| Instr::Mul { left_value: l, right_value: r, gen_value: g }, 0x59),
        (|l, r, g| Instr::Div { left_value: l, right_value: r, gen_value: g }, 0x5E),
    ];
    for (kind, opcode) in kinds {
        let out = lower(&vec![kind(float_value(0), float_value(1), float_value(2))]);
        assert_eq!(
            out.code,
            vec![0x0F, 0x28, 0xD0, 0x66, 0x40, 0x0F, opcode, 0xD1]
        );
    }
}

#[test]
fn result_falls_back_to_the_accumulator() {
    let mut instrs = vec![];
    for id in 0..13 {
        instrs.push(Instr::ConstInt64 { const_value: 0, gen_value: int_value(id) });
    }
    instrs.push(Instr::Add {
        left_value: int_value(0),
        right_value: int_value(1),
        gen_value: int_value(13),
    });
    let out = lower(&instrs);
    assert_eq!(
        out.code[130..].to_vec(),
        vec![0x48, 0x89, 0xC8, 0x48, 0x01, 0xD0]
    );
    assert!(!out.allocator.is_value_allocated(int_value(13)));
    assert!(out.allocator.pool_exhausted());
}

#[test]
fn comparisons_leave_one_or_zero_in_the_result_register() {
    let kinds: Vec<(fn(Value, Value, Value) -> Instr, u8)> = vec![
        (|l, r, g| Instr::Eq { left_value: l, right_value: r, gen_value: g }, 0x94),
        (|l, r, g| Instr::Diff { left_value: l, right_value: r, gen_value: g }, 0x95),
        (|l, r, g| Instr::Larger { left_value: l, right_value: r, gen_value: g }, 0x9F),
        (|l, r, g| Instr::LargerEq { left_value: l, right_value: r, gen_value: g }, 0x9D),
        (|l, r, g| Instr::Smaller { left_value: l, right_value: r, gen_value: g }, 0x9C),
        (|l, r, g| Instr::SmallerEq { left_value: l, right_value: r, gen_value: g }, 0x9E),
    ];
    for (kind, opcode) in kinds {
        let mut out = lower(&vec![kind(int_value(0), int_value(1), int_value(2))]);
        assert_eq!(
            out.code,
            vec![0x48, 0x39, 0xD1, 0x40, 0x0F, opcode, 0xC5, 0x48, 0x0F, 0xB6, 0xED]
        );
        assert!(out.allocator.is_value_allocated(int_value(2)));
        assert_eq!(
            out.allocator.obtain_register_for_value(int_value(2)),
            X86Register::RBP
        );
    }
}

#[test]
fn load_and_store() {
    let out = lower(&vec![
        Instr::Load { value_to_load: Value::new(0, Type::ptr()), gen_value: int_value(1) },
        Instr::Store { value_ptr: Value::new(0, Type::ptr()), value_to_store: int_value(1) },
    ]);
    assert_eq!(
        out.code,
        vec![0x48, 0x8B, 0x51, 0x00, 0x48, 0x89, 0x51, 0x00]
    );
}

#[test]
fn br_records_a_relocation() {
    let out = lower(&vec![
        Instr::RetVoid,
        Instr::RetVoid,
        Instr::Br { block_to_br: Block::new(3) },
    ]);
    assert_eq!(out.code, vec![0xC3, 0xC3, 0xE9, 0, 0, 0, 0]);
    assert_eq!(out.relocs, vec![BlockOffset { offset: 3, block: 3 }]);
}

#[test]
fn cond_br_records_the_false_target_first() {
    let out = lower(&vec![Instr::CondBr {
        block_to_br_true: Block::new(1),
        block_to_br_false: Block::new(2),
        value_cond: int_value(0),
    }]);
    assert_eq!(
        out.code,
        vec![0x48, 0x83, 0xF9, 0x00, 0x0F, 0x84, 0, 0, 0, 0, 0xE9, 0, 0, 0, 0]
    );
    assert_eq!(
        out.relocs,
        vec![
            BlockOffset { offset: 6, block: 2 },
            BlockOffset { offset: 11, block: 1 }
        ]
    );
}

#[test]
fn ret_moves_into_the_return_register() {
    let out = lower(&vec![Instr::Ret { value_to_return: int_value(0) }]);
    assert_eq!(out.code, vec![0x48, 0x89, 0xC8, 0xC3]);
    let out = lower(&vec![
        Instr::ConstInt64 { const_value: 0, gen_value: float_value(0) },
        Instr::ConstInt64 { const_value: 0, gen_value: float_value(1) },
        Instr::Ret { value_to_return: float_value(1) },
    ]);
    assert_eq!(out.code[30..].to_vec(), vec![0x0F, 0x28, 0xC1, 0xC3]);
}

#[test]
fn ret_of_the_first_float_needs_no_move() {
    let out = lower(&vec![Instr::Ret { value_to_return: float_value(0) }]);
    assert_eq!(out.code, vec![0xC3]);
}

#[test]
fn ret_void_emits_the_return() {
    let out = lower(&vec![Instr::RetVoid]);
    assert_eq!(out.code, vec![0xC3]);
}

#[test]
fn call_ptr_system_v() {
    let out = lower(&vec![Instr::CallPtr {
        ptr_to_call: Value::new(0, Type::ptr()),
        args: vec![int_value(1)],
        return_type: Type::i64(),
        gen_value: int_value(2),
    }]);
    assert_eq!(
        out.code,
        vec![
            0x48, 0x89, 0xC8, 0x48, 0x89, 0xD7, 0x48, 0xFF, 0xD0, 0x48, 0x89, 0xC5
        ]
    );
}

#[test]
fn call_ptr_windows_brackets_the_call_and_pops_what_was_pushed() {
    let out = lower_with(
        CallingConvention::Windows,
        &vec![Instr::CallPtr {
            ptr_to_call: Value::new(0, Type::ptr()),
            args: vec![int_value(1)],
            return_type: Type::i64(),
            gen_value: int_value(2),
        }],
    );
    assert_eq!(
        out.code,
        vec![
            0x48, 0x89, 0xC8, 0x51, 0x48, 0x89, 0xD1, 0x48, 0x83, 0xEC, 0x20, 0x48, 0xFF, 0xD0,
            0x48, 0x83, 0xC4, 0x20, 0x59, 0x48, 0x89, 0xC5
        ]
    );
}

#[test]
fn call_ptr_pops_in_reverse_order() {
    let out = lower_with(
        CallingConvention::Windows,
        &vec![
            Instr::ConstInt64 { const_value: 0, gen_value: int_value(0) },
            Instr::ConstInt64 { const_value: 0, gen_value: int_value(1) },
            Instr::ConstInt64 { const_value: 0, gen_value: int_value(2) },
            Instr::CallPtr {
                ptr_to_call: int_value(2),
                args: vec![int_value(1), int_value(0)],
                return_type: Type::void(),
                gen_value: int_value(3),
            },
        ],
    );
    assert_eq!(
        out.code[30..].to_vec(),
        vec![
            0x48, 0x89, 0xE8, 0x51, 0x48, 0x89, 0xD1, 0x52, 0x48, 0x89, 0xCA, 0x48, 0x83, 0xEC,
            0x20, 0x48, 0xFF, 0xD0, 0x48, 0x83, 0xC4, 0x20, 0x5A, 0x59, 0x48, 0x89, 0xC7
        ]
    );
}

#[test]
fn call_ptr_float_result_comes_from_the_vector_return_register() {
    let out = lower(&vec![
        Instr::ConstInt64 { const_value: 0, gen_value: float_value(0) },
        Instr::CallPtr {
            ptr_to_call: Value::new(1, Type::ptr()),
            args: vec![],
            return_type: Type::float64(),
            gen_value: float_value(2),
        },
    ]);
    assert_eq!(
        out.code[15..].to_vec(),
        vec![0x48, 0x89, 0xC8, 0x48, 0xFF, 0xD0, 0x0F, 0x28, 0xC8]
    );
}

#[test]
fn call_func_records_its_site_and_emits_nothing() {
    let out = lower(&vec![
        Instr::RetVoid,
        Instr::CallFunc {
            func_to_call: String::from("callee"),
            args: vec![int_value(0)],
            gen_value: int_value(1),
        },
    ]);
    assert_eq!(out.code, vec![0xC3]);
    assert_eq!(
        out.calls,
        vec![FunctionOffset { func_name: String::from("callee"), offset: 1, func_id: 7 }]
    );
    assert!(!out.allocator.is_value_allocated(int_value(0)));
}

fn generate(func: &mut Function) -> Vec<FunctionOffset> {
    let mut gen = X86_64Gen::new(CallingConvention::SystemV);
    let mut calls = vec![];
    assert_eq!(gen.gen_func(func, 0, &mut calls), Ok(()));
    calls
}

#[test]
fn gen_func_of_an_empty_function() {
    let mut func = Function::new("f", &vec![], Type::void());
    let calls = generate(&mut func);
    assert!(func.code().is_empty());
    assert!(calls.is_empty());
    assert_eq!(func.ir().blocks()[0].offset(), 0);
}

#[test]
fn gen_func_add_of_two_constants() {
    let mut func = Function::new("f", &vec![], Type::i64());
    {
        let builder = func.builder();
        let a = builder.const_i64(10);
        let b = builder.const_i64(420);
        let sum = builder.add(a, b);
        builder.ret(sum);
    }
    generate(&mut func);
    assert_eq!(
        func.code(),
        &vec![
            0x48, 0xB9, 10, 0, 0, 0, 0, 0, 0, 0, 0x48, 0xBA, 0xA4, 0x01, 0, 0, 0, 0, 0, 0, 0x48,
            0x89, 0xCD, 0x48, 0x01, 0xD5, 0x48, 0x89, 0xE8, 0xC3
        ]
    );
}

#[test]
fn gen_func_jump_to_the_next_block_has_displacement_zero() {
    let mut direct = Function::new("direct", &vec![], Type::i64());
    {
        let builder = direct.builder();
        let value = builder.const_i64(10);
        builder.ret(value);
    }
    generate(&mut direct);
    let mut jumping = Function::new("jumping", &vec![], Type::i64());
    {
        let builder = jumping.builder();
        let block = builder.create_block();
        builder.br(block);
        builder.set_current_block(block);
        let value = builder.const_i64(10);
        builder.ret(value);
    }
    generate(&mut jumping);
    let mut expected = vec![0xE9, 0, 0, 0, 0];
    expected.extend_from_slice(direct.code());
    assert_eq!(jumping.code(), &expected);
    assert_eq!(jumping.ir().blocks()[0].offset(), 0);
    assert_eq!(jumping.ir().blocks()[1].offset(), 5);
}

#[test]
fn gen_func_forward_jump_over_a_block() {
    let mut func = Function::new("f", &vec![], Type::i64());
    {
        let builder = func.builder();
        let skipped = builder.create_block();
        let target = builder.create_block();
        builder.br(target);
        builder.set_current_block(skipped);
        let a = builder.const_i64(1);
        builder.ret(a);
        builder.set_current_block(target);
        builder.ret_void();
    }
    generate(&mut func);
    assert_eq!(func.code().len(), 5 + 14 + 1);
    assert_eq!(func.code()[0..5].to_vec(), vec![0xE9, 14, 0, 0, 0]);
    assert_eq!(func.ir().blocks()[1].offset(), 5);
    assert_eq!(func.ir().blocks()[2].offset(), 19);
    assert_eq!(func.code()[19], 0xC3);
}

#[test]
fn gen_func_backward_jump_has_a_negative_displacement() {
    let mut func = Function::new("f", &vec![], Type::void());
    {
        let builder = func.builder();
        let second = builder.create_block();
        builder.br(second);
        builder.set_current_block(second);
        builder.br(Block::new(0));
    }
    generate(&mut func);
    assert_eq!(
        func.code(),
        &vec![0xE9, 0, 0, 0, 0, 0xE9, 0xF6, 0xFF, 0xFF, 0xFF]
    );
}

fn branching(condition: i64) -> Function {
    let mut func = Function::new("f", &vec![], Type::i64());
    {
        let builder = func.builder();
        let yes = builder.create_block();
        let no = builder.create_block();
        let cond = builder.const_i64(condition);
        builder.cond_br(yes, no, cond);
        builder.set_current_block(yes);
        let one = builder.const_i64(1);
        builder.ret(one);
        builder.set_current_block(no);
        let two = builder.const_i64(2);
        builder.ret(two);
    }
    generate(&mut func);
    func
}

#[test]
fn gen_func_cond_br_leads_to_both_targets() {
    let func = branching(1);
    assert_eq!(
        func.code(),
        &vec![
            0x48, 0xB9, 1, 0, 0, 0, 0, 0, 0, 0, 0x48, 0x83, 0xF9, 0x00, 0x0F, 0x84, 19, 0, 0, 0,
            0xE9, 0, 0, 0, 0, 0x48, 0xBA, 1, 0, 0, 0, 0, 0, 0, 0, 0x48, 0x89, 0xD0, 0xC3, 0x48,
            0xBD, 2, 0, 0, 0, 0, 0, 0, 0, 0x48, 0x89, 0xE8, 0xC3
        ]
    );
    assert_eq!(func.ir().blocks()[0].offset(), 0);
    assert_eq!(func.ir().blocks()[1].offset(), 25);
    assert_eq!(func.ir().blocks()[2].offset(), 39);
}

#[test]
fn gen_func_cond_br_functions_differ_in_the_condition_only() {
    let taken = branching(1);
    let not_taken = branching(0);
    assert_ne!(taken.code(), not_taken.code());
    assert_eq!(taken.code().len(), not_taken.code().len());
    for (i, (a, b)) in taken.code().iter().zip(not_taken.code().iter()).enumerate() {
        if i == 2 {
            assert_eq!((*a, *b), (1, 0));
        } else {
            assert_eq!(a, b);
        }
    }
}

#[test]
fn gen_func_displacements_lead_to_the_block_offsets() {
    let func = branching(5);
    let code = func.code();
    let starts: Vec<usize> = func.ir().blocks().iter().map(|b| b.offset()).collect();
    let field = |site: usize| {
        i32::from_le_bytes([code[site], code[site + 1], code[site + 2], code[site + 3]])
    };
    assert_eq!(field(16) as i64, starts[2] as i64 - 16 - 4);
    assert_eq!(field(21) as i64, starts[1] as i64 - 21 - 4);
}

#[test]
fn gen_func_keeps_name_signature_and_instructions() {
    let mut func = Function::new("kept", &vec![Type::i8()], Type::i16());
    let value = func.builder().const_i16(3);
    func.builder().ret(value);
    func.set_jit_ptr(99);
    generate(&mut func);
    assert_eq!(func.name(), "kept");
    assert_eq!(func.args(), &vec![Type::i8()]);
    assert_eq!(func.return_type(), Type::i16());
    assert_eq!(func.jit_ptr(), 99);
    assert_eq!(
        func.ir().blocks()[0].instructions(),
        &vec![
            Instr::ConstInt16 { const_value: 3, gen_value: value },
            Instr::Ret { value_to_return: value }
        ]
    );
}

#[test]
fn gen_func_keeps_earlier_call_sites() {
    let mut func = Function::new("f", &vec![], Type::void());
    func.builder().ret_void();
    let mut gen = X86_64Gen::new(CallingConvention::SystemV);
    let mut calls = vec![FunctionOffset { func_name: String::from("g"), offset: 4, func_id: 2 }];
    assert_eq!(gen.gen_func(&mut func, 3, &mut calls), Ok(()));
    assert_eq!(
        calls,
        vec![FunctionOffset { func_name: String::from("g"), offset: 4, func_id: 2 }]
    );
    assert_eq!(func.code(), &vec![0xC3]);
}

#[test]
fn gen_generates_every_function() {
    let mut first = Function::new("first", &vec![], Type::i64());
    let a = first.builder().const_i64(1);
    first.builder().ret(a);
    let mut second = Function::new("second", &vec![], Type::void());
    second.builder().ret_void();
    let mut funcs = vec![first, second];
    let mut gen = X86_64Gen::new(CallingConvention::Windows);
    assert_eq!(gen.gen(&mut funcs), Ok(()));
    assert_eq!(
        funcs[0].code(),
        &vec![0x48, 0xB9, 1, 0, 0, 0, 0, 0, 0, 0, 0x48, 0x89, 0xC8, 0xC3]
    );
    assert_eq!(funcs[1].code(), &vec![0xC3]);
}

#[test]
fn each_function_starts_with_a_fresh_allocator() {
    let mut funcs = vec![];
    for _ in 0..3 {
        let mut func = Function::new("f", &vec![], Type::i64());
        let a = func.builder().const_i64(1);
        func.builder().ret(a);
        funcs.push(func);
    }
    let mut gen = X86_64Gen::new(CallingConvention::SystemV);
    assert_eq!(gen.gen(&mut funcs), Ok(()));
    assert_eq!(funcs[0].code(), funcs[1].code());
    assert_eq!(funcs[1].code(), funcs[2].code());
}

#[test]
fn lower_func_leaves_the_function_alone() {
    let mut func = Function::new("f", &vec![], Type::i64());
    let block = func.builder().create_block();
    func.builder().br(block);
    func.builder().set_current_block(block);
    let value = func.builder().const_i64(10);
    func.builder().ret(value);
    let gen = X86_64Gen::new(CallingConvention::SystemV);
    let generated = gen.lower_func(&func, 0).unwrap();
    assert_eq!(
        generated.code,
        vec![0xE9, 0, 0, 0, 0, 0x48, 0xB9, 10, 0, 0, 0, 0, 0, 0, 0, 0x48, 0x89, 0xC8, 0xC3]
    );
    assert_eq!(generated.block_offsets, vec![0, 5]);
    assert!(generated.calls.is_empty());
    assert!(func.code().is_empty());
    assert_eq!(func.ir().blocks()[1].offset(), 0);
}

#[test]
fn gen_func_failure_changes_nothing() {
    let mut func = Function::new("f", &vec![], Type::void());
    func.builder().ret_void();
    func.builder().const_i8(1);
    func.set_code(&vec![0x90]);
    let mut gen = X86_64Gen::new(CallingConvention::SystemV);
    let mut calls = vec![FunctionOffset { func_name: String::from("g"), offset: 4, func_id: 2 }];
    assert_eq!(
        gen.gen_func(&mut func, 6, &mut calls),
        Err(GenError::IllFormed {
            func_id: 6,
            fault: IrFault { kind: IrFaultKind::MisplacedTerminator, block: 0, index: 0 }
        })
    );
    assert_eq!(func.code(), &vec![0x90]);
    assert_eq!(calls.len(), 1);
}

#[test]
fn lower_func_reports_float_operands_that_nothing_defines() {
    let mut func = Function::new("f", &vec![], Type::void());
    let mut sum = Value::new(1000, Type::float64());
    for _ in 0..16 {
        sum = func.builder().add(sum, sum);
    }
    let gen = X86_64Gen::new(CallingConvention::SystemV);
    assert_eq!(
        gen.lower_func(&func, 4),
        Err(GenError::IllFormed {
            func_id: 4,
            fault: IrFault { kind: IrFaultKind::ForwardReference, block: 0, index: 0 }
        })
    );
}

#[test]
fn gen_stops_at_the_first_failure() {
    let mut good = Function::new("good", &vec![], Type::void());
    good.builder().ret_void();
    let mut crowded = Function::new("crowded", &vec![], Type::void());
    for i in 0..14 {
        crowded.builder().const_i32(i);
    }
    let mut broken = Function::new("broken", &vec![], Type::void());
    broken.builder().ret(Value::new(0, Type::i8()));
    let mut funcs = vec![good, crowded, broken];
    let mut gen = X86_64Gen::new(CallingConvention::SystemV);
    assert_eq!(gen.gen(&mut funcs), Err(GenError::RegisterPressure { func_id: 1 }));
    assert!(funcs[0].code().is_empty());
    assert!(funcs[1].code().is_empty());
    assert!(funcs[2].code().is_empty());
}

#[test]
fn float_add_goes_through_the_vector_registers() {
    let left = 1.5f64;
    let right = 2.25f64;
    let out = lower(&vec![
        Instr::ConstInt64 { const_value: left.to_bits() as i64, gen_value: float_value(0) },
        Instr::ConstInt64 { const_value: right.to_bits() as i64, gen_value: float_value(1) },
        Instr::Add {
            left_value: float_value(0),
            right_value: float_value(1),
            gen_value: float_value(2),
        },
        Instr::Ret { value_to_return: float_value(2) },
    ]);
    let mut expected = vec![0x48, 0xB8];
    expected.extend_from_slice(&left.to_le_bytes());
    expected.extend_from_slice(&[0x66, 0x48, 0x0F, 0x6E, 0xC0]);
    expected.extend_from_slice(&[0x48, 0xB8]);
    expected.extend_from_slice(&right.to_le_bytes());
    expected.extend_from_slice(&[0x66, 0x48, 0x0F, 0x6E, 0xC8]);
    expected.extend_from_slice(&[0x0F, 0x28, 0xD0]);
    expected.extend_from_slice(&[0x66, 0x40, 0x0F, 0x58, 0xD1]);
    expected.extend_from_slice(&[0x0F, 0x28, 0xC2, 0xC3]);
    assert_eq!(out.code, expected);
    assert!(out.relocs.is_empty());
}

#[test]
fn gen_func_reports_a_missing_target() {
    let mut func = Function::new("f", &vec![], Type::void());
    func.builder().br(Block::new(3));
    func.set_code(&vec![0x90]);
    let mut gen = X86_64Gen::new(CallingConvention::SystemV);
    let mut calls = vec![];
    assert_eq!(
        gen.gen_func(&mut func, 2, &mut calls),
        Err(GenError::IllFormed {
            func_id: 2,
            fault: IrFault { kind: IrFaultKind::MissingTarget, block: 0, index: 0 }
        })
    );
    assert_eq!(func.code(), &vec![0x90]);
}

#[test]
fn gen_func_comparison_feeds_the_conditional_jump() {
    let mut func = Function::new("f", &vec![], Type::i64());
    {
        let builder = func.builder();
        let yes = builder.create_block();
        let no = builder.create_block();
        let a = builder.const_i64(3);
        let b = builder.const_i64(4);
        let less = builder.smaller(a, b);
        builder.cond_br(yes, no, less);
        builder.set_current_block(yes);
        builder.ret(a);
        builder.set_current_block(no);
        builder.ret(b);
    }
    generate(&mut func);
    assert_eq!(
        func.code()[20..].to_vec(),
        vec![
            0x48, 0x39, 0xD1, 0x40, 0x0F, 0x9C, 0xC5, 0x48, 0x0F, 0xB6, 0xED, 0x48, 0x83, 0xFD,
            0x00, 0x0F, 0x84, 9, 0, 0, 0, 0xE9, 0, 0, 0, 0, 0x48, 0x89, 0xC8, 0xC3, 0x48, 0x89,
            0xD0, 0xC3
        ]
    );
}
