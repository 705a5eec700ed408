use tiny_jit::compiler::Compiler;
use tiny_jit::gen::x86_64::gen::GenError;
use tiny_jit::gen::x86_64::x86_64_caller::CallingConvention;
use tiny_jit::lang::block::Block;
use tiny_jit::lang::lang_type::Type;
use tiny_jit::lang::validate::{IrFault, IrFaultKind};
use tiny_jit::lang::value::Value;

fn constant_code(value: i64) -> Vec<u8> {
    let mut expected = vec![0x48, 0xB9];
    expected.extend_from_slice(&value.to_le_bytes());
    expected.extend_from_slice(&[0x48, 0x89, 0xC8, 0xC3]);
    expected
}

#[test]
fn new_compiler_is_empty() {
    let compiler = Compiler::new();
    assert!(compiler.names().is_empty());
    assert!(compiler.get_func_by_name("f").is_none());
}

#[test]
fn add_func_registers_a_fresh_function() {
    let mut compiler = Compiler::new();
    {
        let func = compiler.add_func("f", &vec![Type::i32()], Type::i64()).unwrap();
        assert_eq!(func.name(), "f");
        assert_eq!(func.args(), &vec![Type::i32()]);
        assert_eq!(func.return_type(), Type::i64());
        assert!(func.code().is_empty());
        assert_eq!(func.jit_ptr(), 0);
    }
    assert_eq!(compiler.names(), &vec![String::from("f")]);
    assert!(compiler.get_func_by_name("f").is_some());
}

#[test]
fn add_func_twice_keeps_the_first() {
    let mut compiler = Compiler::new();
    assert!(compiler.add_func("f", &vec![Type::i32()], Type::i64()).is_some());
    assert!(compiler.add_func("f", &vec![Type::float64(), Type::ptr()], Type::void()).is_none());
    let func = compiler.get_func_by_name("f").unwrap();
    assert_eq!(func.args(), &vec![Type::i32()]);
    assert_eq!(func.return_type(), Type::i64());
    assert_eq!(compiler.names().len(), 1);
}

#[test]
fn add_func_twice_keeps_the_first_functions_instructions() {
    let mut compiler = Compiler::new();
    {
        let func = compiler.add_func("f", &vec![], Type::i64()).unwrap();
        let value = func.builder().const_i64(3);
        func.builder().ret(value);
    }
    assert!(compiler.add_func("f", &vec![], Type::i64()).is_none());
    let func = compiler.get_func_by_name("f").unwrap();
    assert_eq!(func.ir().blocks()[0].instructions().len(), 2);
}

#[test]
fn names_are_case_sensitive_and_exact() {
    let mut compiler = Compiler::new();
    assert!(compiler.add_func("f", &vec![], Type::void()).is_some());
    assert!(compiler.add_func("F", &vec![], Type::void()).is_some());
    assert!(compiler.add_func("f ", &vec![], Type::void()).is_some());
    assert!(compiler.add_func("", &vec![], Type::void()).is_some());
    assert!(compiler.add_func("", &vec![], Type::void()).is_none());
    assert_eq!(compiler.names().len(), 4);
    assert!(compiler.get_func_by_name("ff").is_none());
}

#[test]
fn get_func_by_name_finds_each_function() {
    let mut compiler = Compiler::new();
    compiler.add_func("a", &vec![], Type::i8());
    compiler.add_func("b", &vec![], Type::i16());
    compiler.add_func("c", &vec![], Type::i32());
    assert_eq!(compiler.get_func_by_name("a").unwrap().return_type(), Type::i8());
    assert_eq!(compiler.get_func_by_name("b").unwrap().return_type(), Type::i16());
    assert_eq!(compiler.get_func_by_name("c").unwrap().return_type(), Type::i32());
    assert!(compiler.get_func_by_name("d").is_none());
    assert_eq!(
        compiler.names(),
        &vec![String::from("a"), String::from("b"), String::from("c")]
    );
}

#[test]
fn get_func_by_name_mut_changes_the_registered_function() {
    let mut compiler = Compiler::new();
    compiler.add_func("a", &vec![], Type::void());
    compiler.add_func("b", &vec![], Type::void());
    compiler.get_func_by_name_mut("b").unwrap().set_jit_ptr(0x1234);
    assert!(compiler.get_func_by_name_mut("c").is_none());
    assert_eq!(compiler.get_func_by_name("a").unwrap().jit_ptr(), 0);
    assert_eq!(compiler.get_func_by_name("b").unwrap().jit_ptr(), 0x1234);
}

#[test]
fn jit_of_a_constant_function() {
    let mut compiler = Compiler::new();
    {
        let func = compiler.add_func("my_func", &vec![], Type::i64()).unwrap();
        let builder = func.builder();
        let first = builder.const_i64(10);
        builder.ret(first);
    }
    assert_eq!(compiler.jit(), Ok(()));
    assert_eq!(
        compiler.get_func_by_name("my_func").unwrap().code(),
        &constant_code(10)
    );
}

#[test]
fn jit_of_a_jump_to_a_constant_block() {
    let mut compiler = Compiler::new();
    {
        let func = compiler.add_func("my_func", &vec![], Type::i32()).unwrap();
        let builder = func.builder();
        let block = builder.create_block();
        builder.br(block);
        builder.set_current_block(block);
        let first = builder.const_i64(10);
        builder.ret(first);
    }
    assert_eq!(compiler.jit(), Ok(()));
    let mut expected = vec![0xE9, 0, 0, 0, 0];
    expected.extend_from_slice(&constant_code(10));
    assert_eq!(compiler.get_func_by_name("my_func").unwrap().code(), &expected);
}

#[test]
fn jit_constants_of_every_width_at_their_bounds() {
    let mut compiler = Compiler::new();
    let i8s: Vec<i8> = vec![i8::MIN, -1, 0, 1, i8::MAX];
    let i16s: Vec<i16> = vec![i16::MIN, -1, 0, 1, i16::MAX];
    let i32s: Vec<i32> = vec![i32::MIN, -1, 0, 1, i32::MAX];
    let i64s: Vec<i64> = vec![i64::MIN, -1, 0, 1, i64::MAX];
    let mut expected: Vec<(String, i64)> = vec![];
    for value in i8s {
        let name = format!("i8_{}", value);
        let func = compiler.add_func(&name, &vec![], Type::i8()).unwrap();
        let v = func.builder().const_i8(value);
        func.builder().ret(v);
        expected.push((name, value as i64));
    }
    for value in i16s {
        let name = format!("i16_{}", value);
        let func = compiler.add_func(&name, &vec![], Type::i16()).unwrap();
        let v = func.builder().const_i16(value);
        func.builder().ret(v);
        expected.push((name, value as i64));
    }
    for value in i32s {
        let name = format!("i32_{}", value);
        let func = compiler.add_func(&name, &vec![], Type::i32()).unwrap();
        let v = func.builder().const_i32(value);
        func.builder().ret(v);
        expected.push((name, value as i64));
    }
    for value in i64s {
        let name = format!("i64_{}", value);
        let func = compiler.add_func(&name, &vec![], Type::i64()).unwrap();
        let v = func.builder().const_i64(value);
        func.builder().ret(v);
        expected.push((name, value));
    }
    assert_eq!(compiler.jit(), Ok(()));
    assert_eq!(expected.len(), 20);
    for (name, value) in expected {
        assert_eq!(
            compiler.get_func_by_name(&name).unwrap().code(),
            &constant_code(value)
        );
    }
}

#[test]
fn jit_keeps_names_signatures_and_pointers() {
    let mut compiler = Compiler::new();
    compiler.add_func("a", &vec![Type::i8()], Type::i16());
    compiler.add_func("b", &vec![], Type::void());
    compiler.get_func_by_name_mut("a").unwrap().set_jit_ptr(7);
    compiler.get_func_by_name_mut("b").unwrap().builder().ret_void();
    assert_eq!(compiler.jit(), Ok(()));
    assert_eq!(compiler.names(), &vec![String::from("a"), String::from("b")]);
    let a = compiler.get_func_by_name("a").unwrap();
    assert_eq!(a.args(), &vec![Type::i8()]);
    assert_eq!(a.return_type(), Type::i16());
    assert_eq!(a.jit_ptr(), 7);
    assert!(a.code().is_empty());
    assert_eq!(compiler.get_func_by_name("b").unwrap().code(), &vec![0xC3]);
}

#[test]
fn jit_of_an_empty_registry() {
    let mut compiler = Compiler::new();
    assert_eq!(compiler.jit(), Ok(()));
    assert!(compiler.names().is_empty());
}

#[test]
fn jit_does_not_depend_on_the_convention_without_calls() {
    let mut codes = vec![];
    for convention in [CallingConvention::Windows, CallingConvention::SystemV] {
        let mut compiler = Compiler::new();
        compiler.set_convention(convention);
        let func = compiler.add_func("f", &vec![], Type::i64()).unwrap();
        let a = func.builder().const_i64(10);
        let b = func.builder().const_i64(420);
        let sum = func.builder().add(a, b);
        func.builder().ret(sum);
        assert_eq!(compiler.jit(), Ok(()));
        codes.push(compiler.get_func_by_name("f").unwrap().code().clone());
    }
    assert_eq!(codes[0], codes[1]);
    assert_eq!(codes[0].len(), 30);
}

#[test]
fn jit_twice_is_not_supported() {
    // Generating code a second time for one registry is not supported: no
    // outcome is promised, and none is checked here beyond the registry
    // still holding its function.
    let mut compiler = Compiler::new();
    {
        let func = compiler.add_func("f", &vec![], Type::i64()).unwrap();
        let value = func.builder().const_i64(1);
        func.builder().ret(value);
    }
    assert_eq!(compiler.jit(), Ok(()));
    let _ = compiler.jit();
    assert!(compiler.get_func_by_name("f").is_some());
}

#[test]
fn jit_reports_ill_formed_instructions() {
    let mut compiler = Compiler::new();
    {
        let func = compiler.add_func("f", &vec![], Type::i64()).unwrap();
        let narrow = func.builder().const_i8(1);
        let wide = func.builder().const_i64(2);
        let sum = func.builder().add(narrow, wide);
        func.builder().ret(sum);
    }
    assert_eq!(
        compiler.jit(),
        Err(GenError::IllFormed {
            func_id: 0,
            fault: IrFault { kind: IrFaultKind::OperandTypeMismatch, block: 0, index: 2 }
        })
    );
    assert!(compiler.get_func_by_name("f").unwrap().code().is_empty());
}

#[test]
fn jit_failure_changes_no_function() {
    let mut compiler = Compiler::new();
    {
        let good = compiler.add_func("good", &vec![], Type::i64()).unwrap();
        let value = good.builder().const_i64(1);
        good.builder().ret(value);
    }
    {
        let bad = compiler.add_func("bad", &vec![], Type::void()).unwrap();
        bad.builder().ret_void();
        bad.builder().ret_void();
    }
    {
        let later = compiler.add_func("later", &vec![], Type::void()).unwrap();
        later.builder().ret_void();
    }
    assert_eq!(
        compiler.jit(),
        Err(GenError::IllFormed {
            func_id: 1,
            fault: IrFault { kind: IrFaultKind::MisplacedTerminator, block: 0, index: 0 }
        })
    );
    assert!(compiler.get_func_by_name("good").unwrap().code().is_empty());
    assert!(compiler.get_func_by_name("bad").unwrap().code().is_empty());
    assert!(compiler.get_func_by_name("later").unwrap().code().is_empty());
    assert_eq!(compiler.names().len(), 3);
}

#[test]
fn jit_reports_the_first_failing_function() {
    let mut compiler = Compiler::new();
    compiler.add_func("empty", &vec![], Type::void());
    {
        let first = compiler.add_func("first", &vec![], Type::void()).unwrap();
        first.builder().ret(Value::new(9, Type::i64()));
    }
    {
        let second = compiler.add_func("second", &vec![], Type::void()).unwrap();
        second.builder().ret_void();
        second.builder().ret_void();
    }
    let error = compiler.jit().unwrap_err();
    assert_eq!(error.func_id(), 1);
    assert_eq!(
        error,
        GenError::IllFormed {
            func_id: 1,
            fault: IrFault { kind: IrFaultKind::ForwardReference, block: 0, index: 0 }
        }
    );
}

#[test]
fn jit_reports_register_pressure() {
    let mut compiler = Compiler::new();
    {
        let func = compiler.add_func("roomy", &vec![], Type::void()).unwrap();
        for i in 0..13 {
            func.builder().const_i64(i);
        }
        func.builder().ret_void();
    }
    assert_eq!(compiler.jit(), Ok(()));
    {
        let func = compiler.add_func("crowded", &vec![], Type::void()).unwrap();
        for i in 0..14 {
            func.builder().const_i64(i);
        }
        func.builder().ret_void();
    }
    assert_eq!(compiler.jit(), Err(GenError::RegisterPressure { func_id: 1 }));
    assert!(compiler.get_func_by_name("crowded").unwrap().code().is_empty());
    assert_eq!(compiler.get_func_by_name("roomy").unwrap().code().len(), 131);
}

#[test]
fn jit_after_the_fault_is_mended() {
    let mut compiler = Compiler::new();
    {
        let func = compiler.add_func("f", &vec![], Type::i64()).unwrap();
        let a = func.builder().const_i64(1);
        let b = func.builder().const_i64(1);
        func.builder().eq(a, b);
    }
    assert_eq!(
        compiler.jit(),
        Err(GenError::IllFormed {
            func_id: 0,
            fault: IrFault { kind: IrFaultKind::DanglingComparison, block: 0, index: 2 }
        })
    );
    {
        let func = compiler.get_func_by_name_mut("f").unwrap();
        let yes = func.builder().create_block();
        let no = func.builder().create_block();
        func.builder().cond_br(yes, no, Value::new(2, Type::i64()));
    }
    assert_eq!(compiler.jit(), Ok(()));
    assert_eq!(
        compiler.get_func_by_name("f").unwrap().code()[20..].to_vec(),
        vec![
            0x48, 0x39, 0xD1, 0x40, 0x0F, 0x94, 0xC5, 0x48, 0x0F, 0xB6, 0xED, 0x48, 0x83, 0xFD,
            0x00, 0x0F, 0x84, 5, 0, 0, 0, 0xE9, 0, 0, 0, 0
        ]
    );
}

#[test]
fn jit_reports_a_jump_to_a_missing_block() {
    let mut compiler = Compiler::new();
    {
        let func = compiler.add_func("f", &vec![], Type::void()).unwrap();
        let value = func.builder().const_i64(1);
        func.builder().cond_br(Block::new(0), Block::new(5), value);
    }
    assert_eq!(
        compiler.jit(),
        Err(GenError::IllFormed {
            func_id: 0,
            fault: IrFault { kind: IrFaultKind::MissingTarget, block: 0, index: 1 }
        })
    );
}

#[test]
fn jit_of_many_constants_returns_through_the_register_of_the_chosen_one() {
    let mut compiler = Compiler::new();
    {
        let func = compiler.add_func("f", &vec![], Type::i64()).unwrap();
        let mut values = vec![];
        for i in 0..13 {
            values.push(func.builder().const_i64(100 + i));
        }
        func.builder().ret(values[5]);
    }
    assert_eq!(compiler.jit(), Ok(()));
    let code = compiler.get_func_by_name("f").unwrap().code().clone();
    assert_eq!(code.len(), 134);
    assert_eq!(code[50..60].to_vec(), vec![0x49, 0xB8, 105, 0, 0, 0, 0, 0, 0, 0]);
    assert_eq!(code[120..130].to_vec(), vec![0x49, 0xBF, 112, 0, 0, 0, 0, 0, 0, 0]);
    assert_eq!(code[130..].to_vec(), vec![0x4C, 0x89, 0xC0, 0xC3]);
}
