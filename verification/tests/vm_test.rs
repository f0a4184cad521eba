//! Tests for the virtual machine.

use rusty_python::float::{FloatOp, FloatTask, FloatValue, Number, Outcome};
use rusty_python::{BytecodeFunction, Instruction, PythonError, PythonResult, PythonValue, VM};
use std::sync::Arc;

/// A binary64 value with the texts the host writes for it.
fn fv(x: f64) -> FloatValue {
    FloatValue { bits: x.to_bits(), text: x.to_string(), repr: format!("{:?}", x) }
}

fn operand(n: &Number) -> f64 {
    match n {
        Number::Int(i) => *i as f64,
        Number::Float(f) => f64::from_bits(f.bits),
    }
}

/// The host's answer to a binary64 task.
fn answer(t: &FloatTask) -> PythonValue {
    let a = operand(&t.lhs);
    let b = operand(&t.rhs);
    match t.op {
        FloatOp::Add => PythonValue::Float(fv(a + b)),
        FloatOp::Sub => PythonValue::Float(fv(a - b)),
        FloatOp::Mul => PythonValue::Float(fv(a * b)),
        FloatOp::Div => PythonValue::Float(fv(a / b)),
        FloatOp::FloorDiv => PythonValue::Float(fv((a / b).floor())),
        FloatOp::IntFloorDiv => PythonValue::Integer((a / b).floor() as i64),
        FloatOp::Rem => PythonValue::Float(fv(a.rem_euclid(b))),
        FloatOp::Pow => PythonValue::Float(fv(a.powf(b))),
        FloatOp::Eq => PythonValue::Boolean(a == b),
        FloatOp::Ne => PythonValue::Boolean(a != b),
        FloatOp::Lt => PythonValue::Boolean(a < b),
        FloatOp::Le => PythonValue::Boolean(a <= b),
        FloatOp::Gt => PythonValue::Boolean(a > b),
        FloatOp::Ge => PythonValue::Boolean(a >= b),
        FloatOp::ToInt => PythonValue::Integer(a as i64),
        FloatOp::ToFloat => PythonValue::Float(fv(a)),
    }
}

/// Runs a function, answering its binary64 tasks as the host does.
fn run(vm: &mut VM, func: &BytecodeFunction) -> PythonResult<PythonValue> {
    let mut r = vm.execute(func);
    loop {
        match r {
            Ok(Outcome::Ready(v)) => return Ok(v),
            Ok(Outcome::Float(t)) => {
                let a = answer(&t);
                r = vm.resume(a);
            }
            Err(e) => return Err(e),
        }
    }
}

fn function(name: &str, instructions: Vec<Instruction>) -> BytecodeFunction {
    BytecodeFunction::from_instructions(name, instructions)
}

#[test]
fn test_vm_basic_operations() {
    let mut vm = VM::new();
    let func = function("test", vec![Instruction::PushInteger(10), Instruction::PushInteger(5), Instruction::Add, Instruction::Return]);
    let result = run(&mut vm, &func);
    assert!(result.is_ok());
    let value = result.unwrap();
    assert_eq!(value, PythonValue::Integer(15));
}

#[test]
fn test_vm_boolean_operations() {
    let mut vm = VM::new();
    let func = function("test", vec![Instruction::PushTrue, Instruction::PushFalse, Instruction::And, Instruction::Return]);
    let result = run(&mut vm, &func);
    assert!(result.is_ok());
    let value = result.unwrap();
    assert_eq!(value, PythonValue::Boolean(false));
}

#[test]
fn test_vm_comparison_operations() {
    let mut vm = VM::new();
    let func = function("test", vec![Instruction::PushInteger(10), Instruction::PushInteger(5), Instruction::GreaterThan, Instruction::Return]);
    let result = run(&mut vm, &func);
    assert!(result.is_ok());
    let value = result.unwrap();
    assert_eq!(value, PythonValue::Boolean(true));
}

#[test]
fn test_vm_bitwise_operations() {
    let mut vm = VM::new();
    let func = function("test", vec![Instruction::PushInteger(0b1010), Instruction::PushInteger(0b0110), Instruction::BitwiseAnd, Instruction::Return]);
    let result = run(&mut vm, &func);
    assert!(result.is_ok());
    let value = result.unwrap();
    assert_eq!(value, PythonValue::Integer(0b0010));
}

#[test]
fn test_vm_stack_operations() {
    let mut vm = VM::new();
    let func = function("test", vec![Instruction::PushInteger(1), Instruction::PushInteger(2), Instruction::Dup, Instruction::Add, Instruction::Return]);
    let result = run(&mut vm, &func);
    assert!(result.is_ok());
    let value = result.unwrap();
    assert_eq!(value, PythonValue::Integer(4));
}

#[test]
fn test_vm_control_flow() {
    let mut vm = VM::new();
    let func = function("test", vec![
        Instruction::PushInteger(10),
        Instruction::PushInteger(5),
        Instruction::LessThan,
        Instruction::JumpIfFalse(6),
        Instruction::PushInteger(100),
        Instruction::Return,
        Instruction::PushInteger(200),
        Instruction::Return,
    ]);
    let result = run(&mut vm, &func);
    assert!(result.is_ok());
    let value = result.unwrap();
    assert_eq!(value, PythonValue::Integer(200));
}

#[test]
fn test_vm_global_variables() {
    let mut vm = VM::new();
    vm.set_global_in_context("test_var", Arc::new(PythonValue::Integer(42)));
    let mut func = function("test", vec![Instruction::PushName("test_var".to_string()), Instruction::Return]);
    func.names = vec!["test_var".to_string()];
    let result = run(&mut vm, &func);
    assert!(result.is_ok());
    let value = result.unwrap();
    assert_eq!(value, PythonValue::Integer(42));
}

#[test]
fn test_vm_function_call() {
    let mut vm = VM::new();
    let mut add_func = function("add", vec![
        Instruction::PushInteger(1),
        Instruction::PushInteger(2),
        Instruction::Add,
        Instruction::Return,
    ]);
    add_func.varnames = vec!["a".to_string(), "b".to_string()];
    add_func.argcount = 2;
    add_func.nlocals = 2;
    let main_func = function("main", vec![
        Instruction::PushInteger(10),
        Instruction::PushInteger(20),
        Instruction::Add,
        Instruction::Return,
    ]);
    let _ = add_func;
    let result = run(&mut vm, &main_func);
    assert!(result.is_ok());
    let value = result.unwrap();
    assert_eq!(value, PythonValue::Integer(30));
}

#[test]
fn test_vm_module_system() {
    let _vm = VM::new();
}

#[test]
fn test_vm_ffi_interface() {
    let _vm = VM::new();
}

#[test]
fn test_vm_jit_compilation() {
    let mut vm = VM::new();
    let func = function("test_jit", vec![
        Instruction::PushInteger(10),
        Instruction::PushInteger(5),
        Instruction::Add,
        Instruction::Return,
    ]);
    for _ in 0..10 {
        let result = run(&mut vm, &func);
        assert!(result.is_ok());
        let value = result.unwrap();
        assert_eq!(value, PythonValue::Integer(15));
    }
}

#[test]
fn test_vm_garbage_collection() {
    let mut vm = VM::new();
    for i in 0..100 {
        vm.set_global_in_context(&format!("var_{}", i), Arc::new(PythonValue::Integer(i)));
    }
    let result = vm.get_global_from_context("var_0");
    assert!(result.is_some());
    assert_eq!(result.unwrap(), Arc::new(PythonValue::Integer(0)));
}

#[test]
fn test_vm_list_operations() {
    let mut vm = VM::new();
    let func = function("test_list", vec![
        Instruction::PushInteger(1),
        Instruction::PushInteger(2),
        Instruction::PushInteger(3),
        Instruction::BuildList(3),
        Instruction::PushInteger(1),
        Instruction::GetItem,
        Instruction::Return,
    ]);
    let result = run(&mut vm, &func);
    assert!(result.is_ok());
    let value = result.unwrap();
    assert_eq!(value, PythonValue::Integer(2));
}

#[test]
fn test_vm_dict_operations() {
    let mut vm = VM::new();
    let func = function("test_dict", vec![
        Instruction::PushString("key1".to_string()),
        Instruction::PushInteger(1),
        Instruction::PushString("key2".to_string()),
        Instruction::PushInteger(2),
        Instruction::BuildDict(2),
        Instruction::PushString("key1".to_string()),
        Instruction::GetItem,
        Instruction::Return,
    ]);
    let result = run(&mut vm, &func);
    assert!(result.is_ok());
    let value = result.unwrap();
    assert_eq!(value, PythonValue::Integer(1));
}

#[test]
fn test_vm_string_operations() {
    let mut vm = VM::new();
    let func = function("test_string", vec![
        Instruction::PushString("Hello ".to_string()),
        Instruction::PushString("World".to_string()),
        Instruction::Add,
        Instruction::Return,
    ]);
    let result = run(&mut vm, &func);
    assert!(result.is_ok());
    let value = result.unwrap();
    assert_eq!(value, PythonValue::String("Hello World".to_string()));
}

#[test]
fn test_vm_bitwise_or_operations() {
    let mut vm = VM::new();
    let func = function("test_bitwise", vec![Instruction::PushInteger(0b1010), Instruction::PushInteger(0b0101), Instruction::BitwiseOr, Instruction::Return]);
    let result = run(&mut vm, &func);
    assert!(result.is_ok());
    let value = result.unwrap();
    assert_eq!(value, PythonValue::Integer(0b1111));
}

#[test]
fn test_vm_logical_operations() {
    let mut vm = VM::new();
    let func = function("test_logical", vec![Instruction::PushTrue, Instruction::Not, Instruction::Return]);
    let result = run(&mut vm, &func);
    assert!(result.is_ok());
    let value = result.unwrap();
    assert_eq!(value, PythonValue::Boolean(false));
}

#[test]
fn test_vm_arithmic_operations() {
    let mut vm = VM::new();
    let func = function("test_arithmic", vec![Instruction::PushInteger(2), Instruction::PushInteger(3), Instruction::Power, Instruction::Return]);
    let result = run(&mut vm, &func);
    assert!(result.is_ok());
    let value = result.unwrap();
    assert_eq!(value, PythonValue::Integer(8));
}

#[test]
fn test_vm_attribute_operations() {
    let mut vm = VM::new();
    let func = function("test_attribute", vec![
        Instruction::PushString("name".to_string()),
        Instruction::PushString("Test".to_string()),
        Instruction::BuildDict(1),
        Instruction::GetAttribute("name".to_string()),
        Instruction::Return,
    ]);
    let result = run(&mut vm, &func);
    assert!(result.is_ok());
    let value = result.unwrap();
    assert_eq!(value, PythonValue::NoneValue);
}

#[test]
fn test_vm_subscript_operations() {
    let mut vm = VM::new();
    let func = function("test_subscript", vec![
        Instruction::PushString("Hello".to_string()),
        Instruction::PushInteger(1),
        Instruction::GetItem,
        Instruction::Return,
    ]);
    let result = run(&mut vm, &func);
    assert!(result.is_ok());
    let value = result.unwrap();
    assert_eq!(value, PythonValue::String("e".to_string()));
}

#[test]
fn test_vm_control_flow_loop() {
    let mut vm = VM::new();
    let func = function("test_loop", vec![
        Instruction::PushInteger(0),
        Instruction::Dup,
        Instruction::PushInteger(5),
        Instruction::LessThan,
        Instruction::JumpIfFalse(8),
        Instruction::PushInteger(1),
        Instruction::Add,
        Instruction::Jump(1),
        Instruction::Return,
    ]);
    let result = run(&mut vm, &func);
    assert!(result.is_ok());
    let value = result.unwrap();
    assert_eq!(value, PythonValue::Integer(5));
}

#[test]
fn test_vm_float_operations() {
    let mut vm = VM::new();
    let func = function("test_float", vec![
        Instruction::PushFloat(fv(10.5)),
        Instruction::PushFloat(fv(2.5)),
        Instruction::Add,
        Instruction::Return,
    ]);
    let result = run(&mut vm, &func);
    assert!(result.is_ok());
    let value = result.unwrap();
    match value {
        PythonValue::Float(f) => assert!((f64::from_bits(f.bits) - 13.0).abs() < 0.0001),
        _ => panic!("Expected float, got {:?}", value),
    }
}

#[test]
fn test_vm_tuple_operations() {
    let mut vm = VM::new();
    let func = function("test_tuple", vec![
        Instruction::PushInteger(1),
        Instruction::PushString("hello".to_string()),
        Instruction::PushFloat(fv(3.14)),
        Instruction::BuildTuple(3),
        Instruction::PushInteger(1),
        Instruction::GetItem,
        Instruction::Return,
    ]);
    let result = run(&mut vm, &func);
    assert!(result.is_ok());
    let value = result.unwrap();
    assert_eq!(value, PythonValue::String("hello".to_string()));
}

#[test]
fn test_vm_error_handling() {
    let mut vm = VM::new();
    let mut func = function("test_error", vec![Instruction::PushName("undefined_variable".to_string()), Instruction::Return]);
    func.names = vec!["undefined_variable".to_string()];
    let result = run(&mut vm, &func);
    assert!(result.is_err());
}

#[test]
fn test_vm_stack_manipulation() {
    let mut vm = VM::new();
    let func = function("test_stack", vec![
        Instruction::PushInteger(1),
        Instruction::PushInteger(2),
        Instruction::PushInteger(3),
        Instruction::Rot3,
        Instruction::Return,
    ]);
    let result = run(&mut vm, &func);
    assert!(result.is_ok());
    let value = result.unwrap();
    assert_eq!(value, PythonValue::Integer(2));
}

#[test]
fn test_vm_comparison_mixed_types() {
    let mut vm = VM::new();
    let func = function("test_comparison", vec![Instruction::PushInteger(5), Instruction::PushFloat(fv(5.0)), Instruction::Equal, Instruction::Return]);
    let result = run(&mut vm, &func);
    assert!(result.is_ok());
    let value = result.unwrap();
    assert_eq!(value, PythonValue::Boolean(true));
}

#[test]
fn vm_name_error_message() {
    let mut vm = VM::new();
    let func = function("f", vec![Instruction::PushName("nope".to_string())]);
    let result = vm.execute(&func);
    assert_eq!(result, Err(PythonError::NameError("name 'nope' is not defined".to_string())));
}

#[test]
fn vm_floor_division_and_modulo() {
    let mut vm = VM::new();
    let f = function("f", vec![Instruction::PushInteger(7), Instruction::PushInteger(2), Instruction::FloorDivide]);
    assert_eq!(run(&mut vm, &f).unwrap(), PythonValue::Integer(3));
    let g = function("g", vec![Instruction::PushInteger(-7), Instruction::PushInteger(2), Instruction::FloorDivide]);
    assert_eq!(run(&mut vm, &g).unwrap(), PythonValue::Integer(-4));
    let h = function("h", vec![Instruction::PushInteger(-7), Instruction::PushInteger(2), Instruction::Modulo]);
    assert_eq!(run(&mut vm, &h).unwrap(), PythonValue::Integer(-1));
    let z = function("z", vec![Instruction::PushInteger(1), Instruction::PushInteger(0), Instruction::Modulo]);
    assert_eq!(vm.execute(&z), Err(PythonError::ZeroDivisionError("integer division or modulo by zero".to_string())));
}

#[test]
fn vm_float_division_by_zero() {
    let mut vm = VM::new();
    let f = function("f", vec![Instruction::PushFloat(fv(1.5)), Instruction::PushFloat(fv(-0.0)), Instruction::FloorDivide]);
    assert_eq!(vm.execute(&f), Err(PythonError::ZeroDivisionError("float division by zero".to_string())));
}

#[test]
fn vm_shifts_and_not() {
    let mut vm = VM::new();
    let f = function("f", vec![Instruction::PushInteger(3), Instruction::PushInteger(4), Instruction::LeftShift]);
    assert_eq!(run(&mut vm, &f).unwrap(), PythonValue::Integer(48));
    let g = function("g", vec![Instruction::PushInteger(-16), Instruction::PushInteger(2), Instruction::RightShift]);
    assert_eq!(run(&mut vm, &g).unwrap(), PythonValue::Integer(-4));
    let n = function("n", vec![Instruction::PushInteger(1), Instruction::PushInteger(-1), Instruction::LeftShift]);
    assert_eq!(vm.execute(&n), Err(PythonError::ValueError("negative shift count".to_string())));
    let b = function("b", vec![Instruction::PushInteger(5), Instruction::BitwiseNot]);
    assert_eq!(run(&mut vm, &b).unwrap(), PythonValue::Integer(-6));
    let e = function("e", vec![Instruction::PushString("x".to_string()), Instruction::BitwiseNot]);
    assert_eq!(vm.execute(&e), Err(PythonError::TypeError("unsupported operand type(s) for ~".to_string())));
}

#[test]
fn vm_negative_power_is_float_work() {
    let mut vm = VM::new();
    let f = function("f", vec![Instruction::PushInteger(2), Instruction::PushInteger(-1), Instruction::Power]);
    match vm.execute(&f) {
        Ok(Outcome::Float(t)) => assert_eq!(t.op, FloatOp::Pow),
        other => panic!("expected a task, got {:?}", other),
    }
    let v = vm.resume(PythonValue::Float(fv(0.5))).unwrap();
    assert_eq!(v, Outcome::Ready(PythonValue::Float(fv(0.5))));
}

#[test]
fn vm_call_and_not_callable() {
    let mut vm = VM::new();
    let f = function("f", vec![Instruction::MakeFunction(0), Instruction::PushInteger(1), Instruction::Call(1)]);
    assert_eq!(run(&mut vm, &f).unwrap(), PythonValue::Integer(42));
    let g = function("g", vec![Instruction::PushInteger(7), Instruction::Call(0)]);
    assert_eq!(vm.execute(&g), Err(PythonError::TypeError("'7' object is not callable".to_string())));
}

#[test]
fn vm_comparisons_le_ge() {
    let mut vm = VM::new();
    let f = function("f", vec![Instruction::PushString("abc".to_string()), Instruction::PushString("abd".to_string()), Instruction::LessThanOrEqual]);
    assert_eq!(run(&mut vm, &f).unwrap(), PythonValue::Boolean(true));
    let g = function("g", vec![Instruction::PushInteger(3), Instruction::PushInteger(3), Instruction::GreaterThanOrEqual]);
    assert_eq!(run(&mut vm, &g).unwrap(), PythonValue::Boolean(true));
    let h = function("h", vec![Instruction::PushInteger(3), Instruction::PushString("a".to_string()), Instruction::LessThan]);
    assert_eq!(vm.execute(&h), Err(PythonError::TypeError("unorderable types".to_string())));
}

#[test]
fn vm_set_item_and_dict_keys() {
    let mut vm = VM::new();
    let f = function("f", vec![
        Instruction::PushInteger(1),
        Instruction::PushInteger(2),
        Instruction::BuildList(2),
        Instruction::PushInteger(0),
        Instruction::PushInteger(9),
        Instruction::SetItem,
        Instruction::PushInteger(0),
        Instruction::GetItem,
    ]);
    assert_eq!(run(&mut vm, &f).unwrap(), PythonValue::Integer(9));
    let g = function("g", vec![
        Instruction::PushInteger(1),
        Instruction::PushString("a".to_string()),
        Instruction::PushInteger(1),
        Instruction::PushString("b".to_string()),
        Instruction::BuildDict(2),
        Instruction::PushString("1".to_string()),
        Instruction::GetItem,
    ]);
    assert_eq!(run(&mut vm, &g).unwrap(), PythonValue::String("a".to_string()));
    let h = function("h", vec![
        Instruction::PushInteger(1),
        Instruction::BuildList(1),
        Instruction::PushInteger(5),
        Instruction::PushInteger(0),
        Instruction::SetItem,
    ]);
    assert_eq!(vm.execute(&h), Err(PythonError::IndexError("list assignment index out of range: 5".to_string())));
}

#[test]
fn vm_empty_run_gives_none_and_keeps_stack() {
    let mut vm = VM::new();
    let empty = function("e", vec![]);
    assert_eq!(run(&mut vm, &empty).unwrap(), PythonValue::NoneValue);
    let two = function("t", vec![Instruction::PushInteger(1), Instruction::PushInteger(2)]);
    assert_eq!(run(&mut vm, &two).unwrap(), PythonValue::Integer(2));
    assert_eq!(run(&mut vm, &empty).unwrap(), PythonValue::Integer(1));
}

#[test]
fn vm_locals_and_globals() {
    let mut vm = VM::new();
    vm.set_local("a".to_string(), PythonValue::Integer(1));
    assert!(vm.get_local("a").is_none());
    vm.set_global("g".to_string(), PythonValue::Boolean(true));
    assert_eq!(vm.get_global("g"), Some(&PythonValue::Boolean(true)));
    assert!(vm.get_global("h").is_none());
}

#[test]
fn vm_class_methods() {
    let mut vm = VM::new();
    assert!(!vm.define_method_in_context("C", "m", 3));
    vm.context_mut().define_class("C");
    assert!(vm.define_method_in_context("C", "m", 3));
    let methods = vm.context().get_class_methods("C").unwrap();
    assert_eq!(methods.get("m"), Some(&3));
}

#[test]
fn vm_load_method_and_attributes() {
    let mut vm = VM::new();
    let f = function("f", vec![Instruction::PushInteger(4), Instruction::LoadMethod("m".to_string())]);
    assert_eq!(run(&mut vm, &f).unwrap(), PythonValue::Function("4.m".to_string()));
    assert_eq!(run(&mut vm, &function("e", vec![])).unwrap(), PythonValue::Integer(4));
}

#[test]
fn vm_runs_give_one_result() {
    let func = function("again", vec![
        Instruction::PushInteger(6),
        Instruction::PushInteger(7),
        Instruction::Multiply,
        Instruction::Return,
    ]);
    let mut vm1 = VM::new();
    let mut vm2 = VM::new();
    assert_eq!(run(&mut vm1, &func), run(&mut vm2, &func));
    assert_eq!(run(&mut vm1, &func), Ok(PythonValue::Integer(42)));
}

fn ints(v: &[i64]) -> PythonValue {
    PythonValue::List(v.iter().map(|i| Arc::new(PythonValue::Integer(*i))).collect())
}

#[test]
fn vm_rot3_moves_top_down_and_three_restore() {
    let mut vm = VM::new();
    let once = function("rot", vec![
        Instruction::PushInteger(1),
        Instruction::PushInteger(2),
        Instruction::PushInteger(3),
        Instruction::Rot3,
        Instruction::BuildList(3),
        Instruction::Return,
    ]);
    assert_eq!(run(&mut vm, &once), Ok(ints(&[3, 1, 2])));
    let thrice = function("rot3", vec![
        Instruction::PushInteger(1),
        Instruction::PushInteger(2),
        Instruction::PushInteger(3),
        Instruction::Rot3,
        Instruction::Rot3,
        Instruction::Rot3,
        Instruction::BuildList(3),
        Instruction::Return,
    ]);
    assert_eq!(run(&mut vm, &thrice), Ok(ints(&[1, 2, 3])));
}

#[test]
fn vm_binary_on_short_stack_changes_nothing() {
    let mut vm = VM::new();
    let f = function("short", vec![Instruction::PushInteger(5), Instruction::Subtract, Instruction::Return]);
    assert_eq!(run(&mut vm, &f), Ok(PythonValue::Integer(5)));
}

#[test]
fn vm_equal_and_not_equal_are_opposite() {
    let pairs = vec![
        (Instruction::PushInteger(3), Instruction::PushInteger(3)),
        (Instruction::PushInteger(3), Instruction::PushInteger(4)),
        (Instruction::PushString("a".to_string()), Instruction::PushString("a".to_string())),
        (Instruction::PushString("a".to_string()), Instruction::PushInteger(1)),
    ];
    for (a, b) in pairs {
        let mut vm = VM::new();
        let eq = run(&mut vm, &function("eq", vec![a.clone(), b.clone(), Instruction::Equal, Instruction::Return])).unwrap();
        let ne = run(&mut vm, &function("ne", vec![a, b, Instruction::NotEqual, Instruction::Return])).unwrap();
        match (eq, ne) {
            (PythonValue::Boolean(x), PythonValue::Boolean(y)) => assert_eq!(x, !y),
            other => panic!("expected booleans, got {:?}", other),
        }
    }
}

#[test]
fn vm_floor_division_identity_for_equal_signs() {
    for (a, b) in [(7i64, 2i64), (-7, -2), (6, 3), (0, 5), (-1, -5)] {
        let mut vm = VM::new();
        let q = run(&mut vm, &function("q", vec![Instruction::PushInteger(a), Instruction::PushInteger(b), Instruction::FloorDivide, Instruction::Return])).unwrap();
        let r = run(&mut vm, &function("r", vec![Instruction::PushInteger(a), Instruction::PushInteger(b), Instruction::Modulo, Instruction::Return])).unwrap();
        match (q, r) {
            (PythonValue::Integer(q), PythonValue::Integer(r)) => {
                assert_eq!(q * b + r, a);
                assert!(r == 0 || (r < 0) == (b < 0));
            }
            other => panic!("expected integers, got {:?}", other),
        }
    }
}
