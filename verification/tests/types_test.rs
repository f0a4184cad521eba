//! Tests for Python values and errors.

use rusty_python::float::{FloatOp, FloatTask, FloatValue, Number, Outcome};
use rusty_python::value::Dict;
use rusty_python::{PythonError, PythonValue};
use std::sync::Arc;

/// A binary64 value with the texts the host writes for it.
fn fv(x: f64) -> FloatValue {
    FloatValue { bits: x.to_bits(), text: x.to_string(), repr: format!("{:?}", x) }
}

fn operand(n: &Number) -> f64 {
    match n {
        Number::Int(i) => *i as f64,
        Number::Float(f) => f64::from_bits(f.bits),
    }
}

/// The host's answer to a conversion task.
fn int_of(o: Outcome<i64>) -> i64 {
    match o {
        Outcome::Ready(i) => i,
        Outcome::Float(FloatTask { op: FloatOp::ToInt, lhs, .. }) => operand(&lhs) as i64,
        Outcome::Float(t) => panic!("unexpected task {:?}", t),
    }
}

fn float_of(o: Outcome<FloatValue>) -> f64 {
    match o {
        Outcome::Ready(f) => f64::from_bits(f.bits),
        Outcome::Float(FloatTask { op: FloatOp::ToFloat, lhs, .. }) => operand(&lhs),
        Outcome::Float(t) => panic!("unexpected task {:?}", t),
    }
}

#[test]
fn test_python_value_creation() {
    let none = PythonValue::NoneValue;
    assert!(none.is_none());

    let true_val = PythonValue::Boolean(true);
    let false_val = PythonValue::Boolean(false);
    assert_eq!(true_val.to_bool(), true);
    assert_eq!(false_val.to_bool(), false);

    let int_val = PythonValue::Integer(42);
    assert_eq!(int_of(int_val.to_i64()), 42);
    assert_eq!(float_of(int_val.to_f64()), 42.0);

    let float_val = PythonValue::Float(fv(3.14));
    assert_eq!(float_of(float_val.to_f64()), 3.14);
    assert_eq!(int_of(float_val.to_i64()), 3);

    let string_val = PythonValue::String("hello".to_string());
    assert_eq!(string_val.to_string(), "hello");

    let list_val = PythonValue::List(vec![
        Arc::new(PythonValue::Integer(1)),
        Arc::new(PythonValue::Integer(2)),
        Arc::new(PythonValue::Integer(3)),
    ]);
    assert!(list_val.to_bool());
    let empty_list_val = PythonValue::List(vec![]);
    assert!(!empty_list_val.to_bool());

    let mut dict = Dict::new();
    dict.insert("key".to_string(), Arc::new(PythonValue::String("value".to_string())));
    let dict_val = PythonValue::Dict(dict);
    assert!(dict_val.to_bool());
    let empty_dict_val = PythonValue::Dict(Dict::new());
    assert!(!empty_dict_val.to_bool());

    let mut obj_attrs = Dict::new();
    obj_attrs.insert("name".to_string(), Arc::new(PythonValue::String("test".to_string())));
    let obj_val = PythonValue::Object("Test".to_string(), obj_attrs);
    assert_eq!(obj_val.to_string(), "<Test object>");

    let func_val = PythonValue::Function("test_func".to_string());
    assert_eq!(func_val.to_string(), "<function test_func>");
}

#[test]
fn test_python_value_conversions() {
    assert_eq!(PythonValue::NoneValue.to_bool(), false);
    assert_eq!(PythonValue::Boolean(true).to_bool(), true);
    assert_eq!(PythonValue::Boolean(false).to_bool(), false);
    assert_eq!(PythonValue::Integer(0).to_bool(), false);
    assert_eq!(PythonValue::Integer(1).to_bool(), true);
    assert_eq!(PythonValue::Float(fv(0.0)).to_bool(), false);
    assert_eq!(PythonValue::Float(fv(0.1)).to_bool(), true);
    assert_eq!(PythonValue::String("".to_string()).to_bool(), false);
    assert_eq!(PythonValue::String("hello".to_string()).to_bool(), true);

    assert_eq!(PythonValue::NoneValue.to_string(), "None");
    assert_eq!(PythonValue::Boolean(true).to_string(), "true");
    assert_eq!(PythonValue::Boolean(false).to_string(), "false");
    assert_eq!(PythonValue::Integer(42).to_string(), "42");
    assert_eq!(PythonValue::Float(fv(3.14)).to_string(), "3.14");
}

#[test]
fn test_python_error_display() {
    let errors = vec![
        PythonError::MethodNotFound("test_method".to_string()),
        PythonError::AttributeNotFound("test_attr".to_string()),
        PythonError::LexicalError("Invalid syntax".to_string()),
        PythonError::SyntaxError("Syntax error".to_string()),
        PythonError::RuntimeError("Runtime error".to_string()),
        PythonError::TypeError("Type error".to_string()),
        PythonError::ArgumentError("Argument error".to_string()),
        PythonError::NameError("Name error".to_string()),
        PythonError::IndexError("Index error".to_string()),
        PythonError::KeyError("Key error".to_string()),
        PythonError::ZeroDivisionError("Division by zero".to_string()),
    ];

    for error in errors {
        let error_str = error.to_string();
        assert!(!error_str.is_empty());
    }
}

#[test]
fn error_texts_carry_their_kind() {
    assert_eq!(PythonError::NameError("x".to_string()).to_string(), "Name error: x");
    assert_eq!(
        PythonError::ZeroDivisionError("division by zero".to_string()).to_string(),
        "ZeroDivisionError: division by zero"
    );
}

#[test]
fn negative_and_extreme_integers_render() {
    assert_eq!(PythonValue::Integer(-7).to_string(), "-7");
    assert_eq!(PythonValue::Integer(0).to_string(), "0");
    assert_eq!(PythonValue::Integer(i64::MIN).to_string(), i64::MIN.to_string());
    assert_eq!(PythonValue::Integer(i64::MAX).to_string(), i64::MAX.to_string());
}

#[test]
fn containers_render_items_by_debug_text() {
    let list = PythonValue::List(vec![
        Arc::new(PythonValue::Integer(1)),
        Arc::new(PythonValue::String("a".to_string())),
        Arc::new(PythonValue::NoneValue),
    ]);
    assert_eq!(list.to_string(), "[Integer(1), String(\"a\"), None]");
    let mut d = Dict::new();
    d.insert("k".to_string(), Arc::new(PythonValue::Boolean(true)));
    assert_eq!(PythonValue::Dict(d).to_string(), "{\"k\": Boolean(true)}");
}

#[test]
fn booleans_convert_to_numbers() {
    assert_eq!(int_of(PythonValue::Boolean(true).to_i64()), 1);
    assert_eq!(int_of(PythonValue::String("9".to_string()).to_i64()), 0);
    assert_eq!(float_of(PythonValue::Boolean(true).to_f64()), 1.0);
    assert_eq!(float_of(PythonValue::NoneValue.to_f64()), 0.0);
}

#[test]
fn item_access_and_update() {
    let mut list = PythonValue::List(vec![
        Arc::new(PythonValue::Integer(10)),
        Arc::new(PythonValue::Integer(20)),
    ]);
    assert_eq!(*list.get_item(&PythonValue::Integer(1)).unwrap(), PythonValue::Integer(20));
    assert!(matches!(list.get_item(&PythonValue::Integer(-1)), Err(PythonError::IndexError(_))));
    assert!(matches!(list.get_item(&PythonValue::Integer(2)), Err(PythonError::IndexError(_))));
    list.set_item(&PythonValue::Integer(0), Arc::new(PythonValue::Integer(5))).unwrap();
    assert_eq!(*list.get_item(&PythonValue::Integer(0)).unwrap(), PythonValue::Integer(5));
    list.append(Arc::new(PythonValue::Integer(30))).unwrap();
    assert_eq!(list.len(), 3);

    let mut d = PythonValue::Dict(Dict::new());
    let key = PythonValue::String("a".to_string());
    assert!(matches!(d.get_item(&key), Err(PythonError::KeyError(_))));
    d.set_item(&key, Arc::new(PythonValue::Integer(1))).unwrap();
    assert_eq!(*d.get_item(&key).unwrap(), PythonValue::Integer(1));
    assert!(matches!(
        PythonValue::Integer(3).get_item(&PythonValue::Integer(0)),
        Err(PythonError::TypeError(_))
    ));
}

#[test]
fn integer_arithmetic_is_exact() {
    let a = PythonValue::Integer(7);
    let b = PythonValue::Integer(3);
    assert_eq!(a.add(&b).unwrap(), Outcome::Ready(PythonValue::Integer(10)));
    assert_eq!(a.sub(&b).unwrap(), Outcome::Ready(PythonValue::Integer(4)));
    assert_eq!(a.mul(&b).unwrap(), Outcome::Ready(PythonValue::Integer(21)));
    assert!(matches!(a.div(&PythonValue::Integer(0)), Err(PythonError::ZeroDivisionError(_))));
    assert_eq!(
        PythonValue::String("ab".to_string()).add(&PythonValue::String("cd".to_string())).unwrap(),
        Outcome::Ready(PythonValue::String("abcd".to_string()))
    );
    assert!(matches!(a.add(&PythonValue::NoneValue), Err(PythonError::TypeError(_))));
}

#[test]
fn less_and_greater_are_converse() {
    let pairs = vec![
        (PythonValue::Integer(1), PythonValue::Integer(2)),
        (PythonValue::Integer(2), PythonValue::Integer(2)),
        (PythonValue::String("ab".to_string()), PythonValue::String("b".to_string())),
        (PythonValue::Float(fv(1.5)), PythonValue::Float(fv(-0.5))),
    ];
    for (a, b) in pairs {
        assert_eq!(a.lt(&b).unwrap(), b.gt(&a).unwrap());
        assert_eq!(a.gt(&b).unwrap(), b.lt(&a).unwrap());
    }
    assert!(matches!(PythonValue::NoneValue.lt(&PythonValue::Integer(1)), Err(PythonError::TypeError(_))));
}

#[test]
fn storing_an_item_leaves_the_others() {
    let mut d = PythonValue::Dict(Dict::new());
    let a = PythonValue::String("a".to_string());
    let b = PythonValue::String("b".to_string());
    d.set_item(&a, Arc::new(PythonValue::Integer(1))).unwrap();
    d.set_item(&b, Arc::new(PythonValue::Integer(2))).unwrap();
    d.set_item(&a, Arc::new(PythonValue::Integer(3))).unwrap();
    assert_eq!(*d.get_item(&b).unwrap(), PythonValue::Integer(2));
    assert_eq!(*d.get_item(&a).unwrap(), PythonValue::Integer(3));
    assert_eq!(d.len(), 2);
}

#[test]
fn equality_is_symmetric_on_dictionaries() {
    let mut d1 = Dict::new();
    d1.insert("a".to_string(), Arc::new(PythonValue::Integer(1)));
    d1.insert("b".to_string(), Arc::new(PythonValue::Integer(2)));
    let mut d2 = Dict::new();
    d2.insert("b".to_string(), Arc::new(PythonValue::Integer(2)));
    d2.insert("a".to_string(), Arc::new(PythonValue::Integer(1)));
    let mut d3 = Dict::new();
    d3.insert("a".to_string(), Arc::new(PythonValue::Integer(1)));
    d3.insert("c".to_string(), Arc::new(PythonValue::Integer(2)));
    let x = PythonValue::Dict(d1);
    let y = PythonValue::Dict(d2);
    let z = PythonValue::Dict(d3);
    assert_eq!(x.eq(&y), Outcome::Ready(true));
    assert_eq!(y.eq(&x), Outcome::Ready(true));
    assert_eq!(x.eq(&z), Outcome::Ready(false));
    assert_eq!(z.eq(&x), Outcome::Ready(false));
}
