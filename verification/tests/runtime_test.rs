//! Tests for the generator, the module registry, the runtime, the JIT
//! counters, the FFI registry, tables and the command-line readers.

use rusty_python::ast::{BinaryOperator, Expression, Literal, Program, PythonRoot, Statement};
use rusty_python::codegen::CodeGenerator;
use rusty_python::ffi::FFI;
use rusty_python::float::Outcome;
use rusty_python::jit::JIT;
use rusty_python::module::{Module, ModuleFile, ModuleManager};
use rusty_python::runtime::{Python, ToPythonValue};
use rusty_python::services::{PythonLanguageServer, WasiPythonRuntime};
use rusty_python::table::Table;
use rusty_python::tools::{
    config_command, idle_command, pip_command, pytest_command, python_command, ConfigQuery, ToolAction,
};
use rusty_python::{Instruction, PythonError, PythonValue, VM};
use std::sync::Arc;

fn lit(i: i64) -> Expression {
    Expression::Literal(Literal::Integer(i))
}

fn args(a: &[&str]) -> Vec<String> {
    a.iter().map(|s| s.to_string()).collect()
}

#[test]
fn generator_compiles_expression_statements() {
    let mut g = CodeGenerator::new();
    let f = g
        .generate(vec![Statement::Expression(Expression::BinaryOp {
            left: Box::new(lit(1)),
            operator: BinaryOperator::Add,
            right: Box::new(lit(2)),
        })])
        .unwrap();
    assert_eq!(f.name, "<module>");
    assert_eq!(
        f.instruction_list(),
        vec![
            Instruction::PushInteger(1),
            Instruction::PushInteger(2),
            Instruction::Add,
            Instruction::Pop,
            Instruction::PushNull,
            Instruction::Return,
        ]
    );
}

#[test]
fn generator_jumps_of_if_land_inside() {
    let mut g = CodeGenerator::new();
    let f = g
        .generate(vec![Statement::If {
            test: Expression::Literal(Literal::Boolean(false)),
            body: vec![Statement::Expression(lit(1))],
            orelse: vec![Statement::Expression(lit(2))],
        }])
        .unwrap();
    assert_eq!(
        f.instruction_list(),
        vec![
            Instruction::PushFalse,
            Instruction::JumpIfFalse(5),
            Instruction::PushInteger(1),
            Instruction::Pop,
            Instruction::Jump(7),
            Instruction::PushInteger(2),
            Instruction::Pop,
            Instruction::PushNull,
            Instruction::Return,
        ]
    );
    assert_eq!(f.instruction_count(), 9);
    let mut vm = VM::new();
    assert_eq!(vm.execute(&f), Ok(Outcome::Ready(PythonValue::NoneValue)));
}

#[test]
fn module_registry_starts_with_builtins() {
    let m = ModuleManager::new();
    assert_eq!(m.list_modules(), vec!["builtins".to_string()]);
    assert_eq!(m.list_std_modules(), vec!["builtins".to_string()]);
    assert_eq!(m.search_paths(), &vec![".".to_string()]);
    assert!(!m.needs_file("builtins"));
    assert!(m.needs_file("math"));
    let b = m.get_module("builtins").unwrap();
    assert_eq!(*b.get_item(&PythonValue::String("print".to_string())).unwrap(), PythonValue::Function("print".to_string()));
}

#[test]
fn module_loading_follows_what_the_host_found() {
    let mut m = ModuleManager::new();
    let mut vm = VM::new();
    let missing = m.load_module("math", &mut vm, ModuleFile::NotFound);
    assert_eq!(missing, Err(PythonError::ImportError("No module named 'math'".to_string())));
    let failed = m.load_module("math", &mut vm, ModuleFile::OpenFailed("denied".to_string()));
    assert_eq!(failed, Err(PythonError::IOError("Failed to open module file: denied".to_string())));
    let unread = m.load_module("math", &mut vm, ModuleFile::ReadFailed("bad".to_string()));
    assert_eq!(unread, Err(PythonError::IOError("Failed to read module file: bad".to_string())));
    let first = m.load_module("math", &mut vm, ModuleFile::Loaded("x = 1".to_string())).unwrap();
    assert_eq!(first.len(), 0);
    let again = m.import_module("math", &mut vm, ModuleFile::NotFound).unwrap();
    assert!(Arc::ptr_eq(&first, &again));
    assert_eq!(m.list_modules(), vec!["builtins".to_string(), "math".to_string()]);
    assert_eq!(
        m.import_module(".rel", &mut vm, ModuleFile::NotFound),
        Err(PythonError::ImportError("Relative imports not implemented yet".to_string()))
    );
    m.add_search_path("lib");
    assert_eq!(m.search_paths(), &vec![".".to_string(), "lib".to_string()]);
}

#[test]
fn module_objects_hold_attributes() {
    let mut m = Module::new("m");
    assert_eq!(m.name(), "m");
    assert!(m.get_attribute("a").is_none());
    m.set_attribute("a", Arc::new(PythonValue::Integer(1)));
    m.set_attribute("b", Arc::new(PythonValue::Integer(2)));
    m.set_attribute("a", Arc::new(PythonValue::Integer(3)));
    assert_eq!(*m.get_attribute("a").unwrap(), PythonValue::Integer(3));
    assert_eq!(m.to_python_value().to_string(), "{\"a\": Integer(3), \"b\": Integer(2)}");
}

#[test]
fn runtime_globals_classes_and_functions() {
    let mut py = Python::new().unwrap();
    assert_eq!(*py.get_global("x").unwrap(), PythonValue::NoneValue);
    py.set_global("x", Arc::new(PythonValue::Integer(5))).unwrap();
    assert_eq!(*py.get_global("x").unwrap(), PythonValue::Integer(5));
    py.define_function("f").unwrap();
    assert_eq!(*py.get_global("f").unwrap(), PythonValue::Function("f".to_string()));
    assert_eq!(
        py.define_method("C", "m"),
        Err(PythonError::NameError("Class not found: C".to_string()))
    );
    py.define_class("C").unwrap();
    assert!(py.define_method("C", "m").is_ok());
    assert_eq!(py.list_modules(), vec!["builtins".to_string()]);
    assert!(py.needs_file("json"));
    assert!(py.import_module("json", ModuleFile::NotFound).is_err());
    py.import_module("json", ModuleFile::Loaded(String::new())).unwrap();
    assert!(py.get_module("json").is_some());
    py.add_module_search_path("site");
    assert_eq!(py.search_paths().len(), 2);
}

#[test]
fn runtime_runs_a_program() {
    let mut py = Python::new().unwrap();
    let program = PythonRoot {
        program: Program {
            statements: vec![Statement::Assignment { target: Expression::Name("x".to_string()), value: lit(1) }],
        },
    };
    assert_eq!(py.run_program(&program), Ok(()));
}

#[test]
fn host_values_convert() {
    assert_eq!(*7i64.to_python_value(), PythonValue::Integer(7));
    assert_eq!(*true.to_python_value(), PythonValue::Boolean(true));
    assert_eq!(*"s".to_string().to_python_value(), PythonValue::String("s".to_string()));
    assert_eq!(*"t".to_python_value(), PythonValue::String("t".to_string()));
    assert_eq!(
        *vec![1i64, 2i64].to_python_value(),
        PythonValue::List(vec![Arc::new(PythonValue::Integer(1)), Arc::new(PythonValue::Integer(2))])
    );
}

#[test]
fn jit_marks_functions_hot_at_the_threshold() {
    let mut jit = JIT::new().unwrap();
    for _ in 0..999 {
        assert!(!jit.is_hot("f"));
    }
    assert!(jit.is_hot("f"));
    assert!(jit.is_hot("f"));
    assert!(!jit.is_hot("g"));
}

#[test]
fn ffi_registry_resolves_what_was_registered() {
    let mut ffi = FFI::new();
    assert_eq!(ffi.call_function("f"), Err(PythonError::NameError("Function not found: f".to_string())));
    ffi.register_function("f", 7);
    assert_eq!(ffi.call_function("f"), Ok(7));
    ffi.register_function("f", 8);
    assert_eq!(ffi.call_function("f"), Ok(8));
    assert_eq!(
        ffi.call_c_function("c", vec![]),
        Err(PythonError::NameError("C function not found: c".to_string()))
    );
    ffi.register_c_function("c", 0x1000);
    assert_eq!(*ffi.call_c_function("c", vec![]).unwrap(), PythonValue::Integer(42));
}

#[test]
fn tables_keep_insertion_order() {
    let mut t: Table<i64> = Table::new();
    t.insert("b".to_string(), 1);
    t.insert("a".to_string(), 2);
    t.insert("b".to_string(), 3);
    assert_eq!(t.len(), 2);
    assert_eq!(t.keys(), vec!["b".to_string(), "a".to_string()]);
    assert_eq!(t.get("b"), Some(&3));
    assert_eq!(t.get("c"), None);
    assert!(t.contains_key("a"));
}

#[test]
fn services_start_and_answer() {
    let mut server = PythonLanguageServer::new();
    server.initialize();
    server.shutdown();
    let mut wasi = WasiPythonRuntime::new();
    assert_eq!(wasi.initialize(), Ok(()));
    assert_eq!(wasi.execute("print(1)"), Ok(PythonValue::NoneValue));
}

#[test]
fn python_reads_options_until_a_decision() {
    let c = python_command(&args(&["-b", "-q", "script.py", "--version"]));
    assert_eq!(c.warnings, args(&["-b", "-q"]));
    assert_eq!(c.action, ToolAction::RunScript("script.py".to_string()));
    let c = python_command(&args(&["-x", "-V"]));
    assert_eq!(c.warnings, args(&["-x"]));
    assert_eq!(c.action, ToolAction::Version);
    assert_eq!(python_command(&args(&["-h"])).action, ToolAction::Help);
    let c = python_command(&args(&["-x"]));
    assert_eq!(c.warnings, args(&["-x"]));
    assert_eq!(c.action, ToolAction::Help);
    assert_eq!(python_command(&args(&[])).action, ToolAction::Help);
}

#[test]
fn tools_read_their_first_argument() {
    assert_eq!(pip_command(&args(&[])), ToolAction::Help);
    assert_eq!(pip_command(&args(&["-V"])), ToolAction::Version);
    assert_eq!(pip_command(&args(&["install", "-h"])), ToolAction::Unsupported("install".to_string()));
    assert_eq!(pytest_command(&args(&["--help"])), ToolAction::Help);
    assert_eq!(idle_command(&args(&[])), ToolAction::Start);
    assert_eq!(idle_command(&args(&["--version"])), ToolAction::Version);
    assert_eq!(config_command(&args(&["--libs"])), ToolAction::Config(ConfigQuery::Libs));
    assert_eq!(config_command(&args(&["-V"])), ToolAction::Unsupported("-V".to_string()));
    assert_eq!(config_command(&args(&["--version"])), ToolAction::Version);
    assert_eq!(config_command(&args(&[])), ToolAction::Help);
}
