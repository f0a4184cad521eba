//! Tests for the intermediate representation.

use rusty_python::ast::{BinaryOperator, Expression, Literal, Parameter, Program, PythonRoot, Statement};
use rusty_python::ir::{ast_to_ir, optimize_ir, Function, Instruction, Module};
use rusty_python::PythonValue;

fn lit(i: i64) -> Expression {
    Expression::Literal(Literal::Integer(i))
}

fn name(n: &str) -> Expression {
    Expression::Name(n.to_string())
}

/// `x = 1 + 2` then `print(x)`, as the parser builds it.
fn sample_program() -> PythonRoot {
    PythonRoot {
        program: Program {
            statements: vec![
                Statement::Assignment {
                    target: name("x"),
                    value: Expression::BinaryOp {
                        left: Box::new(lit(1)),
                        operator: BinaryOperator::Add,
                        right: Box::new(lit(2)),
                    },
                },
                Statement::Expression(Expression::Call {
                    func: Box::new(name("print")),
                    args: vec![name("x")],
                    keywords: vec![],
                }),
            ],
        },
    }
}

#[test]
fn test_ast_to_ir() {
    let python_ast = sample_program();

    let ir = ast_to_ir(&python_ast).unwrap();

    assert_eq!(ir.name, "__main__");
    assert!(!ir.functions.is_empty());

    let main_function = &ir.functions[0];
    assert_eq!(main_function.name, "__main__");
    assert!(!main_function.instructions.is_empty());
}

#[test]
fn test_optimize_ir() {
    let module = Module {
        name: "test".to_string(),
        functions: vec![Function {
            name: "test".to_string(),
            params: vec![],
            instructions: vec![
                Instruction::LoadConst(PythonValue::Integer(1)),
                Instruction::LoadConst(PythonValue::Integer(2)),
                Instruction::Add,
                Instruction::Return,
            ],
            locals: vec![],
        }],
        globals: vec![],
    };

    let optimized_module = optimize_ir(&module).unwrap();

    assert_eq!(optimized_module.name, module.name);
    assert_eq!(optimized_module.functions.len(), module.functions.len());
}

#[test]
fn module_code_becomes_main_instructions() {
    let ir = ast_to_ir(&sample_program()).unwrap();
    assert_eq!(ir.globals, vec!["x".to_string()]);
    assert_eq!(
        ir.functions[0].instructions,
        vec![
            Instruction::LoadConst(PythonValue::Integer(1)),
            Instruction::LoadConst(PythonValue::Integer(2)),
            Instruction::Add,
            Instruction::StoreGlobal("x".to_string()),
            Instruction::LoadGlobal("x".to_string()),
            Instruction::LoadGlobal("print".to_string()),
            Instruction::Call(1),
            Instruction::NoneOp,
            Instruction::Return,
        ]
    );
}

#[test]
fn a_def_replaces_main_and_stores_its_parameters_locally() {
    let program = PythonRoot {
        program: Program {
            statements: vec![Statement::FunctionDef {
                decorators: vec![],
                name: "f".to_string(),
                parameters: vec![Parameter {
                    name: "a".to_string(),
                    annotation: None,
                    default: None,
                    is_vararg: false,
                    is_kwarg: false,
                }],
                return_type: None,
                body: vec![Statement::Return(Some(name("a")))],
            }],
        },
    };
    let ir = ast_to_ir(&program).unwrap();
    assert_eq!(ir.functions.len(), 1);
    assert_eq!(ir.functions[0].name, "f");
    assert_eq!(ir.functions[0].params, vec!["a".to_string()]);
    assert_eq!(
        ir.functions[0].instructions,
        vec![Instruction::LoadGlobal("a".to_string()), Instruction::Return]
    );
}

#[test]
fn optimizing_keeps_every_instruction() {
    let module = ast_to_ir(&sample_program()).unwrap();
    let optimized = optimize_ir(&module).unwrap();
    assert_eq!(optimized.name, module.name);
    assert_eq!(optimized.globals, module.globals);
    assert_eq!(optimized.functions.len(), module.functions.len());
    for (a, b) in optimized.functions.iter().zip(module.functions.iter()) {
        assert_eq!(a.name, b.name);
        assert_eq!(a.params, b.params);
        assert_eq!(a.locals, b.locals);
        assert_eq!(a.instructions, b.instructions);
    }
}
