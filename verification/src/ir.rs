//! The register-style intermediate representation: modules of functions of
//! instructions, built from the syntax tree and passed through the optimizer.
use vstd::prelude::*;
use crate::value::{PythonValue, ValueModel};

verus! {

/// An IR instruction.
#[derive(Debug, PartialEq)]
pub enum Instruction {
    /// Load a constant.
    LoadConst(PythonValue),
    /// Load a local variable.
    LoadLocal(usize),
    /// Load a global variable.
    LoadGlobal(String),
    /// Load an attribute.
    LoadAttr(String),
    /// Load an index.
    LoadIndex(usize),
    /// Store a local variable.
    StoreLocal(usize),
    /// Store a global variable.
    StoreGlobal(String),
    /// Store an attribute.
    StoreAttr(String),
    /// Store an index.
    StoreIndex(usize),
    /// Addition.
    Add,
    /// Subtraction.
    Sub,
    /// Multiplication.
    Mul,
    /// Division.
    Div,
    /// Modulo.
    Mod,
    /// Exponentiation.
    Exp,
    /// Floor division.
    FloorDiv,
    /// Equal.
    Eq,
    /// Not equal.
    Neq,
    /// Less than.
    Lt,
    /// Less or equal.
    Lte,
    /// Greater than.
    Gt,
    /// Greater or equal.
    Gte,
    /// Logical and.
    And,
    /// Logical or.
    Or,
    /// Logical not.
    Not,
    /// Unconditional jump.
    Jump(i32),
    /// Jump if false.
    JumpIfFalse(i32),
    /// Jump if true.
    JumpIfTrue(i32),
    /// Jump if `None`.
    JumpIfNone(i32),
    /// Jump if not `None`.
    JumpIfNotNone(i32),
    /// Call with this many arguments.
    Call(usize),
    /// Return.
    Return,
    /// New list of this many items.
    NewList(usize),
    /// New dictionary of this many pairs.
    NewDict(usize),
    /// Load `None`.
    NoneOp,
    /// Load `True`.
    TrueOp,
    /// Load `False`.
    FalseOp,
    /// Raise.
    Raise,
    /// Begin a `try` block.
    TryBegin,
    /// End a `try` block.
    TryEnd,
    /// Exception handler.
    Except,
}

/// An IR function.
pub struct Function {
    /// Function name.
    pub name: String,
    /// Parameter names.
    pub params: Vec<String>,
    /// Instructions.
    pub instructions: Vec<Instruction>,
    /// Local variable names.
    pub locals: Vec<String>,
}

/// An IR module.
pub struct Module {
    /// Module name.
    pub name: String,
    /// Functions.
    pub functions: Vec<Function>,
    /// Global variable names.
    pub globals: Vec<String>,
}

/// Two instructions are the same: the same variant and operands, constants
/// compared by what they stand for.
pub open spec fn same_instruction(a: Instruction, b: Instruction) -> bool {
    match (a, b) {
        (Instruction::LoadConst(x), Instruction::LoadConst(y)) => x@ == y@,
        (Instruction::LoadConst(_), _) => false,
        _ => a == b,
    }
}

impl Clone for Instruction {
    fn clone(&self) -> (r: Self)
        ensures same_instruction(*self, r),
    {
        match self {
            Instruction::LoadConst(v) => Instruction::LoadConst(v.clone()),
            Instruction::LoadLocal(i) => Instruction::LoadLocal(*i),
            Instruction::LoadGlobal(s) => Instruction::LoadGlobal(s.clone()),
            Instruction::LoadAttr(s) => Instruction::LoadAttr(s.clone()),
            Instruction::LoadIndex(i) => Instruction::LoadIndex(*i),
            Instruction::StoreLocal(i) => Instruction::StoreLocal(*i),
            Instruction::StoreGlobal(s) => Instruction::StoreGlobal(s.clone()),
            Instruction::StoreAttr(s) => Instruction::StoreAttr(s.clone()),
            Instruction::StoreIndex(i) => Instruction::StoreIndex(*i),
            Instruction::Add => Instruction::Add,
            Instruction::Sub => Instruction::Sub,
            Instruction::Mul => Instruction::Mul,
            Instruction::Div => Instruction::Div,
            Instruction::Mod => Instruction::Mod,
            Instruction::Exp => Instruction::Exp,
            Instruction::FloorDiv => Instruction::FloorDiv,
            Instruction::Eq => Instruction::Eq,
            Instruction::Neq => Instruction::Neq,
            Instruction::Lt => Instruction::Lt,
            Instruction::Lte => Instruction::Lte,
            Instruction::Gt => Instruction::Gt,
            Instruction::Gte => Instruction::Gte,
            Instruction::And => Instruction::And,
            Instruction::Or => Instruction::Or,
            Instruction::Not => Instruction::Not,
            Instruction::Jump(t) => Instruction::Jump(*t),
            Instruction::JumpIfFalse(t) => Instruction::JumpIfFalse(*t),
            Instruction::JumpIfTrue(t) => Instruction::JumpIfTrue(*t),
            Instruction::JumpIfNone(t) => Instruction::JumpIfNone(*t),
            Instruction::JumpIfNotNone(t) => Instruction::JumpIfNotNone(*t),
            Instruction::Call(n) => Instruction::Call(*n),
            Instruction::Return => Instruction::Return,
            Instruction::NewList(n) => Instruction::NewList(*n),
            Instruction::NewDict(n) => Instruction::NewDict(*n),
            Instruction::NoneOp => Instruction::NoneOp,
            Instruction::TrueOp => Instruction::TrueOp,
            Instruction::FalseOp => Instruction::FalseOp,
            Instruction::Raise => Instruction::Raise,
            Instruction::TryBegin => Instruction::TryBegin,
            Instruction::TryEnd => Instruction::TryEnd,
            Instruction::Except => Instruction::Except,
        }
    }
}

} // verus!

verus! {

use crate::ast::{Statement as Stmt, Expression, Literal, BinaryOperator, PythonRoot, Parameter};

/// What a function holds: its name, parameter names, instructions and local
/// names.
pub struct FunctionModel {
    /// Name.
    pub name: Seq<char>,
    /// Parameter names.
    pub params: Seq<Seq<char>>,
    /// Instructions.
    pub code: Seq<Instruction>,
    /// Local variable names.
    pub locals: Seq<Seq<char>>,
}

/// What a module holds while it is built: its functions and global names.
pub struct BuildState {
    /// Functions, in order.
    pub functions: Seq<FunctionModel>,
    /// Global names, in order of first assignment.
    pub globals: Seq<Seq<char>>,
}

/// The first position of `x` in `s`.
pub open spec fn first_pos(s: Seq<Seq<char>>, x: Seq<char>, n: nat) -> Option<nat>
    decreases n,
{
    if n == 0 || n > s.len() {
        None
    } else {
        match first_pos(s, x, (n - 1) as nat) {
            Some(i) => Some(i),
            None => if s[n - 1] == x { Some((n - 1) as nat) } else { None },
        }
    }
}

/// The instructions for a literal.
pub open spec fn literal_ir(l: Literal) -> Seq<Instruction> {
    match l {
        Literal::Integer(i) => seq![Instruction::LoadConst(PythonValue::Integer(i))],
        Literal::Float(f) => seq![Instruction::LoadConst(PythonValue::Float(f))],
        Literal::String(s) => seq![Instruction::LoadConst(PythonValue::String(s))],
        Literal::Boolean(b) => seq![if b { Instruction::TrueOp } else { Instruction::FalseOp }],
        Literal::NoneValue => seq![Instruction::NoneOp],
        Literal::Bytes(_) => Seq::empty(),
    }
}

/// The instruction for a binary operator: the four arithmetic operators
/// have one; the others compile to nothing.
pub open spec fn operator_ir(op: BinaryOperator) -> Seq<Instruction> {
    match op {
        BinaryOperator::Add => seq![Instruction::Add],
        BinaryOperator::Sub => seq![Instruction::Sub],
        BinaryOperator::Mult => seq![Instruction::Mul],
        BinaryOperator::Div => seq![Instruction::Div],
        _ => Seq::empty(),
    }
}

/// The instructions for an expression: literals load constants, names load
/// globals, binary operations and calls load their operands first; other
/// expressions compile to nothing.
pub open spec fn expr_ir(e: Expression) -> Seq<Instruction>
    decreases e, 0nat,
{
    match e {
        Expression::Literal(l) => literal_ir(l),
        Expression::Name(n) => seq![Instruction::LoadGlobal(n)],
        Expression::BinaryOp { left, operator, right } => expr_ir(*left) + expr_ir(*right) + operator_ir(operator),
        Expression::Call { func, args, keywords: _ } =>
            (exprs_ir(args@, args@.len()) + expr_ir(*func)).push(Instruction::Call(args@.len() as usize)),
        _ => Seq::empty(),
    }
}

/// The instructions for the first `n` expressions.
pub open spec fn exprs_ir(es: Seq<Expression>, n: nat) -> Seq<Instruction>
    decreases es, n,
{
    if n == 0 || n > es.len() { Seq::empty() } else { exprs_ir(es, (n - 1) as nat) + expr_ir(es[n - 1]) }
}

/// Whether some instruction is a return.
pub open spec fn has_return(code: Seq<Instruction>) -> bool {
    exists|i: int| 0 <= i < code.len() && code[i] is Return
}

/// A function body's statement: assignments to names store locals (a new
/// name becomes a new local), expressions are evaluated, returns return.
pub open spec fn body_step(st: (Seq<Instruction>, Seq<Seq<char>>), s: Stmt) -> (Seq<Instruction>, Seq<Seq<char>>) {
    let (code, locals) = st;
    match s {
        Stmt::Assignment { target, value } => {
            let c1 = code + expr_ir(value);
            match target {
                Expression::Name(n) => {
                    let l1 = if first_pos(locals, n@, locals.len()) is Some { locals } else { locals.push(n@) };
                    (c1.push(Instruction::StoreLocal(first_pos(l1, n@, l1.len())->0 as usize)), l1)
                },
                _ => (c1, locals),
            }
        },
        Stmt::Expression(e) => (code + expr_ir(e), locals),
        Stmt::Return(v) => match v {
            Some(e) => ((code + expr_ir(e)).push(Instruction::Return), locals),
            None => (code + seq![Instruction::NoneOp, Instruction::Return], locals),
        },
        _ => (code, locals),
    }
}

/// A function body's first `n` statements.
pub open spec fn body_fold(ss: Seq<Stmt>, n: nat, init: (Seq<Instruction>, Seq<Seq<char>>)) -> (Seq<Instruction>, Seq<Seq<char>>)
    decreases n,
{
    if n == 0 || n > ss.len() { init } else { body_step(body_fold(ss, (n - 1) as nat, init), ss[n - 1]) }
}

/// Parameter names.
pub open spec fn param_names(ps: Seq<Parameter>) -> Seq<Seq<char>> {
    ps.map_values(|p: Parameter| p.name@)
}

/// `code` ending in a return: as it is if it returns anywhere, else with
/// `None` returned at its end.
pub open spec fn with_return(code: Seq<Instruction>) -> Seq<Instruction> {
    if has_return(code) { code } else { code + seq![Instruction::NoneOp, Instruction::Return] }
}

/// The function a `def` compiles to.
pub open spec fn function_ir(name: Seq<char>, ps: Seq<Parameter>, body: Seq<Stmt>) -> FunctionModel {
    let r = body_fold(body, body.len(), (Seq::empty(), param_names(ps)));
    FunctionModel { name, params: param_names(ps), code: with_return(r.0), locals: r.1 }
}

/// The last function with `code` in place of its instructions.
pub open spec fn set_last_code(fs: Seq<FunctionModel>, code: Seq<Instruction>) -> Seq<FunctionModel> {
    fs.update(fs.len() - 1, FunctionModel { code, ..fs.last() })
}

/// A module-level statement: a `def` replaces the initial `__main__`
/// function if that is still the only one, else is appended; other
/// statements compile into the last function, where an assignment stores a
/// local if the name is one of its locals, else a global.
pub open spec fn module_step(st: BuildState, s: Stmt) -> BuildState {
    let fs = st.functions;
    let last = fs.last();
    match s {
        Stmt::FunctionDef { decorators: _, name, parameters, return_type: _, body } => {
            let f = function_ir(name@, parameters@, body@);
            if fs.len() == 1 && fs[0].name == "__main__"@ {
                BuildState { functions: fs.update(0, f), ..st }
            } else {
                BuildState { functions: fs.push(f), ..st }
            }
        },
        Stmt::Assignment { target, value } => {
            let c1 = last.code + expr_ir(value);
            match target {
                Expression::Name(n) =>
                    match first_pos(last.locals, n@, last.locals.len()) {
                        Some(i) => BuildState { functions: set_last_code(fs, c1.push(Instruction::StoreLocal(i as usize))), ..st },
                        None => BuildState {
                            functions: set_last_code(fs, c1.push(Instruction::StoreGlobal(n))),
                            globals: if first_pos(st.globals, n@, st.globals.len()) is Some { st.globals } else { st.globals.push(n@) },
                        },
                    },
                _ => BuildState { functions: set_last_code(fs, c1), ..st },
            }
        },
        Stmt::Expression(e) => BuildState { functions: set_last_code(fs, last.code + expr_ir(e)), ..st },
        Stmt::Return(v) => match v {
            Some(e) => BuildState { functions: set_last_code(fs, (last.code + expr_ir(e)).push(Instruction::Return)), ..st },
            None => BuildState { functions: set_last_code(fs, last.code + seq![Instruction::NoneOp, Instruction::Return]), ..st },
        },
        _ => st,
    }
}

/// The module after the first `n` statements, starting from an empty
/// `__main__` function.
pub open spec fn module_fold(ss: Seq<Stmt>, n: nat) -> BuildState
    decreases n,
{
    if n == 0 || n > ss.len() {
        BuildState {
            functions: seq![FunctionModel { name: "__main__"@, params: Seq::empty(), code: Seq::empty(), locals: Seq::empty() }],
            globals: Seq::empty(),
        }
    } else {
        module_step(module_fold(ss, (n - 1) as nat), ss[n - 1])
    }
}

/// The module a program compiles to: all statements, then a return of
/// `None` at the end of the last function unless it returns somewhere.
pub open spec fn program_ir(ss: Seq<Stmt>) -> BuildState {
    let st = module_fold(ss, ss.len());
    BuildState { functions: set_last_code(st.functions, with_return(st.functions.last().code)), ..st }
}

/// What a function holds.
pub open spec fn function_model(f: Function) -> FunctionModel {
    FunctionModel {
        name: f.name@,
        params: f.params@.map_values(|s: String| s@),
        code: f.instructions@,
        locals: f.locals@.map_values(|s: String| s@),
    }
}

/// What a module holds.
pub open spec fn module_model(m: Module) -> BuildState {
    BuildState {
        functions: m.functions@.map_values(|f: Function| function_model(f)),
        globals: m.globals@.map_values(|s: String| s@),
    }
}

} // verus!

verus! {

use crate::value::{PythonResult, str_equal};

/// The views of a list of strings.
pub open spec fn names_of(v: Seq<String>) -> Seq<Seq<char>> {
    v.map_values(|s: String| s@)
}

proof fn lemma_first_pos(s: Seq<Seq<char>>, x: Seq<char>, n: nat)
    requires n <= s.len(),
    ensures
        match first_pos(s, x, n) {
            Some(i) => i < n && s[i as int] == x,
            None => forall|k: int| 0 <= k < n ==> s[k] != x,
        },
    decreases n,
{
    if n > 0 { lemma_first_pos(s, x, (n - 1) as nat); }
}

proof fn lemma_first_pos_extends(s: Seq<Seq<char>>, x: Seq<char>, n: nat, m: nat)
    requires n <= m <= s.len(), first_pos(s, x, n) is Some,
    ensures first_pos(s, x, m) == first_pos(s, x, n),
    decreases m,
{
    if m > n { lemma_first_pos_extends(s, x, n, (m - 1) as nat); }
}

proof fn lemma_first_pos_push(s: Seq<Seq<char>>, x: Seq<char>)
    requires first_pos(s, x, s.len()) is None,
    ensures first_pos(s.push(x), x, s.len() + 1) == Some(s.len() as nat),
{
    assert forall|k: nat| k <= s.len() implies first_pos(s.push(x), x, k) == first_pos(s, x, k) by {
        lemma_first_pos_prefix(s, x, x, k);
    }
}

proof fn lemma_first_pos_prefix(s: Seq<Seq<char>>, y: Seq<char>, x: Seq<char>, k: nat)
    requires k <= s.len(),
    ensures first_pos(s.push(y), x, k) == first_pos(s, x, k),
    decreases k,
{
    if k > 0 { lemma_first_pos_prefix(s, y, x, (k - 1) as nat); }
}

/// The position of the first name equal to `x`.
fn position(v: &Vec<String>, x: &str) -> (r: Option<usize>)
    ensures
        match first_pos(names_of(v@), x@, v@.len()) {
            Some(i) => r == Some(i as usize),
            None => r is None,
        },
{
    let ghost s = names_of(v@);
    let mut i: usize = 0;
    while i < v.len()
        invariant i <= v@.len(), s == names_of(v@), first_pos(s, x@, i as nat) is None,
        decreases v@.len() - i,
    {
        if str_equal(v[i].as_str(), x) {
            proof {
                assert(s[i as int] == x@);
                assert(first_pos(s, x@, (i + 1) as nat) == Some(i as nat));
                lemma_first_pos_extends(s, x@, (i + 1) as nat, s.len());
            }
            return Some(i);
        }
        i = i + 1;
    }
    None
}

/// Whether some instruction is a return.
fn ends_with_return_somewhere(code: &Vec<Instruction>) -> (r: bool)
    ensures r == has_return(code@),
{
    let mut i: usize = 0;
    while i < code.len()
        invariant i <= code@.len(), forall|k: int| 0 <= k < i ==> !(code@[k] is Return),
        decreases code@.len() - i,
    {
        match &code[i] {
            Instruction::Return => { return true; },
            _ => {},
        }
        i = i + 1;
    }
    false
}

/// Compiles an expression, appending its instructions.
fn process_expression(expr: &Expression, instructions: &mut Vec<Instruction>) -> (r: PythonResult<()>)
    ensures r is Ok, final(instructions)@ == old(instructions)@ + expr_ir(*expr),
    decreases expr,
{
    let ghost pre = instructions@;
    match expr {
        Expression::Literal(lit) => {
            match lit {
                Literal::Integer(i) => { instructions.push(Instruction::LoadConst(PythonValue::Integer(*i))); },
                Literal::Float(f) => { instructions.push(Instruction::LoadConst(PythonValue::Float(f.clone()))); },
                Literal::String(s) => { instructions.push(Instruction::LoadConst(PythonValue::String(s.clone()))); },
                Literal::Boolean(b) => {
                    if *b { instructions.push(Instruction::TrueOp); } else { instructions.push(Instruction::FalseOp); }
                },
                Literal::NoneValue => { instructions.push(Instruction::NoneOp); },
                Literal::Bytes(_) => {},
            }
        },
        Expression::Name(name) => {
            instructions.push(Instruction::LoadGlobal(name.clone()));
        },
        Expression::BinaryOp { left, operator, right } => {
            process_expression(left, instructions)?;
            process_expression(right, instructions)?;
            match operator {
                BinaryOperator::Add => instructions.push(Instruction::Add),
                BinaryOperator::Sub => instructions.push(Instruction::Sub),
                BinaryOperator::Mult => instructions.push(Instruction::Mul),
                BinaryOperator::Div => instructions.push(Instruction::Div),
                _ => {},
            }
        },
        Expression::Call { func, args, keywords: _ } => {
            let mut i: usize = 0;
            while i < args.len()
                invariant
                    i <= args@.len(),
                    instructions@ == pre + exprs_ir(args@, i as nat),
                    expr is Call,
                    *args == expr->Call_args,
                decreases args@.len() - i,
            {
                proof {
                    assert(decreases_to!(*expr => expr->Call_args));
                    assert(decreases_to!(expr->Call_args => args@));
                    assert(decreases_to!(args@ => args@[i as int]));
                }
                process_expression(&args[i], instructions)?;
                i = i + 1;
            }
            process_expression(func, instructions)?;
            instructions.push(Instruction::Call(args.len()));
        },
        _ => {},
    }
    assert(instructions@ =~= pre + expr_ir(*expr));
    Ok(())
}

/// Compiles a statement of a function body, appending its instructions and
/// any new local name.
fn process_statement(stmt: &Stmt, instructions: &mut Vec<Instruction>, locals: &mut Vec<String>) -> (r: PythonResult<()>)
    ensures
        r is Ok,
        (final(instructions)@, names_of(final(locals)@)) == body_step((old(instructions)@, names_of(old(locals)@)), *stmt),
{
    let ghost l0 = names_of(locals@);
    match stmt {
        Stmt::Assignment { target, value } => {
            process_expression(value, instructions)?;
            match target {
                Expression::Name(name) => {
                    if position(locals, name.as_str()).is_none() {
                        locals.push(name.clone());
                        proof {
                            assert(names_of(locals@) =~= l0.push(name@));
                            lemma_first_pos_push(l0, name@);
                        }
                    }
                    let index = position(locals, name.as_str()).unwrap();
                    instructions.push(Instruction::StoreLocal(index));
                },
                _ => {},
            }
        },
        Stmt::Expression(expr) => {
            process_expression(expr, instructions)?;
        },
        Stmt::Return(expr) => {
            match expr {
                Some(e) => { process_expression(e, instructions)?; },
                None => { instructions.push(Instruction::NoneOp); },
            }
            instructions.push(Instruction::Return);
        },
        _ => {},
    }
    Ok(())
}

} // verus!

verus! {

/// The models of functions.
pub open spec fn function_models(fs: Seq<Function>) -> Seq<FunctionModel> {
    fs.map_values(|f: Function| function_model(f))
}

/// The parameter names of a `def`, as strings.
fn parameter_names(ps: &Vec<Parameter>) -> (r: Vec<String>)
    ensures names_of(r@) == param_names(ps@),
{
    let mut r: Vec<String> = Vec::new();
    let mut i: usize = 0;
    while i < ps.len()
        invariant i <= ps@.len(), r@.len() == i, names_of(r@) == param_names(ps@).subrange(0, i as int),
        decreases ps@.len() - i,
    {
        let ghost before = r@;
        let nm = ps[i].name.clone();
        assert(nm@ == ps@[i as int].name@);
        r.push(nm);
        assert(r@[i as int]@ == ps@[i as int].name@);
        assert(names_of(r@)[i as int] == r@[i as int]@);
        assert(param_names(ps@)[i as int] == ps@[i as int].name@);
        assert forall|j: int| 0 <= j < i + 1 implies #[trigger] names_of(r@)[j] == param_names(ps@).subrange(0, (i + 1) as int)[j] by {
            if j < i {
                assert(names_of(before)[j] == param_names(ps@).subrange(0, i as int)[j]);
            }
        }
        assert(names_of(r@) =~= param_names(ps@).subrange(0, (i + 1) as int));
        i = i + 1;
    }
    assert(param_names(ps@).subrange(0, ps@.len() as int) =~= param_names(ps@));
    r
}

/// Appends a return of `None` unless the code returns somewhere.
fn finish_with_return(code: &mut Vec<Instruction>)
    ensures final(code)@ == with_return(old(code)@),
{
    if !ends_with_return_somewhere(code) {
        code.push(Instruction::NoneOp);
        code.push(Instruction::Return);
        assert(code@ =~= with_return(old(code)@));
    }
}

/// Compiles a `def`.
fn compile_function(name: &String, parameters: &Vec<Parameter>, body: &Vec<Stmt>) -> (f: Function)
    ensures function_model(f) == function_ir(name@, parameters@, body@),
{
    let params = parameter_names(parameters);
    let mut locals = parameter_names(parameters);
    let mut instructions: Vec<Instruction> = Vec::new();
    let ghost init = (Seq::<Instruction>::empty(), param_names(parameters@));
    let mut j: usize = 0;
    while j < body.len()
        invariant
            j <= body@.len(),
            (instructions@, names_of(locals@)) == body_fold(body@, j as nat, init),
        decreases body@.len() - j,
    {
        let _ = process_statement(&body[j], &mut instructions, &mut locals);
        j = j + 1;
    }
    finish_with_return(&mut instructions);
    Function { name: name.clone(), params, instructions, locals }
}

/// Builds the IR of a program: an initial `__main__` function receives the
/// module-level code; the first `def` replaces it, later ones are added; an
/// assignment stores a local of the current function if it has one by that
/// name, else a global (recorded once in the module's globals); the last
/// function returns `None` at its end unless it returns somewhere.
pub fn ast_to_ir(ast: &PythonRoot) -> (r: PythonResult<Module>)
    ensures
        r matches Ok(m) && m.name@ == "__main__"@ && module_model(m) == program_ir(ast.program.statements@),
{
    let ghost ss = ast.program.statements@;
    let mut functions: Vec<Function> = Vec::new();
    let mut globals: Vec<String> = Vec::new();
    functions.push(Function {
        name: String::from_str("__main__"),
        params: Vec::new(),
        instructions: Vec::new(),
        locals: Vec::new(),
    });
    proof {
        assert(functions@[0].params@.map_values(|s: String| s@) =~= Seq::<Seq<char>>::empty());
        assert(functions@[0].locals@.map_values(|s: String| s@) =~= Seq::<Seq<char>>::empty());
        assert(functions@[0].instructions@ =~= Seq::<Instruction>::empty());
        assert(function_models(functions@) =~= module_fold(ss, 0).functions);
        assert(names_of(globals@) =~= module_fold(ss, 0).globals);
    }
    let stmts = &ast.program.statements;
    let mut k: usize = 0;
    while k < stmts.len()
        invariant
            ss == stmts@,
            k <= ss.len(),
            functions@.len() > 0,
            function_models(functions@) == module_fold(ss, k as nat).functions,
            names_of(globals@) == module_fold(ss, k as nat).globals,
        decreases ss.len() - k,
    {
        let ghost st = module_fold(ss, k as nat);
        let ghost fs = function_models(functions@);
        match &stmts[k] {
            Stmt::FunctionDef { decorators: _, name, parameters, return_type: _, body } => {
                let function = compile_function(name, parameters, body);
                if functions.len() == 1 && str_equal(functions[0].name.as_str(), "__main__") {
                    functions.set(0, function);
                    assert(function_models(functions@) =~= fs.update(0, function_ir(name@, parameters@, body@)));
                } else {
                    functions.push(function);
                    assert(function_models(functions@) =~= fs.push(function_ir(name@, parameters@, body@)));
                }
            },
            Stmt::Assignment { target, value } => {
                let mut last = functions.pop().unwrap();
                let _ = process_expression(value, &mut last.instructions);
                match target {
                    Expression::Name(name) => {
                        match position(&last.locals, name.as_str()) {
                            Some(index) => {
                                last.instructions.push(Instruction::StoreLocal(index));
                            },
                            None => {
                                last.instructions.push(Instruction::StoreGlobal(name.clone()));
                                if position(&globals, name.as_str()).is_none() {
                                    globals.push(name.clone());
                                    assert(names_of(globals@) =~= st.globals.push(name@));
                                }
                            },
                        }
                    },
                    _ => {},
                }
                functions.push(last);
                assert(function_models(functions@) =~= module_step(st, stmts@[k as int]).functions);
            },
            Stmt::Expression(expr) => {
                let ghost fs0 = functions@;
                let mut last = functions.pop().unwrap();
                let ghost c0 = last.instructions@;
                let _ = process_expression(expr, &mut last.instructions);
                assert(function_model(last) == FunctionModel { code: c0 + expr_ir(*expr), ..fs.last() });
                functions.push(last);
                assert(stmts@[k as int] == Stmt::Expression(*expr));
                assert(module_step(st, stmts@[k as int]).functions == set_last_code(fs, fs.last().code + expr_ir(*expr)));
                assert(function_models(functions@) =~= set_last_code(fs, fs.last().code + expr_ir(*expr)));
                assert(function_models(functions@) =~= module_step(st, stmts@[k as int]).functions);
            },
            Stmt::Return(expr) => {
                let mut last = functions.pop().unwrap();
                let ghost c0 = last.instructions@;
                match expr {
                    Some(e) => { let _ = process_expression(e, &mut last.instructions); },
                    None => { last.instructions.push(Instruction::NoneOp); },
                }
                last.instructions.push(Instruction::Return);
                let ghost c1 = if expr is Some {
                    (c0 + expr_ir(expr->0)).push(Instruction::Return)
                } else {
                    c0 + seq![Instruction::NoneOp, Instruction::Return]
                };
                assert(last.instructions@ =~= c1);
                assert(function_model(last) == FunctionModel { code: c1, ..fs.last() });
                functions.push(last);
                assert(stmts@[k as int] == Stmt::Return(*expr));
                assert(module_step(st, stmts@[k as int]).functions == set_last_code(fs, c1));
                assert(function_models(functions@) =~= set_last_code(fs, c1));
            },
            _ => {},
        }
        k = k + 1;
    }
    let ghost fs = function_models(functions@);
    let mut last = functions.pop().unwrap();
    finish_with_return(&mut last.instructions);
    functions.push(last);
    assert(function_models(functions@) =~= set_last_code(fs, with_return(fs.last().code)));
    Ok(Module { name: String::from_str("__main__"), functions, globals })
}

} // verus!

verus! {

/// Two instruction sequences are the same one by one.
pub open spec fn same_code(a: Seq<Instruction>, b: Seq<Instruction>) -> bool {
    a.len() == b.len() && forall|i: int| 0 <= i < a.len() ==> #[trigger] same_instruction(a[i], b[i])
}

/// Two functions are the same: name, parameters and locals equal,
/// instructions the same one by one.
pub open spec fn same_function(a: Function, b: Function) -> bool {
    &&& a.name@ == b.name@
    &&& names_of(a.params@) == names_of(b.params@)
    &&& names_of(a.locals@) == names_of(b.locals@)
    &&& same_code(a.instructions@, b.instructions@)
}

/// Two modules are the same: name and globals equal, functions the same one
/// by one.
pub open spec fn same_module(a: Module, b: Module) -> bool {
    &&& a.name@ == b.name@
    &&& names_of(a.globals@) == names_of(b.globals@)
    &&& a.functions@.len() == b.functions@.len()
    &&& forall|i: int| 0 <= i < a.functions@.len() ==> #[trigger] same_function(a.functions@[i], b.functions@[i])
}

/// A copy of a list of names.
fn copy_names(v: &Vec<String>) -> (r: Vec<String>)
    ensures r@ == v@,
{
    let mut r: Vec<String> = Vec::new();
    let mut i: usize = 0;
    while i < v.len()
        invariant i <= v@.len(), r@ == v@.subrange(0, i as int),
        decreases v@.len() - i,
    {
        r.push(v[i].clone());
        i = i + 1;
    }
    assert(v@.subrange(0, v@.len() as int) == v@);
    r
}

/// The optimized instructions; no optimization is implemented, so they are
/// the same instructions.
fn optimize_instructions(instructions: &Vec<Instruction>) -> (r: Vec<Instruction>)
    ensures same_code(instructions@, r@),
{
    let mut optimized: Vec<Instruction> = Vec::new();
    let mut i: usize = 0;
    while i < instructions.len()
        invariant
            i <= instructions@.len(),
            optimized@.len() == i,
            forall|k: int| 0 <= k < i ==> #[trigger] same_instruction(instructions@[k], optimized@[k]),
        decreases instructions@.len() - i,
    {
        optimized.push(instructions[i].clone());
        i = i + 1;
    }
    optimized
}

/// Optimizes a module; no optimization is implemented, so the result is
/// the same module.
pub fn optimize_ir(ir: &Module) -> (r: PythonResult<Module>)
    ensures r matches Ok(m) && same_module(*ir, m),
{
    let mut functions: Vec<Function> = Vec::new();
    let mut i: usize = 0;
    while i < ir.functions.len()
        invariant
            i <= ir.functions@.len(),
            functions@.len() == i,
            forall|k: int| 0 <= k < i ==> #[trigger] same_function(ir.functions@[k], functions@[k]),
        decreases ir.functions@.len() - i,
    {
        let func = &ir.functions[i];
        let optimized_func = Function {
            name: func.name.clone(),
            params: copy_names(&func.params),
            instructions: optimize_instructions(&func.instructions),
            locals: copy_names(&func.locals),
        };
        functions.push(optimized_func);
        i = i + 1;
    }
    Ok(Module { name: ir.name.clone(), functions, globals: copy_names(&ir.globals) })
}

} // verus!

verus! {

proof fn lemma_return_kept(a: Seq<Instruction>, b: Seq<Instruction>)
    requires has_return(a),
    ensures has_return(a + b),
{
    let i = choose|i: int| 0 <= i < a.len() && a[i] is Return;
    assert((a + b)[i] == a[i]);
}

proof fn lemma_with_return(code: Seq<Instruction>)
    ensures has_return(with_return(code)),
{
    if !has_return(code) {
        let c = code + seq![Instruction::NoneOp, Instruction::Return];
        assert(c[code.len() + 1int] is Return);
    }
}

/// Every function built so far returns, except the initial `__main__`
/// while it is still the only function.
pub open spec fn functions_return(st: BuildState) -> bool {
    &&& st.functions.len() >= 1
    &&& forall|i: int| 0 <= i < st.functions.len() ==>
        has_return(#[trigger] st.functions[i].code)
            || (i == 0 && st.functions.len() == 1 && st.functions[0].name == "__main__"@)
}

proof fn lemma_module_fold_returns(ss: Seq<Stmt>, n: nat)
    ensures functions_return(module_fold(ss, n)),
    decreases n,
{
    if n > 0 && n <= ss.len() {
        lemma_module_fold_returns(ss, (n - 1) as nat);
        let st = module_fold(ss, (n - 1) as nat);
        let fs = st.functions;
        let last = fs.last();
        let r = module_step(st, ss[n - 1]);
        match ss[n - 1] {
            Stmt::FunctionDef { decorators: _, name, parameters, return_type: _, body } => {
                let f = function_ir(name@, parameters@, body@);
                lemma_with_return(body_fold(body@, body@.len(), (Seq::empty(), param_names(parameters@))).0);
                assert(has_return(f.code));
                if fs.len() == 1 && fs[0].name == "__main__"@ {
                    assert(r.functions == fs.update(0, f));
                } else {
                    assert(r.functions == fs.push(f));
                    assert forall|i: int| 0 <= i < r.functions.len() implies
                        has_return(#[trigger] r.functions[i].code)
                            || (i == 0 && r.functions.len() == 1 && r.functions[0].name == "__main__"@) by {
                        if i < fs.len() {
                            assert(r.functions[i] == fs[i]);
                            assert(has_return(fs[i].code) || (i == 0 && fs.len() == 1 && fs[0].name == "__main__"@));
                        }
                    }
                }
            },
            _ => {
                let c = r.functions.last().code;
                assert(r.functions.len() == fs.len());
                assert forall|i: int| 0 <= i < r.functions.len() implies
                    has_return(#[trigger] r.functions[i].code)
                        || (i == 0 && r.functions.len() == 1 && r.functions[0].name == "__main__"@) by {
                    if i < fs.len() - 1 {
                        assert(r.functions[i] == fs[i]);
                    } else {
                        assert(r.functions[i].name == fs[i].name);
                        if has_return(fs[i].code) {
                            assert(c =~= fs[i].code + c.subrange(fs[i].code.len() as int, c.len() as int));
                            lemma_return_kept(fs[i].code, c.subrange(fs[i].code.len() as int, c.len() as int));
                        }
                    }
                }
            },
        }
    }
}

/// Every function the IR builder produces returns: each holds a return
/// instruction, the last one at worst the `None` return added at its end.
pub proof fn law_every_function_returns(ss: Seq<Stmt>)
    ensures
        forall|i: int| 0 <= i < program_ir(ss).functions.len() ==> has_return(#[trigger] program_ir(ss).functions[i].code),
{
    lemma_module_fold_returns(ss, ss.len());
    let st = module_fold(ss, ss.len());
    let fs = st.functions;
    lemma_with_return(fs.last().code);
    let p = program_ir(ss);
    assert forall|i: int| 0 <= i < p.functions.len() implies has_return(#[trigger] p.functions[i].code) by {
        if i < fs.len() - 1 {
            assert(p.functions[i] == fs[i]);
        }
    }
}

} // verus!

verus! {

/// What the IR builder appends for an expression: literals load constants,
/// names load globals, a binary operation loads its operands then operates,
/// a call loads its arguments, then the function, then calls.
pub proof fn law_expression_ir(e: Expression)
    ensures
        e matches Expression::Literal(l) ==> expr_ir(e) == literal_ir(l),
        e matches Expression::Name(n) ==> expr_ir(e) == seq![Instruction::LoadGlobal(n)],
        e matches Expression::BinaryOp { left, operator, right } ==>
            expr_ir(e) == expr_ir(*left) + expr_ir(*right) + operator_ir(operator),
        e matches Expression::Call { func, args, keywords: _ } ==>
            expr_ir(e) == (exprs_ir(args@, args@.len()) + expr_ir(*func)).push(Instruction::Call(args@.len() as usize)),
        operator_ir(BinaryOperator::Add) == seq![Instruction::Add],
        operator_ir(BinaryOperator::Sub) == seq![Instruction::Sub],
        operator_ir(BinaryOperator::Mult) == seq![Instruction::Mul],
        operator_ir(BinaryOperator::Div) == seq![Instruction::Div],
        forall|i: i64| #[trigger] literal_ir(Literal::Integer(i)) == seq![Instruction::LoadConst(PythonValue::Integer(i))],
        forall|b: bool| #[trigger] literal_ir(Literal::Boolean(b)) == seq![if b { Instruction::TrueOp } else { Instruction::FalseOp }],
        literal_ir(Literal::NoneValue) == seq![Instruction::NoneOp],
        forall|es: Seq<Expression>, k: nat| 0 < k <= es.len() ==>
            #[trigger] exprs_ir(es, k) == exprs_ir(es, (k - 1) as nat) + expr_ir(es[k - 1]),
{
}

} // verus!

verus! {

/// A body that evaluates each expression of `es` in turn, as statements.
pub open spec fn expression_statements(es: Seq<Expression>) -> Seq<Stmt> {
    es.map_values(|e: Expression| Stmt::Expression(e))
}

/// No instruction of `code` is a return.
pub open spec fn no_return(code: Seq<Instruction>) -> bool {
    forall|i: int| 0 <= i < code.len() ==> !(#[trigger] code[i] is Return)
}

proof fn lemma_no_return_concat(a: Seq<Instruction>, b: Seq<Instruction>)
    requires no_return(a), no_return(b),
    ensures no_return(a + b),
{
    assert forall|i: int| 0 <= i < (a + b).len() implies !(#[trigger] (a + b)[i] is Return) by {
        if i < a.len() { assert((a + b)[i] == a[i]); } else { assert((a + b)[i] == b[i - a.len()]); }
    }
}

proof fn lemma_expr_ir_no_return(e: Expression)
    ensures no_return(expr_ir(e)),
    decreases e, 0nat,
{
    match e {
        Expression::BinaryOp { left, operator, right } => {
            lemma_expr_ir_no_return(*left);
            lemma_expr_ir_no_return(*right);
            lemma_no_return_concat(expr_ir(*left), expr_ir(*right));
            lemma_no_return_concat(expr_ir(*left) + expr_ir(*right), operator_ir(operator));
        },
        Expression::Call { func, args, keywords: _ } => {
            lemma_exprs_ir_no_return(args@, args@.len());
            lemma_expr_ir_no_return(*func);
            lemma_no_return_concat(exprs_ir(args@, args@.len()), expr_ir(*func));
            let c = exprs_ir(args@, args@.len()) + expr_ir(*func);
            assert forall|i: int| 0 <= i < c.push(Instruction::Call(args@.len() as usize)).len()
                implies !(#[trigger] c.push(Instruction::Call(args@.len() as usize))[i] is Return) by {
                if i < c.len() { assert(c.push(Instruction::Call(args@.len() as usize))[i] == c[i]); }
            }
        },
        _ => {},
    }
}

proof fn lemma_exprs_ir_no_return(es: Seq<Expression>, n: nat)
    ensures no_return(exprs_ir(es, n)),
    decreases es, n,
{
    if n > 0 && n <= es.len() {
        lemma_exprs_ir_no_return(es, (n - 1) as nat);
        lemma_expr_ir_no_return(es[n - 1]);
        lemma_no_return_concat(exprs_ir(es, (n - 1) as nat), expr_ir(es[n - 1]));
    }
}

proof fn lemma_body_of_expressions(es: Seq<Expression>, k: nat, ls: Seq<Seq<char>>)
    requires k <= es.len(),
    ensures body_fold(expression_statements(es), k, (Seq::empty(), ls)) == (exprs_ir(es, k), ls),
    decreases k,
{
    if k > 0 {
        lemma_body_of_expressions(es, (k - 1) as nat, ls);
        assert(expression_statements(es)[k - 1] == Stmt::Expression(es[k - 1]));
        assert(Seq::<Instruction>::empty() + expr_ir(es[0]) == expr_ir(es[0]));
    } else {
        assert(exprs_ir(es, 0) == Seq::<Instruction>::empty());
    }
}

/// An expression statement in a function body contributes exactly the IR
/// of its expression, in order and without dropping any: a statement
/// appends its expression's IR to the code so far, and a `def` whose body
/// evaluates `e1, ..., en` compiles to the IR of `e1` through `en` followed
/// by a return of `None`, keeping its parameters as its locals.
pub proof fn law_expression_statements_compile_in_order(
    st: (Seq<Instruction>, Seq<Seq<char>>),
    e: Expression,
    name: Seq<char>,
    ps: Seq<Parameter>,
    es: Seq<Expression>,
)
    ensures
        body_step(st, Stmt::Expression(e)) == (st.0 + expr_ir(e), st.1),
        function_ir(name, ps, expression_statements(es)).code
            == exprs_ir(es, es.len()) + seq![Instruction::NoneOp, Instruction::Return],
        function_ir(name, ps, expression_statements(es)).locals == param_names(ps),
{
    let ss = expression_statements(es);
    assert(ss.len() == es.len());
    lemma_body_of_expressions(es, es.len(), param_names(ps));
    lemma_exprs_ir_no_return(es, es.len());
    let c = exprs_ir(es, es.len());
    assert(!has_return(c)) by {
        if has_return(c) {
            let i = choose|i: int| 0 <= i < c.len() && c[i] is Return;
            assert(!(c[i] is Return));
        }
    }
}

/// The program `def f(...): e1; ...; en` lowers to one function whose code is
/// the IR of `e1` through `en` followed by a return of `None`.
pub proof fn law_single_def_program(d: Stmt, es: Seq<Expression>)
    requires
        d is FunctionDef,
        d->FunctionDef_body@ == expression_statements(es),
    ensures
        program_ir(seq![d]).functions.len() == 1,
        program_ir(seq![d]).functions[0].code == exprs_ir(es, es.len()) + seq![Instruction::NoneOp, Instruction::Return],
        program_ir(seq![d]).functions[0].name == d->FunctionDef_name@,
{
    let name = d->FunctionDef_name@;
    let ps = d->FunctionDef_parameters@;
    law_expression_statements_compile_in_order((Seq::empty(), Seq::empty()), Expression::Name(d->FunctionDef_name),
        name, ps, es);
    let f = function_ir(name, ps, d->FunctionDef_body@);
    let ss = seq![d];
    assert(ss[0] == d);
    let st0 = module_fold(ss, 0);
    assert(module_fold(ss, 1) == module_step(st0, d));
    assert(module_fold(ss, 1).functions =~= seq![f]);
    lemma_with_return(body_fold(d->FunctionDef_body@, d->FunctionDef_body@.len(), (Seq::empty(), param_names(ps))).0);
    assert(has_return(f.code));
    assert(with_return(f.code) == f.code);
}

} // verus!
