//! The bytecode generator: statements and expressions of the syntax tree to
//! instructions of the stack machine.
use vstd::prelude::*;
use crate::ast::{Statement, Expression, Literal, BinaryOperator, UnaryOperator, Keyword};
use crate::bytecode::{Instruction, BytecodeFunction};
use crate::inline_vec::{CodeBuffer, code_items, code_new, code_len, code_push, code_set, code_clone, BUFFER_LIMIT};
use crate::value::PythonResult;

verus! {

/// The instructions for a literal.
pub open spec fn literal_code(l: Literal) -> Seq<Instruction> {
    match l {
        Literal::Integer(i) => seq![Instruction::PushInteger(i)],
        Literal::Float(f) => seq![Instruction::PushFloat(f)],
        Literal::String(s) => seq![Instruction::PushString(s)],
        Literal::Bytes(_) => Seq::empty(),
        Literal::Boolean(b) => seq![if b { Instruction::PushTrue } else { Instruction::PushFalse }],
        Literal::NoneValue => seq![Instruction::PushNull],
    }
}

/// The instruction for a binary operator.
pub open spec fn binary_instruction(op: BinaryOperator) -> Instruction {
    match op {
        BinaryOperator::Add => Instruction::Add,
        BinaryOperator::Sub => Instruction::Subtract,
        BinaryOperator::Mult => Instruction::Multiply,
        BinaryOperator::Div => Instruction::Divide,
        BinaryOperator::FloorDiv => Instruction::FloorDivide,
        BinaryOperator::Mod => Instruction::Modulo,
        BinaryOperator::Pow => Instruction::Power,
        BinaryOperator::LShift => Instruction::LeftShift,
        BinaryOperator::RShift => Instruction::RightShift,
        BinaryOperator::BitAnd => Instruction::BitwiseAnd,
        BinaryOperator::BitOr => Instruction::BitwiseOr,
        BinaryOperator::BitXor => Instruction::BitwiseXor,
    }
}

/// The instruction for a unary operator (unary minus is compiled as a
/// subtraction; unary plus has none).
pub open spec fn unary_instruction(op: UnaryOperator) -> Instruction {
    match op {
        UnaryOperator::USub => Instruction::Subtract,
        UnaryOperator::Not => Instruction::Not,
        _ => Instruction::BitwiseNot,
    }
}

/// How many key/value pairs a dictionary display compiles, plus one; zero
/// for other expressions. It orders the recursion over dictionary pairs
/// after the expression itself.
pub open spec fn expr_rank(e: Expression) -> nat {
    match e {
        Expression::Dict { keys, values } => dict_pairs_len(keys@, values@) + 1,
        _ => 0,
    }
}

/// Expressions the generator handles (the others, and unary plus, are not
/// implemented and stop the program).
pub open spec fn expr_ok(e: Expression) -> bool
    decreases e, expr_rank(e),
{
    match e {
        Expression::Attribute { value, attr: _ } => expr_ok(*value),
        Expression::Subscript { value, slice } => expr_ok(*value) && expr_ok(*slice),
        Expression::Call { func, args, keywords } =>
            exprs_ok(args@, args@.len()) && keywords_ok(keywords@, keywords@.len()) && expr_ok(*func)
                && args@.len() + keywords@.len() <= usize::MAX,
        Expression::BinaryOp { left, operator: _, right } => expr_ok(*left) && expr_ok(*right),
        Expression::UnaryOp { operator, operand } => !(operator is UAdd) && expr_ok(*operand),
        Expression::Tuple { elts } => exprs_ok(elts@, elts@.len()),
        Expression::List { elts } => exprs_ok(elts@, elts@.len()),
        Expression::Dict { keys, values } => dict_ok(e, dict_pairs_len(keys@, values@)),
        Expression::SetDisplay { elts } => exprs_ok(elts@, elts@.len()),
        Expression::Starred { value, is_double: _ } => expr_ok(*value),
        Expression::Await(value) => expr_ok(*value),
        Expression::Yield(value) => match value { Some(v) => expr_ok(*v), None => true },
        Expression::YieldFrom(value) => expr_ok(*value),
        Expression::Slice { .. } | Expression::IfExp { .. } | Expression::JoinedStr { .. }
        | Expression::FormattedValue { .. } => false,
        _ => true,
    }
}

/// The first `n` expressions are handled.
pub open spec fn exprs_ok(es: Seq<Expression>, n: nat) -> bool
    decreases es, n,
{
    if n == 0 || n > es.len() { true } else { exprs_ok(es, (n - 1) as nat) && expr_ok(es[n - 1]) }
}

/// The values of the first `n` keyword arguments are handled.
pub open spec fn keywords_ok(ks: Seq<Keyword>, n: nat) -> bool
    decreases ks, n,
{
    if n == 0 || n > ks.len() { true } else { keywords_ok(ks, (n - 1) as nat) && expr_ok(ks[n - 1].value) }
}

/// Number of key/value pairs a dictionary display compiles: the shorter of
/// its two lists.
pub open spec fn dict_pairs_len(keys: Seq<Option<Expression>>, values: Seq<Expression>) -> nat {
    if keys.len() < values.len() { keys.len() } else { values.len() }
}

/// The first `n` key/value pairs of a dictionary display are handled.
pub open spec fn dict_ok(e: Expression, n: nat) -> bool
    decreases e, n,
{
    match e {
        Expression::Dict { keys, values } =>
            if n == 0 || n > keys@.len() || n > values@.len() {
                true
            } else {
                dict_ok(e, (n - 1) as nat)
                    && (match keys@[n - 1] { Some(k) => expr_ok(k), None => true })
                    && expr_ok(values@[n - 1])
            },
        _ => true,
    }
}

/// The instructions for an expression: operands first, then the operation.
pub open spec fn expr_code(e: Expression) -> Seq<Instruction>
    decreases e, expr_rank(e),
{
    match e {
        Expression::Literal(l) => literal_code(l),
        Expression::Name(n) => seq![Instruction::PushName(n)],
        Expression::Attribute { value, attr } => expr_code(*value).push(Instruction::GetAttribute(attr)),
        Expression::Subscript { value, slice } => (expr_code(*value) + expr_code(*slice)).push(Instruction::GetItem),
        Expression::Call { func, args, keywords } =>
            (exprs_code(args@, args@.len()) + keywords_code(keywords@, keywords@.len()) + expr_code(*func))
                .push(Instruction::Call((args@.len() + keywords@.len()) as usize)),
        Expression::BinaryOp { left, operator, right } =>
            (expr_code(*left) + expr_code(*right)).push(binary_instruction(operator)),
        Expression::UnaryOp { operator, operand } => expr_code(*operand).push(unary_instruction(operator)),
        Expression::Tuple { elts } => exprs_code(elts@, elts@.len()).push(Instruction::BuildTuple(elts@.len() as usize)),
        Expression::List { elts } => exprs_code(elts@, elts@.len()).push(Instruction::BuildList(elts@.len() as usize)),
        Expression::Dict { keys, values } =>
            dict_code(e, dict_pairs_len(keys@, values@)).push(Instruction::BuildDict(values@.len() as usize)),
        Expression::SetDisplay { elts } => exprs_code(elts@, elts@.len()).push(Instruction::BuildSet(elts@.len() as usize)),
        Expression::Starred { value, is_double: _ } => expr_code(*value),
        Expression::Await(value) => expr_code(*value),
        Expression::Yield(value) => match value {
            Some(v) => expr_code(*v).push(Instruction::Yield),
            None => seq![Instruction::PushNull, Instruction::Yield],
        },
        Expression::YieldFrom(value) => expr_code(*value).push(Instruction::YieldFrom),
        _ => Seq::empty(),
    }
}

/// The instructions for the first `n` expressions, in order.
pub open spec fn exprs_code(es: Seq<Expression>, n: nat) -> Seq<Instruction>
    decreases es, n,
{
    if n == 0 || n > es.len() { Seq::empty() } else { exprs_code(es, (n - 1) as nat) + expr_code(es[n - 1]) }
}

/// The instructions for the values of the first `n` keyword arguments.
pub open spec fn keywords_code(ks: Seq<Keyword>, n: nat) -> Seq<Instruction>
    decreases ks, n,
{
    if n == 0 || n > ks.len() { Seq::empty() } else { keywords_code(ks, (n - 1) as nat) + expr_code(ks[n - 1].value) }
}

/// The instructions for the first `n` key/value pairs of a dictionary
/// display: each present key, then its value.
pub open spec fn dict_code(e: Expression, n: nat) -> Seq<Instruction>
    decreases e, n,
{
    match e {
        Expression::Dict { keys, values } =>
            if n == 0 || n > keys@.len() || n > values@.len() {
                Seq::empty()
            } else {
                dict_code(e, (n - 1) as nat)
                    + (match keys@[n - 1] { Some(k) => expr_code(k), None => Seq::empty() })
                    + expr_code(values@[n - 1])
            },
        _ => Seq::empty(),
    }
}

/// Statements the generator handles.
pub open spec fn stmt_ok(s: Statement) -> bool
    decreases s, 0nat,
{
    match s {
        Statement::If { test, body, orelse } =>
            expr_ok(test) && stmts_ok(body@, body@.len()) && stmts_ok(orelse@, orelse@.len()),
        Statement::Return(value) => match value { Some(v) => expr_ok(v), None => true },
        Statement::Expression(e) => expr_ok(e),
        Statement::AsyncFunctionDef { .. } | Statement::AsyncFor { .. } | Statement::AsyncWith { .. }
        | Statement::Match { .. } => false,
        _ => true,
    }
}

/// The first `n` statements are handled.
pub open spec fn stmts_ok(ss: Seq<Statement>, n: nat) -> bool
    decreases ss, n,
{
    if n == 0 || n > ss.len() { true } else { stmts_ok(ss, (n - 1) as nat) && stmt_ok(ss[n - 1]) }
}

/// The instructions for a statement placed at position `base` (jump targets
/// are absolute): an `if` tests, jumps past its body when false, and jumps
/// from the body's end past the `else` part.
pub open spec fn stmt_code(s: Statement, base: int) -> Seq<Instruction>
    decreases s, 0nat,
{
    match s {
        Statement::If { test, body, orelse } => {
            let t = expr_code(test);
            let b0 = base + t.len() + 1;
            let bc = stmts_code(body@, body@.len(), b0);
            let e0 = b0 + bc.len() + 1;
            let oc = stmts_code(orelse@, orelse@.len(), e0);
            t.push(Instruction::JumpIfFalse(e0 as usize)) + bc.push(Instruction::Jump((e0 + oc.len()) as usize)) + oc
        },
        Statement::Return(value) => match value {
            Some(v) => expr_code(v).push(Instruction::Return),
            None => seq![Instruction::PushNull, Instruction::Return],
        },
        Statement::Break => seq![Instruction::Break],
        Statement::Continue => seq![Instruction::Continue],
        Statement::Raise { .. } => seq![Instruction::Raise],
        Statement::Expression(e) => expr_code(e).push(Instruction::Pop),
        _ => Seq::empty(),
    }
}

/// The instructions for the first `n` statements, the first placed at
/// `base`.
pub open spec fn stmts_code(ss: Seq<Statement>, n: nat, base: int) -> Seq<Instruction>
    decreases ss, n,
{
    if n == 0 || n > ss.len() {
        Seq::empty()
    } else {
        let prev = stmts_code(ss, (n - 1) as nat, base);
        prev + stmt_code(ss[n - 1], base + prev.len())
    }
}

} // verus!

verus! {

/// The first `j` expressions compile to a prefix of what the first `k` do.
proof fn lemma_exprs_prefix(es: Seq<Expression>, j: nat, k: nat)
    requires j <= k <= es.len(),
    ensures
        exprs_code(es, j).len() <= exprs_code(es, k).len(),
        exprs_ok(es, k) ==> exprs_ok(es, j),
    decreases k,
{
    if j < k {
        lemma_exprs_prefix(es, j, (k - 1) as nat);
    }
}

/// The first `j` keyword values compile to a prefix of what the first `k` do.
proof fn lemma_keywords_prefix(ks: Seq<Keyword>, j: nat, k: nat)
    requires j <= k <= ks.len(),
    ensures
        keywords_code(ks, j).len() <= keywords_code(ks, k).len(),
        keywords_ok(ks, k) ==> keywords_ok(ks, j),
    decreases k,
{
    if j < k {
        lemma_keywords_prefix(ks, j, (k - 1) as nat);
    }
}

/// The first `j` pairs compile to a prefix of what the first `k` do.
proof fn lemma_dict_prefix(e: Expression, j: nat, k: nat)
    requires
        e is Dict,
        j <= k <= dict_pairs_len(e->Dict_keys@, e->Dict_values@),
    ensures
        dict_code(e, j).len() <= dict_code(e, k).len(),
        dict_ok(e, k) ==> dict_ok(e, j),
    decreases k,
{
    if j < k {
        lemma_dict_prefix(e, j, (k - 1) as nat);
    }
}

/// The first `j` statements compile to a prefix of what the first `k` do.
proof fn lemma_stmts_prefix(ss: Seq<Statement>, j: nat, k: nat, base: int)
    requires j <= k <= ss.len(),
    ensures
        stmts_code(ss, j, base).len() <= stmts_code(ss, k, base).len(),
        stmts_ok(ss, k) ==> stmts_ok(ss, j),
    decreases k,
{
    if j < k {
        lemma_stmts_prefix(ss, j, (k - 1) as nat, base);
    }
}

/// The bytecode generator.
pub struct CodeGenerator {
    instructions: CodeBuffer,
    constants: Vec<Literal>,
    names: Vec<String>,
    varnames: Vec<String>,
    current_function: Option<String>,
}

/// A copy of a list of strings.
fn copy_strings(v: &Vec<String>) -> (r: Vec<String>)
    ensures r@ == v@,
{
    let mut r: Vec<String> = Vec::new();
    let mut i: usize = 0;
    while i < v.len()
        invariant i <= v@.len(), r@ == v@.subrange(0, i as int),
        decreases v@.len() - i,
    {
        r.push(v[i].clone());
        i = i + 1;
    }
    assert(v@.subrange(0, v@.len() as int) == v@);
    r
}

/// Two literals are the same: equal, bytes compared by content.
pub open spec fn same_literal(a: Literal, b: Literal) -> bool {
    match (a, b) {
        (Literal::Bytes(x), Literal::Bytes(y)) => x@ == y@,
        (Literal::Bytes(_), _) => false,
        _ => a == b,
    }
}

/// A copy of a literal.
fn copy_literal(l: &Literal) -> (r: Literal)
    ensures same_literal(*l, r),
{
    match l {
        Literal::Integer(i) => Literal::Integer(*i),
        Literal::Float(f) => Literal::Float(f.clone()),
        Literal::String(s) => Literal::String(s.clone()),
        Literal::Bytes(b) => Literal::Bytes(b.clone()),
        Literal::Boolean(b) => Literal::Boolean(*b),
        Literal::NoneValue => Literal::NoneValue,
    }
}

/// A copy of a list of literals.
fn copy_literals(v: &Vec<Literal>) -> (r: Vec<Literal>)
    ensures r@.len() == v@.len(), forall|i: int| 0 <= i < v@.len() ==> #[trigger] same_literal(v@[i], r@[i]),
{
    let mut r: Vec<Literal> = Vec::new();
    let mut i: usize = 0;
    while i < v.len()
        invariant
            i <= v@.len(),
            r@.len() == i,
            forall|j: int| 0 <= j < i ==> #[trigger] same_literal(v@[j], r@[j]),
        decreases v@.len() - i,
    {
        r.push(copy_literal(&v[i]));
        i = i + 1;
    }
    r
}

impl CodeGenerator {
    /// The instructions generated so far.
    pub closed spec fn code(self) -> Seq<Instruction> {
        code_items(self.instructions)
    }

    /// The constants collected.
    pub closed spec fn constants_view(self) -> Seq<Literal> {
        self.constants@
    }

    /// The global names collected.
    pub closed spec fn names_view(self) -> Seq<String> {
        self.names@
    }

    /// The local names collected.
    pub closed spec fn varnames_view(self) -> Seq<String> {
        self.varnames@
    }

    /// The name of the function being generated, if any.
    pub closed spec fn function_view(self) -> Option<String> {
        self.current_function
    }

    /// A generator with nothing generated yet.
    pub fn new() -> (g: Self)
        ensures
            g.code() == Seq::<Instruction>::empty(),
            g.constants_view() == Seq::<Literal>::empty(),
            g.names_view() == Seq::<String>::empty(),
            g.varnames_view() == Seq::<String>::empty(),
            g.function_view() is None,
    {
        CodeGenerator {
            instructions: code_new(),
            constants: Vec::new(),
            names: Vec::new(),
            varnames: Vec::new(),
            current_function: None,
        }
    }

    /// Appends one instruction.
    fn emit(&mut self, i: Instruction)
        requires old(self).code().len() < BUFFER_LIMIT,
        ensures
            final(self).code() == old(self).code().push(i),
            final(self).constants == old(self).constants,
            final(self).names == old(self).names,
            final(self).varnames == old(self).varnames,
            final(self).current_function == old(self).current_function,
    {
        code_push(&mut self.instructions, i);
    }

    /// Generates a literal.
    fn generate_literal(&mut self, literal: Literal)
        requires old(self).code().len() + literal_code(literal).len() <= BUFFER_LIMIT,
        ensures
            final(self).code() == old(self).code() + literal_code(literal),
            final(self).constants == old(self).constants,
            final(self).names == old(self).names,
            final(self).varnames == old(self).varnames,
            final(self).current_function == old(self).current_function,
    {
        let ghost pre = self.code();
        let ghost lc = literal_code(literal);
        match literal {
            Literal::Integer(i) => self.emit(Instruction::PushInteger(i)),
            Literal::Float(f) => self.emit(Instruction::PushFloat(f)),
            Literal::String(s) => self.emit(Instruction::PushString(s)),
            Literal::Bytes(_) => {},
            Literal::Boolean(b) => {
                if b { self.emit(Instruction::PushTrue) } else { self.emit(Instruction::PushFalse) }
            },
            Literal::NoneValue => self.emit(Instruction::PushNull),
        }
        assert(self.code() =~= pre + lc);
    }

    /// Generates a binary operator.
    fn generate_binary_op(&mut self, op: BinaryOperator)
        requires old(self).code().len() < BUFFER_LIMIT,
        ensures
            final(self).code() == old(self).code().push(binary_instruction(op)),
            final(self).constants == old(self).constants,
            final(self).names == old(self).names,
            final(self).varnames == old(self).varnames,
            final(self).current_function == old(self).current_function,
    {
        match op {
            BinaryOperator::Add => self.emit(Instruction::Add),
            BinaryOperator::Sub => self.emit(Instruction::Subtract),
            BinaryOperator::Mult => self.emit(Instruction::Multiply),
            BinaryOperator::Div => self.emit(Instruction::Divide),
            BinaryOperator::FloorDiv => self.emit(Instruction::FloorDivide),
            BinaryOperator::Mod => self.emit(Instruction::Modulo),
            BinaryOperator::Pow => self.emit(Instruction::Power),
            BinaryOperator::LShift => self.emit(Instruction::LeftShift),
            BinaryOperator::RShift => self.emit(Instruction::RightShift),
            BinaryOperator::BitAnd => self.emit(Instruction::BitwiseAnd),
            BinaryOperator::BitOr => self.emit(Instruction::BitwiseOr),
            BinaryOperator::BitXor => self.emit(Instruction::BitwiseXor),
        }
    }

    /// Generates a unary operator.
    fn generate_unary_op(&mut self, op: UnaryOperator)
        requires old(self).code().len() < BUFFER_LIMIT, !(op is UAdd),
        ensures
            final(self).code() == old(self).code().push(unary_instruction(op)),
            final(self).constants == old(self).constants,
            final(self).names == old(self).names,
            final(self).varnames == old(self).varnames,
            final(self).current_function == old(self).current_function,
    {
        match op {
            UnaryOperator::USub => self.emit(Instruction::Subtract),
            UnaryOperator::Not => self.emit(Instruction::Not),
            UnaryOperator::Invert => self.emit(Instruction::BitwiseNot),
            UnaryOperator::UAdd => {},
        }
    }
}

} // verus!

verus! {

impl CodeGenerator {
    /// Generates an expression.
    fn generate_expression(&mut self, expr: Expression) -> (r: PythonResult<()>)
        requires
            expr_ok(expr),
            old(self).code().len() + expr_code(expr).len() <= BUFFER_LIMIT,
        ensures
            r is Ok,
            final(self).code() == old(self).code() + expr_code(expr),
            final(self).constants == old(self).constants,
            final(self).names == old(self).names,
            final(self).varnames == old(self).varnames,
            final(self).current_function == old(self).current_function,
        decreases expr, expr_rank(expr) + 1,
    {
        let ghost ge = expr;
        let ghost pre = self.code();
        match expr {
            Expression::Literal(literal) => {
                self.generate_literal(literal);
            },
            Expression::Name(name) => {
                self.emit(Instruction::PushName(name));
            },
            Expression::Attribute { value, attr } => {
                self.generate_expression(*value)?;
                self.emit(Instruction::GetAttribute(attr));
            },
            Expression::Subscript { value, slice } => {
                self.generate_expression(*value)?;
                self.generate_expression(*slice)?;
                self.emit(Instruction::GetItem);
            },
            Expression::Call { func, args, keywords } => {
                let count = args.len() + keywords.len();
                proof {
                    assert forall|j: int| 0 <= j < args@.len() implies decreases_to!(ge => args@[j]) by {
                        assert(decreases_to!(ge => args));
                        assert(decreases_to!(args => args@));
                        assert(decreases_to!(args@ => args@[j]));
                    }
                    assert forall|j: int| 0 <= j < keywords@.len() implies decreases_to!(ge => keywords@[j].value) by {
                        assert(decreases_to!(ge => keywords));
                        assert(decreases_to!(keywords => keywords@));
                        assert(decreases_to!(keywords@ => keywords@[j]));
                        assert(decreases_to!(keywords@[j] => keywords@[j].value));
                    }
                }
                self.generate_expressions(args, Ghost(ge))?;
                self.generate_keywords(keywords, Ghost(ge))?;
                self.generate_expression(*func)?;
                self.emit(Instruction::Call(count));
            },
            Expression::BinaryOp { left, operator, right } => {
                self.generate_expression(*left)?;
                self.generate_expression(*right)?;
                self.generate_binary_op(operator);
            },
            Expression::UnaryOp { operator, operand } => {
                self.generate_expression(*operand)?;
                self.generate_unary_op(operator);
            },
            Expression::Tuple { elts } => {
                let len = elts.len();
                proof {
                    assert forall|j: int| 0 <= j < elts@.len() implies decreases_to!(ge => elts@[j]) by {
                        assert(decreases_to!(ge => elts));
                        assert(decreases_to!(elts => elts@));
                        assert(decreases_to!(elts@ => elts@[j]));
                    }
                }
                self.generate_expressions(elts, Ghost(ge))?;
                self.emit(Instruction::BuildTuple(len));
            },
            Expression::List { elts } => {
                let len = elts.len();
                proof {
                    assert forall|j: int| 0 <= j < elts@.len() implies decreases_to!(ge => elts@[j]) by {
                        assert(decreases_to!(ge => elts));
                        assert(decreases_to!(elts => elts@));
                        assert(decreases_to!(elts@ => elts@[j]));
                    }
                }
                self.generate_expressions(elts, Ghost(ge))?;
                self.emit(Instruction::BuildList(len));
            },
            Expression::Dict { keys, values } => {
                let len = values.len();
                proof {
                    assert forall|j: int| 0 <= j < values@.len() implies decreases_to!(ge => values@[j]) by {
                        assert(decreases_to!(ge => values));
                        assert(decreases_to!(values => values@));
                        assert(decreases_to!(values@ => values@[j]));
                    }
                    assert forall|j: int| 0 <= j < keys@.len() && keys@[j] is Some implies decreases_to!(ge => keys@[j]->Some_0) by {
                        assert(decreases_to!(ge => keys));
                        assert(decreases_to!(keys => keys@));
                        assert(decreases_to!(keys@ => keys@[j]));
                        assert(decreases_to!(keys@[j] => keys@[j]->Some_0));
                    }
                }
                self.generate_dict(keys, values, Ghost(ge))?;
                self.emit(Instruction::BuildDict(len));
            },
            Expression::SetDisplay { elts } => {
                let len = elts.len();
                proof {
                    assert forall|j: int| 0 <= j < elts@.len() implies decreases_to!(ge => elts@[j]) by {
                        assert(decreases_to!(ge => elts));
                        assert(decreases_to!(elts => elts@));
                        assert(decreases_to!(elts@ => elts@[j]));
                    }
                }
                self.generate_expressions(elts, Ghost(ge))?;
                self.emit(Instruction::BuildSet(len));
            },
            Expression::Starred { value, is_double: _ } => {
                self.generate_expression(*value)?;
            },
            Expression::Await(value) => {
                self.generate_expression(*value)?;
            },
            Expression::Yield(value) => {
                match value {
                    Some(v) => { self.generate_expression(*v)?; },
                    None => { self.emit(Instruction::PushNull); },
                }
                self.emit(Instruction::Yield);
            },
            Expression::YieldFrom(value) => {
                self.generate_expression(*value)?;
                self.emit(Instruction::YieldFrom);
            },
            _ => {},
        }
        assert(self.code() =~= pre + expr_code(ge));
        Ok(())
    }

    /// Generates expressions in order.
    fn generate_expressions(&mut self, es: Vec<Expression>, Ghost(parent): Ghost<Expression>) -> (r: PythonResult<()>)
        requires
            forall|j: int| 0 <= j < es@.len() ==> decreases_to!(parent => es@[j]),
            exprs_ok(es@, es@.len()),
            old(self).code().len() + exprs_code(es@, es@.len()).len() <= BUFFER_LIMIT,
        ensures
            r is Ok,
            final(self).code() == old(self).code() + exprs_code(es@, es@.len()),
            final(self).constants == old(self).constants,
            final(self).names == old(self).names,
            final(self).varnames == old(self).varnames,
            final(self).current_function == old(self).current_function,
        decreases parent, 0nat,
    {
        let ghost orig = es@;
        let ghost pre = self.code();
        let _total = es.len();
        let mut rest = es;
        let mut i: usize = 0;
        while rest.len() > 0
            invariant
                i <= orig.len(),
                orig.len() <= usize::MAX,
                rest@ == orig.subrange(i as int, orig.len() as int),
                self.code() == pre + exprs_code(orig, i as nat),
                exprs_ok(orig, orig.len()),
                pre.len() + exprs_code(orig, orig.len()).len() <= BUFFER_LIMIT,
                forall|j: int| 0 <= j < orig.len() ==> decreases_to!(parent => orig[j]),
                pre == old(self).code(),
                self.constants == old(self).constants,
                self.names == old(self).names,
                self.varnames == old(self).varnames,
                self.current_function == old(self).current_function,
            decreases rest@.len(),
        {
            let e = rest.remove(0);
            proof {
                assert(e == orig[i as int]);
                lemma_exprs_prefix(orig, (i + 1) as nat, orig.len());
            }
            self.generate_expression(e)?;
            proof {
                assert(pre + exprs_code(orig, (i + 1) as nat) =~= pre + exprs_code(orig, i as nat) + expr_code(orig[i as int]));
            }
            i = i + 1;
        }
        Ok(())
    }

    /// Generates the values of keyword arguments in order.
    fn generate_keywords(&mut self, ks: Vec<Keyword>, Ghost(parent): Ghost<Expression>) -> (r: PythonResult<()>)
        requires
            forall|j: int| 0 <= j < ks@.len() ==> decreases_to!(parent => ks@[j].value),
            keywords_ok(ks@, ks@.len()),
            old(self).code().len() + keywords_code(ks@, ks@.len()).len() <= BUFFER_LIMIT,
        ensures
            r is Ok,
            final(self).code() == old(self).code() + keywords_code(ks@, ks@.len()),
            final(self).constants == old(self).constants,
            final(self).names == old(self).names,
            final(self).varnames == old(self).varnames,
            final(self).current_function == old(self).current_function,
        decreases parent, 0nat,
    {
        let ghost orig = ks@;
        let ghost pre = self.code();
        let _total = ks.len();
        let mut rest = ks;
        let mut i: usize = 0;
        while rest.len() > 0
            invariant
                i <= orig.len(),
                orig.len() <= usize::MAX,
                rest@ == orig.subrange(i as int, orig.len() as int),
                self.code() == pre + keywords_code(orig, i as nat),
                keywords_ok(orig, orig.len()),
                pre.len() + keywords_code(orig, orig.len()).len() <= BUFFER_LIMIT,
                forall|j: int| 0 <= j < orig.len() ==> decreases_to!(parent => orig[j].value),
                pre == old(self).code(),
                self.constants == old(self).constants,
                self.names == old(self).names,
                self.varnames == old(self).varnames,
                self.current_function == old(self).current_function,
            decreases rest@.len(),
        {
            let kw = rest.remove(0);
            proof {
                assert(kw == orig[i as int]);
                lemma_keywords_prefix(orig, (i + 1) as nat, orig.len());
            }
            self.generate_expression(kw.value)?;
            proof {
                assert(pre + keywords_code(orig, (i + 1) as nat) =~= pre + keywords_code(orig, i as nat) + expr_code(orig[i as int].value));
            }
            i = i + 1;
        }
        Ok(())
    }

    /// Generates the key/value pairs of a dictionary display.
    fn generate_dict(&mut self, keys: Vec<Option<Expression>>, values: Vec<Expression>, Ghost(parent): Ghost<Expression>) -> (r: PythonResult<()>)
        requires
            parent is Dict,
            parent->Dict_keys@ == keys@,
            parent->Dict_values@ == values@,
            forall|j: int| 0 <= j < values@.len() ==> decreases_to!(parent => values@[j]),
            forall|j: int| 0 <= j < keys@.len() && keys@[j] is Some ==> decreases_to!(parent => keys@[j]->Some_0),
            dict_ok(parent, dict_pairs_len(keys@, values@)),
            old(self).code().len() + dict_code(parent, dict_pairs_len(keys@, values@)).len() <= BUFFER_LIMIT,
        ensures
            r is Ok,
            final(self).code() == old(self).code() + dict_code(parent, dict_pairs_len(keys@, values@)),
            final(self).constants == old(self).constants,
            final(self).names == old(self).names,
            final(self).varnames == old(self).varnames,
            final(self).current_function == old(self).current_function,
        decreases parent, 0nat,
    {
        let ghost ks = keys@;
        let ghost vs = values@;
        let ghost n = dict_pairs_len(ks, vs);
        let ghost pre = self.code();
        let _total = values.len();
        let mut rest_k = keys;
        let mut rest_v = values;
        let mut i: usize = 0;
        while rest_k.len() > 0 && rest_v.len() > 0
            invariant
                i <= n,
                vs.len() <= usize::MAX,
                n == dict_pairs_len(ks, vs),
                rest_k@ == ks.subrange(i as int, ks.len() as int),
                rest_v@ == vs.subrange(i as int, vs.len() as int),
                parent is Dict,
                parent->Dict_keys@ == ks,
                parent->Dict_values@ == vs,
                self.code() == pre + dict_code(parent, i as nat),
                dict_ok(parent, n),
                pre.len() + dict_code(parent, n).len() <= BUFFER_LIMIT,
                forall|j: int| 0 <= j < vs.len() ==> decreases_to!(parent => vs[j]),
                forall|j: int| 0 <= j < ks.len() && ks[j] is Some ==> decreases_to!(parent => ks[j]->Some_0),
                pre == old(self).code(),
                self.constants == old(self).constants,
                self.names == old(self).names,
                self.varnames == old(self).varnames,
                self.current_function == old(self).current_function,
            decreases rest_v@.len(),
        {
            let key = rest_k.remove(0);
            let value = rest_v.remove(0);
            proof {
                assert(key == ks[i as int]);
                assert(value == vs[i as int]);
                lemma_dict_prefix(parent, (i + 1) as nat, n);
            }
            let ghost mid0 = self.code();
            match key {
                Some(k) => { self.generate_expression(k)?; },
                None => {},
            }
            self.generate_expression(value)?;
            proof {
                assert(self.code() =~= pre + dict_code(parent, (i + 1) as nat));
            }
            i = i + 1;
        }
        Ok(())
    }
}

} // verus!

verus! {

impl CodeGenerator {
    /// Generates a statement.
    fn generate_statement(&mut self, stmt: Statement) -> (r: PythonResult<()>)
        requires
            stmt_ok(stmt),
            old(self).code().len() + stmt_code(stmt, old(self).code().len() as int).len() <= BUFFER_LIMIT,
        ensures
            r is Ok,
            final(self).code() == old(self).code() + stmt_code(stmt, old(self).code().len() as int),
            final(self).constants == old(self).constants,
            final(self).names == old(self).names,
            final(self).varnames == old(self).varnames,
            final(self).current_function == old(self).current_function,
        decreases stmt, 1nat,
    {
        let ghost gs = stmt;
        let ghost pre = self.code();
        let ghost base = pre.len() as int;
        match stmt {
            Statement::If { test, body, orelse } => {
                proof {
                    assert forall|j: int| 0 <= j < body@.len() implies decreases_to!(gs => body@[j]) by {
                        assert(decreases_to!(gs => body));
                        assert(decreases_to!(body => body@));
                        assert(decreases_to!(body@ => body@[j]));
                    }
                    assert forall|j: int| 0 <= j < orelse@.len() implies decreases_to!(gs => orelse@[j]) by {
                        assert(decreases_to!(gs => orelse));
                        assert(decreases_to!(orelse => orelse@));
                        assert(decreases_to!(orelse@ => orelse@[j]));
                    }
                }
                let ghost t = expr_code(test);
                let ghost b0 = base + t.len() + 1;
                let ghost bc = stmts_code(body@, body@.len(), b0);
                let ghost e0 = b0 + bc.len() + 1;
                let ghost oc = stmts_code(orelse@, orelse@.len(), e0);
                self.generate_expression(test)?;
                let orelse_jump = code_len(&self.instructions);
                self.emit(Instruction::JumpIfFalse(0));
                self.generate_statements(body, Ghost(gs))?;
                let end_jump = code_len(&self.instructions);
                self.emit(Instruction::Jump(0));
                let target = code_len(&self.instructions);
                code_set(&mut self.instructions, orelse_jump, Instruction::JumpIfFalse(target));
                self.generate_statements(orelse, Ghost(gs))?;
                let end = code_len(&self.instructions);
                code_set(&mut self.instructions, end_jump, Instruction::Jump(end));
                assert(self.code() =~= pre + (t.push(Instruction::JumpIfFalse(e0 as usize))
                    + bc.push(Instruction::Jump((e0 + oc.len()) as usize)) + oc));
            },
            Statement::Return(value) => {
                match value {
                    Some(v) => { self.generate_expression(v)?; },
                    None => { self.emit(Instruction::PushNull); },
                }
                self.emit(Instruction::Return);
            },
            Statement::Break => { self.emit(Instruction::Break); },
            Statement::Continue => { self.emit(Instruction::Continue); },
            Statement::Raise { exc: _, cause: _ } => { self.emit(Instruction::Raise); },
            Statement::Expression(value) => {
                self.generate_expression(value)?;
                self.emit(Instruction::Pop);
            },
            _ => {},
        }
        assert(self.code() =~= pre + stmt_code(gs, base));
        Ok(())
    }

    /// Generates statements in order.
    fn generate_statements(&mut self, ss: Vec<Statement>, Ghost(parent): Ghost<Statement>) -> (r: PythonResult<()>)
        requires
            forall|j: int| 0 <= j < ss@.len() ==> decreases_to!(parent => ss@[j]),
            stmts_ok(ss@, ss@.len()),
            old(self).code().len() + stmts_code(ss@, ss@.len(), old(self).code().len() as int).len() <= BUFFER_LIMIT,
        ensures
            r is Ok,
            final(self).code() == old(self).code() + stmts_code(ss@, ss@.len(), old(self).code().len() as int),
            final(self).constants == old(self).constants,
            final(self).names == old(self).names,
            final(self).varnames == old(self).varnames,
            final(self).current_function == old(self).current_function,
        decreases parent, 0nat,
    {
        let ghost orig = ss@;
        let ghost pre = self.code();
        let ghost base = pre.len() as int;
        let _total = ss.len();
        let mut rest = ss;
        let mut i: usize = 0;
        while rest.len() > 0
            invariant
                i <= orig.len(),
                orig.len() <= usize::MAX,
                rest@ == orig.subrange(i as int, orig.len() as int),
                base == pre.len(),
                self.code() == pre + stmts_code(orig, i as nat, base),
                stmts_ok(orig, orig.len()),
                pre.len() + stmts_code(orig, orig.len(), base).len() <= BUFFER_LIMIT,
                forall|j: int| 0 <= j < orig.len() ==> decreases_to!(parent => orig[j]),
                pre == old(self).code(),
                self.constants == old(self).constants,
                self.names == old(self).names,
                self.varnames == old(self).varnames,
                self.current_function == old(self).current_function,
            decreases rest@.len(),
        {
            let s = rest.remove(0);
            proof {
                assert(s == orig[i as int]);
                lemma_stmts_prefix(orig, (i + 1) as nat, orig.len(), base);
            }
            self.generate_statement(s)?;
            proof {
                assert(pre + stmts_code(orig, (i + 1) as nat, base) =~= pre + stmts_code(orig, i as nat, base)
                    + stmt_code(orig[i as int], base + stmts_code(orig, i as nat, base).len()));
            }
            i = i + 1;
        }
        Ok(())
    }

    /// Generates a function from statements: their instructions are appended
    /// to those generated so far, followed by a return of `None`; the
    /// function is named after the function being generated, or
    /// `<module>`, and carries the collected constants and names.
    pub fn generate(&mut self, statements: Vec<Statement>) -> (r: PythonResult<BytecodeFunction>)
        requires
            stmts_ok(statements@, statements@.len()),
            old(self).code().len() + stmts_code(statements@, statements@.len(), old(self).code().len() as int).len() + 2
                <= BUFFER_LIMIT,
        ensures
            final(self).code() == old(self).code() + stmts_code(statements@, statements@.len(), old(self).code().len() as int)
                + seq![Instruction::PushNull, Instruction::Return],
            final(self).constants_view() == old(self).constants_view(),
            final(self).names_view() == old(self).names_view(),
            final(self).varnames_view() == old(self).varnames_view(),
            final(self).function_view() == old(self).function_view(),
            r matches Ok(f) && {
                &&& code_items(f.instructions) == final(self).code()
                &&& f.name@ == (match old(self).function_view() { Some(n) => n@, None => "<module>"@ })
                &&& f.constants@.len() == old(self).constants_view().len()
                &&& forall|i: int| 0 <= i < f.constants@.len() ==> #[trigger] same_literal(old(self).constants_view()[i], f.constants@[i])
                &&& f.names@ == old(self).names_view()
                &&& f.varnames@ == old(self).varnames_view()
                &&& f.argcount == 0 && f.kwonlyargcount == 0 && f.stacksize == 0
                &&& f.nlocals == old(self).varnames_view().len()
            },
    {
        let ghost pre = self.code();
        let ghost sc = stmts_code(statements@, statements@.len(), pre.len() as int);
        let ghost parent = Statement::If { test: vstd::pervasive::arbitrary(), body: statements, orelse: vstd::pervasive::arbitrary() };
        proof {
            assert forall|j: int| 0 <= j < statements@.len() implies decreases_to!(parent => statements@[j]) by {
                assert(decreases_to!(parent => parent->If_body));
                assert(decreases_to!(parent->If_body => parent->If_body@));
                assert(decreases_to!(parent->If_body@ => parent->If_body@[j]));
            }
        }
        self.generate_statements(statements, Ghost(parent))?;
        self.emit(Instruction::PushNull);
        self.emit(Instruction::Return);
        assert(self.code() =~= pre + sc + seq![Instruction::PushNull, Instruction::Return]);
        let name = match &self.current_function {
            Some(n) => n.clone(),
            None => String::from_str("<module>"),
        };
        Ok(BytecodeFunction {
            name,
            instructions: code_clone(&self.instructions),
            constants: copy_literals(&self.constants),
            names: copy_strings(&self.names),
            varnames: copy_strings(&self.varnames),
            argcount: 0,
            kwonlyargcount: 0,
            nlocals: self.varnames.len(),
            stacksize: 0,
        })
    }
}

/// Bytecode for an IR module: the conversion is not implemented, so every
/// module gives an empty `<module>` function.
pub fn ir_to_vm_instructions(_ir: &crate::ir::Module) -> (r: PythonResult<BytecodeFunction>)
    ensures
        r matches Ok(f) && f.name@ == "<module>"@ && code_items(f.instructions) == Seq::<Instruction>::empty()
            && f.constants@.len() == 0 && f.names@.len() == 0 && f.varnames@.len() == 0
            && f.argcount == 0 && f.kwonlyargcount == 0 && f.nlocals == 0 && f.stacksize == 0,
{
    Ok(BytecodeFunction {
        name: String::from_str("<module>"),
        instructions: code_new(),
        constants: Vec::new(),
        names: Vec::new(),
        varnames: Vec::new(),
        argcount: 0,
        kwonlyargcount: 0,
        nlocals: 0,
        stacksize: 0,
    })
}

} // verus!

verus! {

/// Where an instruction jumps, if it is a jump.
pub open spec fn jump_target(i: Instruction) -> Option<int> {
    match i {
        Instruction::Jump(t) => Some(t as int),
        Instruction::JumpIfTrue(t) => Some(t as int),
        Instruction::JumpIfFalse(t) => Some(t as int),
        _ => None,
    }
}

/// Every jump in `code` lands between `lo` and `hi`, both included.
pub open spec fn jumps_within(code: Seq<Instruction>, lo: int, hi: int) -> bool {
    forall|i: int| 0 <= i < code.len() && #[trigger] jump_target(code[i]) is Some
        ==> lo <= jump_target(code[i])->0 <= hi
}

proof fn lemma_jumps_concat(a: Seq<Instruction>, b: Seq<Instruction>, lo: int, hi: int)
    requires jumps_within(a, lo, hi), jumps_within(b, lo, hi),
    ensures jumps_within(a + b, lo, hi),
{
    assert forall|i: int| 0 <= i < (a + b).len() && #[trigger] jump_target((a + b)[i]) is Some
        implies lo <= jump_target((a + b)[i])->0 <= hi by {
        if i < a.len() {
            assert((a + b)[i] == a[i]);
        } else {
            assert((a + b)[i] == b[i - a.len()]);
        }
    }
}

proof fn lemma_jumps_widen(a: Seq<Instruction>, lo: int, hi: int, lo2: int, hi2: int)
    requires jumps_within(a, lo, hi), lo2 <= lo, hi <= hi2,
    ensures jumps_within(a, lo2, hi2),
{
}

proof fn lemma_jumps_push(a: Seq<Instruction>, x: Instruction, lo: int, hi: int)
    requires
        jumps_within(a, lo, hi),
        jump_target(x) matches Some(t) ==> lo <= t <= hi,
    ensures jumps_within(a.push(x), lo, hi),
{
    assert forall|i: int| 0 <= i < a.push(x).len() && #[trigger] jump_target(a.push(x)[i]) is Some
        implies lo <= jump_target(a.push(x)[i])->0 <= hi by {
        if i < a.len() {
            assert(a.push(x)[i] == a[i]);
        }
    }
}

/// Expressions compile to code without jumps.
proof fn lemma_expr_no_jumps(e: Expression)
    ensures forall|lo: int, hi: int| #[trigger] jumps_within(expr_code(e), lo, hi),
    decreases e, expr_rank(e),
{
    match e {
        Expression::Attribute { value, attr } => {
            lemma_expr_no_jumps(*value);
            let x = Instruction::GetAttribute(attr);
            assert(expr_code(e) == expr_code(*value).push(x));
            assert forall|lo: int, hi: int| #[trigger] jumps_within(expr_code(e), lo, hi) by {
                lemma_jumps_push(expr_code(*value), x, lo, hi);
            }
        },
        Expression::Subscript { value, slice } => {
            lemma_expr_no_jumps(*value);
            lemma_expr_no_jumps(*slice);
            assert forall|lo: int, hi: int| #[trigger] jumps_within(expr_code(e), lo, hi) by {
                lemma_jumps_concat(expr_code(*value), expr_code(*slice), lo, hi);
                lemma_jumps_push(expr_code(*value) + expr_code(*slice), Instruction::GetItem, lo, hi);
            }
        },
        Expression::Call { func, args, keywords } => {
            lemma_exprs_no_jumps(args@, args@.len());
            lemma_keywords_no_jumps(keywords@, keywords@.len());
            lemma_expr_no_jumps(*func);
            assert forall|lo: int, hi: int| #[trigger] jumps_within(expr_code(e), lo, hi) by {
                let a = exprs_code(args@, args@.len());
                let k = keywords_code(keywords@, keywords@.len());
                lemma_jumps_concat(a, k, lo, hi);
                lemma_jumps_concat(a + k, expr_code(*func), lo, hi);
                lemma_jumps_push(a + k + expr_code(*func), Instruction::Call((args@.len() + keywords@.len()) as usize), lo, hi);
            }
        },
        Expression::BinaryOp { left, operator, right } => {
            lemma_expr_no_jumps(*left);
            lemma_expr_no_jumps(*right);
            assert forall|lo: int, hi: int| #[trigger] jumps_within(expr_code(e), lo, hi) by {
                lemma_jumps_concat(expr_code(*left), expr_code(*right), lo, hi);
                lemma_jumps_push(expr_code(*left) + expr_code(*right), binary_instruction(operator), lo, hi);
            }
        },
        Expression::UnaryOp { operator, operand } => {
            lemma_expr_no_jumps(*operand);
            assert forall|lo: int, hi: int| #[trigger] jumps_within(expr_code(e), lo, hi) by {
                lemma_jumps_push(expr_code(*operand), unary_instruction(operator), lo, hi);
            }
        },
        Expression::Tuple { elts } => {
            lemma_exprs_no_jumps(elts@, elts@.len());
            assert forall|lo: int, hi: int| #[trigger] jumps_within(expr_code(e), lo, hi) by {
                lemma_jumps_push(exprs_code(elts@, elts@.len()), Instruction::BuildTuple(elts@.len() as usize), lo, hi);
            }
        },
        Expression::List { elts } => {
            lemma_exprs_no_jumps(elts@, elts@.len());
            assert forall|lo: int, hi: int| #[trigger] jumps_within(expr_code(e), lo, hi) by {
                lemma_jumps_push(exprs_code(elts@, elts@.len()), Instruction::BuildList(elts@.len() as usize), lo, hi);
            }
        },
        Expression::Dict { keys, values } => {
            lemma_dict_no_jumps(e, dict_pairs_len(keys@, values@));
            assert forall|lo: int, hi: int| #[trigger] jumps_within(expr_code(e), lo, hi) by {
                lemma_jumps_push(dict_code(e, dict_pairs_len(keys@, values@)), Instruction::BuildDict(values@.len() as usize), lo, hi);
            }
        },
        Expression::SetDisplay { elts } => {
            lemma_exprs_no_jumps(elts@, elts@.len());
            assert forall|lo: int, hi: int| #[trigger] jumps_within(expr_code(e), lo, hi) by {
                lemma_jumps_push(exprs_code(elts@, elts@.len()), Instruction::BuildSet(elts@.len() as usize), lo, hi);
            }
        },
        Expression::Starred { value, is_double: _ } => {
            lemma_expr_no_jumps(*value);
            assert(expr_code(e) == expr_code(*value));
        },
        Expression::Await(value) => {
            lemma_expr_no_jumps(*value);
            assert(expr_code(e) == expr_code(*value));
        },
        Expression::Yield(value) => {
            match value {
                Some(v) => {
                    lemma_expr_no_jumps(*v);
                    assert forall|lo: int, hi: int| #[trigger] jumps_within(expr_code(e), lo, hi) by {
                        lemma_jumps_push(expr_code(*v), Instruction::Yield, lo, hi);
                    }
                },
                None => {
                    assert forall|lo: int, hi: int| #[trigger] jumps_within(expr_code(e), lo, hi) by {
                        assert(expr_code(e) == seq![Instruction::PushNull, Instruction::Yield]);
                    }
                },
            }
        },
        Expression::YieldFrom(value) => {
            lemma_expr_no_jumps(*value);
            assert forall|lo: int, hi: int| #[trigger] jumps_within(expr_code(e), lo, hi) by {
                lemma_jumps_push(expr_code(*value), Instruction::YieldFrom, lo, hi);
            }
        },
        Expression::Literal(l) => {
            assert forall|lo: int, hi: int| #[trigger] jumps_within(expr_code(e), lo, hi) by {
                assert(expr_code(e) == literal_code(l));
            }
        },
        Expression::Name(n) => {
            assert forall|lo: int, hi: int| #[trigger] jumps_within(expr_code(e), lo, hi) by {
                assert(expr_code(e) == seq![Instruction::PushName(n)]);
            }
        },
        _ => {
            assert(expr_code(e) == Seq::<Instruction>::empty());
        },
    }
}

proof fn lemma_exprs_no_jumps(es: Seq<Expression>, n: nat)
    ensures forall|lo: int, hi: int| #[trigger] jumps_within(exprs_code(es, n), lo, hi),
    decreases es, n,
{
    if n > 0 && n <= es.len() {
        lemma_exprs_no_jumps(es, (n - 1) as nat);
        lemma_expr_no_jumps(es[n - 1]);
        assert forall|lo: int, hi: int| #[trigger] jumps_within(exprs_code(es, n), lo, hi) by {
            lemma_jumps_concat(exprs_code(es, (n - 1) as nat), expr_code(es[n - 1]), lo, hi);
        }
    }
}

proof fn lemma_keywords_no_jumps(ks: Seq<Keyword>, n: nat)
    ensures forall|lo: int, hi: int| #[trigger] jumps_within(keywords_code(ks, n), lo, hi),
    decreases ks, n,
{
    if n > 0 && n <= ks.len() {
        lemma_keywords_no_jumps(ks, (n - 1) as nat);
        lemma_expr_no_jumps(ks[n - 1].value);
        assert forall|lo: int, hi: int| #[trigger] jumps_within(keywords_code(ks, n), lo, hi) by {
            lemma_jumps_concat(keywords_code(ks, (n - 1) as nat), expr_code(ks[n - 1].value), lo, hi);
        }
    }
}

proof fn lemma_dict_no_jumps(e: Expression, n: nat)
    ensures forall|lo: int, hi: int| #[trigger] jumps_within(dict_code(e, n), lo, hi),
    decreases e, n,
{
    match e {
        Expression::Dict { keys, values } => {
            if n > 0 && n <= keys@.len() && n <= values@.len() {
                lemma_dict_no_jumps(e, (n - 1) as nat);
                let kc = match keys@[n - 1] { Some(k) => expr_code(k), None => Seq::<Instruction>::empty() };
                match keys@[n - 1] {
                    Some(k) => { lemma_expr_no_jumps(k); },
                    None => {},
                }
                lemma_expr_no_jumps(values@[n - 1]);
                assert forall|lo: int, hi: int| #[trigger] jumps_within(dict_code(e, n), lo, hi) by {
                    lemma_jumps_concat(dict_code(e, (n - 1) as nat), kc, lo, hi);
                    lemma_jumps_concat(dict_code(e, (n - 1) as nat) + kc, expr_code(values@[n - 1]), lo, hi);
                }
            }
        },
        _ => {},
    }
}

/// The jumps an `if` compiles to stay inside its own code: every jump in the
/// code of a statement placed at `base` lands at a position of that code or
/// just past its end.
pub proof fn law_statement_jumps_stay_inside(s: Statement, base: int)
    requires
        0 <= base,
        base + stmt_code(s, base).len() <= usize::MAX,
    ensures
        jumps_within(stmt_code(s, base), base, base + stmt_code(s, base).len()),
    decreases s, 0nat,
{
    match s {
        Statement::If { test, body, orelse } => {
            let t = expr_code(test);
            let b0 = base + t.len() + 1;
            let bc = stmts_code(body@, body@.len(), b0);
            let e0 = b0 + bc.len() + 1;
            let oc = stmts_code(orelse@, orelse@.len(), e0);
            let end = e0 + oc.len();
            lemma_expr_no_jumps(test);
            law_statements_jumps_stay_inside(body@, body@.len(), b0);
            law_statements_jumps_stay_inside(orelse@, orelse@.len(), e0);
            lemma_jumps_push(t, Instruction::JumpIfFalse(e0 as usize), base, end);
            lemma_jumps_widen(bc, b0, b0 + bc.len(), base, end);
            lemma_jumps_push(bc, Instruction::Jump(end as usize), base, end);
            lemma_jumps_widen(oc, e0, end, base, end);
            lemma_jumps_concat(t.push(Instruction::JumpIfFalse(e0 as usize)), bc.push(Instruction::Jump(end as usize)), base, end);
            lemma_jumps_concat(t.push(Instruction::JumpIfFalse(e0 as usize)) + bc.push(Instruction::Jump(end as usize)), oc, base, end);
        },
        Statement::Return(value) => {
            match value {
                Some(v) => {
                    lemma_expr_no_jumps(v);
                    lemma_jumps_push(expr_code(v), Instruction::Return, base, base + stmt_code(s, base).len());
                },
                None => {},
            }
        },
        Statement::Expression(e) => {
            lemma_expr_no_jumps(e);
            lemma_jumps_push(expr_code(e), Instruction::Pop, base, base + stmt_code(s, base).len());
        },
        _ => {},
    }
}

/// The jumps of a sequence of statements stay inside its code.
pub proof fn law_statements_jumps_stay_inside(ss: Seq<Statement>, n: nat, base: int)
    requires
        0 <= base,
        base + stmts_code(ss, n, base).len() <= usize::MAX,
    ensures
        jumps_within(stmts_code(ss, n, base), base, base + stmts_code(ss, n, base).len()),
    decreases ss, n,
{
    if n > 0 && n <= ss.len() {
        let prev = stmts_code(ss, (n - 1) as nat, base);
        let cur = stmt_code(ss[n - 1], base + prev.len());
        let end = base + prev.len() + cur.len();
        law_statements_jumps_stay_inside(ss, (n - 1) as nat, base);
        law_statement_jumps_stay_inside(ss[n - 1], base + prev.len());
        lemma_jumps_widen(prev, base, base + prev.len(), base, end);
        lemma_jumps_widen(cur, base + prev.len(), end, base, end);
        lemma_jumps_concat(prev, cur, base, end);
    }
}

} // verus!

verus! {

/// What the generator emits for an expression, appended to the code so far:
/// the operands' code first, then the operation.
pub proof fn law_expression_code(e: Expression)
    ensures
        e matches Expression::Name(n) ==> expr_code(e) == seq![Instruction::PushName(n)],
        e matches Expression::Attribute { value, attr } ==>
            expr_code(e) == expr_code(*value).push(Instruction::GetAttribute(attr)),
        e matches Expression::Subscript { value, slice } ==>
            expr_code(e) == (expr_code(*value) + expr_code(*slice)).push(Instruction::GetItem),
        e matches Expression::List { elts } ==>
            expr_code(e) == exprs_code(elts@, elts@.len()).push(Instruction::BuildList(elts@.len() as usize)),
        e matches Expression::Tuple { elts } ==>
            expr_code(e) == exprs_code(elts@, elts@.len()).push(Instruction::BuildTuple(elts@.len() as usize)),
        e matches Expression::BinaryOp { left, operator, right } ==>
            expr_code(e) == (expr_code(*left) + expr_code(*right)).push(binary_instruction(operator)),
        binary_instruction(BinaryOperator::Add) == Instruction::Add,
        binary_instruction(BinaryOperator::Sub) == Instruction::Subtract,
        binary_instruction(BinaryOperator::Mult) == Instruction::Multiply,
        binary_instruction(BinaryOperator::Div) == Instruction::Divide,
        binary_instruction(BinaryOperator::FloorDiv) == Instruction::FloorDivide,
        binary_instruction(BinaryOperator::Mod) == Instruction::Modulo,
        binary_instruction(BinaryOperator::Pow) == Instruction::Power,
        binary_instruction(BinaryOperator::LShift) == Instruction::LeftShift,
        binary_instruction(BinaryOperator::RShift) == Instruction::RightShift,
        binary_instruction(BinaryOperator::BitAnd) == Instruction::BitwiseAnd,
        binary_instruction(BinaryOperator::BitOr) == Instruction::BitwiseOr,
        binary_instruction(BinaryOperator::BitXor) == Instruction::BitwiseXor,
        forall|es: Seq<Expression>, k: nat| 0 < k <= es.len() ==>
            #[trigger] exprs_code(es, k) == exprs_code(es, (k - 1) as nat) + expr_code(es[k - 1]),
        forall|es: Seq<Expression>| #[trigger] exprs_code(es, 0) == Seq::<Instruction>::empty(),
{
}

} // verus!

verus! {

use crate::vm_model::{Env, StepModel, step};
use crate::value::ValueModel;
use crate::value_ops::truthy;

/// The unary operators compile to one instruction after their operand's
/// code: `not e` to the instruction that replaces the top value `v` by the
/// boolean `not v` (`Boolean(!truthy(v))`), `~e` to the one that replaces an
/// integer by its bitwise complement, and unary minus to `Subtract`.
pub proof fn law_unary_operators(e: Expression, env: Env, s: Seq<ValueModel>, v: ValueModel, x: i64, pc: int)
    ensures
        ({
            let c = expr_code(Expression::UnaryOp { operator: UnaryOperator::Not, operand: Box::new(e) });
            &&& c.len() == expr_code(e).len() + 1
            &&& c.subrange(0, expr_code(e).len() as int) == expr_code(e)
            &&& step(c.last(), env, s.push(v), pc) == StepModel::Next(s.push(ValueModel::Boolean(!truthy(v))), pc + 1)
        }),
        ({
            let c = expr_code(Expression::UnaryOp { operator: UnaryOperator::Invert, operand: Box::new(e) });
            &&& c.len() == expr_code(e).len() + 1
            &&& c.subrange(0, expr_code(e).len() as int) == expr_code(e)
            &&& step(c.last(), env, s.push(ValueModel::Integer(x)), pc) == StepModel::Next(s.push(ValueModel::Integer(!x)), pc + 1)
        }),
        expr_code(Expression::UnaryOp { operator: UnaryOperator::USub, operand: Box::new(e) })
            == expr_code(e).push(Instruction::Subtract),
        unary_instruction(UnaryOperator::Not) == Instruction::Not,
        unary_instruction(UnaryOperator::Invert) == Instruction::BitwiseNot,
        unary_instruction(UnaryOperator::USub) == Instruction::Subtract,
{
    let c = expr_code(Expression::UnaryOp { operator: UnaryOperator::Not, operand: Box::new(e) });
    assert(c.subrange(0, expr_code(e).len() as int) =~= expr_code(e));
    assert(s.push(v).drop_last() =~= s);
    let c2 = expr_code(Expression::UnaryOp { operator: UnaryOperator::Invert, operand: Box::new(e) });
    assert(c2.subrange(0, expr_code(e).len() as int) =~= expr_code(e));
    assert(s.push(ValueModel::Integer(x)).drop_last() =~= s);
}

} // verus!
