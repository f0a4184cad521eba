//! The syntax tree that the code generator and the IR builder read: Python
//! programs as statements and expressions, with floats as binary64 values.
use vstd::prelude::*;
use crate::float::FloatValue;

verus! {

/// A parsed program.
pub struct PythonRoot {
    /// The program's statements.
    pub program: Program,
}

/// A sequence of statements.
pub struct Program {
    /// The statements, in source order.
    pub statements: Vec<Statement>,
}

/// A statement.
pub enum Statement {
    /// `def name(parameters) -> return_type: body`.
    FunctionDef {
        decorators: Vec<Expression>,
        name: String,
        parameters: Vec<Parameter>,
        return_type: Option<Type>,
        body: Vec<Statement>,
    },
    /// `async def`.
    AsyncFunctionDef {
        decorators: Vec<Expression>,
        name: String,
        parameters: Vec<Parameter>,
        return_type: Option<Type>,
        body: Vec<Statement>,
    },
    /// `class name(bases): body`.
    ClassDef { decorators: Vec<Expression>, name: String, bases: Vec<Expression>, body: Vec<Statement> },
    /// `target = value`.
    Assignment { target: Expression, value: Expression },
    /// `target op= value`.
    AugmentedAssignment { target: Expression, operator: AugmentedOperator, value: Expression },
    /// An expression statement.
    Expression(Expression),
    /// `return value`.
    Return(Option<Expression>),
    /// `if test: body else: orelse`.
    If { test: Expression, body: Vec<Statement>, orelse: Vec<Statement> },
    /// `for target in iter: body else: orelse`.
    For { target: Expression, iter: Expression, body: Vec<Statement>, orelse: Vec<Statement> },
    /// `async for`.
    AsyncFor { target: Expression, iter: Expression, body: Vec<Statement>, orelse: Vec<Statement> },
    /// `while test: body else: orelse`.
    While { test: Expression, body: Vec<Statement>, orelse: Vec<Statement> },
    /// `break`.
    Break,
    /// `continue`.
    Continue,
    /// `pass`.
    Pass,
    /// `import names`.
    Import { names: Vec<ImportName> },
    /// `from module import names`.
    ImportFrom { module: Option<String>, names: Vec<ImportName> },
    /// `global names`.
    Global { names: Vec<String> },
    /// `nonlocal names`.
    Nonlocal { names: Vec<String> },
    /// `try: body except: handlers else: orelse finally: finalbody`.
    Try { body: Vec<Statement>, handlers: Vec<ExceptHandler>, orelse: Vec<Statement>, finalbody: Vec<Statement> },
    /// `raise exc from cause`.
    Raise { exc: Option<Expression>, cause: Option<Expression> },
    /// `with items: body`.
    With { items: Vec<WithItem>, body: Vec<Statement> },
    /// `async with`.
    AsyncWith { items: Vec<WithItem>, body: Vec<Statement> },
    /// `assert test, msg`.
    Assert { test: Expression, msg: Option<Expression> },
    /// `match subject: cases`.
    Match { subject: Expression, cases: Vec<MatchCase> },
    /// `del targets`.
    Delete { targets: Vec<Expression> },
}

/// A `case` of a `match` statement.
pub struct MatchCase {
    /// The pattern.
    pub pattern: Pattern,
    /// The guard.
    pub guard: Option<Expression>,
    /// The body.
    pub body: Vec<Statement>,
}

/// A `match` pattern.
pub enum Pattern {
    /// A value pattern.
    Value(Expression),
    /// `_`.
    Wildcard,
    /// `pattern as name`.
    As { pattern: Option<Box<Pattern>>, name: String },
    /// A sequence pattern.
    Sequence(Vec<Pattern>),
    /// A mapping pattern.
    Mapping { keys: Vec<Expression>, patterns: Vec<Pattern> },
    /// A class pattern.
    Class { cls: Expression, patterns: Vec<Pattern>, keywords: Vec<String>, keyword_patterns: Vec<Pattern> },
    /// Alternatives.
    Or(Vec<Pattern>),
}

/// An expression.
pub enum Expression {
    /// A literal.
    Literal(Literal),
    /// A name.
    Name(String),
    /// `left op right`.
    BinaryOp { left: Box<Expression>, operator: BinaryOperator, right: Box<Expression> },
    /// `op operand`.
    UnaryOp { operator: UnaryOperator, operand: Box<Expression> },
    /// `a and b and ...`.
    BoolOp { operator: BoolOperator, values: Vec<Expression> },
    /// `left op1 c1 op2 c2 ...`.
    Compare { left: Box<Expression>, ops: Vec<CompareOperator>, comparators: Vec<Expression> },
    /// `func(args, keywords)`.
    Call { func: Box<Expression>, args: Vec<Expression>, keywords: Vec<Keyword> },
    /// `value.attr`.
    Attribute { value: Box<Expression>, attr: String },
    /// `value[slice]`.
    Subscript { value: Box<Expression>, slice: Box<Expression> },
    /// `[elts]`.
    List { elts: Vec<Expression> },
    /// `(elts)`.
    Tuple { elts: Vec<Expression> },
    /// `lower:upper:step`.
    Slice { lower: Option<Box<Expression>>, upper: Option<Box<Expression>>, step: Option<Box<Expression>> },
    /// `{keys: values}`; a missing key is a `**` entry.
    Dict { keys: Vec<Option<Expression>>, values: Vec<Expression> },
    /// `{elts}`.
    SetDisplay { elts: Vec<Expression> },
    /// A list comprehension.
    ListComp { elt: Box<Expression>, generators: Vec<Comprehension> },
    /// A dictionary comprehension.
    DictComp { key: Box<Expression>, value: Box<Expression>, generators: Vec<Comprehension> },
    /// A set comprehension.
    SetComp { elt: Box<Expression>, generators: Vec<Comprehension> },
    /// A generator expression.
    GeneratorExp { elt: Box<Expression>, generators: Vec<Comprehension> },
    /// `lambda args: body`.
    Lambda { args: Vec<Parameter>, body: Box<Expression> },
    /// `body if test else orelse`.
    IfExp { test: Box<Expression>, body: Box<Expression>, orelse: Box<Expression> },
    /// An f-string.
    JoinedStr { values: Vec<Expression> },
    /// A formatted field of an f-string.
    FormattedValue { value: Box<Expression>, conversion: usize, format_spec: Option<Box<Expression>> },
    /// `yield value`.
    Yield(Option<Box<Expression>>),
    /// `yield from value`.
    YieldFrom(Box<Expression>),
    /// `await value`.
    Await(Box<Expression>),
    /// `*value` or `**value`.
    Starred { value: Box<Expression>, is_double: bool },
}

/// A literal.
pub enum Literal {
    /// An integer.
    Integer(i64),
    /// A float.
    Float(FloatValue),
    /// A string.
    String(String),
    /// A bytes literal.
    Bytes(Vec<u8>),
    /// `True` or `False`.
    Boolean(bool),
    /// `None`.
    NoneValue,
}

/// An augmented-assignment operator.
pub enum AugmentedOperator { Add, Sub, Mult, Div, FloorDiv, Mod, Pow, LShift, RShift, BitOr, BitXor, BitAnd }

/// A binary operator.
pub enum BinaryOperator { Add, Sub, Mult, Div, FloorDiv, Mod, Pow, LShift, RShift, BitOr, BitXor, BitAnd }

/// A unary operator.
pub enum UnaryOperator { Invert, Not, UAdd, USub }

/// A boolean operator.
pub enum BoolOperator { And, Or }

/// A comparison operator.
pub enum CompareOperator { Eq, NotEq, Lt, LtE, Gt, GtE, Is, IsNot, In, NotIn }

/// A function parameter.
pub struct Parameter {
    /// Its name.
    pub name: String,
    /// Its annotation.
    pub annotation: Option<Type>,
    /// Its default value.
    pub default: Option<Expression>,
    /// Whether it is `*args`.
    pub is_vararg: bool,
    /// Whether it is `**kwargs`.
    pub is_kwarg: bool,
}

/// A type annotation.
pub enum Type {
    /// A named type.
    Name(String),
    /// A generic type.
    Generic { name: String, args: Vec<Type> },
    /// A union.
    Union(Vec<Type>),
    /// An optional type.
    Optional(Box<Type>),
}

/// A keyword argument.
pub struct Keyword {
    /// The keyword, absent for `**value`.
    pub arg: Option<String>,
    /// The value.
    pub value: Expression,
}

/// A `for` clause of a comprehension.
pub struct Comprehension {
    /// The target.
    pub target: Expression,
    /// The iterated expression.
    pub iter: Expression,
    /// The conditions.
    pub ifs: Vec<Expression>,
    /// Whether it is `async for`.
    pub is_async: bool,
}

/// A name in an `import`.
pub struct ImportName {
    /// The imported name.
    pub name: String,
    /// The `as` name.
    pub asname: Option<String>,
}

/// An `except` clause.
pub struct ExceptHandler {
    /// The exception type.
    pub type_: Option<Expression>,
    /// The bound name.
    pub name: Option<String>,
    /// The body.
    pub body: Vec<Statement>,
}

/// An item of a `with` statement.
pub struct WithItem {
    /// The context expression.
    pub context_expr: Expression,
    /// The `as` target.
    pub optional_vars: Option<Expression>,
}

} // verus!
