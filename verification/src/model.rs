//! Models of errors, binary64 operands and operation results, in which the
//! semantics of operations and of the virtual machine are stated.
use vstd::prelude::*;
use std::sync::Arc;
use crate::float::{FloatOp, Number, FloatTask, Outcome};
use crate::value::{PythonValue, PythonError, PythonResult, ValueModel, error_message};

verus! {

/// The kinds of Python errors.
pub enum ErrorKind {
    /// Method not found.
    MethodNotFound,
    /// Attribute not found.
    AttributeNotFound,
    /// Attribute error.
    AttributeError,
    /// Lexical error.
    LexicalError,
    /// Syntax error.
    SyntaxError,
    /// Runtime error.
    RuntimeError,
    /// Type error.
    TypeError,
    /// Argument error.
    ArgumentError,
    /// Name error.
    NameError,
    /// Index error.
    IndexError,
    /// Key error.
    KeyError,
    /// Zero division error.
    ZeroDivisionError,
    /// IO error.
    IOError,
    /// Import error.
    ImportError,
    /// Value error.
    ValueError,
}

/// The kind of an error.
pub open spec fn error_kind(e: PythonError) -> ErrorKind {
    match e {
        PythonError::MethodNotFound(_) => ErrorKind::MethodNotFound,
        PythonError::AttributeNotFound(_) => ErrorKind::AttributeNotFound,
        PythonError::AttributeError(_) => ErrorKind::AttributeError,
        PythonError::LexicalError(_) => ErrorKind::LexicalError,
        PythonError::SyntaxError(_) => ErrorKind::SyntaxError,
        PythonError::RuntimeError(_) => ErrorKind::RuntimeError,
        PythonError::TypeError(_) => ErrorKind::TypeError,
        PythonError::ArgumentError(_) => ErrorKind::ArgumentError,
        PythonError::NameError(_) => ErrorKind::NameError,
        PythonError::IndexError(_) => ErrorKind::IndexError,
        PythonError::KeyError(_) => ErrorKind::KeyError,
        PythonError::ZeroDivisionError(_) => ErrorKind::ZeroDivisionError,
        PythonError::IOError(_) => ErrorKind::IOError,
        PythonError::ImportError(_) => ErrorKind::ImportError,
        PythonError::ValueError(_) => ErrorKind::ValueError,
    }
}

/// Whether `e` is of kind `k` with message `m`.
pub open spec fn is_error(e: PythonError, k: ErrorKind, m: Seq<char>) -> bool {
    error_kind(e) == k && error_message(e) == m
}

/// A binary64 operand: an integer, or a float's bits and texts.
pub enum NumModel {
    /// An integer.
    Int(i64),
    /// A float: bits, `Display` text, `Debug` text.
    Float(u64, Seq<char>, Seq<char>),
}

/// The model of a task operand.
pub open spec fn number_model(n: Number) -> NumModel {
    match n {
        Number::Int(i) => NumModel::Int(i),
        Number::Float(f) => NumModel::Float(f.bits, f.text@, f.repr@),
    }
}

/// The operand a number value stands for.
pub open spec fn num_of(m: ValueModel) -> NumModel {
    match m {
        ValueModel::Float(b, t, r) => NumModel::Float(b, t, r),
        ValueModel::Integer(i) => NumModel::Int(i),
        _ => NumModel::Int(0),
    }
}

/// What an operation on values gives.
pub enum OpModel {
    /// A value.
    Value(ValueModel),
    /// An error of this kind with this message.
    Error(ErrorKind, Seq<char>),
    /// A binary64 task for the host.
    Float(FloatOp, NumModel, NumModel),
}

/// The binary64 task that `op` on two number values asks for.
pub open spec fn float_op(op: FloatOp, a: ValueModel, b: ValueModel) -> OpModel {
    OpModel::Float(op, num_of(a), num_of(b))
}

/// A type error with message `m`.
pub open spec fn type_err(m: Seq<char>) -> OpModel {
    OpModel::Error(ErrorKind::TypeError, m)
}

/// Whether a task is the one the model describes.
pub open spec fn task_is(t: FloatTask, op: FloatOp, l: NumModel, r: NumModel) -> bool {
    t.op == op && number_model(t.lhs) == l && number_model(t.rhs) == r
}

/// Whether an operation's result is the one the model describes.
pub open spec fn result_is(r: PythonResult<Outcome<PythonValue>>, m: OpModel) -> bool {
    match m {
        OpModel::Value(v) => r matches Ok(Outcome::Ready(x)) && x@ == v,
        OpModel::Error(k, msg) => r matches Err(e) && is_error(e, k, msg),
        OpModel::Float(op, l, rr) => r matches Ok(Outcome::Float(t)) && task_is(t, op, l, rr),
    }
}

/// Whether a comparison's result is the one the model describes (its value
/// being a boolean).
pub open spec fn bool_result_is(r: PythonResult<Outcome<bool>>, m: OpModel) -> bool {
    match m {
        OpModel::Value(v) => r matches Ok(Outcome::Ready(x)) && v == ValueModel::Boolean(x),
        OpModel::Error(k, msg) => r matches Err(e) && is_error(e, k, msg),
        OpModel::Float(op, l, rr) => r matches Ok(Outcome::Float(t)) && task_is(t, op, l, rr),
    }
}

} // verus!
