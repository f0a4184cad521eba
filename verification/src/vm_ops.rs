//! The two-operand instructions of the machine, as functions of their
//! operands.
use vstd::prelude::*;
use vstd::arithmetic::power::{pow, lemma_pow0, lemma_pow1, lemma0_pow, lemma1_pow, lemma_pow_strictly_increases};
use crate::bytecode::Instruction;
use crate::float::{FloatOp, Number, FloatTask, Outcome, is_zero, bits_less};
use crate::model::{OpModel, ErrorKind, result_is, bool_result_is, float_op, num_of, number_model};
use crate::equality::values_equal;
use crate::value::{PythonValue, PythonError, PythonResult, ValueModel};
use crate::value_ops::{str_less, int_overflow, is_number, float_task, num};
use crate::vm_model::{is_binary, binary_model, binary_stuck, abs, trunc_div, trunc_rem, exponent,
    floor_div_model, mod_model, pow_model, bit_model, shift_model, ne_model, le_model, zero_number};
use crate::value::str_equal;

verus! {

/// A new `String` holding `s`.
fn text(s: &str) -> (r: String)
    ensures r@ == s@,
{
    String::from_str(s)
}

/// The binary64 task `op` on two number values.
fn number(v: &PythonValue) -> (n: Number)
    requires is_number(*v),
    ensures n == num(*v),
{
    match v {
        PythonValue::Integer(i) => Number::Int(*i),
        PythonValue::Float(f) => Number::Float(f.clone()),
        _ => Number::Int(0),
    }
}

fn float_work(op: FloatOp, a: &PythonValue, b: &PythonValue) -> (r: PythonResult<Outcome<PythonValue>>)
    requires is_number(*a), is_number(*b),
    ensures result_is(r, float_op(op, a@, b@)),
{
    Ok(Outcome::Float(FloatTask { op, lhs: number(a), rhs: number(b) }))
}

fn zero_division(msg: &str) -> (r: PythonResult<Outcome<PythonValue>>)
    ensures result_is(r, OpModel::Error(ErrorKind::ZeroDivisionError, msg@)),
{
    Err(PythonError::ZeroDivisionError(text(msg)))
}

fn type_failure(msg: &str) -> (r: PythonResult<Outcome<PythonValue>>)
    ensures result_is(r, OpModel::Error(ErrorKind::TypeError, msg@)),
{
    Err(PythonError::TypeError(text(msg)))
}

fn ready(v: PythonValue) -> (r: PythonResult<Outcome<PythonValue>>)
    ensures result_is(r, OpModel::Value(v@)),
{
    Ok(Outcome::Ready(v))
}

/// `|x|` as an unsigned number.
fn magnitude(x: i64) -> (m: u64)
    ensures m as int == abs(x as int),
{
    if x < 0 {
        ((-(x + 1)) as u64) + 1
    } else {
        x as u64
    }
}

/// Whether a number value is zero (integer 0, or either float zero).
fn is_zero_number(v: &PythonValue) -> (r: bool)
    ensures r == zero_number(v@),
{
    match v {
        PythonValue::Integer(y) => *y == 0,
        PythonValue::Float(f) => is_zero(f.bits),
        _ => false,
    }
}

/// Whether two values are numbers of which at least one is a float.
fn mixed_numbers(a: &PythonValue, b: &PythonValue) -> (r: bool)
    ensures
        r == crate::value_ops::mixed_model(a@, b@),
        r ==> is_number(*a) && is_number(*b),
{
    match (a, b) {
        (PythonValue::Integer(_), PythonValue::Float(_)) => true,
        (PythonValue::Float(_), PythonValue::Integer(_)) => true,
        (PythonValue::Float(_), PythonValue::Float(_)) => true,
        _ => false,
    }
}

/// `a // b`.
pub fn floor_divide(a: &PythonValue, b: &PythonValue) -> (r: PythonResult<Outcome<PythonValue>>)
    requires !binary_stuck(Instruction::FloorDivide, a@, b@),
    ensures result_is(r, floor_div_model(a@, b@)),
{
    match (a, b) {
        (PythonValue::Integer(x), PythonValue::Integer(y)) => {
            if *y == 0 {
                zero_division("integer division or modulo by zero")
            } else if (*x < 0) != (*y < 0) {
                float_work(FloatOp::IntFloorDiv, a, b)
            } else {
                let q = magnitude(*x) / magnitude(*y);
                proof {
                    assert(trunc_div(*x as int, *y as int) == q as int);
                }
                ready(PythonValue::Integer(q as i64))
            }
        },
        _ => {
            if mixed_numbers(a, b) {
                if is_zero_number(b) {
                    zero_division("float division by zero")
                } else {
                    float_work(FloatOp::FloorDiv, a, b)
                }
            } else {
                type_failure("unsupported operand type(s) for //")
            }
        },
    }
}

/// `a % b`.
pub fn modulo(a: &PythonValue, b: &PythonValue) -> (r: PythonResult<Outcome<PythonValue>>)
    requires !binary_stuck(Instruction::Modulo, a@, b@),
    ensures result_is(r, mod_model(a@, b@)),
{
    match (a, b) {
        (PythonValue::Integer(x), PythonValue::Integer(y)) => {
            if *y == 0 {
                zero_division("integer division or modulo by zero")
            } else {
                let my = magnitude(*y);
                let m = magnitude(*x) % my;
                assert(m < my);
                let v: i64 = if *x < 0 { -(m as i64) } else { m as i64 };
                proof {
                    assert(trunc_rem(*x as int, *y as int) == v as int);
                }
                ready(PythonValue::Integer(v))
            }
        },
        _ => {
            if mixed_numbers(a, b) {
                if is_zero_number(b) {
                    zero_division("float division by zero")
                } else {
                    float_work(FloatOp::Rem, a, b)
                }
            } else {
                type_failure("unsupported operand type(s) for %")
            }
        },
    }
}

/// `|x^e| == |x|^e`.
proof fn lemma_pow_abs(x: int, e: nat)
    ensures abs(pow(x, e)) == pow(abs(x), e),
    decreases e,
{
    reveal(pow);
    if e > 0 {
        lemma_pow_abs(x, (e - 1) as nat);
        let p = pow(x, (e - 1) as nat);
        assert(abs(x * p) == abs(x) * abs(p)) by (nonlinear_arith);
    }
}

/// `(-1)^e` is 1 for even `e` and -1 for odd `e`.
proof fn lemma_pow_minus_one(e: nat)
    ensures pow(-1, e) == (if e % 2 == 0 { 1int } else { -1int }),
    decreases e,
{
    reveal(pow);
    if e > 0 {
        lemma_pow_minus_one((e - 1) as nat);
    }
}

/// `x^e` for a result that fits in `i64`.
pub fn int_pow(x: i64, e: u32) -> (r: i64)
    requires !int_overflow(pow(x as int, e as nat)),
    ensures r == pow(x as int, e as nat),
{
    if x == 0 {
        proof {
            if e == 0 { lemma_pow0(0); } else { lemma0_pow(e as nat); }
        }
        return if e == 0 { 1 } else { 0 };
    }
    if x == 1 {
        proof { lemma1_pow(e as nat); }
        return 1;
    }
    if x == -1 {
        proof { lemma_pow_minus_one(e as nat); }
        return if e % 2 == 0 { 1 } else { -1 };
    }
    let mut acc: i64 = 1;
    let mut i: u32 = 0;
    proof { lemma_pow0(x as int); }
    while i < e
        invariant
            i <= e,
            acc == pow(x as int, i as nat),
            !int_overflow(pow(x as int, e as nat)),
            abs(x as int) >= 2,
        decreases e - i,
    {
        proof {
            reveal(pow);
            let p = pow(x as int, (i + 1) as nat);
            assert(p == x * pow(x as int, i as nat));
            assert(acc * x == x * acc) by (nonlinear_arith);
            if i + 1 < e {
                lemma_pow_abs(x as int, (i + 1) as nat);
                lemma_pow_abs(x as int, e as nat);
                lemma_pow_strictly_increases(abs(x as int) as nat, (i + 1) as nat, e as nat);
            }
            assert(!int_overflow(p));
        }
        acc = acc * x;
        i = i + 1;
    }
    acc
}

/// `a ** b`.
pub fn power(a: &PythonValue, b: &PythonValue) -> (r: PythonResult<Outcome<PythonValue>>)
    requires !binary_stuck(Instruction::Power, a@, b@),
    ensures result_is(r, pow_model(a@, b@)),
{
    match (a, b) {
        (PythonValue::Integer(x), PythonValue::Integer(y)) => {
            if *y < 0 {
                float_work(FloatOp::Pow, a, b)
            } else {
                let e = #[verifier::truncate] (*y as u32);
                ready(PythonValue::Integer(int_pow(*x, e)))
            }
        },
        _ => {
            if mixed_numbers(a, b) {
                float_work(FloatOp::Pow, a, b)
            } else {
                type_failure("unsupported operand type(s) for **")
            }
        },
    }
}

/// `a & b` (`which` 0), `a | b` (1), `a ^ b` (2).
pub fn bitwise(which: u8, a: &PythonValue, b: &PythonValue) -> (r: PythonResult<Outcome<PythonValue>>)
    requires which <= 2,
    ensures result_is(r, bit_model(which as int, a@, b@)),
{
    match (a, b) {
        (PythonValue::Integer(x), PythonValue::Integer(y)) =>
            ready(PythonValue::Integer(if which == 0 { *x & *y } else if which == 1 { *x | *y } else { *x ^ *y })),
        _ => {
            if which == 0 {
                type_failure("unsupported operand type(s) for &")
            } else if which == 1 {
                type_failure("unsupported operand type(s) for |")
            } else {
                type_failure("unsupported operand type(s) for ^")
            }
        },
    }
}

/// `a << b`, or with `right`, `a >> b`.
pub fn shift(right: bool, a: &PythonValue, b: &PythonValue) -> (r: PythonResult<Outcome<PythonValue>>)
    requires
        !binary_stuck(if right { Instruction::RightShift } else { Instruction::LeftShift }, a@, b@),
    ensures result_is(r, shift_model(right, a@, b@)),
{
    match (a, b) {
        (PythonValue::Integer(x), PythonValue::Integer(y)) => {
            if *y < 0 {
                Err(PythonError::ValueError(text("negative shift count")))
            } else {
                let s = *y as u64;
                ready(PythonValue::Integer(if right { *x >> s } else { *x << s }))
            }
        },
        _ => {
            if right {
                type_failure("unsupported operand type(s) for >>")
            } else {
                type_failure("unsupported operand type(s) for <<")
            }
        },
    }
}

/// A comparison's boolean result as a value.
fn boolean(r: PythonResult<Outcome<bool>>, Ghost(m): Ghost<OpModel>) -> (out: PythonResult<Outcome<PythonValue>>)
    requires bool_result_is(r, m),
    ensures result_is(out, m),
{
    match r {
        Ok(Outcome::Ready(x)) => Ok(Outcome::Ready(PythonValue::Boolean(x))),
        Ok(Outcome::Float(t)) => Ok(Outcome::Float(t)),
        Err(e) => Err(e),
    }
}

/// `a == b` (or, with `negate`, `a != b`).
pub fn equality(negate: bool, a: &PythonValue, b: &PythonValue) -> (r: PythonResult<Outcome<PythonValue>>)
    ensures result_is(r, if negate { ne_model(a@, b@) } else { crate::value_ops::eq_model(a@, b@) }),
{
    match (a, b) {
        (PythonValue::Integer(_), PythonValue::Float(_)) |
        (PythonValue::Float(_), PythonValue::Integer(_)) =>
            float_work(if negate { FloatOp::Ne } else { FloatOp::Eq }, a, b),
        _ => {
            let e = values_equal(a, b);
            ready(PythonValue::Boolean(if negate { !e } else { e }))
        },
    }
}

/// `a <= b` (or, with `ge`, `a >= b`).
pub fn less_equal(ge: bool, a: &PythonValue, b: &PythonValue) -> (r: PythonResult<Outcome<PythonValue>>)
    ensures result_is(r, le_model(a@, b@, ge)),
{
    match (a, b) {
        (PythonValue::Integer(x), PythonValue::Integer(y)) => ready(PythonValue::Boolean(if ge { *x >= *y } else { *x <= *y })),
        (PythonValue::Float(x), PythonValue::Float(y)) =>
            ready(PythonValue::Boolean(if ge { bits_less(y.bits, x.bits, false) } else { bits_less(x.bits, y.bits, false) })),
        (PythonValue::String(x), PythonValue::String(y)) => {
            let v = if ge {
                str_less(y.as_str(), x.as_str()) || str_equal(y.as_str(), x.as_str())
            } else {
                str_less(x.as_str(), y.as_str()) || str_equal(x.as_str(), y.as_str())
            };
            ready(PythonValue::Boolean(v))
        },
        _ => {
            if mixed_numbers(a, b) {
                float_work(if ge { FloatOp::Ge } else { FloatOp::Le }, a, b)
            } else {
                type_failure("unorderable types")
            }
        },
    }
}

/// What a two-operand instruction gives on `a` (below) and `b` (top).
pub fn binary_value(i: &Instruction, a: &PythonValue, b: &PythonValue) -> (r: PythonResult<Outcome<PythonValue>>)
    requires is_binary(*i), !binary_stuck(*i, a@, b@),
    ensures result_is(r, binary_model(*i, a@, b@)),
{
    match i {
        Instruction::Add => a.add(b),
        Instruction::Subtract => a.sub(b),
        Instruction::Multiply => a.mul(b),
        Instruction::Divide => a.div(b),
        Instruction::FloorDivide => floor_divide(a, b),
        Instruction::Modulo => modulo(a, b),
        Instruction::Power => power(a, b),
        Instruction::BitwiseAnd => bitwise(0, a, b),
        Instruction::BitwiseOr => bitwise(1, a, b),
        Instruction::BitwiseXor => bitwise(2, a, b),
        Instruction::LeftShift => shift(false, a, b),
        Instruction::RightShift => shift(true, a, b),
        Instruction::Equal => equality(false, a, b),
        Instruction::NotEqual => equality(true, a, b),
        Instruction::LessThan => boolean(a.lt(b), Ghost(crate::value_ops::order_model(a@, b@, false))),
        Instruction::GreaterThan => boolean(a.gt(b), Ghost(crate::value_ops::order_model(a@, b@, true))),
        Instruction::LessThanOrEqual => less_equal(false, a, b),
        _ => less_equal(true, a, b),
    }
}

} // verus!
