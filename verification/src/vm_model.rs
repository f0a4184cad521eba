//! The semantics of the stack machine: what one instruction does to the value
//! stack, and what running a function from a program counter gives.
use vstd::prelude::*;
use vstd::utf8::encode_utf8;
use vstd::arithmetic::power::pow;
use crate::bytecode::Instruction;
use crate::float::{FloatOp, float_is_zero, float_le};
use crate::inline_vec::BUFFER_LIMIT;
use crate::model::{ErrorKind, OpModel, NumModel, float_op, type_err};
use crate::render::display_text;
use crate::equality::struct_eq;
use crate::value::{ValueModel, model_has_key, model_lookup, model_insert};
use crate::value_ops::{add_model, sub_model, mul_model, div_model, eq_model, order_model, truthy,
    get_item_model, set_item_model, string_index_panics, int_overflow, mixed_model, bytes_lt};

verus! {

/// What a run reads besides the stack: the current frame's locals, the
/// context's globals, and whether a JIT is present.
pub struct Env {
    /// Locals of the current frame.
    pub locals: Map<Seq<char>, ValueModel>,
    /// Globals of the context.
    pub globals: Map<Seq<char>, ValueModel>,
    /// Whether the machine has a JIT.
    pub jit: bool,
}

/// What one instruction does.
pub enum StepModel {
    /// It completed: the new stack and the next program counter.
    Next(Seq<ValueModel>, int),
    /// It raised this error, leaving this stack.
    Fail(ErrorKind, Seq<char>, Seq<ValueModel>),
    /// It waits for a binary64 task, its operands popped off this stack.
    Float(FloatOp, NumModel, NumModel, Seq<ValueModel>),
    /// It would stop the program (arithmetic overflow, a jump to 0, a
    /// failing string index).
    Stuck,
}

/// What running from a program counter gives.
pub enum RunModel {
    /// The code ran to its end, leaving this stack.
    Done(Seq<ValueModel>),
    /// An instruction raised an error: kind, message, the stack it left, and
    /// its program counter.
    Failed(ErrorKind, Seq<char>, Seq<ValueModel>, int),
    /// An instruction waits for a binary64 task: the task, the stack with its
    /// operands popped, and its program counter.
    Suspended(FloatOp, NumModel, NumModel, Seq<ValueModel>, int),
    /// The program would stop.
    Stuck,
    /// More steps than the fuel allows.
    OutOfFuel,
}

/// Instructions that pop two operands and push one result.
pub open spec fn is_binary(i: Instruction) -> bool {
    match i {
        Instruction::Add | Instruction::Subtract | Instruction::Multiply | Instruction::Divide
        | Instruction::FloorDivide | Instruction::Modulo | Instruction::Power
        | Instruction::BitwiseAnd | Instruction::BitwiseOr | Instruction::BitwiseXor
        | Instruction::LeftShift | Instruction::RightShift
        | Instruction::Equal | Instruction::NotEqual | Instruction::LessThan
        | Instruction::LessThanOrEqual | Instruction::GreaterThan | Instruction::GreaterThanOrEqual => true,
        _ => false,
    }
}

/// `|x|`.
pub open spec fn abs(x: int) -> int {
    if x < 0 { -x } else { x }
}

/// Rust's `/` on integers: the quotient rounded toward zero.
pub open spec fn trunc_div(x: int, y: int) -> int {
    if (x < 0) == (y < 0) { abs(x) / abs(y) } else { -(abs(x) / abs(y)) }
}

/// Rust's `%` on integers: the remainder with the dividend's sign.
pub open spec fn trunc_rem(x: int, y: int) -> int {
    if x < 0 { -(abs(x) % abs(y)) } else { abs(x) % abs(y) }
}

/// A float pattern or integer zero, as the floor-division and modulo
/// divisors are tested.
pub open spec fn zero_number(b: ValueModel) -> bool {
    match b {
        ValueModel::Integer(y) => y == 0,
        ValueModel::Float(y, _, _) => float_is_zero(y),
        _ => false,
    }
}

/// What `//` gives.
pub open spec fn floor_div_model(a: ValueModel, b: ValueModel) -> OpModel {
    match (a, b) {
        (ValueModel::Integer(x), ValueModel::Integer(y)) =>
            if y == 0 {
                OpModel::Error(ErrorKind::ZeroDivisionError, "integer division or modulo by zero"@)
            } else if (x < 0) != (y < 0) {
                float_op(FloatOp::IntFloorDiv, a, b)
            } else {
                OpModel::Value(ValueModel::Integer(trunc_div(x as int, y as int) as i64))
            },
        _ => if mixed_model(a, b) {
            if zero_number(b) {
                OpModel::Error(ErrorKind::ZeroDivisionError, "float division by zero"@)
            } else {
                float_op(FloatOp::FloorDiv, a, b)
            }
        } else {
            type_err("unsupported operand type(s) for //"@)
        },
    }
}

/// What `%` gives.
pub open spec fn mod_model(a: ValueModel, b: ValueModel) -> OpModel {
    match (a, b) {
        (ValueModel::Integer(x), ValueModel::Integer(y)) =>
            if y == 0 {
                OpModel::Error(ErrorKind::ZeroDivisionError, "integer division or modulo by zero"@)
            } else {
                OpModel::Value(ValueModel::Integer(trunc_rem(x as int, y as int) as i64))
            },
        _ => if mixed_model(a, b) {
            if zero_number(b) {
                OpModel::Error(ErrorKind::ZeroDivisionError, "float division by zero"@)
            } else {
                float_op(FloatOp::Rem, a, b)
            }
        } else {
            type_err("unsupported operand type(s) for %"@)
        },
    }
}

/// The exponent `i64::pow` receives: the right operand truncated to `u32`.
pub open spec fn exponent(y: i64) -> nat {
    (y as u32) as nat
}

/// What `**` gives: a negative integer exponent and any float operand are
/// binary64 work.
pub open spec fn pow_model(a: ValueModel, b: ValueModel) -> OpModel {
    match (a, b) {
        (ValueModel::Integer(x), ValueModel::Integer(y)) =>
            if y < 0 {
                float_op(FloatOp::Pow, a, b)
            } else {
                OpModel::Value(ValueModel::Integer(pow(x as int, exponent(y)) as i64))
            },
        _ => if mixed_model(a, b) {
            float_op(FloatOp::Pow, a, b)
        } else {
            type_err("unsupported operand type(s) for **"@)
        },
    }
}

/// What `&`, `|`, `^` (by `which`: 0, 1, 2) give.
pub open spec fn bit_model(which: int, a: ValueModel, b: ValueModel) -> OpModel {
    match (a, b) {
        (ValueModel::Integer(x), ValueModel::Integer(y)) =>
            OpModel::Value(ValueModel::Integer(if which == 0 { x & y } else if which == 1 { x | y } else { x ^ y })),
        _ => type_err(if which == 0 { "unsupported operand type(s) for &"@ }
            else if which == 1 { "unsupported operand type(s) for |"@ }
            else { "unsupported operand type(s) for ^"@ }),
    }
}

/// What `<<` (or, with `right`, `>>`) gives.
pub open spec fn shift_model(right: bool, a: ValueModel, b: ValueModel) -> OpModel {
    match (a, b) {
        (ValueModel::Integer(x), ValueModel::Integer(y)) =>
            if y < 0 {
                OpModel::Error(ErrorKind::ValueError, "negative shift count"@)
            } else {
                OpModel::Value(ValueModel::Integer(if right { x >> (y as u64) } else { x << (y as u64) }))
            },
        _ => type_err(if right { "unsupported operand type(s) for >>"@ } else { "unsupported operand type(s) for <<"@ }),
    }
}

/// What `!=` gives.
pub open spec fn ne_model(a: ValueModel, b: ValueModel) -> OpModel {
    if mixed_model(a, b) && !(a is Float && b is Float) {
        float_op(FloatOp::Ne, a, b)
    } else {
        OpModel::Value(ValueModel::Boolean(!struct_eq(a, b)))
    }
}

/// `a <= b` on strings, by bytes.
pub open spec fn str_le(x: Seq<char>, y: Seq<char>) -> bool {
    bytes_lt(encode_utf8(x), encode_utf8(y)) || x == y
}

/// What `<=` (or, with `ge`, `>=`) gives.
pub open spec fn le_model(a: ValueModel, b: ValueModel, ge: bool) -> OpModel {
    match (a, b) {
        (ValueModel::Integer(x), ValueModel::Integer(y)) =>
            OpModel::Value(ValueModel::Boolean(if ge { x >= y } else { x <= y })),
        (ValueModel::Float(x, _, _), ValueModel::Float(y, _, _)) =>
            OpModel::Value(ValueModel::Boolean(if ge { float_le(y, x) } else { float_le(x, y) })),
        (ValueModel::Str(x), ValueModel::Str(y)) =>
            OpModel::Value(ValueModel::Boolean(if ge { str_le(y, x) } else { str_le(x, y) })),
        _ => if mixed_model(a, b) {
            float_op(if ge { FloatOp::Ge } else { FloatOp::Le }, a, b)
        } else {
            type_err("unorderable types"@)
        },
    }
}

/// What a two-operand instruction gives on operands `a` (below) and `b` (top).
pub open spec fn binary_model(i: Instruction, a: ValueModel, b: ValueModel) -> OpModel {
    match i {
        Instruction::Add => add_model(a, b),
        Instruction::Subtract => sub_model(a, b),
        Instruction::Multiply => mul_model(a, b),
        Instruction::Divide => div_model(a, b),
        Instruction::FloorDivide => floor_div_model(a, b),
        Instruction::Modulo => mod_model(a, b),
        Instruction::Power => pow_model(a, b),
        Instruction::BitwiseAnd => bit_model(0, a, b),
        Instruction::BitwiseOr => bit_model(1, a, b),
        Instruction::BitwiseXor => bit_model(2, a, b),
        Instruction::LeftShift => shift_model(false, a, b),
        Instruction::RightShift => shift_model(true, a, b),
        Instruction::Equal => eq_model(a, b),
        Instruction::NotEqual => ne_model(a, b),
        Instruction::LessThan => order_model(a, b, false),
        Instruction::GreaterThan => order_model(a, b, true),
        Instruction::LessThanOrEqual => le_model(a, b, false),
        _ => le_model(a, b, true),
    }
}

/// Operands on which a two-operand instruction stops the program: integer
/// overflow, an oversized repetition, a shift by 64 or more.
pub open spec fn binary_stuck(i: Instruction, a: ValueModel, b: ValueModel) -> bool {
    match (a, b) {
        (ValueModel::Integer(x), ValueModel::Integer(y)) => match i {
            Instruction::Add => int_overflow(x + y),
            Instruction::Subtract => int_overflow(x - y),
            Instruction::Multiply => int_overflow(x * y),
            Instruction::FloorDivide => y != 0 && (x < 0) == (y < 0) && int_overflow(trunc_div(x as int, y as int)),
            Instruction::Modulo => x == i64::MIN && y == -1,
            Instruction::Power => y >= 0 && int_overflow(pow(x as int, exponent(y))),
            Instruction::LeftShift | Instruction::RightShift => y >= 64,
            _ => false,
        },
        (ValueModel::Str(x), ValueModel::Integer(n)) => i is Multiply && n >= 0
            && encode_utf8(x).len() * ((n as usize) as int) > isize::MAX,
        (ValueModel::List(x), ValueModel::Integer(n)) => i is Multiply && x.len() * n > usize::MAX,
        (ValueModel::Tuple(x), ValueModel::Integer(n)) => i is Multiply && x.len() * n > usize::MAX,
        _ => false,
    }
}

/// The step of a two-operand instruction.
pub open spec fn binary_step(i: Instruction, s: Seq<ValueModel>, pc: int) -> StepModel {
    let n = s.len();
    if n < 2 {
        StepModel::Next(s, pc + 1)
    } else if binary_stuck(i, s[n - 2], s[n - 1]) {
        StepModel::Stuck
    } else {
        let rest = s.subrange(0, n - 2);
        match binary_model(i, s[n - 2], s[n - 1]) {
            OpModel::Value(v) => StepModel::Next(rest.push(v), pc + 1),
            OpModel::Error(k, m) => StepModel::Fail(k, m, rest),
            OpModel::Float(op, l, r) => StepModel::Float(op, l, r, rest),
        }
    }
}

/// The dictionary that `BuildDict` makes from the `k` key/value pairs on top
/// of `s`, taken from the top down, each key by its text; a key met again
/// takes the new value.
pub open spec fn dict_pairs(s: Seq<ValueModel>, k: nat, es: Seq<(Seq<char>, ValueModel)>) -> Seq<(Seq<char>, ValueModel)>
    decreases k,
{
    if k == 0 || s.len() < 2 {
        es
    } else {
        let n = s.len();
        dict_pairs(s.subrange(0, n - 2), (k - 1) as nat, model_insert(es, display_text(s[n - 2]), s[n - 1]))
    }
}

/// The error that calling a non-function raises.
pub open spec fn not_callable(f: ValueModel) -> Seq<char> {
    "'"@ + display_text(f) + "' object is not callable"@
}

/// The error that a missing attribute raises.
pub open spec fn no_attribute(o: ValueModel, name: Seq<char>) -> Seq<char> {
    "'"@ + display_text(o) + "' object has no attribute '"@ + name + "'"@
}

/// The error that an unknown name raises.
pub open spec fn undefined_name(name: Seq<char>) -> Seq<char> {
    "name '"@ + name + "' is not defined"@
}

/// What a call pops and pushes: up to `k` arguments, then the function, if
/// any is left; a function gives what the JIT gives (42) or `None`.
pub open spec fn call_step(k: nat, env: Env, s: Seq<ValueModel>, pc: int) -> StepModel {
    let n = s.len();
    let m = if k < n { k } else { n };
    let s1 = s.subrange(0, n - m);
    if s1.len() == 0 {
        StepModel::Next(s1, pc + 1)
    } else {
        let f = s1.last();
        let s2 = s1.drop_last();
        match f {
            ValueModel::Function(_) =>
                StepModel::Next(s2.push(if env.jit { ValueModel::Integer(42) } else { ValueModel::NoneValue }), pc + 1),
            _ => StepModel::Fail(ErrorKind::TypeError, not_callable(f), s2),
        }
    }
}

/// What a jump that pops a condition does.
pub open spec fn cond_jump(when: bool, t: usize, s: Seq<ValueModel>, pc: int) -> StepModel {
    if s.len() == 0 {
        StepModel::Next(s, pc + 1)
    } else if truthy(s.last()) == when {
        if t == 0 { StepModel::Stuck } else { StepModel::Next(s.drop_last(), t as int) }
    } else {
        StepModel::Next(s.drop_last(), pc + 1)
    }
}

/// What one instruction at `pc` does to the stack `s`.
pub open spec fn step(i: Instruction, env: Env, s: Seq<ValueModel>, pc: int) -> StepModel {
    let n = s.len();
    let next = pc + 1;
    if is_binary(i) {
        binary_step(i, s, pc)
    } else {
        match i {
            Instruction::PushNull => StepModel::Next(s.push(ValueModel::NoneValue), next),
            Instruction::PushTrue => StepModel::Next(s.push(ValueModel::Boolean(true)), next),
            Instruction::PushFalse => StepModel::Next(s.push(ValueModel::Boolean(false)), next),
            Instruction::PushInteger(x) => StepModel::Next(s.push(ValueModel::Integer(x)), next),
            Instruction::PushFloat(f) => StepModel::Next(s.push(ValueModel::Float(f.bits, f.text@, f.repr@)), next),
            Instruction::PushString(t) => StepModel::Next(s.push(ValueModel::Str(t@)), next),
            Instruction::PushName(name) =>
                if env.locals.dom().contains(name@) {
                    StepModel::Next(s.push(env.locals[name@]), next)
                } else if env.globals.dom().contains(name@) {
                    StepModel::Next(s.push(env.globals[name@]), next)
                } else {
                    StepModel::Fail(ErrorKind::NameError, undefined_name(name@), s)
                },
            Instruction::Pop => StepModel::Next(if n > 0 { s.drop_last() } else { s }, next),
            Instruction::Dup => StepModel::Next(if n > 0 { s.push(s.last()) } else { s }, next),
            Instruction::Rot2 => StepModel::Next(
                if n >= 2 { s.subrange(0, n - 2).push(s[n - 1]).push(s[n - 2]) } else { s }, next),
            Instruction::Rot3 => StepModel::Next(
                if n >= 3 { s.subrange(0, n - 3).push(s[n - 1]).push(s[n - 3]).push(s[n - 2]) } else { s }, next),
            Instruction::BitwiseNot =>
                if n == 0 {
                    StepModel::Next(s, next)
                } else {
                    match s.last() {
                        ValueModel::Integer(x) => StepModel::Next(s.drop_last().push(ValueModel::Integer(!x)), next),
                        _ => StepModel::Fail(ErrorKind::TypeError, "unsupported operand type(s) for ~"@, s.drop_last()),
                    }
                },
            Instruction::And => StepModel::Next(if n >= 2 && truthy(s.last()) { s.drop_last() } else { s }, next),
            Instruction::Or => StepModel::Next(if n >= 2 && !truthy(s.last()) { s.drop_last() } else { s }, next),
            Instruction::Not => StepModel::Next(
                if n > 0 { s.drop_last().push(ValueModel::Boolean(!truthy(s.last()))) } else { s }, next),
            Instruction::Jump(t) => if t == 0 { StepModel::Stuck } else { StepModel::Next(s, t as int) },
            Instruction::JumpIfTrue(t) => cond_jump(true, t, s, pc),
            Instruction::JumpIfFalse(t) => cond_jump(false, t, s, pc),
            Instruction::Call(k) => call_step(k as nat, env, s, pc),
            Instruction::MakeFunction(_) => StepModel::Next(s.push(ValueModel::Function("anonymous"@)), next),
            Instruction::LoadMethod(name) =>
                if n == 0 {
                    StepModel::Next(s, next)
                } else {
                    StepModel::Next(s.push(ValueModel::Function(display_text(s.last()) + "."@ + name@)), next)
                },
            Instruction::GetAttribute(name) =>
                if n == 0 {
                    StepModel::Next(s, next)
                } else {
                    match s.last() {
                        ValueModel::Object(_, es) =>
                            if model_has_key(es, name@) {
                                StepModel::Next(s.drop_last().push(model_lookup(es, name@)), next)
                            } else {
                                StepModel::Fail(ErrorKind::AttributeError, no_attribute(s.last(), name@), s.drop_last())
                            },
                        _ => StepModel::Next(s.drop_last().push(ValueModel::NoneValue), next),
                    }
                },
            Instruction::SetAttribute(name) =>
                if n < 2 {
                    StepModel::Next(s.subrange(0, 0), next)
                } else {
                    let rest = s.subrange(0, n - 2);
                    match s[n - 2] {
                        ValueModel::Object(_, es) =>
                            StepModel::Next(rest.push(ValueModel::Object("object"@, model_insert(es, name@, s[n - 1]))), next),
                        _ => StepModel::Next(rest.push(s[n - 2]), next),
                    }
                },
            Instruction::GetItem =>
                if n < 2 {
                    StepModel::Next(s.subrange(0, 0), next)
                } else if string_index_panics(s[n - 2], s[n - 1]) {
                    StepModel::Stuck
                } else {
                    let rest = s.subrange(0, n - 2);
                    match get_item_model(s[n - 2], s[n - 1]) {
                        OpModel::Value(v) => StepModel::Next(rest.push(v), next),
                        _ => StepModel::Next(rest.push(ValueModel::NoneValue), next),
                    }
                },
            Instruction::SetItem =>
                if n < 3 {
                    StepModel::Next(s.subrange(0, 0), next)
                } else {
                    let rest = s.subrange(0, n - 3);
                    match set_item_model(s[n - 3], s[n - 2], s[n - 1]) {
                        OpModel::Value(c) => StepModel::Next(rest.push(c), next),
                        OpModel::Error(k, m) => StepModel::Fail(k, m, rest),
                        OpModel::Float(_, _, _) => StepModel::Stuck,
                    }
                },
            Instruction::BuildTuple(k) =>
                StepModel::Next(if n >= k { s.subrange(0, n - k).push(ValueModel::Tuple(s.subrange(n - k, n as int))) } else { s }, next),
            Instruction::BuildList(k) =>
                StepModel::Next(if n >= k { s.subrange(0, n - k).push(ValueModel::List(s.subrange(n - k, n as int))) } else { s }, next),
            Instruction::BuildDict(k) =>
                if 2 * k > usize::MAX {
                    StepModel::Stuck
                } else if n >= 2 * k {
                    StepModel::Next(s.subrange(0, n - 2 * k).push(ValueModel::Dict(dict_pairs(s, k as nat, Seq::empty()))), next)
                } else {
                    StepModel::Next(s, next)
                },
            _ => StepModel::Next(s, next),
        }
    }
}

/// Running `code` from `pc` with at most `fuel` steps.
pub open spec fn run(code: Seq<Instruction>, env: Env, s: Seq<ValueModel>, pc: int, fuel: nat) -> RunModel
    decreases fuel,
{
    if pc >= code.len() {
        RunModel::Done(s)
    } else if fuel == 0 {
        RunModel::OutOfFuel
    } else if s.len() >= BUFFER_LIMIT {
        RunModel::Stuck
    } else {
        match step(code[pc], env, s, pc) {
            StepModel::Next(s2, p2) => run(code, env, s2, p2, (fuel - 1) as nat),
            StepModel::Fail(k, m, s2) => RunModel::Failed(k, m, s2, pc),
            StepModel::Float(op, l, r, s2) => RunModel::Suspended(op, l, r, s2, pc),
            StepModel::Stuck => RunModel::Stuck,
        }
    }
}

/// Whether running from `pc` ends (at the end of the code, in an error, or
/// waiting for a binary64 task) without stopping the program.
pub open spec fn run_ends(code: Seq<Instruction>, env: Env, s: Seq<ValueModel>, pc: int) -> bool {
    exists|fuel: nat| #![trigger run(code, env, s, pc, fuel)]
        !(run(code, env, s, pc, fuel) is OutOfFuel) && !(run(code, env, s, pc, fuel) is Stuck)
}

/// With enough fuel to end, more fuel gives the same result.
pub proof fn lemma_run_fuel(code: Seq<Instruction>, env: Env, s: Seq<ValueModel>, pc: int, f1: nat, f2: nat)
    requires
        !(run(code, env, s, pc, f1) is OutOfFuel),
        f1 <= f2,
    ensures
        run(code, env, s, pc, f2) == run(code, env, s, pc, f1),
    decreases f1,
{
    if pc < code.len() && f1 > 0 && s.len() < BUFFER_LIMIT {
        match step(code[pc], env, s, pc) {
            StepModel::Next(s2, p2) => lemma_run_fuel(code, env, s2, p2, (f1 - 1) as nat, (f2 - 1) as nat),
            _ => {},
        }
    }
}

/// Any two fuels that end give the same result.
pub proof fn lemma_run_unique(code: Seq<Instruction>, env: Env, s: Seq<ValueModel>, pc: int, f1: nat, f2: nat)
    requires
        !(run(code, env, s, pc, f1) is OutOfFuel),
        !(run(code, env, s, pc, f2) is OutOfFuel),
    ensures
        run(code, env, s, pc, f2) == run(code, env, s, pc, f1),
{
    if f1 <= f2 {
        lemma_run_fuel(code, env, s, pc, f1, f2);
    } else {
        lemma_run_fuel(code, env, s, pc, f2, f1);
    }
}

} // verus!

verus! {

/// The stack after one `Rot3`.
pub open spec fn rot3_of(env: Env, s: Seq<ValueModel>) -> Seq<ValueModel> {
    match step(Instruction::Rot3, env, s, 0) {
        StepModel::Next(t, _) => t,
        _ => s,
    }
}

/// `Rot3` always completes: the top value moves down two places
/// (`[x, y, z]` becomes `[z, x, y]`), a stack of fewer than three values is
/// left as it is, and three rotations in a row give the stack back.
pub proof fn law_rot3(env: Env, s: Seq<ValueModel>, pc: int)
    ensures
        step(Instruction::Rot3, env, s, pc) == StepModel::Next(rot3_of(env, s), pc + 1),
        s.len() < 3 ==> rot3_of(env, s) == s,
        s.len() >= 3 ==> rot3_of(env, s) == s.subrange(0, s.len() - 3)
            .push(s[s.len() - 1]).push(s[s.len() - 3]).push(s[s.len() - 2]),
        rot3_of(env, rot3_of(env, rot3_of(env, s))) == s,
{
    let n = s.len();
    if n >= 3 {
        let p = s.subrange(0, n - 3);
        let s1 = rot3_of(env, s);
        let s2 = rot3_of(env, s1);
        let s3 = rot3_of(env, s2);
        assert(s1 =~= p.push(s[n - 1]).push(s[n - 3]).push(s[n - 2]));
        assert(s1.subrange(0, n - 3) =~= p);
        assert(s2 =~= p.push(s[n - 2]).push(s[n - 1]).push(s[n - 3]));
        assert(s2.subrange(0, n - 3) =~= p);
        assert(s3 =~= s);
    }
}

/// A two-operand instruction on a stack of fewer than two values completes
/// and leaves the stack as it is.
pub proof fn law_binary_on_short_stack(i: Instruction, env: Env, s: Seq<ValueModel>, pc: int)
    requires is_binary(i), s.len() < 2,
    ensures step(i, env, s, pc) == StepModel::Next(s, pc + 1),
{
}

/// `==` and `!=` push opposite booleans on the same two operands, where
/// neither asks the host for binary64 work (an integer against a float does).
pub proof fn law_equal_and_not_equal_opposite(env: Env, s: Seq<ValueModel>, a: ValueModel, b: ValueModel, pc: int)
    requires
        !mixed_model(a, b) || (a is Float && b is Float),
    ensures
        step(Instruction::Equal, env, s.push(a).push(b), pc)
            == StepModel::Next(s.push(ValueModel::Boolean(struct_eq(a, b))), pc + 1),
        step(Instruction::NotEqual, env, s.push(a).push(b), pc)
            == StepModel::Next(s.push(ValueModel::Boolean(!struct_eq(a, b))), pc + 1),
{
    let t = s.push(a).push(b);
    assert(t.subrange(0, t.len() - 2) =~= s);
    assert(t[t.len() - 2] == a && t[t.len() - 1] == b);
}

/// Python's floor-division identity `(a // b) * b + a % b == a`, with the
/// remainder zero or of the divisor's sign, where both operands have the
/// same sign (there the machine computes both results exactly; with mixed
/// signs the quotient is binary64 work and the remainder keeps the
/// dividend's sign).
pub proof fn law_floor_division_identity(env: Env, s: Seq<ValueModel>, x: i64, y: i64, pc: int)
    requires
        y != 0,
        (x < 0) == (y < 0),
        !(x == i64::MIN && y == -1),
    ensures
        ({
            let t = s.push(ValueModel::Integer(x)).push(ValueModel::Integer(y));
            let q = trunc_div(x as int, y as int);
            let r = trunc_rem(x as int, y as int);
            &&& i64::MIN <= q <= i64::MAX
            &&& i64::MIN <= r <= i64::MAX
            &&& step(Instruction::FloorDivide, env, t, pc) == StepModel::Next(s.push(ValueModel::Integer(q as i64)), pc + 1)
            &&& step(Instruction::Modulo, env, t, pc) == StepModel::Next(s.push(ValueModel::Integer(r as i64)), pc + 1)
            &&& q * y + r == x
            &&& (r == 0 || ((r < 0) == (y < 0)))
        }),
{
    let t = s.push(ValueModel::Integer(x)).push(ValueModel::Integer(y));
    assert(t.subrange(0, t.len() - 2) =~= s);
    let ax = abs(x as int);
    let ay = abs(y as int);
    assert(ay > 0);
    vstd::arithmetic::div_mod::lemma_fundamental_div_mod(ax, ay);
    vstd::arithmetic::div_mod::lemma_mod_pos_bound(ax, ay);
    vstd::arithmetic::div_mod::lemma_div_pos_is_pos(ax, ay);
    vstd::arithmetic::div_mod::lemma_div_nonincreasing(ax, ay);
    let qq = ax / ay;
    let rr = ax % ay;
    assert(ax == ay * qq + rr);
    assert(0 <= qq <= ax);
    if x >= 0 {
        assert(trunc_div(x as int, y as int) == qq);
        assert(trunc_rem(x as int, y as int) == rr);
        assert(qq * y + rr == x) by (nonlinear_arith)
            requires ax == ay * qq + rr, ax == x, ay == y;
    } else {
        assert(trunc_div(x as int, y as int) == qq);
        assert(trunc_rem(x as int, y as int) == -rr);
        assert(qq * y - rr == x) by (nonlinear_arith)
            requires ax == ay * qq + rr, ax == -x, ay == -y;
        if ay >= 2 {
            vstd::arithmetic::div_mod::lemma_div_is_ordered_by_denominator(ax, 2, ay);
            assert(ax / 2 <= 0x4000_0000_0000_0000);
        } else {
            assert(ay == 1);
            assert(x != i64::MIN);
        }
        assert(qq <= i64::MAX);
    }
}

} // verus!

verus! {

/// On two integers the bitwise instructions compute Rust's `&`, `|` and `^`:
/// `x ^ y` undone by `^ y` gives `x` back and `x ^ x` is 0, `x & y` keeps
/// only bits of both and `x | y` every bit of either.
pub proof fn law_bitwise_on_integers(x: i64, y: i64)
    ensures
        binary_model(Instruction::BitwiseXor, ValueModel::Integer(x), ValueModel::Integer(y))
            matches OpModel::Value(ValueModel::Integer(r)) && r ^ y == x && r ^ x == y && r == x ^ y,
        binary_model(Instruction::BitwiseXor, ValueModel::Integer(x), ValueModel::Integer(x))
            == OpModel::Value(ValueModel::Integer(0)),
        binary_model(Instruction::BitwiseAnd, ValueModel::Integer(x), ValueModel::Integer(y))
            matches OpModel::Value(ValueModel::Integer(r)) && r & x == r && r & y == r && r == x & y,
        binary_model(Instruction::BitwiseOr, ValueModel::Integer(x), ValueModel::Integer(y))
            matches OpModel::Value(ValueModel::Integer(r)) && r | x == r && r | y == r && r == x | y,
        !binary_stuck(Instruction::BitwiseXor, ValueModel::Integer(x), ValueModel::Integer(y)),
        !binary_stuck(Instruction::BitwiseAnd, ValueModel::Integer(x), ValueModel::Integer(y)),
        !binary_stuck(Instruction::BitwiseOr, ValueModel::Integer(x), ValueModel::Integer(y)),
{
    assert((x ^ y) ^ y == x && (x ^ y) ^ x == y && x ^ x == 0) by (bit_vector);
    assert((x & y) & x == (x & y) && (x & y) & y == (x & y)) by (bit_vector);
    assert((x | y) | x == (x | y) && (x | y) | y == (x | y)) by (bit_vector);
}

} // verus!

verus! {

/// Conditional jumps pop the condition and go to the target exactly when
/// it has the tested truthiness (`JumpIfTrue` on a true value, `JumpIfFalse`
/// on a false one), else to the next instruction; the two are complementary.
pub proof fn law_conditional_jumps(env: Env, s: Seq<ValueModel>, v: ValueModel, t: usize, pc: int)
    requires t != 0,
    ensures
        step(Instruction::JumpIfTrue(t), env, s.push(v), pc)
            == StepModel::Next(s, if truthy(v) { t as int } else { pc + 1 }),
        step(Instruction::JumpIfFalse(t), env, s.push(v), pc)
            == StepModel::Next(s, if truthy(v) { pc + 1 } else { t as int }),
        step(Instruction::Jump(t), env, s, pc) == StepModel::Next(s, t as int),
{
    assert(s.push(v).drop_last() =~= s);
}

/// `Rot2` swaps the two top values, so two in a row give the stack back;
/// `Dup` pushes a copy of the top value.
pub proof fn law_rot2_and_dup(env: Env, s: Seq<ValueModel>, a: ValueModel, b: ValueModel, pc: int)
    ensures
        step(Instruction::Rot2, env, s.push(a).push(b), pc) == StepModel::Next(s.push(b).push(a), pc + 1),
        step(Instruction::Dup, env, s.push(a), pc) == StepModel::Next(s.push(a).push(a), pc + 1),
        step(Instruction::Pop, env, s.push(a), pc) == StepModel::Next(s, pc + 1),
{
    let t = s.push(a).push(b);
    assert(t.subrange(0, t.len() - 2) =~= s);
    assert(s.push(a).drop_last() =~= s);
}

} // verus!
