//! Operations on Python values.
use vstd::prelude::*;
use std::sync::Arc;
use vstd::utf8::encode_utf8;
use crate::float::{FloatValue, FloatTask, FloatOp, Number, Outcome, is_zero, float_is_zero, float_lt, bits_less, bits_eq, float_eq};
use crate::model::{ErrorKind, OpModel, NumModel, float_op, type_err, result_is, bool_result_is, task_is, num_of, number_model, is_error};
use crate::equality::{struct_eq, values_equal, vectors_equal, dicts_equal, items_eq, entries_eq};
use crate::text::{int_text, int_to_text, concat_str};
use crate::render::{display_text, items_text, entries_text, bool_text, push_items, push_entries};
use crate::value::{PythonValue, PythonError, PythonResult, ValueModel, Dict, models, lemma_models, share, share_all, entry_keys_distinct,
    model_has_key, model_lookup, model_insert, seq_models, lemma_seq_models, lemma_models_push, lemma_models_update, lemma_models_concat};

verus! {

/// Truthiness of a value.
pub open spec fn truthy(m: ValueModel) -> bool {
    match m {
        ValueModel::NoneValue => false,
        ValueModel::Boolean(b) => b,
        ValueModel::Integer(i) => i != 0,
        ValueModel::Float(bits, _, _) => !float_is_zero(bits),
        ValueModel::Str(s) => s.len() > 0,
        ValueModel::List(items) => items.len() > 0,
        ValueModel::Tuple(items) => items.len() > 0,
        ValueModel::Dict(es) => es.len() > 0,
        _ => true,
    }
}

/// The length `len` reports: items, entries, or UTF-8 bytes of a string.
pub open spec fn length_of(m: ValueModel) -> nat {
    match m {
        ValueModel::List(items) => items.len(),
        ValueModel::Tuple(items) => items.len(),
        ValueModel::Dict(es) => es.len(),
        ValueModel::Str(s) => (encode_utf8(s).len() as usize) as nat,
        _ => 0,
    }
}

/// The error for an operand pair that an operation does not support.
pub open spec fn is_type_error<T>(r: PythonResult<T>, msg: Seq<char>) -> bool {
    r matches Err(PythonError::TypeError(m)) && m@ == msg
}

/// A new `String` holding `s`.
fn string_of(s: &str) -> (r: String)
    ensures r@ == s@,
{
    String::from_str(s)
}

/// A task on two operands.
fn task(op: FloatOp, lhs: Number, rhs: Number) -> (t: FloatTask)
    ensures t == (FloatTask { op, lhs, rhs }),
{
    FloatTask { op, lhs, rhs }
}

/// A type error with the given message.
fn type_error<T>(msg: &str) -> (r: PythonResult<T>)
    ensures is_type_error(r, msg@),
{
    Err(PythonError::TypeError(string_of(msg)))
}


/// An error of the given kind whose message is `prefix` followed by the
/// decimal text of `i`.
fn index_error(prefix: &str, i: i64) -> (e: PythonError)
    ensures e matches PythonError::IndexError(m) && m@ == prefix@ + int_text(i as int),
{
    let t = int_to_text(i);
    PythonError::IndexError(concat_str(prefix, t.as_str()))
}

/// What indexing gives: an item of a list or tuple, a dictionary's value, a
/// one-character string, or the error.
pub open spec fn get_item_model(c: ValueModel, k: ValueModel) -> OpModel {
    match (c, k) {
        (ValueModel::List(items), ValueModel::Integer(i)) =>
            if ((i as usize) as int) < items.len() {
                OpModel::Value(items[(i as usize) as int])
            } else {
                OpModel::Error(ErrorKind::IndexError, "list index out of range: "@ + int_text(i as int))
            },
        (ValueModel::Tuple(items), ValueModel::Integer(i)) =>
            if ((i as usize) as int) < items.len() {
                OpModel::Value(items[(i as usize) as int])
            } else {
                OpModel::Error(ErrorKind::IndexError, "tuple index out of range: "@ + int_text(i as int))
            },
        (ValueModel::Dict(es), ValueModel::Str(key)) =>
            if model_has_key(es, key) {
                OpModel::Value(model_lookup(es, key))
            } else {
                OpModel::Error(ErrorKind::KeyError, key)
            },
        (ValueModel::Str(s), ValueModel::Integer(i)) =>
            if ((i as usize) as int) < ((encode_utf8(s).len() as usize) as int) {
                OpModel::Value(ValueModel::Str(seq![s[(i as usize) as int]]))
            } else {
                OpModel::Error(ErrorKind::IndexError, "string index out of range: "@ + int_text(i as int))
            },
        _ => type_err("unsupported operand type(s) for []"@),
    }
}

/// Whether an indexing result is the one the model describes.
pub open spec fn item_result_is(r: PythonResult<Arc<PythonValue>>, m: OpModel) -> bool {
    match m {
        OpModel::Value(v) => r matches Ok(x) && x@ == v,
        OpModel::Error(k, msg) => r matches Err(e) && is_error(e, k, msg),
        OpModel::Float(_, _, _) => false,
    }
}

/// What storing an item gives: the updated container, or the error.
pub open spec fn set_item_model(c: ValueModel, k: ValueModel, v: ValueModel) -> OpModel {
    match (c, k) {
        (ValueModel::List(items), ValueModel::Integer(i)) =>
            if ((i as usize) as int) < items.len() {
                OpModel::Value(ValueModel::List(items.update((i as usize) as int, v)))
            } else {
                OpModel::Error(ErrorKind::IndexError, "list assignment index out of range: "@ + int_text(i as int))
            },
        (ValueModel::Dict(es), ValueModel::Str(key)) => OpModel::Value(ValueModel::Dict(model_insert(es, key, v))),
        _ => type_err("unsupported assignment to type"@),
    }
}

/// Inputs on which indexing a string would fail inside std: an index below
/// the byte length but not below the character count.
pub open spec fn string_index_panics(c: ValueModel, k: ValueModel) -> bool {
    match (c, k) {
        (ValueModel::Str(s), ValueModel::Integer(i)) =>
            ((i as usize) as int) < ((encode_utf8(s).len() as usize) as int) && ((i as usize) as int) >= s.len(),
        _ => false,
    }
}


/// Whether a value is an integer or a float.
pub open spec fn is_number(v: PythonValue) -> bool {
    v is Integer || v is Float
}

/// Two numbers of which at least one is a float: binary64 work for the host.
pub open spec fn mixed_float(a: PythonValue, b: PythonValue) -> bool {
    is_number(a) && is_number(b) && (a is Float || b is Float)
}

/// The task operand for a number value.
pub open spec fn num(v: PythonValue) -> Number {
    match v {
        PythonValue::Integer(i) => Number::Int(i),
        PythonValue::Float(f) => Number::Float(f),
        _ => Number::Int(0),
    }
}

/// The binary64 task `op` on two number values.
pub open spec fn float_task(op: FloatOp, a: PythonValue, b: PythonValue) -> FloatTask {
    FloatTask { op, lhs: num(a), rhs: num(b) }
}

/// `s` repeated `n` times.
pub open spec fn repeat_seq<A>(s: Seq<A>, n: nat) -> Seq<A>
    decreases n,
{
    if n == 0 { Seq::empty() } else { repeat_seq(s, (n - 1) as nat) + s }
}

/// An integer operation whose result leaves the `i64` range, where Rust's
/// checked arithmetic stops the program.
pub open spec fn int_overflow(r: int) -> bool {
    r < i64::MIN || r > i64::MAX
}

/// Two number models of which at least one is a float.
pub open spec fn mixed_model(a: ValueModel, b: ValueModel) -> bool {
    (a is Integer || a is Float) && (b is Integer || b is Float) && (a is Float || b is Float)
}

/// What `+` gives.
pub open spec fn add_model(a: ValueModel, b: ValueModel) -> OpModel {
    if mixed_model(a, b) {
        float_op(FloatOp::Add, a, b)
    } else {
        match (a, b) {
            (ValueModel::Integer(x), ValueModel::Integer(y)) => OpModel::Value(ValueModel::Integer((x + y) as i64)),
            (ValueModel::Str(x), ValueModel::Str(y)) => OpModel::Value(ValueModel::Str(x + y)),
            (ValueModel::List(x), ValueModel::List(y)) => OpModel::Value(ValueModel::List(x + y)),
            (ValueModel::Tuple(x), ValueModel::Tuple(y)) => OpModel::Value(ValueModel::Tuple(x + y)),
            _ => type_err("unsupported operand type(s) for +"@),
        }
    }
}

/// What `-` gives.
pub open spec fn sub_model(a: ValueModel, b: ValueModel) -> OpModel {
    if mixed_model(a, b) {
        float_op(FloatOp::Sub, a, b)
    } else {
        match (a, b) {
            (ValueModel::Integer(x), ValueModel::Integer(y)) => OpModel::Value(ValueModel::Integer((x - y) as i64)),
            _ => type_err("unsupported operand type(s) for -"@),
        }
    }
}

/// What `*` gives.
pub open spec fn mul_model(a: ValueModel, b: ValueModel) -> OpModel {
    if mixed_model(a, b) {
        float_op(FloatOp::Mul, a, b)
    } else {
        match (a, b) {
            (ValueModel::Integer(x), ValueModel::Integer(y)) => OpModel::Value(ValueModel::Integer((x * y) as i64)),
            (ValueModel::Str(x), ValueModel::Integer(n)) =>
                OpModel::Value(ValueModel::Str(if n >= 0 { repeat_seq(x, ((n as usize) as nat)) } else { Seq::empty() })),
            (ValueModel::List(x), ValueModel::Integer(n)) =>
                OpModel::Value(ValueModel::List(if n >= 0 { repeat_seq(x, n as nat) } else { Seq::empty() })),
            (ValueModel::Tuple(x), ValueModel::Integer(n)) =>
                OpModel::Value(ValueModel::Tuple(if n >= 0 { repeat_seq(x, n as nat) } else { Seq::empty() })),
            _ => type_err("unsupported operand type(s) for *"@),
        }
    }
}

/// A divisor that `div` refuses: integer zero or either float zero.
pub open spec fn is_zero_divisor(b: ValueModel) -> bool {
    match b {
        ValueModel::Integer(0) => true,
        ValueModel::Float(bits, _, _) => float_is_zero(bits),
        _ => false,
    }
}

/// What `/` gives: a zero divisor is refused first, whatever the dividend;
/// every other division of numbers is binary64 work, integers included.
pub open spec fn div_model(a: ValueModel, b: ValueModel) -> OpModel {
    if is_zero_divisor(b) {
        OpModel::Error(ErrorKind::ZeroDivisionError, "division by zero"@)
    } else if (a is Integer || a is Float) && (b is Integer || b is Float) {
        float_op(FloatOp::Div, a, b)
    } else {
        type_err("unsupported operand type(s) for /"@)
    }
}

/// Byte-wise lexicographic order, as `str`'s `Ord` compares.
pub open spec fn bytes_lt(a: Seq<u8>, b: Seq<u8>) -> bool
    decreases a.len(),
{
    if a.len() == 0 {
        b.len() > 0
    } else if b.len() == 0 {
        false
    } else if a[0] != b[0] {
        a[0] < b[0]
    } else {
        bytes_lt(a.drop_first(), b.drop_first())
    }
}

/// What `==` gives: an integer against a float is binary64 work; everything
/// else is structural equality.
pub open spec fn eq_model(a: ValueModel, b: ValueModel) -> OpModel {
    if mixed_model(a, b) && !(a is Float && b is Float) {
        float_op(FloatOp::Eq, a, b)
    } else {
        OpModel::Value(ValueModel::Boolean(struct_eq(a, b)))
    }
}

/// What `<` (or, with `greater`, `>`) gives.
pub open spec fn order_model(a: ValueModel, b: ValueModel, greater: bool) -> OpModel {
    if mixed_model(a, b) && !(a is Float && b is Float) {
        float_op(if greater { FloatOp::Gt } else { FloatOp::Lt }, a, b)
    } else {
        match (a, b) {
            (ValueModel::Integer(x), ValueModel::Integer(y)) =>
                OpModel::Value(ValueModel::Boolean(if greater { x > y } else { x < y })),
            (ValueModel::Float(x, _, _), ValueModel::Float(y, _, _)) =>
                OpModel::Value(ValueModel::Boolean(if greater { float_lt(y, x) } else { float_lt(x, y) })),
            (ValueModel::Str(x), ValueModel::Str(y)) =>
                OpModel::Value(ValueModel::Boolean(if greater { bytes_lt(encode_utf8(y), encode_utf8(x)) }
                    else { bytes_lt(encode_utf8(x), encode_utf8(y)) })),
            _ => type_err("unorderable types"@),
        }
    }
}

/// Whether an equality's outcome is the one the model describes.
pub open spec fn eq_outcome_is(r: Outcome<bool>, m: OpModel) -> bool {
    match m {
        OpModel::Value(v) => r matches Outcome::Ready(x) && v == ValueModel::Boolean(x),
        OpModel::Float(op, l, rr) => r matches Outcome::Float(t) && task_is(t, op, l, rr),
        OpModel::Error(_, _) => false,
    }
}

/// The task operand for a number value.
fn number_of_value(v: &PythonValue) -> (n: Number)
    requires is_number(*v),
    ensures n == num(*v),
{
    match v {
        PythonValue::Integer(i) => Number::Int(*i),
        PythonValue::Float(f) => Number::Float(f.clone()),
        _ => Number::Int(0),
    }
}

fn number_task(op: FloatOp, a: &PythonValue, b: &PythonValue) -> (t: FloatTask)
    requires is_number(*a), is_number(*b),
    ensures t == float_task(op, *a, *b),
{
    task(op, number_of_value(a), number_of_value(b))
}

/// Whether two values are an integer and a float, or two floats.
fn mixed(a: &PythonValue, b: &PythonValue) -> (r: bool)
    ensures r == mixed_float(*a, *b),
{
    match (a, b) {
        (PythonValue::Integer(_), PythonValue::Float(_)) => true,
        (PythonValue::Float(_), PythonValue::Integer(_)) => true,
        (PythonValue::Float(_), PythonValue::Float(_)) => true,
        _ => false,
    }
}

/// `s` repeated `n` times.
fn repeat_string(s: &String, n: usize) -> (r: String)
    ensures r@ == repeat_seq(s@, n as nat),
{
    let mut r = String::new();
    if s.as_str().is_empty() {
        proof { lemma_repeat_empty(s@, n as nat); }
        return r;
    }
    let mut k: usize = 0;
    while k < n
        invariant
            k <= n,
            r@ == repeat_seq(s@, k as nat),
        decreases n - k,
    {
        r.append(s.as_str());
        k = k + 1;
    }
    r
}

proof fn lemma_repeat_empty<A>(s: Seq<A>, n: nat)
    requires s.len() == 0,
    ensures repeat_seq(s, n) == Seq::<A>::empty(),
    decreases n,
{
    if n > 0 {
        lemma_repeat_empty(s, (n - 1) as nat);
        assert(repeat_seq(s, n) =~= Seq::<A>::empty());
    }
}

/// The items of `s` repeated `n` times, shared.
fn repeat_items(s: &Vec<Arc<PythonValue>>, n: i64) -> (r: Vec<Arc<PythonValue>>)
    requires n >= 0,
    ensures seq_models(r@) == repeat_seq(seq_models(s@), n as nat),
{
    let mut r: Vec<Arc<PythonValue>> = Vec::new();
    let mut k: i64 = 0;
    proof { lemma_seq_models(r@); assert(seq_models(r@) =~= Seq::<ValueModel>::empty()); }
    while k < n
        invariant
            0 <= k <= n,
            seq_models(r@) == repeat_seq(seq_models(s@), k as nat),
        decreases n - k,
    {
        let ghost before = r@;
        let mut j: usize = 0;
        while j < s.len()
            invariant
                j <= s@.len(),
                r@ == before + s@.subrange(0, j as int),
            decreases s@.len() - j,
        {
            r.push(share(&s[j]));
            j = j + 1;
        }
        proof {
            assert(s@.subrange(0, s@.len() as int) == s@);
            lemma_models_concat(before, s@);
        }
        k = k + 1;
    }
    r
}


/// Byte-wise lexicographic less-than of two strings.
pub fn str_less(a: &str, b: &str) -> (r: bool)
    ensures r == bytes_lt(encode_utf8(a@), encode_utf8(b@)),
{
    let x = a.as_bytes();
    let y = b.as_bytes();
    let mut i: usize = 0;
    assert(x@.skip(0) == x@);
    assert(y@.skip(0) == y@);
    while i < x.len() && i < y.len()
        invariant
            x@ == encode_utf8(a@),
            y@ == encode_utf8(b@),
            i <= x@.len(),
            i <= y@.len(),
            x@.subrange(0, i as int) == y@.subrange(0, i as int),
            bytes_lt(x@, y@) == bytes_lt(x@.skip(i as int), y@.skip(i as int)),
        decreases x@.len() - i,
    {
        if x[i] != y[i] {
            proof { lemma_bytes_lt_head(x@.skip(i as int), y@.skip(i as int)); }
            return x[i] < y[i];
        }
        proof {
            lemma_bytes_lt_head(x@.skip(i as int), y@.skip(i as int));
            assert(x@.skip(i as int).drop_first() == x@.skip(i + 1));
            assert(y@.skip(i as int).drop_first() == y@.skip(i + 1));
            assert(x@.subrange(0, i + 1) == x@.subrange(0, i as int).push(x@[i as int]));
            assert(y@.subrange(0, i + 1) == y@.subrange(0, i as int).push(y@[i as int]));
        }
        i = i + 1;
    }
    proof { lemma_bytes_lt_head(x@.skip(i as int), y@.skip(i as int)); }
    i == x.len() && i < y.len()
}

proof fn lemma_bytes_lt_head(a: Seq<u8>, b: Seq<u8>)
    ensures
        a.len() == 0 ==> bytes_lt(a, b) == (b.len() > 0),
        a.len() > 0 && b.len() == 0 ==> !bytes_lt(a, b),
        a.len() > 0 && b.len() > 0 && a[0] != b[0] ==> bytes_lt(a, b) == (a[0] < b[0]),
        a.len() > 0 && b.len() > 0 && a[0] == b[0] ==> bytes_lt(a, b) == bytes_lt(a.drop_first(), b.drop_first()),
{
}

impl PythonValue {
    /// Whether the value is `None`.
    pub fn is_none(&self) -> (r: bool)
        ensures r == (self@ is NoneValue),
    {
        match self {
            PythonValue::NoneValue => true,
            _ => false,
        }
    }

    /// Truthiness: `None`, `False`, zero, and empty strings, lists, tuples and
    /// dictionaries are false; everything else is true.
    pub fn to_bool(&self) -> (r: bool)
        ensures r == truthy(self@),
    {
        match self {
            PythonValue::NoneValue => false,
            PythonValue::Boolean(b) => *b,
            PythonValue::Integer(i) => *i != 0,
            PythonValue::Float(f) => !is_zero(f.bits),
            PythonValue::String(s) => !s.as_str().is_empty(),
            PythonValue::List(l) => {
                proof { lemma_models(l@, l@.len()); }
                l.len() != 0
            },
            PythonValue::Tuple(t) => {
                proof { lemma_models(t@, t@.len()); }
                t.len() != 0
            },
            PythonValue::Dict(d) => {
                proof { d.lemma_entries_model(); }
                !d.is_empty()
            },
            _ => true,
        }
    }

    /// The value as an integer: integers as they are, floats truncated by the
    /// host (`as i64`), booleans as 1 and 0, anything else 0.
    pub fn to_i64(&self) -> (r: Outcome<i64>)
        ensures
            match self {
                PythonValue::Integer(i) => r == Outcome::Ready(*i),
                PythonValue::Float(f) => r == Outcome::<i64>::Float(FloatTask {
                    op: FloatOp::ToInt, lhs: Number::Float(*f), rhs: Number::Int(0) }),
                PythonValue::Boolean(b) => r == Outcome::Ready(if *b { 1i64 } else { 0i64 }),
                _ => r == Outcome::Ready(0i64),
            },
    {
        match self {
            PythonValue::Integer(i) => Outcome::Ready(*i),
            PythonValue::Float(f) => Outcome::Float(task(FloatOp::ToInt, Number::Float(f.clone()), Number::Int(0))),
            PythonValue::Boolean(b) => Outcome::Ready(if *b { 1 } else { 0 }),
            _ => Outcome::Ready(0),
        }
    }

    /// The value as a float: floats as they are, integers converted by the host
    /// (`as f64`), booleans as 1.0 and 0.0, anything else 0.0.
    pub fn to_f64(&self) -> (r: Outcome<FloatValue>)
        ensures
            match self {
                PythonValue::Float(f) => r == Outcome::Ready(*f),
                PythonValue::Integer(i) => r == Outcome::<FloatValue>::Float(FloatTask {
                    op: FloatOp::ToFloat, lhs: Number::Int(*i), rhs: Number::Int(0) }),
                PythonValue::Boolean(b) => r matches Outcome::Ready(f)
                    && f.bits == (if *b { crate::float::ONE_BITS } else { 0u64 })
                    && f.text@ == (if *b { "1"@ } else { "0"@ })
                    && f.repr@ == (if *b { "1.0"@ } else { "0.0"@ }),
                _ => r matches Outcome::Ready(f) && f.bits == 0 && f.text@ == "0"@ && f.repr@ == "0.0"@,
            },
    {
        match self {
            PythonValue::Float(f) => Outcome::Ready(f.clone()),
            PythonValue::Integer(i) => Outcome::Float(task(FloatOp::ToFloat, Number::Int(*i), Number::Int(0))),
            PythonValue::Boolean(b) => Outcome::Ready(if *b { FloatValue::one() } else { FloatValue::zero() }),
            _ => Outcome::Ready(FloatValue::zero()),
        }
    }

    /// The value as text: strings as they are, numbers and booleans in
    /// decimal, `None`, lists, tuples and dictionaries as their items'
    /// `Debug` texts, objects as `<name object>`, functions as
    /// `<function name>`.
    pub fn to_string(&self) -> (s: String)
        ensures s@ == display_text(self@),
    {
        match self {
            PythonValue::String(s) => s.clone(),
            PythonValue::Integer(i) => int_to_text(*i),
            PythonValue::Float(f) => f.text.clone(),
            PythonValue::Boolean(b) => string_of(if *b { "true" } else { "false" }),
            PythonValue::NoneValue => string_of("None"),
            PythonValue::List(l) => {
                let mut s = string_of("[");
                push_items(&mut s, l);
                s.append("]");
                proof { lemma_models(l@, l@.len()); }
                s
            },
            PythonValue::Tuple(l) => {
                let mut s = string_of("[");
                push_items(&mut s, l);
                s.append("]");
                proof { lemma_models(l@, l@.len()); }
                s
            },
            PythonValue::Dict(d) => {
                let mut s = string_of("{");
                push_entries(&mut s, d);
                s.append("}");
                s
            },
            PythonValue::Object(n, _) => {
                let mut s = string_of("<");
                s.append(n.as_str());
                s.append(" object>");
                s
            },
            PythonValue::Function(n) => {
                let mut s = string_of("<function ");
                s.append(n.as_str());
                s.append(">");
                s
            },
        }
    }

    /// Length of a list, tuple or dictionary, or of a string in UTF-8 bytes;
    /// 0 for anything else.
    pub fn len(&self) -> (n: usize)
        ensures n == length_of(self@),
    {
        match self {
            PythonValue::List(l) => {
                proof { lemma_models(l@, l@.len()); }
                l.len()
            },
            PythonValue::Tuple(t) => {
                proof { lemma_models(t@, t@.len()); }
                t.len()
            },
            PythonValue::Dict(d) => {
                proof { d.lemma_entries_model(); }
                d.len()
            },
            PythonValue::String(s) => s.as_str().len(),
            _ => 0,
        }
    }

    /// Item of a list or tuple at an integer position, of a dictionary under a
    /// string key, or the one-character string at a position of a string.
    pub fn get_item(&self, index: &PythonValue) -> (r: PythonResult<Arc<PythonValue>>)
        requires !string_index_panics(self@, index@),
        ensures item_result_is(r, get_item_model(self@, index@)),
    {
        match (self, index) {
            (PythonValue::List(l), PythonValue::Integer(i)) => {
                proof { lemma_models(l@, l@.len()); }
                let idx = #[verifier::truncate] (*i as usize);
                if idx < l.len() {
                    Ok(share(&l[idx]))
                } else {
                    Err(index_error("list index out of range: ", *i))
                }
            },
            (PythonValue::Tuple(t), PythonValue::Integer(i)) => {
                proof { lemma_models(t@, t@.len()); }
                let idx = #[verifier::truncate] (*i as usize);
                if idx < t.len() {
                    Ok(share(&t[idx]))
                } else {
                    Err(index_error("tuple index out of range: ", *i))
                }
            },
            (PythonValue::Dict(d), PythonValue::String(key)) => {
                match d.get(key.as_str()) {
                    Some(v) => Ok(share(v)),
                    None => Err(PythonError::KeyError(key.clone())),
                }
            },
            (PythonValue::String(s), PythonValue::Integer(i)) => {
                let idx = #[verifier::truncate] (*i as usize);
                if idx < s.as_str().len() {
                    let c = s.as_str().get_char(idx);
                    let mut one = String::new();
                    one.push(c);
                    Ok(Arc::new(PythonValue::String(one)))
                } else {
                    Err(index_error("string index out of range: ", *i))
                }
            },
            _ => type_error("unsupported operand type(s) for []"),
        }
    }

    /// Replaces the item of a list at an integer position, or stores a value
    /// in a dictionary under a string key.
    pub fn set_item(&mut self, index: &PythonValue, value: Arc<PythonValue>) -> (r: PythonResult<()>)
        ensures
            match set_item_model(old(self)@, index@, value@) {
                OpModel::Value(c) => r is Ok && final(self)@ == c,
                OpModel::Error(k, m) => r matches Err(e) && is_error(e, k, m) && final(self)@ == old(self)@,
                OpModel::Float(_, _, _) => false,
            },
            r is Ok ==> get_item_model(final(self)@, index@) == OpModel::Value(value@)
                && !string_index_panics(final(self)@, index@),
            r is Ok ==> forall|other: ValueModel| other != index@
                && !((index@, other) matches (ValueModel::Integer(a), ValueModel::Integer(b)) && (a as usize) == (b as usize))
                ==> #[trigger] get_item_model(final(self)@, other) == get_item_model(old(self)@, other),
    {
        let ghost c0 = self@;
        let ghost k0 = index@;
        let ghost v0 = value@;
        let r = self.set_item_inner(index, value);
        proof {
            if r is Ok {
                law_item_read_after_write(c0, k0, v0);
                assert forall|other: ValueModel| other != k0
                    && !((k0, other) matches (ValueModel::Integer(a), ValueModel::Integer(b)) && (a as usize) == (b as usize))
                    implies #[trigger] get_item_model(self@, other) == get_item_model(c0, other) by {
                    law_item_write_keeps_others(c0, k0, v0, other);
                }
            }
        }
        r
    }

    fn set_item_inner(&mut self, index: &PythonValue, value: Arc<PythonValue>) -> (r: PythonResult<()>)
        ensures
            match set_item_model(old(self)@, index@, value@) {
                OpModel::Value(c) => r is Ok && final(self)@ == c,
                OpModel::Error(k, m) => r matches Err(e) && is_error(e, k, m) && final(self)@ == old(self)@,
                OpModel::Float(_, _, _) => false,
            },
            r is Ok && old(self)@ is Dict ==> entry_keys_distinct(old(self)@->Dict_0),
    {
        match index {
            PythonValue::Integer(i) => {
                match self {
                    PythonValue::List(l) => {
                        proof { lemma_models(l@, l@.len()); }
                        let idx = #[verifier::truncate] (*i as usize);
                        if idx < l.len() {
                            let ghost pre = l@;
                            l.set(idx, value);
                            proof { lemma_models_update(pre, idx as int, value); }
                            Ok(())
                        } else {
                            Err(index_error("list assignment index out of range: ", *i))
                        }
                    },
                    _ => type_error("unsupported assignment to type"),
                }
            },
            PythonValue::String(key) => {
                match self {
                    PythonValue::Dict(d) => {
                        d.insert(key.clone(), value);
                        Ok(())
                    },
                    _ => type_error("unsupported assignment to type"),
                }
            },
            _ => type_error("unsupported assignment to type"),
        }
    }

    /// Appends to a list.
    pub fn append(&mut self, value: Arc<PythonValue>) -> (r: PythonResult<()>)
        ensures
            match old(self)@ {
                ValueModel::List(items) => r is Ok && final(self)@ == ValueModel::List(items.push(value@)),
                _ => is_type_error(r, "append() takes exactly one argument (0 given)"@)
                    && final(self)@ == old(self)@,
            },
    {
        match self {
            PythonValue::List(l) => {
                let ghost pre = l@;
                l.push(value);
                proof { lemma_models_push(pre, value); }
                Ok(())
            },
            _ => type_error("append() takes exactly one argument (0 given)"),
        }
    }

    /// Sum: integers exactly, strings, lists and tuples concatenated; sums
    /// with a float are binary64 work for the host.
    pub fn add(&self, other: &PythonValue) -> (r: PythonResult<Outcome<PythonValue>>)
        requires
            (self@, other@) matches (ValueModel::Integer(x), ValueModel::Integer(y)) ==> !int_overflow(x + y),
        ensures result_is(r, add_model(self@, other@)),
    {
        if mixed(self, other) {
            return Ok(Outcome::Float(number_task(FloatOp::Add, self, other)));
        }
        match (self, other) {
            (PythonValue::Integer(a), PythonValue::Integer(b)) => Ok(Outcome::Ready(PythonValue::Integer(*a + *b))),
            (PythonValue::String(a), PythonValue::String(b)) => Ok(Outcome::Ready(PythonValue::String(concat_str(a.as_str(), b.as_str())))),
            (PythonValue::List(a), PythonValue::List(b)) => {
                let mut result = share_all(a);
                let ghost before = result@;
                let mut j: usize = 0;
                while j < b.len()
                    invariant
                        j <= b@.len(),
                        result@ == before + b@.subrange(0, j as int),
                    decreases b@.len() - j,
                {
                    result.push(share(&b[j]));
                    j = j + 1;
                }
                proof {
                    assert(b@.subrange(0, b@.len() as int) == b@);
                    lemma_models_concat(a@, b@);
                }
                Ok(Outcome::Ready(PythonValue::List(result)))
            },
            (PythonValue::Tuple(a), PythonValue::Tuple(b)) => {
                let mut result = share_all(a);
                let ghost before = result@;
                let mut j: usize = 0;
                while j < b.len()
                    invariant
                        j <= b@.len(),
                        result@ == before + b@.subrange(0, j as int),
                    decreases b@.len() - j,
                {
                    result.push(share(&b[j]));
                    j = j + 1;
                }
                proof {
                    assert(b@.subrange(0, b@.len() as int) == b@);
                    lemma_models_concat(a@, b@);
                }
                Ok(Outcome::Ready(PythonValue::Tuple(result)))
            },
            _ => type_error("unsupported operand type(s) for +"),
        }
    }

    /// Difference of integers; differences with a float are binary64 work.
    pub fn sub(&self, other: &PythonValue) -> (r: PythonResult<Outcome<PythonValue>>)
        requires
            (self@, other@) matches (ValueModel::Integer(x), ValueModel::Integer(y)) ==> !int_overflow(x - y),
        ensures result_is(r, sub_model(self@, other@)),
    {
        if mixed(self, other) {
            return Ok(Outcome::Float(number_task(FloatOp::Sub, self, other)));
        }
        match (self, other) {
            (PythonValue::Integer(a), PythonValue::Integer(b)) => Ok(Outcome::Ready(PythonValue::Integer(*a - *b))),
            _ => type_error("unsupported operand type(s) for -"),
        }
    }

    /// Product of integers; a string, list or tuple repeated a number of
    /// times (empty for a negative count); products with a float are binary64
    /// work.
    pub fn mul(&self, other: &PythonValue) -> (r: PythonResult<Outcome<PythonValue>>)
        requires
            (self@, other@) matches (ValueModel::Integer(x), ValueModel::Integer(y)) ==> !int_overflow(x * y),
            (self@, other@) matches (ValueModel::Str(x), ValueModel::Integer(n)) ==>
                (n >= 0 ==> encode_utf8(x).len() * ((n as usize) as int) <= isize::MAX),
            (self@, other@) matches (ValueModel::List(x), ValueModel::Integer(n)) ==>
                x.len() * n <= usize::MAX,
            (self@, other@) matches (ValueModel::Tuple(x), ValueModel::Integer(n)) ==>
                x.len() * n <= usize::MAX,
        ensures result_is(r, mul_model(self@, other@)),
    {
        if mixed(self, other) {
            return Ok(Outcome::Float(number_task(FloatOp::Mul, self, other)));
        }
        match (self, other) {
            (PythonValue::Integer(a), PythonValue::Integer(b)) => Ok(Outcome::Ready(PythonValue::Integer(*a * *b))),
            (PythonValue::String(a), PythonValue::Integer(b)) => {
                if *b >= 0 {
                    let n = #[verifier::truncate] (*b as usize);
                    Ok(Outcome::Ready(PythonValue::String(repeat_string(a, n))))
                } else {
                    Ok(Outcome::Ready(PythonValue::String(String::new())))
                }
            },
            (PythonValue::List(a), PythonValue::Integer(b)) => {
                if *b >= 0 {
                    let items = repeat_items(a, *b);
                    Ok(Outcome::Ready(PythonValue::List(items)))
                } else {
                    proof { lemma_seq_models(Seq::<Arc<PythonValue>>::empty()); }
                    Ok(Outcome::Ready(PythonValue::List(Vec::new())))
                }
            },
            (PythonValue::Tuple(a), PythonValue::Integer(b)) => {
                if *b >= 0 {
                    let items = repeat_items(a, *b);
                    Ok(Outcome::Ready(PythonValue::Tuple(items)))
                } else {
                    proof { lemma_seq_models(Seq::<Arc<PythonValue>>::empty()); }
                    Ok(Outcome::Ready(PythonValue::Tuple(Vec::new())))
                }
            },
            _ => type_error("unsupported operand type(s) for *"),
        }
    }

    /// Quotient: a zero divisor is refused whatever the dividend; the
    /// quotient of two numbers is always a float, computed by the host.
    pub fn div(&self, other: &PythonValue) -> (r: PythonResult<Outcome<PythonValue>>)
        ensures result_is(r, div_model(self@, other@)),
    {
        match other {
            PythonValue::Integer(b) => {
                if *b == 0 {
                    return Err(PythonError::ZeroDivisionError(string_of("division by zero")));
                }
            },
            PythonValue::Float(f) => {
                if is_zero(f.bits) {
                    return Err(PythonError::ZeroDivisionError(string_of("division by zero")));
                }
            },
            _ => {},
        }
        match (self, other) {
            (PythonValue::Integer(_), PythonValue::Integer(_)) |
            (PythonValue::Integer(_), PythonValue::Float(_)) |
            (PythonValue::Float(_), PythonValue::Integer(_)) |
            (PythonValue::Float(_), PythonValue::Float(_)) => Ok(Outcome::Float(number_task(FloatOp::Div, self, other))),
            _ => type_error("unsupported operand type(s) for /"),
        }
    }

    /// Equality: an integer against a float is compared by the host in
    /// binary64; everything else is compared structurally (floats by
    /// IEEE-754 equality, containers item by item, dictionaries as maps).
    pub fn eq(&self, other: &PythonValue) -> (r: Outcome<bool>)
        ensures
            eq_outcome_is(r, eq_model(self@, other@)),
            !mixed_model(self@, other@) || (self@ is Float && other@ is Float)
                ==> eq_outcome_is(r, eq_model(other@, self@)),
    {
        match (self, other) {
            (PythonValue::Integer(_), PythonValue::Float(_)) |
            (PythonValue::Float(_), PythonValue::Integer(_)) => Outcome::Float(number_task(FloatOp::Eq, self, other)),
            _ => Outcome::Ready(values_equal(self, other)),
        }
    }

    /// Less-than for integers, floats and strings (byte order).
    pub fn lt(&self, other: &PythonValue) -> (r: PythonResult<Outcome<bool>>)
        ensures bool_result_is(r, order_model(self@, other@, false)),
    {
        self.order(other, false)
    }

    /// Greater-than for integers, floats and strings (byte order).
    pub fn gt(&self, other: &PythonValue) -> (r: PythonResult<Outcome<bool>>)
        ensures bool_result_is(r, order_model(self@, other@, true)),
    {
        self.order(other, true)
    }

    fn order(&self, other: &PythonValue, greater: bool) -> (r: PythonResult<Outcome<bool>>)
        ensures bool_result_is(r, order_model(self@, other@, greater)),
    {
        match (self, other) {
            (PythonValue::Integer(a), PythonValue::Integer(b)) => Ok(Outcome::Ready(if greater { *a > *b } else { *a < *b })),
            (PythonValue::Integer(_), PythonValue::Float(_)) |
            (PythonValue::Float(_), PythonValue::Integer(_)) =>
                Ok(Outcome::Float(number_task(if greater { FloatOp::Gt } else { FloatOp::Lt }, self, other))),
            (PythonValue::Float(a), PythonValue::Float(b)) =>
                Ok(Outcome::Ready(if greater { bits_less(b.bits, a.bits, true) } else { bits_less(a.bits, b.bits, true) })),
            (PythonValue::String(a), PythonValue::String(b)) =>
                Ok(Outcome::Ready(if greater { str_less(b.as_str(), a.as_str()) } else { str_less(a.as_str(), b.as_str()) })),
            _ => type_error("unorderable types"),
        }
    }
}

} // verus!

verus! {

/// Storing an item keeps the keys of a dictionary distinct.
pub proof fn law_store_keeps_keys_distinct(es: Seq<(Seq<char>, ValueModel)>, k: Seq<char>, v: ValueModel)
    requires entry_keys_distinct(es),
    ensures entry_keys_distinct(model_insert(es, k, v)),
{
    let r = model_insert(es, k, v);
    if model_has_key(es, k) {
        let c = choose|i: int| 0 <= i < es.len() && #[trigger] es[i].0 == k;
        assert forall|i: int, j: int| 0 <= i < r.len() && 0 <= j < r.len() && i != j implies #[trigger] r[i].0 != #[trigger] r[j].0 by {
            assert(r[i].0 == es[i].0);
            assert(r[j].0 == es[j].0);
        }
    } else {
        assert forall|i: int, j: int| 0 <= i < r.len() && 0 <= j < r.len() && i != j implies #[trigger] r[i].0 != #[trigger] r[j].0 by {
            if i < es.len() && j < es.len() {
            } else if i < es.len() {
                assert(es[i].0 != k);
            } else {
                assert(es[j].0 != k);
            }
        }
    }
}

/// What a read gives back of a write: storing `v` in a list or dictionary
/// under an index it accepts, then reading under the same index, gives `v`.
pub proof fn law_item_read_after_write(c: ValueModel, k: ValueModel, v: ValueModel)
    requires
        set_item_model(c, k, v) is Value,
        c matches ValueModel::Dict(es) ==> entry_keys_distinct(es),
    ensures
        !string_index_panics(set_item_model(c, k, v)->Value_0, k),
        get_item_model(set_item_model(c, k, v)->Value_0, k) == OpModel::Value(v),
{
    match (c, k) {
        (ValueModel::Dict(es), ValueModel::Str(key)) => {
            let r = model_insert(es, key, v);
            law_store_keeps_keys_distinct(es, key, v);
            let pos = if model_has_key(es, key) {
                choose|i: int| 0 <= i < es.len() && #[trigger] es[i].0 == key
            } else {
                es.len() as int
            };
            assert(r[pos] == (key, v));
            assert(r[pos].0 == key);
            assert(model_has_key(r, key));
            let j = choose|i: int| 0 <= i < r.len() && #[trigger] r[i].0 == key;
            assert(j == pos);
        },
        _ => {},
    }
}

/// Storing under one index leaves what the others hold: after storing in a
/// list or dictionary, reading under another index gives what it gave before.
pub proof fn law_item_write_keeps_others(c: ValueModel, k: ValueModel, v: ValueModel, other: ValueModel)
    requires
        set_item_model(c, k, v) is Value,
        c matches ValueModel::Dict(es) ==> entry_keys_distinct(es),
        k != other,
        (k, other) matches (ValueModel::Integer(a), ValueModel::Integer(b)) ==> (a as usize) != (b as usize),
    ensures
        get_item_model(set_item_model(c, k, v)->Value_0, other) == get_item_model(c, other),
{
    match (c, k, other) {
        (ValueModel::Dict(es), ValueModel::Str(key), ValueModel::Str(okey)) => {
            let r = model_insert(es, key, v);
            law_store_keeps_keys_distinct(es, key, v);
            assert(forall|i: int| 0 <= i < es.len() ==> #[trigger] r[i].0 == es[i].0 && (es[i].0 != key ==> r[i] == es[i]));
            if model_has_key(es, okey) {
                let i = choose|i: int| 0 <= i < es.len() && #[trigger] es[i].0 == okey;
                assert(r[i].0 == okey);
                assert(model_has_key(r, okey));
                let j = choose|j: int| 0 <= j < r.len() && #[trigger] r[j].0 == okey;
                assert(j == i) by {
                    if j != i {
                        if j < es.len() { assert(es[j].0 == okey); } else { assert(r[j].0 == key); }
                    }
                }
            } else {
                assert(!model_has_key(r, okey)) by {
                    if model_has_key(r, okey) {
                        let j = choose|j: int| 0 <= j < r.len() && #[trigger] r[j].0 == okey;
                        if j < es.len() { assert(es[j].0 == okey); } else { assert(r[j].0 == key); }
                    }
                }
            }
        },
        _ => {},
    }
}

} // verus!

verus! {

/// `a < b` and `b > a` agree, where neither asks the host for binary64 work
/// (an integer against a float does).
pub proof fn law_less_is_converse_of_greater(a: ValueModel, b: ValueModel)
    requires !mixed_model(a, b) || (a is Float && b is Float),
    ensures
        order_model(a, b, false) == order_model(b, a, true),
        order_model(a, b, true) == order_model(b, a, false),
{
}

} // verus!

verus! {

/// `a == b` and `b == a` agree, where neither asks the host for binary64 work
/// (an integer against a float does). `PythonValue::eq` states this of every
/// pair of values; here it is stated of value models whose dictionaries have
/// distinct keys.
pub proof fn law_eq_symmetric(a: ValueModel, b: ValueModel)
    requires
        crate::equality::keys_distinct_deep(a),
        crate::equality::keys_distinct_deep(b),
        !mixed_model(a, b) || (a is Float && b is Float),
    ensures
        eq_model(a, b) == eq_model(b, a),
{
    crate::equality::law_equality_symmetric(a, b);
}

} // verus!

verus! {

/// `+` concatenates in order: for two strings, lists or tuples the result
/// holds the left operand's items first and then the right operand's, so its
/// length is the sum of theirs, it starts with the left operand, and its
/// item at `|a| + i` is the right operand's item `i`.
pub proof fn law_concatenation_keeps_order(a: ValueModel, b: ValueModel)
    ensures
        (a, b) matches (ValueModel::Tuple(x), ValueModel::Tuple(y)) ==> (add_model(a, b) matches OpModel::Value(ValueModel::Tuple(z)) && {
            &&& z.len() == x.len() + y.len()
            &&& forall|i: int| 0 <= i < x.len() ==> #[trigger] z[i] == x[i]
            &&& forall|i: int| 0 <= i < y.len() ==> #[trigger] z[x.len() + i] == y[i]
        }),
        (a, b) matches (ValueModel::List(x), ValueModel::List(y)) ==> (add_model(a, b) matches OpModel::Value(ValueModel::List(z)) && {
            &&& z.len() == x.len() + y.len()
            &&& forall|i: int| 0 <= i < x.len() ==> #[trigger] z[i] == x[i]
            &&& forall|i: int| 0 <= i < y.len() ==> #[trigger] z[x.len() + i] == y[i]
        }),
        (a, b) matches (ValueModel::Str(x), ValueModel::Str(y)) ==> (add_model(a, b) matches OpModel::Value(ValueModel::Str(z)) && {
            &&& z.len() == x.len() + y.len()
            &&& forall|i: int| 0 <= i < x.len() ==> #[trigger] z[i] == x[i]
            &&& forall|i: int| 0 <= i < y.len() ==> #[trigger] z[x.len() + i] == y[i]
        }),
{
}

} // verus!

verus! {

/// Integer `+`, `-` and `*` compute the exact sum, difference and product
/// where it fits in 64 bits, and `-` undoes `+`.
pub proof fn law_integer_arithmetic(x: i64, y: i64)
    ensures
        !int_overflow(x + y) ==> add_model(ValueModel::Integer(x), ValueModel::Integer(y))
            == OpModel::Value(ValueModel::Integer((x + y) as i64)),
        !int_overflow(x + y) ==> sub_model(ValueModel::Integer((x + y) as i64), ValueModel::Integer(y))
            == OpModel::Value(ValueModel::Integer(x)),
        !int_overflow(x - y) ==> sub_model(ValueModel::Integer(x), ValueModel::Integer(y))
            == OpModel::Value(ValueModel::Integer((x - y) as i64)),
        !int_overflow(x * y) ==> mul_model(ValueModel::Integer(x), ValueModel::Integer(y))
            == OpModel::Value(ValueModel::Integer((x * y) as i64)),
{
}

} // verus!
