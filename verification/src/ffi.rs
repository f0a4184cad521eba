//! The foreign-function registry: names of host functions that Python code
//! may call, and the conversions of host values to Python values.
use vstd::prelude::*;
use std::sync::Arc;
use crate::table::Table;
use crate::text::concat_str;
use crate::value::{PythonValue, PythonError, PythonResult, ValueModel};
use crate::model::{ErrorKind, is_error};

verus! {

/// The registry of host functions: each Rust function's name maps to the
/// handle under which the host keeps its body, each C function's name to its
/// address.
pub struct FFI {
    /// Registered Rust functions: name to handle.
    functions: Table<usize>,
    /// Registered C functions: name to address.
    c_functions: Table<usize>,
}

impl FFI {
    /// Registered Rust functions.
    pub closed spec fn functions_view(self) -> Map<Seq<char>, usize> {
        self.functions@
    }

    /// Registered C functions.
    pub closed spec fn c_functions_view(self) -> Map<Seq<char>, usize> {
        self.c_functions@
    }

    /// An empty registry.
    pub fn new() -> (f: Self)
        ensures
            f.functions_view() == Map::<Seq<char>, usize>::empty(),
            f.c_functions_view() == Map::<Seq<char>, usize>::empty(),
    {
        FFI { functions: Table::new(), c_functions: Table::new() }
    }

    /// Registers (or replaces) a Rust function.
    pub fn register_function(&mut self, name: &str, handle: usize)
        ensures
            final(self).functions_view() == old(self).functions_view().insert(name@, handle),
            final(self).c_functions_view() == old(self).c_functions_view(),
    {
        self.functions.insert(String::from_str(name), handle);
    }

    /// Registers (or replaces) a C function.
    pub fn register_c_function(&mut self, name: &str, address: usize)
        ensures
            final(self).c_functions_view() == old(self).c_functions_view().insert(name@, address),
            final(self).functions_view() == old(self).functions_view(),
    {
        self.c_functions.insert(String::from_str(name), address);
    }

    /// The library's part of calling the Rust function registered under
    /// `name`: the handle of the body the host runs, or the name error that a
    /// call of an unknown function raises. The bodies are host closures, so
    /// the host makes the call itself.
    pub fn call_function(&self, name: &str) -> (r: PythonResult<usize>)
        ensures
            self.functions_view().dom().contains(name@) ==> r == Ok::<usize, PythonError>(self.functions_view()[name@]),
            !self.functions_view().dom().contains(name@) ==> (r matches Err(e)
                && is_error(e, ErrorKind::NameError, "Function not found: "@ + name@)),
    {
        match self.functions.get(name) {
            Some(h) => Ok(*h),
            None => Err(PythonError::NameError(concat_str("Function not found: ", name))),
        }
    }

    /// Calls a C function: a registered one gives 42 (arguments are not
    /// passed on), an unknown one raises a name error.
    pub fn call_c_function(&self, name: &str, _args: Vec<Arc<PythonValue>>) -> (r: PythonResult<Arc<PythonValue>>)
        ensures
            self.c_functions_view().dom().contains(name@) ==> (r matches Ok(v) && v@ == ValueModel::Integer(42)),
            !self.c_functions_view().dom().contains(name@) ==> (r matches Err(e)
                && is_error(e, ErrorKind::NameError, "C function not found: "@ + name@)),
    {
        if self.c_functions.contains_key(name) {
            Ok(Arc::new(PythonValue::Integer(42)))
        } else {
            Err(PythonError::NameError(concat_str("C function not found: ", name)))
        }
    }

    /// The registry itself.
    pub fn ffi(&self) -> (r: &Self)
        ensures *r == *self,
    {
        self
    }
}

/// Host values that convert to Python values.
pub trait ToPythonValue {
    /// The Python value for `self`.
    fn to_python_value(&self) -> Arc<PythonValue>;
}

impl ToPythonValue for i64 {
    fn to_python_value(&self) -> (r: Arc<PythonValue>)
        ensures r@ == ValueModel::Integer(*self),
    {
        Arc::new(PythonValue::Integer(*self))
    }
}

impl ToPythonValue for bool {
    fn to_python_value(&self) -> (r: Arc<PythonValue>)
        ensures r@ == ValueModel::Boolean(*self),
    {
        Arc::new(PythonValue::Boolean(*self))
    }
}

impl ToPythonValue for String {
    fn to_python_value(&self) -> (r: Arc<PythonValue>)
        ensures r@ == ValueModel::Str(self@),
    {
        Arc::new(PythonValue::String(self.clone()))
    }
}

impl ToPythonValue for crate::float::FloatValue {
    fn to_python_value(&self) -> (r: Arc<PythonValue>)
        ensures r@ == ValueModel::Float(self.bits, self.text@, self.repr@),
    {
        Arc::new(PythonValue::Float(self.clone()))
    }
}

} // verus!

verus! {

use crate::float::{FloatValue, FloatTask, FloatOp, Number, Outcome};
use crate::value_ops::truthy;
use crate::render::display_text;

/// Python values that convert to host values.
pub trait FromPythonValue<T> {
    /// What converting `value` gives.
    spec fn converts(value: PythonValue, r: PythonResult<T>) -> bool;

    /// The host value for `value`.
    fn from_python_value(value: &PythonValue) -> (r: PythonResult<T>)
        ensures Self::converts(*value, r);
}

/// Integers as they are, floats truncated by the host, booleans as 1 and 0;
/// anything else is a type error.
pub fn integer_of(value: &PythonValue) -> (r: PythonResult<Outcome<i64>>)
    ensures
        match *value {
            PythonValue::Integer(i) => r == Ok::<Outcome<i64>, PythonError>(Outcome::Ready(i)),
            PythonValue::Float(f) => r == Ok::<Outcome<i64>, PythonError>(Outcome::Float(
                FloatTask { op: FloatOp::ToInt, lhs: Number::Float(f), rhs: Number::Int(0) })),
            PythonValue::Boolean(b) => r == Ok::<Outcome<i64>, PythonError>(Outcome::Ready(if b { 1i64 } else { 0i64 })),
            _ => r matches Err(e) && is_error(e, ErrorKind::TypeError, "Cannot convert to i64"@),
        },
{
    match value {
        PythonValue::Integer(i) => Ok(Outcome::Ready(*i)),
        PythonValue::Float(f) => Ok(Outcome::Float(FloatTask { op: FloatOp::ToInt, lhs: Number::Float(f.clone()), rhs: Number::Int(0) })),
        PythonValue::Boolean(b) => Ok(Outcome::Ready(if *b { 1 } else { 0 })),
        _ => Err(PythonError::TypeError(String::from_str("Cannot convert to i64"))),
    }
}

/// Floats as they are, integers converted by the host, booleans as 1.0 and
/// 0.0; anything else is a type error.
pub fn float_of(value: &PythonValue) -> (r: PythonResult<Outcome<FloatValue>>)
    ensures
        match *value {
            PythonValue::Float(f) => r == Ok::<Outcome<FloatValue>, PythonError>(Outcome::Ready(f)),
            PythonValue::Integer(i) => r == Ok::<Outcome<FloatValue>, PythonError>(Outcome::Float(
                FloatTask { op: FloatOp::ToFloat, lhs: Number::Int(i), rhs: Number::Int(0) })),
            PythonValue::Boolean(b) => r matches Ok(Outcome::Ready(f))
                && f.bits == (if b { crate::float::ONE_BITS } else { 0u64 }),
            _ => r matches Err(e) && is_error(e, ErrorKind::TypeError, "Cannot convert to f64"@),
        },
{
    match value {
        PythonValue::Float(f) => Ok(Outcome::Ready(f.clone())),
        PythonValue::Integer(i) => Ok(Outcome::Float(FloatTask { op: FloatOp::ToFloat, lhs: Number::Int(*i), rhs: Number::Int(0) })),
        PythonValue::Boolean(b) => Ok(Outcome::Ready(if *b { FloatValue::one() } else { FloatValue::zero() })),
        _ => Err(PythonError::TypeError(String::from_str("Cannot convert to f64"))),
    }
}

impl FromPythonValue<Outcome<i64>> for PythonValue {
    /// As `integer_of`.
    open spec fn converts(value: PythonValue, r: PythonResult<Outcome<i64>>) -> bool {
        match value {
            PythonValue::Integer(i) => r == Ok::<Outcome<i64>, PythonError>(Outcome::Ready(i)),
            PythonValue::Float(f) => r == Ok::<Outcome<i64>, PythonError>(Outcome::Float(
                FloatTask { op: FloatOp::ToInt, lhs: Number::Float(f), rhs: Number::Int(0) })),
            PythonValue::Boolean(b) => r == Ok::<Outcome<i64>, PythonError>(Outcome::Ready(if b { 1i64 } else { 0i64 })),
            _ => r matches Err(e) && is_error(e, ErrorKind::TypeError, "Cannot convert to i64"@),
        }
    }

    fn from_python_value(value: &PythonValue) -> PythonResult<Outcome<i64>> {
        integer_of(value)
    }
}

impl FromPythonValue<Outcome<FloatValue>> for PythonValue {
    /// As `float_of`.
    open spec fn converts(value: PythonValue, r: PythonResult<Outcome<FloatValue>>) -> bool {
        match value {
            PythonValue::Float(f) => r == Ok::<Outcome<FloatValue>, PythonError>(Outcome::Ready(f)),
            PythonValue::Integer(i) => r == Ok::<Outcome<FloatValue>, PythonError>(Outcome::Float(
                FloatTask { op: FloatOp::ToFloat, lhs: Number::Int(i), rhs: Number::Int(0) })),
            PythonValue::Boolean(b) => r matches Ok(Outcome::Ready(f))
                && f.bits == (if b { crate::float::ONE_BITS } else { 0u64 }),
            _ => r matches Err(e) && is_error(e, ErrorKind::TypeError, "Cannot convert to f64"@),
        }
    }

    fn from_python_value(value: &PythonValue) -> PythonResult<Outcome<FloatValue>> {
        float_of(value)
    }
}

impl FromPythonValue<bool> for PythonValue {
    /// The value's truthiness.
    open spec fn converts(value: PythonValue, r: PythonResult<bool>) -> bool {
        r == Ok::<bool, PythonError>(truthy(value@))
    }

    fn from_python_value(value: &PythonValue) -> PythonResult<bool> {
        Ok(value.to_bool())
    }
}

impl FromPythonValue<String> for PythonValue {
    /// The value's text, as `to_string` gives it.
    open spec fn converts(value: PythonValue, r: PythonResult<String>) -> bool {
        r matches Ok(s) && s@ == display_text(value@)
    }

    fn from_python_value(value: &PythonValue) -> PythonResult<String> {
        Ok(value.to_string())
    }
}

/// Foreign-function services of the virtual machine.
pub trait FFIExt {
    /// Registers a Rust function under the handle the host keeps it by.
    fn register_rust_function(&mut self, name: &str, handle: usize);

    /// Registers a C function at an address.
    fn register_c_function(&mut self, name: &str, address: usize);

    /// The library's part of calling a Rust function: the handle of the body
    /// the host runs, or a name error.
    fn call_rust_function(&self, name: &str) -> PythonResult<usize>;

    /// Calls a C function.
    fn call_c_function(&mut self, name: &str, args: Vec<Arc<PythonValue>>) -> PythonResult<Arc<PythonValue>>;
}

impl FFIExt for crate::vm::VirtualMachine {
    fn register_rust_function(&mut self, name: &str, handle: usize)
        ensures
            final(self).ffi_view().functions_view() == old(self).ffi_view().functions_view().insert(name@, handle),
            final(self).ffi_view().c_functions_view() == old(self).ffi_view().c_functions_view(),
            final(self).context_view() == old(self).context_view(),
            final(self).stack_view() == old(self).stack_view(),
    {
        self.ffi_mut().register_function(name, handle);
    }

    fn register_c_function(&mut self, name: &str, address: usize)
        ensures
            final(self).ffi_view().c_functions_view() == old(self).ffi_view().c_functions_view().insert(name@, address),
            final(self).ffi_view().functions_view() == old(self).ffi_view().functions_view(),
            final(self).context_view() == old(self).context_view(),
            final(self).stack_view() == old(self).stack_view(),
    {
        self.ffi_mut().register_c_function(name, address);
    }

    fn call_rust_function(&self, name: &str) -> (r: PythonResult<usize>)
        ensures
            self.ffi_view().functions_view().dom().contains(name@)
                ==> r == Ok::<usize, PythonError>(self.ffi_view().functions_view()[name@]),
            !self.ffi_view().functions_view().dom().contains(name@) ==> (r matches Err(e)
                && is_error(e, ErrorKind::NameError, "Function not found: "@ + name@)),
    {
        self.ffi().call_function(name)
    }

    fn call_c_function(&mut self, name: &str, args: Vec<Arc<PythonValue>>) -> (r: PythonResult<Arc<PythonValue>>)
        ensures
            old(self).ffi_view().c_functions_view().dom().contains(name@) ==> (r matches Ok(v) && v@ == ValueModel::Integer(42)),
            !old(self).ffi_view().c_functions_view().dom().contains(name@) ==> (r matches Err(e)
                && is_error(e, ErrorKind::NameError, "C function not found: "@ + name@)),
            *final(self) == *old(self),
    {
        self.ffi().call_c_function(name, args)
    }
}

} // verus!
