//! A Python runtime: values, bytecode, a stack virtual machine, a garbage
//! collector and the surrounding services, with their contracts.
use vstd::prelude::*;

pub mod services;
pub mod text;
pub mod float;

pub mod value;
pub mod render;
pub mod value_ops;
pub mod equality;
pub mod model;
pub mod ast;
pub mod bytecode;
pub mod inline_vec;
pub mod table;
pub mod vm_model;
pub mod vm_ops;
pub mod ir;
pub mod ffi;
pub mod jit;
pub mod vm;
pub mod codegen;
pub mod reach;
pub mod gc;
pub mod module;
pub mod runtime;
pub mod tools;

pub use crate::bytecode::{BytecodeFunction, Instruction};
pub use crate::gc::{Allocator, GC};
pub use crate::vm::{Context, VM};
pub use crate::value::{PythonValue, PythonError, PythonResult};

verus! {

} // verus!
