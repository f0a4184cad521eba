//! Bytecode: the instructions of the stack machine and compiled functions.
use vstd::prelude::*;
use crate::inline_vec::{CodeBuffer, code_items, code_from_vec, code_len, code_at};
use crate::float::FloatValue;
use crate::ast::Literal;

verus! {

/// A bytecode instruction.
#[derive(Debug, PartialEq)]
pub enum Instruction {
    /// Push `None`.
    PushNull,
    /// Push `True`.
    PushTrue,
    /// Push `False`.
    PushFalse,
    /// Push an integer.
    PushInteger(i64),
    /// Push a float.
    PushFloat(FloatValue),
    /// Push a string.
    PushString(String),
    /// Push the value of a name.
    PushName(String),
    /// Drop the top value.
    Pop,
    /// Duplicate the top value.
    Dup,
    /// Swap the two top values.
    Rot2,
    /// Rotate the three top values.
    Rot3,
    /// `a + b`.
    Add,
    /// `a - b`.
    Subtract,
    /// `a * b`.
    Multiply,
    /// `a / b`.
    Divide,
    /// `a // b`.
    FloorDivide,
    /// `a % b`.
    Modulo,
    /// `a ** b`.
    Power,
    /// `a & b`.
    BitwiseAnd,
    /// `a | b`.
    BitwiseOr,
    /// `a ^ b`.
    BitwiseXor,
    /// `a << b`.
    LeftShift,
    /// `a >> b`.
    RightShift,
    /// `~a`.
    BitwiseNot,
    /// `a == b`.
    Equal,
    /// `a != b`.
    NotEqual,
    /// `a < b`.
    LessThan,
    /// `a <= b`.
    LessThanOrEqual,
    /// `a > b`.
    GreaterThan,
    /// `a >= b`.
    GreaterThanOrEqual,
    /// Logical and of the two top values.
    And,
    /// Logical or of the two top values.
    Or,
    /// Logical not.
    Not,
    /// Jump to an instruction.
    Jump(usize),
    /// Pop; jump if true.
    JumpIfTrue(usize),
    /// Pop; jump if false.
    JumpIfFalse(usize),
    /// Return.
    Return,
    /// Yield.
    Yield,
    /// Yield from.
    YieldFrom,
    /// Call with this many arguments.
    Call(usize),
    /// Make a function with this many parameters.
    MakeFunction(usize),
    /// Load a method.
    LoadMethod(String),
    /// Read an attribute.
    GetAttribute(String),
    /// Write an attribute.
    SetAttribute(String),
    /// Read an item.
    GetItem,
    /// Write an item.
    SetItem,
    /// Build a tuple of this many values.
    BuildTuple(usize),
    /// Build a list of this many values.
    BuildList(usize),
    /// Build a dictionary of this many pairs.
    BuildDict(usize),
    /// Build a set of this many values.
    BuildSet(usize),
    /// Set up an exception handler.
    SetupExcept(usize),
    /// Set up a `finally` block.
    SetupFinally(usize),
    /// End a `finally` block.
    EndFinally,
    /// Raise.
    Raise,
    /// Set up a loop.
    SetupLoop(usize),
    /// Break out of a loop.
    Break,
    /// Continue a loop.
    Continue,
    /// Set up a `with` block.
    SetupWith(usize),
}

impl Clone for Instruction {
    fn clone(&self) -> (r: Self)
        ensures r == *self,
    {
        match self {
            Instruction::PushNull => Instruction::PushNull,
            Instruction::PushTrue => Instruction::PushTrue,
            Instruction::PushFalse => Instruction::PushFalse,
            Instruction::PushInteger(i) => Instruction::PushInteger(*i),
            Instruction::PushFloat(f) => Instruction::PushFloat(f.clone()),
            Instruction::PushString(s) => Instruction::PushString(s.clone()),
            Instruction::PushName(s) => Instruction::PushName(s.clone()),
            Instruction::Pop => Instruction::Pop,
            Instruction::Dup => Instruction::Dup,
            Instruction::Rot2 => Instruction::Rot2,
            Instruction::Rot3 => Instruction::Rot3,
            Instruction::Add => Instruction::Add,
            Instruction::Subtract => Instruction::Subtract,
            Instruction::Multiply => Instruction::Multiply,
            Instruction::Divide => Instruction::Divide,
            Instruction::FloorDivide => Instruction::FloorDivide,
            Instruction::Modulo => Instruction::Modulo,
            Instruction::Power => Instruction::Power,
            Instruction::BitwiseAnd => Instruction::BitwiseAnd,
            Instruction::BitwiseOr => Instruction::BitwiseOr,
            Instruction::BitwiseXor => Instruction::BitwiseXor,
            Instruction::LeftShift => Instruction::LeftShift,
            Instruction::RightShift => Instruction::RightShift,
            Instruction::BitwiseNot => Instruction::BitwiseNot,
            Instruction::Equal => Instruction::Equal,
            Instruction::NotEqual => Instruction::NotEqual,
            Instruction::LessThan => Instruction::LessThan,
            Instruction::LessThanOrEqual => Instruction::LessThanOrEqual,
            Instruction::GreaterThan => Instruction::GreaterThan,
            Instruction::GreaterThanOrEqual => Instruction::GreaterThanOrEqual,
            Instruction::And => Instruction::And,
            Instruction::Or => Instruction::Or,
            Instruction::Not => Instruction::Not,
            Instruction::Jump(t) => Instruction::Jump(*t),
            Instruction::JumpIfTrue(t) => Instruction::JumpIfTrue(*t),
            Instruction::JumpIfFalse(t) => Instruction::JumpIfFalse(*t),
            Instruction::Return => Instruction::Return,
            Instruction::Yield => Instruction::Yield,
            Instruction::YieldFrom => Instruction::YieldFrom,
            Instruction::Call(n) => Instruction::Call(*n),
            Instruction::MakeFunction(n) => Instruction::MakeFunction(*n),
            Instruction::LoadMethod(s) => Instruction::LoadMethod(s.clone()),
            Instruction::GetAttribute(s) => Instruction::GetAttribute(s.clone()),
            Instruction::SetAttribute(s) => Instruction::SetAttribute(s.clone()),
            Instruction::GetItem => Instruction::GetItem,
            Instruction::SetItem => Instruction::SetItem,
            Instruction::BuildTuple(n) => Instruction::BuildTuple(*n),
            Instruction::BuildList(n) => Instruction::BuildList(*n),
            Instruction::BuildDict(n) => Instruction::BuildDict(*n),
            Instruction::BuildSet(n) => Instruction::BuildSet(*n),
            Instruction::SetupExcept(t) => Instruction::SetupExcept(*t),
            Instruction::SetupFinally(t) => Instruction::SetupFinally(*t),
            Instruction::EndFinally => Instruction::EndFinally,
            Instruction::Raise => Instruction::Raise,
            Instruction::SetupLoop(t) => Instruction::SetupLoop(*t),
            Instruction::Break => Instruction::Break,
            Instruction::Continue => Instruction::Continue,
            Instruction::SetupWith(t) => Instruction::SetupWith(*t),
        }
    }
}

/// A compiled function.
pub struct BytecodeFunction {
    /// Its name.
    pub name: String,
    /// Its instructions.
    pub instructions: CodeBuffer,
    /// Its constants.
    pub constants: Vec<Literal>,
    /// Global names it uses.
    pub names: Vec<String>,
    /// Its local variable names.
    pub varnames: Vec<String>,
    /// Number of positional parameters.
    pub argcount: usize,
    /// Number of keyword-only parameters.
    pub kwonlyargcount: usize,
    /// Number of local variables.
    pub nlocals: usize,
    /// Stack size it needs.
    pub stacksize: usize,
}

} // verus!

verus! {

impl BytecodeFunction {
    /// A function of the given name and instructions, with no constants, no
    /// names and no parameters.
    pub fn from_instructions(name: &str, instructions: Vec<Instruction>) -> (f: Self)
        ensures
            f.name@ == name@,
            code_items(f.instructions) == instructions@,
            f.constants@.len() == 0, f.names@.len() == 0, f.varnames@.len() == 0,
            f.argcount == 0, f.kwonlyargcount == 0, f.nlocals == 0, f.stacksize == 0,
    {
        BytecodeFunction {
            name: String::from_str(name),
            instructions: code_from_vec(instructions),
            constants: Vec::new(),
            names: Vec::new(),
            varnames: Vec::new(),
            argcount: 0,
            kwonlyargcount: 0,
            nlocals: 0,
            stacksize: 0,
        }
    }

    /// Number of instructions.
    pub fn instruction_count(&self) -> (n: usize)
        ensures n == code_items(self.instructions).len(),
    {
        code_len(&self.instructions)
    }

    /// The `i`-th instruction.
    pub fn instruction_at(&self, i: usize) -> (r: &Instruction)
        requires i < code_items(self.instructions).len(),
        ensures *r == code_items(self.instructions)[i as int],
    {
        code_at(&self.instructions, i)
    }

    /// The instructions, in order, as a vector.
    pub fn instruction_list(&self) -> (r: Vec<Instruction>)
        ensures r@ == code_items(self.instructions),
    {
        let n = code_len(&self.instructions);
        let mut r: Vec<Instruction> = Vec::new();
        let mut i: usize = 0;
        while i < n
            invariant
                n == code_items(self.instructions).len(),
                i <= n,
                r@ == code_items(self.instructions).subrange(0, i as int),
            decreases n - i,
        {
            r.push(code_at(&self.instructions, i).clone());
            proof {
                assert(code_items(self.instructions).subrange(0, i + 1)
                    =~= code_items(self.instructions).subrange(0, i as int).push(code_items(self.instructions)[i as int]));
            }
            i = i + 1;
        }
        assert(code_items(self.instructions).subrange(0, n as int) =~= code_items(self.instructions));
        r
    }
}

} // verus!
