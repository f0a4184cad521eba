//! `smallvec::SmallVec` as the library uses it: instruction sequences and the
//! value stack, each named by what it holds.
use vstd::prelude::*;
use smallvec::SmallVec;
use crate::bytecode::Instruction;
use crate::value::PythonValue;

verus! {

/// A sequence of instructions, held in a `SmallVec` with room for 64 inline.
#[verifier::external_body]
pub struct CodeBuffer {
    items: SmallVec<[Instruction; 64]>,
}

/// A stack of values, held in a `SmallVec` with room for 64 inline.
#[verifier::external_body]
pub struct ValueStack {
    items: SmallVec<[PythonValue; 64]>,
}

/// Fewer elements than this never make `SmallVec::push` fail: growing to the
/// next power of two stays far below the `isize::MAX` bytes at which it
/// reports capacity overflow.
pub const BUFFER_LIMIT: usize = 0x0100_0000;

/// The instructions an instruction buffer holds, in order.
pub uninterp spec fn code_items(v: CodeBuffer) -> Seq<Instruction>;

/// The values a value buffer holds, bottom first.
pub uninterp spec fn stack_items(v: ValueStack) -> Seq<PythonValue>;

/// `SmallVec::new`: an empty buffer.
#[verifier::external_body]
pub(crate) fn code_new() -> (v: CodeBuffer)
    ensures code_items(v) == Seq::<Instruction>::empty(),
{
    CodeBuffer { items: SmallVec::new() }
}

/// `SmallVec::len`: the number of instructions held.
#[verifier::external_body]
pub(crate) fn code_len(v: &CodeBuffer) -> (n: usize)
    ensures n == code_items(*v).len(),
{
    v.items.len()
}

/// Indexing (`Index::index` through `Deref`): the instruction at `i`.
#[verifier::external_body]
pub(crate) fn code_at(v: &CodeBuffer, i: usize) -> (r: &Instruction)
    requires i < code_items(*v).len(),
    ensures *r == code_items(*v)[i as int],
{
    &v.items[i]
}

/// `SmallVec::push` of an instruction.
#[verifier::external_body]
pub(crate) fn code_push(v: &mut CodeBuffer, x: Instruction)
    requires code_items(*old(v)).len() < BUFFER_LIMIT,
    ensures code_items(*final(v)) == code_items(*old(v)).push(x),
{
    v.items.push(x)
}

/// `IndexMut::index_mut` through `DerefMut`, and an assignment: replaces the
/// instruction at `i`.
#[verifier::external_body]
pub(crate) fn code_set(v: &mut CodeBuffer, i: usize, x: Instruction)
    requires i < code_items(*old(v)).len(),
    ensures code_items(*final(v)) == code_items(*old(v)).update(i as int, x),
{
    v.items[i] = x;
}

/// `SmallVec::clone`, which clones item by item (`Instruction::clone` gives
/// an equal instruction).
#[verifier::external_body]
pub(crate) fn code_clone(v: &CodeBuffer) -> (r: CodeBuffer)
    ensures code_items(r) == code_items(*v),
{
    CodeBuffer { items: v.items.clone() }
}

/// `SmallVec::new`: an empty stack.
#[verifier::external_body]
pub(crate) fn stack_new() -> (v: ValueStack)
    ensures stack_items(v) == Seq::<PythonValue>::empty(),
{
    ValueStack { items: SmallVec::new() }
}

/// `SmallVec::len`: the number of values held.
#[verifier::external_body]
pub(crate) fn stack_len(v: &ValueStack) -> (n: usize)
    ensures n == stack_items(*v).len(),
{
    v.items.len()
}

/// `SmallVec::push` of a value.
#[verifier::external_body]
pub(crate) fn stack_push(v: &mut ValueStack, x: PythonValue)
    requires stack_items(*old(v)).len() < BUFFER_LIMIT,
    ensures stack_items(*final(v)) == stack_items(*old(v)).push(x),
{
    v.items.push(x)
}

/// `SmallVec::pop`: the top value, removed, or `None` when empty.
#[verifier::external_body]
pub(crate) fn stack_pop(v: &mut ValueStack) -> (r: Option<PythonValue>)
    ensures
        stack_items(*old(v)).len() == 0 ==> r is None && stack_items(*final(v)) == stack_items(*old(v)),
        stack_items(*old(v)).len() > 0 ==> r == Some(stack_items(*old(v)).last())
            && stack_items(*final(v)) == stack_items(*old(v)).drop_last(),
{
    v.items.pop()
}

/// `SmallVec::last` (through `Deref`): the top value, borrowed.
#[verifier::external_body]
pub(crate) fn stack_last(v: &ValueStack) -> (r: Option<&PythonValue>)
    ensures
        stack_items(*v).len() == 0 ==> r is None,
        stack_items(*v).len() > 0 ==> r == Some(&stack_items(*v).last()),
{
    v.items.last()
}

} // verus!

verus! {

/// `SmallVec::from_vec`: the vector's instructions, in order.
#[verifier::external_body]
pub(crate) fn code_from_vec(v: Vec<Instruction>) -> (r: CodeBuffer)
    ensures code_items(r) == v@,
{
    CodeBuffer { items: SmallVec::from_vec(v) }
}

} // verus!
