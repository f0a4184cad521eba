//! Hot-function detection for the just-in-time compiler: call counters and
//! the threshold that marks a function hot.
use vstd::prelude::*;
use std::sync::Arc;
use crate::table::Table;
use crate::value::{PythonValue, PythonResult, ValueModel};
use crate::ir::Function;

verus! {

/// The JIT compiler's state.
pub struct JIT {
    /// Calls seen per function name.
    hot_counters: Table<usize>,
    /// Calls after which a function is hot.
    hot_threshold: usize,
}

/// The count a function has after one more call.
pub open spec fn bumped(counters: Map<Seq<char>, usize>, name: Seq<char>) -> int {
    (if counters.dom().contains(name) { counters[name] as int } else { 0 }) + 1
}

impl JIT {
    /// Calls seen per function name.
    pub closed spec fn counters(self) -> Map<Seq<char>, usize> {
        self.hot_counters@
    }

    /// Calls after which a function is hot.
    pub closed spec fn threshold(self) -> usize {
        self.hot_threshold
    }

    /// A JIT with no counts and a threshold of 1000 calls; creating one
    /// always succeeds.
    pub fn new() -> (r: Result<Self, String>)
        ensures
            r matches Ok(j) && j.counters() == Map::<Seq<char>, usize>::empty() && j.threshold() == 1000,
    {
        Ok(JIT { hot_counters: Table::new(), hot_threshold: 1000 })
    }

    /// Counts one more call of `function_name`, and tells whether the count
    /// has reached the threshold.
    pub fn is_hot(&mut self, function_name: &str) -> (r: bool)
        requires bumped(old(self).counters(), function_name@) <= usize::MAX,
        ensures
            final(self).counters() == old(self).counters().insert(
                function_name@, bumped(old(self).counters(), function_name@) as usize),
            final(self).threshold() == old(self).threshold(),
            r == (bumped(old(self).counters(), function_name@) >= old(self).threshold()),
    {
        let count: usize = match self.hot_counters.get(function_name) {
            Some(c) => *c,
            None => 0,
        };
        let next = count + 1;
        self.hot_counters.insert(String::from_str(function_name), next);
        next >= self.hot_threshold
    }

    /// Compiles a function; compilation is not implemented, so this succeeds
    /// and changes nothing.
    pub fn compile_function(&mut self, function: &Function) -> (r: Result<(), String>)
        ensures r is Ok, *final(self) == *old(self),
    {
        Ok(())
    }

    /// Runs a compiled function; no function is ever compiled, so this gives
    /// the interpreter's placeholder result, 42.
    pub fn execute_function(&self, function_name: &str, context: &mut crate::vm::Context, args: Vec<Arc<PythonValue>>)
        -> (r: PythonResult<Arc<PythonValue>>)
        ensures r matches Ok(v) && v@ == ValueModel::Integer(42), *final(context) == *old(context),
    {
        Ok(Arc::new(PythonValue::Integer(42)))
    }
}

} // verus!

verus! {

/// Counts after one more call of each name, in order.
pub open spec fn bump_all(c: Map<Seq<char>, usize>, names: Seq<Seq<char>>) -> Map<Seq<char>, usize>
    decreases names.len(),
{
    if names.len() == 0 {
        c
    } else {
        let c1 = bump_all(c, names.drop_last());
        c1.insert(names.last(), bumped(c1, names.last()) as usize)
    }
}

/// No count overflows while each name is counted once more, in order.
pub open spec fn counts_fit(c: Map<Seq<char>, usize>, names: Seq<Seq<char>>) -> bool {
    forall|i: int| 0 <= i < names.len() ==> #[trigger] bumped(bump_all(c, names.take(i)), names[i]) <= usize::MAX
}

/// The names of a module's functions, in order.
pub open spec fn function_names(m: crate::ir::Module) -> Seq<Seq<char>> {
    m.functions@.map_values(|f: Function| f.name@)
}

/// JIT services of the virtual machine.
pub trait JITExt {
    /// Whether counting one call of each function of `ir_module` overflows
    /// no counter.
    spec fn counts_fit_for(&self, ir_module: &crate::ir::Module) -> bool;

    /// Counts one call of each function of the module and compiles those that
    /// are hot.
    fn check_and_compile_hot_functions(&mut self, ir_module: &crate::ir::Module)
        requires old(self).counts_fit_for(ir_module);

    /// Runs a function with the JIT, if the machine has one.
    fn try_jit_execute(&mut self, function_name: &str, args: Vec<Arc<PythonValue>>) -> Option<PythonResult<Arc<PythonValue>>>;
}

impl JITExt for crate::vm::VirtualMachine {
    open spec fn counts_fit_for(&self, ir_module: &crate::ir::Module) -> bool {
        self.jit_view() matches Some(j) ==> counts_fit(j.counters(), function_names(*ir_module))
    }

    fn check_and_compile_hot_functions(&mut self, ir_module: &crate::ir::Module)
        ensures
            old(self).jit_view() is None ==> final(self).jit_view() is None,
            old(self).jit_view() matches Some(j) ==> (final(self).jit_view() matches Some(k)
                && k.counters() == bump_all(j.counters(), function_names(*ir_module))
                && k.threshold() == j.threshold()),
            final(self).stack_view() == old(self).stack_view(),
            final(self).frames_view() == old(self).frames_view(),
            final(self).context_view() == old(self).context_view(),
            final(self).globals_view() == old(self).globals_view(),
            final(self).ffi_view() == old(self).ffi_view(),
            final(self).code_view() == old(self).code_view(),
            final(self).pc_view() == old(self).pc_view(),
            final(self).suspended() == old(self).suspended(),
    {
        let ghost names = function_names(*ir_module);
        match self.jit_mut() {
            Some(jit) => {
                let ghost c0 = jit.counters();
                let ghost t0 = jit.threshold();
                let mut i: usize = 0;
                assert(names.take(0) =~= Seq::<Seq<char>>::empty());
                while i < ir_module.functions.len()
                    invariant
                        names == function_names(*ir_module),
                        i <= names.len(),
                        counts_fit(c0, names),
                        jit.counters() == bump_all(c0, names.take(i as int)),
                        jit.threshold() == t0,
                    decreases names.len() - i,
                {
                    let function = &ir_module.functions[i];
                    assert(names[i as int] == function.name@);
                    assert(bumped(bump_all(c0, names.take(i as int)), names[i as int]) <= usize::MAX);
                    if jit.is_hot(function.name.as_str()) {
                        let _ = jit.compile_function(function);
                    }
                    assert(names.take(i + 1).drop_last() =~= names.take(i as int));
                    i = i + 1;
                }
                assert(names.take(names.len() as int) =~= names);
            },
            None => {},
        }
    }

    fn try_jit_execute(&mut self, function_name: &str, args: Vec<Arc<PythonValue>>) -> (r: Option<PythonResult<Arc<PythonValue>>>)
        ensures
            old(self).jit_view() is Some ==> (r matches Some(Ok(v)) && v@ == ValueModel::Integer(42)),
            old(self).jit_view() is None ==> r is None,
            *final(self) == *old(self),
    {
        if self.jit().is_some() {
            Some(Ok(Arc::new(PythonValue::Integer(42))))
        } else {
            None
        }
    }
}

} // verus!

verus! {

/// The count a name has: its counter, or 0 where it has none.
pub open spec fn count_of(c: Map<Seq<char>, usize>, name: Seq<char>) -> int {
    if c.dom().contains(name) { c[name] as int } else { 0 }
}

/// How many times `x` occurs in `names`.
pub open spec fn occurrences(names: Seq<Seq<char>>, x: Seq<char>) -> nat
    decreases names.len(),
{
    if names.len() == 0 {
        0
    } else {
        occurrences(names.drop_last(), x) + if names.last() == x { 1nat } else { 0nat }
    }
}

/// Every call is counted: after counting a sequence of calls, each name's
/// count has grown by the number of its calls (so a function is hot from the
/// call that brings its count to the threshold on).
pub proof fn law_calls_counted(c: Map<Seq<char>, usize>, names: Seq<Seq<char>>, x: Seq<char>)
    requires counts_fit(c, names),
    ensures count_of(bump_all(c, names), x) == count_of(c, x) + occurrences(names, x),
    decreases names.len(),
{
    if names.len() > 0 {
        let n = names.len() - 1;
        let init = names.drop_last();
        assert forall|i: int| 0 <= i < init.len() implies #[trigger] bumped(bump_all(c, init.take(i)), init[i]) <= usize::MAX by {
            assert(init.take(i) =~= names.take(i));
            assert(bumped(bump_all(c, names.take(i)), names[i]) <= usize::MAX);
        }
        law_calls_counted(c, init, x);
        assert(names.take(n) =~= init);
        assert(bumped(bump_all(c, names.take(n)), names[n]) <= usize::MAX);
    }
}

} // verus!
