//! The virtual machine: a value stack, frames, a context of globals and
//! classes, and the interpreter loop that runs bytecode functions.
use vstd::prelude::*;
use std::sync::Arc;
use crate::bytecode::{Instruction, BytecodeFunction};
use crate::float::{FloatOp, FloatTask, Outcome};
use crate::inline_vec::{CodeBuffer, ValueStack, code_items, stack_items, code_len, code_at, code_clone, code_new,
    stack_new, stack_len, stack_push, stack_pop, stack_last, BUFFER_LIMIT};
use crate::table::Table;
use crate::jit::{JIT, JITExt};
use crate::ffi::FFI;
use crate::model::{ErrorKind, OpModel, NumModel, result_is, task_is, is_error};
use crate::value::{PythonValue, PythonError, PythonResult, ValueModel, Dict, seq_models, lemma_seq_models, model};
use crate::value_ops::{truthy};
use crate::render::display_text;
use crate::vm_model::{Env, StepModel, RunModel, step, run, run_ends, is_binary, binary_step, dict_pairs,
    lemma_run_unique, call_step, cond_jump, undefined_name, not_callable, no_attribute};
use crate::vm_ops::binary_value;

verus! {

/// What the values of a stack stand for, bottom first.
pub open spec fn view_of(st: ValueStack) -> Seq<ValueModel> {
    stack_items(st).map_values(|v: PythonValue| v@)
}

/// Pushes a value.
fn push_value(st: &mut ValueStack, v: PythonValue)
    requires view_of(*old(st)).len() < BUFFER_LIMIT,
    ensures view_of(*final(st)) == view_of(*old(st)).push(v@),
{
    let ghost m = v@;
    let ghost pre = view_of(*st);
    stack_push(st, v);
    assert(view_of(*st) =~= pre.push(m));
}

/// Pops the top value, if any.
fn pop_value(st: &mut ValueStack) -> (r: Option<PythonValue>)
    ensures
        view_of(*old(st)).len() == 0 ==> r is None && view_of(*final(st)) == view_of(*old(st)),
        view_of(*old(st)).len() > 0 ==> (r matches Some(v) && v@ == view_of(*old(st)).last())
            && view_of(*final(st)) == view_of(*old(st)).drop_last(),
{
    let ghost pre = view_of(*st);
    let r = stack_pop(st);
    assert(view_of(*st) =~= (if pre.len() > 0 { pre.drop_last() } else { pre }));
    r
}

/// Number of values on a stack.
fn depth(st: &ValueStack) -> (n: usize)
    ensures n == view_of(*st).len(),
{
    stack_len(st)
}

/// Pops the `k` top values and gives them bottom first.
fn pop_many(st: &mut ValueStack, k: usize) -> (items: Vec<Arc<PythonValue>>)
    requires k <= view_of(*old(st)).len(),
    ensures
        view_of(*final(st)) == view_of(*old(st)).subrange(0, view_of(*old(st)).len() - k),
        seq_models(items@) == view_of(*old(st)).subrange(view_of(*old(st)).len() - k, view_of(*old(st)).len() as int),
{
    let ghost s = view_of(*st);
    let n = depth(st);
    let mut temp: Vec<PythonValue> = Vec::new();
    let mut i: usize = 0;
    while i < k
        invariant
            i <= k, k <= n, n == s.len(),
            view_of(*st) == s.subrange(0, n - i),
            temp@.len() == i,
            forall|j: int| 0 <= j < i ==> #[trigger] temp@[j]@ == s[n - 1 - j],
        decreases k - i,
    {
        let v = pop_value(st);
        match v {
            Some(x) => { temp.push(x); },
            None => {},
        }
        proof { assert(s.subrange(0, n - i).drop_last() =~= s.subrange(0, n - i - 1)); }
        i = i + 1;
    }
    let mut items: Vec<Arc<PythonValue>> = Vec::new();
    while temp.len() > 0
        invariant
            k <= n, n == s.len(),
            temp@.len() + items@.len() == k,
            forall|j: int| 0 <= j < temp@.len() ==> #[trigger] temp@[j]@ == s[n - 1 - j],
            forall|j: int| 0 <= j < items@.len() ==> #[trigger] (*items@[j])@ == s[n - k + j],
        decreases temp@.len(),
    {
        let v = temp.pop().unwrap();
        items.push(Arc::new(v));
    }
    proof {
        lemma_seq_models(items@);
        assert(items@.len() == k);
        assert forall|j: int| 0 <= j < k implies #[trigger] seq_models(items@)[j] == s.subrange(n - k, n as int)[j] by {
            assert((*items@[j])@ == s[n - k + j]);
        }
        assert(seq_models(items@) =~= s.subrange(n - k, n as int));
    }
    items
}

/// Methods of a class: name to the handle under which the host keeps the
/// method's body.
pub type ClassMethods = Table<usize>;

/// The context that running code sees: global variables and classes.
pub struct Context {
    globals: Table<Arc<PythonValue>>,
    class_methods: Table<ClassMethods>,
}

impl Context {
    /// Global variables, as shared values.
    pub closed spec fn globals_arcs(self) -> Map<Seq<char>, Arc<PythonValue>> {
        self.globals@
    }

    /// What the global variables stand for.
    pub open spec fn globals_view(self) -> Map<Seq<char>, ValueModel> {
        self.globals_arcs().map_values(|a: Arc<PythonValue>| (*a)@)
    }

    /// Classes and their methods.
    pub closed spec fn classes(self) -> Map<Seq<char>, Map<Seq<char>, usize>> {
        self.class_methods@.map_values(|t: ClassMethods| t@)
    }

    /// An empty context.
    pub fn new() -> (c: Self)
        ensures
            c.globals_arcs() == Map::<Seq<char>, Arc<PythonValue>>::empty(),
            c.classes() == Map::<Seq<char>, Map<Seq<char>, usize>>::empty(),
    {
        let c = Context { globals: Table::new(), class_methods: Table::new() };
        assert(c.classes() =~= Map::<Seq<char>, Map<Seq<char>, usize>>::empty());
        c
    }

    /// Defines a class with no methods (replacing any class of that name).
    pub fn define_class(&mut self, name: &str)
        ensures
            final(self).classes() == old(self).classes().insert(name@, Map::<Seq<char>, usize>::empty()),
            final(self).globals_arcs() == old(self).globals_arcs(),
    {
        let ghost pre = self.classes();
        self.class_methods.insert(String::from_str(name), Table::new());
        assert(self.classes() =~= pre.insert(name@, Map::<Seq<char>, usize>::empty()));
    }

    /// Defines a global function: the name is bound to a function value of
    /// that name.
    pub fn define_function(&mut self, name: &str)
        ensures
            final(self).globals_arcs().dom() == old(self).globals_arcs().dom().insert(name@),
            final(self).globals_view() == old(self).globals_view().insert(name@, ValueModel::Function(name@)),
            final(self).classes() == old(self).classes(),
    {
        let ghost pre = self.globals_view();
        self.globals.insert(String::from_str(name), Arc::new(PythonValue::Function(String::from_str(name))));
        assert(self.globals_view() =~= pre.insert(name@, ValueModel::Function(name@)));
    }

    /// The methods of a class, if it is defined.
    pub fn get_class_methods(&self, class: &str) -> (r: Option<&ClassMethods>)
        ensures
            match r {
                Some(t) => self.classes().dom().contains(class@) && t@ == self.classes()[class@],
                None => !self.classes().dom().contains(class@),
            },
    {
        self.class_methods.get(class)
    }

    /// Adds a method to a defined class; false when the class is unknown.
    pub fn define_method(&mut self, class: &str, name: &str, handle: usize) -> (r: bool)
        ensures
            r == old(self).classes().dom().contains(class@),
            r ==> final(self).classes() == old(self).classes().insert(class@,
                old(self).classes()[class@].insert(name@, handle)),
            !r ==> final(self).classes() == old(self).classes(),
            final(self).globals_arcs() == old(self).globals_arcs(),
    {
        let ghost pre = self.classes();
        let methods = match self.class_methods.get(class) {
            Some(t) => t.duplicate(),
            None => { return false; },
        };
        let mut methods = methods;
        methods.insert(String::from_str(name), handle);
        self.class_methods.insert(String::from_str(class), methods);
        assert(self.classes() =~= pre.insert(class@, pre[class@].insert(name@, handle)));
        true
    }

    /// The value of a global variable, shared.
    pub fn get_global(&self, name: &str) -> (r: Option<Arc<PythonValue>>)
        ensures
            match r {
                Some(a) => self.globals_arcs().dom().contains(name@) && a == self.globals_arcs()[name@],
                None => !self.globals_arcs().dom().contains(name@),
            },
    {
        match self.globals.get(name) {
            Some(a) => Some(crate::value::share(a)),
            None => None,
        }
    }

    /// Binds a global variable.
    pub fn set_global(&mut self, name: &str, value: Arc<PythonValue>)
        ensures
            final(self).globals_arcs() == old(self).globals_arcs().insert(name@, value),
            final(self).classes() == old(self).classes(),
    {
        self.globals.insert(String::from_str(name), value);
    }
}

/// What a frame holds.
pub struct FrameModel {
    /// Local variables.
    pub locals: Map<Seq<char>, ValueModel>,
    /// The code it runs.
    pub code: Seq<Instruction>,
    /// Its program counter.
    pub pc: usize,
    /// Where it returns to.
    pub return_address: Option<usize>,
}

/// A stack frame: locals, code and program counter.
pub struct Frame {
    locals: Table<PythonValue>,
    instructions: CodeBuffer,
    pc: usize,
    return_address: Option<usize>,
}

impl Frame {
    /// What the frame holds.
    pub closed spec fn model(self) -> FrameModel {
        FrameModel {
            locals: self.locals@.map_values(|v: PythonValue| v@),
            code: code_items(self.instructions),
            pc: self.pc,
            return_address: self.return_address,
        }
    }
}

/// The virtual machine.
pub struct VirtualMachine {
    stack: ValueStack,
    globals: Table<PythonValue>,
    frames: Vec<Frame>,
    instructions: CodeBuffer,
    pc: usize,
    context: Context,
    jit: Option<JIT>,
    ffi: FFI,
    awaiting: bool,
}

/// The virtual machine.
pub type VM = VirtualMachine;

/// What an instruction's execution did, as the step model describes it.
pub open spec fn step_done(m: StepModel, r: PythonResult<Outcome<()>>, s: Seq<ValueModel>, pc: int, pc0: int) -> bool {
    match m {
        StepModel::Next(s2, p2) => r matches Ok(Outcome::Ready(_)) && s == s2 && pc + 1 == p2,
        StepModel::Fail(k, msg, s2) => (r matches Err(e) && is_error(e, k, msg)) && s == s2 && pc == pc0,
        StepModel::Float(op, l, rr, s2) => (r matches Ok(Outcome::Float(t)) && task_is(t, op, l, rr)) && s == s2 && pc == pc0,
        StepModel::Stuck => false,
    }
}

impl VirtualMachine {
    /// What the values on the stack stand for, bottom first.
    pub closed spec fn stack_view(self) -> Seq<ValueModel> {
        view_of(self.stack)
    }

    /// The code being run.
    pub closed spec fn code_view(self) -> Seq<Instruction> {
        code_items(self.instructions)
    }

    /// The program counter.
    pub closed spec fn pc_view(self) -> usize {
        self.pc
    }

    /// The frames, oldest first.
    pub closed spec fn frames_view(self) -> Seq<FrameModel> {
        self.frames@.map_values(|f: Frame| f.model())
    }

    /// The machine's own global variables.
    pub closed spec fn globals_view(self) -> Map<Seq<char>, ValueModel> {
        self.globals@.map_values(|v: PythonValue| v@)
    }

    /// The context.
    pub closed spec fn context_view(self) -> Context {
        self.context
    }

    /// The JIT, if any.
    pub closed spec fn jit_view(self) -> Option<JIT> {
        self.jit
    }

    /// The foreign-function registry.
    pub closed spec fn ffi_view(self) -> FFI {
        self.ffi
    }

    /// Whether a run waits for the answer to a binary64 task.
    pub closed spec fn suspended(self) -> bool {
        self.awaiting && self.pc < code_items(self.instructions).len() && view_of(self.stack).len() < BUFFER_LIMIT
    }

    /// What a run sees: the locals of the newest frame, the context's
    /// globals, and whether there is a JIT.
    pub open spec fn run_env(self) -> Env {
        Env {
            locals: if self.frames_view().len() > 0 { self.frames_view().last().locals } else { Map::empty() },
            globals: self.context_view().globals_view(),
            jit: self.jit_view() is Some,
        }
    }

    /// What a run of a newly called function sees: no locals.
    pub open spec fn fresh_env(self) -> Env {
        Env { locals: Map::empty(), globals: self.context_view().globals_view(), jit: self.jit_view() is Some }
    }

    /// The frame that a call saves: the caller's code and program counter.
    pub open spec fn saved_frame(self) -> FrameModel {
        FrameModel { locals: Map::empty(), code: self.code_view(), pc: self.pc_view(), return_address: None }
    }

    /// The machine after a run over code `c` with frames `f` ended as `m`,
    /// having answered `r`: at the end of the code, the top of the stack is
    /// popped as the result and the newest frame's code and counter come
    /// back; an error or a binary64 task leaves the machine where it stood.
    pub open spec fn ended_as(self, f: Seq<FrameModel>, c: Seq<Instruction>, r: PythonResult<Outcome<PythonValue>>, m: RunModel) -> bool {
        match m {
            RunModel::Done(s) => {
                &&& r matches Ok(Outcome::Ready(v)) && v@ == (if s.len() > 0 { s.last() } else { ValueModel::NoneValue })
                &&& self.stack_view() == (if s.len() > 0 { s.drop_last() } else { s })
                &&& !self.suspended()
                &&& f.len() > 0 ==> self.frames_view() == f.drop_last() && self.code_view() == f.last().code
                        && self.pc_view() == f.last().pc
                &&& f.len() == 0 ==> self.frames_view() == f && self.code_view() == c
            },
            RunModel::Failed(k, msg, s, p) => {
                &&& r matches Err(e) && is_error(e, k, msg)
                &&& self.stack_view() == s && self.pc_view() == p && self.code_view() == c && self.frames_view() == f
                &&& !self.suspended()
            },
            RunModel::Suspended(op, l, rr, s, p) => {
                &&& r matches Ok(Outcome::Float(t)) && task_is(t, op, l, rr)
                &&& self.stack_view() == s && self.pc_view() == p && self.code_view() == c && self.frames_view() == f
                &&& self.suspended()
            },
            _ => false,
        }
    }

    /// A machine with an empty stack, no frames, no globals, an empty
    /// context, a JIT and an empty foreign-function registry.
    pub fn new() -> (vm: Self)
        ensures
            vm.stack_view() == Seq::<ValueModel>::empty(),
            vm.code_view() == Seq::<Instruction>::empty(),
            vm.pc_view() == 0,
            vm.frames_view() == Seq::<FrameModel>::empty(),
            vm.globals_view() == Map::<Seq<char>, ValueModel>::empty(),
            vm.context_view().globals_arcs() == Map::<Seq<char>, Arc<PythonValue>>::empty(),
            vm.context_view().classes() == Map::<Seq<char>, Map<Seq<char>, usize>>::empty(),
            vm.jit_view() matches Some(j) && j.counters() == Map::<Seq<char>, usize>::empty() && j.threshold() == 1000,
            vm.ffi_view().functions_view() == Map::<Seq<char>, usize>::empty(),
            vm.ffi_view().c_functions_view() == Map::<Seq<char>, usize>::empty(),
            !vm.suspended(),
    {
        let jit = JIT::new().ok();
        let vm = VirtualMachine {
            stack: stack_new(),
            globals: Table::new(),
            frames: Vec::new(),
            instructions: code_new(),
            pc: 0,
            context: Context::new(),
            jit,
            ffi: FFI::new(),
            awaiting: false,
        };
        assert(vm.stack_view() =~= Seq::<ValueModel>::empty());
        assert(vm.frames_view() =~= Seq::<FrameModel>::empty());
        assert(vm.globals_view() =~= Map::<Seq<char>, ValueModel>::empty());
        vm
    }

    /// The context.
    pub fn context(&self) -> (c: &Context)
        ensures *c == self.context_view(),
    {
        &self.context
    }

    /// The context, for changes.
    pub fn context_mut(&mut self) -> (c: &mut Context)
        ensures
            *c == old(self).context_view(),
            final(self).context_view() == *final(c),
            final(self).stack_view() == old(self).stack_view(),
            final(self).globals_view() == old(self).globals_view(),
            final(self).frames_view() == old(self).frames_view(),
            final(self).code_view() == old(self).code_view(),
            final(self).pc_view() == old(self).pc_view(),
            final(self).jit_view() == old(self).jit_view(),
            final(self).ffi_view() == old(self).ffi_view(),
            final(self).suspended() == old(self).suspended(),
    {
        &mut self.context
    }

    /// The JIT, if any.
    pub fn jit(&self) -> (j: Option<&JIT>)
        ensures
            match j {
                Some(x) => self.jit_view() == Some(*x),
                None => self.jit_view() is None,
            },
    {
        self.jit.as_ref()
    }

    /// The JIT, if any, for changes.
    pub fn jit_mut(&mut self) -> (j: Option<&mut JIT>)
        ensures
            old(self).jit_view() is None ==> j is None && final(self).jit_view() is None,
            old(self).jit_view() is Some ==> j is Some && *j.unwrap() == old(self).jit_view().unwrap()
                && final(self).jit_view() == Some(*final(j.unwrap())),
            final(self).stack_view() == old(self).stack_view(),
            final(self).globals_view() == old(self).globals_view(),
            final(self).frames_view() == old(self).frames_view(),
            final(self).code_view() == old(self).code_view(),
            final(self).pc_view() == old(self).pc_view(),
            final(self).context_view() == old(self).context_view(),
            final(self).ffi_view() == old(self).ffi_view(),
            final(self).suspended() == old(self).suspended(),
    {
        self.jit.as_mut()
    }

    /// The foreign-function registry.
    pub fn ffi(&self) -> (f: &FFI)
        ensures *f == self.ffi_view(),
    {
        &self.ffi
    }

    /// The foreign-function registry, for changes.
    pub fn ffi_mut(&mut self) -> (f: &mut FFI)
        ensures
            *f == old(self).ffi_view(),
            final(self).ffi_view() == *final(f),
            final(self).stack_view() == old(self).stack_view(),
            final(self).globals_view() == old(self).globals_view(),
            final(self).frames_view() == old(self).frames_view(),
            final(self).code_view() == old(self).code_view(),
            final(self).pc_view() == old(self).pc_view(),
            final(self).context_view() == old(self).context_view(),
            final(self).jit_view() == old(self).jit_view(),
            final(self).suspended() == old(self).suspended(),
    {
        &mut self.ffi
    }

    /// Binds one of the machine's own global variables.
    pub fn set_global(&mut self, name: String, value: PythonValue)
        ensures
            final(self).globals_view() == old(self).globals_view().insert(name@, value@),
            final(self).stack_view() == old(self).stack_view(),
            final(self).frames_view() == old(self).frames_view(),
            final(self).context_view() == old(self).context_view(),
    {
        let ghost pre = self.globals_view();
        let ghost k = name@;
        let ghost m = value@;
        self.globals.insert(name, value);
        assert(self.globals_view() =~= pre.insert(k, m));
    }

    /// One of the machine's own global variables.
    pub fn get_global(&self, name: &str) -> (r: Option<&PythonValue>)
        ensures
            match r {
                Some(v) => self.globals_view().dom().contains(name@) && v@ == self.globals_view()[name@],
                None => !self.globals_view().dom().contains(name@),
            },
    {
        self.globals.get(name)
    }

    /// Binds a local variable of the newest frame; with no frame, nothing
    /// changes.
    pub fn set_local(&mut self, name: String, value: PythonValue)
        ensures
            old(self).frames_view().len() > 0 ==> final(self).frames_view() == old(self).frames_view().update(
                old(self).frames_view().len() - 1,
                FrameModel { locals: old(self).frames_view().last().locals.insert(name@, value@), ..old(self).frames_view().last() }),
            old(self).frames_view().len() == 0 ==> final(self).frames_view() == old(self).frames_view(),
            final(self).stack_view() == old(self).stack_view(),
            final(self).globals_view() == old(self).globals_view(),
            final(self).context_view() == old(self).context_view(),
            final(self).code_view() == old(self).code_view(),
            final(self).pc_view() == old(self).pc_view(),
            final(self).suspended() == old(self).suspended(),
    {
        let ghost pre = self.frames_view();
        let ghost k = name@;
        let ghost m = value@;
        if self.frames.len() > 0 {
            let mut frame = self.frames.pop().unwrap();
            let ghost before = frame.locals@.map_values(|v: PythonValue| v@);
            frame.locals.insert(name, value);
            assert(frame.locals@.map_values(|v: PythonValue| v@) =~= before.insert(k, m));
            self.frames.push(frame);
            assert(self.frames_view() =~= pre.update(pre.len() - 1,
                FrameModel { locals: pre.last().locals.insert(k, m), ..pre.last() }));
        }
    }

    /// A local variable of the newest frame.
    pub fn get_local(&self, name: &str) -> (r: Option<&PythonValue>)
        ensures
            self.frames_view().len() == 0 ==> r is None,
            self.frames_view().len() > 0 ==> match r {
                Some(v) => self.frames_view().last().locals.dom().contains(name@)
                    && v@ == self.frames_view().last().locals[name@],
                None => !self.frames_view().last().locals.dom().contains(name@),
            },
    {
        let n = self.frames.len();
        if n > 0 {
            self.frames[n - 1].locals.get(name)
        } else {
            None
        }
    }

    /// Compiles hot functions of a module; not implemented, so nothing
    /// changes.
    pub fn check_and_compile_hot_functions(&mut self, _ir: &crate::ir::Module)
        ensures *final(self) == *old(self),
    {
    }

    /// Adds a method to a class of the context; false when the class is
    /// unknown.
    pub fn define_method_in_context(&mut self, class: &str, name: &str, handle: usize) -> (r: bool)
        ensures
            r == old(self).context_view().classes().dom().contains(class@),
            r ==> final(self).context_view().classes() == old(self).context_view().classes().insert(class@,
                old(self).context_view().classes()[class@].insert(name@, handle)),
            !r ==> final(self).context_view().classes() == old(self).context_view().classes(),
            final(self).context_view().globals_arcs() == old(self).context_view().globals_arcs(),
            final(self).stack_view() == old(self).stack_view(),
            final(self).globals_view() == old(self).globals_view(),
            final(self).frames_view() == old(self).frames_view(),
    {
        self.context.define_method(class, name, handle)
    }

    /// A global variable of the context, shared.
    pub fn get_global_from_context(&self, name: &str) -> (r: Option<Arc<PythonValue>>)
        ensures
            match r {
                Some(a) => self.context_view().globals_arcs().dom().contains(name@)
                    && a == self.context_view().globals_arcs()[name@],
                None => !self.context_view().globals_arcs().dom().contains(name@),
            },
    {
        self.context.get_global(name)
    }

    /// Binds a global variable of the context.
    pub fn set_global_in_context(&mut self, name: &str, value: Arc<PythonValue>)
        ensures
            final(self).context_view().globals_arcs() == old(self).context_view().globals_arcs().insert(name@, value),
            final(self).context_view().classes() == old(self).context_view().classes(),
            final(self).stack_view() == old(self).stack_view(),
            final(self).globals_view() == old(self).globals_view(),
            final(self).frames_view() == old(self).frames_view(),
            final(self).jit_view() == old(self).jit_view(),
            final(self).suspended() == old(self).suspended(),
    {
        self.context.set_global(name, value);
    }
}

} // verus!

verus! {

/// A string of `a` followed by `b` followed by `c`.
fn join3(a: &str, b: &str, c: &str) -> (r: String)
    ensures r@ == a@ + b@ + c@,
{
    let mut s = String::from_str(a);
    s.append(b);
    s.append(c);
    s
}

/// Pushes, pops and reorderings that touch only the stack.
fn shuffle(st: &mut ValueStack, i: &Instruction, Ghost(env): Ghost<Env>, Ghost(pc): Ghost<int>) -> (r: PythonResult<Outcome<()>>)
    requires
        view_of(*old(st)).len() < BUFFER_LIMIT,
        match *i {
            Instruction::PushNull | Instruction::PushTrue | Instruction::PushFalse | Instruction::PushInteger(_)
            | Instruction::PushFloat(_) | Instruction::PushString(_) | Instruction::Pop | Instruction::Dup
            | Instruction::Rot2 | Instruction::Rot3 | Instruction::MakeFunction(_) | Instruction::LoadMethod(_) => true,
            _ => false,
        },
    ensures
        step_done(step(*i, env, view_of(*old(st)), pc), r, view_of(*final(st)), pc, pc),
{
    let ghost s = view_of(*st);
    match i {
        Instruction::PushNull => { push_value(st, PythonValue::NoneValue); },
        Instruction::PushTrue => { push_value(st, PythonValue::Boolean(true)); },
        Instruction::PushFalse => { push_value(st, PythonValue::Boolean(false)); },
        Instruction::PushInteger(x) => { push_value(st, PythonValue::Integer(*x)); },
        Instruction::PushFloat(f) => { push_value(st, PythonValue::Float(f.clone())); },
        Instruction::PushString(t) => { push_value(st, PythonValue::String(t.clone())); },
        Instruction::Pop => { let _ = pop_value(st); },
        Instruction::Dup => {
            let top = match stack_last(st) {
                Some(t) => Some(t.clone()),
                None => None,
            };
            proof {
                if s.len() > 0 {
                    assert(stack_items(*st).last()@ == s.last());
                }
            }
            match top {
                Some(t) => { push_value(st, t); },
                None => {},
            }
        },
        Instruction::Rot2 => {
            if depth(st) >= 2 {
                let a = pop_value(st).unwrap();
                let b = pop_value(st).unwrap();
                push_value(st, a);
                push_value(st, b);
                assert(view_of(*st) =~= s.subrange(0, s.len() - 2).push(s[s.len() - 1]).push(s[s.len() - 2]));
            }
        },
        Instruction::Rot3 => {
            if depth(st) >= 3 {
                let a = pop_value(st).unwrap();
                let b = pop_value(st).unwrap();
                let c = pop_value(st).unwrap();
                push_value(st, a);
                push_value(st, c);
                push_value(st, b);
                assert(view_of(*st) =~= s.subrange(0, s.len() - 3).push(s[s.len() - 1]).push(s[s.len() - 3]).push(s[s.len() - 2]));
            }
        },
        Instruction::MakeFunction(_) => {
            push_value(st, PythonValue::Function(String::from_str("anonymous")));
        },
        Instruction::LoadMethod(name) => {
            match pop_value(st) {
                Some(obj) => {
                    let t = obj.to_string();
                    push_value(st, obj);
                    push_value(st, PythonValue::Function(join3(t.as_str(), ".", name.as_str())));
                    assert(view_of(*st) =~= s.push(ValueModel::Function(display_text(s.last()) + "."@ + name@)));
                },
                None => {},
            }
        },
        _ => {},
    }
    Ok(Outcome::Ready(()))
}

/// Logical and bitwise-not instructions.
fn logic(st: &mut ValueStack, i: &Instruction, Ghost(env): Ghost<Env>, Ghost(pc): Ghost<int>) -> (r: PythonResult<Outcome<()>>)
    requires
        view_of(*old(st)).len() < BUFFER_LIMIT,
        match *i {
            Instruction::BitwiseNot | Instruction::And | Instruction::Or | Instruction::Not => true,
            _ => false,
        },
    ensures
        step_done(step(*i, env, view_of(*old(st)), pc), r, view_of(*final(st)), pc, pc),
{
    let ghost s = view_of(*st);
    match i {
        Instruction::BitwiseNot => {
            match pop_value(st) {
                Some(PythonValue::Integer(x)) => {
                    let y: i64 = !x;
                    assert(i64::MIN <= y <= i64::MAX) by (bit_vector)
                        requires y == !x;
                    push_value(st, PythonValue::Integer(y));
                },
                Some(_) => { return Err(PythonError::TypeError(String::from_str("unsupported operand type(s) for ~"))); },
                None => {},
            }
        },
        Instruction::And => {
            match pop_value(st) {
                Some(b) => {
                    if !b.to_bool() {
                        push_value(st, b);
                        assert(view_of(*st) =~= s);
                    } else {
                        match pop_value(st) {
                            Some(a) => {
                                push_value(st, a);
                                assert(view_of(*st) =~= s.drop_last());
                            },
                            None => { push_value(st, b); assert(view_of(*st) =~= s); },
                        }
                    }
                },
                None => {},
            }
        },
        Instruction::Or => {
            match pop_value(st) {
                Some(b) => {
                    if b.to_bool() {
                        push_value(st, b);
                        assert(view_of(*st) =~= s);
                    } else {
                        match pop_value(st) {
                            Some(a) => {
                                push_value(st, a);
                                assert(view_of(*st) =~= s.drop_last());
                            },
                            None => { push_value(st, b); assert(view_of(*st) =~= s); },
                        }
                    }
                },
                None => {},
            }
        },
        _ => {
            match pop_value(st) {
                Some(obj) => { push_value(st, PythonValue::Boolean(!obj.to_bool())); },
                None => {},
            }
        },
    }
    Ok(Outcome::Ready(()))
}

/// Attribute reads and writes.
fn attribute(st: &mut ValueStack, i: &Instruction, Ghost(env): Ghost<Env>, Ghost(pc): Ghost<int>) -> (r: PythonResult<Outcome<()>>)
    requires
        view_of(*old(st)).len() < BUFFER_LIMIT,
        match *i {
            Instruction::GetAttribute(_) | Instruction::SetAttribute(_) => true,
            _ => false,
        },
    ensures
        step_done(step(*i, env, view_of(*old(st)), pc), r, view_of(*final(st)), pc, pc),
{
    let ghost s = view_of(*st);
    match i {
        Instruction::GetAttribute(name) => {
            match pop_value(st) {
                Some(obj) => {
                    match &obj {
                        PythonValue::Object(_, attrs) => {
                            match attrs.get(name.as_str()) {
                                Some(v) => {
                                    let x = (**v).clone();
                                    push_value(st, x);
                                },
                                None => {
                                    let t = obj.to_string();
                                    let mut m = join3("'", t.as_str(), "' object has no attribute '");
                                    m.append(name.as_str());
                                    m.append("'");
                                    return Err(PythonError::AttributeError(m));
                                },
                            }
                        },
                        _ => { push_value(st, PythonValue::NoneValue); },
                    }
                },
                None => {},
            }
        },
        Instruction::SetAttribute(name) => {
            let value = pop_value(st);
            let obj = pop_value(st);
            match (value, obj) {
                (Some(value), Some(obj)) => {
                    match obj {
                        PythonValue::Object(_, attrs) => {
                            let mut attrs = attrs;
                            attrs.insert(name.clone(), Arc::new(value));
                            push_value(st, PythonValue::Object(String::from_str("object"), attrs));
                        },
                        other => { push_value(st, other); },
                    }
                    assert(s.drop_last().drop_last() =~= s.subrange(0, s.len() - 2));
                },
                _ => {
                    assert(view_of(*st) =~= s.subrange(0, 0));
                },
            }
        },
        _ => {},
    }
    Ok(Outcome::Ready(()))
}

/// Item reads and writes.
fn subscript(st: &mut ValueStack, i: &Instruction, Ghost(env): Ghost<Env>, Ghost(pc): Ghost<int>) -> (r: PythonResult<Outcome<()>>)
    requires
        view_of(*old(st)).len() < BUFFER_LIMIT,
        match *i {
            Instruction::GetItem | Instruction::SetItem => true,
            _ => false,
        },
        !(step(*i, env, view_of(*old(st)), pc) is Stuck),
    ensures
        step_done(step(*i, env, view_of(*old(st)), pc), r, view_of(*final(st)), pc, pc),
{
    let ghost s = view_of(*st);
    match i {
        Instruction::GetItem => {
            let index = pop_value(st);
            let obj = pop_value(st);
            match (index, obj) {
                (Some(index), Some(obj)) => {
                    match obj.get_item(&index) {
                        Ok(v) => {
                            let x = (*v).clone();
                            push_value(st, x);
                        },
                        Err(_) => { push_value(st, PythonValue::NoneValue); },
                    }
                    assert(s.drop_last().drop_last() =~= s.subrange(0, s.len() - 2));
                },
                _ => {
                    assert(view_of(*st) =~= s.subrange(0, 0));
                },
            }
        },
        _ => {
            let value = pop_value(st);
            let index = pop_value(st);
            let obj = pop_value(st);
            match (value, index, obj) {
                (Some(value), Some(index), Some(obj)) => {
                    assert(s.drop_last().drop_last().drop_last() =~= s.subrange(0, s.len() - 3));
                    let mut obj = obj;
                    match obj.set_item(&index, Arc::new(value)) {
                        Ok(()) => { push_value(st, obj); },
                        Err(e) => { return Err(e); },
                    }
                },
                _ => {
                    assert(view_of(*st) =~= s.subrange(0, 0));
                },
            }
        },
    }
    Ok(Outcome::Ready(()))
}

/// Tuple, list and dictionary construction.
fn build(st: &mut ValueStack, i: &Instruction, Ghost(env): Ghost<Env>, Ghost(pc): Ghost<int>) -> (r: PythonResult<Outcome<()>>)
    requires
        view_of(*old(st)).len() < BUFFER_LIMIT,
        match *i {
            Instruction::BuildTuple(_) | Instruction::BuildList(_) | Instruction::BuildDict(_) => true,
            _ => false,
        },
        !(step(*i, env, view_of(*old(st)), pc) is Stuck),
    ensures
        step_done(step(*i, env, view_of(*old(st)), pc), r, view_of(*final(st)), pc, pc),
{
    let ghost s = view_of(*st);
    match i {
        Instruction::BuildTuple(k) => {
            if depth(st) >= *k {
                let items = pop_many(st, *k);
                push_value(st, PythonValue::Tuple(items));
            }
        },
        Instruction::BuildList(k) => {
            if depth(st) >= *k {
                let items = pop_many(st, *k);
                push_value(st, PythonValue::List(items));
            }
        },
        Instruction::BuildDict(k) => {
            let k = *k;
            let n = depth(st);
            if n >= k * 2 {
                let mut d = Dict::new();
                proof { d.lemma_entries_model(); }
                assert(d.entries_model() =~= Seq::<(Seq<char>, ValueModel)>::empty());
                let mut j: usize = 0;
                while j < k
                    invariant
                        j <= k, n == s.len(), n >= 2 * k,
                        view_of(*st) == s.subrange(0, n - 2 * j),
                        dict_pairs(s, k as nat, Seq::empty()) == dict_pairs(view_of(*st), (k - j) as nat, d.entries_model()),
                    decreases k - j,
                {
                    let ghost cur = view_of(*st);
                    let value = pop_value(st).unwrap();
                    let key = pop_value(st).unwrap();
                    d.insert(key.to_string(), Arc::new(value));
                    proof {
                        assert(cur.drop_last().drop_last() =~= cur.subrange(0, cur.len() - 2));
                        assert(cur.subrange(0, cur.len() - 2) =~= s.subrange(0, n - 2 * (j + 1)));
                    }
                    j = j + 1;
                }
                push_value(st, PythonValue::Dict(d));
            }
        },
        _ => {},
    }
    Ok(Outcome::Ready(()))
}

} // verus!

verus! {

/// Whether an instruction pops two operands and pushes one result.
fn binary_instruction(i: &Instruction) -> (r: bool)
    ensures r == is_binary(*i),
{
    match i {
        Instruction::Add | Instruction::Subtract | Instruction::Multiply | Instruction::Divide
        | Instruction::FloorDivide | Instruction::Modulo | Instruction::Power
        | Instruction::BitwiseAnd | Instruction::BitwiseOr | Instruction::BitwiseXor
        | Instruction::LeftShift | Instruction::RightShift
        | Instruction::Equal | Instruction::NotEqual | Instruction::LessThan
        | Instruction::LessThanOrEqual | Instruction::GreaterThan | Instruction::GreaterThanOrEqual => true,
        _ => false,
    }
}

/// Pops up to `k` arguments (fewer when the stack runs out), first argument
/// first.
fn pop_arguments(st: &mut ValueStack, k: usize) -> (args: Vec<Arc<PythonValue>>)
    ensures
        view_of(*final(st)) == view_of(*old(st)).subrange(0, view_of(*old(st)).len()
            - (if (k as nat) < view_of(*old(st)).len() { k as nat } else { view_of(*old(st)).len() })),
{
    let ghost s = view_of(*st);
    let ghost n = s.len();
    let mut args: Vec<Arc<PythonValue>> = Vec::new();
    let mut i: usize = 0;
    while i < k && depth(st) > 0
        invariant
            i <= k,
            n == s.len(),
            i <= n,
            view_of(*st) == s.subrange(0, n - i),
        decreases k - i,
    {
        let arg = pop_value(st).unwrap();
        args.insert(0, Arc::new(arg));
        proof { assert(s.subrange(0, n - i).drop_last() =~= s.subrange(0, n - i - 1)); }
        i = i + 1;
    }
    args
}

/// A two-operand instruction on the stack.
fn binary(st: &mut ValueStack, i: &Instruction, Ghost(pc): Ghost<int>) -> (r: PythonResult<Outcome<()>>)
    requires
        is_binary(*i),
        view_of(*old(st)).len() < BUFFER_LIMIT,
        !(binary_step(*i, view_of(*old(st)), pc) is Stuck),
    ensures
        step_done(binary_step(*i, view_of(*old(st)), pc), r, view_of(*final(st)), pc, pc),
{
    let ghost s = view_of(*st);
    if depth(st) < 2 {
        return Ok(Outcome::Ready(()));
    }
    let b = pop_value(st).unwrap();
    let a = pop_value(st).unwrap();
    assert(s.drop_last().drop_last() =~= s.subrange(0, s.len() - 2));
    match binary_value(i, &a, &b) {
        Ok(Outcome::Ready(v)) => {
            push_value(st, v);
            Ok(Outcome::Ready(()))
        },
        Ok(Outcome::Float(t)) => Ok(Outcome::Float(t)),
        Err(e) => Err(e),
    }
}

impl VirtualMachine {
    /// Pushes the value of a name: the newest frame's local, else the
    /// context's global, else a name error.
    fn push_name(&mut self, name: &String) -> (r: PythonResult<Outcome<()>>)
        requires view_of(old(self).stack).len() < BUFFER_LIMIT,
        ensures
            step_done(step(Instruction::PushName(*name), old(self).run_env(), view_of(old(self).stack), old(self).pc as int),
                r, view_of(final(self).stack), final(self).pc as int, old(self).pc as int),
            final(self).pc == old(self).pc,
            final(self).frames == old(self).frames,
            final(self).instructions == old(self).instructions,
            final(self).globals == old(self).globals,
            final(self).context == old(self).context,
            final(self).jit == old(self).jit,
            final(self).ffi == old(self).ffi,
            final(self).awaiting == old(self).awaiting,
    {
        let n = self.frames.len();
        if n > 0 {
            let found = match self.frames[n - 1].locals.get(name.as_str()) {
                Some(v) => Some(v.clone()),
                None => None,
            };
            proof {
                assert(self.frames_view().last() == self.frames@[n - 1].model());
                let lm = self.frames@[n - 1].locals@;
                if lm.dom().contains(name@) {
                    assert(self.frames@[n - 1].model().locals[name@] == lm[name@]@);
                }
            }
            match found {
                Some(v) => {
                    push_value(&mut self.stack, v);
                    return Ok(Outcome::Ready(()));
                },
                None => {},
            }
        }
        proof {
            let gm = self.context.globals_arcs();
            if gm.dom().contains(name@) {
                assert(self.context.globals_view()[name@] == (*gm[name@])@);
            }
        }
        match self.context.get_global(name.as_str()) {
            Some(obj) => {
                let v = (*obj).clone();
                push_value(&mut self.stack, v);
                Ok(Outcome::Ready(()))
            },
            None => Err(PythonError::NameError(join3("name '", name.as_str(), "' is not defined"))),
        }
    }

    /// Executes one instruction.
    #[verifier::rlimit(40)]
    fn execute_instruction(&mut self, instruction: &Instruction) -> (r: PythonResult<Outcome<()>>)
        requires
            old(self).pc < usize::MAX,
            view_of(old(self).stack).len() < BUFFER_LIMIT,
            !(step(*instruction, old(self).run_env(), view_of(old(self).stack), old(self).pc as int) is Stuck),
        ensures
            step_done(step(*instruction, old(self).run_env(), view_of(old(self).stack), old(self).pc as int),
                r, view_of(final(self).stack), final(self).pc as int, old(self).pc as int),
            final(self).pc < usize::MAX,
            final(self).frames == old(self).frames,
            final(self).instructions == old(self).instructions,
            final(self).globals == old(self).globals,
            final(self).context == old(self).context,
            final(self).jit == old(self).jit,
            final(self).ffi == old(self).ffi,
            final(self).awaiting == old(self).awaiting,
    {
        let ghost env = self.run_env();
        let ghost pc = self.pc as int;
        if binary_instruction(instruction) {
            return binary(&mut self.stack, instruction, Ghost(pc));
        }
        match instruction {
            Instruction::PushNull | Instruction::PushTrue | Instruction::PushFalse | Instruction::PushInteger(_)
            | Instruction::PushFloat(_) | Instruction::PushString(_) | Instruction::Pop | Instruction::Dup
            | Instruction::Rot2 | Instruction::Rot3 | Instruction::MakeFunction(_) | Instruction::LoadMethod(_) =>
                shuffle(&mut self.stack, instruction, Ghost(env), Ghost(pc)),
            Instruction::BitwiseNot | Instruction::And | Instruction::Or | Instruction::Not =>
                logic(&mut self.stack, instruction, Ghost(env), Ghost(pc)),
            Instruction::GetAttribute(_) | Instruction::SetAttribute(_) =>
                attribute(&mut self.stack, instruction, Ghost(env), Ghost(pc)),
            Instruction::GetItem | Instruction::SetItem =>
                subscript(&mut self.stack, instruction, Ghost(env), Ghost(pc)),
            Instruction::BuildTuple(_) | Instruction::BuildList(_) | Instruction::BuildDict(_) =>
                build(&mut self.stack, instruction, Ghost(env), Ghost(pc)),
            Instruction::PushName(name) => self.push_name(name),
            Instruction::Jump(target) => {
                self.pc = *target - 1;
                Ok(Outcome::Ready(()))
            },
            Instruction::JumpIfTrue(target) => {
                match pop_value(&mut self.stack) {
                    Some(obj) => {
                        if obj.to_bool() {
                            self.pc = *target - 1;
                        }
                    },
                    None => {},
                }
                Ok(Outcome::Ready(()))
            },
            Instruction::JumpIfFalse(target) => {
                match pop_value(&mut self.stack) {
                    Some(obj) => {
                        if !obj.to_bool() {
                            self.pc = *target - 1;
                        }
                    },
                    None => {},
                }
                Ok(Outcome::Ready(()))
            },
            Instruction::Call(arg_count) => self.call(*arg_count),
            _ => Ok(Outcome::Ready(())),
        }
    }

    /// Calls the function below the arguments.
    fn call(&mut self, arg_count: usize) -> (r: PythonResult<Outcome<()>>)
        requires view_of(old(self).stack).len() < BUFFER_LIMIT,
        ensures
            step_done(call_step(arg_count as nat, old(self).run_env(), view_of(old(self).stack), old(self).pc as int),
                r, view_of(final(self).stack), final(self).pc as int, old(self).pc as int),
            final(self).pc == old(self).pc,
            final(self).frames == old(self).frames,
            final(self).instructions == old(self).instructions,
            final(self).globals == old(self).globals,
            final(self).context == old(self).context,
            final(self).jit == old(self).jit,
            final(self).ffi == old(self).ffi,
            final(self).awaiting == old(self).awaiting,
    {
        let args = pop_arguments(&mut self.stack, arg_count);
        match pop_value(&mut self.stack) {
            Some(func) => {
                match func {
                    PythonValue::Function(name) => {
                        match self.try_jit_execute(name.as_str(), args) {
                            Some(result) => {
                                match result {
                                    Ok(value) => {
                                        let v = (*value).clone();
                                        push_value(&mut self.stack, v);
                                    },
                                    Err(err) => { return Err(err); },
                                }
                            },
                            None => { push_value(&mut self.stack, PythonValue::NoneValue); },
                        }
                        Ok(Outcome::Ready(()))
                    },
                    other => {
                        let t = other.to_string();
                        Err(PythonError::TypeError(join3("'", t.as_str(), "' object is not callable")))
                    },
                }
            },
            None => Ok(Outcome::Ready(())),
        }
    }
}

} // verus!

verus! {

impl VirtualMachine {
    /// Runs the current code from the program counter until its end, an
    /// error, or a binary64 task.
    fn run_loop(&mut self) -> (r: PythonResult<Outcome<PythonValue>>)
        requires
            run_ends(old(self).code_view(), old(self).run_env(), old(self).stack_view(), old(self).pc_view() as int),
            !old(self).awaiting,
        ensures
            forall|fuel: nat| #![trigger run(old(self).code_view(), old(self).run_env(), old(self).stack_view(), old(self).pc_view() as int, fuel)]
                !(run(old(self).code_view(), old(self).run_env(), old(self).stack_view(), old(self).pc_view() as int, fuel) is OutOfFuel)
                ==> final(self).ended_as(old(self).frames_view(), old(self).code_view(), r,
                    run(old(self).code_view(), old(self).run_env(), old(self).stack_view(), old(self).pc_view() as int, fuel)),
            final(self).globals_view() == old(self).globals_view(),
            final(self).context_view() == old(self).context_view(),
            final(self).jit_view() == old(self).jit_view(),
            final(self).ffi_view() == old(self).ffi_view(),
    {
        let ghost code = self.code_view();
        let ghost env = self.run_env();
        let ghost s0 = self.stack_view();
        let ghost pc0 = self.pc as int;
        let ghost frames0 = self.frames_view();
        let ghost f0 = choose|f: nat| #![trigger run(code, env, s0, pc0, f)]
            !(run(code, env, s0, pc0, f) is OutOfFuel) && !(run(code, env, s0, pc0, f) is Stuck);
        let ghost result = run(code, env, s0, pc0, f0);
        let ghost mut fuel = f0;
        assert forall|f: nat| #![trigger run(code, env, s0, pc0, f)]
            !(run(code, env, s0, pc0, f) is OutOfFuel) implies run(code, env, s0, pc0, f) == result by {
            lemma_run_unique(code, env, s0, pc0, f0, f);
        }
        while self.pc < code_len(&self.instructions)
            invariant
                code == old(self).code_view(),
                env == old(self).run_env(),
                s0 == old(self).stack_view(),
                pc0 == old(self).pc_view() as int,
                frames0 == old(self).frames_view(),
                self.code_view() == code,
                self.run_env() == env,
                self.frames_view() == frames0,
                self.globals_view() == old(self).globals_view(),
                self.context_view() == old(self).context_view(),
                self.jit_view() == old(self).jit_view(),
                self.ffi_view() == old(self).ffi_view(),
                !self.awaiting,
                run(code, env, self.stack_view(), self.pc as int, fuel) == result,
                !(result is OutOfFuel),
                !(result is Stuck),
                forall|f: nat| #![trigger run(code, env, s0, pc0, f)]
                    !(run(code, env, s0, pc0, f) is OutOfFuel) ==> run(code, env, s0, pc0, f) == result,
            decreases fuel,
        {
            let instruction = code_at(&self.instructions, self.pc).clone();
            let ghost s_pre = self.stack_view();
            let ghost pc_pre = self.pc as int;
            proof {
                assert(fuel > 0);
                assert(instruction == code[pc_pre]);
                assert(run(code, env, s_pre, pc_pre, fuel) == result);
            }
            let res = self.execute_instruction(&instruction);
            match res {
                Ok(Outcome::Ready(())) => {},
                Ok(Outcome::Float(t)) => {
                    self.awaiting = true;
                    return Ok(Outcome::Float(t));
                },
                Err(e) => {
                    return Err(e);
                },
            }
            self.pc = self.pc + 1;
            proof { fuel = (fuel - 1) as nat; }
        }
        let ghost s_end = self.stack_view();
        if self.frames.len() > 0 {
            let prev = self.frames.pop().unwrap();
            self.instructions = prev.instructions;
            self.pc = prev.pc;
            proof {
                assert(self.frames_view() =~= frames0.drop_last());
                assert(prev.model() == frames0.last());
            }
        }
        match pop_value(&mut self.stack) {
            Some(v) => Ok(Outcome::Ready(v)),
            None => Ok(Outcome::Ready(PythonValue::NoneValue)),
        }
    }

    /// Runs a bytecode function: the caller's code and program counter are
    /// saved in a new frame, the function's code runs from its first
    /// instruction on the current stack, and at its end the top of the stack
    /// is the result (`None` when the stack is empty) and the caller's state
    /// comes back. An error, or a binary64 task that the host must compute,
    /// ends the run early and leaves the machine where it stood; `resume`
    /// continues after such a task.
    pub fn execute(&mut self, func: &BytecodeFunction) -> (r: PythonResult<Outcome<PythonValue>>)
        requires
            run_ends(code_items(func.instructions), old(self).fresh_env(), old(self).stack_view(), 0),
        ensures
            forall|fuel: nat| #![trigger run(code_items(func.instructions), old(self).fresh_env(), old(self).stack_view(), 0, fuel)]
                !(run(code_items(func.instructions), old(self).fresh_env(), old(self).stack_view(), 0, fuel) is OutOfFuel)
                ==> final(self).ended_as(old(self).frames_view().push(old(self).saved_frame()), code_items(func.instructions), r,
                    run(code_items(func.instructions), old(self).fresh_env(), old(self).stack_view(), 0, fuel)),
            final(self).globals_view() == old(self).globals_view(),
            final(self).context_view() == old(self).context_view(),
            final(self).jit_view() == old(self).jit_view(),
            final(self).ffi_view() == old(self).ffi_view(),
    {
        let ghost pre_frames = self.frames_view();
        let ghost saved_model = self.saved_frame();
        let saved = Frame {
            locals: Table::new(),
            instructions: code_clone(&self.instructions),
            pc: self.pc,
            return_address: None,
        };
        proof {
            assert(saved.locals@.map_values(|v: PythonValue| v@) =~= Map::<Seq<char>, ValueModel>::empty());
            assert(saved.model() == saved_model);
        }
        self.frames.push(saved);
        self.instructions = code_clone(&func.instructions);
        self.pc = 0;
        self.awaiting = false;
        proof {
            assert(self.frames_view() =~= pre_frames.push(saved_model));
            assert(self.run_env() == old(self).fresh_env());
        }
        self.run_loop()
    }

    /// Continues a run that waits for a binary64 task: the host's answer is
    /// pushed as the waiting instruction's result, and the run goes on from
    /// the next instruction.
    pub fn resume(&mut self, answer: PythonValue) -> (r: PythonResult<Outcome<PythonValue>>)
        requires
            old(self).suspended(),
            run_ends(old(self).code_view(), old(self).run_env(), old(self).stack_view().push(answer@), old(self).pc_view() + 1),
        ensures
            forall|fuel: nat| #![trigger run(old(self).code_view(), old(self).run_env(), old(self).stack_view().push(answer@), old(self).pc_view() + 1, fuel)]
                !(run(old(self).code_view(), old(self).run_env(), old(self).stack_view().push(answer@), old(self).pc_view() + 1, fuel) is OutOfFuel)
                ==> final(self).ended_as(old(self).frames_view(), old(self).code_view(), r,
                    run(old(self).code_view(), old(self).run_env(), old(self).stack_view().push(answer@), old(self).pc_view() + 1, fuel)),
            final(self).globals_view() == old(self).globals_view(),
            final(self).context_view() == old(self).context_view(),
            final(self).jit_view() == old(self).jit_view(),
            final(self).ffi_view() == old(self).ffi_view(),
    {
        let _n = code_len(&self.instructions);
        push_value(&mut self.stack, answer);
        self.pc = self.pc + 1;
        self.awaiting = false;
        self.run_loop()
    }
}

} // verus!

verus! {

/// A call that runs to its end gives the caller back its state: the frames,
/// code and program counter are those from before the call, and the stack is
/// the one the run ended with, less the result.
pub proof fn law_finished_call_returns_to_caller(
    before: VirtualMachine,
    after: VirtualMachine,
    code: Seq<Instruction>,
    r: PythonResult<Outcome<PythonValue>>,
    s: Seq<ValueModel>,
)
    requires after.ended_as(before.frames_view().push(before.saved_frame()), code, r, RunModel::Done(s)),
    ensures
        after.frames_view() == before.frames_view(),
        after.code_view() == before.code_view(),
        after.pc_view() == before.pc_view(),
        after.stack_view() == (if s.len() > 0 { s.drop_last() } else { s }),
        r matches Ok(Outcome::Ready(v)) && v@ == (if s.len() > 0 { s.last() } else { ValueModel::NoneValue }),
{
    assert(before.frames_view().push(before.saved_frame()).drop_last() =~= before.frames_view());
}

} // verus!
