//! The Python runtime environment: a virtual machine and a module registry,
//! and the conversion of host values to Python values.
use vstd::prelude::*;
use std::sync::Arc;
use crate::ast::PythonRoot;
use crate::float::{FloatValue, Outcome};
use crate::value::{PythonValue, PythonError, PythonResult, ValueModel, models, lemma_models};
use crate::model::{ErrorKind, is_error};
use crate::module::{ModuleManager, ModuleFile};
use crate::text::concat_str;
use crate::vm::{VirtualMachine, FrameModel};
use crate::bytecode::Instruction;
use crate::vm_model::{run, run_ends, RunModel};
use crate::inline_vec::code_items;

verus! {

/// A Python runtime environment.
pub struct Python {
    vm: VirtualMachine,
    module_manager: ModuleManager,
}

impl Python {
    /// The virtual machine.
    pub closed spec fn vm_view(self) -> VirtualMachine {
        self.vm
    }

    /// The module registry.
    pub closed spec fn modules_view(self) -> ModuleManager {
        self.module_manager
    }

    /// A new environment: a new machine and a new module registry; this
    /// always succeeds.
    pub fn new() -> (r: PythonResult<Self>)
        ensures
            r matches Ok(p) && p.vm_view().stack_view() == Seq::<ValueModel>::empty()
                && p.vm_view().frames_view() == Seq::<FrameModel>::empty()
                && p.vm_view().context_view().globals_arcs() == Map::<Seq<char>, Arc<PythonValue>>::empty()
                && p.vm_view().context_view().classes() == Map::<Seq<char>, Map<Seq<char>, usize>>::empty()
                && p.modules_view().module_names() == seq!["builtins"@],
    {
        Ok(Python { vm: VirtualMachine::new(), module_manager: ModuleManager::new() })
    }

    /// Runs a parsed program: it is compiled to IR and optimized, hot
    /// functions are checked, and the module's bytecode is executed (the
    /// conversion to bytecode produces an empty function, whose run pops the
    /// top of the stack).
    pub fn run_program(&mut self, ast: &PythonRoot) -> (r: PythonResult<()>)
        ensures
            r is Ok,
            final(self).vm_view().stack_view() == (if old(self).vm_view().stack_view().len() > 0 {
                old(self).vm_view().stack_view().drop_last() } else { old(self).vm_view().stack_view() }),
            final(self).vm_view().frames_view() == old(self).vm_view().frames_view(),
            final(self).vm_view().context_view() == old(self).vm_view().context_view(),
            final(self).vm_view().globals_view() == old(self).vm_view().globals_view(),
            final(self).vm_view().jit_view() == old(self).vm_view().jit_view(),
            final(self).vm_view().ffi_view() == old(self).vm_view().ffi_view(),
            final(self).vm_view().code_view() == old(self).vm_view().code_view(),
            final(self).vm_view().pc_view() == old(self).vm_view().pc_view(),
            !final(self).vm_view().suspended(),
            final(self).modules_view() == old(self).modules_view(),
    {
        let ir = crate::ir::ast_to_ir(ast)?;
        let optimized_ir = crate::ir::optimize_ir(&ir)?;
        self.vm.check_and_compile_hot_functions(&optimized_ir);
        let vm_instructions = crate::codegen::ir_to_vm_instructions(&optimized_ir)?;
        let ghost code = code_items(vm_instructions.instructions);
        let ghost env = self.vm.fresh_env();
        let ghost s = self.vm.stack_view();
        assert(run(code, env, s, 0, 0) == RunModel::Done(s));
        let result = self.vm.execute(&vm_instructions);
        assert(!(run(code, env, s, 0, 0) is OutOfFuel));
        match result {
            Ok(_) => Ok(()),
            Err(e) => Err(e),
        }
    }

    /// Defines a class with no methods.
    pub fn define_class(&mut self, name: &str) -> (r: PythonResult<()>)
        ensures
            r is Ok,
            final(self).vm_view().context_view().classes() == old(self).vm_view().context_view().classes().insert(
                name@, Map::<Seq<char>, usize>::empty()),
            final(self).vm_view().context_view().globals_arcs() == old(self).vm_view().context_view().globals_arcs(),
    {
        self.vm.context_mut().define_class(name);
        Ok(())
    }

    /// Defines a method of a defined class (its body kept by the host under
    /// handle 0); an unknown class is a name error.
    pub fn define_method(&mut self, class: &str, name: &str) -> (r: PythonResult<()>)
        ensures
            old(self).vm_view().context_view().classes().dom().contains(class@) ==> r is Ok
                && final(self).vm_view().context_view().classes() == old(self).vm_view().context_view().classes().insert(
                    class@, old(self).vm_view().context_view().classes()[class@].insert(name@, 0usize)),
            !old(self).vm_view().context_view().classes().dom().contains(class@) ==> (r matches Err(e)
                && is_error(e, ErrorKind::NameError, "Class not found: "@ + class@))
                && final(self).vm_view().context_view().classes() == old(self).vm_view().context_view().classes(),
    {
        if self.vm.define_method_in_context(class, name, 0) {
            Ok(())
        } else {
            Err(PythonError::NameError(concat_str("Class not found: ", class)))
        }
    }

    /// Defines a global function: the name is bound to a function value of
    /// that name.
    pub fn define_function(&mut self, name: &str) -> (r: PythonResult<()>)
        ensures
            r is Ok,
            final(self).vm_view().context_view().globals_view()
                == old(self).vm_view().context_view().globals_view().insert(name@, ValueModel::Function(name@)),
    {
        self.vm.context_mut().define_function(name);
        Ok(())
    }

    /// The value of a global variable; `None` when it is not bound.
    pub fn get_global(&self, name: &str) -> (r: PythonResult<Arc<PythonValue>>)
        ensures
            self.vm_view().context_view().globals_arcs().dom().contains(name@) ==>
                r == Ok::<Arc<PythonValue>, PythonError>(self.vm_view().context_view().globals_arcs()[name@]),
            !self.vm_view().context_view().globals_arcs().dom().contains(name@) ==>
                (r matches Ok(v) && (*v)@ == ValueModel::NoneValue),
    {
        match self.vm.get_global_from_context(name) {
            Some(value) => Ok(value),
            None => Ok(Arc::new(PythonValue::NoneValue)),
        }
    }

    /// Binds a global variable.
    pub fn set_global(&mut self, name: &str, value: Arc<PythonValue>) -> (r: PythonResult<()>)
        ensures
            r is Ok,
            final(self).vm_view().context_view().globals_arcs()
                == old(self).vm_view().context_view().globals_arcs().insert(name@, value),
    {
        self.vm.set_global_in_context(name, value);
        Ok(())
    }

    /// Whether importing `name` needs the file system.
    pub fn needs_file(&self, name: &str) -> (r: bool)
        ensures r == (!self.modules_view().modules_view().dom().contains(name@)
            && !self.modules_view().std_view().dom().contains(name@)),
    {
        self.module_manager.needs_file(name)
    }

    /// The module search paths.
    pub fn search_paths(&self) -> (r: &Vec<String>)
        ensures r@.map_values(|s: String| s@) == self.modules_view().paths_view(),
    {
        self.module_manager.search_paths()
    }

    /// Loads a module: a loaded one as it is; a standard one, which is then
    /// loaded; else from what the host found on the search paths (see
    /// `ModuleManager::load_module`).
    pub fn import_module(&mut self, name: &str, file: ModuleFile) -> (r: PythonResult<Arc<PythonValue>>)
        ensures
            ({
                let m0 = old(self).modules_view();
                let m1 = final(self).modules_view();
                &&& m0.modules_view().dom().contains(name@) ==>
                    r == Ok::<Arc<PythonValue>, PythonError>(m0.modules_view()[name@])
                    && m1.modules_view() == m0.modules_view()
                &&& !m0.modules_view().dom().contains(name@) && m0.std_view().dom().contains(name@) ==>
                    r == Ok::<Arc<PythonValue>, PythonError>(m0.std_view()[name@])
                    && m1.modules_view() == m0.modules_view().insert(name@, m0.std_view()[name@])
                &&& !m0.modules_view().dom().contains(name@) && !m0.std_view().dom().contains(name@) ==> match file {
                    ModuleFile::Loaded(_) => (r matches Ok(m) && (*m)@ == ValueModel::Dict(Seq::empty())
                        && m1.modules_view() == m0.modules_view().insert(name@, m)),
                    ModuleFile::OpenFailed(msg) => (r matches Err(e)
                        && is_error(e, ErrorKind::IOError, "Failed to open module file: "@ + msg@))
                        && m1.modules_view() == m0.modules_view(),
                    ModuleFile::ReadFailed(msg) => (r matches Err(e)
                        && is_error(e, ErrorKind::IOError, "Failed to read module file: "@ + msg@))
                        && m1.modules_view() == m0.modules_view(),
                    ModuleFile::NotFound => (r matches Err(e) && is_error(e, ErrorKind::ImportError,
                        crate::module::no_module(name@)))
                        && m1.modules_view() == m0.modules_view(),
                }
                &&& m1.std_view() == m0.std_view()
                &&& m1.paths_view() == m0.paths_view()
                &&& crate::module::modules_kept(m0.modules_view(), m1.modules_view())
            }),
    {
        self.module_manager.load_module(name, &mut self.vm, file)
    }

    /// Adds a module search path.
    pub fn add_module_search_path(&mut self, path: &str)
        ensures
            final(self).modules_view().paths_view() == old(self).modules_view().paths_view().push(path@),
            final(self).modules_view().modules_view() == old(self).modules_view().modules_view(),
            final(self).modules_view().std_view() == old(self).modules_view().std_view(),
    {
        self.module_manager.add_search_path(path);
    }

    /// A loaded module.
    pub fn get_module(&self, name: &str) -> (r: Option<Arc<PythonValue>>)
        ensures
            match r {
                Some(m) => self.modules_view().modules_view().dom().contains(name@)
                    && m == self.modules_view().modules_view()[name@],
                None => !self.modules_view().modules_view().dom().contains(name@),
            },
    {
        self.module_manager.get_module(name)
    }

    /// Names of loaded modules.
    pub fn list_modules(&self) -> (r: Vec<String>)
        ensures r@.map_values(|s: String| s@) == self.modules_view().module_names(),
    {
        self.module_manager.list_modules()
    }
}

/// Host values that convert to Python values.
pub trait ToPythonValue {
    /// What the Python value for `self` stands for.
    spec fn python_model(&self) -> ValueModel;

    /// The Python value for `self`.
    fn to_python_value(&self) -> (r: Arc<PythonValue>)
        ensures (*r)@ == self.python_model();
}

impl ToPythonValue for PythonValue {
    open spec fn python_model(&self) -> ValueModel {
        self@
    }

    fn to_python_value(&self) -> (r: Arc<PythonValue>) {
        Arc::new(self.clone())
    }
}

impl ToPythonValue for i64 {
    open spec fn python_model(&self) -> ValueModel {
        ValueModel::Integer(*self)
    }

    fn to_python_value(&self) -> (r: Arc<PythonValue>) {
        Arc::new(PythonValue::Integer(*self))
    }
}

impl ToPythonValue for FloatValue {
    open spec fn python_model(&self) -> ValueModel {
        ValueModel::Float(self.bits, self.text@, self.repr@)
    }

    fn to_python_value(&self) -> (r: Arc<PythonValue>) {
        Arc::new(PythonValue::Float(self.clone()))
    }
}

impl ToPythonValue for bool {
    open spec fn python_model(&self) -> ValueModel {
        ValueModel::Boolean(*self)
    }

    fn to_python_value(&self) -> (r: Arc<PythonValue>) {
        Arc::new(PythonValue::Boolean(*self))
    }
}

impl ToPythonValue for String {
    open spec fn python_model(&self) -> ValueModel {
        ValueModel::Str(self@)
    }

    fn to_python_value(&self) -> (r: Arc<PythonValue>) {
        Arc::new(PythonValue::String(self.clone()))
    }
}

impl<'a> ToPythonValue for &'a str {
    open spec fn python_model(&self) -> ValueModel {
        ValueModel::Str((*self)@)
    }

    fn to_python_value(&self) -> (r: Arc<PythonValue>) {
        Arc::new(PythonValue::String(String::from_str(*self)))
    }
}

impl<T: ToPythonValue> ToPythonValue for Vec<T> {
    open spec fn python_model(&self) -> ValueModel {
        ValueModel::List(self@.map_values(|t: T| t.python_model()))
    }

    fn to_python_value(&self) -> (r: Arc<PythonValue>) {
        let mut values: Vec<Arc<PythonValue>> = Vec::new();
        let mut i: usize = 0;
        while i < self.len()
            invariant
                i <= self@.len(),
                values@.len() == i,
                forall|j: int| 0 <= j < i ==> (*#[trigger] values@[j])@ == self@[j].python_model(),
            decreases self@.len() - i,
        {
            values.push(self[i].to_python_value());
            i = i + 1;
        }
        proof {
            lemma_models(values@, values@.len());
            assert(models(values@, values@.len()) =~= self@.map_values(|t: T| t.python_model()));
        }
        Arc::new(PythonValue::List(values))
    }
}

} // verus!
