//! Modules: the registry of loaded and standard modules, and module objects.
use vstd::prelude::*;
use std::sync::Arc;
use crate::table::Table;
use crate::text::concat_str;
use crate::value::{PythonValue, PythonError, PythonResult, ValueModel, Dict, share, model_has_key, model_insert};
use crate::model::{ErrorKind, is_error};
use crate::vm::VirtualMachine;

verus! {

/// Every module loaded in `m0` is still loaded in `m1`, as the same module.
pub open spec fn modules_kept(m0: Map<Seq<char>, Arc<PythonValue>>, m1: Map<Seq<char>, Arc<PythonValue>>) -> bool {
    forall|k: Seq<char>| #[trigger] m0.dom().contains(k) ==> m1.dom().contains(k) && m1[k] == m0[k]
}

/// A loaded module stays loaded as the same module through any later calls
/// (each keeps the loaded modules), so loading its name again gives it back
/// without the file system.
pub proof fn law_loaded_module_stays(
    m0: Map<Seq<char>, Arc<PythonValue>>,
    m1: Map<Seq<char>, Arc<PythonValue>>,
    m2: Map<Seq<char>, Arc<PythonValue>>,
    name: Seq<char>,
)
    requires modules_kept(m0, m1), modules_kept(m1, m2), m0.dom().contains(name),
    ensures
        modules_kept(m0, m2),
        m2.dom().contains(name) && m2[name] == m0[name],
{
}

/// What the host found for a module that is not loaded yet, looking for
/// `<name>.py` along the search paths: nothing, a file it read, or a file it
/// could not open or read (with the error's text).
pub enum ModuleFile {
    /// No search path holds the file.
    NotFound,
    /// The file's content.
    Loaded(String),
    /// Opening the file failed.
    OpenFailed(String),
    /// Reading the file failed.
    ReadFailed(String),
}

/// The registry of modules.
pub struct ModuleManager {
    modules: Table<Arc<PythonValue>>,
    search_paths: Vec<String>,
    std_modules: Table<Arc<PythonValue>>,
}

/// The `builtins` module: `print`, `len` and `range`, as functions.
pub open spec fn builtins_model() -> ValueModel {
    ValueModel::Dict(seq![
        ("print"@, ValueModel::Function("print"@)),
        ("len"@, ValueModel::Function("len"@)),
        ("range"@, ValueModel::Function("range"@)),
    ])
}

/// The error for an unknown module.
pub open spec fn no_module(name: Seq<char>) -> Seq<char> {
    "No module named '"@ + name + "'"@
}

impl ModuleManager {
    /// Loaded modules.
    pub closed spec fn modules_view(self) -> Map<Seq<char>, Arc<PythonValue>> {
        self.modules@
    }

    /// Names of loaded modules, in loading order.
    pub closed spec fn module_names(self) -> Seq<Seq<char>> {
        self.modules.keys_seq()
    }

    /// Standard modules.
    pub closed spec fn std_view(self) -> Map<Seq<char>, Arc<PythonValue>> {
        self.std_modules@
    }

    /// Names of standard modules.
    pub closed spec fn std_names(self) -> Seq<Seq<char>> {
        self.std_modules.keys_seq()
    }

    /// Search paths, in order.
    pub closed spec fn paths_view(self) -> Seq<Seq<char>> {
        self.search_paths@.map_values(|s: String| s@)
    }

    /// A registry with the current directory as its search path and
    /// `builtins` as its one standard module, also loaded.
    pub fn new() -> (m: Self)
        ensures
            m.paths_view() == seq!["."@],
            m.module_names() == seq!["builtins"@],
            m.std_names() == seq!["builtins"@],
            m.modules_view().dom().contains("builtins"@),
            (*m.modules_view()["builtins"@])@ == builtins_model(),
            m.std_view().dom().contains("builtins"@),
            m.std_view()["builtins"@] == m.modules_view()["builtins"@],
    {
        let mut search_paths: Vec<String> = Vec::new();
        search_paths.push(String::from_str("."));
        let mut manager = ModuleManager { modules: Table::new(), search_paths, std_modules: Table::new() };
        proof {
            assert(manager.paths_view() =~= seq!["."@]);
            assert(manager.module_names() =~= Seq::<Seq<char>>::empty());
            assert(manager.std_names() =~= Seq::<Seq<char>>::empty());
        }
        manager.init_std_modules();
        manager
    }

    /// Defines `builtins` and loads it.
    fn init_std_modules(&mut self)
        requires
            old(self).modules_view() == Map::<Seq<char>, Arc<PythonValue>>::empty(),
            old(self).std_view() == Map::<Seq<char>, Arc<PythonValue>>::empty(),
            old(self).module_names() == Seq::<Seq<char>>::empty(),
            old(self).std_names() == Seq::<Seq<char>>::empty(),
        ensures
            final(self).paths_view() == old(self).paths_view(),
            final(self).module_names() == seq!["builtins"@],
            final(self).std_names() == seq!["builtins"@],
            final(self).modules_view().dom().contains("builtins"@),
            (*final(self).modules_view()["builtins"@])@ == builtins_model(),
            final(self).std_view().dom().contains("builtins"@),
            final(self).std_view()["builtins"@] == final(self).modules_view()["builtins"@],
    {
        let mut dict = Dict::new();
        proof { dict.lemma_entries_model(); }
        assert(dict.entries_model() =~= Seq::<(Seq<char>, ValueModel)>::empty());
        dict.insert(String::from_str("print"), Arc::new(PythonValue::Function(String::from_str("print"))));
        let ghost e1 = dict.entries_model();
        assert(e1 =~= seq![("print"@, ValueModel::Function("print"@))]);
        dict.insert(String::from_str("len"), Arc::new(PythonValue::Function(String::from_str("len"))));
        proof {
            reveal_strlit("print");
            reveal_strlit("len");
            assert(!model_has_key(e1, "len"@)) by {
                if model_has_key(e1, "len"@) {
                    assert(e1[0].0 == "print"@);
                }
            }
        }
        let ghost e2 = dict.entries_model();
        assert(e2 =~= seq![("print"@, ValueModel::Function("print"@)), ("len"@, ValueModel::Function("len"@))]);
        dict.insert(String::from_str("range"), Arc::new(PythonValue::Function(String::from_str("range"))));
        proof {
            reveal_strlit("range");
            reveal_strlit("print");
            reveal_strlit("len");
            assert("range"@ != "print"@) by { assert("range"@[0] != "print"@[0]); }
            assert("range"@ != "len"@) by { assert("range"@.len() != "len"@.len()); }
            assert(!model_has_key(e2, "range"@)) by {
                if model_has_key(e2, "range"@) {
                    let i = choose|i: int| 0 <= i < e2.len() && #[trigger] e2[i].0 == "range"@;
                    if i == 0 { assert(e2[0].0 == "print"@); } else { assert(e2[1].0 == "len"@); }
                }
            }
        }
        let ghost e3 = dict.entries_model();
        assert(e3 =~= seq![("print"@, ValueModel::Function("print"@)), ("len"@, ValueModel::Function("len"@)),
            ("range"@, ValueModel::Function("range"@))]);
        let builtins = Arc::new(PythonValue::Dict(dict));
        proof {
            assert((*builtins)@ == builtins_model());
        }
        self.std_modules.insert(String::from_str("builtins"), share(&builtins));
        self.modules.insert(String::from_str("builtins"), builtins);
        proof {
            assert(self.module_names() =~= seq!["builtins"@]);
            assert(self.std_names() =~= seq!["builtins"@]);
        }
    }

    /// Adds a search path at the end.
    pub fn add_search_path(&mut self, path: &str)
        ensures
            final(self).paths_view() == old(self).paths_view().push(path@),
            final(self).modules_view() == old(self).modules_view(),
            final(self).module_names() == old(self).module_names(),
            final(self).std_view() == old(self).std_view(),
    {
        let ghost pre = self.paths_view();
        self.search_paths.push(String::from_str(path));
        assert(self.paths_view() =~= pre.push(path@));
    }

    /// The search paths, in order.
    pub fn search_paths(&self) -> (r: &Vec<String>)
        ensures r@.map_values(|s: String| s@) == self.paths_view(),
    {
        &self.search_paths
    }

    /// Whether loading `name` needs the file system: it is neither loaded
    /// nor a standard module.
    pub fn needs_file(&self, name: &str) -> (r: bool)
        ensures r == (!self.modules_view().dom().contains(name@) && !self.std_view().dom().contains(name@)),
    {
        !self.modules.contains_key(name) && !self.std_modules.contains_key(name)
    }

    /// Loads a module: a loaded one as it is; a standard one, which is then
    /// loaded; else from what the host found on the search paths: a read
    /// file gives a new empty module (its code is not run), and the failures
    /// give their errors.
    pub fn load_module(&mut self, name: &str, _vm: &mut VirtualMachine, file: ModuleFile) -> (r: PythonResult<Arc<PythonValue>>)
        ensures
            old(self).modules_view().dom().contains(name@) ==>
                r == Ok::<Arc<PythonValue>, PythonError>(old(self).modules_view()[name@])
                && final(self).modules_view() == old(self).modules_view(),
            !old(self).modules_view().dom().contains(name@) && old(self).std_view().dom().contains(name@) ==>
                r == Ok::<Arc<PythonValue>, PythonError>(old(self).std_view()[name@])
                && final(self).modules_view() == old(self).modules_view().insert(name@, old(self).std_view()[name@]),
            !old(self).modules_view().dom().contains(name@) && !old(self).std_view().dom().contains(name@) ==> match file {
                ModuleFile::Loaded(_) => (r matches Ok(m) && (*m)@ == ValueModel::Dict(Seq::empty())
                    && final(self).modules_view() == old(self).modules_view().insert(name@, m)),
                ModuleFile::OpenFailed(msg) => (r matches Err(e)
                    && is_error(e, ErrorKind::IOError, "Failed to open module file: "@ + msg@))
                    && final(self).modules_view() == old(self).modules_view(),
                ModuleFile::ReadFailed(msg) => (r matches Err(e)
                    && is_error(e, ErrorKind::IOError, "Failed to read module file: "@ + msg@))
                    && final(self).modules_view() == old(self).modules_view(),
                ModuleFile::NotFound => (r matches Err(e) && is_error(e, ErrorKind::ImportError, no_module(name@)))
                    && final(self).modules_view() == old(self).modules_view(),
            },
            final(self).std_view() == old(self).std_view(),
            final(self).paths_view() == old(self).paths_view(),
            modules_kept(old(self).modules_view(), final(self).modules_view()),
    {
        match self.modules.get(name) {
            Some(module) => { return Ok(share(module)); },
            None => {},
        }
        let std = match self.std_modules.get(name) {
            Some(module) => Some(share(module)),
            None => None,
        };
        match std {
            Some(module) => {
                self.modules.insert(String::from_str(name), share(&module));
                return Ok(module);
            },
            None => {},
        }
        match file {
            ModuleFile::Loaded(_) => {
                let d = Dict::new();
                proof { d.lemma_entries_model(); }
                assert(d.entries_model() =~= Seq::<(Seq<char>, ValueModel)>::empty());
                let module = Arc::new(PythonValue::Dict(d));
                self.modules.insert(String::from_str(name), share(&module));
                Ok(module)
            },
            ModuleFile::OpenFailed(msg) => Err(PythonError::IOError(concat_str("Failed to open module file: ", msg.as_str()))),
            ModuleFile::ReadFailed(msg) => Err(PythonError::IOError(concat_str("Failed to read module file: ", msg.as_str()))),
            ModuleFile::NotFound => {
                let mut m = String::from_str("No module named '");
                m.append(name);
                m.append("'");
                Err(PythonError::ImportError(m))
            },
        }
    }

    /// Imports a module: relative names (starting with a dot) are refused;
    /// others are loaded.
    pub fn import_module(&mut self, name: &str, vm: &mut VirtualMachine, file: ModuleFile) -> (r: PythonResult<Arc<PythonValue>>)
        ensures
            (name@.len() > 0 && name@[0] == '.') ==> (r matches Err(e)
                && is_error(e, ErrorKind::ImportError, "Relative imports not implemented yet"@))
                && final(self).modules_view() == old(self).modules_view(),
            !(name@.len() > 0 && name@[0] == '.') && old(self).modules_view().dom().contains(name@) ==>
                r == Ok::<Arc<PythonValue>, PythonError>(old(self).modules_view()[name@]),
            final(self).std_view() == old(self).std_view(),
            modules_kept(old(self).modules_view(), final(self).modules_view()),
    {
        if crate::text::starts_with_char(name, '.') {
            return Err(PythonError::ImportError(String::from_str("Relative imports not implemented yet")));
        }
        self.load_module(name, vm, file)
    }

    /// A loaded module.
    pub fn get_module(&self, name: &str) -> (r: Option<Arc<PythonValue>>)
        ensures
            match r {
                Some(m) => self.modules_view().dom().contains(name@) && m == self.modules_view()[name@],
                None => !self.modules_view().dom().contains(name@),
            },
    {
        match self.modules.get(name) {
            Some(m) => Some(share(m)),
            None => None,
        }
    }

    /// Names of loaded modules, in loading order.
    pub fn list_modules(&self) -> (r: Vec<String>)
        ensures r@.map_values(|s: String| s@) == self.module_names(),
    {
        let r = self.modules.keys();
        assert(r@.map_values(|s: String| s@) =~= self.module_names());
        r
    }

    /// Names of standard modules.
    pub fn list_std_modules(&self) -> (r: Vec<String>)
        ensures r@.map_values(|s: String| s@) == self.std_names(),
    {
        let r = self.std_modules.keys();
        assert(r@.map_values(|s: String| s@) =~= self.std_names());
        r
    }
}

/// A module object: a name and attributes.
pub struct Module {
    name: String,
    attributes: Table<Arc<PythonValue>>,
}

/// Entries for keys `ks` of a map of shared values.
pub open spec fn entries_for(ks: Seq<Seq<char>>, m: Map<Seq<char>, Arc<PythonValue>>) -> Seq<(Seq<char>, ValueModel)> {
    ks.map_values(|k: Seq<char>| (k, (*m[k])@))
}

impl Module {
    /// The module's name.
    pub closed spec fn name_view(self) -> Seq<char> {
        self.name@
    }

    /// The attributes.
    pub closed spec fn attributes_view(self) -> Map<Seq<char>, Arc<PythonValue>> {
        self.attributes@
    }

    /// Attribute names, in order of first setting.
    pub closed spec fn attribute_names(self) -> Seq<Seq<char>> {
        self.attributes.keys_seq()
    }

    /// A module with no attributes.
    pub fn new(name: &str) -> (m: Self)
        ensures
            m.name_view() == name@,
            m.attributes_view() == Map::<Seq<char>, Arc<PythonValue>>::empty(),
            m.attribute_names() == Seq::<Seq<char>>::empty(),
    {
        let m = Module { name: String::from_str(name), attributes: Table::new() };
        assert(m.attribute_names() =~= Seq::<Seq<char>>::empty());
        m
    }

    /// The module's name.
    pub fn name(&self) -> (r: &str)
        ensures r@ == self.name_view(),
    {
        self.name.as_str()
    }

    /// An attribute, shared.
    pub fn get_attribute(&self, name: &str) -> (r: Option<Arc<PythonValue>>)
        ensures
            match r {
                Some(v) => self.attributes_view().dom().contains(name@) && v == self.attributes_view()[name@],
                None => !self.attributes_view().dom().contains(name@),
            },
    {
        match self.attributes.get(name) {
            Some(v) => Some(share(v)),
            None => None,
        }
    }

    /// Sets an attribute.
    pub fn set_attribute(&mut self, name: &str, value: Arc<PythonValue>)
        ensures
            final(self).attributes_view() == old(self).attributes_view().insert(name@, value),
            final(self).name_view() == old(self).name_view(),
            old(self).attributes_view().dom().contains(name@) ==> final(self).attribute_names() == old(self).attribute_names(),
            !old(self).attributes_view().dom().contains(name@) ==> final(self).attribute_names() == old(self).attribute_names().push(name@),
    {
        proof {
            assert(self.attributes.has_key(name@) == self.attributes@.dom().contains(name@));
        }
        self.attributes.insert(String::from_str(name), value);
    }

    /// The module as a dictionary of its attributes.
    pub fn to_python_value(&self) -> (r: Arc<PythonValue>)
        ensures (*r)@ == ValueModel::Dict(entries_for(self.attribute_names(), self.attributes_view())),
    {
        let keys = self.attributes.keys();
        let ghost ks = self.attribute_names();
        let ghost m = self.attributes_view();
        let mut d = Dict::new();
        proof { d.lemma_entries_model(); }
        assert(d.entries_model() =~= Seq::<(Seq<char>, ValueModel)>::empty());
        let mut i: usize = 0;
        while i < keys.len()
            invariant
                keys@.len() == ks.len(),
                forall|j: int| 0 <= j < ks.len() ==> #[trigger] keys@[j]@ == ks[j],
                ks.no_duplicates(),
                forall|j: int| 0 <= j < ks.len() ==> m.dom().contains(#[trigger] ks[j]),
                m == self.attributes_view(),
                ks == self.attribute_names(),
                i <= ks.len(),
                d.entries_model() == entries_for(ks.subrange(0, i as int), m),
            decreases ks.len() - i,
        {
            let v = match self.attributes.get(keys[i].as_str()) {
                Some(v) => share(v),
                None => Arc::new(PythonValue::NoneValue),
            };
            let ghost es = d.entries_model();
            proof {
                assert(!model_has_key(es, ks[i as int])) by {
                    if model_has_key(es, ks[i as int]) {
                        let j = choose|j: int| 0 <= j < es.len() && #[trigger] es[j].0 == ks[i as int];
                        assert(es[j].0 == ks[j]);
                    }
                }
            }
            d.insert(keys[i].clone(), v);
            assert(d.entries_model() =~= entries_for(ks.subrange(0, (i + 1) as int), m));
            i = i + 1;
        }
        assert(ks.subrange(0, ks.len() as int) =~= ks);
        Arc::new(PythonValue::Dict(d))
    }
}

} // verus!
