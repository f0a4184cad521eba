//! Language-server and WASI runtime front ends.
use vstd::prelude::*;
use crate::value::{PythonValue, PythonResult, ValueModel};

verus! {

/// Python language server.
pub struct PythonLanguageServer {}

impl PythonLanguageServer {
    /// Creates a new language server.
    pub fn new() -> (s: Self)
        ensures s == (PythonLanguageServer {}),
    {
        PythonLanguageServer {}
    }

    /// Initializes the server; it holds no state, so nothing changes.
    pub fn initialize(&mut self)
        ensures *final(self) == *old(self),
    {
    }

    /// Shuts the server down; it holds no state, so nothing changes.
    pub fn shutdown(&mut self)
        ensures *final(self) == *old(self),
    {
    }
}

/// WASI Python runtime.
pub struct WasiPythonRuntime {}

impl WasiPythonRuntime {
    /// Creates a new WASI runtime.
    pub fn new() -> (s: Self)
        ensures s == (WasiPythonRuntime {}),
    {
        WasiPythonRuntime {}
    }

    /// Initializes the runtime; this always succeeds.
    pub fn initialize(&mut self) -> (r: PythonResult<()>)
        ensures r is Ok, *final(self) == *old(self),
    {
        Ok(())
    }

    /// Runs code in the WASI environment; the runtime evaluates nothing yet,
    /// so every program gives `None`.
    pub fn execute(&mut self, code: &str) -> (r: PythonResult<PythonValue>)
        ensures r matches Ok(v) && v@ == ValueModel::NoneValue, *final(self) == *old(self),
    {
        Ok(PythonValue::NoneValue)
    }
}

} // verus!
