//! The per-call context handed to every op, and the answer slot the
//! script writes its result into.

use crate::json::JsonValue;
use crate::paths::HostPath;
use crate::registry::RsyncRegistry;
use crate::volumes::Volumes;
use vstd::prelude::*;

verus! {

/// Everything one procedure call shares between its ops: the sandbox
/// flag, where the package's data lives, which entry point runs, the
/// declared volumes, the call's input and variable arguments, the process
/// group for cleanup, whether a container RPC client is attached, and the
/// registry of live sync tasks.
#[derive(Debug)]
pub struct JsContext {
    pub sandboxed: bool,
    pub data_dir: HostPath,
    pub run_function: String,
    pub version: String,
    pub package_id: String,
    pub volumes: Volumes,
    pub input: JsonValue,
    pub variable_args: Vec<JsonValue>,
    pub container_process_gid: u32,
    pub has_rpc_client: bool,
    pub rsyncs: RsyncRegistry,
}

impl JsContext {
    /// The name of the entry point this call runs.
    pub fn current_function(&self) -> (r: &str)
        ensures
            r@ == self.run_function@,
    {
        self.run_function.as_str()
    }

    /// The call's input value.
    pub fn get_input(&self) -> (r: &JsonValue)
        ensures
            r == &self.input,
    {
        &self.input
    }

    /// The call's variable arguments.
    pub fn get_variable_args(&self) -> (r: &Vec<JsonValue>)
        ensures
            r == &self.variable_args,
    {
        &self.variable_args
    }

    /// Whether the call runs with network access denied.
    pub fn is_sandboxed(&self) -> (r: bool)
        ensures
            r == self.sandboxed,
    {
        self.sandboxed
    }
}

/// The single mutable cell a script writes its answer into; the last
/// write wins, and a call that never writes answers null.
#[derive(Debug)]
pub struct AnswerState {
    value: JsonValue,
}

impl AnswerState {
    /// The value currently held.
    pub closed spec fn spec_value(&self) -> JsonValue {
        self.value
    }

    /// A fresh slot, holding null.
    pub fn new() -> (r: AnswerState)
        ensures
            r.spec_value() is Null,
    {
        AnswerState { value: JsonValue::Null }
    }

    /// Overwrites the slot; the previous value is gone.
    pub fn set_value(&mut self, value: JsonValue)
        ensures
            final(self).spec_value() == value,
    {
        self.value = value;
    }

    /// Takes the answer out, leaving null behind.
    pub fn take(&mut self) -> (r: JsonValue)
        ensures
            r == old(self).spec_value(),
            final(self).spec_value() is Null,
    {
        let mut out = JsonValue::Null;
        std::mem::swap(&mut out, &mut self.value);
        out
    }
}

} // verus!
