//! What an agent tool call is, who watches it run, and what a CadQuery
//! runtime reports back.
use vstd::prelude::*;

verus! {

/// A tool call as the model issued it: its id, the tool's name and the JSON
/// arguments.
#[derive(Debug, Clone, PartialEq, Eq)]
pub struct AgentToolCall {
    pub id: String,
    pub function_name: String,
    pub arguments: String,
}

/// Told when a tool call starts and what it returned.
pub trait AgentToolObserver {
    fn tool_start(&self, call: &AgentToolCall);

    fn tool_result(&self, call: &AgentToolCall, result: &str);
}

/// An observer that ignores everything.
pub struct NoopAgentToolObserver;

impl AgentToolObserver for NoopAgentToolObserver {
    fn tool_start(&self, call: &AgentToolCall) {
    }

    fn tool_result(&self, call: &AgentToolCall, result: &str) {
    }
}

/// What a CadQuery runtime found of a model's contract.
#[derive(Debug, Clone, PartialEq, Eq)]
pub struct CadQueryModelContract {
    pub has_model_description: bool,
}

/// A CadQuery runtime failure: its type, message and whether the agent may
/// retry.
#[derive(Debug, Clone, PartialEq, Eq)]
pub struct CadQueryToolRuntimeError {
    pub error_type: String,
    pub message: String,
    pub retry_allowed: bool,
}

impl CadQueryToolRuntimeError {
    pub fn new(error_type: String, message: String, retry_allowed: bool) -> (r: Self)
        ensures
            r.error_type@ == error_type@,
            r.message@ == message@,
            r.retry_allowed == retry_allowed,
    {
        CadQueryToolRuntimeError { error_type, message, retry_allowed }
    }
}

} // verus!
