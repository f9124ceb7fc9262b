//! Module contracts: the interfaces that pluggable modules implement.
//!
//! Each trait pairs its executable methods with specification functions that
//! model the module's behaviour as a function of its abstract state. The
//! kernel's own contracts are stated over those models; the fakes in
//! [`crate::testing`] implement them.

use vstd::prelude::*;

use crate::data::DataMap;
use crate::data::DataValue;
use crate::data::Dv;
use crate::errors::AmplifierError;
use crate::errors::ContextError;
use crate::errors::HookError;
use crate::errors::ProviderError;
use crate::errors::ToolError;
use crate::messages::ChatRequest;
use crate::messages::ChatResponse;
use crate::messages::ToolCall;
use crate::models::ApprovalRequest;
use crate::models::ApprovalResponse;
use crate::models::HookResult;
use crate::models::HookResultV;
use crate::models::ModelInfo;
use crate::models::ProviderInfo;
use crate::models::ToolResult;
use crate::slots::NamedSlots;

verus! {

/// A callable registered to respond to events.
///
/// A handler is modelled by an abstract state of the implementation's
/// choosing: `model` abstracts the handler, `response` gives the result it
/// returns for an event (`None` when it fails), and `next_model` the state
/// it is left in. Dispatch treats a failure as "no result" and carries on.
pub trait HookHandler: Sized {
    /// The abstract state of this handler kind.
    type Model;

    /// The abstract state of this handler.
    spec fn model(self) -> Self::Model;

    /// The result a handler in state `m` produces, or `None` when it fails.
    spec fn response(m: Self::Model, event: Seq<char>, data: Map<Seq<char>, Dv>) -> Option<
        HookResultV,
    >;

    /// The state a handler in state `m` is left in.
    spec fn next_model(m: Self::Model, event: Seq<char>, data: Map<Seq<char>, Dv>) -> Self::Model;

    /// Handle one event with its payload.
    fn handle(&mut self, event: &str, data: &DataMap) -> (r: Result<HookResult, HookError>)
        requires
            data.wf(),
        ensures
            final(self).model() == Self::next_model(old(self).model(), event@, data@),
            match r {
                Result::Ok(res) => Self::response(old(self).model(), event@, data@)
                    == Option::Some(res@) && res.wf(),
                Result::Err(_) => Self::response(old(self).model(), event@, data@) is None,
            },
    ;
}

/// A capability that agents can invoke during orchestration.
pub trait Tool: Sized {
    /// Unique name used to invoke this tool.
    fn name(&self) -> &str;

    /// Human-readable description.
    fn description(&self) -> &str;

    /// The tool's interface, as a field map (name, parameters, description).
    fn get_spec(&self) -> DataMap;

    /// Execute the tool with the given input.
    fn execute(&mut self, input: DataValue) -> Result<ToolResult, ToolError>;
}

/// A conversation memory policy: orchestrators ask for messages, the context
/// manager decides what to return.
pub trait ContextManager: Sized {
    /// Append a message to the history.
    fn add_message(&mut self, message: DataValue) -> Result<(), ContextError>;

    /// Messages ready for a request, compacted to the given budget if needed.
    fn get_messages_for_request(&mut self, token_budget: Option<i64>) -> Result<
        Vec<DataValue>,
        ContextError,
    >;

    /// All messages, uncompacted.
    fn get_messages(&self) -> Result<Vec<DataValue>, ContextError>;

    /// Replace the entire message list.
    fn set_messages(&mut self, messages: Vec<DataValue>) -> Result<(), ContextError>;

    /// Clear all messages.
    fn clear(&mut self) -> Result<(), ContextError>;
}

/// A completion backend.
pub trait Provider: Sized {
    /// Provider identifier.
    fn name(&self) -> &str;

    /// Provider metadata: capabilities, credentials, defaults.
    fn get_info(&self) -> ProviderInfo;

    /// The models this provider offers.
    fn list_models(&mut self) -> Result<Vec<ModelInfo>, ProviderError>;

    /// Generate a completion.
    fn complete(&mut self, request: ChatRequest) -> Result<ChatResponse, ProviderError>;

    /// Normalise the tool calls a response encodes.
    fn parse_tool_calls(&self, response: &ChatResponse) -> Vec<ToolCall>;
}

/// The agent loop: from a prompt to a response, using the mounted modules.
///
/// `response` models the outcome as a function of the orchestrator's own
/// state, the prompt, and the states of the modules it is handed; `execute`
/// returns exactly that outcome. What the orchestrator does to the modules
/// is its own business and is not constrained here.
pub trait Orchestrator<C: ContextManager, P: Provider, T: Tool>: Sized {
    /// The outcome of running the loop.
    spec fn response(
        self,
        prompt: Seq<char>,
        context: C,
        providers: NamedSlots<P>,
        tools: NamedSlots<T>,
    ) -> Result<Seq<char>, AmplifierError>;

    /// Run the loop for one prompt. Mount tables keep unique names.
    fn execute(
        &mut self,
        prompt: &str,
        context: &mut C,
        providers: &mut NamedSlots<P>,
        tools: &mut NamedSlots<T>,
    ) -> (r: Result<String, AmplifierError>)
        ensures
            old(providers).wf() ==> final(providers).wf(),
            old(tools).wf() ==> final(tools).wf(),
            match r {
                Result::Ok(s) => old(self).response(
                    prompt@,
                    *old(context),
                    *old(providers),
                    *old(tools),
                ) == Result::<Seq<char>, AmplifierError>::Ok(s@),
                Result::Err(e) => old(self).response(
                    prompt@,
                    *old(context),
                    *old(providers),
                    *old(tools),
                ) == Result::<Seq<char>, AmplifierError>::Err(e),
            },
    ;
}

/// A surface that can put an approval request to the user.
pub trait ApprovalProvider: Sized {
    /// Ask the user to decide.
    fn request_approval(&mut self, request: ApprovalRequest) -> Result<
        ApprovalResponse,
        AmplifierError,
    >;
}

/// A callable registered on a contribution channel; each call yields one
/// datum, or fails and is skipped.
pub trait Contributor: Sized {
    /// The value this contributor yields, or `None` when it fails.
    spec fn response(self) -> Option<Dv>;

    /// The contributor's state after yielding.
    spec fn next_state(self) -> Self;

    /// Yield one contribution.
    fn contribute(&mut self) -> (r: Result<DataValue, String>)
        ensures
            *final(self) == old(self).next_state(),
            match r {
                Result::Ok(v) => old(self).response() == Option::Some(v.dv()) && v.wf(),
                Result::Err(_) => old(self).response() is None,
            },
    ;
}

/// A callback registered for session teardown; failures are isolated.
pub trait CleanupTask: Sized {
    /// The task's state after running.
    spec fn next_state(self) -> Self;

    /// Run the task once.
    fn run(&mut self) -> (r: Result<(), String>)
        ensures
            *final(self) == old(self).next_state(),
    ;
}

} // verus!
