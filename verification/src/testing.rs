//! Predictable fakes for every module contract.
//!
//! Each fake returns pre-configured values and records what it was called
//! with, so tests can assert both behaviour and interaction patterns.

use vstd::prelude::*;

use crate::data::DataMap;
use crate::data::DataValue;
use crate::data::Dv;
use crate::errors::AmplifierError;
use crate::errors::ContextError;
use crate::errors::HookError;
use crate::errors::ProviderError;
use crate::errors::ToolError;
use crate::messages::ChatRequest;
use crate::messages::ChatResponse;
use crate::messages::ContentBlock;
use crate::messages::ToolCall;
use crate::models::ApprovalRequest;
use crate::models::ApprovalResponse;
use crate::models::HookResult;
use crate::models::HookResultV;
use crate::models::ModelInfo;
use crate::models::ProviderInfo;
use crate::models::ToolResult;
use crate::slots::NamedSlots;
use crate::traits::ApprovalProvider;
use crate::traits::CleanupTask;
use crate::traits::ContextManager;
use crate::traits::Contributor;
use crate::traits::HookHandler;
use crate::traits::Orchestrator;
use crate::traits::Provider;
use crate::traits::Tool;
use vstd::string::StringExecFns;

verus! {

enum FakeHookMode {
    Respond(HookResult),
    Fail,
    Insert(String, DataValue),
}

/// The abstract behaviour of a [`FakeHookHandler`]: a fixed answer, a
/// failure, or a modify that inserts one field into the payload it sees.
pub enum FakeHookAnswer {
    Fixed(HookResultV),
    Failing,
    Inserting(Seq<char>, Dv),
}

/// A hook handler that returns a fixed result (or always fails) and records
/// every event it sees.
pub struct FakeHookHandler {
    mode: FakeHookMode,
    events: Vec<(String, DataMap)>,
}

impl FakeHookHandler {
    /// The recorded `(event, payload)` views, in call order.
    pub closed spec fn log(self) -> Seq<(Seq<char>, Map<Seq<char>, Dv>)> {
        Seq::new(self.events@.len(), |i: int| (self.events@[i].0@, self.events@[i].1@))
    }

    /// The behaviour this handler is configured with.
    pub closed spec fn answer(self) -> FakeHookAnswer {
        match self.mode {
            FakeHookMode::Respond(r) => FakeHookAnswer::Fixed(r@),
            FakeHookMode::Fail => FakeHookAnswer::Failing,
            FakeHookMode::Insert(k, v) => FakeHookAnswer::Inserting(k@, v.dv()),
        }
    }

    /// What a handler with behaviour `a` returns for payload `data`.
    pub open spec fn answer_response(
        a: FakeHookAnswer,
        data: Map<Seq<char>, Dv>,
    ) -> Option<HookResultV> {
        match a {
            FakeHookAnswer::Fixed(r) => Option::Some(r),
            FakeHookAnswer::Failing => Option::None,
            FakeHookAnswer::Inserting(k, v) => Option::Some(
                HookResultV {
                    action: crate::models::HookAction::Modify,
                    data: Option::Some(data.insert(k, v)),
                    ..crate::models::hook_result_default()
                },
            ),
        }
    }

    /// The stored result is well-formed.
    #[verifier::type_invariant]
    pub closed spec fn wf(self) -> bool {
        match self.mode {
            FakeHookMode::Respond(r) => r.wf(),
            FakeHookMode::Fail => true,
            FakeHookMode::Insert(k, v) => v.wf(),
        }
    }

    /// A handler that always answers the neutral continue result.
    pub fn new() -> (r: Self)
        ensures
            r.answer() == FakeHookAnswer::Fixed(crate::models::hook_result_default()),
            r.log().len() == 0,
            r.wf(),
    {
        let r = FakeHookHandler {
            mode: FakeHookMode::Respond(HookResult::default()),
            events: Vec::new(),
        };
        proof {
            assert(r.log() =~= Seq::<(Seq<char>, Map<Seq<char>, Dv>)>::empty());
        }
        r
    }

    /// A handler that always answers `result`.
    pub fn with_result(result: HookResult) -> (r: Self)
        requires
            result.wf(),
        ensures
            r.answer() == FakeHookAnswer::Fixed(result@),
            r.log().len() == 0,
            r.wf(),
    {
        let r = FakeHookHandler { mode: FakeHookMode::Respond(result), events: Vec::new() };
        proof {
            assert(r.log() =~= Seq::<(Seq<char>, Map<Seq<char>, Dv>)>::empty());
        }
        r
    }

    /// A handler that always fails.
    pub fn failing() -> (r: Self)
        ensures
            r.answer() == FakeHookAnswer::Failing,
            r.log().len() == 0,
            r.wf(),
    {
        let r = FakeHookHandler { mode: FakeHookMode::Fail, events: Vec::new() };
        proof {
            assert(r.log() =~= Seq::<(Seq<char>, Map<Seq<char>, Dv>)>::empty());
        }
        r
    }

    /// A handler that answers a modify inserting `value` under `key` into
    /// whatever payload it sees.
    pub fn inserting(key: &str, value: DataValue) -> (r: Self)
        requires
            value.wf(),
        ensures
            r.answer() == FakeHookAnswer::Inserting(key@, value.dv()),
            r.log().len() == 0,
            r.wf(),
    {
        let r = FakeHookHandler {
            mode: FakeHookMode::Insert(key.to_owned(), value),
            events: Vec::new(),
        };
        proof {
            assert(r.log() =~= Seq::<(Seq<char>, Map<Seq<char>, Dv>)>::empty());
        }
        r
    }

    /// The recorded `(event, payload)` pairs, in call order.
    pub fn recorded_events(&self) -> (r: &Vec<(String, DataMap)>)
        ensures
            r@.len() == self.log().len(),
            forall|j: int|
                0 <= j < r@.len() ==> (#[trigger] r@[j]).0@ == self.log()[j].0 && r@[j].1@
                    == self.log()[j].1,
    {
        &self.events
    }

    /// How many times this handler was invoked.
    pub fn call_count(&self) -> (r: usize)
        ensures
            r == self.log().len(),
    {
        self.events.len()
    }
}

impl HookHandler for FakeHookHandler {
    type Model = (FakeHookAnswer, Seq<(Seq<char>, Map<Seq<char>, Dv>)>);

    open spec fn model(self) -> Self::Model {
        (self.answer(), self.log())
    }

    open spec fn response(m: Self::Model, event: Seq<char>, data: Map<Seq<char>, Dv>) -> Option<
        HookResultV,
    > {
        FakeHookHandler::answer_response(m.0, data)
    }

    open spec fn next_model(
        m: Self::Model,
        event: Seq<char>,
        data: Map<Seq<char>, Dv>,
    ) -> Self::Model {
        (m.0, m.1.push((event, data)))
    }

    fn handle(&mut self, event: &str, data: &DataMap) -> (r: Result<HookResult, HookError>) {
        proof {
            use_type_invariant(&*self);
        }
        let ghost pre_log = self.log();
        let mut tmp = FakeHookHandler { mode: FakeHookMode::Fail, events: Vec::new() };
        core::mem::swap(self, &mut tmp);
        let FakeHookHandler { mode, events: mut events } = tmp;
        events.push((event.to_owned(), data.clone()));
        let out: Result<HookResult, HookError> = match mode {
            FakeHookMode::Respond(ref result) => Result::Ok(result.clone()),
            FakeHookMode::Fail => Result::Err(
                HookError::Other { message: String::from_str("handler failed") },
            ),
            FakeHookMode::Insert(ref key, ref value) => {
                let mut d = data.clone();
                d.insert(key.clone(), value.clone());
                let mut res = HookResult::default();
                res.action = crate::models::HookAction::Modify;
                res.data = Option::Some(d);
                proof {
                    assert(res@ =~= FakeHookHandler::answer_response(
                        FakeHookAnswer::Inserting(key@, value.dv()),
                        data@,
                    ).unwrap());
                }
                Result::Ok(res)
            },
        };
        *self = FakeHookHandler { mode, events };
        proof {
            assert(self.log() =~= pre_log.push((event@, data@)));
        }
        out
    }
}

/// A tool that returns pre-configured results in order (a default success
/// echoing its input once they run out) and records every input.
pub struct FakeTool {
    tool_name: String,
    tool_description: String,
    responses: Vec<ToolResult>,
    calls: Vec<DataValue>,
}

impl FakeTool {
    /// The configured name.
    pub closed spec fn name_s(self) -> Seq<char> {
        self.tool_name@
    }

    /// The configured description.
    pub closed spec fn description_s(self) -> Seq<char> {
        self.tool_description@
    }

    /// The queued results, consumed front first.
    pub closed spec fn queued_s(self) -> Seq<ToolResult> {
        self.responses@
    }

    /// The recorded input values, in call order.
    pub closed spec fn calls_s(self) -> Seq<Dv> {
        Seq::new(self.calls@.len(), |i: int| self.calls@[i].dv())
    }

    /// A tool that always succeeds, echoing its input.
    pub fn new(name: &str, description: &str) -> (r: Self)
        ensures
            r.name_s() == name@,
            r.description_s() == description@,
            r.queued_s().len() == 0,
            r.calls_s().len() == 0,
    {
        let r = FakeTool {
            tool_name: name.to_owned(),
            tool_description: description.to_owned(),
            responses: Vec::new(),
            calls: Vec::new(),
        };
        proof {
            assert(r.calls_s() =~= Seq::<Dv>::empty());
        }
        r
    }

    /// A tool that answers the given results in order.
    pub fn with_responses(name: &str, description: &str, responses: Vec<ToolResult>) -> (r: Self)
        ensures
            r.name_s() == name@,
            r.description_s() == description@,
            r.queued_s() == responses@,
            r.calls_s().len() == 0,
    {
        let r = FakeTool {
            tool_name: name.to_owned(),
            tool_description: description.to_owned(),
            responses,
            calls: Vec::new(),
        };
        proof {
            assert(r.calls_s() =~= Seq::<Dv>::empty());
        }
        r
    }

    /// Every input `execute` was called with, in call order.
    pub fn recorded_calls(&self) -> (r: &Vec<DataValue>)
        ensures
            r@.len() == self.calls_s().len(),
            forall|i: int| 0 <= i < r@.len() ==> (#[trigger] r@[i]).dv() == self.calls_s()[i],
    {
        &self.calls
    }
}

impl Tool for FakeTool {
    fn name(&self) -> (r: &str)
        ensures
            r@ == self.name_s(),
    {
        self.tool_name.as_str()
    }

    fn description(&self) -> (r: &str)
        ensures
            r@ == self.description_s(),
    {
        self.tool_description.as_str()
    }

    fn get_spec(&self) -> (r: DataMap)
        ensures
            r@ == Map::<Seq<char>, Dv>::empty().insert("name"@, Dv::Str(self.name_s())).insert(
                "description"@,
                Dv::Str(self.description_s()),
            ),
            r.wf(),
    {
        let mut m = DataMap::new();
        m.insert(String::from_str("name"), DataValue::Str(self.tool_name.clone()));
        m.insert(
            String::from_str("description"),
            DataValue::Str(self.tool_description.clone()),
        );
        m
    }

    fn execute(&mut self, input: DataValue) -> (r: Result<ToolResult, ToolError>)
        ensures
            final(self).name_s() == old(self).name_s(),
            final(self).description_s() == old(self).description_s(),
            final(self).calls_s() == old(self).calls_s().push(input.dv()),
            old(self).queued_s().len() == 0 ==> final(self).queued_s() == old(self).queued_s()
                && r == Result::<ToolResult, ToolError>::Ok(
                ToolResult { success: true, output: Option::Some(input), error: Option::None },
            ),
            old(self).queued_s().len() > 0 ==> final(self).queued_s() == old(
                self,
            ).queued_s().skip(1) && r == Result::<ToolResult, ToolError>::Ok(
                old(self).queued_s()[0],
            ),
    {
        let ghost pre_calls = self.calls_s();
        self.calls.push(input.clone());
        proof {
            assert(self.calls_s() =~= pre_calls.push(input.dv()));
        }
        if self.responses.len() == 0 {
            Result::Ok(
                ToolResult { success: true, output: Option::Some(input), error: Option::None },
            )
        } else {
            let first = self.responses.remove(0);
            proof {
                assert(self.responses@ =~= old(self).responses@.skip(1));
            }
            Result::Ok(first)
        }
    }
}

/// A provider that answers every completion with a fixed text block and
/// records every request.
pub struct FakeProvider {
    provider_name: String,
    response_text: String,
    calls: Vec<ChatRequest>,
}

impl FakeProvider {
    /// The configured name.
    pub closed spec fn name_s(self) -> Seq<char> {
        self.provider_name@
    }

    /// The configured completion text.
    pub closed spec fn response_text_s(self) -> Seq<char> {
        self.response_text@
    }

    /// The recorded requests, in call order.
    pub closed spec fn requests_s(self) -> Seq<ChatRequest> {
        self.calls@
    }

    /// A provider that always answers `response_text`.
    pub fn new(name: &str, response_text: &str) -> (r: Self)
        ensures
            r.name_s() == name@,
            r.response_text_s() == response_text@,
            r.requests_s().len() == 0,
    {
        FakeProvider {
            provider_name: name.to_owned(),
            response_text: response_text.to_owned(),
            calls: Vec::new(),
        }
    }

    /// Every request `complete` was called with, in call order.
    pub fn recorded_calls(&self) -> (r: &Vec<ChatRequest>)
        ensures
            r@ == self.requests_s(),
    {
        &self.calls
    }
}

impl Provider for FakeProvider {
    fn name(&self) -> (r: &str)
        ensures
            r@ == self.name_s(),
    {
        self.provider_name.as_str()
    }

    fn get_info(&self) -> (r: ProviderInfo)
        ensures
            r.id@ == self.name_s(),
            r.display_name@ == self.name_s(),
            r.credential_env_vars@.len() == 0,
            r.capabilities@.len() == 0,
            r.defaults@ == Map::<Seq<char>, Dv>::empty(),
            r.config_fields@.len() == 0,
    {
        ProviderInfo {
            id: self.provider_name.clone(),
            display_name: self.provider_name.clone(),
            credential_env_vars: Vec::new(),
            capabilities: Vec::new(),
            defaults: DataMap::new(),
            config_fields: Vec::new(),
        }
    }

    fn list_models(&mut self) -> (r: Result<Vec<ModelInfo>, ProviderError>)
        ensures
            *final(self) == *old(self),
            r matches Result::Ok(models) && models@.len() == 0,
    {
        Result::Ok(Vec::new())
    }

    fn complete(&mut self, request: ChatRequest) -> (r: Result<ChatResponse, ProviderError>)
        ensures
            final(self).name_s() == old(self).name_s(),
            final(self).response_text_s() == old(self).response_text_s(),
            final(self).requests_s() == old(self).requests_s().push(request),
            r matches Result::Ok(resp) && {
                &&& resp.content@.len() == 1
                &&& resp.content@[0] matches ContentBlock::Text { text, visibility, extensions }
                    && text@ == old(self).response_text_s() && visibility is None && extensions@
                    == Map::<Seq<char>, Dv>::empty()
                &&& resp.tool_calls is None
                &&& resp.usage is None
                &&& resp.degradation is None
                &&& resp.finish_reason matches Option::Some(f) && f@ == "stop"@
                &&& resp.metadata is None
                &&& resp.extensions@ == Map::<Seq<char>, Dv>::empty()
            },
    {
        self.calls.push(request);
        let mut content: Vec<ContentBlock> = Vec::new();
        content.push(
            ContentBlock::Text {
                text: self.response_text.clone(),
                visibility: Option::None,
                extensions: DataMap::new(),
            },
        );
        Result::Ok(
            ChatResponse {
                content,
                tool_calls: Option::None,
                usage: Option::None,
                degradation: Option::None,
                finish_reason: Option::Some(String::from_str("stop")),
                metadata: Option::None,
                extensions: DataMap::new(),
            },
        )
    }

    fn parse_tool_calls(&self, response: &ChatResponse) -> (r: Vec<ToolCall>)
        ensures
            match response.tool_calls {
                Option::Some(cs) => r@.len() == cs@.len() && forall|i: int|
                    0 <= i < r@.len() ==> (#[trigger] r@[i]).id@ == cs@[i].id@ && r@[i].name@
                        == cs@[i].name@ && r@[i].arguments@ == cs@[i].arguments@
                        && r@[i].extensions@ == cs@[i].extensions@,
                Option::None => r@.len() == 0,
            },
    {
        let mut out: Vec<ToolCall> = Vec::new();
        match response.tool_calls {
            Option::Some(ref calls) => {
                let n: usize = calls.len();
                let mut i: usize = 0;
                while i < n
                    invariant
                        n == calls@.len(),
                        out@.len() == i,
                        0 <= i <= n,
                        forall|j: int|
                            0 <= j < i ==> (#[trigger] out@[j]).id@ == calls@[j].id@
                                && out@[j].name@ == calls@[j].name@ && out@[j].arguments@
                                == calls@[j].arguments@ && out@[j].extensions@
                                == calls@[j].extensions@,
                    decreases n - i,
                {
                    let c = &calls[i];
                    out.push(
                        ToolCall {
                            id: c.id.clone(),
                            name: c.name.clone(),
                            arguments: c.arguments.clone(),
                            extensions: c.extensions.clone(),
                        },
                    );
                    i = i + 1;
                }
            },
            Option::None => {},
        }
        out
    }
}

/// An in-memory context manager.
pub struct FakeContextManager {
    messages: Vec<DataValue>,
}

impl FakeContextManager {
    /// The stored message history.
    pub closed spec fn msgs_s(self) -> Seq<DataValue> {
        self.messages@
    }

    /// An empty context.
    pub fn new() -> (r: Self)
        ensures
            r.msgs_s().len() == 0,
    {
        FakeContextManager { messages: Vec::new() }
    }
}

impl ContextManager for FakeContextManager {
    fn add_message(&mut self, message: DataValue) -> (r: Result<(), ContextError>)
        ensures
            final(self).msgs_s() == old(self).msgs_s().push(message),
            r is Ok,
    {
        self.messages.push(message);
        Result::Ok(())
    }

    fn get_messages_for_request(&mut self, token_budget: Option<i64>) -> (r: Result<
        Vec<DataValue>,
        ContextError,
    >)
        ensures
            *final(self) == *old(self),
            r matches Result::Ok(v) && v@.len() == old(self).msgs_s().len() && forall|i: int|
                0 <= i < v@.len() ==> (#[trigger] v@[i]).dv() == old(self).msgs_s()[i].dv(),
    {
        self.get_messages()
    }

    fn get_messages(&self) -> (r: Result<Vec<DataValue>, ContextError>)
        ensures
            r matches Result::Ok(v) && v@.len() == self.msgs_s().len() && forall|i: int|
                0 <= i < v@.len() ==> (#[trigger] v@[i]).dv() == self.msgs_s()[i].dv(),
    {
        let n: usize = self.messages.len();
        let mut out: Vec<DataValue> = Vec::new();
        let mut i: usize = 0;
        while i < n
            invariant
                n == self.messages@.len(),
                0 <= i <= n,
                out@.len() == i,
                forall|j: int| 0 <= j < i ==> (#[trigger] out@[j]).dv()
                    == self.messages@[j].dv(),
            decreases n - i,
        {
            out.push(self.messages[i].clone());
            i = i + 1;
        }
        Result::Ok(out)
    }

    fn set_messages(&mut self, messages: Vec<DataValue>) -> (r: Result<(), ContextError>)
        ensures
            final(self).msgs_s() == messages@,
            r is Ok,
    {
        self.messages = messages;
        Result::Ok(())
    }

    fn clear(&mut self) -> (r: Result<(), ContextError>)
        ensures
            final(self).msgs_s().len() == 0,
            r is Ok,
    {
        self.messages = Vec::new();
        Result::Ok(())
    }
}

/// An orchestrator that returns a fixed response string.
pub struct FakeOrchestrator {
    response: String,
}

impl FakeOrchestrator {
    /// An orchestrator that always answers `response`.
    pub fn new(response: &str) -> (r: Self)
        ensures
            r.response_text() == response@,
    {
        FakeOrchestrator { response: response.to_owned() }
    }

    /// The configured response.
    pub closed spec fn response_text(self) -> Seq<char> {
        self.response@
    }
}

impl<C: ContextManager, P: Provider, T: Tool> Orchestrator<C, P, T> for FakeOrchestrator {
    open spec fn response(
        self,
        prompt: Seq<char>,
        context: C,
        providers: NamedSlots<P>,
        tools: NamedSlots<T>,
    ) -> Result<Seq<char>, AmplifierError> {
        Result::Ok(self.response_text())
    }

    fn execute(
        &mut self,
        prompt: &str,
        context: &mut C,
        providers: &mut NamedSlots<P>,
        tools: &mut NamedSlots<T>,
    ) -> (r: Result<String, AmplifierError>) {
        Result::Ok(self.response.clone())
    }
}

/// An approval surface that always approves or always denies.
pub struct FakeApprovalProvider {
    approved: bool,
}

impl FakeApprovalProvider {
    /// A surface that approves everything.
    pub fn approving() -> (r: Self)
        ensures
            r.decision(),
    {
        FakeApprovalProvider { approved: true }
    }

    /// A surface that denies everything.
    pub fn denying() -> (r: Self)
        ensures
            !r.decision(),
    {
        FakeApprovalProvider { approved: false }
    }

    /// The fixed decision.
    pub closed spec fn decision(self) -> bool {
        self.approved
    }
}

impl ApprovalProvider for FakeApprovalProvider {
    fn request_approval(&mut self, request: ApprovalRequest) -> (r: Result<
        ApprovalResponse,
        AmplifierError,
    >)
        ensures
            *final(self) == *old(self),
            r matches Result::Ok(resp) && resp.approved == old(self).decision() && resp.reason
                is None && !resp.remember,
    {
        Result::Ok(
            ApprovalResponse { approved: self.approved, reason: Option::None, remember: false },
        )
    }
}

/// A cleanup task that remembers whether it ran.
pub struct FakeCleanupTask {
    /// A label for recognising the task in teardown order.
    pub label: u64,
    /// Whether the task has run.
    pub ran: bool,
}

impl FakeCleanupTask {
    /// A task labelled `label` that has not run yet.
    pub fn new(label: u64) -> (r: Self)
        ensures
            r == (FakeCleanupTask { label, ran: false }),
    {
        FakeCleanupTask { label, ran: false }
    }
}

impl CleanupTask for FakeCleanupTask {
    open spec fn next_state(self) -> Self {
        FakeCleanupTask { ran: true, ..self }
    }

    fn run(&mut self) -> (r: Result<(), String>)
        ensures
            r is Ok,
    {
        self.ran = true;
        Result::Ok(())
    }
}

/// A contributor that yields a fixed value, or always fails.
pub struct FakeContributor {
    value: DataValue,
    failing: bool,
}

impl FakeContributor {
    /// A contributor that always yields `value`.
    pub fn new(value: DataValue) -> (r: Self)
        requires
            value.wf(),
        ensures
            r.yielded() == Option::Some(value.dv()),
            r.wf(),
    {
        FakeContributor { value, failing: false }
    }

    /// A contributor that always fails.
    pub fn failing() -> (r: Self)
        ensures
            r.yielded() is None,
            r.wf(),
    {
        FakeContributor { value: DataValue::Null, failing: true }
    }

    /// The value this contributor yields, if any.
    pub closed spec fn yielded(self) -> Option<Dv> {
        if self.failing {
            Option::None
        } else {
            Option::Some(self.value.dv())
        }
    }

    /// The stored value is well-formed.
    #[verifier::type_invariant]
    pub closed spec fn wf(self) -> bool {
        self.value.wf()
    }
}

impl Contributor for FakeContributor {
    open spec fn response(self) -> Option<Dv> {
        self.yielded()
    }

    open spec fn next_state(self) -> Self {
        self
    }

    fn contribute(&mut self) -> (r: Result<DataValue, String>) {
        proof {
            use_type_invariant(&*self);
        }
        if self.failing {
            Result::Err(String::from_str("contributor failed"))
        } else {
            Result::Ok(self.value.clone())
        }
    }
}

} // verus!
