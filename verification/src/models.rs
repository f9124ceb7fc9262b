//! Core data models: hook results, tool results, module and provider metadata.

use vstd::prelude::*;
use vstd::string::StringExecFns;

use crate::data::DataMap;
use crate::data::DataValue;
use crate::data::Dv;

verus! {

/// Action requested by a hook handler.
///
/// `Deny` short-circuits the handler chain; `Modify` chains replacement data
/// to the next handler; `InjectContext` adds content to the conversation;
/// `AskUser` requests approval before proceeding.
#[derive(Clone, Copy, Debug, PartialEq, Eq, Structural)]
pub enum HookAction {
    Continue,
    Deny,
    Modify,
    InjectContext,
    AskUser,
}

impl Default for HookAction {
    fn default() -> (r: Self)
        ensures
            r == HookAction::Continue,
    {
        HookAction::Continue
    }
}

/// Role used for a message injected into the conversation.
#[derive(Clone, Copy, Debug, PartialEq, Eq, Structural)]
pub enum ContextInjectionRole {
    System,
    User,
    Assistant,
}

impl Default for ContextInjectionRole {
    fn default() -> (r: Self)
        ensures
            r == ContextInjectionRole::System,
    {
        ContextInjectionRole::System
    }
}

/// Decision taken when an approval request times out or fails.
#[derive(Clone, Copy, Debug, PartialEq, Eq, Structural)]
pub enum ApprovalDefault {
    Allow,
    Deny,
}

impl Default for ApprovalDefault {
    fn default() -> (r: Self)
        ensures
            r == ApprovalDefault::Deny,
    {
        ApprovalDefault::Deny
    }
}

/// Severity tier of a user-facing message from a hook.
#[derive(Clone, Copy, Debug, PartialEq, Eq, Structural)]
pub enum UserMessageLevel {
    Info,
    Warning,
    Error,
}

impl Default for UserMessageLevel {
    fn default() -> (r: Self)
        ensures
            r == UserMessageLevel::Info,
    {
        UserMessageLevel::Info
    }
}

/// Kind of a provider configuration field.
#[derive(Clone, Copy, Debug, PartialEq, Eq, Structural)]
pub enum ConfigFieldType {
    Text,
    Secret,
    Choice,
    Boolean,
}

impl Default for ConfigFieldType {
    fn default() -> (r: Self)
        ensures
            r == ConfigFieldType::Text,
    {
        ConfigFieldType::Text
    }
}

/// Classification of a module.
#[derive(Clone, Copy, Debug, PartialEq, Eq, Structural)]
pub enum ModuleType {
    Orchestrator,
    Provider,
    Tool,
    Context,
    Hook,
    Resolver,
}

/// Outcome state of a session.
#[derive(Clone, Copy, Debug, PartialEq, Eq, Structural)]
pub enum SessionState {
    Running,
    Completed,
    Failed,
    Cancelled,
}

impl Default for SessionState {
    fn default() -> (r: Self)
        ensures
            r == SessionState::Running,
    {
        SessionState::Running
    }
}

/// Mathematical value of a [`HookResult`].
#[verifier::ext_equal]
pub struct HookResultV {
    pub action: HookAction,
    pub data: Option<Map<Seq<char>, Dv>>,
    pub reason: Option<Seq<char>>,
    pub context_injection: Option<Seq<char>>,
    pub context_injection_role: ContextInjectionRole,
    pub ephemeral: bool,
    pub approval_prompt: Option<Seq<char>>,
    pub approval_options: Option<Seq<Seq<char>>>,
    pub approval_timeout_ms: u64,
    pub approval_default: ApprovalDefault,
    pub suppress_output: bool,
    pub user_message: Option<Seq<char>>,
    pub user_message_level: UserMessageLevel,
    pub user_message_source: Option<Seq<char>>,
    pub append_to_last_tool_result: bool,
    pub extensions: Map<Seq<char>, Dv>,
}

/// Result returned by a hook handler.
///
/// Besides the recognised fields, unknown keys seen in a serialised result
/// ride in the `extensions` bag and round-trip unchanged.
pub struct HookResult {
    /// Dispatch control.
    pub action: HookAction,
    /// Replacement event payload, for `Modify`.
    pub data: Option<DataMap>,
    /// Explanation shown on deny or modify.
    pub reason: Option<String>,
    /// Text added to the conversation, for `InjectContext`.
    pub context_injection: Option<String>,
    /// Role of the injected message.
    pub context_injection_role: ContextInjectionRole,
    /// If true, the injection is not persisted.
    pub ephemeral: bool,
    /// Question shown to the user, for `AskUser`.
    pub approval_prompt: Option<String>,
    /// Multiple-choice options for the approval.
    pub approval_options: Option<Vec<String>>,
    /// Milliseconds to wait before falling back to the default decision.
    pub approval_timeout_ms: u64,
    /// Decision on timeout.
    pub approval_default: ApprovalDefault,
    /// Hide the handler's output from the user.
    pub suppress_output: bool,
    /// Side-channel message to the user.
    pub user_message: Option<String>,
    /// Severity of `user_message`.
    pub user_message_level: UserMessageLevel,
    /// Display label for the message source.
    pub user_message_source: Option<String>,
    /// Placement hint for an ephemeral injection.
    pub append_to_last_tool_result: bool,
    /// Unknown fields, kept for forward compatibility.
    pub extensions: DataMap,
}

pub open spec fn view_opt_str(o: Option<String>) -> Option<Seq<char>> {
    match o {
        Option::Some(s) => Option::Some(s@),
        Option::None => Option::None,
    }
}

pub open spec fn view_opt_strs(o: Option<Vec<String>>) -> Option<Seq<Seq<char>>> {
    match o {
        Option::Some(v) => Option::Some(v.deep_view()),
        Option::None => Option::None,
    }
}

impl View for HookResult {
    type V = HookResultV;

    open spec fn view(&self) -> HookResultV {
        HookResultV {
            action: self.action,
            data: match self.data {
                Option::Some(m) => Option::Some(m@),
                Option::None => Option::None,
            },
            reason: view_opt_str(self.reason),
            context_injection: view_opt_str(self.context_injection),
            context_injection_role: self.context_injection_role,
            ephemeral: self.ephemeral,
            approval_prompt: view_opt_str(self.approval_prompt),
            approval_options: view_opt_strs(self.approval_options),
            approval_timeout_ms: self.approval_timeout_ms,
            approval_default: self.approval_default,
            suppress_output: self.suppress_output,
            user_message: view_opt_str(self.user_message),
            user_message_level: self.user_message_level,
            user_message_source: view_opt_str(self.user_message_source),
            append_to_last_tool_result: self.append_to_last_tool_result,
            extensions: self.extensions@,
        }
    }
}

/// The default milliseconds to wait for an approval decision.
pub const APPROVAL_TIMEOUT_DEFAULT_MS: u64 = 300000;

/// Mathematical value of the default [`HookResult`]: action `Continue`,
/// everything else empty or at its stated default.
pub open spec fn hook_result_default() -> HookResultV {
    HookResultV {
        action: HookAction::Continue,
        data: Option::None,
        reason: Option::None,
        context_injection: Option::None,
        context_injection_role: ContextInjectionRole::System,
        ephemeral: false,
        approval_prompt: Option::None,
        approval_options: Option::None,
        approval_timeout_ms: APPROVAL_TIMEOUT_DEFAULT_MS,
        approval_default: ApprovalDefault::Deny,
        suppress_output: false,
        user_message: Option::None,
        user_message_level: UserMessageLevel::Info,
        user_message_source: Option::None,
        append_to_last_tool_result: false,
        extensions: Map::empty(),
    }
}

impl HookResult {
    /// Payload maps carried inside are well-formed.
    pub open spec fn wf(self) -> bool {
        &&& match self.data {
            Option::Some(m) => m.wf(),
            Option::None => true,
        }
        &&& self.extensions.wf()
    }
}

impl Default for HookResult {
    /// The neutral result: proceed normally, with every default in place.
    fn default() -> (r: Self)
        ensures
            r@ == hook_result_default(),
            r.wf(),
    {
        let r = HookResult {
            action: HookAction::Continue,
            data: Option::None,
            reason: Option::None,
            context_injection: Option::None,
            context_injection_role: ContextInjectionRole::System,
            ephemeral: false,
            approval_prompt: Option::None,
            approval_options: Option::None,
            approval_timeout_ms: APPROVAL_TIMEOUT_DEFAULT_MS,
            approval_default: ApprovalDefault::Deny,
            suppress_output: false,
            user_message: Option::None,
            user_message_level: UserMessageLevel::Info,
            user_message_source: Option::None,
            append_to_last_tool_result: false,
            extensions: DataMap::new(),
        };
        proof {
            assert(r@ =~= hook_result_default());
        }
        r
    }
}

impl Clone for HookResult {
    /// Deep copy: the clone has the same mathematical value.
    fn clone(&self) -> (r: Self)
        ensures
            r@ == self@,
            self.wf() ==> r.wf(),
    {
        let r = HookResult {
            action: self.action,
            data: match self.data {
                Option::Some(ref m) => Option::Some(m.clone()),
                Option::None => Option::None,
            },
            reason: clone_opt_string(&self.reason),
            context_injection: clone_opt_string(&self.context_injection),
            context_injection_role: self.context_injection_role,
            ephemeral: self.ephemeral,
            approval_prompt: clone_opt_string(&self.approval_prompt),
            approval_options: match self.approval_options {
                Option::Some(ref v) => Option::Some(clone_strings(v)),
                Option::None => Option::None,
            },
            approval_timeout_ms: self.approval_timeout_ms,
            approval_default: self.approval_default,
            suppress_output: self.suppress_output,
            user_message: clone_opt_string(&self.user_message),
            user_message_level: self.user_message_level,
            user_message_source: clone_opt_string(&self.user_message_source),
            append_to_last_tool_result: self.append_to_last_tool_result,
            extensions: self.extensions.clone(),
        };
        proof {
            assert(r@ =~= self@);
        }
        r
    }
}

fn clone_opt_string(o: &Option<String>) -> (r: Option<String>)
    ensures
        view_opt_str(r) == view_opt_str(*o),
{
    match *o {
        Option::Some(ref s) => Option::Some(s.clone()),
        Option::None => Option::None,
    }
}

fn clone_strings(v: &Vec<String>) -> (r: Vec<String>)
    ensures
        r.deep_view() == v.deep_view(),
{
    let n: usize = v.len();
    let mut r: Vec<String> = Vec::new();
    let mut i: usize = 0;
    while i < n
        invariant
            n == v@.len(),
            0 <= i <= n,
            r@.len() == i,
            forall|j: int| 0 <= j < i ==> (#[trigger] r@[j])@ == v@[j]@,
        decreases n - i,
    {
        r.push(v[i].clone());
        i = i + 1;
    }
    proof {
        assert(r.deep_view() =~= v.deep_view());
    }
    r
}

/// Result of one tool execution.
pub struct ToolResult {
    /// Whether execution succeeded.
    pub success: bool,
    /// Tool output data.
    pub output: Option<DataValue>,
    /// Error details when failed.
    pub error: Option<DataMap>,
}

impl Default for ToolResult {
    /// Success with no output and no error.
    fn default() -> (r: Self)
        ensures
            r.success,
            r.output is None,
            r.error is None,
    {
        ToolResult { success: true, output: Option::None, error: Option::None }
    }
}

/// Metadata for one model a provider offers.
pub struct ModelInfo {
    /// Model identifier.
    pub id: String,
    /// Human-readable model name.
    pub display_name: String,
    /// Maximum context window, in tokens.
    pub context_window: i64,
    /// Maximum output tokens.
    pub max_output_tokens: i64,
    /// Capability labels, such as tools or streaming.
    pub capabilities: Vec<String>,
    /// Model-specific default configuration values.
    pub defaults: DataMap,
}

/// One configuration field a provider asks for.
pub struct ConfigField {
    /// Field identifier, used as the key in configuration.
    pub id: String,
    /// Human-readable label.
    pub display_name: String,
    /// Kind of field.
    pub field_type: ConfigFieldType,
    /// Question put to the user.
    pub prompt: String,
    /// Environment variable consulted for the value.
    pub env_var: Option<String>,
    /// Valid choices, when the field is a choice.
    pub choices: Option<Vec<String>>,
    /// Whether the field is required.
    pub required: bool,
    /// Default value when none is given.
    pub default_value: Option<String>,
    /// Show this field only when another field has a given value.
    pub show_when: Option<Vec<(String, String)>>,
    /// Show this field only after a model was selected.
    pub requires_model: bool,
}

/// Provider metadata.
pub struct ProviderInfo {
    /// Provider identifier.
    pub id: String,
    /// Human-readable provider name.
    pub display_name: String,
    /// Environment variables holding credentials.
    pub credential_env_vars: Vec<String>,
    /// Capability labels.
    pub capabilities: Vec<String>,
    /// Provider-level default configuration values.
    pub defaults: DataMap,
    /// Fields for interactive setup.
    pub config_fields: Vec<ConfigField>,
}

/// Module metadata.
pub struct ModuleInfo {
    /// Module identifier.
    pub id: String,
    /// Module display name.
    pub name: String,
    /// Module version.
    pub version: String,
    /// Module classification.
    pub module_type: ModuleType,
    /// Where the module should be mounted.
    pub mount_point: String,
    /// Module description.
    pub description: String,
    /// Schema for the module's configuration, if any.
    pub config_schema: Option<DataValue>,
}

/// A request for a user decision, raised by an `AskUser` hook result.
pub struct ApprovalRequest {
    /// What is about to happen.
    pub action: String,
    /// Stated risk tier, if any.
    pub risk_level: Option<String>,
    /// Milliseconds to wait for the decision, if bounded.
    pub timeout_ms: Option<u64>,
    /// Anything else the approval surface should show.
    pub details: Option<DataMap>,
}

/// A user's decision on an approval request.
pub struct ApprovalResponse {
    /// Whether the action was approved.
    pub approved: bool,
    /// Optional explanation.
    pub reason: Option<String>,
    /// Whether to remember this decision.
    pub remember: bool,
}

/// Session status and counters.
pub struct SessionStatus {
    /// Unique session identifier.
    pub session_id: String,
    /// When the session started, as an ISO-8601 string.
    pub started_at: String,
    /// When the session ended, if it has.
    pub ended_at: Option<String>,
    /// Current state.
    pub status: SessionState,
    /// Total number of messages.
    pub total_messages: i64,
    /// Number of tool invocations.
    pub tool_invocations: i64,
    /// Number of successful tool executions.
    pub tool_successes: i64,
    /// Number of failed tool executions.
    pub tool_failures: i64,
    /// Total input tokens consumed.
    pub total_input_tokens: i64,
    /// Total output tokens produced.
    pub total_output_tokens: i64,
    /// Estimated cost, carried through as reported.
    pub estimated_cost: Option<DataValue>,
    /// Last activity timestamp, if any.
    pub last_activity: Option<String>,
    /// Details of the last error, if any.
    pub last_error: Option<DataMap>,
}

/// The wire word of an action.
pub open spec fn action_name(a: HookAction) -> Seq<char> {
    match a {
        HookAction::Continue => "continue"@,
        HookAction::Deny => "deny"@,
        HookAction::Modify => "modify"@,
        HookAction::InjectContext => "inject_context"@,
        HookAction::AskUser => "ask_user"@,
    }
}

/// The action a wire word names, if any.
pub open spec fn parse_action(s: Seq<char>) -> Option<HookAction> {
    if s == "continue"@ {
        Option::Some(HookAction::Continue)
    } else if s == "deny"@ {
        Option::Some(HookAction::Deny)
    } else if s == "modify"@ {
        Option::Some(HookAction::Modify)
    } else if s == "inject_context"@ {
        Option::Some(HookAction::InjectContext)
    } else if s == "ask_user"@ {
        Option::Some(HookAction::AskUser)
    } else {
        Option::None
    }
}

/// The wire word of an injection role.
pub open spec fn role_name(r: ContextInjectionRole) -> Seq<char> {
    match r {
        ContextInjectionRole::System => "system"@,
        ContextInjectionRole::User => "user"@,
        ContextInjectionRole::Assistant => "assistant"@,
    }
}

/// The injection role a wire word names, if any.
pub open spec fn parse_role(s: Seq<char>) -> Option<ContextInjectionRole> {
    if s == "system"@ {
        Option::Some(ContextInjectionRole::System)
    } else if s == "user"@ {
        Option::Some(ContextInjectionRole::User)
    } else if s == "assistant"@ {
        Option::Some(ContextInjectionRole::Assistant)
    } else {
        Option::None
    }
}

/// The wire word of an approval default.
pub open spec fn approval_default_name(a: ApprovalDefault) -> Seq<char> {
    match a {
        ApprovalDefault::Allow => "allow"@,
        ApprovalDefault::Deny => "deny"@,
    }
}

/// The approval default a wire word names, if any.
pub open spec fn parse_approval_default(s: Seq<char>) -> Option<ApprovalDefault> {
    if s == "allow"@ {
        Option::Some(ApprovalDefault::Allow)
    } else if s == "deny"@ {
        Option::Some(ApprovalDefault::Deny)
    } else {
        Option::None
    }
}

/// The wire word of a message level.
pub open spec fn level_name(l: UserMessageLevel) -> Seq<char> {
    match l {
        UserMessageLevel::Info => "info"@,
        UserMessageLevel::Warning => "warning"@,
        UserMessageLevel::Error => "error"@,
    }
}

/// The message level a wire word names, if any.
pub open spec fn parse_level(s: Seq<char>) -> Option<UserMessageLevel> {
    if s == "info"@ {
        Option::Some(UserMessageLevel::Info)
    } else if s == "warning"@ {
        Option::Some(UserMessageLevel::Warning)
    } else if s == "error"@ {
        Option::Some(UserMessageLevel::Error)
    } else {
        Option::None
    }
}

/// An optional text as a field value: absent is null.
pub open spec fn opt_text_field(o: Option<Seq<char>>) -> Dv {
    match o {
        Option::Some(s) => Dv::Str(s),
        Option::None => Dv::Null,
    }
}

/// An optional list of texts as a field value: absent is null.
pub open spec fn opt_texts_field(o: Option<Seq<Seq<char>>>) -> Dv {
    match o {
        Option::Some(v) => Dv::List(Seq::new(v.len(), |i: int| Dv::Str(v[i]))),
        Option::None => Dv::Null,
    }
}

/// The recognised field names of a serialised hook result.
pub open spec fn recognised_keys() -> Set<Seq<char>> {
    set![
        "action"@,
        "data"@,
        "reason"@,
        "context_injection"@,
        "context_injection_role"@,
        "ephemeral"@,
        "approval_prompt"@,
        "approval_options"@,
        "approval_timeout_ms"@,
        "approval_default"@,
        "suppress_output"@,
        "user_message"@,
        "user_message_level"@,
        "user_message_source"@,
        "append_to_last_tool_result"@,
    ]
}

/// A hook result written as one flat field map: every recognised field under
/// its name, and every extension key alongside them.
pub open spec fn hr_fields(h: HookResultV) -> Map<Seq<char>, Dv> {
    h.extensions.insert("action"@, Dv::Str(action_name(h.action))).insert(
        "data"@,
        match h.data {
            Option::Some(m) => Dv::Obj(m),
            Option::None => Dv::Null,
        },
    ).insert("reason"@, opt_text_field(h.reason)).insert(
        "context_injection"@,
        opt_text_field(h.context_injection),
    ).insert("context_injection_role"@, Dv::Str(role_name(h.context_injection_role))).insert(
        "ephemeral"@,
        Dv::Bool(h.ephemeral),
    ).insert("approval_prompt"@, opt_text_field(h.approval_prompt)).insert(
        "approval_options"@,
        opt_texts_field(h.approval_options),
    ).insert("approval_timeout_ms"@, Dv::Int(h.approval_timeout_ms as int)).insert(
        "approval_default"@,
        Dv::Str(approval_default_name(h.approval_default)),
    ).insert("suppress_output"@, Dv::Bool(h.suppress_output)).insert(
        "user_message"@,
        opt_text_field(h.user_message),
    ).insert("user_message_level"@, Dv::Str(level_name(h.user_message_level))).insert(
        "user_message_source"@,
        opt_text_field(h.user_message_source),
    ).insert("append_to_last_tool_result"@, Dv::Bool(h.append_to_last_tool_result))
}

/// Reading one optional text field: absent and null mean none.
pub open spec fn read_opt_text(m: Map<Seq<char>, Dv>, key: Seq<char>) -> Option<
    Option<Seq<char>>,
> {
    if !m.contains_key(key) {
        Option::Some(Option::None)
    } else {
        match m[key] {
            Dv::Null => Option::Some(Option::None),
            Dv::Str(s) => Option::Some(Option::Some(s)),
            _ => Option::None,
        }
    }
}

/// Reading one boolean field: absent means false.
pub open spec fn read_bool(m: Map<Seq<char>, Dv>, key: Seq<char>) -> Option<bool> {
    if !m.contains_key(key) {
        Option::Some(false)
    } else {
        match m[key] {
            Dv::Bool(b) => Option::Some(b),
            _ => Option::None,
        }
    }
}

/// Reading the optional choice list: absent and null mean none; every
/// element must be text.
pub open spec fn read_opt_texts(m: Map<Seq<char>, Dv>, key: Seq<char>) -> Option<
    Option<Seq<Seq<char>>>,
> {
    if !m.contains_key(key) {
        Option::Some(Option::None)
    } else {
        match m[key] {
            Dv::Null => Option::Some(Option::None),
            Dv::List(l) => if forall|i: int| 0 <= i < l.len() ==> (#[trigger] l[i]) is Str {
                Option::Some(Option::Some(Seq::new(l.len(), |i: int| l[i]->Str_0)))
            } else {
                Option::None
            },
            _ => Option::None,
        }
    }
}

/// A field map read back as a hook result: recognised fields decode by
/// shape, a missing field takes its default, everything else lands in the
/// extensions bag. `None` when a recognised field has the wrong shape.
pub open spec fn hr_of_fields(m: Map<Seq<char>, Dv>) -> Option<HookResultV> {
    let action = if !m.contains_key("action"@) {
        Option::Some(HookAction::Continue)
    } else {
        match m["action"@] {
            Dv::Str(s) => parse_action(s),
            _ => Option::None,
        }
    };
    let data = if !m.contains_key("data"@) {
        Option::Some(Option::None)
    } else {
        match m["data"@] {
            Dv::Null => Option::Some(Option::None),
            Dv::Obj(d) => Option::Some(Option::Some(d)),
            _ => Option::None,
        }
    };
    let role = if !m.contains_key("context_injection_role"@) {
        Option::Some(ContextInjectionRole::System)
    } else {
        match m["context_injection_role"@] {
            Dv::Str(s) => parse_role(s),
            _ => Option::None,
        }
    };
    let timeout = if !m.contains_key("approval_timeout_ms"@) {
        Option::Some(APPROVAL_TIMEOUT_DEFAULT_MS)
    } else {
        match m["approval_timeout_ms"@] {
            Dv::Int(i) => if 0 <= i <= u64::MAX {
                Option::Some(i as u64)
            } else {
                Option::None
            },
            _ => Option::None,
        }
    };
    let adefault = if !m.contains_key("approval_default"@) {
        Option::Some(ApprovalDefault::Deny)
    } else {
        match m["approval_default"@] {
            Dv::Str(s) => parse_approval_default(s),
            _ => Option::None,
        }
    };
    let level = if !m.contains_key("user_message_level"@) {
        Option::Some(UserMessageLevel::Info)
    } else {
        match m["user_message_level"@] {
            Dv::Str(s) => parse_level(s),
            _ => Option::None,
        }
    };
    let reason = read_opt_text(m, "reason"@);
    let ci = read_opt_text(m, "context_injection"@);
    let prompt = read_opt_text(m, "approval_prompt"@);
    let options = read_opt_texts(m, "approval_options"@);
    let umsg = read_opt_text(m, "user_message"@);
    let usrc = read_opt_text(m, "user_message_source"@);
    let eph = read_bool(m, "ephemeral"@);
    let sup = read_bool(m, "suppress_output"@);
    let app = read_bool(m, "append_to_last_tool_result"@);
    if action is Some && data is Some && role is Some && timeout is Some && adefault is Some
        && level is Some && reason is Some && ci is Some && prompt is Some && options is Some
        && umsg is Some && usrc is Some && eph is Some && sup is Some && app is Some {
        Option::Some(
            HookResultV {
                action: action.unwrap(),
                data: data.unwrap(),
                reason: reason.unwrap(),
                context_injection: ci.unwrap(),
                context_injection_role: role.unwrap(),
                ephemeral: eph.unwrap(),
                approval_prompt: prompt.unwrap(),
                approval_options: options.unwrap(),
                approval_timeout_ms: timeout.unwrap(),
                approval_default: adefault.unwrap(),
                suppress_output: sup.unwrap(),
                user_message: umsg.unwrap(),
                user_message_level: level.unwrap(),
                user_message_source: usrc.unwrap(),
                append_to_last_tool_result: app.unwrap(),
                extensions: m.remove_keys(recognised_keys()),
            },
        )
    } else {
        Option::None
    }
}

/// Writing a hook result to a field map and reading it back loses nothing:
/// every recognised field and every unknown key in the extensions bag comes
/// through unchanged, as long as no extension key shadows a recognised
/// field.
pub proof fn lemma_hook_result_round_trip(h: HookResultV)
    requires
        forall|k: Seq<char>| recognised_keys().contains(k) ==> !(#[trigger] h.extensions.dom().contains(k)),
    ensures
        hr_of_fields(hr_fields(h)) == Option::Some(h),
{
    reveal_strlit("continue");
    reveal_strlit("deny");
    reveal_strlit("modify");
    reveal_strlit("inject_context");
    reveal_strlit("ask_user");
    reveal_strlit("system");
    reveal_strlit("user");
    reveal_strlit("assistant");
    reveal_strlit("allow");
    reveal_strlit("info");
    reveal_strlit("warning");
    reveal_strlit("error");
    let m = hr_fields(h);
    reveal_strlit("action");
    reveal_strlit("data");
    reveal_strlit("reason");
    reveal_strlit("context_injection");
    reveal_strlit("context_injection_role");
    reveal_strlit("ephemeral");
    reveal_strlit("approval_prompt");
    reveal_strlit("approval_options");
    reveal_strlit("approval_timeout_ms");
    reveal_strlit("approval_default");
    reveal_strlit("suppress_output");
    reveal_strlit("user_message");
    reveal_strlit("user_message_level");
    reveal_strlit("user_message_source");
    reveal_strlit("append_to_last_tool_result");
    assert("action"@.len() == 6);
    assert("data"@.len() == 4);
    assert("reason"@.len() == 6);
    assert("context_injection"@.len() == 17);
    assert("context_injection_role"@.len() == 22);
    assert("ephemeral"@.len() == 9);
    assert("approval_prompt"@.len() == 15);
    assert("approval_options"@.len() == 16);
    assert("approval_timeout_ms"@.len() == 19);
    assert("approval_default"@.len() == 16);
    assert("suppress_output"@.len() == 15);
    assert("user_message"@.len() == 12);
    assert("user_message_level"@.len() == 18);
    assert("user_message_source"@.len() == 19);
    assert("append_to_last_tool_result"@.len() == 26);
    assert("action"@[0] == 'a' && "reason"@[0] == 'r');
    assert("approval_options"@[9] == 'o' && "approval_default"@[9] == 'd');
    assert("approval_prompt"@[0] == 'a' && "suppress_output"@[0] == 's');
    assert("approval_timeout_ms"@[0] == 'a' && "user_message_source"@[0] == 'u');
    assert("continue"@.len() == 8);
    assert("deny"@.len() == 4);
    assert("modify"@.len() == 6);
    assert("inject_context"@.len() == 14);
    assert("ask_user"@.len() == 8);
    assert("ask_user"@[0] == 'a' && "continue"@[0] == 'c');
    assert("system"@.len() == 6);
    assert("user"@.len() == 4);
    assert("assistant"@.len() == 9);
    assert("allow"@.len() == 5);
    assert("info"@.len() == 4);
    assert("warning"@.len() == 7);
    assert("error"@.len() == 5);
    match h.action {
        HookAction::Continue => {
            assert(parse_action(action_name(h.action)) == Option::Some(h.action));
        },
        HookAction::Deny => {
            assert(parse_action(action_name(h.action)) == Option::Some(h.action));
        },
        HookAction::Modify => {
            assert(parse_action(action_name(h.action)) == Option::Some(h.action));
        },
        HookAction::InjectContext => {
            assert(parse_action(action_name(h.action)) == Option::Some(h.action));
        },
        HookAction::AskUser => {
            assert(parse_action(action_name(h.action)) == Option::Some(h.action));
        },
    }
    match h.context_injection_role {
        ContextInjectionRole::System => {
            assert(parse_role(role_name(h.context_injection_role)) == Option::Some(
                h.context_injection_role,
            ));
        },
        ContextInjectionRole::User => {
            assert(parse_role(role_name(h.context_injection_role)) == Option::Some(
                h.context_injection_role,
            ));
        },
        ContextInjectionRole::Assistant => {
            assert(parse_role(role_name(h.context_injection_role)) == Option::Some(
                h.context_injection_role,
            ));
        },
    }
    match h.approval_default {
        ApprovalDefault::Allow => {
            assert(parse_approval_default(approval_default_name(h.approval_default))
                == Option::Some(h.approval_default));
        },
        ApprovalDefault::Deny => {
            assert(parse_approval_default(approval_default_name(h.approval_default))
                == Option::Some(h.approval_default));
        },
    }
    match h.user_message_level {
        UserMessageLevel::Info => {
            assert(parse_level(level_name(h.user_message_level)) == Option::Some(
                h.user_message_level,
            ));
        },
        UserMessageLevel::Warning => {
            assert(parse_level(level_name(h.user_message_level)) == Option::Some(
                h.user_message_level,
            ));
        },
        UserMessageLevel::Error => {
            assert(parse_level(level_name(h.user_message_level)) == Option::Some(
                h.user_message_level,
            ));
        },
    }
    match h.approval_options {
        Option::Some(v) => {
            let l = Seq::new(v.len(), |i: int| Dv::Str(v[i]));
            assert(forall|i: int| 0 <= i < l.len() ==> (#[trigger] l[i]) is Str);
            assert(Seq::new(l.len(), |i: int| l[i]->Str_0) =~= v);
        },
        Option::None => {},
    }
    let got = hr_of_fields(m);
    assert(got is Some);
    assert(got.unwrap().extensions =~= h.extensions);
    assert(got.unwrap() =~= h);
}

fn action_word(a: HookAction) -> (r: String)
    ensures
        r@ == action_name(a),
{
    match a {
        HookAction::Continue => String::from_str("continue"),
        HookAction::Deny => String::from_str("deny"),
        HookAction::Modify => String::from_str("modify"),
        HookAction::InjectContext => String::from_str("inject_context"),
        HookAction::AskUser => String::from_str("ask_user"),
    }
}

fn opt_text_value(o: Option<String>) -> (r: DataValue)
    ensures
        r.dv() == opt_text_field(view_opt_str(o)),
        r.wf(),
{
    match o {
        Option::Some(text) => DataValue::Str(text),
        Option::None => DataValue::Null,
    }
}

impl HookResult {
    /// This result written as one flat field map: every recognised field
    /// under its name, the extensions alongside. The inverse of
    /// [`Self::from_fields`].
    pub fn to_fields(self) -> (r: DataMap)
        requires
            self.wf(),
            self.approval_timeout_ms <= i64::MAX,
        ensures
            r@ == hr_fields(self@),
            r.wf(),
    {
        let ghost hv = self@;
        let mut out = self.extensions;
        out.insert(String::from_str("action"), DataValue::Str(action_word(self.action)));
        out.insert(
            String::from_str("data"),
            match self.data {
                Option::Some(d) => DataValue::Obj(d),
                Option::None => DataValue::Null,
            },
        );
        out.insert(String::from_str("reason"), opt_text_value(self.reason));
        out.insert(
            String::from_str("context_injection"),
            opt_text_value(self.context_injection),
        );
        out.insert(
            String::from_str("context_injection_role"),
            DataValue::Str(
                match self.context_injection_role {
                    ContextInjectionRole::System => String::from_str("system"),
                    ContextInjectionRole::User => String::from_str("user"),
                    ContextInjectionRole::Assistant => String::from_str("assistant"),
                },
            ),
        );
        out.insert(String::from_str("ephemeral"), DataValue::Bool(self.ephemeral));
        out.insert(String::from_str("approval_prompt"), opt_text_value(self.approval_prompt));
        let options_value: DataValue = match self.approval_options {
            Option::Some(v) => {
                let n: usize = v.len();
                let mut items: Vec<DataValue> = Vec::new();
                let mut i: usize = 0;
                while i < n
                    invariant
                        n == v@.len(),
                        0 <= i <= n,
                        items@.len() == i,
                        forall|j: int| 0 <= j < i ==> (#[trigger] items@[j]).dv() == Dv::Str(
                            v@[j]@,
                        ),
                        forall|j: int| 0 <= j < i ==> (#[trigger] items@[j]).wf(),
                    decreases n - i,
                {
                    items.push(DataValue::Str(v[i].clone()));
                    i = i + 1;
                }
                proof {
                    let lv = DataValue::List(items).dv()->List_0;
                    assert(lv =~= Seq::new(v.deep_view().len(), |i: int| Dv::Str(v.deep_view()[i])));
                }
                DataValue::List(items)
            },
            Option::None => DataValue::Null,
        };
        out.insert(String::from_str("approval_options"), options_value);
        out.insert(
            String::from_str("approval_timeout_ms"),
            DataValue::Int(self.approval_timeout_ms as i64),
        );
        out.insert(
            String::from_str("approval_default"),
            DataValue::Str(
                match self.approval_default {
                    ApprovalDefault::Allow => String::from_str("allow"),
                    ApprovalDefault::Deny => String::from_str("deny"),
                },
            ),
        );
        out.insert(String::from_str("suppress_output"), DataValue::Bool(self.suppress_output));
        out.insert(String::from_str("user_message"), opt_text_value(self.user_message));
        out.insert(
            String::from_str("user_message_level"),
            DataValue::Str(
                match self.user_message_level {
                    UserMessageLevel::Info => String::from_str("info"),
                    UserMessageLevel::Warning => String::from_str("warning"),
                    UserMessageLevel::Error => String::from_str("error"),
                },
            ),
        );
        out.insert(
            String::from_str("user_message_source"),
            opt_text_value(self.user_message_source),
        );
        out.insert(
            String::from_str("append_to_last_tool_result"),
            DataValue::Bool(self.append_to_last_tool_result),
        );
        proof {
            assert(out@ =~= hr_fields(hv));
        }
        out
    }
}

fn read_text_field(m: &DataMap, key: &str) -> (r: Option<Option<String>>)
    requires
        m.wf(),
    ensures
        match r {
            Option::Some(o) => read_opt_text(m@, key@) == Option::Some(view_opt_str(o)),
            Option::None => read_opt_text(m@, key@) is None,
        },
{
    match m.get(key) {
        Option::None => Option::Some(Option::None),
        Option::Some(v) => match *v {
            DataValue::Null => Option::Some(Option::None),
            DataValue::Str(ref text) => Option::Some(Option::Some(text.clone())),
            _ => Option::None,
        },
    }
}

fn read_bool_field(m: &DataMap, key: &str) -> (r: Option<bool>)
    requires
        m.wf(),
    ensures
        r == read_bool(m@, key@),
{
    match m.get(key) {
        Option::None => Option::Some(false),
        Option::Some(v) => match *v {
            DataValue::Bool(b) => Option::Some(b),
            _ => Option::None,
        },
    }
}

fn word_eq(s: &String, lit: &str) -> (r: bool)
    ensures
        r == (s@ == lit@),
{
    *s == lit.to_owned()
}

impl HookResult {
    /// Read a field map back as a hook result: recognised fields decode by
    /// shape, a missing field takes its default, and every unknown key lands
    /// in the extensions bag. `None` when a recognised field has the wrong
    /// shape. The inverse of [`Self::to_fields`].
    #[verifier::rlimit(60)]
    pub fn from_fields(m: DataMap) -> (r: Option<HookResult>)
        requires
            m.wf(),
        ensures
            match r {
                Option::Some(h) => hr_of_fields(m@) == Option::Some(h@) && h.wf(),
                Option::None => hr_of_fields(m@) is None,
            },
    {
        let action: HookAction = match m.get("action") {
            Option::None => HookAction::Continue,
            Option::Some(v) => match *v {
                DataValue::Str(ref word) => {
                    if word_eq(word, "continue") {
                        HookAction::Continue
                    } else if word_eq(word, "deny") {
                        HookAction::Deny
                    } else if word_eq(word, "modify") {
                        HookAction::Modify
                    } else if word_eq(word, "inject_context") {
                        HookAction::InjectContext
                    } else if word_eq(word, "ask_user") {
                        HookAction::AskUser
                    } else {
                        return Option::None;
                    }
                },
                _ => {
                    return Option::None;
                },
            },
        };
        let data: Option<DataMap> = match m.get("data") {
            Option::None => Option::None,
            Option::Some(v) => match *v {
                DataValue::Null => Option::None,
                DataValue::Obj(ref d) => Option::Some(d.clone()),
                _ => {
                    return Option::None;
                },
            },
        };
        let role: ContextInjectionRole = match m.get("context_injection_role") {
            Option::None => ContextInjectionRole::System,
            Option::Some(v) => match *v {
                DataValue::Str(ref word) => {
                    if word_eq(word, "system") {
                        ContextInjectionRole::System
                    } else if word_eq(word, "user") {
                        ContextInjectionRole::User
                    } else if word_eq(word, "assistant") {
                        ContextInjectionRole::Assistant
                    } else {
                        return Option::None;
                    }
                },
                _ => {
                    return Option::None;
                },
            },
        };
        let timeout: u64 = match m.get("approval_timeout_ms") {
            Option::None => APPROVAL_TIMEOUT_DEFAULT_MS,
            Option::Some(v) => match *v {
                DataValue::Int(i) => if i >= 0 {
                    i as u64
                } else {
                    return Option::None;
                },
                _ => {
                    return Option::None;
                },
            },
        };
        let adefault: ApprovalDefault = match m.get("approval_default") {
            Option::None => ApprovalDefault::Deny,
            Option::Some(v) => match *v {
                DataValue::Str(ref word) => {
                    if word_eq(word, "allow") {
                        ApprovalDefault::Allow
                    } else if word_eq(word, "deny") {
                        ApprovalDefault::Deny
                    } else {
                        return Option::None;
                    }
                },
                _ => {
                    return Option::None;
                },
            },
        };
        let level: UserMessageLevel = match m.get("user_message_level") {
            Option::None => UserMessageLevel::Info,
            Option::Some(v) => match *v {
                DataValue::Str(ref word) => {
                    if word_eq(word, "info") {
                        UserMessageLevel::Info
                    } else if word_eq(word, "warning") {
                        UserMessageLevel::Warning
                    } else if word_eq(word, "error") {
                        UserMessageLevel::Error
                    } else {
                        return Option::None;
                    }
                },
                _ => {
                    return Option::None;
                },
            },
        };
        let reason: Option<String> = match read_text_field(&m, "reason") {
            Option::Some(o) => o,
            Option::None => {
                return Option::None;
            },
        };
        let context_injection: Option<String> = match read_text_field(&m, "context_injection") {
            Option::Some(o) => o,
            Option::None => {
                return Option::None;
            },
        };
        let approval_prompt: Option<String> = match read_text_field(&m, "approval_prompt") {
            Option::Some(o) => o,
            Option::None => {
                return Option::None;
            },
        };
        let user_message: Option<String> = match read_text_field(&m, "user_message") {
            Option::Some(o) => o,
            Option::None => {
                return Option::None;
            },
        };
        let user_message_source: Option<String> = match read_text_field(
            &m,
            "user_message_source",
        ) {
            Option::Some(o) => o,
            Option::None => {
                return Option::None;
            },
        };
        let approval_options: Option<Vec<String>> = match m.get("approval_options") {
            Option::None => Option::None,
            Option::Some(v) => match *v {
                DataValue::Null => Option::None,
                DataValue::List(ref items) => {
                    let n: usize = items.len();
                    let mut texts: Vec<String> = Vec::new();
                    let mut i: usize = 0;
                    while i < n
                        invariant
                            m.wf(),
                            m@.contains_key("approval_options"@),
                            *v == DataValue::List(*items),
                            v.dv() == m@["approval_options"@],
                            n == items@.len(),
                            0 <= i <= n,
                            texts@.len() == i,
                            forall|j: int| 0 <= j < i ==> (#[trigger] items@[j]).dv() is Str,
                            forall|j: int|
                                0 <= j < i ==> (#[trigger] texts@[j])@ == items@[j].dv()->Str_0,
                        decreases n - i,
                    {
                        match items[i] {
                            DataValue::Str(ref text) => {
                                texts.push(text.clone());
                            },
                            _ => {
                                proof {
                                    let lv = v.dv()->List_0;
                                    assert(lv[i as int] == items@[i as int].dv());
                                    assert(!(lv[i as int] is Str));
                                }
                                return Option::None;
                            },
                        }
                        i = i + 1;
                    }
                    proof {
                        let lv = v.dv()->List_0;
                        assert(forall|j: int|
                            0 <= j < lv.len() ==> (#[trigger] lv[j]) == items@[j].dv());
                        assert(texts.deep_view() =~= Seq::new(lv.len(), |j: int| lv[j]->Str_0));
                    }
                    Option::Some(texts)
                },
                _ => {
                    return Option::None;
                },
            },
        };
        let ephemeral: bool = match read_bool_field(&m, "ephemeral") {
            Option::Some(b) => b,
            Option::None => {
                return Option::None;
            },
        };
        let suppress_output: bool = match read_bool_field(&m, "suppress_output") {
            Option::Some(b) => b,
            Option::None => {
                return Option::None;
            },
        };
        let append_to_last_tool_result: bool = match read_bool_field(
            &m,
            "append_to_last_tool_result",
        ) {
            Option::Some(b) => b,
            Option::None => {
                return Option::None;
            },
        };
        let mut extensions = m;
        extensions.remove_entry("action");
        extensions.remove_entry("data");
        extensions.remove_entry("reason");
        extensions.remove_entry("context_injection");
        extensions.remove_entry("context_injection_role");
        extensions.remove_entry("ephemeral");
        extensions.remove_entry("approval_prompt");
        extensions.remove_entry("approval_options");
        extensions.remove_entry("approval_timeout_ms");
        extensions.remove_entry("approval_default");
        extensions.remove_entry("suppress_output");
        extensions.remove_entry("user_message");
        extensions.remove_entry("user_message_level");
        extensions.remove_entry("user_message_source");
        extensions.remove_entry("append_to_last_tool_result");
        let out = HookResult {
            action,
            data,
            reason,
            context_injection,
            context_injection_role: role,
            ephemeral,
            approval_prompt,
            approval_options,
            approval_timeout_ms: timeout,
            approval_default: adefault,
            suppress_output,
            user_message,
            user_message_level: level,
            user_message_source,
            append_to_last_tool_result,
            extensions,
        };
        proof {
            assert(out.extensions@ =~= m@.remove_keys(recognised_keys()));
            assert(hr_of_fields(m@) == Option::Some(out@)) by {
                assert(hr_of_fields(m@).unwrap() =~= out@);
            }
        }
        Option::Some(out)
    }
}

/// Writing a hook result and reading it back loses nothing, at the level of
/// the executable pair: for any run of [`HookResult::to_fields`] on `x` and
/// of [`HookResult::from_fields`] on its output, the decode cannot refuse,
/// and what it returns has the same mathematical value as `x` — every
/// recognised field and every unknown key in the extensions bag — as long
/// as no extension key shadows a recognised field.
pub proof fn lemma_hook_result_fields_round_trip(
    x: HookResult,
    m: DataMap,
    r: Option<HookResult>,
)
    requires
        forall|k: Seq<char>|
            recognised_keys().contains(k) ==> !(#[trigger] x@.extensions.dom().contains(k)),
        call_ensures(HookResult::to_fields, (x,), m),
        call_ensures(HookResult::from_fields, (m,), r),
    ensures
        r matches Option::Some(out) && out@ == x@,
{
    lemma_hook_result_round_trip(x@);
}

} // verus!
