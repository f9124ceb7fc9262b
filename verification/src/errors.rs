//! The error taxonomy: provider, session, hook, tool and context errors,
//! wrapped by [`AmplifierError`] at the top level.

use vstd::prelude::*;
use vstd::string::StringExecFns;

verus! {

/// Errors from an LLM provider.
#[derive(Debug)]
pub enum ProviderError {
    /// Rate limit exceeded. Retryable.
    RateLimit { message: String, provider: Option<String>, retry_after_ms: Option<u64> },
    /// Invalid or missing credentials.
    Authentication { message: String, provider: Option<String> },
    /// Request exceeds the model's context window.
    ContextLength { message: String, provider: Option<String> },
    /// Content blocked by the provider's safety filter.
    ContentFilter { message: String, provider: Option<String> },
    /// Malformed request rejected by the provider.
    InvalidRequest { message: String, provider: Option<String> },
    /// Provider service unavailable. Retryable.
    Unavailable { message: String, provider: Option<String>, status_code: Option<u16> },
    /// Request timed out before the provider responded. Retryable.
    Timeout { message: String, provider: Option<String> },
    /// Any other provider error, with an explicit retryability flag.
    Other { message: String, provider: Option<String>, status_code: Option<u16>, retryable: bool },
}

/// The message text a provider error carries.
pub open spec fn spec_provider_message(e: ProviderError) -> Seq<char> {
    match e {
        ProviderError::RateLimit { message, .. } => message@,
        ProviderError::Authentication { message, .. } => message@,
        ProviderError::ContextLength { message, .. } => message@,
        ProviderError::ContentFilter { message, .. } => message@,
        ProviderError::InvalidRequest { message, .. } => message@,
        ProviderError::Unavailable { message, .. } => message@,
        ProviderError::Timeout { message, .. } => message@,
        ProviderError::Other { message, .. } => message@,
    }
}

/// The description of a session error.
pub open spec fn spec_session_message(e: SessionError) -> Seq<char> {
    match e {
        SessionError::NotInitialized => "session not initialized"@,
        SessionError::ConfigMissing { field } => "missing required config: "@ + field@,
        SessionError::AlreadyCompleted => "session already completed"@,
        SessionError::Other { message } => message@,
    }
}

/// The description of a hook error.
pub open spec fn spec_hook_message(e: HookError) -> Seq<char> {
    match e {
        HookError::HandlerFailed { message, .. } => "hook handler failed: "@ + message@,
        HookError::Timeout => "hook dispatch timeout"@,
        HookError::Other { message } => message@,
    }
}

/// The description of a tool error.
pub open spec fn spec_tool_message(e: ToolError) -> Seq<char> {
    match e {
        ToolError::ExecutionFailed { message, .. } => "tool execution failed: "@ + message@,
        ToolError::NotFound { name } => "tool not found: "@ + name@,
        ToolError::Other { message } => message@,
    }
}

/// The description of a context error.
pub open spec fn spec_context_message(e: ContextError) -> Seq<char> {
    match e {
        ContextError::CompactionFailed { message } => "context compaction failed: "@ + message@,
        ContextError::Other { message } => message@,
    }
}

/// The description of any kernel error.
pub open spec fn spec_message(e: AmplifierError) -> Seq<char> {
    match e {
        AmplifierError::Provider(p) => spec_provider_message(p),
        AmplifierError::Session(se) => spec_session_message(se),
        AmplifierError::Hook(h) => spec_hook_message(h),
        AmplifierError::Tool(t) => spec_tool_message(t),
        AmplifierError::Context(c) => spec_context_message(c),
    }
}

/// Whether a caller should consider retrying after this error.
pub open spec fn spec_retryable(e: ProviderError) -> bool {
    match e {
        ProviderError::RateLimit { .. } => true,
        ProviderError::Unavailable { .. } => true,
        ProviderError::Timeout { .. } => true,
        ProviderError::Other { retryable, .. } => retryable,
        _ => false,
    }
}

impl ProviderError {
    /// Whether the caller should consider retrying the request: rate limits,
    /// unavailability and timeouts are retryable; `Other` carries its own flag;
    /// nothing else is.
    pub fn retryable(&self) -> (r: bool)
        ensures
            r == spec_retryable(*self),
    {
        match *self {
            ProviderError::RateLimit { .. } => true,
            ProviderError::Unavailable { .. } => true,
            ProviderError::Timeout { .. } => true,
            ProviderError::Other { retryable, .. } => retryable,
            _ => false,
        }
    }

    /// Milliseconds to wait before retrying: only a rate limit carries one.
    pub fn retry_after_ms(&self) -> (r: Option<u64>)
        ensures
            match *self {
                ProviderError::RateLimit { retry_after_ms, .. } => r == retry_after_ms,
                _ => r is None,
            },
    {
        match *self {
            ProviderError::RateLimit { retry_after_ms, .. } => retry_after_ms,
            _ => Option::None,
        }
    }

    /// The carried message text.
    pub fn message(&self) -> (r: String)
        ensures
            r@ == spec_provider_message(*self),
    {
        match *self {
            ProviderError::RateLimit { ref message, .. } => message.clone(),
            ProviderError::Authentication { ref message, .. } => message.clone(),
            ProviderError::ContextLength { ref message, .. } => message.clone(),
            ProviderError::ContentFilter { ref message, .. } => message.clone(),
            ProviderError::InvalidRequest { ref message, .. } => message.clone(),
            ProviderError::Unavailable { ref message, .. } => message.clone(),
            ProviderError::Timeout { ref message, .. } => message.clone(),
            ProviderError::Other { ref message, .. } => message.clone(),
        }
    }
}

/// Session lifecycle errors.
#[derive(Debug)]
pub enum SessionError {
    /// The session has not been initialized yet.
    NotInitialized,
    /// A required configuration field is missing, named here.
    ConfigMissing { field: String },
    /// The session has already completed.
    AlreadyCompleted,
    /// Any other session error.
    Other { message: String },
}

impl SessionError {
    /// A human-readable description of the error.
    pub fn message(&self) -> (r: String)
        ensures
            r@ == spec_session_message(*self),
    {
        match *self {
            SessionError::NotInitialized => String::from_str("session not initialized"),
            SessionError::ConfigMissing { ref field } => String::from_str(
                "missing required config: ",
            ).concat(field.as_str()),
            SessionError::AlreadyCompleted => String::from_str("session already completed"),
            SessionError::Other { ref message } => message.clone(),
        }
    }
}

/// Hook dispatch errors.
#[derive(Debug)]
pub enum HookError {
    /// A handler failed during dispatch.
    HandlerFailed { message: String, handler_name: Option<String> },
    /// Dispatch timed out.
    Timeout,
    /// Any other hook error.
    Other { message: String },
}

impl HookError {
    /// A human-readable description of the error.
    pub fn message(&self) -> (r: String)
        ensures
            r@ == spec_hook_message(*self),
    {
        match *self {
            HookError::HandlerFailed { ref message, .. } => String::from_str(
                "hook handler failed: ",
            ).concat(message.as_str()),
            HookError::Timeout => String::from_str("hook dispatch timeout"),
            HookError::Other { ref message } => message.clone(),
        }
    }
}

/// Tool execution errors.
#[derive(Debug)]
pub enum ToolError {
    /// Tool execution failed, optionally with captured output.
    ExecutionFailed {
        message: String,
        stdout: Option<String>,
        stderr: Option<String>,
        exit_code: Option<i32>,
    },
    /// The requested tool was not found.
    NotFound { name: String },
    /// Any other tool error.
    Other { message: String },
}

impl ToolError {
    /// A human-readable description of the error.
    pub fn message(&self) -> (r: String)
        ensures
            r@ == spec_tool_message(*self),
    {
        match *self {
            ToolError::ExecutionFailed { ref message, .. } => String::from_str(
                "tool execution failed: ",
            ).concat(message.as_str()),
            ToolError::NotFound { ref name } => String::from_str("tool not found: ").concat(
                name.as_str(),
            ),
            ToolError::Other { ref message } => message.clone(),
        }
    }
}

/// Context management errors.
#[derive(Debug)]
pub enum ContextError {
    /// Context compaction failed.
    CompactionFailed { message: String },
    /// Any other context error.
    Other { message: String },
}

impl ContextError {
    /// A human-readable description of the error.
    pub fn message(&self) -> (r: String)
        ensures
            r@ == spec_context_message(*self),
    {
        match *self {
            ContextError::CompactionFailed { ref message } => String::from_str(
                "context compaction failed: ",
            ).concat(message.as_str()),
            ContextError::Other { ref message } => message.clone(),
        }
    }
}

/// Top-level error wrapping every component error.
#[derive(Debug)]
pub enum AmplifierError {
    Provider(ProviderError),
    Session(SessionError),
    Hook(HookError),
    Tool(ToolError),
    Context(ContextError),
}

impl AmplifierError {
    /// A human-readable description of the wrapped error.
    pub fn message(&self) -> (r: String)
        ensures
            r@ == spec_message(*self),
    {
        match *self {
            AmplifierError::Provider(ref e) => e.message(),
            AmplifierError::Session(ref e) => e.message(),
            AmplifierError::Hook(ref e) => e.message(),
            AmplifierError::Tool(ref e) => e.message(),
            AmplifierError::Context(ref e) => e.message(),
        }
    }
}

} // verus!
