use amplifier_core::AmplifierError;
use amplifier_core::ContextError;
use amplifier_core::HookError;
use amplifier_core::ProviderError;
use amplifier_core::SessionError;
use amplifier_core::ToolError;

#[test]
fn session_error_display() {
    let err = SessionError::NotInitialized;
    assert_eq!(err.message(), "session not initialized");
}

#[test]
fn llm_error_default_not_retryable() {
    let err = ProviderError::Authentication {
        message: "bad key".to_string(),
        provider: Some("anthropic".to_string()),
    };
    assert!(!err.retryable());
}

#[test]
fn rate_limit_error_is_retryable() {
    let err = ProviderError::RateLimit {
        message: "429".to_string(),
        provider: Some("openai".to_string()),
        retry_after_ms: Some(1500),
    };
    assert!(err.retryable());
    assert_eq!(err.retry_after_ms(), Some(1500));
}

#[test]
fn provider_unavailable_is_retryable() {
    let err = ProviderError::Unavailable {
        message: "503".to_string(),
        provider: None,
        status_code: Some(503),
    };
    assert!(err.retryable());
}

#[test]
fn timeout_is_retryable() {
    let err = ProviderError::Timeout {
        message: "timed out".to_string(),
        provider: Some("gemini".to_string()),
    };
    assert!(err.retryable());
}

#[test]
fn other_error_carries_explicit_retryability() {
    let retryable = ProviderError::Other {
        message: "hiccup".to_string(),
        provider: None,
        status_code: None,
        retryable: true,
    };
    assert!(retryable.retryable());
    let fixed = ProviderError::Other {
        message: "broken".to_string(),
        provider: None,
        status_code: None,
        retryable: false,
    };
    assert!(!fixed.retryable());
}

#[test]
fn context_length_and_content_filter_not_retryable() {
    let too_long = ProviderError::ContextLength { message: "too many tokens".to_string(), provider: None };
    assert!(!too_long.retryable());
    let filtered = ProviderError::ContentFilter { message: "blocked".to_string(), provider: None };
    assert!(!filtered.retryable());
    let malformed = ProviderError::InvalidRequest { message: "bad".to_string(), provider: None };
    assert!(!malformed.retryable());
}

#[test]
fn retry_after_only_on_rate_limit() {
    let err = ProviderError::Timeout { message: "t".to_string(), provider: None };
    assert_eq!(err.retry_after_ms(), None);
}

#[test]
fn amplifier_error_wraps_provider_error() {
    let inner = ProviderError::RateLimit {
        message: "429".to_string(),
        provider: None,
        retry_after_ms: None,
    };
    let outer = AmplifierError::Provider(inner);
    assert!(matches!(outer, AmplifierError::Provider(_)));
    assert_eq!(outer.message(), "429");
}

#[test]
fn config_missing_error_names_the_field() {
    let err = SessionError::ConfigMissing { field: "session.orchestrator".to_string() };
    assert_eq!(err.message(), "missing required config: session.orchestrator");
}

#[test]
fn hook_error_messages() {
    let failed = HookError::HandlerFailed { message: "boom".to_string(), handler_name: None };
    assert_eq!(failed.message(), "hook handler failed: boom");
    assert_eq!(HookError::Timeout.message(), "hook dispatch timeout");
}

#[test]
fn tool_error_messages() {
    let failed = ToolError::ExecutionFailed {
        message: "exit 1".to_string(),
        stdout: Some("out".to_string()),
        stderr: Some("err".to_string()),
        exit_code: Some(1),
    };
    assert_eq!(failed.message(), "tool execution failed: exit 1");
    let missing = ToolError::NotFound { name: "bash".to_string() };
    assert_eq!(missing.message(), "tool not found: bash");
}

#[test]
fn context_error_messages() {
    let failed = ContextError::CompactionFailed { message: "no room".to_string() };
    assert_eq!(failed.message(), "context compaction failed: no room");
}
