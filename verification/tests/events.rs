use amplifier_core::all_events;
use amplifier_core::events;

#[test]
fn session_constants() {
    assert_eq!(events::SESSION_START, "session:start");
    assert_eq!(events::SESSION_START_DEBUG, "session:start:debug");
    assert_eq!(events::SESSION_START_RAW, "session:start:raw");
    assert_eq!(events::SESSION_END, "session:end");
    assert_eq!(events::SESSION_FORK, "session:fork");
    assert_eq!(events::SESSION_FORK_DEBUG, "session:fork:debug");
    assert_eq!(events::SESSION_FORK_RAW, "session:fork:raw");
    assert_eq!(events::SESSION_RESUME, "session:resume");
    assert_eq!(events::SESSION_RESUME_DEBUG, "session:resume:debug");
    assert_eq!(events::SESSION_RESUME_RAW, "session:resume:raw");
}

#[test]
fn prompt_constants() {
    assert_eq!(events::PROMPT_SUBMIT, "prompt:submit");
    assert_eq!(events::PROMPT_COMPLETE, "prompt:complete");
}

#[test]
fn plan_constants() {
    assert_eq!(events::PLAN_START, "plan:start");
    assert_eq!(events::PLAN_END, "plan:end");
}

#[test]
fn provider_constants() {
    assert_eq!(events::PROVIDER_REQUEST, "provider:request");
    assert_eq!(events::PROVIDER_RESPONSE, "provider:response");
    assert_eq!(events::PROVIDER_RETRY, "provider:retry");
    assert_eq!(events::PROVIDER_ERROR, "provider:error");
}

#[test]
fn llm_constants() {
    assert_eq!(events::LLM_REQUEST, "llm:request");
    assert_eq!(events::LLM_REQUEST_DEBUG, "llm:request:debug");
    assert_eq!(events::LLM_REQUEST_RAW, "llm:request:raw");
    assert_eq!(events::LLM_RESPONSE, "llm:response");
    assert_eq!(events::LLM_RESPONSE_DEBUG, "llm:response:debug");
    assert_eq!(events::LLM_RESPONSE_RAW, "llm:response:raw");
}

#[test]
fn content_block_constants() {
    assert_eq!(events::CONTENT_BLOCK_START, "content_block:start");
    assert_eq!(events::CONTENT_BLOCK_DELTA, "content_block:delta");
    assert_eq!(events::CONTENT_BLOCK_END, "content_block:end");
}

#[test]
fn thinking_constants() {
    assert_eq!(events::THINKING_DELTA, "thinking:delta");
    assert_eq!(events::THINKING_FINAL, "thinking:final");
}

#[test]
fn tool_constants() {
    assert_eq!(events::TOOL_PRE, "tool:pre");
    assert_eq!(events::TOOL_POST, "tool:post");
    assert_eq!(events::TOOL_ERROR, "tool:error");
}

#[test]
fn context_constants() {
    assert_eq!(events::CONTEXT_PRE_COMPACT, "context:pre_compact");
    assert_eq!(events::CONTEXT_POST_COMPACT, "context:post_compact");
    assert_eq!(events::CONTEXT_COMPACTION, "context:compaction");
    assert_eq!(events::CONTEXT_INCLUDE, "context:include");
}

#[test]
fn orchestrator_and_execution_constants() {
    assert_eq!(events::ORCHESTRATOR_COMPLETE, "orchestrator:complete");
    assert_eq!(events::EXECUTION_START, "execution:start");
    assert_eq!(events::EXECUTION_END, "execution:end");
}

#[test]
fn user_notification_constant() {
    assert_eq!(events::USER_NOTIFICATION, "user:notification");
}

#[test]
fn artifact_constants() {
    assert_eq!(events::ARTIFACT_WRITE, "artifact:write");
    assert_eq!(events::ARTIFACT_READ, "artifact:read");
}

#[test]
fn policy_and_approval_constants() {
    assert_eq!(events::POLICY_VIOLATION, "policy:violation");
    assert_eq!(events::APPROVAL_REQUIRED, "approval:required");
    assert_eq!(events::APPROVAL_GRANTED, "approval:granted");
    assert_eq!(events::APPROVAL_DENIED, "approval:denied");
}

#[test]
fn cancellation_constants() {
    assert_eq!(events::CANCEL_REQUESTED, "cancel:requested");
    assert_eq!(events::CANCEL_COMPLETED, "cancel:completed");
}

#[test]
fn all_events_count() {
    assert_eq!(all_events().len(), 48);
}

#[test]
fn all_events_contains_every_constant() {
    let all = all_events();
    let expected: [&str; 48] = [
        events::SESSION_START,
        events::SESSION_START_DEBUG,
        events::SESSION_START_RAW,
        events::SESSION_END,
        events::SESSION_FORK,
        events::SESSION_FORK_DEBUG,
        events::SESSION_FORK_RAW,
        events::SESSION_RESUME,
        events::SESSION_RESUME_DEBUG,
        events::SESSION_RESUME_RAW,
        events::PROMPT_SUBMIT,
        events::PROMPT_COMPLETE,
        events::PLAN_START,
        events::PLAN_END,
        events::PROVIDER_REQUEST,
        events::PROVIDER_RESPONSE,
        events::PROVIDER_RETRY,
        events::PROVIDER_ERROR,
        events::LLM_REQUEST,
        events::LLM_REQUEST_DEBUG,
        events::LLM_REQUEST_RAW,
        events::LLM_RESPONSE,
        events::LLM_RESPONSE_DEBUG,
        events::LLM_RESPONSE_RAW,
        events::CONTENT_BLOCK_START,
        events::CONTENT_BLOCK_DELTA,
        events::CONTENT_BLOCK_END,
        events::THINKING_DELTA,
        events::THINKING_FINAL,
        events::TOOL_PRE,
        events::TOOL_POST,
        events::TOOL_ERROR,
        events::CONTEXT_PRE_COMPACT,
        events::CONTEXT_POST_COMPACT,
        events::CONTEXT_COMPACTION,
        events::CONTEXT_INCLUDE,
        events::ORCHESTRATOR_COMPLETE,
        events::EXECUTION_START,
        events::EXECUTION_END,
        events::USER_NOTIFICATION,
        events::ARTIFACT_WRITE,
        events::ARTIFACT_READ,
        events::POLICY_VIOLATION,
        events::APPROVAL_REQUIRED,
        events::APPROVAL_GRANTED,
        events::APPROVAL_DENIED,
        events::CANCEL_REQUESTED,
        events::CANCEL_COMPLETED,
    ];
    for event in expected.iter() {
        assert!(all.contains(event), "catalogue missing: {}", event);
    }
}

#[test]
fn all_events_has_no_duplicates() {
    let all = all_events();
    let mut seen: Vec<&str> = Vec::new();
    for event in all.iter() {
        assert!(!seen.contains(event), "duplicate in catalogue: {}", event);
        seen.push(event);
    }
}

#[test]
fn all_event_values_follow_namespace_pattern() {
    for event in all_events().iter() {
        assert!(event.contains(':'), "event {} does not follow the namespace pattern", event);
    }
}
