use amplifier_core::AmplifierError;
use amplifier_core::DataMap;
use amplifier_core::DataValue;
use amplifier_core::FakeCleanupTask;
use amplifier_core::FakeContextManager;
use amplifier_core::FakeContributor;
use amplifier_core::FakeHookHandler;
use amplifier_core::FakeOrchestrator;
use amplifier_core::FakeProvider;
use amplifier_core::FakeTool;
use amplifier_core::Session;
use amplifier_core::SessionConfig;
use amplifier_core::SessionError;
use amplifier_core::SessionState;

type TestSession = Session<
    FakeHookHandler,
    FakeOrchestrator,
    FakeContextManager,
    FakeProvider,
    FakeTool,
    FakeCleanupTask,
    FakeContributor,
>;

fn minimal() -> SessionConfig {
    SessionConfig::minimal("loop-basic", "context-simple")
}

fn ready_session() -> TestSession {
    let mut session: TestSession = Session::new(minimal(), None, None);
    session.coordinator_mut().set_orchestrator(FakeOrchestrator::new("orchestrated response"));
    session.coordinator_mut().set_context(FakeContextManager::new());
    session.coordinator_mut().mount_provider("test", FakeProvider::new("test", "hi"));
    session.set_initialized();
    session
}

#[test]
fn session_config_requires_orchestrator() {
    let mut section = DataMap::new();
    section.insert("context".to_string(), DataValue::Str("context-simple".to_string()));
    let mut config = DataMap::new();
    config.insert("session".to_string(), DataValue::Obj(section));
    let err = SessionConfig::from_value(DataValue::Obj(config)).unwrap_err();
    assert!(err.message().contains("orchestrator"));
}

#[test]
fn session_config_requires_context() {
    let mut section = DataMap::new();
    section.insert("orchestrator".to_string(), DataValue::Str("loop-basic".to_string()));
    let mut config = DataMap::new();
    config.insert("session".to_string(), DataValue::Obj(section));
    let err = SessionConfig::from_value(DataValue::Obj(config)).unwrap_err();
    assert!(err.message().contains("context"));
}

#[test]
fn session_config_rejects_empty_orchestrator_name() {
    let mut section = DataMap::new();
    section.insert("orchestrator".to_string(), DataValue::Str(String::new()));
    section.insert("context".to_string(), DataValue::Str("context-simple".to_string()));
    let mut config = DataMap::new();
    config.insert("session".to_string(), DataValue::Obj(section));
    let err = SessionConfig::from_value(DataValue::Obj(config)).unwrap_err();
    assert!(matches!(err, SessionError::ConfigMissing { .. }));
}

#[test]
fn session_config_rejects_non_map_value() {
    let err = SessionConfig::from_value(DataValue::Int(3)).unwrap_err();
    assert!(matches!(err, SessionError::ConfigMissing { .. }));
}

#[test]
fn session_config_valid() {
    let mut section = DataMap::new();
    section.insert("orchestrator".to_string(), DataValue::Str("loop-basic".to_string()));
    section.insert("context".to_string(), DataValue::Str("context-simple".to_string()));
    let mut config = DataMap::new();
    config.insert("session".to_string(), DataValue::Obj(section));
    assert!(SessionConfig::from_value(DataValue::Obj(config)).is_ok());
}

#[test]
fn session_generates_uuid_if_not_provided() {
    let session: TestSession = Session::new(minimal(), None, None);
    assert!(!session.session_id().is_empty());
    assert!(uuid::Uuid::parse_str(session.session_id()).is_ok());
}

#[test]
fn session_uses_provided_id() {
    let session: TestSession = Session::new(minimal(), Some("custom-id".to_string()), None);
    assert_eq!(session.session_id(), "custom-id");
}

#[test]
fn session_with_parent_id() {
    let session: TestSession = Session::new(minimal(), None, Some("parent-123".to_string()));
    assert_eq!(session.parent_id(), Some("parent-123"));
}

#[test]
fn session_without_parent_id() {
    let session: TestSession = Session::new(minimal(), None, None);
    assert_eq!(session.parent_id(), None);
}

#[test]
fn session_initial_status_is_running() {
    let session: TestSession = Session::new(minimal(), None, None);
    assert_eq!(session.status(), "running");
    assert_eq!(session.state(), SessionState::Running);
}

#[test]
fn session_not_initialized_by_default() {
    let session: TestSession = Session::new(minimal(), None, None);
    assert!(!session.is_initialized());
}

#[test]
fn execute_fails_when_not_initialized() {
    let mut session: TestSession = Session::new(minimal(), None, None);
    let result = session.execute("hello");
    match result {
        Err(AmplifierError::Session(SessionError::NotInitialized)) => {},
        _ => panic!("expected a not-initialized error"),
    }
}

#[test]
fn execute_fails_without_orchestrator() {
    let mut session: TestSession = Session::new(minimal(), None, None);
    session.coordinator_mut().set_context(FakeContextManager::new());
    session.coordinator_mut().mount_provider("test", FakeProvider::new("test", "hi"));
    session.set_initialized();

    let err = session.execute("hello").unwrap_err();
    assert!(err.message().contains("orchestrator"));
}

#[test]
fn execute_fails_without_context() {
    let mut session: TestSession = Session::new(minimal(), None, None);
    session.coordinator_mut().set_orchestrator(FakeOrchestrator::new("ok"));
    session.coordinator_mut().mount_provider("test", FakeProvider::new("test", "hi"));
    session.set_initialized();

    let err = session.execute("hello").unwrap_err();
    assert!(err.message().contains("context"));
}

#[test]
fn execute_fails_without_providers() {
    let mut session: TestSession = Session::new(minimal(), None, None);
    session.coordinator_mut().set_orchestrator(FakeOrchestrator::new("ok"));
    session.coordinator_mut().set_context(FakeContextManager::new());
    session.set_initialized();

    let err = session.execute("hello").unwrap_err();
    assert!(err.message().contains("providers"));
}

#[test]
fn execute_delegates_to_orchestrator() {
    let mut session = ready_session();
    let result = session.execute("hello").unwrap();
    assert_eq!(result, "orchestrated response");
    assert_eq!(session.status(), "completed");
}

#[test]
fn status_transitions_to_completed_on_success() {
    let mut session = ready_session();
    let _ = session.execute("hello");
    assert_eq!(session.state(), SessionState::Completed);
}

#[test]
fn status_transitions_to_cancelled_when_cancelled() {
    let mut session = ready_session();
    session.coordinator_mut().request_cancel(false);
    let _ = session.execute("hello");
    assert_eq!(session.state(), SessionState::Cancelled);
}

#[test]
fn execute_emits_session_start_event() {
    let mut session = ready_session();
    session.coordinator_mut().hooks_mut().register(
        "session:start",
        FakeHookHandler::new(),
        0,
        Some("test-handler".to_string()),
    );
    let _ = session.execute("hello");
    let handler = session.coordinator().hooks().handler_at("session:start", 0).unwrap();
    assert_eq!(handler.call_count(), 1);
    let (event, payload) = &handler.recorded_events()[0];
    assert_eq!(event, "session:start");
    assert!(matches!(payload.get("session_id"), Some(DataValue::Str(_))));
}

#[test]
fn execute_emits_session_resume_for_resumed_session() {
    let mut session: TestSession =
        Session::new_resumed(minimal(), "resumed-id".to_string(), None);
    session.coordinator_mut().set_orchestrator(FakeOrchestrator::new("ok"));
    session.coordinator_mut().set_context(FakeContextManager::new());
    session.coordinator_mut().mount_provider("test", FakeProvider::new("test", "hi"));
    session.coordinator_mut().hooks_mut().register(
        "session:resume",
        FakeHookHandler::new(),
        0,
        Some("test-handler".to_string()),
    );
    session.set_initialized();
    let _ = session.execute("hello");
    let handler = session.coordinator().hooks().handler_at("session:resume", 0).unwrap();
    assert_eq!(handler.call_count(), 1);
}

#[test]
fn execute_emits_cancel_completed_when_cancelled() {
    let mut session = ready_session();
    session.coordinator_mut().hooks_mut().register(
        "cancel:completed",
        FakeHookHandler::new(),
        0,
        Some("cancel-watcher".to_string()),
    );
    session.coordinator_mut().request_cancel(true);
    let _ = session.execute("hello");
    let handler = session.coordinator().hooks().handler_at("cancel:completed", 0).unwrap();
    assert_eq!(handler.call_count(), 1);
    let (_, payload) = &handler.recorded_events()[0];
    assert!(matches!(payload.get("was_immediate"), Some(DataValue::Bool(true))));
}

#[test]
fn cleanup_emits_session_end_event() {
    let mut session: TestSession = Session::new(minimal(), None, None);
    session.coordinator_mut().hooks_mut().register(
        "session:end",
        FakeHookHandler::new(),
        0,
        Some("test-handler".to_string()),
    );
    session.cleanup();
    let handler = session.coordinator().hooks().handler_at("session:end", 0).unwrap();
    assert_eq!(handler.call_count(), 1);
    let (_, payload) = &handler.recorded_events()[0];
    assert!(matches!(payload.get("status"), Some(DataValue::Str(s)) if s == "running"));
}

#[test]
fn cleanup_clears_initialized_and_drains_stack() {
    let mut session = ready_session();
    session.coordinator_mut().register_cleanup(FakeCleanupTask::new(1));
    session.cleanup();
    assert!(!session.is_initialized());
}

#[test]
fn session_full_lifecycle() {
    let mut session = ready_session();
    session.coordinator_mut().hooks_mut().register(
        "session:start",
        FakeHookHandler::new(),
        0,
        Some("start-watcher".to_string()),
    );
    session.coordinator_mut().hooks_mut().register(
        "session:end",
        FakeHookHandler::new(),
        0,
        Some("end-watcher".to_string()),
    );

    let result = session.execute("hello").unwrap();
    assert_eq!(result, "orchestrated response");
    assert_eq!(session.status(), "completed");

    session.cleanup();
    assert!(!session.is_initialized());

    let start = session.coordinator().hooks().handler_at("session:start", 0).unwrap();
    assert_eq!(start.call_count(), 1);
    let end = session.coordinator().hooks().handler_at("session:end", 0).unwrap();
    assert_eq!(end.call_count(), 1);
}

#[test]
fn coordinator_is_accessible() {
    let mut session: TestSession = Session::new(minimal(), None, None);
    session.coordinator_mut().mount_tool("echo", FakeTool::new("echo", "echoes"));
    let tools = session.coordinator().tools();
    assert_eq!(tools.len(), 1);
    assert!(tools.get("echo").is_some());
}

#[test]
fn initialized_flag_is_monotonic_until_cleanup() {
    let mut session: TestSession = Session::new(minimal(), None, None);
    assert!(!session.is_initialized());
    session.set_initialized();
    assert!(session.is_initialized());
    session.set_initialized();
    assert!(session.is_initialized());
    session.cleanup();
    assert!(!session.is_initialized());
}
