use amplifier_core::ApprovalProvider;
use amplifier_core::ApprovalRequest;
use amplifier_core::Coordinator;
use amplifier_core::FakeApprovalProvider;
use amplifier_core::DataMap;
use amplifier_core::DataValue;
use amplifier_core::FakeCleanupTask;
use amplifier_core::FakeContextManager;
use amplifier_core::FakeContributor;
use amplifier_core::FakeHookHandler;
use amplifier_core::FakeOrchestrator;
use amplifier_core::FakeProvider;
use amplifier_core::FakeTool;
use amplifier_core::HookAction;
use amplifier_core::Provider;
use amplifier_core::Tool;

type TestCoordinator = Coordinator<
    FakeHookHandler,
    FakeOrchestrator,
    FakeContextManager,
    FakeProvider,
    FakeTool,
    FakeCleanupTask,
    FakeContributor,
>;

fn coordinator() -> TestCoordinator {
    Coordinator::new(DataMap::new())
}

#[test]
fn mount_and_get_tool() {
    let mut coord = coordinator();
    coord.mount_tool("echo", FakeTool::new("echo", "echoes"));
    let retrieved = coord.get_tool("echo").unwrap();
    assert_eq!(retrieved.name(), "echo");
}

#[test]
fn get_tool_returns_none_when_missing() {
    let coord = coordinator();
    assert!(coord.get_tool("nonexistent").is_none());
}

#[test]
fn get_all_tools_returns_correct_map() {
    let mut coord = coordinator();
    coord.mount_tool("echo", FakeTool::new("echo", "echoes"));
    coord.mount_tool("bash", FakeTool::new("bash", "runs bash"));

    let all = coord.tools();
    assert_eq!(all.len(), 2);
    assert!(all.get("echo").is_some());
    assert!(all.get("bash").is_some());
}

#[test]
fn unmount_removes_tool() {
    let mut coord = coordinator();
    coord.mount_tool("echo", FakeTool::new("echo", "echoes"));
    assert!(coord.get_tool("echo").is_some());

    assert!(coord.unmount_tool("echo"));
    assert!(coord.get_tool("echo").is_none());
}

#[test]
fn unmount_nonexistent_returns_false() {
    let mut coord = coordinator();
    assert!(!coord.unmount_tool("nonexistent"));
    assert!(!coord.unmount_provider("nonexistent"));
}

#[test]
fn tools_empty_initially() {
    let coord = coordinator();
    assert!(coord.tools().is_empty());
}

#[test]
fn mount_and_get_provider() {
    let mut coord = coordinator();
    coord.mount_provider("test", FakeProvider::new("test", "hi"));
    let retrieved = coord.get_provider("test").unwrap();
    assert_eq!(retrieved.name(), "test");
}

#[test]
fn get_all_providers() {
    let mut coord = coordinator();
    coord.mount_provider("openai", FakeProvider::new("openai", "hi"));
    coord.mount_provider("anthropic", FakeProvider::new("anthropic", "hello"));
    assert_eq!(coord.providers().len(), 2);
}

#[test]
fn unmount_provider() {
    let mut coord = coordinator();
    coord.mount_provider("test", FakeProvider::new("test", "hi"));
    assert!(coord.unmount_provider("test"));
    assert!(coord.get_provider("test").is_none());
}

#[test]
fn mounting_same_name_replaces() {
    let mut coord = coordinator();
    coord.mount_provider("p", FakeProvider::new("first", "a"));
    coord.mount_provider("p", FakeProvider::new("second", "b"));
    assert_eq!(coord.providers().len(), 1);
    assert_eq!(coord.get_provider("p").unwrap().name(), "second");
}

#[test]
fn orchestrator_none_initially() {
    let coord = coordinator();
    assert!(coord.orchestrator().is_none());
}

#[test]
fn set_and_get_orchestrator() {
    let mut coord = coordinator();
    coord.set_orchestrator(FakeOrchestrator::new("ok"));
    assert!(coord.orchestrator().is_some());
}

#[test]
fn context_none_initially() {
    let coord = coordinator();
    assert!(coord.context().is_none());
}

#[test]
fn set_and_get_context() {
    let mut coord = coordinator();
    coord.set_context(FakeContextManager::new());
    assert!(coord.context().is_some());
}

#[test]
fn config_access() {
    let mut session_section = DataMap::new();
    session_section.insert("orchestrator".to_string(), DataValue::Str("loop-basic".to_string()));
    let mut config = DataMap::new();
    config.insert("session".to_string(), DataValue::Obj(session_section));
    let coord: TestCoordinator = Coordinator::new(config);
    match coord.config().get("session") {
        Some(DataValue::Obj(section)) => {
            assert!(
                matches!(section.get("orchestrator"), Some(DataValue::Str(s)) if s == "loop-basic")
            );
        },
        _ => panic!("session section must be a map"),
    }
}

#[test]
fn capability_registration_and_retrieval() {
    let mut coord = coordinator();
    coord.register_capability("feature-x", DataValue::Bool(true));
    assert!(matches!(coord.get_capability("feature-x"), Some(DataValue::Bool(true))));
}

#[test]
fn get_capability_returns_none_when_missing() {
    let coord = coordinator();
    assert!(coord.get_capability("nonexistent").is_none());
}

#[test]
fn contribution_channels() {
    let mut coord = coordinator();
    coord.register_contributor(
        "observability",
        "mod-a",
        FakeContributor::new(DataValue::Str("event1".to_string())),
    );
    coord.register_contributor(
        "observability",
        "mod-b",
        FakeContributor::new(DataValue::Str("event2".to_string())),
    );
    let results = coord.collect_contributions("observability");
    assert_eq!(results.len(), 2);
    assert!(matches!(&results[0], DataValue::Str(s) if s == "event1"));
    assert!(matches!(&results[1], DataValue::Str(s) if s == "event2"));
}

#[test]
fn contribution_empty_channel() {
    let mut coord = coordinator();
    let results = coord.collect_contributions("nonexistent");
    assert!(results.is_empty());
}

#[test]
fn contribution_error_skipped() {
    let mut coord = coordinator();
    coord.register_contributor("observability", "failing", FakeContributor::failing());
    coord.register_contributor(
        "observability",
        "succeeding",
        FakeContributor::new(DataValue::Str("ok".to_string())),
    );
    let results = coord.collect_contributions("observability");
    assert_eq!(results.len(), 1);
    assert!(matches!(&results[0], DataValue::Str(s) if s == "ok"));
}

#[test]
fn cleanup_runs_in_reverse_order() {
    let mut coord = coordinator();
    coord.register_cleanup(FakeCleanupTask::new(1));
    coord.register_cleanup(FakeCleanupTask::new(2));

    let spent = coord.cleanup();
    let order: Vec<u64> = spent.iter().map(|t| t.label).collect();
    assert_eq!(order, vec![2, 1]);
    assert!(spent.iter().all(|t| t.ran));
}

#[test]
fn cleanup_empties_the_stack() {
    let mut coord = coordinator();
    coord.register_cleanup(FakeCleanupTask::new(1));
    coord.cleanup();
    let again = coord.cleanup();
    assert!(again.is_empty());
}

#[test]
fn reset_turn_resets_injection_count() {
    let mut coord = coordinator();
    coord.increment_injections(10);
    assert_eq!(coord.current_turn_injections(), 10);
    coord.reset_turn();
    assert_eq!(coord.current_turn_injections(), 0);
}

#[test]
fn reset_turn_does_not_touch_cancellation() {
    let mut coord = coordinator();
    coord.request_cancel(false);
    coord.reset_turn();
    assert!(coord.cancellation().is_graceful());
}

#[test]
fn request_cancel_proxies_to_token() {
    let mut coord = coordinator();
    assert!(coord.request_cancel(false));
    assert!(coord.cancellation().is_graceful());
    assert!(coord.request_cancel(true));
    assert!(coord.cancellation().is_immediate());
    assert!(!coord.request_cancel(true));
}

#[test]
fn injection_budget_read_through() {
    let mut session_section = DataMap::new();
    session_section.insert("injection_budget_per_turn".to_string(), DataValue::Int(5));
    session_section.insert("injection_size_limit".to_string(), DataValue::Int(4096));
    let mut config = DataMap::new();
    config.insert("session".to_string(), DataValue::Obj(session_section));
    let coord: TestCoordinator = Coordinator::new(config);
    assert_eq!(coord.injection_budget_per_turn(), Some(5));
    assert_eq!(coord.injection_size_limit(), Some(4096));

    let bare = coordinator();
    assert_eq!(bare.injection_budget_per_turn(), None);
    assert_eq!(bare.injection_size_limit(), None);
}

#[test]
fn hooks_accessible() {
    let mut coord = coordinator();
    let result = coord.hooks_mut().emit("test:event", DataMap::new());
    assert_eq!(result.action, HookAction::Continue);
}

#[test]
fn cancellation_token_accessible() {
    let mut coord = coordinator();
    assert!(!coord.cancellation().is_cancelled());
    coord.cancellation_mut().request_graceful();
    assert!(coord.cancellation().is_graceful());
}

#[test]
fn approval_fakes_decide_as_configured() {
    let request = ApprovalRequest {
        action: "run bash".to_string(),
        risk_level: Some("high".to_string()),
        timeout_ms: Some(1_000),
        details: None,
    };
    let mut yes = FakeApprovalProvider::approving();
    let granted = yes.request_approval(request).unwrap();
    assert!(granted.approved);
    assert!(granted.reason.is_none());
    assert!(!granted.remember);

    let request = ApprovalRequest {
        action: "run bash".to_string(),
        risk_level: None,
        timeout_ms: None,
        details: None,
    };
    let mut no = FakeApprovalProvider::denying();
    let denied = no.request_approval(request).unwrap();
    assert!(!denied.approved);
}
