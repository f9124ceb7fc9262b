use amplifier_core::DataMap;
use amplifier_core::DataValue;
use amplifier_core::FakeHookHandler;
use amplifier_core::HookAction;
use amplifier_core::HookRegistry;
use amplifier_core::HookResult;
use amplifier_core::ContextInjectionRole;

type Registry = HookRegistry<FakeHookHandler>;

fn text(s: &str) -> DataValue {
    DataValue::Str(s.to_string())
}

fn handler_count(registry: &Registry, event: &str, index: usize) -> usize {
    registry.handler_at(event, index).unwrap().call_count()
}

#[test]
fn emit_with_no_handlers_returns_continue() {
    let mut registry = Registry::new();
    let result = registry.emit("test:event", DataMap::new());
    assert_eq!(result.action, HookAction::Continue);
}

#[test]
fn emit_with_zero_handlers_merges_defaults_under_payload() {
    let mut registry = Registry::new();
    let mut defaults = DataMap::new();
    defaults.insert("session_id".to_string(), text("s-1"));
    defaults.insert("key".to_string(), text("default"));
    registry.set_default_fields(defaults);

    let mut payload = DataMap::new();
    payload.insert("key".to_string(), text("override"));
    let result = registry.emit("test:event", payload);

    assert_eq!(result.action, HookAction::Continue);
    let data = result.data.unwrap();
    assert!(matches!(data.get("session_id"), Some(DataValue::Str(s)) if s == "s-1"));
    assert!(matches!(data.get("key"), Some(DataValue::Str(s)) if s == "override"));
    assert!(data.get("timestamp").is_none());
}

#[test]
fn register_and_emit() {
    let mut registry = Registry::new();
    registry.register(
        "test:event",
        FakeHookHandler::new(),
        0,
        Some("test-handler".to_string()),
    );
    let result = registry.emit("test:event", DataMap::new());
    assert_eq!(result.action, HookAction::Continue);
}

#[test]
fn priority_ordering() {
    let mut registry = Registry::new();
    registry.register("test:event", FakeHookHandler::new(), 10, Some("low-priority".to_string()));
    registry.register("test:event", FakeHookHandler::new(), 5, Some("high-priority".to_string()));

    let listed = registry.list_handlers(Some("test:event"));
    assert_eq!(listed.len(), 1);
    let names = &listed[0].1;
    assert_eq!(names[0], "high-priority");
    assert_eq!(names[1], "low-priority");

    registry.emit("test:event", DataMap::new());
    assert_eq!(handler_count(&registry, "test:event", 0), 1);
    assert_eq!(handler_count(&registry, "test:event", 1), 1);
}

#[test]
fn deny_short_circuits() {
    let mut registry = Registry::new();
    registry.register("tool:pre", FakeHookHandler::new(), 0, Some("first".to_string()));
    let mut deny = HookResult::default();
    deny.action = HookAction::Deny;
    deny.reason = Some("blocked".to_string());
    registry.register("tool:pre", FakeHookHandler::with_result(deny), 5, Some("denier".to_string()));
    registry.register("tool:pre", FakeHookHandler::new(), 10, Some("after-deny".to_string()));

    let result = registry.emit("tool:pre", DataMap::new());
    assert_eq!(result.action, HookAction::Deny);
    assert_eq!(result.reason.as_deref(), Some("blocked"));
    assert_eq!(handler_count(&registry, "tool:pre", 0), 1);
    assert_eq!(handler_count(&registry, "tool:pre", 2), 0);
}

#[test]
fn modify_chains_through_handlers() {
    let mut registry = Registry::new();
    registry.register("x", FakeHookHandler::inserting("first", text("1")), 0, None);
    registry.register("x", FakeHookHandler::inserting("second", text("2")), 10, None);

    let mut payload = DataMap::new();
    payload.insert("original".to_string(), DataValue::Bool(true));
    let result = registry.emit("x", payload);

    assert_eq!(result.action, HookAction::Continue);
    let data = result.data.unwrap();
    assert!(matches!(data.get("original"), Some(DataValue::Bool(true))));
    assert!(matches!(data.get("first"), Some(DataValue::Str(s)) if s == "1"));
    assert!(matches!(data.get("second"), Some(DataValue::Str(s)) if s == "2"));
    assert!(matches!(data.get("timestamp"), Some(DataValue::Str(_))));
}

#[test]
fn inject_context_merges_multiple() {
    let mut registry = Registry::new();
    let mut first = HookResult::default();
    first.action = HookAction::InjectContext;
    first.context_injection = Some("first".to_string());
    first.context_injection_role = ContextInjectionRole::User;
    let mut second = HookResult::default();
    second.action = HookAction::InjectContext;
    second.context_injection = Some("second".to_string());

    registry.register("x", FakeHookHandler::with_result(first), 0, None);
    registry.register("x", FakeHookHandler::with_result(second), 10, None);

    let result = registry.emit("x", DataMap::new());
    assert_eq!(result.action, HookAction::InjectContext);
    assert_eq!(result.context_injection.as_deref(), Some("first\n\nsecond"));
    assert_eq!(result.context_injection_role, ContextInjectionRole::User);
}

#[test]
fn ask_user_takes_precedence_over_inject_context() {
    let mut registry = Registry::new();
    let mut inject = HookResult::default();
    inject.action = HookAction::InjectContext;
    inject.context_injection = Some("injected".to_string());
    let mut ask = HookResult::default();
    ask.action = HookAction::AskUser;
    ask.approval_prompt = Some("approve?".to_string());

    registry.register("test:event", FakeHookHandler::with_result(inject), 0, None);
    registry.register("test:event", FakeHookHandler::with_result(ask), 10, None);

    let result = registry.emit("test:event", DataMap::new());
    assert_eq!(result.action, HookAction::AskUser);
    assert_eq!(result.approval_prompt.as_deref(), Some("approve?"));
}

#[test]
fn handler_error_continues_to_next() {
    let mut registry = Registry::new();
    registry.register("test:event", FakeHookHandler::failing(), 0, None);
    registry.register("test:event", FakeHookHandler::new(), 10, None);

    let result = registry.emit("test:event", DataMap::new());
    assert_eq!(result.action, HookAction::Continue);
    assert_eq!(handler_count(&registry, "test:event", 1), 1);
}

#[test]
fn unregister_removes_handler() {
    let mut registry = Registry::new();
    let id = registry.register("test:event", FakeHookHandler::new(), 0, None);

    registry.emit("test:event", DataMap::new());
    assert_eq!(handler_count(&registry, "test:event", 0), 1);

    registry.unregister("test:event", id);
    registry.emit("test:event", DataMap::new());
    assert!(registry.handler_at("test:event", 0).is_none());
}

#[test]
fn unregister_twice_is_noop() {
    let mut registry = Registry::new();
    let id = registry.register("a", FakeHookHandler::new(), 0, Some("once".to_string()));
    registry.register("a", FakeHookHandler::new(), 5, Some("stays".to_string()));
    registry.unregister("a", id);
    registry.unregister("a", id);
    let listed = registry.list_handlers(Some("a"));
    assert_eq!(listed[0].1, vec!["stays".to_string()]);
}

#[test]
fn default_fields_merged_into_events() {
    let mut registry = Registry::new();
    let mut defaults = DataMap::new();
    defaults.insert("session_id".to_string(), text("test-123"));
    registry.set_default_fields(defaults);

    registry.register("test:event", FakeHookHandler::new(), 0, None);
    let mut payload = DataMap::new();
    payload.insert("custom".to_string(), DataValue::Bool(true));
    registry.emit("test:event", payload);

    let handler = registry.handler_at("test:event", 0).unwrap();
    let (_, seen) = &handler.recorded_events()[0];
    assert!(matches!(seen.get("session_id"), Some(DataValue::Str(s)) if s == "test-123"));
    assert!(matches!(seen.get("custom"), Some(DataValue::Bool(true))));
}

#[test]
fn event_data_overrides_defaults() {
    let mut registry = Registry::new();
    let mut defaults = DataMap::new();
    defaults.insert("key".to_string(), text("default"));
    registry.set_default_fields(defaults);

    registry.register("test:event", FakeHookHandler::new(), 0, None);
    let mut payload = DataMap::new();
    payload.insert("key".to_string(), text("override"));
    registry.emit("test:event", payload);

    let handler = registry.handler_at("test:event", 0).unwrap();
    let (_, seen) = &handler.recorded_events()[0];
    assert!(matches!(seen.get("key"), Some(DataValue::Str(s)) if s == "override"));
}

#[test]
fn emit_stamps_timestamp() {
    let mut registry = Registry::new();
    registry.register("test:event", FakeHookHandler::new(), 0, None);

    let mut payload = DataMap::new();
    payload.insert("key".to_string(), text("value"));
    registry.emit("test:event", payload);

    let handler = registry.handler_at("test:event", 0).unwrap();
    let (_, seen) = &handler.recorded_events()[0];
    match seen.get("timestamp") {
        Some(DataValue::Str(ts)) => {
            chrono::DateTime::parse_from_rfc3339(ts).expect("timestamp must be RFC 3339");
        },
        _ => panic!("timestamp must be a string"),
    }
}

#[test]
fn emit_timestamp_is_infrastructure_owned() {
    let mut registry = Registry::new();
    registry.register("test:event", FakeHookHandler::new(), 0, None);

    let mut payload = DataMap::new();
    payload.insert("timestamp".to_string(), text("user-provided"));
    registry.emit("test:event", payload);

    let handler = registry.handler_at("test:event", 0).unwrap();
    let (_, seen) = &handler.recorded_events()[0];
    match seen.get("timestamp") {
        Some(DataValue::Str(ts)) => {
            assert_ne!(ts, "user-provided");
            chrono::DateTime::parse_from_rfc3339(ts).expect("timestamp must be RFC 3339");
        },
        _ => panic!("timestamp must be a string"),
    }
}

#[test]
fn emit_and_collect_gathers_data() {
    let mut registry = Registry::new();
    let mut r1 = HookResult::default();
    let mut d1 = DataMap::new();
    d1.insert("result".to_string(), text("result-1"));
    r1.data = Some(d1);
    let mut r2 = HookResult::default();
    let mut d2 = DataMap::new();
    d2.insert("result".to_string(), text("result-2"));
    r2.data = Some(d2);

    registry.register("test:event", FakeHookHandler::with_result(r1), 0, None);
    registry.register("test:event", FakeHookHandler::with_result(r2), 10, None);

    let results = registry.emit_and_collect("test:event", DataMap::new());
    assert_eq!(results.len(), 2);
    assert!(matches!(results[0].get("result"), Some(DataValue::Str(s)) if s == "result-1"));
    assert!(matches!(results[1].get("result"), Some(DataValue::Str(s)) if s == "result-2"));
}

#[test]
fn emit_and_collect_empty_with_no_handlers() {
    let mut registry = Registry::new();
    let results = registry.emit_and_collect("test:event", DataMap::new());
    assert!(results.is_empty());
}

#[test]
fn emit_and_collect_does_not_stamp_timestamp() {
    let mut registry = Registry::new();
    registry.register("test:event", FakeHookHandler::new(), 0, None);

    let mut payload = DataMap::new();
    payload.insert("key".to_string(), text("value"));
    registry.emit_and_collect("test:event", payload);

    let handler = registry.handler_at("test:event", 0).unwrap();
    let (_, seen) = &handler.recorded_events()[0];
    assert!(seen.get("timestamp").is_none());
}

#[test]
fn emit_and_collect_skips_failing_handlers() {
    let mut registry = Registry::new();
    let mut r = HookResult::default();
    let mut d = DataMap::new();
    d.insert("result".to_string(), text("ok"));
    r.data = Some(d);
    registry.register("e", FakeHookHandler::failing(), 0, None);
    registry.register("e", FakeHookHandler::with_result(r), 10, None);

    let results = registry.emit_and_collect("e", DataMap::new());
    assert_eq!(results.len(), 1);
}

#[test]
fn list_handlers_returns_names() {
    let mut registry = Registry::new();
    registry.register("tool:pre", FakeHookHandler::new(), 0, Some("my-hook".to_string()));
    registry.register("tool:post", FakeHookHandler::new(), 0, Some("other-hook".to_string()));

    let listed = registry.list_handlers(None);
    assert_eq!(listed.len(), 2);
    let pre = listed.iter().find(|(e, _)| e == "tool:pre").unwrap();
    assert!(pre.1.contains(&"my-hook".to_string()));
    assert!(listed.iter().any(|(e, _)| e == "tool:post"));
}

#[test]
fn list_handlers_filters_by_event() {
    let mut registry = Registry::new();
    registry.register("tool:pre", FakeHookHandler::new(), 0, Some("my-hook".to_string()));
    registry.register("tool:post", FakeHookHandler::new(), 0, Some("other-hook".to_string()));

    let listed = registry.list_handlers(Some("tool:pre"));
    assert_eq!(listed.len(), 1);
    assert_eq!(listed[0].0, "tool:pre");
    assert_eq!(listed[0].1, vec!["my-hook".to_string()]);
}

#[test]
fn handlers_only_called_for_registered_event() {
    let mut registry = Registry::new();
    registry.register("tool:pre", FakeHookHandler::new(), 0, None);

    registry.emit("tool:post", DataMap::new());
    assert_eq!(handler_count(&registry, "tool:pre", 0), 0);

    registry.emit("tool:pre", DataMap::new());
    assert_eq!(handler_count(&registry, "tool:pre", 0), 1);
}

#[test]
fn synthesised_handler_names_are_unique() {
    let mut registry = Registry::new();
    let a = registry.register("e", FakeHookHandler::new(), 0, None);
    let b = registry.register("e", FakeHookHandler::new(), 0, None);
    assert_ne!(a, b);
    let listed = registry.list_handlers(Some("e"));
    assert_eq!(listed[0].1.len(), 2);
    assert_ne!(listed[0].1[0], listed[0].1[1]);
}

#[test]
fn event_names_round_trip_through_registry() {
    let mut registry = Registry::new();
    for event in amplifier_core::all_events() {
        registry.register(event, FakeHookHandler::new(), 0, Some(format!("h-{}", event)));
    }
    for event in amplifier_core::all_events() {
        let listed = registry.list_handlers(Some(event));
        assert_eq!(listed[0].0, *event);
        assert_eq!(listed[0].1, vec![format!("h-{}", event)]);
    }
}

#[test]
fn synthesised_names_use_the_registration_id() {
    let mut registry = Registry::new();
    registry.register("e", FakeHookHandler::new(), 0, None);
    registry.register("e", FakeHookHandler::new(), 0, None);
    let listed = registry.list_handlers(Some("e"));
    assert_eq!(listed[0].1, vec!["handler-0".to_string(), "handler-1".to_string()]);
}

#[test]
fn equal_priorities_keep_registration_order() {
    let mut registry = Registry::new();
    registry.register("e", FakeHookHandler::new(), 5, Some("first".to_string()));
    registry.register("e", FakeHookHandler::new(), 5, Some("second".to_string()));
    registry.register("e", FakeHookHandler::new(), 1, Some("early".to_string()));
    let listed = registry.list_handlers(Some("e"));
    assert_eq!(
        listed[0].1,
        vec!["early".to_string(), "first".to_string(), "second".to_string()]
    );
}
