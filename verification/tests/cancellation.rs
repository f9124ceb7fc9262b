use amplifier_core::CancellationState;
use amplifier_core::CancellationToken;

#[test]
fn initial_state_is_none() {
    let token = CancellationToken::new();
    assert_eq!(token.state(), CancellationState::Idle);
    assert!(!token.is_cancelled());
    assert!(!token.is_graceful());
    assert!(!token.is_immediate());
}

#[test]
fn graceful_transitions_from_none() {
    let mut token = CancellationToken::new();
    assert!(token.request_graceful());
    assert_eq!(token.state(), CancellationState::Graceful);
    assert!(token.is_cancelled());
    assert!(token.is_graceful());
    assert!(!token.is_immediate());
}

#[test]
fn graceful_is_noop_when_already_graceful() {
    let mut token = CancellationToken::new();
    assert!(token.request_graceful());
    assert!(!token.request_graceful());
    assert_eq!(token.state(), CancellationState::Graceful);
}

#[test]
fn immediate_transitions_from_graceful() {
    let mut token = CancellationToken::new();
    token.request_graceful();
    assert!(token.request_immediate());
    assert_eq!(token.state(), CancellationState::Immediate);
    assert!(token.is_cancelled());
    assert!(token.is_immediate());
}

#[test]
fn immediate_transitions_from_none() {
    let mut token = CancellationToken::new();
    assert!(token.request_immediate());
    assert_eq!(token.state(), CancellationState::Immediate);
    assert!(token.is_cancelled());
    assert!(token.is_immediate());
}

#[test]
fn immediate_is_noop_when_already_immediate() {
    let mut token = CancellationToken::new();
    token.request_immediate();
    assert!(!token.request_immediate());
}

#[test]
fn reset_returns_to_none() {
    let mut token = CancellationToken::new();
    token.request_graceful();
    token.reset();
    assert_eq!(token.state(), CancellationState::Idle);
    assert!(!token.is_cancelled());
}

#[test]
fn reset_clears_running_tools() {
    let mut token = CancellationToken::new();
    token.register_tool_start("tc_1", "bash");
    assert!(!token.running_tools().is_empty());
    token.reset();
    assert!(token.running_tools().is_empty());
    assert!(token.running_tool_names().is_empty());
}

#[test]
fn tool_tracking() {
    let mut token = CancellationToken::new();
    token.register_tool_start("tc_1", "bash");
    assert!(token.running_tools().contains(&"tc_1".to_string()));
    assert!(token.running_tool_names().contains(&"bash".to_string()));

    token.register_tool_complete("tc_1");
    assert!(token.running_tools().is_empty());
    assert!(token.running_tool_names().is_empty());
}

#[test]
fn complete_unknown_tool_is_noop() {
    let mut token = CancellationToken::new();
    token.register_tool_complete("nonexistent");
}

#[test]
fn child_propagation_graceful() {
    let mut parent = CancellationToken::new();
    let child = CancellationToken::new();
    parent.register_child(child);

    parent.request_graceful();
    let child = parent.unregister_child(0).unwrap();
    assert!(child.is_graceful());
}

#[test]
fn child_propagation_immediate() {
    let mut parent = CancellationToken::new();
    let child = CancellationToken::new();
    parent.register_child(child);

    parent.request_immediate();
    let child = parent.unregister_child(0).unwrap();
    assert!(child.is_immediate());
}

#[test]
fn child_inherits_current_state_on_register() {
    let mut parent = CancellationToken::new();
    parent.request_graceful();

    let child = CancellationToken::new();
    parent.register_child(child);
    let child = parent.unregister_child(0).unwrap();
    assert!(child.is_graceful());
}

#[test]
fn unregister_child_stops_propagation() {
    let mut parent = CancellationToken::new();
    let child = CancellationToken::new();
    parent.register_child(child);
    let child = parent.unregister_child(0).unwrap();

    parent.request_graceful();
    assert!(!child.is_cancelled());
}

#[test]
fn parent_child_cancellation_propagation_scenario() {
    let mut parent = CancellationToken::new();
    let child = CancellationToken::new();
    parent.register_child(child);
    parent.request_graceful();
    let child = parent.unregister_child(0).unwrap();
    assert!(child.is_graceful());

    parent.request_immediate();
    assert!(child.is_graceful());
    assert!(!child.is_immediate());
}

#[test]
fn grandchildren_inherit_cancellation() {
    let mut parent = CancellationToken::new();
    let mut middle = CancellationToken::new();
    let leaf = CancellationToken::new();
    middle.register_child(leaf);
    parent.register_child(middle);

    parent.request_immediate();
    let mut middle = parent.unregister_child(0).unwrap();
    assert!(middle.is_immediate());
    let leaf = middle.unregister_child(0).unwrap();
    assert!(leaf.is_immediate());
}

#[test]
fn callbacks_are_kept_in_order() {
    let mut token = CancellationToken::new();
    token.on_cancel(7);
    token.on_cancel(9);
    token.request_graceful();
    assert_eq!(token.cancel_callbacks(), vec![7, 9]);
    token.reset();
    assert_eq!(token.cancel_callbacks(), vec![7, 9]);
}

#[test]
fn tool_start_replaces_display_name() {
    let mut token = CancellationToken::new();
    token.register_tool_start("tc_1", "bash");
    token.register_tool_start("tc_1", "python");
    assert_eq!(token.running_tools().len(), 1);
    assert_eq!(token.running_tool_names(), vec!["python".to_string()]);
}
