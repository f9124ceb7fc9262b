use amplifier_core::DataMap;
use amplifier_core::DataValue;
use amplifier_core::HookAction;
use amplifier_core::Role;
use amplifier_core::SessionState;

#[test]
fn crate_compiles() {
    assert!(true);
}

#[test]
fn reexports_available_at_crate_root() {
    let _ = amplifier_core::HookResult::default();
    let _ = amplifier_core::ToolResult::default();
    let _ = HookAction::Continue;
    let _ = Role::User;
    let _ = SessionState::Running;
    let _ = amplifier_core::events::SESSION_START;
    let _ = amplifier_core::CancellationToken::new();
}

#[test]
fn data_map_insert_replaces_existing_key() {
    let mut m = DataMap::new();
    m.insert("k".to_string(), DataValue::Int(1));
    m.insert("k".to_string(), DataValue::Int(2));
    assert_eq!(m.len(), 1);
    assert!(matches!(m.get("k"), Some(DataValue::Int(2))));
}

#[test]
fn data_map_merged_prefers_overlay() {
    let mut base = DataMap::new();
    base.insert("a".to_string(), DataValue::Int(1));
    base.insert("b".to_string(), DataValue::Int(2));
    let mut overlay = DataMap::new();
    overlay.insert("b".to_string(), DataValue::Int(20));
    overlay.insert("c".to_string(), DataValue::Int(30));

    let merged = base.merged(&overlay);
    assert!(matches!(merged.get("a"), Some(DataValue::Int(1))));
    assert!(matches!(merged.get("b"), Some(DataValue::Int(20))));
    assert!(matches!(merged.get("c"), Some(DataValue::Int(30))));
}

#[test]
fn data_map_remove_entry_is_noop_when_absent() {
    let mut m = DataMap::new();
    m.insert("a".to_string(), DataValue::Int(1));
    m.remove_entry("zzz");
    assert_eq!(m.len(), 1);
}
