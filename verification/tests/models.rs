use amplifier_core::ApprovalDefault;
use amplifier_core::ConfigField;
use amplifier_core::ConfigFieldType;
use amplifier_core::ContextInjectionRole;
use amplifier_core::DataMap;
use amplifier_core::DataValue;
use amplifier_core::HookAction;
use amplifier_core::HookResult;
use amplifier_core::ToolResult;
use amplifier_core::UserMessageLevel;

#[test]
fn config_field_type_default_is_text() {
    let field = ConfigField {
        id: "api_key".to_string(),
        display_name: "API Key".to_string(),
        field_type: ConfigFieldType::default(),
        prompt: "Enter your API key".to_string(),
        env_var: Some("API_KEY".to_string()),
        choices: None,
        required: true,
        default_value: None,
        show_when: None,
        requires_model: false,
    };
    assert_eq!(field.field_type, ConfigFieldType::Text);
    assert!(field.required);
}

#[test]
fn hook_result_default_is_continue() {
    let result = HookResult::default();
    assert_eq!(result.action, HookAction::Continue);
    assert!(result.data.is_none());
    assert!(result.reason.is_none());
    assert!(result.context_injection.is_none());
    assert_eq!(result.context_injection_role, ContextInjectionRole::System);
    assert!(!result.ephemeral);
    assert!(result.approval_prompt.is_none());
    assert!(result.approval_options.is_none());
    assert_eq!(result.approval_timeout_ms, 300_000);
    assert_eq!(result.approval_default, ApprovalDefault::Deny);
    assert!(!result.suppress_output);
    assert!(result.user_message.is_none());
    assert_eq!(result.user_message_level, UserMessageLevel::Info);
    assert!(result.user_message_source.is_none());
    assert!(!result.append_to_last_tool_result);
}

#[test]
fn tool_result_success_default() {
    let result = ToolResult::default();
    assert!(result.success);
    assert!(result.output.is_none());
    assert!(result.error.is_none());
}

fn sample_hook_result() -> HookResult {
    let mut extensions = DataMap::new();
    extensions.insert("custom_key".to_string(), DataValue::Str("custom_value".to_string()));
    extensions.insert("another".to_string(), DataValue::Int(42));
    let mut result = HookResult::default();
    result.action = HookAction::InjectContext;
    result.reason = Some("why".to_string());
    result.context_injection = Some("Linter error on line 42".to_string());
    result.context_injection_role = ContextInjectionRole::User;
    result.ephemeral = true;
    result.approval_prompt = Some("approve?".to_string());
    result.approval_options = Some(vec!["yes".to_string(), "no".to_string()]);
    result.approval_timeout_ms = 60_000;
    result.approval_default = ApprovalDefault::Allow;
    result.suppress_output = true;
    result.user_message = Some("Found issues".to_string());
    result.user_message_level = UserMessageLevel::Warning;
    result.user_message_source = Some("lint".to_string());
    result.append_to_last_tool_result = true;
    result.extensions = extensions;
    result
}

#[test]
fn hook_result_field_round_trip_preserves_everything() {
    let original = sample_hook_result();
    let reference = sample_hook_result();
    let fields = original.to_fields();
    let restored = HookResult::from_fields(fields).expect("encoded fields must decode");

    assert_eq!(restored.action, reference.action);
    assert_eq!(restored.reason, reference.reason);
    assert_eq!(restored.context_injection, reference.context_injection);
    assert_eq!(restored.context_injection_role, reference.context_injection_role);
    assert_eq!(restored.ephemeral, reference.ephemeral);
    assert_eq!(restored.approval_prompt, reference.approval_prompt);
    assert_eq!(restored.approval_options, reference.approval_options);
    assert_eq!(restored.approval_timeout_ms, reference.approval_timeout_ms);
    assert_eq!(restored.approval_default, reference.approval_default);
    assert_eq!(restored.suppress_output, reference.suppress_output);
    assert_eq!(restored.user_message, reference.user_message);
    assert_eq!(restored.user_message_level, reference.user_message_level);
    assert_eq!(restored.user_message_source, reference.user_message_source);
    assert_eq!(restored.append_to_last_tool_result, reference.append_to_last_tool_result);
    assert!(
        matches!(restored.extensions.get("custom_key"), Some(DataValue::Str(s)) if s == "custom_value")
    );
    assert!(matches!(restored.extensions.get("another"), Some(DataValue::Int(42))));
}

fn value_to_json(v: &DataValue) -> serde_json::Value {
    match v {
        DataValue::Null => serde_json::Value::Null,
        DataValue::Bool(b) => serde_json::Value::Bool(*b),
        DataValue::Int(i) => serde_json::Value::from(*i),
        DataValue::Str(s) => serde_json::Value::String(s.clone()),
        DataValue::List(items) => {
            serde_json::Value::Array(items.iter().map(value_to_json).collect())
        },
        DataValue::Obj(m) => map_to_json(m),
        DataValue::Raw(raw) => raw.clone(),
    }
}

fn map_to_json(m: &DataMap) -> serde_json::Value {
    let mut obj = serde_json::Map::new();
    for (key, value) in m.entries().iter() {
        obj.insert(key.clone(), value_to_json(value));
    }
    serde_json::Value::Object(obj)
}

fn json_to_value(v: serde_json::Value) -> DataValue {
    match v {
        serde_json::Value::Null => DataValue::Null,
        serde_json::Value::Bool(b) => DataValue::Bool(b),
        serde_json::Value::Number(n) => match n.as_i64() {
            Some(i) => DataValue::Int(i),
            None => DataValue::Raw(serde_json::Value::Number(n)),
        },
        serde_json::Value::String(s) => DataValue::Str(s),
        serde_json::Value::Array(items) => {
            DataValue::List(items.into_iter().map(json_to_value).collect())
        },
        serde_json::Value::Object(obj) => {
            let mut m = DataMap::new();
            for (key, value) in obj.into_iter() {
                m.insert(key, json_to_value(value));
            }
            DataValue::Obj(m)
        },
    }
}

#[test]
fn hook_result_serialisation_round_trip() {
    let original = sample_hook_result();
    let reference = sample_hook_result();

    let json_text = serde_json::to_string(&map_to_json(&original.to_fields())).unwrap();
    let parsed: serde_json::Value = serde_json::from_str(&json_text).unwrap();
    let fields = match json_to_value(parsed) {
        DataValue::Obj(m) => m,
        _ => panic!("serialised form must be a JSON object"),
    };
    let restored = HookResult::from_fields(fields).expect("round trip must decode");

    assert_eq!(restored.action, reference.action);
    assert_eq!(restored.context_injection, reference.context_injection);
    assert_eq!(restored.approval_options, reference.approval_options);
    assert_eq!(restored.approval_timeout_ms, reference.approval_timeout_ms);
    assert!(
        matches!(restored.extensions.get("custom_key"), Some(DataValue::Str(s)) if s == "custom_value")
    );
    assert!(matches!(restored.extensions.get("another"), Some(DataValue::Int(42))));
}

#[test]
fn hook_result_unknown_keys_survive_deserialisation() {
    let json_text = "{\"action\": \"continue\", \"custom_key\": \"custom_value\"}";
    let parsed: serde_json::Value = serde_json::from_str(json_text).unwrap();
    let fields = match json_to_value(parsed) {
        DataValue::Obj(m) => m,
        _ => panic!("must parse to an object"),
    };
    let result = HookResult::from_fields(fields).unwrap();
    assert_eq!(result.action, HookAction::Continue);
    assert!(
        matches!(result.extensions.get("custom_key"), Some(DataValue::Str(s)) if s == "custom_value")
    );
}

#[test]
fn hook_result_rejects_wrongly_shaped_fields() {
    let mut fields = DataMap::new();
    fields.insert("action".to_string(), DataValue::Str("bogus".to_string()));
    assert!(HookResult::from_fields(fields).is_none());

    let mut fields = DataMap::new();
    fields.insert("ephemeral".to_string(), DataValue::Str("yes".to_string()));
    assert!(HookResult::from_fields(fields).is_none());
}

#[test]
fn hook_action_wire_words() {
    let mut r = HookResult::default();
    r.action = HookAction::InjectContext;
    let fields = r.to_fields();
    assert!(matches!(fields.get("action"), Some(DataValue::Str(s)) if s == "inject_context"));
}
