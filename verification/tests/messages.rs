use amplifier_core::ChatRequest;
use amplifier_core::ChatResponse;
use amplifier_core::ContentBlock;
use amplifier_core::DataMap;
use amplifier_core::DataValue;
use amplifier_core::Degradation;
use amplifier_core::Message;
use amplifier_core::MessageContent;
use amplifier_core::ResponseFormat;
use amplifier_core::Role;
use amplifier_core::ToolCall;
use amplifier_core::ToolChoice;
use amplifier_core::Usage;

fn value_to_json(v: &DataValue) -> serde_json::Value {
    match v {
        DataValue::Null => serde_json::Value::Null,
        DataValue::Bool(b) => serde_json::Value::Bool(*b),
        DataValue::Int(i) => serde_json::Value::from(*i),
        DataValue::Str(s) => serde_json::Value::String(s.clone()),
        DataValue::List(items) => {
            serde_json::Value::Array(items.iter().map(value_to_json).collect())
        },
        DataValue::Obj(m) => map_to_json(m),
        DataValue::Raw(raw) => raw.clone(),
    }
}

fn map_to_json(m: &DataMap) -> serde_json::Value {
    let mut obj = serde_json::Map::new();
    for (key, value) in m.entries().iter() {
        obj.insert(key.clone(), value_to_json(value));
    }
    serde_json::Value::Object(obj)
}

fn json_to_value(v: serde_json::Value) -> DataValue {
    match v {
        serde_json::Value::Null => DataValue::Null,
        serde_json::Value::Bool(b) => DataValue::Bool(b),
        serde_json::Value::Number(n) => match n.as_i64() {
            Some(i) => DataValue::Int(i),
            None => DataValue::Raw(serde_json::Value::Number(n)),
        },
        serde_json::Value::String(s) => DataValue::Str(s),
        serde_json::Value::Array(items) => {
            DataValue::List(items.into_iter().map(json_to_value).collect())
        },
        serde_json::Value::Object(obj) => {
            let mut m = DataMap::new();
            for (key, value) in obj.into_iter() {
                m.insert(key, json_to_value(value));
            }
            DataValue::Obj(m)
        },
    }
}

fn sample_message() -> Message {
    let mut extensions = DataMap::new();
    extensions.insert("trace".to_string(), DataValue::Str("t-1".to_string()));
    Message {
        role: Role::User,
        content: MessageContent::Text("hello".to_string()),
        name: Some("alex".to_string()),
        tool_call_id: None,
        metadata: None,
        extensions,
    }
}

fn sample_request() -> ChatRequest {
    let mut extensions = DataMap::new();
    extensions.insert("custom_param".to_string(), DataValue::Str("custom_value".to_string()));
    let mut schema = DataMap::new();
    schema.insert("kind".to_string(), DataValue::Str("object".to_string()));
    ChatRequest {
        messages: vec![sample_message()],
        tools: None,
        response_format: Some(ResponseFormat::JsonSchema { schema, strict: Some(true) }),
        temperature: Some(DataValue::Raw(serde_json::Value::from(0.7))),
        top_p: None,
        max_output_tokens: Some(4096),
        conversation_id: Some("conv-1".to_string()),
        stream: Some(true),
        metadata: None,
        model: Some("m-1".to_string()),
        tool_choice: Some(ToolChoice::Keyword("auto".to_string())),
        stop: Some(vec!["END".to_string()]),
        reasoning_effort: None,
        timeout: None,
        extensions,
    }
}

fn sample_response() -> ChatResponse {
    let mut extensions = DataMap::new();
    extensions.insert("provider_extra".to_string(), DataValue::Int(9));
    let mut block_ext = DataMap::new();
    block_ext.insert("block_extra".to_string(), DataValue::Bool(true));
    let mut usage_ext = DataMap::new();
    usage_ext.insert("cache_creation_input_tokens".to_string(), DataValue::Int(25));
    let mut arguments = DataMap::new();
    arguments.insert("query".to_string(), DataValue::Str("weather".to_string()));
    ChatResponse {
        content: vec![ContentBlock::Text {
            text: "Hello!".to_string(),
            visibility: None,
            extensions: block_ext,
        }],
        tool_calls: Some(vec![ToolCall {
            id: "call-1".to_string(),
            name: "search".to_string(),
            arguments,
            extensions: DataMap::new(),
        }]),
        usage: Some(Usage {
            input_tokens: 100,
            output_tokens: 50,
            total_tokens: 150,
            reasoning_tokens: Some(20),
            cache_read_tokens: None,
            cache_write_tokens: None,
            extensions: usage_ext,
        }),
        degradation: Some(Degradation {
            requested: "m-big".to_string(),
            actual: "m-small".to_string(),
            reason: "model unavailable".to_string(),
            extensions: DataMap::new(),
        }),
        finish_reason: Some("stop".to_string()),
        metadata: None,
        extensions,
    }
}

#[test]
fn chat_request_round_trips_unknown_top_level_keys() {
    let original = sample_request();
    let json_text = serde_json::to_string(&map_to_json(&original.to_fields())).unwrap();
    let parsed: serde_json::Value = serde_json::from_str(&json_text).unwrap();
    let fields = match json_to_value(parsed) {
        DataValue::Obj(m) => m,
        _ => panic!("serialised request must be a JSON object"),
    };
    let restored = ChatRequest::from_fields(fields).expect("round trip must decode");

    assert!(
        matches!(restored.extensions.get("custom_param"), Some(DataValue::Str(s)) if s == "custom_value")
    );
    assert_eq!(restored.messages.len(), 1);
    assert_eq!(restored.messages[0].role, Role::User);
    assert!(matches!(&restored.messages[0].content, MessageContent::Text(s) if s == "hello"));
    assert!(
        matches!(restored.messages[0].extensions.get("trace"), Some(DataValue::Str(s)) if s == "t-1")
    );
    assert_eq!(restored.max_output_tokens, Some(4096));
    assert_eq!(restored.conversation_id.as_deref(), Some("conv-1"));
    assert_eq!(restored.stream, Some(true));
    assert_eq!(restored.model.as_deref(), Some("m-1"));
    assert!(matches!(&restored.tool_choice, Some(ToolChoice::Keyword(s)) if s == "auto"));
    assert_eq!(restored.stop, Some(vec!["END".to_string()]));
    match &restored.response_format {
        Some(ResponseFormat::JsonSchema { schema, strict }) => {
            assert!(matches!(schema.get("kind"), Some(DataValue::Str(s)) if s == "object"));
            assert_eq!(*strict, Some(true));
        },
        _ => panic!("response format must survive"),
    }
    match &restored.temperature {
        Some(DataValue::Raw(raw)) => assert_eq!(raw.as_f64(), Some(0.7)),
        _ => panic!("temperature must ride through"),
    }
}

#[test]
fn chat_response_round_trips_unknown_top_level_keys() {
    let original = sample_response();
    let json_text = serde_json::to_string(&map_to_json(&original.to_fields())).unwrap();
    let parsed: serde_json::Value = serde_json::from_str(&json_text).unwrap();
    let fields = match json_to_value(parsed) {
        DataValue::Obj(m) => m,
        _ => panic!("serialised response must be a JSON object"),
    };
    let restored = ChatResponse::from_fields(fields).expect("round trip must decode");

    assert!(matches!(restored.extensions.get("provider_extra"), Some(DataValue::Int(9))));
    assert_eq!(restored.content.len(), 1);
    match &restored.content[0] {
        ContentBlock::Text { text, extensions, .. } => {
            assert_eq!(text, "Hello!");
            assert!(matches!(extensions.get("block_extra"), Some(DataValue::Bool(true))));
        },
        _ => panic!("content block must survive"),
    }
    let calls = restored.tool_calls.as_ref().unwrap();
    assert_eq!(calls.len(), 1);
    assert_eq!(calls[0].id, "call-1");
    assert!(matches!(calls[0].arguments.get("query"), Some(DataValue::Str(s)) if s == "weather"));
    let usage = restored.usage.as_ref().unwrap();
    assert_eq!(usage.input_tokens, 100);
    assert_eq!(usage.reasoning_tokens, Some(20));
    assert!(
        matches!(usage.extensions.get("cache_creation_input_tokens"), Some(DataValue::Int(25)))
    );
    let degradation = restored.degradation.as_ref().unwrap();
    assert_eq!(degradation.actual, "m-small");
    assert_eq!(restored.finish_reason.as_deref(), Some("stop"));
}

#[test]
fn chat_response_rejects_wrongly_shaped_content() {
    let mut fields = DataMap::new();
    fields.insert("content".to_string(), DataValue::Int(1));
    assert!(ChatResponse::from_fields(fields).is_none());

    let mut fields = DataMap::new();
    fields.insert("content".to_string(), DataValue::List(vec![DataValue::Int(1)]));
    assert!(ChatResponse::from_fields(fields).is_none());
}

#[test]
fn content_block_tag_dispatch() {
    let mut fields = DataMap::new();
    fields.insert("type".to_string(), DataValue::Str("tool_result".to_string()));
    fields.insert("tool_call_id".to_string(), DataValue::Str("c1".to_string()));
    fields.insert("output".to_string(), DataValue::Str("done".to_string()));
    match ContentBlock::from_fields(fields) {
        Some(ContentBlock::ToolResult { tool_call_id, output, .. }) => {
            assert_eq!(tool_call_id, "c1");
            assert!(matches!(output, DataValue::Str(s) if s == "done"));
        },
        _ => panic!("tool_result tag must dispatch"),
    }

    let mut unknown = DataMap::new();
    unknown.insert("type".to_string(), DataValue::Str("bogus".to_string()));
    assert!(ContentBlock::from_fields(unknown).is_none());
}
