//! Chat protocol models: the request/response envelope between
//! orchestrators and providers.
//!
//! Every envelope type carries an `extensions` bag: unknown top-level fields
//! seen in a serialised value ride there and round-trip unchanged.

use vstd::prelude::*;
use vstd::string::StringExecFns;

use crate::data::DataMap;
use crate::data::DataValue;
use crate::data::Dv;

verus! {

/// Kinds of content blocks.
#[derive(Clone, Copy, Debug, PartialEq, Eq, Structural)]
pub enum ContentBlockType {
    Text,
    Thinking,
    ToolCall,
    ToolResult,
}

/// Visibility tier of a content block.
#[derive(Clone, Copy, Debug, PartialEq, Eq, Structural)]
pub enum Visibility {
    Internal,
    Developer,
    User,
}

/// One block of message content.
#[allow(inconsistent_fields)]
pub enum ContentBlock {
    Text { text: String, visibility: Option<Visibility>, extensions: DataMap },
    Thinking {
        thinking: String,
        signature: Option<String>,
        visibility: Option<Visibility>,
        content: Option<Vec<DataValue>>,
        extensions: DataMap,
    },
    RedactedThinking { data: String, visibility: Option<Visibility>, extensions: DataMap },
    ToolCall {
        id: String,
        name: String,
        input: DataMap,
        visibility: Option<Visibility>,
        extensions: DataMap,
    },
    ToolResult {
        tool_call_id: String,
        output: DataValue,
        visibility: Option<Visibility>,
        extensions: DataMap,
    },
    Image { source: DataMap, visibility: Option<Visibility>, extensions: DataMap },
    Reasoning {
        content: Vec<DataValue>,
        summary: Vec<DataValue>,
        visibility: Option<Visibility>,
        extensions: DataMap,
    },
}

/// Message content: a plain string or structured blocks.
pub enum MessageContent {
    Text(String),
    Blocks(Vec<ContentBlock>),
}

/// Message role.
#[derive(Clone, Copy, Debug, PartialEq, Eq, Structural)]
pub enum Role {
    System,
    Developer,
    User,
    Assistant,
    Function,
    Tool,
}

/// One message in a conversation history.
pub struct Message {
    pub role: Role,
    pub content: MessageContent,
    pub name: Option<String>,
    pub tool_call_id: Option<String>,
    pub metadata: Option<DataMap>,
    pub extensions: DataMap,
}

/// A tool interface, as a schema the provider forwards to the model.
pub struct ToolSpec {
    pub name: String,
    pub parameters: DataMap,
    pub description: Option<String>,
    pub extensions: DataMap,
}

/// Requested response format.
pub enum ResponseFormat {
    Text,
    Json,
    JsonSchema { schema: DataMap, strict: Option<bool> },
}

/// Tool choice: a plain keyword or a structured object.
pub enum ToolChoice {
    Keyword(String),
    Object(DataMap),
}

/// A complete chat request to a provider.
pub struct ChatRequest {
    pub messages: Vec<Message>,
    pub tools: Option<Vec<ToolSpec>>,
    pub response_format: Option<ResponseFormat>,
    /// Sampling temperature, carried through as reported.
    pub temperature: Option<DataValue>,
    /// Nucleus sampling bound, carried through as reported.
    pub top_p: Option<DataValue>,
    pub max_output_tokens: Option<i64>,
    pub conversation_id: Option<String>,
    pub stream: Option<bool>,
    pub metadata: Option<DataMap>,
    pub model: Option<String>,
    pub tool_choice: Option<ToolChoice>,
    pub stop: Option<Vec<String>>,
    pub reasoning_effort: Option<String>,
    /// Request timeout, carried through as reported.
    pub timeout: Option<DataValue>,
    pub extensions: DataMap,
}

/// A tool call extracted from a provider response.
pub struct ToolCall {
    pub id: String,
    pub name: String,
    pub arguments: DataMap,
    pub extensions: DataMap,
}

/// Token usage reported by a provider.
pub struct Usage {
    pub input_tokens: i64,
    pub output_tokens: i64,
    pub total_tokens: i64,
    pub reasoning_tokens: Option<i64>,
    pub cache_read_tokens: Option<i64>,
    pub cache_write_tokens: Option<i64>,
    pub extensions: DataMap,
}

/// Fallback from the requested model to the one actually used.
pub struct Degradation {
    pub requested: String,
    pub actual: String,
    pub reason: String,
    pub extensions: DataMap,
}

/// A provider's response.
pub struct ChatResponse {
    pub content: Vec<ContentBlock>,
    pub tool_calls: Option<Vec<ToolCall>>,
    pub usage: Option<Usage>,
    pub degradation: Option<Degradation>,
    pub finish_reason: Option<String>,
    pub metadata: Option<DataMap>,
    pub extensions: DataMap,
}

/// An optional count as a conditional field: absent when none.
pub open spec fn put_opt_int(m: Map<Seq<char>, Dv>, key: Seq<char>, v: Option<i64>) -> Map<
    Seq<char>,
    Dv,
> {
    match v {
        Option::Some(i) => m.insert(key, Dv::Int(i as int)),
        Option::None => m,
    }
}

/// Token usage written as one flat field map: the three required counts,
/// the optional counts only when present, and the extensions alongside.
pub open spec fn usage_fields(u: Usage) -> Map<Seq<char>, Dv> {
    put_opt_int(
        put_opt_int(
            put_opt_int(
                u.extensions@.insert("input_tokens"@, Dv::Int(u.input_tokens as int)).insert(
                    "output_tokens"@,
                    Dv::Int(u.output_tokens as int),
                ).insert("total_tokens"@, Dv::Int(u.total_tokens as int)),
                "reasoning_tokens"@,
                u.reasoning_tokens,
            ),
            "cache_read_tokens"@,
            u.cache_read_tokens,
        ),
        "cache_write_tokens"@,
        u.cache_write_tokens,
    )
}

fn read_int_field(m: &DataMap, key: &str) -> (r: Option<i64>)
    requires
        m.wf(),
    ensures
        match r {
            Option::Some(i) => m@.contains_key(key@) && m@[key@] == Dv::Int(i as int),
            Option::None => !m@.contains_key(key@) || !(m@[key@] matches Dv::Int(v) && i64::MIN
                <= v <= i64::MAX),
        },
{
    match m.get(key) {
        Option::Some(v) => match *v {
            DataValue::Int(i) => Option::Some(i),
            _ => Option::None,
        },
        Option::None => Option::None,
    }
}

impl Usage {
    /// The extensions bag is well-formed and shadows no recognised field.
    pub open spec fn wf(self) -> bool {
        &&& self.extensions.wf()
        &&& !self.extensions@.contains_key("input_tokens"@)
        &&& !self.extensions@.contains_key("output_tokens"@)
        &&& !self.extensions@.contains_key("total_tokens"@)
        &&& !self.extensions@.contains_key("reasoning_tokens"@)
        &&& !self.extensions@.contains_key("cache_read_tokens"@)
        &&& !self.extensions@.contains_key("cache_write_tokens"@)
    }

    /// This usage written as one flat field map. The inverse of
    /// [`Self::from_fields`].
    pub fn to_fields(self) -> (r: DataMap)
        requires
            self.wf(),
        ensures
            r@ == usage_fields(self),
            r.wf(),
    {
        let ghost sv = self;
        let mut out = self.extensions;
        out.insert(String::from_str("input_tokens"), DataValue::Int(self.input_tokens));
        out.insert(String::from_str("output_tokens"), DataValue::Int(self.output_tokens));
        out.insert(String::from_str("total_tokens"), DataValue::Int(self.total_tokens));
        match self.reasoning_tokens {
            Option::Some(i) => {
                out.insert(String::from_str("reasoning_tokens"), DataValue::Int(i));
            },
            Option::None => {},
        }
        match self.cache_read_tokens {
            Option::Some(i) => {
                out.insert(String::from_str("cache_read_tokens"), DataValue::Int(i));
            },
            Option::None => {},
        }
        match self.cache_write_tokens {
            Option::Some(i) => {
                out.insert(String::from_str("cache_write_tokens"), DataValue::Int(i));
            },
            Option::None => {},
        }
        proof {
            assert(out@ =~= usage_fields(sv));
        }
        out
    }

    /// Read a field map back as token usage: the three required counts must
    /// be integers, the optional counts are taken when present, and every
    /// other key lands in the extensions bag. The ensures pin the decode to
    /// the encoding: whatever comes back encodes to exactly the input map,
    /// and a map in the image of [`usage_fields`] always decodes.
    pub fn from_fields(m: DataMap) -> (r: Option<Usage>)
        requires
            m.wf(),
        ensures
            match r {
                Option::Some(u) => usage_fields(u) == m@ && u.wf(),
                Option::None => forall|x: Usage| x.wf() ==> usage_fields(x) != m@,
            },
    {
        proof {
            reveal_strlit("input_tokens");
            reveal_strlit("output_tokens");
            reveal_strlit("total_tokens");
            reveal_strlit("reasoning_tokens");
            reveal_strlit("cache_read_tokens");
            reveal_strlit("cache_write_tokens");
            assert("input_tokens"@.len() == 12);
            assert("output_tokens"@.len() == 13);
            assert("total_tokens"@.len() == 12);
            assert("reasoning_tokens"@.len() == 16);
            assert("cache_read_tokens"@.len() == 17);
            assert("cache_write_tokens"@.len() == 18);
            assert("input_tokens"@[0] == 'i' && "total_tokens"@[0] == 't');
        }
        let input_tokens: i64 = match read_int_field(&m, "input_tokens") {
            Option::Some(i) => i,
            Option::None => {
                proof {
                    assert forall|x: Usage| x.wf() implies usage_fields(x) != m@ by {
                        assert(usage_fields(x)["input_tokens"@] == Dv::Int(
                            x.input_tokens as int,
                        ));
                    }
                }
                return Option::None;
            },
        };
        let output_tokens: i64 = match read_int_field(&m, "output_tokens") {
            Option::Some(i) => i,
            Option::None => {
                proof {
                    assert forall|x: Usage| x.wf() implies usage_fields(x) != m@ by {
                        assert(usage_fields(x)["output_tokens"@] == Dv::Int(
                            x.output_tokens as int,
                        ));
                    }
                }
                return Option::None;
            },
        };
        let total_tokens: i64 = match read_int_field(&m, "total_tokens") {
            Option::Some(i) => i,
            Option::None => {
                proof {
                    assert forall|x: Usage| x.wf() implies usage_fields(x) != m@ by {
                        assert(usage_fields(x)["total_tokens"@] == Dv::Int(
                            x.total_tokens as int,
                        ));
                    }
                }
                return Option::None;
            },
        };
        let reasoning_tokens: Option<i64> = if m.contains_key("reasoning_tokens") {
            match read_int_field(&m, "reasoning_tokens") {
                Option::Some(i) => Option::Some(i),
                Option::None => {
                    proof {
                        assert forall|x: Usage| x.wf() implies usage_fields(x) != m@ by {
                            if usage_fields(x).contains_key("reasoning_tokens"@) {
                                assert(x.reasoning_tokens is Some);
                                assert(usage_fields(x)["reasoning_tokens"@] == Dv::Int(
                                    x.reasoning_tokens.unwrap() as int,
                                ));
                            }
                        }
                    }
                    return Option::None;
                },
            }
        } else {
            Option::None
        };
        let cache_read_tokens: Option<i64> = if m.contains_key("cache_read_tokens") {
            match read_int_field(&m, "cache_read_tokens") {
                Option::Some(i) => Option::Some(i),
                Option::None => {
                    proof {
                        assert forall|x: Usage| x.wf() implies usage_fields(x) != m@ by {
                            if usage_fields(x).contains_key("cache_read_tokens"@) {
                                assert(x.cache_read_tokens is Some);
                                assert(usage_fields(x)["cache_read_tokens"@] == Dv::Int(
                                    x.cache_read_tokens.unwrap() as int,
                                ));
                            }
                        }
                    }
                    return Option::None;
                },
            }
        } else {
            Option::None
        };
        let cache_write_tokens: Option<i64> = if m.contains_key("cache_write_tokens") {
            match read_int_field(&m, "cache_write_tokens") {
                Option::Some(i) => Option::Some(i),
                Option::None => {
                    proof {
                        assert forall|x: Usage| x.wf() implies usage_fields(x) != m@ by {
                            if usage_fields(x).contains_key("cache_write_tokens"@) {
                                assert(x.cache_write_tokens is Some);
                                assert(usage_fields(x)["cache_write_tokens"@] == Dv::Int(
                                    x.cache_write_tokens.unwrap() as int,
                                ));
                            }
                        }
                    }
                    return Option::None;
                },
            }
        } else {
            Option::None
        };
        let mut extensions = m;
        extensions.remove_entry("input_tokens");
        extensions.remove_entry("output_tokens");
        extensions.remove_entry("total_tokens");
        extensions.remove_entry("reasoning_tokens");
        extensions.remove_entry("cache_read_tokens");
        extensions.remove_entry("cache_write_tokens");
        let out = Usage {
            input_tokens,
            output_tokens,
            total_tokens,
            reasoning_tokens,
            cache_read_tokens,
            cache_write_tokens,
            extensions,
        };
        proof {
            assert(usage_fields(out) =~= m@);
        }
        Option::Some(out)
    }
}

/// The wire word of a visibility tier.
pub open spec fn visibility_name(v: Visibility) -> Seq<char> {
    match v {
        Visibility::Internal => "internal"@,
        Visibility::Developer => "developer"@,
        Visibility::User => "user"@,
    }
}

/// An optional visibility as a conditional field: absent when none.
pub open spec fn put_opt_visibility(
    m: Map<Seq<char>, Dv>,
    v: Option<Visibility>,
) -> Map<Seq<char>, Dv> {
    match v {
        Option::Some(vis) => m.insert("visibility"@, Dv::Str(visibility_name(vis))),
        Option::None => m,
    }
}

/// An optional text as a conditional field: absent when none.
pub open spec fn put_opt_text(
    m: Map<Seq<char>, Dv>,
    key: Seq<char>,
    v: Option<Seq<char>>,
) -> Map<Seq<char>, Dv> {
    match v {
        Option::Some(s) => m.insert(key, Dv::Str(s)),
        Option::None => m,
    }
}

/// A list of payload values as one value.
pub open spec fn values_list(v: Seq<DataValue>) -> Dv {
    Dv::List(Seq::new(v.len(), |i: int| v[i].dv()))
}

/// The type tag of a content block.
pub open spec fn cb_type_word(b: ContentBlock) -> Seq<char> {
    match b {
        ContentBlock::Text { .. } => "text"@,
        ContentBlock::Thinking { .. } => "thinking"@,
        ContentBlock::RedactedThinking { .. } => "redacted_thinking"@,
        ContentBlock::ToolCall { .. } => "tool_call"@,
        ContentBlock::ToolResult { .. } => "tool_result"@,
        ContentBlock::Image { .. } => "image"@,
        ContentBlock::Reasoning { .. } => "reasoning"@,
    }
}

/// A content block written as one flat field map, tagged by `type`:
/// the variant's fields under their names, optional fields only when
/// present, and the extensions alongside.
pub open spec fn cb_fields(b: ContentBlock) -> Map<Seq<char>, Dv> {
    match b {
        ContentBlock::Text { text, visibility, extensions } => put_opt_visibility(
            extensions@.insert("type"@, Dv::Str("text"@)).insert("text"@, Dv::Str(text@)),
            visibility,
        ),
        ContentBlock::Thinking { thinking, signature, visibility, content, extensions } => {
            let base = put_opt_visibility(
                put_opt_text(
                    extensions@.insert("type"@, Dv::Str("thinking"@)).insert(
                        "thinking"@,
                        Dv::Str(thinking@),
                    ),
                    "signature"@,
                    match signature {
                        Option::Some(s) => Option::Some(s@),
                        Option::None => Option::None,
                    },
                ),
                visibility,
            );
            match content {
                Option::Some(items) => base.insert("content"@, values_list(items@)),
                Option::None => base,
            }
        },
        ContentBlock::RedactedThinking { data, visibility, extensions } => put_opt_visibility(
            extensions@.insert("type"@, Dv::Str("redacted_thinking"@)).insert(
                "data"@,
                Dv::Str(data@),
            ),
            visibility,
        ),
        ContentBlock::ToolCall { id, name, input, visibility, extensions } => put_opt_visibility(
            extensions@.insert("type"@, Dv::Str("tool_call"@)).insert("id"@, Dv::Str(id@)).insert(
                "name"@,
                Dv::Str(name@),
            ).insert("input"@, Dv::Obj(input@)),
            visibility,
        ),
        ContentBlock::ToolResult { tool_call_id, output, visibility, extensions } => put_opt_visibility(
            extensions@.insert("type"@, Dv::Str("tool_result"@)).insert(
                "tool_call_id"@,
                Dv::Str(tool_call_id@),
            ).insert("output"@, output.dv()),
            visibility,
        ),
        ContentBlock::Image { source, visibility, extensions } => put_opt_visibility(
            extensions@.insert("type"@, Dv::Str("image"@)).insert("source"@, Dv::Obj(source@)),
            visibility,
        ),
        ContentBlock::Reasoning { content, summary, visibility, extensions } => put_opt_visibility(
            extensions@.insert("type"@, Dv::Str("reasoning"@)).insert(
                "content"@,
                values_list(content@),
            ).insert("summary"@, values_list(summary@)),
            visibility,
        ),
    }
}

/// The extensions bag of a content block.
pub open spec fn cb_extensions(b: ContentBlock) -> DataMap {
    match b {
        ContentBlock::Text { extensions, .. } => extensions,
        ContentBlock::Thinking { extensions, .. } => extensions,
        ContentBlock::RedactedThinking { extensions, .. } => extensions,
        ContentBlock::ToolCall { extensions, .. } => extensions,
        ContentBlock::ToolResult { extensions, .. } => extensions,
        ContentBlock::Image { extensions, .. } => extensions,
        ContentBlock::Reasoning { extensions, .. } => extensions,
    }
}

impl ContentBlock {
    /// Every carried map and value is well-formed, and the extensions bag
    /// shadows neither the type tag, the visibility, nor any field of the
    /// variant.
    pub open spec fn wf(self) -> bool {
        &&& cb_extensions(self).wf()
        &&& !cb_extensions(self)@.contains_key("type"@)
        &&& !cb_extensions(self)@.contains_key("visibility"@)
        &&& match self {
            ContentBlock::Text { extensions, .. } => !extensions@.contains_key("text"@),
            ContentBlock::Thinking { content, extensions, .. } => {
                &&& !extensions@.contains_key("thinking"@)
                &&& !extensions@.contains_key("signature"@)
                &&& !extensions@.contains_key("content"@)
                &&& match content {
                    Option::Some(items) => forall|i: int|
                        0 <= i < items@.len() ==> (#[trigger] items@[i]).wf(),
                    Option::None => true,
                }
            },
            ContentBlock::RedactedThinking { extensions, .. } => !extensions@.contains_key(
                "data"@,
            ),
            ContentBlock::ToolCall { input, extensions, .. } => {
                &&& !extensions@.contains_key("id"@)
                &&& !extensions@.contains_key("name"@)
                &&& !extensions@.contains_key("input"@)
                &&& input.wf()
            },
            ContentBlock::ToolResult { output, extensions, .. } => {
                &&& !extensions@.contains_key("tool_call_id"@)
                &&& !extensions@.contains_key("output"@)
                &&& output.wf()
            },
            ContentBlock::Image { source, extensions, .. } => {
                &&& !extensions@.contains_key("source"@)
                &&& source.wf()
            },
            ContentBlock::Reasoning { content, summary, extensions, .. } => {
                &&& !extensions@.contains_key("content"@)
                &&& !extensions@.contains_key("summary"@)
                &&& forall|i: int| 0 <= i < content@.len() ==> (#[trigger] content@[i]).wf()
                &&& forall|i: int| 0 <= i < summary@.len() ==> (#[trigger] summary@[i]).wf()
            },
        }
    }
}

fn visibility_word(v: Visibility) -> (r: String)
    ensures
        r@ == visibility_name(v),
{
    match v {
        Visibility::Internal => String::from_str("internal"),
        Visibility::Developer => String::from_str("developer"),
        Visibility::User => String::from_str("user"),
    }
}

fn put_visibility(out: &mut DataMap, visibility: Option<Visibility>)
    requires
        old(out).wf(),
    ensures
        final(out)@ == put_opt_visibility(old(out)@, visibility),
        final(out).wf(),
{
    match visibility {
        Option::Some(v) => {
            out.insert(String::from_str("visibility"), DataValue::Str(visibility_word(v)));
        },
        Option::None => {},
    }
}

fn values_to_list(items: Vec<DataValue>) -> (r: DataValue)
    requires
        forall|i: int| 0 <= i < items@.len() ==> (#[trigger] items@[i]).wf(),
    ensures
        r.dv() == values_list(items@),
        r.wf(),
{
    let ghost itemsg = items@;
    let r = DataValue::List(items);
    proof {
        assert(r.dv()->List_0 =~= values_list(itemsg)->List_0);
        assert(r.dv() == values_list(itemsg));
    }
    r
}

impl ContentBlock {
    /// This block written as one flat field map, tagged by `type`. The
    /// inverse of [`Self::from_fields`].
    pub fn to_fields(self) -> (r: DataMap)
        requires
            self.wf(),
        ensures
            r@ == cb_fields(self),
            r.wf(),
    {
        let ghost sv = self;
        match self {
            ContentBlock::Text { text, visibility, extensions } => {
                let mut out = extensions;
                out.insert(String::from_str("type"), DataValue::Str(String::from_str("text")));
                out.insert(String::from_str("text"), DataValue::Str(text));
                put_visibility(&mut out, visibility);
                proof {
                    assert(out@ =~= cb_fields(sv));
                }
                out
            },
            ContentBlock::Thinking { thinking, signature, visibility, content, extensions } => {
                let mut out = extensions;
                out.insert(
                    String::from_str("type"),
                    DataValue::Str(String::from_str("thinking")),
                );
                out.insert(String::from_str("thinking"), DataValue::Str(thinking));
                match signature {
                    Option::Some(sig) => {
                        out.insert(String::from_str("signature"), DataValue::Str(sig));
                    },
                    Option::None => {},
                }
                put_visibility(&mut out, visibility);
                match content {
                    Option::Some(items) => {
                        out.insert(String::from_str("content"), values_to_list(items));
                    },
                    Option::None => {},
                }
                proof {
                    assert(out@ =~= cb_fields(sv));
                }
                out
            },
            ContentBlock::RedactedThinking { data, visibility, extensions } => {
                let mut out = extensions;
                out.insert(
                    String::from_str("type"),
                    DataValue::Str(String::from_str("redacted_thinking")),
                );
                out.insert(String::from_str("data"), DataValue::Str(data));
                put_visibility(&mut out, visibility);
                proof {
                    assert(out@ =~= cb_fields(sv));
                }
                out
            },
            ContentBlock::ToolCall { id, name, input, visibility, extensions } => {
                let mut out = extensions;
                out.insert(
                    String::from_str("type"),
                    DataValue::Str(String::from_str("tool_call")),
                );
                out.insert(String::from_str("id"), DataValue::Str(id));
                out.insert(String::from_str("name"), DataValue::Str(name));
                out.insert(String::from_str("input"), DataValue::Obj(input));
                put_visibility(&mut out, visibility);
                proof {
                    assert(out@ =~= cb_fields(sv));
                }
                out
            },
            ContentBlock::ToolResult { tool_call_id, output, visibility, extensions } => {
                let mut out = extensions;
                out.insert(
                    String::from_str("type"),
                    DataValue::Str(String::from_str("tool_result")),
                );
                out.insert(String::from_str("tool_call_id"), DataValue::Str(tool_call_id));
                out.insert(String::from_str("output"), output);
                put_visibility(&mut out, visibility);
                proof {
                    assert(out@ =~= cb_fields(sv));
                }
                out
            },
            ContentBlock::Image { source, visibility, extensions } => {
                let mut out = extensions;
                out.insert(String::from_str("type"), DataValue::Str(String::from_str("image")));
                out.insert(String::from_str("source"), DataValue::Obj(source));
                put_visibility(&mut out, visibility);
                proof {
                    assert(out@ =~= cb_fields(sv));
                }
                out
            },
            ContentBlock::Reasoning { content, summary, visibility, extensions } => {
                let mut out = extensions;
                out.insert(
                    String::from_str("type"),
                    DataValue::Str(String::from_str("reasoning")),
                );
                out.insert(String::from_str("content"), values_to_list(content));
                out.insert(String::from_str("summary"), values_to_list(summary));
                put_visibility(&mut out, visibility);
                proof {
                    assert(out@ =~= cb_fields(sv));
                }
                out
            },
        }
    }
}

fn read_req_text(m: &DataMap, key: &str) -> (r: Option<String>)
    requires
        m.wf(),
    ensures
        match r {
            Option::Some(s) => m@.contains_key(key@) && m@[key@] == Dv::Str(s@),
            Option::None => !m@.contains_key(key@) || !(m@[key@] is Str),
        },
{
    match m.get(key) {
        Option::Some(v) => match *v {
            DataValue::Str(ref s) => Option::Some(s.clone()),
            _ => Option::None,
        },
        Option::None => Option::None,
    }
}

fn read_obj_field(m: &DataMap, key: &str) -> (r: Option<DataMap>)
    requires
        m.wf(),
    ensures
        match r {
            Option::Some(d) => m@.contains_key(key@) && m@[key@] == Dv::Obj(d@) && d.wf(),
            Option::None => !m@.contains_key(key@) || !(m@[key@] is Obj),
        },
{
    match m.get(key) {
        Option::Some(v) => match *v {
            DataValue::Obj(ref d) => Option::Some(d.clone()),
            _ => Option::None,
        },
        Option::None => Option::None,
    }
}

fn read_values_field(m: &DataMap, key: &str) -> (r: Option<Vec<DataValue>>)
    requires
        m.wf(),
    ensures
        match r {
            Option::Some(v) => m@.contains_key(key@) && m@[key@] == values_list(v@) && forall|
                i: int,
            |
                0 <= i < v@.len() ==> (#[trigger] v@[i]).wf(),
            Option::None => !m@.contains_key(key@) || !(m@[key@] is List),
        },
{
    match m.get(key) {
        Option::Some(v) => match *v {
            DataValue::List(ref items) => {
                let n: usize = items.len();
                let mut out: Vec<DataValue> = Vec::new();
                let mut i: usize = 0;
                while i < n
                    invariant
                        n == items@.len(),
                        0 <= i <= n,
                        out@.len() == i,
                        forall|j: int| 0 <= j < n ==> (#[trigger] items@[j]).wf(),
                        forall|j: int| 0 <= j < i ==> (#[trigger] out@[j]).dv()
                            == items@[j].dv(),
                        forall|j: int| 0 <= j < i ==> (#[trigger] out@[j]).wf(),
                    decreases n - i,
                {
                    out.push(items[i].clone());
                    i = i + 1;
                }
                proof {
                    assert(values_list(out@)->List_0 =~= v.dv()->List_0);
                    assert(values_list(out@) == v.dv());
                }
                Option::Some(out)
            },
            _ => Option::None,
        },
        Option::None => Option::None,
    }
}

fn read_any_field(m: &DataMap, key: &str) -> (r: Option<DataValue>)
    requires
        m.wf(),
    ensures
        match r {
            Option::Some(v) => m@.contains_key(key@) && v.dv() == m@[key@] && v.wf(),
            Option::None => !m@.contains_key(key@),
        },
{
    match m.get(key) {
        Option::Some(v) => Option::Some(v.clone()),
        Option::None => Option::None,
    }
}

fn read_visibility(m: &DataMap) -> (r: Option<Option<Visibility>>)
    requires
        m.wf(),
    ensures
        match r {
            Option::Some(o) => match o {
                Option::Some(v) => m@.contains_key("visibility"@) && m@["visibility"@]
                    == Dv::Str(visibility_name(v)),
                Option::None => !m@.contains_key("visibility"@),
            },
            Option::None => m@.contains_key("visibility"@) && forall|v: Visibility|
                m@["visibility"@] != Dv::Str(#[trigger] visibility_name(v)),
        },
{
    proof {
        reveal_strlit("internal");
        reveal_strlit("developer");
        reveal_strlit("user");
        assert("internal"@.len() == 8);
        assert("developer"@.len() == 9);
        assert("user"@.len() == 4);
    }
    match m.get("visibility") {
        Option::None => Option::Some(Option::None),
        Option::Some(v) => match *v {
            DataValue::Str(ref word) => {
                if *word == String::from_str("internal") {
                    Option::Some(Option::Some(Visibility::Internal))
                } else if *word == String::from_str("developer") {
                    Option::Some(Option::Some(Visibility::Developer))
                } else if *word == String::from_str("user") {
                    Option::Some(Option::Some(Visibility::User))
                } else {
                    proof {
                        assert forall|vis: Visibility|
                            m@["visibility"@] != Dv::Str(
                                #[trigger] visibility_name(vis),
                            ) by {
                            match vis {
                                Visibility::Internal => {},
                                Visibility::Developer => {},
                                Visibility::User => {},
                            }
                        }
                    }
                    Option::None
                }
            },
            _ => {
                proof {
                    assert forall|vis: Visibility|
                        m@["visibility"@] != Dv::Str(#[trigger] visibility_name(vis)) by {}
                }
                Option::None
            },
        },
    }
}

/// Every well-formed block's field map carries its type tag.
pub proof fn lemma_cb_tag(x: ContentBlock)
    requires
        x.wf(),
    ensures
        cb_fields(x).contains_key("type"@),
        cb_fields(x)["type"@] == Dv::Str(cb_type_word(x)),
    decreases x,
{
    reveal_strlit("type");
    reveal_strlit("visibility");
    assert("type"@.len() == 4);
    assert("visibility"@.len() == 10);
    reveal_strlit("text");
    reveal_strlit("thinking");
    reveal_strlit("signature");
    reveal_strlit("content");
    reveal_strlit("data");
    reveal_strlit("id");
    reveal_strlit("name");
    reveal_strlit("input");
    reveal_strlit("tool_call_id");
    reveal_strlit("output");
    reveal_strlit("source");
    reveal_strlit("summary");
    assert("text"@[0] == 't' && "type"@[1] == 'y' && "text"@[1] == 'e');
    assert("thinking"@.len() == 8);
    assert("signature"@.len() == 9);
    assert("content"@.len() == 7);
    assert("data"@.len() == 4 && "data"@[0] == 'd');
    assert("id"@.len() == 2);
    assert("name"@.len() == 4 && "name"@[0] == 'n');
    assert("input"@.len() == 5);
    assert("tool_call_id"@.len() == 12);
    assert("output"@.len() == 6);
    assert("source"@.len() == 6);
    assert("summary"@.len() == 7 && "summary"@[0] == 's' && "content"@[0] == 'c');
}

impl ContentBlock {
    /// Read a flat field map back as a content block, dispatching on the
    /// `type` tag; unknown keys land in the variant's extensions bag.
    /// `None` when the tag is unknown or a field has the wrong shape: no
    /// well-formed block writes such a map.
    #[verifier::rlimit(100)]
    pub fn from_fields(m: DataMap) -> (r: Option<ContentBlock>)
        requires
            m.wf(),
        ensures
            match r {
                Option::Some(b) => cb_fields(b) == m@ && b.wf(),
                Option::None => forall|x: ContentBlock| x.wf() ==> cb_fields(x) != m@,
            },
    {
        proof {
            reveal_strlit("text");
            reveal_strlit("thinking");
            reveal_strlit("redacted_thinking");
            reveal_strlit("tool_call");
            reveal_strlit("tool_result");
            reveal_strlit("image");
            reveal_strlit("reasoning");
            reveal_strlit("type");
            reveal_strlit("visibility");
            reveal_strlit("signature");
            reveal_strlit("content");
            reveal_strlit("data");
            reveal_strlit("id");
            reveal_strlit("name");
            reveal_strlit("input");
            reveal_strlit("tool_call_id");
            reveal_strlit("output");
            reveal_strlit("source");
            reveal_strlit("summary");
            assert("text"@.len() == 4);
            assert("thinking"@.len() == 8);
            assert("redacted_thinking"@.len() == 17);
            assert("tool_call"@.len() == 9);
            assert("tool_result"@.len() == 11);
            assert("image"@.len() == 5);
            assert("reasoning"@.len() == 9);
            assert("tool_call"@[0] == 't' && "reasoning"@[0] == 'r');
            assert("type"@.len() == 4);
            assert("visibility"@.len() == 10);
            assert("signature"@.len() == 9);
            assert("content"@.len() == 7);
            assert("data"@.len() == 4);
            assert("id"@.len() == 2);
            assert("name"@.len() == 4);
            assert("input"@.len() == 5);
            assert("tool_call_id"@.len() == 12);
            assert("output"@.len() == 6);
            assert("source"@.len() == 6);
            assert("summary"@.len() == 7);
            assert("type"@[1] == 'y' && "text"@[1] == 'e' && "data"@[0] == 'd' && "name"@[0]
                == 'n');
            assert("output"@[0] == 'o' && "source"@[0] == 's');
            assert("summary"@[0] == 's' && "content"@[0] == 'c');
            assert("signature"@[0] == 's' && "reasoning"@[0] == 'r' && "tool_call"@[0] == 't');
            assert("image"@[0] == 'i' && "input"@[0] == 'i' && "image"@[1] == 'm' && "input"@[1]
                == 'n');
        }
        let tag: String = match read_req_text(&m, "type") {
            Option::Some(t) => t,
            Option::None => {
                proof {
                    assert forall|x: ContentBlock| x.wf() implies cb_fields(x) != m@ by {
                        lemma_cb_tag(x);
                    }
                }
                return Option::None;
            },
        };
        let visibility: Option<Visibility> = match read_visibility(&m) {
            Option::Some(o) => o,
            Option::None => {
                proof {
                    assert forall|x: ContentBlock| x.wf() implies cb_fields(x) != m@ by {
                        if cb_fields(x) == m@ {
                            lemma_cb_tag(x);
                            match x {
                                ContentBlock::Text { visibility: vis, .. } => {
                                    assert(vis is Some);
                                },
                                ContentBlock::Thinking { visibility: vis, .. } => {
                                    assert(vis is Some);
                                },
                                ContentBlock::RedactedThinking { visibility: vis, .. } => {
                                    assert(vis is Some);
                                },
                                ContentBlock::ToolCall { visibility: vis, .. } => {
                                    assert(vis is Some);
                                },
                                ContentBlock::ToolResult { visibility: vis, .. } => {
                                    assert(vis is Some);
                                },
                                ContentBlock::Image { visibility: vis, .. } => {
                                    assert(vis is Some);
                                },
                                ContentBlock::Reasoning { visibility: vis, .. } => {
                                    assert(vis is Some);
                                },
                            }
                        }
                    }
                }
                return Option::None;
            },
        };
        if tag == String::from_str("text") {
            let text: String = match read_req_text(&m, "text") {
                Option::Some(t) => t,
                Option::None => {
                    proof {
                        assert forall|x: ContentBlock| x.wf() implies cb_fields(x) != m@ by {
                            if cb_fields(x) == m@ {
                                lemma_cb_tag(x);
                                match x {
                                    ContentBlock::Text { .. } => {},
                                    _ => {
                                        assert(cb_type_word(x) != "text"@);
                                    },
                                }
                            }
                        }
                    }
                    return Option::None;
                },
            };
            let mut extensions = m;
            extensions.remove_entry("type");
            extensions.remove_entry("text");
            extensions.remove_entry("visibility");
            let out = ContentBlock::Text { text, visibility, extensions };
            proof {
                assert(cb_fields(out) =~= m@);
            }
            Option::Some(out)
        } else if tag == String::from_str("thinking") {
            let thinking: String = match read_req_text(&m, "thinking") {
                Option::Some(t) => t,
                Option::None => {
                    proof {
                        assert forall|x: ContentBlock| x.wf() implies cb_fields(x) != m@ by {
                            if cb_fields(x) == m@ {
                                lemma_cb_tag(x);
                                match x {
                                    ContentBlock::Thinking { .. } => {},
                                    _ => {
                                        assert(cb_type_word(x) != "thinking"@);
                                    },
                                }
                            }
                        }
                    }
                    return Option::None;
                },
            };
            let signature: Option<String> = if m.contains_key("signature") {
                match read_req_text(&m, "signature") {
                    Option::Some(t) => Option::Some(t),
                    Option::None => {
                        proof {
                            assert forall|x: ContentBlock| x.wf() implies cb_fields(x)
                                != m@ by {
                                if cb_fields(x) == m@ {
                                    lemma_cb_tag(x);
                                    match x {
                                        ContentBlock::Thinking { signature: sg, .. } => {
                                            assert(sg is Some);
                                        },
                                        _ => {
                                            assert(cb_type_word(x) != "thinking"@);
                                        },
                                    }
                                }
                            }
                        }
                        return Option::None;
                    },
                }
            } else {
                Option::None
            };
            let content: Option<Vec<DataValue>> = if m.contains_key("content") {
                match read_values_field(&m, "content") {
                    Option::Some(v) => Option::Some(v),
                    Option::None => {
                        proof {
                            assert forall|x: ContentBlock| x.wf() implies cb_fields(x)
                                != m@ by {
                                if cb_fields(x) == m@ {
                                    lemma_cb_tag(x);
                                    match x {
                                        ContentBlock::Thinking { content: ct, .. } => {
                                            assert(ct is Some);
                                        },
                                        _ => {
                                            assert(cb_type_word(x) != "thinking"@);
                                        },
                                    }
                                }
                            }
                        }
                        return Option::None;
                    },
                }
            } else {
                Option::None
            };
            let mut extensions = m;
            extensions.remove_entry("type");
            extensions.remove_entry("thinking");
            extensions.remove_entry("signature");
            extensions.remove_entry("content");
            extensions.remove_entry("visibility");
            let out = ContentBlock::Thinking { thinking, signature, visibility, content, extensions };
            proof {
                assert(cb_fields(out) =~= m@);
            }
            Option::Some(out)
        } else if tag == String::from_str("redacted_thinking") {
            let data: String = match read_req_text(&m, "data") {
                Option::Some(t) => t,
                Option::None => {
                    proof {
                        assert forall|x: ContentBlock| x.wf() implies cb_fields(x) != m@ by {
                            if cb_fields(x) == m@ {
                                lemma_cb_tag(x);
                                match x {
                                    ContentBlock::RedactedThinking { .. } => {},
                                    _ => {
                                        assert(cb_type_word(x) != "redacted_thinking"@);
                                    },
                                }
                            }
                        }
                    }
                    return Option::None;
                },
            };
            let mut extensions = m;
            extensions.remove_entry("type");
            extensions.remove_entry("data");
            extensions.remove_entry("visibility");
            let out = ContentBlock::RedactedThinking { data, visibility, extensions };
            proof {
                assert(cb_fields(out) =~= m@);
            }
            Option::Some(out)
        } else if tag == String::from_str("tool_call") {
            let id: String = match read_req_text(&m, "id") {
                Option::Some(t) => t,
                Option::None => {
                    proof {
                        assert forall|x: ContentBlock| x.wf() implies cb_fields(x) != m@ by {
                            if cb_fields(x) == m@ {
                                lemma_cb_tag(x);
                                match x {
                                    ContentBlock::ToolCall { .. } => {},
                                    _ => {
                                        assert(cb_type_word(x) != "tool_call"@);
                                    },
                                }
                            }
                        }
                    }
                    return Option::None;
                },
            };
            let name: String = match read_req_text(&m, "name") {
                Option::Some(t) => t,
                Option::None => {
                    proof {
                        assert forall|x: ContentBlock| x.wf() implies cb_fields(x) != m@ by {
                            if cb_fields(x) == m@ {
                                lemma_cb_tag(x);
                                match x {
                                    ContentBlock::ToolCall { .. } => {},
                                    _ => {
                                        assert(cb_type_word(x) != "tool_call"@);
                                    },
                                }
                            }
                        }
                    }
                    return Option::None;
                },
            };
            let input: DataMap = match read_obj_field(&m, "input") {
                Option::Some(d) => d,
                Option::None => {
                    proof {
                        assert forall|x: ContentBlock| x.wf() implies cb_fields(x) != m@ by {
                            if cb_fields(x) == m@ {
                                lemma_cb_tag(x);
                                match x {
                                    ContentBlock::ToolCall { .. } => {},
                                    _ => {
                                        assert(cb_type_word(x) != "tool_call"@);
                                    },
                                }
                            }
                        }
                    }
                    return Option::None;
                },
            };
            let mut extensions = m;
            extensions.remove_entry("type");
            extensions.remove_entry("id");
            extensions.remove_entry("name");
            extensions.remove_entry("input");
            extensions.remove_entry("visibility");
            let out = ContentBlock::ToolCall { id, name, input, visibility, extensions };
            proof {
                assert(cb_fields(out) =~= m@);
            }
            Option::Some(out)
        } else if tag == String::from_str("tool_result") {
            let tool_call_id: String = match read_req_text(&m, "tool_call_id") {
                Option::Some(t) => t,
                Option::None => {
                    proof {
                        assert forall|x: ContentBlock| x.wf() implies cb_fields(x) != m@ by {
                            if cb_fields(x) == m@ {
                                lemma_cb_tag(x);
                                match x {
                                    ContentBlock::ToolResult { .. } => {},
                                    _ => {
                                        assert(cb_type_word(x) != "tool_result"@);
                                    },
                                }
                            }
                        }
                    }
                    return Option::None;
                },
            };
            let output: DataValue = match read_any_field(&m, "output") {
                Option::Some(v) => v,
                Option::None => {
                    proof {
                        assert forall|x: ContentBlock| x.wf() implies cb_fields(x) != m@ by {
                            if cb_fields(x) == m@ {
                                lemma_cb_tag(x);
                                match x {
                                    ContentBlock::ToolResult { .. } => {},
                                    _ => {
                                        assert(cb_type_word(x) != "tool_result"@);
                                    },
                                }
                            }
                        }
                    }
                    return Option::None;
                },
            };
            let mut extensions = m;
            extensions.remove_entry("type");
            extensions.remove_entry("tool_call_id");
            extensions.remove_entry("output");
            extensions.remove_entry("visibility");
            let out = ContentBlock::ToolResult { tool_call_id, output, visibility, extensions };
            proof {
                assert(cb_fields(out) =~= m@);
            }
            Option::Some(out)
        } else if tag == String::from_str("image") {
            let source: DataMap = match read_obj_field(&m, "source") {
                Option::Some(d) => d,
                Option::None => {
                    proof {
                        assert forall|x: ContentBlock| x.wf() implies cb_fields(x) != m@ by {
                            if cb_fields(x) == m@ {
                                lemma_cb_tag(x);
                                match x {
                                    ContentBlock::Image { .. } => {},
                                    _ => {
                                        assert(cb_type_word(x) != "image"@);
                                    },
                                }
                            }
                        }
                    }
                    return Option::None;
                },
            };
            let mut extensions = m;
            extensions.remove_entry("type");
            extensions.remove_entry("source");
            extensions.remove_entry("visibility");
            let out = ContentBlock::Image { source, visibility, extensions };
            proof {
                assert(cb_fields(out) =~= m@);
            }
            Option::Some(out)
        } else if tag == String::from_str("reasoning") {
            let content: Vec<DataValue> = match read_values_field(&m, "content") {
                Option::Some(v) => v,
                Option::None => {
                    proof {
                        assert forall|x: ContentBlock| x.wf() implies cb_fields(x) != m@ by {
                            if cb_fields(x) == m@ {
                                lemma_cb_tag(x);
                                match x {
                                    ContentBlock::Reasoning { .. } => {},
                                    _ => {
                                        assert(cb_type_word(x) != "reasoning"@);
                                    },
                                }
                            }
                        }
                    }
                    return Option::None;
                },
            };
            let summary: Vec<DataValue> = match read_values_field(&m, "summary") {
                Option::Some(v) => v,
                Option::None => {
                    proof {
                        assert forall|x: ContentBlock| x.wf() implies cb_fields(x) != m@ by {
                            if cb_fields(x) == m@ {
                                lemma_cb_tag(x);
                                match x {
                                    ContentBlock::Reasoning { .. } => {},
                                    _ => {
                                        assert(cb_type_word(x) != "reasoning"@);
                                    },
                                }
                            }
                        }
                    }
                    return Option::None;
                },
            };
            let mut extensions = m;
            extensions.remove_entry("type");
            extensions.remove_entry("content");
            extensions.remove_entry("summary");
            extensions.remove_entry("visibility");
            let out = ContentBlock::Reasoning { content, summary, visibility, extensions };
            proof {
                assert(cb_fields(out) =~= m@);
            }
            Option::Some(out)
        } else {
            proof {
                assert forall|x: ContentBlock| x.wf() implies cb_fields(x) != m@ by {
                    if cb_fields(x) == m@ {
                        lemma_cb_tag(x);
                        match x {
                            ContentBlock::Text { .. } => {},
                            ContentBlock::Thinking { .. } => {},
                            ContentBlock::RedactedThinking { .. } => {},
                            ContentBlock::ToolCall { .. } => {},
                            ContentBlock::ToolResult { .. } => {},
                            ContentBlock::Image { .. } => {},
                            ContentBlock::Reasoning { .. } => {},
                        }
                    }
                }
            }
            Option::None
        }
    }
}

/// A tool call written as one flat field map.
pub open spec fn tool_call_fields(t: ToolCall) -> Map<Seq<char>, Dv> {
    t.extensions@.insert("id"@, Dv::Str(t.id@)).insert("name"@, Dv::Str(t.name@)).insert(
        "arguments"@,
        Dv::Obj(t.arguments@),
    )
}

impl ToolCall {
    /// Maps are well-formed and the extensions bag shadows no field.
    pub open spec fn wf(self) -> bool {
        &&& self.extensions.wf()
        &&& self.arguments.wf()
        &&& !self.extensions@.contains_key("id"@)
        &&& !self.extensions@.contains_key("name"@)
        &&& !self.extensions@.contains_key("arguments"@)
    }

    /// This tool call written as one flat field map. The inverse of
    /// [`Self::from_fields`].
    pub fn to_fields(self) -> (r: DataMap)
        requires
            self.wf(),
        ensures
            r@ == tool_call_fields(self),
            r.wf(),
    {
        let ghost sv = self;
        let mut out = self.extensions;
        out.insert(String::from_str("id"), DataValue::Str(self.id));
        out.insert(String::from_str("name"), DataValue::Str(self.name));
        out.insert(String::from_str("arguments"), DataValue::Obj(self.arguments));
        proof {
            assert(out@ =~= tool_call_fields(sv));
        }
        out
    }

    /// Read a flat field map back as a tool call; unknown keys land in the
    /// extensions bag. `None` when a field has the wrong shape: no
    /// well-formed tool call writes such a map.
    pub fn from_fields(m: DataMap) -> (r: Option<ToolCall>)
        requires
            m.wf(),
        ensures
            match r {
                Option::Some(t) => tool_call_fields(t) == m@ && t.wf(),
                Option::None => forall|x: ToolCall| x.wf() ==> tool_call_fields(x) != m@,
            },
    {
        proof {
            reveal_strlit("id");
            reveal_strlit("name");
            reveal_strlit("arguments");
            assert("id"@.len() == 2);
            assert("name"@.len() == 4);
            assert("arguments"@.len() == 9);
        }
        let id: String = match read_req_text(&m, "id") {
            Option::Some(t) => t,
            Option::None => {
                proof {
                    assert forall|x: ToolCall| x.wf() implies tool_call_fields(x) != m@ by {
                        assert(tool_call_fields(x)["id"@] == Dv::Str(x.id@));
                    }
                }
                return Option::None;
            },
        };
        let name: String = match read_req_text(&m, "name") {
            Option::Some(t) => t,
            Option::None => {
                proof {
                    assert forall|x: ToolCall| x.wf() implies tool_call_fields(x) != m@ by {
                        assert(tool_call_fields(x)["name"@] == Dv::Str(x.name@));
                    }
                }
                return Option::None;
            },
        };
        let arguments: DataMap = match read_obj_field(&m, "arguments") {
            Option::Some(d) => d,
            Option::None => {
                proof {
                    assert forall|x: ToolCall| x.wf() implies tool_call_fields(x) != m@ by {
                        assert(tool_call_fields(x)["arguments"@] == Dv::Obj(x.arguments@));
                    }
                }
                return Option::None;
            },
        };
        let mut extensions = m;
        extensions.remove_entry("id");
        extensions.remove_entry("name");
        extensions.remove_entry("arguments");
        let out = ToolCall { id, name, arguments, extensions };
        proof {
            assert(tool_call_fields(out) =~= m@);
        }
        Option::Some(out)
    }
}

/// A degradation notice written as one flat field map.
pub open spec fn degradation_fields(d: Degradation) -> Map<Seq<char>, Dv> {
    d.extensions@.insert("requested"@, Dv::Str(d.requested@)).insert(
        "actual"@,
        Dv::Str(d.actual@),
    ).insert("reason"@, Dv::Str(d.reason@))
}

impl Degradation {
    /// The extensions bag is well-formed and shadows no field.
    pub open spec fn wf(self) -> bool {
        &&& self.extensions.wf()
        &&& !self.extensions@.contains_key("requested"@)
        &&& !self.extensions@.contains_key("actual"@)
        &&& !self.extensions@.contains_key("reason"@)
    }

    /// This notice written as one flat field map. The inverse of
    /// [`Self::from_fields`].
    pub fn to_fields(self) -> (r: DataMap)
        requires
            self.wf(),
        ensures
            r@ == degradation_fields(self),
            r.wf(),
    {
        let ghost sv = self;
        let mut out = self.extensions;
        out.insert(String::from_str("requested"), DataValue::Str(self.requested));
        out.insert(String::from_str("actual"), DataValue::Str(self.actual));
        out.insert(String::from_str("reason"), DataValue::Str(self.reason));
        proof {
            assert(out@ =~= degradation_fields(sv));
        }
        out
    }

    /// Read a flat field map back as a degradation notice. `None` when a
    /// field has the wrong shape: no well-formed notice writes such a map.
    pub fn from_fields(m: DataMap) -> (r: Option<Degradation>)
        requires
            m.wf(),
        ensures
            match r {
                Option::Some(d) => degradation_fields(d) == m@ && d.wf(),
                Option::None => forall|x: Degradation| x.wf() ==> degradation_fields(x) != m@,
            },
    {
        proof {
            reveal_strlit("requested");
            reveal_strlit("actual");
            reveal_strlit("reason");
            assert("requested"@.len() == 9);
            assert("actual"@.len() == 6);
            assert("reason"@.len() == 6);
            assert("actual"@[0] == 'a' && "reason"@[0] == 'r');
        }
        let requested: String = match read_req_text(&m, "requested") {
            Option::Some(t) => t,
            Option::None => {
                proof {
                    assert forall|x: Degradation| x.wf() implies degradation_fields(x)
                        != m@ by {
                        assert(degradation_fields(x)["requested"@] == Dv::Str(x.requested@));
                    }
                }
                return Option::None;
            },
        };
        let actual: String = match read_req_text(&m, "actual") {
            Option::Some(t) => t,
            Option::None => {
                proof {
                    assert forall|x: Degradation| x.wf() implies degradation_fields(x)
                        != m@ by {
                        assert(degradation_fields(x)["actual"@] == Dv::Str(x.actual@));
                    }
                }
                return Option::None;
            },
        };
        let reason: String = match read_req_text(&m, "reason") {
            Option::Some(t) => t,
            Option::None => {
                proof {
                    assert forall|x: Degradation| x.wf() implies degradation_fields(x)
                        != m@ by {
                        assert(degradation_fields(x)["reason"@] == Dv::Str(x.reason@));
                    }
                }
                return Option::None;
            },
        };
        let mut extensions = m;
        extensions.remove_entry("requested");
        extensions.remove_entry("actual");
        extensions.remove_entry("reason");
        let out = Degradation { requested, actual, reason, extensions };
        proof {
            assert(degradation_fields(out) =~= m@);
        }
        Option::Some(out)
    }
}

/// A list of content blocks as one value: each block as its field map.
pub open spec fn blocks_value(v: Seq<ContentBlock>) -> Dv {
    Dv::List(Seq::new(v.len(), |i: int| Dv::Obj(cb_fields(v[i]))))
}

/// A list of tool calls as one value: each call as its field map.
pub open spec fn calls_value(v: Seq<ToolCall>) -> Dv {
    Dv::List(Seq::new(v.len(), |i: int| Dv::Obj(tool_call_fields(v[i]))))
}

fn blocks_to_value(blocks: Vec<ContentBlock>) -> (r: DataValue)
    requires
        forall|i: int| 0 <= i < blocks@.len() ==> (#[trigger] blocks@[i]).wf(),
    ensures
        r.dv() == blocks_value(blocks@),
        r.wf(),
{
    let ghost orig = blocks@;
    let mut rest = blocks;
    let mut out: Vec<DataValue> = Vec::new();
    while rest.len() > 0
        invariant
            out@.len() + rest@.len() == orig.len(),
            rest@ =~= orig.skip(out@.len() as int),
            forall|i: int| 0 <= i < orig.len() ==> (#[trigger] orig[i]).wf(),
            forall|j: int| 0 <= j < out@.len() ==> (#[trigger] out@[j]).dv() == Dv::Obj(
                cb_fields(orig[j]),
            ),
            forall|j: int| 0 <= j < out@.len() ==> (#[trigger] out@[j]).wf(),
        decreases rest.len(),
    {
        let ghost k = out@.len() as int;
        let b = rest.remove(0);
        proof {
            assert(b == orig[k]);
        }
        let fields = b.to_fields();
        out.push(DataValue::Obj(fields));
    }
    let r = DataValue::List(out);
    proof {
        assert(r.dv()->List_0 =~= blocks_value(orig)->List_0);
        assert(r.dv() == blocks_value(orig));
    }
    r
}

fn blocks_from_value(v: &DataValue) -> (r: Option<Vec<ContentBlock>>)
    requires
        v.wf(),
    ensures
        match r {
            Option::Some(bs) => v.dv() == blocks_value(bs@) && forall|i: int|
                0 <= i < bs@.len() ==> (#[trigger] bs@[i]).wf(),
            Option::None => forall|xs: Seq<ContentBlock>|
                (forall|i: int| 0 <= i < xs.len() ==> (#[trigger] xs[i]).wf()) ==> blocks_value(
                    xs,
                ) != v.dv(),
        },
{
    match *v {
        DataValue::List(ref items) => {
            let n: usize = items.len();
            let mut out: Vec<ContentBlock> = Vec::new();
            let mut i: usize = 0;
            while i < n
                invariant
                    v.wf(),
                    *v == DataValue::List(*items),
                    n == items@.len(),
                    0 <= i <= n,
                    out@.len() == i,
                    forall|j: int| 0 <= j < n ==> (#[trigger] items@[j]).wf(),
                    forall|j: int| 0 <= j < i ==> Dv::Obj(
                        cb_fields(#[trigger] out@[j]),
                    ) == items@[j].dv(),
                    forall|j: int| 0 <= j < i ==> (#[trigger] out@[j]).wf(),
                decreases n - i,
            {
                let ghost lv = v.dv()->List_0;
                proof {
                    assert(lv[i as int] == items@[i as int].dv());
                }
                match items[i] {
                    DataValue::Obj(ref d) => {
                        match ContentBlock::from_fields(d.clone()) {
                            Option::Some(b) => {
                                out.push(b);
                            },
                            Option::None => {
                                proof {
                                    assert forall|xs: Seq<ContentBlock>|
                                        (forall|k: int|
                                            0 <= k < xs.len() ==> (
                                            #[trigger] xs[k]).wf()) implies blocks_value(xs)
                                        != v.dv() by {
                                        if blocks_value(xs) == v.dv() {
                                            assert(blocks_value(xs)->List_0.len() == xs.len());
                                            assert(v.dv()->List_0.len() == items@.len());
                                            assert(xs.len() == items@.len());
                                            assert(blocks_value(xs)->List_0[i as int]
                                                == Dv::Obj(cb_fields(xs[i as int])));
                                            assert(xs[i as int].wf());
                                        }
                                    }
                                }
                                return Option::None;
                            },
                        }
                    },
                    _ => {
                        proof {
                            assert forall|xs: Seq<ContentBlock>|
                                (forall|k: int|
                                    0 <= k < xs.len() ==> (
                                    #[trigger] xs[k]).wf()) implies blocks_value(xs)
                                != v.dv() by {
                                if blocks_value(xs) == v.dv() {
                                    assert(blocks_value(xs)->List_0.len() == xs.len());
                                    assert(v.dv()->List_0.len() == items@.len());
                                    assert(xs.len() == items@.len());
                                    assert(blocks_value(xs)->List_0[i as int] == Dv::Obj(
                                        cb_fields(xs[i as int]),
                                    ));
                                }
                            }
                        }
                        return Option::None;
                    },
                }
                i = i + 1;
            }
            proof {
                assert(blocks_value(out@)->List_0 =~= v.dv()->List_0);
                assert(blocks_value(out@) == v.dv());
            }
            Option::Some(out)
        },
        _ => {
            proof {
                assert forall|xs: Seq<ContentBlock>|
                    (forall|k: int| 0 <= k < xs.len() ==> (#[trigger] xs[k]).wf()) implies
                    blocks_value(xs) != v.dv() by {}
            }
            Option::None
        },
    }
}

fn calls_to_value(calls: Vec<ToolCall>) -> (r: DataValue)
    requires
        forall|i: int| 0 <= i < calls@.len() ==> (#[trigger] calls@[i]).wf(),
    ensures
        r.dv() == calls_value(calls@),
        r.wf(),
{
    let ghost orig = calls@;
    let mut rest = calls;
    let mut out: Vec<DataValue> = Vec::new();
    while rest.len() > 0
        invariant
            out@.len() + rest@.len() == orig.len(),
            rest@ =~= orig.skip(out@.len() as int),
            forall|i: int| 0 <= i < orig.len() ==> (#[trigger] orig[i]).wf(),
            forall|j: int| 0 <= j < out@.len() ==> (#[trigger] out@[j]).dv() == Dv::Obj(
                tool_call_fields(orig[j]),
            ),
            forall|j: int| 0 <= j < out@.len() ==> (#[trigger] out@[j]).wf(),
        decreases rest.len(),
    {
        let ghost k = out@.len() as int;
        let c = rest.remove(0);
        proof {
            assert(c == orig[k]);
        }
        let fields = c.to_fields();
        out.push(DataValue::Obj(fields));
    }
    let r = DataValue::List(out);
    proof {
        assert(r.dv()->List_0 =~= calls_value(orig)->List_0);
        assert(r.dv() == calls_value(orig));
    }
    r
}

fn calls_from_value(v: &DataValue) -> (r: Option<Vec<ToolCall>>)
    requires
        v.wf(),
    ensures
        match r {
            Option::Some(cs) => v.dv() == calls_value(cs@) && forall|i: int|
                0 <= i < cs@.len() ==> (#[trigger] cs@[i]).wf(),
            Option::None => forall|xs: Seq<ToolCall>|
                (forall|i: int| 0 <= i < xs.len() ==> (#[trigger] xs[i]).wf()) ==> calls_value(
                    xs,
                ) != v.dv(),
        },
{
    match *v {
        DataValue::List(ref items) => {
            let n: usize = items.len();
            let mut out: Vec<ToolCall> = Vec::new();
            let mut i: usize = 0;
            while i < n
                invariant
                    v.wf(),
                    *v == DataValue::List(*items),
                    n == items@.len(),
                    0 <= i <= n,
                    out@.len() == i,
                    forall|j: int| 0 <= j < n ==> (#[trigger] items@[j]).wf(),
                    forall|j: int| 0 <= j < i ==> Dv::Obj(
                        tool_call_fields(#[trigger] out@[j]),
                    ) == items@[j].dv(),
                    forall|j: int| 0 <= j < i ==> (#[trigger] out@[j]).wf(),
                decreases n - i,
            {
                let ghost lv = v.dv()->List_0;
                proof {
                    assert(lv[i as int] == items@[i as int].dv());
                }
                match items[i] {
                    DataValue::Obj(ref d) => {
                        match ToolCall::from_fields(d.clone()) {
                            Option::Some(c) => {
                                out.push(c);
                            },
                            Option::None => {
                                proof {
                                    assert forall|xs: Seq<ToolCall>|
                                        (forall|k: int|
                                            0 <= k < xs.len() ==> (
                                            #[trigger] xs[k]).wf()) implies calls_value(xs)
                                        != v.dv() by {
                                        if calls_value(xs) == v.dv() {
                                            assert(calls_value(xs)->List_0.len() == xs.len());
                                            assert(v.dv()->List_0.len() == items@.len());
                                            assert(xs.len() == items@.len());
                                            assert(calls_value(xs)->List_0[i as int]
                                                == Dv::Obj(tool_call_fields(xs[i as int])));
                                            assert(xs[i as int].wf());
                                        }
                                    }
                                }
                                return Option::None;
                            },
                        }
                    },
                    _ => {
                        proof {
                            assert forall|xs: Seq<ToolCall>|
                                (forall|k: int|
                                    0 <= k < xs.len() ==> (
                                    #[trigger] xs[k]).wf()) implies calls_value(xs)
                                != v.dv() by {
                                if calls_value(xs) == v.dv() {
                                    assert(calls_value(xs)->List_0.len() == xs.len());
                                    assert(v.dv()->List_0.len() == items@.len());
                                    assert(xs.len() == items@.len());
                                    assert(calls_value(xs)->List_0[i as int] == Dv::Obj(
                                        tool_call_fields(xs[i as int]),
                                    ));
                                }
                            }
                        }
                        return Option::None;
                    },
                }
                i = i + 1;
            }
            proof {
                assert(calls_value(out@)->List_0 =~= v.dv()->List_0);
                assert(calls_value(out@) == v.dv());
            }
            Option::Some(out)
        },
        _ => {
            proof {
                assert forall|xs: Seq<ToolCall>|
                    (forall|k: int| 0 <= k < xs.len() ==> (#[trigger] xs[k]).wf()) implies
                    calls_value(xs) != v.dv() by {}
            }
            Option::None
        },
    }
}

/// A provider response written as one flat field map: the content blocks
/// under `content`, the optional parts only when present, and the
/// extensions alongside.
pub open spec fn chat_response_fields(r: ChatResponse) -> Map<Seq<char>, Dv> {
    let base = r.extensions@.insert("content"@, blocks_value(r.content@));
    let with_calls = match r.tool_calls {
        Option::Some(cs) => base.insert("tool_calls"@, calls_value(cs@)),
        Option::None => base,
    };
    let with_usage = match r.usage {
        Option::Some(u) => with_calls.insert("usage"@, Dv::Obj(usage_fields(u))),
        Option::None => with_calls,
    };
    let with_degradation = match r.degradation {
        Option::Some(d) => with_usage.insert("degradation"@, Dv::Obj(degradation_fields(d))),
        Option::None => with_usage,
    };
    let with_finish = match r.finish_reason {
        Option::Some(f) => with_degradation.insert("finish_reason"@, Dv::Str(f@)),
        Option::None => with_degradation,
    };
    match r.metadata {
        Option::Some(md) => with_finish.insert("metadata"@, Dv::Obj(md@)),
        Option::None => with_finish,
    }
}

impl ChatResponse {
    /// Every carried part is well-formed and the extensions bag shadows no
    /// recognised field.
    pub open spec fn wf(self) -> bool {
        &&& forall|i: int| 0 <= i < self.content@.len() ==> (#[trigger] self.content@[i]).wf()
        &&& match self.tool_calls {
            Option::Some(cs) => forall|i: int| 0 <= i < cs@.len() ==> (#[trigger] cs@[i]).wf(),
            Option::None => true,
        }
        &&& match self.usage {
            Option::Some(u) => u.wf(),
            Option::None => true,
        }
        &&& match self.degradation {
            Option::Some(d) => d.wf(),
            Option::None => true,
        }
        &&& match self.metadata {
            Option::Some(md) => md.wf(),
            Option::None => true,
        }
        &&& self.extensions.wf()
        &&& !self.extensions@.contains_key("content"@)
        &&& !self.extensions@.contains_key("tool_calls"@)
        &&& !self.extensions@.contains_key("usage"@)
        &&& !self.extensions@.contains_key("degradation"@)
        &&& !self.extensions@.contains_key("finish_reason"@)
        &&& !self.extensions@.contains_key("metadata"@)
    }

    /// This response written as one flat field map. The inverse of
    /// [`Self::from_fields`]: together they are the round trip that keeps
    /// every recognised field and every unknown top-level key.
    pub fn to_fields(self) -> (r: DataMap)
        requires
            self.wf(),
        ensures
            r@ == chat_response_fields(self),
            r.wf(),
    {
        let ghost sv = self;
        let mut out = self.extensions;
        out.insert(String::from_str("content"), blocks_to_value(self.content));
        match self.tool_calls {
            Option::Some(cs) => {
                out.insert(String::from_str("tool_calls"), calls_to_value(cs));
            },
            Option::None => {},
        }
        match self.usage {
            Option::Some(u) => {
                out.insert(String::from_str("usage"), DataValue::Obj(u.to_fields()));
            },
            Option::None => {},
        }
        match self.degradation {
            Option::Some(d) => {
                out.insert(String::from_str("degradation"), DataValue::Obj(d.to_fields()));
            },
            Option::None => {},
        }
        match self.finish_reason {
            Option::Some(f) => {
                out.insert(String::from_str("finish_reason"), DataValue::Str(f));
            },
            Option::None => {},
        }
        match self.metadata {
            Option::Some(md) => {
                out.insert(String::from_str("metadata"), DataValue::Obj(md));
            },
            Option::None => {},
        }
        proof {
            assert(out@ =~= chat_response_fields(sv));
        }
        out
    }

    /// Read a flat field map back as a provider response; unknown top-level
    /// keys land in the extensions bag. `None` when a recognised field has
    /// the wrong shape: no well-formed response writes such a map.
    #[verifier::rlimit(100)]
    pub fn from_fields(m: DataMap) -> (r: Option<ChatResponse>)
        requires
            m.wf(),
        ensures
            match r {
                Option::Some(resp) => chat_response_fields(resp) == m@ && resp.wf(),
                Option::None => forall|x: ChatResponse| x.wf() ==> chat_response_fields(x)
                    != m@,
            },
    {
        proof {
            reveal_strlit("content");
            reveal_strlit("tool_calls");
            reveal_strlit("usage");
            reveal_strlit("degradation");
            reveal_strlit("finish_reason");
            reveal_strlit("metadata");
            assert("content"@.len() == 7);
            assert("tool_calls"@.len() == 10);
            assert("usage"@.len() == 5);
            assert("degradation"@.len() == 11);
            assert("finish_reason"@.len() == 13);
            assert("metadata"@.len() == 8);
        }
        let content: Vec<ContentBlock> = match m.get("content") {
            Option::Some(v) => match blocks_from_value(v) {
                Option::Some(bs) => bs,
                Option::None => {
                    proof {
                        assert forall|x: ChatResponse| x.wf() implies chat_response_fields(x)
                            != m@ by {
                            assert(chat_response_fields(x)["content"@] == blocks_value(
                                x.content@,
                            ));
                        }
                    }
                    return Option::None;
                },
            },
            Option::None => {
                proof {
                    assert forall|x: ChatResponse| x.wf() implies chat_response_fields(x)
                        != m@ by {
                        assert(chat_response_fields(x).contains_key("content"@));
                    }
                }
                return Option::None;
            },
        };
        let tool_calls: Option<Vec<ToolCall>> = match m.get("tool_calls") {
            Option::Some(v) => match calls_from_value(v) {
                Option::Some(cs) => Option::Some(cs),
                Option::None => {
                    proof {
                        assert forall|x: ChatResponse| x.wf() implies chat_response_fields(x)
                            != m@ by {
                            if chat_response_fields(x) == m@ {
                                assert(x.tool_calls is Some);
                                assert(chat_response_fields(x)["tool_calls"@] == calls_value(
                                    x.tool_calls.unwrap()@,
                                ));
                            }
                        }
                    }
                    return Option::None;
                },
            },
            Option::None => Option::None,
        };
        let usage: Option<Usage> = match m.get("usage") {
            Option::Some(v) => match *v {
                DataValue::Obj(ref d) => match Usage::from_fields(d.clone()) {
                    Option::Some(u) => Option::Some(u),
                    Option::None => {
                        proof {
                            assert forall|x: ChatResponse|
                                x.wf() implies chat_response_fields(x) != m@ by {
                                if chat_response_fields(x) == m@ {
                                    assert(x.usage is Some);
                                    assert(chat_response_fields(x)["usage"@] == Dv::Obj(
                                        usage_fields(x.usage.unwrap()),
                                    ));
                                }
                            }
                        }
                        return Option::None;
                    },
                },
                _ => {
                    proof {
                        assert forall|x: ChatResponse| x.wf() implies chat_response_fields(x)
                            != m@ by {
                            if chat_response_fields(x) == m@ {
                                assert(x.usage is Some);
                                assert(chat_response_fields(x)["usage"@] == Dv::Obj(
                                    usage_fields(x.usage.unwrap()),
                                ));
                            }
                        }
                    }
                    return Option::None;
                },
            },
            Option::None => Option::None,
        };
        let degradation: Option<Degradation> = match m.get("degradation") {
            Option::Some(v) => match *v {
                DataValue::Obj(ref d) => match Degradation::from_fields(d.clone()) {
                    Option::Some(dg) => Option::Some(dg),
                    Option::None => {
                        proof {
                            assert forall|x: ChatResponse|
                                x.wf() implies chat_response_fields(x) != m@ by {
                                if chat_response_fields(x) == m@ {
                                    assert(x.degradation is Some);
                                    assert(chat_response_fields(x)["degradation"@] == Dv::Obj(
                                        degradation_fields(x.degradation.unwrap()),
                                    ));
                                }
                            }
                        }
                        return Option::None;
                    },
                },
                _ => {
                    proof {
                        assert forall|x: ChatResponse| x.wf() implies chat_response_fields(x)
                            != m@ by {
                            if chat_response_fields(x) == m@ {
                                assert(x.degradation is Some);
                                assert(chat_response_fields(x)["degradation"@] == Dv::Obj(
                                    degradation_fields(x.degradation.unwrap()),
                                ));
                            }
                        }
                    }
                    return Option::None;
                },
            },
            Option::None => Option::None,
        };
        let finish_reason: Option<String> = match m.get("finish_reason") {
            Option::Some(v) => match *v {
                DataValue::Str(ref f) => Option::Some(f.clone()),
                _ => {
                    proof {
                        assert forall|x: ChatResponse| x.wf() implies chat_response_fields(x)
                            != m@ by {
                            if chat_response_fields(x) == m@ {
                                assert(x.finish_reason is Some);
                                assert(chat_response_fields(x)["finish_reason"@] == Dv::Str(
                                    x.finish_reason.unwrap()@,
                                ));
                            }
                        }
                    }
                    return Option::None;
                },
            },
            Option::None => Option::None,
        };
        let metadata: Option<DataMap> = match m.get("metadata") {
            Option::Some(v) => match *v {
                DataValue::Obj(ref d) => Option::Some(d.clone()),
                _ => {
                    proof {
                        assert forall|x: ChatResponse| x.wf() implies chat_response_fields(x)
                            != m@ by {
                            if chat_response_fields(x) == m@ {
                                assert(x.metadata is Some);
                                assert(chat_response_fields(x)["metadata"@] == Dv::Obj(
                                    x.metadata.unwrap()@,
                                ));
                            }
                        }
                    }
                    return Option::None;
                },
            },
            Option::None => Option::None,
        };
        let mut extensions = m;
        extensions.remove_entry("content");
        extensions.remove_entry("tool_calls");
        extensions.remove_entry("usage");
        extensions.remove_entry("degradation");
        extensions.remove_entry("finish_reason");
        extensions.remove_entry("metadata");
        let out = ChatResponse {
            content,
            tool_calls,
            usage,
            degradation,
            finish_reason,
            metadata,
            extensions,
        };
        proof {
            assert(chat_response_fields(out) =~= m@);
        }
        Option::Some(out)
    }
}

/// The wire word of a message role.
pub open spec fn role_word(r: Role) -> Seq<char> {
    match r {
        Role::System => "system"@,
        Role::Developer => "developer"@,
        Role::User => "user"@,
        Role::Assistant => "assistant"@,
        Role::Function => "function"@,
        Role::Tool => "tool"@,
    }
}

/// Message content as one value: a plain string, or the list of block
/// field maps.
pub open spec fn message_content_value(c: MessageContent) -> Dv {
    match c {
        MessageContent::Text(s) => Dv::Str(s@),
        MessageContent::Blocks(v) => blocks_value(v@),
    }
}

impl MessageContent {
    /// Structured content carries only well-formed blocks.
    pub open spec fn wf(self) -> bool {
        match self {
            MessageContent::Text(_) => true,
            MessageContent::Blocks(v) => forall|i: int|
                0 <= i < v@.len() ==> (#[trigger] v@[i]).wf(),
        }
    }
}

fn message_content_to_value(c: MessageContent) -> (r: DataValue)
    requires
        c.wf(),
    ensures
        r.dv() == message_content_value(c),
        r.wf(),
{
    match c {
        MessageContent::Text(s) => DataValue::Str(s),
        MessageContent::Blocks(v) => blocks_to_value(v),
    }
}

fn message_content_from_value(v: &DataValue) -> (r: Option<MessageContent>)
    requires
        v.wf(),
    ensures
        match r {
            Option::Some(c) => message_content_value(c) == v.dv() && c.wf(),
            Option::None => forall|c: MessageContent| c.wf() ==> message_content_value(c)
                != v.dv(),
        },
{
    match *v {
        DataValue::Str(ref s) => Option::Some(MessageContent::Text(s.clone())),
        DataValue::List(_) => match blocks_from_value(v) {
            Option::Some(bs) => Option::Some(MessageContent::Blocks(bs)),
            Option::None => {
                proof {
                    assert forall|c: MessageContent| c.wf() implies message_content_value(c)
                        != v.dv() by {
                        match c {
                            MessageContent::Text(_) => {},
                            MessageContent::Blocks(xs) => {
                                assert(forall|i: int|
                                    0 <= i < xs@.len() ==> (#[trigger] xs@[i]).wf());
                            },
                        }
                    }
                }
                Option::None
            },
        },
        _ => {
            proof {
                assert forall|c: MessageContent| c.wf() implies message_content_value(c)
                    != v.dv() by {}
            }
            Option::None
        },
    }
}

/// A message written as one flat field map.
pub open spec fn message_fields(msg: Message) -> Map<Seq<char>, Dv> {
    let base = msg.extensions@.insert("role"@, Dv::Str(role_word(msg.role))).insert(
        "content"@,
        message_content_value(msg.content),
    );
    let with_name = match msg.name {
        Option::Some(n) => base.insert("name"@, Dv::Str(n@)),
        Option::None => base,
    };
    let with_id = match msg.tool_call_id {
        Option::Some(t) => with_name.insert("tool_call_id"@, Dv::Str(t@)),
        Option::None => with_name,
    };
    match msg.metadata {
        Option::Some(md) => with_id.insert("metadata"@, Dv::Obj(md@)),
        Option::None => with_id,
    }
}

impl Message {
    /// Every carried part is well-formed and the extensions bag shadows no
    /// recognised field.
    pub open spec fn wf(self) -> bool {
        &&& self.content.wf()
        &&& match self.metadata {
            Option::Some(md) => md.wf(),
            Option::None => true,
        }
        &&& self.extensions.wf()
        &&& !self.extensions@.contains_key("role"@)
        &&& !self.extensions@.contains_key("content"@)
        &&& !self.extensions@.contains_key("name"@)
        &&& !self.extensions@.contains_key("tool_call_id"@)
        &&& !self.extensions@.contains_key("metadata"@)
    }

    /// This message written as one flat field map. The inverse of
    /// [`Self::from_fields`].
    pub fn to_fields(self) -> (r: DataMap)
        requires
            self.wf(),
        ensures
            r@ == message_fields(self),
            r.wf(),
    {
        let ghost sv = self;
        let mut out = self.extensions;
        let role_text: String = match self.role {
            Role::System => String::from_str("system"),
            Role::Developer => String::from_str("developer"),
            Role::User => String::from_str("user"),
            Role::Assistant => String::from_str("assistant"),
            Role::Function => String::from_str("function"),
            Role::Tool => String::from_str("tool"),
        };
        out.insert(String::from_str("role"), DataValue::Str(role_text));
        out.insert(String::from_str("content"), message_content_to_value(self.content));
        match self.name {
            Option::Some(n) => {
                out.insert(String::from_str("name"), DataValue::Str(n));
            },
            Option::None => {},
        }
        match self.tool_call_id {
            Option::Some(t) => {
                out.insert(String::from_str("tool_call_id"), DataValue::Str(t));
            },
            Option::None => {},
        }
        match self.metadata {
            Option::Some(md) => {
                out.insert(String::from_str("metadata"), DataValue::Obj(md));
            },
            Option::None => {},
        }
        proof {
            assert(out@ =~= message_fields(sv));
        }
        out
    }

    /// Read a flat field map back as a message; unknown keys land in the
    /// extensions bag. `None` when a field has the wrong shape: no
    /// well-formed message writes such a map.
    #[verifier::rlimit(60)]
    pub fn from_fields(m: DataMap) -> (r: Option<Message>)
        requires
            m.wf(),
        ensures
            match r {
                Option::Some(msg) => message_fields(msg) == m@ && msg.wf(),
                Option::None => forall|x: Message| x.wf() ==> message_fields(x) != m@,
            },
    {
        proof {
            reveal_strlit("role");
            reveal_strlit("content");
            reveal_strlit("name");
            reveal_strlit("tool_call_id");
            reveal_strlit("metadata");
            reveal_strlit("system");
            reveal_strlit("developer");
            reveal_strlit("user");
            reveal_strlit("assistant");
            reveal_strlit("function");
            reveal_strlit("tool");
            assert("role"@.len() == 4);
            assert("content"@.len() == 7);
            assert("name"@.len() == 4);
            assert("tool_call_id"@.len() == 12);
            assert("metadata"@.len() == 8);
            assert("role"@[0] == 'r' && "name"@[0] == 'n');
            assert("system"@.len() == 6);
            assert("developer"@.len() == 9);
            assert("user"@.len() == 4);
            assert("assistant"@.len() == 9);
            assert("function"@.len() == 8);
            assert("tool"@.len() == 4);
            assert("developer"@[0] == 'd' && "assistant"@[0] == 'a');
            assert("user"@[0] == 'u' && "tool"@[0] == 't');
        }
        let role: Role = match read_req_text(&m, "role") {
            Option::Some(word) => {
                if word == String::from_str("system") {
                    Role::System
                } else if word == String::from_str("developer") {
                    Role::Developer
                } else if word == String::from_str("user") {
                    Role::User
                } else if word == String::from_str("assistant") {
                    Role::Assistant
                } else if word == String::from_str("function") {
                    Role::Function
                } else if word == String::from_str("tool") {
                    Role::Tool
                } else {
                    proof {
                        assert forall|x: Message| x.wf() implies message_fields(x) != m@ by {
                            if message_fields(x) == m@ {
                                assert(message_fields(x)["role"@] == Dv::Str(role_word(x.role)));
                                match x.role {
                                    Role::System => {},
                                    Role::Developer => {},
                                    Role::User => {},
                                    Role::Assistant => {},
                                    Role::Function => {},
                                    Role::Tool => {},
                                }
                            }
                        }
                    }
                    return Option::None;
                }
            },
            Option::None => {
                proof {
                    assert forall|x: Message| x.wf() implies message_fields(x) != m@ by {
                        assert(message_fields(x)["role"@] == Dv::Str(role_word(x.role)));
                    }
                }
                return Option::None;
            },
        };
        let content: MessageContent = match m.get("content") {
            Option::Some(v) => match message_content_from_value(v) {
                Option::Some(c) => c,
                Option::None => {
                    proof {
                        assert forall|x: Message| x.wf() implies message_fields(x) != m@ by {
                            if message_fields(x) == m@ {
                                assert(message_fields(x)["content"@] == message_content_value(
                                    x.content,
                                ));
                            }
                        }
                    }
                    return Option::None;
                },
            },
            Option::None => {
                proof {
                    assert forall|x: Message| x.wf() implies message_fields(x) != m@ by {
                        assert(message_fields(x).contains_key("content"@));
                    }
                }
                return Option::None;
            },
        };
        let name: Option<String> = match m.get("name") {
            Option::Some(v) => match *v {
                DataValue::Str(ref n) => Option::Some(n.clone()),
                _ => {
                    proof {
                        assert forall|x: Message| x.wf() implies message_fields(x) != m@ by {
                            if message_fields(x) == m@ {
                                assert(x.name is Some);
                                assert(message_fields(x)["name"@] == Dv::Str(x.name.unwrap()@));
                            }
                        }
                    }
                    return Option::None;
                },
            },
            Option::None => Option::None,
        };
        let tool_call_id: Option<String> = match m.get("tool_call_id") {
            Option::Some(v) => match *v {
                DataValue::Str(ref t) => Option::Some(t.clone()),
                _ => {
                    proof {
                        assert forall|x: Message| x.wf() implies message_fields(x) != m@ by {
                            if message_fields(x) == m@ {
                                assert(x.tool_call_id is Some);
                                assert(message_fields(x)["tool_call_id"@] == Dv::Str(
                                    x.tool_call_id.unwrap()@,
                                ));
                            }
                        }
                    }
                    return Option::None;
                },
            },
            Option::None => Option::None,
        };
        let metadata: Option<DataMap> = match m.get("metadata") {
            Option::Some(v) => match *v {
                DataValue::Obj(ref d) => Option::Some(d.clone()),
                _ => {
                    proof {
                        assert forall|x: Message| x.wf() implies message_fields(x) != m@ by {
                            if message_fields(x) == m@ {
                                assert(x.metadata is Some);
                                assert(message_fields(x)["metadata"@] == Dv::Obj(
                                    x.metadata.unwrap()@,
                                ));
                            }
                        }
                    }
                    return Option::None;
                },
            },
            Option::None => Option::None,
        };
        let mut extensions = m;
        extensions.remove_entry("role");
        extensions.remove_entry("content");
        extensions.remove_entry("name");
        extensions.remove_entry("tool_call_id");
        extensions.remove_entry("metadata");
        let out = Message { role, content, name, tool_call_id, metadata, extensions };
        proof {
            assert(message_fields(out) =~= m@);
        }
        Option::Some(out)
    }
}

/// A list of messages as one value: each message as its field map.
pub open spec fn messages_value(v: Seq<Message>) -> Dv {
    Dv::List(Seq::new(v.len(), |i: int| Dv::Obj(message_fields(v[i]))))
}

fn messages_to_value(msgs: Vec<Message>) -> (r: DataValue)
    requires
        forall|i: int| 0 <= i < msgs@.len() ==> (#[trigger] msgs@[i]).wf(),
    ensures
        r.dv() == messages_value(msgs@),
        r.wf(),
{
    let ghost orig = msgs@;
    let mut rest = msgs;
    let mut out: Vec<DataValue> = Vec::new();
    while rest.len() > 0
        invariant
            out@.len() + rest@.len() == orig.len(),
            rest@ =~= orig.skip(out@.len() as int),
            forall|i: int| 0 <= i < orig.len() ==> (#[trigger] orig[i]).wf(),
            forall|j: int| 0 <= j < out@.len() ==> (#[trigger] out@[j]).dv() == Dv::Obj(
                message_fields(orig[j]),
            ),
            forall|j: int| 0 <= j < out@.len() ==> (#[trigger] out@[j]).wf(),
        decreases rest.len(),
    {
        let ghost k = out@.len() as int;
        let msg = rest.remove(0);
        proof {
            assert(msg == orig[k]);
        }
        let fields = msg.to_fields();
        out.push(DataValue::Obj(fields));
    }
    let r = DataValue::List(out);
    proof {
        assert(r.dv()->List_0 =~= messages_value(orig)->List_0);
        assert(r.dv() == messages_value(orig));
    }
    r
}

fn messages_from_value(v: &DataValue) -> (r: Option<Vec<Message>>)
    requires
        v.wf(),
    ensures
        match r {
            Option::Some(ms) => v.dv() == messages_value(ms@) && forall|i: int|
                0 <= i < ms@.len() ==> (#[trigger] ms@[i]).wf(),
            Option::None => forall|xs: Seq<Message>|
                (forall|i: int| 0 <= i < xs.len() ==> (#[trigger] xs[i]).wf())
                    ==> messages_value(xs) != v.dv(),
        },
{
    match *v {
        DataValue::List(ref items) => {
            let n: usize = items.len();
            let mut out: Vec<Message> = Vec::new();
            let mut i: usize = 0;
            while i < n
                invariant
                    v.wf(),
                    *v == DataValue::List(*items),
                    n == items@.len(),
                    0 <= i <= n,
                    out@.len() == i,
                    forall|j: int| 0 <= j < n ==> (#[trigger] items@[j]).wf(),
                    forall|j: int| 0 <= j < i ==> Dv::Obj(
                        message_fields(#[trigger] out@[j]),
                    ) == items@[j].dv(),
                    forall|j: int| 0 <= j < i ==> (#[trigger] out@[j]).wf(),
                decreases n - i,
            {
                let ghost lv = v.dv()->List_0;
                proof {
                    assert(lv[i as int] == items@[i as int].dv());
                }
                match items[i] {
                    DataValue::Obj(ref d) => {
                        match Message::from_fields(d.clone()) {
                            Option::Some(msg) => {
                                out.push(msg);
                            },
                            Option::None => {
                                proof {
                                    assert forall|xs: Seq<Message>|
                                        (forall|k: int|
                                            0 <= k < xs.len() ==> (
                                            #[trigger] xs[k]).wf()) implies messages_value(xs)
                                        != v.dv() by {
                                        if messages_value(xs) == v.dv() {
                                            assert(messages_value(xs)->List_0.len()
                                                == xs.len());
                                            assert(v.dv()->List_0.len() == items@.len());
                                            assert(xs.len() == items@.len());
                                            assert(messages_value(xs)->List_0[i as int]
                                                == Dv::Obj(message_fields(xs[i as int])));
                                            assert(xs[i as int].wf());
                                        }
                                    }
                                }
                                return Option::None;
                            },
                        }
                    },
                    _ => {
                        proof {
                            assert forall|xs: Seq<Message>|
                                (forall|k: int|
                                    0 <= k < xs.len() ==> (
                                    #[trigger] xs[k]).wf()) implies messages_value(xs)
                                != v.dv() by {
                                if messages_value(xs) == v.dv() {
                                    assert(messages_value(xs)->List_0.len() == xs.len());
                                    assert(v.dv()->List_0.len() == items@.len());
                                    assert(xs.len() == items@.len());
                                    assert(messages_value(xs)->List_0[i as int] == Dv::Obj(
                                        message_fields(xs[i as int]),
                                    ));
                                }
                            }
                        }
                        return Option::None;
                    },
                }
                i = i + 1;
            }
            proof {
                assert(messages_value(out@)->List_0 =~= v.dv()->List_0);
                assert(messages_value(out@) == v.dv());
            }
            Option::Some(out)
        },
        _ => {
            proof {
                assert forall|xs: Seq<Message>|
                    (forall|k: int| 0 <= k < xs.len() ==> (#[trigger] xs[k]).wf()) implies
                    messages_value(xs) != v.dv() by {}
            }
            Option::None
        },
    }
}

/// A tool spec written as one flat field map.
pub open spec fn tool_spec_fields(t: ToolSpec) -> Map<Seq<char>, Dv> {
    let base = t.extensions@.insert("name"@, Dv::Str(t.name@)).insert(
        "parameters"@,
        Dv::Obj(t.parameters@),
    );
    match t.description {
        Option::Some(d) => base.insert("description"@, Dv::Str(d@)),
        Option::None => base,
    }
}

impl ToolSpec {
    /// Maps are well-formed and the extensions bag shadows no field.
    pub open spec fn wf(self) -> bool {
        &&& self.parameters.wf()
        &&& self.extensions.wf()
        &&& !self.extensions@.contains_key("name"@)
        &&& !self.extensions@.contains_key("parameters"@)
        &&& !self.extensions@.contains_key("description"@)
    }

    /// This spec written as one flat field map. The inverse of
    /// [`Self::from_fields`].
    pub fn to_fields(self) -> (r: DataMap)
        requires
            self.wf(),
        ensures
            r@ == tool_spec_fields(self),
            r.wf(),
    {
        let ghost sv = self;
        let mut out = self.extensions;
        out.insert(String::from_str("name"), DataValue::Str(self.name));
        out.insert(String::from_str("parameters"), DataValue::Obj(self.parameters));
        match self.description {
            Option::Some(d) => {
                out.insert(String::from_str("description"), DataValue::Str(d));
            },
            Option::None => {},
        }
        proof {
            assert(out@ =~= tool_spec_fields(sv));
        }
        out
    }

    /// Read a flat field map back as a tool spec. `None` when a field has
    /// the wrong shape: no well-formed spec writes such a map.
    pub fn from_fields(m: DataMap) -> (r: Option<ToolSpec>)
        requires
            m.wf(),
        ensures
            match r {
                Option::Some(t) => tool_spec_fields(t) == m@ && t.wf(),
                Option::None => forall|x: ToolSpec| x.wf() ==> tool_spec_fields(x) != m@,
            },
    {
        proof {
            reveal_strlit("name");
            reveal_strlit("parameters");
            reveal_strlit("description");
            assert("name"@.len() == 4);
            assert("parameters"@.len() == 10);
            assert("description"@.len() == 11);
        }
        let name: String = match read_req_text(&m, "name") {
            Option::Some(t) => t,
            Option::None => {
                proof {
                    assert forall|x: ToolSpec| x.wf() implies tool_spec_fields(x) != m@ by {
                        assert(tool_spec_fields(x)["name"@] == Dv::Str(x.name@));
                    }
                }
                return Option::None;
            },
        };
        let parameters: DataMap = match read_obj_field(&m, "parameters") {
            Option::Some(d) => d,
            Option::None => {
                proof {
                    assert forall|x: ToolSpec| x.wf() implies tool_spec_fields(x) != m@ by {
                        assert(tool_spec_fields(x)["parameters"@] == Dv::Obj(x.parameters@));
                    }
                }
                return Option::None;
            },
        };
        let description: Option<String> = match m.get("description") {
            Option::Some(v) => match *v {
                DataValue::Str(ref d) => Option::Some(d.clone()),
                _ => {
                    proof {
                        assert forall|x: ToolSpec| x.wf() implies tool_spec_fields(x)
                            != m@ by {
                            if tool_spec_fields(x) == m@ {
                                assert(x.description is Some);
                                assert(tool_spec_fields(x)["description"@] == Dv::Str(
                                    x.description.unwrap()@,
                                ));
                            }
                        }
                    }
                    return Option::None;
                },
            },
            Option::None => Option::None,
        };
        let mut extensions = m;
        extensions.remove_entry("name");
        extensions.remove_entry("parameters");
        extensions.remove_entry("description");
        let out = ToolSpec { name, parameters, description, extensions };
        proof {
            assert(tool_spec_fields(out) =~= m@);
        }
        Option::Some(out)
    }
}

/// A list of tool specs as one value: each spec as its field map.
pub open spec fn specs_value(v: Seq<ToolSpec>) -> Dv {
    Dv::List(Seq::new(v.len(), |i: int| Dv::Obj(tool_spec_fields(v[i]))))
}

fn specs_to_value(specs: Vec<ToolSpec>) -> (r: DataValue)
    requires
        forall|i: int| 0 <= i < specs@.len() ==> (#[trigger] specs@[i]).wf(),
    ensures
        r.dv() == specs_value(specs@),
        r.wf(),
{
    let ghost orig = specs@;
    let mut rest = specs;
    let mut out: Vec<DataValue> = Vec::new();
    while rest.len() > 0
        invariant
            out@.len() + rest@.len() == orig.len(),
            rest@ =~= orig.skip(out@.len() as int),
            forall|i: int| 0 <= i < orig.len() ==> (#[trigger] orig[i]).wf(),
            forall|j: int| 0 <= j < out@.len() ==> (#[trigger] out@[j]).dv() == Dv::Obj(
                tool_spec_fields(orig[j]),
            ),
            forall|j: int| 0 <= j < out@.len() ==> (#[trigger] out@[j]).wf(),
        decreases rest.len(),
    {
        let ghost k = out@.len() as int;
        let sp = rest.remove(0);
        proof {
            assert(sp == orig[k]);
        }
        let fields = sp.to_fields();
        out.push(DataValue::Obj(fields));
    }
    let r = DataValue::List(out);
    proof {
        assert(r.dv()->List_0 =~= specs_value(orig)->List_0);
        assert(r.dv() == specs_value(orig));
    }
    r
}

fn specs_from_value(v: &DataValue) -> (r: Option<Vec<ToolSpec>>)
    requires
        v.wf(),
    ensures
        match r {
            Option::Some(ts) => v.dv() == specs_value(ts@) && forall|i: int|
                0 <= i < ts@.len() ==> (#[trigger] ts@[i]).wf(),
            Option::None => forall|xs: Seq<ToolSpec>|
                (forall|i: int| 0 <= i < xs.len() ==> (#[trigger] xs[i]).wf()) ==> specs_value(
                    xs,
                ) != v.dv(),
        },
{
    match *v {
        DataValue::List(ref items) => {
            let n: usize = items.len();
            let mut out: Vec<ToolSpec> = Vec::new();
            let mut i: usize = 0;
            while i < n
                invariant
                    v.wf(),
                    *v == DataValue::List(*items),
                    n == items@.len(),
                    0 <= i <= n,
                    out@.len() == i,
                    forall|j: int| 0 <= j < n ==> (#[trigger] items@[j]).wf(),
                    forall|j: int| 0 <= j < i ==> Dv::Obj(
                        tool_spec_fields(#[trigger] out@[j]),
                    ) == items@[j].dv(),
                    forall|j: int| 0 <= j < i ==> (#[trigger] out@[j]).wf(),
                decreases n - i,
            {
                let ghost lv = v.dv()->List_0;
                proof {
                    assert(lv[i as int] == items@[i as int].dv());
                }
                match items[i] {
                    DataValue::Obj(ref d) => {
                        match ToolSpec::from_fields(d.clone()) {
                            Option::Some(sp) => {
                                out.push(sp);
                            },
                            Option::None => {
                                proof {
                                    assert forall|xs: Seq<ToolSpec>|
                                        (forall|k: int|
                                            0 <= k < xs.len() ==> (
                                            #[trigger] xs[k]).wf()) implies specs_value(xs)
                                        != v.dv() by {
                                        if specs_value(xs) == v.dv() {
                                            assert(specs_value(xs)->List_0.len() == xs.len());
                                            assert(v.dv()->List_0.len() == items@.len());
                                            assert(xs.len() == items@.len());
                                            assert(specs_value(xs)->List_0[i as int]
                                                == Dv::Obj(tool_spec_fields(xs[i as int])));
                                            assert(xs[i as int].wf());
                                        }
                                    }
                                }
                                return Option::None;
                            },
                        }
                    },
                    _ => {
                        proof {
                            assert forall|xs: Seq<ToolSpec>|
                                (forall|k: int|
                                    0 <= k < xs.len() ==> (
                                    #[trigger] xs[k]).wf()) implies specs_value(xs)
                                != v.dv() by {
                                if specs_value(xs) == v.dv() {
                                    assert(specs_value(xs)->List_0.len() == xs.len());
                                    assert(v.dv()->List_0.len() == items@.len());
                                    assert(xs.len() == items@.len());
                                    assert(specs_value(xs)->List_0[i as int] == Dv::Obj(
                                        tool_spec_fields(xs[i as int]),
                                    ));
                                }
                            }
                        }
                        return Option::None;
                    },
                }
                i = i + 1;
            }
            proof {
                assert(specs_value(out@)->List_0 =~= v.dv()->List_0);
                assert(specs_value(out@) == v.dv());
            }
            Option::Some(out)
        },
        _ => {
            proof {
                assert forall|xs: Seq<ToolSpec>|
                    (forall|k: int| 0 <= k < xs.len() ==> (#[trigger] xs[k]).wf()) implies
                    specs_value(xs) != v.dv() by {}
            }
            Option::None
        },
    }
}

/// A response format as one value: a small tagged object.
pub open spec fn response_format_value(f: ResponseFormat) -> Dv {
    match f {
        ResponseFormat::Text => Dv::Obj(
        Map::<Seq<char>, Dv>::empty().insert("type"@, Dv::Str("text"@))),
        ResponseFormat::Json => Dv::Obj(
        Map::<Seq<char>, Dv>::empty().insert("type"@, Dv::Str("json"@))),
        ResponseFormat::JsonSchema { schema, strict } => Dv::Obj(
            match strict {
                Option::Some(b) => Map::<Seq<char>, Dv>::empty().insert(
                    "type"@,
                    Dv::Str("json_schema"@),
                ).insert("schema"@, Dv::Obj(schema@)).insert("strict"@, Dv::Bool(b)),
                Option::None => Map::<Seq<char>, Dv>::empty().insert(
                    "type"@,
                    Dv::Str("json_schema"@),
                ).insert("schema"@, Dv::Obj(schema@)),
            },
        ),
    }
}

impl ResponseFormat {
    /// A schema map, when carried, is well-formed.
    pub open spec fn wf(self) -> bool {
        match self {
            ResponseFormat::JsonSchema { schema, .. } => schema.wf(),
            _ => true,
        }
    }
}

fn response_format_to_value(f: ResponseFormat) -> (r: DataValue)
    requires
        f.wf(),
    ensures
        r.dv() == response_format_value(f),
        r.wf(),
{
    let ghost fv = f;
    let mut out = DataMap::new();
    match f {
        ResponseFormat::Text => {
            out.insert(String::from_str("type"), DataValue::Str(String::from_str("text")));
        },
        ResponseFormat::Json => {
            out.insert(String::from_str("type"), DataValue::Str(String::from_str("json")));
        },
        ResponseFormat::JsonSchema { schema, strict } => {
            out.insert(
                String::from_str("type"),
                DataValue::Str(String::from_str("json_schema")),
            );
            out.insert(String::from_str("schema"), DataValue::Obj(schema));
            match strict {
                Option::Some(b) => {
                    out.insert(String::from_str("strict"), DataValue::Bool(b));
                },
                Option::None => {},
            }
        },
    }
    let r = DataValue::Obj(out);
    proof {
        assert(r.dv()->Obj_0 =~= response_format_value(fv)->Obj_0);
        assert(r.dv() == response_format_value(fv));
    }
    r
}

#[verifier::rlimit(60)]
fn response_format_from_value(v: &DataValue) -> (r: Option<ResponseFormat>)
    requires
        v.wf(),
    ensures
        match r {
            Option::Some(f) => response_format_value(f) == v.dv() && f.wf(),
            Option::None => forall|f: ResponseFormat| f.wf() ==> response_format_value(f)
                != v.dv(),
        },
{
    proof {
        reveal_strlit("type");
        reveal_strlit("text");
        reveal_strlit("json");
        reveal_strlit("json_schema");
        reveal_strlit("schema");
        reveal_strlit("strict");
        assert("type"@.len() == 4);
        assert("text"@.len() == 4);
        assert("json"@.len() == 4);
        assert("json_schema"@.len() == 11);
        assert("schema"@.len() == 6);
        assert("strict"@.len() == 6);
        assert("type"@[1] == 'y' && "text"@[1] == 'e' && "json"@[0] == 'j' && "text"@[0]
            == 't');
        assert("schema"@[1] == 'c' && "strict"@[1] == 't');
    }
    let d: &DataMap = match *v {
        DataValue::Obj(ref dd) => dd,
        _ => {
            proof {
                assert forall|f: ResponseFormat| f.wf() implies response_format_value(f)
                    != v.dv() by {}
            }
            return Option::None;
        },
    };
    let tag: String = match read_req_text(d, "type") {
        Option::Some(t) => t,
        Option::None => {
            proof {
                assert forall|f: ResponseFormat| f.wf() implies response_format_value(f)
                    != v.dv() by {
                    if response_format_value(f) == v.dv() {
                        match f {
                            ResponseFormat::Text => {},
                            ResponseFormat::Json => {},
                            ResponseFormat::JsonSchema { .. } => {},
                        }
                    }
                }
            }
            return Option::None;
        },
    };
    let n: usize = d.len();
    if tag == String::from_str("text") {
        if n == 1 {
            proof {
                assert forall|k: Seq<char>| d@.dom().contains(k) implies k == "type"@ by {
                    if k != "type"@ {
                        assert(d@.dom().remove("type"@).contains(k));
                        vstd::set_lib::lemma_set_empty_equivalency_len(
                            d@.dom().remove("type"@),
                        );
                    }
                }
                assert(d@ =~= Map::<Seq<char>, Dv>::empty().insert("type"@, Dv::Str("text"@)));
            }
            Option::Some(ResponseFormat::Text)
        } else {
            proof {
                assert forall|f: ResponseFormat| f.wf() implies response_format_value(f)
                    != v.dv() by {
                    if response_format_value(f) == v.dv() {
                        match f {
                            ResponseFormat::Text => {
                                assert(v.dv()->Obj_0.dom().len() == 1);
                            },
                            ResponseFormat::Json => {
                                assert(v.dv()->Obj_0.dom().len() == 1);
                            },
                            ResponseFormat::JsonSchema { .. } => {},
                        }
                    }
                }
            }
            Option::None
        }
    } else if tag == String::from_str("json") {
        if n == 1 {
            proof {
                assert forall|k: Seq<char>| d@.dom().contains(k) implies k == "type"@ by {
                    if k != "type"@ {
                        assert(d@.dom().remove("type"@).contains(k));
                        vstd::set_lib::lemma_set_empty_equivalency_len(
                            d@.dom().remove("type"@),
                        );
                    }
                }
                assert(d@ =~= Map::<Seq<char>, Dv>::empty().insert("type"@, Dv::Str("json"@)));
            }
            Option::Some(ResponseFormat::Json)
        } else {
            proof {
                assert forall|f: ResponseFormat| f.wf() implies response_format_value(f)
                    != v.dv() by {
                    if response_format_value(f) == v.dv() {
                        match f {
                            ResponseFormat::Text => {
                                assert(v.dv()->Obj_0.dom().len() == 1);
                            },
                            ResponseFormat::Json => {
                                assert(v.dv()->Obj_0.dom().len() == 1);
                            },
                            ResponseFormat::JsonSchema { .. } => {},
                        }
                    }
                }
            }
            Option::None
        }
    } else if tag == String::from_str("json_schema") {
        let schema: DataMap = match read_obj_field(d, "schema") {
            Option::Some(sch) => sch,
            Option::None => {
                proof {
                    assert forall|f: ResponseFormat| f.wf() implies response_format_value(f)
                        != v.dv() by {
                        if response_format_value(f) == v.dv() {
                            match f {
                                ResponseFormat::Text => {},
                                ResponseFormat::Json => {},
                                ResponseFormat::JsonSchema { schema: sc, .. } => {
                                    assert(v.dv()->Obj_0["schema"@] == Dv::Obj(sc@));
                                },
                            }
                        }
                    }
                }
                return Option::None;
            },
        };
        let strict: Option<bool> = if d.contains_key("strict") {
            match d.get("strict") {
                Option::Some(sv) => match *sv {
                    DataValue::Bool(b) => Option::Some(b),
                    _ => {
                        proof {
                            assert forall|f: ResponseFormat|
                                f.wf() implies response_format_value(f) != v.dv() by {
                                if response_format_value(f) == v.dv() {
                                    match f {
                                        ResponseFormat::Text => {},
                                        ResponseFormat::Json => {},
                                        ResponseFormat::JsonSchema { strict: st, .. } => {
                                            assert(st is Some);
                                            assert(v.dv()->Obj_0["strict"@] == Dv::Bool(
                                                st.unwrap(),
                                            ));
                                        },
                                    }
                                }
                            }
                        }
                        return Option::None;
                    },
                },
                Option::None => Option::None,
            }
        } else {
            Option::None
        };
        let expected: usize = match strict {
            Option::Some(_) => 3,
            Option::None => 2,
        };
        if n == expected {
            proof {
                if strict is Some {
                    assert forall|k: Seq<char>| d@.dom().contains(k) implies k == "type"@ || k
                        == "schema"@ || k == "strict"@ by {
                        if k != "type"@ && k != "schema"@ && k != "strict"@ {
                            assert(d@.dom().remove("type"@).remove("schema"@).remove(
                                "strict"@,
                            ).contains(k));
                            vstd::set_lib::lemma_set_empty_equivalency_len(
                                d@.dom().remove("type"@).remove("schema"@).remove("strict"@),
                            );
                        }
                    }
                } else {
                    assert forall|k: Seq<char>| d@.dom().contains(k) implies k == "type"@ || k
                        == "schema"@ by {
                        if k != "type"@ && k != "schema"@ {
                            assert(d@.dom().remove("type"@).remove("schema"@).contains(k));
                            vstd::set_lib::lemma_set_empty_equivalency_len(
                                d@.dom().remove("type"@).remove("schema"@),
                            );
                        }
                    }
                }
                let out = ResponseFormat::JsonSchema { schema, strict };
                assert(response_format_value(out)->Obj_0 =~= d@);
            }
            Option::Some(ResponseFormat::JsonSchema { schema, strict })
        } else {
            proof {
                assert forall|f: ResponseFormat| f.wf() implies response_format_value(f)
                    != v.dv() by {
                    if response_format_value(f) == v.dv() {
                        match f {
                            ResponseFormat::Text => {},
                            ResponseFormat::Json => {},
                            ResponseFormat::JsonSchema { strict: st, .. } => {
                                if st is Some {
                                    assert(v.dv()->Obj_0.dom().len() == 3);
                                    assert(v.dv()->Obj_0.contains_key("strict"@));
                                } else {
                                    assert(v.dv()->Obj_0.dom().len() == 2);
                                    assert(!v.dv()->Obj_0.contains_key("strict"@));
                                }
                            },
                        }
                    }
                }
            }
            Option::None
        }
    } else {
        proof {
            assert forall|f: ResponseFormat| f.wf() implies response_format_value(f)
                != v.dv() by {
                if response_format_value(f) == v.dv() {
                    match f {
                        ResponseFormat::Text => {},
                        ResponseFormat::Json => {},
                        ResponseFormat::JsonSchema { .. } => {},
                    }
                }
            }
        }
        Option::None
    }
}

/// A tool choice as one value: a plain keyword, or the structured object.
pub open spec fn tool_choice_value(c: ToolChoice) -> Dv {
    match c {
        ToolChoice::Keyword(s) => Dv::Str(s@),
        ToolChoice::Object(m) => Dv::Obj(m@),
    }
}

impl ToolChoice {
    /// A structured choice carries a well-formed map.
    pub open spec fn wf(self) -> bool {
        match self {
            ToolChoice::Keyword(_) => true,
            ToolChoice::Object(m) => m.wf(),
        }
    }
}

fn tool_choice_to_value(c: ToolChoice) -> (r: DataValue)
    requires
        c.wf(),
    ensures
        r.dv() == tool_choice_value(c),
        r.wf(),
{
    match c {
        ToolChoice::Keyword(s) => DataValue::Str(s),
        ToolChoice::Object(m) => DataValue::Obj(m),
    }
}

fn tool_choice_from_value(v: &DataValue) -> (r: Option<ToolChoice>)
    requires
        v.wf(),
    ensures
        match r {
            Option::Some(c) => tool_choice_value(c) == v.dv() && c.wf(),
            Option::None => forall|c: ToolChoice| c.wf() ==> tool_choice_value(c) != v.dv(),
        },
{
    match *v {
        DataValue::Str(ref s) => Option::Some(ToolChoice::Keyword(s.clone())),
        DataValue::Obj(ref m) => Option::Some(ToolChoice::Object(m.clone())),
        _ => {
            proof {
                assert forall|c: ToolChoice| c.wf() implies tool_choice_value(c) != v.dv() by {}
            }
            Option::None
        },
    }
}

/// A list of plain texts as one value.
pub open spec fn texts_value(v: Seq<Seq<char>>) -> Dv {
    Dv::List(Seq::new(v.len(), |i: int| Dv::Str(v[i])))
}

fn texts_to_value(texts: Vec<String>) -> (r: DataValue)
    ensures
        r.dv() == texts_value(texts.deep_view()),
        r.wf(),
{
    let ghost orig = texts.deep_view();
    let mut rest = texts;
    let mut out: Vec<DataValue> = Vec::new();
    while rest.len() > 0
        invariant
            out@.len() + rest@.len() == orig.len(),
            forall|j: int|
                0 <= j < rest@.len() ==> (#[trigger] rest@[j])@ == orig[out@.len() + j],
            forall|j: int| 0 <= j < out@.len() ==> (#[trigger] out@[j]).dv() == Dv::Str(
                orig[j],
            ),
            forall|j: int| 0 <= j < out@.len() ==> (#[trigger] out@[j]).wf(),
        decreases rest.len(),
    {
        let t = rest.remove(0);
        out.push(DataValue::Str(t));
    }
    let r = DataValue::List(out);
    proof {
        assert(r.dv()->List_0 =~= texts_value(orig)->List_0);
        assert(r.dv() == texts_value(orig));
    }
    r
}

fn texts_from_value(v: &DataValue) -> (r: Option<Vec<String>>)
    requires
        v.wf(),
    ensures
        match r {
            Option::Some(ts) => v.dv() == texts_value(ts.deep_view()),
            Option::None => forall|xs: Seq<Seq<char>>| texts_value(xs) != v.dv(),
        },
{
    match *v {
        DataValue::List(ref items) => {
            let n: usize = items.len();
            let mut out: Vec<String> = Vec::new();
            let mut i: usize = 0;
            while i < n
                invariant
                    v.wf(),
                    *v == DataValue::List(*items),
                    n == items@.len(),
                    0 <= i <= n,
                    out@.len() == i,
                    forall|j: int| 0 <= j < i ==> Dv::Str((#[trigger] out@[j])@)
                        == items@[j].dv(),
                decreases n - i,
            {
                let ghost lv = v.dv()->List_0;
                proof {
                    assert(lv[i as int] == items@[i as int].dv());
                }
                match items[i] {
                    DataValue::Str(ref t) => {
                        out.push(t.clone());
                    },
                    _ => {
                        proof {
                            assert forall|xs: Seq<Seq<char>>| texts_value(xs) != v.dv() by {
                                if texts_value(xs) == v.dv() {
                                    assert(texts_value(xs)->List_0.len() == xs.len());
                                    assert(v.dv()->List_0.len() == items@.len());
                                    assert(texts_value(xs)->List_0[i as int] == Dv::Str(
                                        xs[i as int],
                                    ));
                                }
                            }
                        }
                        return Option::None;
                    },
                }
                i = i + 1;
            }
            proof {
                assert(texts_value(out.deep_view())->List_0 =~= v.dv()->List_0);
                assert(texts_value(out.deep_view()) == v.dv());
            }
            Option::Some(out)
        },
        _ => {
            proof {
                assert forall|xs: Seq<Seq<char>>| texts_value(xs) != v.dv() by {}
            }
            Option::None
        },
    }
}

/// A chat request written as one flat field map: the messages under
/// `messages`, every optional part only when present, and the extensions
/// alongside.
pub open spec fn chat_request_fields(r: ChatRequest) -> Map<Seq<char>, Dv> {
    let base = r.extensions@.insert("messages"@, messages_value(r.messages@));
    let f1 = match r.tools {
        Option::Some(ts) => base.insert("tools"@, specs_value(ts@)),
        Option::None => base,
    };
    let f2 = match r.response_format {
        Option::Some(rf) => f1.insert("response_format"@, response_format_value(rf)),
        Option::None => f1,
    };
    let f3 = match r.temperature {
        Option::Some(t) => f2.insert("temperature"@, t.dv()),
        Option::None => f2,
    };
    let f4 = match r.top_p {
        Option::Some(t) => f3.insert("top_p"@, t.dv()),
        Option::None => f3,
    };
    let f5 = match r.max_output_tokens {
        Option::Some(n) => f4.insert("max_output_tokens"@, Dv::Int(n as int)),
        Option::None => f4,
    };
    let f6 = match r.conversation_id {
        Option::Some(c) => f5.insert("conversation_id"@, Dv::Str(c@)),
        Option::None => f5,
    };
    let f7 = match r.stream {
        Option::Some(b) => f6.insert("stream"@, Dv::Bool(b)),
        Option::None => f6,
    };
    let f8 = match r.metadata {
        Option::Some(md) => f7.insert("metadata"@, Dv::Obj(md@)),
        Option::None => f7,
    };
    let f9 = match r.model {
        Option::Some(mo) => f8.insert("model"@, Dv::Str(mo@)),
        Option::None => f8,
    };
    let f10 = match r.tool_choice {
        Option::Some(tc) => f9.insert("tool_choice"@, tool_choice_value(tc)),
        Option::None => f9,
    };
    let f11 = match r.stop {
        Option::Some(st) => f10.insert("stop"@, texts_value(st.deep_view())),
        Option::None => f10,
    };
    let f12 = match r.reasoning_effort {
        Option::Some(re) => f11.insert("reasoning_effort"@, Dv::Str(re@)),
        Option::None => f11,
    };
    match r.timeout {
        Option::Some(t) => f12.insert("timeout"@, t.dv()),
        Option::None => f12,
    }
}

/// The shape of every recognised field of an encoded chat request: present
/// exactly when carried, with the value its encoding dictates.
#[verifier::rlimit(60)]
pub proof fn lemma_chat_request_field_shapes(x: ChatRequest)
    requires
        x.wf(),
    ensures
        chat_request_fields(x).contains_key("messages"@),
        chat_request_fields(x)["messages"@] == messages_value(x.messages@),
        chat_request_fields(x).contains_key("tools"@) == (x.tools is Some),
        x.tools is Some ==> chat_request_fields(x)["tools"@] == specs_value(x.tools.unwrap()@),
        chat_request_fields(x).contains_key("response_format"@) == (x.response_format is Some),
        x.response_format is Some ==> chat_request_fields(x)["response_format"@]
            == response_format_value(x.response_format.unwrap()),
        chat_request_fields(x).contains_key("max_output_tokens"@) == (x.max_output_tokens
            is Some),
        x.max_output_tokens is Some ==> chat_request_fields(x)["max_output_tokens"@] == Dv::Int(
            x.max_output_tokens.unwrap() as int,
        ),
        chat_request_fields(x).contains_key("conversation_id"@) == (x.conversation_id is Some),
        x.conversation_id is Some ==> chat_request_fields(x)["conversation_id"@] == Dv::Str(
            x.conversation_id.unwrap()@,
        ),
        chat_request_fields(x).contains_key("stream"@) == (x.stream is Some),
        x.stream is Some ==> chat_request_fields(x)["stream"@] == Dv::Bool(x.stream.unwrap()),
        chat_request_fields(x).contains_key("metadata"@) == (x.metadata is Some),
        x.metadata is Some ==> chat_request_fields(x)["metadata"@] == Dv::Obj(
            x.metadata.unwrap()@,
        ),
        chat_request_fields(x).contains_key("model"@) == (x.model is Some),
        x.model is Some ==> chat_request_fields(x)["model"@] == Dv::Str(x.model.unwrap()@),
        chat_request_fields(x).contains_key("tool_choice"@) == (x.tool_choice is Some),
        x.tool_choice is Some ==> chat_request_fields(x)["tool_choice"@] == tool_choice_value(
            x.tool_choice.unwrap(),
        ),
        chat_request_fields(x).contains_key("stop"@) == (x.stop is Some),
        x.stop is Some ==> chat_request_fields(x)["stop"@] == texts_value(
            x.stop.unwrap().deep_view(),
        ),
        chat_request_fields(x).contains_key("reasoning_effort"@) == (x.reasoning_effort
            is Some),
        x.reasoning_effort is Some ==> chat_request_fields(x)["reasoning_effort"@] == Dv::Str(
            x.reasoning_effort.unwrap()@,
        ),
{
    reveal_strlit("messages");
    reveal_strlit("tools");
    reveal_strlit("response_format");
    reveal_strlit("temperature");
    reveal_strlit("top_p");
    reveal_strlit("max_output_tokens");
    reveal_strlit("conversation_id");
    reveal_strlit("stream");
    reveal_strlit("metadata");
    reveal_strlit("model");
    reveal_strlit("tool_choice");
    reveal_strlit("stop");
    reveal_strlit("reasoning_effort");
    reveal_strlit("timeout");
    assert("messages"@.len() == 8);
    assert("tools"@.len() == 5);
    assert("response_format"@.len() == 15);
    assert("temperature"@.len() == 11);
    assert("top_p"@.len() == 5);
    assert("max_output_tokens"@.len() == 17);
    assert("conversation_id"@.len() == 15);
    assert("stream"@.len() == 6);
    assert("metadata"@.len() == 8);
    assert("model"@.len() == 5);
    assert("tool_choice"@.len() == 11);
    assert("stop"@.len() == 4);
    assert("reasoning_effort"@.len() == 16);
    assert("timeout"@.len() == 7);
    assert("tools"@[2] == 'o' && "top_p"@[2] == 'p' && "model"@[0] == 'm' && "tools"@[0] == 't');
    assert("messages"@[2] == 's' && "metadata"@[2] == 't');
    assert("response_format"@[0] == 'r' && "conversation_id"@[0] == 'c');
    assert("temperature"@[1] == 'e' && "tool_choice"@[1] == 'o');
}

impl ChatRequest {
    /// Every carried part is well-formed and the extensions bag shadows no
    /// recognised field.
    pub open spec fn wf(self) -> bool {
        &&& forall|i: int| 0 <= i < self.messages@.len() ==> (
        #[trigger] self.messages@[i]).wf()
        &&& match self.tools {
            Option::Some(ts) => forall|i: int| 0 <= i < ts@.len() ==> (#[trigger] ts@[i]).wf(),
            Option::None => true,
        }
        &&& match self.response_format {
            Option::Some(rf) => rf.wf(),
            Option::None => true,
        }
        &&& match self.temperature {
            Option::Some(t) => t.wf(),
            Option::None => true,
        }
        &&& match self.top_p {
            Option::Some(t) => t.wf(),
            Option::None => true,
        }
        &&& match self.metadata {
            Option::Some(md) => md.wf(),
            Option::None => true,
        }
        &&& match self.tool_choice {
            Option::Some(tc) => tc.wf(),
            Option::None => true,
        }
        &&& match self.timeout {
            Option::Some(t) => t.wf(),
            Option::None => true,
        }
        &&& self.extensions.wf()
        &&& !self.extensions@.contains_key("messages"@)
        &&& !self.extensions@.contains_key("tools"@)
        &&& !self.extensions@.contains_key("response_format"@)
        &&& !self.extensions@.contains_key("temperature"@)
        &&& !self.extensions@.contains_key("top_p"@)
        &&& !self.extensions@.contains_key("max_output_tokens"@)
        &&& !self.extensions@.contains_key("conversation_id"@)
        &&& !self.extensions@.contains_key("stream"@)
        &&& !self.extensions@.contains_key("metadata"@)
        &&& !self.extensions@.contains_key("model"@)
        &&& !self.extensions@.contains_key("tool_choice"@)
        &&& !self.extensions@.contains_key("stop"@)
        &&& !self.extensions@.contains_key("reasoning_effort"@)
        &&& !self.extensions@.contains_key("timeout"@)
    }

    /// This request written as one flat field map. The inverse of
    /// [`Self::from_fields`]: together they are the round trip that keeps
    /// every recognised field and every unknown top-level key.
    pub fn to_fields(self) -> (r: DataMap)
        requires
            self.wf(),
        ensures
            r@ == chat_request_fields(self),
            r.wf(),
    {
        let ghost sv = self;
        let mut out = self.extensions;
        out.insert(String::from_str("messages"), messages_to_value(self.messages));
        match self.tools {
            Option::Some(ts) => {
                out.insert(String::from_str("tools"), specs_to_value(ts));
            },
            Option::None => {},
        }
        match self.response_format {
            Option::Some(rf) => {
                out.insert(String::from_str("response_format"), response_format_to_value(rf));
            },
            Option::None => {},
        }
        match self.temperature {
            Option::Some(t) => {
                out.insert(String::from_str("temperature"), t);
            },
            Option::None => {},
        }
        match self.top_p {
            Option::Some(t) => {
                out.insert(String::from_str("top_p"), t);
            },
            Option::None => {},
        }
        match self.max_output_tokens {
            Option::Some(n) => {
                out.insert(String::from_str("max_output_tokens"), DataValue::Int(n));
            },
            Option::None => {},
        }
        match self.conversation_id {
            Option::Some(c) => {
                out.insert(String::from_str("conversation_id"), DataValue::Str(c));
            },
            Option::None => {},
        }
        match self.stream {
            Option::Some(b) => {
                out.insert(String::from_str("stream"), DataValue::Bool(b));
            },
            Option::None => {},
        }
        match self.metadata {
            Option::Some(md) => {
                out.insert(String::from_str("metadata"), DataValue::Obj(md));
            },
            Option::None => {},
        }
        match self.model {
            Option::Some(mo) => {
                out.insert(String::from_str("model"), DataValue::Str(mo));
            },
            Option::None => {},
        }
        match self.tool_choice {
            Option::Some(tc) => {
                out.insert(String::from_str("tool_choice"), tool_choice_to_value(tc));
            },
            Option::None => {},
        }
        match self.stop {
            Option::Some(st) => {
                out.insert(String::from_str("stop"), texts_to_value(st));
            },
            Option::None => {},
        }
        match self.reasoning_effort {
            Option::Some(re) => {
                out.insert(String::from_str("reasoning_effort"), DataValue::Str(re));
            },
            Option::None => {},
        }
        match self.timeout {
            Option::Some(t) => {
                out.insert(String::from_str("timeout"), t);
            },
            Option::None => {},
        }
        proof {
            assert(out@ =~= chat_request_fields(sv));
        }
        out
    }

    /// Read a flat field map back as a chat request; unknown top-level keys
    /// land in the extensions bag. `None` when a recognised field has the
    /// wrong shape: no well-formed request writes such a map.
    #[verifier::rlimit(100)]
    pub fn from_fields(m: DataMap) -> (r: Option<ChatRequest>)
        requires
            m.wf(),
        ensures
            match r {
                Option::Some(req) => chat_request_fields(req) == m@ && req.wf(),
                Option::None => forall|x: ChatRequest| x.wf() ==> chat_request_fields(x) != m@,
            },
    {
        proof {
            reveal_strlit("messages");
            reveal_strlit("tools");
            reveal_strlit("response_format");
            reveal_strlit("temperature");
            reveal_strlit("top_p");
            reveal_strlit("max_output_tokens");
            reveal_strlit("conversation_id");
            reveal_strlit("stream");
            reveal_strlit("metadata");
            reveal_strlit("model");
            reveal_strlit("tool_choice");
            reveal_strlit("stop");
            reveal_strlit("reasoning_effort");
            reveal_strlit("timeout");
            assert("messages"@.len() == 8);
            assert("tools"@.len() == 5);
            assert("response_format"@.len() == 15);
            assert("temperature"@.len() == 11);
            assert("top_p"@.len() == 5);
            assert("max_output_tokens"@.len() == 17);
            assert("conversation_id"@.len() == 15);
            assert("stream"@.len() == 6);
            assert("metadata"@.len() == 8);
            assert("model"@.len() == 5);
            assert("tool_choice"@.len() == 11);
            assert("stop"@.len() == 4);
            assert("reasoning_effort"@.len() == 16);
            assert("timeout"@.len() == 7);
            assert("tools"@[2] == 'o' && "top_p"@[2] == 'p' && "model"@[0] == 'm' && "tools"@[0]
                == 't');
            assert("messages"@[2] == 's' && "metadata"@[2] == 't');
            assert("response_format"@[0] == 'r' && "conversation_id"@[0] == 'c');
            assert("temperature"@[1] == 'e' && "tool_choice"@[1] == 'o');
        }
        let messages: Vec<Message> = match m.get("messages") {
            Option::Some(v) => match messages_from_value(v) {
                Option::Some(ms) => ms,
                Option::None => {
                    proof {
                        assert forall|x: ChatRequest| x.wf() implies chat_request_fields(x)
                            != m@ by {
                            lemma_chat_request_field_shapes(x);
                        }
                    }
                    return Option::None;
                },
            },
            Option::None => {
                proof {
                    assert forall|x: ChatRequest| x.wf() implies chat_request_fields(x)
                            != m@ by {
                            lemma_chat_request_field_shapes(x);
                        }
                }
                return Option::None;
            },
        };
        let tools: Option<Vec<ToolSpec>> = match m.get("tools") {
            Option::Some(v) => match specs_from_value(v) {
                Option::Some(ts) => Option::Some(ts),
                Option::None => {
                    proof {
                        assert forall|x: ChatRequest| x.wf() implies chat_request_fields(x)
                            != m@ by {
                            lemma_chat_request_field_shapes(x);
                        }
                    }
                    return Option::None;
                },
            },
            Option::None => Option::None,
        };
        let response_format: Option<ResponseFormat> = match m.get("response_format") {
            Option::Some(v) => match response_format_from_value(v) {
                Option::Some(rf) => Option::Some(rf),
                Option::None => {
                    proof {
                        assert forall|x: ChatRequest| x.wf() implies chat_request_fields(x)
                            != m@ by {
                            lemma_chat_request_field_shapes(x);
                        }
                    }
                    return Option::None;
                },
            },
            Option::None => Option::None,
        };
        let temperature: Option<DataValue> = match m.get("temperature") {
            Option::Some(v) => Option::Some(v.clone()),
            Option::None => Option::None,
        };
        let top_p: Option<DataValue> = match m.get("top_p") {
            Option::Some(v) => Option::Some(v.clone()),
            Option::None => Option::None,
        };
        let max_output_tokens: Option<i64> = match m.get("max_output_tokens") {
            Option::Some(v) => match *v {
                DataValue::Int(n) => Option::Some(n),
                _ => {
                    proof {
                        assert forall|x: ChatRequest| x.wf() implies chat_request_fields(x)
                            != m@ by {
                            lemma_chat_request_field_shapes(x);
                        }
                    }
                    return Option::None;
                },
            },
            Option::None => Option::None,
        };
        let conversation_id: Option<String> = match m.get("conversation_id") {
            Option::Some(v) => match *v {
                DataValue::Str(ref c) => Option::Some(c.clone()),
                _ => {
                    proof {
                        assert forall|x: ChatRequest| x.wf() implies chat_request_fields(x)
                            != m@ by {
                            lemma_chat_request_field_shapes(x);
                        }
                    }
                    return Option::None;
                },
            },
            Option::None => Option::None,
        };
        let stream: Option<bool> = match m.get("stream") {
            Option::Some(v) => match *v {
                DataValue::Bool(b) => Option::Some(b),
                _ => {
                    proof {
                        assert forall|x: ChatRequest| x.wf() implies chat_request_fields(x)
                            != m@ by {
                            lemma_chat_request_field_shapes(x);
                        }
                    }
                    return Option::None;
                },
            },
            Option::None => Option::None,
        };
        let metadata: Option<DataMap> = match m.get("metadata") {
            Option::Some(v) => match *v {
                DataValue::Obj(ref d) => Option::Some(d.clone()),
                _ => {
                    proof {
                        assert forall|x: ChatRequest| x.wf() implies chat_request_fields(x)
                            != m@ by {
                            lemma_chat_request_field_shapes(x);
                        }
                    }
                    return Option::None;
                },
            },
            Option::None => Option::None,
        };
        let model: Option<String> = match m.get("model") {
            Option::Some(v) => match *v {
                DataValue::Str(ref mo) => Option::Some(mo.clone()),
                _ => {
                    proof {
                        assert forall|x: ChatRequest| x.wf() implies chat_request_fields(x)
                            != m@ by {
                            lemma_chat_request_field_shapes(x);
                        }
                    }
                    return Option::None;
                },
            },
            Option::None => Option::None,
        };
        let tool_choice: Option<ToolChoice> = match m.get("tool_choice") {
            Option::Some(v) => match tool_choice_from_value(v) {
                Option::Some(tc) => Option::Some(tc),
                Option::None => {
                    proof {
                        assert forall|x: ChatRequest| x.wf() implies chat_request_fields(x)
                            != m@ by {
                            lemma_chat_request_field_shapes(x);
                        }
                    }
                    return Option::None;
                },
            },
            Option::None => Option::None,
        };
        let stop: Option<Vec<String>> = match m.get("stop") {
            Option::Some(v) => match texts_from_value(v) {
                Option::Some(st) => Option::Some(st),
                Option::None => {
                    proof {
                        assert forall|x: ChatRequest| x.wf() implies chat_request_fields(x)
                            != m@ by {
                            lemma_chat_request_field_shapes(x);
                        }
                    }
                    return Option::None;
                },
            },
            Option::None => Option::None,
        };
        let reasoning_effort: Option<String> = match m.get("reasoning_effort") {
            Option::Some(v) => match *v {
                DataValue::Str(ref re) => Option::Some(re.clone()),
                _ => {
                    proof {
                        assert forall|x: ChatRequest| x.wf() implies chat_request_fields(x)
                            != m@ by {
                            lemma_chat_request_field_shapes(x);
                        }
                    }
                    return Option::None;
                },
            },
            Option::None => Option::None,
        };
        let timeout: Option<DataValue> = match m.get("timeout") {
            Option::Some(v) => Option::Some(v.clone()),
            Option::None => Option::None,
        };
        let mut extensions = m;
        extensions.remove_entry("messages");
        extensions.remove_entry("tools");
        extensions.remove_entry("response_format");
        extensions.remove_entry("temperature");
        extensions.remove_entry("top_p");
        extensions.remove_entry("max_output_tokens");
        extensions.remove_entry("conversation_id");
        extensions.remove_entry("stream");
        extensions.remove_entry("metadata");
        extensions.remove_entry("model");
        extensions.remove_entry("tool_choice");
        extensions.remove_entry("stop");
        extensions.remove_entry("reasoning_effort");
        extensions.remove_entry("timeout");
        let out = ChatRequest {
            messages,
            tools,
            response_format,
            temperature,
            top_p,
            max_output_tokens,
            conversation_id,
            stream,
            metadata,
            model,
            tool_choice,
            stop,
            reasoning_effort,
            timeout,
            extensions,
        };
        proof {
            assert(chat_request_fields(out) =~= m@);
        }
        Option::Some(out)
    }
}

/// Writing a well-formed response and reading it back loses nothing: for
/// any run of [`ChatResponse::to_fields`] on `x` and of
/// [`ChatResponse::from_fields`] on its output, the decode cannot refuse,
/// and what it returns carries exactly the field map of `x` — every
/// recognised field and every unknown top-level key.
pub proof fn lemma_chat_response_round_trip(x: ChatResponse, m: DataMap, r: Option<ChatResponse>)
    requires
        x.wf(),
        call_ensures(ChatResponse::to_fields, (x,), m),
        call_ensures(ChatResponse::from_fields, (m,), r),
    ensures
        r matches Option::Some(out) && chat_response_fields(out) == chat_response_fields(x)
            && out.wf(),
{
    assert(m@ == chat_response_fields(x));
    if r is None {
        assert(chat_response_fields(x) != m@);
    }
}

/// Writing a well-formed request and reading it back loses nothing: for
/// any run of [`ChatRequest::to_fields`] on `x` and of
/// [`ChatRequest::from_fields`] on its output, the decode cannot refuse,
/// and what it returns carries exactly the field map of `x` — every
/// recognised field and every unknown top-level key.
pub proof fn lemma_chat_request_round_trip(x: ChatRequest, m: DataMap, r: Option<ChatRequest>)
    requires
        x.wf(),
        call_ensures(ChatRequest::to_fields, (x,), m),
        call_ensures(ChatRequest::from_fields, (m,), r),
    ensures
        r matches Option::Some(out) && chat_request_fields(out) == chat_request_fields(x)
            && out.wf(),
{
    assert(m@ == chat_request_fields(x));
    if r is None {
        assert(chat_request_fields(x) != m@);
    }
}

} // verus!
