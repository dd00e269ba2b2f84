use assistant_core::ai_types::{
    ChatCompletionChunk, ChatMessage, ChunkChoice, ChunkDelta, FunctionCall, MessageContent,
    Role, ToolCall, Usage,
};
use assistant_core::chat::{accepts_reasoning_effort, filter_messages, stream_chunk_of};

fn message(role: Role, text: &str) -> ChatMessage {
    ChatMessage {
        role,
        content: MessageContent::Text(text.to_string()),
        name: None,
        tool_call_id: None,
        tool_calls: None,
    }
}

fn tool_call() -> ToolCall {
    ToolCall {
        id: "call-1".to_string(),
        tool_type: "function".to_string(),
        function: FunctionCall { name: "lookup".to_string(), arguments: "{}".to_string() },
    }
}

#[test]
fn tool_messages_are_dropped_and_tool_fields_stripped() {
    let mut with_tools = message(Role::Assistant, "calling a tool");
    with_tools.tool_calls = Some(vec![tool_call()]);
    let mut tool_reply = message(Role::Tool, "tool result");
    tool_reply.tool_call_id = Some("call-1".to_string());
    let messages = vec![
        message(Role::System, "be brief"),
        with_tools,
        tool_reply,
        message(Role::User, "hello"),
    ];
    let filtered = filter_messages(messages);
    assert_eq!(filtered.len(), 3);
    assert!(matches!(filtered[0].role, Role::System));
    assert!(matches!(filtered[1].role, Role::Assistant));
    assert!(matches!(filtered[2].role, Role::User));
    assert!(filtered.iter().all(|m| m.tool_calls.is_none() && m.tool_call_id.is_none()));
    match &filtered[1].content {
        MessageContent::Text(t) => assert_eq!(t, "calling a tool"),
        other => panic!("content changed: {:?}", other),
    }
}

#[test]
fn reasoning_effort_is_sent_only_for_o1_and_o3_models() {
    assert!(accepts_reasoning_effort("o1"));
    assert!(accepts_reasoning_effort("o1-mini"));
    assert!(accepts_reasoning_effort("o3-pro"));
    assert!(!accepts_reasoning_effort("o2-max"));
    assert!(!accepts_reasoning_effort("gpt-4"));
    assert!(!accepts_reasoning_effort("o"));
    assert!(!accepts_reasoning_effort(""));
}

fn chunk_with(content: Option<&str>, usage: Option<Usage>) -> ChatCompletionChunk {
    ChatCompletionChunk {
        id: "c-1".to_string(),
        object: "chat.completion.chunk".to_string(),
        created: 0,
        model: "gpt-4".to_string(),
        choices: vec![ChunkChoice {
            index: 0,
            delta: ChunkDelta {
                role: None,
                content: content.map(|s| s.to_string()),
                tool_calls: None,
            },
            finish_reason: None,
        }],
        citations: None,
        usage,
    }
}

#[test]
fn stream_chunk_takes_the_first_delta_content() {
    let r = stream_chunk_of(chunk_with(Some("hel"), None));
    assert_eq!(r.content, "hel");
    assert!(r.usage.is_none() && r.citations.is_none());
}

#[test]
fn stream_chunk_without_content_is_a_heartbeat_with_metadata() {
    let usage = Usage { prompt_tokens: 3, completion_tokens: 5, total_tokens: 8 };
    let r = stream_chunk_of(chunk_with(None, Some(usage)));
    assert_eq!(r.content, "");
    let u = r.usage.unwrap();
    assert_eq!((u.prompt_tokens, u.completion_tokens, u.total_tokens), (3, 5, 8));

    let mut empty = chunk_with(None, None);
    empty.choices.clear();
    empty.citations = Some(vec!["https://example.com/a".to_string()]);
    let r = stream_chunk_of(empty);
    assert_eq!(r.content, "");
    assert_eq!(r.citations.unwrap(), vec!["https://example.com/a".to_string()]);
}
