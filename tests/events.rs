use llmnop::events::{
    normalize_chat_chunk, normalize_messages_event, normalize_responses_event, ChatUsage,
    MessagesContentDelta, MessagesError, MessagesMessageStart, MessagesStreamEvent, MessagesUsage,
    ResponsesEvent, ResponsesUsage, StreamChoice, StreamChunk, StreamDelta, StreamEvent,
    UsageReport,
};

fn s(x: &str) -> Option<String> {
    Some(x.to_string())
}

fn responses(kind: &str, delta: Option<String>, text: Option<String>) -> ResponsesEvent {
    ResponsesEvent { event_type: kind.to_string(), delta, text, usage: None, message: None }
}

#[test]
fn messages_text_delta_is_content() {
    let ev = MessagesStreamEvent::ContentBlockDelta {
        delta: MessagesContentDelta::TextDelta { text: s("hello") },
    };
    assert_eq!(normalize_messages_event(ev), StreamEvent::ContentDelta("hello".to_string()));
}

#[test]
fn messages_thinking_delta_is_reasoning() {
    let ev = MessagesStreamEvent::ContentBlockDelta {
        delta: MessagesContentDelta::ThinkingDelta { thinking: s("hmm") },
    };
    assert_eq!(normalize_messages_event(ev), StreamEvent::ReasoningDelta("hmm".to_string()));
}

#[test]
fn messages_usage_events() {
    let ev = MessagesStreamEvent::MessageDelta {
        usage: Some(MessagesUsage { input_tokens: Some(3), output_tokens: Some(5) }),
    };
    assert_eq!(
        normalize_messages_event(ev),
        StreamEvent::Usage(UsageReport {
            input_tokens: Some(3),
            output_tokens: Some(5),
            reasoning_tokens: None,
            total_tokens: None,
        })
    );
    let ev = MessagesStreamEvent::MessageStart {
        message: MessagesMessageStart {
            usage: Some(MessagesUsage { input_tokens: Some(7), output_tokens: Some(0) }),
        },
    };
    assert_eq!(
        normalize_messages_event(ev),
        StreamEvent::Usage(UsageReport {
            input_tokens: Some(7),
            output_tokens: Some(0),
            reasoning_tokens: None,
            total_tokens: None,
        })
    );
    let ev = MessagesStreamEvent::MessageDelta { usage: None };
    assert_eq!(normalize_messages_event(ev), StreamEvent::Other);
}

#[test]
fn messages_error_ping_and_empty_delta() {
    let ev = MessagesStreamEvent::Error { error: MessagesError { message: s("bad") } };
    assert_eq!(normalize_messages_event(ev), StreamEvent::ErrorEvent("bad".to_string()));
    let ev = MessagesStreamEvent::Error { error: MessagesError { message: None } };
    assert_eq!(normalize_messages_event(ev), StreamEvent::ErrorEvent("unknown error".to_string()));
    assert_eq!(normalize_messages_event(MessagesStreamEvent::Ping), StreamEvent::Other);
    assert_eq!(normalize_messages_event(MessagesStreamEvent::Other), StreamEvent::Other);
    let ev = MessagesStreamEvent::ContentBlockDelta {
        delta: MessagesContentDelta::TextDelta { text: s("") },
    };
    assert_eq!(normalize_messages_event(ev), StreamEvent::Other);
}

#[test]
fn chat_chunk_reasoning_then_content_then_usage() {
    let chunk = StreamChunk {
        choices: vec![
            StreamChoice {
                delta: StreamDelta { content: s("Hi"), reasoning_content: s("think"), reasoning: None },
            },
            StreamChoice { delta: StreamDelta { content: s(""), reasoning_content: None, reasoning: s("r") } },
        ],
        usage: Some(ChatUsage {
            prompt_tokens: 4,
            completion_tokens: 6,
            total_tokens: 10,
            reasoning_tokens: Some(2),
        }),
    };
    assert_eq!(
        normalize_chat_chunk(chunk),
        vec![
            StreamEvent::ReasoningDelta("think".to_string()),
            StreamEvent::ContentDelta("Hi".to_string()),
            StreamEvent::ReasoningDelta("r".to_string()),
            StreamEvent::Usage(UsageReport {
                input_tokens: Some(4),
                output_tokens: Some(6),
                reasoning_tokens: Some(2),
                total_tokens: Some(10),
            }),
        ]
    );
    let empty = StreamChunk { choices: vec![], usage: None };
    assert_eq!(normalize_chat_chunk(empty), vec![]);
}

#[test]
fn responses_event_types() {
    assert_eq!(
        normalize_responses_event(responses("response.output_text.delta", s("a"), None)),
        StreamEvent::ContentDelta("a".to_string())
    );
    assert_eq!(
        normalize_responses_event(responses("response.output_text.delta", None, s("b"))),
        StreamEvent::ContentDelta("b".to_string())
    );
    assert_eq!(
        normalize_responses_event(responses("response.reasoning_text.delta", s("c"), None)),
        StreamEvent::ReasoningDelta("c".to_string())
    );
    assert_eq!(
        normalize_responses_event(responses("response.reasoning.delta", None, s("d"))),
        StreamEvent::ReasoningDelta("d".to_string())
    );
    assert_eq!(
        normalize_responses_event(responses("response.output_text.delta", s(""), None)),
        StreamEvent::Other
    );
    assert_eq!(
        normalize_responses_event(responses("response.created", s("x"), None)),
        StreamEvent::Other
    );
    let mut done = responses("response.completed", None, None);
    done.usage = Some(ResponsesUsage {
        input_tokens: 9,
        output_tokens: 4,
        total_tokens: 13,
        reasoning_tokens: None,
    });
    assert_eq!(
        normalize_responses_event(done),
        StreamEvent::Usage(UsageReport {
            input_tokens: Some(9),
            output_tokens: Some(4),
            reasoning_tokens: None,
            total_tokens: Some(13),
        })
    );
    let mut err = responses("error", None, None);
    err.message = s("rate limited");
    assert_eq!(normalize_responses_event(err), StreamEvent::ErrorEvent("rate limited".to_string()));
}
