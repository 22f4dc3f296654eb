use sazid::messages::{
    chat_completion_request_message_as_str, get_chat_message_text, ChatCompletionRequestMessage,
    ChatMessageItem, ChatMessageType, ChatResponse, ChatStringItem, Choice, ContentPart,
    FinishReason, FunctionCall, FunctionCallStream, MessageContainer, MessageFlag, MessageState,
    MessageToolCall, ReceiveBuffer, RenderedFunctionCall, StreamUpdateError, UserContent,
};

fn call(id: &str, name: &str, arguments: &str) -> MessageToolCall {
    MessageToolCall {
        id: id.to_string(),
        function: FunctionCall { name: name.to_string(), arguments: arguments.to_string() },
    }
}

fn choice(index: u32, finish_reason: Option<FinishReason>) -> Choice {
    Choice { index, finish_reason }
}

fn system(text: &str) -> ChatCompletionRequestMessage {
    ChatCompletionRequestMessage::System { content: text.to_string() }
}

#[test]
fn message_content_of_each_kind() {
    assert_eq!(chat_completion_request_message_as_str(&system("be brief")), "be brief");
    let user = ChatCompletionRequestMessage::User {
        content: UserContent::Array(vec![
            ContentPart::Text("first".to_string()),
            ContentPart::ImageUrl("http://x/y.png".to_string()),
        ]),
        name: None,
    };
    assert_eq!(chat_completion_request_message_as_str(&user), "first");
    let empty_user = ChatCompletionRequestMessage::User { content: UserContent::Array(vec![]), name: None };
    assert_eq!(chat_completion_request_message_as_str(&empty_user), "");
    let assistant = ChatCompletionRequestMessage::Assistant { content: None, tool_calls: None };
    assert_eq!(chat_completion_request_message_as_str(&assistant), "");
    let tool = ChatCompletionRequestMessage::Tool { tool_call_id: "t1".to_string(), content: "done".to_string() };
    assert_eq!(chat_completion_request_message_as_str(&tool), "done");
}

#[test]
fn message_text_of_each_kind() {
    let user = ChatCompletionRequestMessage::User {
        content: UserContent::Array(vec![
            ContentPart::Text("first".to_string()),
            ContentPart::ImageUrl("http://x/y.png".to_string()),
        ]),
        name: None,
    };
    assert_eq!(get_chat_message_text(&user), "first\nhttp://x/y.png");
    let assistant = ChatCompletionRequestMessage::Assistant {
        content: None,
        tool_calls: Some(vec![call("1", "grep", "{\"pattern\":\"x\"}"), call("2", "cargo_check", "{}")]),
    };
    assert_eq!(get_chat_message_text(&assistant), "no content grep {\"pattern\":\"x\"} cargo_check {}");
    let answered = ChatCompletionRequestMessage::Assistant { content: Some("hi".to_string()), tool_calls: None };
    assert_eq!(get_chat_message_text(&answered), "hi");
    let tool = ChatCompletionRequestMessage::Tool { tool_call_id: "t1".to_string(), content: "done".to_string() };
    assert_eq!(get_chat_message_text(&tool), "t1 done");
    let function = ChatCompletionRequestMessage::Function { name: "f".to_string(), content: None };
    assert_eq!(get_chat_message_text(&function), "f no function content");
    assert_eq!(get_chat_message_text(&system("s")), "s");
}

#[test]
fn message_flags() {
    let mut s = MessageState::empty();
    assert!(!s.contains(MessageFlag::Receiving));
    s.set(MessageFlag::Receiving, true);
    s.set(MessageFlag::ToolsComplete, true);
    assert!(s.contains(MessageFlag::Receiving) && s.contains(MessageFlag::ToolsComplete));
    s.set(MessageFlag::Receiving, false);
    assert!(!s.contains(MessageFlag::Receiving) && s.contains(MessageFlag::ToolsComplete));
    let only = MessageState::only(MessageFlag::EmbeddingSaved);
    assert!(only.contains(MessageFlag::EmbeddingSaved));
    assert!(!only.contains(MessageFlag::TextRendered));
}

#[test]
fn container_life_cycle() {
    let mut m = MessageContainer::new(system("x"), 7);
    assert_eq!(m.message_id, 7);
    assert!(!m.is_receiving() && !m.is_receive_complete() && !m.is_complete());
    m.set_has_unrendered_content();
    assert!(m.has_unrendered_content());
    m.unset_has_unrendered_content();
    assert!(!m.has_unrendered_content());
    m.set_receive_complete();
    m.set_text_rendered();
    m.set_tools_complete();
    assert!(m.is_receive_complete());
    assert!(!m.is_complete());
    m.set_current_transaction_flag();
    assert!(m.is_current_transaction());
    let done = MessageContainer::new_from_completed_message(system("y"), 8);
    assert!(done.is_receive_complete() && !done.is_receiving());
}

#[test]
fn a_response_is_complete_when_every_choice_finished() {
    let mut m = MessageContainer::new(system("x"), 1);
    m.receive_buffer = Some(ReceiveBuffer::Response(ChatResponse {
        id: "r".to_string(),
        choices: vec![choice(0, Some(FinishReason::Stop)), choice(1, None)],
    }));
    m.check_if_receive_is_complete();
    assert!(!m.is_receive_complete());
    m.receive_buffer = Some(ReceiveBuffer::Response(ChatResponse {
        id: "r".to_string(),
        choices: vec![choice(0, Some(FinishReason::Stop)), choice(1, Some(FinishReason::Length))],
    }));
    m.check_if_receive_is_complete();
    assert!(m.is_receive_complete());
    assert!(!m.is_receiving());
}

#[test]
fn a_stream_is_complete_when_each_choice_index_finished() {
    let chunk = |index: u32, finish: Option<FinishReason>| ChatResponse {
        id: "s".to_string(),
        choices: vec![choice(index, finish)],
    };
    let mut m = MessageContainer::new(system("x"), 1);
    m.receive_buffer = Some(ReceiveBuffer::StreamResponse(vec![chunk(0, None), chunk(1, None), chunk(0, Some(FinishReason::Stop))]));
    m.check_if_receive_is_complete();
    assert!(!m.is_receive_complete());
    m.receive_buffer = Some(ReceiveBuffer::StreamResponse(vec![
        chunk(0, None),
        chunk(1, None),
        chunk(0, Some(FinishReason::Stop)),
        chunk(1, Some(FinishReason::ToolCalls)),
    ]));
    m.check_if_receive_is_complete();
    assert!(m.is_receive_complete());
}

#[test]
fn rendered_function_calls() {
    let r = RenderedFunctionCall::from_stream(FunctionCallStream { name: Some("f".to_string()), arguments: None });
    assert_eq!((r.name.as_str(), r.arguments.as_str()), ("f", ""));
    let r = RenderedFunctionCall::from_call(FunctionCall { name: "g".to_string(), arguments: "{}".to_string() });
    assert_eq!((r.name.as_str(), r.arguments.as_str()), ("g", "{}"));
}

#[test]
fn session_items() {
    let item = ChatMessageItem::new_chat(3, system("hello"));
    assert_eq!(item.id, Some(3));
    assert_eq!(item.content(), "hello");
    let mut err = ChatMessageItem::new_error("boom".to_string());
    assert_eq!(err.id, None);
    assert_eq!(err.content(), "boom");
    err.update_message(ChatMessageType::Chat(system("fixed")));
    assert_eq!(err.content(), "fixed");
    assert_eq!(ChatStringItem::new("t".to_string()).text, "t");
    let lines = ChatMessageItem::get_tool_call_text(Some(vec![("grep".to_string(), "{}".to_string())]));
    assert_eq!(lines, vec!["   Tool Call: grep".to_string(), "   Arguments: {}".to_string()]);
    assert!(ChatMessageItem::get_tool_call_text(None).is_empty());
}

#[test]
fn stream_chunks_are_added_to_their_stream() {
    let chunk = |id: &str, index: u32, finish: Option<FinishReason>| ChatResponse {
        id: id.to_string(),
        choices: vec![choice(index, finish)],
    };
    let mut m = MessageContainer::new(system("x"), 1);
    m.stream_id = Some("s".to_string());
    assert_eq!(m.update_stream_response(chunk("s", 0, None), system("rebuilt")), Err(StreamUpdateError::NotAStream));
    assert!(matches!(m.message, ChatCompletionRequestMessage::System { ref content } if content == "x"));
    m.receive_buffer = Some(ReceiveBuffer::StreamResponse(vec![chunk("s", 0, None)]));
    m.message_state.set(MessageFlag::Receiving, true);
    assert_eq!(m.update_stream_response(chunk("t", 0, None), system("rebuilt")), Err(StreamUpdateError::StreamIdMismatch));
    assert_eq!(m.update_stream_response(chunk("s", 1, None), system("rebuilt")), Ok(()));
    assert!(!m.is_receive_complete());
    assert_eq!(m.update_stream_response(chunk("s", 0, Some(FinishReason::Stop)), system("rebuilt")), Ok(()));
    assert!(!m.is_receive_complete());
    assert_eq!(m.update_stream_response(chunk("s", 1, Some(FinishReason::Stop)), system("rebuilt")), Ok(()));
    assert!(m.is_receive_complete());
    assert!(!m.is_receiving());
    match &m.receive_buffer {
        Some(ReceiveBuffer::StreamResponse(v)) => assert_eq!(v.len(), 4),
        _ => panic!("not a stream"),
    }
    assert!(matches!(m.message, ChatCompletionRequestMessage::System { ref content } if content == "rebuilt"));
}
