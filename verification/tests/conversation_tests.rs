use sazid::conversation::{
    clear_transaction_fields, current_transaction_messages, mark_embedding_saved, find_stream_message, history_source,
    message_id_with_unrendered_content, message_with_unrendered_content, request_max_tokens,
    upsert_message, HistorySource, assemble_chat_request, plan_chat_request, RequestSettings,
    SessionAction, SessionEffect, SessionState, generate_new_message_embeddings,
};
use sazid::events::{ModeAction, SessionMode};
use sazid::tools::ToolCall;
use sazid::messages::{
    ChatCompletionRequestMessage, ChatMessageItem, ChatMessageType, ChatResponse, ContentPart,
    HeaderColor, MessageContainer, MessageFlag, ReceiveBuffer, UserContent,
};

fn system(text: &str) -> ChatCompletionRequestMessage {
    ChatCompletionRequestMessage::System { content: text.to_string() }
}

fn tool(content: &str) -> ChatCompletionRequestMessage {
    ChatCompletionRequestMessage::Tool { tool_call_id: "t".to_string(), content: content.to_string() }
}

#[test]
fn unrendered_messages_are_handed_out_once() {
    let mut messages = vec![
        MessageContainer::new(system("a"), 1),
        MessageContainer::new(system("b"), 2),
        MessageContainer::new(system("c"), 3),
    ];
    messages[1].set_has_unrendered_content();
    messages[2].set_has_unrendered_content();
    assert_eq!(message_id_with_unrendered_content(&messages), Some(2));
    let (m, id) = message_with_unrendered_content(&mut messages).unwrap();
    assert_eq!(id, 2);
    assert!(matches!(m, ChatCompletionRequestMessage::System { ref content } if content == "b"));
    assert!(!messages[1].has_unrendered_content());
    assert_eq!(message_id_with_unrendered_content(&messages), Some(3));
    assert!(message_with_unrendered_content(&mut messages).is_some());
    assert!(message_with_unrendered_content(&mut messages).is_none());
    assert_eq!(message_id_with_unrendered_content(&messages), None);
}

#[test]
fn stream_chunks_find_their_message() {
    let mut streaming = MessageContainer::new(system(""), 5);
    streaming.stream_id = Some("s1".to_string());
    streaming.receive_buffer = Some(ReceiveBuffer::StreamResponse(vec![ChatResponse { id: "s1".to_string(), choices: vec![] }]));
    let mut finished = MessageContainer::new(system(""), 6);
    finished.stream_id = Some("s2".to_string());
    finished.receive_buffer = Some(ReceiveBuffer::Response(ChatResponse { id: "s2".to_string(), choices: vec![] }));
    let messages = vec![MessageContainer::new(system("x"), 4), streaming, finished];
    assert_eq!(find_stream_message(&messages, &"s1".to_string()), Some(1));
    assert_eq!(find_stream_message(&messages, &"s2".to_string()), None);
    assert_eq!(find_stream_message(&messages, &"s3".to_string()), None);
}

#[test]
fn messages_are_upserted_by_id() {
    let mut items = vec![ChatMessageItem::new_chat(1, system("one")), ChatMessageItem::new_error("e".to_string())];
    upsert_message(&mut items, ChatMessageItem::new_chat(2, system("two")));
    assert_eq!(items.len(), 3);
    upsert_message(&mut items, ChatMessageItem::new_chat(1, system("uno")));
    assert_eq!(items.len(), 3);
    assert_eq!(items[0].content(), "uno");
    upsert_message(&mut items, ChatMessageItem::new_error("f".to_string()));
    assert_eq!(items.len(), 4);
    assert_eq!(items[3].content(), "f");
}

#[test]
fn message_copies_keep_their_content() {
    let m = ChatCompletionRequestMessage::User {
        content: UserContent::Array(vec![ContentPart::Text("a".to_string()), ContentPart::ImageUrl("u".to_string())]),
        name: Some("me".to_string()),
    };
    let c = m.copy();
    assert_eq!(format!("{:?}", c), format!("{:?}", m));
}

#[test]
fn headers_of_each_kind() {
    let header = |m: ChatMessageType| ChatMessageItem { id: None, chat_message: m, raw_text: String::new(), start_idx: 0 }.message_header();
    assert_eq!(header(ChatMessageType::Chat(system("s"))), (HeaderColor::Magenta, "System".to_string()));
    assert_eq!(header(ChatMessageType::Chat(tool("t"))), (HeaderColor::Yellow, "Tool".to_string()));
    assert_eq!(header(ChatMessageType::Error("x".to_string())), (HeaderColor::Red, "ERROR".to_string()));
    let assistant = ChatCompletionRequestMessage::Assistant { content: None, tool_calls: None };
    assert_eq!(header(ChatMessageType::Chat(assistant)), (HeaderColor::Blue, "Assistant".to_string()));
}

#[test]
fn long_tool_output_is_shown_as_a_note() {
    let mut item = ChatMessageItem::new_chat(1, tool("line one\nline two"));
    item.update_raw_text();
    assert_eq!(item.raw_text, "tool call response content");
    let mut item = ChatMessageItem::new_chat(1, tool("single line\n"));
    item.update_raw_text();
    assert_eq!(item.raw_text, "single line\n");
    let mut item = ChatMessageItem::new_chat(1, system("a\nb"));
    item.update_raw_text();
    assert_eq!(item.raw_text, "a\nb");
    for text in ["", "\n", "a\n\n", "\r\n", "a\r\nb"] {
        let mut item = ChatMessageItem::new_chat(1, tool(text));
        item.update_raw_text();
        let expected = if text.lines().count() > 1 { "tool call response content" } else { text };
        assert_eq!(item.raw_text, expected);
    }
}

#[test]
fn request_history_and_limits() {
    assert_eq!(history_source(true, Some(10)), HistorySource::Search(10));
    assert_eq!(history_source(true, None), HistorySource::All);
    assert_eq!(history_source(false, Some(10)), HistorySource::Nothing);
    assert_eq!(request_max_tokens(4095), 4095);
    assert_eq!(request_max_tokens(70000), 70000usize as u16);
}

#[test]
fn current_exchange_messages() {
    let mut messages = vec![
        MessageContainer::new(system("a"), 1),
        MessageContainer::new(system("b"), 2),
        MessageContainer::new(system("c"), 3),
    ];
    messages[0].current_transaction_flag = true;
    messages[2].current_transaction_flag = true;
    let current = current_transaction_messages(&messages);
    let texts: Vec<String> = current.iter().map(|m| format!("{:?}", m)).collect();
    assert_eq!(texts, vec![format!("{:?}", system("a")), format!("{:?}", system("c"))]);
    clear_transaction_fields(&mut messages);
    assert!(current_transaction_messages(&messages).is_empty());
    assert_eq!(messages.len(), 3);
}

#[test]
fn embeddings_are_marked_on_their_message() {
    let mut messages = vec![MessageContainer::new(system("a"), 1), MessageContainer::new(system("b"), 2)];
    mark_embedding_saved(&mut messages, 2);
    assert!(!messages[0].embedding_saved);
    assert!(messages[1].embedding_saved);
}

fn settings(functions: Vec<ToolCall>, retrieval_count: Option<i64>) -> RequestSettings {
    RequestSettings {
        model: "gpt".to_string(),
        user: "me".to_string(),
        response_max_tokens: 70_000,
        stream_response: true,
        retrieval_count,
        available_functions: functions,
    }
}

fn text_of(m: &ChatCompletionRequestMessage) -> String {
    match m {
        ChatCompletionRequestMessage::System { content } => content.clone(),
        _ => String::new(),
    }
}

#[test]
fn chat_requests_follow_the_history_with_the_exchange() {
    let mut messages = vec![
        MessageContainer::new(system("old"), 1),
        MessageContainer::new(system("new a"), 2),
        MessageContainer::new(system("new b"), 3),
    ];
    messages[1].current_transaction_flag = true;
    messages[2].current_transaction_flag = true;
    let plan = plan_chat_request(settings(vec![], Some(4)), &messages, true);
    assert_eq!(plan.statuses, vec!["Configuring Client".to_string(), "Assembling request...".to_string()]);
    assert_eq!(plan.history, HistorySource::Search(4));
    assert!(plan.tools.is_none());
    assert_eq!(plan.max_tokens, 4464);
    let request = assemble_chat_request(plan, vec![system("earlier")]);
    let texts: Vec<String> = request.messages.iter().map(text_of).collect();
    assert_eq!(texts, vec!["earlier", "new a", "new b"]);
    assert_eq!(request.model, "gpt");
    assert_eq!(request.stream, Some(true));
    assert_eq!(request.max_tokens, Some(4464));
    assert_eq!(request.user.as_deref(), Some("me"));
    let tool = ToolCall { name: "grep".to_string(), description: None, parameters: None };
    let plan = plan_chat_request(settings(vec![tool], None), &messages, false);
    assert_eq!(plan.history, HistorySource::Nothing);
    assert_eq!(plan.tools.map(|t| t.len()), Some(1));
}

fn session_state() -> SessionState {
    SessionState {
        messages: vec![MessageContainer::new(system("a"), 5), MessageContainer::new(system("b"), 6)],
        mode: SessionMode::Normal,
        textarea_focused: true,
        model: "gpt".to_string(),
        input_vsize: 3,
        scroll_sticky_end: false,
    }
}

#[test]
fn session_actions() {
    let mut s = session_state();
    let (reply, effect) = s.update(SessionAction::Mode(ModeAction::EnterInsert));
    assert!(reply.is_none());
    assert_eq!(effect, SessionEffect::Nothing);
    assert_eq!(s.mode, SessionMode::Insert);
    assert!(!s.textarea_focused);
    s.update(SessionAction::Mode(ModeAction::ExitProcessing));
    assert_eq!(s.mode, SessionMode::Normal);
    assert!(s.textarea_focused);
    s.update(SessionAction::SelectModel("other".to_string()));
    assert_eq!(s.model, "other");
    s.update(SessionAction::SetInputVsize(9));
    assert_eq!(s.input_vsize, 9);
    let (reply, effect) = s.update(SessionAction::SubmitInput("hi".to_string()));
    assert!(reply.is_none());
    assert_eq!(effect, SessionEffect::SubmitInput("hi".to_string()));
    assert!(s.scroll_sticky_end);
    assert_eq!(s.update(SessionAction::Resize(80, 24)).1, SessionEffect::Resize(80));
    assert_eq!(s.update(SessionAction::RequestChatCompletion).1, SessionEffect::RequestChatCompletion);
    assert_eq!(s.update(SessionAction::AddMessage).1, SessionEffect::AddMessage);
    assert_eq!(s.update(SessionAction::Error("e".to_string())).1, SessionEffect::Nothing);
    s.update(SessionAction::MessageEmbeddingSuccess(6));
    assert!(s.messages[1].embedding_saved);
    assert!(!s.messages[0].embedding_saved);
}

#[test]
fn received_messages_are_embedded_once() {
    let mut messages = vec![
        MessageContainer::new(system("a"), 1),
        MessageContainer::new(system("b"), 2),
        MessageContainer::new(system("c"), 3),
    ];
    messages[0].set_receive_complete();
    messages[2].set_receive_complete();
    let requests = generate_new_message_embeddings(&mut messages, 9);
    let ids: Vec<(i64, i64)> = requests.iter().map(|r| (r.session_id, r.message_id)).collect();
    assert_eq!(ids, vec![(9, 1), (9, 3)]);
    assert_eq!(text_of(&requests[1].message), "c");
    assert!(messages[0].message_state.contains(MessageFlag::EmbeddingSaved));
    assert!(!messages[1].message_state.contains(MessageFlag::EmbeddingSaved));
    assert!(generate_new_message_embeddings(&mut messages, 9).is_empty());
}
