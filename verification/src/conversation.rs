//! The message lists of a session: finding the message a stream chunk belongs
//! to, handing out messages whose content is not yet rendered, and adding or
//! replacing listed messages by id.
use vstd::prelude::*;
use crate::messages::{
    ChatCompletionRequestMessage, ChatMessageItem, MessageContainer, MessageData, MessageFlag,
    ReceiveBuffer,
};
use crate::text::{string_of, views_of};
use crate::tools::ToolCall;
use crate::events::{mode_after, switch_mode, ModeAction, SessionMode};

verus! {

/// The first message, from index `i` on, whose content is not yet rendered.
pub open spec fn first_unrendered(msgs: Seq<MessageContainer>, i: int) -> Option<int>
    decreases msgs.len() - i,
{
    if i < 0 || i >= msgs.len() {
        None
    } else if msgs[i].message_state.has(MessageFlag::HasUnrenderedContent) {
        Some(i)
    } else {
        first_unrendered(msgs, i + 1)
    }
}

/// The id of the first message whose content is not yet rendered.
pub fn message_id_with_unrendered_content(messages: &Vec<MessageContainer>) -> (r: Option<i64>)
    ensures
        r == (match first_unrendered(messages@, 0) {
            Some(k) => Some(messages@[k].message_id),
            None => None::<i64>,
        }),
{
    let mut i: usize = 0;
    while i < messages.len()
        invariant
            i <= messages.len(),
            first_unrendered(messages@, i as int) == first_unrendered(messages@, 0),
        decreases messages.len() - i,
    {
        if messages[i].has_unrendered_content() {
            return Some(messages[i].message_id);
        }
        i = i + 1;
    }
    None
}

/// Hands out the first message whose content is not yet rendered: a copy of it and
/// its id; its flag is cleared, and nothing else changes.
pub fn message_with_unrendered_content(messages: &mut Vec<MessageContainer>) -> (r: Option<
    (ChatCompletionRequestMessage, i64),
>)
    ensures
        match first_unrendered(old(messages)@, 0) {
            None => r is None && final(messages)@ == old(messages)@,
            Some(k) => {
                &&& r matches Some((m, id)) && m@ == old(messages)@[k].message@ && id == old(
                    messages,
                )@[k].message_id
                &&& final(messages)@.len() == old(messages)@.len()
                &&& forall|j: int| 0 <= j < old(messages)@.len() && j != k ==> #[trigger] final(messages)@[j]
                    == old(messages)@[j]
                &&& final(messages)@[k].message == old(messages)@[k].message
                &&& final(messages)@[k].message_id == old(messages)@[k].message_id
                &&& forall|f: MessageFlag| #[trigger] final(messages)@[k].message_state.has(f) == (f
                    != MessageFlag::HasUnrenderedContent && old(messages)@[k].message_state.has(f))
            },
        },
{
    let mut i: usize = 0;
    while i < messages.len()
        invariant
            i <= messages.len(),
            messages@ == old(messages)@,
            first_unrendered(messages@, i as int) == first_unrendered(messages@, 0),
        decreases messages.len() - i,
    {
        if messages[i].has_unrendered_content() {
            let mut m = messages.remove(i);
            m.unset_has_unrendered_content();
            let result = (m.message.copy(), m.message_id);
            messages.insert(i, m);
            assert forall|j: int| 0 <= j < old(messages)@.len() && j != i implies #[trigger] messages@[j]
                == old(messages)@[j] by {
            }
            return Some(result);
        }
        i = i + 1;
    }
    None
}

/// The first message, from index `i` on, that receives the stream `stream_id`.
pub open spec fn first_stream_message(msgs: Seq<MessageContainer>, stream_id: Seq<char>, i: int) -> Option<int>
    decreases msgs.len() - i,
{
    if i < 0 || i >= msgs.len() {
        None
    } else if msgs[i].stream_id matches Some(s) && s@ == stream_id && msgs[i].receive_buffer matches Some(
        ReceiveBuffer::StreamResponse(_),
    ) {
        Some(i)
    } else {
        first_stream_message(msgs, stream_id, i + 1)
    }
}

/// The index of the message that a chunk of stream `stream_id` belongs to: the
/// first one receiving that stream.
pub fn find_stream_message(messages: &Vec<MessageContainer>, stream_id: &String) -> (r: Option<usize>)
    ensures
        r == (match first_stream_message(messages@, stream_id@, 0) {
            Some(k) => Some(k as usize),
            None => None::<usize>,
        }),
{
    let mut i: usize = 0;
    while i < messages.len()
        invariant
            i <= messages.len(),
            first_stream_message(messages@, stream_id@, i as int) == first_stream_message(
                messages@,
                stream_id@,
                0,
            ),
        decreases messages.len() - i,
    {
        let m = &messages[i];
        let same_stream = match &m.stream_id {
            Some(s) => *s == *stream_id,
            None => false,
        };
        let streaming = match &m.receive_buffer {
            Some(ReceiveBuffer::StreamResponse(_)) => true,
            _ => false,
        };
        if same_stream && streaming {
            return Some(i);
        }
        i = i + 1;
    }
    None
}

/// The first listed item, from index `i` on, that has the id `id` (an item
/// without id matches nothing).
pub open spec fn first_with_id(items: Seq<ChatMessageItem>, id: Option<i64>, i: int) -> Option<int>
    decreases items.len() - i,
{
    if i < 0 || i >= items.len() {
        None
    } else if items[i].id is Some && items[i].id == id {
        Some(i)
    } else {
        first_with_id(items, id, i + 1)
    }
}

/// The list after adding `item`: it replaces the first item with its id, or, when
/// there is none (or it has no id), is added at the end.
pub open spec fn upserted(items: Seq<ChatMessageItem>, item: ChatMessageItem) -> Seq<ChatMessageItem> {
    match first_with_id(items, item.id, 0) {
        Some(k) => items.update(k, item),
        None => items.push(item),
    }
}

/// Adds `message` to a session's list, replacing the listed message with its id
/// (see [`upserted`]).
pub fn upsert_message(messages: &mut Vec<ChatMessageItem>, message: ChatMessageItem)
    ensures
        final(messages)@ == upserted(old(messages)@, message),
{
    let mut i: usize = 0;
    while i < messages.len()
        invariant
            i <= messages.len(),
            messages@ == old(messages)@,
            first_with_id(messages@, message.id, i as int) == first_with_id(messages@, message.id, 0),
        decreases messages.len() - i,
    {
        let same = match (messages[i].id, message.id) {
            (Some(a), Some(b)) => a == b,
            _ => false,
        };
        if same {
            messages.set(i, message);
            return;
        }
        i = i + 1;
    }
    messages.push(message);
}

/// Whether no two listed items share an id.
pub open spec fn ids_unique(items: Seq<ChatMessageItem>) -> bool {
    forall|a: int, b: int|
        0 <= a < b < items.len() && (#[trigger] items[a]).id is Some ==> items[a].id != (#[trigger] items[b]).id
}

proof fn lemma_first_with_id(items: Seq<ChatMessageItem>, id: Option<i64>, from: int)
    requires
        0 <= from,
    ensures
        match first_with_id(items, id, from) {
            Some(k) => from <= k < items.len() && items[k].id is Some && items[k].id == id,
            None => forall|j: int| from <= j < items.len() ==> !((#[trigger] items[j]).id is Some && items[j].id == id),
        },
    decreases items.len() - from,
{
    if from < items.len() {
        lemma_first_with_id(items, id, from + 1);
    }
}

/// Adding a message keeps ids unique: a message is listed at most once per id,
/// however often it is added.
pub proof fn law_upsert_keeps_ids_unique(items: Seq<ChatMessageItem>, item: ChatMessageItem)
    requires
        ids_unique(items),
    ensures
        ids_unique(upserted(items, item)),
{
    lemma_first_with_id(items, item.id, 0);
    let r = upserted(items, item);
    assert forall|a: int, b: int|
        0 <= a < b < r.len() && (#[trigger] r[a]).id is Some implies r[a].id != (#[trigger] r[b]).id by {
        match first_with_id(items, item.id, 0) {
            Some(k) => {
                if a != k && b != k {
                    assert(r[a] == items[a] && r[b] == items[b]);
                } else if a == k {
                    assert(r[b] == items[b]);
                    assert(items[k].id == item.id);
                } else {
                    assert(r[a] == items[a]);
                }
            },
            None => {
                if b == items.len() {
                    assert(r[a] == items[a]);
                } else {
                    assert(r[a] == items[a] && r[b] == items[b]);
                }
            },
        }
    }
}

/// Where the earlier messages sent with a request come from.
#[derive(Debug, Clone, Copy, PartialEq, Eq, Structural)]
pub enum HistorySource {
    /// The messages most like the input, at most this many.
    Search(i64),
    /// All messages of the session.
    All,
    /// None.
    Nothing,
}

/// Where the earlier messages of a request come from: with an input, the ones most
/// like it when a retrieval count is set, else all of them; without an input, none.
pub fn history_source(has_input: bool, retrieval_count: Option<i64>) -> (r: HistorySource)
    ensures
        r == (if !has_input {
            HistorySource::Nothing
        } else {
            match retrieval_count {
                Some(n) => HistorySource::Search(n),
                None => HistorySource::All,
            }
        }),
{
    if !has_input {
        HistorySource::Nothing
    } else {
        match retrieval_count {
            Some(n) => HistorySource::Search(n),
            None => HistorySource::All,
        }
    }
}

/// The messages of the current exchange (those whose transaction field is set),
/// in order.
pub open spec fn transaction_messages(msgs: Seq<MessageContainer>) -> Seq<ChatCompletionRequestMessage>
    decreases msgs.len(),
{
    if msgs.len() == 0 {
        Seq::empty()
    } else if msgs.last().current_transaction_flag {
        transaction_messages(msgs.drop_last()).push(msgs.last().message)
    } else {
        transaction_messages(msgs.drop_last())
    }
}

/// Copies of the messages of the current exchange (see [`transaction_messages`]).
pub fn current_transaction_messages(messages: &Vec<MessageContainer>) -> (r: Vec<ChatCompletionRequestMessage>)
    ensures
        r@.len() == transaction_messages(messages@).len(),
        forall|k: int| 0 <= k < r@.len() ==> (#[trigger] r@[k])@ == transaction_messages(messages@)[k]@,
{
    let mut out: Vec<ChatCompletionRequestMessage> = Vec::new();
    let mut i: usize = 0;
    while i < messages.len()
        invariant
            i <= messages.len(),
            out@.len() == transaction_messages(messages@.take(i as int)).len(),
            forall|k: int| 0 <= k < out@.len() ==> (#[trigger] out@[k])@ == transaction_messages(
                messages@.take(i as int),
            )[k]@,
        decreases messages.len() - i,
    {
        assert(messages@.take(i + 1).drop_last() =~= messages@.take(i as int));
        if messages[i].current_transaction_flag {
            out.push(messages[i].message.copy());
        }
        i = i + 1;
    }
    assert(messages@.take(messages.len() as int) =~= messages@);
    out
}

/// Ends the current exchange: no message belongs to it any more; nothing else
/// changes.
pub fn clear_transaction_fields(messages: &mut Vec<MessageContainer>)
    ensures
        final(messages)@.len() == old(messages)@.len(),
        forall|k: int| 0 <= k < old(messages)@.len() ==> {
            &&& !(#[trigger] final(messages)@[k]).current_transaction_flag
            &&& final(messages)@[k].message == old(messages)@[k].message
            &&& final(messages)@[k].message_id == old(messages)@[k].message_id
            &&& final(messages)@[k].message_state == old(messages)@[k].message_state
        },
{
    let mut i: usize = 0;
    while i < messages.len()
        invariant
            i <= messages.len(),
            messages@.len() == old(messages)@.len(),
            forall|k: int| 0 <= k < i ==> {
                &&& !(#[trigger] messages@[k]).current_transaction_flag
                &&& messages@[k].message == old(messages)@[k].message
                &&& messages@[k].message_id == old(messages)@[k].message_id
                &&& messages@[k].message_state == old(messages)@[k].message_state
            },
            forall|k: int| i <= k < messages@.len() ==> #[trigger] messages@[k] == old(messages)@[k],
        decreases messages.len() - i,
    {
        if messages[i].current_transaction_flag {
            let mut m = messages.remove(i);
            m.current_transaction_flag = false;
            messages.insert(i, m);
        }
        i = i + 1;
    }
}

/// The number of tokens a reply may use, as the request field holds it: the
/// configured count cut to 16 bits.
pub fn request_max_tokens(response_max_tokens: usize) -> (r: u16)
    ensures
        r == response_max_tokens % 0x10000,
{
    let r = (response_max_tokens % 0x10000) as u16;
    r
}

/// The first message, from index `i` on, with id `id`.
pub open spec fn first_message_with_id(msgs: Seq<MessageContainer>, id: i64, i: int) -> Option<int>
    decreases msgs.len() - i,
{
    if i < 0 || i >= msgs.len() {
        None
    } else if msgs[i].message_id == id {
        Some(i)
    } else {
        first_message_with_id(msgs, id, i + 1)
    }
}

/// Records that the embedding of message `id` is saved, on the first message with
/// that id; there must be one.
pub fn mark_embedding_saved(messages: &mut Vec<MessageContainer>, id: i64)
    requires
        exists|k: int| 0 <= k < old(messages)@.len() && (#[trigger] old(messages)@[k]).message_id == id,
    ensures
        first_message_with_id(old(messages)@, id, 0) matches Some(k) && {
            &&& final(messages)@.len() == old(messages)@.len()
            &&& final(messages)@[k].embedding_saved
            &&& final(messages)@[k].message == old(messages)@[k].message
            &&& final(messages)@[k].message_id == id
            &&& final(messages)@[k].message_state == old(messages)@[k].message_state
            &&& forall|j: int| 0 <= j < old(messages)@.len() && j != k ==> #[trigger] final(messages)@[j]
                == old(messages)@[j]
        },
{
    let mut i: usize = 0;
    while i < messages.len()
        invariant
            i <= messages.len(),
            messages@ == old(messages)@,
            exists|k: int| 0 <= k < messages@.len() && (#[trigger] messages@[k]).message_id == id,
            first_message_with_id(messages@, id, i as int) == first_message_with_id(messages@, id, 0),
            forall|j: int| 0 <= j < i ==> (#[trigger] messages@[j]).message_id != id,
        decreases messages.len() - i,
    {
        if messages[i].message_id == id {
            let mut m = messages.remove(i);
            m.embedding_saved = true;
            messages.insert(i, m);
            assert forall|j: int| 0 <= j < old(messages)@.len() && j != i implies #[trigger] messages@[j]
                == old(messages)@[j] by {
            }
            return;
        }
        i = i + 1;
    }
    assert(false);
}

/// The views of a list of request messages.
pub open spec fn message_views(msgs: Seq<ChatCompletionRequestMessage>) -> Seq<MessageData> {
    msgs.map_values(|m: ChatCompletionRequestMessage| m@)
}

/// A chat completion request.
#[derive(Debug)]
pub struct ChatRequest {
    pub model: String,
    pub messages: Vec<ChatCompletionRequestMessage>,
    pub stream: Option<bool>,
    pub max_tokens: Option<u16>,
    pub user: Option<String>,
    pub tools: Option<Vec<ToolCall>>,
}

/// The request with the given fields.
pub fn construct_request(
    model: String,
    messages: Vec<ChatCompletionRequestMessage>,
    stream: Option<bool>,
    max_tokens: Option<u16>,
    user: Option<String>,
    tools: Option<Vec<ToolCall>>,
) -> (r: ChatRequest)
    ensures
        r.model == model,
        r.messages == messages,
        r.stream == stream,
        r.max_tokens == max_tokens,
        r.user == user,
        r.tools == tools,
{
    ChatRequest { model, messages, stream, max_tokens, user, tools }
}

/// The settings of a session that a request reads.
#[derive(Debug)]
pub struct RequestSettings {
    pub model: String,
    pub user: String,
    pub response_max_tokens: usize,
    pub stream_response: bool,
    pub retrieval_count: Option<i64>,
    pub available_functions: Vec<ToolCall>,
}

/// A request as far as the session itself decides it, before the earlier
/// messages are fetched: the status updates sent meanwhile, in order, where the
/// earlier messages come from, the messages of the current exchange, and the
/// request's other fields.
#[derive(Debug)]
pub struct RequestPlan {
    pub statuses: Vec<String>,
    pub history: HistorySource,
    pub new_messages: Vec<ChatCompletionRequestMessage>,
    pub model: String,
    pub user: String,
    pub stream: bool,
    pub max_tokens: u16,
    pub tools: Option<Vec<ToolCall>>,
}

/// Plans a chat request of a session from its settings and messages, with or
/// without an input: the status goes to configuring, then to assembling; the
/// request carries the tools only when some are available, and the messages of
/// the current exchange follow the earlier ones.
pub fn plan_chat_request(settings: RequestSettings, messages: &Vec<MessageContainer>, has_input: bool) -> (r: RequestPlan)
    ensures
        views_of(r.statuses@) == seq!["Configuring Client"@, "Assembling request..."@],
        r.history == (if !has_input {
            HistorySource::Nothing
        } else {
            match settings.retrieval_count {
                Some(n) => HistorySource::Search(n),
                None => HistorySource::All,
            }
        }),
        message_views(r.new_messages@) == message_views(transaction_messages(messages@)),
        r.model == settings.model,
        r.user == settings.user,
        r.stream == settings.stream_response,
        r.max_tokens == settings.response_max_tokens % 0x10000,
        r.tools == (if settings.available_functions@.len() == 0 {
            None
        } else {
            Some(settings.available_functions)
        }),
{
    let mut statuses: Vec<String> = Vec::new();
    statuses.push(string_of("Configuring Client"));
    let tools = if settings.available_functions.len() == 0 {
        None
    } else {
        Some(settings.available_functions)
    };
    let new_messages = current_transaction_messages(messages);
    statuses.push(string_of("Assembling request..."));
    assert(views_of(statuses@) =~= seq!["Configuring Client"@, "Assembling request..."@]);
    assert(message_views(new_messages@) =~= message_views(transaction_messages(messages@)));
    RequestPlan {
        statuses,
        history: history_source(has_input, settings.retrieval_count),
        new_messages,
        model: settings.model,
        user: settings.user,
        stream: settings.stream_response,
        max_tokens: request_max_tokens(settings.response_max_tokens),
        tools,
    }
}

/// The request of a plan once the earlier messages are fetched: those messages,
/// then the messages of the current exchange.
pub fn assemble_chat_request(plan: RequestPlan, history: Vec<ChatCompletionRequestMessage>) -> (r: ChatRequest)
    ensures
        r.messages@ == history@ + plan.new_messages@,
        r.model == plan.model,
        r.stream == Some(plan.stream),
        r.max_tokens == Some(plan.max_tokens),
        r.user == Some(plan.user),
        r.tools == plan.tools,
{
    let mut messages = history;
    let mut new_messages = plan.new_messages;
    messages.append(&mut new_messages);
    construct_request(plan.model, messages, Some(plan.stream), Some(plan.max_tokens), Some(plan.user), plan.tools)
}

/// The state of a chat session that its actions change.
#[derive(Debug)]
pub struct SessionState {
    pub messages: Vec<MessageContainer>,
    pub mode: SessionMode,
    pub textarea_focused: bool,
    pub model: String,
    pub input_vsize: u16,
    pub scroll_sticky_end: bool,
}

/// An action that a chat session handles.
#[derive(Debug)]
pub enum SessionAction {
    Error(String),
    /// A message arrived (its content is handed on with the effect).
    AddMessage,
    ExecuteCommand(String),
    SaveSession,
    SubmitInput(String),
    RequestChatCompletion,
    MessageEmbeddingSuccess(i64),
    Resize(u16, u16),
    SelectModel(String),
    SetInputVsize(u16),
    Mode(ModeAction),
    /// An action that the session does not handle.
    Other,
}

/// What is left to do once a session has handled an action.
#[derive(Debug, PartialEq, Eq)]
pub enum SessionEffect {
    Nothing,
    /// Add the arrived message, then run its tool calls and embed new messages.
    AddMessage,
    /// Submit this input as a chat completion request.
    SubmitInput(String),
    /// Request a chat completion without input.
    RequestChatCompletion,
    /// Rewrap the messages to this width and redraw them.
    Resize(u16),
}

/// Whether `s` has a message with id `id`.
pub open spec fn has_message_id(s: Seq<MessageContainer>, id: i64) -> bool {
    exists|k: int| 0 <= k < s.len() && (#[trigger] s[k]).message_id == id
}

impl SessionState {
    /// Handles an action. The session never answers an action with another one
    /// (the first result is always `None`); the second result is what is left to
    /// do. A mode action switches mode and focus (see [`mode_after`]); a model or
    /// input height is set; an embedding success marks its message, which must
    /// exist; a submitted input makes the view follow the end.
    pub fn update(&mut self, action: SessionAction) -> (r: (Option<SessionAction>, SessionEffect))
        requires
            action matches SessionAction::MessageEmbeddingSuccess(id) ==> has_message_id(old(self).messages@, id),
        ensures
            r.0 is None,
            r.1 == (match action {
                SessionAction::AddMessage => SessionEffect::AddMessage,
                SessionAction::SubmitInput(s) => SessionEffect::SubmitInput(s),
                SessionAction::RequestChatCompletion => SessionEffect::RequestChatCompletion,
                SessionAction::Resize(w, _) => SessionEffect::Resize(w),
                _ => SessionEffect::Nothing,
            }),
            final(self).mode == (match action {
                SessionAction::Mode(a) => mode_after(a).0,
                _ => old(self).mode,
            }),
            final(self).textarea_focused == (match action {
                SessionAction::Mode(a) => mode_after(a).1,
                _ => old(self).textarea_focused,
            }),
            final(self).model == (match action {
                SessionAction::SelectModel(m) => m,
                _ => old(self).model,
            }),
            final(self).input_vsize == (match action {
                SessionAction::SetInputVsize(v) => v,
                _ => old(self).input_vsize,
            }),
            final(self).scroll_sticky_end == (action is SubmitInput || old(self).scroll_sticky_end),
            !(action is MessageEmbeddingSuccess) ==> final(self).messages == old(self).messages,
            action matches SessionAction::MessageEmbeddingSuccess(id) ==> (first_message_with_id(
                old(self).messages@,
                id,
                0,
            ) matches Some(k) && {
                &&& final(self).messages@.len() == old(self).messages@.len()
                &&& final(self).messages@[k].embedding_saved
                &&& final(self).messages@[k].message == old(self).messages@[k].message
                &&& final(self).messages@[k].message_id == id
                &&& final(self).messages@[k].message_state == old(self).messages@[k].message_state
                &&& forall|j: int| 0 <= j < old(self).messages@.len() && j != k ==> #[trigger] final(self).messages@[j]
                    == old(self).messages@[j]
            }),
    {
        match action {
            SessionAction::AddMessage => (None, SessionEffect::AddMessage),
            SessionAction::SubmitInput(s) => {
                self.scroll_sticky_end = true;
                (None, SessionEffect::SubmitInput(s))
            },
            SessionAction::RequestChatCompletion => (None, SessionEffect::RequestChatCompletion),
            SessionAction::MessageEmbeddingSuccess(id) => {
                mark_embedding_saved(&mut self.messages, id);
                (None, SessionEffect::Nothing)
            },
            SessionAction::Resize(width, _) => (None, SessionEffect::Resize(width)),
            SessionAction::SelectModel(model) => {
                self.model = model;
                (None, SessionEffect::Nothing)
            },
            SessionAction::SetInputVsize(vsize) => {
                self.input_vsize = vsize;
                (None, SessionEffect::Nothing)
            },
            SessionAction::Mode(a) => {
                let (mode, focused) = switch_mode(a);
                self.mode = mode;
                self.textarea_focused = focused;
                (None, SessionEffect::Nothing)
            },
            _ => (None, SessionEffect::Nothing),
        }
    }
}

/// A request to embed a message of a session.
#[derive(Debug)]
pub struct EmbeddingRequest {
    pub session_id: i64,
    pub message_id: i64,
    pub message: ChatCompletionRequestMessage,
}

/// Whether a message is received in full but not yet embedded.
pub open spec fn needs_embedding(m: MessageContainer) -> bool {
    m.message_state.has(MessageFlag::ReceiveComplete) && !m.message_state.has(MessageFlag::EmbeddingSaved)
}

/// The messages that need embedding, in order.
pub open spec fn to_embed(msgs: Seq<MessageContainer>) -> Seq<MessageContainer> {
    msgs.filter(|m: MessageContainer| needs_embedding(m))
}

/// What embedding does to one message's state: a message that needs embedding
/// is marked as embedded; nothing else changes.
pub open spec fn embedded(before: MessageContainer, after: MessageContainer) -> bool {
    &&& after.same_but_state(before)
    &&& forall|f: MessageFlag| #[trigger] after.message_state.has(f) == (if f == MessageFlag::EmbeddingSaved
        && needs_embedding(before) {
        true
    } else {
        before.message_state.has(f)
    })
}

/// Asks for the embedding of every message of session `session_id` that is
/// received in full and not yet embedded, in order, and marks those messages as
/// embedded.
pub fn generate_new_message_embeddings(messages: &mut Vec<MessageContainer>, session_id: i64) -> (r: Vec<EmbeddingRequest>)
    ensures
        final(messages)@.len() == old(messages)@.len(),
        forall|k: int| 0 <= k < old(messages)@.len() ==> embedded(old(messages)@[k], #[trigger] final(messages)@[k]),
        r@.len() == to_embed(old(messages)@).len(),
        forall|k: int| 0 <= k < r@.len() ==> {
            &&& (#[trigger] r@[k]).session_id == session_id
            &&& r@[k].message_id == to_embed(old(messages)@)[k].message_id
            &&& r@[k].message@ == to_embed(old(messages)@)[k].message@
        },
{
    let ghost start = messages@;
    let ghost pred = |m: MessageContainer| needs_embedding(m);
    let mut out: Vec<EmbeddingRequest> = Vec::new();
    let mut i: usize = 0;
    while i < messages.len()
        invariant
            i <= messages@.len(),
            messages@.len() == start.len(),
            start == old(messages)@,
            pred == (|m: MessageContainer| needs_embedding(m)),
            forall|k: int| 0 <= k < i ==> embedded(start[k], #[trigger] messages@[k]),
            forall|k: int| i <= k < start.len() ==> #[trigger] messages@[k] == start[k],
            out@.len() == start.take(i as int).filter(pred).len(),
            forall|k: int| 0 <= k < out@.len() ==> {
                &&& (#[trigger] out@[k]).session_id == session_id
                &&& out@[k].message_id == start.take(i as int).filter(pred)[k].message_id
                &&& out@[k].message@ == start.take(i as int).filter(pred)[k].message@
            },
        decreases start.len() - i,
    {
        proof {
            let prefix = start.take(i as int);
            assert(start.take(i + 1) =~= prefix.push(start[i as int]));
            prefix.lemma_filter_push(start[i as int], pred);
        }
        let complete = messages[i].message_state.contains(MessageFlag::ReceiveComplete);
        let saved = messages[i].message_state.contains(MessageFlag::EmbeddingSaved);
        if complete && !saved {
            out.push(EmbeddingRequest {
                session_id,
                message_id: messages[i].message_id,
                message: messages[i].message.copy(),
            });
            let ghost before = messages@;
            let mut m = messages.remove(i);
            m.message_state.set(MessageFlag::EmbeddingSaved, true);
            messages.insert(i, m);
            assert forall|k: int| 0 <= k < start.len() && k != i implies #[trigger] messages@[k] == before[k] by {}
        }
        i = i + 1;
    }
    assert(start.take(start.len() as int) =~= start);
    out
}

} // verus!
