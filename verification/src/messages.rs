//! Chat messages: their text, the state flags of a message in a session, and
//! when a streamed or complete response has been fully received.
use vstd::prelude::*;
use crate::text::{concat_strs, join_strings, seq_join, string_of, views_of};

verus! {

/// One part of a user message.
#[derive(Debug)]
pub enum ContentPart {
    Text(String),
    ImageUrl(String),
}

/// The content of a user message: a text, or a list of parts.
#[derive(Debug)]
pub enum UserContent {
    Text(String),
    Array(Vec<ContentPart>),
}

/// A call of a named function with its arguments (JSON text).
#[derive(Debug)]
pub struct FunctionCall {
    pub name: String,
    pub arguments: String,
}

/// A tool call an assistant message asks for.
#[derive(Debug)]
pub struct MessageToolCall {
    pub id: String,
    pub function: FunctionCall,
}

/// A message of a chat completion request.
#[derive(Debug)]
pub enum ChatCompletionRequestMessage {
    System { content: String },
    User { content: UserContent, name: Option<String> },
    Assistant { content: Option<String>, tool_calls: Option<Vec<MessageToolCall>> },
    Tool { tool_call_id: String, content: String },
    Function { name: String, content: Option<String> },
}

/// The content of a content part.
pub enum PartData {
    Text(Seq<char>),
    ImageUrl(Seq<char>),
}

/// The content of a user message's content.
pub enum UserData {
    Text(Seq<char>),
    Array(Seq<PartData>),
}

/// The content of a message: each text by its characters, each tool call as its
/// id, function name and arguments.
pub enum MessageData {
    System(Seq<char>),
    User(UserData, Option<Seq<char>>),
    Assistant(Option<Seq<char>>, Option<Seq<(Seq<char>, Seq<char>, Seq<char>)>>),
    Tool(Seq<char>, Seq<char>),
    Function(Seq<char>, Option<Seq<char>>),
}

/// The characters of an optional string.
pub open spec fn opt_view(s: Option<String>) -> Option<Seq<char>> {
    match s {
        Some(t) => Some(t@),
        None => None,
    }
}

impl View for ContentPart {
    type V = PartData;

    open spec fn view(&self) -> PartData {
        match self {
            ContentPart::Text(t) => PartData::Text(t@),
            ContentPart::ImageUrl(u) => PartData::ImageUrl(u@),
        }
    }
}

impl View for UserContent {
    type V = UserData;

    open spec fn view(&self) -> UserData {
        match self {
            UserContent::Text(t) => UserData::Text(t@),
            UserContent::Array(parts) => UserData::Array(parts_view(parts@)),
        }
    }
}

/// The id, function name and arguments of a tool call.
pub open spec fn call_view(c: MessageToolCall) -> (Seq<char>, Seq<char>, Seq<char>) {
    (c.id@, c.function.name@, c.function.arguments@)
}

/// The contents of a list of content parts.
pub open spec fn parts_view(parts: Seq<ContentPart>) -> Seq<PartData> {
    parts.map_values(|p: ContentPart| p@)
}

/// The contents of a list of tool calls.
pub open spec fn calls_view(calls: Seq<MessageToolCall>) -> Seq<(Seq<char>, Seq<char>, Seq<char>)> {
    calls.map_values(|c: MessageToolCall| call_view(c))
}

impl View for ChatCompletionRequestMessage {
    type V = MessageData;

    open spec fn view(&self) -> MessageData {
        match self {
            ChatCompletionRequestMessage::System { content } => MessageData::System(content@),
            ChatCompletionRequestMessage::User { content, name } => MessageData::User(content@, opt_view(*name)),
            ChatCompletionRequestMessage::Assistant { content, tool_calls } => MessageData::Assistant(
                opt_view(*content),
                match tool_calls {
                    Some(calls) => Some(calls_view(calls@)),
                    None => None,
                },
            ),
            ChatCompletionRequestMessage::Tool { tool_call_id, content } => MessageData::Tool(
                tool_call_id@,
                content@,
            ),
            ChatCompletionRequestMessage::Function { name, content } => MessageData::Function(
                name@,
                opt_view(*content),
            ),
        }
    }
}

fn copy_opt_string(s: &Option<String>) -> (r: Option<String>)
    ensures
        r == *s,
{
    match s {
        Some(t) => Some(t.clone()),
        None => None,
    }
}

fn copy_parts(parts: &Vec<ContentPart>) -> (r: Vec<ContentPart>)
    ensures
        parts_view(r@) == parts_view(parts@),
{
    let mut out: Vec<ContentPart> = Vec::new();
    let mut i: usize = 0;
    while i < parts.len()
        invariant
            i <= parts.len(),
            parts_view(out@) == parts_view(parts@.take(i as int)),
        decreases parts.len() - i,
    {
        let part = match &parts[i] {
            ContentPart::Text(t) => ContentPart::Text(t.clone()),
            ContentPart::ImageUrl(u) => ContentPart::ImageUrl(u.clone()),
        };
        assert(part@ == parts@[i as int]@);
        let ghost before = out@;
        out.push(part);
        assert(out@ == before.push(part));
        assert(parts@.take(i + 1) =~= parts@.take(i as int).push(parts@[i as int]));
        assert(parts_view(out@) =~= parts_view(before).push(part@));
        assert(parts_view(parts@.take(i + 1)) =~= parts_view(parts@.take(i as int)).push(parts@[i as int]@));
        i = i + 1;
    }
    assert(parts@.take(parts.len() as int) =~= parts@);
    out
}

fn copy_tool_calls(calls: &Vec<MessageToolCall>) -> (r: Vec<MessageToolCall>)
    ensures
        calls_view(r@) == calls_view(calls@),
{
    let mut out: Vec<MessageToolCall> = Vec::new();
    let mut i: usize = 0;
    while i < calls.len()
        invariant
            i <= calls.len(),
            calls_view(out@) == calls_view(calls@.take(i as int)),
        decreases calls.len() - i,
    {
        let c = &calls[i];
        let call = MessageToolCall {
            id: c.id.clone(),
            function: FunctionCall { name: c.function.name.clone(), arguments: c.function.arguments.clone() },
        };
        assert(call_view(call) == call_view(calls@[i as int]));
        let ghost before = out@;
        out.push(call);
        assert(out@ == before.push(call));
        assert(calls@.take(i + 1) =~= calls@.take(i as int).push(calls@[i as int]));
        assert(calls_view(out@) =~= calls_view(before).push(call_view(call)));
        assert(calls_view(calls@.take(i + 1)) =~= calls_view(calls@.take(i as int)).push(
            call_view(calls@[i as int]),
        ));
        i = i + 1;
    }
    assert(calls@.take(calls.len() as int) =~= calls@);
    out
}

impl ChatCompletionRequestMessage {
    /// A copy with the same content.
    pub fn copy(&self) -> (r: ChatCompletionRequestMessage)
        ensures
            r@ == self@,
    {
        match self {
            ChatCompletionRequestMessage::System { content } => ChatCompletionRequestMessage::System {
                content: content.clone(),
            },
            ChatCompletionRequestMessage::User { content, name } => ChatCompletionRequestMessage::User {
                content: match content {
                    UserContent::Text(t) => UserContent::Text(t.clone()),
                    UserContent::Array(parts) => UserContent::Array(copy_parts(parts)),
                },
                name: copy_opt_string(name),
            },
            ChatCompletionRequestMessage::Assistant { content, tool_calls } => {
                ChatCompletionRequestMessage::Assistant {
                    content: copy_opt_string(content),
                    tool_calls: match tool_calls {
                        Some(calls) => Some(copy_tool_calls(calls)),
                        None => None,
                    },
                }
            },
            ChatCompletionRequestMessage::Tool { tool_call_id, content } => ChatCompletionRequestMessage::Tool {
                tool_call_id: tool_call_id.clone(),
                content: content.clone(),
            },
            ChatCompletionRequestMessage::Function { name, content } => ChatCompletionRequestMessage::Function {
                name: name.clone(),
                content: copy_opt_string(content),
            },
        }
    }
}

/// The text of a content part: its text, or the URL of its image.
pub open spec fn part_text(p: ContentPart) -> Seq<char> {
    match p {
        ContentPart::Text(t) => t@,
        ContentPart::ImageUrl(u) => u@,
    }
}

/// The main content of a message: the first part of a user message made of parts,
/// and the empty text where an assistant or function message has none.
pub open spec fn message_content(m: ChatCompletionRequestMessage) -> Seq<char> {
    match m {
        ChatCompletionRequestMessage::System { content } => content@,
        ChatCompletionRequestMessage::User { content, .. } => match content {
            UserContent::Text(t) => t@,
            UserContent::Array(parts) => if parts.len() > 0 {
                part_text(parts@[0])
            } else {
                Seq::empty()
            },
        },
        ChatCompletionRequestMessage::Assistant { content, .. } => match content {
            Some(c) => c@,
            None => Seq::empty(),
        },
        ChatCompletionRequestMessage::Tool { content, .. } => content@,
        ChatCompletionRequestMessage::Function { content, .. } => match content {
            Some(c) => c@,
            None => Seq::empty(),
        },
    }
}

/// The name and then the arguments of each tool call, in order.
pub open spec fn tool_call_pieces(calls: Seq<MessageToolCall>) -> Seq<Seq<char>>
    decreases calls.len(),
{
    if calls.len() == 0 {
        Seq::empty()
    } else {
        tool_call_pieces(calls.drop_last()) + seq![
            calls.last().function.name@,
            calls.last().function.arguments@,
        ]
    }
}

/// The full text of a message, as a session shows it:
/// - a user message of parts: the text of each part, one per line;
/// - an assistant message: its content (or "no content"), then the name and the
///   arguments of each tool call, separated by spaces;
/// - a tool message: the tool call id and the content, separated by a space;
/// - a function message: the name and the content (or "no function content").
pub open spec fn message_text(m: ChatCompletionRequestMessage) -> Seq<char> {
    match m {
        ChatCompletionRequestMessage::System { content } => content@,
        ChatCompletionRequestMessage::User { content, .. } => match content {
            UserContent::Text(t) => t@,
            UserContent::Array(parts) => seq_join(
                parts@.map_values(|p: ContentPart| part_text(p)),
                seq!['\n'],
            ),
        },
        ChatCompletionRequestMessage::Assistant { content, tool_calls } => {
            let first = match content {
                Some(c) => c@,
                None => "no content"@,
            };
            let calls = match tool_calls {
                Some(calls) => tool_call_pieces(calls@),
                None => Seq::empty(),
            };
            seq_join(seq![first] + calls, seq![' '])
        },
        ChatCompletionRequestMessage::Tool { tool_call_id, content } => seq_join(
            seq![tool_call_id@, content@],
            seq![' '],
        ),
        ChatCompletionRequestMessage::Function { name, content } => seq_join(
            seq![
                name@,
                match content {
                    Some(c) => c@,
                    None => "no function content"@,
                },
            ],
            seq![' '],
        ),
    }
}

/// The main content of a message (see [`message_content`]).
pub fn chat_completion_request_message_as_str(message: &ChatCompletionRequestMessage) -> (r: &str)
    ensures
        r@ == message_content(*message),
{
    proof {
        reveal_strlit("");
    }
    match message {
        ChatCompletionRequestMessage::System { content } => content.as_str(),
        ChatCompletionRequestMessage::User { content, .. } => match content {
            UserContent::Text(t) => t.as_str(),
            UserContent::Array(parts) => {
                if parts.len() > 0 {
                    match &parts[0] {
                        ContentPart::Text(t) => t.as_str(),
                        ContentPart::ImageUrl(u) => u.as_str(),
                    }
                } else {
                    ""
                }
            },
        },
        ChatCompletionRequestMessage::Assistant { content, .. } => match content {
            Some(c) => c.as_str(),
            None => "",
        },
        ChatCompletionRequestMessage::Tool { content, .. } => content.as_str(),
        ChatCompletionRequestMessage::Function { content, .. } => match content {
            Some(c) => c.as_str(),
            None => "",
        },
    }
}

/// The full text of a message (see [`message_text`]).
pub fn get_chat_message_text(message: &ChatCompletionRequestMessage) -> (r: String)
    ensures
        r@ == message_text(*message),
{
    proof {
        reveal_strlit("\n");
        reveal_strlit(" ");
        assert("\n"@ =~= seq!['\n']);
        assert(" "@ =~= seq![' ']);
    }
    match message {
        ChatCompletionRequestMessage::System { content } => content.clone(),
        ChatCompletionRequestMessage::User { content, .. } => match content {
            UserContent::Text(t) => t.clone(),
            UserContent::Array(parts) => {
                let mut pieces: Vec<String> = Vec::new();
                let mut i: usize = 0;
                while i < parts.len()
                    invariant
                        i <= parts.len(),
                        pieces.len() == i,
                        forall|k: int| 0 <= k < i ==> (#[trigger] pieces@[k])@ == part_text(parts@[k]),
                    decreases parts.len() - i,
                {
                    let piece = match &parts[i] {
                        ContentPart::Text(t) => t.clone(),
                        ContentPart::ImageUrl(u) => u.clone(),
                    };
                    pieces.push(piece);
                    i = i + 1;
                }
                assert(views_of(pieces@) =~= parts@.map_values(|p: ContentPart| part_text(p)));
                let r = join_strings(&pieces, "\n");
                assert(r@ == message_text(*message));
                r
            },
        },
        ChatCompletionRequestMessage::Assistant { content, tool_calls } => {
            let mut pieces: Vec<String> = Vec::new();
            pieces.push(
                match content {
                    Some(c) => c.clone(),
                    None => string_of("no content"),
                },
            );
            let ghost first = pieces@[0]@;
            assert(first == match content {
                Some(c) => c@,
                None => "no content"@,
            });
            match tool_calls {
                Some(calls) => {
                    let mut i: usize = 0;
                    while i < calls.len()
                        invariant
                            i <= calls.len(),
                            pieces.len() >= 1,
                            views_of(pieces@) == seq![first] + tool_call_pieces(calls@.take(i as int)),
                        decreases calls.len() - i,
                    {
                        assert(calls@.take(i + 1).drop_last() =~= calls@.take(i as int));
                        assert(calls@.take(i + 1).last() == calls@[i as int]);
                        let ghost before = pieces@;
                        pieces.push(calls[i].function.name.clone());
                        pieces.push(calls[i].function.arguments.clone());
                        assert(views_of(pieces@) =~= views_of(before) + seq![
                            calls@[i as int].function.name@,
                            calls@[i as int].function.arguments@,
                        ]);
                        i = i + 1;
                    }
                    assert(calls@.take(calls.len() as int) =~= calls@);
                },
                None => {
                    assert(views_of(pieces@) =~= seq![first] + Seq::<Seq<char>>::empty());
                },
            }
            let r = join_strings(&pieces, " ");
            assert(r@ == message_text(*message));
            r
        },
        ChatCompletionRequestMessage::Tool { tool_call_id, content } => {
            let mut pieces: Vec<String> = Vec::new();
            pieces.push(tool_call_id.clone());
            pieces.push(content.clone());
            assert(views_of(pieces@) =~= seq![tool_call_id@, content@]);
            let r = join_strings(&pieces, " ");
            assert(r@ == message_text(*message));
            r
        },
        ChatCompletionRequestMessage::Function { name, content } => {
            let mut pieces: Vec<String> = Vec::new();
            pieces.push(name.clone());
            pieces.push(
                match content {
                    Some(c) => c.clone(),
                    None => string_of("no function content"),
                },
            );
            assert(views_of(pieces@) =~= seq![
                name@,
                match content {
                    Some(c) => c@,
                    None => "no function content"@,
                },
            ]);
            join_strings(&pieces, " ")
        },
    }
}

/// A state flag of a message in a session.
#[derive(Debug, Clone, Copy, PartialEq, Eq, Structural)]
pub enum MessageFlag {
    Receiving,
    ReceiveComplete,
    TextRendered,
    ToolsComplete,
    EmbeddingSaved,
    IsCurrentTransaction,
    HasUnrenderedContent,
}

/// The bit a flag occupies.
pub open spec fn flag_bit(f: MessageFlag) -> u8 {
    match f {
        MessageFlag::Receiving => 0,
        MessageFlag::ReceiveComplete => 1,
        MessageFlag::TextRendered => 2,
        MessageFlag::ToolsComplete => 3,
        MessageFlag::EmbeddingSaved => 4,
        MessageFlag::IsCurrentTransaction => 5,
        MessageFlag::HasUnrenderedContent => 6,
    }
}

fn flag_bit_exec(f: MessageFlag) -> (r: u8)
    ensures
        r == flag_bit(f),
        r < 7,
{
    match f {
        MessageFlag::Receiving => 0,
        MessageFlag::ReceiveComplete => 1,
        MessageFlag::TextRendered => 2,
        MessageFlag::ToolsComplete => 3,
        MessageFlag::EmbeddingSaved => 4,
        MessageFlag::IsCurrentTransaction => 5,
        MessageFlag::HasUnrenderedContent => 6,
    }
}

/// Whether bit `i` of `bits` is set.
pub open spec fn bit_set(bits: u8, i: u8) -> bool {
    (bits >> i) & 1u8 == 1u8
}

/// The set of state flags of a message, kept in one byte.
#[derive(Debug, Clone, Copy, PartialEq, Eq, Structural)]
pub struct MessageState {
    bits: u8,
}

impl MessageState {
    /// Whether flag `f` is set.
    pub closed spec fn has(self, f: MessageFlag) -> bool {
        bit_set(self.bits, flag_bit(f))
    }

    /// No flag set.
    pub fn empty() -> (r: MessageState)
        ensures
            forall|f: MessageFlag| !#[trigger] r.has(f),
    {
        let r = MessageState { bits: 0 };
        assert forall|f: MessageFlag| !#[trigger] r.has(f) by {
            let i = flag_bit(f);
            assert(i < 8 ==> (0u8 >> i) & 1u8 == 0u8) by (bit_vector);
        }
        r
    }

    /// Exactly flag `f` set.
    pub fn only(f: MessageFlag) -> (r: MessageState)
        ensures
            forall|g: MessageFlag| #[trigger] r.has(g) == (g == f),
    {
        let mut r = MessageState::empty();
        r.set(f, true);
        r
    }

    /// Whether flag `f` is set.
    pub fn contains(&self, f: MessageFlag) -> (r: bool)
        ensures
            r == self.has(f),
    {
        let i = flag_bit_exec(f);
        let bits = self.bits;
        assert(((bits >> i) & 1u8 == 1u8) == ((bits & (1u8 << i)) == (1u8 << i))) by (bit_vector)
            requires
                i < 8,
        ;
        (self.bits & (1u8 << i)) == (1u8 << i)
    }

    /// Sets flag `f` to `value`, leaving the other flags as they are.
    pub fn set(&mut self, f: MessageFlag, value: bool)
        ensures
            forall|g: MessageFlag| #[trigger] final(self).has(g) == (if g == f {
                value
            } else {
                old(self).has(g)
            }),
    {
        let i = flag_bit_exec(f);
        let old_bits = self.bits;
        let new_bits = if value {
            old_bits | (1u8 << i)
        } else {
            old_bits & !(1u8 << i)
        };
        assert forall|j: u8| j < 8 implies #[trigger] bit_set(new_bits, j) == (if j == i {
            value
        } else {
            bit_set(old_bits, j)
        }) by {
            if value {
                assert(new_bits == old_bits | (1u8 << i));
                assert(((old_bits | (1u8 << i)) >> j) & 1u8 == 1u8 <==> (j == i || (old_bits >> j)
                    & 1u8 == 1u8)) by (bit_vector)
                    requires
                        i < 8,
                        j < 8,
                ;
            } else {
                assert(new_bits == old_bits & !(1u8 << i));
                assert(((old_bits & !(1u8 << i)) >> j) & 1u8 == 1u8 <==> (j != i && (old_bits
                    >> j) & 1u8 == 1u8)) by (bit_vector)
                    requires
                        i < 8,
                        j < 8,
                ;
            }
        }
        self.bits = new_bits;
        assert forall|g: MessageFlag| #[trigger] self.has(g) == (if g == f {
            value
        } else {
            old(self).has(g)
        }) by {
            assert(flag_bit(g) < 8);
            assert(flag_bit(g) == flag_bit(f) ==> g == f);
        }
    }
}

/// Why a choice of a response finished.
#[derive(Debug, Clone, Copy, PartialEq, Eq, Structural)]
pub enum FinishReason {
    Stop,
    Length,
    ToolCalls,
    ContentFilter,
    FunctionCall,
}

/// A choice of a (streamed) response: its index, and why it finished, once it has.
#[derive(Debug, Clone, Copy, PartialEq, Eq, Structural)]
pub struct Choice {
    pub index: u32,
    pub finish_reason: Option<FinishReason>,
}

/// A complete response, or one chunk of a streamed response.
#[derive(Debug)]
pub struct ChatResponse {
    pub id: String,
    pub choices: Vec<Choice>,
}

/// What has been received for a message so far.
#[derive(Debug)]
pub enum ReceiveBuffer {
    Response(ChatResponse),
    StreamResponse(Vec<ChatResponse>),
}

/// The choices of all chunks, in order.
pub open spec fn all_choices(chunks: Seq<ChatResponse>) -> Seq<Choice>
    decreases chunks.len(),
{
    if chunks.len() == 0 {
        Seq::empty()
    } else {
        all_choices(chunks.drop_last()) + chunks.last().choices@
    }
}

/// Whether what was received is complete: every choice of a response has finished;
/// for a stream, every choice index seen has finished in some chunk.
pub open spec fn receive_is_complete(buffer: Option<ReceiveBuffer>) -> bool {
    match buffer {
        None => true,
        Some(ReceiveBuffer::Response(r)) => forall|k: int|
            0 <= k < r.choices.len() ==> (#[trigger] r.choices@[k]).finish_reason is Some,
        Some(ReceiveBuffer::StreamResponse(chunks)) => {
            let cs = all_choices(chunks@);
            forall|k: int|
                0 <= k < cs.len() ==> exists|m: int|
                    0 <= m < cs.len() && (#[trigger] cs[m]).finish_reason is Some && cs[m].index
                        == (#[trigger] cs[k]).index
        },
    }
}

/// Why a chunk of a streamed response cannot be added to a message.
#[derive(Debug, Clone, Copy, PartialEq, Eq, Structural)]
pub enum StreamUpdateError {
    /// The message is not receiving a stream.
    NotAStream,
    /// The chunk belongs to another stream.
    StreamIdMismatch,
}

/// A message of a session with its receive state.
#[derive(Debug)]
pub struct MessageContainer {
    pub message: ChatCompletionRequestMessage,
    pub receive_buffer: Option<ReceiveBuffer>,
    pub tool_calls: Vec<MessageToolCall>,
    pub message_id: i64,
    pub stream_id: Option<String>,
    pub selected_choice: usize,
    pub tools_called: bool,
    pub receive_complete: bool,
    pub embedding_saved: bool,
    pub current_transaction_flag: bool,
    pub stylize_complete: bool,
    pub response_count: usize,
    pub wrapped_content: String,
    pub token_usage: usize,
    pub rendered_line_count: usize,
    pub message_state: MessageState,
}

/// The choices of the chunks, all of them, flattened in order.
fn collect_choices(chunks: &Vec<ChatResponse>) -> (r: Vec<Choice>)
    ensures
        r@ == all_choices(chunks@),
{
    let mut out: Vec<Choice> = Vec::new();
    let mut i: usize = 0;
    while i < chunks.len()
        invariant
            i <= chunks.len(),
            out@ == all_choices(chunks@.take(i as int)),
        decreases chunks.len() - i,
    {
        assert(chunks@.take(i + 1).drop_last() =~= chunks@.take(i as int));
        let ghost before = out@;
        let choices = &chunks[i].choices;
        let mut j: usize = 0;
        while j < choices.len()
            invariant
                j <= choices.len(),
                out@ == before + choices@.take(j as int),
            decreases choices.len() - j,
        {
            out.push(choices[j]);
            j = j + 1;
            assert(choices@.take(j as int) =~= choices@.take(j - 1).push(choices@[j - 1]));
        }
        assert(choices@.take(choices.len() as int) =~= choices@);
        i = i + 1;
    }
    assert(chunks@.take(chunks.len() as int) =~= chunks@);
    out
}

impl MessageContainer {
    /// Whether the two messages agree in every field but the state flags.
    pub open spec fn same_but_state(self, other: MessageContainer) -> bool {
        &&& self.message == other.message
        &&& self.receive_buffer == other.receive_buffer
        &&& self.tool_calls == other.tool_calls
        &&& self.message_id == other.message_id
        &&& self.stream_id == other.stream_id
        &&& self.selected_choice == other.selected_choice
        &&& self.tools_called == other.tools_called
        &&& self.receive_complete == other.receive_complete
        &&& self.embedding_saved == other.embedding_saved
        &&& self.current_transaction_flag == other.current_transaction_flag
        &&& self.stylize_complete == other.stylize_complete
        &&& self.response_count == other.response_count
        &&& self.wrapped_content == other.wrapped_content
        &&& self.token_usage == other.token_usage
        &&& self.rendered_line_count == other.rendered_line_count
    }

    /// A message with no receive buffer, no flags set, and the given id.
    pub fn new(message: ChatCompletionRequestMessage, message_id: i64) -> (r: MessageContainer)
        ensures
            r.message == message,
            r.message_id == message_id,
            r.receive_buffer is None,
            r.stream_id is None,
            r.selected_choice == 0,
            forall|f: MessageFlag| !#[trigger] r.message_state.has(f),
    {
        MessageContainer {
            message,
            receive_buffer: None,
            tool_calls: Vec::new(),
            message_id,
            stream_id: None,
            selected_choice: 0,
            embedding_saved: false,
            stylize_complete: false,
            receive_complete: false,
            current_transaction_flag: false,
            wrapped_content: String::new(),
            tools_called: false,
            response_count: 0,
            token_usage: 0,
            message_state: MessageState::empty(),
            rendered_line_count: 0,
        }
    }

    /// A message that needs no receiving: only the receive-complete flag is set.
    pub fn new_from_completed_message(message: ChatCompletionRequestMessage, message_id: i64) -> (r:
        MessageContainer)
        ensures
            r.message == message,
            r.message_id == message_id,
            r.receive_buffer is None,
            forall|f: MessageFlag| #[trigger] r.message_state.has(f) == (f == MessageFlag::ReceiveComplete),
    {
        let mut container = MessageContainer::new(message, message_id);
        container.message_state = MessageState::only(MessageFlag::ReceiveComplete);
        container
    }

    pub fn is_receiving(&self) -> (r: bool)
        ensures
            r == self.message_state.has(MessageFlag::Receiving),
    {
        self.message_state.contains(MessageFlag::Receiving)
    }

    /// Marks the message received: complete, no longer receiving.
    pub fn set_receive_complete(&mut self)
        ensures
            forall|f: MessageFlag| #[trigger] final(self).message_state.has(f) == (if f
                == MessageFlag::ReceiveComplete {
                true
            } else if f == MessageFlag::Receiving {
                false
            } else {
                old(self).message_state.has(f)
            }),
            final(self).message == old(self).message,
            final(self).receive_buffer == old(self).receive_buffer,
            final(self).message_id == old(self).message_id,
            final(self).same_but_state(*old(self)),
    {
        self.message_state.set(MessageFlag::ReceiveComplete, true);
        self.message_state.set(MessageFlag::Receiving, false);
    }

    pub fn set_has_unrendered_content(&mut self)
        ensures
            forall|f: MessageFlag| #[trigger] final(self).message_state.has(f) == (f
                == MessageFlag::HasUnrenderedContent || old(self).message_state.has(f)),
            final(self).message == old(self).message,
            final(self).message_id == old(self).message_id,
            final(self).same_but_state(*old(self)),
    {
        self.message_state.set(MessageFlag::HasUnrenderedContent, true);
    }

    pub fn unset_has_unrendered_content(&mut self)
        ensures
            forall|f: MessageFlag| #[trigger] final(self).message_state.has(f) == (f
                != MessageFlag::HasUnrenderedContent && old(self).message_state.has(f)),
            final(self).message == old(self).message,
            final(self).message_id == old(self).message_id,
            final(self).same_but_state(*old(self)),
    {
        self.message_state.set(MessageFlag::HasUnrenderedContent, false);
    }

    pub fn has_unrendered_content(&self) -> (r: bool)
        ensures
            r == self.message_state.has(MessageFlag::HasUnrenderedContent),
    {
        self.message_state.contains(MessageFlag::HasUnrenderedContent)
    }

    pub fn set_text_rendered(&mut self)
        ensures
            forall|f: MessageFlag| #[trigger] final(self).message_state.has(f) == (f
                == MessageFlag::TextRendered || old(self).message_state.has(f)),
            final(self).message == old(self).message,
            final(self).message_id == old(self).message_id,
            final(self).same_but_state(*old(self)),
    {
        self.message_state.set(MessageFlag::TextRendered, true);
    }

    pub fn set_tools_complete(&mut self)
        ensures
            forall|f: MessageFlag| #[trigger] final(self).message_state.has(f) == (f
                == MessageFlag::ToolsComplete || old(self).message_state.has(f)),
            final(self).message == old(self).message,
            final(self).message_id == old(self).message_id,
            final(self).same_but_state(*old(self)),
    {
        self.message_state.set(MessageFlag::ToolsComplete, true);
    }

    pub fn is_receive_complete(&self) -> (r: bool)
        ensures
            r == self.message_state.has(MessageFlag::ReceiveComplete),
    {
        self.message_state.contains(MessageFlag::ReceiveComplete)
    }

    /// A message is complete once received, rendered, its tools run and its
    /// embedding saved.
    pub fn is_complete(&self) -> (r: bool)
        ensures
            r == (self.message_state.has(MessageFlag::ReceiveComplete) && self.message_state.has(
                MessageFlag::TextRendered,
            ) && self.message_state.has(MessageFlag::ToolsComplete) && self.message_state.has(
                MessageFlag::EmbeddingSaved,
            )),
    {
        self.message_state.contains(MessageFlag::ReceiveComplete) && self.message_state.contains(
            MessageFlag::TextRendered,
        ) && self.message_state.contains(MessageFlag::ToolsComplete)
            && self.message_state.contains(MessageFlag::EmbeddingSaved)
    }

    pub fn set_current_transaction_flag(&mut self)
        ensures
            forall|f: MessageFlag| #[trigger] final(self).message_state.has(f) == (f
                == MessageFlag::IsCurrentTransaction || old(self).message_state.has(f)),
            final(self).message == old(self).message,
            final(self).message_id == old(self).message_id,
            final(self).same_but_state(*old(self)),
    {
        self.message_state.set(MessageFlag::IsCurrentTransaction, true);
    }

    pub fn is_current_transaction(&self) -> (r: bool)
        ensures
            r == self.message_state.has(MessageFlag::IsCurrentTransaction),
    {
        self.message_state.contains(MessageFlag::IsCurrentTransaction)
    }

    /// Adds a chunk of a streamed response to the message's buffer, replaces the
    /// message with `assistant`, then checks whether the stream is complete (see
    /// [`MessageContainer::check_if_receive_is_complete`]). The chunk must belong to
    /// the message's stream, and the message must be receiving a stream; otherwise
    /// nothing changes. `assistant` is the assistant message rebuilt from the
    /// buffer's chunks with this one added, for the selected choice: the caller
    /// builds it, since how chunks combine into a message is outside this library.
    pub fn update_stream_response(
        &mut self,
        chunk: ChatResponse,
        assistant: ChatCompletionRequestMessage,
    ) -> (r: Result<(), StreamUpdateError>)
        ensures
            !(old(self).stream_id matches Some(s) && s@ == chunk.id@) ==> (r == Err::<(), _>(
                StreamUpdateError::StreamIdMismatch,
            ) && *final(self) == *old(self)),
            (old(self).stream_id matches Some(s) && s@ == chunk.id@) ==> match old(self).receive_buffer {
                Some(ReceiveBuffer::StreamResponse(v)) => {
                    &&& r is Ok
                    &&& final(self).receive_buffer matches Some(ReceiveBuffer::StreamResponse(w)) && w@ == v@.push(chunk)
                    &&& forall|f: MessageFlag| #[trigger] final(self).message_state.has(f) == (if receive_is_complete(
                        final(self).receive_buffer,
                    ) && f == MessageFlag::ReceiveComplete {
                        true
                    } else if receive_is_complete(final(self).receive_buffer) && f == MessageFlag::Receiving {
                        false
                    } else {
                        old(self).message_state.has(f)
                    })
                    &&& final(self).message == assistant
                    &&& final(self).message_id == old(self).message_id
                    &&& final(self).stream_id == old(self).stream_id
                    &&& final(self).selected_choice == old(self).selected_choice
                    &&& final(self).tool_calls == old(self).tool_calls
                    &&& final(self).tools_called == old(self).tools_called
                    &&& final(self).receive_complete == old(self).receive_complete
                    &&& final(self).embedding_saved == old(self).embedding_saved
                    &&& final(self).current_transaction_flag == old(self).current_transaction_flag
                    &&& final(self).stylize_complete == old(self).stylize_complete
                    &&& final(self).response_count == old(self).response_count
                    &&& final(self).wrapped_content == old(self).wrapped_content
                    &&& final(self).token_usage == old(self).token_usage
                    &&& final(self).rendered_line_count == old(self).rendered_line_count
                },
                _ => r == Err::<(), _>(StreamUpdateError::NotAStream) && *final(self) == *old(self),
            },
    {
        let matches = match &self.stream_id {
            Some(s) => *s == chunk.id,
            None => false,
        };
        if !matches {
            return Err(StreamUpdateError::StreamIdMismatch);
        }
        let buffer = self.receive_buffer.take();
        match buffer {
            Some(ReceiveBuffer::StreamResponse(mut chunks)) => {
                chunks.push(chunk);
                self.receive_buffer = Some(ReceiveBuffer::StreamResponse(chunks));
                self.message = assistant;
                self.check_if_receive_is_complete();
                Ok(())
            },
            other => {
                self.receive_buffer = other;
                Err(StreamUpdateError::NotAStream)
            },
        }
    }

    /// Marks the message received (see [`MessageContainer::set_receive_complete`])
    /// when what was received is complete (see [`receive_is_complete`]); otherwise
    /// leaves it as it is.
    pub fn check_if_receive_is_complete(&mut self)
        ensures
            forall|f: MessageFlag| #[trigger] final(self).message_state.has(f) == (if receive_is_complete(
                old(self).receive_buffer,
            ) && f == MessageFlag::ReceiveComplete {
                true
            } else if receive_is_complete(old(self).receive_buffer) && f == MessageFlag::Receiving {
                false
            } else {
                old(self).message_state.has(f)
            }),
            final(self).message == old(self).message,
            final(self).receive_buffer == old(self).receive_buffer,
            final(self).message_id == old(self).message_id,
            final(self).same_but_state(*old(self)),
    {
        let complete = match &self.receive_buffer {
            Some(ReceiveBuffer::Response(response)) => {
                let mut all_finished = true;
                let mut k: usize = 0;
                while k < response.choices.len()
                    invariant
                        k <= response.choices.len(),
                        all_finished == (forall|m: int|
                            0 <= m < k ==> (#[trigger] response.choices@[m]).finish_reason is Some),
                    decreases response.choices.len() - k,
                {
                    if response.choices[k].finish_reason.is_none() {
                        all_finished = false;
                    }
                    k = k + 1;
                }
                all_finished
            },
            Some(ReceiveBuffer::StreamResponse(chunks)) => {
                let choices = collect_choices(chunks);
                let ghost cs = choices@;
                let mut finished: Vec<u32> = Vec::new();
                let mut k: usize = 0;
                while k < choices.len()
                    invariant
                        k <= choices.len(),
                        cs == choices@,
                        forall|x: u32|
                            finished@.contains(x) <==> exists|m: int|
                                0 <= m < k && (#[trigger] cs[m]).finish_reason is Some && cs[m].index
                                    == x,
                    decreases choices.len() - k,
                {
                    if choices[k].finish_reason.is_some() {
                        let ghost before = finished@;
                        finished.push(choices[k].index);
                        assert forall|x: u32| finished@.contains(x) <==> exists|m: int|
                            0 <= m < k + 1 && (#[trigger] cs[m]).finish_reason is Some
                                && cs[m].index == x by {
                            if finished@.contains(x) && x != choices[k as int].index {
                                let n = choose|n: int| 0 <= n < finished@.len() && finished@[n] == x;
                                assert(before[n] == x);
                                assert(before.contains(x));
                            }
                            if exists|m: int|
                                0 <= m < k + 1 && (#[trigger] cs[m]).finish_reason is Some
                                    && cs[m].index == x {
                                if x != choices[k as int].index {
                                    let m = choose|m: int|
                                        0 <= m < k + 1 && (#[trigger] cs[m]).finish_reason is Some
                                            && cs[m].index == x;
                                    assert(before.contains(x));
                                    let n = choose|n: int| 0 <= n < before.len() && before[n] == x;
                                    assert(finished@[n] == x);
                                } else {
                                    assert(finished@[finished@.len() - 1] == x);
                                }
                            }
                        }
                    }
                    k = k + 1;
                }
                let mut all_finished = true;
                let mut k: usize = 0;
                while k < choices.len()
                    invariant
                        k <= choices.len(),
                        cs == choices@,
                        forall|x: u32|
                            finished@.contains(x) <==> exists|m: int|
                                0 <= m < cs.len() && (#[trigger] cs[m]).finish_reason is Some
                                    && cs[m].index == x,
                        all_finished == (forall|n: int|
                            0 <= n < k ==> finished@.contains((#[trigger] cs[n]).index)),
                    decreases choices.len() - k,
                {
                    if !contains_index(&finished, choices[k].index) {
                        all_finished = false;
                    }
                    k = k + 1;
                }
                proof {
                    if all_finished {
                        assert forall|n: int| 0 <= n < cs.len() implies exists|m: int|
                            0 <= m < cs.len() && (#[trigger] cs[m]).finish_reason is Some
                                && cs[m].index == (#[trigger] cs[n]).index by {
                            assert(finished@.contains(cs[n].index));
                        }
                    } else {
                        let n = choose|n: int| 0 <= n < cs.len() && !finished@.contains(#[trigger] cs[n].index);
                        assert(!(exists|m: int|
                            0 <= m < cs.len() && (#[trigger] cs[m]).finish_reason is Some
                                && cs[m].index == cs[n].index));
                    }
                }
                all_finished
            },
            None => true,
        };
        if complete {
            self.set_receive_complete();
        }
    }
}

/// Whether `x` is among `v`.
fn contains_index(v: &Vec<u32>, x: u32) -> (r: bool)
    ensures
        r == v@.contains(x),
{
    let mut i: usize = 0;
    while i < v.len()
        invariant
            i <= v.len(),
            forall|k: int| 0 <= k < i ==> v@[k] != x,
        decreases v.len() - i,
    {
        if v[i] == x {
            return true;
        }
        i = i + 1;
    }
    false
}

/// The result of a function call: the function's name and its response.
#[derive(Debug)]
pub struct FunctionResult {
    pub name: String,
    pub response: String,
}

/// A function call as a session shows it.
#[derive(Debug)]
pub struct RenderedFunctionCall {
    pub name: String,
    pub arguments: String,
}

/// A function call as a stream delivers it: name and arguments may be missing.
#[derive(Debug)]
pub struct FunctionCallStream {
    pub name: Option<String>,
    pub arguments: Option<String>,
}

/// The text of an optional string, or the empty text.
pub open spec fn text_or_empty(s: Option<String>) -> Seq<char> {
    match s {
        Some(t) => t@,
        None => Seq::empty(),
    }
}

impl RenderedFunctionCall {
    /// A streamed call; a missing name or argument list becomes empty.
    pub fn from_stream(function_call: FunctionCallStream) -> (r: RenderedFunctionCall)
        ensures
            r.name@ == text_or_empty(function_call.name),
            r.arguments@ == text_or_empty(function_call.arguments),
    {
        RenderedFunctionCall {
            name: match function_call.name {
                Some(n) => n,
                None => String::new(),
            },
            arguments: match function_call.arguments {
                Some(a) => a,
                None => String::new(),
            },
        }
    }

    /// A complete call.
    pub fn from_call(function_call: FunctionCall) -> (r: RenderedFunctionCall)
        ensures
            r.name == function_call.name,
            r.arguments == function_call.arguments,
    {
        RenderedFunctionCall { name: function_call.name, arguments: function_call.arguments }
    }
}

/// A plain line of text shown in a session.
#[derive(Debug)]
pub struct ChatStringItem {
    pub text: String,
}

impl ChatStringItem {
    pub fn new(text: String) -> (r: ChatStringItem)
        ensures
            r.text == text,
    {
        ChatStringItem { text }
    }
}

/// What a session item shows: an error text, or a chat message.
#[derive(Debug)]
pub enum ChatMessageType {
    Error(String),
    Chat(ChatCompletionRequestMessage),
}

/// A message as a session lists it.
#[derive(Debug)]
pub struct ChatMessageItem {
    pub id: Option<i64>,
    pub chat_message: ChatMessageType,
    pub raw_text: String,
    pub start_idx: usize,
}

/// The content of a session item: the main content of its message, or its error.
pub open spec fn item_content(m: ChatMessageType) -> Seq<char> {
    match m {
        ChatMessageType::Chat(message) => message_content(message),
        ChatMessageType::Error(e) => e@,
    }
}

/// Prefix of the line naming a tool call.
pub open spec fn tool_call_prefix() -> Seq<char> {
    "   Tool Call: "@
}

/// Prefix of the line giving a tool call's arguments.
pub open spec fn arguments_prefix() -> Seq<char> {
    "   Arguments: "@
}

/// Two lines per tool call: its name, then its arguments.
pub open spec fn tool_call_lines(calls: Seq<(String, String)>) -> Seq<Seq<char>>
    decreases calls.len(),
{
    if calls.len() == 0 {
        Seq::empty()
    } else {
        tool_call_lines(calls.drop_last()) + seq![
            tool_call_prefix() + calls.last().0@,
            arguments_prefix() + calls.last().1@,
        ]
    }
}

impl ChatMessageItem {
    /// An item showing a chat message.
    pub fn new_chat(id: i64, message: ChatCompletionRequestMessage) -> (r: ChatMessageItem)
        ensures
            r.id == Some(id),
            r.chat_message == ChatMessageType::Chat(message),
            r.raw_text@ == Seq::<char>::empty(),
            r.start_idx == 0,
    {
        ChatMessageItem {
            id: Some(id),
            chat_message: ChatMessageType::Chat(message),
            raw_text: String::new(),
            start_idx: 0,
        }
    }

    /// An item showing an error.
    pub fn new_error(message: String) -> (r: ChatMessageItem)
        ensures
            r.id is None,
            r.chat_message == ChatMessageType::Error(message),
            r.raw_text@ == Seq::<char>::empty(),
            r.start_idx == 0,
    {
        ChatMessageItem {
            id: None,
            chat_message: ChatMessageType::Error(message),
            raw_text: String::new(),
            start_idx: 0,
        }
    }

    /// Replaces the message the item shows.
    pub fn update_message(&mut self, message: ChatMessageType)
        ensures
            final(self).chat_message == message,
            final(self).id == old(self).id,
            final(self).raw_text == old(self).raw_text,
            final(self).start_idx == old(self).start_idx,
    {
        self.chat_message = message;
    }

    /// The content the item shows (see [`item_content`]).
    pub fn content(&self) -> (r: String)
        ensures
            r@ == item_content(self.chat_message),
    {
        match &self.chat_message {
            ChatMessageType::Chat(message) => string_of(chat_completion_request_message_as_str(message)),
            ChatMessageType::Error(error) => error.clone(),
        }
    }

    /// The lines that show tool calls (see [`tool_call_lines`]).
    pub fn get_tool_call_text(tool_calls: Option<Vec<(String, String)>>) -> (r: Vec<String>)
        ensures
            views_of(r@) == match tool_calls {
                Some(calls) => tool_call_lines(calls@),
                None => Seq::empty(),
            },
    {
        let mut lines: Vec<String> = Vec::new();
        match tool_calls {
            Some(calls) => {
                let tool_call = string_of("   Tool Call: ");
                let arguments = string_of("   Arguments: ");
                let mut i: usize = 0;
                while i < calls.len()
                    invariant
                        i <= calls.len(),
                        tool_call@ == tool_call_prefix(),
                        arguments@ == arguments_prefix(),
                        views_of(lines@) == tool_call_lines(calls@.take(i as int)),
                    decreases calls.len() - i,
                {
                    assert(calls@.take(i + 1).drop_last() =~= calls@.take(i as int));
                    assert(calls@.take(i + 1).last() == calls@[i as int]);
                    let ghost before = lines@;
                    let a = concat_strs(tool_call.as_str(), calls[i].0.as_str());
                    let b = concat_strs(arguments.as_str(), calls[i].1.as_str());
                    lines.push(a);
                    lines.push(b);
                    assert(views_of(lines@) =~= views_of(before) + seq![
                        tool_call_prefix() + calls@[i as int].0@,
                        arguments_prefix() + calls@[i as int].1@,
                    ]);
                    i = i + 1;
                }
                assert(calls@.take(calls.len() as int) =~= calls@);
            },
            None => {
                assert(views_of(lines@) =~= Seq::<Seq<char>>::empty());
            },
        }
        lines
    }
}

/// The colour of a message's header.
#[derive(Debug, Clone, Copy, PartialEq, Eq, Structural)]
pub enum HeaderColor {
    Magenta,
    Green,
    Blue,
    Yellow,
    LightYellow,
    Red,
}

/// The header a message is shown under: its colour and title.
pub open spec fn header_of(m: ChatMessageType) -> (HeaderColor, Seq<char>) {
    match m {
        ChatMessageType::Chat(ChatCompletionRequestMessage::System { .. }) => (HeaderColor::Magenta, "System"@),
        ChatMessageType::Chat(ChatCompletionRequestMessage::User { .. }) => (HeaderColor::Green, "User"@),
        ChatMessageType::Chat(ChatCompletionRequestMessage::Assistant { .. }) => (HeaderColor::Blue, "Assistant"@),
        ChatMessageType::Chat(ChatCompletionRequestMessage::Tool { .. }) => (HeaderColor::Yellow, "Tool"@),
        ChatMessageType::Chat(ChatCompletionRequestMessage::Function { .. }) => (
            HeaderColor::LightYellow,
            "Function"@,
        ),
        ChatMessageType::Error(_) => (HeaderColor::Red, "ERROR"@),
    }
}

/// The number of lines `str::lines` finds in `s`: one for each character that
/// begins a line, that is the first one and each one after a line feed.
pub open spec fn line_count(s: Seq<char>) -> nat
    decreases s.len(),
{
    if s.len() == 0 {
        0
    } else {
        line_count(s.drop_last()) + (if s.len() == 1 || s[s.len() - 2] == '\n' {
            1nat
        } else {
            0nat
        })
    }
}

/// The text a session item shows: its content, except that a tool message of more
/// than one line is shown by a fixed note.
pub open spec fn displayed_text(m: ChatMessageType) -> Seq<char> {
    if m is Chat && m->Chat_0 is Tool && line_count(item_content(m)) > 1 {
        "tool call response content"@
    } else {
        item_content(m)
    }
}

/// Whether `s` has more than one line (see [`line_count`]).
fn has_several_lines(s: &str) -> (r: bool)
    ensures
        r == (line_count(s@) > 1),
{
    let v = crate::text::chars_of(s);
    let mut count: usize = 0;
    let mut i: usize = 0;
    assert(v@.take(0) =~= Seq::<char>::empty());
    while i < v.len()
        invariant
            i <= v.len(),
            count <= 2,
            count == (if line_count(v@.take(i as int)) > 2 { 2 } else { line_count(v@.take(i as int)) }),
        decreases v.len() - i,
    {
        assert(v@.take(i + 1).drop_last() =~= v@.take(i as int));
        let starts_line = i == 0 || v[i - 1] == '\n';
        if i > 0 {
            assert(v@.take(i as int).last() == v@[i - 1]);
        }
        if starts_line && count < 2 {
            count = count + 1;
        }
        i = i + 1;
    }
    assert(v@.take(v.len() as int) =~= v@);
    count > 1
}

impl ChatMessageItem {
    /// The colour and title of the item's header (see [`header_of`]).
    pub fn message_header(&self) -> (r: (HeaderColor, String))
        ensures
            r.0 == header_of(self.chat_message).0,
            r.1@ == header_of(self.chat_message).1,
    {
        match &self.chat_message {
            ChatMessageType::Chat(ChatCompletionRequestMessage::System { .. }) => (HeaderColor::Magenta, string_of("System")),
            ChatMessageType::Chat(ChatCompletionRequestMessage::User { .. }) => (HeaderColor::Green, string_of("User")),
            ChatMessageType::Chat(ChatCompletionRequestMessage::Assistant { .. }) => (HeaderColor::Blue, string_of("Assistant")),
            ChatMessageType::Chat(ChatCompletionRequestMessage::Tool { .. }) => (HeaderColor::Yellow, string_of("Tool")),
            ChatMessageType::Chat(ChatCompletionRequestMessage::Function { .. }) => (
                HeaderColor::LightYellow,
                string_of("Function"),
            ),
            ChatMessageType::Error(_) => (HeaderColor::Red, string_of("ERROR")),
        }
    }

    /// Refreshes the text the item shows (see [`displayed_text`]).
    pub fn update_raw_text(&mut self)
        ensures
            final(self).raw_text@ == displayed_text(old(self).chat_message),
            final(self).chat_message == old(self).chat_message,
            final(self).id == old(self).id,
            final(self).start_idx == old(self).start_idx,
    {
        let content = self.content();
        let is_tool = match &self.chat_message {
            ChatMessageType::Chat(ChatCompletionRequestMessage::Tool { .. }) => true,
            _ => false,
        };
        self.raw_text = if is_tool && has_several_lines(content.as_str()) {
            string_of("tool call response content")
        } else {
            content
        };
    }
}

} // verus!
