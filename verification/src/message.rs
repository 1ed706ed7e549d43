//! Conversation messages and tool calls, with their mathematical views.

use vstd::prelude::*;

verus! {

/// Who authored a message.
#[derive(Clone, Copy, Debug, PartialEq, Eq, Structural)]
pub enum ChatRole {
    User,
    Assistant,
    System,
}

/// The encoding of an attached image.
#[derive(Clone, Copy, Debug, PartialEq, Eq, Structural)]
pub enum ImageMime {
    JPEG,
    PNG,
    GIF,
    WEBP,
}

/// What a message carries besides its text.
#[derive(Clone, Debug, PartialEq, Eq)]
pub enum MessageType {
    /// Nothing: the message is its text.
    Text,
    /// An image, as its encoding and its bytes.
    Image { mime: ImageMime, bytes: Vec<u8> },
    /// A PDF document, as its bytes.
    Pdf(Vec<u8>),
    /// A sound recording, as its bytes.
    Audio(Vec<u8>),
    /// The address of an image.
    ImageURL(String),
    /// Tool calls the assistant asked for.
    ToolUse(Vec<ToolCall>),
    /// The results of tool calls.
    ToolResult(Vec<ToolCall>),
}

/// A [`MessageType`] as a mathematical value.
pub enum MessageTypeView {
    Text,
    Image { mime: ImageMime, bytes: Seq<u8> },
    Pdf(Seq<u8>),
    Audio(Seq<u8>),
    ImageURL(Seq<char>),
    ToolUse(Seq<ToolCallView>),
    ToolResult(Seq<ToolCallView>),
}

impl View for MessageType {
    type V = MessageTypeView;

    open spec fn view(&self) -> MessageTypeView {
        match *self {
            MessageType::Text => MessageTypeView::Text,
            MessageType::Image { mime, bytes } => MessageTypeView::Image { mime, bytes: bytes@ },
            MessageType::Pdf(bytes) => MessageTypeView::Pdf(bytes@),
            MessageType::Audio(bytes) => MessageTypeView::Audio(bytes@),
            MessageType::ImageURL(url) => MessageTypeView::ImageURL(url@),
            MessageType::ToolUse(calls) => MessageTypeView::ToolUse(calls_view(calls@)),
            MessageType::ToolResult(calls) => MessageTypeView::ToolResult(calls_view(calls@)),
        }
    }
}

/// One immutable entry of a conversation.
#[derive(Clone, Debug, PartialEq, Eq)]
pub struct ChatMessage {
    pub role: ChatRole,
    pub message_type: MessageType,
    pub content: String,
}

/// A [`ChatMessage`] as a mathematical value.
pub struct ChatMessageView {
    pub role: ChatRole,
    pub message_type: MessageTypeView,
    pub content: Seq<char>,
}

impl View for ChatMessage {
    type V = ChatMessageView;

    open spec fn view(&self) -> ChatMessageView {
        ChatMessageView {
            role: self.role,
            message_type: self.message_type@,
            content: self.content@,
        }
    }
}

/// The plain text message of `role` that says `content`.
pub open spec fn text_message(role: ChatRole, content: Seq<char>) -> ChatMessageView {
    ChatMessageView { role, message_type: MessageTypeView::Text, content }
}

impl ChatMessage {
    /// A plain text message authored by the user.
    pub fn user(content: String) -> (m: ChatMessage)
        ensures
            m@ == text_message(ChatRole::User, content@),
    {
        ChatMessage { role: ChatRole::User, message_type: MessageType::Text, content }
    }

    /// A plain text message authored by the assistant.
    pub fn assistant(content: String) -> (m: ChatMessage)
        ensures
            m@ == text_message(ChatRole::Assistant, content@),
    {
        ChatMessage { role: ChatRole::Assistant, message_type: MessageType::Text, content }
    }
}

/// The views of a list of messages, entry by entry.
pub open spec fn messages_view(messages: Seq<ChatMessage>) -> Seq<ChatMessageView> {
    Seq::new(messages.len(), |i: int| messages[i]@)
}

/// The function a tool call names, with its arguments as text.
#[derive(Clone, Debug, PartialEq, Eq)]
pub struct FunctionCall {
    pub name: String,
    pub arguments: String,
}

/// A request by the backend to run a tool.
#[derive(Clone, Debug, PartialEq, Eq)]
pub struct ToolCall {
    pub id: String,
    pub call_type: String,
    pub function: FunctionCall,
}

/// A [`ToolCall`] as a mathematical value.
pub struct ToolCallView {
    pub id: Seq<char>,
    pub call_type: Seq<char>,
    pub name: Seq<char>,
    pub arguments: Seq<char>,
}

impl View for ToolCall {
    type V = ToolCallView;

    open spec fn view(&self) -> ToolCallView {
        ToolCallView {
            id: self.id@,
            call_type: self.call_type@,
            name: self.function.name@,
            arguments: self.function.arguments@,
        }
    }
}

/// The views of a list of tool calls, entry by entry.
pub open spec fn calls_view(calls: Seq<ToolCall>) -> Seq<ToolCallView> {
    Seq::new(calls.len(), |i: int| calls[i]@)
}

} // verus!
