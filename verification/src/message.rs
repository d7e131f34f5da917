//! The conversation model: messages made of text or of content blocks.
use vstd::prelude::*;

use crate::json::{JsonValue, JsonView};

verus! {

/// Who sent a message.
#[derive(Clone, Copy, Debug, PartialEq, Eq, Structural)]
pub enum Role {
    User,
    Assistant,
}

/// Why the model stopped producing a response.
#[derive(Clone, Copy, Debug, PartialEq, Eq, Structural)]
pub enum StopReason {
    EndTurn,
    MaxTokens,
    StopSequence,
    ToolUse,
    Refusal,
}

/// Where the data of an image comes from.
#[derive(Debug)]
pub struct ImageSource {
    pub type_: String,
    pub media_type: String,
    pub data: String,
}

/// One block of a structured message.
#[derive(Debug)]
pub enum ContentBlock {
    Text { text: String },
    Image { source: ImageSource },
    ToolUse { id: String, name: String, input: JsonValue },
    ToolResult { tool_use_id: String, content: String },
    Thinking { thinking: String, signature: String },
    RedactedThinking { data: String },
}

/// The content of a message: plain text or a list of blocks.
#[derive(Debug)]
#[allow(inconsistent_fields)]
pub enum MessageContent {
    Text { content: String },
    Blocks { content: Vec<ContentBlock> },
}

/// A message of the conversation.
#[derive(Debug)]
pub struct Message {
    pub role: Role,
    pub content: MessageContent,
}

/// The content of a `ContentBlock`.
pub enum BlockView {
    Text { text: Seq<char> },
    Image { type_: Seq<char>, media_type: Seq<char>, data: Seq<char> },
    ToolUse { id: Seq<char>, name: Seq<char>, input: JsonView },
    ToolResult { tool_use_id: Seq<char>, content: Seq<char> },
    Thinking { thinking: Seq<char>, signature: Seq<char> },
    RedactedThinking { data: Seq<char> },
}

/// The content of a `MessageContent`.
pub enum ContentView {
    Text(Seq<char>),
    Blocks(Seq<BlockView>),
}

/// The content of a `Message`.
pub struct MessageView {
    pub role: Role,
    pub content: ContentView,
}

impl View for ContentBlock {
    type V = BlockView;

    open spec fn view(&self) -> BlockView {
        match self {
            ContentBlock::Text { text } => BlockView::Text { text: text@ },
            ContentBlock::Image { source } => BlockView::Image {
                type_: source.type_@,
                media_type: source.media_type@,
                data: source.data@,
            },
            ContentBlock::ToolUse { id, name, input } => BlockView::ToolUse {
                id: id@,
                name: name@,
                input: input@,
            },
            ContentBlock::ToolResult { tool_use_id, content } => BlockView::ToolResult {
                tool_use_id: tool_use_id@,
                content: content@,
            },
            ContentBlock::Thinking { thinking, signature } => BlockView::Thinking {
                thinking: thinking@,
                signature: signature@,
            },
            ContentBlock::RedactedThinking { data } => BlockView::RedactedThinking { data: data@ },
        }
    }
}

/// The contents of a sequence of blocks.
pub open spec fn blocks_view(s: Seq<ContentBlock>) -> Seq<BlockView> {
    s.map_values(|b: ContentBlock| b@)
}

impl View for MessageContent {
    type V = ContentView;

    open spec fn view(&self) -> ContentView {
        match self {
            MessageContent::Text { content } => ContentView::Text(content@),
            MessageContent::Blocks { content } => ContentView::Blocks(blocks_view(content@)),
        }
    }
}

impl View for Message {
    type V = MessageView;

    open spec fn view(&self) -> MessageView {
        MessageView { role: self.role, content: self.content@ }
    }
}

/// The contents of a sequence of messages.
pub open spec fn messages_view(s: Seq<Message>) -> Seq<MessageView> {
    s.map_values(|m: Message| m@)
}

impl ImageSource {
    /// A copy of this source.
    pub fn duplicate(&self) -> (r: ImageSource)
        ensures
            r.type_@ == self.type_@,
            r.media_type@ == self.media_type@,
            r.data@ == self.data@,
    {
        ImageSource {
            type_: self.type_.clone(),
            media_type: self.media_type.clone(),
            data: self.data.clone(),
        }
    }
}

impl ContentBlock {
    /// A copy of this block.
    pub fn duplicate(&self) -> (r: ContentBlock)
        ensures
            r@ == self@,
    {
        match self {
            ContentBlock::Text { text } => ContentBlock::Text { text: text.clone() },
            ContentBlock::Image { source } => ContentBlock::Image { source: source.duplicate() },
            ContentBlock::ToolUse { id, name, input } => ContentBlock::ToolUse {
                id: id.clone(),
                name: name.clone(),
                input: input.duplicate(),
            },
            ContentBlock::ToolResult { tool_use_id, content } => ContentBlock::ToolResult {
                tool_use_id: tool_use_id.clone(),
                content: content.clone(),
            },
            ContentBlock::Thinking { thinking, signature } => ContentBlock::Thinking {
                thinking: thinking.clone(),
                signature: signature.clone(),
            },
            ContentBlock::RedactedThinking { data } => ContentBlock::RedactedThinking {
                data: data.clone(),
            },
        }
    }

    /// Whether this block is a tool result.
    pub fn is_tool_result(&self) -> (r: bool)
        ensures
            r == (self@ is ToolResult),
    {
        match self {
            ContentBlock::ToolResult { .. } => true,
            _ => false,
        }
    }
}

/// A copy of a sequence of blocks.
pub fn duplicate_blocks(blocks: &Vec<ContentBlock>) -> (r: Vec<ContentBlock>)
    ensures
        blocks_view(r@) == blocks_view(blocks@),
{
    let mut out: Vec<ContentBlock> = Vec::new();
    let mut i: usize = 0;
    while i < blocks.len()
        invariant
            i <= blocks@.len(),
            out@.len() == i,
            forall|j: int| 0 <= j < i ==> #[trigger] out@[j]@ == blocks@[j]@,
        decreases blocks@.len() - i,
    {
        out.push(blocks[i].duplicate());
        i = i + 1;
    }
    assert(blocks_view(out@) =~= blocks_view(blocks@));
    out
}

impl MessageContent {
    /// A copy of this content.
    pub fn duplicate(&self) -> (r: MessageContent)
        ensures
            r@ == self@,
    {
        match self {
            MessageContent::Text { content } => MessageContent::Text { content: content.clone() },
            MessageContent::Blocks { content } => MessageContent::Blocks {
                content: duplicate_blocks(content),
            },
        }
    }
}

impl Message {
    /// A message whose content is plain text.
    pub fn new_text(role: Role, text: String) -> (r: Message)
        ensures
            r@ == (MessageView { role, content: ContentView::Text(text@) }),
    {
        Message { role, content: MessageContent::Text { content: text } }
    }

    /// A message whose content is a list of blocks.
    pub fn new_blocks(role: Role, blocks: Vec<ContentBlock>) -> (r: Message)
        ensures
            r@ == (MessageView { role, content: ContentView::Blocks(blocks_view(blocks@)) }),
    {
        Message { role, content: MessageContent::Blocks { content: blocks } }
    }

    /// A copy of this message.
    pub fn duplicate(&self) -> (r: Message)
        ensures
            r@ == self@,
    {
        Message { role: self.role, content: self.content.duplicate() }
    }
}

} // verus!
