//! Chat messages, tool calls and the pieces of a streamed answer.

use vstd::prelude::*;

use crate::json::{Json, JsonView};
use crate::text;

verus! {

/// One message of a conversation.
#[derive(Debug, PartialEq)]
pub struct ChatMessage {
    pub role: String,
    pub content: String,
    pub reasoning_content: Option<String>,
}

/// The model of a message.
#[verifier::ext_equal]
pub struct ChatMessageView {
    pub role: Seq<char>,
    pub content: Seq<char>,
    pub reasoning_content: Option<Seq<char>>,
}

impl View for ChatMessage {
    type V = ChatMessageView;

    open spec fn view(&self) -> ChatMessageView {
        ChatMessageView {
            role: self.role@,
            content: self.content@,
            reasoning_content: text::opt_view(self.reasoning_content),
        }
    }
}

/// A message without reasoning.
pub open spec fn plain_message(role: Seq<char>, content: Seq<char>) -> ChatMessageView {
    ChatMessageView { role, content, reasoning_content: None }
}

impl ChatMessage {
    /// A message without reasoning.
    pub fn plain(role: &str, content: &str) -> (r: ChatMessage)
        ensures
            r@ == plain_message(role@, content@),
    {
        ChatMessage {
            role: role.to_string(),
            content: content.to_string(),
            reasoning_content: None,
        }
    }

    pub fn copy(&self) -> (r: ChatMessage)
        ensures
            r@ == self@,
    {
        ChatMessage {
            role: self.role.clone(),
            content: self.content.clone(),
            reasoning_content: text::copy_opt(&self.reasoning_content),
        }
    }
}

/// A copy of a conversation.
pub fn copy_messages(v: &Vec<ChatMessage>) -> (r: Vec<ChatMessage>)
    ensures
        text::views(r@) == text::views(v@),
{
    let mut out: Vec<ChatMessage> = Vec::new();
    let mut i: usize = 0;
    while i < v.len()
        invariant
            i <= v@.len(),
            out@.len() == i,
            forall|k: int| 0 <= k < i ==> (#[trigger] out@[k])@ == v@[k]@,
        decreases v@.len() - i,
    {
        out.push(v[i].copy());
        i = i + 1;
    }
    assert(text::views(out@) =~= text::views(v@));
    out
}

/// A request of the model to run a tool.
#[derive(Debug, PartialEq)]
pub struct ToolCall {
    pub name: String,
    pub call_id: String,
    pub command: String,
    pub args: Json,
}

/// The model of a tool call.
#[verifier::ext_equal]
pub struct ToolCallView {
    pub name: Seq<char>,
    pub call_id: Seq<char>,
    pub command: Seq<char>,
    pub args: JsonView,
}

impl View for ToolCall {
    type V = ToolCallView;

    open spec fn view(&self) -> ToolCallView {
        ToolCallView {
            name: self.name@,
            call_id: self.call_id@,
            command: self.command@,
            args: self.args@,
        }
    }
}

impl ToolCall {
    pub fn copy(&self) -> (r: ToolCall)
        ensures
            r@ == self@,
    {
        ToolCall {
            name: self.name.clone(),
            call_id: self.call_id.clone(),
            command: self.command.clone(),
            args: self.args.copy(),
        }
    }
}

/// A piece of a file that a tool call under way is about to write.
#[derive(Debug, PartialEq)]
pub struct ToolPreview {
    pub path: String,
    pub action: String,
    pub content_chunk: String,
    pub reset: bool,
    pub done: bool,
    pub truncated: bool,
}

/// The model of a preview.
#[verifier::ext_equal]
pub struct ToolPreviewView {
    pub path: Seq<char>,
    pub action: Seq<char>,
    pub content_chunk: Seq<char>,
    pub reset: bool,
    pub done: bool,
    pub truncated: bool,
}

impl View for ToolPreview {
    type V = ToolPreviewView;

    open spec fn view(&self) -> ToolPreviewView {
        ToolPreviewView {
            path: self.path@,
            action: self.action@,
            content_chunk: self.content_chunk@,
            reset: self.reset,
            done: self.done,
            truncated: self.truncated,
        }
    }
}

/// A piece of a streamed answer.
#[derive(Debug, PartialEq)]
pub enum GenerationType {
    Content(String),
    Reasoning(String),
    ToolPreview(ToolPreview),
    CallTool(ToolCall),
}

/// The model of a piece of a streamed answer.
#[verifier::ext_equal]
pub enum GenerationView {
    Content(Seq<char>),
    Reasoning(Seq<char>),
    ToolPreview(ToolPreviewView),
    CallTool(ToolCallView),
}

impl View for GenerationType {
    type V = GenerationView;

    open spec fn view(&self) -> GenerationView {
        match self {
            GenerationType::Content(s) => GenerationView::Content(s@),
            GenerationType::Reasoning(s) => GenerationView::Reasoning(s@),
            GenerationType::ToolPreview(p) => GenerationView::ToolPreview(p@),
            GenerationType::CallTool(c) => GenerationView::CallTool(c@),
        }
    }
}

} // verus!
