//! What goes back to the client: streamed chunks, the one-piece
//! response, and the frames of a server-sent event stream.

use crate::errors::{ErrorModel, OpenAIErrorResponse};
use crate::text::concat3;
use crate::upstream::{ChatToolCall, ToolCallModel};
use vstd::prelude::*;

verus! {

/// Token accounting of one reply. `total_tokens` is the sum of the other
/// two (see `wf`).
#[derive(Debug, Clone, Copy, PartialEq, Eq, Structural)]
pub struct Usage {
    pub prompt_tokens: u32,
    pub completion_tokens: u32,
    pub total_tokens: u64,
    pub cached_tokens: u32,
}

impl Usage {
    pub open spec fn wf(self) -> bool {
        self.total_tokens == self.prompt_tokens + self.completion_tokens && self.cached_tokens == 0
    }

    /// The accounting for the given counts.
    pub open spec fn of(prompt_tokens: u32, completion_tokens: u32) -> Usage {
        Usage {
            prompt_tokens,
            completion_tokens,
            total_tokens: (prompt_tokens + completion_tokens) as u64,
            cached_tokens: 0,
        }
    }

    pub fn new(prompt_tokens: u32, completion_tokens: u32) -> (r: Usage)
        ensures
            r == Usage::of(prompt_tokens, completion_tokens),
            r.wf(),
    {
        Usage {
            prompt_tokens,
            completion_tokens,
            total_tokens: prompt_tokens as u64 + completion_tokens as u64,
            cached_tokens: 0,
        }
    }
}

/// A tool call inside a streamed delta, with its position in the list.
#[derive(Debug)]
pub struct ChunkToolCall {
    pub index: u32,
    pub call: ChatToolCall,
}

pub struct ChunkToolCallModel {
    pub index: u32,
    pub call: ToolCallModel,
}

impl DeepView for ChunkToolCall {
    type V = ChunkToolCallModel;

    open spec fn deep_view(&self) -> ChunkToolCallModel {
        ChunkToolCallModel { index: self.index, call: self.call.deep_view() }
    }
}

/// What a streamed chunk adds to the reply.
#[derive(Debug)]
pub struct Delta {
    pub role: Option<String>,
    pub content: Option<String>,
    pub refusal: Option<String>,
    pub tool_calls: Option<Vec<ChunkToolCall>>,
    pub reasoning_content: Option<String>,
}

pub struct DeltaModel {
    pub role: Option<Seq<char>>,
    pub content: Option<Seq<char>>,
    pub refusal: Option<Seq<char>>,
    pub tool_calls: Option<Seq<ChunkToolCallModel>>,
    pub reasoning_content: Option<Seq<char>>,
}

impl DeepView for Delta {
    type V = DeltaModel;

    open spec fn deep_view(&self) -> DeltaModel {
        DeltaModel {
            role: self.role.deep_view(),
            content: self.content.deep_view(),
            refusal: self.refusal.deep_view(),
            tool_calls: self.tool_calls.deep_view(),
            reasoning_content: self.reasoning_content.deep_view(),
        }
    }
}

/// The one choice of a streamed chunk.
#[derive(Debug)]
pub struct Choice {
    pub index: u32,
    pub delta: Delta,
    pub finish_reason: Option<String>,
}

pub struct ChoiceModel {
    pub index: u32,
    pub delta: DeltaModel,
    pub finish_reason: Option<Seq<char>>,
}

impl DeepView for Choice {
    type V = ChoiceModel;

    open spec fn deep_view(&self) -> ChoiceModel {
        ChoiceModel {
            index: self.index,
            delta: self.delta.deep_view(),
            finish_reason: self.finish_reason.deep_view(),
        }
    }
}

/// One chunk of a streamed reply.
#[derive(Debug)]
pub struct ChatCompletionChunk {
    pub id: String,
    pub object: String,
    pub created: i64,
    pub model: String,
    pub choices: Vec<Choice>,
    pub usage: Option<Usage>,
}

pub struct CompletionChunkModel {
    pub id: Seq<char>,
    pub object: Seq<char>,
    pub created: i64,
    pub model: Seq<char>,
    pub choices: Seq<ChoiceModel>,
    pub usage: Option<Usage>,
}

impl DeepView for ChatCompletionChunk {
    type V = CompletionChunkModel;

    open spec fn deep_view(&self) -> CompletionChunkModel {
        CompletionChunkModel {
            id: self.id@,
            object: self.object@,
            created: self.created,
            model: self.model@,
            choices: self.choices.deep_view(),
            usage: self.usage,
        }
    }
}

/// The message of a one-piece response.
#[derive(Debug)]
pub struct CompletionMessage {
    pub role: String,
    pub content: String,
    pub refusal: Option<String>,
    pub tool_calls: Option<Vec<ChatToolCall>>,
    pub reasoning_content: Option<String>,
}

pub struct CompletionMessageModel {
    pub role: Seq<char>,
    pub content: Seq<char>,
    pub refusal: Option<Seq<char>>,
    pub tool_calls: Option<Seq<ToolCallModel>>,
    pub reasoning_content: Option<Seq<char>>,
}

impl DeepView for CompletionMessage {
    type V = CompletionMessageModel;

    open spec fn deep_view(&self) -> CompletionMessageModel {
        CompletionMessageModel {
            role: self.role@,
            content: self.content@,
            refusal: self.refusal.deep_view(),
            tool_calls: self.tool_calls.deep_view(),
            reasoning_content: self.reasoning_content.deep_view(),
        }
    }
}

/// The one choice of a one-piece response.
#[derive(Debug)]
pub struct CompletionChoice {
    pub index: u32,
    pub message: CompletionMessage,
    pub logprobs: Option<String>,
    pub finish_reason: Option<String>,
}

pub struct CompletionChoiceModel {
    pub index: u32,
    pub message: CompletionMessageModel,
    pub logprobs: Option<Seq<char>>,
    pub finish_reason: Option<Seq<char>>,
}

impl DeepView for CompletionChoice {
    type V = CompletionChoiceModel;

    open spec fn deep_view(&self) -> CompletionChoiceModel {
        CompletionChoiceModel {
            index: self.index,
            message: self.message.deep_view(),
            logprobs: self.logprobs.deep_view(),
            finish_reason: self.finish_reason.deep_view(),
        }
    }
}

/// A one-piece response.
#[derive(Debug)]
pub struct ChatCompletionResponse {
    pub id: String,
    pub object: String,
    pub created: i64,
    pub model: String,
    pub choices: Vec<CompletionChoice>,
    pub usage: Option<Usage>,
}

pub struct CompletionResponseModel {
    pub id: Seq<char>,
    pub object: Seq<char>,
    pub created: i64,
    pub model: Seq<char>,
    pub choices: Seq<CompletionChoiceModel>,
    pub usage: Option<Usage>,
}

impl DeepView for ChatCompletionResponse {
    type V = CompletionResponseModel;

    open spec fn deep_view(&self) -> CompletionResponseModel {
        CompletionResponseModel {
            id: self.id@,
            object: self.object@,
            created: self.created,
            model: self.model@,
            choices: self.choices.deep_view(),
            usage: self.usage,
        }
    }
}

/// One frame of a streamed reply, before it is written out.
#[derive(Debug)]
pub enum StreamFrame {
    /// A chunk, written as `data: <json>`.
    Chunk(ChatCompletionChunk),
    /// An error body, written as `data: <json>`.
    Error(OpenAIErrorResponse),
    /// The end marker, written as `data: [DONE]`.
    Done,
}

pub enum FrameModel {
    Chunk(CompletionChunkModel),
    Error(ErrorModel),
    Done,
}

impl DeepView for StreamFrame {
    type V = FrameModel;

    open spec fn deep_view(&self) -> FrameModel {
        match self {
            StreamFrame::Chunk(c) => FrameModel::Chunk(c.deep_view()),
            StreamFrame::Error(e) => FrameModel::Error(e.deep_view()),
            StreamFrame::Done => FrameModel::Done,
        }
    }
}

/// `data: <payload>` followed by an empty line.
pub open spec fn sse_frame_text(payload: Seq<char>) -> Seq<char> {
    "data: "@ + payload + "\n\n"@
}

/// Frames a serialised chunk or error body for the event stream.
pub fn sse_frame(payload: &str) -> (r: String)
    ensures
        r@ == sse_frame_text(payload@),
{
    concat3("data: ", payload, "\n\n")
}

/// The frame that ends every event stream.
pub fn sse_done() -> (r: String)
    ensures
        r@ == sse_frame_text("[DONE]"@),
{
    sse_frame("[DONE]")
}

} // verus!
