//! The emitter: it turns the directives of the event handlers into
//! chunks, frame by frame for a streamed reply, or into one response.

use crate::context::{initial_context, lookup, record, ContextModel, EventContext};
use crate::errors::{convert_poe_error_to_openai, upstream_error, ErrorModel, OpenAIErrorResponse};
use crate::events::{
    handle_event, resolve_file_refs, resolve_refs, Directive, DirectiveModel, EventHandlerManager,
};
use crate::openai::{
    ChatCompletionChunk, ChatCompletionResponse, Choice, ChoiceModel, ChunkToolCall,
    ChunkToolCallModel, CompletionChoice, CompletionChoiceModel, CompletionChunkModel,
    CompletionMessage, CompletionMessageModel, CompletionResponseModel, Delta, DeltaModel,
    FrameModel, StreamFrame, Usage,
};
use crate::split::{is_blank, vec_is_blank};
use crate::text::{chars_of, concat, copy_str, string_of, subvec};
use crate::thinking::{text_chunk, ThinkingProcessor};
use crate::tokens::{count_completion_tokens, token_count};
use crate::upstream::{
    copy_tool_calls, ChatEventType, ChatResponse, ChatToolCall, ResponseModel, ToolCallModel,
};
use vstd::prelude::*;

verus! {

/// What one reply has in common over all its chunks.
#[derive(Debug)]
pub struct OutputGenerator {
    pub id: String,
    pub created: i64,
    pub model: String,
    pub prompt_tokens: u32,
    pub include_usage: bool,
}

pub struct GeneratorModel {
    pub id: Seq<char>,
    pub created: i64,
    pub model: Seq<char>,
    pub prompt_tokens: u32,
    pub include_usage: bool,
}

impl DeepView for OutputGenerator {
    type V = GeneratorModel;

    open spec fn deep_view(&self) -> GeneratorModel {
        GeneratorModel {
            id: self.id@,
            created: self.created,
            model: self.model@,
            prompt_tokens: self.prompt_tokens,
            include_usage: self.include_usage,
        }
    }
}

/// One item of the upstream's reply: an event, or the failure of the
/// transport with its message.
#[derive(Debug)]
pub enum UpstreamItem {
    Event(ChatResponse),
    Failure(String),
}

pub enum ItemModel {
    Event(ResponseModel),
    Failure(Seq<char>),
}

impl DeepView for UpstreamItem {
    type V = ItemModel;

    open spec fn deep_view(&self) -> ItemModel {
        match self {
            UpstreamItem::Event(e) => ItemModel::Event(e.deep_view()),
            UpstreamItem::Failure(m) => ItemModel::Failure(m@),
        }
    }
}

// ---------------------------------------------------------------------
// Chunks

/// A delta that adds nothing.
pub open spec fn empty_delta() -> DeltaModel {
    DeltaModel { role: None, content: None, refusal: None, tool_calls: None, reasoning_content: None }
}

/// The chunk of `gen` with the given delta, finish reason and usage.
pub open spec fn chunk_of(
    gen: GeneratorModel,
    delta: DeltaModel,
    finish_reason: Option<Seq<char>>,
    usage: Option<Usage>,
) -> CompletionChunkModel {
    CompletionChunkModel {
        id: "chatcmpl-"@ + gen.id,
        object: "chat.completion.chunk"@,
        created: gen.created,
        model: gen.model,
        choices: seq![ChoiceModel { index: 0, delta, finish_reason }],
        usage,
    }
}

/// The chunk that opens a reply: the role `assistant` and nothing else.
pub open spec fn role_chunk(gen: GeneratorModel) -> CompletionChunkModel {
    chunk_of(gen, DeltaModel { role: Some("assistant"@), ..empty_delta() }, None, None)
}

/// A chunk of thinking.
pub open spec fn reasoning_chunk(gen: GeneratorModel, text: Seq<char>) -> CompletionChunkModel {
    chunk_of(gen, DeltaModel { reasoning_content: Some(text), ..empty_delta() }, None, None)
}

/// A chunk of normal content.
pub open spec fn stream_chunk(
    gen: GeneratorModel,
    content: Seq<char>,
    finish_reason: Option<Seq<char>>,
) -> CompletionChunkModel {
    chunk_of(gen, DeltaModel { content: Some(content), ..empty_delta() }, finish_reason, None)
}

/// The position of a tool call as the chunk states it.
pub open spec fn call_index(i: int) -> u32 {
    if 0 <= i <= u32::MAX {
        i as u32
    } else {
        u32::MAX
    }
}

/// The tool calls, each with its position.
pub open spec fn indexed_calls(calls: Seq<ToolCallModel>) -> Seq<ChunkToolCallModel> {
    Seq::new(calls.len(), |i: int| ChunkToolCallModel { index: call_index(i), call: calls[i] })
}

/// The chunk that carries the whole list of tool calls.
pub open spec fn tool_calls_chunk(gen: GeneratorModel, calls: Seq<ToolCallModel>) -> CompletionChunkModel {
    chunk_of(
        gen,
        DeltaModel { tool_calls: Some(indexed_calls(calls)), ..empty_delta() },
        Some("tool_calls"@),
        None,
    )
}

/// `tool_calls` where any tool call was collected, else `stop`.
pub open spec fn finish_reason(calls: Seq<ToolCallModel>) -> Seq<char> {
    if calls.len() > 0 {
        "tool_calls"@
    } else {
        "stop"@
    }
}

/// The usage of a reply, where it is asked for.
pub open spec fn usage_of(gen: GeneratorModel, completion_tokens: u32) -> Option<Usage> {
    if gen.include_usage {
        Some(Usage::of(gen.prompt_tokens, completion_tokens))
    } else {
        None
    }
}

/// The chunk that closes a reply: an empty delta, the finish reason, and
/// the usage where it is asked for.
pub open spec fn final_chunk(
    gen: GeneratorModel,
    calls: Seq<ToolCallModel>,
    completion_tokens: u32,
) -> CompletionChunkModel {
    chunk_of(gen, empty_delta(), Some(finish_reason(calls)), usage_of(gen, completion_tokens))
}

/// The text whose tokens count as the completion.
pub open spec fn completion_text(ctx: ContextModel) -> Seq<char> {
    match ctx.replace_buffer {
        Some(buf) => buf,
        None => ctx.content,
    }
}

// ---------------------------------------------------------------------
// One step of a streamed reply

/// The metadata key of the high-water mark of emitted thinking.
pub open spec fn reasoning_mark_key() -> Seq<char> {
    "last_sent_reasoning_len"@
}

/// How much thinking has been emitted.
pub open spec fn reasoning_mark(ctx: ContextModel) -> int {
    match lookup(ctx.metadata, reasoning_mark_key()) {
        Some(n) => n as int,
        None => 0,
    }
}

/// The thinking that is new since the mark, unless it is blank.
pub open spec fn new_reasoning(ctx: ContextModel) -> Option<Seq<char>> {
    let cur = ctx.reasoning_content.len() as int;
    let last = reasoning_mark(ctx);
    if cur > last && !is_blank(ctx.reasoning_content.subrange(last, cur)) {
        Some(ctx.reasoning_content.subrange(last, cur))
    } else {
        None
    }
}

/// The frames of a state and the state after them.
pub struct Emitted {
    pub ctx: ContextModel,
    pub frames: Seq<FrameModel>,
}

/// Emitting the new thinking moves the mark to the end of the thinking.
pub open spec fn emit_reasoning(gen: GeneratorModel, ctx: ContextModel) -> Emitted {
    match new_reasoning(ctx) {
        Some(text) => Emitted {
            ctx: ContextModel {
                metadata: record(
                    ctx.metadata,
                    reasoning_mark_key(),
                    ctx.reasoning_content.len() as usize,
                ),
                ..ctx
            },
            frames: seq![FrameModel::Chunk(reasoning_chunk(gen, text))],
        },
        None => Emitted { ctx, frames: Seq::empty() },
    }
}

/// A content chunk for `text`, where there is any.
pub open spec fn content_frames(gen: GeneratorModel, text: Option<Seq<char>>) -> Seq<FrameModel> {
    match text {
        Some(t) => seq![FrameModel::Chunk(stream_chunk(gen, t, None))],
        None => Seq::empty(),
    }
}

/// `text` with the placeholders of the known files resolved.
pub open spec fn resolved(ctx: ContextModel, text: Option<Seq<char>>) -> Option<Seq<char>> {
    match text {
        Some(t) => Some(resolve_refs(t, ctx.file_refs, 0)),
        None => None,
    }
}

/// What an event emits after its handler has run, the role chunk aside:
/// content, thinking and tool calls as chunks of their own, in the order
/// in which they stood in the text; on `Done` the closing chunk, after the
/// last content if the handler released any.
pub open spec fn payload(
    gen: GeneratorModel,
    ctx: ContextModel,
    kind: ChatEventType,
    directive: DirectiveModel,
) -> Emitted {
    match kind {
        ChatEventType::Text => match directive {
            DirectiveModel::Reasoning { before, after } => {
                let r = emit_reasoning(gen, ctx);
                Emitted {
                    ctx: r.ctx,
                    frames: content_frames(gen, resolved(ctx, before)) + r.frames + content_frames(
                        gen,
                        resolved(ctx, after),
                    ),
                }
            },
            DirectiveModel::Content(c) => Emitted {
                ctx,
                frames: content_frames(gen, resolved(ctx, Some(c))),
            },
            _ => Emitted { ctx, frames: Seq::empty() },
        },
        ChatEventType::File | ChatEventType::ReplaceResponse => match directive {
            DirectiveModel::Content(c) => Emitted { ctx, frames: content_frames(gen, Some(c)) },
            _ => Emitted { ctx, frames: Seq::empty() },
        },
        ChatEventType::Json => Emitted {
            ctx,
            frames: if ctx.tool_calls.len() > 0 {
                seq![FrameModel::Chunk(tool_calls_chunk(gen, ctx.tool_calls))]
            } else {
                Seq::empty()
            },
        },
        ChatEventType::Done => {
            let completion = token_count(completion_text(ctx));
            Emitted {
                ctx: ContextModel { completion_tokens: completion, ..ctx },
                frames: (match directive {
                    DirectiveModel::Content(c) => content_frames(gen, Some(c)),
                    _ => Seq::empty(),
                }) + seq![FrameModel::Chunk(final_chunk(gen, ctx.tool_calls, completion))],
            }
        },
        ChatEventType::Error => Emitted { ctx, frames: Seq::empty() },
    }
}

/// An event that opens the reply even where it emits nothing else.
pub open spec fn opens_reply(kind: ChatEventType) -> bool {
    kind == ChatEventType::Text || kind == ChatEventType::ReplaceResponse || kind
        == ChatEventType::File
}

/// The role chunk goes before the first frames of a reply, once.
pub open spec fn with_role(gen: GeneratorModel, kind: ChatEventType, e: Emitted) -> Emitted {
    if !e.ctx.role_chunk_sent && (e.frames.len() > 0 || opens_reply(kind)) {
        Emitted {
            ctx: ContextModel { role_chunk_sent: true, ..e.ctx },
            frames: seq![FrameModel::Chunk(role_chunk(gen))] + e.frames,
        }
    } else {
        e
    }
}

/// The result of one step: the state, whether the reply is over, and the
/// frames to write.
pub struct StepModel {
    pub ctx: ContextModel,
    pub finished: bool,
    pub frames: Seq<FrameModel>,
}

/// One event of a streamed reply. An error that the handler recorded
/// ends the reply with one error frame.
pub open spec fn event_step(gen: GeneratorModel, ctx: ContextModel, event: ResponseModel) -> StepModel {
    let h = handle_event(ctx, event);
    match h.ctx.error {
        Some(err) => StepModel { ctx: h.ctx, finished: true, frames: seq![FrameModel::Error(err.1)] },
        None => {
            let e = with_role(gen, event.event, payload(gen, h.ctx, event.event, h.directive));
            StepModel { ctx: e.ctx, finished: h.ctx.done, frames: e.frames }
        },
    }
}

/// One item of the upstream's reply. A failure of the transport ends the
/// reply with one error frame.
pub open spec fn item_step(gen: GeneratorModel, ctx: ContextModel, item: ItemModel) -> StepModel {
    match item {
        ItemModel::Event(event) => event_step(gen, ctx, event),
        ItemModel::Failure(message) => StepModel {
            ctx,
            finished: true,
            frames: seq![FrameModel::Error(upstream_error(message).1)],
        },
    }
}

/// The frames of the items from index `i` on, up to the step that ends
/// the reply.
pub open spec fn run(gen: GeneratorModel, ctx: ContextModel, items: Seq<ItemModel>, i: int) -> Seq<
    FrameModel,
>
    decreases items.len() - i,
{
    if i < 0 || i >= items.len() {
        Seq::empty()
    } else {
        let s = item_step(gen, ctx, items[i]);
        if s.finished {
            s.frames
        } else {
            s.frames + run(gen, s.ctx, items, i + 1)
        }
    }
}

/// The whole streamed reply to the given items: the frames of the items,
/// then the end marker.
pub open spec fn stream_frames(gen: GeneratorModel, items: Seq<ItemModel>) -> Seq<FrameModel> {
    run(gen, initial_context(), items, 0).push(FrameModel::Done)
}

// ---------------------------------------------------------------------
// The one-piece response

/// The state in which the items leave the request, or the error that ends
/// it: an error event, or a failure of the transport.
pub open spec fn drain(ctx: ContextModel, items: Seq<ItemModel>, i: int) -> Result<
    ContextModel,
    (u16, ErrorModel),
>
    decreases items.len() - i,
{
    if i < 0 || i >= items.len() {
        Ok(ctx)
    } else {
        match items[i] {
            ItemModel::Failure(message) => Err(upstream_error(message)),
            ItemModel::Event(event) => {
                let h = handle_event(ctx, event);
                match h.ctx.error {
                    Some(err) => Err(err),
                    None => if h.ctx.done {
                        Ok(h.ctx)
                    } else {
                        drain(h.ctx, items, i + 1)
                    },
                }
            },
        }
    }
}

/// The state after text that is still pending went through the parser
/// once more.
pub open spec fn flushed(ctx: ContextModel) -> ContextModel {
    if !is_blank(ctx.pending_text) {
        text_chunk(ctx, Seq::empty()).ctx
    } else {
        ctx
    }
}

/// The response for a drained state.
pub open spec fn final_response(gen: GeneratorModel, ctx: ContextModel) -> CompletionResponseModel {
    let c = flushed(ctx);
    let completion = token_count(completion_text(c));
    CompletionResponseModel {
        id: "chatcmpl-"@ + gen.id,
        object: "chat.completion"@,
        created: gen.created,
        model: gen.model,
        choices: seq![
            CompletionChoiceModel {
                index: 0,
                message: CompletionMessageModel {
                    role: "assistant"@,
                    content: resolve_refs(completion_text(c), c.file_refs, 0),
                    refusal: None,
                    tool_calls: if c.tool_calls.len() > 0 {
                        Some(c.tool_calls)
                    } else {
                        None
                    },
                    reasoning_content: if is_blank(c.reasoning_content) {
                        None
                    } else {
                        Some(c.reasoning_content)
                    },
                },
                logprobs: None,
                finish_reason: Some(finish_reason(c.tool_calls)),
            },
        ],
        usage: usage_of(gen, completion),
    }
}

/// The state after the response was made: flushed, with the completion
/// tokens counted.
pub open spec fn final_context(ctx: ContextModel) -> ContextModel {
    let c = flushed(ctx);
    ContextModel { completion_tokens: token_count(completion_text(c)), ..c }
}

// ---------------------------------------------------------------------
// The emitter

fn no_delta() -> (r: Delta)
    ensures
        r.deep_view() == empty_delta(),
{
    Delta { role: None, content: None, refusal: None, tool_calls: None, reasoning_content: None }
}

fn index_of_call(i: usize) -> (r: u32)
    ensures
        r == call_index(i as int),
{
    if i > u32::MAX as usize {
        u32::MAX
    } else {
        i as u32
    }
}

fn index_calls(calls: &Vec<ChatToolCall>) -> (r: Vec<ChunkToolCall>)
    ensures
        r.deep_view() == indexed_calls(calls.deep_view()),
{
    let mut r: Vec<ChunkToolCall> = Vec::new();
    let mut i: usize = 0;
    while i < calls.len()
        invariant
            i <= calls.len(),
            r.len() == i,
            forall|k: int|
                0 <= k < i ==> (#[trigger] r@[k]).deep_view() == (ChunkToolCallModel {
                    index: call_index(k),
                    call: calls@[k].deep_view(),
                }),
        decreases calls.len() - i,
    {
        r.push(ChunkToolCall { index: index_of_call(i), call: calls[i].copy() });
        i += 1;
    }
    assert(r.deep_view() =~= indexed_calls(calls.deep_view()));
    r
}

impl OutputGenerator {
    /// The generator of the reply with the given identity and settings.
    pub fn new(id: String, created: i64, model: String, prompt_tokens: u32, include_usage: bool) -> (r:
        OutputGenerator)
        ensures
            r.deep_view() == (GeneratorModel {
                id: id@,
                created,
                model: model@,
                prompt_tokens,
                include_usage,
            }),
    {
        OutputGenerator { id, created, model, prompt_tokens, include_usage }
    }

    fn chunk(&self, delta: Delta, finish: Option<String>, usage: Option<Usage>) -> (r:
        ChatCompletionChunk)
        ensures
            r.deep_view() == chunk_of(
                self.deep_view(),
                delta.deep_view(),
                finish.deep_view(),
                usage,
            ),
    {
        let mut choices: Vec<Choice> = Vec::new();
        let ghost d = delta.deep_view();
        let ghost f = finish.deep_view();
        choices.push(Choice { index: 0, delta, finish_reason: finish });
        assert(choices.deep_view() =~= seq![ChoiceModel { index: 0, delta: d, finish_reason: f }]);
        ChatCompletionChunk {
            id: concat("chatcmpl-", self.id.as_str()),
            object: copy_str("chat.completion.chunk"),
            created: self.created,
            model: self.model.clone(),
            choices,
            usage,
        }
    }

    /// Resolves the placeholders of the known files in `content`.
    pub fn process_file_references(&self, content: &str, ctx: &EventContext) -> (r: String)
        ensures
            r@ == resolve_refs(content@, ctx.deep_view().file_refs, 0),
    {
        resolve_file_refs(content, &ctx.file_refs).0
    }

    /// Counts the completion tokens and records them in the state. Returns
    /// prompt tokens, completion tokens and their sum.
    pub fn calculate_tokens(&self, ctx: &mut EventContext) -> (r: (u32, u32, u64))
        ensures
            final(ctx).deep_view() == (ContextModel {
                completion_tokens: token_count(completion_text(old(ctx).deep_view())),
                ..old(ctx).deep_view()
            }),
            r.0 == self.prompt_tokens,
            r.1 == token_count(completion_text(old(ctx).deep_view())),
            r.2 == r.0 + r.1,
            old(ctx).wf() ==> final(ctx).wf(),
    {
        let completion = match &ctx.replace_buffer {
            Some(buf) => count_completion_tokens(buf.as_str()),
            None => count_completion_tokens(ctx.content.as_str()),
        };
        ctx.completion_tokens = completion;
        (self.prompt_tokens, completion, self.prompt_tokens as u64 + completion as u64)
    }

    pub fn create_role_chunk(&self) -> (r: ChatCompletionChunk)
        ensures
            r.deep_view() == role_chunk(self.deep_view()),
    {
        let mut delta = no_delta();
        delta.role = Some(copy_str("assistant"));
        self.chunk(delta, None, None)
    }

    pub fn create_reasoning_chunk(&self, reasoning_content: &str) -> (r: ChatCompletionChunk)
        ensures
            r.deep_view() == reasoning_chunk(self.deep_view(), reasoning_content@),
    {
        let mut delta = no_delta();
        delta.reasoning_content = Some(copy_str(reasoning_content));
        self.chunk(delta, None, None)
    }

    pub fn create_stream_chunk(&self, content: &str, finish_reason: Option<String>) -> (r:
        ChatCompletionChunk)
        ensures
            r.deep_view() == stream_chunk(self.deep_view(), content@, finish_reason.deep_view()),
    {
        let mut delta = no_delta();
        delta.content = Some(copy_str(content));
        self.chunk(delta, finish_reason, None)
    }

    pub fn create_tool_calls_chunk(&self, tool_calls: &Vec<ChatToolCall>) -> (r:
        ChatCompletionChunk)
        ensures
            r.deep_view() == tool_calls_chunk(self.deep_view(), tool_calls.deep_view()),
    {
        let mut delta = no_delta();
        delta.tool_calls = Some(index_calls(tool_calls));
        self.chunk(delta, Some(copy_str("tool_calls")), None)
    }

    fn finish_reason_of(calls: &Vec<ChatToolCall>) -> (r: String)
        ensures
            r@ == finish_reason(calls.deep_view()),
    {
        if calls.len() > 0 {
            copy_str("tool_calls")
        } else {
            copy_str("stop")
        }
    }

    fn usage(&self, completion_tokens: u32) -> (r: Option<Usage>)
        ensures
            r == usage_of(self.deep_view(), completion_tokens),
    {
        if self.include_usage {
            Some(Usage::new(self.prompt_tokens, completion_tokens))
        } else {
            None
        }
    }

    /// The chunk that closes a streamed reply.
    pub fn create_final_chunk(&self, tool_calls: &Vec<ChatToolCall>, completion_tokens: u32) -> (r:
        ChatCompletionChunk)
        ensures
            r.deep_view() == final_chunk(
                self.deep_view(),
                tool_calls.deep_view(),
                completion_tokens,
            ),
    {
        self.chunk(no_delta(), Some(Self::finish_reason_of(tool_calls)), self.usage(completion_tokens))
    }

    fn push_content(&self, frames: &mut Vec<StreamFrame>, text: &Option<String>)
        ensures
            final(frames).deep_view() == old(frames).deep_view() + content_frames(
                self.deep_view(),
                text.deep_view(),
            ),
    {
        let ghost before = frames.deep_view();
        match text {
            Some(t) => {
                let c = self.create_stream_chunk(t.as_str(), None);
                frames.push(StreamFrame::Chunk(c));
                assert(frames.deep_view() =~= before + content_frames(
                    self.deep_view(),
                    text.deep_view(),
                ));
            },
            None => {
                assert(frames.deep_view() =~= before + content_frames(
                    self.deep_view(),
                    text.deep_view(),
                ));
            },
        }
    }

    fn resolve(&self, ctx: &EventContext, text: &Option<String>) -> (r: Option<String>)
        ensures
            r.deep_view() == resolved(ctx.deep_view(), text.deep_view()),
    {
        match text {
            Some(t) => Some(self.process_file_references(t.as_str(), ctx)),
            None => None,
        }
    }

    fn push_reasoning(&self, frames: &mut Vec<StreamFrame>, ctx: &mut EventContext)
        ensures
            final(ctx).deep_view() == emit_reasoning(self.deep_view(), old(ctx).deep_view()).ctx,
            final(frames).deep_view() == old(frames).deep_view() + emit_reasoning(
                self.deep_view(),
                old(ctx).deep_view(),
            ).frames,
            old(ctx).wf() ==> final(ctx).wf(),
    {
        let ghost before = frames.deep_view();
        let reasoning = chars_of(ctx.reasoning_content.as_str());
        let last = match ctx.get("last_sent_reasoning_len") {
            Some(n) => n,
            None => 0,
        };
        if reasoning.len() > last {
            let fresh = subvec(&reasoning, last, reasoning.len());
            if !vec_is_blank(&fresh) {
                ctx.insert("last_sent_reasoning_len", reasoning.len());
                let c = self.create_reasoning_chunk(string_of(&fresh).as_str());
                frames.push(StreamFrame::Chunk(c));
                assert(frames.deep_view() =~= before + emit_reasoning(
                    self.deep_view(),
                    old(ctx).deep_view(),
                ).frames);
                return ;
            }
        }
        assert(frames.deep_view() =~= before + Seq::<FrameModel>::empty());
    }

    fn push_payload(
        &self,
        frames: &mut Vec<StreamFrame>,
        ctx: &mut EventContext,
        kind: ChatEventType,
        directive: Directive,
    )
        requires
            old(frames).len() == 0,
        ensures
            final(ctx).deep_view() == payload(
                self.deep_view(),
                old(ctx).deep_view(),
                kind,
                directive.deep_view(),
            ).ctx,
            final(frames).deep_view() == payload(
                self.deep_view(),
                old(ctx).deep_view(),
                kind,
                directive.deep_view(),
            ).frames,
            old(ctx).wf() ==> final(ctx).wf(),
    {
        assert(frames.deep_view() =~= Seq::<FrameModel>::empty());
        let ghost want = payload(self.deep_view(), ctx.deep_view(), kind, directive.deep_view());
        match kind {
            ChatEventType::Text => match directive {
                Directive::Reasoning { before, after } => {
                    let first = self.resolve(ctx, &before);
                    let second = self.resolve(ctx, &after);
                    self.push_content(frames, &first);
                    self.push_reasoning(frames, ctx);
                    self.push_content(frames, &second);
                    assert(frames.deep_view() =~= want.frames);
                },
                Directive::Content(c) => {
                    let text = Some(self.process_file_references(c.as_str(), ctx));
                    self.push_content(frames, &text);
                    assert(frames.deep_view() =~= want.frames);
                },
                _ => {},
            },
            ChatEventType::File | ChatEventType::ReplaceResponse => match directive {
                Directive::Content(c) => {
                    self.push_content(frames, &Some(c));
                    assert(frames.deep_view() =~= want.frames);
                },
                _ => {},
            },
            ChatEventType::Json => {
                if ctx.tool_calls.len() > 0 {
                    let c = self.create_tool_calls_chunk(&ctx.tool_calls);
                    frames.push(StreamFrame::Chunk(c));
                    assert(frames.deep_view() =~= want.frames);
                }
            },
            ChatEventType::Done => {
                match directive {
                    Directive::Content(c) => {
                        self.push_content(frames, &Some(c));
                    },
                    _ => {},
                }
                let ghost mid = frames.deep_view();
                let counted = self.calculate_tokens(ctx);
                let c = self.create_final_chunk(&ctx.tool_calls, counted.1);
                frames.push(StreamFrame::Chunk(c));
                assert(frames.deep_view() =~= mid.push(FrameModel::Chunk(c.deep_view())));
                assert(frames.deep_view() =~= want.frames);
            },
            ChatEventType::Error => {},
        }
    }

    /// Translates one upstream event: the handler of its kind runs, and
    /// what it released becomes frames. Returns the frames and whether the
    /// reply is over.
    pub fn process_event(&self, ctx: &mut EventContext, event: &ChatResponse) -> (r: (
        Vec<StreamFrame>,
        bool,
    ))
        ensures
            final(ctx).deep_view() == event_step(
                self.deep_view(),
                old(ctx).deep_view(),
                event.deep_view(),
            ).ctx,
            r.0.deep_view() == event_step(
                self.deep_view(),
                old(ctx).deep_view(),
                event.deep_view(),
            ).frames,
            r.1 == event_step(self.deep_view(), old(ctx).deep_view(), event.deep_view()).finished,
            old(ctx).wf() ==> final(ctx).wf(),
    {
        let manager = EventHandlerManager::new();
        let directive = manager.dispatch(event, ctx);
        let failed = match &ctx.error {
            Some(err) => Some(err.1.copy()),
            None => None,
        };
        match failed {
            Some(body) => {
                let mut frames: Vec<StreamFrame> = Vec::new();
                frames.push(StreamFrame::Error(body));
                assert(frames.deep_view() =~= seq![FrameModel::Error(body.deep_view())]);
                return (frames, true);
            },
            None => {},
        }
        let finished = ctx.done;
        let mut rest: Vec<StreamFrame> = Vec::new();
        self.push_payload(&mut rest, ctx, event.event, directive);
        let opens = match event.event {
            ChatEventType::Text => true,
            ChatEventType::ReplaceResponse => true,
            ChatEventType::File => true,
            _ => false,
        };
        if !ctx.role_chunk_sent && (rest.len() > 0 || opens) {
            let mut frames: Vec<StreamFrame> = Vec::new();
            let ghost tail = rest.deep_view();
            let role = self.create_role_chunk();
            frames.push(StreamFrame::Chunk(role));
            frames.append(&mut rest);
            ctx.role_chunk_sent = true;
            assert(frames.deep_view() =~= seq![FrameModel::Chunk(role_chunk(self.deep_view()))]
                + tail);
            (frames, finished)
        } else {
            (rest, finished)
        }
    }

    /// The one frame that a failure of the transport leaves.
    pub fn process_failure(&self, message: &str) -> (r: Vec<StreamFrame>)
        ensures
            r.deep_view() == seq![FrameModel::Error(upstream_error(message@).1)],
    {
        let converted = convert_poe_error_to_openai(message, false);
        let mut frames: Vec<StreamFrame> = Vec::new();
        frames.push(StreamFrame::Error(converted.1));
        assert(frames.deep_view() =~= seq![FrameModel::Error(upstream_error(message@).1)]);
        frames
    }

    /// Translates a whole reply into the frames of an event stream: the
    /// frames of each item up to the one that ends the reply, then the end
    /// marker.
    pub fn process_stream(&self, items: &Vec<UpstreamItem>) -> (r: Vec<StreamFrame>)
        ensures
            r.deep_view() == stream_frames(self.deep_view(), items.deep_view()),
    {
        let mut ctx = EventContext::new();
        let mut out: Vec<StreamFrame> = Vec::new();
        assert(out.deep_view() =~= Seq::<FrameModel>::empty());
        let mut i: usize = 0;
        let ghost gen = self.deep_view();
        let ghost all = items.deep_view();
        while i < items.len()
            invariant
                i <= items.len(),
                gen == self.deep_view(),
                all == items.deep_view(),
                run(gen, initial_context(), all, 0) == out.deep_view() + run(
                    gen,
                    ctx.deep_view(),
                    all,
                    i as int,
                ),
            decreases items.len() - i,
        {
            let ghost before = out.deep_view();
            assert(all[i as int] == items@[i as int].deep_view());
            let (mut frames, finished) = match &items[i] {
                UpstreamItem::Event(event) => self.process_event(&mut ctx, event),
                UpstreamItem::Failure(message) => (self.process_failure(message.as_str()), true),
            };
            let ghost added = frames.deep_view();
            out.append(&mut frames);
            assert(out.deep_view() =~= before + added);
            if finished {
                out.push(StreamFrame::Done);
                assert(out.deep_view() =~= (before + added).push(FrameModel::Done));
                return out;
            }
            assert(before + (added + run(gen, ctx.deep_view(), all, i + 1)) =~= out.deep_view()
                + run(gen, ctx.deep_view(), all, i + 1));
            i += 1;
        }
        let ghost before = out.deep_view();
        out.push(StreamFrame::Done);
        assert(out.deep_view() =~= (before + Seq::<FrameModel>::empty()).push(FrameModel::Done));
        out
    }

    /// The one-piece response for a drained state.
    pub fn create_final_response(&self, ctx: &mut EventContext) -> (r: ChatCompletionResponse)
        ensures
            r.deep_view() == final_response(self.deep_view(), old(ctx).deep_view()),
            final(ctx).deep_view() == final_context(old(ctx).deep_view()),
    {
        if !crate::split::str_is_blank(ctx.pending_text.as_str()) {
            let _ = ThinkingProcessor::split_text_chunk(ctx, "");
            assert("".view() =~= Seq::<char>::empty()) by {
                reveal_strlit("");
            }
        }
        let content = match &ctx.replace_buffer {
            Some(buf) => self.process_file_references(buf.as_str(), ctx),
            None => self.process_file_references(ctx.content.as_str(), ctx),
        };
        let counted = self.calculate_tokens(ctx);
        let message = CompletionMessage {
            role: copy_str("assistant"),
            content,
            refusal: None,
            tool_calls: if ctx.tool_calls.len() > 0 {
                Some(copy_tool_calls(&ctx.tool_calls))
            } else {
                None
            },
            reasoning_content: if crate::split::str_is_blank(ctx.reasoning_content.as_str()) {
                None
            } else {
                Some(ctx.reasoning_content.clone())
            },
        };
        let ghost m = message.deep_view();
        let finish = Self::finish_reason_of(&ctx.tool_calls);
        let mut choices: Vec<CompletionChoice> = Vec::new();
        choices.push(
            CompletionChoice { index: 0, message, logprobs: None, finish_reason: Some(finish) },
        );
        assert(choices.deep_view() =~= seq![
            CompletionChoiceModel {
                index: 0,
                message: m,
                logprobs: None,
                finish_reason: Some(finish@),
            },
        ]);
        ChatCompletionResponse {
            id: concat("chatcmpl-", self.id.as_str()),
            object: copy_str("chat.completion"),
            created: self.created,
            model: self.model.clone(),
            choices,
            usage: self.usage(counted.1),
        }
    }

    /// Drains a whole reply and makes the one-piece response of it, or
    /// returns the status and body of the error that ended it.
    pub fn handle_non_stream_response(&self, items: &Vec<UpstreamItem>) -> (r: Result<
        ChatCompletionResponse,
        (u16, OpenAIErrorResponse),
    >)
        ensures
            match drain(initial_context(), items.deep_view(), 0) {
                Ok(ctx) => r is Ok && r->Ok_0.deep_view() == final_response(self.deep_view(), ctx),
                Err(err) => r is Err && r->Err_0.deep_view() == err,
            },
    {
        let manager = EventHandlerManager::new();
        let mut ctx = EventContext::new();
        let mut i: usize = 0;
        let ghost all = items.deep_view();
        while i < items.len()
            invariant
                i <= items.len(),
                all == items.deep_view(),
                drain(initial_context(), all, 0) == drain(ctx.deep_view(), all, i as int),
            decreases items.len() - i,
        {
            assert(all[i as int] == items@[i as int].deep_view());
            match &items[i] {
                UpstreamItem::Failure(message) => {
                    return Err(convert_poe_error_to_openai(message.as_str(), false));
                },
                UpstreamItem::Event(event) => {
                    let _ = manager.dispatch(event, &mut ctx);
                    let failed = match &ctx.error {
                        Some(err) => Some((err.0, err.1.copy())),
                        None => None,
                    };
                    match failed {
                        Some(err) => {
                            return Err(err);
                        },
                        None => {},
                    }
                    if ctx.done {
                        return Ok(self.create_final_response(&mut ctx));
                    }
                },
            }
            i += 1;
        }
        Ok(self.create_final_response(&mut ctx))
    }
}

} // verus!
