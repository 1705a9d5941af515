//! The handlers of upstream events: each one changes the request's state
//! and says what is to be emitted.

use crate::context::{refs_unique, ContextModel, EventContext};
use crate::errors::{convert_poe_error_to_openai, upstream_error};
use crate::text::{
    append, chars_of, concat, contains, copy_str, replace_all, str_eq, string_of, vec_contains,
    vec_replace,
};
use crate::thinking::{merge_parts, merged_content, text_chunk, TextParts, ThinkingProcessor};
use crate::upstream::{
    ChatEventType, ChatResponse, ChatResponseData, ChatToolCall, FileData, FileDataModel,
    ResponseDataModel, ResponseModel, ToolCallModel,
};
use vstd::prelude::*;

verus! {

// ---------------------------------------------------------------------
// Inline references

/// The placeholder `[<inline_ref>]`.
pub open spec fn marker(inline_ref: Seq<char>) -> Seq<char> {
    seq!['['] + inline_ref + seq![']']
}

/// What stands in place of a placeholder: `(<url>)`.
pub open spec fn replacement(url: Seq<char>) -> Seq<char> {
    seq!['('] + url + seq![')']
}

/// `text` with the placeholders of the files `refs[i..]` resolved, one
/// file after the other in the order of the table.
pub open spec fn resolve_refs(text: Seq<char>, refs: Seq<FileDataModel>, i: int) -> Seq<char>
    decreases refs.len() - i,
{
    if i < 0 || i >= refs.len() {
        text
    } else {
        resolve_refs(
            replace_all(text, marker(refs[i].inline_ref), replacement(refs[i].url)),
            refs,
            i + 1,
        )
    }
}

/// Whether resolving the files `refs[i..]` in `text` meets any placeholder.
pub open spec fn any_marker(text: Seq<char>, refs: Seq<FileDataModel>, i: int) -> bool
    decreases refs.len() - i,
{
    if i < 0 || i >= refs.len() {
        false
    } else {
        contains(text, marker(refs[i].inline_ref)) || any_marker(
            replace_all(text, marker(refs[i].inline_ref), replacement(refs[i].url)),
            refs,
            i + 1,
        )
    }
}

/// Index of the file recorded for `inline_ref`, if any.
pub open spec fn ref_index(refs: Seq<FileDataModel>, inline_ref: Seq<char>, i: int) -> Option<int>
    decreases refs.len() - i,
{
    if i < 0 || i >= refs.len() {
        None
    } else if refs[i].inline_ref == inline_ref {
        Some(i)
    } else {
        ref_index(refs, inline_ref, i + 1)
    }
}

/// The table after `file` is recorded: it takes the place of a file with
/// the same inline reference, or goes to the end.
pub open spec fn put_ref(refs: Seq<FileDataModel>, file: FileDataModel) -> Seq<FileDataModel> {
    match ref_index(refs, file.inline_ref, 0) {
        Some(i) => refs.update(i, file),
        None => refs.push(file),
    }
}

pub proof fn lemma_ref_index(refs: Seq<FileDataModel>, inline_ref: Seq<char>, i: int)
    requires
        0 <= i,
    ensures
        match ref_index(refs, inline_ref, i) {
            Some(k) => i <= k < refs.len() && refs[k].inline_ref == inline_ref,
            None => forall|j: int| i <= j < refs.len() ==> refs[j].inline_ref != inline_ref,
        },
    decreases refs.len() - i,
{
    if i < refs.len() && refs[i].inline_ref != inline_ref {
        lemma_ref_index(refs, inline_ref, i + 1);
    }
}

/// Recording a file keeps the inline references of the table distinct.
pub proof fn lemma_put_ref_unique(refs: Seq<FileDataModel>, file: FileDataModel)
    requires
        refs_unique(refs),
    ensures
        refs_unique(put_ref(refs, file)),
{
    let after = put_ref(refs, file);
    lemma_ref_index(refs, file.inline_ref, 0);
    assert forall|a: int, b: int| 0 <= a < b < after.len() implies after[a].inline_ref
        != after[b].inline_ref by {
        match ref_index(refs, file.inline_ref, 0) {
            Some(i) => {
                assert(refs[a].inline_ref != refs[b].inline_ref);
            },
            None => {
                if b < refs.len() {
                    assert(refs[a].inline_ref != refs[b].inline_ref);
                }
            },
        }
    }
}

fn bracketed(open: char, inner: &str, close: char) -> (r: Vec<char>)
    ensures
        r@ == seq![open] + inner@ + seq![close],
{
    let mut r: Vec<char> = Vec::new();
    r.push(open);
    append(&mut r, &chars_of(inner));
    r.push(close);
    assert(r@ =~= seq![open] + inner@ + seq![close]);
    r
}

/// Resolves the placeholders of all recorded files in `text`. The flag
/// says whether any placeholder was met.
pub fn resolve_file_refs(text: &str, refs: &Vec<FileData>) -> (r: (String, bool))
    ensures
        r.0@ == resolve_refs(text@, refs.deep_view(), 0),
        r.1 == any_marker(text@, refs.deep_view(), 0),
{
    let mut cur = chars_of(text);
    let mut met = false;
    let mut i: usize = 0;
    while i < refs.len()
        invariant
            i <= refs.len(),
            resolve_refs(text@, refs.deep_view(), 0) == resolve_refs(
                cur@,
                refs.deep_view(),
                i as int,
            ),
            any_marker(text@, refs.deep_view(), 0) == (met || any_marker(
                cur@,
                refs.deep_view(),
                i as int,
            )),
        decreases refs.len() - i,
    {
        let m = bracketed('[', refs[i].inline_ref.as_str(), ']');
        let to = bracketed('(', refs[i].url.as_str(), ')');
        assert(refs.deep_view()[i as int] == refs@[i as int].deep_view());
        if vec_contains(&cur, &m) {
            met = true;
        }
        cur = vec_replace(&cur, &m, &to);
        i += 1;
    }
    (string_of(&cur), met)
}

// ---------------------------------------------------------------------
// Directives

/// What a handler asks the emitter to do.
#[derive(Debug)]
pub enum Directive {
    /// Nothing is to be emitted.
    Nothing,
    /// Normal content.
    Content(String),
    /// Thinking was found; with it came the normal content that stood
    /// before it and after it in the text.
    Reasoning { before: Option<String>, after: Option<String> },
    /// The list of tool calls has grown.
    ToolCalls,
    /// The reply is complete.
    Done,
    /// The upstream reported an error; it stands in the context.
    Error,
}

pub enum DirectiveModel {
    Nothing,
    Content(Seq<char>),
    Reasoning { before: Option<Seq<char>>, after: Option<Seq<char>> },
    ToolCalls,
    Done,
    Error,
}

impl DeepView for Directive {
    type V = DirectiveModel;

    open spec fn deep_view(&self) -> DirectiveModel {
        match self {
            Directive::Nothing => DirectiveModel::Nothing,
            Directive::Content(c) => DirectiveModel::Content(c@),
            Directive::Reasoning { before, after } => DirectiveModel::Reasoning {
                before: before.deep_view(),
                after: after.deep_view(),
            },
            Directive::ToolCalls => DirectiveModel::ToolCalls,
            Directive::Done => DirectiveModel::Done,
            Directive::Error => DirectiveModel::Error,
        }
    }
}

/// A directive as a text: content as it is, everything else as its
/// sentinel.
pub open spec fn directive_text(d: DirectiveModel) -> Option<Seq<char>> {
    match d {
        DirectiveModel::Nothing => None,
        DirectiveModel::Content(c) => Some(c),
        DirectiveModel::Reasoning { .. } => Some("__REASONING_DETECTED__"@),
        DirectiveModel::ToolCalls => Some("tool_calls"@),
        DirectiveModel::Done => Some("done"@),
        DirectiveModel::Error => Some("error"@),
    }
}

/// The new state and the directive of one handled event.
pub struct HandledModel {
    pub ctx: ContextModel,
    pub directive: DirectiveModel,
}

/// The directive for what the thinking parser released.
pub open spec fn parts_directive(
    before: Option<Seq<char>>,
    reasoning: Option<Seq<char>>,
    after: Option<Seq<char>>,
) -> DirectiveModel {
    if reasoning is Some {
        DirectiveModel::Reasoning { before, after }
    } else {
        match merged_content(before, after) {
            Some(c) => DirectiveModel::Content(c),
            None => DirectiveModel::Nothing,
        }
    }
}

pub open spec fn parsed(ctx: ContextModel, text: Seq<char>) -> HandledModel {
    let o = text_chunk(ctx, text);
    HandledModel { ctx: o.ctx, directive: parts_directive(o.before, o.reasoning, o.after) }
}

/// Text: the first text after a replacement is joined to the replace
/// buffer and the whole buffer goes through the thinking parser; the text
/// after that ends replace mode and moves the buffer into the content;
/// any other text goes through the parser as it is.
pub open spec fn handle_text(ctx: ContextModel, text: Seq<char>) -> HandledModel {
    if ctx.is_replace_mode && !ctx.first_text_processed {
        match ctx.replace_buffer {
            Some(buf) => parsed(
                ContextModel {
                    replace_buffer: Some(buf + text),
                    first_text_processed: true,
                    ..ctx
                },
                buf + text,
            ),
            None => HandledModel {
                ctx: ContextModel { content: ctx.content + text, ..ctx },
                directive: DirectiveModel::Content(text),
            },
        }
    } else if ctx.is_replace_mode {
        parsed(
            ContextModel {
                is_replace_mode: false,
                first_text_processed: false,
                content: match ctx.replace_buffer {
                    Some(buf) => buf,
                    None => ctx.content,
                },
                replace_buffer: None,
                ..ctx
            },
            text,
        )
    } else {
        parsed(ctx, text)
    }
}

/// A replacement: the text waits in the replace buffer for the next text
/// event, unless it holds placeholders of files that are known already;
/// then it is resolved and emitted at once.
pub open spec fn handle_replace(ctx: ContextModel, text: Seq<char>) -> HandledModel {
    let c1 = ContextModel {
        is_replace_mode: true,
        replace_buffer: Some(text),
        first_text_processed: false,
        ..ctx
    };
    if any_marker(text, ctx.file_refs, 0) {
        HandledModel {
            ctx: ContextModel { image_urls_sent: true, ..c1 },
            directive: DirectiveModel::Content(resolve_refs(text, ctx.file_refs, 0)),
        }
    } else {
        HandledModel { ctx: c1, directive: DirectiveModel::Nothing }
    }
}

/// A file: it is recorded under its inline reference; a waiting replace
/// buffer that names it is resolved against the files known by now and
/// emitted, once.
pub open spec fn handle_file(ctx: ContextModel, file: FileDataModel) -> HandledModel {
    let refs = put_ref(ctx.file_refs, file);
    let c1 = ContextModel { file_refs: refs, has_new_file_refs: true, ..ctx };
    match ctx.replace_buffer {
        Some(buf) => if !ctx.image_urls_sent && contains(buf, marker(file.inline_ref)) {
            HandledModel {
                ctx: ContextModel { image_urls_sent: true, ..c1 },
                directive: DirectiveModel::Content(resolve_refs(buf, refs, 0)),
            }
        } else {
            HandledModel { ctx: c1, directive: DirectiveModel::Nothing }
        },
        None => HandledModel { ctx: c1, directive: DirectiveModel::Nothing },
    }
}

/// Tool calls: they join the list in arrival order.
pub open spec fn handle_json(ctx: ContextModel, calls: Seq<ToolCallModel>) -> HandledModel {
    HandledModel {
        ctx: ContextModel { tool_calls: ctx.tool_calls + calls, ..ctx },
        directive: DirectiveModel::ToolCalls,
    }
}

/// An error: its status and body are recorded.
pub open spec fn handle_error(ctx: ContextModel, text: Seq<char>) -> HandledModel {
    HandledModel {
        ctx: ContextModel { error: Some(upstream_error(text)), ..ctx },
        directive: DirectiveModel::Error,
    }
}

/// The end: a replace buffer that still holds placeholders of known files
/// is resolved and emitted as the last content.
pub open spec fn handle_done(ctx: ContextModel) -> HandledModel {
    let c1 = ContextModel { done: true, ..ctx };
    match ctx.replace_buffer {
        Some(buf) => if !ctx.image_urls_sent && any_marker(buf, ctx.file_refs, 0) {
            HandledModel {
                ctx: ContextModel { image_urls_sent: true, ..c1 },
                directive: DirectiveModel::Content(resolve_refs(buf, ctx.file_refs, 0)),
            }
        } else {
            HandledModel { ctx: c1, directive: DirectiveModel::Done }
        },
        None => HandledModel { ctx: c1, directive: DirectiveModel::Done },
    }
}

/// What an event does to the state, by its kind. An event whose data does
/// not fit its kind changes nothing, but for `Done`, which carries none.
pub open spec fn handle_event(ctx: ContextModel, event: ResponseModel) -> HandledModel {
    let nothing = HandledModel { ctx, directive: DirectiveModel::Nothing };
    match event.event {
        ChatEventType::Text => match event.data {
            Some(ResponseDataModel::Text { text }) => handle_text(ctx, text),
            _ => nothing,
        },
        ChatEventType::ReplaceResponse => match event.data {
            Some(ResponseDataModel::Text { text }) => handle_replace(ctx, text),
            _ => nothing,
        },
        ChatEventType::File => match event.data {
            Some(ResponseDataModel::File(file)) => handle_file(ctx, file),
            _ => nothing,
        },
        ChatEventType::Json => match event.data {
            Some(ResponseDataModel::ToolCalls(calls)) => handle_json(ctx, calls),
            _ => nothing,
        },
        ChatEventType::Error => match event.data {
            Some(ResponseDataModel::Error { text, allow_retry }) => handle_error(ctx, text),
            _ => nothing,
        },
        ChatEventType::Done => handle_done(ctx),
    }
}

/// Handling an event keeps the inline references of the table distinct.
pub proof fn lemma_handle_keeps_refs_unique(ctx: ContextModel, event: ResponseModel)
    requires
        refs_unique(ctx.file_refs),
    ensures
        refs_unique(handle_event(ctx, event).ctx.file_refs),
        handle_event(ctx, event).ctx.metadata == ctx.metadata,
{
    match event.event {
        ChatEventType::File => match event.data {
            Some(ResponseDataModel::File(file)) => {
                lemma_put_ref_unique(ctx.file_refs, file);
            },
            _ => {},
        },
        _ => {},
    }
}

// ---------------------------------------------------------------------
// Handlers

fn directive_from(parts: TextParts) -> (r: Directive)
    ensures
        r.deep_view() == parts_directive(
            parts.before.deep_view(),
            parts.reasoning.deep_view(),
            parts.after.deep_view(),
        ),
{
    if parts.reasoning.is_some() {
        Directive::Reasoning { before: parts.before, after: parts.after }
    } else {
        match merge_parts(parts.before, parts.after) {
            Some(c) => Directive::Content(c),
            None => Directive::Nothing,
        }
    }
}

fn text_handler(ctx: &mut EventContext, text: &str) -> (r: Directive)
    ensures
        final(ctx).deep_view() == handle_text(old(ctx).deep_view(), text@).ctx,
        r.deep_view() == handle_text(old(ctx).deep_view(), text@).directive,
{
    let buffer = match &ctx.replace_buffer {
        Some(b) => Some(b.clone()),
        None => None,
    };
    if ctx.is_replace_mode && !ctx.first_text_processed {
        match buffer {
            Some(buf) => {
                let merged = concat(buf.as_str(), text);
                ctx.replace_buffer = Some(merged.clone());
                ctx.first_text_processed = true;
                let parts = ThinkingProcessor::split_text_chunk(ctx, merged.as_str());
                directive_from(parts)
            },
            None => {
                ctx.content = concat(ctx.content.as_str(), text);
                Directive::Content(copy_str(text))
            },
        }
    } else {
        if ctx.is_replace_mode {
            ctx.is_replace_mode = false;
            ctx.first_text_processed = false;
            ctx.replace_buffer = None;
            match buffer {
                Some(buf) => {
                    ctx.content = buf;
                },
                None => {},
            }
        }
        let parts = ThinkingProcessor::split_text_chunk(ctx, text);
        directive_from(parts)
    }
}

fn replace_handler(ctx: &mut EventContext, text: &str) -> (r: Directive)
    ensures
        final(ctx).deep_view() == handle_replace(old(ctx).deep_view(), text@).ctx,
        r.deep_view() == handle_replace(old(ctx).deep_view(), text@).directive,
{
    ctx.is_replace_mode = true;
    ctx.replace_buffer = Some(copy_str(text));
    ctx.first_text_processed = false;
    let (processed, met) = resolve_file_refs(text, &ctx.file_refs);
    if met {
        ctx.image_urls_sent = true;
        Directive::Content(processed)
    } else {
        Directive::Nothing
    }
}

fn find_ref(refs: &Vec<FileData>, inline_ref: &str) -> (r: Option<usize>)
    ensures
        crate::text::index_view(r) == ref_index(refs.deep_view(), inline_ref@, 0),
        r is Some ==> r->0 < refs.len(),
{
    let mut i: usize = 0;
    while i < refs.len()
        invariant
            i <= refs.len(),
            ref_index(refs.deep_view(), inline_ref@, 0) == ref_index(
                refs.deep_view(),
                inline_ref@,
                i as int,
            ),
        decreases refs.len() - i,
    {
        if str_eq(refs[i].inline_ref.as_str(), inline_ref) {
            return Some(i);
        }
        i += 1;
    }
    None
}

fn file_handler(ctx: &mut EventContext, file: &FileData) -> (r: Directive)
    ensures
        final(ctx).deep_view() == handle_file(old(ctx).deep_view(), file.deep_view()).ctx,
        r.deep_view() == handle_file(old(ctx).deep_view(), file.deep_view()).directive,
{
    let ghost before = ctx.file_refs.deep_view();
    match find_ref(&ctx.file_refs, file.inline_ref.as_str()) {
        Some(i) => {
            ctx.file_refs.set(i, file.copy());
            assert(ctx.file_refs.deep_view() =~= before.update(i as int, file.deep_view()));
        },
        None => {
            ctx.file_refs.push(file.copy());
            assert(ctx.file_refs.deep_view() =~= before.push(file.deep_view()));
        },
    }
    ctx.has_new_file_refs = true;
    if !ctx.image_urls_sent {
        let resolved = match &ctx.replace_buffer {
            Some(buf) => {
                let b = chars_of(buf.as_str());
                let m = bracketed('[', file.inline_ref.as_str(), ']');
                if vec_contains(&b, &m) {
                    Some(resolve_file_refs(buf.as_str(), &ctx.file_refs).0)
                } else {
                    None
                }
            },
            None => None,
        };
        match resolved {
            Some(text) => {
                ctx.image_urls_sent = true;
                return Directive::Content(text);
            },
            None => {},
        }
    }
    Directive::Nothing
}

fn json_handler(ctx: &mut EventContext, calls: &Vec<ChatToolCall>) -> (r: Directive)
    ensures
        final(ctx).deep_view() == handle_json(old(ctx).deep_view(), calls.deep_view()).ctx,
        r.deep_view() == handle_json(old(ctx).deep_view(), calls.deep_view()).directive,
{
    let mut i: usize = 0;
    while i < calls.len()
        invariant
            i <= calls.len(),
            ctx.deep_view() == (ContextModel {
                tool_calls: old(ctx).deep_view().tool_calls + calls.deep_view().take(i as int),
                ..old(ctx).deep_view()
            }),
        decreases calls.len() - i,
    {
        let ghost before = ctx.tool_calls.deep_view();
        ctx.tool_calls.push(calls[i].copy());
        assert(ctx.tool_calls.deep_view() =~= before.push(calls@[i as int].deep_view()));
        assert(ctx.tool_calls.deep_view() =~= old(ctx).deep_view().tool_calls
            + calls.deep_view().take(i + 1));
        i += 1;
    }
    assert(calls.deep_view().take(calls.len() as int) =~= calls.deep_view());
    Directive::ToolCalls
}

fn error_handler(ctx: &mut EventContext, text: &str, allow_retry: bool) -> (r: Directive)
    ensures
        final(ctx).deep_view() == handle_error(old(ctx).deep_view(), text@).ctx,
        r.deep_view() == handle_error(old(ctx).deep_view(), text@).directive,
{
    ctx.error = Some(convert_poe_error_to_openai(text, allow_retry));
    Directive::Error
}

fn done_handler(ctx: &mut EventContext) -> (r: Directive)
    ensures
        final(ctx).deep_view() == handle_done(old(ctx).deep_view()).ctx,
        r.deep_view() == handle_done(old(ctx).deep_view()).directive,
{
    ctx.done = true;
    if !ctx.image_urls_sent {
        let resolved = match &ctx.replace_buffer {
            Some(buf) => {
                let (processed, met) = resolve_file_refs(buf.as_str(), &ctx.file_refs);
                if met {
                    Some(processed)
                } else {
                    None
                }
            },
            None => None,
        };
        match resolved {
            Some(text) => {
                ctx.image_urls_sent = true;
                return Directive::Content(text);
            },
            None => {},
        }
    }
    Directive::Done
}

/// Routes each event to the handler of its kind.
#[derive(Debug, Clone, Copy)]
pub struct EventHandlerManager;

impl EventHandlerManager {
    pub fn new() -> (r: EventHandlerManager) {
        EventHandlerManager
    }

    /// Handles `event`: the state changes as `handle_event` says, and the
    /// directive comes back in full.
    pub fn dispatch(&self, event: &ChatResponse, ctx: &mut EventContext) -> (r: Directive)
        ensures
            final(ctx).deep_view() == handle_event(old(ctx).deep_view(), event.deep_view()).ctx,
            r.deep_view() == handle_event(old(ctx).deep_view(), event.deep_view()).directive,
            old(ctx).wf() ==> final(ctx).wf(),
    {
        proof {
            if ctx.wf() {
                lemma_handle_keeps_refs_unique(ctx.deep_view(), event.deep_view());
            }
        }
        match event.event {
            ChatEventType::Text => match &event.data {
                Some(ChatResponseData::Text { text }) => text_handler(ctx, text.as_str()),
                _ => Directive::Nothing,
            },
            ChatEventType::ReplaceResponse => match &event.data {
                Some(ChatResponseData::Text { text }) => replace_handler(ctx, text.as_str()),
                _ => Directive::Nothing,
            },
            ChatEventType::File => match &event.data {
                Some(ChatResponseData::File(file)) => file_handler(ctx, file),
                _ => Directive::Nothing,
            },
            ChatEventType::Json => match &event.data {
                Some(ChatResponseData::ToolCalls(calls)) => json_handler(ctx, calls),
                _ => Directive::Nothing,
            },
            ChatEventType::Error => match &event.data {
                Some(ChatResponseData::Error { text, allow_retry }) => error_handler(
                    ctx,
                    text.as_str(),
                    *allow_retry,
                ),
                _ => Directive::Nothing,
            },
            ChatEventType::Done => done_handler(ctx),
        }
    }

    /// Handles `event` and returns the directive as a text: content as it
    /// is, or one of the sentinels `tool_calls`, `done`, `error` and
    /// `__REASONING_DETECTED__`.
    pub fn handle(&self, event: &ChatResponse, ctx: &mut EventContext) -> (r: Option<String>)
        ensures
            final(ctx).deep_view() == handle_event(old(ctx).deep_view(), event.deep_view()).ctx,
            r.deep_view() == directive_text(
                handle_event(old(ctx).deep_view(), event.deep_view()).directive,
            ),
            old(ctx).wf() ==> final(ctx).wf(),
    {
        match self.dispatch(event, ctx) {
            Directive::Nothing => None,
            Directive::Content(c) => Some(c),
            Directive::Reasoning { before, after } => Some(copy_str("__REASONING_DETECTED__")),
            Directive::ToolCalls => Some(copy_str("tool_calls")),
            Directive::Done => Some(copy_str("done")),
            Directive::Error => Some(copy_str("error")),
        }
    }
}

} // verus!
