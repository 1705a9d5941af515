//! What holds of every streamed reply and of every one-piece response.

use crate::context::{initial_context, ContextModel};
use crate::events::{handle_event, DirectiveModel};
use crate::openai::FrameModel;
use crate::stream::{
    content_frames, event_step, final_chunk, final_response,
    finish_reason, item_step, payload, role_chunk, run, stream_frames, with_role,
    GeneratorModel, ItemModel,
};
use crate::upstream::{ChatEventType, ResponseModel, ToolCallModel};
use vstd::prelude::*;

verus! {

// ---------------------------------------------------------------------
// Kinds of frames

/// A chunk whose delta names the role.
pub open spec fn is_role_frame(f: FrameModel) -> bool {
    f is Chunk && f->Chunk_0.choices.len() == 1 && f->Chunk_0.choices[0].delta.role is Some
}

/// Any other chunk: content, thinking, tool calls, or the closing chunk.
pub open spec fn is_output_frame(f: FrameModel) -> bool {
    f is Chunk && !is_role_frame(f)
}

/// A chunk with one choice whose delta serves at most one purpose: role,
/// content, thinking or tool calls. Frames that are no chunks count.
pub open spec fn is_single_purpose(f: FrameModel) -> bool {
    f is Chunk ==> {
        let c = f->Chunk_0;
        &&& c.choices.len() == 1
        &&& {
            let d = c.choices[0].delta;
            (if d.role is Some {
                1int
            } else {
                0
            }) + (if d.content is Some {
                1int
            } else {
                0
            }) + (if d.reasoning_content is Some {
                1int
            } else {
                0
            }) + (if d.tool_calls is Some {
                1int
            } else {
                0
            }) <= 1
        }
    }
}

/// A chunk that carries a finish reason.
pub open spec fn has_finish_reason(f: FrameModel) -> bool {
    f is Chunk && f->Chunk_0.choices.len() == 1 && f->Chunk_0.choices[0].finish_reason is Some
}

/// No chunk stands before index `j`.
pub open spec fn no_chunk_before(frames: Seq<FrameModel>, j: int) -> bool {
    forall|i: int| 0 <= i < j && i < frames.len() ==> !((#[trigger] frames[i]) is Chunk)
}

/// A role chunk stands before index `j`.
pub open spec fn role_before(frames: Seq<FrameModel>, j: int) -> bool {
    exists|i: int| 0 <= i < j && i < frames.len() && is_role_frame(#[trigger] frames[i])
}

/// The frames hold a role chunk.
pub open spec fn has_role(frames: Seq<FrameModel>) -> bool {
    role_before(frames, frames.len() as int)
}

/// The frames continue a reply whose role chunk was sent (`sent`) or not:
/// a role chunk comes only where none was sent, as the first chunk; any
/// other chunk comes only after the role chunk.
pub open spec fn opened(frames: Seq<FrameModel>, sent: bool) -> bool {
    &&& forall|j: int|
        0 <= j < frames.len() && is_role_frame(#[trigger] frames[j]) ==> !sent && no_chunk_before(
            frames,
            j,
        )
    &&& forall|j: int|
        0 <= j < frames.len() && is_output_frame(#[trigger] frames[j]) ==> sent || role_before(
            frames,
            j,
        )
}

/// Every frame serves a single purpose.
pub open spec fn all_single_purpose(frames: Seq<FrameModel>) -> bool {
    forall|j: int| 0 <= j < frames.len() ==> is_single_purpose(#[trigger] frames[j])
}

/// Every frame is a chunk other than the role chunk.
pub open spec fn all_output(frames: Seq<FrameModel>) -> bool {
    forall|j: int| 0 <= j < frames.len() ==> is_output_frame(#[trigger] frames[j])
}

/// The number of chunks that carry a finish reason.
pub open spec fn count_finish(frames: Seq<FrameModel>) -> int
    decreases frames.len(),
{
    if frames.len() == 0 {
        0
    } else {
        count_finish(frames.drop_last()) + if has_finish_reason(frames.last()) {
            1int
        } else {
            0
        }
    }
}

proof fn lemma_count_concat(a: Seq<FrameModel>, b: Seq<FrameModel>)
    ensures
        count_finish(a + b) == count_finish(a) + count_finish(b),
    decreases b.len(),
{
    if b.len() == 0 {
        assert(a + b =~= a);
    } else {
        assert((a + b).drop_last() =~= a + b.drop_last());
        lemma_count_concat(a, b.drop_last());
    }
}

proof fn lemma_count_one(f: FrameModel)
    ensures
        count_finish(seq![f]) == if has_finish_reason(f) {
            1int
        } else {
            0
        },
{
    assert(seq![f].drop_last() =~= Seq::<FrameModel>::empty());
    assert(count_finish(seq![f].drop_last()) == 0);
}

proof fn lemma_count_none(frames: Seq<FrameModel>)
    requires
        forall|j: int| 0 <= j < frames.len() ==> !has_finish_reason(#[trigger] frames[j]),
    ensures
        count_finish(frames) == 0,
    decreases frames.len(),
{
    if frames.len() > 0 {
        lemma_count_none(frames.drop_last());
    }
}

proof fn lemma_opened_concat(a: Seq<FrameModel>, b: Seq<FrameModel>, sent: bool)
    requires
        opened(a, sent),
        opened(b, sent || has_role(a)),
    ensures
        opened(a + b, sent),
        has_role(a + b) == (has_role(a) || has_role(b)),
{
    let ab = a + b;
    assert forall|j: int| 0 <= j < ab.len() && is_role_frame(#[trigger] ab[j]) implies !sent
        && no_chunk_before(ab, j) by {
        if j < a.len() {
            assert(is_role_frame(a[j]));
            assert forall|i: int| 0 <= i < j && i < ab.len() implies !((#[trigger] ab[i]) is Chunk) by {
                assert(ab[i] == a[i]);
            }
        } else {
            let k = j - a.len();
            assert(is_role_frame(b[k]));
            assert(!sent && !has_role(a));
            assert forall|i: int| 0 <= i < j && i < ab.len() implies !((#[trigger] ab[i]) is Chunk) by {
                if i < a.len() {
                    assert(ab[i] == a[i]);
                    if a[i] is Chunk {
                        if is_role_frame(a[i]) {
                            assert(role_before(a, a.len() as int));
                        } else {
                            assert(is_output_frame(a[i]));
                            assert(role_before(a, i));
                            let w = choose|w: int| 0 <= w < i && w < a.len() && is_role_frame(#[trigger] a[w]);
                            assert(role_before(a, a.len() as int));
                        }
                    }
                } else {
                    assert(ab[i] == b[i - a.len()]);
                }
            }
        }
    }
    assert forall|j: int| 0 <= j < ab.len() && is_output_frame(#[trigger] ab[j]) implies sent
        || role_before(ab, j) by {
        if j < a.len() {
            assert(is_output_frame(a[j]));
            if !sent {
                let w = choose|w: int| 0 <= w < j && w < a.len() && is_role_frame(#[trigger] a[w]);
                assert(is_role_frame(ab[w]));
            }
        } else {
            let k = j - a.len();
            assert(is_output_frame(b[k]));
            if !sent {
                if has_role(a) {
                    let w = choose|w: int|
                        0 <= w < a.len() && w < a.len() && is_role_frame(#[trigger] a[w]);
                    assert(is_role_frame(ab[w]));
                } else {
                    let w = choose|w: int| 0 <= w < k && w < b.len() && is_role_frame(#[trigger] b[w]);
                    assert(is_role_frame(ab[w + a.len()]));
                }
            }
        }
    }
    if has_role(a) {
        let w = choose|w: int| 0 <= w < a.len() && w < a.len() && is_role_frame(#[trigger] a[w]);
        assert(is_role_frame(ab[w]));
    }
    if has_role(b) {
        let w = choose|w: int| 0 <= w < b.len() && w < b.len() && is_role_frame(#[trigger] b[w]);
        assert(is_role_frame(ab[w + a.len()]));
    }
    if has_role(ab) {
        let w = choose|w: int| 0 <= w < ab.len() && w < ab.len() && is_role_frame(#[trigger] ab[w]);
        if w < a.len() {
            assert(is_role_frame(a[w]));
        } else {
            assert(is_role_frame(b[w - a.len()]));
        }
    }
}

proof fn lemma_single_concat(a: Seq<FrameModel>, b: Seq<FrameModel>)
    requires
        all_single_purpose(a),
        all_single_purpose(b),
    ensures
        all_single_purpose(a + b),
{
    assert forall|j: int| 0 <= j < (a + b).len() implies is_single_purpose(#[trigger] (a + b)[j]) by {
        if j < a.len() {
            assert((a + b)[j] == a[j]);
        } else {
            assert((a + b)[j] == b[j - a.len()]);
        }
    }
}

// ---------------------------------------------------------------------
// One step

/// The handlers leave the role latch alone.
proof fn lemma_handle_keeps_latch(ctx: ContextModel, event: ResponseModel)
    ensures
        handle_event(ctx, event).ctx.role_chunk_sent == ctx.role_chunk_sent,
{
}

/// What an event emits besides the role chunk: chunks of a single purpose
/// each, none of them a role chunk; only the closing chunk of `Done`, and
/// the chunk of tool calls, carry a finish reason.
proof fn lemma_payload(
    gen: GeneratorModel,
    ctx: ContextModel,
    kind: ChatEventType,
    directive: DirectiveModel,
)
    ensures
        all_output(payload(gen, ctx, kind, directive).frames),
        all_single_purpose(payload(gen, ctx, kind, directive).frames),
        payload(gen, ctx, kind, directive).ctx.role_chunk_sent == ctx.role_chunk_sent,
        kind == ChatEventType::Done ==> count_finish(payload(gen, ctx, kind, directive).frames)
            == 1,
        kind != ChatEventType::Done && kind != ChatEventType::Json ==> count_finish(
            payload(gen, ctx, kind, directive).frames,
        ) == 0,
{
    let p = payload(gen, ctx, kind, directive);
    match kind {
        ChatEventType::Done => {
            let head = match directive {
                DirectiveModel::Content(c) => content_frames(gen, Some(c)),
                _ => Seq::empty(),
            };
            let last = p.frames.last();
            assert(p.frames =~= head + seq![last]);
            lemma_count_concat(head, seq![last]);
            lemma_count_one(last);
            lemma_count_none(head);
        },
        ChatEventType::Json => {},
        _ => {
            lemma_count_none(p.frames);
        },
    }
}

/// One step continues the reply in order, and the state's latch says
/// whether the role chunk is out.
proof fn lemma_step(gen: GeneratorModel, ctx: ContextModel, item: ItemModel)
    ensures
        opened(item_step(gen, ctx, item).frames, ctx.role_chunk_sent),
        all_single_purpose(item_step(gen, ctx, item).frames),
        item_step(gen, ctx, item).ctx.role_chunk_sent == (ctx.role_chunk_sent || has_role(
            item_step(gen, ctx, item).frames,
        )),
{
    let s = item_step(gen, ctx, item);
    match item {
        ItemModel::Failure(message) => {
            assert(!has_role(s.frames)) by {
                if has_role(s.frames) {
                    let w = choose|w: int|
                        0 <= w < s.frames.len() && w < s.frames.len() && is_role_frame(
                            #[trigger] s.frames[w],
                        );
                }
            }
        },
        ItemModel::Event(event) => {
            let h = handle_event(ctx, event);
            lemma_handle_keeps_latch(ctx, event);
            match h.ctx.error {
                Some(err) => {
                    assert(!has_role(s.frames)) by {
                        if has_role(s.frames) {
                            let w = choose|w: int|
                                0 <= w < s.frames.len() && w < s.frames.len() && is_role_frame(
                                    #[trigger] s.frames[w],
                                );
                        }
                    }
                },
                None => {
                    let p = payload(gen, h.ctx, event.event, h.directive);
                    lemma_payload(gen, h.ctx, event.event, h.directive);
                    let e = with_role(gen, event.event, p);
                    if e.frames.len() == p.frames.len() {
                        assert(e.frames == p.frames);
                        assert(!has_role(p.frames)) by {
                            if has_role(p.frames) {
                                let w = choose|w: int|
                                    0 <= w < p.frames.len() && w < p.frames.len() && is_role_frame(
                                        #[trigger] p.frames[w],
                                    );
                                assert(is_output_frame(p.frames[w]));
                            }
                        }
                        assert forall|j: int|
                            0 <= j < p.frames.len() && is_output_frame(
                                #[trigger] p.frames[j],
                            ) implies ctx.role_chunk_sent || role_before(p.frames, j) by {
                            assert(is_output_frame(p.frames[j]));
                        }
                    } else {
                        let r = FrameModel::Chunk(role_chunk(gen));
                        assert(e.frames =~= seq![r] + p.frames);
                        assert(is_role_frame(e.frames[0]));
                        assert(is_single_purpose(r));
                        assert forall|j: int|
                            0 <= j < e.frames.len() && is_role_frame(
                                #[trigger] e.frames[j],
                            ) implies !ctx.role_chunk_sent && no_chunk_before(e.frames, j) by {
                            if j > 0 {
                                assert(is_output_frame(p.frames[j - 1]));
                            }
                        }
                        assert forall|j: int|
                            0 <= j < e.frames.len() && is_output_frame(
                                #[trigger] e.frames[j],
                            ) implies ctx.role_chunk_sent || role_before(e.frames, j) by {
                            assert(j > 0);
                            assert(is_role_frame(e.frames[0]));
                        }
                        assert forall|j: int| 0 <= j < e.frames.len() implies is_single_purpose(
                            #[trigger] e.frames[j],
                        ) by {
                            if j > 0 {
                                assert(is_single_purpose(p.frames[j - 1]));
                            }
                        }
                        assert(role_before(e.frames, e.frames.len() as int));
                    }
                },
            }
        },
    }
}

proof fn lemma_run(gen: GeneratorModel, ctx: ContextModel, items: Seq<ItemModel>, i: int)
    requires
        0 <= i,
    ensures
        opened(run(gen, ctx, items, i), ctx.role_chunk_sent),
        all_single_purpose(run(gen, ctx, items, i)),
    decreases items.len() - i,
{
    if i < items.len() {
        let s = item_step(gen, ctx, items[i]);
        lemma_step(gen, ctx, items[i]);
        if !s.finished {
            let rest = run(gen, s.ctx, items, i + 1);
            lemma_run(gen, s.ctx, items, i + 1);
            lemma_opened_concat(s.frames, rest, ctx.role_chunk_sent);
            lemma_single_concat(s.frames, rest);
        }
    }
}

// ---------------------------------------------------------------------
// The streamed reply

/// In every streamed reply at most one chunk names the role; it is the
/// first chunk of the reply, so it stands before every chunk of content,
/// of thinking and of tool calls, and before the closing chunk.
pub proof fn lemma_role_chunk_once_and_first(gen: GeneratorModel, items: Seq<ItemModel>)
    ensures
        forall|i: int, j: int|
            0 <= i < j < stream_frames(gen, items).len() ==> !(is_role_frame(
                #[trigger] stream_frames(gen, items)[i],
            ) && is_role_frame(#[trigger] stream_frames(gen, items)[j])),
        forall|j: int|
            0 <= j < stream_frames(gen, items).len() && is_output_frame(
                #[trigger] stream_frames(gen, items)[j],
            ) ==> role_before(stream_frames(gen, items), j),
{
    let body = run(gen, initial_context(), items, 0);
    let frames = stream_frames(gen, items);
    lemma_run(gen, initial_context(), items, 0);
    assert(frames =~= body + seq![FrameModel::Done]);
    assert(opened(seq![FrameModel::Done], has_role(body)));
    lemma_opened_concat(body, seq![FrameModel::Done], false);
    assert forall|i: int, j: int| 0 <= i < j < frames.len() implies !(is_role_frame(
        #[trigger] frames[i],
    ) && is_role_frame(#[trigger] frames[j])) by {
        if is_role_frame(frames[i]) && is_role_frame(frames[j]) {
            assert(no_chunk_before(frames, j));
            assert(!(frames[i] is Chunk));
        }
    }
}

/// In every streamed reply no chunk mixes thinking with content: each
/// delta holds at most one of role, content, thinking and tool calls.
pub proof fn lemma_reasoning_kept_apart(gen: GeneratorModel, items: Seq<ItemModel>)
    ensures
        all_single_purpose(stream_frames(gen, items)),
{
    let body = run(gen, initial_context(), items, 0);
    lemma_run(gen, initial_context(), items, 0);
    assert(stream_frames(gen, items) =~= body + seq![FrameModel::Done]);
    assert(all_single_purpose(seq![FrameModel::Done]));
    lemma_single_concat(body, seq![FrameModel::Done]);
}

/// Every streamed reply ends with the end marker, and holds it nowhere
/// else.
pub proof fn lemma_stream_ends_with_done(gen: GeneratorModel, items: Seq<ItemModel>)
    ensures
        stream_frames(gen, items).len() >= 1,
        stream_frames(gen, items).last() == FrameModel::Done,
        forall|j: int|
            0 <= j < stream_frames(gen, items).len() - 1 ==> !((#[trigger] stream_frames(
                gen,
                items,
            )[j]) is Done),
{
    lemma_run_no_done(gen, initial_context(), items, 0);
}

proof fn lemma_run_no_done(gen: GeneratorModel, ctx: ContextModel, items: Seq<ItemModel>, i: int)
    requires
        0 <= i,
    ensures
        forall|j: int|
            0 <= j < run(gen, ctx, items, i).len() ==> !((#[trigger] run(gen, ctx, items, i)[j])
                is Done),
    decreases items.len() - i,
{
    if i < items.len() {
        let s = item_step(gen, ctx, items[i]);
        lemma_step_no_done(gen, ctx, items[i]);
        if !s.finished {
            lemma_run_no_done(gen, s.ctx, items, i + 1);
        }
    }
}

proof fn lemma_step_no_done(gen: GeneratorModel, ctx: ContextModel, item: ItemModel)
    ensures
        forall|j: int|
            0 <= j < item_step(gen, ctx, item).frames.len() ==> !((#[trigger] item_step(
                gen,
                ctx,
                item,
            ).frames[j]) is Done),
{
    match item {
        ItemModel::Failure(message) => {},
        ItemModel::Event(event) => {
            let h = handle_event(ctx, event);
            if h.ctx.error is None {
                let p = payload(gen, h.ctx, event.event, h.directive);
                lemma_payload(gen, h.ctx, event.event, h.directive);
                let e = with_role(gen, event.event, p);
                assert forall|j: int| 0 <= j < e.frames.len() implies !((#[trigger] e.frames[j])
                    is Done) by {
                    if e.frames.len() == p.frames.len() {
                        assert(is_output_frame(p.frames[j]));
                    } else if j > 0 {
                        assert(is_output_frame(p.frames[j - 1]));
                    }
                }
            }
        },
    }
}

/// The reply comes to its `Done` event: no error and no failure of the
/// transport stands before it.
pub open spec fn completes(gen: GeneratorModel, ctx: ContextModel, items: Seq<ItemModel>, i: int) -> bool
    decreases items.len() - i,
{
    if i < 0 || i >= items.len() {
        false
    } else {
        match items[i] {
            ItemModel::Failure(message) => false,
            ItemModel::Event(event) => {
                let h = handle_event(ctx, event);
                if h.ctx.error is Some {
                    false
                } else if h.ctx.done {
                    true
                } else {
                    completes(gen, item_step(gen, ctx, items[i]).ctx, items, i + 1)
                }
            },
        }
    }
}

/// A chunk that carries tool calls.
pub open spec fn is_tool_frame(f: FrameModel) -> bool {
    f is Chunk && f->Chunk_0.choices.len() == 1 && f->Chunk_0.choices[0].delta.tool_calls is Some
}

/// The number of chunks that carry tool calls.
pub open spec fn count_tool(frames: Seq<FrameModel>) -> int
    decreases frames.len(),
{
    if frames.len() == 0 {
        0
    } else {
        count_tool(frames.drop_last()) + if is_tool_frame(frames.last()) {
            1int
        } else {
            0
        }
    }
}

proof fn lemma_tool_concat(a: Seq<FrameModel>, b: Seq<FrameModel>)
    ensures
        count_tool(a + b) == count_tool(a) + count_tool(b),
    decreases b.len(),
{
    if b.len() == 0 {
        assert(a + b =~= a);
    } else {
        assert((a + b).drop_last() =~= a + b.drop_last());
        lemma_tool_concat(a, b.drop_last());
    }
}

proof fn lemma_tool_one(f: FrameModel)
    ensures
        count_tool(seq![f]) == if is_tool_frame(f) {
            1int
        } else {
            0
        },
{
    assert(seq![f].drop_last() =~= Seq::<FrameModel>::empty());
    assert(count_tool(seq![f].drop_last()) == 0);
}

proof fn lemma_tool_none(frames: Seq<FrameModel>)
    requires
        forall|j: int| 0 <= j < frames.len() ==> !is_tool_frame(#[trigger] frames[j]),
    ensures
        count_tool(frames) == 0,
    decreases frames.len(),
{
    if frames.len() > 0 {
        lemma_tool_none(frames.drop_last());
    }
}

/// Only the `Done` event marks the state as done.
proof fn lemma_done_by_done_event(ctx: ContextModel, event: ResponseModel)
    ensures
        handle_event(ctx, event).ctx.done == (ctx.done || event.event == ChatEventType::Done),
{
}

/// Of what an event emits, the chunks of tool calls carry a finish
/// reason, and besides them only the closing chunk of `Done`.
proof fn lemma_payload_counts(
    gen: GeneratorModel,
    ctx: ContextModel,
    kind: ChatEventType,
    directive: DirectiveModel,
)
    ensures
        count_finish(payload(gen, ctx, kind, directive).frames) == count_tool(
            payload(gen, ctx, kind, directive).frames,
        ) + if kind == ChatEventType::Done {
            1int
        } else {
            0
        },
{
    let p = payload(gen, ctx, kind, directive);
    lemma_payload(gen, ctx, kind, directive);
    match kind {
        ChatEventType::Json => {
            if p.frames.len() > 0 {
                assert(p.frames =~= seq![p.frames[0]]);
                lemma_count_one(p.frames[0]);
                lemma_tool_one(p.frames[0]);
            }
        },
        _ => {
            lemma_tool_none(p.frames);
        },
    }
}

proof fn lemma_run_count(gen: GeneratorModel, ctx: ContextModel, items: Seq<ItemModel>, i: int)
    requires
        0 <= i,
        !ctx.done,
    ensures
        count_finish(run(gen, ctx, items, i)) == count_tool(run(gen, ctx, items, i)) + if completes(
            gen,
            ctx,
            items,
            i,
        ) {
            1int
        } else {
            0
        },
    decreases items.len() - i,
{
    if i < items.len() {
        let s = item_step(gen, ctx, items[i]);
        match items[i] {
            ItemModel::Failure(message) => {
                lemma_count_one(s.frames[0]);
                lemma_tool_one(s.frames[0]);
                assert(s.frames =~= seq![s.frames[0]]);
            },
            ItemModel::Event(event) => {
                let h = handle_event(ctx, event);
                lemma_done_by_done_event(ctx, event);
                match h.ctx.error {
                    Some(err) => {
                        lemma_count_one(s.frames[0]);
                        lemma_tool_one(s.frames[0]);
                        assert(s.frames =~= seq![s.frames[0]]);
                    },
                    None => {
                        let p = payload(gen, h.ctx, event.event, h.directive);
                        lemma_payload_counts(gen, h.ctx, event.event, h.directive);
                        let e = with_role(gen, event.event, p);
                        let r = FrameModel::Chunk(role_chunk(gen));
                        if e.frames.len() != p.frames.len() {
                            assert(e.frames =~= seq![r] + p.frames);
                            lemma_count_concat(seq![r], p.frames);
                            lemma_tool_concat(seq![r], p.frames);
                            lemma_count_one(r);
                            lemma_tool_one(r);
                        }
                        if !s.finished {
                            let rest = run(gen, s.ctx, items, i + 1);
                            lemma_run_count(gen, s.ctx, items, i + 1);
                            lemma_count_concat(s.frames, rest);
                            lemma_tool_concat(s.frames, rest);
                        }
                    },
                }
            },
        }
    }
}

/// In every streamed reply the chunks that carry a finish reason are the
/// chunks of tool calls and, where the reply comes to its `Done` event,
/// the closing chunk.
pub proof fn lemma_finish_reasons(gen: GeneratorModel, items: Seq<ItemModel>)
    ensures
        count_finish(stream_frames(gen, items)) == count_tool(stream_frames(gen, items))
            + if completes(gen, initial_context(), items, 0) {
            1int
        } else {
            0
        },
{
    let body = run(gen, initial_context(), items, 0);
    lemma_run_count(gen, initial_context(), items, 0);
    assert(stream_frames(gen, items) =~= body + seq![FrameModel::Done]);
    lemma_count_concat(body, seq![FrameModel::Done]);
    lemma_tool_concat(body, seq![FrameModel::Done]);
    lemma_count_one(FrameModel::Done);
    lemma_tool_one(FrameModel::Done);
}

/// In a streamed reply that emits no chunk of tool calls, exactly one
/// chunk carries a finish reason where the reply comes to its `Done`
/// event, and none does where an error or the end of the items comes
/// first.
pub proof fn lemma_one_finish_reason(gen: GeneratorModel, items: Seq<ItemModel>)
    requires
        forall|j: int|
            0 <= j < stream_frames(gen, items).len() ==> !is_tool_frame(
                #[trigger] stream_frames(gen, items)[j],
            ),
    ensures
        count_finish(stream_frames(gen, items)) == if completes(
            gen,
            initial_context(),
            items,
            0,
        ) {
            1int
        } else {
            0
        },
{
    lemma_finish_reasons(gen, items);
    lemma_tool_none(stream_frames(gen, items));
}

// ---------------------------------------------------------------------
// Finish reason and usage

/// The finish reason is `tool_calls` exactly when tool calls were
/// collected, and `stop` otherwise.
pub proof fn lemma_finish_reason_rule(calls: Seq<ToolCallModel>)
    ensures
        finish_reason(calls) == "tool_calls"@ <==> calls.len() > 0,
        finish_reason(calls) == "stop"@ <==> calls.len() == 0,
{
    reveal_strlit("tool_calls");
    reveal_strlit("stop");
    assert("tool_calls"@.len() != "stop"@.len());
}

/// The closing chunk of a streamed reply names the finish reason of the
/// collected tool calls, and carries a usage object exactly when usage was
/// asked for; its total is the sum of prompt and completion tokens.
pub proof fn lemma_final_chunk(gen: GeneratorModel, calls: Seq<ToolCallModel>, completion: u32)
    ensures
        final_chunk(gen, calls, completion).choices.len() == 1,
        final_chunk(gen, calls, completion).choices[0].finish_reason == Some(finish_reason(calls)),
        final_chunk(gen, calls, completion).usage is Some <==> gen.include_usage,
        final_chunk(gen, calls, completion).usage matches Some(u) ==> u.prompt_tokens
            == gen.prompt_tokens && u.completion_tokens == completion && u.total_tokens
            == u.prompt_tokens + u.completion_tokens,
{
}

/// The closing chunk is the last frame before the end marker of a reply
/// that comes to its `Done` event.
pub proof fn lemma_done_step_closes(gen: GeneratorModel, ctx: ContextModel, event: ResponseModel)
    requires
        event.event == ChatEventType::Done,
        handle_event(ctx, event).ctx.error is None,
    ensures
        event_step(gen, ctx, event).finished,
        event_step(gen, ctx, event).frames.len() >= 1,
        event_step(gen, ctx, event).frames.last() == FrameModel::Chunk(
            final_chunk(
                gen,
                handle_event(ctx, event).ctx.tool_calls,
                event_step(gen, ctx, event).ctx.completion_tokens,
            ),
        ),
{
    let h = handle_event(ctx, event);
    let p = payload(gen, h.ctx, event.event, h.directive);
    let e = with_role(gen, event.event, p);
    let r = FrameModel::Chunk(role_chunk(gen));
    if e.frames.len() != p.frames.len() {
        assert(e.frames =~= seq![r] + p.frames);
    }
}

/// The one-piece response has one choice; its finish reason is that of
/// the collected tool calls, and it carries a usage object exactly when
/// usage was asked for, with the total the sum of prompt and completion
/// tokens.
pub proof fn lemma_final_response(gen: GeneratorModel, ctx: ContextModel)
    ensures
        final_response(gen, ctx).choices.len() == 1,
        final_response(gen, ctx).choices[0].finish_reason matches Some(f) && (f == "tool_calls"@
            <==> final_response(gen, ctx).choices[0].message.tool_calls is Some),
        final_response(gen, ctx).usage is Some <==> gen.include_usage,
        final_response(gen, ctx).usage matches Some(u) ==> u.prompt_tokens == gen.prompt_tokens
            && u.total_tokens == u.prompt_tokens + u.completion_tokens,
{
    let c = crate::stream::flushed(ctx);
    lemma_finish_reason_rule(c.tool_calls);
}

// ---------------------------------------------------------------------
// The identity of a reply

/// A chunk of the reply of `gen`: it carries the reply's id, creation
/// time and model. Frames that are no chunks count.
pub open spec fn is_chunk_of(f: FrameModel, gen: GeneratorModel) -> bool {
    f is Chunk ==> f->Chunk_0.id == "chatcmpl-"@ + gen.id && f->Chunk_0.created == gen.created
        && f->Chunk_0.model == gen.model
}

pub open spec fn all_chunks_of(frames: Seq<FrameModel>, gen: GeneratorModel) -> bool {
    forall|j: int| 0 <= j < frames.len() ==> is_chunk_of(#[trigger] frames[j], gen)
}

proof fn lemma_step_identity(gen: GeneratorModel, ctx: ContextModel, item: ItemModel)
    ensures
        all_chunks_of(item_step(gen, ctx, item).frames, gen),
{
    match item {
        ItemModel::Failure(message) => {},
        ItemModel::Event(event) => {
            let h = handle_event(ctx, event);
            if h.ctx.error is None {
                let p = payload(gen, h.ctx, event.event, h.directive);
                let e = with_role(gen, event.event, p);
                assert(all_chunks_of(p.frames, gen));
                assert forall|j: int| 0 <= j < e.frames.len() implies is_chunk_of(
                    #[trigger] e.frames[j],
                    gen,
                ) by {
                    if e.frames.len() == p.frames.len() {
                        assert(is_chunk_of(p.frames[j], gen));
                    } else if j > 0 {
                        assert(is_chunk_of(p.frames[j - 1], gen));
                    }
                }
            }
        },
    }
}

proof fn lemma_run_identity(gen: GeneratorModel, ctx: ContextModel, items: Seq<ItemModel>, i: int)
    requires
        0 <= i,
    ensures
        all_chunks_of(run(gen, ctx, items, i), gen),
    decreases items.len() - i,
{
    if i < items.len() {
        let s = item_step(gen, ctx, items[i]);
        lemma_step_identity(gen, ctx, items[i]);
        if !s.finished {
            let rest = run(gen, s.ctx, items, i + 1);
            lemma_run_identity(gen, s.ctx, items, i + 1);
            assert forall|j: int| 0 <= j < (s.frames + rest).len() implies is_chunk_of(
                #[trigger] (s.frames + rest)[j],
                gen,
            ) by {
                if j < s.frames.len() {
                    assert((s.frames + rest)[j] == s.frames[j]);
                } else {
                    assert((s.frames + rest)[j] == rest[j - s.frames.len()]);
                }
            }
        }
    }
}

/// Every chunk of a streamed reply, and the one-piece response, carry the
/// model name of the generator: the name under which the model was asked
/// for.
pub proof fn lemma_reply_names_model(gen: GeneratorModel, items: Seq<ItemModel>, ctx: ContextModel)
    ensures
        all_chunks_of(stream_frames(gen, items), gen),
        final_response(gen, ctx).model == gen.model,
{
    let body = run(gen, initial_context(), items, 0);
    lemma_run_identity(gen, initial_context(), items, 0);
    assert forall|j: int| 0 <= j < stream_frames(gen, items).len() implies is_chunk_of(
        #[trigger] stream_frames(gen, items)[j],
        gen,
    ) by {
        if j < body.len() {
            assert(stream_frames(gen, items)[j] == body[j]);
        }
    }
}

} // verus!
