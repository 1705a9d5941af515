//! What holds of resolved placeholders: once the placeholders of the
//! known files are resolved in a text, none of them is left.

use crate::context::{initial_context, ContextModel};
use crate::events::{
    handle_event, lemma_ref_index, marker, put_ref, ref_index, replacement, resolve_refs,
    DirectiveModel,
};
use crate::openai::FrameModel;
use crate::stream::{
    content_frames, emit_reasoning, event_step, item_step, payload, resolved, role_chunk, run,
    stream_frames, with_role, GeneratorModel, ItemModel,
};
use crate::text::{contains, lemma_find_from, match_at, replace_all, replace_from};
use crate::upstream::{ChatEventType, FileDataModel, ResponseDataModel, ResponseModel};
use vstd::prelude::*;

verus! {

/// The text holds the character.
pub open spec fn has_char(s: Seq<char>, c: char) -> bool {
    exists|k: int| 0 <= k < s.len() && #[trigger] s[k] == c
}

/// `q` occurs nowhere in `x`.
pub open spec fn absent(x: Seq<char>, q: Seq<char>) -> bool {
    forall|k: int| !#[trigger] match_at(x, q, k)
}

/// The file can be told apart from what replaces it: its inline
/// reference holds no `(`, and its URL no `[`.
pub open spec fn is_clean(file: FileDataModel) -> bool {
    !has_char(file.inline_ref, '(') && !has_char(file.url, '[')
}

/// Every file of the table is clean.
pub open spec fn refs_clean(refs: Seq<FileDataModel>) -> bool {
    forall|i: int| 0 <= i < refs.len() ==> is_clean(#[trigger] refs[i])
}

proof fn lemma_absent_contains(x: Seq<char>, q: Seq<char>)
    ensures
        absent(x, q) <==> !contains(x, q),
{
    lemma_find_from(x, q, 0);
    if contains(x, q) {
        assert(match_at(x, q, crate::text::find(x, q)->0));
    }
    if !contains(x, q) {
        assert forall|k: int| !#[trigger] match_at(x, q, k) by {
            if match_at(x, q, k) {
                assert(0 <= k);
            }
        }
    }
}

/// A text without `(` that begins the replaced text begins the text
/// itself: what it covers was not replaced.
proof fn lemma_prefix_unreplaced(s: Seq<char>, p: Seq<char>, t: Seq<char>, w: Seq<char>, j: int)
    requires
        p.len() > 0,
        t.len() > 0,
        t[0] == '(',
        forall|k: int| 0 <= k < w.len() ==> w[k] != '(',
        0 <= j <= s.len(),
        match_at(replace_from(s, p, t, j), w, 0),
    ensures
        match_at(s, w, j),
    decreases w.len(),
{
    let out = replace_from(s, p, t, j);
    if w.len() == 0 {
        assert(s.subrange(j, j + 0) =~= w);
    } else {
        assert(out.subrange(0, w.len() as int)[0] == w[0]);
        assert(out.len() > 0);
        assert(j < s.len());
        if match_at(s, p, j) {
            assert(out == t + replace_from(s, p, t, j + p.len()));
            assert(out[0] == t[0]);
            assert(w[0] != '(');
        } else {
            let rest = replace_from(s, p, t, j + 1);
            assert(out == seq![s[j]] + rest);
            let w1 = w.drop_first();
            assert(rest.subrange(0, w1.len() as int) =~= w1) by {
                assert forall|k: int| 0 <= k < w1.len() implies rest.subrange(
                    0,
                    w1.len() as int,
                )[k] == w1[k] by {
                    assert(out.subrange(0, w.len() as int)[k + 1] == w[k + 1]);
                    assert(out[k + 1] == rest[k]);
                }
            }
            assert forall|k: int| 0 <= k < w1.len() implies w1[k] != '(' by {
                assert(w1[k] == w[k + 1]);
            }
            lemma_prefix_unreplaced(s, p, t, w1, j + 1);
            assert(s.subrange(j, j + w.len()) =~= w) by {
                assert forall|k: int| 0 <= k < w.len() implies s.subrange(j, j + w.len())[k]
                    == w[k] by {
                    if k == 0 {
                        assert(out[0] == s[j]);
                    } else {
                        assert(s.subrange(j + 1, j + 1 + w1.len())[k - 1] == w1[k - 1]);
                    }
                }
            }
        }
    }
}

/// Replacing one placeholder leaves no occurrence of it, and brings none
/// of another placeholder that the text did not hold.
proof fn lemma_no_new_marker(s: Seq<char>, p: Seq<char>, t: Seq<char>, q: Seq<char>, i: int)
    requires
        p.len() > 0,
        t.len() > 0,
        t[0] == '(',
        forall|k: int| 0 <= k < t.len() ==> t[k] != '[',
        q.len() > 0,
        q[0] == '[',
        forall|k: int| 1 <= k < q.len() ==> q[k] != '(',
        0 <= i <= s.len(),
        q == p || absent(s, q),
    ensures
        absent(replace_from(s, p, t, i), q),
    decreases s.len() - i,
{
    let out = replace_from(s, p, t, i);
    if i >= s.len() {
        assert(out.len() == 0);
    } else if match_at(s, p, i) {
        let rest = replace_from(s, p, t, i + p.len());
        lemma_no_new_marker(s, p, t, q, i + p.len());
        assert(out == t + rest);
        assert forall|k: int| !#[trigger] match_at(out, q, k) by {
            if match_at(out, q, k) {
                if k >= t.len() {
                    assert(rest.subrange(k - t.len(), k - t.len() + q.len()) =~= out.subrange(
                        k,
                        k + q.len(),
                    ));
                    assert(match_at(rest, q, k - t.len()));
                } else {
                    assert(out.subrange(k, k + q.len())[0] == q[0]);
                    assert(out[k] == t[k]);
                }
            }
        }
    } else {
        let rest = replace_from(s, p, t, i + 1);
        lemma_no_new_marker(s, p, t, q, i + 1);
        assert(out == seq![s[i]] + rest);
        assert forall|k: int| !#[trigger] match_at(out, q, k) by {
            if match_at(out, q, k) {
                if k >= 1 {
                    assert(rest.subrange(k - 1, k - 1 + q.len()) =~= out.subrange(k, k + q.len()));
                    assert(match_at(rest, q, k - 1));
                } else {
                    let w = q.drop_first();
                    assert(rest.subrange(0, w.len() as int) =~= w) by {
                        assert forall|m: int| 0 <= m < w.len() implies rest.subrange(
                            0,
                            w.len() as int,
                        )[m] == w[m] by {
                            assert(out.subrange(0, q.len() as int)[m + 1] == q[m + 1]);
                            assert(out[m + 1] == rest[m]);
                        }
                    }
                    assert forall|m: int| 0 <= m < w.len() implies w[m] != '(' by {
                        assert(w[m] == q[m + 1]);
                    }
                    lemma_prefix_unreplaced(s, p, t, w, i + 1);
                    assert(out.subrange(0, q.len() as int)[0] == q[0]);
                    assert(s.subrange(i, i + q.len()) =~= q) by {
                        assert forall|m: int| 0 <= m < q.len() implies s.subrange(
                            i,
                            i + q.len(),
                        )[m] == q[m] by {
                            if m == 0 {
                                assert(out[0] == s[i]);
                            } else {
                                assert(s.subrange(i + 1, i + 1 + w.len())[m - 1] == w[m - 1]);
                            }
                        }
                    }
                    assert(match_at(s, q, i));
                }
            }
        }
    }
}

proof fn lemma_marker_shape(file: FileDataModel)
    requires
        !has_char(file.inline_ref, '('),
        !has_char(file.url, '['),
    ensures
        marker(file.inline_ref).len() > 0,
        marker(file.inline_ref)[0] == '[',
        forall|k: int|
            1 <= k < marker(file.inline_ref).len() ==> marker(file.inline_ref)[k] != '(',
        replacement(file.url).len() > 0,
        replacement(file.url)[0] == '(',
        forall|k: int| 0 <= k < replacement(file.url).len() ==> replacement(file.url)[k] != '[',
{
    let m = marker(file.inline_ref);
    let t = replacement(file.url);
    assert forall|k: int| 1 <= k < m.len() implies m[k] != '(' by {
        if k < m.len() - 1 {
            assert(m[k] == file.inline_ref[k - 1]);
        }
    }
    assert forall|k: int| 0 <= k < t.len() implies t[k] != '[' by {
        if 1 <= k < t.len() - 1 {
            assert(t[k] == file.url[k - 1]);
        }
    }
}

proof fn lemma_resolve_clears(text: Seq<char>, refs: Seq<FileDataModel>, i: int)
    requires
        refs_clean(refs),
        0 <= i <= refs.len(),
        forall|j: int| 0 <= j < i ==> absent(text, marker((#[trigger] refs[j]).inline_ref)),
    ensures
        forall|j: int|
            0 <= j < refs.len() ==> absent(
                resolve_refs(text, refs, i),
                marker((#[trigger] refs[j]).inline_ref),
            ),
    decreases refs.len() - i,
{
    if i < refs.len() {
        let p = marker(refs[i].inline_ref);
        let t = replacement(refs[i].url);
        let next = replace_all(text, p, t);
        lemma_marker_shape(refs[i]);
        assert forall|j: int| 0 <= j < i + 1 implies absent(
            next,
            marker((#[trigger] refs[j]).inline_ref),
        ) by {
            lemma_marker_shape(refs[j]);
            lemma_no_new_marker(text, p, t, marker(refs[j].inline_ref), 0);
        }
        lemma_resolve_clears(next, refs, i + 1);
    }
}

/// Where no inline reference holds `(` and no URL holds `[`, a text in
/// which the placeholders of the files were resolved holds the
/// placeholder of none of them.
pub proof fn lemma_placeholders_resolved(text: Seq<char>, refs: Seq<FileDataModel>)
    requires
        refs_clean(refs),
    ensures
        forall|j: int|
            0 <= j < refs.len() ==> !contains(
                resolve_refs(text, refs, 0),
                marker((#[trigger] refs[j]).inline_ref),
            ),
{
    lemma_resolve_clears(text, refs, 0);
    assert forall|j: int| 0 <= j < refs.len() implies !contains(
        resolve_refs(text, refs, 0),
        marker((#[trigger] refs[j]).inline_ref),
    ) by {
        lemma_absent_contains(resolve_refs(text, refs, 0), marker(refs[j].inline_ref));
    }
}

/// The content that the handler of a file, of a replacement or of `Done`
/// releases holds no placeholder of a file that is known after the event.
pub proof fn lemma_released_content_resolved(ctx: ContextModel, event: ResponseModel)
    requires
        refs_clean(handle_event(ctx, event).ctx.file_refs),
        event.event != ChatEventType::Text,
        handle_event(ctx, event).directive is Content,
    ensures
        forall|j: int|
            0 <= j < handle_event(ctx, event).ctx.file_refs.len() ==> !contains(
                handle_event(ctx, event).directive->Content_0,
                marker((#[trigger] handle_event(ctx, event).ctx.file_refs[j]).inline_ref),
            ),
{
    let h = handle_event(ctx, event);
    match ctx.replace_buffer {
        Some(buf) => {
            lemma_placeholders_resolved(buf, h.ctx.file_refs);
        },
        None => {},
    }
    match event.data {
        Some(crate::upstream::ResponseDataModel::Text { text }) => {
            lemma_placeholders_resolved(text, h.ctx.file_refs);
        },
        _ => {},
    }
}

/// Once resolved content was released, neither a file nor `Done` releases
/// content again, and the latch stays set.
pub proof fn lemma_resolved_once(ctx: ContextModel, event: ResponseModel)
    requires
        ctx.image_urls_sent,
    ensures
        handle_event(ctx, event).ctx.image_urls_sent,
        event.event == ChatEventType::File || event.event == ChatEventType::Done ==> !(
        handle_event(ctx, event).directive is Content),
{
}

// ---------------------------------------------------------------------
// A whole reply

/// The table holds a file for the inline reference.
pub open spec fn knows_ref(refs: Seq<FileDataModel>, r: Seq<char>) -> bool {
    exists|j: int| 0 <= j < refs.len() && (#[trigger] refs[j]).inline_ref == r
}

/// The text holds the placeholder of no file of the table.
pub open spec fn is_clear_of(c: Seq<char>, refs: Seq<FileDataModel>) -> bool {
    forall|q: int| 0 <= q < refs.len() ==> !contains(c, marker((#[trigger] refs[q]).inline_ref))
}

/// The content of a frame, where it is a chunk that carries content.
pub open spec fn frame_content(f: FrameModel) -> Option<Seq<char>> {
    match f {
        FrameModel::Chunk(c) => if c.choices.len() == 1 {
            c.choices[0].delta.content
        } else {
            None
        },
        _ => None,
    }
}

/// Every content among the frames is clear of the files of the table.
pub open spec fn contents_clear_of(frames: Seq<FrameModel>, refs: Seq<FileDataModel>) -> bool {
    forall|j: int|
        0 <= j < frames.len() ==> (frame_content(#[trigger] frames[j]) matches Some(c)
            ==> is_clear_of(c, refs))
}

/// No content among the frames holds the placeholder of the reference.
pub open spec fn contents_without(frames: Seq<FrameModel>, r: Seq<char>) -> bool {
    forall|j: int|
        0 <= j < frames.len() ==> (frame_content(#[trigger] frames[j]) matches Some(c)
            ==> !contains(c, marker(r)))
}

/// The file that an item brings, if it is a file event.
pub open spec fn item_file(item: ItemModel) -> Option<FileDataModel> {
    match item {
        ItemModel::Event(event) => if event.event == ChatEventType::File {
            match event.data {
                Some(ResponseDataModel::File(file)) => Some(file),
                _ => None,
            }
        } else {
            None
        },
        ItemModel::Failure(message) => None,
    }
}

/// Every file that the items bring is clean.
pub open spec fn files_clean(items: Seq<ItemModel>) -> bool {
    forall|k: int|
        0 <= k < items.len() ==> (item_file(#[trigger] items[k]) matches Some(file) ==> is_clean(
            file,
        ))
}

proof fn lemma_put_ref_keeps(refs: Seq<FileDataModel>, file: FileDataModel)
    requires
        refs_clean(refs),
        is_clean(file),
    ensures
        refs_clean(put_ref(refs, file)),
        knows_ref(put_ref(refs, file), file.inline_ref),
        forall|r: Seq<char>| knows_ref(refs, r) ==> #[trigger] knows_ref(put_ref(refs, file), r),
{
    let after = put_ref(refs, file);
    lemma_ref_index(refs, file.inline_ref, 0);
    match ref_index(refs, file.inline_ref, 0) {
        Some(i) => {
            assert(after[i].inline_ref == file.inline_ref);
            assert forall|k: int| 0 <= k < after.len() implies is_clean(#[trigger] after[k]) by {
                if k != i {
                    assert(after[k] == refs[k]);
                }
            }
            assert forall|r: Seq<char>| knows_ref(refs, r) implies #[trigger] knows_ref(
                after,
                r,
            ) by {
                let j = choose|j: int| 0 <= j < refs.len() && (#[trigger] refs[j]).inline_ref == r;
                assert(after[j].inline_ref == r);
            }
        },
        None => {
            assert(after[refs.len() as int].inline_ref == file.inline_ref);
            assert forall|k: int| 0 <= k < after.len() implies is_clean(#[trigger] after[k]) by {
                if k < refs.len() {
                    assert(after[k] == refs[k]);
                }
            }
            assert forall|r: Seq<char>| knows_ref(refs, r) implies #[trigger] knows_ref(
                after,
                r,
            ) by {
                let j = choose|j: int| 0 <= j < refs.len() && (#[trigger] refs[j]).inline_ref == r;
                assert(after[j].inline_ref == r);
            }
        },
    }
}

/// An event keeps the table clean where its file is clean, and the table
/// forgets no inline reference.
proof fn lemma_event_keeps_refs(ctx: ContextModel, event: ResponseModel)
    requires
        refs_clean(ctx.file_refs),
        item_file(ItemModel::Event(event)) matches Some(file) ==> is_clean(file),
    ensures
        refs_clean(handle_event(ctx, event).ctx.file_refs),
        forall|r: Seq<char>|
            knows_ref(ctx.file_refs, r) ==> #[trigger] knows_ref(
                handle_event(ctx, event).ctx.file_refs,
                r,
            ),
        item_file(ItemModel::Event(event)) matches Some(file) ==> knows_ref(
            handle_event(ctx, event).ctx.file_refs,
            file.inline_ref,
        ),
{
    match item_file(ItemModel::Event(event)) {
        Some(file) => {
            lemma_put_ref_keeps(ctx.file_refs, file);
        },
        None => {
            assert(handle_event(ctx, event).ctx.file_refs == ctx.file_refs);
        },
    }
}

/// What a step emits as content is clear of every file that is known
/// after the step's event.
proof fn lemma_step_contents_clear(gen: GeneratorModel, ctx: ContextModel, item: ItemModel)
    requires
        item matches ItemModel::Event(event) ==> refs_clean(handle_event(ctx, event).ctx.file_refs),
    ensures
        contents_clear_of(item_step(gen, ctx, item).frames, item_step(gen, ctx, item).ctx.file_refs),
        item matches ItemModel::Event(event) ==> item_step(gen, ctx, item).ctx.file_refs
            == handle_event(ctx, event).ctx.file_refs,
        item is Failure ==> item_step(gen, ctx, item).ctx.file_refs == ctx.file_refs,
{
    match item {
        ItemModel::Failure(message) => {},
        ItemModel::Event(event) => {
            let h = handle_event(ctx, event);
            let refs = h.ctx.file_refs;
            if h.ctx.error is None {
                let p = payload(gen, h.ctx, event.event, h.directive);
                let e = with_role(gen, event.event, p);
                assert(contents_clear_of(p.frames, refs)) by {
                    match event.event {
                        ChatEventType::Text => match h.directive {
                            DirectiveModel::Reasoning { before, after } => {
                                let a = content_frames(gen, resolved(h.ctx, before));
                                let m = emit_reasoning(gen, h.ctx).frames;
                                let b = content_frames(gen, resolved(h.ctx, after));
                                if before is Some {
                                    lemma_placeholders_resolved(before->0, refs);
                                }
                                if after is Some {
                                    lemma_placeholders_resolved(after->0, refs);
                                }
                                assert(p.frames == a + m + b);
                                assert forall|j: int| 0 <= j < p.frames.len() implies (
                                frame_content(#[trigger] p.frames[j]) matches Some(c)
                                    ==> is_clear_of(c, refs)) by {
                                    if j < a.len() {
                                        assert(p.frames[j] == a[j]);
                                    } else if j < a.len() + m.len() {
                                        assert(p.frames[j] == m[j - a.len()]);
                                    } else {
                                        assert(p.frames[j] == b[j - a.len() - m.len()]);
                                    }
                                }
                            },
                            DirectiveModel::Content(c) => {
                                lemma_placeholders_resolved(c, refs);
                            },
                            _ => {},
                        },
                        ChatEventType::Json => {},
                        ChatEventType::Error => {},
                        _ => {
                            if h.directive is Content {
                                lemma_released_content_resolved(ctx, event);
                            }
                        },
                    }
                }
                assert forall|j: int| 0 <= j < e.frames.len() implies (frame_content(
                    #[trigger] e.frames[j],
                ) matches Some(c) ==> is_clear_of(c, refs)) by {
                    if e.frames.len() == p.frames.len() {
                        assert(e.frames[j] == p.frames[j]);
                    } else {
                        assert(e.frames == seq![FrameModel::Chunk(role_chunk(gen))] + p.frames);
                        if j > 0 {
                            assert(e.frames[j] == p.frames[j - 1]);
                        }
                    }
                }
            }
        },
    }
}

/// From a state that knows a file on, no content of the reply holds the
/// file's placeholder.
proof fn lemma_run_resolved(
    gen: GeneratorModel,
    ctx: ContextModel,
    items: Seq<ItemModel>,
    i: int,
    r: Seq<char>,
)
    requires
        0 <= i,
        refs_clean(ctx.file_refs),
        files_clean(items),
        knows_ref(ctx.file_refs, r),
    ensures
        contents_without(run(gen, ctx, items, i), r),
    decreases items.len() - i,
{
    if i < items.len() {
        let s = item_step(gen, ctx, items[i]);
        match items[i] {
            ItemModel::Event(event) => {
                lemma_event_keeps_refs(ctx, event);
            },
            ItemModel::Failure(message) => {},
        }
        lemma_step_contents_clear(gen, ctx, items[i]);
        assert(knows_ref(s.ctx.file_refs, r));
        let q = choose|q: int|
            0 <= q < s.ctx.file_refs.len() && (#[trigger] s.ctx.file_refs[q]).inline_ref == r;
        assert forall|j: int| 0 <= j < s.frames.len() implies (frame_content(
            #[trigger] s.frames[j],
        ) matches Some(c) ==> !contains(c, marker(r))) by {
            if frame_content(s.frames[j]) is Some {
                assert(is_clear_of(frame_content(s.frames[j])->0, s.ctx.file_refs));
                assert(s.ctx.file_refs[q].inline_ref == r);
            }
        }
        if !s.finished {
            let rest = run(gen, s.ctx, items, i + 1);
            lemma_run_resolved(gen, s.ctx, items, i + 1, r);
            assert forall|j: int| 0 <= j < (s.frames + rest).len() implies (frame_content(
                #[trigger] (s.frames + rest)[j],
            ) matches Some(c) ==> !contains(c, marker(r))) by {
                if j < s.frames.len() {
                    assert((s.frames + rest)[j] == s.frames[j]);
                } else {
                    assert((s.frames + rest)[j] == rest[j - s.frames.len()]);
                }
            }
        }
    }
}

/// The state in which item `k` is met, for a reply that starts with item
/// `i` in the state `ctx`; nothing where the reply is over before.
pub open spec fn state_before(
    gen: GeneratorModel,
    ctx: ContextModel,
    items: Seq<ItemModel>,
    i: int,
    k: int,
) -> Option<ContextModel>
    decreases k - i,
{
    if i >= k || i < 0 || i >= items.len() {
        Some(ctx)
    } else {
        let s = item_step(gen, ctx, items[i]);
        if s.finished {
            None
        } else {
            state_before(gen, s.ctx, items, i + 1, k)
        }
    }
}

/// The frames of the items from `i` up to, not including, `k`.
pub open spec fn frames_before(
    gen: GeneratorModel,
    ctx: ContextModel,
    items: Seq<ItemModel>,
    i: int,
    k: int,
) -> Seq<FrameModel>
    decreases k - i,
{
    if i >= k || i < 0 || i >= items.len() {
        Seq::empty()
    } else {
        let s = item_step(gen, ctx, items[i]);
        if s.finished {
            s.frames
        } else {
            s.frames + frames_before(gen, s.ctx, items, i + 1, k)
        }
    }
}

proof fn lemma_run_split(gen: GeneratorModel, ctx: ContextModel, items: Seq<ItemModel>, i: int, k: int)
    requires
        0 <= i <= k <= items.len(),
    ensures
        run(gen, ctx, items, i) == frames_before(gen, ctx, items, i, k) + match state_before(
            gen,
            ctx,
            items,
            i,
            k,
        ) {
            Some(c) => run(gen, c, items, k),
            None => Seq::empty(),
        },
    decreases k - i,
{
    if i < k {
        let s = item_step(gen, ctx, items[i]);
        if s.finished {
            assert(s.frames + Seq::<FrameModel>::empty() =~= s.frames);
        } else {
            lemma_run_split(gen, s.ctx, items, i + 1, k);
            let tail = match state_before(gen, s.ctx, items, i + 1, k) {
                Some(c) => run(gen, c, items, k),
                None => Seq::empty(),
            };
            assert(s.frames + (frames_before(gen, s.ctx, items, i + 1, k) + tail) =~= (s.frames
                + frames_before(gen, s.ctx, items, i + 1, k)) + tail);
        }
    } else {
        assert(Seq::<FrameModel>::empty() + run(gen, ctx, items, i) =~= run(gen, ctx, items, i));
    }
}

proof fn lemma_state_refs(gen: GeneratorModel, ctx: ContextModel, items: Seq<ItemModel>, i: int, k: int)
    requires
        0 <= i <= k <= items.len(),
        refs_clean(ctx.file_refs),
        files_clean(items),
    ensures
        state_before(gen, ctx, items, i, k) matches Some(c) ==> {
            &&& refs_clean(c.file_refs)
            &&& forall|r: Seq<char>|
                knows_ref(ctx.file_refs, r) ==> #[trigger] knows_ref(c.file_refs, r)
            &&& forall|m: int|
                i <= m < k ==> (item_file(#[trigger] items[m]) matches Some(file) ==> knows_ref(
                    c.file_refs,
                    file.inline_ref,
                ))
        },
    decreases k - i,
{
    if i < k {
        let s = item_step(gen, ctx, items[i]);
        match items[i] {
            ItemModel::Event(event) => {
                lemma_event_keeps_refs(ctx, event);
            },
            ItemModel::Failure(message) => {},
        }
        lemma_step_contents_clear(gen, ctx, items[i]);
        if !s.finished {
            lemma_state_refs(gen, s.ctx, items, i + 1, k);
            match state_before(gen, s.ctx, items, i + 1, k) {
                Some(c) => {
                    assert forall|r: Seq<char>| knows_ref(ctx.file_refs, r) implies #[trigger] knows_ref(
                        c.file_refs,
                        r,
                    ) by {
                        assert(knows_ref(s.ctx.file_refs, r));
                    }
                    assert forall|m: int| i <= m < k implies (item_file(
                        #[trigger] items[m],
                    ) matches Some(file) ==> knows_ref(c.file_refs, file.inline_ref)) by {
                        if m == i && item_file(items[m]) is Some {
                            assert(knows_ref(s.ctx.file_refs, item_file(items[m])->0.inline_ref));
                        }
                    }
                },
                None => {},
            }
        }
    }
}

/// In a streamed reply, once a file was consumed, no content that is
/// emitted afterwards holds its placeholder: the reply is the frames up
/// to item `k`, the frames from item `k` on, and the end marker; and where
/// item `m` before `k` brought a file, no content from item `k` on holds
/// `[<inline_ref>]` of that file. This holds where the files are clean:
/// no inline reference holds `(`, and no URL holds `[`.
pub proof fn lemma_reply_resolves_consumed_files(
    gen: GeneratorModel,
    items: Seq<ItemModel>,
    m: int,
    k: int,
)
    requires
        0 <= m < k <= items.len(),
        files_clean(items),
        item_file(items[m]) is Some,
        state_before(gen, initial_context(), items, 0, k) is Some,
    ensures
        stream_frames(gen, items) == (frames_before(gen, initial_context(), items, 0, k) + run(
            gen,
            state_before(gen, initial_context(), items, 0, k)->0,
            items,
            k,
        )).push(FrameModel::Done),
        contents_without(
            run(gen, state_before(gen, initial_context(), items, 0, k)->0, items, k),
            item_file(items[m])->0.inline_ref,
        ),
{
    let start = initial_context();
    assert(refs_clean(start.file_refs));
    lemma_run_split(gen, start, items, 0, k);
    lemma_state_refs(gen, start, items, 0, k);
    let c = state_before(gen, start, items, 0, k)->0;
    lemma_run_resolved(gen, c, items, k, item_file(items[m])->0.inline_ref);
}

} // verus!
