//! The parser that separates inline chain-of-thought from normal text.
//!
//! The upstream marks thinking with `*Thinking...*` or `Thinking...`,
//! followed by block-quote lines (`> ...`). Text arrives in pieces, so the
//! parser keeps what it could not yet decide in the context's
//! `pending_text`.

use crate::context::{ContextModel, EventContext};
use crate::split::{
    is_blank, join, lines, next_newline, trim, vec_is_blank, vec_join, vec_lines,
    vec_next_newline, vec_trim,
};
use crate::text::{
    append, chars_of, ends_with, find, find_from, find_in, starts_with, string_of, subvec,
    vec_ends_with, vec_eq, vec_starts_with, vec_views,
};
use vstd::prelude::*;

verus! {

/// The marker `*Thinking...*`.
pub open spec fn starred_marker() -> Seq<char> {
    seq!['*', 'T', 'h', 'i', 'n', 'k', 'i', 'n', 'g', '.', '.', '.', '*']
}

/// The marker `Thinking...`.
pub open spec fn plain_marker() -> Seq<char> {
    seq!['T', 'h', 'i', 'n', 'k', 'i', 'n', 'g', '.', '.', '.']
}

/// The prefix `> ` of a thinking line.
pub open spec fn quote_prefix() -> Seq<char> {
    seq!['>', ' ']
}

/// The line `>`: an empty thinking line.
pub open spec fn bare_quote() -> Seq<char> {
    seq!['>']
}

/// The line feed as a text.
pub open spec fn newline() -> Seq<char> {
    seq!['\n']
}

fn starred_marker_vec() -> (r: Vec<char>)
    ensures
        r@ == starred_marker(),
{
    let r = chars_of("*Thinking...*");
    proof {
        reveal_strlit("*Thinking...*");
        assert(r@ =~= starred_marker());
    }
    r
}

fn plain_marker_vec() -> (r: Vec<char>)
    ensures
        r@ == plain_marker(),
{
    let r = chars_of("Thinking...");
    proof {
        reveal_strlit("Thinking...");
        assert(r@ =~= plain_marker());
    }
    r
}

fn quote_prefix_vec() -> (r: Vec<char>)
    ensures
        r@ == quote_prefix(),
{
    let mut r: Vec<char> = Vec::new();
    r.push('>');
    r.push(' ');
    assert(r@ =~= quote_prefix());
    r
}

fn bare_quote_vec() -> (r: Vec<char>)
    ensures
        r@ == bare_quote(),
{
    let mut r: Vec<char> = Vec::new();
    r.push('>');
    assert(r@ =~= bare_quote());
    r
}

fn newline_vec() -> (r: Vec<char>)
    ensures
        r@ == newline(),
{
    let mut r: Vec<char> = Vec::new();
    r.push('\n');
    assert(r@ =~= newline());
    r
}

/// Where thinking starts: at the first `*Thinking...*`, else at the first
/// `Thinking...`.
pub open spec fn detect_thinking_start(text: Seq<char>) -> Option<int> {
    match find(text, starred_marker()) {
        Some(p) => Some(p),
        None => find(text, plain_marker()),
    }
}

/// `after` without the marker that it begins with.
pub open spec fn after_marker(after: Seq<char>) -> Seq<char> {
    if starts_with(after, starred_marker()) {
        after.subrange(starred_marker().len() as int, after.len() as int)
    } else if starts_with(after, plain_marker()) {
        after.subrange(plain_marker().len() as int, after.len() as int)
    } else {
        after
    }
}

/// A trimmed line that belongs to the thinking block.
pub open spec fn is_thinking_line(t: Seq<char>) -> bool {
    starts_with(t, quote_prefix()) || t == bare_quote()
}

/// The text of a trimmed thinking line, without its marker.
pub open spec fn thinking_text(t: Seq<char>) -> Seq<char> {
    if t == bare_quote() {
        Seq::empty()
    } else if starts_with(t, quote_prefix()) {
        t.subrange(quote_prefix().len() as int, t.len() as int)
    } else {
        t
    }
}

/// Whether `next` continues the thinking line `line` without a line feed
/// between them in the raw text: `line` is looked up at its first
/// occurrence, `next` at its first occurrence from there on, and any
/// doubt counts as a line feed.
pub open spec fn same_segment(text: Seq<char>, line: Seq<char>, next: Seq<char>) -> bool {
    match find(text, line) {
        Some(cur) => match find_from(text, next, cur) {
            Some(pos) => {
                let start = cur + line.len();
                start <= pos && next_newline(text.subrange(start, pos), 0) >= pos - start
            },
            None => false,
        },
        None => false,
    }
}

/// The thinking line that begins with `full`, extended by the lines from
/// index `j` on that continue it, and the index of the first line that
/// does not belong to it.
pub open spec fn merge_following(
    text: Seq<char>,
    all: Seq<Seq<char>>,
    line: Seq<char>,
    j: int,
    full: Seq<char>,
) -> (Seq<char>, int)
    decreases all.len() - j,
{
    if j < 0 || j >= all.len() {
        (full, j)
    } else {
        let next = trim(all[j]);
        if !starts_with(next, quote_prefix()) && next.len() > 0 {
            if same_segment(text, line, next) {
                merge_following(text, all, line, j + 1, full + next)
            } else {
                (full, j)
            }
        } else if next.len() == 0 {
            merge_following(text, all, line, j + 1, full)
        } else {
            (full, j)
        }
    }
}

/// What a pass over the lines has found so far.
pub struct ScanModel {
    /// The complete thinking lines.
    pub chunks: Seq<Seq<char>>,
    /// How many lines are done with.
    pub processed: int,
    /// A line that is neither blank nor thinking was met.
    pub ended: bool,
    /// The text of the last line where it is a thinking line without its
    /// line feed.
    pub current_line: Seq<char>,
}

/// The pass over the lines from index `i` on.
pub open spec fn scan_lines(text: Seq<char>, all: Seq<Seq<char>>, i: int, acc: ScanModel) -> ScanModel
    decreases all.len() - i,
{
    if i < 0 || i >= all.len() {
        acc
    } else {
        let t = trim(all[i]);
        if is_thinking_line(t) {
            if i == all.len() - 1 && !ends_with(text, newline()) {
                ScanModel { current_line: thinking_text(t), ..acc }
            } else {
                let m = merge_following(text, all, all[i], i + 1, thinking_text(t));
                scan_lines(
                    text,
                    all,
                    i + 1,
                    ScanModel { chunks: acc.chunks.push(m.0), processed: m.1, ..acc },
                )
            }
        } else if t.len() == 0 {
            scan_lines(text, all, i + 1, ScanModel { processed: i + 1, ..acc })
        } else {
            ScanModel { ended: true, processed: i, ..acc }
        }
    }
}

/// The result of one pass over the pending text in thinking mode.
pub struct ThinkingModel {
    /// The thinking lines found, joined by line feeds.
    pub reasoning: Option<Seq<char>>,
    /// What stays pending.
    pub remaining: Seq<char>,
    /// Thinking is over.
    pub ended: bool,
    /// The accumulated reasoning after this pass.
    pub reasoning_content: Seq<char>,
    /// The stashed incomplete line after this pass.
    pub current_line: Seq<char>,
}

pub open spec fn thinking_content(
    pending: Seq<char>,
    reasoning_content: Seq<char>,
    current_line: Seq<char>,
) -> ThinkingModel {
    let all = lines(pending);
    let scan = scan_lines(
        pending,
        all,
        0,
        ScanModel { chunks: Seq::empty(), processed: 0, ended: false, current_line },
    );
    let combined = join(scan.chunks, newline());
    let grown = reasoning_content + combined;
    ThinkingModel {
        reasoning: if scan.chunks.len() > 0 {
            Some(combined)
        } else {
            None
        },
        remaining: if 0 <= scan.processed < all.len() {
            join(all.subrange(scan.processed, all.len() as int), newline())
        } else if scan.current_line.len() > 0 && !scan.ended {
            quote_prefix() + scan.current_line
        } else {
            Seq::empty()
        },
        ended: scan.ended,
        reasoning_content: if scan.chunks.len() == 0 {
            reasoning_content
        } else if ends_with(grown, newline()) {
            grown
        } else {
            grown + newline()
        },
        current_line: scan.current_line,
    }
}

/// The result of feeding one piece of text to the parser: the new state
/// and what is released, in the order in which it stood in the text:
/// normal content before the thinking block, the thinking itself, normal
/// content after the block.
pub struct ChunkModel {
    pub ctx: ContextModel,
    pub before: Option<Seq<char>>,
    pub reasoning: Option<Seq<char>>,
    pub after: Option<Seq<char>>,
}

/// The normal content of a result as one text.
pub open spec fn merged_content(before: Option<Seq<char>>, after: Option<Seq<char>>) -> Option<
    Seq<char>,
> {
    match (before, after) {
        (Some(b), Some(a)) => Some(b + a),
        (Some(b), None) => Some(b),
        (None, a) => a,
    }
}

/// The second half of the parser: the pending text is looked at in
/// thinking mode, or released once thinking is over.
pub open spec fn thinking_phase(ctx: ContextModel, before: Option<Seq<char>>) -> ChunkModel {
    if ctx.thinking_started && ctx.in_thinking_mode {
        let o = thinking_content(ctx.pending_text, ctx.reasoning_content, ctx.current_reasoning_line);
        let c1 = ContextModel {
            reasoning_content: o.reasoning_content,
            current_reasoning_line: o.current_line,
            pending_text: o.remaining,
            ..ctx
        };
        if o.ended {
            if !is_blank(o.remaining) {
                ChunkModel {
                    ctx: ContextModel {
                        in_thinking_mode: false,
                        content: c1.content + o.remaining,
                        pending_text: Seq::empty(),
                        ..c1
                    },
                    before,
                    reasoning: o.reasoning,
                    after: Some(o.remaining),
                }
            } else {
                ChunkModel {
                    ctx: ContextModel { in_thinking_mode: false, ..c1 },
                    before,
                    reasoning: o.reasoning,
                    after: None,
                }
            }
        } else {
            ChunkModel { ctx: c1, before, reasoning: o.reasoning, after: None }
        }
    } else if ctx.thinking_started && !ctx.in_thinking_mode && !is_blank(ctx.pending_text) {
        ChunkModel {
            ctx: ContextModel {
                content: ctx.content + ctx.pending_text,
                pending_text: Seq::empty(),
                ..ctx
            },
            before,
            reasoning: None,
            after: Some(ctx.pending_text),
        }
    } else {
        ChunkModel { ctx, before, reasoning: None, after: None }
    }
}

/// What the parser does with a new piece of text: the piece joins the
/// pending text; before thinking has started, text up to a marker (all of
/// it, where there is none) is normal content unless it is blank; from the
/// marker on, `thinking_phase` decides.
pub open spec fn text_chunk(ctx: ContextModel, new_text: Seq<char>) -> ChunkModel {
    let pending = ctx.pending_text + new_text;
    if !ctx.thinking_started {
        match detect_thinking_start(pending) {
            Some(pos) => {
                let before = pending.subrange(0, pos);
                let after = pending.subrange(pos, pending.len() as int);
                let emit = !is_blank(before);
                thinking_phase(
                    ContextModel {
                        thinking_started: true,
                        in_thinking_mode: true,
                        content: if emit {
                            ctx.content + before
                        } else {
                            ctx.content
                        },
                        pending_text: after_marker(after),
                        ..ctx
                    },
                    if emit {
                        Some(before)
                    } else {
                        None
                    },
                )
            },
            None => if !is_blank(pending) {
                ChunkModel {
                    ctx: ContextModel {
                        content: ctx.content + pending,
                        pending_text: Seq::empty(),
                        ..ctx
                    },
                    before: Some(pending),
                    reasoning: None,
                    after: None,
                }
            } else {
                ChunkModel {
                    ctx: ContextModel { pending_text: pending, ..ctx },
                    before: None,
                    reasoning: None,
                    after: None,
                }
            },
        }
    } else {
        thinking_phase(ContextModel { pending_text: pending, ..ctx }, None)
    }
}

/// What one piece of text released.
#[derive(Debug)]
pub struct TextParts {
    pub before: Option<String>,
    pub reasoning: Option<String>,
    pub after: Option<String>,
}

pub open spec fn opt_view(v: Option<Vec<char>>) -> Option<Seq<char>> {
    match v {
        Some(x) => Some(x@),
        None => None,
    }
}

fn opt_string(v: &Option<Vec<char>>) -> (r: Option<String>)
    ensures
        r.deep_view() == opt_view(*v),
{
    match v {
        Some(x) => Some(string_of(x)),
        None => None,
    }
}

fn same_segment_exec(text: &Vec<char>, line: &Vec<char>, next: &Vec<char>) -> (r: bool)
    ensures
        r == same_segment(text@, line@, next@),
{
    match find_in(text, line, 0) {
        Some(cur) => match find_in(text, next, cur) {
            Some(pos) => {
                let start = cur + line.len();
                if start <= pos {
                    let between = subvec(text, start, pos);
                    vec_next_newline(&between, 0) >= between.len()
                } else {
                    false
                }
            },
            None => false,
        },
        None => false,
    }
}

fn merge_following_exec(
    text: &Vec<char>,
    all: &Vec<Vec<char>>,
    line: &Vec<char>,
    from: usize,
    full: &mut Vec<char>,
) -> (j: usize)
    requires
        from <= all.len(),
    ensures
        (final(full)@, j as int) == merge_following(
            text@,
            vec_views(all@),
            line@,
            from as int,
            old(full)@,
        ),
        from <= j <= all.len(),
{
    let prefix = quote_prefix_vec();
    let mut j: usize = from;
    while j < all.len()
        invariant
            from <= j <= all.len(),
            prefix@ == quote_prefix(),
            merge_following(text@, vec_views(all@), line@, from as int, old(full)@)
                == merge_following(text@, vec_views(all@), line@, j as int, full@),
        decreases all.len() - j,
    {
        let next = vec_trim(&all[j]);
        assert(vec_views(all@)[j as int] == all@[j as int]@);
        if !vec_starts_with(&next, &prefix) && next.len() > 0 {
            if same_segment_exec(text, line, &next) {
                append(full, &next);
                j += 1;
            } else {
                return j;
            }
        } else if next.len() == 0 {
            j += 1;
        } else {
            return j;
        }
    }
    j
}

/// The executable state of a pass over the lines.
struct Scan {
    chunks: Vec<Vec<char>>,
    processed: usize,
    ended: bool,
    current_line: Vec<char>,
}

impl Scan {
    spec fn model(&self) -> ScanModel {
        ScanModel {
            chunks: vec_views(self.chunks@),
            processed: self.processed as int,
            ended: self.ended,
            current_line: self.current_line@,
        }
    }
}

#[verifier::loop_isolation(false)]
fn scan_lines_exec(text: &Vec<char>, all: &Vec<Vec<char>>, current_line: Vec<char>) -> (r: Scan)
    ensures
        r.model() == scan_lines(
            text@,
            vec_views(all@),
            0,
            ScanModel {
                chunks: Seq::empty(),
                processed: 0,
                ended: false,
                current_line: current_line@,
            },
        ),
        r.processed <= all.len(),
{
    let prefix = quote_prefix_vec();
    let bare = bare_quote_vec();
    let nl = newline_vec();
    let ghost start = ScanModel {
        chunks: Seq::empty(),
        processed: 0,
        ended: false,
        current_line: current_line@,
    };
    let mut acc = Scan { chunks: Vec::new(), processed: 0, ended: false, current_line };
    assert(vec_views(acc.chunks@) =~= Seq::<Seq<char>>::empty());
    let mut i: usize = 0;
    while i < all.len()
        invariant
            i <= all.len(),
            acc.processed <= all.len(),
            prefix@ == quote_prefix(),
            bare@ == bare_quote(),
            nl@ == newline(),
            scan_lines(text@, vec_views(all@), 0, start) == scan_lines(
                text@,
                vec_views(all@),
                i as int,
                acc.model(),
            ),
        decreases all.len() - i,
    {
        assert(vec_views(all@)[i as int] == all@[i as int]@);
        let t = vec_trim(&all[i]);
        let is_bare = vec_eq(&t, &bare);
        if vec_starts_with(&t, &prefix) || is_bare {
            let content = if is_bare {
                let e: Vec<char> = Vec::new();
                assert(e@ =~= Seq::<char>::empty());
                e
            } else {
                subvec(&t, prefix.len(), t.len())
            };
            assert(content@ == thinking_text(t@));
            if i == all.len() - 1 && !vec_ends_with(text, &nl) {
                acc.current_line = content;
                return acc;
            } else {
                let mut full = content;
                let j = merge_following_exec(text, all, &all[i], i + 1, &mut full);
                let ghost before = vec_views(acc.chunks@);
                acc.chunks.push(full);
                assert(vec_views(acc.chunks@) =~= before.push(full@));
                acc.processed = j;
            }
        } else if t.len() == 0 {
            acc.processed = i + 1;
        } else {
            acc.ended = true;
            acc.processed = i;
            return acc;
        }
        i += 1;
    }
    acc
}

/// The tail `all[from..]` of the lines.
fn lines_from(all: &Vec<Vec<char>>, from: usize) -> (r: Vec<Vec<char>>)
    requires
        from <= all.len(),
    ensures
        vec_views(r@) == vec_views(all@).subrange(from as int, all.len() as int),
{
    let mut r: Vec<Vec<char>> = Vec::new();
    let mut k: usize = from;
    while k < all.len()
        invariant
            from <= k <= all.len(),
            vec_views(r@) == vec_views(all@).subrange(from as int, k as int),
        decreases all.len() - k,
    {
        let ghost before = vec_views(r@);
        let line = subvec(&all[k], 0, all[k].len());
        assert(line@ =~= all@[k as int]@);
        r.push(line);
        assert(vec_views(r@) =~= before.push(all@[k as int]@));
        assert(vec_views(all@).subrange(from as int, k + 1) =~= vec_views(all@).subrange(
            from as int,
            k as int,
        ).push(all@[k as int]@));
        k += 1;
    }
    r
}

/// The parser of inline thinking.
#[derive(Debug, Clone, Copy)]
pub struct ThinkingProcessor;

impl ThinkingProcessor {
    fn detect_thinking_start(text: &Vec<char>) -> (r: Option<usize>)
        ensures
            crate::text::index_view(r) == detect_thinking_start(text@),
            r is Some ==> r->0 <= text.len(),
    {
        match find_in(text, &starred_marker_vec(), 0) {
            Some(p) => Some(p),
            None => find_in(text, &plain_marker_vec(), 0),
        }
    }

    fn process_thinking_content(
        pending: &Vec<char>,
        reasoning_content: &mut Vec<char>,
        current_line: Vec<char>,
    ) -> (r: (Option<Vec<char>>, Vec<char>, bool, Vec<char>))
        ensures
            ({
                let m = thinking_content(pending@, old(reasoning_content)@, current_line@);
                &&& (match r.0 {
                    Some(x) => m.reasoning == Some(x@),
                    None => m.reasoning is None,
                })
                &&& r.1@ == m.remaining
                &&& r.2 == m.ended
                &&& r.3@ == m.current_line
                &&& final(reasoning_content)@ == m.reasoning_content
            }),
    {
        let nl = newline_vec();
        let all = vec_lines(pending);
        let scan = scan_lines_exec(pending, &all, current_line);
        let reasoning = if scan.chunks.len() > 0 {
            let combined = vec_join(&scan.chunks, &nl);
            append(reasoning_content, &combined);
            if !vec_ends_with(reasoning_content, &nl) {
                append(reasoning_content, &nl);
            }
            Some(combined)
        } else {
            None
        };
        let remaining = if scan.processed < all.len() {
            let rest = lines_from(&all, scan.processed);
            vec_join(&rest, &nl)
        } else if scan.current_line.len() > 0 && !scan.ended {
            let mut r = quote_prefix_vec();
            append(&mut r, &scan.current_line);
            r
        } else {
            let e: Vec<char> = Vec::new();
            assert(e@ =~= Seq::<char>::empty());
            e
        };
        (reasoning, remaining, scan.ended, scan.current_line)
    }

    /// Feeds `new_text` to the parser and returns what it released, part
    /// by part.
    pub fn split_text_chunk(ctx: &mut EventContext, new_text: &str) -> (r: TextParts)
        ensures
            final(ctx).deep_view() == text_chunk(old(ctx).deep_view(), new_text@).ctx,
            r.before.deep_view() == text_chunk(old(ctx).deep_view(), new_text@).before,
            r.reasoning.deep_view() == text_chunk(old(ctx).deep_view(), new_text@).reasoning,
            r.after.deep_view() == text_chunk(old(ctx).deep_view(), new_text@).after,
    {
        let mut pending = chars_of(ctx.pending_text.as_str());
        append(&mut pending, &chars_of(new_text));
        let mut before: Option<Vec<char>> = None;
        if !ctx.thinking_started {
            match Self::detect_thinking_start(&pending) {
                Some(pos) => {
                    ctx.thinking_started = true;
                    ctx.in_thinking_mode = true;
                    let head = subvec(&pending, 0, pos);
                    let tail = subvec(&pending, pos, pending.len());
                    if !vec_is_blank(&head) {
                        let mut content = chars_of(ctx.content.as_str());
                        append(&mut content, &head);
                        ctx.content = string_of(&content);
                        before = Some(head);
                    }
                    let starred = starred_marker_vec();
                    let plain = plain_marker_vec();
                    pending = if vec_starts_with(&tail, &starred) {
                        subvec(&tail, starred.len(), tail.len())
                    } else if vec_starts_with(&tail, &plain) {
                        subvec(&tail, plain.len(), tail.len())
                    } else {
                        tail
                    };
                },
                None => {
                    if !vec_is_blank(&pending) {
                        let mut content = chars_of(ctx.content.as_str());
                        append(&mut content, &pending);
                        ctx.content = string_of(&content);
                        ctx.pending_text = String::new();
                        return TextParts {
                            before: Some(string_of(&pending)),
                            reasoning: None,
                            after: None,
                        };
                    } else {
                        ctx.pending_text = string_of(&pending);
                        return TextParts { before: None, reasoning: None, after: None };
                    }
                },
            }
        }
        if ctx.thinking_started && ctx.in_thinking_mode {
            let mut reasoning_content = chars_of(ctx.reasoning_content.as_str());
            let current_line = chars_of(ctx.current_reasoning_line.as_str());
            let (reasoning, remaining, ended, line) = Self::process_thinking_content(
                &pending,
                &mut reasoning_content,
                current_line,
            );
            ctx.reasoning_content = string_of(&reasoning_content);
            ctx.current_reasoning_line = string_of(&line);
            if ended {
                ctx.in_thinking_mode = false;
                if !vec_is_blank(&remaining) {
                    let mut content = chars_of(ctx.content.as_str());
                    append(&mut content, &remaining);
                    ctx.content = string_of(&content);
                    ctx.pending_text = String::new();
                    return TextParts {
                        before: opt_string(&before),
                        reasoning: opt_string(&reasoning),
                        after: Some(string_of(&remaining)),
                    };
                }
            }
            ctx.pending_text = string_of(&remaining);
            TextParts { before: opt_string(&before), reasoning: opt_string(&reasoning), after: None }
        } else if ctx.thinking_started && !ctx.in_thinking_mode && !vec_is_blank(&pending) {
            let mut content = chars_of(ctx.content.as_str());
            append(&mut content, &pending);
            ctx.content = string_of(&content);
            ctx.pending_text = String::new();
            TextParts {
                before: opt_string(&before),
                reasoning: None,
                after: Some(string_of(&pending)),
            }
        } else {
            ctx.pending_text = string_of(&pending);
            TextParts { before: opt_string(&before), reasoning: None, after: None }
        }
    }

    /// Feeds `new_text` to the parser. Returns the reasoning found by this
    /// call and the normal content released by it, the content as one text.
    pub fn process_text_chunk(ctx: &mut EventContext, new_text: &str) -> (r: (
        Option<String>,
        Option<String>,
    ))
        ensures
            final(ctx).deep_view() == text_chunk(old(ctx).deep_view(), new_text@).ctx,
            r.0.deep_view() == text_chunk(old(ctx).deep_view(), new_text@).reasoning,
            r.1.deep_view() == merged_content(
                text_chunk(old(ctx).deep_view(), new_text@).before,
                text_chunk(old(ctx).deep_view(), new_text@).after,
            ),
    {
        let parts = Self::split_text_chunk(ctx, new_text);
        let content = merge_parts(parts.before, parts.after);
        (parts.reasoning, content)
    }
}

/// The normal content of a result as one text.
pub fn merge_parts(before: Option<String>, after: Option<String>) -> (r: Option<String>)
    ensures
        r.deep_view() == merged_content(before.deep_view(), after.deep_view()),
{
    match before {
        Some(b) => match after {
            Some(a) => Some(crate::text::concat(b.as_str(), a.as_str())),
            None => Some(b),
        },
        None => after,
    }
}

} // verus!
