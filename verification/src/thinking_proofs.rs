//! What holds of the thinking parser: thinking comes from thinking lines,
//! and the content after it begins at a line that is none.

use crate::split::{lines, trim};
use crate::text::starts_with;
use crate::thinking::{
    is_thinking_line, merge_following, scan_lines, thinking_text, ScanModel,
};
use vstd::prelude::*;

verus! {

/// The chunk begins with the text of a thinking line among `all`.
pub open spec fn from_thinking_line(chunk: Seq<char>, all: Seq<Seq<char>>) -> bool {
    exists|m: int|
        0 <= m < all.len() && is_thinking_line(trim(#[trigger] all[m])) && starts_with(
            chunk,
            thinking_text(trim(all[m])),
        )
}

/// A thinking line that is extended by what follows it still begins with
/// its own text, and the lines that are done with stay within the text.
proof fn lemma_merge_extends(
    text: Seq<char>,
    all: Seq<Seq<char>>,
    line: Seq<char>,
    j: int,
    full: Seq<char>,
    head: Seq<char>,
)
    requires
        starts_with(full, head),
        0 <= j <= all.len(),
    ensures
        starts_with(merge_following(text, all, line, j, full).0, head),
        j <= merge_following(text, all, line, j, full).1 <= all.len(),
    decreases all.len() - j,
{
    if j < all.len() {
        let next = trim(all[j]);
        assert((full + next).subrange(0, head.len() as int) =~= full.subrange(
            0,
            head.len() as int,
        ));
        lemma_merge_extends(text, all, line, j + 1, full + next, head);
        lemma_merge_extends(text, all, line, j + 1, full, head);
    }
}

proof fn lemma_scan(text: Seq<char>, all: Seq<Seq<char>>, i: int, acc: ScanModel)
    requires
        0 <= i,
        !acc.ended,
        0 <= acc.processed <= all.len(),
    ensures
        ({
            let r = scan_lines(text, all, i, acc);
            &&& r.chunks.len() >= acc.chunks.len()
            &&& forall|n: int| 0 <= n < acc.chunks.len() ==> r.chunks[n] == acc.chunks[n]
            &&& forall|n: int|
                acc.chunks.len() <= n < r.chunks.len() ==> from_thinking_line(
                    #[trigger] r.chunks[n],
                    all,
                )
            &&& 0 <= r.processed <= all.len()
            &&& r.ended ==> r.processed < all.len() && !is_thinking_line(trim(all[r.processed]))
                && trim(all[r.processed]).len() > 0
        }),
    decreases all.len() - i,
{
    if i < all.len() {
        let t = trim(all[i]);
        if is_thinking_line(t) {
            if i == all.len() - 1 && !crate::text::ends_with(text, crate::thinking::newline()) {
            } else {
                let m = merge_following(text, all, all[i], i + 1, thinking_text(t));
                assert(thinking_text(t).subrange(0, thinking_text(t).len() as int) =~= thinking_text(
                    t,
                ));
                lemma_merge_extends(text, all, all[i], i + 1, thinking_text(t), thinking_text(t));
                let next = ScanModel { chunks: acc.chunks.push(m.0), processed: m.1, ..acc };
                lemma_scan(text, all, i + 1, next);
                let r = scan_lines(text, all, i + 1, next);
                assert(from_thinking_line(m.0, all));
                assert forall|n: int| acc.chunks.len() <= n < r.chunks.len() implies from_thinking_line(
                    #[trigger] r.chunks[n],
                    all,
                ) by {
                    if n == acc.chunks.len() {
                        assert(r.chunks[n] == next.chunks[n]);
                    }
                }
                assert forall|n: int| 0 <= n < acc.chunks.len() implies r.chunks[n]
                    == acc.chunks[n] by {
                    assert(r.chunks[n] == next.chunks[n]);
                }
            }
        } else if t.len() == 0 {
            lemma_scan(text, all, i + 1, ScanModel { processed: i + 1, ..acc });
        } else {
        }
    }
}

/// Every piece of thinking that the parser finds in the pending text
/// begins with the text of one of its thinking lines, and where thinking
/// ends, the content that is released begins at a line that is neither
/// blank nor a thinking line.
pub proof fn lemma_reasoning_from_thinking_lines(pending: Seq<char>, current_line: Seq<char>)
    ensures
        ({
            let all = lines(pending);
            let scan = scan_lines(
                pending,
                all,
                0,
                ScanModel { chunks: Seq::empty(), processed: 0, ended: false, current_line },
            );
            &&& forall|n: int|
                0 <= n < scan.chunks.len() ==> from_thinking_line(#[trigger] scan.chunks[n], all)
            &&& scan.ended ==> 0 <= scan.processed < all.len() && !is_thinking_line(
                trim(all[scan.processed]),
            ) && trim(all[scan.processed]).len() > 0
        }),
{
    lemma_scan(
        pending,
        lines(pending),
        0,
        ScanModel { chunks: Seq::empty(), processed: 0, ended: false, current_line },
    );
}

} // verus!
